use tifflin_kernel::arch::amd64::apic::{
    ApicReg, IOAPICRegs, IRQHandler, ISRHandle, TriggerMode, IOAPIC, LAPIC, TIMER_VEC,
};

#[test]
fn register_numbers() {
    assert_eq!(ApicReg::LapicId.index(), 0x2);
    assert_eq!(ApicReg::Eoi.index(), 0xB);
    assert_eq!(ApicReg::Sir.index(), 0xF);
    assert_eq!(ApicReg::in_service(0).index(), 0x10);
    assert_eq!(ApicReg::in_service(7).index(), 0x17);
    assert_eq!(ApicReg::tmr(3).index(), 0x1B);
    assert_eq!(ApicReg::irr(7).index(), 0x27);
    assert_eq!(ApicReg::ErrStatus.index(), 0x28);
    assert_eq!(ApicReg::TmrDivide.index(), 0x3E);
}

#[test]
fn lapic_init_writes_its_registers() {
    let mut page = [0xDEAD_BEEFu32; 64];
    page[ApicReg::LapicId.index()] = 5;
    let mut lapic = LAPIC::new(0xFEE0_0000, page);
    let msr = lapic.init(0xFEE0_0900);
    assert_eq!(msr, 0xFEE0_0900);
    assert_eq!(lapic.read_reg(ApicReg::Sir), 0x17F);
    assert_eq!(lapic.read_reg(ApicReg::InitCount), 0x100000);
    assert_eq!(lapic.read_reg(ApicReg::TmrDivide), 3);
    assert_eq!(lapic.read_reg(ApicReg::LvtTimer), TIMER_VEC as u32);
    assert_eq!(lapic.read_reg(ApicReg::LvtTimer), 0x7E);
    assert_eq!(lapic.read_reg(ApicReg::LvtThermalSensor), 0);
    assert_eq!(lapic.read_reg(ApicReg::LvtPermCounters), 0);
    assert_eq!(lapic.read_reg(ApicReg::LvtLint0), 0);
    assert_eq!(lapic.read_reg(ApicReg::LvtLint1), 0);
    assert_eq!(lapic.read_reg(ApicReg::LvtError), 0);
    assert_eq!(lapic.read_reg(ApicReg::Eoi), 0);
    // The other registers are as they were.
    assert_eq!(lapic.read_reg(ApicReg::LapicId), 5);
    assert_eq!(lapic.read_reg(ApicReg::Icr), 0xDEAD_BEEF);
    assert_eq!(lapic.read_reg(ApicReg::CurCount), 0xDEAD_BEEF);
}

#[test]
fn lapic_base_keeps_the_boot_processor_bit_only() {
    let mut lapic = LAPIC::new(0xFEE0_0000, [0; 64]);
    assert_eq!(lapic.init(0), 0xFEE0_0800);
    assert_eq!(lapic.init(0xFFFF_FFFF_FFFF_FEFF), 0xFEE0_0800);
    assert_eq!(lapic.init(0x100), 0xFEE0_0900);
    let mut other = LAPIC::new(0x1_2345_6000, [0; 64]);
    assert_eq!(other.init(0x1FF), 0x1_2345_6900);
}

#[test]
fn lapic_eoi_and_timer_write_the_eoi_register() {
    let mut lapic = LAPIC::new(0xFEE0_0000, [0; 64]);
    lapic.eoi(0x31);
    assert_eq!(lapic.read_reg(ApicReg::Eoi), 0x31);
    lapic.local_timer(0x7E);
    assert_eq!(lapic.read_reg(ApicReg::Eoi), 0x7E);
    lapic.write_reg(ApicReg::Tpr, 0x20);
    assert_eq!(lapic.read_reg(ApicReg::Tpr), 0x20);
    assert_eq!(lapic.read_reg(ApicReg::Eoi), 0x7E);
}

#[test]
fn lapic_vector_status_reads_the_bit_of_the_vector() {
    let mut page = [0u32; 64];
    // Vector 0x7E = 126: register 3 of each bank, bit 30.
    page[0x10 + 3] = 1 << 30;
    page[0x18 + 3] = 0;
    page[0x20 + 3] = (1 << 30) | 1;
    page[0x28] = 0x40;
    let lapic = LAPIC::new(0xFEE0_0000, page);
    assert_eq!(lapic.get_vec_status(0x7E), (true, false, true, 0x40));
    assert_eq!(lapic.get_vec_status(96), (false, false, true, 0x40));
    assert_eq!(lapic.get_vec_status(0x7D), (false, false, false, 0x40));
    assert_eq!(lapic.get_vec_status(30), (false, false, false, 0x40));
    assert_eq!(lapic.get_vec_status(255), (false, false, false, 0x40));
}

#[test]
fn lapic_global_init_keeps_the_timer_binding() {
    let mut lapic = LAPIC::new(0xFEE0_0000, [7; 64]);
    lapic.global_init(Ok(ISRHandle { idx: 3 }));
    assert_eq!(lapic.read_reg(ApicReg::Sir), 7);
    assert_eq!(ISRHandle::default(), ISRHandle { idx: usize::MAX });
}

fn ioapic(lines: u32, base: usize) -> IOAPIC {
    let mut regs = vec![0u32; 0x10 + 2 * lines as usize];
    regs[0] = 0x0200_0000;
    regs[1] = ((lines - 1) << 16) | 0x11;
    for i in 0..lines as usize {
        regs[0x10 + 2 * i] = 0x1_0000;
    }
    IOAPIC::new(IOAPICRegs::new(regs), base)
}

#[test]
fn ioapic_knows_its_lines() {
    let io = ioapic(24, 16);
    assert_eq!(io.first(), 16);
    assert!(!io.contains(15));
    assert!(io.contains(16));
    assert!(io.contains(39));
    assert!(!io.contains(40));
    assert!(!io.contains(0));
    let one = ioapic(1, 0);
    assert!(one.contains(0));
    assert!(!one.contains(1));
}

#[test]
fn ioapic_set_irq_writes_the_redirection_entry() {
    let mut io = ioapic(24, 0);
    io.set_irq(4, 0x34, 2, TriggerMode::LevelLow, IRQHandler { idx: 9 });
    assert_eq!(io.get_irq_reg(4), 0x0200_0000_0000_A034);
    assert_eq!(io.get_callback(4), IRQHandler { idx: 9 });
    io.set_irq(0, 0xFF, 0xFF, TriggerMode::EdgeHi, IRQHandler { idx: 1 });
    assert_eq!(io.get_irq_reg(0), 0xFF00_0000_0000_00FF);
    io.set_irq(23, 0x20, 0x1FF, TriggerMode::EdgeLow, IRQHandler { idx: 2 });
    // Only the low byte of the destination fits.
    assert_eq!(io.get_irq_reg(23), 0xFF00_0000_0000_2020);
    io.set_irq(1, 0x21, 0, TriggerMode::LevelHi, IRQHandler { idx: 3 });
    assert_eq!(io.get_irq_reg(1), 0x0000_0000_0000_8021);
    // The other lines are as they were.
    assert_eq!(io.get_irq_reg(4), 0x0200_0000_0000_A034);
    assert_eq!(io.get_irq_reg(5), 0x0000_0000_0001_0000);
    assert_eq!(io.get_callback(4), IRQHandler { idx: 9 });
    assert_eq!(io.get_callback(23), IRQHandler { idx: 2 });
}

#[test]
fn ioapic_disable_masks_the_line() {
    let mut io = ioapic(4, 0);
    io.set_irq(2, 0x40, 1, TriggerMode::EdgeHi, IRQHandler { idx: 5 });
    assert_eq!(io.get_irq_reg(2), 0x0100_0000_0000_0040);
    io.disable_irq(2);
    assert_eq!(io.get_irq_reg(2), 0x0100_0000_0001_0000);
    assert_eq!(io.get_callback(2), IRQHandler { idx: 5 });
    io.eoi(2);
    assert_eq!(io.get_irq_reg(2), 0x0100_0000_0001_0000);
}

#[test]
fn ioapic_registers_are_read_and_written_by_number() {
    let mut regs = IOAPICRegs::new(vec![1, 2, 3]);
    assert_eq!(regs.len(), 3);
    assert_eq!(regs.read(1), 2);
    regs.write(1, 0xFFFF_FFFF);
    assert_eq!(regs.read(0), 1);
    assert_eq!(regs.read(1), 0xFFFF_FFFF);
    assert_eq!(regs.read(2), 3);
}

#[test]
fn ioapic_line_count_comes_from_the_version_register() {
    // Bits 16 to 23 hold the number of lines less one; the other bits do not matter.
    let mut regs = vec![0u32; 0x10 + 2 * 256];
    regs[1] = 0xFFFF_FFFF;
    let io = IOAPIC::new(IOAPICRegs::new(regs), 100);
    assert!(io.contains(100));
    assert!(io.contains(355));
    assert!(!io.contains(356));
    let mut regs = vec![0u32; 0x12];
    regs[1] = 0xFF00_FFFF;
    let io = IOAPIC::new(IOAPICRegs::new(regs), 7);
    assert!(io.contains(7));
    assert!(!io.contains(8));
    assert!(!io.contains(6));
}
