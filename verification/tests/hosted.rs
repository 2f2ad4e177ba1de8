use tifflin_kernel::arch::hosted::boot::{get_boot_string, get_memory_map, get_video_mode};
use tifflin_kernel::arch::hosted::memory::addresses::{is_global, STACK_SIZE, USER_END};
use tifflin_kernel::arch::hosted::memory::phys::{
    deref_frame, get_multiref_count, mark_free, mark_used, ref_frame,
};
use tifflin_kernel::arch::hosted::memory::virt::{
    can_map_without_alloc, fixed_alloc, get_info, get_phys, is_fixed_alloc, is_reserved,
    post_init, reprotect, temp_map, temp_unmap, unmap, AddressSpace,
};
use tifflin_kernel::arch::hosted::memory::{MemoryMapEnt, MemoryState, ProtectionMode, PAGE_SIZE};
use tifflin_kernel::arch::hosted::print_backtrace;
use tifflin_kernel::arch::hosted::x86_io::{inb, inl, inw, outb, outl, outw};

#[test]
fn address_space_can_always_be_had() {
    let _ = AddressSpace::pid0();
    assert!(AddressSpace::new(0, 0).is_ok());
    assert!(AddressSpace::new(0x1000, 0x8000).is_ok());
    assert!(AddressSpace::new(usize::MAX, 0).is_ok());
}

#[test]
fn layout_constants() {
    assert_eq!(PAGE_SIZE, 4096);
    assert_eq!(STACK_SIZE, 0x5000);
    assert_eq!(USER_END, 0x8000_0000);
}

#[test]
fn virtual_memory_answers() {
    post_init();
    for addr in [0usize, 0x1000, USER_END, usize::MAX] {
        assert!(!is_global(addr));
        assert_eq!(get_phys(addr), 0);
        assert!(is_reserved(addr));
        assert_eq!(get_info(addr), None);
        assert!(!is_fixed_alloc(addr, 16));
        assert!(!can_map_without_alloc(addr));
        assert_eq!(unmap(addr), None);
        tifflin_kernel::arch::hosted::memory::virt::map(addr, 0x2000, ProtectionMode::KernelRW);
        reprotect(addr, ProtectionMode::UserRO);
        temp_unmap(addr);
    }
    assert_eq!(fixed_alloc(0x1000, 4), None);
    assert_eq!(temp_map(0x1000), 0);
}

#[test]
fn physical_frame_answers() {
    for frame in [0u64, 1, u64::MAX] {
        ref_frame(frame);
        assert_eq!(deref_frame(frame), 1);
        assert_eq!(get_multiref_count(frame), 0);
        assert!(!mark_free(frame));
        mark_used(frame);
    }
}

#[test]
fn boot_information() {
    assert_eq!(get_boot_string(), "");
    assert_eq!(get_video_mode(), None);
    assert_eq!(
        get_memory_map(),
        vec![MemoryMapEnt { start: 0, size: 0, state: MemoryState::Free, domain: 0 }]
    );
}

#[test]
fn ports_and_pci_read_zero() {
    tifflin_kernel::arch::hosted::pci::write(0x8000_0000, 0xFFFF_FFFF);
    assert_eq!(tifflin_kernel::arch::hosted::pci::read(0x8000_0000), 0);
    assert_eq!(tifflin_kernel::arch::hosted::pci::read(0), 0);
    outb(0x3F8, 0x41);
    outw(0x3F8, 0x4141);
    outl(0x3F8, 0x4141_4141);
    assert_eq!(inb(0x3F8), 0);
    assert_eq!(inw(0x3F8), 0);
    assert_eq!(inl(0x3F8), 0);
    print_backtrace();
}
