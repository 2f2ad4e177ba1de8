//! x86 APIC: the registers of the local APIC and of an I/O APIC, and what the
//! kernel writes to them.
//!
//! A register page is held as the values of its registers. The caller moves
//! them between this value and the mapped hardware.
use vstd::prelude::*;

verus! {

/// The interrupt vector of the local APIC timer.
pub const TIMER_VEC: u8 = 0x7E;

/// Number of registers in the page of a local APIC.
pub const LAPIC_REGS: usize = 64;

/// Number of the first redirection register of an I/O APIC.
pub const IOAPIC_REDIR_BASE: usize = 0x10;

/// How an interrupt line signals.
#[derive(Debug, Clone, Copy, PartialEq, Eq, Structural)]
pub enum TriggerMode {
    LevelHi,
    LevelLow,
    EdgeHi,
    EdgeLow,
}

/// A register of the local APIC.
#[derive(Debug, Clone, Copy, PartialEq, Eq, Structural)]
pub enum ApicReg {
    LapicId,
    LapicVer,
    /// Task priority
    Tpr,
    /// Arbitration priority
    Apr,
    /// Processor priority
    Ppr,
    Eoi,
    /// Remote read
    Rrd,
    /// Local destination
    LocalDest,
    /// Destination format
    DestFmt,
    /// Spurious interrupt vector
    Sir,
    /// In-service register, one of eight
    InService(u8),
    /// Trigger mode, one of eight
    Tmr(u8),
    /// Interrupt request register, one of eight
    Irr(u8),
    /// Error status
    ErrStatus,
    LvtCmci,
    /// Interrupt command register
    Icr,
    LvtTimer,
    LvtThermalSensor,
    LvtPermCounters,
    LvtLint0,
    LvtLint1,
    LvtError,
    InitCount,
    CurCount,
    TmrDivide,
}

impl ApicReg {
    /// The number of the register in the page.
    pub open spec fn number(self) -> int {
        match self {
            ApicReg::LapicId => 0x2,
            ApicReg::LapicVer => 0x3,
            ApicReg::Tpr => 0x8,
            ApicReg::Apr => 0x9,
            ApicReg::Ppr => 0xA,
            ApicReg::Eoi => 0xB,
            ApicReg::Rrd => 0xC,
            ApicReg::LocalDest => 0xD,
            ApicReg::DestFmt => 0xE,
            ApicReg::Sir => 0xF,
            ApicReg::InService(n) => 0x10 + n,
            ApicReg::Tmr(n) => 0x18 + n,
            ApicReg::Irr(n) => 0x20 + n,
            ApicReg::ErrStatus => 0x28,
            ApicReg::LvtCmci => 0x2F,
            ApicReg::Icr => 0x30,
            ApicReg::LvtTimer => 0x32,
            ApicReg::LvtThermalSensor => 0x33,
            ApicReg::LvtPermCounters => 0x34,
            ApicReg::LvtLint0 => 0x35,
            ApicReg::LvtLint1 => 0x36,
            ApicReg::LvtError => 0x37,
            ApicReg::InitCount => 0x38,
            ApicReg::CurCount => 0x39,
            ApicReg::TmrDivide => 0x3E,
        }
    }

    /// Whether the register lies in the page: a banked register does if its bank is below eight.
    pub open spec fn valid(self) -> bool {
        match self {
            ApicReg::InService(n) => n < 8,
            ApicReg::Tmr(n) => n < 8,
            ApicReg::Irr(n) => n < 8,
            _ => true,
        }
    }

    pub fn index(self) -> (r: usize)
        requires
            self.valid(),
        ensures
            r == self.number(),
            r < LAPIC_REGS,
    {
        match self {
            ApicReg::LapicId => 0x2,
            ApicReg::LapicVer => 0x3,
            ApicReg::Tpr => 0x8,
            ApicReg::Apr => 0x9,
            ApicReg::Ppr => 0xA,
            ApicReg::Eoi => 0xB,
            ApicReg::Rrd => 0xC,
            ApicReg::LocalDest => 0xD,
            ApicReg::DestFmt => 0xE,
            ApicReg::Sir => 0xF,
            ApicReg::InService(n) => 0x10 + n as usize,
            ApicReg::Tmr(n) => 0x18 + n as usize,
            ApicReg::Irr(n) => 0x20 + n as usize,
            ApicReg::ErrStatus => 0x28,
            ApicReg::LvtCmci => 0x2F,
            ApicReg::Icr => 0x30,
            ApicReg::LvtTimer => 0x32,
            ApicReg::LvtThermalSensor => 0x33,
            ApicReg::LvtPermCounters => 0x34,
            ApicReg::LvtLint0 => 0x35,
            ApicReg::LvtLint1 => 0x36,
            ApicReg::LvtError => 0x37,
            ApicReg::InitCount => 0x38,
            ApicReg::CurCount => 0x39,
            ApicReg::TmrDivide => 0x3E,
        }
    }

    pub fn in_service(reg: u8) -> (r: ApicReg)
        requires
            reg < 8,
        ensures
            r == ApicReg::InService(reg),
    {
        ApicReg::InService(reg)
    }

    pub fn tmr(reg: u8) -> (r: ApicReg)
        requires
            reg < 8,
        ensures
            r == ApicReg::Tmr(reg),
    {
        ApicReg::Tmr(reg)
    }

    pub fn irr(reg: u8) -> (r: ApicReg)
        requires
            reg < 8,
        ensures
            r == ApicReg::Irr(reg),
    {
        ApicReg::Irr(reg)
    }
}

/// Handle of a bound interrupt service routine.
#[derive(Debug, Clone, Copy, PartialEq, Eq, Structural)]
pub struct ISRHandle {
    pub idx: usize,
}

impl Default for ISRHandle {
    /// The handle that stands for no binding.
    fn default() -> (r: Self)
        ensures
            r.idx == usize::MAX,
    {
        ISRHandle { idx: usize::MAX }
    }
}

/// The local APIC of a processor.
pub struct LAPIC {
    paddr: u64,
    mapping: [u32; 64],
    timer_isr: ISRHandle,
}

/// The value of the base-address register that enables the local APIC at
/// `paddr` and keeps the boot-processor bit of the former value `oldaddr`.
pub open spec fn apic_base(paddr: u64, oldaddr: u64) -> u64 {
    paddr | (oldaddr & 0x100) | 0x800
}

/// The register page after a write of `value` to the register `reg`.
pub open spec fn written(page: Seq<u32>, reg: ApicReg, value: u32) -> Seq<u32> {
    page.update(reg.number(), value)
}

/// The register page as `init` leaves it.
pub open spec fn initialised(page: Seq<u32>) -> Seq<u32> {
    let p = written(page, ApicReg::Sir, 0x17F);
    let p = written(p, ApicReg::InitCount, 0x100000);
    let p = written(p, ApicReg::TmrDivide, 3);
    let p = written(p, ApicReg::LvtTimer, TIMER_VEC as u32);
    let p = written(p, ApicReg::LvtThermalSensor, 0);
    let p = written(p, ApicReg::LvtPermCounters, 0);
    let p = written(p, ApicReg::LvtLint0, 0);
    let p = written(p, ApicReg::LvtLint1, 0);
    let p = written(p, ApicReg::LvtError, 0);
    written(p, ApicReg::Eoi, 0)
}

/// Whether bit `idx % 32` of the register `reg` is set in `page`.
pub open spec fn vector_bit(page: Seq<u32>, reg: ApicReg, idx: u8) -> bool {
    page[reg.number()] & (1u32 << (idx % 32)) != 0
}

impl LAPIC {
    /// The physical address of the register page.
    pub closed spec fn base(&self) -> u64 {
        self.paddr
    }

    /// The registers, by number.
    pub closed spec fn page(&self) -> Seq<u32> {
        self.mapping@
    }

    /// The binding of the timer interrupt.
    pub closed spec fn timer(&self) -> ISRHandle {
        self.timer_isr
    }

    /// The local APIC whose register page at `paddr` holds `mapping`.
    pub fn new(paddr: u64, mapping: [u32; 64]) -> (r: LAPIC)
        ensures
            r.base() == paddr,
            r.page() == mapping@,
            r.timer() == (ISRHandle { idx: usize::MAX }),
    {
        LAPIC { paddr, mapping, timer_isr: ISRHandle::default() }
    }

    /// Initialise the LAPIC structures once self is in its final location:
    /// takes the result of binding the timer vector, which must have succeeded.
    pub fn global_init(&mut self, bound: Result<ISRHandle, ()>)
        requires
            bound is Ok,
        ensures
            final(self).timer() == bound->Ok_0,
            final(self).base() == old(self).base(),
            final(self).page() == old(self).page(),
    {
        self.timer_isr = match bound {
            Ok(v) => v,
            Err(_) => unreached(),
        };
    }

    /// Initialise the LAPIC (for this CPU). `oldaddr` is the value of the
    /// base-address register; the result is the value to write to it.
    pub fn init(&mut self, oldaddr: u64) -> (r: u64)
        ensures
            r == apic_base(old(self).base(), oldaddr),
            final(self).page() == initialised(old(self).page()),
            final(self).base() == old(self).base(),
            final(self).timer() == old(self).timer(),
    {
        let is_bsp = oldaddr & 0x100;
        // Enable LAPIC (and set Spurious to 127)
        self.write_reg(ApicReg::Sir, 0x7F | (1 << 8));
        self.write_reg(ApicReg::InitCount, 0x100000);
        // Timer Divide = 16
        self.write_reg(ApicReg::TmrDivide, 3);
        // Enable Timer
        self.write_reg(ApicReg::LvtTimer, TIMER_VEC as u32);
        // "Disable" Thermal Sensor
        self.write_reg(ApicReg::LvtThermalSensor, 0);
        // "Disable" ? Counters
        self.write_reg(ApicReg::LvtPermCounters, 0);
        // "Disable" LINT0
        self.write_reg(ApicReg::LvtLint0, 0);
        // "Disable" LINT1
        self.write_reg(ApicReg::LvtLint1, 0);
        // "Disable" Error
        self.write_reg(ApicReg::LvtError, 0);
        // EOI - Just to make sure
        self.eoi(0);
        assert(0x7Fu32 | (1u32 << 8) == 0x17F) by (bit_vector);
        self.paddr | is_bsp | 0x800
    }

    /// Signals the end of the interrupt `num`.
    pub fn eoi(&mut self, num: usize)
        ensures
            final(self).page() == written(old(self).page(), ApicReg::Eoi, num as u32),
            final(self).base() == old(self).base(),
            final(self).timer() == old(self).timer(),
    {
        self.write_reg(ApicReg::Eoi, #[verifier::truncate] (num as u32));
    }

    pub fn read_reg(&self, reg: ApicReg) -> (r: u32)
        requires
            reg.valid(),
        ensures
            r == self.page()[reg.number()],
    {
        self.mapping[reg.index()]
    }

    pub fn write_reg(&mut self, idx: ApicReg, value: u32)
        requires
            idx.valid(),
        ensures
            final(self).page() == written(old(self).page(), idx, value),
            final(self).base() == old(self).base(),
            final(self).timer() == old(self).timer(),
    {
        let i = idx.index();
        self.mapping[i] = value;
    }

    /// Whether the vector `idx` is in service, whether it is level triggered,
    /// whether it is requested, and the error status.
    pub fn get_vec_status(&self, idx: u8) -> (r: (bool, bool, bool, u32))
        ensures
            r.0 == vector_bit(self.page(), ApicReg::InService(idx / 32), idx),
            r.1 == vector_bit(self.page(), ApicReg::Tmr(idx / 32), idx),
            r.2 == vector_bit(self.page(), ApicReg::Irr(idx / 32), idx),
            r.3 == self.page()[ApicReg::ErrStatus.number()],
    {
        let reg = idx / 32;
        let bit = idx % 32;
        let mask: u32 = 1u32 << bit;
        let in_svc = self.read_reg(ApicReg::in_service(reg)) & mask != 0;
        let mode = self.read_reg(ApicReg::tmr(reg)) & mask != 0;
        let in_req = self.read_reg(ApicReg::irr(reg)) & mask != 0;
        let err = self.read_reg(ApicReg::ErrStatus);

        (in_svc, mode, in_req, err)
    }

    /// The timer interrupt: it is acknowledged at once.
    pub fn local_timer(&mut self, isr: usize)
        ensures
            final(self).page() == written(old(self).page(), ApicReg::Eoi, isr as u32),
            final(self).base() == old(self).base(),
            final(self).timer() == old(self).timer(),
    {
        self.eoi(isr);
    }
}

/// The function that serves an interrupt line, by the number under which
/// the kernel knows it.
#[derive(Debug, Clone, Copy, PartialEq, Eq, Structural)]
pub struct IRQHandler {
    pub idx: usize,
}

/// The registers of an I/O APIC, by number. The hardware shows them one at a
/// time, through a select register and a window.
pub struct IOAPICRegs {
    mapping: Vec<u32>,
}

impl View for IOAPICRegs {
    type V = Seq<u32>;

    closed spec fn view(&self) -> Seq<u32> {
        self.mapping@
    }
}

impl IOAPICRegs {
    /// The register file that holds `mapping`.
    pub fn new(mapping: Vec<u32>) -> (r: IOAPICRegs)
        ensures
            r@ == mapping@,
    {
        IOAPICRegs { mapping }
    }

    pub fn len(&self) -> (r: usize)
        ensures
            r == self@.len(),
    {
        self.mapping.len()
    }

    pub fn read(&self, idx: usize) -> (r: u32)
        requires
            idx < self@.len(),
        ensures
            r == self@[idx as int],
    {
        self.mapping[idx]
    }

    pub fn write(&mut self, idx: usize, data: u32)
        requires
            idx < old(self)@.len(),
        ensures
            final(self)@ == old(self)@.update(idx as int, data),
    {
        self.mapping.set(idx, data);
    }
}

/// The number of interrupt lines that the version register `v` announces.
pub open spec fn lines_announced(v: u32) -> int {
    (v as int / 0x1_0000) % 0x100 + 1
}

/// The low word of a redirection entry: the vector, and how the line signals.
pub open spec fn redirection_low(vector: u8, mode: TriggerMode) -> u32 {
    let flags: u32 = match mode {
        TriggerMode::EdgeHi => 0u32,
        TriggerMode::EdgeLow => 0x2000u32,
        TriggerMode::LevelHi => 0x8000u32,
        TriggerMode::LevelLow => 0xA000u32,
    };
    flags | vector as u32
}

/// The high word of a redirection entry: the destination APIC in its top byte.
pub open spec fn redirection_high(apic: u32) -> u32 {
    apic << 24
}

/// The low word of a redirection entry that masks the line.
pub const REDIRECTION_MASKED: u32 = 0x1_0000;

/// An I/O APIC: a block of interrupt lines, each with a redirection entry
/// and a handler.
pub struct IOAPIC {
    regs: IOAPICRegs,
    num_lines: usize,
    first_irq: usize,
    handlers: Vec<Option<IRQHandler>>,
}

impl IOAPIC {
    /// The registers, by number.
    pub closed spec fn registers(&self) -> Seq<u32> {
        self.regs@
    }

    /// The number of interrupt lines.
    pub closed spec fn lines(&self) -> int {
        self.num_lines as int
    }

    /// The global number of the first line.
    pub closed spec fn first_line(&self) -> int {
        self.first_irq as int
    }

    /// The handler of each line, where it has one.
    pub closed spec fn callbacks(&self) -> Seq<Option<IRQHandler>> {
        self.handlers@
    }

    /// Every line has a place for its handler and its two redirection
    /// registers, and its global number is a machine word.
    pub open spec fn wf(&self) -> bool {
        &&& 1 <= self.lines() <= 256
        &&& self.callbacks().len() == self.lines()
        &&& self.registers().len() >= IOAPIC_REDIR_BASE + 2 * self.lines()
        &&& self.first_line() + self.lines() <= usize::MAX
    }

    /// The I/O APIC with the registers `regs`, whose lines start at the global
    /// number `base`. The number of lines is read from the version register.
    pub fn new(regs: IOAPICRegs, base: usize) -> (r: IOAPIC)
        requires
            regs@.len() >= 2,
            regs@.len() >= IOAPIC_REDIR_BASE + 2 * lines_announced(regs@[1]),
            base + lines_announced(regs@[1]) <= usize::MAX,
        ensures
            r.wf(),
            r.registers() == regs@,
            r.lines() == lines_announced(regs@[1]),
            r.first_line() == base,
            r.callbacks() == Seq::new(r.lines() as nat, |i: int| None::<IRQHandler>),
    {
        let v = regs.read(1);
        assert((v >> 16) & 0xFF == (v / 0x1_0000) % 0x100) by (bit_vector);
        assert((v >> 16) & 0xFF <= 0xFF) by (bit_vector);
        let num_lines = ((v >> 16) & 0xFF) as usize + 1;
        let mut handlers: Vec<Option<IRQHandler>> = Vec::new();
        let mut i: usize = 0;
        while i < num_lines
            invariant
                i <= num_lines,
                handlers@ == Seq::new(i as nat, |k: int| None::<IRQHandler>),
            decreases num_lines - i,
        {
            handlers.push(None);
            i = i + 1;
            assert(handlers@ =~= Seq::new(i as nat, |k: int| None::<IRQHandler>));
        }
        IOAPIC { regs, num_lines, first_irq: base, handlers }
    }

    /// Whether the global interrupt number `gsi` is one of this APIC's lines.
    pub fn contains(&self, gsi: usize) -> (r: bool)
        requires
            self.wf(),
        ensures
            r == (self.first_line() <= gsi < self.first_line() + self.lines()),
    {
        self.first_irq <= gsi && gsi < self.first_irq + self.num_lines
    }

    pub fn first(&self) -> (r: usize)
        ensures
            r == self.first_line(),
    {
        self.first_irq
    }

    /// The handler of the line `idx`, which must have one.
    pub fn get_callback(&self, idx: usize) -> (r: IRQHandler)
        requires
            self.wf(),
            idx < self.lines(),
            self.callbacks()[idx as int] is Some,
        ensures
            Some(r) == self.callbacks()[idx as int],
    {
        self.handlers[idx].unwrap()
    }

    pub fn eoi(&mut self, _idx: usize)
        ensures
            *final(self) == *old(self),
    {
    }

    /// Routes the line `idx` to the vector `vector` of the processor `apic`
    /// and gives it the handler `cb`. The high word of the redirection entry
    /// is written first, the low word, which unmasks the line, second.
    pub fn set_irq(&mut self, idx: usize, vector: u8, apic: u32, mode: TriggerMode, cb: IRQHandler)
        requires
            old(self).wf(),
            idx < old(self).lines(),
        ensures
            final(self).wf(),
            final(self).lines() == old(self).lines(),
            final(self).first_line() == old(self).first_line(),
            final(self).callbacks() == old(self).callbacks().update(idx as int, Some(cb)),
            final(self).registers() == old(self).registers().update(
                IOAPIC_REDIR_BASE + 2 * idx + 1,
                redirection_high(apic),
            ).update(IOAPIC_REDIR_BASE + 2 * idx, redirection_low(vector, mode)),
    {
        self.handlers.set(idx, Some(cb));
        let flags: u32 = match mode {
            TriggerMode::EdgeHi => (0 << 13) | (0 << 15),
            TriggerMode::EdgeLow => (1 << 13) | (0 << 15),
            TriggerMode::LevelHi => (0 << 13) | (1 << 15),
            TriggerMode::LevelLow => (1 << 13) | (1 << 15),
        };
        assert((0u32 << 13) | (0u32 << 15) == 0) by (bit_vector);
        assert((1u32 << 13) | (0u32 << 15) == 0x2000) by (bit_vector);
        assert((0u32 << 13) | (1u32 << 15) == 0x8000) by (bit_vector);
        assert((1u32 << 13) | (1u32 << 15) == 0xA000) by (bit_vector);
        self.regs.write(0x10 + idx * 2 + 1, apic << 24);
        self.regs.write(0x10 + idx * 2 + 0, flags | (vector as u32));
    }

    /// Masks the line `idx`, whose redirection registers must exist.
    pub fn disable_irq(&mut self, idx: usize)
        requires
            IOAPIC_REDIR_BASE + 2 * idx < old(self).registers().len(),
        ensures
            final(self).lines() == old(self).lines(),
            final(self).first_line() == old(self).first_line(),
            final(self).callbacks() == old(self).callbacks(),
            final(self).registers() == old(self).registers().update(
                IOAPIC_REDIR_BASE + 2 * idx,
                REDIRECTION_MASKED,
            ),
            old(self).wf() ==> final(self).wf(),
    {
        // The number of registers is a machine word, so the register number is one too.
        let count = self.regs.len();
        assert(1u32 << 16 == 0x1_0000) by (bit_vector);
        self.regs.write(0x10 + idx * 2 + 0, 1 << 16);
    }

    /// The redirection entry of the line `idx`, whose registers must exist:
    /// the low word in the low half, the high word in the high half.
    pub fn get_irq_reg(&self, idx: usize) -> (r: u64)
        requires
            IOAPIC_REDIR_BASE + 2 * idx + 1 < self.registers().len(),
        ensures
            r == self.registers()[IOAPIC_REDIR_BASE + 2 * idx] as int + self.registers()[IOAPIC_REDIR_BASE
                + 2 * idx
                + 1] as int * 0x1_0000_0000,
    {
        // The number of registers is a machine word, so the register numbers are too.
        let count = self.regs.len();
        let lo = self.regs.read(0x10 + idx * 2 + 0);
        let hi = self.regs.read(0x10 + idx * 2 + 1);
        assert((lo as u64) | (hi as u64) << 32 == lo as int + hi as int * 0x1_0000_0000)
            by (bit_vector);
        (lo as u64) | (hi as u64) << 32
    }
}

} // verus!
