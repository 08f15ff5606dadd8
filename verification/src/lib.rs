//! A calculator hardware-simulation library: banked memory, LCD controller,
//! keyboard matrix, interrupt scheduling, and the trap dispatch that stands in
//! for read-only-memory routines.
//!
//! The instruction executor is an external collaborator: the orchestrator
//! here decides how long each execution slice may run, the executor reports
//! how many cycles it actually consumed, and the timers advance by exactly
//! that much virtual time.

pub mod debug;
pub mod display;
pub mod interrupt;
pub mod ion;
pub mod keyboard;
pub mod memory;
pub mod mirageos;
pub mod tifiles;
pub mod tios;
pub mod traps;
pub mod z80;

pub use display::Display;
pub use interrupt::InterruptController;
pub use memory::Memory;
pub use z80::State;

use vstd::prelude::*;

verus! {

use crate::keyboard::Keyboard;

/// Number of cycles the emulated processor runs per second.
pub const CLOCK_RATE: u32 = 6_000_000;

/// Cycle budget for a slice of `ns` nanoseconds at `rate` cycles per second:
/// the duration rounded up to whole cycles, and at least one cycle, so that
/// even a fractional-cycle slice makes forward progress.
pub open spec fn cycles_for(ns: int, rate: int) -> int {
    let c = (ns * rate + 999_999_999) / 1_000_000_000;
    if c < 1 {
        1
    } else {
        c
    }
}

/// Nanoseconds covered by `cycles` cycles at `rate` cycles per second,
/// rounded down.
pub open spec fn nanos_for(cycles: int, rate: int) -> int {
    cycles * 1_000_000_000 / rate
}

/// What the orchestrator decided for one execution slice.
#[derive(Debug, Clone, Copy, PartialEq, Eq, Structural)]
pub enum RunDecision {
    /// Emulation has terminated; nothing to run.
    NotRunning,
    /// The processor is halted with no interrupt pending: the whole slice is
    /// idle time, which still ages the timers.
    Idle { nanos: u64 },
    /// Run the executor for at most this many cycles, with the
    /// interrupt-request line set as given.
    Execute { cycles: u64, irq: bool },
}

/// The emulated machine: memory, interrupt controller, display and keyboard,
/// plus the fonts the text-drawing system calls render with.
pub struct Emulator {
    pub clock_rate: u32,
    pub mem: Memory,
    pub interrupt_controller: InterruptController,
    pub display: Display,
    pub keyboard: Keyboard,
    /// False once emulation has terminated.
    pub running: bool,
    /// The vector of the most recent system call that had no handler, for
    /// the embedder to report or escalate; dispatch degrades to an immediate
    /// return.
    pub unimplemented_bcall: Option<u16>,
    /// 8x7-pixel glyphs, 7 bytes per character.
    pub large_font: Vec<u8>,
    /// 6-row variable-width glyphs, 6 bytes per character.
    pub small_font: Vec<u8>,
    /// Pixel width of each small-font glyph, 1 through 8.
    pub small_font_widths: Vec<u8>,
}

impl Emulator {
    pub open spec fn wf(self) -> bool {
        &&& self.mem.wf()
        &&& self.interrupt_controller.wf()
        &&& self.display.wf()
        &&& self.keyboard.wf()
        &&& self.clock_rate == CLOCK_RATE
        &&& self.large_font@.len() == 1792
        &&& self.small_font@.len() == 1536
        &&& self.small_font_widths@.len() == 256
        &&& forall|i: int| 0 <= i < 256 ==> 1 <= #[trigger] self.small_font_widths@[i] <= 8
    }

    /// Construct an emulator with empty flash and blank fonts. Initially
    /// terminated; loading a program starts it.
    pub fn new() -> (r: Emulator)
        ensures
            r.wf(),
            !r.is_running_spec(),
    {
        Self::builder().build()
    }

    pub fn builder() -> (r: Builder)
        ensures
            r.wf(),
    {
        Builder::new()
    }

    pub open spec fn is_running_spec(self) -> bool {
        self.running
    }

    pub fn is_running(&self) -> (r: bool)
        ensures
            r == self.is_running_spec(),
    {
        self.running
    }

    /// Return the peripherals to power-on state and terminate emulation;
    /// memory contents are kept.
    pub fn reset(&mut self)
        requires
            old(self).wf(),
        ensures
            final(self).wf(),
            !final(self).is_running_spec(),
            final(self).mem == old(self).mem,
    {
        self.interrupt_controller = InterruptController::new();
        self.display = Display::new();
        self.keyboard = Keyboard::new();
        self.running = false;
    }

    /// The cycle budget for a slice of `duration_ns` nanoseconds: rounded up,
    /// and never zero, so a slice always makes forward progress.
    pub fn duration_to_cycles(&self, duration_ns: u64) -> (r: u64)
        requires
            self.wf(),
            duration_ns <= 0x1000_0000_0000,
        ensures
            r == cycles_for(duration_ns as int, CLOCK_RATE as int),
    {
        proof {
            assert(duration_ns as int * CLOCK_RATE as int <= 0x1000_0000_0000 * 6_000_000)
                by (nonlinear_arith)
                requires
                    duration_ns <= 0x1000_0000_0000,
                    CLOCK_RATE == 6_000_000,
            ;
        }
        let c: u128 = (duration_ns as u128 * CLOCK_RATE as u128 + 999_999_999) / 1_000_000_000;
        if c < 1 {
            1
        } else {
            c as u64
        }
    }

    /// The virtual time that `cycles` cycles cover, in nanoseconds.
    pub fn cycles_to_duration(&self, cycles: u64) -> (r: u64)
        requires
            self.wf(),
            cycles <= 0xFFFF_FFFF,
        ensures
            r == nanos_for(cycles as int, CLOCK_RATE as int),
    {
        proof {
            assert(cycles as int * 1_000_000_000 <= 0xFFFF_FFFF * 1_000_000_000)
                by (nonlinear_arith)
                requires
                    cycles <= 0xFFFF_FFFF,
            ;
            assert(cycles as int * 1_000_000_000 / 6_000_000 >= 0) by (nonlinear_arith)
                requires
                    cycles >= 0,
            ;
        }
        let ns: u128 = cycles as u128 * 1_000_000_000 / (CLOCK_RATE as u128);
        ns as u64
    }

    /// Decide what to do with one slice of up to `max_step_ns` nanoseconds:
    /// nothing if terminated; pure idle time if the processor is halted with
    /// no interrupt pending; otherwise an executor run bounded by the sooner
    /// of the requested step and the next timer interrupt, so interrupts are
    /// never skipped over in virtual time.
    ///
    /// The embedder performs the decision, then reports the elapsed time
    /// back through [`Self::finish_slice`] or [`Self::finish_cycles`].
    pub fn begin_slice(&mut self, halted: bool, max_step_ns: u64) -> (r: RunDecision)
        requires
            old(self).wf(),
            0 < max_step_ns <= 0x1000_0000_0000,
        ensures
            final(self).wf(),
            *final(self) == *old(self),
            !old(self).is_running_spec() ==> r == RunDecision::NotRunning,
            old(self).is_running_spec() ==> ({
                let ic = old(self).interrupt_controller@;
                let irq = interrupt::irq_spec(ic);
                let step: int = if ic.timer1_enabled && ic.timer1_remaining < max_step_ns {
                    ic.timer1_remaining as int
                } else {
                    max_step_ns as int
                };
                if halted && !irq {
                    r == (RunDecision::Idle { nanos: step as u64 })
                } else {
                    r == (RunDecision::Execute {
                        cycles: cycles_for(step, CLOCK_RATE as int) as u64,
                        irq,
                    })
                }
            }),
    {
        if !self.is_running() {
            return RunDecision::NotRunning;
        }
        let (irq_pending, until_next_interrupt) = self.interrupt_controller.poll();
        // Run for the requested time or until the next interrupt, whichever
        // is sooner.
        let step_duration: u64 = match until_next_interrupt {
            None => max_step_ns,
            Some(t) => {
                if t < max_step_ns {
                    t
                } else {
                    max_step_ns
                }
            },
        };
        if halted && !irq_pending {
            RunDecision::Idle { nanos: step_duration }
        } else {
            RunDecision::Execute {
                cycles: self.duration_to_cycles(step_duration),
                irq: irq_pending,
            }
        }
    }

    /// Report idle time back: the timers age by exactly the slice.
    pub fn finish_slice(&mut self, nanos: u64)
        requires
            old(self).wf(),
        ensures
            final(self).wf(),
            final(self).interrupt_controller@ == interrupt::advance_spec(
                old(self).interrupt_controller@,
                nanos as nat,
            ),
            final(self).mem == old(self).mem,
            final(self).display == old(self).display,
            final(self).keyboard == old(self).keyboard,
            final(self).is_running_spec() == old(self).is_running_spec(),
    {
        self.interrupt_controller.advance(nanos);
    }

    /// Report an executor run back: the cycles it actually consumed are
    /// converted to virtual time, the timers age by that much, and the time
    /// is returned for the embedder's own pacing.
    pub fn finish_cycles(&mut self, cycles_run: u64) -> (r: u64)
        requires
            old(self).wf(),
            cycles_run <= 0xFFFF_FFFF,
        ensures
            final(self).wf(),
            r == nanos_for(cycles_run as int, CLOCK_RATE as int),
            final(self).interrupt_controller@ == interrupt::advance_spec(
                old(self).interrupt_controller@,
                nanos_for(cycles_run as int, CLOCK_RATE as int) as nat,
            ),
            final(self).mem == old(self).mem,
            final(self).display == old(self).display,
            final(self).keyboard == old(self).keyboard,
            final(self).is_running_spec() == old(self).is_running_spec(),
    {
        let ns = self.cycles_to_duration(cycles_run);
        self.interrupt_controller.advance(ns);
        ns
    }
}

/// A vector of `n` zero bytes.
fn zeros(n: usize) -> (v: Vec<u8>)
    ensures
        v@.len() == n,
        forall|i: int| 0 <= i < n ==> v@[i] == 0u8,
{
    let mut v: Vec<u8> = Vec::new();
    let mut i: usize = 0;
    while i < n
        invariant
            i <= n,
            v@.len() == i,
            forall|k: int| 0 <= k < i ==> v@[k] == 0u8,
        decreases n - i,
    {
        v.push(0);
        i += 1;
    }
    v
}

/// The addresses the operating-system context setup writes: the flag bytes,
/// the two empty-symbol-table pointers, the unused hardware stack area, and
/// the four cursor bytes.
pub open spec fn tios_context_written(a: u16) -> bool {
    ||| tios::flags <= a < tios::flags + 0x46
    ||| tios::progPtr <= a < tios::progPtr + 2
    ||| tios::pTemp <= a < tios::pTemp + 2
    ||| tios::symTable + 1 <= a < 0xFFFE
    ||| a == tios::curRow || a == tios::curCol || a == tios::penRow || a == tios::penCol
}

impl Emulator {
    /// Put memory and registers in the state a program expects from the
    /// operating system: interrupts on in mode 1, the flags pointer set with
    /// all flags reset, an empty symbol table, a zeroed spare stack area, and
    /// the cursor and pen at the top left.
    fn setup_tios_context(&mut self, regs: &mut State)
        requires
            old(self).wf(),
        ensures
            final(self).wf(),
            *final(regs) == (State { ei: true, im: 1, iy: tios::flags, ..*old(regs) }),
            final(self).display == old(self).display,
            final(self).keyboard == old(self).keyboard,
            final(self).interrupt_controller == old(self).interrupt_controller,
            final(self).running == old(self).running,
            final(self).clock_rate == old(self).clock_rate,
            final(self).unimplemented_bcall == old(self).unimplemented_bcall,
            final(self).large_font == old(self).large_font,
            final(self).small_font == old(self).small_font,
            final(self).small_font_widths == old(self).small_font_widths,
            final(self).mem@.flash == old(self).mem@.flash,
            final(self).mem@.bank_a_page == old(self).mem@.bank_a_page,
            forall|a: u16|
                tios::flags <= a < tios::flags + 0x46 ==> #[trigger] final(self).mem@.read(a)
                    == 0u8,
            final(self).mem@.read_u16(tios::progPtr) == tios::symTable,
            final(self).mem@.read_u16(tios::pTemp) == tios::symTable,
            forall|a: u16|
                tios::symTable + 1 <= a < 0xFFFE ==> #[trigger] final(self).mem@.read(a) == 0u8,
            final(self).mem@.read(tios::curRow) == 0,
            final(self).mem@.read(tios::curCol) == 0,
            final(self).mem@.read(tios::penRow) == 0,
            final(self).mem@.read(tios::penCol) == 0,
            forall|a: u16|
                a >= 0x8000 && !tios_context_written(a) ==> #[trigger] final(self).mem@.read(a)
                    == old(self).mem@.read(a),
    {
        // Enable interrupts in mode 1; the flags pointer register addresses
        // the system flag bytes.
        regs.set_interrupt_enable(true);
        regs.set_im(1);
        regs.iy = tios::flags;
        // All flags are reset.
        let flag_zeros = zeros(0x46);
        let ok1 = self.mem.write_range(tios::flags, flag_zeros.as_slice());
        proof {
            assert(ok1);
        }
        // The symbol table is empty.
        let ghost m1 = self.mem@;
        self.mem.write_u16(tios::progPtr, tios::symTable);
        proof {
            memory::lemma_write_u16_read(m1, tios::progPtr, tios::symTable);
            assert(self.mem@ == m1.write_u16(tios::progPtr, tios::symTable));
        }
        let ghost m2 = self.mem@;
        self.mem.write_u16(tios::pTemp, tios::symTable);
        proof {
            memory::lemma_write_u16_read(m2, tios::pTemp, tios::symTable);
            assert(self.mem@ == m2.write_u16(tios::pTemp, tios::symTable));
        }
        // The unused hardware stack area is zeroed.
        let stack_zeros = zeros(0x197);
        let ok2 = self.mem.write_range(tios::symTable + 1, stack_zeros.as_slice());
        proof {
            assert(ok2);
        }
        // Cursor and pen are at the top left.
        let ghost m3 = self.mem@;
        self.mem.write(tios::curRow, 0);
        proof {
            memory::lemma_write_read(m3, tios::curRow, 0);
            assert(self.mem@ == m3.write(tios::curRow, 0u8));
        }
        let ghost m4 = self.mem@;
        self.mem.write(tios::curCol, 0);
        proof {
            memory::lemma_write_read(m4, tios::curCol, 0);
            assert(self.mem@ == m4.write(tios::curCol, 0u8));
        }
        let ghost m5 = self.mem@;
        self.mem.write(tios::penRow, 0);
        proof {
            memory::lemma_write_read(m5, tios::penRow, 0);
            assert(self.mem@ == m5.write(tios::penRow, 0u8));
        }
        let ghost m6 = self.mem@;
        self.mem.write(tios::penCol, 0);
        proof {
            memory::lemma_write_read(m6, tios::penCol, 0);
            assert(self.mem@ == m6.write(tios::penCol, 0u8));
        }
    }
}

impl Emulator {
    /// A port write from the program: port 1 selects keyboard groups, port 3
    /// masks interrupts, port 6 selects the bank-A page, ports 0x10 and 0x11
    /// drive the display controller. Writes to other ports are ignored.
    ///
    /// A port-3 write can change whether an interrupt is due: the new state
    /// of the interrupt-request line is returned so the embedder can update
    /// the processor.
    pub fn write_io(&mut self, port: u8, value: u8) -> (irq: Option<bool>)
        requires
            old(self).wf(),
        ensures
            final(self).wf(),
            final(self).mem@.flash == old(self).mem@.flash,
            final(self).mem@.ram == old(self).mem@.ram,
            final(self).running == old(self).running,
            port == 0x01 ==> final(self).keyboard@ == (keyboard::KeyboardView {
                active_mask: value,
                ..old(self).keyboard@
            }) && irq is None,
            port == 0x03 ==> final(self).interrupt_controller@ == interrupt::write_mask_spec(
                old(self).interrupt_controller@,
                value,
            ) && irq == Some(interrupt::irq_spec(final(self).interrupt_controller@)),
            port == 0x06 ==> final(self).mem@.bank_a_page == value % 32 && irq is None,
            port == 0x10 ==> final(self).display@ == display::ctrl_step(old(self).display@, value)
                && irq is None,
            port == 0x11 ==> final(self).display@ == display::data_write_step(
                old(self).display@,
                value,
            ) && irq is None,
            !(port == 0x01 || port == 0x03 || port == 0x06 || port == 0x10 || port == 0x11)
                ==> *final(self) == *old(self) && irq is None,
            port != 0x01 ==> final(self).keyboard == old(self).keyboard,
            port != 0x03 ==> final(self).interrupt_controller == old(self).interrupt_controller,
            port != 0x06 ==> final(self).mem == old(self).mem,
            !(port == 0x10 || port == 0x11) ==> final(self).display == old(self).display,
    {
        if port == 0x01 {
            self.keyboard.set_active_mask(value);
            None
        } else if port == 0x03 {
            self.interrupt_controller.write_mask_port(value);
            let (pending, _) = self.interrupt_controller.poll();
            Some(pending)
        } else if port == 0x06 {
            self.mem.set_bank_a_page(value);
            None
        } else if port == 0x10 {
            self.display.write_control(value);
            None
        } else if port == 0x11 {
            self.display.write_data(value);
            None
        } else {
            None
        }
    }

    /// A port read from the program: the keyboard matrix, the interrupt mask
    /// and status ports, the bank-A page, and the display status and data
    /// ports. Other ports read as zero.
    pub fn read_io(&mut self, port: u8) -> (r: u8)
        requires
            old(self).wf(),
        ensures
            final(self).wf(),
            final(self).mem == old(self).mem,
            final(self).keyboard == old(self).keyboard,
            final(self).interrupt_controller == old(self).interrupt_controller,
            final(self).running == old(self).running,
            port == 0x01 ==> r == keyboard::read_spec(
                old(self).keyboard@.keys_up,
                old(self).keyboard@.active_mask,
                8,
            ),
            port == 0x03 ==> r == interrupt::mask_spec(old(self).interrupt_controller@),
            port == 0x04 ==> r == interrupt::status_spec(old(self).interrupt_controller@),
            port == 0x06 ==> r == old(self).mem@.bank_a_page,
            port == 0x10 ==> r == display::status_spec(old(self).display@),
            port == 0x11 ==> r == display::data_read_value(old(self).display@)
                && final(self).display@ == display::data_read_step(old(self).display@),
            port != 0x11 ==> final(self).display == old(self).display,
            !(port == 0x01 || port == 0x03 || port == 0x04 || port == 0x06 || port == 0x10 || port
                == 0x11) ==> r == 0 && *final(self) == *old(self),
    {
        if port == 0x01 {
            self.keyboard.read()
        } else if port == 0x03 {
            self.interrupt_controller.read_mask_port()
        } else if port == 0x04 {
            self.interrupt_controller.read_status_port()
        } else if port == 0x06 {
            self.mem.get_bank_a_page()
        } else if port == 0x10 {
            self.display.read_status()
        } else if port == 0x11 {
            self.display.read_data()
        } else {
            0
        }
    }
}

/// Why a program file could not be loaded.
#[derive(Debug, Clone, Copy, PartialEq, Eq, Structural)]
pub enum LoadProgramError {
    /// The container itself did not parse.
    FileRead(tifiles::Error),
    /// The variable is not a program.
    UnsupportedType,
    /// The program's leading token pair is not the assembly-program
    /// signature.
    InvalidSignature,
    /// The internal length field does not match the actual size.
    IncorrectLength,
    /// The code does not fit between the load address and the top of memory.
    TooLarge,
}

/// The address programs are loaded at and started from.
pub const LOAD_ADDR: u16 = 0x9d95;

/// Which error loading the program file `s` reports, if any: the checks on
/// the container, the variable type, the internal length field, the assembly
/// signature, and the code size, in the order they are made.
pub open spec fn load_err(s: Seq<u8>) -> Option<LoadProgramError> {
    if !tifiles::file_ok(s) {
        Some(LoadProgramError::FileRead(tifiles::file_err(s)))
    } else {
        let data = tifiles::var_payload(s.skip(55));
        let ty = tifiles::type_from_u8_spec(s.skip(55)[4]).unwrap();
        if !tifiles::is_program_type(ty) {
            Some(LoadProgramError::UnsupportedType)
        } else if data.len() < 2 {
            Some(LoadProgramError::IncorrectLength)
        } else if data[0] + 256 * data[1] != data.len() - 2 {
            Some(LoadProgramError::IncorrectLength)
        } else if data.len() < 4 {
            Some(LoadProgramError::InvalidSignature)
        } else if !(data[2] == 0xBB && data[3] == 0x6D) {
            Some(LoadProgramError::InvalidSignature)
        } else if data.len() - 4 > 0xFFFF - LOAD_ADDR {
            Some(LoadProgramError::TooLarge)
        } else {
            None
        }
    }
}

/// The addresses loading a program writes: the code image, the terminating
/// return address, the shell vectors when the program uses them, and the
/// operating-system context.
pub open spec fn load_written(a: u16, code_size: int, uses_ion: bool) -> bool {
    ||| LOAD_ADDR <= a < LOAD_ADDR + code_size
    ||| a == 0xFFFE || a == 0xFFFF
    ||| (uses_ion && ion::lVectors <= a < ion::lVectors + 24)
    ||| tios_context_written(a)
}

/// The jump-vector block that aliases the Ion shell's vectors onto their
/// natively emulated equivalents: eight unconditional jumps.
fn ion_vector_block() -> (v: Vec<u8>)
    ensures
        v@ =~= seq![
            0xC3u8, 0x83, 0x40,
            0xC3, 0x86, 0x40,
            0xC3, 0x89, 0x40,
            0xC3, 0x8C, 0x40,
            0xC3, 0x8F, 0x40,
            0xC3, 0x92, 0x40,
            0xC3, 0x95, 0x40,
            0xC3, 0x98, 0x40,
        ],
{
    let mut v: Vec<u8> = Vec::new();
    v.push(0xC3);
    v.push(0x83);
    v.push(0x40);
    v.push(0xC3);
    v.push(0x86);
    v.push(0x40);
    v.push(0xC3);
    v.push(0x89);
    v.push(0x40);
    v.push(0xC3);
    v.push(0x8C);
    v.push(0x40);
    v.push(0xC3);
    v.push(0x8F);
    v.push(0x40);
    v.push(0xC3);
    v.push(0x92);
    v.push(0x40);
    v.push(0xC3);
    v.push(0x95);
    v.push(0x40);
    v.push(0xC3);
    v.push(0x98);
    v.push(0x40);
    v
}

impl Emulator {
    /// Load a program from container-file bytes.
    ///
    /// The code is placed at the load address with the processor set to begin
    /// execution there, the stack returns to the terminating trap, the
    /// operating-system context is set up, and a program built against the
    /// Ion shell has its vectors aliased onto the natively emulated
    /// equivalents and its conditional entry jump made unconditional, since
    /// the emulation always supports what the check was testing for.
    #[verifier::rlimit(100)]
    pub fn load_program(&mut self, regs: &mut State, data: &[u8]) -> (r: Result<
        tifiles::Variable,
        LoadProgramError,
    >)
        requires
            old(self).wf(),
        ensures
            final(self).wf(),
            r is Err <==> load_err(data@) is Some,
            r is Err ==> r.unwrap_err() == load_err(data@).unwrap() && *final(self) == *old(self)
                && *final(regs) == *old(regs),
            r is Ok ==> ({
                let v = data@.skip(55);
                let payload = tifiles::var_payload(v);
                let uses_ion = tifiles::has_ion_prologue(payload);
                let patched = if uses_ion {
                    payload.update(4, 0u8).update(5, 0x18u8)
                } else {
                    payload
                };
                let code_size = payload.len() - 4;
                let var = r.unwrap();
                &&& var.name@ == tifiles::var_name(v)
                &&& Some(var.ty) == tifiles::type_from_u8_spec(v[4])
                &&& var.data@ == patched
                &&& *final(regs) == (State {
                    pc: LOAD_ADDR,
                    sp: 0xFFFE,
                    iy: tios::flags,
                    ei: true,
                    im: 1,
                    ..*old(regs)
                })
                &&& final(self).is_running_spec()
                &&& final(self).mem@.bank_a_page == 4
                &&& final(self).mem@.flash == old(self).mem@.flash
                &&& forall|i: int|
                    0 <= i < code_size && LOAD_ADDR + i < 0xFE67 ==> #[trigger] final(self).mem@.read(
                        (LOAD_ADDR + i) as u16,
                    ) == patched[4 + i]
                &&& forall|a: u16|
                    tios::symTable + 1 <= a < 0xFFFE ==> #[trigger] final(self).mem@.read(a) == 0u8
                &&& final(self).mem@.read(0xFFFE) == 0 && final(self).mem@.read(0xFFFF) == 0
                &&& forall|a: u16|
                    tios::flags <= a < tios::flags + 0x46 ==> #[trigger] final(self).mem@.read(a)
                        == 0u8
                &&& final(self).mem@.read_u16(tios::progPtr) == tios::symTable
                &&& final(self).mem@.read_u16(tios::pTemp) == tios::symTable
                &&& final(self).mem@.read(tios::curRow) == 0
                &&& final(self).mem@.read(tios::curCol) == 0
                &&& final(self).mem@.read(tios::penRow) == 0
                &&& final(self).mem@.read(tios::penCol) == 0
                &&& uses_ion ==> {
                    &&& final(self).mem@.read(ion::ionVersion) == 0xC3
                        && final(self).mem@.read_u16((ion::ionVersion + 1) as u16) == mirageos::ionVersion
                    &&& final(self).mem@.read(ion::ionRandom) == 0xC3 && final(self).mem@.read_u16(
                        (ion::ionRandom + 1) as u16,
                    ) == mirageos::ionRandom
                    &&& final(self).mem@.read(ion::ionPutSprite) == 0xC3
                        && final(self).mem@.read_u16((ion::ionPutSprite + 1) as u16) == mirageos::ionPutSprite
                    &&& final(self).mem@.read(ion::ionLargeSprite) == 0xC3
                        && final(self).mem@.read_u16((ion::ionLargeSprite + 1) as u16) == mirageos::ionLargeSprite
                    &&& final(self).mem@.read(ion::ionGetPixel) == 0xC3
                        && final(self).mem@.read_u16((ion::ionGetPixel + 1) as u16) == mirageos::ionGetPixel
                    &&& final(self).mem@.read(ion::ionFastCopy) == 0xC3
                        && final(self).mem@.read_u16((ion::ionFastCopy + 1) as u16) == mirageos::ionFastCopy
                    &&& final(self).mem@.read(ion::ionDetect) == 0xC3 && final(self).mem@.read_u16(
                        (ion::ionDetect + 1) as u16,
                    ) == mirageos::ionDetect
                    &&& final(self).mem@.read(ion::ionDecompress) == 0xC3
                        && final(self).mem@.read_u16((ion::ionDecompress + 1) as u16) == mirageos::ionDecompress
                }
                &&& forall|a: u16|
                    a >= 0x8000 && !load_written(a, code_size, uses_ion)
                        ==> #[trigger] final(self).mem@.read(a) == old(self).mem@.read(a)
                &&& final(self).display == old(self).display
                &&& final(self).keyboard == old(self).keyboard
                &&& final(self).interrupt_controller == old(self).interrupt_controller
                &&& final(self).unimplemented_bcall == old(self).unimplemented_bcall
                &&& final(self).large_font == old(self).large_font
                &&& final(self).small_font == old(self).small_font
                &&& final(self).small_font_widths == old(self).small_font_widths
            }),
    {
        let file = match tifiles::File::read_from(data) {
            Ok(f) => f,
            Err(e) => {
                return Err(LoadProgramError::FileRead(e));
            },
        };
        let mut var = file.var;
        let is_prog = match var.ty {
            tifiles::VariableType::Program | tifiles::VariableType::ProtectedProgram => true,
            _ => false,
        };
        if !is_prog {
            return Err(LoadProgramError::UnsupportedType);
        }
        if var.data.len() < 2 {
            return Err(LoadProgramError::IncorrectLength);
        }
        let internal_len: usize = var.data[0] as usize + 256 * var.data[1] as usize;
        if internal_len != var.data.len() - 2 {
            return Err(LoadProgramError::IncorrectLength);
        }
        if var.data.len() < 4 {
            return Err(LoadProgramError::InvalidSignature);
        }
        if !(var.data[2] == 0xBB && var.data[3] == 0x6D) {
            return Err(LoadProgramError::InvalidSignature);
        }
        let code_size: usize = var.data.len() - 4;
        if code_size > 0xFFFF - LOAD_ADDR as usize {
            return Err(LoadProgramError::TooLarge);
        }
        let uses_ion = var.patch_ion_program();
        // Place the code at the load address.
        let code = vstd::slice::slice_subrange(var.data.as_slice(), 4, var.data.len());
        let ok = self.mem.write_range(LOAD_ADDR, code);
        proof {
            assert(ok);
        }
        // Set up the stack to return to the reset vector at exit, and begin
        // executing at the load address.
        let ghost m1 = self.mem@;
        self.mem.write(0xFFFE, 0);
        proof {
            memory::lemma_write_read(m1, 0xFFFE, 0);
            assert(self.mem@ == m1.write(0xFFFE, 0u8));
        }
        let ghost m2 = self.mem@;
        self.mem.write(0xFFFF, 0);
        proof {
            memory::lemma_write_read(m2, 0xFFFF, 0);
            assert(self.mem@ == m2.write(0xFFFF, 0u8));
        }
        regs.sp = 0xFFFE;
        regs.pc = LOAD_ADDR;
        if uses_ion {
            // Alias the Ion vector table onto the natively emulated
            // equivalents.
            let block = ion_vector_block();
            let ok2 = self.mem.write_range(ion::lVectors, block.as_slice());
            proof {
                assert(ok2);
            }
        }
        self.setup_tios_context(regs);
        // Map the shell's page into bank A.
        let ghost m_pre_bank = self.mem@;
        self.mem.set_bank_a_page(4);
        proof {
            memory::lemma_bank_change_reads(m_pre_bank, 4);
            assert(self.mem@ == (memory::MemoryView { bank_a_page: 4, ..m_pre_bank }));
        }
        self.running = true;
        proof {
            let v = data@.skip(55);
            let payload = tifiles::var_payload(v);
            let patched = if uses_ion {
                payload.update(4, 0u8).update(5, 0x18u8)
            } else {
                payload
            };
            assert(load_err(data@) is None);
            assert(var.name@ == tifiles::var_name(v));
            assert(var.data@ == patched);
            assert(*regs == (State {
                pc: LOAD_ADDR,
                sp: 0xFFFE,
                iy: tios::flags,
                ei: true,
                im: 1,
                ..*old(regs)
            }));
            assert(self.mem@.bank_a_page == 4);
            assert(self.mem@.flash == old(self).mem@.flash);
            assert(forall|i: int|
                0 <= i < code_size && LOAD_ADDR + i < 0xFE67 ==> #[trigger] self.mem@.read(
                    (LOAD_ADDR + i) as u16,
                ) == patched[4 + i]);
            assert(forall|a: u16|
                tios::symTable + 1 <= a < 0xFFFE ==> #[trigger] self.mem@.read(a) == 0u8);
            assert(self.mem@.read(0xFFFE) == 0 && self.mem@.read(0xFFFF) == 0);
            assert(forall|a: u16|
                tios::flags <= a < tios::flags + 0x46 ==> #[trigger] self.mem@.read(a) == 0u8);
            assert(self.mem@.read_u16(tios::progPtr) == tios::symTable);
            assert(self.mem@.read_u16(tios::pTemp) == tios::symTable);
            assert(self.mem@.read(tios::curRow) == 0 && self.mem@.read(tios::curCol) == 0
                && self.mem@.read(tios::penRow) == 0 && self.mem@.read(tios::penCol) == 0);
            if uses_ion {
                assert(self.mem@.read(ion::ionVersion) == 0xC3);
                assert(self.mem@.read_u16((ion::ionVersion + 1) as u16) == mirageos::ionVersion);
                assert(self.mem@.read(ion::ionRandom) == 0xC3);
                assert(self.mem@.read_u16((ion::ionRandom + 1) as u16) == mirageos::ionRandom);
                assert(self.mem@.read(ion::ionPutSprite) == 0xC3);
                assert(self.mem@.read_u16((ion::ionPutSprite + 1) as u16)
                    == mirageos::ionPutSprite);
                assert(self.mem@.read(ion::ionLargeSprite) == 0xC3);
                assert(self.mem@.read_u16((ion::ionLargeSprite + 1) as u16)
                    == mirageos::ionLargeSprite);
                assert(self.mem@.read(ion::ionGetPixel) == 0xC3);
                assert(self.mem@.read_u16((ion::ionGetPixel + 1) as u16)
                    == mirageos::ionGetPixel);
                assert(self.mem@.read(ion::ionFastCopy) == 0xC3);
                assert(self.mem@.read_u16((ion::ionFastCopy + 1) as u16)
                    == mirageos::ionFastCopy);
                assert(self.mem@.read(ion::ionDetect) == 0xC3);
                assert(self.mem@.read_u16((ion::ionDetect + 1) as u16) == mirageos::ionDetect);
                assert(self.mem@.read(ion::ionDecompress) == 0xC3);
                assert(self.mem@.read_u16((ion::ionDecompress + 1) as u16)
                    == mirageos::ionDecompress);
            }
            assert(forall|a: u16|
                a >= 0x8000 && !load_written(a, code_size as int, uses_ion)
                    ==> #[trigger] self.mem@.read(a) == old(self).mem@.read(a));
        }
        Ok(var)
    }
}

/// Assembles an [`Emulator`]: flash page images and font data first, then
/// [`Builder::build`].
pub struct Builder {
    pub flash_pages: Vec<(u8, Vec<u8>)>,
    pub large_font: Vec<u8>,
    pub small_font: Vec<u8>,
    pub small_font_widths: Vec<u8>,
}

impl Builder {
    pub open spec fn wf(self) -> bool {
        &&& forall|i: int|
            0 <= i < self.flash_pages@.len() ==> (#[trigger] self.flash_pages@[i]).0 < 32
                && self.flash_pages@[i].1@.len() <= 0x4000
        &&& self.large_font@.len() == 1792
        &&& self.small_font@.len() == 1536
        &&& self.small_font_widths@.len() == 256
        &&& forall|i: int| 0 <= i < 256 ==> 1 <= #[trigger] self.small_font_widths@[i] <= 8
    }

    /// No flash images and blank fonts.
    pub fn new() -> (r: Builder)
        ensures
            r.wf(),
            r.flash_pages@.len() == 0,
    {
        let mut large_font: Vec<u8> = Vec::new();
        let mut i: usize = 0;
        while i < 1792
            invariant
                i <= 1792,
                large_font@.len() == i,
            decreases 1792 - i,
        {
            large_font.push(0);
            i += 1;
        }
        let mut small_font: Vec<u8> = Vec::new();
        let mut j: usize = 0;
        while j < 1536
            invariant
                j <= 1536,
                small_font@.len() == j,
            decreases 1536 - j,
        {
            small_font.push(0);
            j += 1;
        }
        let mut small_font_widths: Vec<u8> = Vec::new();
        let mut k: usize = 0;
        while k < 256
            invariant
                k <= 256,
                small_font_widths@.len() == k,
                forall|m: int| 0 <= m < k ==> #[trigger] small_font_widths@[m] == 1u8,
            decreases 256 - k,
        {
            small_font_widths.push(1);
            k += 1;
        }
        Builder { flash_pages: Vec::new(), large_font, small_font, small_font_widths }
    }

    /// Provide the image for one flash page; later images for the same page
    /// overwrite earlier ones byte for byte.
    pub fn flash_page(&mut self, page: u8, contents: Vec<u8>)
        requires
            old(self).wf(),
            page < 32,
            contents@.len() <= 0x4000,
        ensures
            final(self).wf(),
    {
        self.flash_pages.push((page, contents));
    }

    /// Provide the 7-byte-per-glyph large font.
    pub fn large_font(&mut self, font: Vec<u8>)
        requires
            old(self).wf(),
            font@.len() == 1792,
        ensures
            final(self).wf(),
    {
        self.large_font = font;
    }

    /// Provide the 6-byte-per-glyph small font and its per-glyph pixel
    /// widths, each 1 through 8.
    pub fn small_font(&mut self, font: Vec<u8>, widths: Vec<u8>)
        requires
            old(self).wf(),
            font@.len() == 1536,
            widths@.len() == 256,
            forall|i: int| 0 <= i < 256 ==> 1 <= #[trigger] widths@[i] <= 8,
        ensures
            final(self).wf(),
    {
        self.small_font = font;
        self.small_font_widths = widths;
    }

    /// Assemble the emulator: flash loaded from the given images, fresh
    /// peripherals, terminated until a program is loaded.
    pub fn build(self) -> (r: Emulator)
        requires
            self.wf(),
        ensures
            r.wf(),
            !r.is_running_spec(),
    {
        let mut mem = Memory::new();
        let mut i: usize = 0;
        while i < self.flash_pages.len()
            invariant
                self.wf(),
                i <= self.flash_pages@.len(),
                mem.wf(),
            decreases self.flash_pages@.len() - i,
        {
            let page = self.flash_pages[i].0;
            let contents = &self.flash_pages[i].1;
            mem.load_flash_page(page, contents.as_slice());
            i += 1;
        }
        Emulator {
            clock_rate: CLOCK_RATE,
            mem,
            interrupt_controller: InterruptController::new(),
            display: Display::new(),
            keyboard: Keyboard::new(),
            running: false,
            unimplemented_bcall: None,
            large_font: self.large_font,
            small_font: self.small_font,
            small_font_widths: self.small_font_widths,
        }
    }
}

} // verus!
