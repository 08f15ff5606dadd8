//! The debugger core: breakpoints, the pause/wait state machine, and the
//! command decisions of the remote-debug boundary.
//!
//! The wire protocol itself (sockets, threads, serialization) is an external
//! collaborator. It hands commands in one at a time and sends back whatever
//! response each decision produces, so the ordering guarantee — one response
//! per non-interrupt command, in submission order — follows from the call
//! order. A `Wait` defers its response instead of blocking: the response is
//! produced later by whichever event ends the wait.

use vstd::prelude::*;

verus! {

use crate::z80::State;

/// Debugger commands, as decided on by the core. Protocol-level commands
/// that never reach the core (such as the synchronization echo) are handled
/// at the boundary.
#[derive(Debug, Clone, Copy, PartialEq, Eq, Structural)]
pub enum Command {
    /// Defer a response until the processor pauses; immediate if it already
    /// is paused.
    Wait,
    /// Pause the processor, interrupting any active wait. Produces no
    /// response of its own; normally diverted to [`Debugger::interrupt`]
    /// before command processing.
    Interrupt,
    /// Resume execution.
    Run,
    /// Report the processor registers.
    GetRegisters,
    /// Overwrite the processor registers.
    SetRegisters(Registers),
    /// Stop execution whenever this address is about to be fetched.
    AddBreakpoint(u16),
}

/// Responses mirroring command intent.
#[derive(Debug, Clone, Copy, PartialEq, Eq, Structural)]
pub enum Response {
    /// The command completed with no interesting output.
    Done,
    /// The command is not implemented.
    NotImplemented,
    /// A wait has completed, with the processor stopping for this reason.
    WaitResult(PauseReason),
    /// The processor registers, as requested.
    RegisterValues(Registers),
}

/// Why the processor stopped.
#[derive(Debug, Clone, Copy, PartialEq, Eq, Structural)]
pub enum PauseReason {
    AlreadyPaused,
    Terminated,
    Breakpoint,
    Interrupted,
}

/// The register file as the debug boundary reports and sets it.
#[derive(Debug, Clone, Copy, PartialEq, Eq, Structural)]
pub struct Registers {
    pub af: u16,
    pub bc: u16,
    pub de: u16,
    pub hl: u16,
    pub ix: u16,
    pub iy: u16,
    pub pc: u16,
    pub sp: u16,
    pub i: u8,
    pub r: u8,
    pub af_: u16,
    pub bc_: u16,
    pub de_: u16,
    pub hl_: u16,
}

/// Debugger state: whether the processor may run, whether a wait response is
/// outstanding, and the registered breakpoint addresses.
pub struct Debugger {
    /// If true, the processor should not run.
    pub cpu_paused: bool,
    /// If true, a wait is active and only interrupts are processed until it
    /// completes.
    pub waiting: bool,
    /// Registered breakpoint addresses, each held once.
    pub breakpoints: Vec<u16>,
    /// Counts commands processed to completion.
    pub commands_executed: u32,
}

impl Debugger {
    pub open spec fn wf(self) -> bool {
        forall|i: int, j: int|
            0 <= i < j < self.breakpoints@.len() ==> self.breakpoints@[i] != self.breakpoints@[j]
    }

    pub open spec fn paused_spec(self) -> bool {
        self.cpu_paused
    }

    pub open spec fn waiting_spec(self) -> bool {
        self.waiting
    }

    pub open spec fn breakpoints_spec(self) -> Seq<u16> {
        self.breakpoints@
    }

    pub open spec fn commands_executed_spec(self) -> int {
        self.commands_executed as int
    }

    /// Running, not waiting, with no breakpoints.
    pub fn new() -> (r: Debugger)
        ensures
            r.wf(),
            !r.paused_spec(),
            !r.waiting_spec(),
            r.breakpoints_spec() == Seq::<u16>::empty(),
            r.commands_executed_spec() == 0,
    {
        let r = Debugger { cpu_paused: false, waiting: false, breakpoints: Vec::new(), commands_executed: 0 };
        proof {
            assert(r.breakpoints@ =~= Seq::<u16>::empty());
        }
        r
    }

    pub fn is_paused(&self) -> (r: bool)
        ensures
            r == self.paused_spec(),
    {
        self.cpu_paused
    }

    /// End any active wait with the given reason, producing its deferred
    /// response, and pause the processor either way.
    fn finish_wait(&mut self, reason: PauseReason) -> (r: Option<Response>)
        requires
            old(self).wf(),
        ensures
            final(self).wf(),
            final(self).paused_spec(),
            !final(self).waiting_spec(),
            final(self).breakpoints_spec() == old(self).breakpoints_spec(),
            old(self).waiting_spec() ==> r == Some(Response::WaitResult(reason))
                && final(self).commands_executed_spec() == (old(self).commands_executed_spec() + 1)
                % 0x1_0000_0000,
            !old(self).waiting_spec() ==> r is None && final(self).commands_executed_spec() == old(self).commands_executed_spec(),
    {
        if self.waiting {
            self.waiting = false;
            self.cpu_paused = true;
            self.commands_executed = self.commands_executed.wrapping_add(1);
            Some(Response::WaitResult(reason))
        } else {
            self.cpu_paused = true;
            None
        }
    }

    /// An out-of-band interrupt request: pause, ending any active wait with
    /// its deferred response, and count the interrupt as completed.
    pub fn interrupt(&mut self) -> (r: Option<Response>)
        requires
            old(self).wf(),
        ensures
            final(self).wf(),
            final(self).paused_spec(),
            !final(self).waiting_spec(),
            final(self).breakpoints_spec() == old(self).breakpoints_spec(),
            old(self).waiting_spec() ==> r == Some(Response::WaitResult(PauseReason::Interrupted)),
            !old(self).waiting_spec() ==> r is None,
            final(self).commands_executed_spec() == (old(self).commands_executed_spec() + if old(self).waiting_spec() {
                2int
            } else {
                1int
            }) % 0x1_0000_0000,
    {
        let r = self.finish_wait(PauseReason::Interrupted);
        self.commands_executed = self.commands_executed.wrapping_add(1);
        r
    }

    /// Emulation has terminated: a waiting debugger learns of it.
    pub fn notice_termination(&mut self) -> (r: Option<Response>)
        requires
            old(self).wf(),
        ensures
            final(self).wf(),
            final(self).paused_spec(),
            !final(self).waiting_spec(),
            final(self).breakpoints_spec() == old(self).breakpoints_spec(),
            old(self).waiting_spec() ==> r == Some(Response::WaitResult(PauseReason::Terminated)),
            !old(self).waiting_spec() ==> r is None,
    {
        self.finish_wait(PauseReason::Terminated)
    }

    /// Pause the processor as if interrupted, ending any active wait.
    pub fn pause(&mut self) -> (r: Option<Response>)
        requires
            old(self).wf(),
        ensures
            final(self).wf(),
            final(self).paused_spec(),
            !final(self).waiting_spec(),
            final(self).breakpoints_spec() == old(self).breakpoints_spec(),
            old(self).waiting_spec() ==> r == Some(Response::WaitResult(PauseReason::Interrupted)),
            !old(self).waiting_spec() ==> r is None,
    {
        self.finish_wait(PauseReason::Interrupted)
    }

    /// Let the processor run again.
    pub fn unpause(&mut self)
        requires
            old(self).wf(),
        ensures
            final(self).wf(),
            !final(self).paused_spec(),
            final(self).waiting_spec() == old(self).waiting_spec(),
            final(self).breakpoints_spec() == old(self).breakpoints_spec(),
            final(self).commands_executed_spec() == old(self).commands_executed_spec(),
    {
        self.cpu_paused = false;
    }

    /// Whether execution may proceed: commands are applied only at slice
    /// boundaries, so the embedder asks this before each slice.
    pub fn may_run(&self) -> (r: bool)
        ensures
            r == !self.paused_spec(),
    {
        !self.cpu_paused
    }

    /// Decide one queued command, returning its response. A `Wait` on a
    /// running processor produces no response yet: the response is deferred
    /// until something pauses it. Commands must not be handed in while a
    /// wait is active.
    pub fn handle_command(&mut self, regs: &mut State, command: Command) -> (r: Option<Response>)
        requires
            old(self).wf(),
            !old(self).waiting_spec(),
        ensures
            final(self).wf(),
            command is Run ==> r == Some(Response::Done) && !final(self).paused_spec() && !final(self).waiting_spec() && *final(regs) == *old(regs),
            command is GetRegisters ==> r == Some(
                Response::RegisterValues(read_registers_spec(*old(regs))),
            ) && *final(regs) == *old(regs),
            command matches Command::SetRegisters(values) ==> r == Some(Response::Done) && *final(regs) == write_registers_spec(*old(regs), values),
            command matches Command::AddBreakpoint(addr) ==> {
                &&& r == Some(Response::Done)
                &&& final(self).breakpoints_spec().contains(addr)
                &&& forall|a: u16|
                    #[trigger] final(self).breakpoints_spec().contains(a) <==> (old(self).breakpoints_spec().contains(a) || a == addr)
                &&& *final(regs) == *old(regs)
            },
            command is Wait ==> *final(regs) == *old(regs) && (if old(self).paused_spec() {
                r == Some(Response::WaitResult(PauseReason::AlreadyPaused)) && !final(self).waiting_spec()
            } else {
                r is None && final(self).waiting_spec()
            }),
            command is Interrupt ==> r == Some(Response::NotImplemented) && *final(regs) == *old(regs),
            !(command is Wait && !old(self).paused_spec()) ==> final(self).commands_executed_spec()
                == (old(self).commands_executed_spec() + 1) % 0x1_0000_0000,
    {
        let response: Response = match command {
            Command::Run => {
                self.unpause();
                Response::Done
            },
            Command::GetRegisters => Response::RegisterValues(read_registers(regs)),
            Command::SetRegisters(values) => {
                write_registers(regs, values);
                Response::Done
            },
            Command::AddBreakpoint(addr) => {
                self.add_breakpoint(addr);
                Response::Done
            },
            Command::Wait => {
                if !self.cpu_paused {
                    // Defer: stop processing further commands until the wait
                    // completes.
                    self.waiting = true;
                    return None;
                }
                Response::WaitResult(PauseReason::AlreadyPaused)
            },
            Command::Interrupt => Response::NotImplemented,
        };
        self.commands_executed = self.commands_executed.wrapping_add(1);
        Some(response)
    }

    /// Register a breakpoint address; registering it again changes nothing.
    pub fn add_breakpoint(&mut self, addr: u16)
        requires
            old(self).wf(),
        ensures
            final(self).wf(),
            final(self).breakpoints_spec().contains(addr),
            forall|a: u16|
                #[trigger] final(self).breakpoints_spec().contains(a) <==> (old(self).breakpoints_spec().contains(a) || a == addr),
            final(self).paused_spec() == old(self).paused_spec(),
            final(self).waiting_spec() == old(self).waiting_spec(),
            final(self).commands_executed_spec() == old(self).commands_executed_spec(),
    {
        if !self.has_breakpoint(addr) {
            self.breakpoints.push(addr);
            proof {
                assert(self.breakpoints@.last() == addr);
                assert forall|a: u16| #[trigger]
                    self.breakpoints@.contains(a) <==> (old(self).breakpoints@.contains(a) || a
                        == addr) by {
                    if self.breakpoints@.contains(a) {
                        let i = choose|i: int|
                            0 <= i < self.breakpoints@.len() && self.breakpoints@[i] == a;
                        if i < self.breakpoints@.len() - 1 {
                            assert(old(self).breakpoints@[i] == a);
                        }
                    }
                    if old(self).breakpoints@.contains(a) {
                        let i = choose|i: int|
                            0 <= i < old(self).breakpoints@.len() && old(self).breakpoints@[i]
                                == a;
                        assert(self.breakpoints@[i] == a);
                    }
                }
            }
        }
    }

    /// Whether an address is registered as a breakpoint.
    pub fn has_breakpoint(&self, addr: u16) -> (r: bool)
        ensures
            r == self.breakpoints_spec().contains(addr),
    {
        let mut i: usize = 0;
        while i < self.breakpoints.len()
            invariant
                i <= self.breakpoints@.len(),
                forall|j: int| 0 <= j < i ==> self.breakpoints@[j] != addr,
            decreases self.breakpoints@.len() - i,
        {
            if self.breakpoints[i] == addr {
                return true;
            }
            i += 1;
        }
        false
    }

    /// Test for a breakpoint hit at an instruction fetch, returning whether
    /// the processor should stop; a hit ends any active wait with its
    /// deferred response.
    pub fn handle_instruction_fetch(&mut self, addr: u16) -> (r: (bool, Option<Response>))
        requires
            old(self).wf(),
        ensures
            final(self).wf(),
            r.0 == old(self).breakpoints_spec().contains(addr),
            final(self).breakpoints_spec() == old(self).breakpoints_spec(),
            r.0 ==> final(self).paused_spec() && !final(self).waiting_spec() && (old(self).waiting_spec() ==> r.1 == Some(Response::WaitResult(PauseReason::Breakpoint))),
            !r.0 ==> *final(self) == *old(self) && r.1 is None,
    {
        let hit = self.has_breakpoint(addr);
        if hit {
            let resp = self.finish_wait(PauseReason::Breakpoint);
            (true, resp)
        } else {
            (false, None)
        }
    }
}

/// The register report: every field read from its own register.
pub open spec fn read_registers_spec(regs: State) -> Registers {
    Registers {
        af: regs.af,
        bc: regs.bc,
        de: regs.de,
        hl: regs.hl,
        ix: regs.ix,
        iy: regs.iy,
        pc: regs.pc,
        sp: regs.sp,
        i: regs.i,
        r: regs.r,
        af_: regs.af_,
        bc_: regs.bc_,
        de_: regs.de_,
        hl_: regs.hl_,
    }
}

/// The register restore: every named register takes its own field's value,
/// and the interrupt-control state is untouched.
pub open spec fn write_registers_spec(regs: State, values: Registers) -> State {
    State {
        af: values.af,
        bc: values.bc,
        de: values.de,
        hl: values.hl,
        ix: values.ix,
        iy: values.iy,
        pc: values.pc,
        sp: values.sp,
        i: values.i,
        r: values.r,
        af_: values.af_,
        bc_: values.bc_,
        de_: values.de_,
        hl_: values.hl_,
        ..regs
    }
}

/// Report the processor registers.
pub fn read_registers(regs: &State) -> (r: Registers)
    ensures
        r == read_registers_spec(*regs),
{
    Registers {
        af: regs.af,
        bc: regs.bc,
        de: regs.de,
        hl: regs.hl,
        ix: regs.ix,
        iy: regs.iy,
        pc: regs.pc,
        sp: regs.sp,
        i: regs.i,
        r: regs.r,
        af_: regs.af_,
        bc_: regs.bc_,
        de_: regs.de_,
        hl_: regs.hl_,
    }
}

/// Overwrite the processor registers, each from its own field.
pub fn write_registers(regs: &mut State, values: Registers)
    ensures
        *final(regs) == write_registers_spec(*old(regs), values),
{
    regs.af = values.af;
    regs.bc = values.bc;
    regs.de = values.de;
    regs.hl = values.hl;
    regs.ix = values.ix;
    regs.iy = values.iy;
    regs.pc = values.pc;
    regs.sp = values.sp;
    regs.i = values.i;
    regs.r = values.r;
    regs.af_ = values.af_;
    regs.bc_ = values.bc_;
    regs.de_ = values.de_;
    regs.hl_ = values.hl_;
}

/// Restoring registers and reading them back reproduces the restored values
/// exactly, field by field.
pub proof fn lemma_register_restore_round_trips(regs: State, values: Registers)
    ensures
        read_registers_spec(write_registers_spec(regs, values)) == values,
{
}

} // verus!
