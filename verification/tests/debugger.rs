use tihle::debug::{Command, Debugger, PauseReason, Registers, Response};
use tihle::z80::State;

#[test]
fn breakpoint_hit_pauses_execution() {
    let mut dbg = Debugger::new();
    assert!(dbg.may_run());
    dbg.add_breakpoint(0x9d95);
    let (hit, resp) = dbg.handle_instruction_fetch(0x9000);
    assert!(!hit);
    assert_eq!(resp, None);
    assert!(dbg.may_run());
    let (hit, resp) = dbg.handle_instruction_fetch(0x9d95);
    assert!(hit);
    assert_eq!(resp, None);
    assert!(dbg.is_paused());
}

#[test]
fn duplicate_breakpoints_register_once() {
    let mut dbg = Debugger::new();
    dbg.add_breakpoint(0x1234);
    dbg.add_breakpoint(0x1234);
    assert!(dbg.has_breakpoint(0x1234));
    assert!(!dbg.has_breakpoint(0x1235));
}

#[test]
fn wait_defers_response_until_pause() {
    let mut dbg = Debugger::new();
    let mut regs = State::new();
    // On a running processor a wait produces no response yet.
    assert_eq!(dbg.handle_command(&mut regs, Command::Wait), None);
    // An out-of-band interrupt ends the wait with its deferred response.
    assert_eq!(
        dbg.interrupt(),
        Some(Response::WaitResult(PauseReason::Interrupted))
    );
    assert!(dbg.is_paused());
}

#[test]
fn wait_on_paused_processor_answers_at_once() {
    let mut dbg = Debugger::new();
    let mut regs = State::new();
    assert_eq!(dbg.pause(), None);
    assert_eq!(
        dbg.handle_command(&mut regs, Command::Wait),
        Some(Response::WaitResult(PauseReason::AlreadyPaused))
    );
    assert_eq!(
        dbg.handle_command(&mut regs, Command::Run),
        Some(Response::Done)
    );
    assert!(dbg.may_run());
}

#[test]
fn breakpoint_hit_ends_active_wait() {
    let mut dbg = Debugger::new();
    let mut regs = State::new();
    dbg.add_breakpoint(0x8000);
    assert_eq!(dbg.handle_command(&mut regs, Command::Wait), None);
    let (hit, resp) = dbg.handle_instruction_fetch(0x8000);
    assert!(hit);
    assert_eq!(resp, Some(Response::WaitResult(PauseReason::Breakpoint)));
}

#[test]
fn termination_ends_active_wait() {
    let mut dbg = Debugger::new();
    let mut regs = State::new();
    assert_eq!(dbg.handle_command(&mut regs, Command::Wait), None);
    assert_eq!(
        dbg.notice_termination(),
        Some(Response::WaitResult(PauseReason::Terminated))
    );
}

#[test]
fn set_registers_restores_every_field() {
    let mut dbg = Debugger::new();
    let mut regs = State::new();
    let values = Registers {
        af: 0x0102,
        bc: 0x0304,
        de: 0x0506,
        hl: 0x0708,
        ix: 0x090A,
        iy: 0x0B0C,
        pc: 0x0D0E,
        sp: 0x0F10,
        i: 0x11,
        r: 0x12,
        af_: 0x1314,
        bc_: 0x1516,
        de_: 0x1718,
        hl_: 0x191A,
    };
    assert_eq!(
        dbg.handle_command(&mut regs, Command::SetRegisters(values)),
        Some(Response::Done)
    );
    // Each register took its own field, not a copy of some other one.
    assert_eq!(regs.af, 0x0102);
    assert_eq!(regs.bc, 0x0304);
    assert_eq!(regs.de, 0x0506);
    assert_eq!(regs.hl, 0x0708);
    assert_eq!(regs.ix, 0x090A);
    assert_eq!(regs.iy, 0x0B0C);
    assert_eq!(regs.pc, 0x0D0E);
    assert_eq!(regs.sp, 0x0F10);
    assert_eq!(regs.i, 0x11);
    assert_eq!(regs.r, 0x12);
    assert_eq!(regs.af_, 0x1314);
    assert_eq!(regs.bc_, 0x1516);
    assert_eq!(regs.de_, 0x1718);
    assert_eq!(regs.hl_, 0x191A);
    // Reading back reports exactly what was set.
    assert_eq!(
        dbg.handle_command(&mut regs, Command::GetRegisters),
        Some(Response::RegisterValues(values))
    );
}
