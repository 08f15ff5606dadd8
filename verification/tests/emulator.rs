use tihle::keyboard::Key;
use tihle::traps::Trap;
use tihle::z80::State;
use tihle::{Emulator, RunDecision};

const MINIMAL_PROGRAM: &[u8] = b"**TI83F*\x1a\x0a\x00\
                                File generated by spasm\0\0\0\0\0\0\0\0\0\0\0\0\0\0\0\0\0\0\0\
                                \x16\0\
                                \x0d\0\
                                \x05\0\
                                \x06\
                                MINIMAL\0\
                                \0\0\
                                \x05\0\
                                \x03\0\
                                \xbb\x6d\xc9\
                                \x18\x04";

const PERIOD: u64 = 1_000_000_000 / 118;

fn running_emulator() -> (Emulator, State) {
    let mut emu = Emulator::new();
    let mut regs = State::new();
    emu.load_program(&mut regs, MINIMAL_PROGRAM)
        .expect("program must load");
    (emu, regs)
}

#[test]
fn terminated_emulator_runs_nothing() {
    let mut emu = Emulator::new();
    assert_eq!(emu.begin_slice(false, 1_000_000), RunDecision::NotRunning);
}

#[test]
fn slice_is_bounded_by_next_interrupt() {
    let (mut emu, _regs) = running_emulator();
    // Ask for a frame-sized step; the timer fires sooner, so the cycle
    // budget covers exactly the time until it does.
    let decision = emu.begin_slice(false, 16_666_667);
    let expected_cycles = emu.duration_to_cycles(PERIOD);
    assert_eq!(
        decision,
        RunDecision::Execute { cycles: expected_cycles, irq: false }
    );
    // A shorter request is honored as asked.
    let decision = emu.begin_slice(false, 1_000_000);
    assert_eq!(
        decision,
        RunDecision::Execute { cycles: emu.duration_to_cycles(1_000_000), irq: false }
    );
}

#[test]
fn halted_with_no_interrupt_is_idle_time() {
    let (mut emu, _regs) = running_emulator();
    let decision = emu.begin_slice(true, 16_666_667);
    assert_eq!(decision, RunDecision::Idle { nanos: PERIOD });
    // The idle time still ages the timers: the interrupt fires, so a halted
    // processor now has work.
    emu.finish_slice(PERIOD);
    let decision = emu.begin_slice(true, 16_666_667);
    assert_eq!(
        decision,
        RunDecision::Execute { cycles: emu.duration_to_cycles(PERIOD), irq: true }
    );
}

#[test]
fn cycle_conversion_rounds_up_and_never_stalls() {
    let emu = Emulator::new();
    // A fraction of a cycle still runs one cycle.
    assert_eq!(emu.duration_to_cycles(1), 1);
    // One second runs the full clock rate.
    assert_eq!(emu.duration_to_cycles(1_000_000_000), 6_000_000);
    assert_eq!(emu.cycles_to_duration(6_000_000), 1_000_000_000);
    assert_eq!(emu.cycles_to_duration(3), 500);
}

#[test]
fn finish_cycles_reports_time_and_ages_timers() {
    let (mut emu, _regs) = running_emulator();
    let ns = emu.finish_cycles(6_000);
    assert_eq!(ns, 1_000_000);
    let (_, next) = emu.interrupt_controller.poll();
    assert_eq!(next, Some(PERIOD - 1_000_000));
}

#[test]
fn ports_reach_their_peripherals() {
    let (mut emu, _regs) = running_emulator();
    // Port 6 selects the bank-A page.
    assert_eq!(emu.write_io(0x06, 7), None);
    assert_eq!(emu.read_io(0x06), 7);
    // Port 1 selects keyboard groups; with none selected the matrix reads
    // all-high.
    assert_eq!(emu.write_io(0x01, 0xFF), None);
    assert_eq!(emu.read_io(0x01), 0xFF);
    // Port 3 masks interrupts and reports the new request-line state.
    assert_eq!(emu.write_io(0x03, 0x00), Some(false));
    assert_eq!(emu.read_io(0x03), 0x00);
    assert_eq!(emu.write_io(0x03, 0x03), Some(false));
    // Port 0x10 drives the display controller; the status port reads the
    // configured modes back.
    emu.write_io(0x10, 0x00); // 6-bit words
    emu.write_io(0x10, 0x06); // Y-decrement
    assert_eq!(emu.read_io(0x10), 0x22);
    // An unhandled port reads as zero.
    assert_eq!(emu.read_io(0x42), 0);
    assert_eq!(emu.write_io(0x42, 0xAA), None);
}

#[test]
fn display_data_port_round_trips() {
    let (mut emu, _regs) = running_emulator();
    emu.write_io(0x10, 0x07); // Y-increment
    emu.read_io(0x11); // clear the power-on dummy read
    emu.write_io(0x10, 0x20); // Y := 0
    emu.read_io(0x11); // dummy read after the address write
    emu.write_io(0x11, 0x5A);
    emu.write_io(0x10, 0x20); // Y := 0 again
    emu.read_io(0x11); // dummy
    assert_eq!(emu.read_io(0x11), 0x5A);
}

#[test]
fn reset_trap_terminates_emulation() {
    let (mut emu, mut regs) = running_emulator();
    assert!(emu.is_running());
    let cycles = Trap::Reset.handle(&mut emu, &mut regs);
    assert_eq!(cycles, 0);
    assert!(!emu.is_running());
}

#[test]
fn div_hl_by_10_splits_quotient_and_remainder() {
    let mut emu = Emulator::new();
    let mut regs = State::new();
    regs.hl = 1234;
    let cycles = Trap::DivHLBy10.handle(&mut emu, &mut regs);
    assert_eq!(regs.hl, 123);
    assert_eq!(regs.af >> 8, 4);
    assert_eq!(cycles, 160);
}

#[test]
fn memset_fills_ram_and_skips_rom() {
    let mut emu = Emulator::new();
    let mut regs = State::new();
    regs.hl = 0x9000;
    regs.bc = 4;
    regs.set_a(0xAB);
    let cycles = Trap::MemSet.handle(&mut emu, &mut regs);
    assert_eq!(cycles, 64);
    for a in 0x9000..0x9004u16 {
        assert_eq!(emu.mem.read(a), 0xAB);
    }
    assert_eq!(emu.mem.read(0x9004), 4); // untouched fill pattern
    // A fill aimed at a read-only window changes nothing.
    regs.hl = 0x4000;
    Trap::MemSet.handle(&mut emu, &mut regs);
    assert_eq!(emu.mem.read(0x4000), 0);
}

#[test]
fn home_up_moves_cursor_to_origin() {
    let mut emu = Emulator::new();
    let mut regs = State::new();
    emu.mem.put(0x844b, 3).unwrap();
    emu.mem.put(0x844c, 9).unwrap();
    let cycles = Trap::HomeUp.handle(&mut emu, &mut regs);
    assert_eq!(cycles, 16);
    assert_eq!(emu.mem.read(0x844b), 0);
    assert_eq!(emu.mem.read(0x844c), 0);
}

#[test]
fn clear_lcd_blanks_the_screen() {
    let mut emu = Emulator::new();
    let mut regs = State::new();
    emu.display.write_data(0xFF);
    assert_eq!(emu.display.get_pixel(0, 0), 1);
    let cycles = Trap::ClrLCDFull.handle(&mut emu, &mut regs);
    assert_eq!(cycles, 60000);
    assert_eq!(emu.display.get_pixel(0, 0), 0);
}

#[test]
fn graph_buffer_copy_reaches_the_screen() {
    let mut emu = Emulator::new();
    let mut regs = State::new();
    // Top-left buffer byte: leftmost pixel of row 0 set.
    emu.mem.put(0x9340, 0x80).unwrap();
    // Zero the rest of the first buffer row so the expectation is exact.
    for a in 0x9341..0x934c {
        emu.mem.put(a, 0).unwrap();
    }
    let cycles = Trap::GrBufCpy.handle(&mut emu, &mut regs);
    assert_eq!(cycles, 60000);
    assert_eq!(emu.display.get_pixel(0, 0), 1);
    for x in 1..96u8 {
        assert_eq!(emu.display.get_pixel(x, 0), 0, "pixel {} of row 0", x);
    }
}

fn emulator_with_fonts() -> Emulator {
    let mut large = vec![0u8; 1792];
    // Character 0x41 draws its leftmost pixel on all seven rows.
    for row in 0..7 {
        large[0x41 * 7 + row] = 0x80;
    }
    let mut small = vec![0u8; 1536];
    for row in 0..6 {
        small[0x41 * 6 + row] = 0x80;
    }
    let mut widths = vec![1u8; 256];
    widths[0x41] = 4;
    let mut b = Emulator::builder();
    b.large_font(large);
    b.small_font(small, widths);
    b.build()
}

#[test]
fn put_c_draws_and_advances_cursor() {
    let mut emu = emulator_with_fonts();
    let mut regs = State::new();
    emu.mem.put(0x844b, 0).unwrap();
    emu.mem.put(0x844c, 0).unwrap();
    regs.set_a(0x41);
    let cycles = Trap::PutC.handle(&mut emu, &mut regs);
    assert_eq!(cycles, 500);
    for row in 0..7u8 {
        assert_eq!(emu.display.get_pixel(0, row), 1, "glyph row {}", row);
    }
    assert_eq!(emu.display.get_pixel(1, 0), 0);
    assert_eq!(emu.mem.read(0x844c), 1); // column advanced
    assert_eq!(emu.mem.read(0x844b), 0);
    // The next character lands one text cell to the right.
    Trap::PutC.handle(&mut emu, &mut regs);
    assert_eq!(emu.display.get_pixel(6, 0), 1);
}

#[test]
fn put_map_draws_without_moving_cursor() {
    let mut emu = emulator_with_fonts();
    let mut regs = State::new();
    emu.mem.put(0x844b, 2).unwrap();
    emu.mem.put(0x844c, 3).unwrap();
    regs.set_a(0x41);
    let cycles = Trap::PutMap.handle(&mut emu, &mut regs);
    assert_eq!(cycles, 500);
    assert_eq!(emu.display.get_pixel(18, 16), 1);
    assert_eq!(emu.mem.read(0x844b), 2);
    assert_eq!(emu.mem.read(0x844c), 3);
}

#[test]
fn disp_hl_formats_right_aligned_decimal() {
    let mut emu = emulator_with_fonts();
    let mut regs = State::new();
    emu.mem.put(0x844b, 0).unwrap();
    emu.mem.put(0x844c, 0).unwrap();
    regs.hl = 42;
    let cycles = Trap::DispHL.handle(&mut emu, &mut regs);
    assert_eq!(cycles, 2700);
    let op1: Vec<u8> = (0x8478..0x847d).map(|a| emu.mem.read(a)).collect();
    assert_eq!(op1, b"   42".to_vec());
    regs.hl = 0;
    Trap::DispHL.handle(&mut emu, &mut regs);
    let op1: Vec<u8> = (0x8478..0x847d).map(|a| emu.mem.read(a)).collect();
    assert_eq!(op1, b"    0".to_vec());
    regs.hl = 65535;
    Trap::DispHL.handle(&mut emu, &mut regs);
    let op1: Vec<u8> = (0x8478..0x847d).map(|a| emu.mem.read(a)).collect();
    assert_eq!(op1, b"65535".to_vec());
}

#[test]
fn v_put_map_advances_pen_and_flags_overflow() {
    let mut emu = emulator_with_fonts();
    let mut regs = State::new();
    emu.mem.put(0x86d7, 0).unwrap(); // pen column
    emu.mem.put(0x86d8, 0).unwrap(); // pen row
    // Keep the buffered-text flag clear so the glyph goes to the screen.
    regs.iy = 0x98f0;
    emu.mem.put(0x98f0 + 0x14, 0).unwrap();
    regs.set_a(0x41);
    let cycles = Trap::VPutMap.handle(&mut emu, &mut regs);
    assert_eq!(cycles, 400);
    assert_eq!(emu.display.get_pixel(0, 0), 1);
    assert_eq!(emu.mem.read(0x86d7), 4); // advanced by the glyph width
    assert_eq!(regs.af & 1, 0); // still on screen: carry clear
    // Park the pen near the right edge: the next write runs off and sets
    // carry.
    emu.mem.put(0x86d7, 95).unwrap();
    Trap::VPutMap.handle(&mut emu, &mut regs);
    assert_eq!(emu.mem.read(0x86d7), 99);
    assert_eq!(regs.af & 1, 1);
}

#[test]
fn buffered_small_font_writes_xor_the_graph_buffer() {
    let mut emu = emulator_with_fonts();
    let mut regs = State::new();
    emu.mem.put(0x86d7, 0).unwrap();
    emu.mem.put(0x86d8, 0).unwrap();
    regs.iy = 0x98f0;
    // Set the buffered-text flag: glyphs go to the graph buffer in memory.
    emu.mem.put(0x98f0 + 0x14, 1 << 7).unwrap();
    for a in 0x9340..0x9340 + 72u16 {
        emu.mem.put(a, 0).unwrap();
    }
    regs.set_a(0x41);
    Trap::VPutMap.handle(&mut emu, &mut regs);
    // Each of the six glyph rows was XORed into the buffer byte of its row.
    for row in 0..6u16 {
        assert_eq!(emu.mem.read(0x9340 + row * 12), 0x80, "buffer row {}", row);
        // With a zero pixel shift the spill byte receives the same row, an
        // artifact of the rotate-and-mask step the hardware routine used.
        assert_eq!(emu.mem.read(0x9341 + row * 12), 0x80, "spill byte {}", row);
    }
    // The screen itself was not drawn on.
    assert_eq!(emu.display.get_pixel(0, 0), 0);
}

#[test]
fn bcall_dispatches_through_the_vector_table() {
    let mut b = Emulator::builder();
    // The vector table page: the entry for vector 0x4000 names page 2,
    // address 0x5544.
    b.flash_page(0x1B, vec![0x02, 0x44, 0x55]);
    let mut emu = b.build();
    let mut regs = State::new();
    // The program called from 0x9000: the inline vector word follows the
    // call, and the return address on the stack points at it.
    regs.sp = 0xFFF0;
    regs.pc = 0x1234;
    emu.mem.write_u16(0xFFF0, 0x9000);
    emu.mem.write_u16(0x9000, 0x4000);
    let cycles = Trap::RomCall.handle(&mut emu, &mut regs);
    assert_eq!(cycles, 700);
    // The return address was advanced past the inline vector.
    assert_eq!(emu.mem.read_u16(0xFFF0), 0x9002);
    // Control moved to the vector's target with its page mapped in.
    assert_eq!(regs.pc, 0x5544);
    assert_eq!(emu.mem.get_bank_a_page(), 2);
    // The old page and the resume address were pushed.
    assert_eq!(regs.sp, 0xFFEC);
    assert_eq!(emu.mem.read(0xFFEF), 0);
    assert_eq!(emu.mem.read_u16(0xFFEC), 0x1234);
}

#[test]
fn bcall_return_restores_page_and_caller() {
    let mut emu = Emulator::new();
    let mut regs = State::new();
    emu.mem.set_bank_a_page(2);
    regs.sp = 0xFFEE;
    emu.mem.put(0xFFEF, 7).unwrap();
    emu.mem.write_u16(0xFFF0, 0xABCD);
    let cycles = Trap::RomCallReturn.handle(&mut emu, &mut regs);
    assert_eq!(cycles, 120);
    assert_eq!(emu.mem.get_bank_a_page(), 7);
    assert_eq!(regs.pc, 0xABCD);
    assert_eq!(regs.sp, 0xFFF2);
}

#[test]
fn unimplemented_bcall_degrades_to_immediate_return() {
    let mut emu = Emulator::new();
    let mut regs = State::new();
    regs.sp = 0xFFF0;
    emu.mem.write_u16(0xFFF0, 0x9000);
    // The inline vector points outside the vector table window.
    emu.mem.write_u16(0x9000, 0x1234);
    let cycles = Trap::RomCall.handle(&mut emu, &mut regs);
    assert_eq!(cycles, 60);
    assert_eq!(emu.unimplemented_bcall, Some(0x1234));
    // Execution resumed past the vector word.
    assert_eq!(regs.pc, 0x9002);
    assert_eq!(regs.sp, 0xFFF2);
}

#[test]
fn os_interrupt_stores_scan_code() {
    let mut emu = Emulator::new();
    let mut regs = State::new();
    regs.iy = 0x98f0;
    // Clear the flag bytes the handler consults.
    emu.mem.put(0x98f0, 0).unwrap();
    emu.mem.put(0x98f0 + 0x12, 0).unwrap();
    emu.keyboard.key_down(Key::Enter);
    let cycles = Trap::OsInterrupt.handle(&mut emu, &mut regs);
    assert_eq!(cycles, 400);
    // The scan-complete flag was raised and the scan code stored.
    assert_eq!(emu.mem.read(0x98f0) & (1 << 3), 1 << 3);
    assert_eq!(emu.mem.read(0x843f), 9);
}
