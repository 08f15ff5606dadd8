//! Emulator traps: addresses and synthetic opcodes that, instead of being
//! emulated at the instruction level, invoke native replacement logic for the
//! read-only-memory routines. Each handler computes its effect on registers,
//! memory and peripherals, and reports an approximate cycle cost so virtual
//! time keeps pace with what the real routine would have consumed.

use vstd::prelude::*;

verus! {

use crate::display::{
    bit_of,
    scroll_up_buf,
    ScrollDirection,
};
use crate::memory::MemoryView;
use crate::tios;
use crate::z80::State;
use crate::Emulator;

/// Cycle count reported by traps that end the current slice.
pub const FORCE_YIELD: usize = 0;

/// The flash page holding the system-call vector table.
pub const VECTOR_TABLE_PAGE: u8 = 0x1B;

/// Defined emulator traps.
///
/// The numeric codes must match those the system image uses.
#[derive(Debug, Clone, Copy, PartialEq, Eq, Structural)]
pub enum Trap {
    /// Terminate emulation.
    Reset,
    /// Set up for a paged subroutine call.
    RomCall,
    /// Return from a paged subroutine call.
    RomCallReturn,
    /// The periodic system interrupt handler.
    OsInterrupt,
    DivHLBy10,
    PutMap,
    PutC,
    DispHL,
    ClrLCDFull,
    HomeUp,
    VPutMap,
    GrBufCpy,
    MemSet,
    PrintCpuState,
}

/// The trap a numeric code names, if any.
pub open spec fn trap_from_u16_spec(code: u16) -> Option<Trap> {
    if code == 0 {
        Some(Trap::Reset)
    } else if code == 1 {
        Some(Trap::RomCall)
    } else if code == 2 {
        Some(Trap::RomCallReturn)
    } else if code == 3 {
        Some(Trap::OsInterrupt)
    } else if code == 0x400F {
        Some(Trap::DivHLBy10)
    } else if code == 0x4501 {
        Some(Trap::PutMap)
    } else if code == 0x4504 {
        Some(Trap::PutC)
    } else if code == 0x4507 {
        Some(Trap::DispHL)
    } else if code == 0x4540 {
        Some(Trap::ClrLCDFull)
    } else if code == 0x4558 {
        Some(Trap::HomeUp)
    } else if code == 0x455e {
        Some(Trap::VPutMap)
    } else if code == 0x4860 {
        Some(Trap::GrBufCpy)
    } else if code == 0x4C33 {
        Some(Trap::MemSet)
    } else if code == 0xFFFF {
        Some(Trap::PrintCpuState)
    } else {
        None
    }
}

impl Trap {
    /// Decode a trap code.
    pub fn from_u16(code: u16) -> (r: Option<Trap>)
        ensures
            r == trap_from_u16_spec(code),
    {
        if code == 0 {
            Some(Trap::Reset)
        } else if code == 1 {
            Some(Trap::RomCall)
        } else if code == 2 {
            Some(Trap::RomCallReturn)
        } else if code == 3 {
            Some(Trap::OsInterrupt)
        } else if code == 0x400F {
            Some(Trap::DivHLBy10)
        } else if code == 0x4501 {
            Some(Trap::PutMap)
        } else if code == 0x4504 {
            Some(Trap::PutC)
        } else if code == 0x4507 {
            Some(Trap::DispHL)
        } else if code == 0x4540 {
            Some(Trap::ClrLCDFull)
        } else if code == 0x4558 {
            Some(Trap::HomeUp)
        } else if code == 0x455e {
            Some(Trap::VPutMap)
        } else if code == 0x4860 {
            Some(Trap::GrBufCpy)
        } else if code == 0x4C33 {
            Some(Trap::MemSet)
        } else if code == 0xFFFF {
            Some(Trap::PrintCpuState)
        } else {
            None
        }
    }
}

/// Every part of the machine except memory is unchanged.
pub open spec fn same_but_mem(pre: Emulator, post: Emulator) -> bool {
    &&& post.display == pre.display
    &&& post.keyboard == pre.keyboard
    &&& post.interrupt_controller == pre.interrupt_controller
    &&& post.running == pre.running
    &&& post.clock_rate == pre.clock_rate
    &&& post.unimplemented_bcall == pre.unimplemented_bcall
    &&& post.large_font == pre.large_font
    &&& post.small_font == pre.small_font
    &&& post.small_font_widths == pre.small_font_widths
}

/// Every part of the machine except the display is unchanged.
pub open spec fn same_but_display(pre: Emulator, post: Emulator) -> bool {
    &&& post.mem == pre.mem
    &&& post.keyboard == pre.keyboard
    &&& post.interrupt_controller == pre.interrupt_controller
    &&& post.running == pre.running
    &&& post.clock_rate == pre.clock_rate
    &&& post.unimplemented_bcall == pre.unimplemented_bcall
    &&& post.large_font == pre.large_font
    &&& post.small_font == pre.small_font
    &&& post.small_font_widths == pre.small_font_widths
}

/// The flag byte's address: an offset from the flags pointer register,
/// wrapping around the address space.
pub open spec fn flag_addr(iy: u16, byte: u8) -> u16 {
    ((iy + byte) % 0x10000) as u16
}

/// Whether a system flag is set: bit `bit` of the byte at `iy + byte`.
pub open spec fn test_flag_spec(m: MemoryView, iy: u16, byte: u8, bit: u8) -> bool {
    m.read(flag_addr(iy, byte)) & (1u8 << bit) != 0
}

/// Read a system flag bit, addressed relative to the flags pointer.
pub fn test_flag(emu: &Emulator, regs: &State, byte: u8, bit: u8) -> (r: bool)
    requires
        emu.wf(),
        bit < 8,
    ensures
        r == test_flag_spec(emu.mem@, regs.iy, byte, bit),
{
    (emu.mem.read(regs.iy.wrapping_add(byte as u16)) & (1u8 << bit)) != 0
}

/// Set a system flag bit, addressed relative to the flags pointer.
pub fn set_flag(emu: &mut Emulator, regs: &State, byte: u8, bit: u8)
    requires
        old(emu).wf(),
        bit < 8,
    ensures
        final(emu).wf(),
        same_but_mem(*old(emu), *final(emu)),
        final(emu).mem@ == old(emu).mem@.write(
            flag_addr(regs.iy, byte),
            (old(emu).mem@.read(flag_addr(regs.iy, byte)) | (1u8 << bit)) as u8,
        ),
{
    let addr = regs.iy.wrapping_add(byte as u16);
    let v = emu.mem.read(addr);
    emu.mem.write(addr, v | (1u8 << bit));
}

/// Move the text cursor to the top-left corner.
pub open spec fn home_up_post(pre: Emulator, post: Emulator, r: usize) -> bool {
    &&& same_but_mem(pre, post)
    &&& post.mem@ == pre.mem@.write(tios::curCol, 0u8).write(tios::curRow, 0u8)
    &&& r == 16
}

pub fn HomeUp(emu: &mut Emulator) -> (r: usize)
    requires
        old(emu).wf(),
    ensures
        final(emu).wf(),
        home_up_post(*old(emu), *final(emu), r),
{
    emu.mem.write(tios::curCol, 0);
    emu.mem.write(tios::curRow, 0);
    16
}

/// Clear the whole screen.
pub open spec fn clr_lcd_post(pre: Emulator, post: Emulator, r: usize) -> bool {
    &&& same_but_display(pre, post)
    &&& post.display@ == (crate::display::DisplayView {
        buf: Seq::new(6144, |i: int| 0u8),
        ..pre.display@
    })
    &&& r == 60000
}

pub fn ClrLCDFull(emu: &mut Emulator) -> (r: usize)
    requires
        old(emu).wf(),
    ensures
        final(emu).wf(),
        clr_lcd_post(*old(emu), *final(emu), r),
{
    emu.display.clear();
    60000
}

/// Copy the graph buffer in memory onto the screen, one bit per pixel.
pub open spec fn gr_buf_cpy_post(pre: Emulator, post: Emulator, r: usize) -> bool {
    &&& same_but_display(pre, post)
    &&& post.display@.auto_mode == pre.display@.auto_mode
    &&& post.display@.word_mode == pre.display@.word_mode
    &&& post.display@.pending == pre.display@.pending
    &&& post.display@.x == pre.display@.x
    &&& post.display@.y == pre.display@.y
    &&& forall|m: int|
        0 <= m < 6144 ==> #[trigger] post.display@.buf[m] == bit_of(
            pre.mem@.read((tios::plotSScreen + m / 8) as u16),
            7 - (m % 8),
        )
    &&& r == 60000
}

pub fn GrBufCpy(emu: &mut Emulator) -> (r: usize)
    requires
        old(emu).wf(),
    ensures
        final(emu).wf(),
        gr_buf_cpy_post(*old(emu), *final(emu), r),
{
    let image = match emu.mem.read_range(tios::plotSScreen, tios::plotSScreen + 768) {
        Some(v) => v,
        None => {
            proof {
                assert(false);
            }
            Vec::new()
        },
    };
    emu.display.blit_fullscreen(image.as_slice());
    60000
}

/// Divide `hl` by ten, the quotient back in `hl` and the remainder in the
/// accumulator.
pub open spec fn div_hl_post(pre: State, post: State, r: usize) -> bool {
    &&& post == (State {
        hl: (pre.hl / 10) as u16,
        af: (pre.af & 0xFF | (((pre.hl % 10) as u16) << 8u16)) as u16,
        ..pre
    })
    &&& r == 160
}

#[allow(non_snake_case)]
pub fn DivHLBy10(regs: &mut State) -> (r: usize)
    ensures
        div_hl_post(*old(regs), *final(regs), r),
{
    let quotient = regs.hl / 10;
    let remainder = regs.hl % 10;
    regs.hl = quotient;
    regs.set_a(remainder as u8);
    proof {
        assert((old(regs).hl % 10) < 256);
        assert(((old(regs).hl % 10) as u8) as u16 == (old(regs).hl % 10) as u16);
    }
    160
}

/// The `o`-th address after `base`, wrapping around the top of the address
/// space.
pub open spec fn wrapped_at(base: u16, o: int) -> int {
    (base + o) % 0x10000
}

/// Whether `a` lies in the block of `n` addresses starting at `base`,
/// wrapping around the top of the address space.
pub open spec fn in_wrapped_range(a: u16, base: u16, n: int) -> bool {
    exists|o: int| 0 <= o < n && a == #[trigger] wrapped_at(base, o)
}

/// Fill `bc` bytes starting at `hl` with the accumulator, wrapping around the
/// address space; bytes falling in read-only windows are left alone.
pub open spec fn memset_post(
    pre: Emulator,
    regs: State,
    post: Emulator,
    r: usize,
) -> bool {
    &&& same_but_mem(pre, post)
    &&& post.mem@.flash == pre.mem@.flash
    &&& post.mem@.bank_a_page == pre.mem@.bank_a_page
    &&& forall|a: u16|
        #[trigger] post.mem@.read(a) == if a >= 0x8000 && in_wrapped_range(a, regs.hl, regs.bc as int) {
            (regs.af >> 8u16) as u8
        } else {
            pre.mem@.read(a)
        }
    &&& r == regs.bc * 16
}

#[allow(non_snake_case)]
pub fn MemSet(emu: &mut Emulator, regs: &State) -> (r: usize)
    requires
        old(emu).wf(),
    ensures
        final(emu).wf(),
        memset_post(*old(emu), *regs, *final(emu), r),
{
    let sz = regs.bc;
    let ptr = regs.hl;
    let value = regs.get_a();
    let mut ofs: u16 = 0;
    while ofs < sz
        invariant
            old(emu).wf(),
            emu.wf(),
            ofs <= sz,
            value == (regs.af >> 8u16) as u8,
            same_but_mem(*old(emu), *emu),
            emu.mem@.flash == old(emu).mem@.flash,
            emu.mem@.bank_a_page == old(emu).mem@.bank_a_page,
            forall|a: u16|
                #[trigger] emu.mem@.read(a) == if a >= 0x8000 && in_wrapped_range(
                    a,
                    ptr,
                    ofs as int,
                ) {
                    value
                } else {
                    old(emu).mem@.read(a)
                },
        decreases sz - ofs,
    {
        let ghost mid = emu.mem@;
        let addr = ptr.wrapping_add(ofs);
        let _ = emu.mem.put(addr, value);
        proof {
            if addr >= 0x8000 {
                crate::memory::lemma_write_read(mid, addr, value);
                assert(emu.mem@ == mid.write(addr, value));
            }
            assert forall|a: u16| #[trigger]
                emu.mem@.read(a) == if a >= 0x8000 && in_wrapped_range(a, ptr, ofs as int + 1) {
                    value
                } else {
                    old(emu).mem@.read(a)
                } by {
                if a == addr && a >= 0x8000 {
                    assert(wrapped_at(ptr, ofs as int) == addr);
                    assert(in_wrapped_range(a, ptr, ofs as int + 1));
                } else {
                    if in_wrapped_range(a, ptr, ofs as int + 1) && !in_wrapped_range(
                        a,
                        ptr,
                        ofs as int,
                    ) {
                        let o = choose|o: int|
                            0 <= o < ofs as int + 1 && a == #[trigger] wrapped_at(ptr, o);
                        assert(o == ofs as int);
                        assert(a == addr);
                    }
                    if a >= 0x8000 && addr >= 0x8000 && a != addr {
                        assert(crate::memory::cell_of(mid, a) != crate::memory::cell_of(
                            mid,
                            addr,
                        ));
                    }
                }
            }
        }
        ofs += 1;
    }
    proof {
        assert(sz * 16 <= 0xFFFF * 16) by (nonlinear_arith)
            requires
                sz <= 0xFFFF,
        ;
    }
    sz as usize * 16
}

/// The display buffer after drawing large-font glyph `c` at text cell
/// (`col`, `row`): a 6x7-pixel block whose bits come from the glyph's rows,
/// most significant bit leftmost.
pub open spec fn put_char_buf(buf: Seq<u8>, font: Seq<u8>, c: u8, col: u8, row: u8) -> Seq<u8> {
    Seq::new(
        6144,
        |m: int|
            {
                let py = m / 96;
                let px = m % 96;
                if col * 6 <= px < col * 6 + 6 && row * 8 <= py < row * 8 + 7 {
                    bit_of(font[c * 7 + (py - row * 8)], 7 - (px - col * 6))
                } else {
                    buf[m]
                }
            },
    )
}

/// Draw a large-font character at a text cell.
pub fn put_char(emu: &mut Emulator, c: u8, col: u8, row: u8)
    requires
        old(emu).wf(),
        col < 16,
        row < 8,
    ensures
        final(emu).wf(),
        same_but_display(*old(emu), *final(emu)),
        final(emu).display@ == (crate::display::DisplayView {
            buf: put_char_buf(old(emu).display@.buf, old(emu).large_font@, c, col, row),
            ..old(emu).display@
        }),
{
    let glyph = vstd::slice::slice_subrange(
        emu.large_font.as_slice(),
        c as usize * 7,
        c as usize * 7 + 7,
    );
    emu.display.blit_8bit_over(col * 6, row * 8, glyph, 6);
    proof {
        let buf0 = old(emu).display@.buf;
        let buf1 = emu.display@.buf;
        let font = old(emu).large_font@;
        let xi = col * 6 as int;
        let yi = row * 8 as int;
        assert forall|m: int| 0 <= m < 6144 implies buf1[m] == put_char_buf(
            buf0,
            font,
            c,
            col,
            row,
        )[m] by {
            vstd::arithmetic::div_mod::lemma_fundamental_div_mod(m, 96);
            let py = m / 96;
            let px = m % 96;
            assert(0 <= py < 64 && 0 <= px < 96);
            if xi <= px < xi + 6 && yi <= py < yi + 7 {
                assert(crate::display::pixel_off(buf1, xi, yi, px - xi, py - yi) == bit_of(
                    glyph@[py - yi],
                    7 - (px - xi),
                ));
            } else {
                assert(crate::display::pixel_at(buf1, px, py) == crate::display::pixel_at(
                    buf0,
                    px,
                    py,
                ));
            }
        }
        assert(buf1 =~= put_char_buf(buf0, font, c, col, row));
    }
}

/// One scrolling-cursor character write: the glyph (when the cursor is on
/// screen), then the cursor step, wrapping to the next line after column 15
/// and either scrolling or clamping at the bottom, per the auto-scroll flag.
pub open spec fn put_char_scrolling_spec(
    pre_mem: MemoryView,
    pre_buf: Seq<u8>,
    font: Seq<u8>,
    iy: u16,
    c: u8,
) -> (MemoryView, Seq<u8>) {
    let x0 = pre_mem.read(tios::curCol);
    let y0 = pre_mem.read(tios::curRow);
    let d1 = if x0 < 16 && y0 < 8 {
        put_char_buf(pre_buf, font, c, x0, y0)
    } else {
        pre_buf
    };
    let x1 = ((x0 + 1) % 256) as u8;
    if x1 > 15 {
        let y1 = ((y0 + 1) % 256) as u8;
        if y1 >= 7 {
            if test_flag_spec(pre_mem, iy, tios::appFlags, tios::appAutoScroll) {
                (pre_mem.write(tios::curCol, 0u8).write(tios::curRow, 6u8), scroll_up_buf(d1, 8))
            } else {
                (pre_mem.write(tios::curCol, 0u8).write(tios::curRow, 7u8), d1)
            }
        } else {
            (pre_mem.write(tios::curCol, 0u8).write(tios::curRow, y1), d1)
        }
    } else {
        (pre_mem.write(tios::curCol, x1).write(tios::curRow, y0), d1)
    }
}

/// Write a character at the cursor and advance it, scrolling if needed. A
/// cursor outside the 16x8 text grid draws nothing but still advances.
fn put_char_scrolling(emu: &mut Emulator, regs: &State, c: u8)
    requires
        old(emu).wf(),
    ensures
        final(emu).wf(),
        same_but_mem_display(*old(emu), *final(emu)),
        final(emu).display@ == (crate::display::DisplayView {
            buf: put_char_scrolling_spec(
                old(emu).mem@,
                old(emu).display@.buf,
                old(emu).large_font@,
                regs.iy,
                c,
            ).1,
            ..old(emu).display@
        }),
        final(emu).mem@ == put_char_scrolling_spec(
            old(emu).mem@,
            old(emu).display@.buf,
            old(emu).large_font@,
            regs.iy,
            c,
        ).0,
{
    let y = emu.mem.read(tios::curRow);
    let x = emu.mem.read(tios::curCol);
    if x < 16 && y < 8 {
        put_char(emu, c, x, y);
    }
    let x1 = x.wrapping_add(1);
    if x1 > 15 {
        let y1 = y.wrapping_add(1);
        if y1 >= 7 {
            if test_flag(emu, regs, tios::appFlags, tios::appAutoScroll) {
                emu.display.scroll(ScrollDirection::Up, 8);
                emu.mem.write(tios::curCol, 0);
                emu.mem.write(tios::curRow, 6);
            } else {
                emu.mem.write(tios::curCol, 0);
                emu.mem.write(tios::curRow, 7);
            }
        } else {
            emu.mem.write(tios::curCol, 0);
            emu.mem.write(tios::curRow, y1);
        }
    } else {
        emu.mem.write(tios::curCol, x1);
        emu.mem.write(tios::curRow, y);
    }
}

/// Every part of the machine except memory and the display is unchanged.
pub open spec fn same_but_mem_display(pre: Emulator, post: Emulator) -> bool {
    &&& post.keyboard == pre.keyboard
    &&& post.interrupt_controller == pre.interrupt_controller
    &&& post.running == pre.running
    &&& post.clock_rate == pre.clock_rate
    &&& post.unimplemented_bcall == pre.unimplemented_bcall
    &&& post.large_font == pre.large_font
    &&& post.small_font == pre.small_font
    &&& post.small_font_widths == pre.small_font_widths
}

/// Approximate cycle count to write a character to the screen.
pub const PUTC_TIME: usize = 500;

/// Display the accumulator's character at the cursor, advancing and
/// scrolling like the terminal write it emulates.
pub open spec fn put_c_post(pre: Emulator, regs: State, post: Emulator, r: usize) -> bool {
    &&& same_but_mem_display(pre, post)
    &&& post.display@ == (crate::display::DisplayView {
        buf: put_char_scrolling_spec(
            pre.mem@,
            pre.display@.buf,
            pre.large_font@,
            regs.iy,
            (regs.af >> 8u16) as u8,
        ).1,
        ..pre.display@
    })
    &&& post.mem@ == put_char_scrolling_spec(
        pre.mem@,
        pre.display@.buf,
        pre.large_font@,
        regs.iy,
        (regs.af >> 8u16) as u8,
    ).0
    &&& r == PUTC_TIME
}

#[allow(non_snake_case)]
pub fn PutC(emu: &mut Emulator, regs: &State) -> (r: usize)
    requires
        old(emu).wf(),
    ensures
        final(emu).wf(),
        put_c_post(*old(emu), *regs, *final(emu), r),
{
    let a = regs.get_a();
    put_char_scrolling(emu, regs, a);
    PUTC_TIME
}

/// Display the accumulator's character at the cursor without moving it. A
/// cursor outside the text grid draws nothing.
pub open spec fn put_map_post(pre: Emulator, regs: State, post: Emulator, r: usize) -> bool {
    &&& same_but_display(pre, post)
    &&& ({
        let x0 = pre.mem@.read(tios::curCol);
        let y0 = pre.mem@.read(tios::curRow);
        post.display@ == (crate::display::DisplayView {
            buf: if x0 < 16 && y0 < 8 {
                put_char_buf(pre.display@.buf, pre.large_font@, (regs.af >> 8u16) as u8, x0, y0)
            } else {
                pre.display@.buf
            },
            ..pre.display@
        })
    })
    &&& r == PUTC_TIME
}

#[allow(non_snake_case)]
pub fn PutMap(emu: &mut Emulator, regs: &State) -> (r: usize)
    requires
        old(emu).wf(),
    ensures
        final(emu).wf(),
        put_map_post(*old(emu), *regs, *final(emu), r),
{
    let a = regs.get_a();
    let x = emu.mem.read(tios::curCol);
    let y = emu.mem.read(tios::curRow);
    if x < 16 && y < 8 {
        put_char(emu, a, x, y);
    }
    PUTC_TIME
}

/// The five right-aligned, space-padded decimal digits of a 16-bit value.
pub open spec fn dec5(hl: u16) -> Seq<u8> {
    seq![
        if hl < 10000 {
            32u8
        } else {
            (48 + (hl / 10000) % 10) as u8
        },
        if hl < 1000 {
            32u8
        } else {
            (48 + (hl / 1000) % 10) as u8
        },
        if hl < 100 {
            32u8
        } else {
            (48 + (hl / 100) % 10) as u8
        },
        if hl < 10 {
            32u8
        } else {
            (48 + (hl / 10) % 10) as u8
        },
        (48 + hl % 10) as u8,
    ]
}

/// Format a 16-bit value as five right-aligned decimal characters.
fn format_hl(hl: u16) -> (v: Vec<u8>)
    ensures
        v@ == dec5(hl),
{
    let mut v: Vec<u8> = Vec::new();
    v.push(
        if hl < 10000 {
            32
        } else {
            48 + ((hl / 10000) % 10) as u8
        },
    );
    v.push(
        if hl < 1000 {
            32
        } else {
            48 + ((hl / 1000) % 10) as u8
        },
    );
    v.push(
        if hl < 100 {
            32
        } else {
            48 + ((hl / 100) % 10) as u8
        },
    );
    v.push(
        if hl < 10 {
            32
        } else {
            48 + ((hl / 10) % 10) as u8
        },
    );
    v.push(48 + (hl % 10) as u8);
    proof {
        assert(v@ =~= dec5(hl));
    }
    v
}

/// The display buffer after drawing the characters of `s` one text cell
/// apart, starting at `start_col`, `n` of them.
pub open spec fn draw_chars(
    buf: Seq<u8>,
    font: Seq<u8>,
    s: Seq<u8>,
    start_col: u8,
    row: u8,
    n: int,
) -> Seq<u8>
    decreases n,
{
    if n <= 0 {
        buf
    } else {
        put_char_buf(
            draw_chars(buf, font, s, start_col, row, n - 1),
            font,
            s[n - 1],
            (start_col + n - 1) as u8,
            row,
        )
    }
}

/// Write `hl` as five decimal characters into the first operand scratch area
/// and draw them at the cursor row, clipping at the right edge of the text
/// grid; a cursor row outside the grid draws nothing.
pub open spec fn disp_hl_post(pre: Emulator, regs: State, post: Emulator, r: usize) -> bool {
    let s = dec5(regs.hl);
    let row = pre.mem@.read(tios::curRow);
    let c0 = pre.mem@.read(tios::curCol);
    let start_col: u8 = if c0 < 15 {
        c0
    } else {
        15
    };
    let n: int = if start_col <= 11 {
        5
    } else {
        16 - start_col
    };
    &&& same_but_mem_display(pre, post)
    &&& forall|a: u16|
        tios::OP1 <= a < tios::OP1 + 5 ==> #[trigger] post.mem@.read(a) == s[a - tios::OP1]
    &&& forall|a: u16|
        !(tios::OP1 <= a < tios::OP1 + 5) ==> #[trigger] post.mem@.read(a) == pre.mem@.read(a)
    &&& post.mem@.flash == pre.mem@.flash
    &&& post.mem@.bank_a_page == pre.mem@.bank_a_page
    &&& post.display@ == (crate::display::DisplayView {
        buf: if row < 8 {
            draw_chars(pre.display@.buf, pre.large_font@, s, start_col, row, n)
        } else {
            pre.display@.buf
        },
        ..pre.display@
    })
    &&& r == PUTC_TIME * 5 + 200
}

#[allow(non_snake_case)]
pub fn DispHL(emu: &mut Emulator, regs: &State) -> (r: usize)
    requires
        old(emu).wf(),
    ensures
        final(emu).wf(),
        disp_hl_post(*old(emu), *regs, *final(emu), r),
{
    let s = format_hl(regs.hl);
    let ok = emu.mem.write_range(tios::OP1, s.as_slice());
    proof {
        assert(ok);
    }
    let row = emu.mem.read(tios::curRow);
    let c0 = emu.mem.read(tios::curCol);
    let start_col: u8 = if c0 < 15 {
        c0
    } else {
        15
    };
    let ghost mem_now = emu.mem;
    let ghost n: int = if start_col <= 11 {
        5int
    } else {
        16 - start_col
    };
    if row < 8 {
        let mut k: usize = 0;
        while k < 5 && (start_col as usize) + k < 16
            invariant
                emu.wf(),
                s@ == dec5(regs.hl),
                start_col <= 15,
                row < 8,
                k <= 5,
                start_col as int + k <= 16,
                n == if start_col <= 11 {
                    5int
                } else {
                    16 - start_col
                },
                k < n ==> start_col as int + k < 16,
                same_but_mem_display(*old(emu), *emu),
                emu.mem == mem_now,
                emu.display@ == (crate::display::DisplayView {
                    buf: draw_chars(
                        old(emu).display@.buf,
                        old(emu).large_font@,
                        s@,
                        start_col,
                        row,
                        k as int,
                    ),
                    ..old(emu).display@
                }),
            decreases 5 - k,
        {
            let ch = s[k];
            put_char(emu, ch, start_col + k as u8, row);
            k += 1;
        }
        proof {
            assert(k as int == n);
        }
    }
    PUTC_TIME * 5 + 200
}

/// A byte rotated right by `sh` bits.
pub open spec fn rot_r(b: u8, sh: u8) -> u8 {
    if sh == 0 {
        b
    } else {
        ((b >> sh) | (b << ((8 - sh) as u8))) as u8
    }
}

/// The spill of a glyph row into the byte right of the write position: the
/// row rotated right by the pixel shift, masked to keep the rotated-out bits.
pub open spec fn right_part(b: u8, sh: u8) -> u8 {
    (rot_r(b, sh) & !(((1u8 << sh) - 1) as u8)) as u8
}

/// The address of byte `off` of graph-buffer row `k`.
pub open spec fn gbuf_addr(k: int, off: int) -> int {
    tios::plotSScreen + k * 12 + off
}

/// The two graph-buffer bytes of row `row + j` after a buffered small-font
/// glyph write: each is the old byte XOR the shifted glyph row, where the
/// byte exists.
pub open spec fn small_row_ok(
    m0: MemoryView,
    m1: MemoryView,
    font: Seq<u8>,
    c: u8,
    col: u8,
    row: int,
    j: int,
) -> bool {
    let off = col as int / 8;
    let sh = col % 8;
    let g = font[6 * c + j];
    &&& off < 12 ==> m1.read(gbuf_addr(row + j, off) as u16) == (m0.read(
        gbuf_addr(row + j, off) as u16,
    ) ^ (g >> sh))
    &&& off + 1 < 12 ==> m1.read(gbuf_addr(row + j, off + 1) as u16) == (m0.read(
        gbuf_addr(row + j, off + 1) as u16,
    ) ^ right_part(g, sh))
}

/// Whether `a` is among the graph-buffer bytes a buffered small-font glyph
/// write at (`col`, rows `row..row+lim`) touches.
pub open spec fn small_written(a: int, col: u8, row: int, lim: int) -> bool {
    let off = col as int / 8;
    exists|k: int|
        row <= k < row + lim && k < 64 && ((off < 12 && a == #[trigger] gbuf_addr(k, off)) || (off
            + 1 < 12 && a == gbuf_addr(k, off + 1)))
}

/// A byte touched within the first `l1` glyph rows is touched within any
/// larger row count too.
proof fn lemma_small_written_mono(a: int, col: u8, row: int, l1: int, l2: int)
    requires
        l1 <= l2,
        small_written(a, col, row, l1),
    ensures
        small_written(a, col, row, l2),
{
    let off = col as int / 8;
    let kk = choose|kk: int|
        row <= kk < row + l1 && kk < 64 && ((off < 12 && a == #[trigger] gbuf_addr(kk, off)) || (
        off + 1 < 12 && a == gbuf_addr(kk, off + 1)));
    assert(row <= kk < row + l2 && kk < 64);
}

/// The display buffer after drawing small-font glyph `c` at pixel position
/// (`col`, `row`) with width `w`, clipping at the screen edges.
pub open spec fn small_blit_buf(
    buf: Seq<u8>,
    font: Seq<u8>,
    c: u8,
    col: u8,
    row: u8,
    w: u8,
) -> Seq<u8> {
    if col > 96 || row > 64 {
        buf
    } else {
        let cw = vstd::math::min(col + w, 96) - col;
        Seq::new(
            6144,
            |m: int|
                {
                    let py = m / 96;
                    let px = m % 96;
                    if col <= px < col + cw && row <= py < row + 6 {
                        bit_of(font[6 * c + (py - row)], 7 - (px - col))
                    } else {
                        buf[m]
                    }
                },
        )
    }
}

/// Draw a small-font character at a pixel position, returning its width.
///
/// With the buffered-text flag set the glyph is XORed into the graph buffer
/// in memory; otherwise it overwrites pixels on the screen directly.
fn put_char_small(emu: &mut Emulator, regs: &State, c: u8, col: u8, row: u8) -> (width: u8)
    requires
        old(emu).wf(),
    ensures
        final(emu).wf(),
        width == old(emu).small_font_widths@[c as int],
        1 <= width <= 8,
        test_flag_spec(old(emu).mem@, regs.iy, tios::sGrFlags, tios::textWrite) ==> {
            &&& same_but_mem(*old(emu), *final(emu))
            &&& forall|j: int|
                0 <= j < 6 && row + j < 64 ==> #[trigger] small_row_ok(
                    old(emu).mem@,
                    final(emu).mem@,
                    old(emu).small_font@,
                    c,
                    col,
                    row as int,
                    j,
                )
            &&& forall|a: u16|
                !small_written(a as int, col, row as int, 6) ==> #[trigger] final(emu).mem@.read(a)
                    == old(emu).mem@.read(a)
            &&& final(emu).mem@.flash == old(emu).mem@.flash
            &&& final(emu).mem@.bank_a_page == old(emu).mem@.bank_a_page
        },
        !test_flag_spec(old(emu).mem@, regs.iy, tios::sGrFlags, tios::textWrite) ==> {
            &&& same_but_display(*old(emu), *final(emu))
            &&& final(emu).display@ == (crate::display::DisplayView {
                buf: small_blit_buf(
                    old(emu).display@.buf,
                    old(emu).small_font@,
                    c,
                    col,
                    row,
                    old(emu).small_font_widths@[c as int],
                ),
                ..old(emu).display@
            })
        },
{
    let width = emu.small_font_widths[c as usize];
    if test_flag(emu, regs, tios::sGrFlags, tios::textWrite) {
        let off: usize = col as usize / 8;
        let sh: u8 = col % 8;
        let mut j: usize = 0;
        while j < 6 && (row as usize) + j < 64
            invariant
                old(emu).wf(),
                emu.wf(),
                off == col as int / 8,
                sh == col % 8,
                j <= 6,
                same_but_mem(*old(emu), *emu),
                forall|j2: int|
                    0 <= j2 < j && row + j2 < 64 ==> #[trigger] small_row_ok(
                        old(emu).mem@,
                        emu.mem@,
                        old(emu).small_font@,
                        c,
                        col,
                        row as int,
                        j2,
                    ),
                forall|a: u16|
                    !small_written(a as int, col, row as int, j as int) ==> #[trigger] emu.mem@.read(
                        a,
                    ) == old(emu).mem@.read(a),
                emu.mem@.flash == old(emu).mem@.flash,
                emu.mem@.bank_a_page == old(emu).mem@.bank_a_page,
            decreases 6 - j,
        {
            let g = emu.small_font[c as usize * 6 + j];
            proof {
                assert(1u8 << sh >= 1 && (1u8 << sh) - 1 < 256) by (bit_vector)
                    requires
                        sh < 8,
                ;
            }
            let left = g >> sh;
            let right = if sh == 0 {
                g
            } else {
                (g >> sh) | (g << (8 - sh))
            } & !((1u8 << sh) - 1);
            let k: usize = row as usize + j;
            let ghost iter_start = emu.mem@;
            let ghost a1i = gbuf_addr(k as int, off as int);
            let ghost a2i = gbuf_addr(k as int, off as int + 1);
            proof {
                assert(!small_written(a1i, col, row as int, j as int)) by {
                    if small_written(a1i, col, row as int, j as int) {
                        let kk = choose|kk: int|
                            row <= kk < row + j && kk < 64 && ((off < 12 && a1i
                                == #[trigger] gbuf_addr(kk, off as int)) || (off + 1 < 12 && a1i
                                == gbuf_addr(kk, off as int + 1)));
                        assert(false);
                    }
                }
                assert(!small_written(a2i, col, row as int, j as int)) by {
                    if small_written(a2i, col, row as int, j as int) {
                        let kk = choose|kk: int|
                            row <= kk < row + j && kk < 64 && ((off < 12 && a2i
                                == #[trigger] gbuf_addr(kk, off as int)) || (off + 1 < 12 && a2i
                                == gbuf_addr(kk, off as int + 1)));
                        assert(false);
                    }
                }
            }
            if off < 12 {
                let a1: u16 = tios::plotSScreen + (k * 12 + off) as u16;
                let ghost mid = emu.mem@;
                let v = emu.mem.read(a1);
                emu.mem.write(a1, v ^ left);
                proof {
                    crate::memory::lemma_write_read(mid, a1, (v ^ left) as u8);
                    assert(emu.mem@ == mid.write(a1, (v ^ left) as u8));
                }
            }
            if off + 1 < 12 {
                let a2: u16 = tios::plotSScreen + (k * 12 + off + 1) as u16;
                let ghost mid = emu.mem@;
                let v = emu.mem.read(a2);
                emu.mem.write(a2, v ^ right);
                proof {
                    crate::memory::lemma_write_read(mid, a2, (v ^ right) as u8);
                    assert(emu.mem@ == mid.write(a2, (v ^ right) as u8));
                }
            }
            proof {
                assert(small_row_ok(
                    old(emu).mem@,
                    emu.mem@,
                    old(emu).small_font@,
                    c,
                    col,
                    row as int,
                    j as int,
                ));
                assert forall|j2: int|
                    0 <= j2 < j + 1 && row + j2 < 64 implies #[trigger] small_row_ok(
                    old(emu).mem@,
                    emu.mem@,
                    old(emu).small_font@,
                    c,
                    col,
                    row as int,
                    j2,
                ) by {
                    if j2 < j {
                        assert(small_row_ok(
                            old(emu).mem@,
                            iter_start,
                            old(emu).small_font@,
                            c,
                            col,
                            row as int,
                            j2,
                        ));
                        assert(gbuf_addr(row + j2, off as int) != a1i);
                        assert(gbuf_addr(row + j2, off as int) != a2i);
                        assert(gbuf_addr(row + j2, off as int + 1) != a1i);
                        assert(gbuf_addr(row + j2, off as int + 1) != a2i);
                    }
                }
                assert forall|a: u16|
                    !small_written(a as int, col, row as int, j as int + 1) implies #[trigger] emu.mem@.read(
                    a,
                ) == old(emu).mem@.read(a) by {
                    if small_written(a as int, col, row as int, j as int) {
                        lemma_small_written_mono(
                            a as int,
                            col,
                            row as int,
                            j as int,
                            j as int + 1,
                        );
                    }
                    if off < 12 {
                        assert(small_written(a1i, col, row as int, j as int + 1));
                    }
                    if off + 1 < 12 {
                        assert(small_written(a2i, col, row as int, j as int + 1));
                    }
                }
            }
            j += 1;
        }
        proof {
            assert forall|a: u16|
                !small_written(a as int, col, row as int, 6) implies #[trigger] emu.mem@.read(a)
                == old(emu).mem@.read(a) by {
                if small_written(a as int, col, row as int, j as int) {
                    lemma_small_written_mono(a as int, col, row as int, j as int, 6);
                }
            }
        }
    } else {
        let glyph = vstd::slice::slice_subrange(
            emu.small_font.as_slice(),
            c as usize * 6,
            c as usize * 6 + 6,
        );
        emu.display.blit_8bit_over(col, row, glyph, width);
        proof {
            let buf0 = old(emu).display@.buf;
            let buf1 = emu.display@.buf;
            let font = old(emu).small_font@;
            if col <= 96 && row <= 64 {
                let cw = vstd::math::min(col as int + width, 96) - col;
                assert forall|m: int| 0 <= m < 6144 implies buf1[m] == small_blit_buf(
                    buf0,
                    font,
                    c,
                    col,
                    row,
                    width,
                )[m] by {
                    vstd::arithmetic::div_mod::lemma_fundamental_div_mod(m, 96);
                    let py = m / 96;
                    let px = m % 96;
                    assert(0 <= py < 64 && 0 <= px < 96);
                    if col <= px < col + cw && row <= py < row + 6 {
                        assert(crate::display::pixel_off(
                            buf1,
                            col as int,
                            row as int,
                            px - col,
                            py - row,
                        ) == bit_of(glyph@[py - row], 7 - (px - col)));
                    } else {
                        assert(crate::display::pixel_at(buf1, px, py) == crate::display::pixel_at(
                            buf0,
                            px,
                            py,
                        ));
                    }
                }
                assert(buf1 =~= small_blit_buf(buf0, font, c, col, row, width));
            }
        }
    }
    width
}

/// Approximate cycle count to write a small-font character.
pub const VPUTC_TIME: usize = 400;

/// Display the accumulator's character in the small font at the pen
/// position, advance the pen by the glyph width, and set the carry flag
/// exactly when the pen has run off the right edge.
pub open spec fn v_put_map_post(
    pre: Emulator,
    pre_regs: State,
    post: Emulator,
    post_regs: State,
    r: usize,
) -> bool {
    let m0 = pre.mem@;
    let ch = (pre_regs.af >> 8u16) as u8;
    let x0 = m0.read(tios::penCol);
    let y0 = m0.read(tios::penRow);
    let w = pre.small_font_widths@[ch as int];
    let x1 = ((x0 + w) % 256) as u8;
    let flags0 = (pre_regs.af & 0xFF) as u8;
    let flags1: u8 = if x1 >= 96 {
        (flags0 | crate::z80::FLAG_C) as u8
    } else {
        (flags0 & 0xFE) as u8
    };
    &&& post_regs == (State { af: (pre_regs.af & 0xFF00 | flags1 as u16) as u16, ..pre_regs })
    &&& same_but_mem_display(pre, post)
    &&& post.mem@.read(tios::penCol) == x1
    &&& test_flag_spec(m0, pre_regs.iy, tios::sGrFlags, tios::textWrite) ==> {
        &&& post.display == pre.display
        &&& forall|j: int|
            0 <= j < 6 && y0 + j < 64 ==> #[trigger] small_row_ok(
                m0,
                post.mem@,
                pre.small_font@,
                ch,
                x0,
                y0 as int,
                j,
            )
        &&& forall|a: u16|
            !small_written(a as int, x0, y0 as int, 6) && a != tios::penCol
                ==> #[trigger] post.mem@.read(a) == m0.read(a)
    }
    &&& !test_flag_spec(m0, pre_regs.iy, tios::sGrFlags, tios::textWrite) ==> {
        &&& post.display@ == (crate::display::DisplayView {
            buf: small_blit_buf(pre.display@.buf, pre.small_font@, ch, x0, y0, w),
            ..pre.display@
        })
        &&& forall|a: u16| a != tios::penCol ==> #[trigger] post.mem@.read(a) == m0.read(a)
    }
    &&& r == VPUTC_TIME
}

#[allow(non_snake_case)]
pub fn VPutMap(emu: &mut Emulator, regs: &mut State) -> (r: usize)
    requires
        old(emu).wf(),
    ensures
        final(emu).wf(),
        v_put_map_post(*old(emu), *old(regs), *final(emu), *final(regs), r),
{
    let x = emu.mem.read(tios::penCol);
    let y = emu.mem.read(tios::penRow);
    let a = regs.get_a();
    let width = put_char_small(emu, regs, a, x, y);
    let x1 = x.wrapping_add(width);
    let ghost mid = emu.mem@;
    emu.mem.write(tios::penCol, x1);
    proof {
        crate::memory::lemma_write_read(mid, tios::penCol, x1);
        assert(emu.mem@ == mid.write(tios::penCol, x1));
        let m0 = old(emu).mem@;
        if test_flag_spec(m0, regs.iy, tios::sGrFlags, tios::textWrite) {
            let offi = x as int / 8;
            assert forall|jj: int| 0 <= jj < 6 && y + jj < 64 implies #[trigger] small_row_ok(
                m0,
                emu.mem@,
                old(emu).small_font@,
                a,
                x,
                y as int,
                jj,
            ) by {
                assert(small_row_ok(m0, mid, old(emu).small_font@, a, x, y as int, jj));
                assert(gbuf_addr(y + jj, offi) >= 0x9340);
                assert(gbuf_addr(y + jj, offi + 1) >= 0x9340);
            }
            assert forall|aa: u16|
                !small_written(aa as int, x, y as int, 6) && aa != tios::penCol
                    implies #[trigger] emu.mem@.read(aa) == m0.read(aa) by {
                assert(mid.read(aa) == m0.read(aa));
            }
        }
    }
    if x1 >= 96 {
        let f = regs.flags();
        regs.set_flags(f | crate::z80::FLAG_C);
    } else {
        let f = regs.flags();
        regs.set_flags(f & !crate::z80::FLAG_C);
    }
    proof {
        let ghost f0 = (old(regs).af & 0xFF) as u8;
        assert((f0 & !1u8) == (f0 & 0xFE)) by (bit_vector);
    }
    VPUTC_TIME
}

/// Every part of the machine except memory and the keyboard is unchanged.
pub open spec fn same_but_mem_keyboard(pre: Emulator, post: Emulator) -> bool {
    &&& post.display == pre.display
    &&& post.interrupt_controller == pre.interrupt_controller
    &&& post.running == pre.running
    &&& post.clock_rate == pre.clock_rate
    &&& post.unimplemented_bcall == pre.unimplemented_bcall
    &&& post.large_font == pre.large_font
    &&& post.small_font == pre.small_font
    &&& post.small_font_widths == pre.small_font_widths
}

/// The periodic system interrupt: with the run-indicator-only flag set it
/// does nothing else; otherwise it scans the keyboard once and, if a key is
/// reported, raises the scan-complete flag and stores the scan code.
pub open spec fn os_interrupt_post(pre: Emulator, regs: State, post: Emulator, r: usize) -> bool {
    let m0 = pre.mem@;
    if test_flag_spec(m0, regs.iy, tios::indicFlags, tios::indicOnly) {
        &&& post == pre
        &&& r == 200
    } else {
        &&& same_but_mem_keyboard(pre, post)
        &&& post.keyboard@ == crate::keyboard::scan_step_spec(pre.keyboard@)
        &&& match crate::keyboard::scan_result_spec(pre.keyboard@) {
            Some(k) => post.mem@ == m0.write(
                flag_addr(regs.iy, tios::kbdFlags),
                (m0.read(flag_addr(regs.iy, tios::kbdFlags)) | (1u8 << tios::kbdSCR)) as u8,
            ).write(tios::kbdScanCode, crate::keyboard::scan_code_spec(k) as u8),
            None => post.mem@ == m0,
        }
        &&& r == 400
    }
}

/// Service the periodic system interrupt.
pub fn os_interrupt(emu: &mut Emulator, regs: &State) -> (r: usize)
    requires
        old(emu).wf(),
    ensures
        final(emu).wf(),
        os_interrupt_post(*old(emu), *regs, *final(emu), r),
{
    if test_flag(emu, regs, tios::indicFlags, tios::indicOnly) {
        // Only the run indicator is being animated; nothing to do.
        return 200;
    }
    let scanned = emu.keyboard.scan();
    match scanned {
        Some(k) => {
            set_flag(emu, regs, tios::kbdFlags, tios::kbdSCR);
            let code = crate::keyboard::scan_code(k);
            emu.mem.write(tios::kbdScanCode, code);
        },
        None => {},
    }
    400
}

/// A 16-bit value reduced into the address space.
pub open spec fn wrap16(x: int) -> u16 {
    (x % 0x10000) as u16
}

/// Every part of the machine except memory and the unimplemented-call record
/// is unchanged.
pub open spec fn same_but_mem_unimpl(pre: Emulator, post: Emulator) -> bool {
    &&& post.display == pre.display
    &&& post.keyboard == pre.keyboard
    &&& post.interrupt_controller == pre.interrupt_controller
    &&& post.running == pre.running
    &&& post.clock_rate == pre.clock_rate
    &&& post.large_font == pre.large_font
    &&& post.small_font == pre.small_font
    &&& post.small_font_widths == pre.small_font_widths
}

/// A paged system call. The 16-bit vector follows the call instruction
/// inline: the return address is advanced past it, the vector names a page
/// and address in the vector table, the current bank-A page is pushed so the
/// paired return trap can restore it, and execution jumps to the target with
/// its page mapped in. A vector outside the table's window or with an empty
/// entry is recorded as unimplemented and returns to the caller at once.
pub open spec fn bcall_post(
    pre: Emulator,
    pre_regs: State,
    post: Emulator,
    post_regs: State,
    r: usize,
) -> bool {
    let m0 = pre.mem@;
    let sp0 = pre_regs.sp;
    let ret = m0.read_u16(sp0);
    let m1 = m0.write_u16(sp0, wrap16(ret + 2));
    let bc = m1.read_u16(ret);
    if !(0x4000 <= bc < 0x7FFE) {
        &&& same_but_mem_unimpl(pre, post)
        &&& post.unimplemented_bcall == Some(bc)
        &&& post.mem@ == m1
        &&& post_regs == (State { pc: m1.read_u16(sp0), sp: wrap16(sp0 + 2), ..pre_regs })
        &&& r == 60
    } else {
        let tpage = m1.flash[VECTOR_TABLE_PAGE as int][bc - 0x4000];
        let taddr = m1.flash[VECTOR_TABLE_PAGE as int][bc - 0x4000 + 1] + 256
            * m1.flash[VECTOR_TABLE_PAGE as int][bc - 0x4000 + 2];
        if tpage == 0 && taddr == 0 {
            &&& same_but_mem_unimpl(pre, post)
            &&& post.unimplemented_bcall == Some(bc)
            &&& post.mem@ == m1
            &&& post_regs == (State { pc: m1.read_u16(sp0), sp: wrap16(sp0 + 2), ..pre_regs })
            &&& r == 60
        } else {
            let sp1 = wrap16(sp0 - 2);
            let m2 = m1.write(wrap16(sp1 + 1), m0.bank_a_page as u8);
            let sp2 = wrap16(sp1 - 2);
            let m3 = m2.write_u16(sp2, pre_regs.pc);
            &&& same_but_mem(pre, post)
            &&& post.mem@ == (MemoryView { bank_a_page: (tpage % 32) as nat, ..m3 })
            &&& post_regs == (State { pc: taddr as u16, sp: sp2, ..pre_regs })
            &&& r == 700
        }
    }
}

/// Enter a paged system call.
#[verifier::rlimit(100)]
pub fn bcall_trap(emu: &mut Emulator, regs: &mut State) -> (r: usize)
    requires
        old(emu).wf(),
    ensures
        final(emu).wf(),
        bcall_post(*old(emu), *old(regs), *final(emu), *final(regs), r),
{
    // The vector is inline in the caller's code: read it through the return
    // address, and update the return address to skip past it.
    let ret_addr = emu.mem.read_u16(regs.sp);
    emu.mem.write_u16(regs.sp, ret_addr.wrapping_add(2));
    let bcall_addr = emu.mem.read_u16(ret_addr);
    let supported = 0x4000 <= bcall_addr && bcall_addr < 0x7FFE;
    if supported {
        let target_page = emu.mem.read_paged(VECTOR_TABLE_PAGE, bcall_addr);
        let target_addr = emu.mem.read_u16_paged(VECTOR_TABLE_PAGE, bcall_addr + 1);
        if !(target_page == 0 && target_addr == 0) {
            // Push the current bank-A page, then the return-to-caller
            // address, and jump to the vector's target with its page mapped.
            let orig_page = emu.mem.get_bank_a_page();
            regs.sp = regs.sp.wrapping_sub(2);
            emu.mem.write(regs.sp.wrapping_add(1), orig_page);
            regs.sp = regs.sp.wrapping_sub(2);
            emu.mem.write_u16(regs.sp, regs.pc);
            emu.mem.set_bank_a_page(target_page);
            regs.pc = target_addr;
            return 700;
        }
    }
    // No native handler stands behind this vector: record it and return to
    // the caller at once, degraded but making progress.
    emu.unimplemented_bcall = Some(bcall_addr);
    regs.pc = emu.mem.read_u16(regs.sp);
    regs.sp = regs.sp.wrapping_add(2);
    60
}

/// Return from a paged system call: pop the saved bank-A page, restore the
/// mapping, and return to the original caller.
pub open spec fn bcall_ret_post(
    pre: Emulator,
    pre_regs: State,
    post: Emulator,
    post_regs: State,
    r: usize,
) -> bool {
    let m0 = pre.mem@;
    let sp0 = pre_regs.sp;
    let page = m0.read(wrap16(sp0 + 1));
    let m1 = (MemoryView { bank_a_page: (page % 32) as nat, ..m0 });
    &&& same_but_mem(pre, post)
    &&& post.mem@ == m1
    &&& post_regs == (State {
        sp: wrap16(sp0 + 4),
        pc: m1.read_u16(wrap16(sp0 + 2)),
        ..pre_regs
    })
    &&& r == 120
}

/// Leave a paged system call.
pub fn bcall_trap_return(emu: &mut Emulator, regs: &mut State) -> (r: usize)
    requires
        old(emu).wf(),
    ensures
        final(emu).wf(),
        bcall_ret_post(*old(emu), *old(regs), *final(emu), *final(regs), r),
{
    // Restore the bank-A mapping from the pushed page.
    let page = emu.mem.read(regs.sp.wrapping_add(1));
    regs.sp = regs.sp.wrapping_add(2);
    emu.mem.set_bank_a_page(page);
    // Return to the caller.
    regs.pc = emu.mem.read_u16(regs.sp);
    regs.sp = regs.sp.wrapping_add(2);
    120
}

impl Trap {
    /// Service one trap against the machine and register state, returning
    /// the approximate cycle cost of the routine it stands in for.
    pub fn handle(&self, emu: &mut Emulator, regs: &mut State) -> (r: usize)
        requires
            old(emu).wf(),
        ensures
            final(emu).wf(),
            self is Reset ==> *final(emu) == (Emulator { running: false, ..*old(emu) })
                && *final(regs) == *old(regs) && r == FORCE_YIELD,
            self is RomCall ==> bcall_post(*old(emu), *old(regs), *final(emu), *final(regs), r),
            self is RomCallReturn ==> bcall_ret_post(
                *old(emu),
                *old(regs),
                *final(emu),
                *final(regs),
                r,
            ),
            self is OsInterrupt ==> os_interrupt_post(*old(emu), *old(regs), *final(emu), r)
                && *final(regs) == *old(regs),
            self is DivHLBy10 ==> div_hl_post(*old(regs), *final(regs), r) && *final(emu) == *old(
                emu,
            ),
            self is PutMap ==> put_map_post(*old(emu), *old(regs), *final(emu), r) && *final(regs)
                == *old(regs),
            self is PutC ==> put_c_post(*old(emu), *old(regs), *final(emu), r) && *final(regs)
                == *old(regs),
            self is DispHL ==> disp_hl_post(*old(emu), *old(regs), *final(emu), r) && *final(regs)
                == *old(regs),
            self is ClrLCDFull ==> clr_lcd_post(*old(emu), *final(emu), r) && *final(regs) == *old(
                regs,
            ),
            self is HomeUp ==> home_up_post(*old(emu), *final(emu), r) && *final(regs) == *old(
                regs,
            ),
            self is VPutMap ==> v_put_map_post(*old(emu), *old(regs), *final(emu), *final(regs), r),
            self is GrBufCpy ==> gr_buf_cpy_post(*old(emu), *final(emu), r) && *final(regs)
                == *old(regs),
            self is MemSet ==> memset_post(*old(emu), *old(regs), *final(emu), r) && *final(regs)
                == *old(regs),
            self is PrintCpuState ==> *final(emu) == *old(emu) && *final(regs) == *old(regs) && r
                == 0,
    {
        match self {
            Trap::Reset => {
                emu.running = false;
                FORCE_YIELD
            },
            Trap::RomCall => bcall_trap(emu, regs),
            Trap::RomCallReturn => bcall_trap_return(emu, regs),
            Trap::OsInterrupt => os_interrupt(emu, regs),
            Trap::DivHLBy10 => DivHLBy10(regs),
            Trap::PutMap => PutMap(emu, regs),
            Trap::PutC => PutC(emu, regs),
            Trap::DispHL => DispHL(emu, regs),
            Trap::ClrLCDFull => ClrLCDFull(emu),
            Trap::HomeUp => HomeUp(emu),
            Trap::VPutMap => VPutMap(emu, regs),
            Trap::GrBufCpy => GrBufCpy(emu),
            Trap::MemSet => MemSet(emu, regs),
            Trap::PrintCpuState => 0,
        }
    }
}

} // verus!

