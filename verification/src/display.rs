//! The LCD controller: a pixel buffer addressed through a small state machine
//! (word size, auto-address direction, X/Y address registers), plus the
//! bit-scatter/gather helpers the data path is built on.

use vstd::prelude::*;

verus! {

use vstd::math::min;

/// Scatter a 1-bit-per-pixel byte into an 8-byte value holding one pixel per
/// byte: byte `i` (little-endian) of the result is bit `i` of `x`.
pub open spec fn expand_spec(x: u8) -> u64 {
    (((x as u64) << 49) | ((x as u64) << 42) | ((x as u64) << 35) | ((x as u64) << 28)
        | ((x as u64) << 21) | ((x as u64) << 14) | ((x as u64) << 7) | (x as u64))
        & 0x0101010101010101
}

/// Gather the low bit of each byte of `x` back into a packed byte.
pub open spec fn pack_spec(x: u64) -> u8 {
    ((x as u8) | ((x >> 7) as u8) | ((x >> 14) as u8) | ((x >> 21) as u8) | ((x >> 28) as u8)
        | ((x >> 35) as u8) | ((x >> 42) as u8) | ((x >> 49) as u8)) as u8
}

/// Byte `i` (little-endian) of a 64-bit value.
pub open spec fn byte_of(x: u64, i: int) -> u8 {
    (x >> (8 * i)) as u8
}

/// Bit `i` of a byte, as 0 or 1.
pub open spec fn bit_of(x: u8, i: int) -> u8 {
    ((x >> (i as u8)) & 1) as u8
}

/// Expanding a byte puts bit `i` into byte `i` of the result.
pub proof fn lemma_expand_bytes(x: u8)
    ensures
        forall|i: int| 0 <= i < 8 ==> #[trigger] byte_of(expand_spec(x), i) == bit_of(x, i),
{
    let e = expand_spec(x);
    assert forall|i: int| 0 <= i < 8 implies #[trigger] byte_of(expand_spec(x), i) == bit_of(
        x,
        i,
    ) by {
        let iu = i as u64;
        assert(0 <= iu < 8 ==> ((e >> (8 * iu)) as u8) == ((x >> (iu as u8)) & 1) as u8)
            by (bit_vector)
            requires
                e == (((x as u64) << 49) | ((x as u64) << 42) | ((x as u64) << 35) | ((x as u64)
                    << 28) | ((x as u64) << 21) | ((x as u64) << 14) | ((x as u64) << 7) | (
                x as u64)) & 0x0101010101010101,
        ;
    }
}

/// Packing inverts expanding: the round trip over the scatter/gather pair is
/// the identity on every byte.
pub proof fn lemma_pack_expand(x: u8)
    ensures
        pack_spec(expand_spec(x)) == x,
{
    let e = expand_spec(x);
    assert((((e as u8) | ((e >> 7) as u8) | ((e >> 14) as u8) | ((e >> 21) as u8) | ((e
        >> 28) as u8) | ((e >> 35) as u8) | ((e >> 42) as u8) | ((e >> 49) as u8)) as u8) == x)
        by (bit_vector)
        requires
            e == (((x as u64) << 49) | ((x as u64) << 42) | ((x as u64) << 35) | ((x as u64) << 28)
                | ((x as u64) << 21) | ((x as u64) << 14) | ((x as u64) << 7) | (x as u64))
                & 0x0101010101010101,
    ;
}

/// Scatter a 1-bit-per-pixel byte into one byte per pixel, low bit only.
pub fn expand_byte(x: u8) -> (r: u64)
    ensures
        r == expand_spec(x),
{
    let x = x as u64;
    ((x << 49) | (x << 42) | (x << 35) | (x << 28) | (x << 21) | (x << 14) | (x << 7) | x)
        & 0x0101010101010101
}

/// Gather the low bit of each byte back into a packed byte.
pub fn pack_byte(x: u64) -> (r: u8)
    ensures
        r == pack_spec(x),
{
    (x as u8) | (x >> 7) as u8 | (x >> 14) as u8 | (x >> 21) as u8 | (x >> 28) as u8 | (x
        >> 35) as u8 | (x >> 42) as u8 | (x >> 49) as u8
}

/// Which address register moves after a data access, and in which direction.
#[derive(Clone, Copy, Debug, PartialEq, Eq, Structural)]
pub enum AutoAddressMode {
    DecrementX,
    IncrementX,
    DecrementY,
    IncrementY,
}

/// 6- or 8-bit word mode.
#[derive(Clone, Copy, Debug, PartialEq, Eq, Structural)]
pub enum WordMode {
    Bit6,
    Bit8,
}

pub enum ScrollDirection {
    /// Scroll the screen up, inserting blank lines at the bottom.
    Up,
    /// Scroll the screen down, inserting blank lines at the top.
    Down,
}

/// The maximum Y address (inclusive) for a word size.
pub open spec fn max_y_spec(w: WordMode) -> nat {
    match w {
        WordMode::Bit6 => 19,
        WordMode::Bit8 => 14,
    }
}

/// The number of columns covered by one data word.
pub open spec fn word_size_spec(w: WordMode) -> nat {
    match w {
        WordMode::Bit6 => 6,
        WordMode::Bit8 => 8,
    }
}

/// Abstract controller state: the pixel buffer plus the addressing machine.
#[verifier::ext_equal]
pub struct DisplayView {
    pub buf: Seq<u8>,
    pub auto_mode: AutoAddressMode,
    pub word_mode: WordMode,
    pub pending: bool,
    pub x: nat,
    pub y: nat,
}

impl DisplayView {
    pub open spec fn wf(self) -> bool {
        &&& self.buf.len() == 6144
        &&& self.x < 64
        &&& self.y < 32
    }
}

/// Pixel at column `x` of row `y` in a row-major buffer.
pub open spec fn pixel_at(buf: Seq<u8>, x: int, y: int) -> u8 {
    buf[y * 96 + x]
}

/// Pixel at offset (`c`, `r`) from a base position (`x`, `y`).
pub open spec fn pixel_off(buf: Seq<u8>, x: int, y: int, c: int, r: int) -> u8 {
    buf[(y + r) * 96 + (x + c)]
}

/// The buffer after scrolling up by `count` rows, zero-filling the bottom.
pub open spec fn scroll_up_buf(buf: Seq<u8>, count: int) -> Seq<u8> {
    Seq::new(
        6144,
        |m: int|
            if count < 64 && m < (64 - count) * 96 {
                buf[m + count * 96]
            } else {
                0u8
            },
    )
}

/// The buffer after scrolling down by `count` rows, zero-filling the top.
pub open spec fn scroll_down_buf(buf: Seq<u8>, count: int) -> Seq<u8> {
    Seq::new(
        6144,
        |m: int|
            if count < 64 && m >= count * 96 {
                buf[m - count * 96]
            } else {
                0u8
            },
    )
}

/// Address registers after one auto-advance step.
pub open spec fn auto_advance(v: DisplayView) -> DisplayView {
    let max_y = max_y_spec(v.word_mode);
    match v.auto_mode {
        AutoAddressMode::IncrementY => DisplayView { y: (v.y + 1) % (max_y + 1), ..v },
        AutoAddressMode::DecrementY => DisplayView {
            y: if v.y == 0 {
                max_y
            } else {
                min((v.y - 1) as int, max_y as int) as nat
            },
            ..v
        },
        AutoAddressMode::IncrementX => DisplayView { x: (v.x + 1) % 64, ..v },
        AutoAddressMode::DecrementX => DisplayView {
            x: if v.x == 0 {
                63
            } else {
                (v.x - 1) as nat
            },
            ..v
        },
    }
}

/// Effect of a control-port write. Unrecognized commands leave the state
/// unchanged; any address-setting command raises the dummy-read flag.
pub open spec fn ctrl_step(v: DisplayView, cmd: u8) -> DisplayView {
    if cmd == 0x00 {
        DisplayView {
            word_mode: WordMode::Bit6,
            y: min(v.y as int, max_y_spec(WordMode::Bit6) as int) as nat,
            ..v
        }
    } else if cmd == 0x01 {
        DisplayView { word_mode: WordMode::Bit8, ..v }
    } else if cmd == 0x04 {
        DisplayView { auto_mode: AutoAddressMode::DecrementX, ..v }
    } else if cmd == 0x05 {
        DisplayView { auto_mode: AutoAddressMode::IncrementX, ..v }
    } else if cmd == 0x06 {
        DisplayView { auto_mode: AutoAddressMode::DecrementY, ..v }
    } else if cmd == 0x07 {
        DisplayView { auto_mode: AutoAddressMode::IncrementY, ..v }
    } else if cmd & 0xE0 == 0x20 {
        DisplayView {
            y: min((cmd & 0x1F) as int, max_y_spec(v.word_mode) as int) as nat,
            pending: true,
            ..v
        }
    } else if cmd & 0xC0 == 0x80 {
        DisplayView { x: (cmd & 0x3F) as nat, pending: true, ..v }
    } else {
        v
    }
}

/// The buffer after a data write scatters `data`'s bits over the current word,
/// one pixel per bit, most significant first. Out-of-range words are ignored.
pub open spec fn data_write_buf(v: DisplayView, data: u8) -> Seq<u8> {
    let w = word_size_spec(v.word_mode) as int;
    let start = v.x * 96 + v.y * w;
    if v.y * w >= 96 {
        v.buf
    } else {
        Seq::new(
            v.buf.len(),
            |i: int|
                if start <= i < start + w {
                    bit_of(data, w - 1 - (i - start))
                } else {
                    v.buf[i]
                },
        )
    }
}

/// Full effect of a data write: scatter, then auto-advance.
pub open spec fn data_write_step(v: DisplayView, data: u8) -> DisplayView {
    auto_advance(DisplayView { buf: data_write_buf(v, data), ..v })
}

/// The bits of the current word gathered back into a byte, most significant
/// first; prefix of length `m`.
pub open spec fn gather(buf: Seq<u8>, start: int, w: int, m: int) -> u8
    decreases m,
{
    if m <= 0 {
        0
    } else {
        (gather(buf, start, w, m - 1) | (((buf[start + m - 1] & 1) as u8) << ((w - m) as u8))) as u8
    }
}

/// Value returned by a data read: the gathered current word, or 0 if the Y
/// address is out of range for the word size.
pub open spec fn data_read_value(v: DisplayView) -> u8 {
    let w = word_size_spec(v.word_mode) as int;
    let start = v.x * 96 + v.y * w;
    if v.y * w >= 96 {
        0
    } else {
        gather(v.buf, start, w, w)
    }
}

/// State after a data read: a pending dummy read only clears the flag and
/// holds the address still; otherwise the address auto-advances.
pub open spec fn data_read_step(v: DisplayView) -> DisplayView {
    if v.pending {
        DisplayView { pending: false, ..v }
    } else {
        auto_advance(v)
    }
}

/// An address-setting command makes the very next data read a dummy: the
/// address does not move on that read, and only the read after it advances.
pub proof fn lemma_dummy_read_after_address_write(v: DisplayView, cmd: u8)
    requires
        v.wf(),
        cmd & 0xC0 == 0x80 || cmd & 0xE0 == 0x20,
    ensures
        ({
            let v1 = ctrl_step(v, cmd);
            let v2 = data_read_step(v1);
            let v3 = data_read_step(v2);
            &&& v1.pending
            &&& v2.x == v1.x && v2.y == v1.y && !v2.pending
            &&& v3 == auto_advance(v2)
        }),
{
    let v1 = ctrl_step(v, cmd);
    assert(cmd & 0xE0 == 0x20 ==> !(cmd == 0x00 || cmd == 0x01 || cmd == 0x04 || cmd == 0x05 || cmd
        == 0x06 || cmd == 0x07)) by (bit_vector);
    assert(cmd & 0xC0 == 0x80 ==> !(cmd == 0x00 || cmd == 0x01 || cmd == 0x04 || cmd == 0x05 || cmd
        == 0x06 || cmd == 0x07)) by (bit_vector);
    assert(v1.pending);
}

/// The LCD controller.
pub struct Display {
    /// Display buffer of one byte per pixel, low bit only.
    buf: Vec<u8>,
    /// X or Y auto-increment or -decrement.
    auto_address_mode: AutoAddressMode,
    /// 6- or 8-bit word mode.
    word_mode: WordMode,
    /// Set when an address is written, and reset by any data read: the read
    /// after an address write is a dummy whose address does not move.
    address_update_pending: bool,
    /// X address; the active row.
    addr_x: u8,
    /// Y address; the active word in the current row.
    addr_y: u8,
}

impl View for Display {
    type V = DisplayView;

    closed spec fn view(&self) -> DisplayView {
        DisplayView {
            buf: self.buf@,
            auto_mode: self.auto_address_mode,
            word_mode: self.word_mode,
            pending: self.address_update_pending,
            x: self.addr_x as nat,
            y: self.addr_y as nat,
        }
    }
}

impl Display {
    pub const ROWS: usize = 64;

    pub const COLS: usize = 96;

    pub open spec fn wf(self) -> bool {
        self@.wf()
    }

    /// A zeroed screen in X-increment, 8-bit mode, with a dummy read pending.
    pub fn new() -> (r: Display)
        ensures
            r.wf(),
            r@.buf =~= Seq::new(6144, |i: int| 0u8),
            r@.auto_mode == AutoAddressMode::IncrementX,
            r@.word_mode == WordMode::Bit8,
            r@.pending,
            r@.x == 0 && r@.y == 0,
    {
        let mut buf: Vec<u8> = Vec::new();
        let mut i: usize = 0;
        while i < 6144
            invariant
                i <= 6144,
                buf@.len() == i,
                forall|k: int| 0 <= k < i ==> buf@[k] == 0u8,
            decreases 6144 - i,
        {
            buf.push(0);
            i += 1;
        }
        Display {
            buf,
            auto_address_mode: AutoAddressMode::IncrementX,
            word_mode: WordMode::Bit8,
            address_update_pending: true,
            addr_x: 0,
            addr_y: 0,
        }
    }

    pub fn get_buffer(&self) -> (r: &Vec<u8>)
        ensures
            r@ == self@.buf,
    {
        &self.buf
    }

    pub fn get_pixel(&self, x: u8, y: u8) -> (r: u8)
        requires
            self.wf(),
            x < 96,
            y < 64,
        ensures
            r == pixel_at(self@.buf, x as int, y as int),
    {
        self.buf[y as usize * 96 + x as usize]
    }

    pub fn invert_pixel(&mut self, x: u8, y: u8)
        requires
            old(self).wf(),
            x < 96,
            y < 64,
        ensures
            final(self).wf(),
            final(self)@ =~= (DisplayView {
                buf: old(self)@.buf.update(
                    y as int * 96 + x as int,
                    old(self)@.buf[y as int * 96 + x as int] ^ 1,
                ),
                ..old(self)@
            }),
    {
        let idx = y as usize * 96 + x as usize;
        let v = self.buf[idx] ^ 1;
        self.buf.set(idx, v);
    }

    /// Zero the whole pixel buffer; the addressing state is untouched.
    pub fn clear(&mut self)
        requires
            old(self).wf(),
        ensures
            final(self).wf(),
            final(self)@ =~= (DisplayView {
                buf: Seq::new(6144, |i: int| 0u8),
                ..old(self)@
            }),
    {
        let mut i: usize = 0;
        while i < 6144
            invariant
                old(self).wf(),
                i <= 6144,
                self.buf@.len() == 6144,
                forall|k: int| 0 <= k < i ==> self.buf@[k] == 0u8,
                forall|k: int| i <= k < 6144 ==> self.buf@[k] == old(self).buf@[k],
                self.auto_address_mode == old(self).auto_address_mode,
                self.word_mode == old(self).word_mode,
                self.address_update_pending == old(self).address_update_pending,
                self.addr_x == old(self).addr_x,
                self.addr_y == old(self).addr_y,
            decreases 6144 - i,
        {
            self.buf.set(i, 0);
            i += 1;
        }
    }

    /// Shift rows by `count` in the given direction, zero-filling the vacated
    /// rows; shifting by a whole screen or more clears the buffer. Row `i` of
    /// the result holds what row `i + count` (up) or `i - count` (down) held.
    pub fn scroll(&mut self, direction: ScrollDirection, count: usize)
        requires
            old(self).wf(),
        ensures
            final(self).wf(),
            final(self)@.auto_mode == old(self)@.auto_mode,
            final(self)@.word_mode == old(self)@.word_mode,
            final(self)@.pending == old(self)@.pending,
            final(self)@.x == old(self)@.x && final(self)@.y == old(self)@.y,
            count >= 64 ==> forall|k: int| 0 <= k < 6144 ==> final(self)@.buf[k] == 0u8,
            count < 64 && direction is Up ==> {
                &&& forall|i: int, j: int|
                    0 <= i < 64 - count && 0 <= j < 96 ==> pixel_at(final(self)@.buf, j, i)
                        == pixel_at(old(self)@.buf, j, i + count)
                &&& forall|i: int, j: int|
                    64 - count <= i < 64 && 0 <= j < 96 ==> pixel_at(final(self)@.buf, j, i) == 0u8
            },
            count < 64 && direction is Down ==> {
                &&& forall|i: int, j: int|
                    count <= i < 64 && 0 <= j < 96 ==> pixel_at(final(self)@.buf, j, i)
                        == pixel_at(old(self)@.buf, j, i - count)
                &&& forall|i: int, j: int|
                    0 <= i < count && 0 <= j < 96 ==> pixel_at(final(self)@.buf, j, i) == 0u8
            },
            0 < count && direction is Up ==> final(self)@.buf == scroll_up_buf(
                old(self)@.buf,
                count as int,
            ),
            0 < count && direction is Down ==> final(self)@.buf == scroll_down_buf(
                old(self)@.buf,
                count as int,
            ),
    {
        if count == 0 {
            return ;
        }
        if count >= 64 {
            self.clear();
            proof {
                assert(self.buf@ =~= scroll_up_buf(old(self)@.buf, count as int));
                assert(self.buf@ =~= scroll_down_buf(old(self)@.buf, count as int));
            }
            return ;
        }
        let keep: usize = (64 - count) * 96;
        let shift: usize = count * 96;
        match direction {
            ScrollDirection::Up => {
                let mut k: usize = 0;
                while k < keep
                    invariant
                        old(self).wf(),
                        0 < count < 64,
                        keep == (64 - count) * 96,
                        shift == count * 96,
                        k <= keep,
                        self.buf@.len() == 6144,
                        forall|m: int| 0 <= m < k ==> self.buf@[m] == old(self).buf@[m + shift],
                        forall|m: int| k <= m < 6144 ==> self.buf@[m] == old(self).buf@[m],
                        self.auto_address_mode == old(self).auto_address_mode,
                        self.word_mode == old(self).word_mode,
                        self.address_update_pending == old(self).address_update_pending,
                        self.addr_x == old(self).addr_x,
                        self.addr_y == old(self).addr_y,
                    decreases keep - k,
                {
                    let v = self.buf[k + shift];
                    self.buf.set(k, v);
                    k += 1;
                }
                let mut k: usize = keep;
                while k < 6144
                    invariant
                        old(self).wf(),
                        0 < count < 64,
                        keep == (64 - count) * 96,
                        shift == count * 96,
                        keep <= k <= 6144,
                        self.buf@.len() == 6144,
                        forall|m: int| 0 <= m < keep ==> self.buf@[m] == old(self).buf@[m + shift],
                        forall|m: int| keep <= m < k ==> self.buf@[m] == 0u8,
                        self.auto_address_mode == old(self).auto_address_mode,
                        self.word_mode == old(self).word_mode,
                        self.address_update_pending == old(self).address_update_pending,
                        self.addr_x == old(self).addr_x,
                        self.addr_y == old(self).addr_y,
                    decreases 6144 - k,
                {
                    self.buf.set(k, 0);
                    k += 1;
                }
                proof {
                    assert(self.buf@ =~= scroll_up_buf(old(self)@.buf, count as int));
                }
            },
            ScrollDirection::Down => {
                let mut k: usize = 6144;
                while k > shift
                    invariant
                        old(self).wf(),
                        0 < count < 64,
                        shift == count * 96,
                        shift <= k <= 6144,
                        self.buf@.len() == 6144,
                        forall|m: int| k <= m < 6144 ==> self.buf@[m] == old(self).buf@[m - shift],
                        forall|m: int| 0 <= m < k ==> self.buf@[m] == old(self).buf@[m],
                        self.auto_address_mode == old(self).auto_address_mode,
                        self.word_mode == old(self).word_mode,
                        self.address_update_pending == old(self).address_update_pending,
                        self.addr_x == old(self).addr_x,
                        self.addr_y == old(self).addr_y,
                    decreases k,
                {
                    k -= 1;
                    let v = self.buf[k - shift];
                    self.buf.set(k, v);
                }
                let mut k: usize = 0;
                while k < shift
                    invariant
                        old(self).wf(),
                        0 < count < 64,
                        shift == count * 96,
                        k <= shift,
                        self.buf@.len() == 6144,
                        forall|m: int|
                            shift <= m < 6144 ==> self.buf@[m] == old(self).buf@[m - shift],
                        forall|m: int| 0 <= m < k ==> self.buf@[m] == 0u8,
                        self.auto_address_mode == old(self).auto_address_mode,
                        self.word_mode == old(self).word_mode,
                        self.address_update_pending == old(self).address_update_pending,
                        self.addr_x == old(self).addr_x,
                        self.addr_y == old(self).addr_y,
                    decreases shift - k,
                {
                    self.buf.set(k, 0);
                    k += 1;
                }
                proof {
                    assert(self.buf@ =~= scroll_down_buf(old(self)@.buf, count as int));
                }
            },
        }
    }

    /// Decode and apply a control-port command: word size, auto-address
    /// direction, or an X/Y address write. Unrecognized bytes are ignored.
    pub fn write_control(&mut self, command: u8)
        requires
            old(self).wf(),
        ensures
            final(self).wf(),
            final(self)@ =~= ctrl_step(old(self)@, command),
    {
        if command == 0x00 {
            self.word_mode = WordMode::Bit6;
            self.clamp_y_addr();
        } else if command == 0x01 {
            self.word_mode = WordMode::Bit8;
        } else if command == 0x04 {
            self.auto_address_mode = AutoAddressMode::DecrementX;
        } else if command == 0x05 {
            self.auto_address_mode = AutoAddressMode::IncrementX;
        } else if command == 0x06 {
            self.auto_address_mode = AutoAddressMode::DecrementY;
        } else if command == 0x07 {
            self.auto_address_mode = AutoAddressMode::IncrementY;
        } else if command & 0xE0 == 0x20 {
            self.addr_y = command & 0x1F;
            proof {
                assert(command & 0x1F < 32) by (bit_vector);
            }
            self.clamp_y_addr();
            self.address_update_pending = true;
        } else if command & 0xC0 == 0x80 {
            self.addr_x = command & 0x3F;
            proof {
                assert(command & 0x3F < 64) by (bit_vector);
            }
            self.address_update_pending = true;
        }
    }

    /// Clamp the Y address to the maximum for the current word mode.
    fn clamp_y_addr(&mut self)
        requires
            old(self)@.y < 32,
        ensures
            final(self)@ =~= (DisplayView {
                y: min(old(self)@.y as int, max_y_spec(old(self)@.word_mode) as int) as nat,
                ..old(self)@
            }),
    {
        let max_y = match self.word_mode {
            WordMode::Bit6 => 19,
            WordMode::Bit8 => 14,
        };
        if self.addr_y > max_y {
            self.addr_y = max_y;
        }
    }

    /// Status-port read: word-size bit, display-on bit, and the axis and
    /// direction of the auto-address mode.
    pub fn read_status(&self) -> (r: u8)
        ensures
            r == status_spec(self@),
    {
        let word_size: u8 = match self.word_mode {
            WordMode::Bit6 => 0,
            WordMode::Bit8 => 0x40,
        };
        let axis_counter: u8 = match self.auto_address_mode {
            AutoAddressMode::IncrementX | AutoAddressMode::DecrementX => 0,
            AutoAddressMode::IncrementY | AutoAddressMode::DecrementY => 2,
        };
        let auto_increment: u8 = match self.auto_address_mode {
            AutoAddressMode::DecrementX | AutoAddressMode::DecrementY => 0,
            AutoAddressMode::IncrementX | AutoAddressMode::IncrementY => 1,
        };
        word_size | 0x20 | axis_counter | auto_increment
    }

    /// Move the X or Y address one step per the auto-address mode.
    fn do_autoaddressing(&mut self)
        requires
            old(self).wf(),
        ensures
            final(self).wf(),
            final(self)@ =~= auto_advance(old(self)@),
    {
        let max_y = match self.word_mode {
            WordMode::Bit6 => 19,
            WordMode::Bit8 => 14,
        };
        match self.auto_address_mode {
            AutoAddressMode::IncrementY => {
                self.addr_y = (self.addr_y + 1) % (max_y + 1);
            },
            AutoAddressMode::DecrementY => {
                self.addr_y = if self.addr_y == 0 {
                    max_y
                } else if self.addr_y - 1 > max_y {
                    max_y
                } else {
                    self.addr_y - 1
                };
            },
            AutoAddressMode::IncrementX => {
                self.addr_x = (self.addr_x + 1) % 64;
            },
            AutoAddressMode::DecrementX => {
                self.addr_x = if self.addr_x == 0 {
                    63
                } else {
                    self.addr_x - 1
                };
            },
        }
    }
}

impl Display {
    /// Data-port write: scatter the byte's bits over the current word (most
    /// significant bit leftmost), then auto-advance the address. A write whose
    /// word lies beyond the screen still advances but changes nothing.
    pub fn write_data(&mut self, data: u8)
        requires
            old(self).wf(),
        ensures
            final(self).wf(),
            final(self)@ =~= data_write_step(old(self)@, data),
    {
        let word_size: usize = match self.word_mode {
            WordMode::Bit6 => 6,
            WordMode::Bit8 => 8,
        };
        if self.addr_y as usize * word_size >= 96 {
            self.do_autoaddressing();
            return ;
        }
        let buf_start: usize = self.addr_x as usize * 96 + self.addr_y as usize * word_size;
        proof {
            assert(self.addr_y as int * word_size + word_size <= 96) by (nonlinear_arith)
                requires
                    self.addr_y as int * word_size < 96,
                    word_size == 6 || word_size == 8,
                    self.addr_y >= 0,
            ;
        }
        let mut k: usize = 0;
        while k < word_size
            invariant
                old(self).wf(),
                word_size == word_size_spec(old(self)@.word_mode),
                old(self)@.y * word_size < 96,
                buf_start == old(self)@.x * 96 + old(self)@.y * word_size,
                buf_start + word_size <= 6144,
                k <= word_size,
                self.buf@.len() == 6144,
                forall|m: int|
                    buf_start <= m < buf_start + k ==> self.buf@[m] == bit_of(
                        data,
                        word_size - 1 - (m - buf_start),
                    ),
                forall|m: int|
                    0 <= m < 6144 && !(buf_start <= m < buf_start + k) ==> self.buf@[m] == old(
                        self,
                    ).buf@[m],
                self.auto_address_mode == old(self).auto_address_mode,
                self.word_mode == old(self).word_mode,
                self.address_update_pending == old(self).address_update_pending,
                self.addr_x == old(self).addr_x,
                self.addr_y == old(self).addr_y,
            decreases word_size - k,
        {
            let bitv = (data >> ((word_size - 1 - k) as u8)) & 1;
            self.buf.set(buf_start + k, bitv);
            k += 1;
        }
        proof {
            assert(self.buf@ =~= data_write_buf(old(self)@, data));
        }
        self.do_autoaddressing();
    }

    /// Data-port read: gather the current word back into a byte. A pending
    /// dummy read returns the value but does not move the address; any other
    /// read auto-advances. Out-of-range words read as 0.
    pub fn read_data(&mut self) -> (r: u8)
        requires
            old(self).wf(),
        ensures
            final(self).wf(),
            r == data_read_value(old(self)@),
            final(self)@ =~= data_read_step(old(self)@),
    {
        let word_size: usize = match self.word_mode {
            WordMode::Bit6 => 6,
            WordMode::Bit8 => 8,
        };
        let out: u8;
        if self.addr_y as usize * word_size >= 96 {
            out = 0;
        } else {
            let buf_start: usize = self.addr_x as usize * 96 + self.addr_y as usize * word_size;
            proof {
                assert(self.addr_y as int * word_size + word_size <= 96) by (nonlinear_arith)
                    requires
                        self.addr_y as int * word_size < 96,
                        word_size == 6 || word_size == 8,
                        self.addr_y >= 0,
                ;
            }
            let mut acc: u8 = 0;
            let mut m: usize = 0;
            while m < word_size
                invariant
                    self.wf(),
                    word_size == word_size_spec(self@.word_mode),
                    buf_start == self@.x * 96 + self@.y * word_size,
                    buf_start + word_size <= 6144,
                    m <= word_size,
                    acc == gather(self.buf@, buf_start as int, word_size as int, m as int),
                decreases word_size - m,
            {
                acc = acc | ((self.buf[buf_start + m] & 1) << ((word_size - 1 - m) as u8));
                m += 1;
            }
            out = acc;
        }
        if self.address_update_pending {
            self.address_update_pending = false;
        } else {
            self.do_autoaddressing();
        }
        out
    }
}

impl Display {
    /// Copy a full-screen 1-bit-per-pixel image (8 pixels per byte, most
    /// significant bit leftmost) over the whole buffer.
    pub fn blit_fullscreen(&mut self, data: &[u8])
        requires
            old(self).wf(),
            data@.len() == 768,
        ensures
            final(self).wf(),
            final(self)@.auto_mode == old(self)@.auto_mode,
            final(self)@.word_mode == old(self)@.word_mode,
            final(self)@.pending == old(self)@.pending,
            final(self)@.x == old(self)@.x && final(self)@.y == old(self)@.y,
            forall|m: int|
                0 <= m < 6144 ==> final(self)@.buf[m] == bit_of(data@[m / 8], 7 - (m % 8)),
    {
        let mut k: usize = 0;
        while k < 768
            invariant
                old(self).wf(),
                data@.len() == 768,
                k <= 768,
                self.buf@.len() == 6144,
                forall|m: int| 0 <= m < 8 * k ==> self.buf@[m] == bit_of(data@[m / 8], 7 - (m % 8)),
                self.auto_address_mode == old(self).auto_address_mode,
                self.word_mode == old(self).word_mode,
                self.address_update_pending == old(self).address_update_pending,
                self.addr_x == old(self).addr_x,
                self.addr_y == old(self).addr_y,
            decreases 768 - k,
        {
            let byte = data[k];
            let mut j: usize = 0;
            while j < 8
                invariant
                    old(self).wf(),
                    data@.len() == 768,
                    k < 768,
                    j <= 8,
                    byte == data@[k as int],
                    self.buf@.len() == 6144,
                    forall|m: int|
                        0 <= m < 8 * k + j ==> self.buf@[m] == bit_of(data@[m / 8], 7 - (m % 8)),
                    self.auto_address_mode == old(self).auto_address_mode,
                    self.word_mode == old(self).word_mode,
                    self.address_update_pending == old(self).address_update_pending,
                    self.addr_x == old(self).addr_x,
                    self.addr_y == old(self).addr_y,
                decreases 8 - j,
            {
                let bitv = (byte >> ((7 - j) as u8)) & 1;
                self.buf.set(8 * k + j, bitv);
                proof {
                    assert((8 * k + j) / 8 == k as int && (8 * k + j) % 8 == j as int)
                        by (nonlinear_arith)
                        requires
                            0 <= j < 8,
                            0 <= k,
                    ;
                }
                j += 1;
            }
            k += 1;
        }
    }

    /// Overwrite `width` pixels per row starting at (`x`, `y`) with the top
    /// bits of each byte of `data`, one row per byte, clipping at the right
    /// and bottom edges.
    pub fn blit_8bit_over(&mut self, x: u8, y: u8, data: &[u8], width: u8)
        requires
            old(self).wf(),
            1 <= width <= 8,
        ensures
            final(self).wf(),
            final(self)@.auto_mode == old(self)@.auto_mode,
            final(self)@.word_mode == old(self)@.word_mode,
            final(self)@.pending == old(self)@.pending,
            final(self)@.x == old(self)@.x && final(self)@.y == old(self)@.y,
            x > 96 || y > 64 ==> final(self)@.buf == old(self)@.buf,
            x <= 96 && y <= 64 ==> ({
                let cw = min(x + width, 96) - x;
                &&& forall|r: int, c: int|
                    0 <= r < data@.len() && y + r < 64 && 0 <= c < cw ==> #[trigger] pixel_off(
                        final(self)@.buf,
                        x as int,
                        y as int,
                        c,
                        r,
                    ) == bit_of(data@[r], 7 - c)
                &&& forall|px: int, py: int|
                    0 <= px < 96 && 0 <= py < 64 && !(x <= px < x + cw && y <= py < y
                        + data@.len()) ==> pixel_at(final(self)@.buf, px, py) == pixel_at(
                        old(self)@.buf,
                        px,
                        py,
                    )
            }),
    {
        if x > 96 || y > 64 {
            return ;
        }
        let col = x as usize;
        let row = y as usize;
        let mask: u8 = 0xFF << (8 - width);
        let cw: usize = if col + width as usize > 96 {
            96 - col
        } else {
            width as usize
        };
        let mut r: usize = 0;
        while r < data.len() && r < 64 - row
            invariant
                old(self).wf(),
                col == x as int && row == y as int,
                col <= 96 && row <= 64,
                1 <= width <= 8,
                mask == (0xFFu8 << (8 - width) as u8),
                cw == min(x + width, 96) - x,
                cw <= width,
                r <= data@.len(),
                self.buf@.len() == 6144,
                forall|r2: int, c2: int|
                    0 <= r2 < r && row + r2 < 64 && 0 <= c2 < cw ==> #[trigger] pixel_off(
                        self.buf@,
                        x as int,
                        y as int,
                        c2,
                        r2,
                    ) == bit_of(data@[r2], 7 - c2),
                forall|px: int, py: int|
                    0 <= px < 96 && 0 <= py < 64 && !(col <= px < col + cw && row <= py < row + r)
                        ==> pixel_at(self.buf@, px, py) == pixel_at(old(self)@.buf, px, py),
                self.auto_address_mode == old(self).auto_address_mode,
                self.word_mode == old(self).word_mode,
                self.address_update_pending == old(self).address_update_pending,
                self.addr_x == old(self).addr_x,
                self.addr_y == old(self).addr_y,
            decreases data@.len() - r,
        {
            let masked = data[r] & mask;
            let mut c: usize = 0;
            while c < cw
                invariant
                    old(self).wf(),
                    col == x as int && row == y as int,
                    col <= 96 && row <= 64,
                    1 <= width <= 8,
                    mask == (0xFFu8 << (8 - width) as u8),
                    cw == min(x + width, 96) - x,
                    cw <= width,
                    r < data@.len(),
                    row + r < 64,
                    masked == (data@[r as int] & mask),
                    c <= cw,
                    self.buf@.len() == 6144,
                    forall|r2: int, c2: int|
                        0 <= r2 < r && row + r2 < 64 && 0 <= c2 < cw ==> #[trigger] pixel_off(
                            self.buf@,
                            x as int,
                            y as int,
                            c2,
                            r2,
                        ) == bit_of(data@[r2], 7 - c2),
                    forall|c2: int|
                        0 <= c2 < c ==> #[trigger] pixel_off(self.buf@, x as int, y as int, c2, r as int)
                            == bit_of(data@[r as int], 7 - c2),
                    forall|px: int, py: int|
                        0 <= px < 96 && 0 <= py < 64 && !(col <= px < col + cw && row <= py < row
                            + r) && !(col <= px < col + c && py == row + r) ==> pixel_at(
                            self.buf@,
                            px,
                            py,
                        ) == pixel_at(old(self)@.buf, px, py),
                    self.auto_address_mode == old(self).auto_address_mode,
                    self.word_mode == old(self).word_mode,
                    self.address_update_pending == old(self).address_update_pending,
                    self.addr_x == old(self).addr_x,
                    self.addr_y == old(self).addr_y,
                decreases cw - c,
            {
                let bitv = (masked >> ((7 - c) as u8)) & 1;
                proof {
                    let d = data@[r as int];
                    let cu = c as u8;
                    assert(cu < width <= 8 ==> ((d & (0xFFu8 << (8 - width) as u8)) >> ((7
                        - cu) as u8)) & 1 == (d >> ((7 - cu) as u8)) & 1) by (bit_vector);
                }
                let ghost pre = self.buf@;
                self.buf.set((row + r) * 96 + col + c, bitv);
                proof {
                    let xi = x as int;
                    let yi = y as int;
                    let ri = r as int;
                    let ci = c as int;
                    let idx = (yi + ri) * 96 + (xi + ci);
                    assert forall|r2: int, c2: int|
                        0 <= r2 < ri && yi + r2 < 64 && 0 <= c2 < cw implies #[trigger] pixel_off(
                        self.buf@,
                        xi,
                        yi,
                        c2,
                        r2,
                    ) == bit_of(data@[r2], 7 - c2) by {
                        assert(pixel_off(pre, xi, yi, c2, r2) == bit_of(data@[r2], 7 - c2));
                        assert((yi + r2) * 96 + (xi + c2) != idx);
                    }
                    assert forall|c2: int|
                        0 <= c2 < ci + 1 implies #[trigger] pixel_off(self.buf@, xi, yi, c2, ri)
                        == bit_of(data@[ri], 7 - c2) by {
                        if c2 < ci {
                            assert(pixel_off(pre, xi, yi, c2, ri) == bit_of(data@[ri], 7 - c2));
                            assert((yi + ri) * 96 + (xi + c2) != idx);
                        } else {
                            assert(pixel_off(self.buf@, xi, yi, ci, ri) == bitv);
                        }
                    }
                    assert forall|px: int, py: int|
                        0 <= px < 96 && 0 <= py < 64 && !(col <= px < col + cw && row <= py < row
                            + ri) && !(col <= px < col + ci + 1 && py == row + ri) implies pixel_at(
                        self.buf@,
                        px,
                        py,
                    ) == pixel_at(old(self)@.buf, px, py) by {
                        assert(pixel_at(pre, px, py) == pixel_at(old(self)@.buf, px, py));
                        assert(py * 96 + px != idx) by (nonlinear_arith)
                            requires
                                0 <= px < 96,
                                0 <= py < 64,
                                idx == (yi + ri) * 96 + (xi + ci),
                                0 <= xi + ci < 96,
                                0 <= yi + ri < 64,
                                !(px == xi + ci && py == yi + ri),
                        ;
                    }
                }
                c += 1;
            }
            r += 1;
        }
    }
}

/// Status-port value: bit 6 word size, bit 5 display on, bit 1 axis of the
/// auto-address counter, bit 0 its direction.
pub open spec fn status_spec(v: DisplayView) -> u8 {
    let ws: u8 = if v.word_mode is Bit8 {
        0x40
    } else {
        0
    };
    let axis: u8 = match v.auto_mode {
        AutoAddressMode::IncrementY | AutoAddressMode::DecrementY => 2,
        _ => 0,
    };
    let inc: u8 = match v.auto_mode {
        AutoAddressMode::IncrementX | AutoAddressMode::IncrementY => 1,
        _ => 0,
    };
    (ws | 0x20 | axis | inc) as u8
}

} // verus!
