//! The keyboard matrix: 8 groups of 8 active-low key lines, a group mask for
//! port reads, and the single-key-with-repeat scan used by the key-scan
//! system call.

use vstd::prelude::*;

verus! {

/// Keyboard keys, excluding ON (which goes through the interrupt controller).
///
/// Each key sits at one (group, bit) position in the matrix; its scan code is
/// `8 * group + bit + 1`.
#[derive(Debug, Clone, Copy, PartialEq, Eq, Structural)]
pub enum Key {
    Down,
    Left,
    Right,
    Up,
    Enter,
    Plus,
    Minus,
    Multiply,
    Divide,
    Caret,
    Clear,
    Negate,
    Three,
    Six,
    Nine,
    CloseParen,
    Tangent,
    Vars,
    Period,
    Two,
    Five,
    Eight,
    OpenParen,
    Cosine,
    Program,
    Stat,
    Zero,
    One,
    Four,
    Seven,
    Comma,
    Sine,
    Apps,
    GraphVar,
    Store,
    NaturalLog,
    Log,
    Square,
    Reciprocal,
    Math,
    Alpha,
    Graph,
    Trace,
    Zoom,
    Window,
    YEquals,
    Second,
    Mode,
    Del,
}

/// The matrix group a key's line belongs to.
pub open spec fn key_group_spec(k: Key) -> int {
    match k {
        Key::Down | Key::Left | Key::Right | Key::Up => 0,
        Key::Enter | Key::Plus | Key::Minus | Key::Multiply | Key::Divide | Key::Caret
            | Key::Clear => 1,
        Key::Negate | Key::Three | Key::Six | Key::Nine | Key::CloseParen | Key::Tangent
            | Key::Vars => 2,
        Key::Period | Key::Two | Key::Five | Key::Eight | Key::OpenParen | Key::Cosine
            | Key::Program | Key::Stat => 3,
        Key::Zero | Key::One | Key::Four | Key::Seven | Key::Comma | Key::Sine | Key::Apps
            | Key::GraphVar => 4,
        Key::Store | Key::NaturalLog | Key::Log | Key::Square | Key::Reciprocal | Key::Math
            | Key::Alpha => 5,
        Key::Graph | Key::Trace | Key::Zoom | Key::Window | Key::YEquals | Key::Second
            | Key::Mode | Key::Del => 6,
    }
}

/// The bit of a key's line within its group.
pub open spec fn key_bit_spec(k: Key) -> u8 {
    match k {
        Key::Down | Key::Enter | Key::Negate | Key::Period | Key::Zero | Key::Graph => 0,
        Key::Left | Key::Plus | Key::Three | Key::Two | Key::One | Key::Store | Key::Trace => 1,
        Key::Right | Key::Minus | Key::Six | Key::Five | Key::Four | Key::NaturalLog
            | Key::Zoom => 2,
        Key::Up | Key::Multiply | Key::Nine | Key::Eight | Key::Seven | Key::Log
            | Key::Window => 3,
        Key::Divide | Key::CloseParen | Key::OpenParen | Key::Comma | Key::Square
            | Key::YEquals => 4,
        Key::Caret | Key::Tangent | Key::Cosine | Key::Sine | Key::Reciprocal | Key::Second => 5,
        Key::Clear | Key::Vars | Key::Program | Key::Apps | Key::Math | Key::Mode => 6,
        Key::Stat | Key::GraphVar | Key::Alpha | Key::Del => 7,
    }
}

/// The scan code of a key, as returned by the key-scan system call.
pub open spec fn scan_code_spec(k: Key) -> int {
    8 * key_group_spec(k) + key_bit_spec(k) + 1
}

/// Whether some key sits at matrix position (`g`, `b`).
pub open spec fn mapped(g: int, b: int) -> bool {
    ||| (g == 0 && 0 <= b < 4)
    ||| (g == 1 && 0 <= b < 7)
    ||| (g == 2 && 0 <= b < 7)
    ||| (g == 3 && 0 <= b < 8)
    ||| (g == 4 && 0 <= b < 8)
    ||| (g == 5 && 1 <= b < 8)
    ||| (g == 6 && 0 <= b < 8)
}

/// Keys that repeat while held during scans: the directional keys and delete.
pub open spec fn is_repeatable_spec(k: Key) -> bool {
    match k {
        Key::Up | Key::Right | Key::Down | Key::Left | Key::Del => true,
        _ => false,
    }
}

/// No two keys share a matrix position.
pub proof fn lemma_key_position_injective(k1: Key, k2: Key)
    requires
        key_group_spec(k1) == key_group_spec(k2),
        key_bit_spec(k1) == key_bit_spec(k2),
    ensures
        k1 == k2,
{
}

/// Every key's position is a mapped matrix position.
pub proof fn lemma_key_position_mapped(k: Key)
    ensures
        mapped(key_group_spec(k), key_bit_spec(k) as int),
        0 <= key_group_spec(k) < 8,
        key_bit_spec(k) < 8,
{
}

/// Whether the key line at (`g`, `b`) reads high (released) in `keys`.
pub open spec fn line_up(keys: Seq<u8>, g: int, b: int) -> bool {
    keys[g] & (1u8 << (b as u8)) != 0
}

/// Whether the scan sees a pressed key at (`g`, `b`): scans look at bits 0
/// through 6 of each group only.
pub open spec fn pressed(keys: Seq<u8>, g: int, b: int) -> bool {
    0 <= g < 8 && 0 <= b < 7 && !line_up(keys, g, b)
}

/// Exactly one scan-visible position is pressed, and it is (`g`, `b`).
pub open spec fn unique_pressed(keys: Seq<u8>, g: int, b: int) -> bool {
    pressed(keys, g, b) && forall|g2: int, b2: int|
        #[trigger] pressed(keys, g2, b2) ==> g2 == g && b2 == b
}

/// Two distinct scan-visible positions are pressed.
pub open spec fn multiple_pressed(keys: Seq<u8>) -> bool {
    exists|g1: int, b1: int, g2: int, b2: int|
        #[trigger] pressed(keys, g1, b1) && #[trigger] pressed(keys, g2, b2) && !(g1 == g2 && b1
            == b2)
}

/// No scan-visible position is pressed.
pub open spec fn none_pressed(keys: Seq<u8>) -> bool {
    forall|g: int, b: int| !(#[trigger] pressed(keys, g, b))
}

/// The port-1 read: AND of the lines of every group whose mask bit is clear,
/// over a prefix of `g` groups, starting from all lines high.
pub open spec fn read_spec(keys: Seq<u8>, mask: u8, g: int) -> u8
    decreases g,
{
    if g <= 0 {
        0xFF
    } else if mask & (1u8 << ((g - 1) as u8)) == 0 {
        (read_spec(keys, mask, g - 1) & keys[g - 1]) as u8
    } else {
        read_spec(keys, mask, g - 1)
    }
}

/// The key a scan would detect: the one key at the unique pressed
/// scan-visible position, if there is exactly one.
pub open spec fn scanned_key(keys: Seq<u8>) -> Option<Key> {
    if exists|k: Key|
        #[trigger] unique_pressed(keys, key_group_spec(k), key_bit_spec(k) as int) {
        Some(
            choose|k: Key|
                #[trigger] unique_pressed(keys, key_group_spec(k), key_bit_spec(k) as int),
        )
    } else {
        None
    }
}

/// Abstract keyboard state.
#[verifier::ext_equal]
pub struct KeyboardView {
    pub keys_up: Seq<u8>,
    pub active_mask: u8,
    pub last_scan: Option<Key>,
    pub repeat_recurring: bool,
    pub repeat_timer: u8,
}

impl KeyboardView {
    /// Lines exist only where keys do: a bit with no key behind it always
    /// reads high.
    pub open spec fn wf(self) -> bool {
        &&& self.keys_up.len() == 8
        &&& forall|g: int, b: int|
            0 <= g < 8 && 0 <= b < 8 && !mapped(g, b) ==> line_up(self.keys_up, g, b)
    }
}

/// Pressing exactly one scan-visible key on an otherwise idle matrix makes
/// the next scan report that key.
pub proof fn lemma_single_key_scans(v: KeyboardView, k: Key)
    requires
        v.wf(),
        none_pressed(v.keys_up),
        key_bit_spec(k) < 7,
        v.last_scan != Some(k),
    ensures
        ({
            let held = KeyboardView {
                keys_up: v.keys_up.update(
                    key_group_spec(k),
                    (v.keys_up[key_group_spec(k)] & !(1u8 << key_bit_spec(k))) as u8,
                ),
                ..v
            };
            scan_result_spec(held) == Some(k)
        }),
{
    lemma_key_position_mapped(k);
    let kg = key_group_spec(k);
    let kb = key_bit_spec(k);
    let x = v.keys_up[kg];
    let held = v.keys_up.update(kg, (x & !(1u8 << kb)) as u8);
    assert(kb < 8 ==> (x & !(1u8 << kb)) & (1u8 << kb) == 0) by (bit_vector);
    assert(pressed(held, kg, kb as int));
    assert forall|g2: int, b2: int| #[trigger] pressed(held, g2, b2) implies g2 == kg && b2
        == kb as int by {
        if g2 == kg && b2 != kb as int {
            let bb = b2 as u8;
            assert(bb != kb && bb < 8 && kb < 8 ==> ((x & !(1u8 << kb)) & (1u8 << bb) == 0 <==> x
                & (1u8 << bb) == 0)) by (bit_vector);
            assert(!pressed(v.keys_up, g2, b2));
        }
        if g2 != kg {
            assert(!pressed(v.keys_up, g2, b2));
        }
    }
    assert(unique_pressed(held, kg, kb as int));
    let kc = choose|kc: Key|
        #[trigger] unique_pressed(held, key_group_spec(kc), key_bit_spec(kc) as int);
    assert(unique_pressed(held, key_group_spec(kc), key_bit_spec(kc) as int));
    lemma_key_position_injective(kc, k);
}

/// With two or more scan-visible keys down the scan is ambiguous: it reports
/// nothing and leaves the state alone.
pub proof fn lemma_ambiguous_scan_reports_nothing(v: KeyboardView)
    requires
        v.wf(),
        multiple_pressed(v.keys_up),
    ensures
        scan_result_spec(v) is None,
        scan_step_spec(v) == v,
{
    if exists|k: Key|
        #[trigger] unique_pressed(v.keys_up, key_group_spec(k), key_bit_spec(k) as int) {
        let k = choose|k: Key|
            #[trigger] unique_pressed(v.keys_up, key_group_spec(k), key_bit_spec(k) as int);
        assert(false);
    }
}

/// The key one scan reports, given the matrix and the repeat state.
pub open spec fn scan_result_spec(v: KeyboardView) -> Option<Key> {
    match scanned_key(v.keys_up) {
        None => None,
        Some(k) => if v.last_scan != Some(k) {
            Some(k)
        } else if !is_repeatable_spec(k) {
            None
        } else if v.repeat_timer == 0 {
            Some(k)
        } else {
            None
        },
    }
}

/// The repeat state after one scan.
pub open spec fn scan_step_spec(v: KeyboardView) -> KeyboardView {
    match scanned_key(v.keys_up) {
        None => if multiple_pressed(v.keys_up) || v.last_scan is None {
            v
        } else {
            KeyboardView { last_scan: None, repeat_recurring: false, repeat_timer: 0x32, ..v }
        },
        Some(k) => if v.last_scan != Some(k) {
            KeyboardView { last_scan: Some(k), repeat_recurring: false, repeat_timer: 0x32, ..v }
        } else if !is_repeatable_spec(k) {
            v
        } else if v.repeat_timer == 0 {
            KeyboardView {
                repeat_recurring: true,
                repeat_timer: if v.repeat_recurring {
                    0x0Au8
                } else {
                    0x32u8
                },
                ..v
            }
        } else {
            KeyboardView { repeat_timer: (v.repeat_timer - 1) as u8, ..v }
        },
    }
}

pub struct Keyboard {
    /// Bits reset while keys are down; active-low. Bits with no key always
    /// read high.
    keys_up: Vec<u8>,
    /// Bits clear in this bitmask select groups for port reads.
    active_mask: u8,
    last_scan: Option<Key>,
    repeat_recurring: bool,
    repeat_timer: u8,
}

impl View for Keyboard {
    type V = KeyboardView;

    closed spec fn view(&self) -> KeyboardView {
        KeyboardView {
            keys_up: self.keys_up@,
            active_mask: self.active_mask,
            last_scan: self.last_scan,
            repeat_recurring: self.repeat_recurring,
            repeat_timer: self.repeat_timer,
        }
    }
}

/// The matrix group a key's line belongs to.
pub fn key_group(k: Key) -> (r: usize)
    ensures
        r == key_group_spec(k),
{
    match k {
        Key::Down | Key::Left | Key::Right | Key::Up => 0,
        Key::Enter | Key::Plus | Key::Minus | Key::Multiply | Key::Divide | Key::Caret
            | Key::Clear => 1,
        Key::Negate | Key::Three | Key::Six | Key::Nine | Key::CloseParen | Key::Tangent
            | Key::Vars => 2,
        Key::Period | Key::Two | Key::Five | Key::Eight | Key::OpenParen | Key::Cosine
            | Key::Program | Key::Stat => 3,
        Key::Zero | Key::One | Key::Four | Key::Seven | Key::Comma | Key::Sine | Key::Apps
            | Key::GraphVar => 4,
        Key::Store | Key::NaturalLog | Key::Log | Key::Square | Key::Reciprocal | Key::Math
            | Key::Alpha => 5,
        Key::Graph | Key::Trace | Key::Zoom | Key::Window | Key::YEquals | Key::Second
            | Key::Mode | Key::Del => 6,
    }
}

/// The bit of a key's line within its group.
pub fn key_bit(k: Key) -> (r: u8)
    ensures
        r == key_bit_spec(k),
{
    match k {
        Key::Down | Key::Enter | Key::Negate | Key::Period | Key::Zero | Key::Graph => 0,
        Key::Left | Key::Plus | Key::Three | Key::Two | Key::One | Key::Store | Key::Trace => 1,
        Key::Right | Key::Minus | Key::Six | Key::Five | Key::Four | Key::NaturalLog
            | Key::Zoom => 2,
        Key::Up | Key::Multiply | Key::Nine | Key::Eight | Key::Seven | Key::Log
            | Key::Window => 3,
        Key::Divide | Key::CloseParen | Key::OpenParen | Key::Comma | Key::Square
            | Key::YEquals => 4,
        Key::Caret | Key::Tangent | Key::Cosine | Key::Sine | Key::Reciprocal | Key::Second => 5,
        Key::Clear | Key::Vars | Key::Program | Key::Apps | Key::Math | Key::Mode => 6,
        Key::Stat | Key::GraphVar | Key::Alpha | Key::Del => 7,
    }
}

/// The key at a mapped matrix position.
fn key_at(g: usize, b: u8) -> (r: Key)
    requires
        mapped(g as int, b as int),
    ensures
        key_group_spec(r) == g,
        key_bit_spec(r) == b,
{
    match (g, b) {
        (0, 0) => Key::Down,
        (0, 1) => Key::Left,
        (0, 2) => Key::Right,
        (0, 3) => Key::Up,
        (1, 0) => Key::Enter,
        (1, 1) => Key::Plus,
        (1, 2) => Key::Minus,
        (1, 3) => Key::Multiply,
        (1, 4) => Key::Divide,
        (1, 5) => Key::Caret,
        (1, 6) => Key::Clear,
        (2, 0) => Key::Negate,
        (2, 1) => Key::Three,
        (2, 2) => Key::Six,
        (2, 3) => Key::Nine,
        (2, 4) => Key::CloseParen,
        (2, 5) => Key::Tangent,
        (2, 6) => Key::Vars,
        (3, 0) => Key::Period,
        (3, 1) => Key::Two,
        (3, 2) => Key::Five,
        (3, 3) => Key::Eight,
        (3, 4) => Key::OpenParen,
        (3, 5) => Key::Cosine,
        (3, 6) => Key::Program,
        (3, 7) => Key::Stat,
        (4, 0) => Key::Zero,
        (4, 1) => Key::One,
        (4, 2) => Key::Four,
        (4, 3) => Key::Seven,
        (4, 4) => Key::Comma,
        (4, 5) => Key::Sine,
        (4, 6) => Key::Apps,
        (4, 7) => Key::GraphVar,
        (5, 1) => Key::Store,
        (5, 2) => Key::NaturalLog,
        (5, 3) => Key::Log,
        (5, 4) => Key::Square,
        (5, 5) => Key::Reciprocal,
        (5, 6) => Key::Math,
        (5, 7) => Key::Alpha,
        (6, 0) => Key::Graph,
        (6, 1) => Key::Trace,
        (6, 2) => Key::Zoom,
        (6, 3) => Key::Window,
        (6, 4) => Key::YEquals,
        (6, 5) => Key::Second,
        (6, 6) => Key::Mode,
        (6, 7) => Key::Del,
        _ => {
            proof {
                assert(false);
            }
            Key::Down
        },
    }
}

/// The scan code of a key: `8 * group + bit + 1`.
pub fn scan_code(k: Key) -> (r: u8)
    ensures
        r as int == scan_code_spec(k),
{
    8 * (key_group(k) as u8) + key_bit(k) + 1
}

/// Whether a key repeats while held during scans.
fn is_repeatable(k: Key) -> (r: bool)
    ensures
        r == is_repeatable_spec(k),
{
    match k {
        Key::Up | Key::Right | Key::Down | Key::Left | Key::Del => true,
        _ => false,
    }
}

impl Keyboard {
    pub open spec fn wf(self) -> bool {
        self@.wf()
    }

    /// All keys released, all groups deselected, no scan history.
    pub fn new() -> (r: Keyboard)
        ensures
            r.wf(),
            r@.keys_up =~= seq![0xFFu8, 0xFF, 0xFF, 0xFF, 0xFF, 0xFF, 0xFF, 0xFF],
            r@.active_mask == 0xFF,
            r@.last_scan is None,
            !r@.repeat_recurring,
            r@.repeat_timer == 0,
    {
        let mut keys_up: Vec<u8> = Vec::new();
        let mut i: usize = 0;
        while i < 8
            invariant
                i <= 8,
                keys_up@.len() == i,
                forall|k: int| 0 <= k < i ==> keys_up@[k] == 0xFFu8,
            decreases 8 - i,
        {
            keys_up.push(0xFF);
            i += 1;
        }
        proof {
            assert forall|g: int, b: int|
                0 <= g < 8 && 0 <= b < 8 && !mapped(g, b) implies line_up(keys_up@, g, b) by {
                let bu = b as u8;
                assert(bu < 8 ==> 0xFFu8 & (1u8 << bu) != 0) by (bit_vector);
            }
        }
        Keyboard {
            keys_up,
            active_mask: 0xFF,
            last_scan: None,
            repeat_recurring: false,
            repeat_timer: 0,
        }
    }

    /// Press a key: its line in its group goes low; nothing else changes.
    pub fn key_down(&mut self, key: Key)
        requires
            old(self).wf(),
        ensures
            final(self).wf(),
            final(self)@ =~= (KeyboardView {
                keys_up: old(self)@.keys_up.update(
                    key_group_spec(key),
                    (old(self)@.keys_up[key_group_spec(key)] & !(1u8 << key_bit_spec(key))) as u8,
                ),
                ..old(self)@
            }),
    {
        proof {
            lemma_key_position_mapped(key);
        }
        let g = key_group(key);
        let b = key_bit(key);
        let cur = self.keys_up[g];
        self.keys_up.set(g, cur & !(1u8 << b));
        proof {
            assert forall|g2: int, b2: int|
                0 <= g2 < 8 && 0 <= b2 < 8 && !mapped(g2, b2) implies line_up(
                self.keys_up@,
                g2,
                b2,
            ) by {
                if g2 == g {
                    let x = old(self)@.keys_up[g2];
                    let bb = b2 as u8;
                    assert(line_up(old(self)@.keys_up, g2, b2));
                    assert(bb < 8 && b < 8 && bb != b && x & (1u8 << bb) != 0 ==> (x & !(1u8 << b))
                        & (1u8 << bb) != 0) by (bit_vector);
                }
            }
        }
    }

    /// Release a key: its line in its group goes high; nothing else changes.
    pub fn key_up(&mut self, key: Key)
        requires
            old(self).wf(),
        ensures
            final(self).wf(),
            final(self)@ =~= (KeyboardView {
                keys_up: old(self)@.keys_up.update(
                    key_group_spec(key),
                    (old(self)@.keys_up[key_group_spec(key)] | (1u8 << key_bit_spec(key))) as u8,
                ),
                ..old(self)@
            }),
    {
        proof {
            lemma_key_position_mapped(key);
        }
        let g = key_group(key);
        let b = key_bit(key);
        let cur = self.keys_up[g];
        self.keys_up.set(g, cur | (1u8 << b));
        proof {
            assert forall|g2: int, b2: int|
                0 <= g2 < 8 && 0 <= b2 < 8 && !mapped(g2, b2) implies line_up(
                self.keys_up@,
                g2,
                b2,
            ) by {
                if g2 == g {
                    let x = old(self)@.keys_up[g2];
                    let bb = b2 as u8;
                    assert(line_up(old(self)@.keys_up, g2, b2));
                    assert(bb < 8 && b < 8 && x & (1u8 << bb) != 0 ==> (x | (1u8 << b)) & (1u8
                        << bb) != 0) by (bit_vector);
                }
            }
        }
    }

    /// Write the keyboard port: select which groups a read includes. A clear
    /// bit selects the group.
    pub fn set_active_mask(&mut self, mask: u8)
        requires
            old(self).wf(),
        ensures
            final(self).wf(),
            final(self)@ =~= (KeyboardView { active_mask: mask, ..old(self)@ }),
    {
        self.active_mask = mask;
    }

    /// Read the keyboard port: the AND of the lines of every selected group,
    /// all-high when no group is selected.
    pub fn read(&self) -> (r: u8)
        requires
            self.wf(),
        ensures
            r == read_spec(self@.keys_up, self@.active_mask, 8),
    {
        let mut result: u8 = 0xFF;
        let mut idx: usize = 0;
        while idx < 8
            invariant
                self.wf(),
                idx <= 8,
                result == read_spec(self@.keys_up, self@.active_mask, idx as int),
            decreases 8 - idx,
        {
            if self.active_mask & (1u8 << (idx as u8)) == 0 {
                result = result & self.keys_up[idx];
            }
            idx += 1;
        }
        result
    }

    /// Single-key detection with repeat.
    ///
    /// With two or more keys down (among the scan-visible lines, bits 0-6 of
    /// each group) the scan is ambiguous and reports no key, changing
    /// nothing. With exactly one key down: a newly seen key is reported at
    /// once and starts the repeat countdown; a held non-repeating key is
    /// reported only that once; a held repeating key is reported again each
    /// time the countdown runs out, with a shorter interval after the first
    /// repeat. With no key down, the scan history is cleared.
    pub fn scan(&mut self) -> (r: Option<Key>)
        requires
            old(self).wf(),
        ensures
            final(self).wf(),
            final(self)@.keys_up == old(self)@.keys_up,
            final(self)@.active_mask == old(self)@.active_mask,
            multiple_pressed(old(self)@.keys_up) ==> r is None && final(self)@ == old(self)@,
            none_pressed(old(self)@.keys_up) ==> {
                &&& r is None
                &&& old(self)@.last_scan is None ==> final(self)@ == old(self)@
                &&& old(self)@.last_scan is Some ==> final(self)@ == (KeyboardView {
                    last_scan: None,
                    repeat_recurring: false,
                    repeat_timer: 0x32,
                    ..old(self)@
                })
            },
            forall|k: Key|
                #[trigger] unique_pressed(
                    old(self)@.keys_up,
                    key_group_spec(k),
                    key_bit_spec(k) as int,
                ) ==> if old(self)@.last_scan != Some(k) {
                    r == Some(k) && final(self)@ == (KeyboardView {
                        last_scan: Some(k),
                        repeat_recurring: false,
                        repeat_timer: 0x32,
                        ..old(self)@
                    })
                } else if !is_repeatable_spec(k) {
                    r is None && final(self)@ == old(self)@
                } else if old(self)@.repeat_timer == 0 {
                    r == Some(k) && final(self)@ == (KeyboardView {
                        repeat_recurring: true,
                        repeat_timer: if old(self)@.repeat_recurring {
                            0x0Au8
                        } else {
                            0x32u8
                        },
                        ..old(self)@
                    })
                } else {
                    r is None && final(self)@ == (KeyboardView {
                        repeat_timer: (old(self)@.repeat_timer - 1) as u8,
                        ..old(self)@
                    })
                },
            r == scan_result_spec(old(self)@),
            final(self)@ == scan_step_spec(old(self)@),
    {
        let ghost ks = self.keys_up@;
        let mut scan_code: Option<Key> = None;
        let ghost mut found_g: int = 0;
        let ghost mut found_b: int = 0;
        let mut g: usize = 0;
        while g < 8
            invariant
                self.wf(),
                self@ == old(self)@,
                ks == self.keys_up@,
                g <= 8,
                scan_code is None ==> forall|g2: int, b2: int|
                    #[trigger] pressed(ks, g2, b2) ==> g2 >= g,
                scan_code is Some ==> {
                    &&& pressed(ks, found_g, found_b)
                    &&& key_group_spec(scan_code.unwrap()) == found_g
                    &&& key_bit_spec(scan_code.unwrap()) as int == found_b
                    &&& found_g < g
                    &&& forall|g2: int, b2: int|
                        #[trigger] pressed(ks, g2, b2) && g2 < g ==> g2 == found_g && b2 == found_b
                },
            decreases 8 - g,
        {
            let group = self.keys_up[g];
            let mut b: usize = 0;
            while b < 7
                invariant
                    self.wf(),
                    self@ == old(self)@,
                    ks == self.keys_up@,
                    g < 8,
                    b <= 7,
                    group == ks[g as int],
                    scan_code is None ==> forall|g2: int, b2: int|
                        #[trigger] pressed(ks, g2, b2) ==> g2 > g || (g2 == g && b2 >= b),
                    scan_code is Some ==> {
                        &&& pressed(ks, found_g, found_b)
                        &&& key_group_spec(scan_code.unwrap()) == found_g
                        &&& key_bit_spec(scan_code.unwrap()) as int == found_b
                        &&& found_g < g || (found_g == g && found_b < b)
                        &&& forall|g2: int, b2: int|
                            #[trigger] pressed(ks, g2, b2) && (g2 < g || (g2 == g && b2 < b))
                                ==> g2 == found_g && b2 == found_b
                    },
                decreases 7 - b,
            {
                if group & (1u8 << (b as u8)) == 0 {
                    proof {
                        assert(pressed(ks, g as int, b as int));
                        assert(mapped(g as int, b as int));
                    }
                    if scan_code.is_some() {
                        // Two keys down: ambiguous, report nothing.
                        proof {
                            assert forall|k: Key|
                                !(#[trigger] unique_pressed(
                                    ks,
                                    key_group_spec(k),
                                    key_bit_spec(k) as int,
                                )) by {
                                if unique_pressed(ks, key_group_spec(k), key_bit_spec(k) as int) {
                                    assert(pressed(ks, found_g, found_b));
                                    assert(pressed(ks, g as int, b as int));
                                }
                            }
                        }
                        return None;
                    }
                    scan_code = Some(key_at(g, b as u8));
                    proof {
                        found_g = g as int;
                        found_b = b as int;
                    }
                }
                b += 1;
            }
            g += 1;
        }
        let can_repeat = match scan_code {
            Some(k) => is_repeatable(k),
            None => false,
        };
        let same = match (self.last_scan, scan_code) {
            (Some(a), Some(bk)) => a == bk,
            (None, None) => true,
            _ => false,
        };
        proof {
            if scan_code is Some {
                let k0 = scan_code.unwrap();
                assert forall|k: Key|
                    #[trigger] unique_pressed(
                        ks,
                        key_group_spec(k),
                        key_bit_spec(k) as int,
                    ) implies k == k0 by {
                    lemma_key_position_injective(k, k0);
                }
                assert(unique_pressed(ks, found_g, found_b));
            }
        }
        if same {
            if !can_repeat {
                // A held non-repeating key, or nothing down at all.
                return None;
            }
            if self.repeat_timer == 0 {
                // The countdown ran out: report the key again, and switch to
                // the shorter interval for repeats after the first.
                self.repeat_timer = if self.repeat_recurring {
                    0x0A
                } else {
                    0x32
                };
                self.repeat_recurring = true;
            } else {
                self.repeat_timer = self.repeat_timer - 1;
                return None;
            }
        } else {
            // A different key (or none) from the last scan: remember it and
            // start a fresh countdown.
            self.last_scan = scan_code;
            self.repeat_recurring = false;
            self.repeat_timer = 0x32;
        }
        scan_code
    }
}

} // verus!
