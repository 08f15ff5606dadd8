use tihle::keyboard::{key_bit, key_group, scan_code, Key, Keyboard};
use tihle::{InterruptController, Memory};

const PERIOD: u64 = 1_000_000_000 / 118;

#[test]
fn timer_fires_after_full_period() {
    let mut ic = InterruptController::new();
    assert_eq!(ic.read_status_port(), 0);
    ic.advance(PERIOD);
    assert_eq!(ic.read_status_port() & 0x02, 0x02);
    let (pending, next) = ic.poll();
    assert!(pending);
    assert_eq!(next, Some(PERIOD));
}

#[test]
fn mask_write_clears_pending_for_good() {
    let mut ic = InterruptController::new();
    ic.advance(PERIOD);
    assert_eq!(ic.read_status_port() & 0x02, 0x02);
    // Clear the Timer1 enable bit: pending reads back false.
    ic.write_mask_port(0x01);
    assert_eq!(ic.read_status_port() & 0x02, 0);
    // Re-enabling does not resurrect the cleared pending state.
    ic.write_mask_port(0x03);
    assert_eq!(ic.read_status_port() & 0x02, 0);
    assert_eq!(ic.read_mask_port(), 0x03);
}

#[test]
fn timer_countdown_is_partial() {
    let mut ic = InterruptController::new();
    ic.advance(PERIOD - 5);
    let (pending, next) = ic.poll();
    assert!(!pending);
    assert_eq!(next, Some(5));
    ic.advance(5);
    let (pending, _) = ic.poll();
    assert!(pending);
}

#[test]
fn timer_overshoot_reloads_whole_period() {
    let mut ic = InterruptController::new();
    ic.advance(10 * PERIOD);
    let (pending, next) = ic.poll();
    assert!(pending);
    assert_eq!(next, Some(PERIOD));
}

#[test]
fn on_key_pending_until_masked() {
    let mut ic = InterruptController::new();
    ic.on_pressed();
    assert!(ic.is_pending());
    assert_eq!(ic.read_status_port() & 0x01, 0x01);
    ic.write_mask_port(0x02);
    assert_eq!(ic.read_status_port() & 0x01, 0);
}

#[test]
fn single_key_scans_once_for_non_repeating() {
    let mut kb = Keyboard::new();
    kb.key_down(Key::Enter);
    assert_eq!(kb.scan(), Some(Key::Enter));
    // Held non-repeating key reports nothing on later scans.
    assert_eq!(kb.scan(), None);
    assert_eq!(kb.scan(), None);
}

#[test]
fn two_keys_scan_as_no_key() {
    let mut kb = Keyboard::new();
    kb.key_down(Key::Enter);
    kb.key_down(Key::Two);
    assert_eq!(kb.scan(), None);
}

#[test]
fn repeating_key_follows_countdown() {
    let mut kb = Keyboard::new();
    kb.key_down(Key::Up);
    assert_eq!(kb.scan(), Some(Key::Up));
    // The first repeat comes after the long countdown runs out.
    for i in 0..0x32 {
        assert_eq!(kb.scan(), None, "scan {} during first countdown", i);
    }
    assert_eq!(kb.scan(), Some(Key::Up));
    // The first repeat still restarts the long countdown; only the ones
    // after it use the shorter interval.
    for i in 0..0x32 {
        assert_eq!(kb.scan(), None, "scan {} during second countdown", i);
    }
    assert_eq!(kb.scan(), Some(Key::Up));
    for i in 0..0x0A {
        assert_eq!(kb.scan(), None, "scan {} during fast countdown", i);
    }
    assert_eq!(kb.scan(), Some(Key::Up));
}

#[test]
fn released_key_forgets_history() {
    let mut kb = Keyboard::new();
    kb.key_down(Key::Graph);
    assert_eq!(kb.scan(), Some(Key::Graph));
    kb.key_up(Key::Graph);
    assert_eq!(kb.scan(), None);
    kb.key_down(Key::Graph);
    assert_eq!(kb.scan(), Some(Key::Graph));
}

#[test]
fn matrix_read_is_active_low_per_group() {
    let mut kb = Keyboard::new();
    // Nothing pressed, no groups selected: all lines high.
    assert_eq!(kb.read(), 0xFF);
    kb.key_down(Key::Enter); // group 1, bit 0
    // Group 1 not selected: still all high.
    kb.set_active_mask(0xFF);
    assert_eq!(kb.read(), 0xFF);
    // Select group 1 by clearing its mask bit.
    kb.set_active_mask(!(1 << 1));
    assert_eq!(kb.read(), 0xFE);
    kb.key_up(Key::Enter);
    assert_eq!(kb.read(), 0xFF);
}

#[test]
fn scan_codes_follow_matrix_position() {
    assert_eq!(scan_code(Key::Down), 1);
    assert_eq!(scan_code(Key::Enter), 9);
    assert_eq!(scan_code(Key::Plus), 0x0A);
    assert_eq!(scan_code(Key::Del), 0x38);
    for k in [Key::Down, Key::Enter, Key::Store, Key::Del, Key::Alpha] {
        assert_eq!(
            scan_code(k),
            8 * key_group(k) as u8 + key_bit(k) + 1,
            "scan code of {:?}",
            k
        );
    }
}

#[test]
fn memory_range_spanning_windows_fails() {
    let mut mem = Memory::new();
    // A slice spanning bank A and RAM must fail, never silently concatenate.
    assert!(mem.read_range(0x7FF0, 0x8010).is_none());
    assert!(!mem.write_range(0x7FF0, &[0u8; 0x20]));
    // Spanning the fixed window and bank A fails too.
    assert!(mem.read_range(0x3FF0, 0x4010).is_none());
    // A slice within one window works.
    assert!(mem.write_range(0x9000, &[1, 2, 3]));
    let back = mem.read_range(0x9000, 0x9003).unwrap();
    assert_eq!(back, vec![1, 2, 3]);
}

#[test]
fn checked_writes_reject_read_only_windows() {
    let mut mem = Memory::new();
    assert!(mem.put(0x0100, 0xAA).is_err());
    assert!(mem.put(0x4100, 0xAA).is_err());
    assert!(mem.put(0x8100, 0xAA).is_ok());
    assert_eq!(mem.read(0x8100), 0xAA);
    // The refused writes changed nothing.
    assert_eq!(mem.read(0x0100), 0);
    assert_eq!(mem.read(0x4100), 0);
}

#[test]
fn bank_a_paging_wraps_at_page_count() {
    let mut mem = Memory::new();
    assert_eq!(mem.get_bank_a_page(), 0);
    mem.set_bank_a_page(5);
    assert_eq!(mem.get_bank_a_page(), 5);
    mem.set_bank_a_page(0x25);
    assert_eq!(mem.get_bank_a_page(), 5);
}

#[test]
fn paged_reads_see_the_named_page() {
    let mut mem = Memory::new();
    mem.load_flash_page(7, &[0x12, 0x34]);
    assert_eq!(mem.read_paged(7, 0x4000), 0x12);
    assert_eq!(mem.read_u16_paged(7, 0x4000), 0x3412);
    // The mapped window still shows page 0.
    assert_eq!(mem.read(0x4000), 0);
    mem.set_bank_a_page(7);
    assert_eq!(mem.read(0x4000), 0x12);
}

#[test]
fn sixteen_bit_access_is_little_endian() {
    let mut mem = Memory::new();
    mem.write_u16(0x9000, 0xBEEF);
    assert_eq!(mem.read(0x9000), 0xEF);
    assert_eq!(mem.read(0x9001), 0xBE);
    assert_eq!(mem.read_u16(0x9000), 0xBEEF);
}

#[test]
fn bit_seven_keys_are_invisible_to_scans() {
    let mut kb = Keyboard::new();
    kb.key_down(Key::Alpha);
    // The scan walks bits 0 through 6 of each group only, so a key on bit 7
    // never registers with it; the raw matrix read still sees it.
    assert_eq!(kb.scan(), None);
    kb.set_active_mask(!(1 << 5));
    assert_eq!(kb.read(), 0x7F);
}
