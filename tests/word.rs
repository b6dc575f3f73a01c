use deet::word::{align_addr_to_word, get_byte, splice_byte, TRAP_BYTE};

#[test]
fn align_rounds_down_to_word_start() {
    assert_eq!(align_addr_to_word(0x1000), 0x1000);
    assert_eq!(align_addr_to_word(0x1007), 0x1000);
    assert_eq!(align_addr_to_word(0x1008), 0x1008);
    assert_eq!(align_addr_to_word(13), 8);
    assert_eq!(align_addr_to_word(usize::MAX), usize::MAX - 7);
}

#[test]
fn get_byte_reads_from_least_significant_end() {
    let w: u64 = 0x0807_0605_0403_0201;
    assert_eq!(get_byte(w, 0), 0x01);
    assert_eq!(get_byte(w, 3), 0x04);
    assert_eq!(get_byte(w, 7), 0x08);
}

#[test]
fn splice_replaces_one_byte_and_returns_the_old_one() {
    let w: u64 = 0x1122_3344_5566_7788;
    assert_eq!(splice_byte(w, 0, TRAP_BYTE), (0x1122_3344_5566_77cc, 0x88));
    assert_eq!(splice_byte(w, 5, TRAP_BYTE), (0x1122_cc44_5566_7788, 0x33));
    assert_eq!(splice_byte(w, 7, 0x00), (0x0022_3344_5566_7788, 0x11));
}

#[test]
fn trap_then_restore_gives_back_the_word() {
    let w: u64 = 0xdead_beef_0bad_f00d;
    for k in 0..8 {
        let (patched, orig) = splice_byte(w, k, TRAP_BYTE);
        assert_eq!(get_byte(patched, k), TRAP_BYTE);
        let (restored, trap) = splice_byte(patched, k, orig);
        assert_eq!(trap, TRAP_BYTE);
        assert_eq!(restored, w);
    }
}
