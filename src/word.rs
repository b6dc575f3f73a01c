//! Byte-level patches over machine words, the unit in which a traced
//! process's memory is read and written.

use vstd::prelude::*;

verus! {

/// Number of bytes in one machine word.
pub const WORD_BYTES: usize = 8;

/// The single-byte trap instruction written at a breakpoint.
pub const TRAP_BYTE: u8 = 0xcc;

/// Start of the word that holds `addr`.
pub open spec fn word_start(addr: int) -> int {
    addr - addr % (WORD_BYTES as int)
}

/// Byte `k` (counted from the least significant end) of `w`.
pub open spec fn byte_of(w: u64, k: int) -> u8 {
    ((w >> ((8 * k) as u64)) & 0xff) as u8
}

/// `w` with byte `k` replaced by `b`, all other bytes kept.
pub open spec fn with_byte(w: u64, k: int, b: u8) -> u64 {
    (w & !(0xffu64 << ((8 * k) as u64))) | ((b as u64) << ((8 * k) as u64))
}

/// Rounds `addr` down to the start of the machine word that contains it.
pub fn align_addr_to_word(addr: usize) -> (r: usize)
    ensures
        r == word_start(addr as int),
        r <= addr,
        r % WORD_BYTES == 0,
        addr - r < WORD_BYTES,
{
    assert(addr & !7usize == addr - addr % 8) by (bit_vector);
    addr & !7usize
}

/// Reads byte `k` of `w`.
pub fn get_byte(w: u64, k: usize) -> (r: u8)
    requires
        k < WORD_BYTES,
    ensures
        r == byte_of(w, k as int),
{
    ((w >> (8 * k as u64)) & 0xff) as u8
}

/// Replaces byte `k` of `w` by `b`; returns the new word and the byte it replaced.
pub fn splice_byte(w: u64, k: usize, b: u8) -> (r: (u64, u8))
    requires
        k < WORD_BYTES,
    ensures
        r.0 == with_byte(w, k as int, b),
        r.1 == byte_of(w, k as int),
        byte_of(r.0, k as int) == b,
        forall|j: int| 0 <= j < WORD_BYTES && j != k ==> byte_of(r.0, j) == byte_of(w, j),
{
    let s: u64 = 8 * k as u64;
    let orig = get_byte(w, k);
    let masked = w & !(0xffu64 << s);
    let updated = masked | ((b as u64) << s);
    proof {
        lemma_with_byte_bytes(w, k as int, b);
    }
    (updated, orig)
}

/// Reading back a spliced byte gives the byte written; the other bytes of the
/// word are those of the original word.
pub proof fn lemma_with_byte_bytes(w: u64, k: int, b: u8)
    requires
        0 <= k < WORD_BYTES,
    ensures
        byte_of(with_byte(w, k, b), k) == b,
        forall|j: int| 0 <= j < WORD_BYTES && j != k ==> #[trigger] byte_of(with_byte(w, k, b), j) == byte_of(w, j),
{
    let s = (8 * k) as u64;
    let bb = b as u64;
    assert(bb < 256);
    assert(s <= 56 && s % 8 == 0);
    assert(((((w & !(0xffu64 << s)) | (bb << s)) >> s) & 0xff) == bb) by (bit_vector)
        requires s <= 56, bb < 256;
    assert forall|j: int| 0 <= j < WORD_BYTES && j != k implies #[trigger] byte_of(with_byte(w, k, b), j) == byte_of(w, j) by {
        let t = (8 * j) as u64;
        assert(t < 64 && t % 8 == 0 && t != s);
        assert(((((w & !(0xffu64 << s)) | (bb << s)) >> t) & 0xff) == ((w >> t) & 0xff)) by (bit_vector)
            requires s < 64, t < 64, bb < 256, s % 8 == 0, t % 8 == 0, s != t;
    }
}

/// Writing a byte into a word and then writing back the byte it replaced
/// restores the whole word: installing a breakpoint (the trap byte) and then
/// disarming it (the saved byte) leaves memory as it was before the install.
pub proof fn lemma_splice_round_trip(w: u64, k: int, b: u8)
    requires
        0 <= k < WORD_BYTES,
    ensures
        with_byte(with_byte(w, k, b), k, byte_of(w, k)) == w,
{
    let s = (8 * k) as u64;
    assert(s < 64);
    assert((((w & !(0xffu64 << s)) | ((b as u64) << s)) & !(0xffu64 << s)) | ((((w >> s) & 0xff) as u8 as u64) << s) == w) by (bit_vector)
        requires s < 64;
}

} // verus!
