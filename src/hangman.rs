//! The letter-guessing game's rules.

use vstd::prelude::*;
use rand::Rng;

verus! {

/// Character that marks a letter of the secret word already guessed.
pub const GUESSED_MARK: char = '-';

/// Relies on `rand::thread_rng` and `Rng::gen_range` over `0..n`, which
/// returns an index below `n` (and panics on an empty range, hence `n > 0`).
#[verifier::external_body]
fn random_index(n: usize) -> (r: usize)
    requires
        n > 0,
    ensures
        r < n,
{
    rand::thread_rng().gen_range(0..n)
}

/// One of `words`, chosen at random.
pub fn pick_a_random_word(words: &Vec<String>) -> (r: String)
    requires
        words.len() > 0,
    ensures
        exists|i: int| 0 <= i < words.len() && r@ == words@[i]@,
{
    let i = random_index(words.len());
    words[i].clone()
}

/// Looks for `ch` among the letters not yet guessed; the first such letter is
/// marked as guessed and its index returned.
pub fn check(secret_word_chars: &mut Vec<char>, ch: char) -> (r: Option<usize>)
    ensures
        match r {
            Some(i) => {
                &&& i < old(secret_word_chars).len()
                &&& old(secret_word_chars)@[i as int] == ch
                &&& forall|k: int| 0 <= k < i ==> old(secret_word_chars)@[k] != ch
                &&& final(secret_word_chars)@ == old(secret_word_chars)@.update(i as int, GUESSED_MARK)
            },
            None => {
                &&& forall|k: int|
                    0 <= k < old(secret_word_chars).len() ==> old(secret_word_chars)@[k] != ch
                &&& final(secret_word_chars)@ == old(secret_word_chars)@
            },
        },
{
    let mut i: usize = 0;
    while i < secret_word_chars.len()
        invariant
            i <= secret_word_chars.len(),
            secret_word_chars@ == old(secret_word_chars)@,
            forall|k: int| 0 <= k < i ==> secret_word_chars@[k] != ch,
        decreases secret_word_chars.len() - i,
    {
        if secret_word_chars[i] == ch {
            secret_word_chars.set(i, GUESSED_MARK);
            return Some(i);
        }
        i = i + 1;
    }
    None
}

} // verus!
