use vstd::prelude::*;

verus! {

broadcast use vstd::string::axiom_spec_iter;

/// The starting value of the text hash.
pub const HASH_SEED: u64 = 0xcbf2_9ce4_8422_2325;

/// The multiplier of the text hash.
pub const HASH_PRIME: u64 = 0x0000_0100_0000_01b3;

/// A hash of a text, folded over its characters from the first.
pub open spec fn text_hash(s: Seq<char>) -> u64
    decreases s.len(),
{
    if s.len() == 0 {
        HASH_SEED
    } else {
        (text_hash(s.drop_last()) ^ (s.last() as u64)).wrapping_mul(HASH_PRIME)
    }
}

/// Hashes the characters of `s`.
pub fn hash_text(s: &String) -> (r: u64)
    ensures
        r == text_hash(s@),
{
    let mut h: u64 = HASH_SEED;
    for c in it: s.as_str().chars()
        invariant
            it.seq() == s@,
            h == text_hash(s@.take(it.index() as int)),
    {
        proof {
            assert(s@.take(it.index() as int + 1).drop_last() =~= s@.take(it.index() as int));
        }
        h = (h ^ (c as u64)).wrapping_mul(HASH_PRIME);
    }
    assert(s@.take(s@.len() as int) =~= s@);
    h
}

} // verus!
