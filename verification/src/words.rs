//! The word source: a fixed, non-empty list of candidate words, and a
//! uniformly random choice of one of them.

use vstd::prelude::*;

verus! {

/// A word a session can be played with: non-empty and free of `'_'`, the
/// marker that stands for a letter not yet revealed.
pub open spec fn valid_word(w: Seq<char>) -> bool {
    &&& w.len() > 0
    &&& forall|i: int| 0 <= i < w.len() ==> w[i] != '_'
}

/// One of the twelve candidate words of the fixed list.
pub open spec fn is_candidate(w: Seq<char>) -> bool {
    ||| w == "cat"@
    ||| w == "dog"@
    ||| w == "horse"@
    ||| w == "monkey"@
    ||| w == "tiger"@
    ||| w == "rabbit"@
    ||| w == "eagle"@
    ||| w == "shark"@
    ||| w == "whale"@
    ||| w == "zebra"@
    ||| w == "lion"@
    ||| w == "panda"@
}

/// Relies on `rand::random_range`: a sample from a non-empty half-open
/// integer range lies in that range, hence strictly below the upper bound.
/// The range `0..n` is non-empty because `n > 0`, so the call cannot panic.
#[verifier::external_body]
pub(crate) fn random_index(n: usize) -> (r: usize)
    requires
        n > 0,
    ensures
        r < n,
{
    rand::random_range(0..n)
}

/// Appends one word to the candidate list, keeping every entry valid.
fn push_word(words: &mut Vec<String>, w: &str)
    requires
        valid_word(w@),
        forall|i: int| 0 <= i < old(words)@.len() ==> valid_word(#[trigger] old(words)@[i]@),
    ensures
        final(words)@.len() == old(words)@.len() + 1,
        forall|i: int| 0 <= i < old(words)@.len() ==> final(words)@[i] == old(words)@[i],
        final(words)@[old(words)@.len() as int]@ == w@,
        forall|i: int| 0 <= i < final(words)@.len() ==> valid_word(#[trigger] final(words)@[i]@),
{
    let s = String::from_str(w);
    words.push(s);
}

/// The fixed candidate list. It is built afresh on each call, but its
/// contents never change: these twelve words, in this order, every one of
/// them valid.
pub fn word_list() -> (words: Vec<String>)
    ensures
        words@.len() == 12,
        forall|i: int| 0 <= i < words@.len() ==> valid_word(#[trigger] words@[i]@),
        words@[0]@ == "cat"@,
        words@[1]@ == "dog"@,
        words@[2]@ == "horse"@,
        words@[3]@ == "monkey"@,
        words@[4]@ == "tiger"@,
        words@[5]@ == "rabbit"@,
        words@[6]@ == "eagle"@,
        words@[7]@ == "shark"@,
        words@[8]@ == "whale"@,
        words@[9]@ == "zebra"@,
        words@[10]@ == "lion"@,
        words@[11]@ == "panda"@,
{
    proof {
        reveal_strlit("cat");
        reveal_strlit("dog");
        reveal_strlit("horse");
        reveal_strlit("monkey");
        reveal_strlit("tiger");
        reveal_strlit("rabbit");
        reveal_strlit("eagle");
        reveal_strlit("shark");
        reveal_strlit("whale");
        reveal_strlit("zebra");
        reveal_strlit("lion");
        reveal_strlit("panda");
    }
    let mut words: Vec<String> = Vec::new();
    push_word(&mut words, "cat");
    push_word(&mut words, "dog");
    push_word(&mut words, "horse");
    push_word(&mut words, "monkey");
    push_word(&mut words, "tiger");
    push_word(&mut words, "rabbit");
    push_word(&mut words, "eagle");
    push_word(&mut words, "shark");
    push_word(&mut words, "whale");
    push_word(&mut words, "zebra");
    push_word(&mut words, "lion");
    push_word(&mut words, "panda");
    words
}

} // verus!
