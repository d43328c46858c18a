//! The game session: its state, its invariant, and the transition that one
//! submitted guess makes on that state.

use vstd::prelude::*;

use crate::words::is_candidate;
use crate::words::random_index;
use crate::words::valid_word;
use crate::words::word_list;

verus! {

/// One letter of the word that is still to be found: the character and the
/// position it occupies in the word.
#[derive(Clone, Copy, PartialEq, Eq, Structural, Debug)]
pub struct Letter(pub char, pub usize);

impl Letter {
    /// A copy of this letter.
    fn new(&self) -> (r: Self)
        ensures
            r == *self,
    {
        Letter(self.0, self.1)
    }
}

/// What one submitted guess did to the session.
#[derive(Clone, Copy, PartialEq, Eq, Structural, Debug)]
pub enum Outcome {
    /// The input had more than one character: a free turn, nothing changed.
    TooManyLetters,
    /// The guessed character occurs in the word: every occurrence of it was
    /// revealed at once.
    Revealed,
    /// The guess was wrong: exactly one life was lost, nothing was revealed.
    LifeLost,
}

/// Whether the character `c` occurs anywhere in `w`.
pub open spec fn contains_char(w: Seq<char>, c: char) -> bool {
    exists|i: int| 0 <= i < w.len() && w[i] == c
}

/// The display slots after a correct guess of `c`: every position where the
/// word holds `c` shows `c`, every other position keeps its old slot.
pub open spec fn revealed_after(word: Seq<char>, guess: Seq<char>, c: char) -> Seq<char> {
    Seq::new(guess.len(), |i: int| if word[i] == c { c } else { guess[i] })
}

/// The letters still to be found after a correct guess of `c`: every entry
/// that carries `c` is removed, the rest keep their order.
pub open spec fn remaining_after(left: Seq<Letter>, c: char) -> Seq<Letter> {
    left.filter(|l: Letter| l.0 != c)
}

/// One hangman session.
pub struct Game {
    /// Lives that are left, between 0 and 6.
    pub lives: u8,
    /// The word to be guessed; it never changes during the session.
    pub word: String,
    /// One display slot per letter of the word: `'_'` while the letter is
    /// hidden, the letter itself once revealed.
    pub guess: Vec<char>,
    /// The (character, position) pairs not yet guessed, in word order.
    pub left: Vec<Letter>,
}

impl Game {
    /// The session invariant: the word is playable, the display slots mirror
    /// the word one to one, and `left` holds exactly the hidden positions.
    pub open spec fn wf(self) -> bool {
        &&& self.lives <= 6
        &&& valid_word(self.word@)
        &&& self.guess@.len() == self.word@.len()
        &&& forall|k: int|
            0 <= k < self.left@.len() ==> (#[trigger] self.left@[k]).1 < self.word@.len()
                && self.left@[k].0 == self.word@[self.left@[k].1 as int]
        &&& forall|k1: int, k2: int|
            0 <= k1 < k2 < self.left@.len() ==> (#[trigger] self.left@[k1]).1
                != (#[trigger] self.left@[k2]).1
        &&& forall|i: int|
            0 <= i < self.word@.len() ==> ((#[trigger] self.guess@[i]) == '_' <==> exists|k: int|
                0 <= k < self.left@.len() && (#[trigger] self.left@[k]).1 == i)
        &&& forall|i: int|
            0 <= i < self.word@.len() && (#[trigger] self.guess@[i]) != '_' ==> self.guess@[i]
                == self.word@[i]
    }

    /// The session is lost: no lives are left.
    pub open spec fn spec_is_lost(self) -> bool {
        self.lives == 0
    }

    /// The session is won: every letter was found while lives were left.
    pub open spec fn spec_is_won(self) -> bool {
        self.left@.len() == 0 && self.lives > 0
    }

    /// The session is over, won or lost.
    pub open spec fn spec_is_finished(self) -> bool {
        self.lives == 0 || self.left@.len() == 0
    }

    /// Whether the session is lost.
    pub fn is_lost(&self) -> (r: bool)
        ensures
            r == self.spec_is_lost(),
    {
        self.lives == 0
    }

    /// Whether the session is won.
    pub fn is_won(&self) -> (r: bool)
        ensures
            r == self.spec_is_won(),
    {
        self.left.len() == 0 && self.lives > 0
    }

    /// Whether the session is over, won or lost.
    pub fn is_finished(&self) -> (r: bool)
        ensures
            r == self.spec_is_finished(),
    {
        self.lives == 0 || self.left.len() == 0
    }

    /// A fresh session over the given word: six lives, every display slot
    /// blank, and every (character, position) pair of the word still to find.
    pub fn new(word: String) -> (g: Game)
        requires
            valid_word(word@),
        ensures
            g.wf(),
            g.lives == 6,
            g.word@ == word@,
            g.guess@.len() == word@.len(),
            forall|i: int| 0 <= i < g.guess@.len() ==> g.guess@[i] == '_',
            g.left@.len() == word@.len(),
            forall|k: int|
                0 <= k < g.left@.len() ==> (#[trigger] g.left@[k]).0 == word@[k]
                    && g.left@[k].1 == k,
    {
        let lives: u8 = 6;
        let n = word.as_str().unicode_len();
        let mut guess: Vec<char> = Vec::new();
        let mut i: usize = 0;
        while i < n
            invariant
                i <= n,
                guess@.len() == i,
                forall|j: int| 0 <= j < i ==> guess@[j] == '_',
            decreases n - i,
        {
            guess.push('_');
            i = i + 1;
        }
        let mut left: Vec<Letter> = Vec::new();
        let mut p: usize = 0;
        while p < n
            invariant
                p <= n,
                n == word@.len(),
                left@.len() == p,
                forall|k: int|
                    0 <= k < p ==> (#[trigger] left@[k]).0 == word@[k] && left@[k].1 == k,
            decreases n - p,
        {
            let c = word.as_str().get_char(p);
            left.push(Letter(c, p));
            p = p + 1;
        }
        let g = Game { lives, word, guess, left };
        proof {
            assert forall|i2: int| 0 <= i2 < g.word@.len() implies ((#[trigger] g.guess@[i2])
                == '_' <==> exists|k: int|
                0 <= k < g.left@.len() && (#[trigger] g.left@[k]).1 == i2) by {
                assert(g.left@[i2].1 == i2);
            }
        }
        g
    }

    /// A fresh session over a word chosen at random from the candidate list.
    pub fn instance() -> (g: Game)
        ensures
            g.wf(),
            g.lives == 6,
            is_candidate(g.word@),
            g.guess@.len() == g.word@.len(),
            forall|i: int| 0 <= i < g.guess@.len() ==> g.guess@[i] == '_',
            g.left@.len() == g.word@.len(),
            forall|k: int|
                0 <= k < g.left@.len() ==> (#[trigger] g.left@[k]).0 == g.word@[k]
                    && g.left@[k].1 == k,
    {
        let word = Game::random_word();
        Game::new(word)
    }

    /// One of the candidate words, chosen at random. Whatever the choice,
    /// the word is a member of the fixed list, and so playable: non-empty
    /// and without the blank marker.
    pub fn random_word() -> (w: String)
        ensures
            valid_word(w@),
            is_candidate(w@),
    {
        let words = word_list();
        let rand_index = random_index(words.len());
        let rand_word = &words[rand_index];
        rand_word.clone()
    }

    /// Whether the input counts as a correct guess: exactly one character,
    /// and that character occurs in the word. An empty input is never
    /// correct, so it costs a life like any wrong guess.
    pub fn is_correct_letter(&self, letter: &str) -> (r: bool)
        ensures
            r == (letter@.len() == 1 && contains_char(self.word@, letter@[0])),
    {
        if letter.unicode_len() != 1 {
            return false;
        }
        let c = letter.get_char(0);
        let n = self.word.as_str().unicode_len();
        let mut i: usize = 0;
        while i < n
            invariant
                i <= n,
                n == self.word@.len(),
                letter@.len() == 1,
                c == letter@[0],
                forall|j: int| 0 <= j < i ==> self.word@[j] != c,
            decreases n - i,
        {
            if self.word.as_str().get_char(i) == c {
                return true;
            }
            i = i + 1;
        }
        false
    }

    /// Takes one life. The rest of the session is untouched.
    pub fn decrease_live(&mut self)
        requires
            old(self).lives > 0,
        ensures
            final(self).lives == old(self).lives - 1,
            final(self).word@ == old(self).word@,
            final(self).guess@ == old(self).guess@,
            final(self).left@ == old(self).left@,
    {
        self.lives = self.lives - 1;
    }

    /// Shows one found letter in its display slot. The word, the lives and
    /// the letters still to find are untouched.
    pub fn update_guess(&mut self, letter: &Letter)
        requires
            letter.1 < old(self).guess@.len(),
        ensures
            final(self).guess@ == old(self).guess@.update(letter.1 as int, letter.0),
            final(self).word@ == old(self).word@,
            final(self).lives == old(self).lives,
            final(self).left@ == old(self).left@,
    {
        let chr = letter.0;
        let pos = letter.1;
        let n = self.guess.len();
        let mut updated: Vec<char> = Vec::new();
        let mut i: usize = 0;
        while i < n
            invariant
                i <= n,
                n == self.guess@.len(),
                pos < n,
                updated@.len() == i,
                forall|j: int|
                    0 <= j < i ==> #[trigger] updated@[j] == (if j == pos as int {
                        chr
                    } else {
                        self.guess@[j]
                    }),
            decreases n - i,
        {
            if i == pos {
                updated.push(chr);
            } else {
                updated.push(self.guess[i]);
            }
            i = i + 1;
        }
        self.guess = updated;
        proof {
            assert(self.guess@ =~= old(self).guess@.update(pos as int, chr));
        }
    }

    /// A correct guess: removes every entry that carries the guessed
    /// character — the first character of `letter` — from the letters still
    /// to find, and reveals each of their display slots. Lives and word are
    /// untouched.
    pub fn remove_from_left(&mut self, letter: &str)
        requires
            old(self).wf(),
            letter@.len() >= 1,
        ensures
            final(self).wf(),
            final(self).lives == old(self).lives,
            final(self).word@ == old(self).word@,
            final(self).left@ == remaining_after(old(self).left@, letter@[0]),
            final(self).guess@ == revealed_after(old(self).word@, old(self).guess@, letter@[0]),
    {
        let ghost old_left = self.left@;
        let ghost old_guess = self.guess@;
        let ghost w = self.word@;
        let c = letter.get_char(0);
        let mut kept: Vec<Letter> = Vec::new();
        let mut removed: Vec<Letter> = Vec::new();
        let n = self.left.len();
        let mut k: usize = 0;
        while k < n
            invariant
                k <= n,
                n == old_left.len(),
                self.left@ == old_left,
                self.guess@ == old_guess,
                self.word@ == w,
                c == letter@[0],
                old(self).wf(),
                old_left == old(self).left@,
                old_guess == old(self).guess@,
                w == old(self).word@,
                kept@ == remaining_after(old_left.subrange(0, k as int), c),
                forall|j: int|
                    0 <= j < removed@.len() ==> (#[trigger] removed@[j]).0 == c
                        && removed@[j].1 < w.len() && w[removed@[j].1 as int] == c
                        && old_guess[removed@[j].1 as int] == '_',
                forall|m: int|
                    0 <= m < k && (#[trigger] old_left[m]).0 == c ==> removed@.contains(
                        old_left[m],
                    ),
            decreases n - k,
        {
            let l = self.left[k];
            proof {
                assert(old_left.subrange(0, k as int + 1).drop_last() =~= old_left.subrange(
                    0,
                    k as int,
                ));
                assert(old_left.subrange(0, k as int + 1).last() == old_left[k as int]);
                reveal(Seq::filter);
                if old_left[k as int].1 < w.len() {
                    assert(old_guess[old_left[k as int].1 as int] == '_');
                }
            }
            let ghost removed_pre = removed@;
            if l.0 == c {
                removed.push(l.new());
            } else {
                kept.push(l.new());
            }
            proof {
                assert forall|m: int|
                    0 <= m < k + 1 && (#[trigger] old_left[m]).0 == c implies removed@.contains(
                    old_left[m],
                ) by {
                    if m < k {
                        assert(removed_pre.contains(old_left[m]));
                        let idx = choose|idx: int|
                            0 <= idx < removed_pre.len() && removed_pre[idx] == old_left[m];
                        assert(removed@[idx] == old_left[m]);
                    } else {
                        assert(removed@[removed@.len() - 1] == old_left[k as int]);
                    }
                }
            }
            k = k + 1;
        }
        proof {
            assert(old_left.subrange(0, n as int) =~= old_left);
        }
        self.left = kept;
        let ghost removed_all = removed@;
        let nr = removed.len();
        let mut j: usize = 0;
        while j < nr
            invariant
                j <= nr,
                nr == removed_all.len(),
                removed@ == removed_all,
                self.left@ == remaining_after(old_left, c),
                self.word@ == w,
                self.lives == old(self).lives,
                self.guess@.len() == old_guess.len(),
                old_guess.len() == w.len(),
                forall|jj: int|
                    0 <= jj < removed_all.len() ==> (#[trigger] removed_all[jj]).0 == c
                        && removed_all[jj].1 < w.len() && w[removed_all[jj].1 as int] == c
                        && old_guess[removed_all[jj].1 as int] == '_',
                forall|i: int|
                    0 <= i < old_guess.len() ==> #[trigger] self.guess@[i] == (
                    if exists|jj: int| 0 <= jj < j && (#[trigger] removed_all[jj]).1 == i {
                        c
                    } else {
                        old_guess[i]
                    }),
            decreases nr - j,
        {
            let letter_found = removed[j].new();
            self.update_guess(&letter_found);
            proof {
                assert forall|i: int| 0 <= i < old_guess.len() implies #[trigger] self.guess@[i]
                    == (if exists|jj: int|
                    0 <= jj < j + 1 && (#[trigger] removed_all[jj]).1 == i {
                    c
                } else {
                    old_guess[i]
                }) by {
                    if i == removed_all[j as int].1 as int {
                        assert(removed_all[j as int].1 == i);
                    } else {
                        if exists|jj: int| 0 <= jj < j + 1 && (#[trigger] removed_all[jj]).1
                            == i {
                            let jj = choose|jj: int|
                                0 <= jj < j + 1 && (#[trigger] removed_all[jj]).1 == i;
                            assert(jj < j);
                        }
                    }
                }
            }
            j = j + 1;
        }
        proof {
            lemma_remaining_after_structure(old_left, c);
            let fin = self.left@;
            assert forall|i: int| 0 <= i < w.len() implies #[trigger] self.guess@[i]
                == revealed_after(w, old_guess, c)[i] by {
                if w[i] == c {
                    if old_guess[i] == '_' {
                        let m = choose|m: int|
                            0 <= m < old_left.len() && (#[trigger] old_left[m]).1 == i;
                        assert(removed_all.contains(old_left[m]));
                        let jj = choose|jj: int|
                            0 <= jj < removed_all.len() && removed_all[jj] == old_left[m];
                        assert(removed_all[jj].1 == i);
                    } else {
                        assert(old_guess[i] == w[i]);
                        assert forall|jj: int|
                            0 <= jj < removed_all.len() implies (#[trigger] removed_all[jj]).1
                            != i by {
                            assert(old_guess[removed_all[jj].1 as int] == '_');
                        }
                    }
                } else {
                    assert forall|jj: int|
                        0 <= jj < removed_all.len() implies (#[trigger] removed_all[jj]).1
                        != i by {
                        assert(w[removed_all[jj].1 as int] == c);
                    }
                }
            }
            assert(self.guess@ =~= revealed_after(w, old_guess, c));
            assert forall|i: int| 0 <= i < w.len() implies ((#[trigger] self.guess@[i]) == '_'
                <==> exists|kk: int| 0 <= kk < fin.len() && (#[trigger] fin[kk]).1 == i) by {
                if self.guess@[i] == '_' {
                    assert(w[i] != c || old_guess[i] != '_');
                    assert(old_guess[i] == '_');
                    let m = choose|m: int|
                        0 <= m < old_left.len() && (#[trigger] old_left[m]).1 == i;
                    assert(old_left[m].0 == w[i]);
                    assert(old_left[m].0 != c);
                    assert(fin.contains(old_left[m]));
                    let kk = choose|kk: int| 0 <= kk < fin.len() && fin[kk] == old_left[m];
                    assert(fin[kk].1 == i);
                } else {
                    assert forall|kk: int| 0 <= kk < fin.len() implies (#[trigger] fin[kk]).1
                        != i by {
                        assert(old_left.contains(fin[kk]));
                        assert(fin[kk].0 != c);
                        if fin[kk].1 == i {
                            let m = choose|m: int|
                                0 <= m < old_left.len() && old_left[m] == fin[kk];
                            assert(old_guess[i] == '_');
                            assert(w[i] != c);
                            assert(self.guess@[i] == old_guess[i]);
                        }
                    }
                }
            }
            assert forall|kk: int| 0 <= kk < fin.len() implies (#[trigger] fin[kk]).1 < w.len()
                && fin[kk].0 == w[fin[kk].1 as int] by {
                assert(old_left.contains(fin[kk]));
                let m = choose|m: int| 0 <= m < old_left.len() && old_left[m] == fin[kk];
                assert(old_left[m].1 < w.len());
            }
        }
    }

    /// One submitted guess, already read and trimmed by the caller. An input
    /// of more than one character is a free turn and changes nothing. A
    /// single character that occurs in the word reveals every one of its
    /// occurrences and costs nothing. Anything else — a single character
    /// that does not occur, or an empty input — costs exactly one life and
    /// reveals nothing.
    pub fn apply_guess(&mut self, input: &str) -> (r: Outcome)
        requires
            old(self).wf(),
            old(self).lives > 0,
        ensures
            final(self).wf(),
            final(self).word@ == old(self).word@,
            final(self).lives <= old(self).lives,
            input@.len() > 1 ==> {
                &&& r == Outcome::TooManyLetters
                &&& final(self).lives == old(self).lives
                &&& final(self).guess@ == old(self).guess@
                &&& final(self).left@ == old(self).left@
            },
            input@.len() == 1 && contains_char(old(self).word@, input@[0]) ==> {
                &&& r == Outcome::Revealed
                &&& final(self).lives == old(self).lives
                &&& final(self).guess@ == revealed_after(
                    old(self).word@,
                    old(self).guess@,
                    input@[0],
                )
                &&& final(self).left@ == remaining_after(old(self).left@, input@[0])
            },
            input@.len() <= 1 && !(input@.len() == 1 && contains_char(old(self).word@, input@[0]))
                ==> {
                &&& r == Outcome::LifeLost
                &&& final(self).lives == old(self).lives - 1
                &&& final(self).guess@ == old(self).guess@
                &&& final(self).left@ == old(self).left@
            },
    {
        if input.unicode_len() > 1 {
            return Outcome::TooManyLetters;
        }
        if self.is_correct_letter(input) {
            self.remove_from_left(input);
            Outcome::Revealed
        } else {
            self.decrease_live();
            Outcome::LifeLost
        }
    }
}

/// Structure of `remaining_after`: every entry it keeps comes from the old
/// sequence and does not carry the removed character, every old entry with
/// another character is kept, and distinct positions stay distinct.
proof fn lemma_remaining_after_structure(s: Seq<Letter>, c: char)
    ensures
        forall|j: int|
            0 <= j < remaining_after(s, c).len() ==> s.contains(
                #[trigger] remaining_after(s, c)[j],
            ) && remaining_after(s, c)[j].0 != c,
        forall|m: int|
            0 <= m < s.len() && (#[trigger] s[m]).0 != c ==> remaining_after(s, c).contains(s[m]),
        remaining_after(s, c).len() <= s.len(),
        (forall|k1: int, k2: int|
            0 <= k1 < k2 < s.len() ==> (#[trigger] s[k1]).1 != (#[trigger] s[k2]).1) ==> (
        forall|k1: int, k2: int|
            0 <= k1 < k2 < remaining_after(s, c).len() ==> (#[trigger] remaining_after(s, c)[k1]).1
                != (#[trigger] remaining_after(s, c)[k2]).1),
    decreases s.len(),
{
    broadcast use vstd::seq_lib::group_filter_ensures;

    reveal(Seq::filter);
    let r = remaining_after(s, c);
    if s.len() > 0 {
        let t = s.drop_last();
        lemma_remaining_after_structure(t, c);
        let rt = remaining_after(t, c);
        if s.last().0 != c {
            assert(r == rt.push(s.last()));
        } else {
            assert(r == rt);
        }
        assert forall|j: int| 0 <= j < r.len() implies s.contains(#[trigger] r[j]) && r[j].0
            != c by {
            if j < rt.len() {
                assert(t.contains(rt[j]));
                let m = choose|m: int| 0 <= m < t.len() && t[m] == rt[j];
                assert(s[m] == r[j]);
            } else {
                assert(r[j] == s[s.len() - 1]);
            }
        }
        if forall|k1: int, k2: int|
            0 <= k1 < k2 < s.len() ==> (#[trigger] s[k1]).1 != (#[trigger] s[k2]).1 {
            assert forall|k1: int, k2: int| 0 <= k1 < k2 < r.len() implies (#[trigger] r[k1]).1 != (
            #[trigger] r[k2]).1 by {
                if k2 < rt.len() {
                    assert(rt[k1].1 != rt[k2].1);
                } else {
                    assert(r[k2] == s[s.len() - 1]);
                    assert(t.contains(rt[k1]));
                    let m = choose|m: int| 0 <= m < t.len() && t[m] == rt[k1];
                    assert(s[m] == r[k1]);
                    assert(s[m].1 != s[s.len() - 1].1);
                }
            }
        }
    }
}

/// Once the lives are gone the session is finished: lives are counted in an
/// unsigned number, so they can never fall below zero, and a session whose
/// lives reached zero is over whatever is left to guess.
pub proof fn lemma_no_lives_is_terminal(g: Game)
    ensures
        g.lives >= 0,
        g.lives == 0 ==> g.spec_is_finished(),
{
}

/// A correct guess reveals every occurrence of the guessed character at
/// once, not only the first, and leaves every other display slot as it was.
pub proof fn lemma_reveals_all_occurrences(word: Seq<char>, guess: Seq<char>, c: char)
    requires
        guess.len() == word.len(),
    ensures
        forall|i: int|
            0 <= i < word.len() && word[i] == c ==> revealed_after(word, guess, c)[i] == c,
        forall|i: int|
            0 <= i < word.len() && word[i] != c ==> revealed_after(word, guess, c)[i] == guess[i],
{
}

} // verus!
