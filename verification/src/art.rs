//! Rendering of the session as text: the gallows drawing that belongs to
//! the number of lives left, and the row of display slots.

use vstd::prelude::*;

use crate::game::Game;

verus! {

/// The gallows with six lives left: an empty scaffold.
pub const ART_SIX: &'static str = "
  \u{250c}\u{2500}\u{2500}\u{2500}\u{2500}\u{2500}\u{2510}
  \u{2502}     \u{2502}
        \u{2502}
        \u{2502}
        \u{2502}
        \u{2502}
        \u{2502}
        \u{2502}
   \u{2500}\u{2500}\u{2500}\u{2500}\u{2500}\u{2534}\u{2500}\u{2500}\u{2500}\u{2500}\u{2500}
";

pub const ART_FIVE: &'static str = "
  \u{250c}\u{2500}\u{2500}\u{2500}\u{2500}\u{2500}\u{2510}
  \u{2502}     \u{2502}
 \u{250c}\u{2534}\u{2510}    \u{2502}
 \u{2514}\u{252c}\u{2518}    \u{2502}
        \u{2502}
        \u{2502}
        \u{2502}
        \u{2502}
   \u{2500}\u{2500}\u{2500}\u{2500}\u{2500}\u{2534}\u{2500}\u{2500}\u{2500}\u{2500}\u{2500}
";

pub const ART_FOUR: &'static str = "
  \u{250c}\u{2500}\u{2500}\u{2500}\u{2500}\u{2500}\u{2510}
  \u{2502}     \u{2502}
 \u{250c}\u{2534}\u{2510}    \u{2502}
 \u{2514}\u{252c}\u{2518}    \u{2502}
  \u{253c}     \u{2502}
  \u{2502}     \u{2502}
        \u{2502}
        \u{2502}
   \u{2500}\u{2500}\u{2500}\u{2500}\u{2500}\u{2534}\u{2500}\u{2500}\u{2500}\u{2500}\u{2500}
";

pub const ART_THREE: &'static str = "
  \u{250c}\u{2500}\u{2500}\u{2500}\u{2500}\u{2500}\u{2510}
  \u{2502}     \u{2502}
 \u{250c}\u{2534}\u{2510}    \u{2502}
 \u{2514}\u{252c}\u{2518}    \u{2502}
\u{2500}\u{2500}\u{253c}     \u{2502}
  \u{2502}     \u{2502}
        \u{2502}
        \u{2502}
   \u{2500}\u{2500}\u{2500}\u{2500}\u{2500}\u{2534}\u{2500}\u{2500}\u{2500}\u{2500}\u{2500}
";

pub const ART_TWO: &'static str = "
  \u{250c}\u{2500}\u{2500}\u{2500}\u{2500}\u{2500}\u{2510}
  \u{2502}     \u{2502}
 \u{250c}\u{2534}\u{2510}    \u{2502}
 \u{2514}\u{252c}\u{2518}    \u{2502}
\u{2500}\u{2500}\u{253c}\u{2500}\u{2500}   \u{2502}
  \u{2502}     \u{2502}
        \u{2502}
        \u{2502}
   \u{2500}\u{2500}\u{2500}\u{2500}\u{2500}\u{2534}\u{2500}\u{2500}\u{2500}\u{2500}\u{2500}
";

pub const ART_ONE: &'static str = "
  \u{250c}\u{2500}\u{2500}\u{2500}\u{2500}\u{2500}\u{2510}
  \u{2502}     \u{2502}
 \u{250c}\u{2534}\u{2510}    \u{2502}
 \u{2514}\u{252c}\u{2518}    \u{2502}
\u{2500}\u{2500}\u{253c}\u{2500}\u{2500}   \u{2502}
  \u{2502}     \u{2502}
 /      \u{2502}
        \u{2502}
   \u{2500}\u{2500}\u{2500}\u{2500}\u{2500}\u{2534}\u{2500}\u{2500}\u{2500}\u{2500}\u{2500}
";

pub const ART_ZERO: &'static str = "
  \u{250c}\u{2500}\u{2500}\u{2500}\u{2500}\u{2500}\u{2510}
  \u{2502}     \u{2502}
 \u{250c}\u{2534}\u{2510}    \u{2502}
 \u{2514}\u{252c}\u{2518}    \u{2502}
\u{2500}\u{2500}\u{253c}\u{2500}\u{2500}   \u{2502}
  \u{2502}     \u{2502}
 / \\    \u{2502}
        \u{2502}
   \u{2500}\u{2500}\u{2500}\u{2500}\u{2500}\u{2534}\u{2500}\u{2500}\u{2500}\u{2500}\u{2500}
";

/// The drawing that belongs to a number of lives: seven fixed pictures, one
/// for each value from six lives down to none.
pub open spec fn art_for(lives: u8) -> Seq<char> {
    if lives == 6 {
        ART_SIX@
    } else if lives == 5 {
        ART_FIVE@
    } else if lives == 4 {
        ART_FOUR@
    } else if lives == 3 {
        ART_THREE@
    } else if lives == 2 {
        ART_TWO@
    } else if lives == 1 {
        ART_ONE@
    } else {
        ART_ZERO@
    }
}

impl Game {
    /// The gallows drawing for the lives this session has left.
    pub fn lives_art(&self) -> (r: &'static str)
        ensures
            r@ == art_for(self.lives),
    {
        if self.lives == 6 {
            ART_SIX
        } else if self.lives == 5 {
            ART_FIVE
        } else if self.lives == 4 {
            ART_FOUR
        } else if self.lives == 3 {
            ART_THREE
        } else if self.lives == 2 {
            ART_TWO
        } else if self.lives == 1 {
            ART_ONE
        } else {
            ART_ZERO
        }
    }

    /// The row of display slots, joined by single spaces: the slot for the
    /// first letter, then a space before each further slot.
    pub fn guess_line(&self) -> (r: Vec<char>)
        ensures
            self.guess@.len() == 0 ==> r@.len() == 0,
            self.guess@.len() > 0 ==> r@.len() == 2 * self.guess@.len() - 1,
            forall|j: int| 0 <= j < self.guess@.len() ==> r@[2 * j] == #[trigger] self.guess@[j],
            forall|j: int| 0 < j < self.guess@.len() ==> #[trigger] r@[2 * j - 1] == ' ',
    {
        let n = self.guess.len();
        let mut line: Vec<char> = Vec::new();
        let mut i: usize = 0;
        while i < n
            invariant
                i <= n,
                n == self.guess@.len(),
                i == 0 ==> line@.len() == 0,
                i > 0 ==> line@.len() == 2 * i - 1,
                forall|j: int| 0 <= j < i ==> line@[2 * j] == #[trigger] self.guess@[j],
                forall|j: int| 0 < j < i ==> #[trigger] line@[2 * j - 1] == ' ',
            decreases n - i,
        {
            if i > 0 {
                line.push(' ');
            }
            line.push(self.guess[i]);
            i = i + 1;
        }
        line
    }
}

} // verus!
