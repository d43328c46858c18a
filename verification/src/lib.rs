//! A terminal hangman game session, with the game logic verified.
//!
//! The library holds the state of one session — the hidden word, the lives
//! that are left, the display slots already revealed and the letters still to
//! find — and the transition that one guess makes on that state. Reading a
//! guess from the player and drawing the gallows belong to the surrounding
//! program; the library hands it the rendered text and takes the guess as a
//! plain string.

pub mod art;
pub mod game;
pub mod words;

pub use game::Game;
pub use game::Letter;
pub use game::Outcome;
