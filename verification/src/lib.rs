//! A word-guessing game: six tries to find a secret word of five letters, each guess
//! answered letter by letter with exact, present or absent.

pub mod game;
pub mod laws;
pub mod lexicon;
pub mod score;
pub mod state;
pub mod text;
pub mod word;

pub use crate::game::App;
pub use crate::lexicon::Lexicon;
pub use crate::score::evaluate;
pub use crate::score::LetterMark;
pub use crate::state::Cell;
pub use crate::state::GameState;
pub use crate::state::GameStatus;
pub use crate::state::Key;
pub use crate::state::StatusMessage;
pub use crate::word::Word;
