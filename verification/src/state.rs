//! The game as a mathematical state machine: what a state is, and what each key does to it.

use crate::score::mark_at;
use crate::score::LetterMark;
use crate::text::decimal;
use crate::word::is_letter;
use crate::word::is_upper;
use crate::word::is_word;
use crate::word::to_upper;
use crate::word::WORD_LEN;
use vstd::prelude::*;

verus! {

/// Number of guesses a player has.
pub const MAX_GUESSES: usize = 6;

/// Where a game stands. Only `InProgress` can change; the other three are final.
#[derive(Clone, Copy, Debug, PartialEq, Eq, Structural)]
pub enum GameStatus {
    InProgress,
    Won,
    Lost,
    Abandoned,
}

/// The notice on the status line, replaced or cleared by the next key.
#[derive(Clone, Copy, Debug, PartialEq, Eq, Structural)]
pub enum StatusMessage {
    /// Nothing to say.
    Empty,
    /// A guess was submitted with fewer than five letters typed.
    TooShort,
    /// The five letters typed are not in the list of accepted words.
    InvalidWord,
    /// The guess was accepted and is not the secret.
    TryAgain,
    /// The guess is the secret.
    Won,
}

impl StatusMessage {
    /// The words of the notice.
    pub open spec fn wording(self) -> Seq<char> {
        match self {
            StatusMessage::Empty => ""@,
            StatusMessage::TooShort => "5 chars needed!"@,
            StatusMessage::InvalidWord => "not a valid word!"@,
            StatusMessage::TryAgain => "errr! try again"@,
            StatusMessage::Won => "you won!!"@,
        }
    }

    /// The words of the notice.
    pub fn text(&self) -> (text: &'static str)
        ensures
            text@ == self.wording(),
    {
        match self {
            StatusMessage::Empty => "",
            StatusMessage::TooShort => "5 chars needed!",
            StatusMessage::InvalidWord => "not a valid word!",
            StatusMessage::TryAgain => "errr! try again",
            StatusMessage::Won => "you won!!",
        }
    }
}

/// One key press, as far as the game tells keys apart.
#[derive(Clone, Copy, Debug, PartialEq, Eq, Structural)]
pub enum Key {
    /// Give up.
    Esc,
    /// A character key.
    Char(char),
    /// Take back the last letter typed.
    Backspace,
    /// Submit the letters typed as a guess.
    Enter,
    /// Any other key: it does nothing.
    Other,
}

/// What one cell of the board shows.
#[derive(Clone, Copy, Debug, PartialEq, Eq, Structural)]
pub enum Cell {
    /// A letter of a submitted guess, with its mark.
    Scored(char, LetterMark),
    /// A letter typed into the guess that is being composed.
    Typed(char),
    /// A slot of the guess that is being composed that no letter fills yet.
    Awaiting,
    /// A cell of a row that the game has not reached.
    Blank,
}

/// A state of the game.
pub struct GameState {
    /// The words accepted as guesses.
    pub valid: Set<Seq<char>>,
    /// The word to find.
    pub secret: Seq<char>,
    /// The guesses submitted and accepted so far, oldest first.
    pub guesses: Seq<Seq<char>>,
    /// The letters typed so far of the next guess.
    pub typing: Seq<char>,
    /// The notice on the status line.
    pub message: StatusMessage,
    /// Where the game stands.
    pub status: GameStatus,
}

impl GameState {
    /// The state a game starts in.
    pub open spec fn fresh(valid: Set<Seq<char>>, secret: Seq<char>) -> GameState {
        GameState {
            valid,
            secret,
            guesses: Seq::empty(),
            typing: Seq::empty(),
            message: StatusMessage::Empty,
            status: GameStatus::InProgress,
        }
    }

    /// The game has ended: won, lost or given up.
    pub open spec fn is_over(self) -> bool {
        self.status != GameStatus::InProgress
    }

    /// No guess among the first `n` is the secret.
    pub open spec fn missed(self, n: int) -> bool {
        forall|i: int| 0 <= i < n ==> #[trigger] self.guesses[i] != self.secret
    }

    /// What holds of every state that a game can reach.
    ///
    /// The secret and all guesses are accepted words, the letters typed are at most five
    /// upper-case letters, there are at most six guesses, and the status says how they
    /// compare with the secret: a game in progress or given up has fewer than six guesses,
    /// none of them the secret; a game won ends with the secret as its last and only
    /// matching guess; a game lost has six guesses, none of them the secret.
    pub open spec fn wf(self) -> bool {
        &&& is_word(self.secret)
        &&& self.valid.contains(self.secret)
        &&& self.guesses.len() <= MAX_GUESSES
        &&& forall|i: int|
            0 <= i < self.guesses.len() ==> is_word(#[trigger] self.guesses[i])
                && self.valid.contains(self.guesses[i])
        &&& self.typing.len() <= WORD_LEN
        &&& forall|i: int| 0 <= i < self.typing.len() ==> is_upper(#[trigger] self.typing[i])
        &&& match self.status {
            GameStatus::InProgress | GameStatus::Abandoned => {
                &&& self.guesses.len() < MAX_GUESSES
                &&& self.missed(self.guesses.len() as int)
            },
            GameStatus::Won => {
                &&& self.guesses.len() >= 1
                &&& self.guesses.last() == self.secret
                &&& self.missed(self.guesses.len() - 1)
            },
            GameStatus::Lost => {
                &&& self.guesses.len() == MAX_GUESSES
                &&& self.missed(self.guesses.len() as int)
            },
        }
    }

    /// The number of guesses made. Once the game is won, this is the number of tries it took.
    pub open spec fn tries(self) -> nat {
        self.guesses.len()
    }

    /// The closing words of a game that is over: they name the secret, and for a game won
    /// the number of tries. A game in progress has none.
    pub open spec fn exit_message(self) -> Option<Seq<char>> {
        match self.status {
            GameStatus::InProgress => None,
            GameStatus::Won => Some(
                "Congrats! The word was "@ + self.secret + ". You guessed it in "@ + decimal(
                    self.tries(),
                ) + " tries."@,
            ),
            GameStatus::Lost => Some("You lost after 6 tries! The word was "@ + self.secret + "."@),
            GameStatus::Abandoned => Some(
                "The word was "@ + self.secret + " but you gave up. >:("@,
            ),
        }
    }

    /// The state with another notice on the status line.
    pub open spec fn with_message(self, message: StatusMessage) -> GameState {
        GameState { message, ..self }
    }

    /// A character key. Anything but an ASCII letter is ignored, and so is every key once the
    /// game is over. A letter clears the notice and goes, in upper case, into the first free
    /// slot; with all five slots taken it is dropped. Whenever five letters then stand that
    /// are no accepted word, the notice says so.
    pub open spec fn type_letter(self, c: char) -> GameState {
        if self.is_over() || !is_letter(c) {
            self
        } else {
            let typing = if self.typing.len() < WORD_LEN {
                self.typing.push(to_upper(c))
            } else {
                self.typing
            };
            let message = if typing.len() == WORD_LEN && !self.valid.contains(typing) {
                StatusMessage::InvalidWord
            } else {
                StatusMessage::Empty
            };
            GameState { typing, message, ..self }
        }
    }

    /// Backspace: clears the notice and takes back the last letter typed, if there is one.
    /// Ignored once the game is over.
    pub open spec fn delete_letter(self) -> GameState {
        if self.is_over() {
            self
        } else {
            let typing = if self.typing.len() > 0 {
                self.typing.drop_last()
            } else {
                self.typing
            };
            GameState { typing, message: StatusMessage::Empty, ..self }
        }
    }

    /// Enter: submits the letters typed. Fewer than five letters, or five that are no
    /// accepted word, change nothing but the notice. An accepted word joins the guesses. If
    /// it is the secret the game is won. If not, the slots are cleared, and the game is lost
    /// if that was the sixth guess. Ignored once the game is over.
    pub open spec fn submit_guess(self) -> GameState {
        if self.is_over() {
            self
        } else if self.typing.len() < WORD_LEN {
            self.with_message(StatusMessage::TooShort)
        } else if !self.valid.contains(self.typing) {
            self.with_message(StatusMessage::InvalidWord)
        } else if self.typing == self.secret {
            GameState {
                guesses: self.guesses.push(self.typing),
                message: StatusMessage::Won,
                status: GameStatus::Won,
                ..self
            }
        } else {
            GameState {
                guesses: self.guesses.push(self.typing),
                typing: Seq::empty(),
                message: StatusMessage::TryAgain,
                status: if self.guesses.len() + 1 >= MAX_GUESSES {
                    GameStatus::Lost
                } else {
                    GameStatus::InProgress
                },
                ..self
            }
        }
    }

    /// Escape: gives the game up, however far it has got. Ignored once the game is over.
    pub open spec fn abandon(self) -> GameState {
        if self.is_over() {
            self
        } else {
            GameState { status: GameStatus::Abandoned, ..self }
        }
    }

    /// What one key press makes of the state.
    pub open spec fn press(self, key: Key) -> GameState {
        match key {
            Key::Esc => self.abandon(),
            Key::Char(c) => self.type_letter(c),
            Key::Backspace => self.delete_letter(),
            Key::Enter => self.submit_guess(),
            Key::Other => self,
        }
    }

    /// What a series of key presses makes of the state, first key first.
    pub open spec fn press_all(self, keys: Seq<Key>) -> GameState
        decreases keys.len(),
    {
        if keys.len() == 0 {
            self
        } else {
            self.press_all(keys.drop_last()).press(keys.last())
        }
    }

    /// The state after typing the first `n` letters of `word`.
    pub open spec fn type_word(self, word: Seq<char>, n: int) -> GameState
        decreases n,
    {
        if n <= 0 {
            self
        } else {
            self.type_word(word, n - 1).type_letter(word[n - 1])
        }
    }

    /// The state after typing `word` letter by letter and pressing Enter.
    pub open spec fn guess(self, word: Seq<char>) -> GameState {
        self.type_word(word, word.len() as int).submit_guess()
    }

    /// The state after guessing the first `n` of `words`, one after the other.
    pub open spec fn guess_all(self, words: Seq<Seq<char>>, n: int) -> GameState
        decreases n,
    {
        if n <= 0 {
            self
        } else {
            self.guess_all(words, n - 1).guess(words[n - 1])
        }
    }

    /// What the board shows at row `row`, column `col`. The rows of the guesses made come
    /// first, each letter with its mark; the next row holds the letters typed; the rows
    /// below it are blank.
    pub open spec fn cell(self, row: int, col: int) -> Cell {
        if row < self.guesses.len() {
            Cell::Scored(self.guesses[row][col], mark_at(self.guesses[row], self.secret, col))
        } else if row == self.guesses.len() {
            if col < self.typing.len() {
                Cell::Typed(self.typing[col])
            } else {
                Cell::Awaiting
            }
        } else {
            Cell::Blank
        }
    }
}

} // verus!
