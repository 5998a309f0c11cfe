//! The game itself: the state a session owns, and the key handlers that move it.

use crate::lexicon::spellings;
use crate::lexicon::Lexicon;
use crate::score::evaluate;
use crate::state::Cell;
use crate::state::GameState;
use crate::state::GameStatus;
use crate::state::Key;
use crate::state::StatusMessage;
use crate::state::MAX_GUESSES;
use crate::text::push_decimal;
use crate::text::push_letters;
use crate::word::ascii_upper;
use crate::word::is_ascii_letter;
use crate::word::is_upper;
use crate::word::Word;
use crate::word::WORD_LEN;
use vstd::prelude::*;
use vstd::string::StringExecFns;

verus! {

/// Exactly the first `k` slots hold a letter.
spec fn filled_to(slots: Seq<Option<char>>, k: int) -> bool {
    &&& 0 <= k <= slots.len()
    &&& forall|i: int| 0 <= i < slots.len() ==> ((#[trigger] slots[i]) is Some <==> i < k)
}

/// The slots are filled from the front, with no gap.
spec fn front_filled(slots: Seq<Option<char>>) -> bool {
    exists|k: int| filled_to(slots, k)
}

/// The number of slots that hold a letter, for slots filled from the front.
spec fn fill(slots: Seq<Option<char>>) -> int {
    choose|k: int| filled_to(slots, k)
}

/// The letters that the slots hold, in order.
spec fn typed(slots: Seq<Option<char>>) -> Seq<char> {
    Seq::new(fill(slots) as nat, |i: int| slots[i]->0)
}

/// Slots filled from the front are filled up to one place only.
proof fn lemma_fill_is(slots: Seq<Option<char>>, k: int)
    requires
        filled_to(slots, k),
    ensures
        front_filled(slots),
        fill(slots) == k,
{
    let f = fill(slots);
    if f < k {
        assert(slots[f] is Some);
    }
    if k < f {
        assert(slots[k] is Some);
    }
}

/// Counts the slots that hold a letter.
fn count_filled(slots: &[Option<char>; 5]) -> (k: usize)
    requires
        front_filled(slots@),
    ensures
        k == fill(slots@),
        k <= WORD_LEN,
{
    let mut k: usize = 0;
    while k < WORD_LEN && slots[k].is_some()
        invariant
            k <= WORD_LEN,
            forall|j: int| 0 <= j < k ==> (#[trigger] slots@[j]) is Some,
        decreases WORD_LEN - k,
    {
        k += 1;
    }
    proof {
        let f = fill(slots@);
        if f < k {
            assert(slots@[f] is Some);
        }
    }
    k
}

/// The word that five filled slots spell; nothing while a slot is free.
fn typed_word(slots: &[Option<char>; 5]) -> (r: Option<Word>)
    requires
        front_filled(slots@),
        forall|i: int| 0 <= i < typed(slots@).len() ==> is_upper(#[trigger] typed(slots@)[i]),
    ensures
        r is Some <==> typed(slots@).len() == WORD_LEN,
        r matches Some(word) ==> word@ == typed(slots@),
{
    if count_filled(slots) < WORD_LEN {
        return None;
    }
    let mut letters: [char; 5] = ['A'; 5];
    let mut i: usize = 0;
    while i < WORD_LEN
        invariant
            i <= WORD_LEN,
            fill(slots@) == WORD_LEN,
            filled_to(slots@, fill(slots@)),
            forall|j: int| 0 <= j < i ==> letters@[j] == #[trigger] typed(slots@)[j],
        decreases WORD_LEN - i,
    {
        if let Some(c) = slots[i] {
            letters[i] = c;
        }
        i += 1;
    }
    proof {
        assert(letters@ =~= typed(slots@));
    }
    Some(Word::from_letters(letters))
}

/// A game: the lexicon it plays with, the secret, the guesses made, the letters typed,
/// the notice on the status line and the status.
#[derive(Debug)]
pub struct App<'a> {
    lexicon: &'a Lexicon,
    correct: Word,
    guesses: Vec<Word>,
    typing: [Option<char>; 5],
    message: StatusMessage,
    status: GameStatus,
}

impl<'a> View for App<'a> {
    type V = GameState;

    closed spec fn view(&self) -> GameState {
        GameState {
            valid: self.lexicon.valid(),
            secret: self.correct@,
            guesses: spellings(self.guesses@),
            typing: typed(self.typing@),
            message: self.message,
            status: self.status,
        }
    }
}

impl<'a> App<'a> {
    /// The five slots are filled from the front.
    pub closed spec fn slots_in_order(self) -> bool {
        front_filled(self.typing@)
    }

    /// What every game satisfies from its start to its end: its slots are filled from the
    /// front, and its state is one that a game can reach.
    #[verifier::type_invariant]
    pub open spec fn well_formed(self) -> bool {
        &&& self.slots_in_order()
        &&& self@.wf()
    }

    /// Starts a game with a given secret, if the lexicon accepts the secret as a guess:
    /// a game whose secret can never be submitted could not be won.
    pub fn with_secret(lexicon: &'a Lexicon, secret: Word) -> (r: Option<App<'a>>)
        ensures
            r is Some <==> lexicon.valid().contains(secret@),
            r matches Some(app) ==> app@ == GameState::fresh(lexicon.valid(), secret@),
    {
        if !lexicon.is_valid(&secret) {
            return None;
        }
        let typing: [Option<char>; 5] = [None; 5];
        proof {
            use_type_invariant(secret);
            lemma_fill_is(typing@, 0);
            assert(typed(typing@) =~= Seq::empty());
            assert(spellings(Seq::<Word>::empty()) =~= Seq::empty());
        }
        Some(
            App {
                lexicon,
                correct: secret,
                guesses: Vec::new(),
                typing,
                message: StatusMessage::Empty,
                status: GameStatus::InProgress,
            },
        )
    }

    /// Starts a game with a secret drawn at random from the lexicon's pool. There is no
    /// game where the pool is empty or the word drawn is not accepted as a guess; a pool
    /// that is not empty and holds accepted words only always gives one.
    pub fn new(lexicon: &'a Lexicon) -> (r: Option<App<'a>>)
        ensures
            r matches Some(app) ==> lexicon.pool().contains(app@.secret) && app@
                == GameState::fresh(lexicon.valid(), app@.secret),
            r is None ==> lexicon.pool().len() == 0 || exists|i: int|
                0 <= i < lexicon.pool().len() && !lexicon.valid().contains(
                    #[trigger] lexicon.pool()[i],
                ),
    {
        match lexicon.pick_secret() {
            Some(secret) => App::with_secret(lexicon, secret),
            None => None,
        }
    }

    /// Where the game stands.
    pub fn status(&self) -> (status: GameStatus)
        ensures
            status == self@.status,
    {
        self.status
    }

    /// Tells whether the game has ended.
    pub fn is_over(&self) -> (over: bool)
        ensures
            over == self@.is_over(),
    {
        match self.status {
            GameStatus::InProgress => false,
            _ => true,
        }
    }

    /// The notice on the status line.
    pub fn message(&self) -> (message: StatusMessage)
        ensures
            message == self@.message,
    {
        self.message
    }

    /// The number of guesses made so far.
    pub fn guess_count(&self) -> (n: usize)
        ensures
            n == self@.guesses.len(),
    {
        self.guesses.len()
    }

    /// The number of letters typed so far of the next guess.
    pub fn typed_count(&self) -> (n: usize)
        ensures
            n == self@.typing.len(),
    {
        proof {
            use_type_invariant(self);
        }
        count_filled(&self.typing)
    }

    /// Handles a character key.
    pub fn type_letter(&mut self, c: char)
        ensures
            final(self)@ == old(self)@.type_letter(c),
    {
        proof {
            use_type_invariant(&*self);
        }
        if self.is_over() || !is_ascii_letter(c) {
            return;
        }
        let letter = ascii_upper(c);
        let mut typing = self.typing;
        let k = count_filled(&typing);
        if k < WORD_LEN {
            typing[k] = Some(letter);
            proof {
                lemma_fill_is(typing@, k + 1);
                assert(typed(typing@) =~= typed(self.typing@).push(letter));
            }
        }
        let message = match typed_word(&typing) {
            Some(word) => {
                if self.lexicon.is_valid(&word) {
                    StatusMessage::Empty
                } else {
                    StatusMessage::InvalidWord
                }
            },
            None => StatusMessage::Empty,
        };
        self.typing = typing;
        self.message = message;
    }

    /// Handles Backspace.
    pub fn delete_letter(&mut self)
        ensures
            final(self)@ == old(self)@.delete_letter(),
    {
        proof {
            use_type_invariant(&*self);
        }
        if self.is_over() {
            return;
        }
        self.message = StatusMessage::Empty;
        let k = count_filled(&self.typing);
        if k > 0 {
            proof {
                lemma_fill_is(self.typing@.update(k - 1, None), k - 1);
                assert(typed(self.typing@.update(k - 1, None)) =~= typed(
                    self.typing@,
                ).drop_last());
            }
            self.typing[k - 1] = None;
        }
    }

    /// Handles Enter.
    pub fn submit_guess(&mut self)
        ensures
            final(self)@ == old(self)@.submit_guess(),
    {
        proof {
            use_type_invariant(&*self);
        }
        if self.is_over() {
            return;
        }
        let word = match typed_word(&self.typing) {
            Some(word) => word,
            None => {
                self.message = StatusMessage::TooShort;
                return;
            },
        };
        if !self.lexicon.is_valid(&word) {
            self.message = StatusMessage::InvalidWord;
            return;
        }
        let won = word.same(&self.correct);
        let mut guesses: Vec<Word> = Vec::new();
        core::mem::swap(&mut self.guesses, &mut guesses);
        guesses.push(word);
        let cleared: [Option<char>; 5] = [None; 5];
        proof {
            lemma_fill_is(cleared@, 0);
            assert(typed(cleared@) =~= Seq::empty());
            assert(spellings(guesses@) =~= spellings(old(self).guesses@).push(word@));
        }
        if won {
            *self = App {
                guesses,
                message: StatusMessage::Won,
                status: GameStatus::Won,
                ..*self
            };
        } else {
            let status = if guesses.len() >= MAX_GUESSES {
                GameStatus::Lost
            } else {
                GameStatus::InProgress
            };
            *self = App {
                guesses,
                typing: cleared,
                message: StatusMessage::TryAgain,
                status,
                ..*self
            };
        }
    }

    /// Handles Escape.
    pub fn abandon(&mut self)
        ensures
            final(self)@ == old(self)@.abandon(),
    {
        proof {
            use_type_invariant(&*self);
        }
        if self.is_over() {
            return;
        }
        self.status = GameStatus::Abandoned;
    }

    /// Handles one key press.
    pub fn handle_key_event(&mut self, key: Key)
        ensures
            final(self)@ == old(self)@.press(key),
    {
        match key {
            Key::Esc => self.abandon(),
            Key::Char(c) => self.type_letter(c),
            Key::Backspace => self.delete_letter(),
            Key::Enter => self.submit_guess(),
            Key::Other => {},
        }
    }

    /// Plays the keys in order, up to the one that ends the game, and gives the closing
    /// words if the game is over then.
    pub fn run(&mut self, keys: &[Key]) -> (r: Option<String>)
        ensures
            final(self)@ == old(self)@.press_all(keys@),
            r is Some <==> final(self)@.is_over(),
            r matches Some(text) ==> Some(text@) == final(self)@.exit_message(),
    {
        let mut i: usize = 0;
        while i < keys.len() && !self.is_over()
            invariant
                i <= keys.len(),
                self@ == old(self)@.press_all(keys@.take(i as int)),
            decreases keys.len() - i,
        {
            self.handle_key_event(keys[i]);
            proof {
                assert(keys@.take(i + 1).drop_last() =~= keys@.take(i as int));
            }
            i += 1;
        }
        proof {
            crate::laws::lemma_keys_after_the_end(old(self)@, keys@, i as int);
        }
        self.exit_message()
    }

    /// The closing words, once the game is over.
    pub fn exit_message(&self) -> (r: Option<String>)
        ensures
            r is Some <==> self@.is_over(),
            r matches Some(text) ==> Some(text@) == self@.exit_message(),
    {
        let letters = self.correct.letters();
        match self.status {
            GameStatus::InProgress => None,
            GameStatus::Won => {
                let mut text = String::from_str("Congrats! The word was ");
                push_letters(&mut text, &letters);
                text.append(". You guessed it in ");
                push_decimal(&mut text, self.guesses.len());
                text.append(" tries.");
                Some(text)
            },
            GameStatus::Lost => {
                let mut text = String::from_str("You lost after 6 tries! The word was ");
                push_letters(&mut text, &letters);
                text.append(".");
                Some(text)
            },
            GameStatus::Abandoned => {
                let mut text = String::from_str("The word was ");
                push_letters(&mut text, &letters);
                text.append(" but you gave up. >:(");
                Some(text)
            },
        }
    }

    /// What the board shows in row `row`, cell by cell.
    pub fn row(&self, row: usize) -> (cells: [Cell; 5])
        ensures
            forall|col: int|
                0 <= col < WORD_LEN ==> #[trigger] cells@[col] == self@.cell(row as int, col),
    {
        proof {
            use_type_invariant(self);
        }
        let mut cells: [Cell; 5] = [Cell::Blank; 5];
        if row < self.guesses.len() {
            let letters = self.guesses[row].letters();
            let marks = evaluate(&self.guesses[row], &self.correct);
            let mut col: usize = 0;
            while col < WORD_LEN
                invariant
                    col <= WORD_LEN,
                    row < self.guesses@.len(),
                    letters@ == self@.guesses[row as int],
                    marks@ == crate::score::marks(self@.guesses[row as int], self@.secret),
                    letters@.len() == WORD_LEN,
                    forall|j: int|
                        0 <= j < col ==> #[trigger] cells@[j] == self@.cell(row as int, j),
                decreases WORD_LEN - col,
            {
                cells[col] = Cell::Scored(letters[col], marks[col]);
                col += 1;
            }
        } else if row == self.guesses.len() {
            let mut col: usize = 0;
            while col < WORD_LEN
                invariant
                    col <= WORD_LEN,
                    row == self.guesses@.len(),
                    filled_to(self.typing@, fill(self.typing@)),
                    forall|j: int|
                        0 <= j < col ==> #[trigger] cells@[j] == self@.cell(row as int, j),
                decreases WORD_LEN - col,
            {
                cells[col] = match self.typing[col] {
                    Some(c) => Cell::Typed(c),
                    None => Cell::Awaiting,
                };
                col += 1;
            }
        }
        cells
    }
}

} // verus!
