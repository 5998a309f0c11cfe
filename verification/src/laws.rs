//! What holds of the game in every state it can reach, proved of the state machine.

use crate::state::GameState;
use crate::state::GameStatus;
use crate::state::Key;
use crate::state::StatusMessage;
use crate::state::MAX_GUESSES;
use crate::word::is_letter;
use crate::word::is_word;
use crate::word::to_upper;
use crate::word::upper_seq;
use crate::word::WORD_LEN;
use vstd::prelude::*;

verus! {

/// A game starts in a well-formed state, whenever its secret is an accepted word.
pub proof fn lemma_fresh_is_well_formed(valid: Set<Seq<char>>, secret: Seq<char>)
    requires
        is_word(secret),
        valid.contains(secret),
    ensures
        GameState::fresh(valid, secret).wf(),
        !GameState::fresh(valid, secret).is_over(),
{
}

/// No key leads out of the well-formed states. In particular a game never holds more than
/// six guesses or more than five typed letters.
pub proof fn lemma_press_keeps_well_formed(state: GameState, key: Key)
    requires
        state.wf(),
    ensures
        state.press(key).wf(),
        state.press(key).valid == state.valid,
        state.press(key).secret == state.secret,
{
    if key == Key::Enter {
        // The guesses recorded before are still there, each at its place.
        let next = state.submit_guess();
        assert forall|i: int| 0 <= i < state.guesses.len() implies #[trigger] next.guesses[i]
            == state.guesses[i] by {}
    }
}

/// No series of keys leads out of the well-formed states.
pub proof fn lemma_press_all_keeps_well_formed(state: GameState, keys: Seq<Key>)
    requires
        state.wf(),
    ensures
        state.press_all(keys).wf(),
        state.press_all(keys).valid == state.valid,
        state.press_all(keys).secret == state.secret,
    decreases keys.len(),
{
    if keys.len() > 0 {
        lemma_press_all_keeps_well_formed(state, keys.drop_last());
    }
}

/// Once a game is won, lost or given up, no key changes anything: not the guesses, not the
/// letters typed, not the status, not the notice.
pub proof fn lemma_over_is_final(state: GameState, key: Key, c: char)
    requires
        state.is_over(),
    ensures
        state.type_letter(c) == state,
        state.delete_letter() == state,
        state.submit_guess() == state,
        state.abandon() == state,
        state.press(key) == state,
{
}

/// Once a game is over, no series of keys changes anything.
pub proof fn lemma_over_is_final_for_all(state: GameState, keys: Seq<Key>)
    requires
        state.is_over(),
    ensures
        state.press_all(keys) == state,
    decreases keys.len(),
{
    if keys.len() > 0 {
        lemma_over_is_final_for_all(state, keys.drop_last());
    }
}

/// Keys pressed after the game has ended make no difference: if the first `n` keys end
/// the game, all the keys lead to the state that those `n` lead to.
pub proof fn lemma_keys_after_the_end(state: GameState, keys: Seq<Key>, n: int)
    requires
        0 <= n <= keys.len(),
        n == keys.len() || state.press_all(keys.take(n)).is_over(),
    ensures
        state.press_all(keys) == state.press_all(keys.take(n)),
    decreases keys.len() - n,
{
    if n == keys.len() {
        assert(keys.take(n) =~= keys);
    } else {
        assert(keys.take(n + 1).drop_last() =~= keys.take(n));
        lemma_keys_after_the_end(state, keys, n + 1);
    }
}

/// The status moves one way only: a key either leaves it as it is or ends a game that was
/// in progress.
pub proof fn lemma_status_moves_one_way(state: GameState, key: Key)
    ensures
        state.press(key).status == state.status || state.status == GameStatus::InProgress,
{
}

/// With five letters typed, a character key leaves the letters, the guesses and the status
/// as they are: there is no sixth slot.
pub proof fn lemma_full_buffer_takes_no_letter(state: GameState, c: char)
    requires
        state.typing.len() == WORD_LEN,
    ensures
        state.type_letter(c).typing == state.typing,
        state.type_letter(c).guesses == state.guesses,
        state.type_letter(c).status == state.status,
{
}

/// With fewer than five letters typed and the game in progress, a letter key appends the
/// letter in upper case, and changes neither the guesses nor the status.
pub proof fn lemma_letter_is_appended(state: GameState, c: char)
    requires
        !state.is_over(),
        state.typing.len() < WORD_LEN,
        is_letter(c),
    ensures
        state.type_letter(c).typing == state.typing.push(to_upper(c)),
        state.type_letter(c).guesses == state.guesses,
        state.type_letter(c).status == state.status,
{
}

/// Typing the letters of `word` into empty slots of a game in progress leaves exactly those
/// letters, in upper case, as long as they are letters and no more than five.
pub proof fn lemma_typing_a_word(state: GameState, word: Seq<char>, n: int)
    requires
        !state.is_over(),
        state.typing.len() == 0,
        0 <= n <= word.len(),
        n <= WORD_LEN,
        forall|i: int| 0 <= i < n ==> is_letter(#[trigger] word[i]),
    ensures
        state.type_word(word, n).typing == upper_seq(word.take(n)),
        state.type_word(word, n).guesses == state.guesses,
        state.type_word(word, n).status == state.status,
        state.type_word(word, n).valid == state.valid,
        state.type_word(word, n).secret == state.secret,
    decreases n,
{
    if n > 0 {
        lemma_typing_a_word(state, word, n - 1);
    }
}

/// Backspace in a game in progress: with no letter typed it leaves the slots empty, and it
/// never touches the guesses or the status; otherwise it removes the last letter and no
/// other, so that of five letters the first four stay.
pub proof fn lemma_backspace_removes_last(state: GameState)
    requires
        !state.is_over(),
    ensures
        state.typing.len() == 0 ==> state.delete_letter().typing == state.typing,
        state.typing.len() > 0 ==> state.delete_letter().typing == state.typing.take(
            state.typing.len() - 1,
        ),
        state.delete_letter().guesses == state.guesses,
        state.delete_letter().status == state.status,
{
}

/// Submitting the secret wins the game at once, and the number of tries reported is the
/// number of this attempt: one more than the guesses made before it.
pub proof fn lemma_submitting_secret_wins(state: GameState)
    requires
        state.wf(),
        !state.is_over(),
        state.typing == state.secret,
    ensures
        state.submit_guess().status == GameStatus::Won,
        state.submit_guess().message == StatusMessage::Won,
        state.submit_guess().tries() == state.guesses.len() + 1,
        state.submit_guess().guesses == state.guesses.push(state.secret),
{
}

/// Submitting an accepted word that is not the secret records it and clears the slots. The
/// game is lost if that was the sixth guess, and goes on otherwise.
pub proof fn lemma_submitting_miss(state: GameState)
    requires
        state.wf(),
        !state.is_over(),
        state.typing.len() == WORD_LEN,
        state.valid.contains(state.typing),
        state.typing != state.secret,
    ensures
        state.submit_guess().guesses == state.guesses.push(state.typing),
        state.submit_guess().typing.len() == 0,
        state.submit_guess().message == StatusMessage::TryAgain,
        state.submit_guess().status == if state.guesses.len() + 1 == MAX_GUESSES {
            GameStatus::Lost
        } else {
            GameStatus::InProgress
        },
{
}

/// A submission that is too short or no accepted word changes nothing but the notice.
pub proof fn lemma_rejected_submission(state: GameState)
    requires
        !state.is_over(),
        state.typing.len() < WORD_LEN || !state.valid.contains(state.typing),
    ensures
        state.submit_guess() == state.with_message(
            if state.typing.len() < WORD_LEN {
                StatusMessage::TooShort
            } else {
                StatusMessage::InvalidWord
            },
        ),
{
}

/// Typing an accepted word into empty slots and pressing Enter records the word.
proof fn lemma_guess(state: GameState, word: Seq<char>)
    requires
        state.wf(),
        !state.is_over(),
        state.typing.len() == 0,
        is_word(word),
        state.valid.contains(word),
    ensures
        state.guess(word).wf(),
        state.guess(word).valid == state.valid,
        state.guess(word).secret == state.secret,
        state.guess(word).guesses == state.guesses.push(word),
        word == state.secret ==> state.guess(word).status == GameStatus::Won,
        word != state.secret ==> state.guess(word).typing.len() == 0,
        word != state.secret ==> state.guess(word).status == if state.guesses.len() + 1
            == MAX_GUESSES {
            GameStatus::Lost
        } else {
            GameStatus::InProgress
        },
{
    assert forall|i: int| 0 <= i < word.len() implies is_letter(#[trigger] word[i]) by {}
    lemma_typing_a_word(state, word, word.len() as int);
    assert(word.take(word.len() as int) =~= word);
    assert(upper_seq(word) =~= word);
}

/// Any number of accepted words that are not the secret, guessed one after the other from
/// the start of a game, are all recorded in order, and the game is lost after the sixth of
/// them and not before.
pub proof fn lemma_lost_after_sixth_miss(
    valid: Set<Seq<char>>,
    secret: Seq<char>,
    words: Seq<Seq<char>>,
    n: int,
)
    requires
        is_word(secret),
        valid.contains(secret),
        0 <= n <= words.len(),
        n <= MAX_GUESSES,
        forall|i: int|
            0 <= i < n ==> is_word(#[trigger] words[i]) && valid.contains(words[i]) && words[i]
                != secret,
    ensures
        GameState::fresh(valid, secret).guess_all(words, n).wf(),
        GameState::fresh(valid, secret).guess_all(words, n).guesses == words.take(n),
        GameState::fresh(valid, secret).guess_all(words, n).typing.len() == 0,
        GameState::fresh(valid, secret).guess_all(words, n).valid == valid,
        GameState::fresh(valid, secret).guess_all(words, n).secret == secret,
        GameState::fresh(valid, secret).guess_all(words, n).status == if n == MAX_GUESSES {
            GameStatus::Lost
        } else {
            GameStatus::InProgress
        },
    decreases n,
{
    if n > 0 {
        lemma_lost_after_sixth_miss(valid, secret, words, n - 1);
        lemma_guess(GameState::fresh(valid, secret).guess_all(words, n - 1), words[n - 1]);
    }
}

/// Guessing the secret as attempt number `n`, after `n - 1` accepted words that are not the
/// secret, wins the game, and the number of tries reported is `n`.
pub proof fn lemma_won_on_attempt(
    valid: Set<Seq<char>>,
    secret: Seq<char>,
    misses: Seq<Seq<char>>,
    n: int,
)
    requires
        is_word(secret),
        valid.contains(secret),
        1 <= n <= MAX_GUESSES,
        misses.len() == n - 1,
        forall|i: int|
            0 <= i < n - 1 ==> is_word(#[trigger] misses[i]) && valid.contains(misses[i])
                && misses[i] != secret,
    ensures
        GameState::fresh(valid, secret).guess_all(misses, n - 1).guess(secret).status
            == GameStatus::Won,
        GameState::fresh(valid, secret).guess_all(misses, n - 1).guess(secret).tries() == n,
{
    lemma_lost_after_sixth_miss(valid, secret, misses, n - 1);
    let before = GameState::fresh(valid, secret).guess_all(misses, n - 1);
    lemma_guess(before, secret);
}

} // verus!
