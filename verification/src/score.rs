//! Scoring a guess against the secret, letter by letter, with repeated letters accounted for.

use crate::word::is_upper;
use crate::word::is_word;
use crate::word::Word;
use crate::word::WORD_LEN;
use std::collections::HashMap;
use vstd::prelude::*;

verus! {

/// The verdict on one letter of a guess.
#[derive(Clone, Copy, Debug, PartialEq, Eq, Structural)]
pub enum LetterMark {
    /// The letter stands at this very position in the secret.
    Exact,
    /// The letter stands elsewhere in the secret, at a place no other letter of the guess
    /// has claimed.
    Present,
    /// The secret has no unclaimed occurrence of the letter left.
    Absent,
}

/// How many of the first `n` positions of `word` hold the letter `c`.
pub open spec fn occurrences(word: Seq<char>, c: char, n: int) -> nat
    decreases n,
{
    if n <= 0 {
        0
    } else {
        occurrences(word, c, n - 1) + if word[n - 1] == c { 1nat } else { 0nat }
    }
}

/// How many of the first `n` positions hold `c` in the guess and in the secret alike.
pub open spec fn exact_hits(guess: Seq<char>, secret: Seq<char>, c: char, n: int) -> nat
    decreases n,
{
    if n <= 0 {
        0
    } else {
        exact_hits(guess, secret, c, n - 1) + if guess[n - 1] == c && secret[n - 1] == c {
            1nat
        } else {
            0nat
        }
    }
}

/// How many of the first `n` positions hold `c` in the guess but another letter in the secret.
pub open spec fn misplaced(guess: Seq<char>, secret: Seq<char>, c: char, n: int) -> nat
    decreases n,
{
    if n <= 0 {
        0
    } else {
        misplaced(guess, secret, c, n - 1) + if guess[n - 1] == c && secret[n - 1] != c {
            1nat
        } else {
            0nat
        }
    }
}

/// How many occurrences of `c` in the secret no exact hit accounts for: the supply from which
/// misplaced copies of `c` in the guess are served, leftmost first.
pub open spec fn spare(guess: Seq<char>, secret: Seq<char>, c: char) -> nat {
    misplaced(secret, guess, c, secret.len() as int)
}

/// The mark of position `i`. An exact hit always wins. Any other letter is `Present` as long
/// as fewer misplaced copies of it stand to its left than the secret has to spare.
pub open spec fn mark_at(guess: Seq<char>, secret: Seq<char>, i: int) -> LetterMark {
    if guess[i] == secret[i] {
        LetterMark::Exact
    } else if misplaced(guess, secret, guess[i], i) < spare(guess, secret, guess[i]) {
        LetterMark::Present
    } else {
        LetterMark::Absent
    }
}

/// The marks of a whole guess, one for each position.
pub open spec fn marks(guess: Seq<char>, secret: Seq<char>) -> Seq<LetterMark> {
    Seq::new(guess.len(), |i: int| mark_at(guess, secret, i))
}

/// The smaller of two counts.
pub open spec fn least(a: nat, b: nat) -> nat {
    if a <= b {
        a
    } else {
        b
    }
}

/// How many of the first `n` positions of the guess hold `c` and are marked `Exact` or
/// `Present`.
pub open spec fn credited(guess: Seq<char>, secret: Seq<char>, c: char, n: int) -> nat
    decreases n,
{
    if n <= 0 {
        0
    } else {
        credited(guess, secret, c, n - 1) + if guess[n - 1] == c && mark_at(guess, secret, n - 1)
            != LetterMark::Absent {
            1nat
        } else {
            0nat
        }
    }
}

/// The count kept for the letter `c` in a tally keyed by character code; a letter without an
/// entry counts as zero.
spec fn tally(counts: Map<u32, usize>, c: char) -> nat {
    if counts.contains_key(c as u32) {
        counts[c as u32] as nat
    } else {
        0
    }
}

/// No count exceeds the number of positions looked at.
pub proof fn lemma_counts_bounded(guess: Seq<char>, secret: Seq<char>, c: char, n: int)
    requires
        0 <= n,
    ensures
        occurrences(secret, c, n) <= n,
        exact_hits(guess, secret, c, n) <= n,
        misplaced(guess, secret, c, n) <= n,
    decreases n,
{
    if n > 0 {
        lemma_counts_bounded(guess, secret, c, n - 1);
    }
}

/// Exact hits are the same seen from either word.
pub proof fn lemma_exact_hits_symmetric(guess: Seq<char>, secret: Seq<char>, c: char, n: int)
    ensures
        exact_hits(guess, secret, c, n) == exact_hits(secret, guess, c, n),
    decreases n,
{
    if n > 0 {
        lemma_exact_hits_symmetric(guess, secret, c, n - 1);
    }
}

/// Each occurrence of `c` in a word is either an exact hit or misplaced with respect to the
/// other word.
pub proof fn lemma_occurrences_split(word: Seq<char>, other: Seq<char>, c: char, n: int)
    ensures
        occurrences(word, c, n) == exact_hits(word, other, c, n) + misplaced(word, other, c, n),
    decreases n,
{
    if n > 0 {
        lemma_occurrences_split(word, other, c, n - 1);
    }
}

/// Up to any position, the credited copies of `c` are its exact hits plus as many of its
/// misplaced copies as the secret can serve.
pub proof fn lemma_credited_closed_form(guess: Seq<char>, secret: Seq<char>, c: char, n: int)
    requires
        0 <= n <= guess.len(),
    ensures
        credited(guess, secret, c, n) == exact_hits(guess, secret, c, n) + least(
            misplaced(guess, secret, c, n),
            spare(guess, secret, c),
        ),
    decreases n,
{
    if n > 0 {
        lemma_credited_closed_form(guess, secret, c, n - 1);
    }
}

/// A position is marked `Exact` if and only if the guess and the secret agree there.
pub proof fn lemma_exact_iff_letters_agree(guess: Seq<char>, secret: Seq<char>, i: int)
    ensures
        mark_at(guess, secret, i) == LetterMark::Exact <==> guess[i] == secret[i],
{
}

/// For every letter, the positions of the guess that hold it and are marked `Exact` or
/// `Present` are no more than the secret has occurrences of it. They are in fact as many as
/// the guess and the secret have in common: the smaller of the two occurrence counts.
pub proof fn lemma_credit_within_supply(guess: Seq<char>, secret: Seq<char>, c: char)
    requires
        guess.len() == secret.len(),
    ensures
        credited(guess, secret, c, guess.len() as int) <= occurrences(
            secret,
            c,
            secret.len() as int,
        ),
        credited(guess, secret, c, guess.len() as int) == least(
            occurrences(guess, c, guess.len() as int),
            occurrences(secret, c, secret.len() as int),
        ),
{
    let n = guess.len() as int;
    lemma_credited_closed_form(guess, secret, c, n);
    lemma_occurrences_split(secret, guess, c, n);
    lemma_occurrences_split(guess, secret, c, n);
    lemma_exact_hits_symmetric(guess, secret, c, n);
}

/// Scoring depends on the letters alone: the same guess against the same secret gets the
/// same marks, whenever and however often it is scored.
pub proof fn lemma_marks_deterministic(
    guess: Seq<char>,
    secret: Seq<char>,
    guess_again: Seq<char>,
    secret_again: Seq<char>,
)
    requires
        guess =~= guess_again,
        secret =~= secret_again,
    ensures
        marks(guess, secret) == marks(guess_again, secret_again),
{
}

/// Every position is marked `Exact` if and only if the guess is the secret.
pub proof fn lemma_all_exact_iff_equal(guess: Seq<char>, secret: Seq<char>)
    requires
        guess.len() == secret.len(),
    ensures
        (forall|i: int| 0 <= i < guess.len() ==> #[trigger] marks(guess, secret)[i]
            == LetterMark::Exact) <==> guess == secret,
{
    if guess == secret {
        assert forall|i: int| 0 <= i < guess.len() implies #[trigger] marks(guess, secret)[i]
            == LetterMark::Exact by {}
    }
    if forall|i: int| 0 <= i < guess.len() ==> #[trigger] marks(guess, secret)[i]
        == LetterMark::Exact {
        assert forall|i: int| 0 <= i < guess.len() implies guess[i] == secret[i] by {
            assert(marks(guess, secret)[i] == LetterMark::Exact);
        }
        assert(guess =~= secret);
    }
}

/// Adds one to the count of `key`, starting from zero where it has none yet.
fn bump(counts: &mut HashMap<u32, usize>, key: u32)
    requires
        old(counts)@.contains_key(key) ==> old(counts)@[key] < usize::MAX,
    ensures
        final(counts)@ == old(counts)@.insert(
            key,
            if old(counts)@.contains_key(key) {
                (old(counts)@[key] + 1) as usize
            } else {
                1usize
            },
        ),
{
    broadcast use vstd::std_specs::hash::group_hash_axioms;

    let seen: usize = match counts.get(&key) {
        Some(n) => *n,
        None => 0,
    };
    counts.insert(key, seen + 1);
}

/// Reads the count of `key`; zero where it has none.
fn count_of(counts: &HashMap<u32, usize>, key: u32) -> (n: usize)
    ensures
        n == if counts@.contains_key(key) {
            counts@[key]
        } else {
            0usize
        },
{
    broadcast use vstd::std_specs::hash::group_hash_axioms;

    match counts.get(&key) {
        Some(n) => *n,
        None => 0,
    }
}

/// Counts the positions of `word` that hold `c`.
fn count_letter(word: &[char; 5], c: char) -> (n: usize)
    ensures
        n == occurrences(word@, c, WORD_LEN as int),
{
    let mut n: usize = 0;
    let mut j: usize = 0;
    while j < WORD_LEN
        invariant
            j <= WORD_LEN,
            n == occurrences(word@, c, j as int),
            n <= j,
        decreases WORD_LEN - j,
    {
        if word[j] == c {
            n += 1;
        }
        j += 1;
    }
    n
}

/// Scores `guess` against `secret`.
///
/// The first pass marks the exact hits and counts, for each letter, how many occurrences in
/// the secret they use up. The second pass goes over the other positions from the left: a
/// letter is `Present` while the secret still has an occurrence of it that is not used up,
/// which it then uses up, and `Absent` after that.
pub fn evaluate(guess: &Word, secret: &Word) -> (result: [LetterMark; 5])
    ensures
        result@ == marks(guess@, secret@),
{
    let g = guess.letters();
    let s = secret.letters();
    let mut result: [LetterMark; 5] = [LetterMark::Absent; 5];
    let mut used: HashMap<u32, usize> = HashMap::new();

    let mut i: usize = 0;
    while i < WORD_LEN
        invariant
            i <= WORD_LEN,
            is_word(g@),
            is_word(s@),
            forall|j: int| 0 <= j < i && g@[j] == s@[j] ==> result@[j] == LetterMark::Exact,
            forall|c: char|
                is_upper(c) ==> tally(used@, c) == #[trigger] exact_hits(g@, s@, c, i as int),
        decreases WORD_LEN - i,
    {
        let c = g[i];
        let ghost before = used@;
        if c == s[i] {
            proof {
                lemma_counts_bounded(g@, s@, c, i as int);
            }
            result[i] = LetterMark::Exact;
            bump(&mut used, c as u32);
        }
        proof {
            assert forall|d: char| is_upper(d) implies tally(used@, d) == #[trigger] exact_hits(
                g@,
                s@,
                d,
                i + 1,
            ) by {
                assert(tally(before, d) == exact_hits(g@, s@, d, i as int));
            }
        }
        i += 1;
    }

    let mut i: usize = 0;
    while i < WORD_LEN
        invariant
            i <= WORD_LEN,
            is_word(g@),
            is_word(s@),
            forall|j: int| 0 <= j < i ==> result@[j] == mark_at(g@, s@, j),
            forall|j: int| i <= j < WORD_LEN && g@[j] == s@[j] ==> result@[j] == LetterMark::Exact,
            forall|c: char|
                is_upper(c) ==> tally(used@, c) == exact_hits(g@, s@, c, WORD_LEN as int) + least(
                    #[trigger] misplaced(g@, s@, c, i as int),
                    spare(g@, s@, c),
                ),
        decreases WORD_LEN - i,
    {
        let c = g[i];
        let ghost before = used@;
        if c != s[i] {
            let total = count_letter(&s, c);
            let taken = count_of(&used, c as u32);
            proof {
                lemma_occurrences_split(s@, g@, c, WORD_LEN as int);
                lemma_exact_hits_symmetric(g@, s@, c, WORD_LEN as int);
            }
            if total > taken {
                result[i] = LetterMark::Present;
                bump(&mut used, c as u32);
            } else {
                result[i] = LetterMark::Absent;
            }
        }
        proof {
            assert forall|d: char| is_upper(d) implies tally(used@, d) == exact_hits(
                g@,
                s@,
                d,
                WORD_LEN as int,
            ) + least(#[trigger] misplaced(g@, s@, d, i + 1), spare(g@, s@, d)) by {
                assert(tally(before, d) == exact_hits(g@, s@, d, WORD_LEN as int) + least(
                    misplaced(g@, s@, d, i as int),
                    spare(g@, s@, d),
                ));
            }
        }
        i += 1;
    }
    result
}

} // verus!
