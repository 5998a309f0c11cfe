//! The two word lists of a game: the pool the secret is drawn from, and the words accepted
//! as guesses.

use crate::word::is_word;
use crate::word::upper_seq;
use crate::word::Word;
use rand::seq::IndexedRandom;
use vstd::prelude::*;

verus! {

/// The letters of each word of a list, in the order of the list.
pub open spec fn spellings(words: Seq<Word>) -> Seq<Seq<char>> {
    Seq::new(words.len(), |i: int| words[i]@)
}

/// Every text of the list is a word: five ASCII letters of either case.
pub open spec fn all_words(texts: Seq<&str>) -> bool {
    forall|i: int| 0 <= i < texts.len() ==> is_word(upper_seq(#[trigger] texts[i]@))
}

/// The words that a list of texts spells, each in upper case.
pub open spec fn spelled(texts: Seq<&str>) -> Seq<Seq<char>> {
    Seq::new(texts.len(), |i: int| upper_seq(texts[i]@))
}

/// The pool of candidate secrets and the list of accepted guesses.
#[derive(Clone, Debug)]
pub struct Lexicon {
    pool: Vec<Word>,
    valid: Vec<Word>,
}

/// Draws one word of `pool` with `rand::seq::IndexedRandom::choose`, from the generator
/// that `rand::rng` hands out. That call gives nothing for an empty slice and otherwise one
/// of the slice's items, picked by a random index below its length; which one is not stated.
#[verifier::external_body]
fn choose_word(pool: &Vec<Word>) -> (picked: Option<Word>)
    ensures
        picked is None <==> pool@.len() == 0,
        picked matches Some(word) ==> pool@.contains(word),
{
    let mut rng = rand::rng();
    pool.choose(&mut rng).copied()
}

/// Reads every text of a list as a word, or nothing if one of them is no word.
fn parse_all(texts: &[&str]) -> (r: Option<Vec<Word>>)
    ensures
        r is Some <==> all_words(texts@),
        r matches Some(words) ==> spellings(words@) == spelled(texts@),
{
    let mut words: Vec<Word> = Vec::new();
    let mut i: usize = 0;
    while i < texts.len()
        invariant
            i <= texts.len(),
            words@.len() == i,
            forall|j: int| 0 <= j < i ==> is_word(upper_seq(#[trigger] texts@[j]@)),
            forall|j: int| 0 <= j < i ==> (#[trigger] words@[j])@ == upper_seq(texts@[j]@),
        decreases texts.len() - i,
    {
        match Word::parse(texts[i]) {
            Some(word) => {
                words.push(word);
            },
            None => {
                return None;
            },
        }
        i += 1;
    }
    Some(words)
}

impl Lexicon {
    /// The candidate secrets, in the order given.
    pub closed spec fn pool(&self) -> Seq<Seq<char>> {
        spellings(self.pool@)
    }

    /// The words accepted as guesses.
    pub closed spec fn valid(&self) -> Set<Seq<char>> {
        spellings(self.valid@).to_set()
    }

    /// A lexicon of the two lists.
    pub fn new(pool: Vec<Word>, valid: Vec<Word>) -> (lexicon: Lexicon)
        ensures
            lexicon.pool() == spellings(pool@),
            lexicon.valid() == spellings(valid@).to_set(),
    {
        Lexicon { pool, valid }
    }

    /// A lexicon of two lists of texts, each of which has to spell a word; otherwise nothing.
    pub fn from_lists(pool: &[&str], valid: &[&str]) -> (r: Option<Lexicon>)
        ensures
            r is Some <==> all_words(pool@) && all_words(valid@),
            r matches Some(lexicon) ==> lexicon.pool() == spelled(pool@) && lexicon.valid()
                == spelled(valid@).to_set(),
    {
        let pool_words = match parse_all(pool) {
            Some(words) => words,
            None => {
                return None;
            },
        };
        let valid_words = match parse_all(valid) {
            Some(words) => words,
            None => {
                return None;
            },
        };
        Some(Lexicon { pool: pool_words, valid: valid_words })
    }

    /// Tells whether `word` is accepted as a guess.
    pub fn is_valid(&self, word: &Word) -> (r: bool)
        ensures
            r == self.valid().contains(word@),
    {
        let mut i: usize = 0;
        while i < self.valid.len()
            invariant
                i <= self.valid@.len(),
                forall|j: int| 0 <= j < i ==> (#[trigger] self.valid@[j])@ != word@,
            decreases self.valid@.len() - i,
        {
            if self.valid[i].same(word) {
                proof {
                    assert(spellings(self.valid@)[i as int] == word@);
                }
                return true;
            }
            i += 1;
        }
        proof {
            assert forall|j: int| 0 <= j < self.valid@.len() implies #[trigger] spellings(
                self.valid@,
            )[j] != word@ by {}
        }
        false
    }

    /// Draws a secret from the pool at random. An empty pool gives nothing; otherwise the
    /// result is one of the pool's words, and nothing more is known of it.
    pub fn pick_secret(&self) -> (r: Option<Word>)
        ensures
            r is None <==> self.pool().len() == 0,
            r matches Some(word) ==> self.pool().contains(word@),
    {
        let picked = choose_word(&self.pool);
        proof {
            if let Some(word) = picked {
                let i = choose|i: int| 0 <= i < self.pool@.len() && self.pool@[i] == word;
                assert(spellings(self.pool@)[i] == word@);
            }
        }
        picked
    }
}

} // verus!
