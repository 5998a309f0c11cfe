//! Letters and five-letter words.

use crate::text::push_letters;
use vstd::prelude::*;

verus! {

/// Number of letters in every word of the game.
pub const WORD_LEN: usize = 5;

/// `c` is one of `A` to `Z`.
pub open spec fn is_upper(c: char) -> bool {
    'A' <= c && c <= 'Z'
}

/// `c` is one of `a` to `z`.
pub open spec fn is_lower(c: char) -> bool {
    'a' <= c && c <= 'z'
}

/// `c` is an ASCII letter of either case.
pub open spec fn is_letter(c: char) -> bool {
    is_upper(c) || is_lower(c)
}

/// The upper-case form of `c`: `a` to `z` map to `A` to `Z`, every other character to itself.
pub open spec fn to_upper(c: char) -> char {
    if is_lower(c) {
        ((c as u8) - 32) as char
    } else {
        c
    }
}

/// The upper-case form of every character of `s`.
pub open spec fn upper_seq(s: Seq<char>) -> Seq<char> {
    Seq::new(s.len(), |i: int| to_upper(s[i]))
}

/// `s` is a word: exactly five upper-case letters.
pub open spec fn is_word(s: Seq<char>) -> bool {
    &&& s.len() == WORD_LEN
    &&& forall|i: int| 0 <= i < s.len() ==> is_upper(#[trigger] s[i])
}

/// Upper-casing a letter gives an upper-case letter, and leaves one that is upper-case already.
pub proof fn lemma_to_upper(c: char)
    ensures
        is_letter(c) <==> is_upper(to_upper(c)),
        is_upper(c) ==> to_upper(c) == c,
        to_upper(to_upper(c)) == to_upper(c),
{
}

/// Tells whether `c` is an ASCII letter.
pub fn is_ascii_letter(c: char) -> (r: bool)
    ensures
        r == is_letter(c),
{
    ('A' <= c && c <= 'Z') || ('a' <= c && c <= 'z')
}

/// Upper-cases an ASCII letter; any other character comes back unchanged.
pub fn ascii_upper(c: char) -> (u: char)
    ensures
        u == to_upper(c),
{
    if 'a' <= c && c <= 'z' {
        let code: u8 = c as u8;
        (code - 32) as char
    } else {
        c
    }
}

/// Five upper-case letters: the secret, or one guess.
#[derive(Clone, Copy, Debug, PartialEq, Eq)]
pub struct Word {
    letters: [char; 5],
}

impl View for Word {
    type V = Seq<char>;

    closed spec fn view(&self) -> Seq<char> {
        self.letters@
    }
}

impl Word {
    /// Every `Word` holds exactly five upper-case letters.
    #[verifier::type_invariant]
    pub open spec fn well_formed(self) -> bool {
        is_word(self@)
    }

    /// Reads a word from text of either case. Text that is not exactly five ASCII letters is
    /// no word.
    pub fn parse(text: &str) -> (r: Option<Word>)
        ensures
            r is Some <==> is_word(upper_seq(text@)),
            r matches Some(w) ==> w@ == upper_seq(text@),
    {
        if text.unicode_len() != WORD_LEN {
            return None;
        }
        let mut letters: [char; 5] = ['A'; 5];
        let mut i: usize = 0;
        while i < WORD_LEN
            invariant
                i <= WORD_LEN,
                text@.len() == WORD_LEN,
                forall|j: int| 0 <= j < i ==> is_letter(#[trigger] text@[j]),
                forall|j: int| 0 <= j < i ==> letters@[j] == to_upper(#[trigger] text@[j]),
            decreases WORD_LEN - i,
        {
            let c = text.get_char(i);
            if !is_ascii_letter(c) {
                proof {
                    assert(upper_seq(text@)[i as int] == to_upper(c));
                }
                return None;
            }
            letters[i] = ascii_upper(c);
            i += 1;
        }
        proof {
            assert forall|j: int| 0 <= j < 5 implies is_upper(#[trigger] letters@[j]) by {
                lemma_to_upper(text@[j]);
            }
        }
        Some(Word { letters })
    }

    /// The word of five letters that are known to be upper-case.
    pub(crate) fn from_letters(letters: [char; 5]) -> (word: Word)
        requires
            is_word(letters@),
        ensures
            word@ == letters@,
    {
        Word { letters }
    }

    /// The five letters, in order.
    pub fn letters(&self) -> (a: [char; 5])
        ensures
            a@ == self@,
            is_word(a@),
    {
        proof {
            use_type_invariant(self);
        }
        self.letters
    }

    /// The word as text.
    pub fn text(&self) -> (text: String)
        ensures
            text@ == self@,
    {
        let mut text = String::new();
        push_letters(&mut text, &self.letters);
        text
    }

    /// Tells whether two words hold the same letters.
    pub fn same(&self, other: &Word) -> (r: bool)
        ensures
            r == (self@ == other@),
    {
        let mut i: usize = 0;
        while i < WORD_LEN
            invariant
                i <= WORD_LEN,
                forall|j: int| 0 <= j < i ==> self@[j] == other@[j],
            decreases WORD_LEN - i,
        {
            if self.letters[i] != other.letters[i] {
                return false;
            }
            i += 1;
        }
        proof {
            assert(self@ =~= other@);
        }
        true
    }
}

} // verus!
