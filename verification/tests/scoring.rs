use wordle::evaluate;
use wordle::LetterMark;
use wordle::LetterMark::Absent;
use wordle::LetterMark::Exact;
use wordle::LetterMark::Present;
use wordle::Word;

fn word(text: &str) -> Word {
    Word::parse(text).unwrap()
}

fn score(guess: &str, secret: &str) -> [LetterMark; 5] {
    evaluate(&word(guess), &word(secret))
}

fn count(text: &str, c: char) -> usize {
    text.chars().filter(|x| *x == c).count()
}

const SAMPLES: [&str; 12] = [
    "ERASE", "SPEED", "CREPE", "EERIE", "ABIDE", "LLAMA", "ALLOY", "MAMMA", "AAAAA", "ABABA",
    "BABAB", "ZZZZZ",
];

#[test]
fn speed_against_erase() {
    assert_eq!(score("SPEED", "ERASE"), [Present, Absent, Present, Present, Absent]);
}

#[test]
fn the_guess_that_is_the_secret_is_all_exact() {
    assert_eq!(score("ERASE", "ERASE"), [Exact, Exact, Exact, Exact, Exact]);
}

#[test]
fn no_letter_in_common_is_all_absent() {
    assert_eq!(score("FJORD", "NYMPH"), [Absent, Absent, Absent, Absent, Absent]);
}

#[test]
fn an_anagram_is_all_present_where_it_is_not_exact() {
    assert_eq!(score("LEAST", "STEAL"), [Present, Present, Present, Present, Present]);
    assert_eq!(score("STALE", "STEAL"), [Exact, Exact, Present, Present, Present]);
}

#[test]
fn an_exact_hit_to_the_right_uses_up_the_only_occurrence() {
    // ABIDE has one E, at the end, where the guess has one too: the two E's in front of
    // it get nothing.
    assert_eq!(score("EERIE", "ABIDE"), [Absent, Absent, Absent, Present, Exact]);
}

#[test]
fn misplaced_copies_are_served_from_the_left() {
    // CREPE has two E's. The last E of the guess takes one exactly, the first takes the
    // other, the second finds none left.
    assert_eq!(score("EERIE", "CREPE"), [Present, Absent, Present, Absent, Exact]);
}

#[test]
fn more_copies_in_the_guess_than_in_the_secret() {
    assert_eq!(score("LLAMA", "ALLOY"), [Present, Exact, Present, Absent, Absent]);
    assert_eq!(score("AAAAA", "ABABA"), [Exact, Absent, Exact, Absent, Exact]);
    assert_eq!(score("MAMMA", "LLAMA"), [Absent, Present, Absent, Exact, Exact]);
}

#[test]
fn more_copies_in_the_secret_than_in_the_guess() {
    assert_eq!(score("ALLOY", "LLAMA"), [Present, Exact, Present, Absent, Absent]);
    assert_eq!(score("BABAB", "ABABA"), [Present, Present, Present, Present, Absent]);
}

#[test]
fn lower_case_text_scores_like_upper_case() {
    assert_eq!(score("speed", "Erase"), score("SPEED", "ERASE"));
}

#[test]
fn exact_is_given_only_where_the_letters_agree() {
    for guess in SAMPLES {
        for secret in SAMPLES {
            let marks = score(guess, secret);
            let g: Vec<char> = guess.chars().collect();
            let s: Vec<char> = secret.chars().collect();
            for i in 0..5 {
                assert_eq!(marks[i] == Exact, g[i] == s[i], "{} against {} at {}", guess, secret, i);
            }
        }
    }
}

#[test]
fn a_letter_is_credited_as_often_as_both_words_have_it() {
    for guess in SAMPLES {
        for secret in SAMPLES {
            let marks = score(guess, secret);
            let g: Vec<char> = guess.chars().collect();
            for c in 'A'..='Z' {
                let credited = (0..5).filter(|i| g[*i] == c && marks[*i] != Absent).count();
                assert!(credited <= count(secret, c));
                assert_eq!(credited, count(secret, c).min(count(guess, c)));
            }
        }
    }
}

#[test]
fn scoring_twice_gives_the_same_marks() {
    for guess in SAMPLES {
        for secret in SAMPLES {
            assert_eq!(score(guess, secret), score(guess, secret));
        }
    }
}
