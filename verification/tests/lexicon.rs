use wordle::Lexicon;
use wordle::Word;

fn word(text: &str) -> Word {
    Word::parse(text).unwrap()
}

#[test]
fn a_word_is_valid_if_the_list_of_guesses_holds_it() {
    let lexicon = Lexicon::from_lists(&["CRANE"], &["CRANE", "SPEED", "erase"]).unwrap();
    assert!(lexicon.is_valid(&word("CRANE")));
    assert!(lexicon.is_valid(&word("speed")));
    assert!(lexicon.is_valid(&word("ERASE")));
    assert!(!lexicon.is_valid(&word("STALE")));
    assert!(!lexicon.is_valid(&word("CRANK")));
}

#[test]
fn the_pool_alone_makes_no_word_valid() {
    let lexicon = Lexicon::from_lists(&["CRANE"], &["SPEED"]).unwrap();
    assert!(!lexicon.is_valid(&word("CRANE")));
    assert!(lexicon.is_valid(&word("SPEED")));
}

#[test]
fn nothing_is_valid_in_an_empty_list() {
    let lexicon = Lexicon::new(vec![word("CRANE")], Vec::new());
    assert!(!lexicon.is_valid(&word("CRANE")));
}

#[test]
fn lists_with_a_text_that_is_no_word_give_no_lexicon() {
    assert!(Lexicon::from_lists(&["CRANE", "CRAN"], &["CRANE"]).is_none());
    assert!(Lexicon::from_lists(&["CRANE"], &["CRANE", "SP33D"]).is_none());
    assert!(Lexicon::from_lists(&[""], &[]).is_none());
    assert!(Lexicon::from_lists(&[], &[]).is_some());
}

#[test]
fn new_and_from_lists_agree() {
    let a = Lexicon::new(vec![word("CRANE")], vec![word("CRANE"), word("SPEED")]);
    let b = Lexicon::from_lists(&["crane"], &["crane", "speed"]).unwrap();
    for text in ["CRANE", "SPEED", "ERASE"] {
        assert_eq!(a.is_valid(&word(text)), b.is_valid(&word(text)));
    }
    assert_eq!(a.pick_secret(), Some(word("CRANE")));
    assert_eq!(b.pick_secret(), Some(word("CRANE")));
}

#[test]
fn an_empty_pool_has_no_secret() {
    let lexicon = Lexicon::from_lists(&[], &["CRANE"]).unwrap();
    assert_eq!(lexicon.pick_secret(), None);
}

#[test]
fn the_secret_is_a_word_of_the_pool() {
    let pool = ["CRANE", "SPEED", "ERASE", "STALE"];
    let lexicon = Lexicon::from_lists(&pool, &["CRANE"]).unwrap();
    for _ in 0..200 {
        let secret = lexicon.pick_secret().unwrap();
        assert!(pool.contains(&secret.text().as_str()));
    }
}

#[test]
fn every_word_of_the_pool_can_be_drawn() {
    let pool = ["CRANE", "SPEED", "ERASE"];
    let lexicon = Lexicon::from_lists(&pool, &[]).unwrap();
    let mut seen = [false; 3];
    for _ in 0..2000 {
        let text = lexicon.pick_secret().unwrap().text();
        let at = pool.iter().position(|p| *p == text).unwrap();
        seen[at] = true;
    }
    assert_eq!(seen, [true, true, true]);
}
