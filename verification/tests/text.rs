use wordle::text::push_decimal;
use wordle::text::push_letters;
use wordle::StatusMessage;

fn decimal(n: usize) -> String {
    let mut out = String::new();
    push_decimal(&mut out, n);
    out
}

#[test]
fn decimal_numerals() {
    assert_eq!(decimal(0), "0");
    assert_eq!(decimal(1), "1");
    assert_eq!(decimal(6), "6");
    assert_eq!(decimal(9), "9");
    assert_eq!(decimal(10), "10");
    assert_eq!(decimal(109), "109");
    assert_eq!(decimal(12345), "12345");
    assert_eq!(decimal(usize::MAX), format!("{}", usize::MAX));
}

#[test]
fn numerals_and_letters_are_appended() {
    let mut out = String::from("n = ");
    push_decimal(&mut out, 42);
    assert_eq!(out, "n = 42");
    push_letters(&mut out, &['H', 'E', 'L', 'L', 'O']);
    assert_eq!(out, "n = 42HELLO");
}

#[test]
fn the_words_of_each_notice() {
    assert_eq!(StatusMessage::Empty.text(), "");
    assert_eq!(StatusMessage::TooShort.text(), "5 chars needed!");
    assert_eq!(StatusMessage::InvalidWord.text(), "not a valid word!");
    assert_eq!(StatusMessage::TryAgain.text(), "errr! try again");
    assert_eq!(StatusMessage::Won.text(), "you won!!");
}
