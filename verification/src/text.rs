//! Building the texts that the game shows.

use vstd::prelude::*;

verus! {

/// `String::push` of std: appends one character to the end of the string.
pub assume_specification[ String::push ](text: &mut String, c: char)
    ensures
        final(text)@ == old(text)@.push(c),
;

/// The character of the decimal digit `d`.
pub open spec fn digit(d: nat) -> char {
    ((d + 48) as u8) as char
}

/// The decimal numeral of `n`, without leading zeros.
pub open spec fn decimal(n: nat) -> Seq<char>
    decreases n,
{
    if n < 10 {
        seq![digit(n)]
    } else {
        decimal(n / 10).push(digit(n % 10))
    }
}

/// Appends the decimal numeral of `n` to `out`.
pub fn push_decimal(out: &mut String, n: usize)
    ensures
        final(out)@ == old(out)@ + decimal(n as nat),
    decreases n,
{
    if n >= 10 {
        push_decimal(out, n / 10);
    }
    let d: u8 = (n % 10) as u8;
    out.push((d + 48) as char);
}

/// Appends the characters of `letters` to `out`.
pub fn push_letters(out: &mut String, letters: &[char; 5])
    ensures
        final(out)@ == old(out)@ + letters@,
{
    let mut i: usize = 0;
    while i < 5
        invariant
            i <= 5,
            out@ == old(out)@ + letters@.take(i as int),
        decreases 5 - i,
    {
        out.push(letters[i]);
        i += 1;
    }
}

} // verus!
