//! Character-level helpers for names and messages.
use vstd::prelude::*;
use vstd::string::StringExecFns;
use vstd::string::StrSliceExecFns;

verus! {

/// The characters of a string, in order.
pub fn characters(text: &str) -> (chars: Vec<char>)
    ensures
        chars@ == text@,
{
    let mut chars: Vec<char> = Vec::new();
    for c in it: text.chars()
        invariant
            it.seq() == text@,
            chars@ == text@.take(it.index() as int),
    {
        chars.push(c);
    }
    assert(text@.take(text@.len() as int) == text@);
    chars
}

/// At most the first `limit` characters.
pub open spec fn bounded(text: Seq<char>, limit: int) -> Seq<char> {
    if text.len() <= limit {
        text
    } else {
        text.take(limit)
    }
}

/// A copy of at most the first `limit` characters.
pub fn bounded_copy(text: &str, limit: usize) -> (copy: String)
    ensures
        copy@ == bounded(text@, limit as int),
{
    let length: usize = text.unicode_len();
    if length <= limit {
        text.to_owned()
    } else {
        assert(text@.subrange(0, limit as int) =~= text@.take(limit as int));
        text.substring_char(0, limit).to_owned()
    }
}

/// Two texts, one after the other.
pub fn joined(first: &str, second: &str) -> (text: String)
    ensures
        text@ == first@ + second@,
{
    let mut text = first.to_owned();
    text.append(second);
    text
}

/// A decimal digit.
pub open spec fn digit(value: int) -> char {
    (48 + value) as char
}

/// A number in decimal digits.
pub open spec fn decimal_of(number: nat) -> Seq<char>
    decreases number,
{
    if number < 10 {
        seq![digit(number as int)]
    } else {
        decimal_of(number / 10).push(digit(number as int % 10))
    }
}

fn digit_text(value: usize) -> (text: &'static str)
    requires
        value < 10,
    ensures
        text@ == seq![digit(value as int)],
{
    proof {
        reveal_strlit("0");
        reveal_strlit("1");
        reveal_strlit("2");
        reveal_strlit("3");
        reveal_strlit("4");
        reveal_strlit("5");
        reveal_strlit("6");
        reveal_strlit("7");
        reveal_strlit("8");
        reveal_strlit("9");
    }
    match value {
        0 => "0",
        1 => "1",
        2 => "2",
        3 => "3",
        4 => "4",
        5 => "5",
        6 => "6",
        7 => "7",
        8 => "8",
        _ => "9",
    }
}

/// A number in decimal digits.
pub fn decimal(number: usize) -> (text: String)
    ensures
        text@ == decimal_of(number as nat),
    decreases number,
{
    if number < 10 {
        return digit_text(number).to_owned();
    }
    let mut text = decimal(number / 10);
    text.append(digit_text(number % 10));
    assert(text@ =~= decimal_of(number as nat));
    text
}

/// The number that decimal digits spell.
pub open spec fn value_of(digits: Seq<char>) -> int
    decreases digits.len(),
{
    if digits.len() == 0 {
        0
    } else {
        10 * value_of(digits.drop_last()) + (digits.last() as int - '0' as int)
    }
}

/// A number in decimal is read back as that number, from digits alone, and starts
/// with a zero only where it is zero.
pub proof fn law_decimals_read_back(number: nat)
    ensures
        value_of(decimal_of(number)) == number,
        decimal_of(number).len() > 0,
        forall|i: int|
            0 <= i < decimal_of(number).len() ==> '0' <= #[trigger] decimal_of(number)[i] <= '9',
        number > 0 ==> decimal_of(number)[0] != '0',
    decreases number,
{
    let digits = decimal_of(number);
    reveal_with_fuel(value_of, 2);
    if number >= 10 {
        law_decimals_read_back(number / 10);
        assert(digits.drop_last() =~= decimal_of(number / 10));
        assert(digits[0] == decimal_of(number / 10)[0]);
    } else {
        assert(digits.drop_last() =~= Seq::<char>::empty());
    }
}

/// A bounded text is the text itself, or as much of its start as the bound allows.
pub proof fn law_bounded_texts_keep_their_start(text: Seq<char>, limit: int, i: int)
    requires
        0 <= limit,
        0 <= i < text.len(),
    ensures
        i < bounded(text, limit).len() <==> i < limit,
        i < limit ==> bounded(text, limit)[i] == text[i],
        bounded(text, limit).len() <= text.len(),
{
}

} // verus!
