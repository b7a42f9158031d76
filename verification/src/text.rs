//! Small helpers for building text.

use vstd::prelude::*;
use vstd::string::StringExecFns;

verus! {

/// The character that stands for a digit below ten.
pub open spec fn digit(value: nat) -> char {
    seq!['0', '1', '2', '3', '4', '5', '6', '7', '8', '9'][value as int]
}

/// The decimal numeral of `value`, without leading zeros.
pub open spec fn decimal_digits(value: nat) -> Seq<char>
    decreases value,
{
    if value < 10 {
        seq![digit(value)]
    } else {
        decimal_digits(value / 10).push(digit(value % 10))
    }
}

/// The decimal numeral of `value`, with a minus sign in front of a negative
/// one.
pub open spec fn signed_digits(value: int) -> Seq<char> {
    if value < 0 {
        seq!['-'] + decimal_digits((-value) as nat)
    } else {
        decimal_digits(value as nat)
    }
}

/// The items of `items` in their order, with `separator` between each two.
pub open spec fn joined(items: Seq<Seq<char>>, separator: Seq<char>) -> Seq<char>
    decreases items.len(),
{
    if items.len() == 0 {
        Seq::empty()
    } else if items.len() == 1 {
        items[0]
    } else {
        joined(items.drop_last(), separator) + separator + items.last()
    }
}

/// `count` copies of `unit`, one after the other.
pub open spec fn repeated(unit: Seq<char>, count: nat) -> Seq<char>
    decreases count,
{
    if count == 0 {
        Seq::empty()
    } else {
        repeated(unit, (count - 1) as nat) + unit
    }
}

fn digit_text(value: usize) -> (text: &'static str)
    requires
        value < 10,
    ensures
        text@ == seq![digit(value as nat)],
{
    proof {
        reveal_strlit("0");
        reveal_strlit("1");
        reveal_strlit("2");
        reveal_strlit("3");
        reveal_strlit("4");
        reveal_strlit("5");
        reveal_strlit("6");
        reveal_strlit("7");
        reveal_strlit("8");
        reveal_strlit("9");
    }
    let text = match value {
        0 => "0",
        1 => "1",
        2 => "2",
        3 => "3",
        4 => "4",
        5 => "5",
        6 => "6",
        7 => "7",
        8 => "8",
        _ => "9",
    };
    assert(text@ =~= seq![digit(value as nat)]);
    text
}

/// Writes `value` as a decimal numeral.
pub fn decimal(value: usize) -> (text: String)
    ensures
        text@ == decimal_digits(value as nat),
    decreases value,
{
    if value < 10 {
        String::from_str(digit_text(value))
    } else {
        let mut text = decimal(value / 10);
        text.append(digit_text(value % 10));
        assert(text@ =~= decimal_digits(value as nat));
        text
    }
}

/// Writes `value` as a decimal numeral with its sign.
pub fn signed_decimal(value: i32) -> (text: String)
    ensures
        text@ == signed_digits(value as int),
{
    if value < 0 {
        let magnitude: i64 = 0 - (value as i64);
        let digits = decimal(magnitude as usize);
        proof {
            reveal_strlit("-");
            assert("-"@ =~= seq!['-']);
        }
        let mut text = String::from_str("-");
        text.append(digits.as_str());
        text
    } else {
        decimal(value as usize)
    }
}

/// Writes the items of `items` in their order, with `separator` between
/// each two.
pub fn join(items: &Vec<String>, separator: &str) -> (text: String)
    ensures
        text@ == joined(items.deep_view(), separator@),
{
    let mut text = String::new();
    let mut written: usize = 0;
    while written < items.len()
        invariant
            written <= items.len(),
            text@ == joined(items.deep_view().take(written as int), separator@),
        decreases items.len() - written,
    {
        let ghost before = items.deep_view().take(written as int);
        let ghost after = items.deep_view().take(written as int + 1);
        if written > 0 {
            text.append(separator);
        }
        text.append(items[written].as_str());
        proof {
            assert(after.drop_last() =~= before);
            assert(after.last() == items[written as int]@);
            assert(text@ =~= joined(after, separator@));
        }
        written = written + 1;
    }
    assert(items.deep_view().take(written as int) =~= items.deep_view());
    text
}

/// Writes `unit` `count` times in a row.
pub fn repeat(unit: &str, count: usize) -> (text: String)
    ensures
        text@ == repeated(unit@, count as nat),
{
    let mut text = String::new();
    let mut written: usize = 0;
    while written < count
        invariant
            written <= count,
            text@ == repeated(unit@, written as nat),
        decreases count - written,
    {
        text.append(unit);
        written = written + 1;
    }
    text
}

} // verus!
