//! Building the text of a line: decimal numbers and quoted strings.

use vstd::prelude::*;
use vstd::string::*;

verus! {

/// The character of a decimal digit.
pub open spec fn digit_char(digit: nat) -> char {
    if digit == 0 {
        '0'
    } else if digit == 1 {
        '1'
    } else if digit == 2 {
        '2'
    } else if digit == 3 {
        '3'
    } else if digit == 4 {
        '4'
    } else if digit == 5 {
        '5'
    } else if digit == 6 {
        '6'
    } else if digit == 7 {
        '7'
    } else if digit == 8 {
        '8'
    } else {
        '9'
    }
}

/// A number written in decimal, without sign and without leading zeros.
pub open spec fn decimal(n: nat) -> Seq<char>
    decreases n,
{
    if n < 10 {
        seq![digit_char(n)]
    } else {
        decimal(n / 10).push(digit_char(n % 10))
    }
}

/// The text of one decimal digit.
fn digit_text(digit: u64) -> (text: &'static str)
    requires
        digit < 10,
    ensures
        text@ == seq![digit_char(digit as nat)],
{
    proof {
        reveal_strlit("0");
        reveal_strlit("1");
        reveal_strlit("2");
        reveal_strlit("3");
        reveal_strlit("4");
        reveal_strlit("5");
        reveal_strlit("6");
        reveal_strlit("7");
        reveal_strlit("8");
        reveal_strlit("9");
    }
    if digit == 0 {
        "0"
    } else if digit == 1 {
        "1"
    } else if digit == 2 {
        "2"
    } else if digit == 3 {
        "3"
    } else if digit == 4 {
        "4"
    } else if digit == 5 {
        "5"
    } else if digit == 6 {
        "6"
    } else if digit == 7 {
        "7"
    } else if digit == 8 {
        "8"
    } else {
        "9"
    }
}

/// Writes a number in decimal.
pub fn decimal_string(n: u64) -> (text: String)
    ensures
        text@ == decimal(n as nat),
    decreases n,
{
    if n < 10 {
        String::from_str(digit_text(n))
    } else {
        let mut text = decimal_string(n / 10);
        text.append(digit_text(n % 10));
        text
    }
}

/// A string as its `Debug` form shows it: between double quotes, with the
/// characters escaped that the form escapes.
pub uninterp spec fn quoted(text: Seq<char>) -> Seq<char>;

/// Formats a string with `{:?}`, the `Debug` form of `str`. Trusted: the
/// result is a function of the text alone, which `quoted` names.
#[verifier::external_body]
fn debug_quoted(text: &str) -> (shown: String)
    ensures
        shown@ == quoted(text@),
{
    format!("{:?}", text)
}

/// What stands for a present value: its shown form inside `Some(` and `)`.
pub open spec fn spec_wrap_some(shown_inner: Seq<char>) -> Seq<char> {
    "Some("@ + shown_inner + ")"@
}

/// Puts the shown form of a value inside `Some(` and `)`.
pub fn wrap_some(shown_inner: &str) -> (shown: String)
    ensures
        shown@ == spec_wrap_some(shown_inner@),
{
    let mut shown = String::from_str("Some(");
    shown.append(shown_inner);
    shown.append(")");
    shown
}

/// An optional string as its `Debug` form shows it: `None`, or the quoted
/// string inside `Some(` and `)`.
pub open spec fn shown_option(text: Option<Seq<char>>) -> Seq<char> {
    match text {
        None => "None"@,
        Some(inner) => spec_wrap_some(quoted(inner)),
    }
}

/// The text of an optional string.
pub open spec fn option_text(text: Option<String>) -> Option<Seq<char>> {
    match text {
        None => None,
        Some(inner) => Some(inner@),
    }
}

/// Writes an optional string as its `Debug` form shows it.
pub fn show_option(text: &Option<String>) -> (shown: String)
    ensures
        shown@ == shown_option(option_text(*text)),
{
    match text {
        None => String::from_str("None"),
        Some(inner) => {
            let inner_shown = debug_quoted(inner.as_str());
            wrap_some(inner_shown.as_str())
        },
    }
}

/// The texts of a sequence of strings.
pub open spec fn texts(strings: Seq<String>) -> Seq<Seq<char>> {
    strings.map_values(|string: String| string@)
}

/// The pieces of a text put together, in order and with nothing between
/// them.
pub open spec fn joined(pieces: Seq<Seq<char>>) -> Seq<char>
    decreases pieces.len(),
{
    if pieces.len() == 0 {
        Seq::empty()
    } else {
        joined(pieces.drop_last()) + pieces.last()
    }
}

/// Puts the pieces of a text together.
pub fn join(pieces: &Vec<String>) -> (text: String)
    ensures
        text@ == joined(texts(pieces@)),
{
    let mut text = String::new();
    let mut i: usize = 0;
    while i < pieces.len()
        invariant
            i <= pieces.len(),
            text@ == joined(texts(pieces@).take(i as int)),
        decreases pieces.len() - i,
    {
        assert(texts(pieces@).take(i + 1).drop_last() =~= texts(pieces@).take(i as int));
        text.append(pieces[i].as_str());
        i = i + 1;
    }
    assert(texts(pieces@).take(i as int) =~= texts(pieces@));
    text
}

} // verus!
