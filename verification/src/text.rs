//! Text helpers: comparison, search, decimal rendering and line splitting.

use vstd::prelude::*;
use vstd::string::StringExecFns;

verus! {

/// Whether two strings hold the same characters.
pub fn text_eq(a: &str, b: &str) -> (same: bool)
    ensures
        same == (a@ == b@),
{
    a.to_owned() == b.to_owned()
}

/// Copies an optional text.
pub fn clone_text(text: &Option<String>) -> (copy: Option<String>)
    ensures
        copy.deep_view() == text.deep_view(),
{
    match text {
        Some(text) => Some(text.clone()),
        None => None,
    }
}

/// Whether `c` occurs anywhere in `s`.
pub fn contains_char(s: &str, c: char) -> (found: bool)
    ensures
        found == s@.contains(c),
{
    broadcast use vstd::string::group_string_axioms;

    let mut found = false;
    for x in it: s.chars()
        invariant
            it.seq() == s@,
            found <==> (exists|j: int| 0 <= j < it.index() && s@[j] == c),
    {
        if x == c {
            found = true;
        }
    }
    found
}

/// The character that stands for the digit `d`.
pub open spec fn digit_char(d: nat) -> char {
    if d == 0 {
        '0'
    } else if d == 1 {
        '1'
    } else if d == 2 {
        '2'
    } else if d == 3 {
        '3'
    } else if d == 4 {
        '4'
    } else if d == 5 {
        '5'
    } else if d == 6 {
        '6'
    } else if d == 7 {
        '7'
    } else if d == 8 {
        '8'
    } else {
        '9'
    }
}

/// The decimal numeral of `n`, without leading zeros.
pub open spec fn decimal(n: nat) -> Seq<char>
    decreases n,
{
    if n < 10 {
        seq![digit_char(n)]
    } else {
        decimal(n / 10).push(digit_char(n % 10))
    }
}

/// The decimal numeral of `n`, with a minus sign where `n` is negative.
pub open spec fn signed_decimal(n: int) -> Seq<char> {
    if n < 0 {
        seq!['-'] + decimal((-n) as nat)
    } else {
        decimal(n as nat)
    }
}

fn digit_text(d: u64) -> (s: &'static str)
    requires
        d < 10,
    ensures
        s@ == seq![digit_char(d as nat)],
{
    proof {
        reveal_strlit("0");
        reveal_strlit("1");
        reveal_strlit("2");
        reveal_strlit("3");
        reveal_strlit("4");
        reveal_strlit("5");
        reveal_strlit("6");
        reveal_strlit("7");
        reveal_strlit("8");
        reveal_strlit("9");
    }
    let s = if d == 0 {
        "0"
    } else if d == 1 {
        "1"
    } else if d == 2 {
        "2"
    } else if d == 3 {
        "3"
    } else if d == 4 {
        "4"
    } else if d == 5 {
        "5"
    } else if d == 6 {
        "6"
    } else if d == 7 {
        "7"
    } else if d == 8 {
        "8"
    } else {
        "9"
    };
    assert(s@ =~= seq![digit_char(d as nat)]);
    s
}

/// Renders `n` as a decimal numeral.
pub fn decimal_string(n: u64) -> (out: String)
    ensures
        out@ == decimal(n as nat),
{
    let mut rest: u64 = n / 10;
    let mut out = String::from_str(digit_text(n % 10));
    assert(rest > 0 ==> decimal(n as nat) =~= decimal(rest as nat) + out@);
    while rest > 0
        invariant
            rest > 0 ==> decimal(n as nat) == decimal(rest as nat) + out@,
            rest == 0 ==> decimal(n as nat) == out@,
        decreases rest,
    {
        let ghost tail = out@;
        let ghost before = rest;
        let digit = digit_text(rest % 10);
        out = String::from_str(digit).concat(out.as_str());
        rest = rest / 10;
        proof {
            if before < 10 {
                assert(decimal(n as nat) =~= out@);
            } else {
                assert(decimal(before as nat) == decimal(rest as nat).push(
                    digit_char((before % 10) as nat),
                ));
                assert(decimal(n as nat) =~= decimal(rest as nat) + out@);
            }
        }
    }
    out
}

/// Renders `n` as a decimal numeral, with a leading minus sign where it is
/// negative.
pub fn signed_decimal_string(n: i64) -> (out: String)
    ensures
        out@ == signed_decimal(n as int),
{
    if n < 0 {
        proof {
            reveal_strlit("-");
        }
        let magnitude: u64 = if n == i64::MIN {
            9223372036854775808u64
        } else {
            (-n) as u64
        };
        let digits = decimal_string(magnitude);
        let out = String::from_str("-").concat(digits.as_str());
        assert(out@ =~= seq!['-'] + decimal((-n) as nat));
        out
    } else {
        decimal_string(n as u64)
    }
}

/// The last carriage return of a line that a line feed ended is not part of
/// the line.
pub open spec fn strip_carriage_return(line: Seq<char>) -> Seq<char> {
    if line.len() > 0 && line.last() == '\r' {
        line.drop_last()
    } else {
        line
    }
}

/// The lines of `rest`, where `current` holds the characters already read of
/// the line in progress.
pub open spec fn lines_after(rest: Seq<char>, current: Seq<char>) -> Seq<Seq<char>>
    decreases rest.len(),
{
    if rest.len() == 0 {
        if current.len() == 0 {
            Seq::empty()
        } else {
            seq![current]
        }
    } else if rest[0] == '\n' {
        seq![strip_carriage_return(current)] + lines_after(rest.skip(1), Seq::empty())
    } else {
        lines_after(rest.skip(1), current.push(rest[0]))
    }
}

/// The lines of a text. A line ends at a line feed, or at a carriage return
/// directly followed by one; the ending is not part of the line. Text after
/// the last line feed is a line of its own, kept as it stands, unless it is
/// empty.
pub open spec fn spec_lines(text: Seq<char>) -> Seq<Seq<char>> {
    lines_after(text, Seq::empty())
}

/// Calls `str::lines` and collects what it yields. The contract restates the
/// documentation of `lines`: the text is split at each `\n`, a `\r` directly
/// before that `\n` is dropped with it, and a last line without line ending is
/// yielded unchanged. Verus does not check this against the standard library.
#[verifier::external_body]
pub(crate) fn collect_lines(text: &str) -> (lines: Vec<String>)
    ensures
        lines.deep_view() == spec_lines(text@),
{
    text.lines().map(|line| line.to_owned()).collect()
}

} // verus!
