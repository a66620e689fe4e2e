//! Rendering of numbers and report lines as text.

use vstd::prelude::*;
use vstd::string::StringExecFns;

verus! {

/// The character for one decimal digit.
pub open spec fn digit_char(d: nat) -> char
    recommends
        d < 10,
{
    if d == 0 {
        '0'
    } else if d == 1 {
        '1'
    } else if d == 2 {
        '2'
    } else if d == 3 {
        '3'
    } else if d == 4 {
        '4'
    } else if d == 5 {
        '5'
    } else if d == 6 {
        '6'
    } else if d == 7 {
        '7'
    } else if d == 8 {
        '8'
    } else {
        '9'
    }
}

/// The decimal rendering of a natural number, most significant digit first,
/// with no leading zeros (a single `'0'` for zero).
pub open spec fn dec_of(n: nat) -> Seq<char>
    decreases n,
{
    if n < 10 {
        seq![digit_char(n)]
    } else {
        dec_of(n / 10) + seq![digit_char(n % 10)]
    }
}

fn digit_str(d: u64) -> (r: &'static str)
    requires
        d < 10,
    ensures
        r@ == seq![digit_char(d as nat)],
{
    proof {
        reveal_strlit("0");
        reveal_strlit("1");
        reveal_strlit("2");
        reveal_strlit("3");
        reveal_strlit("4");
        reveal_strlit("5");
        reveal_strlit("6");
        reveal_strlit("7");
        reveal_strlit("8");
        reveal_strlit("9");
    }
    let r = match d {
        0 => "0",
        1 => "1",
        2 => "2",
        3 => "3",
        4 => "4",
        5 => "5",
        6 => "6",
        7 => "7",
        8 => "8",
        _ => "9",
    };
    proof {
        assert(r@ =~= seq![digit_char(d as nat)]);
    }
    r
}

/// Renders a number in decimal.
pub fn u64_to_string(n: u64) -> (r: String)
    ensures
        r@ == dec_of(n as nat),
    decreases n,
{
    if n < 10 {
        digit_str(n).to_owned()
    } else {
        let mut s = u64_to_string(n / 10);
        s.append(digit_str(n % 10));
        s
    }
}

/// The line reported for one completed verification: the path, one space,
/// then `OK` on a match and `FAIL` on a mismatch.
pub fn report_line(path: &str, matched: bool) -> (r: String)
    ensures
        matched ==> r@ == path@ + " OK"@,
        !matched ==> r@ == path@ + " FAIL"@,
{
    let mut s = path.to_owned();
    if matched {
        s.append(" OK");
    } else {
        s.append(" FAIL");
    }
    s
}

/// The error text for a file whose declared size exceeds the byte budget.
pub fn size_exceeded_message(path: &str, max_bytes: u64) -> (r: String)
    ensures
        r@ == "\""@ + path@ + " is bigger than the maximum allowed buffer size "@ + dec_of(
            max_bytes as nat,
        ),
{
    let mut s = "\"".to_owned();
    s.append(path);
    s.append(" is bigger than the maximum allowed buffer size ");
    let rendered = u64_to_string(max_bytes);
    s.append(rendered.as_str());
    s
}

/// The error text propagated when a verification task fails with an I/O
/// error, enriched with the offending path.
pub fn read_failure_message(path: &str, cause: &str) -> (r: String)
    ensures
        r@ == "failed reading "@ + path@ + ": "@ + cause@,
{
    let mut s = "failed reading ".to_owned();
    s.append(path);
    s.append(": ");
    s.append(cause);
    s
}

/// The error text for a path that could not be opened for a non-transient
/// reason.
pub fn open_failure_message(path: &str) -> (r: String)
    ensures
        r@ == "Failed to open "@ + path@,
{
    let mut s = "Failed to open ".to_owned();
    s.append(path);
    s
}

} // verus!
