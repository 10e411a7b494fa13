//! The controller's messages.
//!
//! Controller-level output — the iteration banner, the non-zero-exit
//! warning, the success confirmation and the exhaustion notice — is
//! distinguishable from child output only by its fixed textual prefixes,
//! so each message is pinned down to the exact character sequence.

use vstd::prelude::*;
use crate::text::contains_seq;
use crate::text::is_match_at;

verus! {

/// The character of a single decimal digit.
pub open spec fn digit_char(d: int) -> char {
    if d == 0 {
        '0'
    } else if d == 1 {
        '1'
    } else if d == 2 {
        '2'
    } else if d == 3 {
        '3'
    } else if d == 4 {
        '4'
    } else if d == 5 {
        '5'
    } else if d == 6 {
        '6'
    } else if d == 7 {
        '7'
    } else if d == 8 {
        '8'
    } else {
        '9'
    }
}

/// Decimal digits of a non-negative number, most significant first.
pub open spec fn dec_digits(n: int) -> Seq<char>
    decreases n,
{
    if n < 10 {
        seq![digit_char(n)]
    } else {
        dec_digits(n / 10).push(digit_char(n % 10))
    }
}

/// Decimal rendering of a possibly negative number.
pub open spec fn int_digits(k: int) -> Seq<char> {
    if k < 0 {
        "-"@ + dec_digits(-k)
    } else {
        dec_digits(k)
    }
}

fn digit_str(d: u64) -> (r: &'static str)
    requires
        d < 10,
    ensures
        r@ == seq![digit_char(d as int)],
{
    let r: &'static str = if d == 0 {
        "0"
    } else if d == 1 {
        "1"
    } else if d == 2 {
        "2"
    } else if d == 3 {
        "3"
    } else if d == 4 {
        "4"
    } else if d == 5 {
        "5"
    } else if d == 6 {
        "6"
    } else if d == 7 {
        "7"
    } else if d == 8 {
        "8"
    } else {
        "9"
    };
    proof {
        reveal_strlit("0");
        reveal_strlit("1");
        reveal_strlit("2");
        reveal_strlit("3");
        reveal_strlit("4");
        reveal_strlit("5");
        reveal_strlit("6");
        reveal_strlit("7");
        reveal_strlit("8");
        reveal_strlit("9");
        assert(r@ =~= seq![digit_char(d as int)]);
    }
    r
}

/// Renders a number in decimal.
pub fn decimal_string(n: u64) -> (r: String)
    ensures
        r@ == dec_digits(n as int),
    decreases n,
{
    if n < 10 {
        let mut s = String::new();
        s.append(digit_str(n));
        proof {
            assert(s@ =~= dec_digits(n as int));
        }
        s
    } else {
        let mut s = decimal_string(n / 10);
        s.append(digit_str(n % 10));
        proof {
            assert(s@ =~= dec_digits(n as int));
        }
        s
    }
}

/// Renders an exit code in decimal, sign included.
pub fn exit_code_string(code: i32) -> (r: String)
    ensures
        r@ == int_digits(code as int),
{
    if code >= 0 {
        decimal_string(code as u64)
    } else {
        let mut s = String::new();
        s.append("-");
        let mag: i64 = -(code as i64);
        let d = decimal_string(mag as u64);
        s.append(d.as_str());
        proof {
            assert(s@ =~= int_digits(code as int));
        }
        s
    }
}

/// The banner printed at the top of attempt `i` of a budget of `n`.
pub open spec fn banner_text(i: int, n: int) -> Seq<char> {
    "--- iteration "@ + dec_digits(i) + "/"@ + dec_digits(n) + " ---"@
}

pub fn banner_message(i: u16, n: u16) -> (r: String)
    ensures
        r@ == banner_text(i as int, n as int),
{
    let mut s = String::new();
    s.append("--- iteration ");
    let di = decimal_string(i as u64);
    s.append(di.as_str());
    s.append("/");
    let dn = decimal_string(n as u64);
    s.append(dn.as_str());
    s.append(" ---");
    proof {
        assert(s@ =~= banner_text(i as int, n as int));
    }
    s
}

/// The confirmation printed when the marker is detected.
pub open spec fn success_text(marker: Seq<char>) -> Seq<char> {
    "Completion phrase detected: "@ + marker + "\nAll tasks are completed."@
}

pub fn success_message(marker: &str) -> (r: String)
    ensures
        r@ == success_text(marker@),
{
    let mut s = String::new();
    s.append("Completion phrase detected: ");
    s.append(marker);
    s.append("\nAll tasks are completed.");
    proof {
        assert(s@ =~= success_text(marker@));
    }
    s
}

/// The warning printed when the agent exits non-zero without the marker.
pub open spec fn warning_text(code: int) -> Seq<char> {
    "opencode exited with non-zero code: "@ + int_digits(code)
}

pub fn warning_message(code: i32) -> (r: String)
    ensures
        r@ == warning_text(code as int),
{
    let mut s = String::new();
    s.append("opencode exited with non-zero code: ");
    let d = exit_code_string(code);
    s.append(d.as_str());
    proof {
        assert(s@ =~= warning_text(code as int));
    }
    s
}

/// The notice printed when the budget runs out without the marker.
pub open spec fn exhaustion_text(n: int, marker: Seq<char>) -> Seq<char> {
    "Reached max iterations ("@ + dec_digits(n) + ") without seeing completion phrase '"@ + marker
        + "'"@
}

pub fn exhaustion_message(n: u16, marker: &str) -> (r: String)
    ensures
        r@ == exhaustion_text(n as int, marker@),
{
    let mut s = String::new();
    s.append("Reached max iterations (");
    let d = decimal_string(n as u64);
    s.append(d.as_str());
    s.append(") without seeing completion phrase '");
    s.append(marker);
    s.append("'");
    proof {
        assert(s@ =~= exhaustion_text(n as int, marker@));
    }
    s
}

/// The exhaustion notice names both the configured limit and the configured
/// marker.
pub proof fn lemma_exhaustion_mentions_limit_and_marker(n: int, marker: Seq<char>)
    ensures
        contains_seq(exhaustion_text(n, marker), dec_digits(n)),
        contains_seq(exhaustion_text(n, marker), marker),
{
    let whole = exhaustion_text(n, marker);
    let a = "Reached max iterations ("@;
    let b = ") without seeing completion phrase '"@;
    assert(is_match_at(whole, dec_digits(n), a.len() as int)) by {
        assert(whole.subrange(a.len() as int, a.len() + dec_digits(n).len() as int) =~= dec_digits(
            n,
        ));
    }
    let m0 = a.len() + dec_digits(n).len() + b.len();
    assert(is_match_at(whole, marker, m0 as int)) by {
        assert(whole.subrange(m0 as int, m0 + marker.len() as int) =~= marker);
    }
}

/// The success confirmation names the configured marker.
pub proof fn lemma_success_mentions_marker(marker: Seq<char>)
    ensures
        contains_seq(success_text(marker), marker),
{
    let whole = success_text(marker);
    let a = "Completion phrase detected: "@;
    assert(is_match_at(whole, marker, a.len() as int)) by {
        assert(whole.subrange(a.len() as int, a.len() + marker.len() as int) =~= marker);
    }
}

} // verus!
