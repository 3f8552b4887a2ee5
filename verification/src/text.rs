//! Decimal rendering of IDs and the NotFound message texts, verified
//! character by character.

use vstd::prelude::*;
use vstd::string::StrSliceExecFns;
use vstd::string::StringExecFns;

verus! {

/// The character for one decimal digit.
pub open spec fn digit_char(d: nat) -> char {
    if d == 0 {
        '0'
    } else if d == 1 {
        '1'
    } else if d == 2 {
        '2'
    } else if d == 3 {
        '3'
    } else if d == 4 {
        '4'
    } else if d == 5 {
        '5'
    } else if d == 6 {
        '6'
    } else if d == 7 {
        '7'
    } else if d == 8 {
        '8'
    } else {
        '9'
    }
}

/// The decimal digits of a number, most significant first, with no
/// leading zeros (a single '0' for zero).
pub open spec fn dec_digits(n: nat) -> Seq<char>
    decreases n,
{
    if n < 10 {
        seq![digit_char(n)]
    } else {
        dec_digits(n / 10).push(digit_char(n % 10))
    }
}

/// The one-character string for a decimal digit.
fn digit_str(d: u64) -> (r: &'static str)
    requires
        d < 10,
    ensures
        r@ == seq![digit_char(d as nat)],
{
    let r: &'static str = match d {
        0 => "0",
        1 => "1",
        2 => "2",
        3 => "3",
        4 => "4",
        5 => "5",
        6 => "6",
        7 => "7",
        8 => "8",
        _ => "9",
    };
    proof {
        reveal_strlit("0");
        reveal_strlit("1");
        reveal_strlit("2");
        reveal_strlit("3");
        reveal_strlit("4");
        reveal_strlit("5");
        reveal_strlit("6");
        reveal_strlit("7");
        reveal_strlit("8");
        reveal_strlit("9");
        assert(r@ =~= seq![digit_char(d as nat)]);
    }
    r
}

/// Appends the decimal rendering of `n` to `out`.
pub fn push_decimal(out: &mut String, n: u64)
    ensures
        final(out)@ == old(out)@ + dec_digits(n as nat),
    decreases n,
{
    if n >= 10 {
        push_decimal(out, n / 10);
        out.append(digit_str(n % 10));
        proof {
            assert(out@ =~= old(out)@ + dec_digits(n as nat));
        }
    } else {
        out.append(digit_str(n));
        proof {
            assert(out@ =~= old(out)@ + dec_digits(n as nat));
        }
    }
}

/// Builds `prefix`, then the decimal rendering of `id`, then `suffix`.
pub fn not_found_message(prefix: &str, id: u64, suffix: &str) -> (m: String)
    ensures
        m@ == prefix@ + dec_digits(id as nat) + suffix@,
{
    let mut m = String::from_str(prefix);
    push_decimal(&mut m, id);
    m.append(suffix);
    proof {
        assert(m@ =~= prefix@ + dec_digits(id as nat) + suffix@);
    }
    m
}

/// The message reported when a lookup names an absent ID.
pub open spec fn msg_get_not_found(id: u64) -> Seq<char> {
    "time capsule with id="@ + dec_digits(id as nat) + " not found"@
}

/// The message reported when an update names an absent ID.
pub open spec fn msg_update_not_found(id: u64) -> Seq<char> {
    "couldn't update time capsule with id="@ + dec_digits(id as nat) + ". item not found"@
}

/// The message reported when a delete names an absent ID.
pub open spec fn msg_delete_not_found(id: u64) -> Seq<char> {
    "couldn't delete time capsule with id="@ + dec_digits(id as nat) + ". item not found."@
}

/// The message reported when an unlock-date update names an absent ID.
pub open spec fn msg_update_date_not_found(id: u64) -> Seq<char> {
    "couldn't update unlock date for time capsule with id="@ + dec_digits(id as nat)
        + ". item not found"@
}

} // verus!
