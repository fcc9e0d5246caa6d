//! Text renderings of numbers and timestamps, for report lines and DTOs.

use vstd::prelude::*;

verus! {

/// The last second of year 9999: the largest timestamp the library accepts,
/// so that every stored time can be rendered.
pub const MAX_TIMESTAMP: u64 = 253402300799;

/// The character for one decimal digit.
pub open spec fn dec_digit(d: nat) -> char {
    if d == 0 {
        '0'
    } else if d == 1 {
        '1'
    } else if d == 2 {
        '2'
    } else if d == 3 {
        '3'
    } else if d == 4 {
        '4'
    } else if d == 5 {
        '5'
    } else if d == 6 {
        '6'
    } else if d == 7 {
        '7'
    } else if d == 8 {
        '8'
    } else {
        '9'
    }
}

/// The decimal rendering of a natural number, without leading zeros.
pub open spec fn dec_str(n: nat) -> Seq<char>
    decreases n,
{
    if n < 10 {
        seq![dec_digit(n)]
    } else {
        dec_str(n / 10).push(dec_digit(n % 10))
    }
}

/// Renders a value's decimal digits.
pub fn u64_to_decimal(n: u64) -> (s: String)
    ensures
        s@ == dec_str(n as nat),
    decreases n,
{
    if n < 10 {
        digit_str(n).to_owned()
    } else {
        let mut s = u64_to_decimal(n / 10);
        s.append(digit_str(n % 10));
        s
    }
}

/// What chrono renders for a Unix timestamp, as RFC 3339 text in UTC.
pub uninterp spec fn rfc3339_of(secs: int) -> Seq<char>;

/// Relies on chrono's `DateTime::from_timestamp` (total for in-range
/// seconds) and `DateTime::to_rfc3339`: the rendering depends on the
/// seconds value alone.
#[verifier::external_body]
pub fn format_rfc3339(secs: u64) -> (s: String)
    requires
        secs <= MAX_TIMESTAMP,
    ensures
        s@ == rfc3339_of(secs as int),
{
    match chrono::DateTime::<chrono::Utc>::from_timestamp(secs as i64, 0) {
        Some(dt) => dt.to_rfc3339(),
        None => String::new(),
    }
}

/// What `str::replace` returns.
pub uninterp spec fn replace_of(s: Seq<char>, from: Seq<char>, to: Seq<char>) -> Seq<char>;

/// Relies on `str::replace`: every occurrence of `from` replaced by `to`,
/// depending on the arguments alone.
#[verifier::external_body]
pub fn replace_str(s: &str, from: &str, to: &str) -> (r: String)
    ensures
        r@ == replace_of(s@, from@, to@),
{
    s.replace(from, to)
}

/// A money amount in minor units, rendered as `units.hundredths`.
pub open spec fn money_str(n: u64) -> Seq<char> {
    dec_str((n / 100) as nat) + seq!['.', dec_digit(((n / 10) % 10) as nat), dec_digit(
        (n % 10) as nat,
    )]
}

/// One digit as text.
fn digit_str(d: u64) -> (r: &'static str)
    requires
        d < 10,
    ensures
        r@ == seq![dec_digit(d as nat)],
{
    proof {
        reveal_strlit("0");
        reveal_strlit("1");
        reveal_strlit("2");
        reveal_strlit("3");
        reveal_strlit("4");
        reveal_strlit("5");
        reveal_strlit("6");
        reveal_strlit("7");
        reveal_strlit("8");
        reveal_strlit("9");
    }
    if d == 0 {
        "0"
    } else if d == 1 {
        "1"
    } else if d == 2 {
        "2"
    } else if d == 3 {
        "3"
    } else if d == 4 {
        "4"
    } else if d == 5 {
        "5"
    } else if d == 6 {
        "6"
    } else if d == 7 {
        "7"
    } else if d == 8 {
        "8"
    } else {
        "9"
    }
}

/// Renders a minor-unit amount as decimal currency text.
pub fn format_money(n: u64) -> (s: String)
    ensures
        s@ == money_str(n),
{
    let mut s = u64_to_decimal(n / 100);
    s.append(".");
    proof {
        reveal_strlit(".");
    }
    s.append(digit_str((n / 10) % 10));
    s.append(digit_str(n % 10));
    assert(s@ =~= money_str(n));
    s
}

} // verus!
