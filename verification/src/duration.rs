//! Rendering a non-negative time span as a human string, under the two
//! policies the reports use: the tracked-duration format, which rounds
//! seconds up to a whole minute and always shows hours and minutes; and the
//! statistic format, which is exact and omits zero components.

use vstd::prelude::*;
use vstd::string::StrSliceExecFns;
use vstd::string::StringExecFns;

verus! {

/// The character for one decimal digit.
pub open spec fn spec_digit_char(d: int) -> char {
    if d == 0 {
        '0'
    } else if d == 1 {
        '1'
    } else if d == 2 {
        '2'
    } else if d == 3 {
        '3'
    } else if d == 4 {
        '4'
    } else if d == 5 {
        '5'
    } else if d == 6 {
        '6'
    } else if d == 7 {
        '7'
    } else if d == 8 {
        '8'
    } else {
        '9'
    }
}

/// The decimal representation of a number, most significant digit first,
/// with no leading zeros (a single zero for zero itself).
pub open spec fn spec_dec_rep(n: nat) -> Seq<char>
    decreases n,
{
    if n < 10 {
        seq![spec_digit_char(n as int)]
    } else {
        spec_dec_rep(n / 10) + seq![spec_digit_char((n % 10) as int)]
    }
}

/// The digit character for a value below ten, as a one-character string.
fn digit_str(d: u64) -> (r: &'static str)
    requires
        d < 10,
    ensures
        r@ == seq![spec_digit_char(d as int)],
{
    proof {
        reveal_strlit("0");
        reveal_strlit("1");
        reveal_strlit("2");
        reveal_strlit("3");
        reveal_strlit("4");
        reveal_strlit("5");
        reveal_strlit("6");
        reveal_strlit("7");
        reveal_strlit("8");
        reveal_strlit("9");
        assert("0"@ =~= seq!['0']);
        assert("1"@ =~= seq!['1']);
        assert("2"@ =~= seq!['2']);
        assert("3"@ =~= seq!['3']);
        assert("4"@ =~= seq!['4']);
        assert("5"@ =~= seq!['5']);
        assert("6"@ =~= seq!['6']);
        assert("7"@ =~= seq!['7']);
        assert("8"@ =~= seq!['8']);
        assert("9"@ =~= seq!['9']);
    }
    match d {
        0 => "0",
        1 => "1",
        2 => "2",
        3 => "3",
        4 => "4",
        5 => "5",
        6 => "6",
        7 => "7",
        8 => "8",
        _ => "9",
    }
}

/// Renders a number in decimal, as [`spec_dec_rep`] spells it.
pub fn u64_string(n: u64) -> (r: String)
    ensures
        r@ == spec_dec_rep(n as nat),
    decreases n,
{
    if n < 10 {
        String::from_str(digit_str(n))
    } else {
        let mut s = u64_string(n / 10);
        s.append(digit_str(n % 10));
        s
    }
}

/// The whole minutes of a span, rounded up: any leftover seconds count as
/// one more minute.
pub open spec fn spec_rounded_minutes(secs: nat) -> nat {
    secs / 60 + if secs % 60 == 0 {
        0nat
    } else {
        1nat
    }
}

/// The tracked-duration rendering of a span: its rounded-up minutes split
/// into hours and minutes, always shown as `"{h}h {m}m"` even when a
/// component is zero.
pub open spec fn spec_tracked_duration(secs: nat) -> Seq<char> {
    let minutes = spec_rounded_minutes(secs);
    spec_dec_rep(minutes / 60) + "h "@ + spec_dec_rep(minutes % 60) + "m"@
}

/// Renders a span in the tracked-duration format.
pub fn dur_to_string(secs: u64) -> (r: String)
    ensures
        r@ == spec_tracked_duration(secs as nat),
{
    let minutes = secs / 60 + if secs % 60 == 0 {
        0
    } else {
        1
    };
    let mut out = u64_string(minutes / 60);
    out.append("h ");
    let m_str = u64_string(minutes % 60);
    out.append(m_str.as_str());
    out.append("m");
    out
}

/// The statistic rendering of a span: exact hours, minutes and seconds,
/// omitting zero-valued hour and minute components and a zero-valued
/// trailing second component; a span under a minute shows its seconds
/// alone, even when zero.
pub open spec fn spec_stat_duration(secs: nat) -> Seq<char> {
    let h = secs / 3600;
    let m = (secs % 3600) / 60;
    let s = secs % 60;
    if h == 0 && m == 0 {
        spec_dec_rep(s) + "s"@
    } else {
        let hm = if h == 0 {
            spec_dec_rep(m) + "m"@
        } else if m == 0 {
            spec_dec_rep(h) + "h"@
        } else {
            spec_dec_rep(h) + "h "@ + spec_dec_rep(m) + "m"@
        };
        if s == 0 {
            hm
        } else {
            hm + " "@ + spec_dec_rep(s) + "s"@
        }
    }
}

/// Renders a span in the statistic format.
pub fn dur_stat(secs: u64) -> (r: String)
    ensures
        r@ == spec_stat_duration(secs as nat),
{
    let h = secs / 3600;
    let m = (secs % 3600) / 60;
    let s = secs % 60;
    if h == 0 && m == 0 {
        let mut out = u64_string(s);
        out.append("s");
        return out;
    }
    let mut hm = if h == 0 {
        let mut o = u64_string(m);
        o.append("m");
        o
    } else if m == 0 {
        let mut o = u64_string(h);
        o.append("h");
        o
    } else {
        let mut o = u64_string(h);
        o.append("h ");
        let m_str = u64_string(m);
        o.append(m_str.as_str());
        o.append("m");
        o
    };
    if s == 0 {
        hm
    } else {
        hm.append(" ");
        let s_str = u64_string(s);
        hm.append(s_str.as_str());
        hm.append("s");
        hm
    }
}

} // verus!
