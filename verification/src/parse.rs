//! Validation of the plain string values the command line hands over:
//! names, notes, session positions, and the written forms of dates, clock
//! times and date-times.

use vstd::prelude::*;
use vstd::string::StrSliceExecFns;

use crate::calendar::Date;
use crate::calendar::Time;
use crate::error::TrackError;
use crate::ledger::Position;
use crate::resolve::Absolute;

verus! {

/// What `str::trim` returns for these characters. Named, not spelled out:
/// the set of Unicode whitespace characters it strips is the standard
/// library's affair.
pub uninterp spec fn spec_trimmed(s: Seq<char>) -> Seq<char>;

/// Relies on `str::trim`: the result is the string without leading and
/// trailing whitespace — a substring, so never longer than the input — and
/// depends on the characters alone.
#[verifier::external_body]
fn trim_str(s: &str) -> (r: String)
    ensures
        r@ == spec_trimmed(s@),
        r@.len() <= s@.len(),
{
    s.trim().to_owned()
}

/// Validates an activity name: trimmed of surrounding whitespace, and not
/// empty after that.
pub fn parse_name(s: &str) -> (r: Result<String, TrackError>)
    ensures
        match r {
            Ok(n) => n@ == spec_trimmed(s@) && n@.len() > 0,
            Err(e) => e == TrackError::EmptyName && spec_trimmed(s@).len() == 0,
        },
{
    let t = trim_str(s);
    if t.as_str().is_empty() {
        return Err(TrackError::EmptyName);
    }
    Ok(t)
}

/// Normalises session notes: trimmed of surrounding whitespace; empty notes
/// are allowed (they mean "no notes").
pub fn parse_notes(s: &str) -> (r: String)
    ensures
        r@ == spec_trimmed(s@),
{
    trim_str(s)
}

/// A decimal digit (code points 48 through 57).
pub open spec fn spec_is_digit(c: char) -> bool {
    48 <= c as int <= 57
}

/// Every character is a decimal digit.
pub open spec fn spec_all_digits(s: Seq<char>) -> bool {
    forall|i: int| 0 <= i < s.len() ==> spec_is_digit(#[trigger] s[i])
}

/// The number a digit string denotes, most significant digit first.
pub open spec fn spec_dec_value(s: Seq<char>) -> int
    decreases s.len(),
{
    if s.len() == 0 {
        0
    } else {
        spec_dec_value(s.drop_last()) * 10 + (s.last() as int - 48)
    }
}

/// The position number a string denotes, as the standard library's integer
/// parsing reads it: an optional leading plus sign, then one or more
/// decimal digits, denoting a value that fits the machine's word. Anything
/// else denotes nothing.
pub open spec fn spec_position_of(s: Seq<char>) -> Option<int> {
    let body = if s.len() > 0 && s[0] == '+' {
        s.subrange(1, s.len() as int)
    } else {
        s
    };
    if body.len() > 0 && spec_all_digits(body) && spec_dec_value(body) <= usize::MAX as int {
        Some(spec_dec_value(body))
    } else {
        None
    }
}

proof fn lemma_dec_value_monotonic(s: Seq<char>, j: int)
    requires
        spec_all_digits(s),
        0 <= j <= s.len(),
    ensures
        0 <= spec_dec_value(s.take(j)),
        spec_dec_value(s.take(j)) <= spec_dec_value(s),
    decreases s.len() - j,
{
    if j == s.len() {
        assert(s.take(j) =~= s);
        lemma_dec_value_nonneg(s);
    } else {
        lemma_dec_value_monotonic(s, j + 1);
        lemma_dec_value_nonneg(s.take(j));
        assert(s.take(j + 1).drop_last() =~= s.take(j));
        assert(spec_dec_value(s.take(j + 1)) == spec_dec_value(s.take(j)) * 10 + (s[j] as int
            - 48));
    }
}

proof fn lemma_dec_value_nonneg(s: Seq<char>)
    requires
        spec_all_digits(s),
    ensures
        spec_dec_value(s) >= 0,
    decreases s.len(),
{
    if s.len() > 0 {
        assert(spec_all_digits(s.drop_last())) by {
            assert(forall|i: int|
                0 <= i < s.len() - 1 ==> s.drop_last()[i] == #[trigger] s[i]);
        }
        lemma_dec_value_nonneg(s.drop_last());
    }
}

/// Compares two strings character by character.
fn str_eq(a: &str, b: &str) -> (r: bool)
    ensures
        r == (a@ == b@),
{
    let n = a.unicode_len();
    if n != b.unicode_len() {
        return false;
    }
    let mut i: usize = 0;
    while i < n
        invariant
            i <= n,
            n == a@.len(),
            n == b@.len(),
            forall|k: int| 0 <= k < i ==> a@[k] == b@[k],
        decreases n - i,
    {
        if a.get_char(i) != b.get_char(i) {
            return false;
        }
        i += 1;
    }
    proof {
        assert(a@ =~= b@);
    }
    true
}

/// Reads a session position: the word `last`, or a positive 1-based index.
/// Anything else — a non-number, zero, or a number too large for the
/// machine's word — is refused.
#[verifier::loop_isolation(false)]
pub fn parse_position(s: &str) -> (r: Result<Position, TrackError>)
    ensures
        match r {
            Ok(p) => match p {
                Position::Last => s@ == "last"@,
                Position::Index(i) => s@ != "last"@ && spec_position_of(s@) == Some(i as int) && i
                    >= 1,
            },
            Err(e) => {
                &&& e == TrackError::BadPosition
                &&& s@ != "last"@
                &&& (spec_position_of(s@) is None || spec_position_of(s@) == Some(0int))
            },
        },
{
    if str_eq(s, "last") {
        return Ok(Position::Last);
    }
    let n = s.unicode_len();
    let mut i: usize = 0;
    if n > 0 && s.get_char(0) == '+' {
        i = 1;
    }
    let ghost body = if s@.len() > 0 && s@[0] == '+' {
        s@.subrange(1, s@.len() as int)
    } else {
        s@
    };
    proof {
        assert(body.len() == n - i);
        assert(forall|k: int| 0 <= k < body.len() ==> body[k] == s@[k + i]);
    }
    if i >= n {
        return Err(TrackError::BadPosition);
    }
    let mut value: usize = 0;
    let mut k: usize = i;
    while k < n
        invariant
            i <= k <= n,
            spec_all_digits(body.take(k - i)),
            value == spec_dec_value(body.take(k - i)),
        decreases n - k,
    {
        let c = s.get_char(k);
        let cu = c as u32;
        if cu < 48 || cu > 57 {
            proof {
                assert(!spec_is_digit(body[k - i]));
            }
            return Err(TrackError::BadPosition);
        }
        let d = (cu - 48) as usize;
        if value > usize::MAX / 10 || (value == usize::MAX / 10 && d > usize::MAX % 10) {
            proof {
                assert(spec_all_digits(body.take(k - i + 1))) by {
                    assert(forall|m: int|
                        0 <= m < k - i + 1 ==> body.take(k - i + 1)[m] == #[trigger] body[m]);
                }
                assert(body.take(k - i + 1).drop_last() =~= body.take(k - i));
                assert(spec_dec_value(body.take(k - i + 1)) == value * 10 + d);
                assert(value * 10 + d > usize::MAX as int) by (nonlinear_arith)
                    requires
                        value > usize::MAX / 10 || (value == usize::MAX / 10 && d > usize::MAX
                            % 10),
                        value <= usize::MAX,
                        0 <= d <= 9,
                ;
                if spec_all_digits(body) {
                    lemma_dec_value_monotonic(body, k - i + 1);
                }
            }
            return Err(TrackError::BadPosition);
        }
        proof {
            assert(spec_all_digits(body.take(k - i + 1))) by {
                assert(forall|m: int|
                    0 <= m < k - i + 1 ==> body.take(k - i + 1)[m] == #[trigger] body[m]);
            }
            assert(body.take(k - i + 1).drop_last() =~= body.take(k - i));
        }
        value = value * 10 + d;
        k += 1;
    }
    proof {
        assert(body.take(n - i) =~= body);
    }
    if value == 0 {
        return Err(TrackError::BadPosition);
    }
    Ok(Position::Index(value))
}

/// Both characters of the field starting at `i` are decimal digits.
pub open spec fn spec_two_digits(s: Seq<char>, i: int) -> bool {
    spec_is_digit(s[i]) && spec_is_digit(s[i + 1])
}

/// The value of the two-digit field starting at `i`.
pub open spec fn spec_two_digit_value(s: Seq<char>, i: int) -> int {
    (s[i] as int - 48) * 10 + (s[i + 1] as int - 48)
}

/// The calendar date a string of the exact form `dd/mm/yy` denotes: two
/// digits each for day, month and year, the two-digit year reading as
/// 2000-2069 or 1970-1999, and the whole naming a date that exists in the
/// calendar. Anything else denotes nothing.
pub open spec fn spec_date_of(s: Seq<char>) -> Option<Date> {
    if s.len() == 8 && spec_two_digits(s, 0) && s[2] == '/' && spec_two_digits(s, 3) && s[5] == '/'
        && spec_two_digits(s, 6) {
        let y2 = spec_two_digit_value(s, 6);
        let d = Date {
            year: (if y2 <= 69 {
                2000 + y2
            } else {
                1900 + y2
            }) as i32,
            month: spec_two_digit_value(s, 3) as u8,
            day: spec_two_digit_value(s, 0) as u8,
        };
        if d.wf() {
            Some(d)
        } else {
            None
        }
    } else {
        None
    }
}

/// The clock time a string of the exact form `HH:MM` denotes, when it
/// exists on a 24-hour clock.
pub open spec fn spec_time_of(s: Seq<char>) -> Option<Time> {
    if s.len() == 5 && spec_two_digits(s, 0) && s[2] == ':' && spec_two_digits(s, 3) {
        let t = Time {
            hour: spec_two_digit_value(s, 0) as u8,
            minute: spec_two_digit_value(s, 3) as u8,
        };
        if t.wf() {
            Some(t)
        } else {
            None
        }
    } else {
        None
    }
}

/// The absolute time expression a string denotes, in the three accepted
/// forms: `dd/mm/yy-HH:MM`, `dd/mm/yy`, or `HH:MM`. The forms have
/// distinct lengths, so no string denotes two of them.
pub open spec fn spec_abs_of(s: Seq<char>) -> Option<Absolute> {
    if s.len() == 14 && s[8] == '-' {
        match (spec_date_of(s.subrange(0, 8)), spec_time_of(s.subrange(9, 14))) {
            (Some(d), Some(t)) => Some(Absolute::DateTime(d, t)),
            _ => None,
        }
    } else if s.len() == 8 {
        match spec_date_of(s) {
            Some(d) => Some(Absolute::Date(d)),
            None => None,
        }
    } else if s.len() == 5 {
        match spec_time_of(s) {
            Some(t) => Some(Absolute::Time(t)),
            None => None,
        }
    } else {
        None
    }
}

/// Reads the two-digit field starting at `i`, if both characters are
/// digits.
fn two_digit_value(s: &str, i: usize) -> (r: Option<u8>)
    requires
        i + 1 < s@.len() <= usize::MAX,
    ensures
        match r {
            Some(v) => spec_two_digits(s@, i as int) && v == spec_two_digit_value(s@, i as int),
            None => !spec_two_digits(s@, i as int),
        },
{
    let c1 = s.get_char(i) as u32;
    let c2 = s.get_char(i + 1) as u32;
    if 48 <= c1 && c1 <= 57 && 48 <= c2 && c2 <= 57 {
        Some(((c1 - 48) * 10 + (c2 - 48)) as u8)
    } else {
        None
    }
}

/// Reads a date of the exact form `dd/mm/yy` at position `off`.
fn date_at(s: &str, off: usize) -> (r: Option<Date>)
    requires
        off + 8 <= s@.len() <= usize::MAX,
    ensures
        r == spec_date_of(s@.subrange(off as int, off as int + 8)),
{
    let ghost sub = s@.subrange(off as int, off as int + 8);
    proof {
        assert(forall|m: int| 0 <= m < 8 ==> sub[m] == s@[off + m]);
    }
    if !(s.get_char(off + 2) == '/' && s.get_char(off + 5) == '/') {
        return None;
    }
    let day = match two_digit_value(s, off) {
        Some(v) => v,
        None => {
            return None;
        },
    };
    let month = match two_digit_value(s, off + 3) {
        Some(v) => v,
        None => {
            return None;
        },
    };
    let y2 = match two_digit_value(s, off + 6) {
        Some(v) => v,
        None => {
            return None;
        },
    };
    let year: i32 = if y2 <= 69 {
        2000 + y2 as i32
    } else {
        1900 + y2 as i32
    };
    Date::new(year, month, day)
}

/// Reads a clock time of the exact form `HH:MM` at position `off`.
fn time_at(s: &str, off: usize) -> (r: Option<Time>)
    requires
        off + 5 <= s@.len() <= usize::MAX,
    ensures
        r == spec_time_of(s@.subrange(off as int, off as int + 5)),
{
    let ghost sub = s@.subrange(off as int, off as int + 5);
    proof {
        assert(forall|m: int| 0 <= m < 5 ==> sub[m] == s@[off + m]);
    }
    if s.get_char(off + 2) != ':' {
        return None;
    }
    let hour = match two_digit_value(s, off) {
        Some(v) => v,
        None => {
            return None;
        },
    };
    let minute = match two_digit_value(s, off + 3) {
        Some(v) => v,
        None => {
            return None;
        },
    };
    Time::new(hour, minute)
}

/// Reads a date written as `dd/mm/yy`; anything else is refused.
pub fn parse_date(s: &str) -> (r: Result<Date, TrackError>)
    ensures
        match r {
            Ok(d) => spec_date_of(s@) == Some(d) && d.wf(),
            Err(e) => e == TrackError::MalformedTimeExpression && spec_date_of(s@) is None,
        },
{
    let n = s.unicode_len();
    if n != 8 {
        return Err(TrackError::MalformedTimeExpression);
    }
    proof {
        assert(s@.subrange(0, 8) =~= s@);
    }
    match date_at(s, 0) {
        Some(d) => Ok(d),
        None => Err(TrackError::MalformedTimeExpression),
    }
}

/// Reads an absolute time expression written as `dd/mm/yy-HH:MM`,
/// `dd/mm/yy` or `HH:MM`; anything else is refused.
pub fn parse_abs(s: &str) -> (r: Result<Absolute, TrackError>)
    ensures
        match r {
            Ok(a) => spec_abs_of(s@) == Some(a) && a.wf(),
            Err(e) => e == TrackError::MalformedTimeExpression && spec_abs_of(s@) is None,
        },
{
    let n = s.unicode_len();
    if n == 14 {
        if s.get_char(8) != '-' {
            return Err(TrackError::MalformedTimeExpression);
        }
        let d = match date_at(s, 0) {
            Some(d) => d,
            None => {
                return Err(TrackError::MalformedTimeExpression);
            },
        };
        let t = match time_at(s, 9) {
            Some(t) => t,
            None => {
                return Err(TrackError::MalformedTimeExpression);
            },
        };
        Ok(Absolute::DateTime(d, t))
    } else if n == 8 {
        proof {
            assert(s@.subrange(0, 8) =~= s@);
        }
        match date_at(s, 0) {
            Some(d) => Ok(Absolute::Date(d)),
            None => Err(TrackError::MalformedTimeExpression),
        }
    } else if n == 5 {
        proof {
            assert(s@.subrange(0, 5) =~= s@);
        }
        match time_at(s, 0) {
            Some(t) => Ok(Absolute::Time(t)),
            None => Err(TrackError::MalformedTimeExpression),
        }
    } else {
        Err(TrackError::MalformedTimeExpression)
    }
}

} // verus!
