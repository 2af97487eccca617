//! Points in time, as people speak of them.
use crate::text::{
    cat2, decimal, i64_of, number, owned, parse_i64, pieces, push_char, split, to_chars,
};
use vstd::prelude::*;

verus! {

/// A year with 366 days.
pub open spec fn leap(y: int) -> bool {
    y % 4 == 0 && (y % 100 != 0 || y % 400 == 0)
}

/// Days from the start of 1970 to the start of a year.
pub open spec fn days_to_year(y: int) -> int
    decreases y - 1970,
{
    if y <= 1970 {
        0
    } else {
        days_to_year(y - 1) + if leap(y - 1) {
            366int
        } else {
            365int
        }
    }
}

/// Days of a month of an ordinary year.
pub open spec fn month_days(m: int) -> int {
    if m == 2 {
        28
    } else if m == 4 || m == 6 || m == 9 || m == 11 {
        30
    } else if 1 <= m <= 12 {
        31
    } else {
        0
    }
}

/// Days from the start of a year to the start of a month.
pub open spec fn days_to_month(y: int, m: int) -> int
    decreases m,
{
    if m <= 1 {
        0
    } else {
        days_to_month(y, m - 1) + month_days(m - 1) + if m - 1 == 2 && leap(y) {
            1int
        } else {
            0int
        }
    }
}

/// Seconds from the start of 1970.
pub open spec fn epoch_seconds(y: int, mo: int, d: int, h: int, mi: int, s: int) -> int {
    (days_to_year(y) + days_to_month(y, mo) + d - 1) * 86400 + h * 3600 + mi * 60 + s
}

/// A time stamp with a blank for its T and without its Z.
pub open spec fn unlettered(s: Seq<char>) -> Seq<char>
    decreases s.len(),
{
    if s.len() == 0 {
        Seq::empty()
    } else if s.last() == 'Z' {
        unlettered(s.drop_last())
    } else {
        unlettered(s.drop_last()).push(
            if s.last() == 'T' {
                ' '
            } else {
                s.last()
            },
        )
    }
}

/// What a time stamp says, as seconds from the start of 1970; nothing where it
/// does not begin with six numbers.
pub open spec fn stamp_seconds(iso: Seq<char>) -> Option<int> {
    let parts = pieces(unlettered(iso), "- :."@);
    if parts.len() < 6 {
        None
    } else {
        match (
            i64_of(parts[0]),
            i64_of(parts[1]),
            i64_of(parts[2]),
            i64_of(parts[3]),
            i64_of(parts[4]),
            i64_of(parts[5]),
        ) {
            (Some(y), Some(mo), Some(d), Some(h), Some(mi), Some(s)) => Some(
                epoch_seconds(y as int, mo as int, d as int, h as int, mi as int, s as int),
            ),
            _ => None,
        }
    }
}

/// How long ago something was.
pub open spec fn ago(secs: int) -> Seq<char> {
    let mins = secs / 60;
    let hours = mins / 60;
    let days = hours / 24;
    if secs < 60 {
        "just now"@
    } else if mins < 60 {
        decimal(mins as nat) + "m ago"@
    } else if hours < 24 {
        decimal(hours as nat) + "h ago"@
    } else if days < 7 {
        decimal(days as nat) + "d ago"@
    } else if days / 7 < 5 {
        decimal((days / 7) as nat) + "w ago"@
    } else if days / 30 < 12 {
        decimal((days / 30) as nat) + "mo ago"@
    } else {
        decimal((days / 365) as nat) + "y ago"@
    }
}

/// A time stamp as seen `now` seconds after the start of 1970; one that cannot
/// be read as it is.
pub open spec fn as_seen(iso: Seq<char>, now: int) -> Seq<char> {
    match stamp_seconds(iso) {
        Some(then) => ago(now - then),
        None => iso,
    }
}

/// Leap years up to a year.
spec fn leaps_up_to(y: int) -> int {
    y / 4 - y / 100 + y / 400
}

proof fn lemma_days_to_year(y: int)
    requires
        y >= 1970,
    ensures
        days_to_year(y) == 365 * (y - 1970) + leaps_up_to(y - 1) - leaps_up_to(1969),
    decreases y,
{
    if y > 1970 {
        lemma_days_to_year(y - 1);
    }
}

fn days_before_year(y: i64) -> (r: i128)
    ensures
        r == days_to_year(y as int),
        0 <= r <= 366 * 0x8000_0000_0000_0000,
{
    if y <= 1970 {
        return 0;
    }
    proof {
        lemma_days_to_year(y as int);
    }
    let n: i128 = y as i128 - 1;
    365 * (y as i128 - 1970) + (n / 4 - n / 100 + n / 400) - 477
}

fn is_leap(y: i64) -> (r: bool)
    ensures
        r == leap(y as int),
{
    let n: i128 = y as i128 + 0x1_0000_0000_0000_0000 * 400;
    assert(n % 4 == y as int % 4 && n % 100 == y as int % 100 && n % 400 == y as int % 400);
    n % 4 == 0 && (n % 100 != 0 || n % 400 == 0)
}

proof fn lemma_days_to_late_month(y: int, m: int)
    requires
        m >= 13,
    ensures
        days_to_month(y, m) == days_to_month(y, 13),
    decreases m,
{
    if m > 13 {
        lemma_days_to_late_month(y, m - 1);
    }
}

fn days_before_month(y: i64, m: i64) -> (r: i128)
    ensures
        r == days_to_month(y as int, m as int),
        0 <= r <= 372,
{
    let extra: i128 = if is_leap(y) {
        1
    } else {
        0
    };
    if m <= 1 {
        return 0;
    }
    proof {
        if m >= 13 {
            lemma_days_to_late_month(y as int, m as int);
        }
        reveal_with_fuel(days_to_month, 14);
    }
    if m == 2 {
        31
    } else if m == 3 {
        59 + extra
    } else if m == 4 {
        90 + extra
    } else if m == 5 {
        120 + extra
    } else if m == 6 {
        151 + extra
    } else if m == 7 {
        181 + extra
    } else if m == 8 {
        212 + extra
    } else if m == 9 {
        243 + extra
    } else if m == 10 {
        273 + extra
    } else if m == 11 {
        304 + extra
    } else if m == 12 {
        334 + extra
    } else {
        365 + extra
    }
}

fn without_letters(s: &str) -> (r: String)
    ensures
        r@ == unlettered(s@),
{
    let v = to_chars(s);
    let mut out = String::new();
    let mut i: usize = 0;
    assert(v@.take(0) =~= Seq::<char>::empty());
    while i < v.len()
        invariant
            i <= v@.len(),
            out@ == unlettered(v@.take(i as int)),
        decreases v@.len() - i,
    {
        assert(v@.take(i + 1).drop_last() =~= v@.take(i as int));
        let c = v[i];
        if c != 'Z' {
            push_char(
                &mut out,
                if c == 'T' {
                    ' '
                } else {
                    c
                },
            );
        }
        i = i + 1;
    }
    assert(v@.take(i as int) =~= v@);
    out
}

fn read_stamp(iso: &str) -> (r: Option<i128>)
    ensures
        match r {
            Some(t) => stamp_seconds(iso@) == Some(t as int) && -0x1_0000_0000_0000_0000_0000_0000
                < t < 0x1_0000_0000_0000_0000_0000_0000,
            None => stamp_seconds(iso@) is None,
        },
{
    let cleaned = without_letters(iso);
    let parts = split(cleaned.as_str(), "- :.");
    let ghost pv = parts.deep_view();
    if parts.len() < 6 {
        return None;
    }
    assert(forall|i: int| 0 <= i < pv.len() ==> pv[i] == #[trigger] parts@[i]@);
    let y = parse_i64(parts[0].as_str());
    let mo = parse_i64(parts[1].as_str());
    let d = parse_i64(parts[2].as_str());
    let h = parse_i64(parts[3].as_str());
    let mi = parse_i64(parts[4].as_str());
    let s = parse_i64(parts[5].as_str());
    match (y, mo, d, h, mi, s) {
        (Some(y), Some(mo), Some(d), Some(h), Some(mi), Some(s)) => {
            let days: i128 = days_before_year(y) + days_before_month(y, mo) + d as i128 - 1;
            Some(days * 86400 + h as i128 * 3600 + mi as i128 * 60 + s as i128)
        },
        _ => None,
    }
}

fn count(n: i128, unit: &str) -> (r: String)
    requires
        n >= 0,
    ensures
        r@ == decimal(n as nat) + unit@,
{
    cat2(number(n as u128).as_str(), unit)
}

/// How long ago a time stamp like `2026-03-21T14:30:00Z` was, `now` seconds
/// after the start of 1970; one that cannot be read is given back.
pub fn relative_time(iso: &str, now: i64) -> (r: String)
    ensures
        r@ == as_seen(iso@, now as int),
{
    let then = match read_stamp(iso) {
        Some(t) => t,
        None => {
            return owned(iso);
        },
    };
    let secs: i128 = now as i128 - then;
    if secs < 60 {
        return owned("just now");
    }
    let mins: i128 = secs / 60;
    if mins < 60 {
        return count(mins, "m ago");
    }
    let hours: i128 = mins / 60;
    if hours < 24 {
        return count(hours, "h ago");
    }
    let days: i128 = hours / 24;
    if days < 7 {
        return count(days, "d ago");
    }
    if days / 7 < 5 {
        return count(days / 7, "w ago");
    }
    if days / 30 < 12 {
        return count(days / 30, "mo ago");
    }
    count(days / 365, "y ago")
}

/// The epoch begins with the year 1970, and every day has the same length.
pub proof fn law_days_follow_each_other(y: int, mo: int, d: int, h: int, mi: int, s: int)
    ensures
        epoch_seconds(1970, 1, 1, 0, 0, 0) == 0,
        epoch_seconds(y, mo, d + 1, h, mi, s) == epoch_seconds(y, mo, d, h, mi, s) + 86400,
        y >= 1970 ==> epoch_seconds(y, 13, d, h, mi, s) == epoch_seconds(y + 1, 1, d, h, mi, s),
{
    reveal_with_fuel(days_to_month, 14);
}

/// Times of day add up, and months have their lengths: the second one is a day longer in
/// a leap year, which every fourth year is, but for those that close a century, unless
/// they close four.
pub proof fn law_months_have_their_lengths(y: int, mo: int, d: int, h: int, mi: int, s: int)
    requires
        1 <= mo <= 12,
    ensures
        epoch_seconds(y, mo, d, h, mi, s) == epoch_seconds(y, mo, d, 0, 0, 0) + h * 3600 + mi * 60
            + s,
        epoch_seconds(y, mo + 1, d, h, mi, s) - epoch_seconds(y, mo, d, h, mi, s) == 86400 * (
        if mo == 2 {
            if y % 400 == 0 || (y % 4 == 0 && y % 100 != 0) {
                29int
            } else {
                28int
            }
        } else if mo == 4 || mo == 6 || mo == 9 || mo == 11 {
            30int
        } else {
            31int
        }),
{
    assert(days_to_month(y, mo + 1) == days_to_month(y, mo) + month_days(mo) + if mo == 2 && leap(
        y,
    ) {
        1int
    } else {
        0int
    });
}

/// Ages are told in the largest unit that they fill, without what is left over.
pub proof fn law_ages_are_told_in_the_largest_unit(n: int, rest: int)
    requires
        1 <= n,
        0 <= rest,
    ensures
        rest < 60 ==> ago(rest) == "just now"@,
        n < 60 && rest < 60 ==> ago(n * 60 + rest) == decimal(n as nat) + "m ago"@,
        n < 24 && rest < 3600 ==> ago(n * 3600 + rest) == decimal(n as nat) + "h ago"@,
        n < 7 && rest < 86400 ==> ago(n * 86400 + rest) == decimal(n as nat) + "d ago"@,
        n < 5 && rest < 604800 ==> ago(n * 604800 + rest) == decimal(n as nat) + "w ago"@,
        2 <= n < 12 && rest < 2592000 ==> ago(n * 2592000 + rest) == decimal(n as nat) + "mo ago"@,
        rest < 31536000 ==> ago(n * 31536000 + rest) == decimal(n as nat) + "y ago"@,
{
    if n < 60 && rest < 60 {
        assert((n * 60 + rest) / 60 == n);
    }
    if n < 24 && rest < 3600 {
        assert((n * 3600 + rest) / 60 / 60 == n);
    }
    if n < 7 && rest < 86400 {
        assert((n * 86400 + rest) / 60 / 60 / 24 == n);
    }
    if n < 5 && rest < 604800 {
        assert((n * 604800 + rest) / 60 / 60 / 24 / 7 == n);
    }
    if 2 <= n < 12 && rest < 2592000 {
        assert((n * 2592000 + rest) / 60 / 60 / 24 / 30 == n);
    }
    if rest < 31536000 {
        assert((n * 31536000 + rest) / 60 / 60 / 24 / 365 == n);
        assert((n * 31536000 + rest) / 60 / 60 / 24 >= 365);
    }
}

/// A time stamp that cannot be read is shown as it is; one that can be read is told by
/// how long ago it was.
pub proof fn law_unreadable_stamps_stay(iso: Seq<char>, now: int)
    ensures
        stamp_seconds(iso) is None ==> as_seen(iso, now) == iso,
        stamp_seconds(iso) matches Some(then) ==> (now - then < 60 ==> as_seen(iso, now)
            == "just now"@),
{
}

} // verus!
