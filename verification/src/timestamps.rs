//! Instants: microseconds since the Unix epoch, UTC.

use vstd::prelude::*;

use vstd::utf8::encode_utf8;
use crate::models::text_of;
use crate::numbers::{char_is_digit, is_digit};
use crate::text::{
    chars_of,
    ends_with,
    ends_with_text,
    matches_at,
    occurs_at,
    split,
    split_fields,
    string_of,
    texts,
    trim,
    trimmed,
};

verus! {

/// The instant that a text in RFC 3339 form writes, where it is one.
pub uninterp spec fn rfc3339_instant(text: Seq<char>) -> Option<i64>;

/// The instant that a text without time zone writes in the format `format`
/// (read as UTC), where it writes one.
pub uninterp spec fn naive_instant(text: Seq<char>, format: Seq<char>) -> Option<i64>;

/// Calls `chrono::DateTime::parse_from_rfc3339` and, where that succeeds,
/// `timestamp_micros` on what it gives. Both depend on the text alone. The
/// contract names the result; it does not say which texts are accepted.
#[verifier::external_body]
pub(crate) fn parse_rfc3339(text: &str) -> (r: Option<i64>)
    ensures
        r == rfc3339_instant(text@),
{
    match chrono::DateTime::parse_from_rfc3339(text) {
        Ok(instant) => Some(instant.timestamp_micros()),
        Err(_) => None,
    }
}

/// Calls `chrono::NaiveDateTime::parse_from_str` and, where that succeeds,
/// `and_utc` and `timestamp_micros` on what it gives. They depend on the
/// text and the format alone. The contract names the result; it does not
/// say which texts are accepted.
#[verifier::external_body]
pub(crate) fn parse_naive(text: &str, format: &str) -> (r: Option<i64>)
    ensures
        r == naive_instant(text@, format@),
{
    match chrono::NaiveDateTime::parse_from_str(text, format) {
        Ok(naive) => Some(naive.and_utc().timestamp_micros()),
        Err(_) => None,
    }
}

/// The text of an instant in RFC 3339 form, where the calendar reaches the
/// instant.
pub uninterp spec fn instant_text(instant: i64) -> Option<Seq<char>>;

/// The text of the day, UTC, in which an instant falls, where the calendar
/// reaches the instant.
pub uninterp spec fn date_text(instant: i64) -> Option<Seq<char>>;

/// Calls `chrono::DateTime::from_timestamp_micros` and, where that gives an
/// instant, `to_rfc3339` on it. Both depend on the number alone. The
/// contract names the result; it does not say what the text holds.
#[verifier::external_body]
pub(crate) fn format_instant(instant: i64) -> (r: Option<String>)
    ensures
        text_of(r) == instant_text(instant),
{
    match chrono::DateTime::from_timestamp_micros(instant) {
        Some(t) => Some(t.to_rfc3339()),
        None => None,
    }
}

/// Calls `chrono::DateTime::from_timestamp_micros` and, where that gives an
/// instant, `date_naive` on it and `to_string` on the date. They depend on
/// the number alone. The contract names the result; it does not say what
/// the text holds.
#[verifier::external_body]
pub(crate) fn format_date(instant: i64) -> (r: Option<String>)
    ensures
        text_of(r) == date_text(instant),
{
    match chrono::DateTime::from_timestamp_micros(instant) {
        Some(t) => Some(t.date_naive().to_string()),
        None => None,
    }
}

/// The length of a millisecond in microseconds.
pub const MICROS_PER_MILLI: i64 = 1_000;

/// The length of an hour in microseconds.
pub const MICROS_PER_HOUR: i64 = 3_600_000_000;

/// The hour of the day, UTC, in which an instant falls.
pub open spec fn utc_hour(instant: i64) -> int {
    (instant as int / MICROS_PER_HOUR as int) % 24
}

/// An instant in whole milliseconds since the epoch, rounded down.
pub open spec fn millis_of(instant: i64) -> int {
    instant as int / MICROS_PER_MILLI as int
}

// ---------------------------------------------------------------------------
// Instants in several forms
// ---------------------------------------------------------------------------

/// The last index below `n` at which `s` holds `c`.
pub open spec fn last_index_of(s: Seq<char>, c: char, n: int) -> Option<int>
    decreases n,
{
    if n <= 0 {
        None
    } else if s[n - 1] == c {
        Some(n - 1)
    } else {
        last_index_of(s, c, n - 1)
    }
}

/// Where the sign of a time zone may stand: at the last `+`, or at the
/// last `-` where there is no `+`.
pub open spec fn zone_sign_index(s: Seq<char>) -> Option<int> {
    match last_index_of(s, '+', s.len() as int) {
        Some(i) => Some(i),
        None => last_index_of(s, '-', s.len() as int),
    }
}

/// True when the text ends with a time zone of a sign and two digits,
/// without minutes.
pub open spec fn has_short_zone(s: Seq<char>) -> bool {
    ends_with_text(s, "+00"@) || ends_with_text(s, "-00"@) || (zone_sign_index(s) matches Some(
        i,
    ) && s.len() - i == 3 && is_digit(s[i + 1]) && is_digit(s[i + 2]))
}

/// The text with `T` for every space.
pub open spec fn with_t_for_space(s: Seq<char>) -> Seq<char> {
    Seq::new(
        s.len(),
        |i: int|
            if s[i] == ' ' {
                'T'
            } else {
                s[i]
            },
    )
}

/// The text brought nearer to RFC 3339: minutes added to a short time
/// zone and `T` for every space.
pub open spec fn near_rfc3339(s: Seq<char>) -> Seq<char> {
    if has_short_zone(s) {
        with_t_for_space(s + ":00"@)
    } else {
        with_t_for_space(s)
    }
}

/// The first of two instants that is there.
pub open spec fn first_instant(a: Option<i64>, b: Option<i64>) -> Option<i64> {
    match a {
        Some(x) => Some(x),
        None => b,
    }
}

/// The instant that a text writes in one of the forms that stores and
/// exports use. The text is stripped of white space and read as RFC 3339;
/// then, where it is longer than three bytes, as RFC 3339 with a short
/// time zone completed and `T` for spaces; then without time zone, as
/// UTC, with `T` or a space between date and time, with or without
/// fractions of a second.
pub open spec fn flexible_instant(text: Seq<char>) -> Option<i64> {
    let t = trimmed(text);
    let second = if encode_utf8(t).len() > 3 {
        rfc3339_instant(near_rfc3339(t))
    } else {
        None
    };
    first_instant(
        rfc3339_instant(t),
        first_instant(
            second,
            first_instant(
                naive_instant(t, "%Y-%m-%dT%H:%M:%S%.f"@),
                first_instant(
                    naive_instant(t, "%Y-%m-%dT%H:%M:%S"@),
                    first_instant(
                        naive_instant(t, "%Y-%m-%d %H:%M:%S%.f"@),
                        naive_instant(t, "%Y-%m-%d %H:%M:%S"@),
                    ),
                ),
            ),
        ),
    )
}

/// Finds the last `c` in `v`.
pub fn find_last(v: &Vec<char>, c: char) -> (r: Option<usize>)
    ensures
        r is Some == last_index_of(v@, c, v@.len() as int) is Some,
        r matches Some(i) ==> last_index_of(v@, c, v@.len() as int) == Some(i as int) && i
            < v@.len(),
{
    let mut i: usize = v.len();
    while i > 0
        invariant
            i <= v.len(),
            last_index_of(v@, c, v@.len() as int) == last_index_of(v@, c, i as int),
        decreases i,
    {
        if v[i - 1] == c {
            return Some(i - 1);
        }
        i -= 1;
    }
    None
}

/// Says whether the text ends with a time zone of a sign and two digits.
pub fn check_short_zone(v: &Vec<char>) -> (r: bool)
    ensures
        r == has_short_zone(v@),
{
    if ends_with(v, &chars_of("+00")) || ends_with(v, &chars_of("-00")) {
        return true;
    }
    let sign = match find_last(v, '+') {
        Some(i) => Some(i),
        None => find_last(v, '-'),
    };
    match sign {
        Some(i) => v.len() - i == 3 && char_is_digit(v[i + 1]) && char_is_digit(v[i + 2]),
        None => false,
    }
}

/// Brings a text nearer to RFC 3339.
pub fn bring_near_rfc3339(v: &Vec<char>) -> (r: Vec<char>)
    ensures
        r@ == near_rfc3339(v@),
{
    let short = check_short_zone(v);
    let mut r: Vec<char> = Vec::new();
    let mut i: usize = 0;
    while i < v.len()
        invariant
            i <= v.len(),
            r@ =~= with_t_for_space(v@).take(i as int),
        decreases v.len() - i,
    {
        if v[i] == ' ' {
            r.push('T');
        } else {
            r.push(v[i]);
        }
        i += 1;
    }
    if short {
        proof {
            reveal_strlit(":00");
        }
        r.push(':');
        r.push('0');
        r.push('0');
        assert(r@ =~= with_t_for_space(v@ + ":00"@));
    } else {
        assert(r@ =~= with_t_for_space(v@));
    }
    r
}

/// Reads an instant in one of the forms that stores and exports use; see
/// [`flexible_instant`].
pub fn parse_timestamp_flexible(text: &str) -> (r: Option<i64>)
    ensures
        r == flexible_instant(text@),
{
    let chars = trim(&chars_of(text));
    let t = string_of(&chars);
    match parse_rfc3339(t.as_str()) {
        Some(x) => {
            return Some(x);
        },
        None => {},
    }
    if t.as_str().as_bytes().len() > 3 {
        let near = string_of(&bring_near_rfc3339(&chars));
        match parse_rfc3339(near.as_str()) {
            Some(x) => {
                return Some(x);
            },
            None => {},
        }
    }
    match parse_naive(t.as_str(), "%Y-%m-%dT%H:%M:%S%.f") {
        Some(x) => {
            return Some(x);
        },
        None => {},
    }
    match parse_naive(t.as_str(), "%Y-%m-%dT%H:%M:%S") {
        Some(x) => {
            return Some(x);
        },
        None => {},
    }
    match parse_naive(t.as_str(), "%Y-%m-%d %H:%M:%S%.f") {
        Some(x) => {
            return Some(x);
        },
        None => {},
    }
    parse_naive(t.as_str(), "%Y-%m-%d %H:%M:%S")
}

// ---------------------------------------------------------------------------
// The date and time in the name of a file
// ---------------------------------------------------------------------------

/// How often `c` stands among the first `n` characters of `s`.
pub open spec fn count_of(s: Seq<char>, c: char, n: int) -> nat
    decreases n,
{
    if n <= 0 {
        0
    } else {
        count_of(s, c, n - 1) + if s[n - 1] == c {
            1nat
        } else {
            0nat
        }
    }
}

/// The text without any occurrence of `pat`, taken out from left to right.
pub open spec fn without(s: Seq<char>, pat: Seq<char>) -> Seq<char>
    recommends
        pat.len() > 0,
    decreases s.len(),
{
    if s.len() == 0 || pat.len() == 0 {
        s
    } else if occurs_at(s, pat, 0) {
        without(s.skip(pat.len() as int), pat)
    } else {
        seq![s[0]] + without(s.skip(1), pat)
    }
}

/// The text with a colon for every hyphen.
pub open spec fn with_colons(s: Seq<char>) -> Seq<char> {
    Seq::new(
        s.len(),
        |i: int|
            if s[i] == '-' {
                ':'
            } else {
                s[i]
            },
    )
}

/// What stands for the time in a part of a file name: the part without
/// the extension `.csv`.
pub open spec fn time_part(part: Seq<char>) -> Seq<char> {
    without(without(part, ".csv"@), ".CSV"@)
}

/// The instant that two neighbouring parts of a file name write, the date
/// as `YYYY-MM-DD` and the time as `HH-MM-SS`.
pub open spec fn date_time_at(parts: Seq<Seq<char>>, i: int) -> Option<i64> {
    let date = parts[i];
    let time = time_part(parts[i + 1]);
    if encode_utf8(date).len() == 10 && count_of(date, '-', date.len() as int) == 2
        && encode_utf8(time).len() >= 8 && count_of(time, '-', time.len() as int) == 2 {
        naive_instant(date + " "@ + with_colons(time), "%Y-%m-%d %H:%M:%S"@)
    } else {
        None
    }
}

/// The first instant that two neighbouring parts write, from part `from`
/// on.
pub open spec fn first_date_time(parts: Seq<Seq<char>>, from: int) -> Option<i64>
    decreases parts.len() - from,
{
    if from < 0 || from + 1 >= parts.len() {
        None
    } else {
        match date_time_at(parts, from) {
            Some(x) => Some(x),
            None => first_date_time(parts, from + 1),
        }
    }
}

/// The instant in the name of a file such as
/// `DJIFlightRecord_2026-01-27_10-56-42.csv`: the name is cut at its
/// underscores, and the first two neighbouring parts that write a date and
/// a time give the instant. A name of fewer than three parts has none.
pub open spec fn instant_in_file_name(name: Seq<char>) -> Option<i64> {
    let parts = split_fields(name, '_');
    if parts.len() >= 3 {
        first_date_time(parts, 0)
    } else {
        None
    }
}

/// Counts how often `c` stands in `v`.
pub fn count_char(v: &Vec<char>, c: char) -> (n: usize)
    ensures
        n == count_of(v@, c, v@.len() as int),
{
    let mut n: usize = 0;
    let mut i: usize = 0;
    while i < v.len()
        invariant
            i <= v.len(),
            n == count_of(v@, c, i as int),
            n <= i,
        decreases v.len() - i,
    {
        if v[i] == c {
            n += 1;
        }
        i += 1;
    }
    n
}

/// Takes every occurrence of `pat` out of `v`, from left to right.
pub fn remove_all(v: &Vec<char>, pat: &Vec<char>) -> (r: Vec<char>)
    requires
        pat@.len() > 0,
    ensures
        r@ == without(v@, pat@),
{
    let mut r: Vec<char> = Vec::new();
    let mut i: usize = 0;
    assert(v@.skip(0) =~= v@);
    assert(r@ + without(v@.skip(0), pat@) =~= without(v@, pat@));
    while i < v.len()
        invariant
            i <= v.len(),
            pat@.len() > 0,
            without(v@, pat@) == r@ + without(v@.skip(i as int), pat@),
        decreases v.len() - i,
    {
        let ghost rest = v@.skip(i as int);
        let ghost before = r@;
        if matches_at(v, pat, i) {
            proof {
                assert(v@.subrange(i as int, i + pat@.len()) =~= rest.subrange(
                    0,
                    pat@.len() as int,
                ));
                assert(occurs_at(rest, pat@, 0));
                assert(rest.skip(pat@.len() as int) =~= v@.skip(i + pat@.len()));
            }
            i += pat.len();
        } else {
            proof {
                if i + pat@.len() <= v@.len() {
                    assert(v@.subrange(i as int, i + pat@.len()) =~= rest.subrange(
                        0,
                        pat@.len() as int,
                    ));
                }
                assert(!occurs_at(rest, pat@, 0));
                assert(rest.skip(1) =~= v@.skip(i + 1));
                assert(rest[0] == v@[i as int]);
            }
            r.push(v[i]);
            proof {
                assert(r@ + without(v@.skip(i + 1), pat@) =~= before + (seq![rest[0]] + without(
                    rest.skip(1),
                    pat@,
                )));
            }
            i += 1;
        }
    }
    proof {
        assert(v@.skip(v@.len() as int) =~= Seq::<char>::empty());
        assert(r@ + Seq::<char>::empty() =~= r@);
    }
    r
}

/// Reads the instant that a date part and a time part of a file name
/// write.
fn read_date_time(date: &str, part: &str) -> (r: Option<i64>)
    ensures
        r == (if encode_utf8(date@).len() == 10 && count_of(date@, '-', date@.len() as int) == 2
            && encode_utf8(time_part(part@)).len() >= 8 && count_of(
            time_part(part@),
            '-',
            time_part(part@).len() as int,
        ) == 2 {
            naive_instant(date@ + " "@ + with_colons(time_part(part@)), "%Y-%m-%d %H:%M:%S"@)
        } else {
            None
        }),
{
    proof {
        reveal_strlit(".csv");
        reveal_strlit(".CSV");
    }
    let d = chars_of(date);
    let lower = remove_all(&chars_of(part), &chars_of(".csv"));
    let time = remove_all(&lower, &chars_of(".CSV"));
    let time_text = string_of(&time);
    if date.as_bytes().len() == 10 && count_char(&d, '-') == 2 && time_text.as_str().as_bytes().len()
        >= 8 && count_char(&time, '-') == 2 {
        let mut written: Vec<char> = d;
        written.push(' ');
        let mut i: usize = 0;
        let ghost head = written@;
        while i < time.len()
            invariant
                i <= time.len(),
                written@ =~= head + with_colons(time@).take(i as int),
            decreases time.len() - i,
        {
            if time[i] == '-' {
                written.push(':');
            } else {
                written.push(time[i]);
            }
            i += 1;
        }
        proof {
            reveal_strlit(" ");
            assert(head =~= date@ + " "@);
            assert(with_colons(time@).take(time@.len() as int) =~= with_colons(time@));
        }
        let text = string_of(&written);
        parse_naive(text.as_str(), "%Y-%m-%d %H:%M:%S")
    } else {
        None
    }
}

/// Reads the instant in the name of a file; see [`instant_in_file_name`].
pub fn extract_datetime_from_filename(name: &str) -> (r: Option<i64>)
    ensures
        r == instant_in_file_name(name@),
{
    let parts = split(name, '_');
    if parts.len() < 3 {
        return None;
    }
    let mut i: usize = 0;
    while i + 1 < parts.len()
        invariant
            i < parts.len(),
            parts.len() >= 3,
            texts(parts@) == split_fields(name@, '_'),
            first_date_time(texts(parts@), 0) == first_date_time(texts(parts@), i as int),
        decreases parts.len() - i,
    {
        assert(texts(parts@)[i as int] == parts@[i as int]@);
        assert(texts(parts@)[i + 1] == parts@[i + 1]@);
        let found = read_date_time(parts[i].as_str(), parts[i + 1].as_str());
        assert(found == date_time_at(texts(parts@), i as int));
        match found {
            Some(x) => {
                return Some(x);
            },
            None => {},
        }
        i += 1;
    }
    None
}

} // verus!
