//! Points in time, and the normalizer that reads them from the date formats
//! that readings come with.
use vstd::prelude::*;
use crate::text::{
    copy_range, chars_of, lines_from, lines_of, matches_at, matches_here, string_from, trim_bounds,
    trim_ws,
};

verus! {

/// A UTC instant: seconds since 1970-01-01T00:00:00Z and the nanoseconds past them.
#[derive(Debug, Clone, Copy, PartialEq, Eq, Structural)]
pub struct Timestamp {
    pub seconds: i64,
    pub nanos: u32,
}

/// The instant that `chrono::NaiveDateTime::parse_from_str` reads from `s`
/// with the format `fmt`, taken as UTC.
pub uninterp spec fn naive_utc(s: Seq<char>, fmt: Seq<char>) -> Option<Timestamp>;

/// The instant that `chrono::DateTime::parse_from_rfc3339` reads from `s`.
pub uninterp spec fn rfc3339_instant(s: Seq<char>) -> Option<Timestamp>;

/// Relies on `chrono::NaiveDateTime::parse_from_str`, read as UTC: the result
/// depends on the text and the format alone.
#[verifier::external_body]
pub(crate) fn parse_naive_utc(s: &str, fmt: &str) -> (r: Option<Timestamp>)
    ensures
        r == naive_utc(s@, fmt@),
{
    let t = chrono::NaiveDateTime::parse_from_str(s, fmt).ok()?.and_utc();
    Some(Timestamp { seconds: t.timestamp(), nanos: t.timestamp_subsec_nanos() })
}

/// Relies on `chrono::DateTime::parse_from_rfc3339`: the instant that an
/// RFC 3339 date with offset names, as a function of the text alone.
#[verifier::external_body]
pub(crate) fn parse_rfc3339(s: &str) -> (r: Option<Timestamp>)
    ensures
        r == rfc3339_instant(s@),
{
    let t = chrono::DateTime::parse_from_rfc3339(s).ok()?;
    Some(Timestamp { seconds: t.timestamp(), nanos: t.timestamp_subsec_nanos() })
}

/// The format of the timestamps in sensor exports.
pub open spec fn export_format() -> Seq<char> {
    "%Y/%m/%d %H:%M"@
}

/// The first of `c` that is present.
pub open spec fn first_present(c: Seq<Option<Timestamp>>) -> Option<Timestamp>
    decreases c.len(),
{
    if c.len() == 0 {
        None
    } else if c[0] is Some {
        c[0]
    } else {
        first_present(c.drop_first())
    }
}

/// The readings of `s` in the order the normalizer tries them: RFC 3339 with
/// offset, then `YYYY-MM-DD HH:MM:SS`, `YYYY-MM-DDTHH:MM:SS`,
/// `DD/MM/YYYY HH:MM:SS` and `MM/DD/YYYY HH:MM:SS`, all read as UTC.
pub open spec fn timestamp_candidates(s: Seq<char>) -> Seq<Option<Timestamp>> {
    seq![
        rfc3339_instant(s),
        naive_utc(s, "%Y-%m-%d %H:%M:%S"@),
        naive_utc(s, "%Y-%m-%dT%H:%M:%S"@),
        naive_utc(s, "%d/%m/%Y %H:%M:%S"@),
        naive_utc(s, "%m/%d/%Y %H:%M:%S"@),
    ]
}

/// What the normalizer reads from `s`.
pub open spec fn normalized_timestamp(s: Seq<char>) -> Option<Timestamp> {
    first_present(timestamp_candidates(s))
}

/// The first candidate reading that is present.
pub fn first_parsed(candidates: &Vec<Option<Timestamp>>) -> (r: Option<Timestamp>)
    ensures
        r == first_present(candidates@),
{
    let mut i: usize = 0;
    assert(candidates@.subrange(0, candidates@.len() as int) =~= candidates@);
    while i < candidates.len()
        invariant
            i <= candidates@.len(),
            first_present(candidates@.subrange(i as int, candidates@.len() as int))
                == first_present(candidates@),
        decreases candidates@.len() - i,
    {
        let ghost rest = candidates@.subrange(i as int, candidates@.len() as int);
        assert(rest[0] == candidates@[i as int]);
        if candidates[i].is_some() {
            return candidates[i];
        }
        assert(rest.drop_first() =~= candidates@.subrange(i + 1, candidates@.len() as int));
        i = i + 1;
    }
    None
}

/// Reads a timestamp in any of the supported formats.
pub fn parse_timestamp(s: &str) -> (r: Option<Timestamp>)
    ensures
        r == normalized_timestamp(s@),
{
    let mut c: Vec<Option<Timestamp>> = Vec::new();
    c.push(parse_rfc3339(s));
    c.push(parse_naive_utc(s, "%Y-%m-%d %H:%M:%S"));
    c.push(parse_naive_utc(s, "%Y-%m-%dT%H:%M:%S"));
    c.push(parse_naive_utc(s, "%d/%m/%Y %H:%M:%S"));
    c.push(parse_naive_utc(s, "%m/%d/%Y %H:%M:%S"));
    assert(c@ =~= timestamp_candidates(s@));
    first_parsed(&c)
}

/// Reads a timestamp of a sensor export, `YYYY/MM/DD HH:MM`, as UTC.
pub fn parse_export_timestamp(s: &str) -> (r: Option<Timestamp>)
    ensures
        r == naive_utc(s@, export_format()),
{
    parse_naive_utc(s, "%Y/%m/%d %H:%M")
}

/// Reads a timestamp from characters.
pub fn parse_timestamp_chars(v: &Vec<char>) -> (r: Option<Timestamp>)
    ensures
        r == normalized_timestamp(v@),
{
    let s = string_from(v);
    parse_timestamp(s.as_str())
}

} // verus!

verus! {

/// The instant that `chrono::DateTime::parse_from_rfc2822` reads from `s`.
pub uninterp spec fn rfc2822_instant(s: Seq<char>) -> Option<Timestamp>;

/// Relies on `chrono::DateTime::parse_from_rfc2822`: the instant that an
/// RFC 2822 date names, as a function of the text alone.
#[verifier::external_body]
fn parse_rfc2822(s: &str) -> (r: Option<Timestamp>)
    ensures
        r == rfc2822_instant(s@),
{
    let t = chrono::DateTime::parse_from_rfc2822(s).ok()?;
    Some(Timestamp { seconds: t.timestamp(), nanos: t.timestamp_subsec_nanos() })
}

/// How many lines of a message the header date is looked for in.
pub const MAX_HEADER_LINES: usize = 50;

pub open spec fn date_prefix() -> Seq<char> {
    "Date: "@
}

/// The date of the first `Date: ` line, among the lines from `k` on within
/// the first `MAX_HEADER_LINES` and before the first empty line, whose value
/// (trimmed) reads as an RFC 2822 date.
pub open spec fn header_date_from(lines: Seq<Seq<char>>, k: int) -> Option<Timestamp>
    decreases lines.len() - k,
{
    if k < 0 || k >= lines.len() || k >= MAX_HEADER_LINES {
        None
    } else if lines[k].len() == 0 {
        None
    } else if matches_at(lines[k], date_prefix(), 0) && rfc2822_instant(
        trim_ws(lines[k].subrange(date_prefix().len() as int, lines[k].len() as int)),
    ) is Some {
        rfc2822_instant(
            trim_ws(lines[k].subrange(date_prefix().len() as int, lines[k].len() as int)),
        )
    } else {
        header_date_from(lines, k + 1)
    }
}

/// The date in the headers of a raw message.
pub fn date_from_headers(text: &str) -> (r: Option<Timestamp>)
    ensures
        r == header_date_from(lines_from(text@, 0), 0),
{
    let v = chars_of(text);
    let lines = lines_of(&v);
    let ghost lv = lines@.map_values(|l: Vec<char>| l@);
    let prefix = chars_of("Date: ");
    let mut k: usize = 0;
    while k < lines.len() && k < MAX_HEADER_LINES
        invariant
            k <= lines@.len(),
            lv == lines@.map_values(|l: Vec<char>| l@),
            lv == lines_from(text@, 0),
            prefix@ == date_prefix(),
            header_date_from(lv, k as int) == header_date_from(lv, 0),
        decreases lines@.len() - k,
    {
        let line = &lines[k];
        assert(lv[k as int] == line@);
        if line.len() == 0 {
            return None;
        }
        if matches_here(line, &prefix, 0) {
            let (a, b) = trim_bounds(line, prefix.len(), line.len(), false);
            let value = string_from(&copy_range(line, a, b));
            let d = parse_rfc2822(value.as_str());
            if d.is_some() {
                return d;
            }
        }
        k = k + 1;
    }
    None
}

} // verus!
