//! Pool chemistry readings from the free text of a report: temperature, pH
//! and ORP, each found by the first of its patterns that yields a valid value.
use vstd::prelude::*;
use crate::decimal::{decimal_in_range, decimal_within, parse_decimal, parse_i32, parsed_decimal, parsed_i32, Decimal};
use crate::pattern::{capture_group, group, opt_view};
use crate::attachment_parser::{lossy_text, mime_message, parse_mime, text_of_bytes};
use crate::pattern::{regex_replaced, replace_all};
use crate::text::{chars_of, replace_chars, replace_seq, string_from};
use crate::timestamp::Timestamp;
use crate::xsense::ExtractError;

verus! {

/// One pool reading; at least one of the three metrics is present.
#[derive(Debug, Clone, Copy, PartialEq, Eq, Structural)]
pub struct PoolReading {
    pub timestamp: Timestamp,
    pub temperature: Option<Decimal>,
    pub ph: Option<Decimal>,
    pub orp: Option<i32>,
}

/// Highest pH accepted.
pub const PH_MAX: i64 = 14;

/// Highest ORP accepted, in millivolts.
pub const ORP_MAX: i32 = 1000;

pub open spec fn temperature_patterns() -> Seq<Seq<char>> {
    seq![
        "(?i)temp[ée]rature[:\\s]+([0-9]+[.,][0-9]+)"@,
        "(?i)temp[:\\s]+([0-9]+[.,][0-9]+)"@,
        "([0-9]+[.,][0-9]+)\\s*°C"@,
    ]
}

pub open spec fn ph_patterns() -> Seq<Seq<char>> {
    seq!["(?i)ph[:\\s]+([0-9]+[.,][0-9]+)"@, "(?i)ph\\s*=\\s*([0-9]+[.,][0-9]+)"@]
}

pub open spec fn orp_patterns() -> Seq<Seq<char>> {
    seq![
        "(?i)orp[:\\s]+([0-9]+)\\s*m?V?"@,
        "(?i)redox[:\\s]+([0-9]+)\\s*m?V?"@,
        "([0-9]+)\\s*mV"@,
    ]
}

/// What each pattern captures (group 1) in `text`.
pub open spec fn captures_of(patterns: Seq<Seq<char>>, text: Seq<char>) -> Seq<Option<Seq<char>>> {
    patterns.map_values(|p: Seq<char>| capture_group(p, text, 1))
}

/// `s` with each comma read as a decimal point.
pub open spec fn comma_to_dot(s: Seq<char>) -> Seq<char> {
    s.map_values(|c: char| if c == ',' { '.' } else { c })
}

/// The number of a captured decimal, comma or point.
pub open spec fn capture_decimal(c: Option<Seq<char>>) -> Option<Decimal> {
    match c {
        Some(s) => parsed_decimal(comma_to_dot(s)),
        None => None,
    }
}

/// The first capture that reads as a decimal.
pub open spec fn first_decimal(caps: Seq<Option<Seq<char>>>) -> Option<Decimal>
    decreases caps.len(),
{
    if caps.len() == 0 {
        None
    } else {
        match capture_decimal(caps[0]) {
            Some(d) => Some(d),
            None => first_decimal(caps.drop_first()),
        }
    }
}

/// The first capture that reads as a decimal in `[0, PH_MAX]`.
pub open spec fn first_ph(caps: Seq<Option<Seq<char>>>) -> Option<Decimal>
    decreases caps.len(),
{
    if caps.len() == 0 {
        None
    } else {
        match capture_decimal(caps[0]) {
            Some(d) => if decimal_within(d, 0, PH_MAX as int) {
                Some(d)
            } else {
                first_ph(caps.drop_first())
            },
            None => first_ph(caps.drop_first()),
        }
    }
}

/// The first capture that reads as an integer in `[0, ORP_MAX]`.
pub open spec fn first_orp(caps: Seq<Option<Seq<char>>>) -> Option<i32>
    decreases caps.len(),
{
    if caps.len() == 0 {
        None
    } else {
        match caps[0] {
            Some(s) => match parsed_i32(s) {
                Some(v) => if 0 <= v <= ORP_MAX {
                    Some(v)
                } else {
                    first_orp(caps.drop_first())
                },
                None => first_orp(caps.drop_first()),
            },
            None => first_orp(caps.drop_first()),
        }
    }
}

pub open spec fn temperature_in(text: Seq<char>) -> Option<Decimal> {
    first_decimal(captures_of(temperature_patterns(), text))
}

pub open spec fn ph_in(text: Seq<char>) -> Option<Decimal> {
    first_ph(captures_of(ph_patterns(), text))
}

pub open spec fn orp_in(text: Seq<char>) -> Option<i32> {
    first_orp(captures_of(orp_patterns(), text))
}

/// What the pool extraction gives for `text`: the reading of the metrics
/// found, or `None` where none is.
pub open spec fn pool_metrics(text: Seq<char>, timestamp: Timestamp) -> Option<PoolReading> {
    if temperature_in(text) is None && ph_in(text) is None && orp_in(text) is None {
        None
    } else {
        Some(
            PoolReading {
                timestamp,
                temperature: temperature_in(text),
                ph: ph_in(text),
                orp: orp_in(text),
            },
        )
    }
}

pub open spec fn caps_view(v: Seq<Option<String>>) -> Seq<Option<Seq<char>>> {
    v.map_values(|g: Option<String>| opt_view(g))
}

/// The decimal of a capture, with a comma read as a point.
fn decimal_of_capture(c: &Option<String>) -> (r: Option<Decimal>)
    ensures
        r == capture_decimal(opt_view(*c)),
{
    match c {
        Some(s) => {
            let v = chars_of(s.as_str());
            let mut w: Vec<char> = Vec::new();
            let mut i: usize = 0;
            while i < v.len()
                invariant
                    i <= v@.len(),
                    w@ == comma_to_dot(v@.subrange(0, i as int)),
                decreases v@.len() - i,
            {
                let c = v[i];
                w.push(
                    if c == ',' {
                        '.'
                    } else {
                        c
                    },
                );
                assert(comma_to_dot(v@.subrange(0, i + 1)) =~= comma_to_dot(
                    v@.subrange(0, i as int),
                ).push(if c == ',' { '.' } else { c }));
                i = i + 1;
            }
            assert(v@.subrange(0, v@.len() as int) =~= v@);
            assert(w@.subrange(0, w@.len() as int) =~= w@);
            parse_decimal(&w, 0, w.len())
        },
        None => None,
    }
}

/// The temperature of the first capture that reads as a decimal.
pub fn temperature_from_captures(caps: &Vec<Option<String>>) -> (r: Option<Decimal>)
    ensures
        r == first_decimal(caps_view(caps@)),
{
    let ghost cv = caps_view(caps@);
    let mut i: usize = 0;
    assert(cv.subrange(0, cv.len() as int) =~= cv);
    while i < caps.len()
        invariant
            i <= caps@.len(),
            cv == caps_view(caps@),
            first_decimal(cv.subrange(i as int, cv.len() as int)) == first_decimal(cv),
        decreases caps@.len() - i,
    {
        let ghost rest = cv.subrange(i as int, cv.len() as int);
        assert(rest[0] == opt_view(caps@[i as int]));
        assert(rest.drop_first() =~= cv.subrange(i + 1, cv.len() as int));
        match decimal_of_capture(&caps[i]) {
            Some(d) => {
                return Some(d);
            },
            None => {},
        }
        i = i + 1;
    }
    None
}

/// The pH of the first capture that reads as a decimal in `[0, PH_MAX]`.
pub fn ph_from_captures(caps: &Vec<Option<String>>) -> (r: Option<Decimal>)
    ensures
        r == first_ph(caps_view(caps@)),
{
    let ghost cv = caps_view(caps@);
    let mut i: usize = 0;
    assert(cv.subrange(0, cv.len() as int) =~= cv);
    while i < caps.len()
        invariant
            i <= caps@.len(),
            cv == caps_view(caps@),
            first_ph(cv.subrange(i as int, cv.len() as int)) == first_ph(cv),
        decreases caps@.len() - i,
    {
        let ghost rest = cv.subrange(i as int, cv.len() as int);
        assert(rest[0] == opt_view(caps@[i as int]));
        assert(rest.drop_first() =~= cv.subrange(i + 1, cv.len() as int));
        match decimal_of_capture(&caps[i]) {
            Some(d) => {
                if decimal_in_range(d, 0, PH_MAX) {
                    return Some(d);
                }
            },
            None => {},
        }
        i = i + 1;
    }
    None
}

/// The ORP of the first capture that reads as an integer in `[0, ORP_MAX]`.
pub fn orp_from_captures(caps: &Vec<Option<String>>) -> (r: Option<i32>)
    ensures
        r == first_orp(caps_view(caps@)),
{
    let ghost cv = caps_view(caps@);
    let mut i: usize = 0;
    assert(cv.subrange(0, cv.len() as int) =~= cv);
    while i < caps.len()
        invariant
            i <= caps@.len(),
            cv == caps_view(caps@),
            first_orp(cv.subrange(i as int, cv.len() as int)) == first_orp(cv),
        decreases caps@.len() - i,
    {
        let ghost rest = cv.subrange(i as int, cv.len() as int);
        assert(rest[0] == opt_view(caps@[i as int]));
        assert(rest.drop_first() =~= cv.subrange(i + 1, cv.len() as int));
        match &caps[i] {
            Some(s) => {
                let v = chars_of(s.as_str());
                assert(v@.subrange(0, v@.len() as int) =~= v@);
                match parse_i32(&v, 0, v.len()) {
                    Some(x) => {
                        if 0 <= x && x <= ORP_MAX {
                            return Some(x);
                        }
                    },
                    None => {},
                }
            },
            None => {},
        }
        i = i + 1;
    }
    None
}

/// Group 1 of each pattern's match in `text`.
fn capture_all(patterns: &Vec<&str>, text: &str) -> (r: Vec<Option<String>>)
    ensures
        caps_view(r@) == patterns@.map_values(|p: &str| capture_group(p@, text@, 1)),
{
    let mut r: Vec<Option<String>> = Vec::new();
    let mut i: usize = 0;
    while i < patterns.len()
        invariant
            i <= patterns@.len(),
            caps_view(r@) == patterns@.subrange(0, i as int).map_values(
                |p: &str| capture_group(p@, text@, 1),
            ),
        decreases patterns@.len() - i,
    {
        let g = group(patterns[i], text, 1);
        let ghost before = r@;
        r.push(g);
        assert(caps_view(r@) =~= caps_view(before).push(opt_view(g)));
        assert(patterns@.subrange(0, i + 1).map_values(|p: &str| capture_group(p@, text@, 1))
            =~= patterns@.subrange(0, i as int).map_values(
            |p: &str| capture_group(p@, text@, 1),
        ).push(capture_group(patterns@[i as int]@, text@, 1)));
        i = i + 1;
    }
    assert(patterns@.subrange(0, patterns@.len() as int) =~= patterns@);
    r
}

/// The water temperature in `text`: the first of "temperature"/"température",
/// "temp", or a number before "°C" that is followed by a decimal.
pub fn extract_temperature(text: &str) -> (r: Option<Decimal>)
    ensures
        r == temperature_in(text@),
{
    let patterns: Vec<&str> = vec![
        "(?i)temp[ée]rature[:\\s]+([0-9]+[.,][0-9]+)",
        "(?i)temp[:\\s]+([0-9]+[.,][0-9]+)",
        "([0-9]+[.,][0-9]+)\\s*°C",
    ];
    let caps = capture_all(&patterns, text);
    assert(patterns@.map_values(|p: &str| capture_group(p@, text@, 1)) =~= captures_of(
        temperature_patterns(),
        text@,
    ));
    temperature_from_captures(&caps)
}

/// The pH in `text`: "ph" followed by a decimal in `[0, PH_MAX]`.
pub fn extract_ph(text: &str) -> (r: Option<Decimal>)
    ensures
        r == ph_in(text@),
{
    let patterns: Vec<&str> = vec![
        "(?i)ph[:\\s]+([0-9]+[.,][0-9]+)",
        "(?i)ph\\s*=\\s*([0-9]+[.,][0-9]+)",
    ];
    let caps = capture_all(&patterns, text);
    assert(patterns@.map_values(|p: &str| capture_group(p@, text@, 1)) =~= captures_of(
        ph_patterns(),
        text@,
    ));
    ph_from_captures(&caps)
}

/// The ORP in `text`: "orp" or "redox" followed by an integer, or an integer
/// before "mV", in `[0, ORP_MAX]`.
pub fn extract_orp(text: &str) -> (r: Option<i32>)
    ensures
        r == orp_in(text@),
{
    let patterns: Vec<&str> = vec![
        "(?i)orp[:\\s]+([0-9]+)\\s*m?V?",
        "(?i)redox[:\\s]+([0-9]+)\\s*m?V?",
        "([0-9]+)\\s*mV",
    ];
    let caps = capture_all(&patterns, text);
    assert(patterns@.map_values(|p: &str| capture_group(p@, text@, 1)) =~= captures_of(
        orp_patterns(),
        text@,
    ));
    orp_from_captures(&caps)
}

/// The pool reading of a report's text; fails where no metric is found.
pub fn extract_pool_metrics(text: &str, timestamp: Timestamp) -> (r: Result<
    PoolReading,
    ExtractError,
>)
    ensures
        match r {
            Ok(p) => pool_metrics(text@, timestamp) == Some(p),
            Err(e) => pool_metrics(text@, timestamp) is None && e is NoMetrics,
        },
{
    let temperature = extract_temperature(text);
    let ph = extract_ph(text);
    let orp = extract_orp(text);
    if temperature.is_none() && ph.is_none() && orp.is_none() {
        return Err(ExtractError::NoMetrics);
    }
    Ok(PoolReading { timestamp, temperature, ph, orp })
}

} // verus!

verus! {

proof fn lemma_first_ph_in_range(caps: Seq<Option<Seq<char>>>)
    ensures
        first_ph(caps) matches Some(d) ==> decimal_within(d, 0, PH_MAX as int),
    decreases caps.len(),
{
    if caps.len() > 0 {
        lemma_first_ph_in_range(caps.drop_first());
    }
}

proof fn lemma_first_orp_in_range(caps: Seq<Option<Seq<char>>>)
    ensures
        first_orp(caps) matches Some(v) ==> 0 <= v <= ORP_MAX,
    decreases caps.len(),
{
    if caps.len() > 0 {
        lemma_first_orp_in_range(caps.drop_first());
    }
}

/// A pH or ORP that the extraction reports lies in its valid range, whatever
/// the text: a value out of range counts as not found.
pub proof fn lemma_pool_metrics_in_range(text: Seq<char>, timestamp: Timestamp)
    ensures
        pool_metrics(text, timestamp) matches Some(p) ==> (p.ph matches Some(d) ==> decimal_within(
            d,
            0,
            PH_MAX as int,
        )) && (p.orp matches Some(v) ==> 0 <= v <= ORP_MAX),
        pool_metrics(text, timestamp) is None <==> (temperature_in(text) is None && ph_in(text) is None
            && orp_in(text) is None),
{
    lemma_first_ph_in_range(captures_of(ph_patterns(), text));
    lemma_first_orp_in_range(captures_of(orp_patterns(), text));
}

} // verus!

verus! {

/// The first plain-text and first HTML bodies that the MIME parser finds in
/// raw message bytes, or `None` where it cannot parse them.
pub open spec fn mime_bodies(raw: Seq<u8>) -> Option<(Option<Seq<char>>, Option<Seq<char>>)> {
    match mime_message(raw) {
        Some(m) => Some((m.text_body, m.html_body)),
        None => None,
    }
}

/// The pattern of an HTML tag.
pub open spec fn tag_pattern() -> Seq<char> {
    "<[^>]+>"@
}

/// HTML as text: line and paragraph breaks become line feeds, then every tag
/// is removed.
pub open spec fn html_as_text(h: Seq<char>) -> Seq<char> {
    let nl = "\n"@;
    let a = replace_seq(
        replace_seq(replace_seq(replace_seq(h, "<br>"@, nl), "<BR>"@, nl), "</p>"@, nl),
        "</P>"@,
        nl,
    );
    match regex_replaced(tag_pattern(), a, ""@) {
        Some(x) => x,
        None => a,
    }
}

/// The text of a report: the plain-text body, else the HTML body as text,
/// else the raw message as text; an empty candidate counts as missing.
pub open spec fn report_text_of(
    text_body: Option<Seq<char>>,
    html_body: Option<Seq<char>>,
    raw: Seq<u8>,
) -> Seq<char> {
    let a = match text_body {
        Some(t) => t,
        None => Seq::empty(),
    };
    if a.len() > 0 {
        a
    } else {
        let b = match html_body {
            Some(h) => html_as_text(h),
            None => Seq::empty(),
        };
        if b.len() > 0 {
            b
        } else {
            lossy_text(raw)
        }
    }
}

/// What the pool extraction gives for a raw report message.
pub open spec fn message_pool_reading(raw: Seq<u8>, timestamp: Timestamp) -> Result<
    PoolReading,
    crate::xsense::ErrorView,
> {
    match mime_bodies(raw) {
        None => Err(crate::xsense::ErrorView::MessageUnreadable),
        Some((t, h)) => match pool_metrics(report_text_of(t, h, raw), timestamp) {
            Some(p) => Ok(p),
            None => Err(crate::xsense::ErrorView::NoMetrics),
        },
    }
}

/// HTML as text.
pub fn html_to_text(h: &str) -> (r: String)
    ensures
        r@ == html_as_text(h@),
{
    let nl = chars_of("\n");
    let v = chars_of(h);
    let v = replace_chars(&v, &chars_of("<br>"), &nl);
    let v = replace_chars(&v, &chars_of("<BR>"), &nl);
    let v = replace_chars(&v, &chars_of("</p>"), &nl);
    let v = replace_chars(&v, &chars_of("</P>"), &nl);
    let a = string_from(&v);
    match replace_all("<[^>]+>", a.as_str(), "") {
        Some(x) => x,
        None => a,
    }
}

/// The text of a report, from its bodies and raw bytes.
pub fn report_text(text_body: Option<String>, html_body: Option<String>, raw: &[u8]) -> (r: String)
    ensures
        r@ == report_text_of(opt_view(text_body), opt_view(html_body), raw@),
{
    if let Some(t) = &text_body {
        if t.as_str().unicode_len() > 0 {
            return t.clone();
        }
    }
    if let Some(h) = &html_body {
        let b = html_to_text(h.as_str());
        if b.as_str().unicode_len() > 0 {
            return b;
        }
    }
    string_from(&text_of_bytes(raw))
}

/// The pool reading of a raw report message.
pub fn extract_from_message(raw: &[u8], timestamp: Timestamp) -> (r: Result<
    PoolReading,
    ExtractError,
>)
    ensures
        match r {
            Ok(p) => message_pool_reading(raw@, timestamp) == Ok::<
                PoolReading,
                crate::xsense::ErrorView,
            >(p),
            Err(e) => message_pool_reading(raw@, timestamp) == Err::<
                PoolReading,
                crate::xsense::ErrorView,
            >(e@),
        },
{
    match parse_mime(raw) {
        None => Err(ExtractError::MessageUnreadable),
        Some(m) => {
            let text = report_text(m.text_body, m.html_body, raw);
            extract_pool_metrics(text.as_str(), timestamp)
        },
    }
}

} // verus!
