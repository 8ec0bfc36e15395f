//! Regular-expression captures, as the extractors use them.
use vstd::prelude::*;

verus! {

/// The capture groups (group 0 the whole match) of the leftmost-first match of
/// the regular expression `pattern` in `text`; `None` where the pattern does
/// not compile or does not match.
pub uninterp spec fn regex_captures(pattern: Seq<char>, text: Seq<char>) -> Option<
    Seq<Option<Seq<char>>>,
>;

pub open spec fn opt_view(o: Option<String>) -> Option<Seq<char>> {
    match o {
        Some(s) => Some(s@),
        None => None,
    }
}

pub open spec fn groups_view(v: Seq<Option<String>>) -> Seq<Option<Seq<char>>> {
    v.map_values(|g: Option<String>| opt_view(g))
}

/// Relies on `regex::Regex::new` and `Regex::captures`: the groups of the
/// leftmost-first match, as a function of the pattern and the text alone.
#[verifier::external_body]
fn captures(pattern: &str, text: &str) -> (r: Option<Vec<Option<String>>>)
    ensures
        match r {
            Some(v) => regex_captures(pattern@, text@) == Some(groups_view(v@)),
            None => regex_captures(pattern@, text@) is None,
        },
{
    let caps = regex::Regex::new(pattern).ok()?.captures(text)?;
    Some(caps.iter().map(|g| g.map(|m| m.as_str().to_string())).collect())
}

/// Group `i` of the match of `pattern` in `text`, if both exist.
pub open spec fn capture_group(pattern: Seq<char>, text: Seq<char>, i: int) -> Option<Seq<char>> {
    match regex_captures(pattern, text) {
        Some(g) => if 0 <= i < g.len() {
            g[i]
        } else {
            None
        },
        None => None,
    }
}

/// Group `i` of the match of `pattern` in `text`.
pub fn group(pattern: &str, text: &str, i: usize) -> (r: Option<String>)
    ensures
        opt_view(r) == capture_group(pattern@, text@, i as int),
{
    match captures(pattern, text) {
        Some(v) => {
            if i < v.len() {
                let g = &v[i];
                match g {
                    Some(s) => Some(s.clone()),
                    None => None,
                }
            } else {
                None
            }
        },
        None => None,
    }
}

} // verus!

verus! {

/// `text` with every leftmost-first, non-overlapping match of the regular
/// expression `pattern` replaced by `rep` (taken literally); `None` where the
/// pattern does not compile.
pub uninterp spec fn regex_replaced(pattern: Seq<char>, text: Seq<char>, rep: Seq<char>) -> Option<
    Seq<char>,
>;

/// Relies on `regex::Regex::new` and `Regex::replace_all` with a literal
/// replacement: the result depends on the pattern, the text and the
/// replacement alone.
#[verifier::external_body]
pub(crate) fn replace_all(pattern: &str, text: &str, rep: &str) -> (r: Option<String>)
    ensures
        opt_view(r) == regex_replaced(pattern@, text@, rep@),
{
    let re = regex::Regex::new(pattern).ok()?;
    Some(re.replace_all(text, regex::NoExpand(rep)).into_owned())
}

} // verus!
