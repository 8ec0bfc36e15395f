//! Counters kept while a batch of messages is processed.
use vstd::prelude::*;
use crate::text::{
    chars_of, copy_range, lines_from, lines_of, matches_at, matches_here, string_from, trim_bounds,
    trim_ws,
};

verus! {

/// How many messages of a batch were processed and how many failed.
#[derive(Debug, Clone, Copy, PartialEq, Eq, Structural)]
pub struct ProcessingResult {
    pub emails_processed: usize,
    pub emails_failed: usize,
}

impl ProcessingResult {
    /// Both counters at zero.
    pub fn new() -> (r: Self)
        ensures
            r.emails_processed == 0,
            r.emails_failed == 0,
    {
        ProcessingResult { emails_processed: 0, emails_failed: 0 }
    }

    /// Counts one more processed message.
    pub fn success(&mut self)
        requires
            old(self).emails_processed < usize::MAX,
        ensures
            final(self).emails_processed == old(self).emails_processed + 1,
            final(self).emails_failed == old(self).emails_failed,
    {
        self.emails_processed = self.emails_processed + 1;
    }

    /// Counts one more failed message.
    pub fn failure(&mut self)
        requires
            old(self).emails_failed < usize::MAX,
        ensures
            final(self).emails_failed == old(self).emails_failed + 1,
            final(self).emails_processed == old(self).emails_processed,
    {
        self.emails_failed = self.emails_failed + 1;
    }
}

impl Default for ProcessingResult {
    fn default() -> (r: Self)
        ensures
            r.emails_processed == 0,
            r.emails_failed == 0,
    {
        Self::new()
    }
}

} // verus!

verus! {

pub open spec fn subject_prefix() -> Seq<char> {
    "Subject:"@
}

/// `s` without any number of leading copies of `p`, as
/// `str::trim_start_matches` gives it.
pub open spec fn strip_prefixes(s: Seq<char>, p: Seq<char>) -> Seq<char>
    decreases s.len(),
{
    if p.len() > 0 && matches_at(s, p, 0) {
        strip_prefixes(s.subrange(p.len() as int, s.len() as int), p)
    } else {
        s
    }
}

/// The first line from index `k` on that starts with `Subject:`.
pub open spec fn subject_line_from(lines: Seq<Seq<char>>, k: int) -> Option<Seq<char>>
    decreases lines.len() - k,
{
    if k < 0 || k >= lines.len() {
        None
    } else if matches_at(lines[k], subject_prefix(), 0) {
        Some(lines[k])
    } else {
        subject_line_from(lines, k + 1)
    }
}

/// The subject that a notification names: the value of the first
/// `Subject:` line of the headers, trimmed, or `Unknown`.
pub open spec fn subject_of(headers: Seq<char>) -> Seq<char> {
    let line = match subject_line_from(lines_from(headers, 0), 0) {
        Some(l) => l,
        None => "Subject: Unknown"@,
    };
    trim_ws(strip_prefixes(line, subject_prefix()))
}

/// Index of the first line that starts with `prefix`.
fn first_subject_line(lines: &Vec<Vec<char>>, prefix: &Vec<char>) -> (r: Option<usize>)
    requires
        prefix@ == subject_prefix(),
    ensures
        match r {
            Some(k) => k < lines@.len() && subject_line_from(
                lines@.map_values(|l: Vec<char>| l@),
                0,
            ) == Some(lines@[k as int]@),
            None => subject_line_from(lines@.map_values(|l: Vec<char>| l@), 0) is None,
        },
{
    let ghost lv = lines@.map_values(|l: Vec<char>| l@);
    let mut k: usize = 0;
    while k < lines.len()
        invariant
            k <= lines@.len(),
            lv == lines@.map_values(|l: Vec<char>| l@),
            prefix@ == subject_prefix(),
            subject_line_from(lv, k as int) == subject_line_from(lv, 0),
        decreases lines@.len() - k,
    {
        assert(lv[k as int] == lines@[k as int]@);
        if matches_here(&lines[k], prefix, 0) {
            return Some(k);
        }
        k = k + 1;
    }
    None
}

/// The subject of a message, from its headers.
pub fn subject_from_headers(headers: &str) -> (r: String)
    ensures
        r@ == subject_of(headers@),
{
    let v = chars_of(headers);
    let lines = lines_of(&v);
    let prefix = chars_of("Subject:");
    proof {
        reveal_strlit("Subject:");
    }
    let line: Vec<char> = match first_subject_line(&lines, &prefix) {
        Some(k) => {
            let l = copy_range(&lines[k], 0, lines[k].len());
            assert(lines@[k as int]@.subrange(0, lines@[k as int]@.len() as int) =~= lines@[k as int]@);
            l
        },
        None => chars_of("Subject: Unknown"),
    };
    let ghost chosen = line@;
    let n = line.len();
    let mut i: usize = 0;
    assert(line@.subrange(0, n as int) =~= line@);
    while matches_here(&line, &prefix, i)
        invariant
            i <= n == line@.len(),
            prefix@ == subject_prefix(),
            prefix@.len() > 0,
            strip_prefixes(line@.subrange(i as int, n as int), prefix@) == strip_prefixes(
                chosen,
                prefix@,
            ),
            chosen == line@,
        decreases n - i,
    {
        let ghost rest = line@.subrange(i as int, n as int);
        assert(rest.subrange(0, prefix@.len() as int) =~= line@.subrange(
            i as int,
            i + prefix@.len(),
        ));
        assert(rest.subrange(prefix@.len() as int, rest.len() as int) =~= line@.subrange(
            i + prefix@.len(),
            n as int,
        ));
        i = i + prefix.len();
    }
    proof {
        let rest = line@.subrange(i as int, n as int);
        if prefix@.len() <= rest.len() {
            assert(rest.subrange(0, prefix@.len() as int) =~= line@.subrange(
                i as int,
                i + prefix@.len(),
            ));
        }
    }
    let (a, b) = trim_bounds(&line, i, n, false);
    string_from(&copy_range(&line, a, b))
}

} // verus!

verus! {

/// A message as the mailbox hands it over.
#[derive(Debug, Clone)]
pub struct EmailInfo {
    pub subject: String,
    pub content: Vec<u8>,
    pub date: crate::timestamp::Timestamp,
    pub headers: String,
    pub id: String,
}

/// The processing of sensor export messages.
pub struct XSenseStrategy;

/// The processing of pool report messages.
pub struct BlueRiotStrategy;

impl XSenseStrategy {
    pub fn processor_name(&self) -> (r: &'static str)
        ensures
            r@ == "X-Sense"@,
    {
        "X-Sense"
    }

    /// The mailbox label of the messages still to process.
    pub fn label_name(&self) -> (r: &'static str)
        ensures
            r@ == "homemetrics-todo-xsense"@,
    {
        "homemetrics-todo-xsense"
    }
}

impl BlueRiotStrategy {
    pub fn processor_name(&self) -> (r: &'static str)
        ensures
            r@ == "Blue Riot"@,
    {
        "Blue Riot"
    }

    /// The mailbox label of the messages still to process.
    pub fn label_name(&self) -> (r: &'static str)
        ensures
            r@ == "homemetrics/todo/blueriot"@,
    {
        "homemetrics/todo/blueriot"
    }
}

} // verus!

verus! {

/// What processing one message gave.
#[derive(Debug, Clone, Copy, PartialEq, Eq, Structural)]
pub enum MessageOutcome {
    /// The message was processed; this many records came out of it.
    Extracted { records: usize },
    /// Processing the message failed.
    Failed,
}

/// What to do with a message once it has been processed.
#[derive(Debug, Clone, Copy, PartialEq, Eq, Structural)]
pub enum BatchAction {
    /// Mark it as processed in the mailbox.
    MarkProcessed,
    /// Leave it where it is, to be looked at again.
    LeaveUnmarked,
    /// Leave it, and report the failure.
    ReportFailure,
}

/// The totals of a batch of messages.
#[derive(Debug, Clone, Copy, PartialEq, Eq, Structural)]
pub struct BatchState {
    /// Messages processed without error.
    pub processed: usize,
    /// Records extracted from them.
    pub records: usize,
    /// Messages whose processing failed.
    pub failed: usize,
}

impl BatchState {
    pub fn new() -> (r: Self)
        ensures
            r.processed == 0 && r.records == 0 && r.failed == 0,
    {
        BatchState { processed: 0, records: 0, failed: 0 }
    }

    /// The totals after one more message, and what to do with it: a message
    /// with records is marked as processed (but in a dry run); one without
    /// records is left to be looked at again; a failure is reported (but in
    /// a dry run, where it is only left).
    pub fn step(&self, outcome: MessageOutcome, dry_run: bool) -> (r: (BatchState, BatchAction))
        requires
            self.processed < usize::MAX,
            self.failed < usize::MAX,
            outcome matches MessageOutcome::Extracted { records } ==> self.records + records
                <= usize::MAX,
        ensures
            match outcome {
                MessageOutcome::Extracted { records } => {
                    &&& r.0 == BatchState {
                        processed: (self.processed + 1) as usize,
                        records: (self.records + records) as usize,
                        failed: self.failed,
                    }
                    &&& r.1 == if records > 0 && !dry_run {
                        BatchAction::MarkProcessed
                    } else {
                        BatchAction::LeaveUnmarked
                    }
                },
                MessageOutcome::Failed => {
                    &&& r.0 == BatchState {
                        processed: self.processed,
                        records: self.records,
                        failed: (self.failed + 1) as usize,
                    }
                    &&& r.1 == if dry_run {
                        BatchAction::LeaveUnmarked
                    } else {
                        BatchAction::ReportFailure
                    }
                },
            },
    {
        match outcome {
            MessageOutcome::Extracted { records } => {
                let next = BatchState {
                    processed: self.processed + 1,
                    records: self.records + records,
                    failed: self.failed,
                };
                let action = if records > 0 && !dry_run {
                    BatchAction::MarkProcessed
                } else {
                    BatchAction::LeaveUnmarked
                };
                (next, action)
            },
            MessageOutcome::Failed => {
                let next = BatchState {
                    processed: self.processed,
                    records: self.records,
                    failed: self.failed + 1,
                };
                let action = if dry_run {
                    BatchAction::LeaveUnmarked
                } else {
                    BatchAction::ReportFailure
                };
                (next, action)
            },
        }
    }
}

/// How many of `found` messages a batch takes, with an optional limit.
pub fn batch_size(found: usize, limit: Option<usize>) -> (r: usize)
    ensures
        r == match limit {
            Some(l) => if l < found {
                l
            } else {
                found
            },
            None => found,
        },
{
    match limit {
        Some(l) => if l < found {
            l
        } else {
            found
        },
        None => found,
    }
}

} // verus!

verus! {

/// The subject and sender that metadata headers give: the value of the last
/// `Subject` and the last `From` header (each header with both a name and a
/// value), by default `No subject` and `Unknown sender`.
pub open spec fn metadata_from(headers: Seq<(Option<Seq<char>>, Option<Seq<char>>)>) -> (
    Seq<char>,
    Seq<char>,
)
    decreases headers.len(),
{
    if headers.len() == 0 {
        ("No subject"@, "Unknown sender"@)
    } else {
        let before = metadata_from(headers.drop_last());
        match headers.last() {
            (Some(name), Some(value)) => if name == "Subject"@ {
                (value, before.1)
            } else if name == "From"@ {
                (before.0, value)
            } else {
                before
            },
            _ => before,
        }
    }
}

pub open spec fn headers_view(h: Seq<(Option<String>, Option<String>)>) -> Seq<
    (Option<Seq<char>>, Option<Seq<char>>),
> {
    h.map_values(
        |p: (Option<String>, Option<String>)| (crate::pattern::opt_view(p.0), crate::pattern::opt_view(p.1)),
    )
}

/// The subject and sender of a message, from its metadata headers.
pub fn metadata_of(headers: &Vec<(Option<String>, Option<String>)>) -> (r: (String, String))
    ensures
        (r.0@, r.1@) == metadata_from(headers_view(headers@)),
{
    let ghost hv = headers_view(headers@);
    let mut subject = String::from_str("No subject");
    let mut from = String::from_str("Unknown sender");
    let mut i: usize = 0;
    while i < headers.len()
        invariant
            i <= headers@.len(),
            hv == headers_view(headers@),
            (subject@, from@) == metadata_from(hv.subrange(0, i as int)),
        decreases headers@.len() - i,
    {
        assert(hv.subrange(0, i + 1).drop_last() =~= hv.subrange(0, i as int));
        assert(hv.subrange(0, i + 1).last() == hv[i as int]);
        let (name, value) = &headers[i];
        if let (Some(name), Some(value)) = (name, value) {
            if *name == String::from_str("Subject") {
                subject = value.clone();
            } else if *name == String::from_str("From") {
                from = value.clone();
            }
        }
        i = i + 1;
    }
    assert(hv.subrange(0, hv.len() as int) =~= hv);
    (subject, from)
}

/// How a sender is written: `name <address>`, the address alone, or
/// `Unknown sender`.
pub fn sender_text(name: Option<String>, address: Option<String>) -> (r: String)
    ensures
        r@ == match (name, address) {
            (Some(n), Some(a)) => n@ + " <"@ + a@ + ">"@,
            (None, Some(a)) => a@,
            _ => "Unknown sender"@,
        },
{
    match (name, address) {
        (Some(n), Some(a)) => n.concat(" <").concat(a.as_str()).concat(">"),
        (None, Some(a)) => a,
        _ => String::from_str("Unknown sender"),
    }
}

/// The header summary of a message, `De: <sender>` then `Objet: <subject>`.
pub fn summary_headers(from: &str, subject: &str) -> (r: String)
    ensures
        r@ == "De: "@ + from@ + "\n"@ + "Objet: "@ + subject@,
{
    String::from_str("De: ").concat(from).concat("\n").concat("Objet: ").concat(subject)
}

} // verus!
