//! Recovers file attachments from a raw message: a scan for attachment
//! headers, then a direct search for `filename=` tokens, then a full MIME
//! parser, each tried only when the one before finds nothing.
use vstd::prelude::*;
use crate::decoder::{decode_attachment_content, decoded_content};
use crate::pattern::opt_view;
use crate::text::{
    chars_of, copy_range, ends_with_ci, ends_with_ignore_case, find, find_from, find_value_end, first_where,
    is_value_end, lemma_find_from, matches_at, string_from, trim_bounds, trim_quotes, trim_ws,
};

verus! {

/// A named byte payload recovered from a message.
#[derive(Debug)]
pub struct Attachment {
    pub filename: String,
    pub content: Vec<u8>,
    pub content_type: String,
}

pub struct AttachmentView {
    pub filename: Seq<char>,
    pub content: Seq<u8>,
    pub content_type: Seq<char>,
}

impl View for Attachment {
    type V = AttachmentView;

    open spec fn view(&self) -> AttachmentView {
        AttachmentView {
            filename: self.filename@,
            content: self.content@,
            content_type: self.content_type@,
        }
    }
}

/// The views of a sequence of attachments.
pub open spec fn views(s: Seq<Attachment>) -> Seq<AttachmentView> {
    s.map_values(|a: Attachment| a@)
}

/// Why the scan of a message failed.
#[derive(Debug, PartialEq, Eq)]
pub enum AttachmentError {
    /// The MIME parser reported an attachment part with content but no file name.
    UnnamedPart,
}

/// The attachment scanner.
pub struct AttachmentParser;

/// An attachment part as the MIME parser reports it.
pub struct MimePart {
    pub name: Option<String>,
    pub content: Vec<u8>,
}

pub open spec fn parts_view(v: Seq<MimePart>) -> Seq<(Option<Seq<char>>, Seq<u8>)> {
    v.map_values(|p: MimePart| (opt_view(p.name), p.content@))
}

/// The text of raw message bytes, invalid UTF-8 sequences replaced by U+FFFD.
pub uninterp spec fn lossy_text(raw: Seq<u8>) -> Seq<char>;

/// A message as the MIME parser reads it: its attachment parts (file name
/// if any, content), then its first plain-text body and its first HTML body.
pub struct MimeMessage {
    pub parts: Vec<MimePart>,
    pub text_body: Option<String>,
    pub html_body: Option<String>,
}

pub struct MimeMessageView {
    pub parts: Seq<(Option<Seq<char>>, Seq<u8>)>,
    pub text_body: Option<Seq<char>>,
    pub html_body: Option<Seq<char>>,
}

pub open spec fn mime_view(m: MimeMessage) -> MimeMessageView {
    MimeMessageView {
        parts: parts_view(m.parts@),
        text_body: opt_view(m.text_body),
        html_body: opt_view(m.html_body),
    }
}

/// What the MIME parser reads from raw message bytes, or `None` where it
/// cannot parse them.
pub uninterp spec fn mime_message(raw: Seq<u8>) -> Option<MimeMessageView>;

/// The attachment parts that the MIME parser finds.
pub open spec fn mime_attachment_parts(raw: Seq<u8>) -> Option<Seq<(Option<Seq<char>>, Seq<u8>)>> {
    match mime_message(raw) {
        Some(m) => Some(m.parts),
        None => None,
    }
}

/// Relies on `String::from_utf8_lossy`: valid UTF-8 is decoded as it stands,
/// and the result depends on the bytes alone.
#[verifier::external_body]
pub(crate) fn text_of_bytes(raw: &[u8]) -> (r: Vec<char>)
    ensures
        r@ == lossy_text(raw@),
        vstd::utf8::valid_utf8(raw@) ==> r@ == vstd::utf8::decode_utf8(raw@),
{
    String::from_utf8_lossy(raw).chars().collect()
}

/// Relies on `mail_parser::MessageParser::parse`, then on
/// `Message::attachments` (with `MimeHeaders::attachment_name` and
/// `MessagePart::contents` of each part), `Message::body_text(0)` and
/// `Message::body_html(0)`.
#[verifier::external_body]
pub(crate) fn parse_mime(raw: &[u8]) -> (r: Option<MimeMessage>)
    ensures
        match r {
            Some(m) => mime_message(raw@) == Some(mime_view(m)),
            None => mime_message(raw@) is None,
        },
{
    let m = mail_parser::MessageParser::default().parse(raw)?;
    let parts = m.attachments().map(|p| MimePart {
        name: mail_parser::MimeHeaders::attachment_name(p).map(String::from),
        content: p.contents().to_vec(),
    }).collect();
    let text_body = m.body_text(0).map(|b| b.into_owned());
    Some(MimeMessage { parts, text_body, html_body: m.body_html(0).map(|b| b.into_owned()) })
}

/// The header that marks an attachment part.
pub open spec fn disposition_marker() -> Seq<char> {
    "Content-Disposition: attachment"@
}

/// The token that introduces a file name.
pub open spec fn filename_token() -> Seq<char> {
    "filename="@
}

/// The blank line that ends a header block.
pub open spec fn blank_line() -> Seq<char> {
    "\r\n\r\n"@
}

/// The start of a multipart boundary.
pub open spec fn boundary_start() -> Seq<char> {
    "--"@
}

/// A multipart boundary at the start of a line.
pub open spec fn boundary_line() -> Seq<char> {
    "\r\n--"@
}

/// The extensions of the files that are kept, lower case.
pub open spec fn is_data_file(name: Seq<char>) -> bool {
    ends_with_ci(name, ".csv"@) || ends_with_ci(name, ".json"@) || ends_with_ci(name, ".xml"@)
        || ends_with_ci(name, ".txt"@) || ends_with_ci(name, ".xlsx"@) || ends_with_ci(
        name,
        ".xls"@,
    )
}

/// The MIME type that a file name's extension gives.
pub open spec fn content_type_for(name: Seq<char>) -> Seq<char> {
    if ends_with_ci(name, ".csv"@) {
        "text/csv"@
    } else if ends_with_ci(name, ".json"@) {
        "application/json"@
    } else if ends_with_ci(name, ".xml"@) {
        "application/xml"@
    } else if ends_with_ci(name, ".txt"@) {
        "text/plain"@
    } else if ends_with_ci(name, ".xlsx"@) {
        "application/vnd.openxmlformats-officedocument.spreadsheetml.sheet"@
    } else if ends_with_ci(name, ".xls"@) {
        "application/vnd.ms-excel"@
    } else {
        "application/octet-stream"@
    }
}

/// The file name whose `filename=` token starts at `q`: the value up to the
/// first carriage return, line feed or semicolon (or the end of the text),
/// without surrounding double quotes, then without surrounding white space.
pub open spec fn filename_value(t: Seq<char>, q: int) -> Seq<char> {
    let vs = q + filename_token().len();
    let ve = first_where(t, |c: char| is_value_end(c), vs, t.len() as int);
    trim_ws(trim_quotes(t.subrange(vs, ve)))
}

pub open spec fn attachment_view(name: Seq<char>, block: Seq<char>) -> AttachmentView {
    AttachmentView {
        filename: name,
        content: decoded_content(block),
        content_type: content_type_for(name),
    }
}

/// The attachment whose disposition header starts at `p`: the header block
/// ends at the first blank line after `p`; the first `filename=` token after
/// `p` must lie in it and name a data file; the content runs from after the
/// blank line to the next `--` or the end of the text.
pub open spec fn manual_entry(t: Seq<char>, p: int) -> Option<AttachmentView> {
    match find_from(t, blank_line(), p) {
        None => None,
        Some(b) => match find_from(t, filename_token(), p) {
            None => None,
            Some(q) => {
                let name = filename_value(t, q);
                if q < b && name.len() > 0 && is_data_file(name) {
                    let cs = b + blank_line().len();
                    let ce = match find_from(t, boundary_start(), cs) {
                        Some(e) => e,
                        None => t.len() as int,
                    };
                    Some(attachment_view(name, t.subrange(cs, ce)))
                } else {
                    None
                }
            },
        },
    }
}

/// The attachment whose `filename=` token starts at `q`, wherever it stands:
/// the name must be a data file; the content runs from after the next blank
/// line to the next boundary line or the end of the text.
pub open spec fn direct_entry(t: Seq<char>, q: int) -> Option<AttachmentView> {
    let name = filename_value(t, q);
    if name.len() > 0 && is_data_file(name) {
        match find_from(t, blank_line(), q) {
            None => None,
            Some(b) => {
                let cs = b + blank_line().len();
                let ce = match find_from(t, boundary_line(), cs) {
                    Some(e) => e,
                    None => t.len() as int,
                };
                Some(attachment_view(name, t.subrange(cs, ce)))
            },
        }
    } else {
        None
    }
}

pub open spec fn scan_pattern(direct: bool) -> Seq<char> {
    if direct {
        filename_token()
    } else {
        disposition_marker()
    }
}

pub open spec fn scan_entry(t: Seq<char>, direct: bool, i: int) -> Option<AttachmentView> {
    if direct {
        direct_entry(t, i)
    } else {
        manual_entry(t, i)
    }
}

pub open spec fn opt_seq(o: Option<AttachmentView>) -> Seq<AttachmentView> {
    match o {
        Some(a) => seq![a],
        None => Seq::empty(),
    }
}

/// The attachments of every occurrence of the scan's pattern at or after `i`,
/// in order.
pub open spec fn scan_from(t: Seq<char>, direct: bool, i: int) -> Seq<AttachmentView>
    decreases t.len() - i,
{
    if i < 0 || i >= t.len() {
        Seq::empty()
    } else if matches_at(t, scan_pattern(direct), i) {
        opt_seq(scan_entry(t, direct, i)) + scan_from(t, direct, i + 1)
    } else {
        scan_from(t, direct, i + 1)
    }
}

/// The first strategy: one attachment per `Content-Disposition: attachment` header.
pub open spec fn manual_scan(t: Seq<char>) -> Seq<AttachmentView> {
    scan_from(t, false, 0)
}

/// The second strategy: one attachment per `filename=` token.
pub open spec fn direct_scan(t: Seq<char>) -> Seq<AttachmentView> {
    scan_from(t, true, 0)
}

/// The third strategy: each part that the MIME parser reports with more than
/// ten bytes of content, which must then have a name.
pub open spec fn parts_attachments(parts: Seq<(Option<Seq<char>>, Seq<u8>)>) -> Result<
    Seq<AttachmentView>,
    AttachmentError,
>
    decreases parts.len(),
{
    if parts.len() == 0 {
        Ok(Seq::empty())
    } else {
        let rest = parts_attachments(parts.drop_first());
        if parts[0].1.len() > MIN_PART_LEN {
            match parts[0].0 {
                None => Err(AttachmentError::UnnamedPart),
                Some(name) => match rest {
                    Ok(r) => Ok(
                        seq![
                            AttachmentView {
                                filename: name,
                                content: parts[0].1,
                                content_type: content_type_for(name),
                            },
                        ] + r,
                    ),
                    Err(e) => Err(e),
                },
            }
        } else {
            rest
        }
    }
}

/// Parts with at most this many bytes are parsing artifacts.
pub const MIN_PART_LEN: usize = 10;

/// What scanning a raw message gives: the first strategy's attachments, or if
/// there are none the second's, or if there are none the third's.
pub open spec fn scanned_attachments(raw: Seq<u8>) -> Result<Seq<AttachmentView>, AttachmentError> {
    let t = lossy_text(raw);
    if manual_scan(t).len() > 0 {
        Ok(manual_scan(t))
    } else if direct_scan(t).len() > 0 {
        Ok(direct_scan(t))
    } else {
        match mime_attachment_parts(raw) {
            None => Ok(Seq::empty()),
            Some(parts) => parts_attachments(parts),
        }
    }
}

/// Positions where the pattern does not occur add no attachment.
pub proof fn lemma_scan_skip(t: Seq<char>, direct: bool, from: int, to: int)
    requires
        0 <= from <= to,
        forall|j: int| from <= j < to ==> !matches_at(t, scan_pattern(direct), j),
    ensures
        scan_from(t, direct, from) == scan_from(t, direct, to),
    decreases to - from,
{
    if from < to {
        if from >= t.len() {
            lemma_scan_empty(t, direct, from);
            lemma_scan_empty(t, direct, to);
        } else {
            lemma_scan_skip(t, direct, from + 1, to);
        }
    }
}

/// Past the end of the text there is nothing to scan.
pub proof fn lemma_scan_empty(t: Seq<char>, direct: bool, from: int)
    requires
        0 <= from,
        from >= t.len(),
    ensures
        scan_from(t, direct, from) == Seq::<AttachmentView>::empty(),
{
}

/// Where the pattern no longer occurs, the scan finds nothing more.
pub proof fn lemma_scan_none(t: Seq<char>, direct: bool, from: int)
    requires
        0 <= from,
        forall|j: int| from <= j ==> !matches_at(t, scan_pattern(direct), j),
    ensures
        scan_from(t, direct, from) == Seq::<AttachmentView>::empty(),
    decreases t.len() - from,
{
    if from < t.len() {
        lemma_scan_none(t, direct, from + 1);
    }
}

impl AttachmentParser {
    /// The file name of the `filename=` token at `q` (of length `tok_len`).
    fn filename_at(t: &Vec<char>, q: usize, tok_len: usize) -> (r: Vec<char>)
        requires
            tok_len == filename_token().len(),
            q + tok_len <= t@.len(),
        ensures
            r@ == filename_value(t@, q as int),
    {
        let n = t.len();
        let vs = q + tok_len;
        let ve = find_value_end(t, vs);
        let (a, b) = trim_bounds(t, vs, ve, true);
        let (c, d) = trim_bounds(t, a, b, false);
        copy_range(t, c, d)
    }

    /// Whether a file name has one of the kept extensions, in any case.
    pub fn is_data_file(name: &Vec<char>) -> (r: bool)
        ensures
            r == is_data_file(name@),
    {
        ends_with_ignore_case(name, &chars_of(".csv")) || ends_with_ignore_case(
            name,
            &chars_of(".json"),
        ) || ends_with_ignore_case(name, &chars_of(".xml")) || ends_with_ignore_case(
            name,
            &chars_of(".txt"),
        ) || ends_with_ignore_case(name, &chars_of(".xlsx")) || ends_with_ignore_case(
            name,
            &chars_of(".xls"),
        )
    }

    /// The MIME type of a file name, from its extension.
    pub fn guess_content_type(name: &Vec<char>) -> (r: String)
        ensures
            r@ == content_type_for(name@),
    {
        if ends_with_ignore_case(name, &chars_of(".csv")) {
            String::from_str("text/csv")
        } else if ends_with_ignore_case(name, &chars_of(".json")) {
            String::from_str("application/json")
        } else if ends_with_ignore_case(name, &chars_of(".xml")) {
            String::from_str("application/xml")
        } else if ends_with_ignore_case(name, &chars_of(".txt")) {
            String::from_str("text/plain")
        } else if ends_with_ignore_case(name, &chars_of(".xlsx")) {
            String::from_str("application/vnd.openxmlformats-officedocument.spreadsheetml.sheet")
        } else if ends_with_ignore_case(name, &chars_of(".xls")) {
            String::from_str("application/vnd.ms-excel")
        } else {
            String::from_str("application/octet-stream")
        }
    }

    fn build(t: &Vec<char>, name: Vec<char>, cs: usize, ce: usize) -> (r: Attachment)
        requires
            cs <= ce <= t@.len(),
        ensures
            r@ == attachment_view(name@, t@.subrange(cs as int, ce as int)),
    {
        let content = decode_attachment_content(t, cs, ce);
        let content_type = Self::guess_content_type(&name);
        Attachment { filename: string_from(&name), content, content_type }
    }

    /// The attachment of the disposition header at `p`.
    fn manual_entry_at(t: &Vec<char>, p: usize) -> (r: Option<Attachment>)
        requires
            p <= t@.len(),
        ensures
            match r {
                Some(a) => manual_entry(t@, p as int) == Some(a@),
                None => manual_entry(t@, p as int) is None,
            },
    {
        let n = t.len();
        let blank = chars_of("\r\n\r\n");
        let token = chars_of("filename=");
        let b = match find(t, &blank, p) {
            Some(b) => b,
            None => {
                return None;
            },
        };
        let q = match find(t, &token, p) {
            Some(q) => q,
            None => {
                return None;
            },
        };
        proof {
            lemma_find_from(t@, blank@, p as int);
            lemma_find_from(t@, token@, p as int);
        }
        let name = Self::filename_at(t, q, token.len());
        if !(q < b && name.len() > 0 && Self::is_data_file(&name)) {
            return None;
        }
        let cs = b + blank.len();
        let ce = match find(t, &chars_of("--"), cs) {
            Some(e) => e,
            None => t.len(),
        };
        proof {
            lemma_find_from(t@, boundary_start(), cs as int);
        }
        Some(Self::build(t, name, cs, ce))
    }

    /// The attachment of the `filename=` token at `q`.
    fn direct_entry_at(t: &Vec<char>, q: usize) -> (r: Option<Attachment>)
        requires
            matches_at(t@, filename_token(), q as int),
        ensures
            match r {
                Some(a) => direct_entry(t@, q as int) == Some(a@),
                None => direct_entry(t@, q as int) is None,
            },
    {
        let token = chars_of("filename=");
        let name = Self::filename_at(t, q, token.len());
        if !(name.len() > 0 && Self::is_data_file(&name)) {
            return None;
        }
        let n = t.len();
        let blank = chars_of("\r\n\r\n");
        let b = match find(t, &blank, q) {
            Some(b) => b,
            None => {
                return None;
            },
        };
        proof {
            lemma_find_from(t@, blank@, q as int);
        }
        let cs = b + blank.len();
        let ce = match find(t, &chars_of("\r\n--"), cs) {
            Some(e) => e,
            None => t.len(),
        };
        proof {
            lemma_find_from(t@, boundary_line(), cs as int);
        }
        Some(Self::build(t, name, cs, ce))
    }

    /// Every occurrence of the scan's pattern, in order, with its attachment.
    fn scan(t: &Vec<char>, direct: bool) -> (r: Vec<Attachment>)
        ensures
            views(r@) == scan_from(t@, direct, 0),
    {
        let pattern = if direct {
            chars_of("filename=")
        } else {
            chars_of("Content-Disposition: attachment")
        };
        assert(pattern@ == scan_pattern(direct));
        proof {
            reveal_strlit("filename=");
            reveal_strlit("Content-Disposition: attachment");
        }
        assert(pattern@.len() > 0);
        let mut found: Vec<Attachment> = Vec::new();
        let mut cur: usize = 0;
        let n = t.len();
        loop
            invariant
                n == t@.len(),
                cur <= t@.len(),
                pattern@ == scan_pattern(direct),
                pattern@.len() > 0,
                views(found@) + scan_from(t@, direct, cur as int) == scan_from(t@, direct, 0),
            decreases t@.len() - cur,
        {
            proof {
                lemma_find_from(t@, pattern@, cur as int);
            }
            match find(t, &pattern, cur) {
                None => {
                    proof {
                        lemma_scan_none(t@, direct, cur as int);
                        assert(views(found@) + Seq::<AttachmentView>::empty() =~= views(found@));
                    }
                    return found;
                },
                Some(p) => {
                    proof {
                        lemma_scan_skip(t@, direct, cur as int, p as int);
                    }
                    let entry = if direct {
                        Self::direct_entry_at(t, p)
                    } else {
                        Self::manual_entry_at(t, p)
                    };
                    let ghost before = found@;
                    match entry {
                        Some(a) => {
                            found.push(a);
                        },
                        None => {},
                    }
                    proof {
                        assert(views(found@) =~= views(before) + opt_seq(
                            scan_entry(t@, direct, p as int),
                        ));
                        assert(views(before) + (opt_seq(scan_entry(t@, direct, p as int))
                            + scan_from(t@, direct, p + 1)) =~= views(found@) + scan_from(
                            t@,
                            direct,
                            p + 1,
                        ));
                    }
                    cur = p + 1;
                },
            }
        }
    }

    /// The attachments of the MIME parser's parts.
    fn from_parts(parts: Vec<MimePart>) -> (r: Result<Vec<Attachment>, AttachmentError>)
        ensures
            match r {
                Ok(v) => parts_attachments(parts_view(parts@)) == Ok::<
                    Seq<AttachmentView>,
                    AttachmentError,
                >(views(v@)),
                Err(e) => parts_attachments(parts_view(parts@)) == Err::<
                    Seq<AttachmentView>,
                    AttachmentError,
                >(e),
            },
    {
        let ghost all = parts_view(parts@);
        let mut rest = parts;
        let mut found: Vec<Attachment> = Vec::new();
        while rest.len() > 0
            invariant
                all == parts_view(parts@),
                parts_attachments(all) == match parts_attachments(parts_view(rest@)) {
                    Ok(r) => Ok(views(found@) + r),
                    Err(e) => Err(e),
                },
            decreases rest@.len(),
        {
            let ghost rv = parts_view(rest@);
            let part = rest.remove(0);
            assert(parts_view(rest@) =~= rv.drop_first());
            assert(rv[0] == (opt_view(part.name), part.content@));
            if part.content.len() > MIN_PART_LEN {
                match part.name {
                    None => {
                        assert(rv[0].0 is None && rv[0].1.len() > MIN_PART_LEN);
                        assert(parts_attachments(rv) == Err::<Seq<AttachmentView>, AttachmentError>(
                            AttachmentError::UnnamedPart,
                        ));
                        return Err(AttachmentError::UnnamedPart);
                    },
                    Some(name) => {
                        let nv = chars_of(name.as_str());
                        let content_type = Self::guess_content_type(&nv);
                        let ghost before = found@;
                        found.push(Attachment { filename: name, content: part.content, content_type });
                        proof {
                            assert(views(found@) =~= views(before).push(found@.last()@));
                            match parts_attachments(parts_view(rest@)) {
                                Ok(r) => {
                                    assert(views(before) + (seq![found@.last()@] + r) =~= views(
                                        found@,
                                    ) + r);
                                },
                                Err(e) => {},
                            }
                        }
                    },
                }
            }
        }
        proof {
            assert(views(found@) + Seq::<AttachmentView>::empty() =~= views(found@));
        }
        Ok(found)
    }

    /// Scans raw message bytes for attachments, trying the header scan, then
    /// the direct file name search, then the MIME parser.
    pub fn parse_email(raw_email: &[u8]) -> (r: Result<Vec<Attachment>, AttachmentError>)
        ensures
            match r {
                Ok(v) => scanned_attachments(raw_email@) == Ok::<
                    Seq<AttachmentView>,
                    AttachmentError,
                >(views(v@)),
                Err(e) => scanned_attachments(raw_email@) == Err::<
                    Seq<AttachmentView>,
                    AttachmentError,
                >(e),
            },
    {
        let t = text_of_bytes(raw_email);
        let manual = Self::scan(&t, false);
        if manual.len() > 0 {
            return Ok(manual);
        }
        let direct = Self::scan(&t, true);
        if direct.len() > 0 {
            return Ok(direct);
        }
        match parse_mime(raw_email) {
            None => {
                let v: Vec<Attachment> = Vec::new();
                assert(views(v@) =~= Seq::<AttachmentView>::empty());
                Ok(v)
            },
            Some(m) => Self::from_parts(m.parts),
        }
    }
}

} // verus!

verus! {

/// A message without any attachment header still yields the attachments of
/// its `filename=` tokens: the direct search stands in for the header scan.
pub proof fn lemma_fallback_to_filename_search(raw: Seq<u8>)
    requires
        forall|j: int| !matches_at(lossy_text(raw), disposition_marker(), j),
        direct_scan(lossy_text(raw)).len() > 0,
    ensures
        scanned_attachments(raw) == Ok::<Seq<AttachmentView>, AttachmentError>(
            direct_scan(lossy_text(raw)),
        ),
{
    lemma_scan_none(lossy_text(raw), false, 0);
}

} // verus!
