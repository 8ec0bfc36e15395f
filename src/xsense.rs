//! Temperature readings: the sensor exports (CSV) and free text with one
//! reading per line.
use vstd::prelude::*;
use crate::attachment_parser::{lossy_text, text_of_bytes, Attachment, AttachmentView};
use crate::json::{json_readings, readings_from_json, JsonValue};
use crate::decimal::{parse_decimal, parsed_decimal, Decimal};
use crate::pattern::{capture_group, group, opt_view};
use crate::text::{
    chars_of, ends_with_ci, ends_with_ignore_case, lines_from, lines_of, string_from,
};
use crate::timestamp::{
    export_format, normalized_timestamp, naive_utc, parse_export_timestamp,
    parse_timestamp_chars, Timestamp,
};

verus! {

/// One temperature measurement.
#[derive(Debug, Clone)]
pub struct TemperatureReading {
    pub sensor_id: String,
    pub timestamp: Timestamp,
    pub temperature: Decimal,
    pub humidity: Option<Decimal>,
    pub location: Option<String>,
}

pub struct ReadingView {
    pub sensor_id: Seq<char>,
    pub timestamp: Timestamp,
    pub temperature: Decimal,
    pub humidity: Option<Decimal>,
    pub location: Option<Seq<char>>,
}

impl View for TemperatureReading {
    type V = ReadingView;

    open spec fn view(&self) -> ReadingView {
        ReadingView {
            sensor_id: self.sensor_id@,
            timestamp: self.timestamp,
            temperature: self.temperature,
            humidity: self.humidity,
            location: opt_view(self.location),
        }
    }
}

pub open spec fn reading_views(s: Seq<TemperatureReading>) -> Seq<ReadingView> {
    s.map_values(|r: TemperatureReading| r@)
}

/// The column whose value did not parse.
#[derive(Debug, Clone, Copy, PartialEq, Eq, Structural)]
pub enum Field {
    Timestamp,
    Temperature,
    Humidity,
}

/// Why an extraction failed.
#[derive(Debug)]
pub enum ExtractError {
    /// The CSV header row has fewer than three columns.
    Format { columns: usize },
    /// The CSV reader failed on this line.
    Csv { line: usize },
    /// The value of a column on this line does not parse.
    Row { line: usize, field: Field, value: String },
    /// The content is not valid UTF-8.
    NotUtf8,
    /// No pool metric was found in the text.
    NoMetrics,
    /// The MIME parser could not read the message.
    MessageUnreadable,
    /// A JSON attachment whose content is not a JSON document.
    JsonUnreadable,
}

pub enum ErrorView {
    Format { columns: nat },
    Csv { line: nat },
    Row { line: nat, field: Field, value: Seq<char> },
    NotUtf8,
    NoMetrics,
    MessageUnreadable,
    JsonUnreadable,
}

impl View for ExtractError {
    type V = ErrorView;

    open spec fn view(&self) -> ErrorView {
        match self {
            ExtractError::Format { columns } => ErrorView::Format { columns: *columns as nat },
            ExtractError::Csv { line } => ErrorView::Csv { line: *line as nat },
            ExtractError::Row { line, field, value } => ErrorView::Row {
                line: *line as nat,
                field: *field,
                value: value@,
            },
            ExtractError::NotUtf8 => ErrorView::NotUtf8,
            ExtractError::NoMetrics => ErrorView::NoMetrics,
            ExtractError::MessageUnreadable => ErrorView::MessageUnreadable,
            ExtractError::JsonUnreadable => ErrorView::JsonUnreadable,
        }
    }
}

/// The outcome of an extraction, seen through the views.
pub open spec fn outcome_view(r: Result<Vec<TemperatureReading>, ExtractError>) -> Result<
    Seq<ReadingView>,
    ErrorView,
> {
    match r {
        Ok(v) => Ok(reading_views(v@)),
        Err(e) => Err(e@),
    }
}

/// The kinds of attachment, by file name extension.
#[derive(Debug, Clone, Copy, PartialEq, Eq, Structural)]
pub enum DataFormat {
    Csv,
    Json,
    Xml,
    Text,
    Other,
}

pub open spec fn data_format_of(name: Seq<char>) -> DataFormat {
    if ends_with_ci(name, ".csv"@) {
        DataFormat::Csv
    } else if ends_with_ci(name, ".json"@) {
        DataFormat::Json
    } else if ends_with_ci(name, ".xml"@) {
        DataFormat::Xml
    } else if ends_with_ci(name, ".txt"@) {
        DataFormat::Text
    } else {
        DataFormat::Other
    }
}

/// The rows (header row first) that the `csv` reader finds in `text`, read
/// with rows of any width; a row is `None` where the reader failed on it.
pub uninterp spec fn csv_rows(text: Seq<char>) -> Seq<Option<Seq<Seq<char>>>>;

pub open spec fn fields_view(f: Vec<String>) -> Seq<Seq<char>> {
    f@.map_values(|s: String| s@)
}

pub open spec fn rows_view(v: Seq<Option<Vec<String>>>) -> Seq<Option<Seq<Seq<char>>>> {
    v.map_values(
        |r: Option<Vec<String>>|
            match r {
                Some(f) => Some(fields_view(f)),
                None => None,
            },
    )
}

/// Relies on `csv::ReaderBuilder` (no header handling, flexible row widths)
/// and `Reader::records`: the records of the text, each field as a string.
#[verifier::external_body]
fn read_csv_rows(text: &str) -> (r: Vec<Option<Vec<String>>>)
    ensures
        rows_view(r@) == csv_rows(text@),
{
    let mut reader = csv::ReaderBuilder::new().has_headers(false).flexible(true).from_reader(
        text.as_bytes(),
    );
    reader.records().map(|rec| rec.ok().map(|f| f.iter().map(String::from).collect())).collect()
}

/// Relies on `std::str::from_utf8`, which accepts exactly the valid UTF-8.
#[verifier::external_body]
fn is_utf8(b: &[u8]) -> (r: bool)
    ensures
        r == vstd::utf8::valid_utf8(b@),
{
    std::str::from_utf8(b).is_ok()
}

/// The pattern of sensor export file names, `Thermo-<name>_...`.
pub open spec fn sensor_pattern() -> Seq<char> {
    "Thermo-([^_]+)_"@
}

/// The index of the last `.` among the first `end` characters of `s`, or -1.
pub open spec fn last_dot_before(s: Seq<char>, end: int) -> int
    decreases end,
{
    if end <= 0 {
        -1
    } else if s[end - 1] == '.' {
        end - 1
    } else {
        last_dot_before(s, end - 1)
    }
}

/// A file name without its extension: everything before its last `.`, or
/// the whole name where it has none.
pub open spec fn file_stem(filename: Seq<char>) -> Seq<char> {
    let d = last_dot_before(filename, filename.len() as int);
    if d < 0 {
        filename
    } else {
        filename.subrange(0, d)
    }
}

/// The sensor name of a file: the `<name>` that the pattern captures, else
/// the file name without its extension.
pub open spec fn sensor_name_of(capture: Option<Seq<char>>, filename: Seq<char>) -> Seq<char> {
    match capture {
        Some(c) => c,
        None => file_stem(filename),
    }
}

pub open spec fn sensor_name(filename: Seq<char>) -> Seq<char> {
    sensor_name_of(capture_group(sensor_pattern(), filename, 1), filename)
}

/// The reading of a data row of at least three fields, or the error of its
/// first column that does not parse.
pub open spec fn row_reading(rec: Seq<Seq<char>>, sensor: Seq<char>, line: nat) -> Result<
    ReadingView,
    ErrorView,
> {
    match naive_utc(rec[0], export_format()) {
        None => Err(ErrorView::Row { line, field: Field::Timestamp, value: rec[0] }),
        Some(ts) => match parsed_decimal(rec[1]) {
            None => Err(ErrorView::Row { line, field: Field::Temperature, value: rec[1] }),
            Some(t) => match parsed_decimal(rec[2]) {
                None => Err(ErrorView::Row { line, field: Field::Humidity, value: rec[2] }),
                Some(h) => Ok(
                    ReadingView {
                        sensor_id: sensor,
                        timestamp: ts,
                        temperature: t,
                        humidity: Some(h),
                        location: Some(sensor),
                    },
                ),
            },
        },
    }
}

/// The readings of the data rows from index `i` on (row `i` is on line
/// `i + 1`): rows of fewer than three fields are skipped, a row the reader
/// failed on or a value that does not parse ends the extraction.
pub open spec fn rows_readings(rows: Seq<Option<Seq<Seq<char>>>>, sensor: Seq<char>, i: int) -> Result<
    Seq<ReadingView>,
    ErrorView,
>
    decreases rows.len() - i,
{
    if i < 0 || i >= rows.len() {
        Ok(Seq::empty())
    } else {
        match rows[i] {
            None => Err(ErrorView::Csv { line: (i + 1) as nat }),
            Some(rec) => if rec.len() < 3 {
                rows_readings(rows, sensor, i + 1)
            } else {
                match row_reading(rec, sensor, (i + 1) as nat) {
                    Err(e) => Err(e),
                    Ok(r) => match rows_readings(rows, sensor, i + 1) {
                        Ok(rest) => Ok(seq![r] + rest),
                        Err(e) => Err(e),
                    },
                }
            },
        }
    }
}

/// The readings of a sensor export's rows: the header row must have at least
/// three columns.
pub open spec fn csv_readings(rows: Seq<Option<Seq<Seq<char>>>>, sensor: Seq<char>) -> Result<
    Seq<ReadingView>,
    ErrorView,
> {
    if rows.len() == 0 {
        Err(ErrorView::Format { columns: 0 })
    } else {
        match rows[0] {
            None => Err(ErrorView::Csv { line: 1 }),
            Some(h) => if h.len() < 3 {
                Err(ErrorView::Format { columns: h.len() })
            } else {
                rows_readings(rows, sensor, 1)
            },
        }
    }
}

/// The pattern of a reading on a line of text: a date and time, a sensor
/// word, and a number.
pub open spec fn line_pattern() -> Seq<char> {
    "(\\d{4}-\\d{2}-\\d{2}[\\sT]\\d{2}:\\d{2}:\\d{2})[^\\d]*(\\w+)[^\\d]*(-?\\d+\\.?\\d*)[Â°C]*"@
}

/// The reading of one line of text, where the pattern matches and its date
/// and number parse.
pub open spec fn line_reading(line: Seq<char>) -> Option<ReadingView> {
    match (
        capture_group(line_pattern(), line, 1),
        capture_group(line_pattern(), line, 2),
        capture_group(line_pattern(), line, 3),
    ) {
        (Some(ts), Some(id), Some(tv)) => match (normalized_timestamp(ts), parsed_decimal(tv)) {
            (Some(t), Some(d)) => Some(
                ReadingView {
                    sensor_id: id,
                    timestamp: t,
                    temperature: d,
                    humidity: None,
                    location: None,
                },
            ),
            _ => None,
        },
        _ => None,
    }
}

/// The readings of the lines from index `k` on.
pub open spec fn lines_readings(lines: Seq<Seq<char>>, k: int) -> Seq<ReadingView>
    decreases lines.len() - k,
{
    if k < 0 || k >= lines.len() {
        Seq::empty()
    } else {
        match line_reading(lines[k]) {
            Some(r) => seq![r] + lines_readings(lines, k + 1),
            None => lines_readings(lines, k + 1),
        }
    }
}

/// The readings of a text file: its content must be UTF-8.
pub open spec fn text_readings(content: Seq<u8>) -> Result<Seq<ReadingView>, ErrorView> {
    if vstd::utf8::valid_utf8(content) {
        Ok(lines_readings(lines_from(vstd::utf8::decode_utf8(content), 0), 0))
    } else {
        Err(ErrorView::NotUtf8)
    }
}

/// The readings of an attachment, by the kind of data its name announces:
/// a sensor export, a JSON document (`json` is its content, where it parses),
/// or a text file; XML and other files give none.
pub open spec fn attachment_readings(a: AttachmentView, json: Option<JsonValue>) -> Result<
    Seq<ReadingView>,
    ErrorView,
> {
    match data_format_of(a.filename) {
        DataFormat::Csv => csv_readings(csv_rows(lossy_text(a.content)), sensor_name(a.filename)),
        DataFormat::Json => match json {
            Some(doc) => Ok(json_readings(doc)),
            None => Err(ErrorView::JsonUnreadable),
        },
        DataFormat::Text => text_readings(a.content),
        _ => Ok(Seq::empty()),
    }
}

/// The temperature extractor.
pub struct TemperatureExtractor;

impl TemperatureExtractor {
    /// The kind of data a file holds, by its extension in any case.
    pub fn data_format(filename: &str) -> (r: DataFormat)
        ensures
            r == data_format_of(filename@),
    {
        let name = chars_of(filename);
        if ends_with_ignore_case(&name, &chars_of(".csv")) {
            DataFormat::Csv
        } else if ends_with_ignore_case(&name, &chars_of(".json")) {
            DataFormat::Json
        } else if ends_with_ignore_case(&name, &chars_of(".xml")) {
            DataFormat::Xml
        } else if ends_with_ignore_case(&name, &chars_of(".txt")) {
            DataFormat::Text
        } else {
            DataFormat::Other
        }
    }

    /// The readings of an attachment, by the kind of data its name announces;
    /// `json` is the parsed content of a JSON attachment, where it parses.
    pub fn extract_from_attachment(attachment: &Attachment, json: Option<&JsonValue>) -> (r: Result<
        Vec<TemperatureReading>,
        ExtractError,
    >)
        ensures
            outcome_view(r) == attachment_readings(
                attachment@,
                match json {
                    Some(d) => Some(*d),
                    None => None,
                },
            ),
    {
        match Self::data_format(attachment.filename.as_str()) {
            DataFormat::Csv => {
                let sensor = match Self::extract_sensor_name(attachment.filename.as_str()) {
                    Ok(s) => s,
                    Err(e) => {
                        return Err(e);
                    },
                };
                Self::extract_from_xsense_csv(&attachment.content, sensor.as_str())
            },
            DataFormat::Json => match json {
                Some(doc) => {
                    let v = readings_from_json(doc);
                    Ok(v)
                },
                None => Err(ExtractError::JsonUnreadable),
            },
            DataFormat::Text => Self::extract_from_text(&attachment.content),
            _ => {
                let v: Vec<TemperatureReading> = Vec::new();
                assert(reading_views(v@) =~= Seq::<ReadingView>::empty());
                Ok(v)
            },
        }
    }

    /// The sensor name of a file, given what the file name pattern captured.
    pub fn sensor_name_from(capture: Option<String>, filename: &str) -> (r: String)
        ensures
            r@ == sensor_name_of(opt_view(capture), filename@),
    {
        match capture {
            Some(c) => c,
            None => {
                let name = chars_of(filename);
                let mut end: usize = name.len();
                while end > 0 && name[end - 1] != '.'
                    invariant
                        end <= name@.len(),
                        last_dot_before(name@, end as int) == last_dot_before(
                            name@,
                            name@.len() as int,
                        ),
                    decreases end,
                {
                    end = end - 1;
                }
                if end == 0 {
                    String::from_str(filename)
                } else {
                    string_from(&crate::text::copy_range(&name, 0, end - 1))
                }
            },
        }
    }

    /// The sensor name of an export file: `<name>` in `Thermo-<name>_...`,
    /// else the file name without its extension.
    pub fn extract_sensor_name(filename: &str) -> (r: Result<String, ExtractError>)
        ensures
            r matches Ok(s) && s@ == sensor_name(filename@),
    {
        let capture = group("Thermo-([^_]+)_", filename, 1);
        Ok(Self::sensor_name_from(capture, filename))
    }

    /// The reading of a data row of at least three fields.
    fn row_reading_at(rec: &Vec<String>, sensor: &str, line: usize) -> (r: Result<
        TemperatureReading,
        ExtractError,
    >)
        requires
            rec@.len() >= 3,
        ensures
            match r {
                Ok(x) => row_reading(fields_view(*rec), sensor@, line as nat) == Ok::<
                    ReadingView,
                    ErrorView,
                >(x@),
                Err(e) => row_reading(fields_view(*rec), sensor@, line as nat) == Err::<
                    ReadingView,
                    ErrorView,
                >(e@),
            },
    {
        let ghost f = fields_view(*rec);
        assert(f[0] == rec@[0]@ && f[1] == rec@[1]@ && f[2] == rec@[2]@);
        let ts = match parse_export_timestamp(rec[0].as_str()) {
            Some(ts) => ts,
            None => {
                return Err(
                    ExtractError::Row { line, field: Field::Timestamp, value: rec[0].clone() },
                );
            },
        };
        let tv = chars_of(rec[1].as_str());
        assert(tv@.subrange(0, tv@.len() as int) =~= tv@);
        let temperature = match parse_decimal(&tv, 0, tv.len()) {
            Some(d) => d,
            None => {
                return Err(
                    ExtractError::Row { line, field: Field::Temperature, value: rec[1].clone() },
                );
            },
        };
        let hv = chars_of(rec[2].as_str());
        assert(hv@.subrange(0, hv@.len() as int) =~= hv@);
        let humidity = match parse_decimal(&hv, 0, hv.len()) {
            Some(d) => d,
            None => {
                return Err(
                    ExtractError::Row { line, field: Field::Humidity, value: rec[2].clone() },
                );
            },
        };
        assert(tv@.subrange(0, tv@.len() as int) =~= tv@);
        assert(hv@.subrange(0, hv@.len() as int) =~= hv@);
        Ok(
            TemperatureReading {
                sensor_id: String::from_str(sensor),
                timestamp: ts,
                temperature,
                humidity: Some(humidity),
                location: Some(String::from_str(sensor)),
            },
        )
    }

    /// The readings of a sensor export, given the rows that the CSV reader found.
    pub fn readings_from_rows(rows: &Vec<Option<Vec<String>>>, sensor: &str) -> (r: Result<
        Vec<TemperatureReading>,
        ExtractError,
    >)
        ensures
            outcome_view(r) == csv_readings(rows_view(rows@), sensor@),
    {
        let ghost rv = rows_view(rows@);
        if rows.len() == 0 {
            return Err(ExtractError::Format { columns: 0 });
        }
        match &rows[0] {
            None => {
                return Err(ExtractError::Csv { line: 1 });
            },
            Some(h) => {
                if h.len() < 3 {
                    return Err(ExtractError::Format { columns: h.len() });
                }
            },
        }
        let mut found: Vec<TemperatureReading> = Vec::new();
        let mut i: usize = 1;
        while i < rows.len()
            invariant
                1 <= i <= rows@.len(),
                rv == rows_view(rows@),
                csv_readings(rv, sensor@) == match rows_readings(rv, sensor@, i as int) {
                    Ok(rest) => Ok(reading_views(found@) + rest),
                    Err(e) => Err(e),
                },
            decreases rows@.len() - i,
        {
            assert(i + 1 <= usize::MAX);
            match &rows[i] {
                None => {
                    return Err(ExtractError::Csv { line: i + 1 });
                },
                Some(rec) => {
                    assert(rv[i as int] == Some(fields_view(*rec)));
                    if rec.len() >= 3 {
                        match Self::row_reading_at(rec, sensor, i + 1) {
                            Err(e) => {
                                return Err(e);
                            },
                            Ok(x) => {
                                let ghost before = found@;
                                found.push(x);
                                proof {
                                    assert(reading_views(found@) =~= reading_views(before).push(
                                        x@,
                                    ));
                                    match rows_readings(rv, sensor@, i + 1) {
                                        Ok(rest) => {
                                            assert(reading_views(before) + (seq![x@] + rest)
                                                =~= reading_views(found@) + rest);
                                        },
                                        Err(e) => {},
                                    }
                                }
                            },
                        }
                    }
                },
            }
            i = i + 1;
        }
        assert(reading_views(found@) + Seq::<ReadingView>::empty() =~= reading_views(found@));
        Ok(found)
    }

    /// The readings of a sensor export: one per data row of at least three
    /// columns, with the sensor name given.
    pub fn extract_from_xsense_csv(content: &[u8], sensor_name: &str) -> (r: Result<
        Vec<TemperatureReading>,
        ExtractError,
    >)
        ensures
            outcome_view(r) == csv_readings(csv_rows(lossy_text(content@)), sensor_name@),
    {
        let text = string_from(&text_of_bytes(content));
        let rows = read_csv_rows(text.as_str());
        Self::readings_from_rows(&rows, sensor_name)
    }

    /// The reading of one line of text.
    pub fn line_reading(line: &str) -> (r: Option<TemperatureReading>)
        ensures
            match r {
                Some(x) => line_reading(line@) == Some(x@),
                None => line_reading(line@) is None,
            },
    {
        let pattern = "(\\d{4}-\\d{2}-\\d{2}[\\sT]\\d{2}:\\d{2}:\\d{2})[^\\d]*(\\w+)[^\\d]*(-?\\d+\\.?\\d*)[Â°C]*";
        let g1 = group(pattern, line, 1);
        let g2 = group(pattern, line, 2);
        let g3 = group(pattern, line, 3);
        match (g1, g2, g3) {
            (Some(ts), Some(id), Some(tv)) => {
                let tsv = chars_of(ts.as_str());
                let tvv = chars_of(tv.as_str());
                assert(tvv@.subrange(0, tvv@.len() as int) =~= tvv@);
                match (parse_timestamp_chars(&tsv), parse_decimal(&tvv, 0, tvv.len())) {
                    (Some(t), Some(d)) => Some(
                        TemperatureReading {
                            sensor_id: id,
                            timestamp: t,
                            temperature: d,
                            humidity: None,
                            location: None,
                        },
                    ),
                    _ => None,
                }
            },
            _ => None,
        }
    }

    /// The readings of a text file, one per line that holds a date and time,
    /// a sensor word and a number.
    pub fn extract_from_text(content: &[u8]) -> (r: Result<Vec<TemperatureReading>, ExtractError>)
        ensures
            outcome_view(r) == text_readings(content@),
    {
        if !is_utf8(content) {
            return Err(ExtractError::NotUtf8);
        }
        let text = text_of_bytes(content);
        let lines = lines_of(&text);
        let ghost lv = lines@.map_values(|l: Vec<char>| l@);
        let mut found: Vec<TemperatureReading> = Vec::new();
        let mut k: usize = 0;
        while k < lines.len()
            invariant
                k <= lines@.len(),
                lv == lines@.map_values(|l: Vec<char>| l@),
                lv == lines_from(text@, 0),
                text@ == vstd::utf8::decode_utf8(content@),
                reading_views(found@) + lines_readings(lv, k as int) == lines_readings(lv, 0),
            decreases lines@.len() - k,
        {
            let s = string_from(&lines[k]);
            assert(lv[k as int] == s@);
            let ghost before = found@;
            match Self::line_reading(s.as_str()) {
                Some(x) => {
                    found.push(x);
                    assert(reading_views(found@) =~= reading_views(before).push(x@));
                    assert(reading_views(before) + (seq![x@] + lines_readings(lv, k + 1))
                        =~= reading_views(found@) + lines_readings(lv, k + 1));
                },
                None => {},
            }
            k = k + 1;
        }
        assert(reading_views(found@) + Seq::<ReadingView>::empty() =~= reading_views(found@));
        Ok(found)
    }
}

} // verus!

verus! {

/// A sensor export whose header row has fewer than three columns fails with a
/// format error that gives the number of columns, whatever the data rows hold.
pub proof fn lemma_narrow_header_fails(
    rows: Seq<Option<Seq<Seq<char>>>>,
    sensor: Seq<char>,
    header: Seq<Seq<char>>,
)
    requires
        rows.len() > 0,
        rows[0] == Some(header),
        header.len() < 3,
    ensures
        csv_readings(rows, sensor) == Err::<Seq<ReadingView>, ErrorView>(
            ErrorView::Format { columns: header.len() },
        ),
{
}

} // verus!
