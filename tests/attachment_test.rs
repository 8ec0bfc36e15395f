use homemetrics::attachment_parser::{AttachmentError, AttachmentParser};
use homemetrics::decoder::decode_attachment_content;

fn decode(s: &str) -> Vec<u8> {
    let chars: Vec<char> = s.chars().collect();
    decode_attachment_content(&chars, 0, chars.len())
}

#[test]
fn quoted_printable_round_trip() {
    assert_eq!(decode("=48=65=6C=6Co"), b"Hello".to_vec());
    assert_eq!(decode("caf=C3=A9 =3D ok"), "café = ok".as_bytes().to_vec());
    assert_eq!(decode("a=ZZ=41=42"), b"a=ZZAB".to_vec());
    assert_eq!(decode("=41\r\n=42=43"), b"A\nBC".to_vec());
    assert_eq!(decode("=41=42="), b"AB=".to_vec());
}

#[test]
fn base64_blocks_are_decoded() {
    assert_eq!(decode("SGVsbG8sIFdvcmxkIQ=="), b"Hello, World!".to_vec());
    assert_eq!(decode("  SGVsbG8s\r\nIFdvcmxkIQ==\r\n"), b"Hello, World!".to_vec());
    assert_eq!(decode("SGVsbG8s\tIFdvcmxk\u{a0}IQ=="), b"Hello, World!".to_vec());
}

#[test]
fn short_or_plain_blocks_are_kept() {
    assert_eq!(decode("  SGVsbG8=  "), b"SGVsbG8=".to_vec());
    assert_eq!(decode("\r\n a,b,c\r\n"), b"a,b,c".to_vec());
    assert_eq!(decode("x=1, y=2"), b"x=1, y=2".to_vec());
}

#[test]
fn header_scan_finds_attachment() {
    let raw = b"From: a@b\r\nContent-Type: multipart/mixed; boundary=XX\r\n\r\n--XX\r\nContent-Type: text/plain\r\n\r\nhello\r\n--XX\r\nContent-Type: text/csv\r\nContent-Disposition: attachment; filename=\"Thermo-cabane_Export.CSV\"\r\nContent-Transfer-Encoding: base64\r\n\r\nVGVtcHMsVCxICjEsMiwz\r\n--XX--\r\n";
    let attachments = AttachmentParser::parse_email(raw).unwrap();
    assert_eq!(attachments.len(), 1);
    assert_eq!(attachments[0].filename, "Thermo-cabane_Export.CSV");
    assert_eq!(attachments[0].content, b"Temps,T,H\n1,2,3".to_vec());
    assert_eq!(attachments[0].content_type, "text/csv");
}

#[test]
fn header_scan_skips_other_extensions() {
    let raw = b"Content-Disposition: attachment; filename=\"photo.png\"\r\n\r\nabc\r\n--XX\r\nContent-Disposition: attachment; filename=data.json\r\n\r\n{\"a\": 1}\r\n--XX--";
    let attachments = AttachmentParser::parse_email(raw).unwrap();
    assert_eq!(attachments.len(), 1);
    assert_eq!(attachments[0].filename, "data.json");
    assert_eq!(attachments[0].content, b"{\"a\": 1}".to_vec());
    assert_eq!(attachments[0].content_type, "application/json");
}

#[test]
fn filename_search_stands_in_for_header_scan() {
    let raw = b"Content-Type: text/csv; name=x\r\nX-Id: 1; filename=\"data.csv\"\r\n\r\nTemps,T,H\r\n1,2,3\r\n--boundary--";
    let attachments = AttachmentParser::parse_email(raw).unwrap();
    assert_eq!(attachments.len(), 1);
    assert_eq!(attachments[0].filename, "data.csv");
    assert_eq!(attachments[0].content, b"Temps,T,H\r\n1,2,3".to_vec());
    assert_eq!(attachments[0].content_type, "text/csv");
}

#[test]
fn mime_parser_is_the_last_resort() {
    let raw = b"From: a@b\r\nMIME-Version: 1.0\r\nContent-Type: multipart/mixed; boundary=\"XX\"\r\n\r\n--XX\r\nContent-Type: text/plain\r\n\r\nbody text\r\n--XX\r\nContent-Type: application/octet-stream; name=\"report.bin\"\r\n\r\n0123456789abcdef\r\n--XX--\r\n";
    let attachments = AttachmentParser::parse_email(raw).unwrap();
    assert_eq!(attachments.len(), 1);
    assert_eq!(attachments[0].filename, "report.bin");
    assert_eq!(attachments[0].content, b"0123456789abcdef".to_vec());
    assert_eq!(attachments[0].content_type, "application/octet-stream");
}

#[test]
fn unnamed_mime_part_is_an_error() {
    let raw = b"From: a@b\r\nMIME-Version: 1.0\r\nContent-Type: multipart/mixed; boundary=\"XX\"\r\n\r\n--XX\r\nContent-Type: text/plain\r\n\r\nbody text\r\n--XX\r\nContent-Type: application/octet-stream\r\n\r\n0123456789abcdef\r\n--XX--\r\n";
    assert!(matches!(AttachmentParser::parse_email(raw), Err(AttachmentError::UnnamedPart)));
}

#[test]
fn message_without_attachments_gives_none() {
    let raw = b"From: a@b\r\nSubject: hi\r\n\r\njust text\r\n";
    assert_eq!(AttachmentParser::parse_email(raw).unwrap().len(), 0);
}

#[test]
fn content_type_table() {
    let name = |s: &str| s.chars().collect::<Vec<char>>();
    assert_eq!(AttachmentParser::guess_content_type(&name("a.XLSX")), "application/vnd.openxmlformats-officedocument.spreadsheetml.sheet");
    assert_eq!(AttachmentParser::guess_content_type(&name("a.xls")), "application/vnd.ms-excel");
    assert_eq!(AttachmentParser::guess_content_type(&name("a.txt")), "text/plain");
    assert_eq!(AttachmentParser::guess_content_type(&name("a.xml")), "application/xml");
    assert_eq!(AttachmentParser::guess_content_type(&name("a.pdf")), "application/octet-stream");
    assert!(AttachmentParser::is_data_file(&name("A.Csv")));
    assert!(!AttachmentParser::is_data_file(&name("a.csv.pdf")));
}
