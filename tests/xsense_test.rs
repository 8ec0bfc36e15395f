use homemetrics::decimal::Decimal;
use homemetrics::timestamp::Timestamp;
use homemetrics::attachment_parser::Attachment;
use homemetrics::json::JsonValue;
use homemetrics::xsense::{DataFormat, ExtractError, Field, TemperatureExtractor};

fn as_f64(d: Decimal) -> f64 {
    d.mantissa as f64 / 10f64.powi(d.scale as i32)
}

#[test]
fn test_extract_sensor_name() {
    assert_eq!(
        TemperatureExtractor::extract_sensor_name("Thermo-cabane_Exporter les données_20251104.csv").unwrap(),
        "cabane"
    );
    assert_eq!(
        TemperatureExtractor::extract_sensor_name("Thermo-patio_Exporter les données_20251105.csv").unwrap(),
        "patio"
    );
}

#[test]
fn test_csv_parsing() {
    let csv_content = b"Temps,Temp\xC3\xA9rature_Celsius,Humidit\xC3\xA9 relative_Pourcentage
2025/11/04 23:59,15.0,84.0
2025/11/04 23:58,15.1,83.2
2025/11/04 23:57,15.2,84.0";

    let readings = TemperatureExtractor::extract_from_xsense_csv(csv_content, "TEST_SENSOR")
        .expect("Failed to parse CSV");

    assert_eq!(readings.len(), 3);
    assert_eq!(readings[0].sensor_id, "TEST_SENSOR");
    assert_eq!(as_f64(readings[0].temperature), 15.0);
    assert_eq!(readings[0].humidity.map(as_f64), Some(84.0));
}

#[test]
fn sensor_name_falls_back_to_file_stem() {
    assert_eq!(TemperatureExtractor::extract_sensor_name("salon.data.csv").unwrap(), "salon.data");
    assert_eq!(TemperatureExtractor::extract_sensor_name("a.b.csv").unwrap(), "a.b");
    assert_eq!(TemperatureExtractor::extract_sensor_name("living").unwrap(), "living");
    assert_eq!(TemperatureExtractor::extract_sensor_name("living.csv").unwrap(), "living");
    assert_eq!(TemperatureExtractor::extract_sensor_name("Thermo-_x.csv").unwrap(), "Thermo-_x");
    assert_eq!(TemperatureExtractor::sensor_name_from(None, "garage.csv"), "garage");
    assert_eq!(
        TemperatureExtractor::sensor_name_from(Some("cave".to_string()), "garage.csv"),
        "cave"
    );
}

#[test]
fn csv_two_rows_give_two_readings() {
    let csv = b"Temps,Temperature,Humidite\n2025/11/04 23:59,15.0,84.0\n2025/11/04 23:58,15.1,83.2\n";
    let readings = TemperatureExtractor::extract_from_xsense_csv(csv, "cabane").unwrap();
    assert_eq!(readings.len(), 2);
    assert_eq!(as_f64(readings[0].temperature), 15.0);
    assert_eq!(readings[0].humidity.map(as_f64), Some(84.0));
    assert_eq!(readings[0].timestamp, Timestamp { seconds: 1762300740, nanos: 0 });
    assert_eq!(readings[1].timestamp, Timestamp { seconds: 1762300680, nanos: 0 });
    assert_eq!(as_f64(readings[1].temperature), 15.1);
    assert_eq!(readings[1].location.as_deref(), Some("cabane"));
}

#[test]
fn csv_narrow_header_is_a_format_error() {
    let csv = b"Temps,Temperature\n2025/11/04 23:59,15.0\n";
    let r = TemperatureExtractor::extract_from_xsense_csv(csv, "cabane");
    assert!(matches!(r, Err(ExtractError::Format { columns: 2 })));
}

#[test]
fn csv_short_rows_are_skipped() {
    let csv = b"Temps,Temperature,Humidite\n2025/11/04 23:59,15.0\n2025/11/04 23:58,-1.5,83.2\n";
    let readings = TemperatureExtractor::extract_from_xsense_csv(csv, "s").unwrap();
    assert_eq!(readings.len(), 1);
    assert_eq!(readings[0].temperature, Decimal { mantissa: -15, scale: 1 });
}

#[test]
fn csv_bad_value_aborts_with_line() {
    let csv = b"Temps,Temperature,Humidite\n2025/11/04 23:59,15.0,84.0\n2025/11/04 23:58,warm,83.2\n";
    match TemperatureExtractor::extract_from_xsense_csv(csv, "s") {
        Err(ExtractError::Row { line, field, value }) => {
            assert_eq!(line, 3);
            assert_eq!(field, Field::Temperature);
            assert_eq!(value, "warm");
        }
        other => panic!("unexpected outcome: {:?}", other),
    }
    let csv = b"Temps,Temperature,Humidite\n04/11/2025 23:59,15.0,84.0\n";
    assert!(matches!(
        TemperatureExtractor::extract_from_xsense_csv(csv, "s"),
        Err(ExtractError::Row { line: 2, field: Field::Timestamp, .. })
    ));
    let csv = b"Temps,Temperature,Humidite\n2025/11/04 23:59,15.0,\n";
    assert!(matches!(
        TemperatureExtractor::extract_from_xsense_csv(csv, "s"),
        Err(ExtractError::Row { line: 2, field: Field::Humidity, .. })
    ));
}

#[test]
fn csv_empty_content_is_a_format_error() {
    assert!(matches!(
        TemperatureExtractor::extract_from_xsense_csv(b"", "s"),
        Err(ExtractError::Format { columns: 0 })
    ));
}

#[test]
fn data_format_follows_extension() {
    assert_eq!(TemperatureExtractor::data_format("a.CSV"), DataFormat::Csv);
    assert_eq!(TemperatureExtractor::data_format("a.json"), DataFormat::Json);
    assert_eq!(TemperatureExtractor::data_format("a.Xml"), DataFormat::Xml);
    assert_eq!(TemperatureExtractor::data_format("a.txt"), DataFormat::Text);
    assert_eq!(TemperatureExtractor::data_format("a.pdf"), DataFormat::Other);
}

#[test]
fn text_lines_with_date_word_and_number() {
    let text = b"2025-01-02 03:04:05 salon 21.5\r\nno reading here\n";
    let readings = TemperatureExtractor::extract_from_text(text).unwrap();
    assert_eq!(readings.len(), 1);
    assert_eq!(readings[0].timestamp, Timestamp { seconds: 1735787045, nanos: 0 });
    assert_eq!(readings[0].humidity, None);
}

#[test]
fn text_must_be_utf8() {
    assert!(matches!(
        TemperatureExtractor::extract_from_text(b"\xff\xfe 2025-01-02 03:04:05 a 1.0"),
        Err(ExtractError::NotUtf8)
    ));
}

fn attachment(name: &str, content: &[u8]) -> Attachment {
    Attachment { filename: name.to_string(), content: content.to_vec(), content_type: String::new() }
}

#[test]
fn attachment_dispatch_by_extension() {
    let csv = attachment("Thermo-cabane_Export.CSV", b"Temps,T,H\n2025/11/04 23:59,15.0,84.0\n");
    let r = TemperatureExtractor::extract_from_attachment(&csv, None).unwrap();
    assert_eq!(r.len(), 1);
    assert_eq!(r[0].sensor_id, "cabane");
    let txt = attachment("log.txt", b"2025-01-02 03:04:05 salon 21.5\n");
    assert_eq!(TemperatureExtractor::extract_from_attachment(&txt, None).unwrap().len(), 1);
    let xml = attachment("a.xml", b"<r/>");
    assert_eq!(TemperatureExtractor::extract_from_attachment(&xml, None).unwrap().len(), 0);
    let pdf = attachment("a.pdf", b"%PDF");
    assert_eq!(TemperatureExtractor::extract_from_attachment(&pdf, None).unwrap().len(), 0);
    let json = attachment("a.json", b"not json");
    assert!(matches!(
        TemperatureExtractor::extract_from_attachment(&json, None),
        Err(ExtractError::JsonUnreadable)
    ));
    let doc = JsonValue::Object(vec![(
        "readings".to_string(),
        JsonValue::Array(vec![JsonValue::Object(vec![
            ("time".to_string(), JsonValue::Str("2025-01-02 03:04:05".to_string())),
            ("temp".to_string(), JsonValue::Number("2.15e1".to_string())),
        ])]),
    )]);
    let r = TemperatureExtractor::extract_from_attachment(&json, Some(&doc)).unwrap();
    assert_eq!(r.len(), 1);
    assert_eq!(r[0].temperature, Decimal { mantissa: 215, scale: 1 });
}
