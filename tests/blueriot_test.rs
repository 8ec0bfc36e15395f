use homemetrics::blueriot::{extract_orp, extract_ph, extract_pool_metrics, extract_temperature};
use homemetrics::blueriot::{orp_from_captures, ph_from_captures, temperature_from_captures};
use homemetrics::decimal::Decimal;
use homemetrics::timestamp::Timestamp;
use homemetrics::xsense::ExtractError;

fn as_f64(d: Decimal) -> f64 {
    d.mantissa as f64 / 10f64.powi(d.scale as i32)
}

fn now() -> Timestamp {
    Timestamp { seconds: 1762300740, nanos: 0 }
}

#[test]
fn test_extract_temperature() {
    assert_eq!(extract_temperature("Temperature: 25.5°C").map(as_f64), Some(25.5));
    assert_eq!(extract_temperature("Température: 24,8°C").map(as_f64), Some(24.8));
    assert_eq!(extract_temperature("Temp: 26.2").map(as_f64), Some(26.2));
    assert_eq!(extract_temperature("No temp here"), None);
}

#[test]
fn test_extract_ph() {
    assert_eq!(extract_ph("pH: 7.2").map(as_f64), Some(7.2));
    assert_eq!(extract_ph("pH 7,4").map(as_f64), Some(7.4));
    assert_eq!(extract_ph("ph = 7.15").map(as_f64), Some(7.15));
    assert_eq!(extract_ph("No pH here"), None);
    assert_eq!(extract_ph("pH: 15.0"), None);
}

#[test]
fn test_extract_orp() {
    assert_eq!(extract_orp("ORP: 720 mV"), Some(720));
    assert_eq!(extract_orp("Redox: 680"), Some(680));
    assert_eq!(extract_orp("ORP: 750mV"), Some(750));
    assert_eq!(extract_orp("No ORP here"), None);
    assert_eq!(extract_orp("ORP: 2000"), None);
}

#[test]
fn test_extract_pool_metrics() {
    let text = "Pool Status Report\nTemperature: 25.5°C\npH: 7.2\nORP: 720 mV";
    let reading = extract_pool_metrics(text, now()).unwrap();
    assert_eq!(reading.temperature.map(as_f64), Some(25.5));
    assert_eq!(reading.ph.map(as_f64), Some(7.2));
    assert_eq!(reading.orp, Some(720));
}

#[test]
fn test_extract_pool_metrics_from_text() {
    let text_sample = r#"
        Bonjour,
        
        Voici les dernières mesures de votre piscine:
        
        Température: 15,8°C
        pH: 6,80
        ORP: 249 mV
        
        Cordialement,
        Blue Riot
    "#;
    let pool_reading = extract_pool_metrics(text_sample, now())
        .expect("Failed to extract pool metrics from sample text");
    assert_eq!(pool_reading.temperature.map(as_f64), Some(15.8));
    assert_eq!(pool_reading.ph.map(as_f64), Some(6.80));
    assert_eq!(pool_reading.orp, Some(249));
}

#[test]
fn test_extract_pool_metrics_various_formats() {
    let text1 = "Temperature: 18.5°C, pH: 7.2, ORP: 650 mV";
    let result1 = extract_pool_metrics(text1, now()).expect("Failed to parse format 1");
    assert_eq!(result1.temperature.map(as_f64), Some(18.5));
    assert_eq!(result1.ph.map(as_f64), Some(7.2));
    assert_eq!(result1.orp, Some(650));

    let text2 = "Température: 16,3°C\npH: 7,45\nORP: 550 mV";
    let result2 = extract_pool_metrics(text2, now()).expect("Failed to parse format 2");
    assert_eq!(result2.temperature.map(as_f64), Some(16.3));
    assert_eq!(result2.ph.map(as_f64), Some(7.45));
    assert_eq!(result2.orp, Some(550));
}

#[test]
fn out_of_range_ph_is_not_found() {
    assert!(matches!(extract_pool_metrics("pH: 15.0", now()), Err(ExtractError::NoMetrics)));
    let r = extract_pool_metrics("pH: 15.0\nph = 7.0", now()).unwrap();
    assert_eq!(r.ph.map(as_f64), Some(7.0));
    let r = extract_pool_metrics("pH: 15.0 and 20,5 °C", now()).unwrap();
    assert_eq!(r.ph, None);
    assert_eq!(r.temperature.map(as_f64), Some(20.5));
    assert_eq!(r.timestamp, now());
}

#[test]
fn no_metric_is_an_error() {
    assert!(matches!(extract_pool_metrics("nothing to see", now()), Err(ExtractError::NoMetrics)));
}

#[test]
fn captures_pick_the_first_valid_value() {
    let caps = vec![None, Some("abc".to_string()), Some("12,5".to_string())];
    assert_eq!(temperature_from_captures(&caps), Some(Decimal { mantissa: 125, scale: 1 }));
    let caps = vec![Some("14.5".to_string()), Some("14,0".to_string())];
    assert_eq!(ph_from_captures(&caps), Some(Decimal { mantissa: 140, scale: 1 }));
    let caps = vec![Some("1001".to_string()), Some("0".to_string())];
    assert_eq!(orp_from_captures(&caps), Some(0));
    assert_eq!(orp_from_captures(&vec![]), None);
}
