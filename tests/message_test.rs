use homemetrics::blueriot::{extract_from_message, html_to_text, report_text};
use homemetrics::config::{
    cron_expression, schedule_crons, Config, ConfigError, EnvValues, ScheduleError, SchedulerConfig,
};
use homemetrics::email::{metadata_of, sender_text, subject_from_headers, summary_headers};
use homemetrics::timestamp::{date_from_headers, Timestamp};
use homemetrics::xsense::ExtractError;

fn env() -> EnvValues {
    EnvValues {
        gmail_credentials_path: Some("/etc/creds.json".to_string()),
        gmail_token_cache_path: None,
        db_host: None,
        db_port: None,
        db_name: None,
        db_username: None,
        db_password: Some("pw".to_string()),
        data_dir: None,
        scheduler_enabled: None,
        scheduler_times: None,
        slack_bot_token: None,
        slack_channel_id: None,
    }
}

#[test]
fn html_breaks_become_lines_and_tags_go() {
    assert_eq!(html_to_text("<p>pH: 7.2</p><br>ORP: <b>650</b> mV"), "pH: 7.2\n\nORP: 650 mV");
    assert_eq!(html_to_text("a <> b"), "a <> b");
}

#[test]
fn report_text_prefers_plain_then_html_then_raw() {
    assert_eq!(report_text(Some("plain".to_string()), Some("<i>x</i>".to_string()), b"raw"), "plain");
    assert_eq!(report_text(Some(String::new()), Some("<i>x</i>".to_string()), b"raw"), "x");
    assert_eq!(report_text(None, Some("<br>".to_string()), b"raw"), "\n");
    assert_eq!(report_text(None, Some("<i></i>".to_string()), b"raw bytes"), "raw bytes");
}

#[test]
fn pool_reading_from_message() {
    let raw = b"From: pool@example.com\r\nSubject: report\r\nContent-Type: text/plain\r\n\r\nTemperature: 25.5\xc2\xb0C\r\npH: 7.2\r\nORP: 720 mV\r\n";
    let at = Timestamp { seconds: 10, nanos: 0 };
    let r = extract_from_message(raw, at).unwrap();
    assert_eq!(r.orp, Some(720));
    assert_eq!(r.timestamp, at);
    assert!(r.ph.is_some() && r.temperature.is_some());
    let raw = b"From: pool@example.com\r\nSubject: report\r\n\r\nnothing\r\n";
    assert!(matches!(extract_from_message(raw, at), Err(ExtractError::NoMetrics)));
}

#[test]
fn header_date_is_read_before_the_body() {
    let raw = "Subject: x\r\nDate: Tue, 4 Nov 2025 23:59:00 +0000\r\n\r\nDate: Wed, 5 Nov 2025 00:00:00 +0000\r\n";
    assert_eq!(date_from_headers(raw), Some(Timestamp { seconds: 1762300740, nanos: 0 }));
    let raw = "Subject: x\r\n\r\nDate: Tue, 4 Nov 2025 23:59:00 +0000\r\n";
    assert_eq!(date_from_headers(raw), None);
    assert_eq!(date_from_headers("Date: not a date\nDate: Tue, 4 Nov 2025 23:59:00 +0100"), Some(Timestamp { seconds: 1762297140, nanos: 0 }));
}

#[test]
fn subject_of_headers() {
    assert_eq!(subject_from_headers("From: a\nSubject:  Export cabane \nX: y"), "Export cabane");
    assert_eq!(subject_from_headers("De: a\nObjet: b"), "Unknown");
    assert_eq!(subject_from_headers("Subject:Subject: twice"), "twice");
}

#[test]
fn config_defaults() {
    let c = Config::from_env_values(env()).unwrap();
    assert_eq!(c.gmail.credentials_path, "/etc/creds.json");
    assert_eq!(c.gmail.token_cache_path, "./gmail-token-cache.json");
    assert_eq!(c.database.host, "localhost");
    assert_eq!(c.database.port, 5432);
    assert_eq!(c.database.database, "homemetrics");
    assert_eq!(c.database.username, "postgres");
    assert_eq!(c.database.password, "pw");
    assert_eq!(c.data_dir, "./data");
    assert!(!c.scheduler.enabled);
    assert_eq!(c.scheduler.schedule_times, vec!["02:00".to_string()]);
    assert!(c.slack.is_none());
}

#[test]
fn config_values() {
    let mut e = env();
    e.db_port = Some("6543".to_string());
    e.scheduler_enabled = Some("true".to_string());
    e.scheduler_times = Some("02:00, 14:30 ,".to_string());
    e.slack_bot_token = Some("SECRET-REDACTED".to_string());
    e.slack_channel_id = Some("C1".to_string());
    let c = Config::from_env_values(e).unwrap();
    assert_eq!(c.database.port, 6543);
    assert!(c.scheduler.enabled);
    assert_eq!(c.scheduler.schedule_times, vec!["02:00".to_string(), "14:30".to_string(), String::new()]);
    assert_eq!(c.slack.unwrap().channel_id, "C1");
    let mut e = env();
    e.db_port = Some("-0".to_string());
    e.scheduler_enabled = Some("yes".to_string());
    let c = Config::from_env_values(e).unwrap();
    assert_eq!(c.database.port, 5432);
    assert!(!c.scheduler.enabled);
}

#[test]
fn config_missing_values() {
    let mut e = env();
    e.gmail_credentials_path = None;
    assert!(matches!(Config::from_env_values(e), Err(ConfigError::MissingCredentialsPath)));
    let mut e = env();
    e.db_password = None;
    assert!(matches!(Config::from_env_values(e), Err(ConfigError::MissingDbPassword)));
}

#[test]
fn cron_expressions_of_schedule() {
    assert_eq!(cron_expression("02:00").as_deref(), Some("0 00 02 * * *"));
    assert_eq!(cron_expression("14:30").as_deref(), Some("0 30 14 * * *"));
    assert_eq!(cron_expression("1430"), None);
    assert_eq!(cron_expression("1:2:3"), None);
    let s = SchedulerConfig { enabled: true, schedule_times: vec!["02:00".to_string(), "bad".to_string(), "7:5".to_string()] };
    assert_eq!(schedule_crons(&s).unwrap(), vec!["0 00 02 * * *".to_string(), "0 5 7 * * *".to_string()]);
    let off = SchedulerConfig { enabled: false, schedule_times: vec!["02:00".to_string()] };
    assert_eq!(schedule_crons(&off), Err(ScheduleError::Disabled));
    let empty = SchedulerConfig { enabled: true, schedule_times: vec![] };
    assert_eq!(schedule_crons(&empty), Err(ScheduleError::NoTimes));
}

#[test]
fn metadata_and_sender_texts() {
    let h = vec![
        (Some("From".to_string()), Some("a@b".to_string())),
        (Some("Subject".to_string()), Some("first".to_string())),
        (None, Some("x".to_string())),
        (Some("Subject".to_string()), Some("second".to_string())),
    ];
    assert_eq!(metadata_of(&h), ("second".to_string(), "a@b".to_string()));
    assert_eq!(metadata_of(&vec![]), ("No subject".to_string(), "Unknown sender".to_string()));
    assert_eq!(sender_text(Some("Ann".to_string()), Some("a@b".to_string())), "Ann <a@b>");
    assert_eq!(sender_text(None, Some("a@b".to_string())), "a@b");
    assert_eq!(sender_text(Some("Ann".to_string()), None), "Unknown sender");
    let s = summary_headers("Ann <a@b>", "Export");
    assert_eq!(s, "De: Ann <a@b>\nObjet: Export");
    assert_eq!(subject_from_headers(&s), "Unknown");
}
