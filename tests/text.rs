use jaws::errors::{ErrorKind, JawsError};
use jaws::output_format::OutputFormat;
use jaws::text::{center_in, i64_text, lcr_in, repeat_in, u64_text, Textutil};

#[test]
fn hms() {
    let t = Textutil::new(OutputFormat::Tabular);
    assert_eq!(t.to_hms(3723), "1h2m3s");
    assert_eq!(t.to_hms(0), "0h0m0s");
    assert_eq!(t.to_hms(86_399), "23h59m59s");
}

#[test]
fn centring_and_columns() {
    assert_eq!(center_in("ab", 7), "  ab   ");
    assert_eq!(center_in("abcdef", 3), "abcdef");
    assert_eq!(lcr_in("L", "C", "R", 10), "L   C    R");
    assert_eq!(repeat_in("-", 4), "----");
    assert_eq!(repeat_in("ab", 0), "");
}

#[test]
fn centring_matches_std_formatting() {
    for width in 0..12 {
        assert_eq!(center_in("héllo", width), format!("{: ^width$}", "héllo", width = width));
    }
}

#[test]
fn numbers_as_text() {
    assert_eq!(u64_text(0), "0");
    assert_eq!(u64_text(18_446_744_073_709_551_615), "18446744073709551615");
    assert_eq!(i64_text(-42), "-42");
    assert_eq!(i64_text(i64::MIN), "-9223372036854775808");
}

#[test]
fn status_lines() {
    let t = Textutil::new(OutputFormat::Tabular);
    assert_eq!(t.notify_comms(Some("getting instances".to_string())), Some("Talking to AWS (getting instances)...".to_string()));
    assert_eq!(t.notify_comms(None), Some("Talking to AWS...".to_string()));
    assert_eq!(t.notify_working(), Some("Marshalling data...".to_string()));
    assert!(t.notify_clear());
    let quiet = Textutil::new(OutputFormat::Json);
    assert_eq!(quiet.notify_comms(None), None);
    assert_eq!(quiet.notify("x".to_string()), None);
    assert!(!quiet.notify_clear());
}

#[test]
fn output_formats() {
    assert_eq!(OutputFormat::parse("tabular"), Some(OutputFormat::Tabular));
    assert_eq!(OutputFormat::parse("json"), Some(OutputFormat::Json));
    assert_eq!(OutputFormat::parse("JSON"), None);
    assert_eq!("json".parse::<OutputFormat>(), Ok(OutputFormat::Json));
    assert_eq!("xml".parse::<OutputFormat>(), Err("invalid variant: xml".to_string()));
    assert!(OutputFormat::Tabular.supports_free_text_output());
    assert!(!OutputFormat::Json.supports_free_text_output());
    assert_eq!(OutputFormat::Json.name(), "json");
}

#[test]
fn error_kinds() {
    let e = JawsError::new("boom".to_string());
    assert_eq!(e.kind, ErrorKind::Service);
    assert_eq!(e.to_string(), "boom");
    assert_eq!(JawsError::authentication("no".to_string()).kind, ErrorKind::Authentication);
}
