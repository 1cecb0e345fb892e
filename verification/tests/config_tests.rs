use installer::config::{parse_config, render_config, serialize_config, ConfigError, FrontendConfig};

fn local_args() -> (
    &'static str,
    &'static str,
    &'static str,
    Option<&'static str>,
    Option<&'static str>,
    Option<&'static str>,
    Option<&'static str>,
) {
    (
        "http://localhost",
        "8080",
        "C:/Hotel Task Manager Environment/backend/backend.jar",
        Some("localhost"),
        Some("hoteltaskmanager"),
        Some("root"),
        Some(""),
    )
}

#[test]
fn renders_full_local_document() {
    let (h, p, j, dh, dn, du, dp) = local_args();
    let out = render_config(h, p, j, dh, dn, du, dp, None).unwrap();
    let expected = "{\n  \"API_HOST\": \"http://localhost\",\n  \"JAR_PATH\": \"C:/Hotel Task Manager Environment/backend/backend.jar\",\n  \"BACKEND_PORT\": 8080,\n  \"DB_HOST\": \"localhost\",\n  \"DB_NAME\": \"hoteltaskmanager\",\n  \"DB_USER\": \"root\",\n  \"DB_PASS\": \"\"\n}";
    assert_eq!(out, expected);
}

#[test]
fn remote_document_has_no_db_keys() {
    let out = render_config("http://api.example", "8443", "", None, None, None, None, None)
        .unwrap();
    let expected = "{\n  \"API_HOST\": \"http://api.example\",\n  \"JAR_PATH\": \"\",\n  \"BACKEND_PORT\": 8443\n}";
    assert_eq!(out, expected);
    assert!(!out.contains("DB_"));
}

#[test]
fn port_boundaries_round_trip() {
    for port in ["0", "65535"] {
        let out = render_config("h", port, "", None, None, None, None, None).unwrap();
        let parsed = parse_config(&out).unwrap();
        assert_eq!(parsed.backend_port.to_string(), port);
    }
}

#[test]
fn port_above_range_is_bad_port() {
    let r = render_config("h", "65536", "", None, None, None, None, None);
    assert_eq!(r.unwrap_err(), ConfigError::BadPort);
}

#[test]
fn port_text_is_bad_port() {
    let r = render_config("h", "abc", "", None, None, None, None, None);
    assert_eq!(r.unwrap_err(), ConfigError::BadPort);
}

#[test]
fn rewrite_is_byte_identical() {
    let (h, p, j, dh, dn, du, dp) = local_args();
    let first = render_config(h, p, j, dh, dn, du, dp, None).unwrap();
    let second = render_config(h, p, j, dh, dn, du, dp, Some(&first)).unwrap();
    assert_eq!(first, second);
}

#[test]
fn rewrite_ignores_previous_content() {
    let previous = "{\"API_HOST\":\"old\",\"JAR_PATH\":\"x\",\"BACKEND_PORT\":1}";
    let (h, p, j, dh, dn, du, dp) = local_args();
    let fresh = render_config(h, p, j, dh, dn, du, dp, None).unwrap();
    let over = render_config(h, p, j, dh, dn, du, dp, Some(previous)).unwrap();
    assert_eq!(fresh, over);
}

#[test]
fn unparsable_previous_content_is_refused() {
    let (h, p, j, dh, dn, du, dp) = local_args();
    let r = render_config(h, p, j, dh, dn, du, dp, Some("{not json"));
    assert_eq!(r.unwrap_err(), ConfigError::Parse);
}

#[test]
fn blank_previous_content_is_treated_as_fresh() {
    let (h, p, j, dh, dn, du, dp) = local_args();
    let fresh = render_config(h, p, j, dh, dn, du, dp, None).unwrap();
    let blank = render_config(h, p, j, dh, dn, du, dp, Some("  \n\t")).unwrap();
    assert_eq!(fresh, blank);
}

#[test]
fn parse_accepts_any_member_order() {
    let text = "{\"BACKEND_PORT\": 9000, \"JAR_PATH\": \"a\", \"API_HOST\": \"b\"}";
    let c = parse_config(text).unwrap();
    assert_eq!(c.backend_port, 9000);
    assert_eq!(c.jar_path, "a");
    assert_eq!(c.api_host, "b");
    assert_eq!(c.db_host, None);
}

#[test]
fn parse_skips_unknown_members() {
    let text = "{\"API_HOST\":\"a\",\"EXTRA\":{\"deep\":[1,2,{\"x\":null}]},\"JAR_PATH\":\"\",\"BACKEND_PORT\":1}";
    let c = parse_config(text).unwrap();
    assert_eq!(c.api_host, "a");
    assert_eq!(c.backend_port, 1);
}

#[test]
fn parse_rejects_duplicate_members() {
    let text = "{\"API_HOST\":\"a\",\"API_HOST\":\"b\",\"JAR_PATH\":\"\",\"BACKEND_PORT\":1}";
    assert!(parse_config(text).is_none());
}

#[test]
fn parse_rejects_missing_required_member() {
    assert!(parse_config("{\"API_HOST\":\"a\",\"JAR_PATH\":\"\"}").is_none());
    assert!(parse_config("{}").is_none());
}

#[test]
fn parse_rejects_trailing_text() {
    assert!(parse_config("{\"API_HOST\":\"a\",\"JAR_PATH\":\"\",\"BACKEND_PORT\":1} x").is_none());
}

#[test]
fn parse_null_database_member_reads_as_absent() {
    let text = "{\"API_HOST\":\"a\",\"JAR_PATH\":\"\",\"BACKEND_PORT\":1,\"DB_HOST\":null}";
    let c = parse_config(text).unwrap();
    assert_eq!(c.db_host, None);
}

#[test]
fn parse_rejects_fractional_port() {
    let text = "{\"API_HOST\":\"a\",\"JAR_PATH\":\"\",\"BACKEND_PORT\":1.5}";
    assert!(parse_config(text).is_none());
}

#[test]
fn escaped_values_round_trip() {
    let c = FrontendConfig {
        api_host: String::from("a\"b\\c\nd\te"),
        jar_path: String::from("ż\u{1}"),
        backend_port: 65535,
        db_host: None,
        db_name: Some(String::from("x")),
        db_user: None,
        db_pass: None,
    };
    let out = serialize_config(&c);
    assert!(out.contains("a\\\"b\\\\c\\nd\\te"));
    assert!(out.contains("\\u0001"));
    let back = parse_config(&out).unwrap();
    assert_eq!(back.api_host, c.api_host);
    assert_eq!(back.jar_path, c.jar_path);
    assert_eq!(back.backend_port, 65535);
    assert_eq!(back.db_host, None);
    assert_eq!(back.db_name.as_deref(), Some("x"));
}

#[test]
fn error_messages_match_the_wizard() {
    assert_eq!(ConfigError::BadPort.message(), "Niepoprawny numer portu");
    assert_eq!(
        ConfigError::Parse.message(),
        "Błąd parsowania JSON: niepoprawna zawartość pliku"
    );
}
