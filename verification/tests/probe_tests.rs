use installer::db::{create_database_sql, valid_db_name};
use installer::health::{classify_health, health_url, HealthProbe};
use installer::java::{java_home_from_probe, parent_dir, should_set_java_home};
use installer::text::{i32_string, parse_u16, str_contains, trim, u64_string};
use installer::wizard::{BackendOption, InstallerApp};

#[test]
fn java_home_two_levels_above_binary() {
    let out = "openjdk 21.0.2 2024-01-16\nOpenJDK Runtime Environment (build 21.0.2+13-58)\n";
    let home = java_home_from_probe("C:\\Program Files\\Java\\jdk-21\\bin\\java.exe", out);
    assert_eq!(home.as_deref(), Some("C:\\Program Files\\Java\\jdk-21"));
}

#[test]
fn java_home_with_forward_slashes() {
    let out = "openjdk 21.0.2 2024-01-16\n";
    let home = java_home_from_probe("/usr/lib/jvm/jdk-21/bin/java", out);
    assert_eq!(home.as_deref(), Some("/usr/lib/jvm/jdk-21"));
}

#[test]
fn quoted_version_token_is_detected() {
    let out = "java version \"21.0.1\" 2023-10-17 LTS\n";
    assert!(java_home_from_probe("/opt/jdk/bin/java", out).is_some());
}

#[test]
fn old_java_is_not_detected() {
    let out = "openjdk 17.0.2\nOpenJDK Runtime Environment (build 17.0.2+8)\n";
    assert!(java_home_from_probe("/opt/jdk/bin/java", out).is_none());
}

#[test]
fn unmarked_lines_are_ignored() {
    let out = "something 99 else\n";
    assert!(java_home_from_probe("/opt/jdk/bin/java", out).is_none());
}

#[test]
fn bare_binary_name_has_no_home() {
    let out = "openjdk 21.0.2\n";
    assert!(java_home_from_probe("java", out).is_none());
}

#[test]
fn parent_dir_walks_up_one_level() {
    assert_eq!(parent_dir("a/b/c").as_deref(), Some("a/b"));
    assert_eq!(parent_dir("c").as_deref(), Some(""));
    assert_eq!(parent_dir("").as_deref(), None);
    assert_eq!(parent_dir("/x").as_deref(), Some("/"));
}

#[test]
fn java_home_update_rule() {
    assert!(should_set_java_home(""));
    assert!(should_set_java_home("   "));
    assert!(should_set_java_home("C:\\opt\\jdk"));
    assert!(!should_set_java_home("C:\\Program Files\\Java\\jdk-21"));
}

#[test]
fn health_url_is_assembled() {
    assert_eq!(
        health_url("http://api.example", "8443"),
        "http://api.example:8443/actuator/health"
    );
}

#[test]
fn health_up_succeeds() {
    let r = classify_health(&HealthProbe::Body(String::from("{\"status\":\"UP\"}")));
    assert_eq!(r.unwrap(), "Połączenie OK - status UP");
}

#[test]
fn health_up_with_components_succeeds() {
    let body = "{\"status\":\"UP\",\"components\":{\"db\":{\"status\":\"UP\",\"details\":[1,2,null]}}}";
    let r = classify_health(&HealthProbe::Body(String::from(body)));
    assert!(r.is_ok());
}

#[test]
fn health_down_reports_quoted_status() {
    let r = classify_health(&HealthProbe::Body(String::from("{\"status\":\"DOWN\"}")));
    assert_eq!(r.unwrap_err(), "Status: \"DOWN\"");
}

#[test]
fn health_without_string_status_reports_null() {
    for body in ["{}", "{\"other\":1}", "[1,2]", "true", "{\"status\":5}"] {
        let r = classify_health(&HealthProbe::Body(String::from(body)));
        assert_eq!(r.unwrap_err(), "Status: null", "body: {}", body);
    }
}

#[test]
fn health_invalid_json_is_reported() {
    let r = classify_health(&HealthProbe::Body(String::from("{status: UP")));
    assert_eq!(r.unwrap_err(), "Niepoprawna odpowiedź JSON");
}

#[test]
fn health_transport_and_status_errors() {
    let t = classify_health(&HealthProbe::Transport(String::from("connection refused")));
    assert_eq!(t.unwrap_err(), "Błąd połączenia: connection refused");
    let s = classify_health(&HealthProbe::BadStatus(String::from("500 Internal Server Error")));
    assert_eq!(s.unwrap_err(), "HTTP status: 500 Internal Server Error");
}

#[test]
fn database_names_are_validated() {
    assert!(valid_db_name("hoteltaskmanager"));
    assert!(valid_db_name("hotel_task_1"));
    assert!(!valid_db_name(""));
    assert!(!valid_db_name("bad name"));
    assert!(!valid_db_name("x`; DROP"));
}

#[test]
fn empty_database_name_sends_no_sql() {
    let mut s = InstallerApp::new();
    s.choose_backend(BackendOption::Local);
    s.next_from_welcome();
    s.next_from_db_mode();
    assert_eq!(s.step, 2);
    s.db_name = String::new();
    assert!(s.begin_create_database().is_none());
}

#[test]
fn creation_statement_is_idempotent_text() {
    let sql = create_database_sql("htm");
    assert_eq!(sql, "CREATE DATABASE IF NOT EXISTS `htm`");
    assert_eq!(create_database_sql("htm"), sql);
}

#[test]
fn text_utilities() {
    assert_eq!(trim("  ab c \t"), "ab c");
    assert_eq!(parse_u16("8080"), Some(8080));
    assert_eq!(parse_u16("+8080"), Some(8080));
    assert_eq!(parse_u16("65536"), None);
    assert_eq!(parse_u16(""), None);
    assert_eq!(installer::text::parse_u32("4294967295"), Some(u32::MAX));
    assert_eq!(installer::text::parse_u32("4294967296"), None);
    assert_eq!(u64_string(0), "0");
    assert_eq!(u64_string(65535), "65535");
    assert_eq!(i32_string(-1603), "-1603");
    assert!(str_contains("openjdk 21", "jdk"));
    assert!(!str_contains("openjdk 21", "jre"));
}
