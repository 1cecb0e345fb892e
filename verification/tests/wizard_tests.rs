use installer::config::render_config;
use installer::health::{classify_health, HealthProbe};
use installer::wizard::{
    BackendInstall, BackendOption, FrontendLaunch, HomeUpdate, InstallerApp, JavaProbe,
    format_log_entry,
};

fn step_is_known(s: &InstallerApp) {
    assert!(matches!(s.step, 0..=7 | 10), "unknown step {}", s.step);
}

#[test]
fn local_new_database_happy_path() {
    let mut s = InstallerApp::new();
    assert_eq!(s.step, 0);
    s.choose_backend(BackendOption::Local);
    s.next_from_welcome();
    assert_eq!(s.step, 1);
    step_is_known(&s);

    // A new local database is the default choice.
    assert!(!s.use_existing_db);
    s.next_from_db_mode();
    assert_eq!(s.step, 2);

    s.note_mariadb_present();
    assert_eq!(s.status, "MariaDB jest już zainstalowane.");
    s.db_pass = String::from("r00t");
    s.db_name = String::from("hoteltaskmanager");
    s.prepare_db_defaults();
    assert_eq!(s.db_host, "localhost");
    assert_eq!(s.db_user, "root");
    assert_eq!(s.db_pass, "");

    let req = s.begin_create_database().unwrap();
    assert_eq!(req.host, "localhost");
    assert_eq!(req.sql, "CREATE DATABASE IF NOT EXISTS `hoteltaskmanager`");
    s.finish_create_database(Ok(()));
    assert_eq!(s.step, 3);
    assert_eq!(s.status, "Baza danych została utworzona.");

    s.apply_java_step(&JavaProbe::Found {
        home: String::from("C:\\Program Files\\Java\\jdk-21"),
        update: HomeUpdate::Done,
    });
    assert_eq!(s.step, 4);
    assert!(s.java_installed);
    assert_eq!(s.status, "Java 21+ została wykryta.\nUstawiono JAVA_HOME");

    s.apply_backend_install(&BackendInstall::Installed);
    assert_eq!(s.step, 5);
    assert!(s.backend_installed);

    s.frontend_already_installed();
    assert_eq!(s.step, 6);

    let req = s.config_request();
    assert_eq!(req.api_host, "http://localhost");
    assert_eq!(req.api_port, "8080");
    assert_eq!(
        req.jar_path,
        "C:/Hotel Task Manager Environment/backend/backend.jar"
    );
    let out = render_config(
        &req.api_host,
        &req.api_port,
        &req.jar_path,
        req.db_host.as_deref(),
        req.db_name.as_deref(),
        req.db_user.as_deref(),
        req.db_pass.as_deref(),
        None,
    )
    .unwrap();
    let expected = "{\n  \"API_HOST\": \"http://localhost\",\n  \"JAR_PATH\": \"C:/Hotel Task Manager Environment/backend/backend.jar\",\n  \"BACKEND_PORT\": 8080,\n  \"DB_HOST\": \"localhost\",\n  \"DB_NAME\": \"hoteltaskmanager\",\n  \"DB_USER\": \"root\",\n  \"DB_PASS\": \"\"\n}";
    assert_eq!(out, expected);

    s.apply_config_result(Ok(()));
    assert_eq!(s.step, 7);
    step_is_known(&s);
}

#[test]
fn local_existing_database_skips_creation() {
    let mut s = InstallerApp::new();
    s.choose_backend(BackendOption::Local);
    s.next_from_welcome();
    s.use_existing_db = true;
    s.db_host = String::from("10.0.0.5");
    s.db_name = String::from("htm");
    s.db_user = String::from("svc");
    s.db_pass = String::from("s3cret");

    let params = s.begin_connection_test().unwrap();
    assert_eq!(params.host, "10.0.0.5");
    assert_eq!(params.name, "htm");
    assert_eq!(params.user, "svc");
    assert_eq!(params.pass, "s3cret");
    s.finish_connection_test(Ok(()));
    assert_eq!(s.status, "Połączenie z bazą danych jest OK!");

    s.next_from_db_mode();
    assert_eq!(s.step, 3);

    s.apply_java_step(&JavaProbe::Found {
        home: String::from("C:\\Program Files\\Java\\jdk-21"),
        update: HomeUpdate::Skipped,
    });
    s.apply_backend_install(&BackendInstall::Installed);
    s.frontend_already_installed();
    let req = s.config_request();
    assert_eq!(req.db_host.as_deref(), Some("10.0.0.5"));
    assert_eq!(req.db_name.as_deref(), Some("htm"));
    assert_eq!(req.db_user.as_deref(), Some("svc"));
    assert_eq!(req.db_pass.as_deref(), Some("s3cret"));
}

#[test]
fn connection_test_requires_fields() {
    let mut s = InstallerApp::new();
    s.choose_backend(BackendOption::Local);
    s.next_from_welcome();
    s.use_existing_db = true;
    s.db_host = String::from("  ");
    let r = s.begin_connection_test();
    assert!(r.is_none());
    assert_eq!(s.status, "Podaj host, nazwę bazy i użytkownika.");
}

#[test]
fn remote_backend_happy_path() {
    let mut s = InstallerApp::new();
    s.choose_backend(BackendOption::Remote);
    s.next_from_welcome();
    assert_eq!(s.step, 10);
    s.external_api_url = String::from("http://api.example");
    s.external_api_port = String::from("8443");

    assert_eq!(s.health_request(), "http://api.example:8443/actuator/health");
    let verdict = classify_health(&HealthProbe::Body(String::from("{\"status\":\"UP\"}")));
    s.apply_health_result(verdict);
    assert_eq!(s.status, "Połączenie OK - status UP");

    s.next_from_remote();
    assert_eq!(s.step, 5);
    s.frontend_already_installed();
    let req = s.config_request();
    assert_eq!(req.api_host, "http://api.example");
    assert_eq!(req.api_port, "8443");
    assert_eq!(req.jar_path, "");
    assert!(req.db_host.is_none());
    let out = render_config(
        &req.api_host,
        &req.api_port,
        &req.jar_path,
        None,
        None,
        None,
        None,
        None,
    )
    .unwrap();
    assert_eq!(
        out,
        "{\n  \"API_HOST\": \"http://api.example\",\n  \"JAR_PATH\": \"\",\n  \"BACKEND_PORT\": 8443\n}"
    );
    assert!(!out.contains("DB_"));
}

#[test]
fn remote_health_failure_stays_and_logs() {
    let mut s = InstallerApp::new();
    s.choose_backend(BackendOption::Remote);
    s.next_from_welcome();
    let before = s.log.len();
    let verdict = classify_health(&HealthProbe::Body(String::from("{\"status\":\"DOWN\"}")));
    s.apply_health_result(verdict);
    assert_eq!(s.step, 10);
    assert_eq!(s.status, "Błąd: Status: \"DOWN\"");
    assert_eq!(s.log.len(), before + 1);
    assert_eq!(s.log[before], "Błąd połączenia: Status: \"DOWN\"");
}

#[test]
fn missing_backend_resource_keeps_step() {
    let mut s = InstallerApp::new();
    s.choose_backend(BackendOption::Local);
    s.next_from_welcome();
    s.next_from_db_mode();
    s.finish_create_database(Ok(()));
    s.apply_java_step(&JavaProbe::Found {
        home: String::from("C:\\jdk"),
        update: HomeUpdate::Skipped,
    });
    assert_eq!(s.step, 4);
    let before = s.log.len();
    s.apply_backend_install(&BackendInstall::CopyError(String::from(
        "Zasób backend.jar nie został znaleziony",
    )));
    assert_eq!(s.step, 4);
    assert!(!s.backend_installed);
    assert_eq!(
        s.status,
        "Błąd kopiowania backendu: Zasób backend.jar nie został znaleziony"
    );
    assert_eq!(s.log.len(), before + 2);
    assert_eq!(s.log[before + 1], s.status);
}

#[test]
fn bad_port_keeps_configuration_step() {
    let mut s = InstallerApp::new();
    s.choose_backend(BackendOption::Remote);
    s.next_from_welcome();
    s.external_api_url = String::from("http://api.example");
    s.external_api_port = String::from("abc");
    s.next_from_remote();
    s.frontend_already_installed();
    assert_eq!(s.step, 6);
    let req = s.config_request();
    let r = render_config(
        &req.api_host,
        &req.api_port,
        &req.jar_path,
        None,
        None,
        None,
        None,
        None,
    );
    let err = r.unwrap_err();
    s.apply_config_result(Err(err.message()));
    assert_eq!(s.step, 6);
    assert_eq!(
        s.status,
        "Błąd aktualizacji config frontendu: Niepoprawny numer portu"
    );
}

#[test]
fn undecided_choice_stays_at_welcome() {
    let mut s = InstallerApp::new();
    s.next_from_welcome();
    assert_eq!(s.step, 0);
    assert_eq!(s.status, "Wybierz jedną z opcji.");
}

#[test]
fn back_returns_to_welcome() {
    let mut s = InstallerApp::new();
    s.choose_backend(BackendOption::Local);
    s.next_from_welcome();
    assert_eq!(s.step, 1);
    s.back();
    assert_eq!(s.step, 0);
    s.choose_backend(BackendOption::Remote);
    s.next_from_welcome();
    assert_eq!(s.step, 10);
    s.back();
    assert_eq!(s.step, 0);
}

#[test]
fn mariadb_installer_messages_accumulate() {
    let mut s = InstallerApp::new();
    s.choose_backend(BackendOption::Local);
    s.next_from_welcome();
    s.next_from_db_mode();
    s.begin_mariadb_install();
    assert_eq!(s.status, "Trwa instalacja MariaDB...");
    s.note_mariadb_exit(Some(1603), false);
    assert_eq!(
        s.status,
        "Trwa instalacja MariaDB... Instalator zakończył się z kodem: Some(1603)"
    );
    assert_eq!(
        s.log.last().unwrap(),
        "Instalator zakończony z kodem: Some(1603)"
    );
    s.note_mariadb_exit(None, true);
    assert!(s.status.ends_with(" Instalacja zakończona."));
}

#[test]
fn frontend_launch_warns_and_stays() {
    let mut s = InstallerApp::new();
    s.choose_backend(BackendOption::Remote);
    s.next_from_welcome();
    s.next_from_remote();
    assert_eq!(s.step, 5);
    s.apply_frontend_launch(&FrontendLaunch::Launched);
    assert_eq!(s.step, 5);
    assert!(s.status.starts_with("Instalator frontendu został uruchomiony."));
    assert_eq!(s.log.last().unwrap(), "Frontend installer launched.");
}

#[test]
fn java_install_failure_paths() {
    let mut s = InstallerApp::new();
    s.choose_backend(BackendOption::Local);
    s.next_from_welcome();
    s.next_from_db_mode();
    s.finish_create_database(Ok(()));
    assert_eq!(s.step, 3);
    s.apply_java_step(&JavaProbe::ResourceError(String::from("brak pliku")));
    assert_eq!(s.step, 3);
    assert!(!s.java_installed);
    assert_eq!(
        s.status,
        "Trwa instalacja OpenJDK 21... Nie znaleziono pliku instalatora: brak pliku"
    );
    s.apply_java_step(&JavaProbe::Installed {
        redetect: Some((String::from("C:\\jdk"), HomeUpdate::Done)),
    });
    assert_eq!(s.step, 4);
    assert!(s.java_installed);
    assert!(s.status.contains("Java została poprawnie zainstalowana"));
    assert!(s.status.ends_with("\nJAVA_HOME ustawione."));
}

#[test]
fn create_database_failure_stays() {
    let mut s = InstallerApp::new();
    s.choose_backend(BackendOption::Local);
    s.next_from_welcome();
    s.next_from_db_mode();
    s.finish_create_database(Err(String::from("odmowa")));
    assert_eq!(s.step, 2);
    assert_eq!(s.status, "Błąd tworzenia bazy danych: odmowa");
    assert_eq!(s.log.last().unwrap(), &s.status);
}

#[test]
fn audit_line_format() {
    assert_eq!(
        format_log_entry("2024-01-16 12:00:00", "Backend copied successfully."),
        "[2024-01-16 12:00:00] Backend copied successfully.\n"
    );
}
