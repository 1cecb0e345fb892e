//! The wizard state machine: the session a single installer run
//! owns, the branching step graph, the guards on every transition,
//! and the exact operator-facing status and audit text each step
//! produces.  The driver around the library performs the blocking
//! operating-system work and hands every outcome back as plain
//! values; each decision about what those outcomes mean is made
//! here.

use vstd::prelude::*;
use crate::text::{spec_trim, trim, dec_int, i32_string, lit, join2, join3, join4};
use crate::db::{is_db_ident, valid_db_name, spec_create_sql, create_database_sql};
use crate::health::health_url;

verus! {

/// Where the backend will live: the operator has not chosen yet,
/// it is installed on this host, or a remote address is recorded.
#[derive(Clone, Copy, Debug, PartialEq, Eq, Structural)]
pub enum BackendOption {
    Undecided,
    Local,
    Remote,
}

/// The steps a session may stand at.
pub open spec fn step_ok(n: int) -> bool {
    0 <= n <= 7 || n == 10
}

/// The session of one installer run.
pub struct InstallerApp {
    pub step: u8,
    pub backend_choice: BackendOption,
    pub use_existing_db: bool,
    pub external_api_url: String,
    pub external_api_port: String,
    pub db_host: String,
    pub db_name: String,
    pub db_user: String,
    pub db_pass: String,
    pub java_installed: bool,
    pub backend_installed: bool,
    pub status: String,
    pub log: Vec<String>,
}

impl InstallerApp {
    /// The session invariant: the step names a node of the graph,
    /// the database steps are reached only on the local path, and
    /// the remote address step only on the remote path.
    pub open spec fn inv(&self) -> bool {
        &&& step_ok(self.step as int)
        &&& (self.step == 1 || self.step == 2) ==> self.backend_choice == BackendOption::Local
        &&& self.step == 10 ==> self.backend_choice == BackendOption::Remote
    }

    /// The audit log as text.
    pub open spec fn audit(&self) -> Seq<Seq<char>> {
        self.log.deep_view()
    }

    /// A fresh session: the opening step, nothing chosen, every
    /// field empty, nothing logged.
    pub fn new() -> (s: Self)
        ensures
            s.inv(),
            s.step == 0,
            s.backend_choice == BackendOption::Undecided,
            !s.use_existing_db,
            !s.java_installed,
            !s.backend_installed,
            s.external_api_url@ == Seq::<char>::empty(),
            s.external_api_port@ == Seq::<char>::empty(),
            s.db_host@ == Seq::<char>::empty(),
            s.db_name@ == Seq::<char>::empty(),
            s.db_user@ == Seq::<char>::empty(),
            s.db_pass@ == Seq::<char>::empty(),
            s.status@ == Seq::<char>::empty(),
            s.audit() == Seq::<Seq<char>>::empty(),
    {
        let s = InstallerApp {
            step: 0,
            backend_choice: BackendOption::Undecided,
            use_existing_db: false,
            external_api_url: String::new(),
            external_api_port: String::new(),
            db_host: String::new(),
            db_name: String::new(),
            db_user: String::new(),
            db_pass: String::new(),
            java_installed: false,
            backend_installed: false,
            status: String::new(),
            log: Vec::new(),
        };
        proof {
            assert(s.audit() =~= Seq::<Seq<char>>::empty());
        }
        s
    }

    /// Appends one message to the audit log.
    fn note(&mut self, msg: String)
        ensures
            *final(self) == (InstallerApp { log: final(self).log, ..*old(self) }),
            final(self).audit() == old(self).audit().push(msg@),
    {
        self.log.push(msg);
        proof {
            assert(self.audit() =~= old(self).audit().push(msg@));
        }
    }

    /// Returns to the opening step from the two steps that offer a
    /// way back; anywhere else the session is left as it is.
    pub fn back(&mut self)
        requires
            old(self).inv(),
        ensures
            final(self).inv(),
            *final(self) == (InstallerApp { step: final(self).step, ..*old(self) }),
            (old(self).step == 1 || old(self).step == 10) ==> final(self).step == 0,
            !(old(self).step == 1 || old(self).step == 10) ==> final(self).step == old(self).step,
    {
        if self.step == 1 || self.step == 10 {
            self.step = 0;
        }
    }

    /// Records the operator's backend choice at the opening step.
    pub fn choose_backend(&mut self, choice: BackendOption)
        requires
            old(self).inv(),
            old(self).step == 0,
        ensures
            final(self).inv(),
            *final(self) == (InstallerApp { backend_choice: choice, ..*old(self) }),
    {
        self.backend_choice = choice;
    }

    /// Leaves the opening step: to the database question when the
    /// backend is local, to the remote address step when it is
    /// remote, and nowhere while nothing is chosen.
    pub fn next_from_welcome(&mut self)
        requires
            old(self).inv(),
            old(self).step == 0,
        ensures
            final(self).inv(),
            *final(self) == (InstallerApp { step: final(self).step, status: final(self).status, ..*old(self) }),
            old(self).backend_choice == BackendOption::Local ==> final(self).step == 1 && final(self).status
                == old(self).status,
            old(self).backend_choice == BackendOption::Remote ==> final(self).step == 10 && final(self).status
                == old(self).status,
            old(self).backend_choice == BackendOption::Undecided ==> final(self).step == 0
                && final(self).status@ == "Wybierz jedną z opcji."@,
    {
        match self.backend_choice {
            BackendOption::Local => {
                self.step = 1;
            },
            BackendOption::Remote => {
                self.step = 10;
            },
            BackendOption::Undecided => {
                self.status = lit("Wybierz jedną z opcji.");
            },
        }
    }

    /// A required connection field is blank.
    pub open spec fn fields_missing(&self) -> bool {
        spec_trim(self.db_host@).len() == 0 || spec_trim(self.db_name@).len() == 0 || spec_trim(
            self.db_user@,
        ).len() == 0
    }

    /// Starts a connection test at the database question: the
    /// trimmed credentials to try, or nothing but a prompt when a
    /// required field is blank.  Reachable only on the local path.
    pub fn begin_connection_test(&mut self) -> (r: Option<DbParams>)
        requires
            old(self).inv(),
            old(self).step == 1,
            old(self).use_existing_db,
        ensures
            final(self).inv(),
            *final(self) == (InstallerApp { status: final(self).status, ..*old(self) }),
            old(self).backend_choice == BackendOption::Local,
            old(self).fields_missing() ==> r is None && final(self).status@
                == "Podaj host, nazwę bazy i użytkownika."@,
            !old(self).fields_missing() ==> r is Some && final(self).status == old(self).status,
            r matches Some(p) ==> p.host@ == spec_trim(old(self).db_host@) && p.name@ == spec_trim(
                old(self).db_name@,
            ) && p.user@ == spec_trim(old(self).db_user@) && p.pass@ == spec_trim(
                old(self).db_pass@,
            ),
    {
        let host = trim(self.db_host.as_str());
        let name = trim(self.db_name.as_str());
        let user = trim(self.db_user.as_str());
        if host.as_str().unicode_len() == 0 || name.as_str().unicode_len() == 0
            || user.as_str().unicode_len() == 0 {
            self.status = lit("Podaj host, nazwę bazy i użytkownika.");
            None
        } else {
            let pass = trim(self.db_pass.as_str());
            Some(DbParams { host, name, user, pass })
        }
    }

    /// Records the outcome of a connection test.
    pub fn finish_connection_test(&mut self, outcome: Result<(), String>)
        requires
            old(self).inv(),
            old(self).step == 1,
        ensures
            final(self).inv(),
            *final(self) == (InstallerApp { status: final(self).status, ..*old(self) }),
            outcome is Ok ==> final(self).status@ == "Połączenie z bazą danych jest OK!"@,
            outcome matches Err(e) ==> final(self).status@ == "Błąd połączenia: "@ + e@,
    {
        match outcome {
            Ok(_) => {
                self.status = lit("Połączenie z bazą danych jest OK!");
            },
            Err(e) => {
                self.status = join2("Błąd połączenia: ", e.as_str());
            },
        }
    }

    /// Leaves the database question: to the detection step when an
    /// existing database is used and its fields are filled, to the
    /// creation step when a new one is wanted.
    pub fn next_from_db_mode(&mut self)
        requires
            old(self).inv(),
            old(self).step == 1,
            old(self).use_existing_db ==> !old(self).fields_missing(),
        ensures
            final(self).inv(),
            *final(self) == (InstallerApp { step: final(self).step, ..*old(self) }),
            old(self).use_existing_db ==> final(self).step == 3,
            !old(self).use_existing_db ==> final(self).step == 2,
    {
        if self.use_existing_db {
            self.step = 3;
        } else {
            self.step = 2;
        }
    }

    /// Records that the database server was already present.
    pub fn note_mariadb_present(&mut self)
        requires
            old(self).inv(),
            old(self).step == 2,
        ensures
            final(self).inv(),
            *final(self) == (InstallerApp { status: final(self).status, log: final(self).log, ..*old(self) }),
            final(self).status@ == "MariaDB jest już zainstalowane."@,
            final(self).audit() == old(self).audit().push("MariaDB already installed."@),
    {
        self.status = lit("MariaDB jest już zainstalowane.");
        self.note(lit("MariaDB already installed."));
    }

    /// Records that the database server's installer is being
    /// launched.
    pub fn begin_mariadb_install(&mut self)
        requires
            old(self).inv(),
            old(self).step == 2,
        ensures
            final(self).inv(),
            *final(self) == (InstallerApp { status: final(self).status, log: final(self).log, ..*old(self) }),
            final(self).status@ == "Trwa instalacja MariaDB..."@,
            final(self).audit() == old(self).audit().push("Launching MariaDB installer..."@),
    {
        self.status = lit("Trwa instalacja MariaDB...");
        self.note(lit("Launching MariaDB installer..."));
    }

    /// Records that the scratch directory could not be created for
    /// the database server's installer; the step is not left.
    pub fn note_mariadb_dir_error(&mut self, e: &str)
        requires
            old(self).inv(),
            old(self).step == 2,
        ensures
            final(self).inv(),
            *final(self) == (InstallerApp { status: final(self).status, log: final(self).log, ..*old(self) }),
            final(self).status@ == "Nie udało się utworzyć katalogu tymczasowego: "@ + e@,
            final(self).audit() == old(self).audit().push(final(self).status@),
    {
        self.status = join2("Nie udało się utworzyć katalogu tymczasowego: ", e);
        let m = lit(self.status.as_str());
        self.note(m);
    }

    /// Records that the embedded database installer is missing; the
    /// step is not left.
    pub fn note_mariadb_resource_error(&mut self, e: &str)
        requires
            old(self).inv(),
            old(self).step == 2,
        ensures
            final(self).inv(),
            *final(self) == (InstallerApp { status: final(self).status, log: final(self).log, ..*old(self) }),
            final(self).status@ == "Nie znaleziono pliku instalatora MariaDB: "@ + e@,
            final(self).audit() == old(self).audit().push(final(self).status@),
    {
        self.status = join2("Nie znaleziono pliku instalatora MariaDB: ", e);
        let m = lit(self.status.as_str());
        self.note(m);
    }

    /// Records how the database server's installer exited,
    /// appending to the running status.
    pub fn note_mariadb_exit(&mut self, code: Option<i32>, success: bool)
        requires
            old(self).inv(),
            old(self).step == 2,
        ensures
            final(self).inv(),
            *final(self) == (InstallerApp { status: final(self).status, log: final(self).log, ..*old(self) }),
            success ==> final(self).status@ == old(self).status@ + " Instalacja zakończona."@
                && final(self).audit() == old(self).audit().push(
                "MariaDB installer zakończony poprawnie."@,
            ),
            !success ==> final(self).status@ == old(self).status@ + " Instalator zakończył się z kodem: "@
                + dbg_code(code) && final(self).audit() == old(self).audit().push(
                "Instalator zakończony z kodem: "@ + dbg_code(code),
            ),
    {
        if success {
            let s = join2(self.status.as_str(), " Instalacja zakończona.");
            self.status = s;
            self.note(lit("MariaDB installer zakończony poprawnie."));
        } else {
            let rendered = dbg_code_x(code);
            let s = join3(
                self.status.as_str(),
                " Instalator zakończył się z kodem: ",
                rendered.as_str(),
            );
            self.status = s;
            let m = join2("Instalator zakończony z kodem: ", rendered.as_str());
            self.note(m);
        }
    }

    /// Records that the database server's installer could not be
    /// started, appending to the running status; the step is not
    /// left.
    pub fn note_mariadb_spawn_error(&mut self, e: &str)
        requires
            old(self).inv(),
            old(self).step == 2,
        ensures
            final(self).inv(),
            *final(self) == (InstallerApp { status: final(self).status, log: final(self).log, ..*old(self) }),
            final(self).status@ == old(self).status@ + " Błąd uruchamiania instalatora: "@ + e@,
            final(self).audit() == old(self).audit().push(final(self).status@),
    {
        let s = join3(self.status.as_str(), " Błąd uruchamiania instalatora: ", e);
        self.status = s;
        let m = lit(self.status.as_str());
        self.note(m);
    }

    /// Forces the fixed credentials of a freshly created local
    /// database: the server on this host, the administrative user,
    /// and a cleared password.  Note that the clearing happens
    /// before the creation request is built, so the request carries
    /// an empty root password: the freshly installed server is
    /// expected to leave the administrative account without one.
    pub fn prepare_db_defaults(&mut self)
        requires
            old(self).inv(),
            old(self).step == 2,
        ensures
            final(self).inv(),
            *final(self) == (InstallerApp {
                db_host: final(self).db_host,
                db_user: final(self).db_user,
                db_pass: final(self).db_pass,
                ..*old(self)
            }),
            final(self).db_host@ == "localhost"@,
            final(self).db_user@ == "root"@,
            final(self).db_pass@ == Seq::<char>::empty(),
    {
        self.db_host = lit("localhost");
        self.db_user = lit("root");
        self.db_pass = String::new();
    }

    /// Starts the creation of the database: the request the driver
    /// is to send, or nothing when the typed name is not a plain
    /// identifier — nothing reaches the server for an invalid or
    /// empty name.  Reachable only on the local path.
    pub fn begin_create_database(&self) -> (r: Option<CreateDbRequest>)
        requires
            self.inv(),
            self.step == 2,
        ensures
            self.backend_choice == BackendOption::Local,
            r is Some <==> is_db_ident(self.db_name@),
            r matches Some(q) ==> q.host@ == "localhost"@ && q.root_pass@ == self.db_pass@
                && q.name@ == self.db_name@ && q.sql@ == spec_create_sql(self.db_name@),
    {
        if valid_db_name(self.db_name.as_str()) {
            Some(
                CreateDbRequest {
                    host: lit("localhost"),
                    root_pass: lit(self.db_pass.as_str()),
                    name: lit(self.db_name.as_str()),
                    sql: create_database_sql(self.db_name.as_str()),
                },
            )
        } else {
            None
        }
    }

    /// Records the outcome of the creation: the session moves to
    /// the detection step exactly when the statement succeeded.
    pub fn finish_create_database(&mut self, outcome: Result<(), String>)
        requires
            old(self).inv(),
            old(self).step == 2,
        ensures
            final(self).inv(),
            *final(self) == (InstallerApp { step: final(self).step, status: final(self).status, log: final(self).log, ..*old(
                self,
            ) }),
            outcome is Ok ==> final(self).step == 3 && final(self).status@ == "Baza danych została utworzona."@
                && final(self).audit() == old(self).audit().push("Baza danych utworzona poprawnie."@),
            outcome matches Err(e) ==> final(self).step == 2 && final(self).status@
                == "Błąd tworzenia bazy danych: "@ + e@ && final(self).audit() == old(self).audit().push(
                final(self).status@,
            ),
    {
        match outcome {
            Ok(_) => {
                self.status = lit("Baza danych została utworzona.");
                self.note(lit("Baza danych utworzona poprawnie."));
                self.step = 3;
            },
            Err(e) => {
                self.status = join2("Błąd tworzenia bazy danych: ", e.as_str());
                let m = lit(self.status.as_str());
                self.note(m);
            },
        }
    }

    /// Applies one pass of the runtime detection step: the probe's
    /// outcome decides the status, the audit entries, the detection
    /// flag, and whether the session moves on — it stays only when
    /// the scratch directory or the embedded installer was missing.
    pub fn apply_java_step(&mut self, probe: &JavaProbe)
        requires
            old(self).inv(),
            old(self).step == 3,
        ensures
            final(self).inv(),
            *final(self) == (InstallerApp {
                step: final(self).step,
                java_installed: final(self).java_installed,
                status: final(self).status,
                log: final(self).log,
                ..*old(self)
            }),
            java_advances(probe@) ==> final(self).step == 4,
            !java_advances(probe@) ==> final(self).step == 3,
            final(self).java_installed == java_detected(probe@),
            final(self).status@ == java_status(probe@),
            final(self).audit() == old(self).audit() + java_log(probe@),
    {
        match probe {
            JavaProbe::Found { home, update } => {
                self.status = lit("Java 21+ została wykryta.");
                self.note(lit("Java >= 21 detected via PATH"));
                match update {
                    HomeUpdate::Skipped => {
                        let s = join2(self.status.as_str(), "\nJAVA_HOME już ustawione.");
                        self.status = s;
                    },
                    HomeUpdate::Done => {
                        let s = join2(self.status.as_str(), "\nUstawiono JAVA_HOME");
                        self.status = s;
                        let m = join2("JAVA_HOME ustawione na: ", home.as_str());
                        self.note(m);
                    },
                    HomeUpdate::Failed(e) => {
                        let s = join2(self.status.as_str(), "\nNie udało się ustawić JAVA_HOME: ");
                        let s2 = join2(s.as_str(), e.as_str());
                        self.status = s2;
                        let m = join2("Błąd JAVA_HOME: ", e.as_str());
                        self.note(m);
                    },
                }
                self.java_installed = true;
                self.step = 4;
            },
            JavaProbe::DirError(e) => {
                self.status = lit("Trwa instalacja OpenJDK 21...");
                self.note(lit("Launching OpenJDK installer..."));
                let s = join3(
                    self.status.as_str(),
                    " Nie udało się utworzyć katalogu tymczasowego: ",
                    e.as_str(),
                );
                self.status = s;
                let m = lit(self.status.as_str());
                self.note(m);
                self.java_installed = false;
            },
            JavaProbe::ResourceError(e) => {
                self.status = lit("Trwa instalacja OpenJDK 21...");
                self.note(lit("Launching OpenJDK installer..."));
                let s = join3(
                    self.status.as_str(),
                    " Nie znaleziono pliku instalatora: ",
                    e.as_str(),
                );
                self.status = s;
                let m = lit(self.status.as_str());
                self.note(m);
                self.java_installed = false;
            },
            JavaProbe::SpawnError(e) => {
                self.status = lit("Trwa instalacja OpenJDK 21...");
                self.note(lit("Launching OpenJDK installer..."));
                let s = join3(
                    self.status.as_str(),
                    " Błąd uruchomienia instalatora: ",
                    e.as_str(),
                );
                self.status = s;
                let m = join2("Błąd uruchamiania msiexec: ", e.as_str());
                self.note(m);
                self.java_installed = false;
                self.step = 4;
            },
            JavaProbe::ExitFailure { code } => {
                self.status = lit("Trwa instalacja OpenJDK 21...");
                self.note(lit("Launching OpenJDK installer..."));
                let rendered = dbg_code_x(*code);
                let s = join3(
                    self.status.as_str(),
                    " Instalator zakończył się, kod: ",
                    rendered.as_str(),
                );
                self.status = s;
                let m = join2("Installer zakończony z kodem: ", rendered.as_str());
                self.note(m);
                self.java_installed = false;
                self.step = 4;
            },
            JavaProbe::Installed { redetect } => {
                self.status = lit("Trwa instalacja OpenJDK 21...");
                self.note(lit("Launching OpenJDK installer..."));
                let s = join2(self.status.as_str(), " Instalacja zakończona. Sprawdzam ponownie...");
                self.status = s;
                self.note(lit("OpenJDK installer zakończony poprawnie."));
                match redetect {
                    Some((_home, update)) => {
                        let s2 = join2(
                            self.status.as_str(),
                            " Java została poprawnie zainstalowana 🎉",
                        );
                        self.status = s2;
                        match update {
                            HomeUpdate::Done => {
                                let s3 = join2(self.status.as_str(), "\nJAVA_HOME ustawione.");
                                self.status = s3;
                            },
                            HomeUpdate::Failed(e) => {
                                let s3 = join3(
                                    self.status.as_str(),
                                    "\nBłąd JAVA_HOME: ",
                                    e.as_str(),
                                );
                                self.status = s3;
                            },
                            HomeUpdate::Skipped => {
                                let s3 = join2(
                                    self.status.as_str(),
                                    "\nJAVA_HOME już ustawione.",
                                );
                                self.status = s3;
                            },
                        }
                        self.java_installed = true;
                    },
                    None => {
                        let s2 = join2(self.status.as_str(), "Java nadal niewykryta.");
                        self.status = s2;
                        self.note(lit("Java nadal niewykryta po instalacji."));
                        self.java_installed = false;
                    },
                }
                self.step = 4;
            },
        }
        proof {
            assert(self.audit() =~= old(self).audit() + java_log(probe@));
        }
    }

    /// Applies the backend materialization step: the session moves
    /// on exactly when the artifact was laid down.
    pub fn apply_backend_install(&mut self, outcome: &BackendInstall)
        requires
            old(self).inv(),
            old(self).step == 4,
        ensures
            final(self).inv(),
            *final(self) == (InstallerApp {
                step: final(self).step,
                backend_installed: final(self).backend_installed,
                status: final(self).status,
                log: final(self).log,
                ..*old(self)
            }),
            outcome is Installed ==> final(self).step == 5 && final(self).backend_installed && final(self).status@
                == "Kopiowanie backendu do: C:/Hotel Task Manager Environment/backend/backend.jar"@
                && final(self).audit() == old(self).audit().push("Instalowanie backendu..."@).push(
                "Backend copied successfully."@,
            ),
            outcome matches BackendInstall::DirError(e) ==> final(self).step == 4
                && final(self).backend_installed == old(self).backend_installed && final(self).status@
                == "Nie udało się utworzyć katalogu backendu: "@ + e@ && final(self).audit() == old(
                self,
            ).audit().push("Instalowanie backendu..."@).push(final(self).status@),
            outcome matches BackendInstall::CopyError(e) ==> final(self).step == 4
                && final(self).backend_installed == old(self).backend_installed && final(self).status@
                == "Błąd kopiowania backendu: "@ + e@ && final(self).audit() == old(self).audit().push(
                "Instalowanie backendu..."@,
            ).push(final(self).status@),
    {
        self.note(lit("Instalowanie backendu..."));
        match outcome {
            BackendInstall::DirError(e) => {
                self.status = join2("Nie udało się utworzyć katalogu backendu: ", e.as_str());
                let m = lit(self.status.as_str());
                self.note(m);
            },
            BackendInstall::CopyError(e) => {
                self.status = join2("Błąd kopiowania backendu: ", e.as_str());
                let m = lit(self.status.as_str());
                self.note(m);
            },
            BackendInstall::Installed => {
                self.backend_installed = true;
                self.status = lit(
                    "Kopiowanie backendu do: C:/Hotel Task Manager Environment/backend/backend.jar",
                );
                self.note(lit("Backend copied successfully."));
                self.step = 5;
            },
        }
    }

    /// The operator says the frontend is already installed: on to
    /// the configuration step.
    pub fn frontend_already_installed(&mut self)
        requires
            old(self).inv(),
            old(self).step == 5,
        ensures
            final(self).inv(),
            *final(self) == (InstallerApp { step: final(self).step, ..*old(self) }),
            final(self).step == 6,
    {
        self.step = 6;
    }

    /// Records the launch of the frontend installer, or why it
    /// could not be launched; the session stays at this step in
    /// every case, so the operator finishes the installer first.
    pub fn apply_frontend_launch(&mut self, outcome: &FrontendLaunch)
        requires
            old(self).inv(),
            old(self).step == 5,
        ensures
            final(self).inv(),
            *final(self) == (InstallerApp { status: final(self).status, log: final(self).log, ..*old(self) }),
            outcome is Launched ==> final(self).status@ == frontend_warning() && final(self).audit() == old(
                self,
            ).audit().push("Frontend installer launched."@),
            outcome matches FrontendLaunch::DirError(e) ==> final(self).status@
                == "Błąd tworzenia katalogu tymczasowego: "@ + e@ && final(self).audit() == old(
                self,
            ).audit().push(final(self).status@),
            outcome matches FrontendLaunch::ResourceError(e) ==> final(self).status@
                == "Nie znaleziono zasobu frontend.exe: "@ + e@ && final(self).audit() == old(
                self,
            ).audit().push(final(self).status@),
            outcome matches FrontendLaunch::SpawnError(e) ==> final(self).status@
                == "Błąd uruchamiania instalatora frontendu: "@ + e@ && final(self).audit() == old(
                self,
            ).audit().push(final(self).status@),
    {
        match outcome {
            FrontendLaunch::DirError(e) => {
                self.status = join2("Błąd tworzenia katalogu tymczasowego: ", e.as_str());
                let m = lit(self.status.as_str());
                self.note(m);
            },
            FrontendLaunch::ResourceError(e) => {
                self.status = join2("Nie znaleziono zasobu frontend.exe: ", e.as_str());
                let m = lit(self.status.as_str());
                self.note(m);
            },
            FrontendLaunch::SpawnError(e) => {
                self.status = join2("Błąd uruchamiania instalatora frontendu: ", e.as_str());
                let m = lit(self.status.as_str());
                self.note(m);
            },
            FrontendLaunch::Launched => {
                self.status = lit(
                    "Instalator frontendu został uruchomiony.\n\nNie kontynuuj instalacji, dopóki nie zakończysz instalacji frontendu.\nW przeciwnym razie konfiguracja nie powiedzie się.",
                );
                self.note(lit("Frontend installer launched."));
            },
        }
    }

    /// The values the configuration step writes: on the local path
    /// the fixed local address and artifact path with the trimmed
    /// database credentials, otherwise the trimmed remote address
    /// with no database fields at all.
    pub fn config_request(&self) -> (r: ConfigRequest)
        requires
            self.inv(),
            self.step == 6,
        ensures
            self.backend_choice == BackendOption::Local ==> r.api_host@ == "http://localhost"@
                && r.api_port@ == "8080"@ && r.jar_path@
                == "C:/Hotel Task Manager Environment/backend/backend.jar"@
                && crate::config::view_opt(r.db_host) == Some(spec_trim(self.db_host@))
                && crate::config::view_opt(r.db_name) == Some(spec_trim(self.db_name@))
                && crate::config::view_opt(r.db_user) == Some(spec_trim(self.db_user@))
                && crate::config::view_opt(r.db_pass) == Some(spec_trim(self.db_pass@)),
            self.backend_choice != BackendOption::Local ==> r.api_host@ == spec_trim(
                self.external_api_url@,
            ) && r.api_port@ == spec_trim(self.external_api_port@) && r.jar_path@
                == Seq::<char>::empty() && r.db_host is None && r.db_name is None && r.db_user
                is None && r.db_pass is None,
    {
        if self.backend_choice == BackendOption::Local {
            ConfigRequest {
                api_host: lit("http://localhost"),
                api_port: lit("8080"),
                jar_path: lit("C:/Hotel Task Manager Environment/backend/backend.jar"),
                db_host: Some(trim(self.db_host.as_str())),
                db_name: Some(trim(self.db_name.as_str())),
                db_user: Some(trim(self.db_user.as_str())),
                db_pass: Some(trim(self.db_pass.as_str())),
            }
        } else {
            ConfigRequest {
                api_host: trim(self.external_api_url.as_str()),
                api_port: trim(self.external_api_port.as_str()),
                jar_path: String::new(),
                db_host: None,
                db_name: None,
                db_user: None,
                db_pass: None,
            }
        }
    }

    /// Records the outcome of the configuration write: the session
    /// reaches the closing step exactly when the write succeeded.
    pub fn apply_config_result(&mut self, outcome: Result<(), String>)
        requires
            old(self).inv(),
            old(self).step == 6,
        ensures
            final(self).inv(),
            *final(self) == (InstallerApp { step: final(self).step, status: final(self).status, log: final(self).log, ..*old(
                self,
            ) }),
            outcome is Ok ==> final(self).step == 7 && final(self).status@
                == "Zaktualizowano konfigurację frontendu."@ && final(self).audit() == old(
                self,
            ).audit().push(final(self).status@),
            outcome matches Err(e) ==> final(self).step == 6 && final(self).status@
                == "Błąd aktualizacji config frontendu: "@ + e@ && final(self).audit() == old(
                self,
            ).audit().push(final(self).status@),
    {
        match outcome {
            Ok(_) => {
                self.status = lit("Zaktualizowano konfigurację frontendu.");
                let m = lit(self.status.as_str());
                self.note(m);
                self.step = 7;
            },
            Err(e) => {
                self.status = join2("Błąd aktualizacji config frontendu: ", e.as_str());
                let m = lit(self.status.as_str());
                self.note(m);
            },
        }
    }

    /// The URL the remote health probe is to fetch.
    pub fn health_request(&self) -> (r: String)
        requires
            self.inv(),
            self.step == 10,
        ensures
            r@ == spec_trim(self.external_api_url@) + ":"@ + spec_trim(self.external_api_port@)
                + "/actuator/health"@,
    {
        let url = trim(self.external_api_url.as_str());
        let port = trim(self.external_api_port.as_str());
        health_url(url.as_str(), port.as_str())
    }

    /// Records the classified outcome of the health probe.
    pub fn apply_health_result(&mut self, outcome: Result<String, String>)
        requires
            old(self).inv(),
            old(self).step == 10,
        ensures
            final(self).inv(),
            *final(self) == (InstallerApp { status: final(self).status, log: final(self).log, ..*old(self) }),
            outcome matches Ok(m) ==> final(self).status@ == m@ && final(self).audit() == old(
                self,
            ).audit().push("Połączenie OK: "@ + m@),
            outcome matches Err(e) ==> final(self).status@ == "Błąd: "@ + e@ && final(self).audit() == old(
                self,
            ).audit().push("Błąd połączenia: "@ + e@),
    {
        match outcome {
            Ok(m) => {
                self.status = lit(m.as_str());
                let entry = join2("Połączenie OK: ", m.as_str());
                self.note(entry);
            },
            Err(e) => {
                self.status = join2("Błąd: ", e.as_str());
                let entry = join2("Błąd połączenia: ", e.as_str());
                self.note(entry);
            },
        }
    }

    /// Leaves the remote address step for the frontend question.
    pub fn next_from_remote(&mut self)
        requires
            old(self).inv(),
            old(self).step == 10,
        ensures
            final(self).inv(),
            *final(self) == (InstallerApp { step: final(self).step, ..*old(self) }),
            final(self).step == 5,
    {
        self.step = 5;
    }
}

/// Trimmed credentials for a connection test.
pub struct DbParams {
    pub host: String,
    pub name: String,
    pub user: String,
    pub pass: String,
}

/// A request to create the database: the fixed host and
/// administrative account, the validated name, and the exact
/// statement to send.
pub struct CreateDbRequest {
    pub host: String,
    pub root_pass: String,
    pub name: String,
    pub sql: String,
}

/// The values handed to the configuration writer.
pub struct ConfigRequest {
    pub api_host: String,
    pub api_port: String,
    pub jar_path: String,
    pub db_host: Option<String>,
    pub db_name: Option<String>,
    pub db_user: Option<String>,
    pub db_pass: Option<String>,
}

/// Whether the system-wide `JAVA_HOME` was written after a
/// detection: left alone, written, or refused by the system.
pub enum HomeUpdate {
    Skipped,
    Done,
    Failed(String),
}

/// Ghost image of [`HomeUpdate`].
pub ghost enum HomeUpdateV {
    Skipped,
    Done,
    Failed(Seq<char>),
}

impl View for HomeUpdate {
    type V = HomeUpdateV;

    open spec fn view(&self) -> HomeUpdateV {
        match self {
            HomeUpdate::Skipped => HomeUpdateV::Skipped,
            HomeUpdate::Done => HomeUpdateV::Done,
            HomeUpdate::Failed(e) => HomeUpdateV::Failed(e@),
        }
    }
}

/// Everything one pass of the runtime detection step can come back
/// with, as plain values: the runtime was found (and the
/// environment variable possibly written); the scratch directory
/// could not be made; the embedded installer was missing; the
/// installer could not be spawned; it exited without success; or it
/// ran, after which detection was repeated.
pub enum JavaProbe {
    Found { home: String, update: HomeUpdate },
    DirError(String),
    ResourceError(String),
    SpawnError(String),
    ExitFailure { code: Option<i32> },
    Installed { redetect: Option<(String, HomeUpdate)> },
}

/// Ghost image of [`JavaProbe`].
pub ghost enum JavaProbeV {
    Found { home: Seq<char>, update: HomeUpdateV },
    DirError(Seq<char>),
    ResourceError(Seq<char>),
    SpawnError(Seq<char>),
    ExitFailure { code: Option<i32> },
    Installed { redetect: Option<(Seq<char>, HomeUpdateV)> },
}

impl View for JavaProbe {
    type V = JavaProbeV;

    open spec fn view(&self) -> JavaProbeV {
        match self {
            JavaProbe::Found { home, update } => JavaProbeV::Found {
                home: home@,
                update: update@,
            },
            JavaProbe::DirError(e) => JavaProbeV::DirError(e@),
            JavaProbe::ResourceError(e) => JavaProbeV::ResourceError(e@),
            JavaProbe::SpawnError(e) => JavaProbeV::SpawnError(e@),
            JavaProbe::ExitFailure { code } => JavaProbeV::ExitFailure { code: *code },
            JavaProbe::Installed { redetect } => JavaProbeV::Installed {
                redetect: match redetect {
                    Some((h, u)) => Some((h@, u@)),
                    None => None,
                },
            },
        }
    }
}

/// The outcome of materializing the backend artifact.
pub enum BackendInstall {
    DirError(String),
    CopyError(String),
    Installed,
}

/// The outcome of launching the frontend installer.
pub enum FrontendLaunch {
    DirError(String),
    ResourceError(String),
    SpawnError(String),
    Launched,
}

/// An exit code as the debug formatter of an optional integer
/// renders it.
pub open spec fn dbg_code(c: Option<i32>) -> Seq<char> {
    match c {
        Some(n) => "Some("@ + dec_int(n as int) + ")"@,
        None => "None"@,
    }
}

fn dbg_code_x(c: Option<i32>) -> (r: String)
    ensures
        r@ == dbg_code(c),
{
    match c {
        Some(n) => {
            let d = i32_string(n);
            join3("Some(", d.as_str(), ")")
        },
        None => lit("None"),
    }
}

/// The warning shown while the frontend installer runs.
pub open spec fn frontend_warning() -> Seq<char> {
    "Instalator frontendu został uruchomiony.\n\nNie kontynuuj instalacji, dopóki nie zakończysz instalacji frontendu.\nW przeciwnym razie konfiguracja nie powiedzie się."@
}

/// The status suffix after a detection, for each way the
/// environment variable went.
pub open spec fn home_suffix(u: HomeUpdateV) -> Seq<char> {
    match u {
        HomeUpdateV::Skipped => "\nJAVA_HOME już ustawione."@,
        HomeUpdateV::Done => "\nUstawiono JAVA_HOME"@,
        HomeUpdateV::Failed(e) => "\nNie udało się ustawić JAVA_HOME: "@ + e,
    }
}

/// The status suffix after a redetection that followed the
/// installer.
pub open spec fn redetect_suffix(u: HomeUpdateV) -> Seq<char> {
    match u {
        HomeUpdateV::Skipped => "\nJAVA_HOME już ustawione."@,
        HomeUpdateV::Done => "\nJAVA_HOME ustawione."@,
        HomeUpdateV::Failed(e) => "\nBłąd JAVA_HOME: "@ + e,
    }
}

/// The status the runtime detection step leaves for each probe
/// outcome.
pub open spec fn java_status(p: JavaProbeV) -> Seq<char> {
    match p {
        JavaProbeV::Found { home, update } => "Java 21+ została wykryta."@ + home_suffix(update),
        JavaProbeV::DirError(e) => "Trwa instalacja OpenJDK 21..."@
            + " Nie udało się utworzyć katalogu tymczasowego: "@ + e,
        JavaProbeV::ResourceError(e) => "Trwa instalacja OpenJDK 21..."@
            + " Nie znaleziono pliku instalatora: "@ + e,
        JavaProbeV::SpawnError(e) => "Trwa instalacja OpenJDK 21..."@
            + " Błąd uruchomienia instalatora: "@ + e,
        JavaProbeV::ExitFailure { code } => "Trwa instalacja OpenJDK 21..."@
            + " Instalator zakończył się, kod: "@ + dbg_code(code),
        JavaProbeV::Installed { redetect } => match redetect {
            Some((home, update)) => "Trwa instalacja OpenJDK 21..."@
                + " Instalacja zakończona. Sprawdzam ponownie..."@
                + " Java została poprawnie zainstalowana 🎉"@ + redetect_suffix(update),
            None => "Trwa instalacja OpenJDK 21..."@
                + " Instalacja zakończona. Sprawdzam ponownie..."@ + "Java nadal niewykryta."@,
        },
    }
}

/// The audit entries the runtime detection step appends for each
/// probe outcome.
pub open spec fn java_log(p: JavaProbeV) -> Seq<Seq<char>> {
    match p {
        JavaProbeV::Found { home, update } => match update {
            HomeUpdateV::Skipped => seq!["Java >= 21 detected via PATH"@],
            HomeUpdateV::Done => seq![
                "Java >= 21 detected via PATH"@,
                "JAVA_HOME ustawione na: "@ + home,
            ],
            HomeUpdateV::Failed(e) => seq![
                "Java >= 21 detected via PATH"@,
                "Błąd JAVA_HOME: "@ + e,
            ],
        },
        JavaProbeV::DirError(e) => seq!["Launching OpenJDK installer..."@, java_status(p)],
        JavaProbeV::ResourceError(e) => seq!["Launching OpenJDK installer..."@, java_status(p)],
        JavaProbeV::SpawnError(e) => seq![
            "Launching OpenJDK installer..."@,
            "Błąd uruchamiania msiexec: "@ + e,
        ],
        JavaProbeV::ExitFailure { code } => seq![
            "Launching OpenJDK installer..."@,
            "Installer zakończony z kodem: "@ + dbg_code(code),
        ],
        JavaProbeV::Installed { redetect } => match redetect {
            Some(_) => seq![
                "Launching OpenJDK installer..."@,
                "OpenJDK installer zakończony poprawnie."@,
            ],
            None => seq![
                "Launching OpenJDK installer..."@,
                "OpenJDK installer zakończony poprawnie."@,
                "Java nadal niewykryta po instalacji."@,
            ],
        },
    }
}

/// The session leaves the detection step for every outcome except
/// a missing scratch directory or a missing embedded installer.
pub open spec fn java_advances(p: JavaProbeV) -> bool {
    !(p is DirError || p is ResourceError)
}

/// The detection flag after the step: the runtime was found, on
/// the first detection or on the one after the installer.
pub open spec fn java_detected(p: JavaProbeV) -> bool {
    match p {
        JavaProbeV::Found { .. } => true,
        JavaProbeV::Installed { redetect } => redetect is Some,
        _ => false,
    }
}

/// One audit line: the bracketed timestamp, the message, a line
/// feed.
pub fn format_log_entry(timestamp: &str, message: &str) -> (r: String)
    ensures
        r@ == "["@ + timestamp@ + "] "@ + message@ + "\n"@,
{
    let a = join4("[", timestamp, "] ", message);
    join2(a.as_str(), "\n")
}

/// Every reachable session stands at a node of the step graph:
/// nothing else is ever set.
pub proof fn lemma_step_in_graph(s: InstallerApp)
    requires
        s.inv(),
    ensures
        s.step == 0 || s.step == 1 || s.step == 2 || s.step == 3 || s.step == 4 || s.step == 5
            || s.step == 6 || s.step == 7 || s.step == 10,
{
}

/// With a remote backend the database steps are unreachable, and
/// with them the only constructors of database requests: no call
/// to the provisioner is ever made on the remote path.
pub proof fn lemma_remote_never_reaches_db_steps(s: InstallerApp)
    requires
        s.inv(),
        s.backend_choice == BackendOption::Remote,
    ensures
        s.step != 1 && s.step != 2,
{
}

} // verus!
