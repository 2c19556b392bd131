//! Settings of the database connection and the address that is made of them.

use crate::format::{bool_str, bool_word, decimal, decimal_string};
use vstd::prelude::*;
use vstd::string::StringExecFns;

verus! {

/// How much the database layer logs.
#[derive(Clone, Copy, Debug, PartialEq, Eq, Structural)]
pub enum LogLevel {
    Off,
    Error,
    Warn,
    Info,
    Debug,
    Trace,
}

/// Settings of a database connection.
#[derive(Clone, Debug)]
pub struct DBConfig {
    pub protocol: String,
    pub port: Option<u32>,
    pub dbhost: String,
    pub db_db: Option<String>,
    pub acct: Option<String>,
    pub pass: Option<String>,
    pub con_min: Option<u32>,
    pub con_max: Option<u32>,
    pub timeout_con: Option<u64>,
    pub timeout_acq: Option<u64>,
    pub timeout_idle: Option<u64>,
    pub max_life: Option<u64>,
    pub log: bool,
    pub log_level: LogLevel,
    pub schema_path: Option<String>,
}

/// The database part of the application's settings.
#[derive(Clone, Debug)]
pub struct DatabaseSettings {
    pub database_type: String,
    pub host: String,
    pub db_name: Option<String>,
    pub db_port: Option<u32>,
    pub user: Option<String>,
    pub passw: Option<String>,
    pub schema_path: Option<String>,
}

/// The characters of an optional text.
pub open spec fn text_of(text: Option<String>) -> Option<Seq<char>> {
    match text {
        Some(t) => Some(t@),
        None => None,
    }
}

/// Whether every limit of the pool is unset and logging is on at debug
/// level, as in a configuration that was just made.
pub open spec fn untuned(c: DBConfig) -> bool {
    &&& c.con_min is None
    &&& c.con_max is None
    &&& c.timeout_con is None
    &&& c.timeout_acq is None
    &&& c.timeout_idle is None
    &&& c.max_life is None
    &&& c.log
    &&& c.log_level == LogLevel::Debug
}

/// The words for a log level.
pub open spec fn level_words(level: LogLevel) -> Seq<char> {
    match level {
        LogLevel::Off => "OFF"@,
        LogLevel::Error => "Error only"@,
        LogLevel::Warn => "Warn/Error only"@,
        LogLevel::Info => "Info/Warn/Error"@,
        LogLevel::Debug => "Debug"@,
        LogLevel::Trace => "TRACE"@,
    }
}

/// The account part of an address: name, colon, password and an at sign,
/// or nothing where no account is set.
pub open spec fn account_part(c: DBConfig) -> Seq<char> {
    match (c.acct, c.pass) {
        (Some(acct), Some(pass)) => acct@ + ":"@ + pass@ + "@"@,
        _ => Seq::empty(),
    }
}

/// The port part of an address: a colon and the number.
pub open spec fn port_part(c: DBConfig) -> Seq<char> {
    match c.port {
        Some(port) => ":"@ + decimal(port as nat),
        None => Seq::empty(),
    }
}

/// The database part of an address: a slash and the name.
pub open spec fn database_part(c: DBConfig) -> Seq<char> {
    match c.db_db {
        Some(name) => "/"@ + name@,
        None => Seq::empty(),
    }
}

/// The schema part of an address.
pub open spec fn schema_part(c: DBConfig) -> Seq<char> {
    match c.schema_path {
        Some(schema) => "?currentSchema="@ + schema@,
        None => Seq::empty(),
    }
}

/// The address of the database: protocol, account, host, port, database and
/// schema, each part only where it is set.
pub open spec fn connect_string(c: DBConfig) -> Seq<char> {
    c.protocol@ + account_part(c) + c.dbhost@ + port_part(c) + database_part(c) + schema_part(c)
}

/// What the logging settings read as.
pub open spec fn logging_words(c: DBConfig) -> Seq<char> {
    "Logging enabled: "@ + bool_word(c.log) + " and set to: "@ + level_words(c.log_level)
}

/// A copy of an optional text.
pub fn copy_text(text: &Option<String>) -> (copy: Option<String>)
    ensures
        copy == *text,
{
    match text {
        Some(t) => Some(t.clone()),
        None => None,
    }
}

impl Default for DBConfig {
    /// An in-memory SQLite database with debug logging.
    fn default() -> (c: DBConfig)
        ensures
            c.protocol@ == "sqlite"@,
            c.dbhost@ == "::memory:"@,
            c.port is None,
            c.db_db is None,
            c.acct is None,
            c.pass is None,
            c.schema_path is None,
            untuned(c),
    {
        DBConfig {
            protocol: String::from_str("sqlite"),
            port: None,
            dbhost: String::from_str("::memory:"),
            db_db: None,
            acct: None,
            pass: None,
            con_min: None,
            con_max: None,
            timeout_con: None,
            timeout_acq: None,
            timeout_idle: None,
            max_life: None,
            log: true,
            log_level: LogLevel::Debug,
            schema_path: None,
        }
    }
}

impl DBConfig {
    /// Settings for a PostgreSQL server. The port is 5432 where none is
    /// given.
    pub fn new_postgres(
        dbhost: String,
        user: String,
        pass: String,
        db: String,
        schema_path: Option<String>,
        port: Option<u32>,
    ) -> (c: DBConfig)
        ensures
            c.protocol@ == "postgres://"@,
            c.port == Some(
                match port {
                    Some(p) => p,
                    None => 5432u32,
                },
            ),
            c.dbhost == dbhost,
            c.db_db == Some(db),
            c.acct == Some(user),
            c.pass == Some(pass),
            c.schema_path == schema_path,
            untuned(c),
    {
        let chosen: u32 = match port {
            Some(p) => p,
            None => 5432,
        };
        DBConfig {
            protocol: String::from_str("postgres://"),
            port: Some(chosen),
            dbhost: dbhost,
            db_db: Some(db),
            acct: Some(user),
            pass: Some(pass),
            con_min: None,
            con_max: None,
            timeout_con: None,
            timeout_acq: None,
            timeout_idle: None,
            max_life: None,
            log: true,
            log_level: LogLevel::Debug,
            schema_path: schema_path,
        }
    }

    /// Settings for an SQLite file, which is created where it is missing.
    pub fn new_sqlite(dbpath: String) -> (c: DBConfig)
        ensures
            c.protocol@ == "sqlite://"@,
            c.dbhost@ == dbpath@ + "?mode=rwc"@,
            c.port is None,
            c.db_db is None,
            c.acct is None,
            c.pass is None,
            c.schema_path is None,
            untuned(c),
    {
        let mut new_db: DBConfig = DBConfig::default();
        new_db.protocol = String::from_str("sqlite://");
        let mut host = dbpath;
        host.append("?mode=rwc");
        new_db.dbhost = host;
        new_db
    }

    /// The address to connect to.
    pub fn build_connect_string(&self) -> (address: String)
        requires
            self.acct is Some ==> self.pass is Some,
        ensures
            address@ == connect_string(*self),
    {
        let mut address: String = self.protocol.clone();
        match &self.acct {
            Some(acct) => {
                match &self.pass {
                    Some(pass) => {
                        address.append(acct.as_str());
                        address.append(":");
                        address.append(pass.as_str());
                        address.append("@");
                        assert(address@ =~= self.protocol@ + account_part(*self));
                    },
                    None => {},
                }
            },
            None => {},
        }
        address.append(self.dbhost.as_str());
        match self.port {
            Some(port) => {
                address.append(":");
                let number = decimal_string(port as u64);
                address.append(number.as_str());
                assert(address@ =~= self.protocol@ + account_part(*self) + self.dbhost@ + port_part(
                    *self,
                ));
            },
            None => {
                assert(address@ =~= self.protocol@ + account_part(*self) + self.dbhost@ + port_part(
                    *self,
                ));
            },
        }
        match &self.db_db {
            Some(name) => {
                address.append("/");
                address.append(name.as_str());
                assert(address@ =~= self.protocol@ + account_part(*self) + self.dbhost@ + port_part(
                    *self,
                ) + database_part(*self));
            },
            None => {
                assert(address@ =~= self.protocol@ + account_part(*self) + self.dbhost@ + port_part(
                    *self,
                ) + database_part(*self));
            },
        }
        match &self.schema_path {
            Some(schema) => {
                address.append("?currentSchema=");
                address.append(schema.as_str());
                assert(address@ =~= connect_string(*self));
            },
            None => {
                assert(address@ =~= connect_string(*self));
            },
        }
        address
    }

    /// Whether logging is on, and at which level, in words.
    pub fn check_logging(&self) -> (words: String)
        ensures
            words@ == logging_words(*self),
    {
        let log_level: &str = match self.log_level {
            LogLevel::Off => "OFF",
            LogLevel::Error => "Error only",
            LogLevel::Warn => "Warn/Error only",
            LogLevel::Info => "Info/Warn/Error",
            LogLevel::Debug => "Debug",
            LogLevel::Trace => "TRACE",
        };
        let mut words = String::from_str("Logging enabled: ");
        words.append(bool_str(self.log));
        words.append(" and set to: ");
        words.append(log_level);
        words
    }
}

/// Which database the settings name.
#[derive(Clone, Copy, Debug, PartialEq, Eq, Structural)]
pub enum DatabaseKind {
    Postgres,
    Sqlite,
    Unknown,
}

/// The database that a type name stands for: `postgres` and `postgresql`
/// for PostgreSQL, `sqlite` for SQLite.
pub open spec fn kind_of(name: Seq<char>) -> DatabaseKind {
    if name == "postgres"@ || name == "postgresql"@ {
        DatabaseKind::Postgres
    } else if name == "sqlite"@ {
        DatabaseKind::Sqlite
    } else {
        DatabaseKind::Unknown
    }
}

/// Whether a text is the given word.
pub fn is_word(text: &String, word: &str) -> (same: bool)
    ensures
        same == (text@ == word@),
{
    let other = String::from_str(word);
    *text == other
}

/// The database that a type name stands for.
pub fn database_kind(name: &String) -> (kind: DatabaseKind)
    ensures
        kind == kind_of(name@),
{
    if is_word(name, "postgres") || is_word(name, "postgresql") {
        DatabaseKind::Postgres
    } else if is_word(name, "sqlite") {
        DatabaseKind::Sqlite
    } else {
        DatabaseKind::Unknown
    }
}

/// The connection settings that the application's settings ask for. An
/// unknown type of database gives the default, an in-memory database.
pub fn parse_db(settings: &DatabaseSettings) -> (c: DBConfig)
    requires
        kind_of(settings.database_type@) == DatabaseKind::Postgres ==> settings.user is Some
            && settings.passw is Some,
    ensures
        untuned(c),
        match kind_of(settings.database_type@) {
            DatabaseKind::Postgres => {
                &&& c.protocol@ == "postgres://"@
                &&& c.dbhost == settings.host
                &&& c.acct == settings.user
                &&& c.pass == settings.passw
                &&& text_of(c.db_db) == Some(
                    match settings.db_name {
                        Some(name) => name@,
                        None => "rusty_thermostat"@,
                    },
                )
                &&& c.schema_path == settings.schema_path
                &&& c.port == Some(
                    match settings.db_port {
                        Some(p) => p,
                        None => 5432u32,
                    },
                )
            },
            DatabaseKind::Sqlite => {
                &&& c.protocol@ == "sqlite://"@
                &&& c.dbhost@ == settings.host@ + "?mode=rwc"@
                &&& c.port is None
                &&& c.db_db is None
                &&& c.acct is None
                &&& c.schema_path is None
            },
            DatabaseKind::Unknown => {
                &&& c.protocol@ == "sqlite"@
                &&& c.dbhost@ == "::memory:"@
                &&& c.port is None
                &&& c.db_db is None
                &&& c.acct is None
                &&& c.schema_path is None
            },
        },
{
    match database_kind(&settings.database_type) {
        DatabaseKind::Postgres => {
            let user = match &settings.user {
                Some(user) => user.clone(),
                None => unreached(),
            };
            let pass = match &settings.passw {
                Some(pass) => pass.clone(),
                None => unreached(),
            };
            let name = match &settings.db_name {
                Some(name) => name.clone(),
                None => String::from_str("rusty_thermostat"),
            };
            DBConfig::new_postgres(
                settings.host.clone(),
                user,
                pass,
                name,
                copy_text(&settings.schema_path),
                settings.db_port,
            )
        },
        DatabaseKind::Sqlite => DBConfig::new_sqlite(settings.host.clone()),
        DatabaseKind::Unknown => DBConfig::default(),
    }
}

} // verus!
