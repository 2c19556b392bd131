//! The settings of the application as they are read from its configuration.

use crate::dbman::{is_word, DatabaseSettings, LogLevel};
use crate::format::{lowercase, to_lowercase};
use crate::weather::WeatherSettings;
use vstd::prelude::*;
use vstd::string::StringExecFns;

verus! {

/// Whether and how the application logs.
#[derive(Clone, Debug)]
pub struct LogSettings {
    pub enabled: bool,
    pub log_level: Option<String>,
    pub log_location: Option<String>,
}

/// All settings of the application.
#[derive(Clone, Debug)]
pub struct AppConfiguration {
    pub weather: WeatherSettings,
    pub database: DatabaseSettings,
    pub logging: LogSettings,
}

/// The level that a lower-cased name stands for; errors only for a name
/// that is none.
pub open spec fn level_named(lowered: Seq<char>) -> LogLevel {
    if lowered == "debug"@ {
        LogLevel::Debug
    } else if lowered == "info"@ {
        LogLevel::Info
    } else if lowered == "error"@ {
        LogLevel::Error
    } else if lowered == "warn"@ {
        LogLevel::Warn
    } else if lowered == "trace"@ {
        LogLevel::Trace
    } else if lowered == "off"@ {
        LogLevel::Off
    } else {
        LogLevel::Error
    }
}

/// The level that a lower-cased name stands for.
pub fn level_of(lowered: &String) -> (level: LogLevel)
    ensures
        level == level_named(lowered@),
{
    if is_word(lowered, "debug") {
        LogLevel::Debug
    } else if is_word(lowered, "info") {
        LogLevel::Info
    } else if is_word(lowered, "error") {
        LogLevel::Error
    } else if is_word(lowered, "warn") {
        LogLevel::Warn
    } else if is_word(lowered, "trace") {
        LogLevel::Trace
    } else if is_word(lowered, "off") {
        LogLevel::Off
    } else {
        LogLevel::Error
    }
}

impl Default for LogSettings {
    fn default() -> (s: LogSettings)
        ensures
            s.enabled,
            s.log_level is Some,
            s.log_level->0@ == "debug"@,
            s.log_location is Some,
            s.log_location->0@ == "./rusty.log"@,
    {
        LogSettings {
            enabled: true,
            log_level: Some(String::from_str("debug")),
            log_location: Some(String::from_str("./rusty.log")),
        }
    }
}

impl LogSettings {
    /// The level to log at: the one that is named, in any letter case, and
    /// errors only where none is named.
    pub fn level(&self) -> (level: LogLevel)
        ensures
            level == match self.log_level {
                Some(name) => level_named(lowercase(name@)),
                None => LogLevel::Error,
            },
    {
        match &self.log_level {
            Some(name) => {
                let lowered = to_lowercase(name.as_str());
                level_of(&lowered)
            },
            None => LogLevel::Error,
        }
    }

    /// The file to log to.
    pub fn location(&self) -> (path: String)
        ensures
            path@ == match self.log_location {
                Some(location) => location@,
                None => "./rusty.log"@,
            },
    {
        match &self.log_location {
            Some(location) => location.clone(),
            None => String::from_str("./rusty.log"),
        }
    }
}

impl Default for WeatherSettings {
    fn default() -> (s: WeatherSettings)
        ensures
            !s.monitor_weather,
            !s.monitor_pollution,
            s.zip_code@ == "N/A"@,
            s.country is None,
            s.units is None,
            s.openweather_apikey is None,
    {
        WeatherSettings {
            monitor_weather: false,
            monitor_pollution: false,
            zip_code: String::from_str("N/A"),
            country: None,
            units: None,
            openweather_apikey: None,
        }
    }
}

impl Default for DatabaseSettings {
    fn default() -> (s: DatabaseSettings)
        ensures
            s.database_type@ == "default"@,
            s.host@ == "127.0.0.1"@,
            s.db_name is None,
            s.db_port is None,
            s.user is None,
            s.passw is None,
            s.schema_path is None,
    {
        DatabaseSettings {
            database_type: String::from_str("default"),
            host: String::from_str("127.0.0.1"),
            db_name: None,
            db_port: None,
            user: None,
            passw: None,
            schema_path: None,
        }
    }
}

impl Default for AppConfiguration {
    fn default() -> (c: AppConfiguration)
        ensures
            !c.weather.monitor_weather,
            !c.weather.monitor_pollution,
            c.database.database_type@ == "default"@,
            c.logging.enabled,
    {
        AppConfiguration {
            weather: WeatherSettings::default(),
            database: DatabaseSettings::default(),
            logging: LogSettings::default(),
        }
    }
}

} // verus!
