//! The section on counters and diagnostics.

use vstd::prelude::*;

use crate::paths::join;
use crate::time::{seconds, Duration};

use super::error::{
    path_error, resolve_config_path, seconds_error, validate_path, validate_seconds, ConfigError,
    ConfigErrorModel,
};

verus! {

pub const MAX_OBSERVABILITY_INTERVAL_SECONDS: u64 = 24 * 60 * 60;

/// How much the gateway reports of itself.
#[derive(Clone, Copy, Debug, PartialEq, Eq, Structural)]
pub enum ObservabilityMode {
    Off,
    Production,
    Diagnostic,
}

#[derive(Clone, Copy, Debug, PartialEq, Eq, Structural)]
pub enum FileObservabilityMode {
    Off,
    Production,
    Diagnostic,
}

pub open spec fn mode_of(mode: FileObservabilityMode) -> ObservabilityMode {
    match mode {
        FileObservabilityMode::Off => ObservabilityMode::Off,
        FileObservabilityMode::Production => ObservabilityMode::Production,
        FileObservabilityMode::Diagnostic => ObservabilityMode::Diagnostic,
    }
}

impl vstd::std_specs::convert::FromSpecImpl<FileObservabilityMode> for ObservabilityMode {
    open spec fn obeys_from_spec() -> bool {
        true
    }

    open spec fn from_spec(mode: FileObservabilityMode) -> ObservabilityMode {
        mode_of(mode)
    }
}

impl From<FileObservabilityMode> for ObservabilityMode {
    fn from(mode: FileObservabilityMode) -> (r: ObservabilityMode) {
        match mode {
            FileObservabilityMode::Off => ObservabilityMode::Off,
            FileObservabilityMode::Production => ObservabilityMode::Production,
            FileObservabilityMode::Diagnostic => ObservabilityMode::Diagnostic,
        }
    }
}

/// The section as a file has it.
pub struct FileObservabilityConfig {
    pub mode: FileObservabilityMode,
    pub summary_interval_seconds: u64,
    pub summary_file: String,
    pub diagnostic_interval_seconds: u64,
    pub diagnostic_file: String,
    pub connection_event_logs_enabled: bool,
}

pub struct FileObservabilityModel {
    pub mode: FileObservabilityMode,
    pub summary_interval_seconds: nat,
    pub summary_file: Seq<char>,
    pub diagnostic_interval_seconds: nat,
    pub diagnostic_file: Seq<char>,
    pub connection_event_logs_enabled: bool,
}

impl View for FileObservabilityConfig {
    type V = FileObservabilityModel;

    open spec fn view(&self) -> FileObservabilityModel {
        FileObservabilityModel {
            mode: self.mode,
            summary_interval_seconds: self.summary_interval_seconds as nat,
            summary_file: self.summary_file@,
            diagnostic_interval_seconds: self.diagnostic_interval_seconds as nat,
            diagnostic_file: self.diagnostic_file@,
            connection_event_logs_enabled: self.connection_event_logs_enabled,
        }
    }
}

/// What is reported, how often, and where to.
pub struct ObservabilityConfig {
    mode: ObservabilityMode,
    summary_interval: Duration,
    summary_file: String,
    diagnostic_interval: Duration,
    diagnostic_file: String,
    connection_event_logs_enabled: bool,
}

pub struct ObservabilityModel {
    pub mode: ObservabilityMode,
    pub summary_interval: nat,
    pub summary_file: Seq<char>,
    pub diagnostic_interval: nat,
    pub diagnostic_file: Seq<char>,
    pub connection_event_logs_enabled: bool,
}

impl View for ObservabilityConfig {
    type V = ObservabilityModel;

    closed spec fn view(&self) -> ObservabilityModel {
        ObservabilityModel {
            mode: self.mode,
            summary_interval: self.summary_interval@,
            summary_file: self.summary_file@,
            diagnostic_interval: self.diagnostic_interval@,
            diagnostic_file: self.diagnostic_file@,
            connection_event_logs_enabled: self.connection_event_logs_enabled,
        }
    }
}

/// The first thing that is wrong with the section, if anything.
pub open spec fn observability_error(file: FileObservabilityModel) -> Option<ConfigErrorModel> {
    let summary_interval = seconds_error(
        "observability.summary_interval_seconds"@,
        file.summary_interval_seconds,
        MAX_OBSERVABILITY_INTERVAL_SECONDS as nat,
    );
    let diagnostic_interval = seconds_error(
        "observability.diagnostic_interval_seconds"@,
        file.diagnostic_interval_seconds,
        MAX_OBSERVABILITY_INTERVAL_SECONDS as nat,
    );
    if summary_interval is Some {
        summary_interval
    } else if diagnostic_interval is Some {
        diagnostic_interval
    } else if path_error("observability.summary_file"@, file.summary_file) is Some {
        path_error("observability.summary_file"@, file.summary_file)
    } else {
        path_error("observability.diagnostic_file"@, file.diagnostic_file)
    }
}

/// What the section comes to in a file that stands in `directory`.
pub open spec fn observability_result(file: FileObservabilityModel, directory: Seq<char>) -> Result<
    ObservabilityModel,
    ConfigErrorModel,
> {
    match observability_error(file) {
        Some(e) => Err(e),
        None => Ok(
            ObservabilityModel {
                mode: mode_of(file.mode),
                summary_interval: seconds(file.summary_interval_seconds),
                summary_file: join(directory, file.summary_file),
                diagnostic_interval: seconds(file.diagnostic_interval_seconds),
                diagnostic_file: join(directory, file.diagnostic_file),
                connection_event_logs_enabled: file.connection_event_logs_enabled,
            },
        ),
    }
}

/// What holds without the section.
pub open spec fn observability_off() -> ObservabilityModel {
    ObservabilityModel {
        mode: ObservabilityMode::Off,
        summary_interval: seconds(300),
        summary_file: Seq::empty(),
        diagnostic_interval: seconds(60),
        diagnostic_file: Seq::empty(),
        connection_event_logs_enabled: false,
    }
}

impl FileObservabilityConfig {
    pub fn validate(self, config_directory: &str) -> (r: Result<ObservabilityConfig, ConfigError>)
        ensures
            match r {
                Ok(observability) => observability_result(self@, config_directory@) == Ok::<
                    ObservabilityModel,
                    ConfigErrorModel,
                >(observability@),
                Err(e) => observability_result(self@, config_directory@) == Err::<
                    ObservabilityModel,
                    ConfigErrorModel,
                >(e@),
            },
    {
        let summary_interval = match validate_seconds(
            "observability.summary_interval_seconds",
            self.summary_interval_seconds,
            MAX_OBSERVABILITY_INTERVAL_SECONDS,
        ) {
            Ok(value) => value,
            Err(e) => {
                return Err(e);
            },
        };
        let diagnostic_interval = match validate_seconds(
            "observability.diagnostic_interval_seconds",
            self.diagnostic_interval_seconds,
            MAX_OBSERVABILITY_INTERVAL_SECONDS,
        ) {
            Ok(value) => value,
            Err(e) => {
                return Err(e);
            },
        };
        match validate_path("observability.summary_file", &self.summary_file) {
            Ok(_) => {},
            Err(e) => {
                return Err(e);
            },
        }
        match validate_path("observability.diagnostic_file", &self.diagnostic_file) {
            Ok(_) => {},
            Err(e) => {
                return Err(e);
            },
        }
        Ok(
            ObservabilityConfig {
                mode: ObservabilityMode::from(self.mode),
                summary_interval,
                summary_file: resolve_config_path(config_directory, &self.summary_file),
                diagnostic_interval,
                diagnostic_file: resolve_config_path(config_directory, &self.diagnostic_file),
                connection_event_logs_enabled: self.connection_event_logs_enabled,
            },
        )
    }
}

impl ObservabilityConfig {
    pub fn mode(&self) -> (r: ObservabilityMode)
        ensures
            r == self@.mode,
    {
        self.mode
    }

    pub fn summary_interval(&self) -> (r: Duration)
        ensures
            r@ == self@.summary_interval,
    {
        self.summary_interval
    }

    pub fn summary_file(&self) -> (r: &str)
        ensures
            r@ == self@.summary_file,
    {
        &self.summary_file
    }

    pub fn diagnostic_interval(&self) -> (r: Duration)
        ensures
            r@ == self@.diagnostic_interval,
    {
        self.diagnostic_interval
    }

    pub fn diagnostic_file(&self) -> (r: &str)
        ensures
            r@ == self@.diagnostic_file,
    {
        &self.diagnostic_file
    }

    pub fn connection_event_logs_enabled(&self) -> (r: bool)
        ensures
            r == self@.connection_event_logs_enabled,
    {
        self.connection_event_logs_enabled
    }

    pub fn off() -> (r: ObservabilityConfig)
        ensures
            r@ == observability_off(),
    {
        ObservabilityConfig {
            mode: ObservabilityMode::Off,
            summary_interval: Duration::from_secs(300),
            summary_file: String::new(),
            diagnostic_interval: Duration::from_secs(60),
            diagnostic_file: String::new(),
            connection_event_logs_enabled: false,
        }
    }
}

/// A section is accepted exactly where both intervals are between a second and a day and both files
/// are named. What is reported is then what the file says, at its intervals, to its files.
pub proof fn law_observability_is_as_the_file_says(file: FileObservabilityModel, directory: Seq<char>)
    ensures
        ({
            let r = observability_result(file, directory);
            &&& r is Ok <==> 1 <= file.summary_interval_seconds <= 86_400 && 1
                <= file.diagnostic_interval_seconds <= 86_400 && file.summary_file.len() > 0
                && file.diagnostic_file.len() > 0
            &&& r matches Ok(observability) ==> {
                &&& observability.mode is Off <==> file.mode is Off
                &&& observability.mode is Production <==> file.mode is Production
                &&& observability.mode is Diagnostic <==> file.mode is Diagnostic
                &&& observability.summary_interval == file.summary_interval_seconds * 1_000_000_000
                &&& observability.diagnostic_interval == file.diagnostic_interval_seconds
                    * 1_000_000_000
                &&& observability.summary_file == join(directory, file.summary_file)
                &&& observability.diagnostic_file == join(directory, file.diagnostic_file)
                &&& observability.connection_event_logs_enabled
                    == file.connection_event_logs_enabled
            }
        }),
        observability_off().mode is Off,
        !observability_off().connection_event_logs_enabled,
{
}

/// The first field that is wrong is the one that is told.
pub proof fn law_first_fault_of_observability_is_told(
    file: FileObservabilityModel,
    directory: Seq<char>,
)
    ensures
        ({
            let summary = 1 <= file.summary_interval_seconds <= 86_400;
            let diagnostic = 1 <= file.diagnostic_interval_seconds <= 86_400;
            let told = observability_result(file, directory)->Err_0;
            &&& !summary ==> Some(told) == seconds_error(
                "observability.summary_interval_seconds"@,
                file.summary_interval_seconds,
                86_400,
            )
            &&& summary && !diagnostic ==> Some(told) == seconds_error(
                "observability.diagnostic_interval_seconds"@,
                file.diagnostic_interval_seconds,
                86_400,
            )
            &&& summary && diagnostic && file.summary_file.len() == 0 ==> told
                == ConfigErrorModel::Invalid("observability.summary_file"@ + " must not be empty"@)
            &&& summary && diagnostic && file.summary_file.len() > 0 && file.diagnostic_file.len()
                == 0 ==> told == ConfigErrorModel::Invalid(
                "observability.diagnostic_file"@ + " must not be empty"@,
            )
        }),
{
}

} // verus!
