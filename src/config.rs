//! The configuration model and how a partly written configuration is completed.
use vstd::prelude::*;
use crate::json::{format_json_tab, tab_formatted};
use crate::record::DNSRecord;
use crate::text::{unescape_slashes, unescaped_slashes};

verus! {

/// Seconds between two synchronisation cycles when none are configured.
pub const DEFAULT_SECONDS_TO_WAIT: u32 = 300;

/// The credentials sent with every request to the provider.
pub struct AuthenticationConfig {
    pub email: String,
    pub api_key: String,
    pub zone_id: String,
}

impl Clone for AuthenticationConfig {
    fn clone(&self) -> (r: AuthenticationConfig)
        ensures
            r.email@ == self.email@,
            r.api_key@ == self.api_key@,
            r.zone_id@ == self.zone_id@,
    {
        AuthenticationConfig {
            email: self.email.clone(),
            api_key: self.api_key.clone(),
            zone_id: self.zone_id.clone(),
        }
    }
}

/// Which parts of the prefix a log line starts with.
#[derive(Clone, Copy, Debug, PartialEq, Eq, Structural)]
pub struct DisplayConfig {
    pub date: bool,
    pub time: bool,
    pub log_type: bool,
}

/// Which kinds of message are logged at all.
#[derive(Clone, Copy, Debug, PartialEq, Eq, Structural)]
pub struct ShowConfig {
    pub logs: bool,
    pub warnings: bool,
    pub errors: bool,
}

/// Where and how messages are logged.
pub struct LogConfig {
    pub log_folder_path: String,
    pub separate_logs_by_session: bool,
    pub session_number: Option<i32>,
    pub display: DisplayConfig,
    pub show: ShowConfig,
}

impl Clone for LogConfig {
    fn clone(&self) -> (r: LogConfig)
        ensures
            r.log_folder_path@ == self.log_folder_path@,
            r.separate_logs_by_session == self.separate_logs_by_session,
            r.session_number == self.session_number,
            r.display == self.display,
            r.show == self.show,
    {
        LogConfig {
            log_folder_path: self.log_folder_path.clone(),
            separate_logs_by_session: self.separate_logs_by_session,
            session_number: self.session_number,
            display: self.display,
            show: self.show,
        }
    }
}

/// A complete configuration: what the synchronisation loop runs on.
pub struct Config {
    pub seconds_to_wait_per_restart: u32,
    pub authentication: AuthenticationConfig,
    pub log_config: LogConfig,
    pub dns_config: Vec<DNSRecord>,
}

/// A configuration as it was read from storage: the credentials may be absent.
pub struct IncompleteConfig {
    pub seconds_to_wait_per_restart: u32,
    pub authentication: Option<AuthenticationConfig>,
    pub log_config: LogConfig,
    pub dns_config: Vec<DNSRecord>,
}

/// Why a configuration cannot be used.
#[derive(Clone, Copy, Debug, PartialEq, Eq, Structural)]
pub enum ConfigError {
    /// No credentials were stored and none were supplied.
    Incomplete,
}

/// The interval used when the stored configuration gives none.
pub fn default_stwpr() -> (r: u32)
    ensures
        r == DEFAULT_SECONDS_TO_WAIT,
{
    DEFAULT_SECONDS_TO_WAIT
}

/// The record list used when the stored configuration gives none: empty.
pub fn default_dns_config() -> (r: Vec<DNSRecord>)
    ensures
        r@.len() == 0,
{
    Vec::new()
}

/// Logs are separated by session unless configured otherwise.
pub fn default_slbs() -> (r: bool)
    ensures
        r,
{
    true
}

/// Every part of the log prefix is shown unless configured otherwise.
pub fn default_display() -> (r: bool)
    ensures
        r,
{
    true
}

/// Every kind of message is logged unless configured otherwise.
pub fn default_show() -> (r: bool)
    ensures
        r,
{
    true
}

impl Default for DisplayConfig {
    fn default() -> (r: DisplayConfig)
        ensures
            r.date && r.time && r.log_type,
    {
        DisplayConfig { date: true, time: true, log_type: true }
    }
}

impl Default for ShowConfig {
    fn default() -> (r: ShowConfig)
        ensures
            r.logs && r.warnings && r.errors,
    {
        ShowConfig { logs: true, warnings: true, errors: true }
    }
}

/// The prefix settings used when the stored configuration gives none: show everything.
pub fn default_display_config() -> (r: DisplayConfig)
    ensures
        r.date && r.time && r.log_type,
{
    DisplayConfig { date: true, time: true, log_type: true }
}

/// The filter used when the stored configuration gives none: log everything.
pub fn default_show_config() -> (r: ShowConfig)
    ensures
        r.logs && r.warnings && r.errors,
{
    ShowConfig { logs: true, warnings: true, errors: true }
}

impl LogConfig {
    /// The default log settings, writing into `log_folder_path`: separate logs
    /// by session, starting with session 1, with every prefix part shown and
    /// every kind of message logged.
    pub fn with_folder(log_folder_path: String) -> (r: LogConfig)
        ensures
            r.log_folder_path@ == log_folder_path@,
            r.separate_logs_by_session,
            r.session_number == Some(1i32),
            r.display.date && r.display.time && r.display.log_type,
            r.show.logs && r.show.warnings && r.show.errors,
    {
        LogConfig {
            log_folder_path,
            separate_logs_by_session: default_slbs(),
            session_number: Some(1),
            display: default_display_config(),
            show: default_show_config(),
        }
    }
}

/// The default log settings for the folder `log_folder_path`.
pub fn default_log_config(log_folder_path: String) -> (r: LogConfig)
    ensures
        r.log_folder_path@ == log_folder_path@,
        r.separate_logs_by_session,
        r.session_number == Some(1i32),
        r.display.date && r.display.time && r.display.log_type,
        r.show.logs && r.show.warnings && r.show.errors,
{
    LogConfig::with_folder(log_folder_path)
}

impl Config {
    /// A fresh configuration with the given credentials and log settings, the
    /// default interval and no records.
    pub fn new(authentication: AuthenticationConfig, log_config: LogConfig) -> (r: Config)
        ensures
            r.seconds_to_wait_per_restart == DEFAULT_SECONDS_TO_WAIT,
            r.authentication == authentication,
            r.log_config == log_config,
            r.dns_config@.len() == 0,
    {
        Config {
            seconds_to_wait_per_restart: default_stwpr(),
            authentication,
            log_config,
            dns_config: default_dns_config(),
        }
    }

    /// The configuration as a stored one whose credentials are present.
    pub fn to_incomplete(self) -> (r: IncompleteConfig)
        ensures
            r.seconds_to_wait_per_restart == self.seconds_to_wait_per_restart,
            r.authentication == Some(self.authentication),
            r.log_config == self.log_config,
            r.dns_config == self.dns_config,
    {
        IncompleteConfig {
            seconds_to_wait_per_restart: self.seconds_to_wait_per_restart,
            authentication: Some(self.authentication),
            log_config: self.log_config,
            dns_config: self.dns_config,
        }
    }
}

impl IncompleteConfig {
    /// A stored configuration is complete exactly when its credentials are present.
    pub fn is_complete(&self) -> (r: bool)
        ensures
            r == self.authentication is Some,
    {
        self.authentication.is_some()
    }

    /// Completes the configuration. Stored credentials are used when present;
    /// otherwise the credentials `supplied` (asked of a person) are used; with
    /// neither, the configuration cannot be completed. Every other setting is
    /// kept as stored.
    pub fn complete(self, supplied: Option<AuthenticationConfig>) -> (r: Result<Config, ConfigError>)
        ensures
            self.authentication is None && supplied is None ==> r == Err::<Config, ConfigError>(
                ConfigError::Incomplete,
            ),
            self.authentication is Some ==> r is Ok && r->Ok_0.authentication == self.authentication->Some_0,
            self.authentication is None && supplied is Some ==> r is Ok && r->Ok_0.authentication
                == supplied->Some_0,
            r is Ok ==> r->Ok_0.seconds_to_wait_per_restart == self.seconds_to_wait_per_restart
                && r->Ok_0.log_config == self.log_config && r->Ok_0.dns_config == self.dns_config,
    {
        let authentication = match self.authentication {
            Some(a) => a,
            None => match supplied {
                Some(a) => a,
                None => return Err(ConfigError::Incomplete),
            },
        };
        Ok(
            Config {
                seconds_to_wait_per_restart: self.seconds_to_wait_per_restart,
                authentication,
                log_config: self.log_config,
                dns_config: self.dns_config,
            },
        )
    }
}

/// How start-up goes on with a stored configuration.
#[derive(Clone, Copy, Debug, PartialEq, Eq, Structural)]
pub enum StartupAction {
    /// The configuration is complete: use it.
    Proceed,
    /// Credentials are missing and a person can be asked for them.
    AskCredentials,
    /// Credentials are missing and nobody can be asked: stop without syncing.
    Stop,
}

/// Decides start-up: a complete configuration is used; an incomplete one is
/// completed by asking a person when one is there, and stops the program
/// otherwise, so that nothing is ever synced with unknown credentials.
pub fn startup_action(is_complete: bool, interactive: bool) -> (r: StartupAction)
    ensures
        is_complete ==> r == StartupAction::Proceed,
        !is_complete && interactive ==> r == StartupAction::AskCredentials,
        !is_complete && !interactive ==> r == StartupAction::Stop,
{
    if is_complete {
        StartupAction::Proceed
    } else if interactive {
        StartupAction::AskCredentials
    } else {
        StartupAction::Stop
    }
}

/// Whether the completed configuration must be written back: always when it
/// had to be completed or no file text was read, otherwise when its text
/// `current` differs from the text `stored` that was read.
pub fn should_save_config(was_complete: bool, stored: Option<&str>, current: &str) -> (r: bool)
    ensures
        r == (!was_complete || stored is None || stored->Some_0@ != current@),
{
    if !was_complete {
        return true;
    }
    match stored {
        None => true,
        Some(old) => {
            let a = String::from_str(old);
            let b = String::from_str(current);
            !(a == b)
        },
    }
}

/// The text stored for a configuration, from its compact JSON writing: laid
/// out with one tab per level, with escaped slashes written plainly.
pub fn config_file_text(serialized: &str) -> (r: String)
    ensures
        r@ == unescaped_slashes(tab_formatted(serialized@)),
{
    let formatted = format_json_tab(serialized);
    unescape_slashes(formatted.as_str())
}

/// The severity of a logged message.
#[derive(Clone, Copy, Debug, PartialEq, Eq, Structural)]
pub enum LogType {
    Log,
    Warn,
    Error,
}

} // verus!
