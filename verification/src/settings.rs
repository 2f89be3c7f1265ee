//! The settings that a configuration gives, and what a reload may change.
//! Times are counted in nanoseconds.

use vstd::prelude::*;
use vstd::string::*;

use crate::digits::{decimal_of, law_numbers_are_read_back, number, number_of, NumberError};
use crate::ini::{get, optional, required, setting_or, setting_text, Ini, Values};
use crate::pacing::{LONGEST, SECOND};
use crate::text::{
    option_view, same_text, starts_with, trim_end_matches, trimmed, without_trailing,
};

verus! {

/// A setting that holds a number.
#[derive(Clone, Copy, Debug, PartialEq, Eq, Structural)]
pub enum Setting {
    /// The port to listen on.
    Port,
    /// How long an upstream request may take, in seconds.
    Timeout,
    /// The most bytes that a request body may have.
    MaxBody,
    /// The least time between the starts of two requests, in seconds.
    MinInterval,
    /// How often a refused request is sent again.
    MaxRetries,
    /// The first wait before a request is sent again, in seconds.
    BackoffBase,
    /// The longest such wait, in seconds.
    BackoffMax,
    /// The range of the random part of such a wait, in seconds.
    BackoffJitter,
    /// How long an unused proxy lives, in seconds.
    IdleTimeout,
    /// How many requests the gateway lets in at a time.
    MaxInflight,
    /// How many proxies the gateway has at a time.
    MaxWorkers,
}

impl Setting {
    /// The section where the setting stands.
    pub open spec fn section_text(self) -> Seq<char> {
        match self {
            Setting::Port => "server"@,
            Setting::Timeout | Setting::MaxBody => "upstream"@,
            Setting::IdleTimeout => "lifecycle"@,
            Setting::MaxInflight | Setting::MaxWorkers => "gateway"@,
            _ => "rate_limit"@,
        }
    }

    /// The key of the setting.
    pub open spec fn key_text(self) -> Seq<char> {
        match self {
            Setting::Port => "port"@,
            Setting::Timeout => "timeout_seconds"@,
            Setting::MaxBody => "max_request_body_bytes"@,
            Setting::MinInterval => "min_interval_seconds"@,
            Setting::MaxRetries => "max_retries"@,
            Setting::BackoffBase => "backoff_base_seconds"@,
            Setting::BackoffMax => "backoff_max_seconds"@,
            Setting::BackoffJitter => "backoff_jitter_seconds"@,
            Setting::IdleTimeout => "idle_timeout_seconds"@,
            Setting::MaxInflight => "max_inflight"@,
            Setting::MaxWorkers => "max_workers"@,
        }
    }

    /// What the setting is where the configuration does not say it.
    pub open spec fn default_text(self) -> Seq<char> {
        match self {
            Setting::Port => "8765"@,
            Setting::Timeout => "600"@,
            Setting::MaxBody => "134217728"@,
            Setting::MinInterval => "10"@,
            Setting::MaxRetries => "5"@,
            Setting::BackoffBase => "5"@,
            Setting::BackoffMax => "60"@,
            Setting::BackoffJitter => "1"@,
            Setting::IdleTimeout => "1800"@,
            Setting::MaxInflight => "256"@,
            Setting::MaxWorkers => "64"@,
        }
    }

    /// What the configuration says of the setting, or its default.
    pub open spec fn value_text(self, values: Values) -> Seq<char> {
        setting_or(values, self.section_text(), self.key_text(), self.default_text())
    }

    fn section(&self) -> (r: &'static str)
        ensures
            r@ == self.section_text(),
    {
        match self {
            Setting::Port => "server",
            Setting::Timeout => "upstream",
            Setting::MaxBody => "upstream",
            Setting::IdleTimeout => "lifecycle",
            Setting::MaxInflight => "gateway",
            Setting::MaxWorkers => "gateway",
            Setting::MinInterval => "rate_limit",
            Setting::MaxRetries => "rate_limit",
            Setting::BackoffBase => "rate_limit",
            Setting::BackoffMax => "rate_limit",
            Setting::BackoffJitter => "rate_limit",
        }
    }

    fn key(&self) -> (r: &'static str)
        ensures
            r@ == self.key_text(),
    {
        match self {
            Setting::Port => "port",
            Setting::Timeout => "timeout_seconds",
            Setting::MaxBody => "max_request_body_bytes",
            Setting::MinInterval => "min_interval_seconds",
            Setting::MaxRetries => "max_retries",
            Setting::BackoffBase => "backoff_base_seconds",
            Setting::BackoffMax => "backoff_max_seconds",
            Setting::BackoffJitter => "backoff_jitter_seconds",
            Setting::IdleTimeout => "idle_timeout_seconds",
            Setting::MaxInflight => "max_inflight",
            Setting::MaxWorkers => "max_workers",
        }
    }

    fn default_value(&self) -> (r: &'static str)
        ensures
            r@ == self.default_text(),
    {
        match self {
            Setting::Port => "8765",
            Setting::Timeout => "600",
            Setting::MaxBody => "134217728",
            Setting::MinInterval => "10",
            Setting::MaxRetries => "5",
            Setting::BackoffBase => "5",
            Setting::BackoffMax => "60",
            Setting::BackoffJitter => "1",
            Setting::IdleTimeout => "1800",
            Setting::MaxInflight => "256",
            Setting::MaxWorkers => "64",
        }
    }

    /// What the configuration says of the setting, or its default.
    pub fn value(&self, ini: &Ini) -> (r: String)
        ensures
            r@ == self.value_text(ini@),
    {
        get(ini, self.section(), self.key(), self.default_value())
    }
}

/// A whole number that a configuration gives, or else the default; at most `max`.
pub fn parse_value(ini: &Ini, section: &str, key: &str, default: &str, max: u64) -> (r: Result<
    u64,
    NumberError,
>)
    ensures
        match r {
            Ok(n) => number_of(setting_or(ini@, section@, key@, default@), max as nat) == Ok::<
                nat,
                NumberError,
            >(n as nat) && n <= max,
            Err(e) => number_of(setting_or(ini@, section@, key@, default@), max as nat) == Err::<
                nat,
                NumberError,
            >(e),
        },
{
    let value = get(ini, section, key, default);
    number(value.as_str(), max)
}

/// What a text says when it is read as a number of seconds with a fraction.
#[derive(Clone, Copy, Debug, PartialEq, Eq, Structural)]
pub enum Seconds {
    /// It is no number.
    Unreadable,
    /// It is below zero or not finite.
    OutOfRange,
    /// It is this many nanoseconds.
    Nanos(u128),
}

/// Why a setting is no length of time.
#[derive(Clone, Copy, Debug, PartialEq, Eq, Structural)]
pub enum SecondsError {
    /// The text is empty.
    Empty,
    /// The text is no number.
    Invalid,
    /// The number is below zero or not finite.
    Negative,
}

/// The most seconds that are read as a whole number.
pub const MOST_WHOLE_SECONDS: u64 = 1000000000000000;

/// The nanoseconds that a text stands for which is a whole number of seconds.
pub open spec fn whole_seconds_of(text: Seq<char>) -> Option<u128> {
    match number_of(text, MOST_WHOLE_SECONDS as nat) {
        Ok(n) => Some((n * SECOND) as u128),
        Err(_) => None,
    }
}

/// Reads a whole number of seconds.
pub fn whole_seconds(text: &str) -> (r: Option<u128>)
    ensures
        r == whole_seconds_of(text@),
        r matches Some(n) ==> n <= MOST_WHOLE_SECONDS * SECOND,
{
    match number(text, MOST_WHOLE_SECONDS) {
        Ok(n) => Some(n as u128 * SECOND),
        Err(_) => None,
    }
}

/// The length of time that a text stands for, given how it reads where it is no
/// whole number.
pub open spec fn duration_of(text: Seq<char>, read: Seconds) -> Result<u128, SecondsError> {
    match whole_seconds_of(text) {
        Some(n) => Ok(n),
        None => match read {
            Seconds::Unreadable => if text.len() == 0 {
                Err(SecondsError::Empty)
            } else {
                Err(SecondsError::Invalid)
            },
            Seconds::OutOfRange => Err(SecondsError::Negative),
            Seconds::Nanos(n) => Ok(n),
        },
    }
}

/// A length of time that a configuration gives, or else the default. `read`
/// is what that text says as a number of seconds with a fraction; it counts where
/// the text is no whole number.
pub fn duration_value(
    ini: &Ini,
    section: &str,
    key: &str,
    default: &str,
    read: Seconds,
) -> (r: Result<u128, SecondsError>)
    ensures
        r == duration_of(setting_or(ini@, section@, key@, default@), read),
{
    let text = get(ini, section, key, default);
    if let Some(n) = whole_seconds(text.as_str()) {
        return Ok(n);
    }
    match read {
        Seconds::Unreadable => if text.as_str().is_empty() {
            Err(SecondsError::Empty)
        } else {
            Err(SecondsError::Invalid)
        },
        Seconds::OutOfRange => Err(SecondsError::Negative),
        Seconds::Nanos(n) => Ok(n),
    }
}

/// What the settings that are lengths of time say as numbers of seconds with a
/// fraction: each field reads the text that [`Setting::value`] gives for its
/// setting.
#[derive(Clone, Copy, Debug)]
pub struct Readings {
    /// [`Setting::Timeout`].
    pub timeout: Seconds,
    /// [`Setting::MinInterval`].
    pub min_interval: Seconds,
    /// [`Setting::BackoffBase`].
    pub backoff_base: Seconds,
    /// [`Setting::BackoffMax`].
    pub backoff_max: Seconds,
    /// [`Setting::BackoffJitter`].
    pub backoff_jitter: Seconds,
    /// [`Setting::IdleTimeout`].
    pub idle_timeout: Seconds,
}

/// What the proxy works by.
#[derive(Clone, Debug)]
pub struct Settings {
    /// Where the standalone proxy and the gateway listen.
    pub listen_host: String,
    /// The port that goes with it.
    pub listen_port: u16,
    /// The real API, without a slash at the end.
    pub upstream_base_url: String,
    /// How long an upstream request may take.
    pub upstream_timeout: u128,
    /// The most bytes that a request body may have.
    pub max_request_body_bytes: usize,
    /// The least time between the starts of two requests.
    pub min_interval: u128,
    /// How often a refused request is sent again.
    pub max_retries: u32,
    /// The first wait before a request is sent again.
    pub backoff_base: u128,
    /// The longest such wait.
    pub backoff_max: u128,
    /// The range of the random part of such a wait.
    pub backoff_jitter: u128,
    /// The HTTP proxy on the way to the API, if there is one.
    pub forward_proxy: Option<String>,
    /// How long an unused proxy lives.
    pub idle_timeout: u128,
    /// The command that is launched.
    pub codex_binary: String,
    /// The name of the provider in that command's own configuration.
    pub provider: String,
    /// How many requests the gateway lets in at a time.
    pub gateway_max_inflight: usize,
    /// How many proxies the gateway has at a time.
    pub gateway_max_workers: usize,
}

/// Settings with their texts as characters.
pub struct SettingsModel {
    /// Where the standalone proxy and the gateway listen.
    pub listen_host: Seq<char>,
    /// The port that goes with it.
    pub listen_port: nat,
    /// The real API.
    pub upstream_base_url: Seq<char>,
    /// How long an upstream request may take.
    pub upstream_timeout: nat,
    /// The most bytes that a request body may have.
    pub max_request_body_bytes: nat,
    /// The least time between the starts of two requests.
    pub min_interval: nat,
    /// How often a refused request is sent again.
    pub max_retries: nat,
    /// The first wait before a request is sent again.
    pub backoff_base: nat,
    /// The longest such wait.
    pub backoff_max: nat,
    /// The range of the random part of such a wait.
    pub backoff_jitter: nat,
    /// The HTTP proxy on the way to the API.
    pub forward_proxy: Option<Seq<char>>,
    /// How long an unused proxy lives.
    pub idle_timeout: nat,
    /// The command that is launched.
    pub codex_binary: Seq<char>,
    /// The name of the provider.
    pub provider: Seq<char>,
    /// How many requests the gateway lets in at a time.
    pub gateway_max_inflight: nat,
    /// How many proxies the gateway has at a time.
    pub gateway_max_workers: nat,
}

impl View for Settings {
    type V = SettingsModel;

    open spec fn view(&self) -> SettingsModel {
        SettingsModel {
            listen_host: self.listen_host@,
            listen_port: self.listen_port as nat,
            upstream_base_url: self.upstream_base_url@,
            upstream_timeout: self.upstream_timeout as nat,
            max_request_body_bytes: self.max_request_body_bytes as nat,
            min_interval: self.min_interval as nat,
            max_retries: self.max_retries as nat,
            backoff_base: self.backoff_base as nat,
            backoff_max: self.backoff_max as nat,
            backoff_jitter: self.backoff_jitter as nat,
            forward_proxy: option_view(self.forward_proxy),
            idle_timeout: self.idle_timeout as nat,
            codex_binary: self.codex_binary@,
            provider: self.provider@,
            gateway_max_inflight: self.gateway_max_inflight as nat,
            gateway_max_workers: self.gateway_max_workers as nat,
        }
    }
}

impl SettingsModel {
    /// What every loaded configuration keeps to.
    pub open spec fn well_formed(self) -> bool {
        &&& self.listen_host.len() > 0
        &&& self.listen_port <= u16::MAX
        &&& "http://"@.is_prefix_of(self.upstream_base_url)
        &&& self.upstream_base_url.last() != '/'
        &&& self.max_request_body_bytes > 0
        &&& self.backoff_base <= self.backoff_max
        &&& self.forward_proxy matches Some(url) ==> trimmed(url).len() > 0
    }
}

/// Why a configuration gives no settings.
#[derive(Clone, Copy, Debug, PartialEq, Eq, Structural)]
pub enum SettingsError {
    /// The upstream is not given.
    MissingBaseUrl,
    /// The upstream is not reached over plain HTTP.
    NotHttp,
    /// A setting is no whole number in its range.
    Number(Setting, NumberError),
    /// A setting is no length of time.
    Time(Setting, SecondsError),
    /// The host to listen on is empty.
    EmptyHost,
    /// No request body would be accepted.
    ZeroBody,
    /// The longest wait is shorter than the first.
    BackoffOrder,
}

impl SettingsError {
    /// What the error says.
    pub open spec fn text(self) -> Seq<char> {
        match self {
            SettingsError::MissingBaseUrl => "missing required setting [upstream] base_url"@,
            SettingsError::NotHttp =>
                "[upstream] base_url must start with http://; HTTPS is not enabled"@,
            SettingsError::Number(setting, e) => "invalid ["@ + setting.section_text() + "] "@
                + setting.key_text() + ": "@ + e.text(),
            SettingsError::Time(setting, SecondsError::Empty) => "invalid ["@
                + setting.section_text() + "] "@ + setting.key_text()
                + ": cannot parse float from empty string"@,
            SettingsError::Time(setting, SecondsError::Invalid) => "invalid ["@
                + setting.section_text() + "] "@ + setting.key_text() + ": invalid float literal"@,
            SettingsError::Time(setting, SecondsError::Negative) => "["@ + setting.section_text()
                + "] "@ + setting.key_text() + " must be a non-negative number"@,
            SettingsError::EmptyHost => "[server] host must not be empty"@,
            SettingsError::ZeroBody =>
                "[upstream] max_request_body_bytes must be greater than zero"@,
            SettingsError::BackoffOrder =>
                "backoff_max_seconds must be at least backoff_base_seconds"@,
        }
    }

    /// What the error says.
    pub fn message(&self) -> (r: String)
        ensures
            r@ == self.text(),
    {
        match self {
            SettingsError::MissingBaseUrl => "missing required setting [upstream] base_url"
                .to_owned(),
            SettingsError::NotHttp =>
                "[upstream] base_url must start with http://; HTTPS is not enabled".to_owned(),
            SettingsError::Number(setting, e) => {
                let mut r = about("invalid [", setting);
                r.append(": ");
                r.append(e.message().as_str());
                r
            },
            SettingsError::Time(setting, e) => match e {
                SecondsError::Empty => {
                    let mut r = about("invalid [", setting);
                    r.append(": cannot parse float from empty string");
                    r
                },
                SecondsError::Invalid => {
                    let mut r = about("invalid [", setting);
                    r.append(": invalid float literal");
                    r
                },
                SecondsError::Negative => {
                    let mut r = about("[", setting);
                    r.append(" must be a non-negative number");
                    r
                },
            },
            SettingsError::EmptyHost => "[server] host must not be empty".to_owned(),
            SettingsError::ZeroBody =>
                "[upstream] max_request_body_bytes must be greater than zero".to_owned(),
            SettingsError::BackoffOrder =>
                "backoff_max_seconds must be at least backoff_base_seconds".to_owned(),
        }
    }
}

fn about(opening: &str, setting: &Setting) -> (r: String)
    ensures
        r@ == opening@ + setting.section_text() + "] "@ + setting.key_text(),
{
    let mut r = opening.to_owned();
    r.append(setting.section());
    r.append("] ");
    r.append(setting.key());
    r
}

/// The whole number that a configuration gives for a setting.
pub open spec fn number_setting(values: Values, setting: Setting, max: nat) -> Result<
    nat,
    NumberError,
> {
    number_of(setting.value_text(values), max)
}

/// The length of time that a configuration gives for a setting.
pub open spec fn time_setting(values: Values, setting: Setting, read: Seconds) -> Result<
    u128,
    SecondsError,
> {
    duration_of(setting.value_text(values), read)
}

/// The settings that a configuration gives. Of several faults the one that
/// stands first here counts.
pub open spec fn settings_of(values: Values, read: Readings) -> Result<
    SettingsModel,
    SettingsError,
> {
    let base = setting_text(values, "upstream"@, "base_url"@);
    let url = without_trailing(base->0, seq!['/']);
    let host = setting_or(values, "server"@, "host"@, "127.0.0.1"@);
    let port = number_setting(values, Setting::Port, u16::MAX as nat);
    let timeout = time_setting(values, Setting::Timeout, read.timeout);
    let body = number_setting(values, Setting::MaxBody, usize::MAX as nat);
    let interval = time_setting(values, Setting::MinInterval, read.min_interval);
    let retries = number_setting(values, Setting::MaxRetries, u32::MAX as nat);
    let backoff_base = time_setting(values, Setting::BackoffBase, read.backoff_base);
    let backoff_max = time_setting(values, Setting::BackoffMax, read.backoff_max);
    let jitter = time_setting(values, Setting::BackoffJitter, read.backoff_jitter);
    let idle = time_setting(values, Setting::IdleTimeout, read.idle_timeout);
    let inflight = number_setting(values, Setting::MaxInflight, usize::MAX as nat);
    let workers = number_setting(values, Setting::MaxWorkers, usize::MAX as nat);
    if base is None {
        Err(SettingsError::MissingBaseUrl)
    } else if !"http://"@.is_prefix_of(url) {
        Err(SettingsError::NotHttp)
    } else if port is Err {
        Err(SettingsError::Number(Setting::Port, port->Err_0))
    } else if timeout is Err {
        Err(SettingsError::Time(Setting::Timeout, timeout->Err_0))
    } else if body is Err {
        Err(SettingsError::Number(Setting::MaxBody, body->Err_0))
    } else if interval is Err {
        Err(SettingsError::Time(Setting::MinInterval, interval->Err_0))
    } else if retries is Err {
        Err(SettingsError::Number(Setting::MaxRetries, retries->Err_0))
    } else if backoff_base is Err {
        Err(SettingsError::Time(Setting::BackoffBase, backoff_base->Err_0))
    } else if backoff_max is Err {
        Err(SettingsError::Time(Setting::BackoffMax, backoff_max->Err_0))
    } else if jitter is Err {
        Err(SettingsError::Time(Setting::BackoffJitter, jitter->Err_0))
    } else if idle is Err {
        Err(SettingsError::Time(Setting::IdleTimeout, idle->Err_0))
    } else if inflight is Err {
        Err(SettingsError::Number(Setting::MaxInflight, inflight->Err_0))
    } else if workers is Err {
        Err(SettingsError::Number(Setting::MaxWorkers, workers->Err_0))
    } else if host.len() == 0 {
        Err(SettingsError::EmptyHost)
    } else if body->Ok_0 == 0 {
        Err(SettingsError::ZeroBody)
    } else if backoff_max->Ok_0 < backoff_base->Ok_0 {
        Err(SettingsError::BackoffOrder)
    } else {
        Ok(
            SettingsModel {
                listen_host: host,
                listen_port: port->Ok_0,
                upstream_base_url: url,
                upstream_timeout: timeout->Ok_0 as nat,
                max_request_body_bytes: body->Ok_0,
                min_interval: interval->Ok_0 as nat,
                max_retries: retries->Ok_0,
                backoff_base: backoff_base->Ok_0 as nat,
                backoff_max: backoff_max->Ok_0 as nat,
                backoff_jitter: jitter->Ok_0 as nat,
                forward_proxy: setting_text(values, "forward_proxy"@, "http"@),
                idle_timeout: idle->Ok_0 as nat,
                codex_binary: setting_or(values, "launcher"@, "codex_binary"@, "codex"@),
                provider: setting_or(values, "launcher"@, "provider"@, "corp"@),
                gateway_max_inflight: inflight->Ok_0,
                gateway_max_workers: workers->Ok_0,
            },
        )
    }
}

fn whole_number(ini: &Ini, setting: Setting, max: u64) -> (r: Result<u64, SettingsError>)
    ensures
        match r {
            Ok(n) => number_setting(ini@, setting, max as nat) == Ok::<nat, NumberError>(n as nat)
                && n <= max,
            Err(e) => number_setting(ini@, setting, max as nat) matches Err(cause) && e
                == SettingsError::Number(setting, cause),
        },
{
    match parse_value(ini, setting.section(), setting.key(), setting.default_value(), max) {
        Ok(n) => Ok(n),
        Err(e) => Err(SettingsError::Number(setting, e)),
    }
}

fn time(ini: &Ini, setting: Setting, read: Seconds) -> (r: Result<u128, SettingsError>)
    ensures
        match r {
            Ok(n) => time_setting(ini@, setting, read) == Ok::<u128, SecondsError>(n),
            Err(e) => time_setting(ini@, setting, read) matches Err(cause) && e
                == SettingsError::Time(setting, cause),
        },
{
    match duration_value(ini, setting.section(), setting.key(), setting.default_value(), read) {
        Ok(n) => Ok(n),
        Err(e) => Err(SettingsError::Time(setting, e)),
    }
}

/// Makes the settings out of a configuration.
pub fn load_settings(ini: &Ini, read: &Readings) -> (r: Result<Settings, SettingsError>)
    ensures
        match r {
            Ok(settings) => settings_of(ini@, *read) == Ok::<SettingsModel, SettingsError>(
                settings@,
            ),
            Err(e) => settings_of(ini@, *read) == Err::<SettingsModel, SettingsError>(e),
        },
{
    let base = match required(ini, "upstream", "base_url") {
        Ok(base) => base,
        Err(_) => return Err(SettingsError::MissingBaseUrl),
    };
    let slash: [char; 1] = ['/'];
    let url = trim_end_matches(base, &slash);
    assert(slash@ =~= seq!['/']);
    if !starts_with(url, "http://") {
        return Err(SettingsError::NotHttp);
    }
    let listen_host = get(ini, "server", "host", "127.0.0.1");
    let listen_port = whole_number(ini, Setting::Port, u16::MAX as u64)?;
    let upstream_timeout = time(ini, Setting::Timeout, read.timeout)?;
    let max_body = whole_number(ini, Setting::MaxBody, usize::MAX as u64)?;
    let min_interval = time(ini, Setting::MinInterval, read.min_interval)?;
    let max_retries = whole_number(ini, Setting::MaxRetries, u32::MAX as u64)?;
    let backoff_base = time(ini, Setting::BackoffBase, read.backoff_base)?;
    let backoff_max = time(ini, Setting::BackoffMax, read.backoff_max)?;
    let backoff_jitter = time(ini, Setting::BackoffJitter, read.backoff_jitter)?;
    let idle_timeout = time(ini, Setting::IdleTimeout, read.idle_timeout)?;
    let max_inflight = whole_number(ini, Setting::MaxInflight, usize::MAX as u64)?;
    let max_workers = whole_number(ini, Setting::MaxWorkers, usize::MAX as u64)?;
    let settings = Settings {
        listen_host,
        listen_port: listen_port as u16,
        upstream_base_url: url.to_owned(),
        upstream_timeout,
        max_request_body_bytes: max_body as usize,
        min_interval,
        max_retries: max_retries as u32,
        backoff_base,
        backoff_max,
        backoff_jitter,
        forward_proxy: optional(ini, "forward_proxy", "http"),
        idle_timeout,
        codex_binary: get(ini, "launcher", "codex_binary", "codex"),
        provider: get(ini, "launcher", "provider", "corp"),
        gateway_max_inflight: max_inflight as usize,
        gateway_max_workers: max_workers as usize,
    };
    if settings.listen_host.as_str().is_empty() {
        return Err(SettingsError::EmptyHost);
    }
    if settings.max_request_body_bytes == 0 {
        return Err(SettingsError::ZeroBody);
    }
    if settings.backoff_max < settings.backoff_base {
        return Err(SettingsError::BackoffOrder);
    }
    Ok(settings)
}

proof fn lemma_without_trailing_ends_otherwise(s: Seq<char>, set: Seq<char>)
    ensures
        without_trailing(s, set).len() > 0 ==> !set.contains(without_trailing(s, set).last()),
    decreases s.len(),
{
    if s.len() > 0 && set.contains(s.last()) {
        lemma_without_trailing_ends_otherwise(s.drop_last(), set);
    }
}

/// Every configuration that loads gives settings that the proxy can work by.
pub proof fn law_loaded_settings_are_well_formed(values: Values, read: Readings)
    ensures
        settings_of(values, read) matches Ok(settings) ==> settings.well_formed(),
{
    let base = setting_text(values, "upstream"@, "base_url"@);
    let set = seq!['/'];
    lemma_without_trailing_ends_otherwise(base->0, set);
    reveal_strlit("http://");
    assert(set[0] == '/');
    let url = without_trailing(base->0, set);
    if settings_of(values, read) is Ok {
        assert(url.len() >= 7);
        assert(!set.contains(url.last()));
    }
}

/// Whether a reading is no longer than a clock can measure.
pub open spec fn is_measurable(read: Seconds) -> bool {
    read matches Seconds::Nanos(n) ==> n <= LONGEST
}

/// Readings that a clock can measure give settings that a clock can measure.
pub proof fn law_loaded_times_are_measurable(values: Values, read: Readings)
    requires
        is_measurable(read.timeout),
        is_measurable(read.min_interval),
        is_measurable(read.backoff_base),
        is_measurable(read.backoff_max),
        is_measurable(read.backoff_jitter),
        is_measurable(read.idle_timeout),
    ensures
        settings_of(values, read) matches Ok(settings) ==> {
            &&& settings.upstream_timeout <= LONGEST
            &&& settings.min_interval <= LONGEST
            &&& settings.backoff_base <= LONGEST
            &&& settings.backoff_max <= LONGEST
            &&& settings.backoff_jitter <= LONGEST
            &&& settings.idle_timeout <= LONGEST
        },
{
}

/// What the proxy works by after a reload: the new settings, but the address
/// that it listens on stays.
pub open spec fn reloaded(current: SettingsModel, new: SettingsModel) -> SettingsModel {
    SettingsModel { listen_host: current.listen_host, listen_port: current.listen_port, ..new }
}

/// Takes new settings over while the proxy runs. A change of the address to
/// listen on needs a restart: the address stays, and the flag tells of it.
pub fn reload(current: &Settings, new: Settings) -> (r: (Settings, bool))
    ensures
        r.0@ == reloaded(current@, new@),
        r.1 == (new.listen_host@ != current.listen_host@ || new.listen_port
            != current.listen_port),
{
    let moved = !same_text(new.listen_host.as_str(), current.listen_host.as_str())
        || new.listen_port != current.listen_port;
    let mut settings = new;
    settings.listen_host = current.listen_host.clone();
    settings.listen_port = current.listen_port;
    (settings, moved)
}

/// What comes of reading the configuration again.
#[derive(Debug)]
pub enum Reloading {
    /// The settings stay as they are.
    Keep,
    /// These settings are taken over, if a client can be made for them.
    Try {
        /// The settings.
        settings: Settings,
        /// Whether the configuration names another address to listen on.
        moved: bool,
    },
}

/// Decides what comes of reading the configuration again. One that gives no
/// settings changes nothing.
pub fn reload_runtime_config(current: &Settings, loaded: Option<Settings>) -> (r: Reloading)
    ensures
        match (loaded, r) {
            (None, Reloading::Keep) => true,
            (Some(new), Reloading::Try { settings, moved }) => settings@ == reloaded(
                current@,
                new@,
            ) && moved == (new.listen_host@ != current.listen_host@ || new.listen_port
                != current.listen_port),
            _ => false,
        },
{
    match loaded {
        None => Reloading::Keep,
        Some(new) => {
            let (settings, moved) = reload(current, new);
            Reloading::Try { settings, moved }
        },
    }
}

/// A reload keeps settings usable.
pub proof fn law_reload_keeps_settings_well_formed(current: SettingsModel, new: SettingsModel)
    requires
        current.well_formed(),
        new.well_formed(),
    ensures
        reloaded(current, new).well_formed(),
{
}

/// Each time is read from its own setting and its own reading, whatever the
/// others are.
pub proof fn law_each_time_is_its_own(values: Values, read: Readings)
    ensures
        settings_of(values, read) matches Ok(s) ==> {
            &&& duration_of(
                setting_or(values, "upstream"@, "timeout_seconds"@, "600"@),
                read.timeout,
            ) matches Ok(time) && s.upstream_timeout == time
            &&& duration_of(
                setting_or(values, "rate_limit"@, "min_interval_seconds"@, "10"@),
                read.min_interval,
            ) matches Ok(time) && s.min_interval == time
            &&& duration_of(
                setting_or(values, "rate_limit"@, "backoff_base_seconds"@, "5"@),
                read.backoff_base,
            ) matches Ok(time) && s.backoff_base == time
            &&& duration_of(
                setting_or(values, "rate_limit"@, "backoff_max_seconds"@, "60"@),
                read.backoff_max,
            ) matches Ok(time) && s.backoff_max == time
            &&& duration_of(
                setting_or(values, "rate_limit"@, "backoff_jitter_seconds"@, "1"@),
                read.backoff_jitter,
            ) matches Ok(time) && s.backoff_jitter == time
            &&& duration_of(
                setting_or(values, "lifecycle"@, "idle_timeout_seconds"@, "1800"@),
                read.idle_timeout,
            ) matches Ok(time) && s.idle_timeout == time
        },
{
}

/// Each number is read from its own setting, whatever the others are.
pub proof fn law_each_number_is_its_own(values: Values, read: Readings)
    ensures
        settings_of(values, read) matches Ok(s) ==> {
            &&& number_of(setting_or(values, "server"@, "port"@, "8765"@), 65535) == Ok::<
                nat,
                NumberError,
            >(s.listen_port)
            &&& number_of(
                setting_or(values, "upstream"@, "max_request_body_bytes"@, "134217728"@),
                usize::MAX as nat,
            ) == Ok::<nat, NumberError>(s.max_request_body_bytes)
            &&& number_of(setting_or(values, "rate_limit"@, "max_retries"@, "5"@), 4294967295)
                == Ok::<nat, NumberError>(s.max_retries)
            &&& number_of(
                setting_or(values, "gateway"@, "max_inflight"@, "256"@),
                usize::MAX as nat,
            ) == Ok::<nat, NumberError>(s.gateway_max_inflight)
            &&& number_of(
                setting_or(values, "gateway"@, "max_workers"@, "64"@),
                usize::MAX as nat,
            ) == Ok::<nat, NumberError>(s.gateway_max_workers)
        },
{
}

/// Each text is what its own setting says. Of the upstream only slashes at the end
/// are left out, and all of them.
pub proof fn law_each_text_is_its_own(values: Values, read: Readings)
    ensures
        settings_of(values, read) matches Ok(s) ==> {
            &&& s.listen_host == setting_or(values, "server"@, "host"@, "127.0.0.1"@)
            &&& s.codex_binary == setting_or(values, "launcher"@, "codex_binary"@, "codex"@)
            &&& s.provider == setting_or(values, "launcher"@, "provider"@, "corp"@)
            &&& s.forward_proxy == setting_text(values, "forward_proxy"@, "http"@)
            &&& setting_text(values, "upstream"@, "base_url"@) matches Some(url) && {
                &&& s.upstream_base_url.is_prefix_of(url)
                &&& s.upstream_base_url.last() != '/'
                &&& forall|i: int| s.upstream_base_url.len() <= i < url.len() ==> url[i] == '/'
            }
        },
{
    let base = setting_text(values, "upstream"@, "base_url"@);
    law_loaded_settings_are_well_formed(values, read);
    let set = seq!['/'];
    crate::text::law_only_trailing_characters_go(base->0, set);
    if settings_of(values, read) is Ok {
        let url = base->0;
        let cut = without_trailing(url, set);
        assert forall|i: int| cut.len() <= i < url.len() implies url[i] == '/' by {
            assert(set.contains(url[i]));
        }
    }
}

/// A configuration loads exactly where it names an upstream over plain HTTP and a
/// host, each number and each time can be read, some body is accepted, and the
/// longest wait is no shorter than the first.
pub proof fn law_sound_configurations_load(values: Values, read: Readings)
    ensures
        settings_of(values, read) is Ok <==> {
            let backoff_base = duration_of(
                setting_or(values, "rate_limit"@, "backoff_base_seconds"@, "5"@),
                read.backoff_base,
            );
            let backoff_max = duration_of(
                setting_or(values, "rate_limit"@, "backoff_max_seconds"@, "60"@),
                read.backoff_max,
            );
            let body = number_of(
                setting_or(values, "upstream"@, "max_request_body_bytes"@, "134217728"@),
                usize::MAX as nat,
            );
            &&& setting_text(values, "upstream"@, "base_url"@) matches Some(url)
                && "http://"@.is_prefix_of(without_trailing(url, seq!['/']))
            &&& setting_or(values, "server"@, "host"@, "127.0.0.1"@).len() > 0
            &&& number_of(setting_or(values, "server"@, "port"@, "8765"@), 65535) is Ok
            &&& number_of(
                setting_or(values, "rate_limit"@, "max_retries"@, "5"@),
                4294967295,
            ) is Ok
            &&& number_of(
                setting_or(values, "gateway"@, "max_inflight"@, "256"@),
                usize::MAX as nat,
            ) is Ok
            &&& number_of(
                setting_or(values, "gateway"@, "max_workers"@, "64"@),
                usize::MAX as nat,
            ) is Ok
            &&& body matches Ok(bytes) && bytes > 0
            &&& duration_of(
                setting_or(values, "upstream"@, "timeout_seconds"@, "600"@),
                read.timeout,
            ) is Ok
            &&& duration_of(
                setting_or(values, "rate_limit"@, "min_interval_seconds"@, "10"@),
                read.min_interval,
            ) is Ok
            &&& duration_of(
                setting_or(values, "rate_limit"@, "backoff_jitter_seconds"@, "1"@),
                read.backoff_jitter,
            ) is Ok
            &&& duration_of(
                setting_or(values, "lifecycle"@, "idle_timeout_seconds"@, "1800"@),
                read.idle_timeout,
            ) is Ok
            &&& backoff_base matches Ok(first) && backoff_max matches Ok(longest) && first
                <= longest
        },
{
}

/// The reading of one time has no say in any other setting.
pub proof fn law_readings_do_not_mix(values: Values, read: Readings, other: Readings)
    requires
        settings_of(values, read) is Ok,
        settings_of(values, other) is Ok,
    ensures
        ({
            let a = settings_of(values, read)->Ok_0;
            let b = settings_of(values, other)->Ok_0;
            &&& read.timeout == other.timeout ==> a.upstream_timeout == b.upstream_timeout
            &&& read.min_interval == other.min_interval ==> a.min_interval == b.min_interval
            &&& read.backoff_base == other.backoff_base ==> a.backoff_base == b.backoff_base
            &&& read.backoff_max == other.backoff_max ==> a.backoff_max == b.backoff_max
            &&& read.backoff_jitter == other.backoff_jitter ==> a.backoff_jitter
                == b.backoff_jitter
            &&& read.idle_timeout == other.idle_timeout ==> a.idle_timeout == b.idle_timeout
            &&& a.listen_host == b.listen_host && a.listen_port == b.listen_port
            &&& a.upstream_base_url == b.upstream_base_url && a.forward_proxy == b.forward_proxy
            &&& a.max_request_body_bytes == b.max_request_body_bytes && a.max_retries
                == b.max_retries
            &&& a.codex_binary == b.codex_binary && a.provider == b.provider
            &&& a.gateway_max_inflight == b.gateway_max_inflight && a.gateway_max_workers
                == b.gateway_max_workers
        }),
{
}

/// A text that is a whole number of seconds stands for that time, whatever it
/// reads as otherwise; any other text stands for what it reads as.
pub proof fn law_times_are_what_is_written(n: nat, text: Seq<char>, read: Seconds, nanos: u128)
    ensures
        n <= 1000000000000000 ==> duration_of(decimal_of(n), read) == Ok::<u128, SecondsError>(
            (n * 1000000000) as u128,
        ),
        n <= 1000000000000000 ==> n * 1000000000 <= u128::MAX,
        number_of(text, 1000000000000000) is Err ==> {
            &&& duration_of(text, Seconds::Nanos(nanos)) == Ok::<u128, SecondsError>(nanos)
            &&& duration_of(text, Seconds::OutOfRange) == Err::<u128, SecondsError>(
                SecondsError::Negative,
            )
            &&& text.len() == 0 ==> duration_of(text, Seconds::Unreadable) == Err::<
                u128,
                SecondsError,
            >(SecondsError::Empty)
            &&& text.len() > 0 ==> duration_of(text, Seconds::Unreadable) == Err::<
                u128,
                SecondsError,
            >(SecondsError::Invalid)
        },
{
    law_numbers_are_read_back(n, 1000000000000000);
}

/// A reload takes everything over from the new settings, but keeps the host and
/// the port.
pub proof fn law_reload_keeps_only_the_address(current: SettingsModel, new: SettingsModel)
    ensures
        ({
            let after = reloaded(current, new);
            &&& after.listen_host == current.listen_host
            &&& after.listen_port == current.listen_port
            &&& after.upstream_base_url == new.upstream_base_url
            &&& after.upstream_timeout == new.upstream_timeout
            &&& after.max_request_body_bytes == new.max_request_body_bytes
            &&& after.min_interval == new.min_interval
            &&& after.max_retries == new.max_retries
            &&& after.backoff_base == new.backoff_base
            &&& after.backoff_max == new.backoff_max
            &&& after.backoff_jitter == new.backoff_jitter
            &&& after.forward_proxy == new.forward_proxy
            &&& after.idle_timeout == new.idle_timeout
            &&& after.codex_binary == new.codex_binary
            &&& after.provider == new.provider
            &&& after.gateway_max_inflight == new.gateway_max_inflight
            &&& after.gateway_max_workers == new.gateway_max_workers
        }),
{
}

/// Of several faults the first one counts, in the order in which the settings are
/// read: the upstream, then the port, the timeout, the body, the interval, the
/// retries, the three times of the backoff, the idle timeout and the two limits of
/// the gateway, and last what does not fit together. The error names the setting
/// and says what is wrong with it.
pub proof fn law_the_first_fault_counts(values: Values, read: Readings)
    ensures
        ({
            let found = settings_of(values, read);
            let base = setting_text(values, "upstream"@, "base_url"@);
            let http = base matches Some(url) && "http://"@.is_prefix_of(
                without_trailing(url, seq!['/']),
            );
            let port = number_of(setting_or(values, "server"@, "port"@, "8765"@), 65535);
            let timeout = duration_of(
                setting_or(values, "upstream"@, "timeout_seconds"@, "600"@),
                read.timeout,
            );
            let body = number_of(
                setting_or(values, "upstream"@, "max_request_body_bytes"@, "134217728"@),
                usize::MAX as nat,
            );
            let interval = duration_of(
                setting_or(values, "rate_limit"@, "min_interval_seconds"@, "10"@),
                read.min_interval,
            );
            let retries = number_of(
                setting_or(values, "rate_limit"@, "max_retries"@, "5"@),
                4294967295,
            );
            let first = duration_of(
                setting_or(values, "rate_limit"@, "backoff_base_seconds"@, "5"@),
                read.backoff_base,
            );
            let longest = duration_of(
                setting_or(values, "rate_limit"@, "backoff_max_seconds"@, "60"@),
                read.backoff_max,
            );
            let jitter = duration_of(
                setting_or(values, "rate_limit"@, "backoff_jitter_seconds"@, "1"@),
                read.backoff_jitter,
            );
            let idle = duration_of(
                setting_or(values, "lifecycle"@, "idle_timeout_seconds"@, "1800"@),
                read.idle_timeout,
            );
            let inflight = number_of(
                setting_or(values, "gateway"@, "max_inflight"@, "256"@),
                usize::MAX as nat,
            );
            let workers = number_of(
                setting_or(values, "gateway"@, "max_workers"@, "64"@),
                usize::MAX as nat,
            );
            let host = setting_or(values, "server"@, "host"@, "127.0.0.1"@);
            let to_timeout = http && port is Ok;
            let to_body = to_timeout && timeout is Ok;
            let to_interval = to_body && body is Ok;
            let to_retries = to_interval && interval is Ok;
            let to_first = to_retries && retries is Ok;
            let to_longest = to_first && first is Ok;
            let to_jitter = to_longest && longest is Ok;
            let to_idle = to_jitter && jitter is Ok;
            let to_inflight = to_idle && idle is Ok;
            let to_workers = to_inflight && inflight is Ok;
            let to_host = to_workers && workers is Ok;
            let zero = body matches Ok(n) && n == 0;
            &&& base is None ==> found == Err::<SettingsModel, SettingsError>(
                SettingsError::MissingBaseUrl,
            )
            &&& base is Some && !http ==> found == Err::<SettingsModel, SettingsError>(
                SettingsError::NotHttp,
            )
            &&& http ==> (port matches Err(e) ==> found == Err::<SettingsModel, SettingsError>(
                SettingsError::Number(Setting::Port, e),
            ))
            &&& to_timeout ==> (timeout matches Err(e) ==> found == Err::<
                SettingsModel,
                SettingsError,
            >(SettingsError::Time(Setting::Timeout, e)))
            &&& to_body ==> (body matches Err(e) ==> found == Err::<SettingsModel, SettingsError>(
                SettingsError::Number(Setting::MaxBody, e),
            ))
            &&& to_interval ==> (interval matches Err(e) ==> found == Err::<
                SettingsModel,
                SettingsError,
            >(SettingsError::Time(Setting::MinInterval, e)))
            &&& to_retries ==> (retries matches Err(e) ==> found == Err::<
                SettingsModel,
                SettingsError,
            >(SettingsError::Number(Setting::MaxRetries, e)))
            &&& to_first ==> (first matches Err(e) ==> found == Err::<
                SettingsModel,
                SettingsError,
            >(SettingsError::Time(Setting::BackoffBase, e)))
            &&& to_longest ==> (longest matches Err(e) ==> found == Err::<
                SettingsModel,
                SettingsError,
            >(SettingsError::Time(Setting::BackoffMax, e)))
            &&& to_jitter ==> (jitter matches Err(e) ==> found == Err::<
                SettingsModel,
                SettingsError,
            >(SettingsError::Time(Setting::BackoffJitter, e)))
            &&& to_idle ==> (idle matches Err(e) ==> found == Err::<SettingsModel, SettingsError>(
                SettingsError::Time(Setting::IdleTimeout, e),
            ))
            &&& to_inflight ==> (inflight matches Err(e) ==> found == Err::<
                SettingsModel,
                SettingsError,
            >(SettingsError::Number(Setting::MaxInflight, e)))
            &&& to_workers ==> (workers matches Err(e) ==> found == Err::<
                SettingsModel,
                SettingsError,
            >(SettingsError::Number(Setting::MaxWorkers, e)))
            &&& to_host && host.len() == 0 ==> found == Err::<SettingsModel, SettingsError>(
                SettingsError::EmptyHost,
            )
            &&& to_host && host.len() > 0 && zero ==> found == Err::<SettingsModel, SettingsError>(
                SettingsError::ZeroBody,
            )
            &&& to_host && host.len() > 0 && !zero && longest->Ok_0 < first->Ok_0 ==> found
                == Err::<SettingsModel, SettingsError>(SettingsError::BackoffOrder)
        }),
{
}

/// An error about a setting names its section and its key, and says what is wrong
/// with the value.
pub proof fn law_errors_name_their_setting(setting: Setting, number: NumberError)
    ensures
        ({
            let place = "["@ + setting.section_text() + "] "@ + setting.key_text();
            let opening = "invalid "@;
            &&& SettingsError::Number(setting, number).text() == opening + place + ": "@
                + number.text()
            &&& SettingsError::Time(setting, SecondsError::Empty).text() == opening + place
                + ": cannot parse float from empty string"@
            &&& SettingsError::Time(setting, SecondsError::Invalid).text() == opening + place
                + ": invalid float literal"@
            &&& SettingsError::Time(setting, SecondsError::Negative).text() == place
                + " must be a non-negative number"@
        }),
{
    reveal_strlit("invalid [");
    reveal_strlit("invalid ");
    reveal_strlit("[");
    assert("invalid ["@ =~= "invalid "@ + "["@);
    let place = "["@ + setting.section_text() + "] "@ + setting.key_text();
    assert("invalid ["@ + setting.section_text() + "] "@ + setting.key_text() =~= "invalid "@
        + place);
}

} // verus!
