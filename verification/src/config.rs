//! Crawler configuration and its resolution against environment variables.

use crate::errors::{debug_quoted, quoted};
use crate::text::{
    ascii_lower, chars_of, decimal, decimal_digits_give_the_number_back, decimal_text, is_digit,
    is_digit_char, joined, lowercased, owned, parse_number, parsed_number, same, same_chars, string_of,
};
use crate::time::Duration;
use crate::url::opt_view;
use vstd::prelude::*;

verus! {

/// Logging verbosity for crawler diagnostics.
#[derive(Clone, Copy, Debug, PartialEq, Eq, Structural)]
pub enum LogLevel {
    /// Disables logging.
    Off,
    /// Emits errors only.
    Error,
    /// Emits warnings and errors.
    Warn,
    /// Emits informational messages and above.
    Info,
    /// Emits debug messages and above.
    Debug,
    /// Emits all trace messages.
    Trace,
}

impl LogLevel {
    /// The level's name.
    pub open spec fn name_spec(self) -> Seq<char> {
        match self {
            LogLevel::Off => "off"@,
            LogLevel::Error => "error"@,
            LogLevel::Warn => "warn"@,
            LogLevel::Info => "info"@,
            LogLevel::Debug => "debug"@,
            LogLevel::Trace => "trace"@,
        }
    }

    /// The level that a text names in any case.
    pub open spec fn named(text: Seq<char>) -> Option<LogLevel> {
        let name = ascii_lower(text);
        if name == "off"@ {
            Some(LogLevel::Off)
        } else if name == "error"@ {
            Some(LogLevel::Error)
        } else if name == "warn"@ {
            Some(LogLevel::Warn)
        } else if name == "info"@ {
            Some(LogLevel::Info)
        } else if name == "debug"@ {
            Some(LogLevel::Debug)
        } else if name == "trace"@ {
            Some(LogLevel::Trace)
        } else {
            None
        }
    }

    /// Reads a level's name in any case.
    pub fn from_str(value: &str) -> (r: Result<LogLevel, ConfigError>)
        ensures
            match r {
                Ok(level) => LogLevel::named(value@) == Some(level),
                Err(ConfigError::InvalidLogLevel(text)) => LogLevel::named(value@) is None && text@
                    == value@,
                _ => false,
            },
    {
        let name: String = string_of(&lowercased(&chars_of(value)));
        let name: &str = name.as_str();
        if same(name, "off") {
            Ok(LogLevel::Off)
        } else if same(name, "error") {
            Ok(LogLevel::Error)
        } else if same(name, "warn") {
            Ok(LogLevel::Warn)
        } else if same(name, "info") {
            Ok(LogLevel::Info)
        } else if same(name, "debug") {
            Ok(LogLevel::Debug)
        } else if same(name, "trace") {
            Ok(LogLevel::Trace)
        } else {
            Err(ConfigError::InvalidLogLevel(owned(value)))
        }
    }

    /// The level's name.
    pub fn as_str(&self) -> (r: &'static str)
        ensures
            r@ == self.name_spec(),
    {
        match self {
            LogLevel::Off => "off",
            LogLevel::Error => "error",
            LogLevel::Warn => "warn",
            LogLevel::Info => "info",
            LogLevel::Debug => "debug",
            LogLevel::Trace => "trace",
        }
    }
}

/// Errors produced while resolving crawler configuration.
#[derive(Debug)]
pub enum ConfigError {
    /// An environment variable contains an invalid value.
    InvalidEnvVar {
        /// The environment variable name.
        name: &'static str,
        /// The rejected value.
        value: String,
        /// A description of the required format.
        message: String,
    },
    /// A string is not a supported logging level.
    InvalidLogLevel(String),
}

impl ConfigError {
    /// The text of the error.
    pub open spec fn message_spec(self) -> Seq<char> {
        match self {
            ConfigError::InvalidEnvVar { name, value, message } => "invalid value "@ + debug_quoted(
                value@,
            ) + " for "@ + name@ + ": "@ + message@,
            ConfigError::InvalidLogLevel(text) => "invalid log level "@ + debug_quoted(text@),
        }
    }

    /// The text of the error.
    pub fn message(&self) -> (r: String)
        ensures
            r@ == self.message_spec(),
    {
        match self {
            ConfigError::InvalidEnvVar { name, value, message } => {
                let mut out: String = joined("invalid value ", quoted(value.as_str()).as_str());
                out.append(" for ");
                out.append(name);
                out.append(": ");
                out.append(message.as_str());
                out
            },
            ConfigError::InvalidLogLevel(text) => joined(
                "invalid log level ",
                quoted(text.as_str()).as_str(),
            ),
        }
    }
}

/// The number of decimal digits at the beginning of `s`.
pub open spec fn digit_run(s: Seq<char>) -> nat
    decreases s.len(),
{
    if s.len() > 0 && is_digit(s[0]) {
        1 + digit_run(s.drop_first())
    } else {
        0
    }
}

/// `s` without one leading sign.
pub open spec fn without_sign(s: Seq<char>) -> Seq<char> {
    if s.len() > 0 && (s[0] == '+' || s[0] == '-') {
        s.skip(1)
    } else {
        s
    }
}

/// Whether `s` is empty or an exponent: the letter E, an optional sign and digits.
pub open spec fn is_exponent_tail(s: Seq<char>) -> bool {
    s.len() == 0 || ((s[0] == 'e' || s[0] == 'E') && without_sign(s.skip(1)).len() > 0 && digit_run(
        without_sign(s.skip(1)),
    ) == without_sign(s.skip(1)).len())
}

/// Whether `s` writes an unsigned decimal number, with at least one digit beside the point.
pub open spec fn is_unsigned_decimal(s: Seq<char>) -> bool {
    let whole = digit_run(s);
    let rest = s.skip(whole as int);
    if rest.len() > 0 && rest[0] == '.' {
        let fraction = digit_run(rest.skip(1));
        whole + fraction > 0 && is_exponent_tail(rest.skip(1).skip(fraction as int))
    } else {
        whole > 0 && is_exponent_tail(rest)
    }
}

/// Whether `s` writes a floating-point number: a signed decimal number with an optional exponent,
/// an infinity or not-a-number.
pub open spec fn is_float_text(s: Seq<char>) -> bool {
    let rest = without_sign(s);
    let word = ascii_lower(rest);
    word == "inf"@ || word == "infinity"@ || word == "nan"@ || is_unsigned_decimal(rest)
}

fn run_of_digits(s: &Vec<char>, from: usize) -> (r: usize)
    requires
        from <= s.len(),
    ensures
        from <= r <= s.len(),
        r - from == digit_run(s@.skip(from as int)),
{
    let mut i: usize = from;
    while i < s.len() && is_digit_char(s[i])
        invariant
            from <= i <= s.len(),
            digit_run(s@.skip(from as int)) == i - from + digit_run(s@.skip(i as int)),
        decreases s.len() - i,
    {
        assert(s@.skip(i as int).drop_first() =~= s@.skip(i + 1));
        i = i + 1;
    }
    i
}

fn skip_sign(s: &Vec<char>, from: usize) -> (r: usize)
    requires
        from <= s.len(),
    ensures
        from <= r <= s.len(),
        s@.skip(r as int) == without_sign(s@.skip(from as int)),
{
    if from < s.len() && (s[from] == '+' || s[from] == '-') {
        assert(s@.skip(from as int).skip(1) =~= s@.skip(from + 1));
        from + 1
    } else {
        from
    }
}

fn exponent_tail(s: &Vec<char>, from: usize) -> (r: bool)
    requires
        from <= s.len(),
    ensures
        r == is_exponent_tail(s@.skip(from as int)),
{
    if from == s.len() {
        return true;
    }
    if s[from] != 'e' && s[from] != 'E' {
        return false;
    }
    assert(s@.skip(from as int).skip(1) =~= s@.skip(from + 1));
    let digits: usize = skip_sign(s, from + 1);
    let end: usize = run_of_digits(s, digits);
    digits < s.len() && end == s.len()
}

/// Whether a text writes a floating-point number.
pub fn writes_float(text: &str) -> (r: bool)
    ensures
        r == is_float_text(text@),
{
    let s: Vec<char> = chars_of(text);
    assert(s@.skip(0) =~= s@);
    let start: usize = skip_sign(&s, 0);
    let rest: Vec<char> = crate::text::slice(&s, start, s.len());
    assert(rest@ =~= s@.skip(start as int));
    let word: Vec<char> = lowercased(&rest);
    if same_chars(&word, &chars_of("inf")) || same_chars(&word, &chars_of("infinity"))
        || same_chars(&word, &chars_of("nan")) {
        return true;
    }
    assert(rest@.skip(0) =~= rest@);
    let whole: usize = run_of_digits(&rest, 0);
    if whole < rest.len() && rest[whole] == '.' {
        assert(rest@.skip(whole as int).skip(1) =~= rest@.skip(whole + 1));
        let end: usize = run_of_digits(&rest, whole + 1);
        assert(rest@.skip(whole + 1).skip(end - whole - 1) =~= rest@.skip(end as int));
        (whole > 0 || end > whole + 1) && exponent_tail(&rest, end)
    } else {
        whole > 0 && exponent_tail(&rest, whole)
    }
}

/// A ratio, kept as the decimal text that writes it.
#[derive(Debug, PartialEq, Eq)]
pub struct Ratio {
    text: String,
}

impl View for Ratio {
    type V = Seq<char>;

    closed spec fn view(&self) -> Seq<char> {
        self.text@
    }
}

impl Ratio {
    /// Reads a ratio.
    pub fn parse(text: &str) -> (r: Option<Ratio>)
        ensures
            r is Some <==> is_float_text(text@),
            r is Some ==> r.unwrap()@ == text@,
    {
        if writes_float(text) {
            Some(Ratio { text: owned(text) })
        } else {
            None
        }
    }

    pub fn as_str(&self) -> (r: &str)
        ensures
            r@ == self@,
    {
        self.text.as_str()
    }
}

/// The mathematical value of an optional ratio.
pub open spec fn ratio_view(r: Option<Ratio>) -> Option<Seq<char>> {
    match r {
        Some(ratio) => Some(ratio@),
        None => None,
    }
}

/// A set of environment variables.
#[derive(Debug)]
pub struct Environment {
    entries: Vec<(String, String)>,
}

/// The value of the last pair with a given name.
pub open spec fn last_value(pairs: Seq<(String, String)>, name: Seq<char>) -> Option<Seq<char>>
    decreases pairs.len(),
{
    if pairs.len() == 0 {
        None
    } else if pairs.last().0@ == name {
        Some(pairs.last().1@)
    } else {
        last_value(pairs.drop_last(), name)
    }
}

impl Environment {
    /// The value of a variable.
    pub closed spec fn value_of(self, name: Seq<char>) -> Option<Seq<char>> {
        last_value(self.entries@, name)
    }

    /// An environment without variables.
    pub fn new() -> (r: Environment)
        ensures
            forall|name: Seq<char>| (#[trigger] r.value_of(name)) is None,
    {
        Environment { entries: Vec::new() }
    }

    /// Sets a variable.
    pub fn with(self, name: &str, value: &str) -> (r: Environment)
        ensures
            forall|n: Seq<char>| #[trigger]
                r.value_of(n) == if n == name@ {
                    Some(value@)
                } else {
                    self.value_of(n)
                },
    {
        let mut entries = self.entries;
        entries.push((owned(name), owned(value)));
        assert(entries@.drop_last() =~= self.entries@);
        Environment { entries }
    }

    /// The value of a variable.
    pub fn lookup(&self, name: &str) -> (r: Option<String>)
        ensures
            opt_view(r) == self.value_of(name@),
    {
        let mut i: usize = self.entries.len();
        assert(self.entries@.subrange(0, i as int) =~= self.entries@);
        while i > 0
            invariant
                i <= self.entries.len(),
                last_value(self.entries@, name@) == last_value(
                    self.entries@.subrange(0, i as int),
                    name@,
                ),
            decreases i,
        {
            assert(self.entries@.subrange(0, i as int).drop_last() =~= self.entries@.subrange(
                0,
                i - 1,
            ));
            if same(self.entries[i - 1].0.as_str(), name) {
                return Some(self.entries[i - 1].1.clone());
            }
            i = i - 1;
        }
        None
    }
}

/// A rejected environment variable.
pub struct Fault {
    pub name: Seq<char>,
    pub value: Seq<char>,
    pub message: Seq<char>,
}

impl ConfigError {
    /// Whether the error reports `fault`.
    pub open spec fn reports(self, fault: Fault) -> bool {
        match self {
            ConfigError::InvalidEnvVar { name, value, message } => name@ == fault.name && value@
                == fault.value && message@ == fault.message,
            _ => false,
        }
    }
}

/// A text setting: the builder's value, else the variable's, else the default.
pub open spec fn text_setting(
    set: Option<Seq<char>>,
    variable: Option<Seq<char>>,
    default: Seq<char>,
) -> Seq<char> {
    match set {
        Some(value) => value,
        None => match variable {
            Some(value) => value,
            None => default,
        },
    }
}

/// A ratio setting: the builder's value, else the variable's where it writes a number.
pub open spec fn ratio_setting(
    set: Option<Seq<char>>,
    name: Seq<char>,
    variable: Option<Seq<char>>,
) -> Result<Option<Seq<char>>, Fault> {
    match (set, variable) {
        (Some(value), _) => Ok(Some(value)),
        (None, None) => Ok(None),
        (None, Some(text)) => if is_float_text(text) {
            Ok(Some(text))
        } else {
            Err(Fault { name, value: text, message: "expected a floating-point number"@ })
        },
    }
}

/// An integer variable, if it is there.
pub open spec fn integer_variable(name: Seq<char>, variable: Option<Seq<char>>) -> Result<
    Option<nat>,
    Fault,
> {
    match variable {
        None => Ok(None),
        Some(text) => match parsed_number(text, u64::MAX as nat) {
            Some(n) => Ok(Some(n)),
            None => Err(Fault { name, value: text, message: "expected an unsigned integer"@ }),
        },
    }
}

/// The memory limit in bytes: the builder's value, else the variable's megabytes.
pub open spec fn memory_setting(set: Option<u64>, variable: Option<Seq<char>>) -> Result<
    Option<u64>,
    Fault,
> {
    match set {
        Some(value) => Ok(Some(value)),
        None => match integer_variable("CRAWLEE_MEMORY_MBYTES"@, variable) {
            Err(fault) => Err(fault),
            Ok(None) => Ok(None),
            Ok(Some(n)) => if n * 1048576 <= u64::MAX {
                Ok(Some((n * 1048576) as u64))
            } else {
                Err(
                    Fault {
                        name: "CRAWLEE_MEMORY_MBYTES"@,
                        value: decimal(n),
                        message: "value is too large to convert to bytes"@,
                    },
                )
            },
        },
    }
}

/// The persistence interval: the builder's value, else the variable's milliseconds, else a minute.
pub open spec fn interval_setting(set: Option<Duration>, variable: Option<Seq<char>>) -> Result<
    Duration,
    Fault,
> {
    match set {
        Some(value) => Ok(value),
        None => match integer_variable("CRAWLEE_PERSIST_STATE_INTERVAL_MILLIS"@, variable) {
            Err(fault) => Err(fault),
            Ok(None) => Ok(Duration::millis(60_000)),
            Ok(Some(n)) => Ok(Duration::millis(n)),
        },
    }
}

/// A switch: `1` and `true` put it on, `0` and `false` off, in any case.
pub open spec fn switch_value(text: Seq<char>) -> Option<bool> {
    let word = ascii_lower(text);
    if word == "1"@ || word == "true"@ {
        Some(true)
    } else if word == "0"@ || word == "false"@ {
        Some(false)
    } else {
        None
    }
}

/// Whether storage is purged: the builder's value, else the variable's, else yes.
pub open spec fn purge_setting(set: Option<bool>, variable: Option<Seq<char>>) -> Result<
    bool,
    Fault,
> {
    match (set, variable) {
        (Some(value), _) => Ok(value),
        (None, None) => Ok(true),
        (None, Some(text)) => match switch_value(text) {
            Some(value) => Ok(value),
            None => Err(
                Fault {
                    name: "CRAWLEE_PURGE_ON_START"@,
                    value: text,
                    message: "expected 1, true, 0, or false"@,
                },
            ),
        },
    }
}

/// The log level: the builder's value, else the variable's, else `Info`.
pub open spec fn level_setting(set: Option<LogLevel>, variable: Option<Seq<char>>) -> Result<
    LogLevel,
    Fault,
> {
    match (set, variable) {
        (Some(value), _) => Ok(value),
        (None, None) => Ok(LogLevel::Info),
        (None, Some(text)) => match LogLevel::named(text) {
            Some(value) => Ok(value),
            None => Err(
                Fault {
                    name: "CRAWLEE_LOG_LEVEL"@,
                    value: text,
                    message: "expected off, error, warn, info, debug, or trace"@,
                },
            ),
        },
    }
}

/// Builds a resolved [`Configuration`].
#[derive(Debug)]
pub struct ConfigurationBuilder {
    pub default_dataset_id: Option<String>,
    pub default_key_value_store_id: Option<String>,
    pub default_request_queue_id: Option<String>,
    pub storage_dir: Option<String>,
    pub max_used_cpu_ratio: Option<Ratio>,
    pub available_memory_ratio: Option<Ratio>,
    pub memory_bytes: Option<u64>,
    pub persist_state_interval: Option<Duration>,
    pub purge_on_start: Option<bool>,
    pub log_level: Option<LogLevel>,
}

impl Default for ConfigurationBuilder {
    fn default() -> (r: Self)
        ensures
            r.is_new(),
    {
        ConfigurationBuilder {
            default_dataset_id: None,
            default_key_value_store_id: None,
            default_request_queue_id: None,
            storage_dir: None,
            max_used_cpu_ratio: None,
            available_memory_ratio: None,
            memory_bytes: None,
            persist_state_interval: None,
            purge_on_start: None,
            log_level: None,
        }
    }
}

fn fault(name: &'static str, value: String, message: &str) -> (r: ConfigError)
    ensures
        r.reports(Fault { name: name@, value: value@, message: message@ }),
{
    ConfigError::InvalidEnvVar { name, value, message: owned(message) }
}

fn choose_text(set: Option<String>, env: &Environment, name: &str, default: &str) -> (r: String)
    ensures
        r@ == text_setting(opt_view(set), env.value_of(name@), default@),
{
    match set {
        Some(value) => value,
        None => match env.lookup(name) {
            Some(value) => value,
            None => owned(default),
        },
    }
}

fn choose_ratio(set: Option<Ratio>, env: &Environment, name: &'static str) -> (r: Result<
    Option<Ratio>,
    ConfigError,
>)
    ensures
        match (r, ratio_setting(ratio_view(set), name@, env.value_of(name@))) {
            (Ok(a), Ok(b)) => ratio_view(a) == b,
            (Err(a), Err(b)) => a.reports(b),
            _ => false,
        },
{
    match set {
        Some(value) => Ok(Some(value)),
        None => match env.lookup(name) {
            None => Ok(None),
            Some(text) => match Ratio::parse(text.as_str()) {
                Some(ratio) => Ok(Some(ratio)),
                None => Err(fault(name, text, "expected a floating-point number")),
            },
        },
    }
}

fn optional_parse(env: &Environment, name: &'static str) -> (r: Result<Option<u64>, ConfigError>)
    ensures
        match (r, integer_variable(name@, env.value_of(name@))) {
            (Ok(Some(a)), Ok(Some(b))) => a == b,
            (Ok(None), Ok(None)) => true,
            (Err(a), Err(b)) => a.reports(b),
            _ => false,
        },
{
    match env.lookup(name) {
        None => Ok(None),
        Some(text) => match parse_number(&chars_of(text.as_str()), u64::MAX) {
            Some(n) => Ok(Some(n)),
            None => Err(fault(name, text, "expected an unsigned integer")),
        },
    }
}

fn parse_bool(name: &'static str, value: String) -> (r: Result<bool, ConfigError>)
    ensures
        match (r, switch_value(value@)) {
            (Ok(a), Some(b)) => a == b,
            (Err(e), None) => e.reports(
                Fault { name: name@, value: value@, message: "expected 1, true, 0, or false"@ },
            ),
            _ => false,
        },
{
    let word: Vec<char> = lowercased(&chars_of(value.as_str()));
    if same_chars(&word, &chars_of("1")) || same_chars(&word, &chars_of("true")) {
        Ok(true)
    } else if same_chars(&word, &chars_of("0")) || same_chars(&word, &chars_of("false")) {
        Ok(false)
    } else {
        Err(fault(name, value, "expected 1, true, 0, or false"))
    }
}

impl ConfigurationBuilder {
    /// Nothing is set.
    pub open spec fn is_new(self) -> bool {
        &&& self.default_dataset_id is None
        &&& self.default_key_value_store_id is None
        &&& self.default_request_queue_id is None
        &&& self.storage_dir is None
        &&& self.max_used_cpu_ratio is None
        &&& self.available_memory_ratio is None
        &&& self.memory_bytes is None
        &&& self.persist_state_interval is None
        &&& self.purge_on_start is None
        &&& self.log_level is None
    }

    pub open spec fn cpu_spec(self, env: Environment) -> Result<Option<Seq<char>>, Fault> {
        let name = "CRAWLEE_MAX_USED_CPU_RATIO"@;
        ratio_setting(ratio_view(self.max_used_cpu_ratio), name, env.value_of(name))
    }

    pub open spec fn memory_ratio_spec(self, env: Environment) -> Result<Option<Seq<char>>, Fault> {
        let name = "CRAWLEE_AVAILABLE_MEMORY_RATIO"@;
        ratio_setting(ratio_view(self.available_memory_ratio), name, env.value_of(name))
    }

    pub open spec fn memory_spec(self, env: Environment) -> Result<Option<u64>, Fault> {
        memory_setting(self.memory_bytes, env.value_of("CRAWLEE_MEMORY_MBYTES"@))
    }

    pub open spec fn interval_spec(self, env: Environment) -> Result<Duration, Fault> {
        interval_setting(
            self.persist_state_interval,
            env.value_of("CRAWLEE_PERSIST_STATE_INTERVAL_MILLIS"@),
        )
    }

    pub open spec fn purge_spec(self, env: Environment) -> Result<bool, Fault> {
        purge_setting(self.purge_on_start, env.value_of("CRAWLEE_PURGE_ON_START"@))
    }

    pub open spec fn level_spec(self, env: Environment) -> Result<LogLevel, Fault> {
        level_setting(self.log_level, env.value_of("CRAWLEE_LOG_LEVEL"@))
    }

    /// The first environment variable that is rejected, in the order of resolution.
    pub open spec fn first_fault(self, env: Environment) -> Option<Fault> {
        if self.cpu_spec(env) is Err {
            Some(self.cpu_spec(env)->Err_0)
        } else if self.memory_ratio_spec(env) is Err {
            Some(self.memory_ratio_spec(env)->Err_0)
        } else if self.memory_spec(env) is Err {
            Some(self.memory_spec(env)->Err_0)
        } else if self.interval_spec(env) is Err {
            Some(self.interval_spec(env)->Err_0)
        } else if self.purge_spec(env) is Err {
            Some(self.purge_spec(env)->Err_0)
        } else if self.level_spec(env) is Err {
            Some(self.level_spec(env)->Err_0)
        } else {
            None
        }
    }

    /// Whether `config` holds what this builder and `env` resolve to.
    pub open spec fn resolves_to(self, env: Environment, config: Configuration) -> bool {
        &&& config.default_dataset_id@ == text_setting(
            opt_view(self.default_dataset_id),
            env.value_of("CRAWLEE_DEFAULT_DATASET_ID"@),
            "default"@,
        )
        &&& config.default_key_value_store_id@ == text_setting(
            opt_view(self.default_key_value_store_id),
            env.value_of("CRAWLEE_DEFAULT_KEY_VALUE_STORE_ID"@),
            "default"@,
        )
        &&& config.default_request_queue_id@ == text_setting(
            opt_view(self.default_request_queue_id),
            env.value_of("CRAWLEE_DEFAULT_REQUEST_QUEUE_ID"@),
            "default"@,
        )
        &&& config.storage_dir@ == text_setting(
            opt_view(self.storage_dir),
            env.value_of("CRAWLEE_STORAGE_DIR"@),
            "./storage"@,
        )
        &&& self.cpu_spec(env) == Ok::<Option<Seq<char>>, Fault>(
            ratio_view(config.max_used_cpu_ratio),
        )
        &&& self.memory_ratio_spec(env) == Ok::<Option<Seq<char>>, Fault>(
            ratio_view(config.available_memory_ratio),
        )
        &&& self.memory_spec(env) == Ok::<Option<u64>, Fault>(config.memory_bytes)
        &&& self.interval_spec(env) == Ok::<Duration, Fault>(config.persist_state_interval)
        &&& self.purge_spec(env) == Ok::<bool, Fault>(config.purge_on_start)
        &&& self.level_spec(env) == Ok::<LogLevel, Fault>(config.log_level)
    }

    /// Sets the default dataset identifier.
    pub fn default_dataset_id(self, value: &str) -> (r: ConfigurationBuilder)
        ensures
            opt_view(r.default_dataset_id) == Some(value@),
            r == (ConfigurationBuilder { default_dataset_id: r.default_dataset_id, ..self }),
    {
        let mut out = self;
        out.default_dataset_id = Some(owned(value));
        out
    }

    /// Sets the default key-value store identifier.
    pub fn default_key_value_store_id(self, value: &str) -> (r: ConfigurationBuilder)
        ensures
            opt_view(r.default_key_value_store_id) == Some(value@),
            r == (ConfigurationBuilder {
                default_key_value_store_id: r.default_key_value_store_id,
                ..self
            }),
    {
        let mut out = self;
        out.default_key_value_store_id = Some(owned(value));
        out
    }

    /// Sets the default request queue identifier.
    pub fn default_request_queue_id(self, value: &str) -> (r: ConfigurationBuilder)
        ensures
            opt_view(r.default_request_queue_id) == Some(value@),
            r == (ConfigurationBuilder {
                default_request_queue_id: r.default_request_queue_id,
                ..self
            }),
    {
        let mut out = self;
        out.default_request_queue_id = Some(owned(value));
        out
    }

    /// Sets the storage directory.
    pub fn storage_dir(self, value: &str) -> (r: ConfigurationBuilder)
        ensures
            opt_view(r.storage_dir) == Some(value@),
            r == (ConfigurationBuilder { storage_dir: r.storage_dir, ..self }),
    {
        let mut out = self;
        out.storage_dir = Some(owned(value));
        out
    }

    /// Sets the maximum used CPU ratio.
    pub fn max_used_cpu_ratio(self, value: Ratio) -> (r: ConfigurationBuilder)
        ensures
            r == (ConfigurationBuilder { max_used_cpu_ratio: Some(value), ..self }),
    {
        let mut out = self;
        out.max_used_cpu_ratio = Some(value);
        out
    }

    /// Sets the available memory ratio.
    pub fn available_memory_ratio(self, value: Ratio) -> (r: ConfigurationBuilder)
        ensures
            r == (ConfigurationBuilder { available_memory_ratio: Some(value), ..self }),
    {
        let mut out = self;
        out.available_memory_ratio = Some(value);
        out
    }

    /// Sets the memory limit in bytes.
    pub fn memory_bytes(self, value: u64) -> (r: ConfigurationBuilder)
        ensures
            r == (ConfigurationBuilder { memory_bytes: Some(value), ..self }),
    {
        let mut out = self;
        out.memory_bytes = Some(value);
        out
    }

    /// Sets the interval between state persistence events.
    pub fn persist_state_interval(self, value: Duration) -> (r: ConfigurationBuilder)
        ensures
            r == (ConfigurationBuilder { persist_state_interval: Some(value), ..self }),
    {
        let mut out = self;
        out.persist_state_interval = Some(value);
        out
    }

    /// Sets whether storage is purged at startup.
    pub fn purge_on_start(self, value: bool) -> (r: ConfigurationBuilder)
        ensures
            r == (ConfigurationBuilder { purge_on_start: Some(value), ..self }),
    {
        let mut out = self;
        out.purge_on_start = Some(value);
        out
    }

    /// Sets the logging verbosity.
    pub fn log_level(self, value: LogLevel) -> (r: ConfigurationBuilder)
        ensures
            r == (ConfigurationBuilder { log_level: Some(value), ..self }),
    {
        let mut out = self;
        out.log_level = Some(value);
        out
    }

    /// Resolves this builder against a set of environment variables.
    pub fn build_with_env(self, env: &Environment) -> (r: Result<Configuration, ConfigError>)
        ensures
            match r {
                Ok(config) => self.first_fault(*env) is None && self.resolves_to(*env, config),
                Err(error) => self.first_fault(*env) is Some && error.reports(
                    self.first_fault(*env).unwrap(),
                ),
            },
    {
        let default_dataset_id: String = choose_text(
            self.default_dataset_id,
            env,
            "CRAWLEE_DEFAULT_DATASET_ID",
            "default",
        );
        let default_key_value_store_id: String = choose_text(
            self.default_key_value_store_id,
            env,
            "CRAWLEE_DEFAULT_KEY_VALUE_STORE_ID",
            "default",
        );
        let default_request_queue_id: String = choose_text(
            self.default_request_queue_id,
            env,
            "CRAWLEE_DEFAULT_REQUEST_QUEUE_ID",
            "default",
        );
        let storage_dir: String = choose_text(
            self.storage_dir,
            env,
            "CRAWLEE_STORAGE_DIR",
            "./storage",
        );
        let max_used_cpu_ratio: Option<Ratio> = match choose_ratio(
            self.max_used_cpu_ratio,
            env,
            "CRAWLEE_MAX_USED_CPU_RATIO",
        ) {
            Ok(ratio) => ratio,
            Err(error) => {
                return Err(error);
            },
        };
        let available_memory_ratio: Option<Ratio> = match choose_ratio(
            self.available_memory_ratio,
            env,
            "CRAWLEE_AVAILABLE_MEMORY_RATIO",
        ) {
            Ok(ratio) => ratio,
            Err(error) => {
                return Err(error);
            },
        };
        let memory_bytes: Option<u64> = match self.memory_bytes {
            Some(value) => Some(value),
            None => match optional_parse(env, "CRAWLEE_MEMORY_MBYTES") {
                Err(error) => {
                    return Err(error);
                },
                Ok(None) => None,
                Ok(Some(megabytes)) => {
                    let bytes: u128 = megabytes as u128 * 1048576;
                    if bytes > u64::MAX as u128 {
                        return Err(
                            fault(
                                "CRAWLEE_MEMORY_MBYTES",
                                decimal_text(megabytes as u128),
                                "value is too large to convert to bytes",
                            ),
                        );
                    }
                    Some(bytes as u64)
                },
            },
        };
        let persist_state_interval: Duration = match self.persist_state_interval {
            Some(value) => value,
            None => match optional_parse(env, "CRAWLEE_PERSIST_STATE_INTERVAL_MILLIS") {
                Err(error) => {
                    return Err(error);
                },
                Ok(None) => Duration::from_millis(60_000),
                Ok(Some(millis)) => Duration::from_millis(millis),
            },
        };
        let purge_on_start: bool = match self.purge_on_start {
            Some(value) => value,
            None => match env.lookup("CRAWLEE_PURGE_ON_START") {
                None => true,
                Some(value) => match parse_bool("CRAWLEE_PURGE_ON_START", value) {
                    Ok(value) => value,
                    Err(error) => {
                        return Err(error);
                    },
                },
            },
        };
        let log_level: LogLevel = match self.log_level {
            Some(value) => value,
            None => match env.lookup("CRAWLEE_LOG_LEVEL") {
                None => LogLevel::Info,
                Some(value) => match LogLevel::from_str(value.as_str()) {
                    Ok(level) => level,
                    Err(_) => {
                        return Err(
                            fault(
                                "CRAWLEE_LOG_LEVEL",
                                value,
                                "expected off, error, warn, info, debug, or trace",
                            ),
                        );
                    },
                },
            },
        };
        Ok(
            Configuration {
                default_dataset_id,
                default_key_value_store_id,
                default_request_queue_id,
                storage_dir,
                max_used_cpu_ratio,
                available_memory_ratio,
                memory_bytes,
                persist_state_interval,
                purge_on_start,
                log_level,
            },
        )
    }
}

/// Fully resolved crawler configuration.
#[derive(Debug)]
pub struct Configuration {
    pub default_dataset_id: String,
    pub default_key_value_store_id: String,
    pub default_request_queue_id: String,
    pub storage_dir: String,
    pub max_used_cpu_ratio: Option<Ratio>,
    pub available_memory_ratio: Option<Ratio>,
    pub memory_bytes: Option<u64>,
    pub persist_state_interval: Duration,
    pub purge_on_start: bool,
    pub log_level: LogLevel,
}

impl Configuration {
    /// Whether every setting has its built-in value.
    pub open spec fn is_default(self) -> bool {
        &&& self.default_dataset_id@ == "default"@
        &&& self.default_key_value_store_id@ == "default"@
        &&& self.default_request_queue_id@ == "default"@
        &&& self.storage_dir@ == "./storage"@
        &&& self.max_used_cpu_ratio is None
        &&& self.available_memory_ratio is None
        &&& self.memory_bytes is None
        &&& self.persist_state_interval == Duration::millis(60_000)
        &&& self.purge_on_start
        &&& self.log_level == LogLevel::Info
    }

    /// Creates an empty configuration builder.
    pub fn builder() -> (r: ConfigurationBuilder)
        ensures
            r.is_new(),
    {
        ConfigurationBuilder::default()
    }

    /// Returns the default dataset identifier.
    pub fn default_dataset_id(&self) -> (r: &str)
        ensures
            r@ == self.default_dataset_id@,
    {
        self.default_dataset_id.as_str()
    }

    /// Returns the default key-value store identifier.
    pub fn default_key_value_store_id(&self) -> (r: &str)
        ensures
            r@ == self.default_key_value_store_id@,
    {
        self.default_key_value_store_id.as_str()
    }

    /// Returns the default request queue identifier.
    pub fn default_request_queue_id(&self) -> (r: &str)
        ensures
            r@ == self.default_request_queue_id@,
    {
        self.default_request_queue_id.as_str()
    }

    /// Returns the storage directory.
    pub fn storage_dir(&self) -> (r: &str)
        ensures
            r@ == self.storage_dir@,
    {
        self.storage_dir.as_str()
    }

    /// Returns the maximum used CPU ratio, when configured.
    pub fn max_used_cpu_ratio(&self) -> (r: Option<&Ratio>)
        ensures
            match r {
                Some(ratio) => self.max_used_cpu_ratio == Some(*ratio),
                None => self.max_used_cpu_ratio is None,
            },
    {
        self.max_used_cpu_ratio.as_ref()
    }

    /// Returns the available memory ratio, when configured.
    pub fn available_memory_ratio(&self) -> (r: Option<&Ratio>)
        ensures
            match r {
                Some(ratio) => self.available_memory_ratio == Some(*ratio),
                None => self.available_memory_ratio is None,
            },
    {
        self.available_memory_ratio.as_ref()
    }

    /// Returns the memory limit in bytes, when configured.
    pub fn memory_bytes(&self) -> (r: Option<u64>)
        ensures
            r == self.memory_bytes,
    {
        self.memory_bytes
    }

    /// Returns the interval between state persistence events.
    pub fn persist_state_interval(&self) -> (r: Duration)
        ensures
            r == self.persist_state_interval,
    {
        self.persist_state_interval
    }

    /// Returns whether storage is purged at startup.
    pub fn purge_on_start(&self) -> (r: bool)
        ensures
            r == self.purge_on_start,
    {
        self.purge_on_start
    }

    /// Returns the logging verbosity.
    pub fn log_level(&self) -> (r: LogLevel)
        ensures
            r == self.log_level,
    {
        self.log_level
    }
}

impl Default for Configuration {
    fn default() -> (r: Self)
        ensures
            r.is_default(),
    {
        Configuration {
            default_dataset_id: owned("default"),
            default_key_value_store_id: owned("default"),
            default_request_queue_id: owned("default"),
            storage_dir: owned("./storage"),
            max_used_cpu_ratio: None,
            available_memory_ratio: None,
            memory_bytes: None,
            persist_state_interval: Duration::from_millis(60_000),
            purge_on_start: true,
            log_level: LogLevel::Info,
        }
    }
}

/// A builder on which nothing is set, resolved in an environment without variables, gives the
/// built-in values.
pub proof fn nothing_set_gives_the_defaults(
    builder: ConfigurationBuilder,
    env: Environment,
    config: Configuration,
)
    requires
        builder.is_new(),
        forall|name: Seq<char>| (#[trigger] env.value_of(name)) is None,
        builder.resolves_to(env, config),
    ensures
        builder.first_fault(env) is None,
        config.is_default(),
{
}

/// What a builder sets is what the configuration holds, whatever the environment says, and a
/// variable behind a setting that the builder makes is never rejected.
pub proof fn builder_beats_environment(
    builder: ConfigurationBuilder,
    env: Environment,
    config: Configuration,
)
    requires
        builder.resolves_to(env, config),
    ensures
        builder.default_dataset_id is Some ==> config.default_dataset_id@
            == builder.default_dataset_id.unwrap()@,
        builder.default_key_value_store_id is Some ==> config.default_key_value_store_id@
            == builder.default_key_value_store_id.unwrap()@,
        builder.default_request_queue_id is Some ==> config.default_request_queue_id@
            == builder.default_request_queue_id.unwrap()@,
        builder.storage_dir is Some ==> config.storage_dir@ == builder.storage_dir.unwrap()@,
        builder.max_used_cpu_ratio is Some ==> ratio_view(config.max_used_cpu_ratio) == Some(
            builder.max_used_cpu_ratio.unwrap()@,
        ),
        builder.available_memory_ratio is Some ==> ratio_view(config.available_memory_ratio)
            == Some(builder.available_memory_ratio.unwrap()@),
        builder.memory_bytes is Some ==> config.memory_bytes == builder.memory_bytes,
        builder.persist_state_interval is Some ==> config.persist_state_interval
            == builder.persist_state_interval.unwrap(),
        builder.purge_on_start is Some ==> config.purge_on_start == builder.purge_on_start.unwrap(),
        builder.log_level is Some ==> config.log_level == builder.log_level.unwrap(),
{
}

/// Reading a level's name gives back the level.
pub proof fn level_names_round_trip(level: LogLevel)
    ensures
        LogLevel::named(level.name_spec()) == Some(level),
{
    reveal_strlit("off");
    reveal_strlit("error");
    reveal_strlit("warn");
    reveal_strlit("info");
    reveal_strlit("debug");
    reveal_strlit("trace");
    assert(ascii_lower("off"@) =~= "off"@);
    assert(ascii_lower("error"@) =~= "error"@);
    assert(ascii_lower("warn"@) =~= "warn"@);
    assert(ascii_lower("info"@) =~= "info"@);
    assert(ascii_lower("debug"@) =~= "debug"@);
    assert(ascii_lower("trace"@) =~= "trace"@);
    assert("error"@[0] == 'e' && "debug"@[0] == 'd' && "trace"@[0] == 't');
    assert("warn"@[0] == 'w' && "info"@[0] == 'i');
}

/// A text setting is the builder's where it was set there, else the environment's, else the default:
/// `default` for the stores and `./storage` for the directory.
pub proof fn where_text_settings_come_from(
    builder: ConfigurationBuilder,
    env: Environment,
    config: Configuration,
)
    requires
        builder.resolves_to(env, config),
    ensures
        builder.default_dataset_id is Some ==> config.default_dataset_id@
            == builder.default_dataset_id.unwrap()@,
        builder.default_dataset_id is None && env.value_of("CRAWLEE_DEFAULT_DATASET_ID"@) is Some
            ==> config.default_dataset_id@ == env.value_of("CRAWLEE_DEFAULT_DATASET_ID"@).unwrap(),
        builder.default_dataset_id is None && env.value_of("CRAWLEE_DEFAULT_DATASET_ID"@) is None
            ==> config.default_dataset_id@ == "default"@,
        builder.default_key_value_store_id is Some ==> config.default_key_value_store_id@
            == builder.default_key_value_store_id.unwrap()@,
        builder.default_key_value_store_id is None && env.value_of(
            "CRAWLEE_DEFAULT_KEY_VALUE_STORE_ID"@,
        ) is Some ==> config.default_key_value_store_id@ == env.value_of(
            "CRAWLEE_DEFAULT_KEY_VALUE_STORE_ID"@,
        ).unwrap(),
        builder.default_key_value_store_id is None && env.value_of(
            "CRAWLEE_DEFAULT_KEY_VALUE_STORE_ID"@,
        ) is None ==> config.default_key_value_store_id@ == "default"@,
        builder.default_request_queue_id is Some ==> config.default_request_queue_id@
            == builder.default_request_queue_id.unwrap()@,
        builder.default_request_queue_id is None && env.value_of("CRAWLEE_DEFAULT_REQUEST_QUEUE_ID"@)
            is Some ==> config.default_request_queue_id@ == env.value_of(
            "CRAWLEE_DEFAULT_REQUEST_QUEUE_ID"@,
        ).unwrap(),
        builder.default_request_queue_id is None && env.value_of("CRAWLEE_DEFAULT_REQUEST_QUEUE_ID"@)
            is None ==> config.default_request_queue_id@ == "default"@,
        builder.storage_dir is Some ==> config.storage_dir@ == builder.storage_dir.unwrap()@,
        builder.storage_dir is None && env.value_of("CRAWLEE_STORAGE_DIR"@) is Some
            ==> config.storage_dir@ == env.value_of("CRAWLEE_STORAGE_DIR"@).unwrap(),
        builder.storage_dir is None && env.value_of("CRAWLEE_STORAGE_DIR"@) is None
            ==> config.storage_dir@ == "./storage"@,
{
}

/// The other settings come the same way. A megabyte in the environment is 1,048,576 bytes, an interval
/// there is in milliseconds and a minute by default, stores are purged unless a switch says `0` or
/// `false`, and the level is `info` by default; the case of letters in switches and levels does not
/// count.
pub proof fn where_other_settings_come_from(
    builder: ConfigurationBuilder,
    env: Environment,
    config: Configuration,
    n: nat,
)
    requires
        builder.resolves_to(env, config),
        n <= u64::MAX,
    ensures
        builder.max_used_cpu_ratio is Some ==> config.max_used_cpu_ratio is Some
            && config.max_used_cpu_ratio.unwrap()@ == builder.max_used_cpu_ratio.unwrap()@,
        builder.max_used_cpu_ratio is None ==> ratio_view(config.max_used_cpu_ratio) == env.value_of(
            "CRAWLEE_MAX_USED_CPU_RATIO"@,
        ),
        builder.available_memory_ratio is Some ==> config.available_memory_ratio is Some
            && config.available_memory_ratio.unwrap()@ == builder.available_memory_ratio.unwrap()@,
        builder.available_memory_ratio is None ==> ratio_view(config.available_memory_ratio)
            == env.value_of("CRAWLEE_AVAILABLE_MEMORY_RATIO"@),
        builder.memory_bytes is Some ==> config.memory_bytes == builder.memory_bytes,
        builder.memory_bytes is None && env.value_of("CRAWLEE_MEMORY_MBYTES"@) is None
            ==> config.memory_bytes is None,
        builder.memory_bytes is None && env.value_of("CRAWLEE_MEMORY_MBYTES"@) == Some(decimal(n))
            ==> config.memory_bytes is Some && config.memory_bytes.unwrap() == n * 1_048_576,
        builder.persist_state_interval is Some ==> config.persist_state_interval
            == builder.persist_state_interval.unwrap(),
        builder.persist_state_interval is None && env.value_of(
            "CRAWLEE_PERSIST_STATE_INTERVAL_MILLIS"@,
        ) is None ==> config.persist_state_interval.nanos == 60_000_000_000,
        builder.persist_state_interval is None && env.value_of(
            "CRAWLEE_PERSIST_STATE_INTERVAL_MILLIS"@,
        ) == Some(decimal(n)) ==> config.persist_state_interval.nanos == n * 1_000_000,
        builder.purge_on_start is Some ==> config.purge_on_start == builder.purge_on_start.unwrap(),
        builder.purge_on_start is None && env.value_of("CRAWLEE_PURGE_ON_START"@) is None
            ==> config.purge_on_start,
        builder.purge_on_start is None && env.value_of("CRAWLEE_PURGE_ON_START"@) is Some ==> {
            let word = ascii_lower(env.value_of("CRAWLEE_PURGE_ON_START"@).unwrap());
            &&& config.purge_on_start <==> word == "1"@ || word == "true"@
            &&& !config.purge_on_start <==> word == "0"@ || word == "false"@
        },
        builder.log_level is Some ==> config.log_level == builder.log_level.unwrap(),
        builder.log_level is None && env.value_of("CRAWLEE_LOG_LEVEL"@) is None ==> config.log_level
            == LogLevel::Info,
        builder.log_level is None && env.value_of("CRAWLEE_LOG_LEVEL"@) is Some ==> ascii_lower(
            env.value_of("CRAWLEE_LOG_LEVEL"@).unwrap(),
        ) == match config.log_level {
            LogLevel::Off => "off"@,
            LogLevel::Error => "error"@,
            LogLevel::Warn => "warn"@,
            LogLevel::Info => "info"@,
            LogLevel::Debug => "debug"@,
            LogLevel::Trace => "trace"@,
        },
{
    decimal_digits_give_the_number_back(n, u64::MAX as nat);
    reveal_strlit("1");
    reveal_strlit("true");
    reveal_strlit("0");
    reveal_strlit("false");
    assert("1"@ != "0"@ && "1"@ != "false"@ && "true"@ != "0"@ && "true"@ != "false"@) by {
        assert("1"@[0] == '1' && "0"@[0] == '0' && "true"@[0] == 't' && "false"@[0] == 'f');
    }
}

/// A variable that cannot be read is reported with its name and its value, but only where the builder
/// does not set what it stands for.
pub proof fn unreadable_variables_are_reported(builder: ConfigurationBuilder, env: Environment)
    ensures
        builder.first_fault(env) is None ==> {
            &&& builder.purge_on_start is None && env.value_of("CRAWLEE_PURGE_ON_START"@) is Some
                ==> switch_value(env.value_of("CRAWLEE_PURGE_ON_START"@).unwrap()) is Some
            &&& builder.log_level is None && env.value_of("CRAWLEE_LOG_LEVEL"@) is Some
                ==> LogLevel::named(env.value_of("CRAWLEE_LOG_LEVEL"@).unwrap()) is Some
            &&& builder.memory_bytes is None && env.value_of("CRAWLEE_MEMORY_MBYTES"@) is Some
                ==> parsed_number(
                env.value_of("CRAWLEE_MEMORY_MBYTES"@).unwrap(),
                u64::MAX as nat,
            ) is Some
            &&& builder.persist_state_interval is None && env.value_of(
                "CRAWLEE_PERSIST_STATE_INTERVAL_MILLIS"@,
            ) is Some ==> parsed_number(
                env.value_of("CRAWLEE_PERSIST_STATE_INTERVAL_MILLIS"@).unwrap(),
                u64::MAX as nat,
            ) is Some
            &&& builder.max_used_cpu_ratio is None && env.value_of("CRAWLEE_MAX_USED_CPU_RATIO"@)
                is Some ==> is_float_text(env.value_of("CRAWLEE_MAX_USED_CPU_RATIO"@).unwrap())
            &&& builder.available_memory_ratio is None && env.value_of(
                "CRAWLEE_AVAILABLE_MEMORY_RATIO"@,
            ) is Some ==> is_float_text(env.value_of("CRAWLEE_AVAILABLE_MEMORY_RATIO"@).unwrap())
        },
        builder.first_fault(env) is Some ==> {
            let fault = builder.first_fault(env).unwrap();
            &&& fault.name == "CRAWLEE_MEMORY_MBYTES"@ || env.value_of(fault.name) == Some(
                fault.value,
            )
            &&& fault.name == "CRAWLEE_MAX_USED_CPU_RATIO"@ || fault.name
                == "CRAWLEE_AVAILABLE_MEMORY_RATIO"@ ==> fault.message
                == "expected a floating-point number"@
            &&& fault.name == "CRAWLEE_PERSIST_STATE_INTERVAL_MILLIS"@ ==> fault.message
                == "expected an unsigned integer"@
            &&& fault.name == "CRAWLEE_MEMORY_MBYTES"@ ==> fault.message
                == "expected an unsigned integer"@ || fault.message
                == "value is too large to convert to bytes"@
            &&& fault.name == "CRAWLEE_PURGE_ON_START"@ ==> fault.message
                == "expected 1, true, 0, or false"@
            &&& fault.name == "CRAWLEE_LOG_LEVEL"@ ==> fault.message
                == "expected off, error, warn, info, debug, or trace"@
        },
        builder.first_fault(env) is Some && builder.purge_on_start is Some
            ==> builder.first_fault(env).unwrap().name != "CRAWLEE_PURGE_ON_START"@,
        builder.first_fault(env) is Some && builder.log_level is Some ==> builder.first_fault(
            env,
        ).unwrap().name != "CRAWLEE_LOG_LEVEL"@,
        builder.first_fault(env) is Some && builder.memory_bytes is Some ==> builder.first_fault(
            env,
        ).unwrap().name != "CRAWLEE_MEMORY_MBYTES"@,
        builder.first_fault(env) is Some && builder.persist_state_interval is Some
            ==> builder.first_fault(env).unwrap().name != "CRAWLEE_PERSIST_STATE_INTERVAL_MILLIS"@,
        builder.first_fault(env) is Some && builder.max_used_cpu_ratio is Some
            ==> builder.first_fault(env).unwrap().name != "CRAWLEE_MAX_USED_CPU_RATIO"@,
        builder.first_fault(env) is Some && builder.available_memory_ratio is Some
            ==> builder.first_fault(env).unwrap().name != "CRAWLEE_AVAILABLE_MEMORY_RATIO"@,
{
    lemma_variable_names_differ();
}

proof fn lemma_variable_names_differ()
    ensures
        "CRAWLEE_MAX_USED_CPU_RATIO"@.len() == 26 && "CRAWLEE_MAX_USED_CPU_RATIO"@[9] == 'A',
        "CRAWLEE_AVAILABLE_MEMORY_RATIO"@.len() == 30,
        "CRAWLEE_MEMORY_MBYTES"@.len() == 21,
        "CRAWLEE_PERSIST_STATE_INTERVAL_MILLIS"@.len() == 37,
        "CRAWLEE_PURGE_ON_START"@.len() == 22,
        "CRAWLEE_LOG_LEVEL"@.len() == 17,
{
    reveal_strlit("CRAWLEE_MAX_USED_CPU_RATIO");
    reveal_strlit("CRAWLEE_AVAILABLE_MEMORY_RATIO");
    reveal_strlit("CRAWLEE_MEMORY_MBYTES");
    reveal_strlit("CRAWLEE_PERSIST_STATE_INTERVAL_MILLIS");
    reveal_strlit("CRAWLEE_PURGE_ON_START");
    reveal_strlit("CRAWLEE_LOG_LEVEL");
}

/// Of several variables that cannot be read the first one is reported: the two ratios, then memory,
/// interval, purge switch and level.
pub proof fn faults_are_reported_in_order(builder: ConfigurationBuilder, env: Environment)
    ensures
        builder.cpu_spec(env) is Err ==> builder.first_fault(env) == Some(
            builder.cpu_spec(env)->Err_0,
        ),
        builder.cpu_spec(env) is Ok && builder.memory_ratio_spec(env) is Err
            ==> builder.first_fault(env) == Some(builder.memory_ratio_spec(env)->Err_0),
        builder.cpu_spec(env) is Ok && builder.memory_ratio_spec(env) is Ok && builder.memory_spec(
            env,
        ) is Err ==> builder.first_fault(env) == Some(builder.memory_spec(env)->Err_0),
        builder.cpu_spec(env) is Ok && builder.memory_ratio_spec(env) is Ok && builder.memory_spec(
            env,
        ) is Ok && builder.interval_spec(env) is Err ==> builder.first_fault(env) == Some(
            builder.interval_spec(env)->Err_0,
        ),
        builder.cpu_spec(env) is Ok && builder.memory_ratio_spec(env) is Ok && builder.memory_spec(
            env,
        ) is Ok && builder.interval_spec(env) is Ok && builder.purge_spec(env) is Err
            ==> builder.first_fault(env) == Some(builder.purge_spec(env)->Err_0),
{
}

/// The names of levels in any case of their letters, and no other text, give a level.
pub proof fn what_names_a_level(text: Seq<char>)
    ensures
        LogLevel::named(text) == Some(LogLevel::Off) <==> ascii_lower(text) == "off"@,
        LogLevel::named(text) == Some(LogLevel::Error) <==> ascii_lower(text) == "error"@,
        LogLevel::named(text) == Some(LogLevel::Warn) <==> ascii_lower(text) == "warn"@,
        LogLevel::named(text) == Some(LogLevel::Info) <==> ascii_lower(text) == "info"@,
        LogLevel::named(text) == Some(LogLevel::Debug) <==> ascii_lower(text) == "debug"@,
        LogLevel::named(text) == Some(LogLevel::Trace) <==> ascii_lower(text) == "trace"@,
        switch_value(text) == Some(true) <==> ascii_lower(text) == "1"@ || ascii_lower(text)
            == "true"@,
        switch_value(text) == Some(false) <==> ascii_lower(text) == "0"@ || ascii_lower(text)
            == "false"@,
{
    reveal_strlit("off");
    reveal_strlit("error");
    reveal_strlit("warn");
    reveal_strlit("info");
    reveal_strlit("debug");
    reveal_strlit("trace");
    reveal_strlit("1");
    reveal_strlit("0");
    reveal_strlit("true");
    reveal_strlit("false");
    assert("off"@[0] == 'o' && "error"@[0] == 'e' && "warn"@[0] == 'w' && "info"@[0] == 'i'
        && "debug"@[0] == 'd' && "trace"@[0] == 't' && "1"@[0] == '1' && "0"@[0] == '0'
        && "true"@[0] == 't' && "false"@[0] == 'f');
}

/// Digits, with a point among them or not, and with an exponent of digits behind them or not, write a
/// number, and so do they with a sign before them; a point alone does not, nor does nothing.
pub proof fn what_writes_a_number(whole: Seq<char>, fraction: Seq<char>, exponent: Seq<char>)
    requires
        forall|i: int| 0 <= i < whole.len() ==> is_digit(#[trigger] whole[i]),
        forall|i: int| 0 <= i < fraction.len() ==> is_digit(#[trigger] fraction[i]),
        forall|i: int| 0 <= i < exponent.len() ==> is_digit(#[trigger] exponent[i]),
        exponent.len() > 0,
    ensures
        whole.len() > 0 ==> is_unsigned_decimal(whole) && is_unsigned_decimal(
            whole + seq!['e'] + exponent,
        ) && is_unsigned_decimal(whole + seq!['E'] + exponent) && is_unsigned_decimal(
            whole + seq!['e'] + (seq!['-'] + exponent),
        ) && is_unsigned_decimal(whole + seq!['e'] + (seq!['+'] + exponent)),
        whole.len() + fraction.len() > 0 ==> is_unsigned_decimal(whole + seq!['.'] + fraction),
        whole.len() + fraction.len() > 0 ==> is_float_text(
            seq!['-'] + (whole + seq!['.'] + fraction),
        ) && is_float_text(seq!['+'] + (whole + seq!['.'] + fraction)),
        !is_unsigned_decimal(seq!['.']),
        !is_unsigned_decimal(Seq::<char>::empty()),
{
    let nothing = Seq::<char>::empty();
    lemma_digit_run(whole, nothing);
    assert(whole + nothing =~= whole);
    assert(whole.skip(whole.len() as int) =~= nothing);
    lemma_exponent(whole, 'e', exponent, exponent);
    lemma_exponent(whole, 'E', exponent, exponent);
    assert((seq!['-'] + exponent).skip(1) =~= exponent);
    lemma_exponent(whole, 'e', seq!['-'] + exponent, exponent);
    assert((seq!['+'] + exponent).skip(1) =~= exponent);
    lemma_exponent(whole, 'e', seq!['+'] + exponent, exponent);
    let broken = whole + seq!['.'] + fraction;
    lemma_digit_run(whole, seq!['.'] + fraction);
    assert(broken =~= whole + (seq!['.'] + fraction));
    assert(broken.skip(whole.len() as int) =~= seq!['.'] + fraction);
    assert((seq!['.'] + fraction).skip(1) =~= fraction);
    lemma_digit_run(fraction, nothing);
    assert(fraction + nothing =~= fraction);
    assert(fraction.skip(fraction.len() as int) =~= nothing);
    assert((seq!['-'] + broken).skip(1) =~= broken);
    assert((seq!['+'] + broken).skip(1) =~= broken);
    lemma_digit_run(nothing, seq!['.']);
    assert(nothing + seq!['.'] =~= seq!['.']);
    assert(seq!['.'].skip(0) =~= seq!['.']);
    assert(seq!['.'].skip(1) =~= nothing);
    lemma_digit_run(nothing, nothing);
    assert(nothing + nothing =~= nothing);
}

proof fn lemma_exponent(whole: Seq<char>, mark: char, tail: Seq<char>, digits: Seq<char>)
    requires
        whole.len() > 0 ==> is_digit(whole[0]),
        forall|i: int| 0 <= i < whole.len() ==> is_digit(#[trigger] whole[i]),
        forall|i: int| 0 <= i < digits.len() ==> is_digit(#[trigger] digits[i]),
        digits.len() > 0,
        mark == 'e' || mark == 'E',
        tail == digits || without_sign(tail) == digits,
    ensures
        whole.len() > 0 ==> is_unsigned_decimal(whole + seq![mark] + tail),
{
    let nothing = Seq::<char>::empty();
    let text = whole + seq![mark] + tail;
    let rest = seq![mark] + tail;
    lemma_digit_run(whole, rest);
    assert(text =~= whole + rest);
    assert(text.skip(whole.len() as int) =~= rest);
    assert(rest.skip(1) =~= tail);
    lemma_digit_run(digits, nothing);
    assert(digits + nothing =~= digits);
    assert(is_digit(digits[0]));
}

proof fn lemma_digit_run(digits: Seq<char>, rest: Seq<char>)
    requires
        forall|i: int| 0 <= i < digits.len() ==> is_digit(#[trigger] digits[i]),
        rest.len() > 0 ==> !is_digit(rest[0]),
    ensures
        digit_run(digits + rest) == digits.len(),
    decreases digits.len(),
{
    if digits.len() > 0 {
        assert((digits + rest)[0] == digits[0]);
        assert((digits + rest).drop_first() =~= digits.drop_first() + rest);
        lemma_digit_run(digits.drop_first(), rest);
    } else {
        assert(digits + rest =~= rest);
    }
}

/// No text with another character than digits, signs, points and the letter of exponents writes a
/// number, but for the three words for infinities and what is no number.
pub proof fn what_writes_no_number(text: Seq<char>, at: int)
    requires
        0 <= at < text.len(),
        !is_digit(text[at]),
        text[at] != '+' && text[at] != '-' && text[at] != '.' && text[at] != 'e' && text[at] != 'E',
        is_float_text(text),
    ensures
        ({
            let word = ascii_lower(without_sign(text));
            word == "inf"@ || word == "infinity"@ || word == "nan"@
        }),
{
    let rest = without_sign(text);
    if is_unsigned_decimal(rest) {
        let off = text.len() - rest.len();
        assert(rest[at - off] == text[at]);
        let i = at - off;
        let whole = digit_run(rest) as int;
        lemma_run_is_digits(rest);
        assert(i >= whole);
        let tail = rest.skip(whole);
        assert(tail[i - whole] == rest[i]);
        if tail[0] == '.' {
            let behind = tail.skip(1);
            let fraction = digit_run(behind) as int;
            lemma_run_is_digits(behind);
            assert(behind[i - whole - 1] == rest[i]);
            lemma_tail_characters(behind.skip(fraction), i - whole - 1 - fraction);
        } else {
            lemma_tail_characters(tail, i - whole);
        }
    }
}

proof fn lemma_run_is_digits(s: Seq<char>)
    ensures
        digit_run(s) <= s.len(),
        forall|i: int| 0 <= i < digit_run(s) ==> is_digit(#[trigger] s[i]),
    decreases s.len(),
{
    if s.len() > 0 && is_digit(s[0]) {
        lemma_run_is_digits(s.drop_first());
        assert forall|i: int| 0 <= i < digit_run(s) implies is_digit(#[trigger] s[i]) by {
            if i > 0 {
                assert(s[i] == s.drop_first()[i - 1]);
            }
        }
    }
}

proof fn lemma_tail_characters(s: Seq<char>, i: int)
    requires
        is_exponent_tail(s),
        0 <= i < s.len(),
    ensures
        is_digit(s[i]) || s[i] == 'e' || s[i] == 'E' || s[i] == '+' || s[i] == '-',
{
    let behind = s.skip(1);
    let digits = without_sign(behind);
    lemma_run_is_digits(digits);
    if i > 0 {
        assert(behind[i - 1] == s[i]);
        let off = behind.len() - digits.len();
        if i - 1 >= off {
            assert(digits[i - 1 - off] == s[i]);
        }
    }
}

} // verus!
