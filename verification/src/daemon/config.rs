//! Configuration: defaults, then a file, then the environment, then the command
//! line.
use crate::daemon::filter::{is_level_word, level_word};
use crate::link::{
    AOA_DEFAULT_PATH, AOA_INTER_CHUNK_DELAY_MS, AOA_MAX_CHUNK, TTY_BAUD, TTY_DEFAULT_PATH,
};
use crate::registers::ids::{id_from_hex, UnitId};
use crate::text::{
    chars_of, decimal, push_decimal, same_text, str_option, text_of, text_option, trim, trim_bounds,
};
use vstd::prelude::*;
use vstd::string::*;

verus! {

/// Default address to listen on.
pub const DEFAULT_BIND: &'static str = "127.0.0.1:2026";

/// Default AOA chunk size.
pub const DEFAULT_AOA_CHUNK_SIZE: usize = AOA_MAX_CHUNK;

/// Default delay between AOA chunks, in milliseconds.
pub const DEFAULT_AOA_CHUNK_DELAY_MS: u64 = AOA_INTER_CHUNK_DELAY_MS;

/// Default TTY baud rate.
pub const DEFAULT_TTY_BAUD: u32 = TTY_BAUD;

/// Default log level.
pub const DEFAULT_LOG_LEVEL: &'static str = "info";

/// First place of the configuration file.
pub const ETC_CONFIG: &'static str = "/etc/cb-daemon/config.toml";

/// Second place of the configuration file.
pub const CWD_CONFIG: &'static str = "./config.toml";

/// Minutes of a year.
pub const YEAR_MINUTES: u64 = 525_600;

/// Seconds of a year.
pub const YEAR_SECONDS: u64 = 31_536_000;

/// The link that the daemon uses.
#[derive(Debug, Clone, Copy, PartialEq, Eq, Structural)]
pub enum Backend {
    /// In memory, with a scripted unit.
    Mock,
    /// USB accessory.
    Aoa,
    /// Serial line.
    Tty,
}

impl Backend {
    /// The word of a backend.
    pub open spec fn word(self) -> Seq<char> {
        match self {
            Backend::Mock => "mock"@,
            Backend::Aoa => "aoa"@,
            Backend::Tty => "tty"@,
        }
    }

    /// The word of this backend.
    pub fn as_str(self) -> (r: &'static str)
        ensures
            r@ == self.word(),
    {
        match self {
            Backend::Mock => "mock",
            Backend::Aoa => "aoa",
            Backend::Tty => "tty",
        }
    }
}

/// Whether a backend leaves the USB accessory alone.
pub fn mock_backend_avoids_accessory(backend: Backend) -> (r: bool)
    ensures
        r == (backend is Mock),
{
    matches!(backend, Backend::Mock)
}

/// Why a configuration is refused.
#[derive(Debug, Clone, PartialEq, Eq)]
pub struct ConfigError {
    /// What is wrong.
    pub text: String,
    /// Why it is wrong.
    pub cause: Option<String>,
}

/// What a configuration error says.
#[verifier::ext_equal]
pub ghost struct ConfigFault {
    pub text: Seq<char>,
    pub cause: Option<Seq<char>>,
}

impl View for ConfigError {
    type V = ConfigFault;

    open spec fn view(&self) -> ConfigFault {
        ConfigFault {
            text: self.text@,
            cause: match self.cause {
                Some(s) => Some(s@),
                None => None,
            },
        }
    }
}

impl ConfigFault {
    /// The text of the error with its cause.
    pub open spec fn full(self) -> Seq<char> {
        match self.cause {
            Some(cause) => self.text + ": "@ + cause,
            None => self.text,
        }
    }
}

impl ConfigError {
    /// The text of this error with its cause.
    pub fn describe(&self) -> (out: String)
        ensures
            out@ == self@.full(),
    {
        let mut out = self.text.clone();
        if let Some(cause) = &self.cause {
            out.append(": ");
            out.append(cause.as_str());
        }
        out
    }
}

/// What an outcome says.
pub open spec fn known<T>(r: Result<T, ConfigError>) -> Result<T, ConfigFault> {
    match r {
        Ok(v) => Ok(v),
        Err(e) => Err(e@),
    }
}

/// A character with ASCII capitals made small.
pub open spec fn small(c: char) -> char {
    if 'A' <= c <= 'Z' {
        (c as u8 + 32) as char
    } else {
        c
    }
}

/// A text with ASCII capitals made small.
pub open spec fn small_text(s: Seq<char>) -> Seq<char> {
    s.map_values(|c: char| small(c))
}

/// A text without the white space around it.
fn trimmed(s: &str) -> (out: String)
    ensures
        out@ == trim(s@),
{
    let chars = chars_of(s);
    let (from, to) = trim_bounds(chars.as_slice());
    let mut out: Vec<char> = Vec::new();
    let mut i: usize = from;
    while i < to
        invariant
            from <= i <= to <= chars@.len(),
            out@ == chars@.subrange(from as int, i as int),
        decreases to - i,
    {
        out.push(chars[i]);
        proof {
            assert(chars@.subrange(from as int, i + 1) =~= chars@.subrange(
                from as int,
                i as int,
            ).push(chars@[i as int]));
        }
        i = i + 1;
    }
    text_of(out.as_slice())
}

/// A text with ASCII capitals made small.
fn lowered(s: &str) -> (out: String)
    ensures
        out@ == small_text(s@),
{
    let chars = chars_of(s);
    let mut out: Vec<char> = Vec::new();
    let mut i: usize = 0;
    while i < chars.len()
        invariant
            i <= chars@.len(),
            out@ == small_text(chars@.take(i as int)),
        decreases chars@.len() - i,
    {
        let c = chars[i];
        let lower = if 'A' <= c && c <= 'Z' {
            (c as u8 + 32) as char
        } else {
            c
        };
        out.push(lower);
        proof {
            assert(small_text(chars@.take(i + 1)) =~= small_text(chars@.take(i as int)).push(
                small(c),
            ));
        }
        i = i + 1;
    }
    proof {
        assert(chars@.take(i as int) =~= chars@);
    }
    text_of(out.as_slice())
}

/// The backend that a text names; case and white space around it do not count.
pub open spec fn backend_of(s: Seq<char>) -> Result<Backend, Seq<char>> {
    let word = small_text(trim(s));
    if word == "mock"@ {
        Ok(Backend::Mock)
    } else if word == "aoa"@ {
        Ok(Backend::Aoa)
    } else if word == "tty"@ {
        Ok(Backend::Tty)
    } else {
        Err("unknown backend `"@ + word + "`; expected mock, aoa, or tty"@)
    }
}

/// The backend that a text names.
pub fn parse_backend(s: &str) -> (r: Result<Backend, String>)
    ensures
        match r {
            Ok(b) => backend_of(s@) == Ok::<Backend, Seq<char>>(b),
            Err(e) => backend_of(s@) == Err::<Backend, Seq<char>>(e@),
        },
{
    let trimmed = trimmed(s);
    let word = lowered(trimmed.as_str());
    if same_text(word.as_str(), "mock") {
        Ok(Backend::Mock)
    } else if same_text(word.as_str(), "aoa") {
        Ok(Backend::Aoa)
    } else if same_text(word.as_str(), "tty") {
        Ok(Backend::Tty)
    } else {
        let mut e = "unknown backend `".to_owned();
        e.append(word.as_str());
        e.append("`; expected mock, aoa, or tty");
        Err(e)
    }
}

/// The unit id that a hint names; white space around it does not count.
pub open spec fn hint_of(s: Seq<char>) -> Result<UnitId, Seq<char>> {
    match id_from_hex(trim(s)) {
        Some(id) => Ok(id),
        None => Err(
            "unit_id_hint `"@ + s
                + "` must be exactly 5 hex digits (aa-registers UnitId): BadHex"@,
        ),
    }
}

/// The unit id that a hint names.
pub fn parse_unit_id_hint(raw: &str) -> (r: Result<UnitId, String>)
    ensures
        match r {
            Ok(id) => hint_of(raw@) == Ok::<UnitId, Seq<char>>(id),
            Err(e) => hint_of(raw@) == Err::<UnitId, Seq<char>>(e@),
        },
{
    let trimmed = trimmed(raw);
    match UnitId::from_hex(trimmed.as_str()) {
        Ok(id) => Ok(id),
        Err(_) => {
            let mut e = "unit_id_hint `".to_owned();
            e.append(raw);
            e.append("` must be exactly 5 hex digits (aa-registers UnitId): BadHex");
            Err(e)
        },
    }
}

/// Why a text is no natural number.
#[derive(Debug, Clone, Copy, PartialEq, Eq, Structural)]
pub enum NumberFault {
    /// There is no text.
    Empty,
    /// There is a character that is no digit.
    Digit,
    /// The number is too large.
    Large,
}

impl NumberFault {
    /// The text of the fault.
    pub open spec fn text(self) -> Seq<char> {
        match self {
            NumberFault::Empty => "cannot parse integer from empty string"@,
            NumberFault::Digit => "invalid digit found in string"@,
            NumberFault::Large => "number too large to fit in target type"@,
        }
    }

    /// The text of this fault.
    pub fn describe(self) -> (r: &'static str)
        ensures
            r@ == self.text(),
    {
        match self {
            NumberFault::Empty => "cannot parse integer from empty string",
            NumberFault::Digit => "invalid digit found in string",
            NumberFault::Large => "number too large to fit in target type",
        }
    }
}

/// The number of a run of decimal digits, at most `max`. The first fault from the
/// left counts.
pub open spec fn digits_value(s: Seq<char>, max: nat) -> Result<nat, NumberFault>
    decreases s.len(),
{
    if s.len() == 0 {
        Ok(0)
    } else {
        match digits_value(s.drop_last(), max) {
            Err(e) => Err(e),
            Ok(n) => {
                let c = s.last();
                if !('0' <= c <= '9') {
                    Err(NumberFault::Digit)
                } else if n * 10 + (c as u8 - '0' as u8) > max {
                    Err(NumberFault::Large)
                } else {
                    Ok((n * 10 + (c as u8 - '0' as u8)) as nat)
                }
            },
        }
    }
}

/// The number of a text of decimal digits, of which a plus sign may stand in front.
pub open spec fn number_of(s: Seq<char>, max: nat) -> Result<nat, NumberFault> {
    if s.len() == 0 {
        Err(NumberFault::Empty)
    } else if s == seq!['+'] {
        Err(NumberFault::Digit)
    } else if s[0] == '+' {
        digits_value(s.skip(1), max)
    } else {
        digits_value(s, max)
    }
}

/// The number of a text, at most `max`.
pub fn parse_number(s: &str, max: u64) -> (r: Result<u64, NumberFault>)
    ensures
        match r {
            Ok(n) => number_of(s@, max as nat) == Ok::<nat, NumberFault>(n as nat) && n <= max,
            Err(e) => number_of(s@, max as nat) == Err::<nat, NumberFault>(e),
        },
{
    let chars = chars_of(s);
    if chars.len() == 0 {
        return Err(NumberFault::Empty);
    }
    let start: usize = if chars[0] == '+' {
        if chars.len() == 1 {
            proof {
                assert(s@ =~= seq!['+']);
            }
            return Err(NumberFault::Digit);
        }
        1
    } else {
        0
    };
    let ghost digits = s@.skip(start as int);
    proof {
        if start == 0 {
            assert(digits =~= s@);
            assert(s@ != seq!['+']);
        }
        assert(number_of(s@, max as nat) == digits_value(digits, max as nat));
        assert(digits.take(0) =~= seq![]);
    }
    let mut n: u64 = 0;
    let mut i: usize = start;
    while i < chars.len()
        invariant
            start <= i <= chars@.len(),
            chars@ == s@,
            digits == s@.skip(start as int),
            number_of(s@, max as nat) == digits_value(digits, max as nat),
            digits_value(digits.take(i - start), max as nat) == Ok::<nat, NumberFault>(n as nat),
            n <= max,
        decreases chars@.len() - i,
    {
        let c = chars[i];
        proof {
            let next = digits.take(i - start + 1);
            assert(next.drop_last() =~= digits.take(i - start));
            assert(next.last() == c);
        }
        if !('0' <= c && c <= '9') {
            proof {
                lemma_fault_stays(digits, i - start + 1, max as nat);
            }
            return Err(NumberFault::Digit);
        }
        let d: u64 = (c as u8 - '0' as u8) as u64;
        if n > max / 10 || d > max - n * 10 {
            proof {
                lemma_fault_stays(digits, i - start + 1, max as nat);
            }
            return Err(NumberFault::Large);
        }
        n = n * 10 + d;
        i = i + 1;
    }
    proof {
        assert(digits.take(i - start) =~= digits);
    }
    Ok(n)
}

/// A fault of the first digits is the fault of all digits.
proof fn lemma_fault_stays(s: Seq<char>, n: int, max: nat)
    requires
        0 <= n <= s.len(),
        digits_value(s.take(n), max) is Err,
    ensures
        digits_value(s, max) == digits_value(s.take(n), max),
    decreases s.len(),
{
    if n == s.len() {
        assert(s.take(n) =~= s);
    } else {
        assert(s.drop_last().take(n) =~= s.take(n));
        lemma_fault_stays(s.drop_last(), n, max);
    }
}

/// An address to listen on, with whether it is a socket address.
#[derive(Debug, Clone, PartialEq, Eq)]
pub struct BindText {
    /// The text.
    pub text: String,
    /// Whether the text is a socket address.
    pub valid: bool,
}

/// The address that may be there.
pub open spec fn bind_inside(bind: Option<BindText>) -> Option<(Seq<char>, bool)> {
    match bind {
        Some(b) => Some((b.text@, b.valid)),
        None => None,
    }
}

/// The configuration of the daemon.
#[derive(Debug, Clone, PartialEq, Eq)]
pub struct Config {
    /// The link.
    pub backend: Backend,
    /// Device of the link.
    pub device: Option<String>,
    /// Address to listen on.
    pub bind: String,
    /// Preferred unit.
    pub unit_id_hint: Option<UnitId>,
    /// Log level.
    pub log_level: String,
    /// AOA chunk size.
    pub aoa_chunk_size: usize,
    /// Delay between AOA chunks, in milliseconds.
    pub aoa_chunk_delay_ms: u64,
    /// TTY baud rate.
    pub tty_baud: u32,
    /// Minutes without a client until units are powered off, `0` for never.
    pub ws_idle_timeout_minutes: u64,
    /// Seconds between attempts to power units off.
    pub ws_idle_retry_seconds: u64,
    /// Seconds between pings of a client.
    pub keepalive_interval_seconds: u64,
    /// Seconds of silence until a client is closed.
    pub keepalive_pong_timeout_seconds: u64,
    /// Seconds that a client waits for the first snapshot.
    pub snapshot_timeout_seconds: u64,
}

/// What a configuration says.
#[verifier::ext_equal]
pub ghost struct ConfigModel {
    pub backend: Backend,
    pub device: Option<Seq<char>>,
    pub bind: Seq<char>,
    pub unit_id_hint: Option<UnitId>,
    pub log_level: Seq<char>,
    pub aoa_chunk_size: usize,
    pub aoa_chunk_delay_ms: u64,
    pub tty_baud: u32,
    pub ws_idle_timeout_minutes: u64,
    pub ws_idle_retry_seconds: u64,
    pub keepalive_interval_seconds: u64,
    pub keepalive_pong_timeout_seconds: u64,
    pub snapshot_timeout_seconds: u64,
}

impl View for Config {
    type V = ConfigModel;

    open spec fn view(&self) -> ConfigModel {
        ConfigModel {
            backend: self.backend,
            device: text_option(self.device),
            bind: self.bind@,
            unit_id_hint: self.unit_id_hint,
            log_level: self.log_level@,
            aoa_chunk_size: self.aoa_chunk_size,
            aoa_chunk_delay_ms: self.aoa_chunk_delay_ms,
            tty_baud: self.tty_baud,
            ws_idle_timeout_minutes: self.ws_idle_timeout_minutes,
            ws_idle_retry_seconds: self.ws_idle_retry_seconds,
            keepalive_interval_seconds: self.keepalive_interval_seconds,
            keepalive_pong_timeout_seconds: self.keepalive_pong_timeout_seconds,
            snapshot_timeout_seconds: self.snapshot_timeout_seconds,
        }
    }
}

/// What a configuration file sets.
#[derive(Debug, Clone, PartialEq, Eq, Default)]
pub struct FileConfig {
    /// The link.
    pub backend: Option<String>,
    /// Device of the link.
    pub device: Option<String>,
    /// Address to listen on.
    pub bind: Option<BindText>,
    /// Preferred unit.
    pub unit_id_hint: Option<String>,
    /// Log level.
    pub log_level: Option<String>,
    /// AOA chunk size.
    pub aoa_chunk_size: Option<usize>,
    /// Delay between AOA chunks, in milliseconds.
    pub aoa_chunk_delay_ms: Option<u64>,
    /// TTY baud rate.
    pub tty_baud: Option<u32>,
    /// Minutes without a client until units are powered off, `0` for never.
    pub ws_idle_timeout_minutes: Option<u64>,
    /// Seconds between attempts to power units off.
    pub ws_idle_retry_seconds: Option<u64>,
    /// Seconds between pings of a client.
    pub keepalive_interval_seconds: Option<u64>,
    /// Seconds of silence until a client is closed.
    pub keepalive_pong_timeout_seconds: Option<u64>,
    /// Seconds that a client waits for the first snapshot.
    pub snapshot_timeout_seconds: Option<u64>,
}

/// What a configuration file says.
#[verifier::ext_equal]
pub ghost struct FileModel {
    pub backend: Option<Seq<char>>,
    pub device: Option<Seq<char>>,
    pub bind: Option<(Seq<char>, bool)>,
    pub unit_id_hint: Option<Seq<char>>,
    pub log_level: Option<Seq<char>>,
    pub aoa_chunk_size: Option<usize>,
    pub aoa_chunk_delay_ms: Option<u64>,
    pub tty_baud: Option<u32>,
    pub ws_idle_timeout_minutes: Option<u64>,
    pub ws_idle_retry_seconds: Option<u64>,
    pub keepalive_interval_seconds: Option<u64>,
    pub keepalive_pong_timeout_seconds: Option<u64>,
    pub snapshot_timeout_seconds: Option<u64>,
}

impl View for FileConfig {
    type V = FileModel;

    open spec fn view(&self) -> FileModel {
        FileModel {
            backend: text_option(self.backend),
            device: text_option(self.device),
            bind: bind_inside(self.bind),
            unit_id_hint: text_option(self.unit_id_hint),
            log_level: text_option(self.log_level),
            aoa_chunk_size: self.aoa_chunk_size,
            aoa_chunk_delay_ms: self.aoa_chunk_delay_ms,
            tty_baud: self.tty_baud,
            ws_idle_timeout_minutes: self.ws_idle_timeout_minutes,
            ws_idle_retry_seconds: self.ws_idle_retry_seconds,
            keepalive_interval_seconds: self.keepalive_interval_seconds,
            keepalive_pong_timeout_seconds: self.keepalive_pong_timeout_seconds,
            snapshot_timeout_seconds: self.snapshot_timeout_seconds,
        }
    }
}

/// What the environment sets.
#[derive(Debug, Clone, PartialEq, Eq, Default)]
pub struct EnvOverrides {
    /// Configuration file.
    pub config: Option<String>,
    /// The link.
    pub backend: Option<String>,
    /// Device of the link.
    pub device: Option<String>,
    /// Address to listen on.
    pub bind: Option<BindText>,
    /// Log level.
    pub log_level: Option<String>,
    /// Preferred unit.
    pub unit_id_hint: Option<String>,
    /// AOA chunk size.
    pub aoa_chunk_size: Option<String>,
    /// Delay between AOA chunks, in milliseconds.
    pub aoa_chunk_delay_ms: Option<String>,
    /// TTY baud rate.
    pub tty_baud: Option<String>,
    /// Minutes without a client until units are powered off, `0` for never.
    pub ws_idle_timeout_minutes: Option<String>,
    /// Seconds between attempts to power units off.
    pub ws_idle_retry_seconds: Option<String>,
    /// Seconds between pings of a client.
    pub keepalive_interval_seconds: Option<String>,
    /// Seconds of silence until a client is closed.
    pub keepalive_pong_timeout_seconds: Option<String>,
    /// Seconds that a client waits for the first snapshot.
    pub snapshot_timeout_seconds: Option<String>,
}

/// What the environment says.
#[verifier::ext_equal]
pub ghost struct EnvModel {
    pub config: Option<Seq<char>>,
    pub backend: Option<Seq<char>>,
    pub device: Option<Seq<char>>,
    pub bind: Option<(Seq<char>, bool)>,
    pub log_level: Option<Seq<char>>,
    pub unit_id_hint: Option<Seq<char>>,
    pub aoa_chunk_size: Option<Seq<char>>,
    pub aoa_chunk_delay_ms: Option<Seq<char>>,
    pub tty_baud: Option<Seq<char>>,
    pub ws_idle_timeout_minutes: Option<Seq<char>>,
    pub ws_idle_retry_seconds: Option<Seq<char>>,
    pub keepalive_interval_seconds: Option<Seq<char>>,
    pub keepalive_pong_timeout_seconds: Option<Seq<char>>,
    pub snapshot_timeout_seconds: Option<Seq<char>>,
}

impl View for EnvOverrides {
    type V = EnvModel;

    open spec fn view(&self) -> EnvModel {
        EnvModel {
            config: text_option(self.config),
            backend: text_option(self.backend),
            device: text_option(self.device),
            bind: bind_inside(self.bind),
            log_level: text_option(self.log_level),
            unit_id_hint: text_option(self.unit_id_hint),
            aoa_chunk_size: text_option(self.aoa_chunk_size),
            aoa_chunk_delay_ms: text_option(self.aoa_chunk_delay_ms),
            tty_baud: text_option(self.tty_baud),
            ws_idle_timeout_minutes: text_option(self.ws_idle_timeout_minutes),
            ws_idle_retry_seconds: text_option(self.ws_idle_retry_seconds),
            keepalive_interval_seconds: text_option(self.keepalive_interval_seconds),
            keepalive_pong_timeout_seconds: text_option(self.keepalive_pong_timeout_seconds),
            snapshot_timeout_seconds: text_option(self.snapshot_timeout_seconds),
        }
    }
}

/// What the command line sets.
#[derive(Debug, Clone, PartialEq, Eq, Default)]
pub struct CliArgs {
    /// Configuration file.
    pub config: Option<String>,
    /// The link.
    pub backend: Option<Backend>,
    /// Device of the link.
    pub device: Option<String>,
    /// Address to listen on.
    pub bind: Option<String>,
    /// Log level.
    pub log_level: Option<String>,
    /// Preferred unit.
    pub unit_id_hint: Option<String>,
    /// AOA chunk size.
    pub aoa_chunk_size: Option<usize>,
    /// Delay between AOA chunks, in milliseconds.
    pub aoa_chunk_delay_ms: Option<u64>,
    /// TTY baud rate.
    pub tty_baud: Option<u32>,
    /// Minutes without a client until units are powered off, `0` for never.
    pub ws_idle_timeout_minutes: Option<u64>,
    /// Seconds between attempts to power units off.
    pub ws_idle_retry_seconds: Option<u64>,
    /// Seconds between pings of a client.
    pub keepalive_interval_seconds: Option<u64>,
    /// Seconds of silence until a client is closed.
    pub keepalive_pong_timeout_seconds: Option<u64>,
    /// Seconds that a client waits for the first snapshot.
    pub snapshot_timeout_seconds: Option<u64>,
}

/// What the command line says.
#[verifier::ext_equal]
pub ghost struct CliModel {
    pub config: Option<Seq<char>>,
    pub backend: Option<Backend>,
    pub device: Option<Seq<char>>,
    pub bind: Option<Seq<char>>,
    pub log_level: Option<Seq<char>>,
    pub unit_id_hint: Option<Seq<char>>,
    pub aoa_chunk_size: Option<usize>,
    pub aoa_chunk_delay_ms: Option<u64>,
    pub tty_baud: Option<u32>,
    pub ws_idle_timeout_minutes: Option<u64>,
    pub ws_idle_retry_seconds: Option<u64>,
    pub keepalive_interval_seconds: Option<u64>,
    pub keepalive_pong_timeout_seconds: Option<u64>,
    pub snapshot_timeout_seconds: Option<u64>,
}

impl View for CliArgs {
    type V = CliModel;

    open spec fn view(&self) -> CliModel {
        CliModel {
            config: text_option(self.config),
            backend: self.backend,
            device: text_option(self.device),
            bind: text_option(self.bind),
            log_level: text_option(self.log_level),
            unit_id_hint: text_option(self.unit_id_hint),
            aoa_chunk_size: self.aoa_chunk_size,
            aoa_chunk_delay_ms: self.aoa_chunk_delay_ms,
            tty_baud: self.tty_baud,
            ws_idle_timeout_minutes: self.ws_idle_timeout_minutes,
            ws_idle_retry_seconds: self.ws_idle_retry_seconds,
            keepalive_interval_seconds: self.keepalive_interval_seconds,
            keepalive_pong_timeout_seconds: self.keepalive_pong_timeout_seconds,
            snapshot_timeout_seconds: self.snapshot_timeout_seconds,
        }
    }
}

/// The settings of one source, read.
#[derive(Debug, Clone, PartialEq, Eq)]
pub struct Layer {
    /// The link.
    pub backend: Option<Backend>,
    /// Device of the link.
    pub device: Option<String>,
    /// Address to listen on.
    pub bind: Option<String>,
    /// Preferred unit.
    pub unit_id_hint: Option<UnitId>,
    /// Log level.
    pub log_level: Option<String>,
    /// AOA chunk size.
    pub aoa_chunk_size: Option<usize>,
    /// Delay between AOA chunks, in milliseconds.
    pub aoa_chunk_delay_ms: Option<u64>,
    /// TTY baud rate.
    pub tty_baud: Option<u32>,
    /// Minutes without a client until units are powered off, `0` for never.
    pub ws_idle_timeout_minutes: Option<u64>,
    /// Seconds between attempts to power units off.
    pub ws_idle_retry_seconds: Option<u64>,
    /// Seconds between pings of a client.
    pub keepalive_interval_seconds: Option<u64>,
    /// Seconds of silence until a client is closed.
    pub keepalive_pong_timeout_seconds: Option<u64>,
    /// Seconds that a client waits for the first snapshot.
    pub snapshot_timeout_seconds: Option<u64>,
}

/// What the settings of one source say.
#[verifier::ext_equal]
pub ghost struct LayerModel {
    pub backend: Option<Backend>,
    pub device: Option<Seq<char>>,
    pub bind: Option<Seq<char>>,
    pub unit_id_hint: Option<UnitId>,
    pub log_level: Option<Seq<char>>,
    pub aoa_chunk_size: Option<usize>,
    pub aoa_chunk_delay_ms: Option<u64>,
    pub tty_baud: Option<u32>,
    pub ws_idle_timeout_minutes: Option<u64>,
    pub ws_idle_retry_seconds: Option<u64>,
    pub keepalive_interval_seconds: Option<u64>,
    pub keepalive_pong_timeout_seconds: Option<u64>,
    pub snapshot_timeout_seconds: Option<u64>,
}

impl View for Layer {
    type V = LayerModel;

    open spec fn view(&self) -> LayerModel {
        LayerModel {
            backend: self.backend,
            device: text_option(self.device),
            bind: text_option(self.bind),
            unit_id_hint: self.unit_id_hint,
            log_level: text_option(self.log_level),
            aoa_chunk_size: self.aoa_chunk_size,
            aoa_chunk_delay_ms: self.aoa_chunk_delay_ms,
            tty_baud: self.tty_baud,
            ws_idle_timeout_minutes: self.ws_idle_timeout_minutes,
            ws_idle_retry_seconds: self.ws_idle_retry_seconds,
            keepalive_interval_seconds: self.keepalive_interval_seconds,
            keepalive_pong_timeout_seconds: self.keepalive_pong_timeout_seconds,
            snapshot_timeout_seconds: self.snapshot_timeout_seconds,
        }
    }
}

/// The configuration when nothing is set.
pub open spec fn default_config() -> ConfigModel {
    ConfigModel {
        backend: Backend::Mock,
        device: None,
        bind: DEFAULT_BIND@,
        unit_id_hint: None,
        log_level: DEFAULT_LOG_LEVEL@,
        aoa_chunk_size: DEFAULT_AOA_CHUNK_SIZE,
        aoa_chunk_delay_ms: DEFAULT_AOA_CHUNK_DELAY_MS,
        tty_baud: DEFAULT_TTY_BAUD,
        ws_idle_timeout_minutes: 0,
        ws_idle_retry_seconds: 60,
        keepalive_interval_seconds: 30,
        keepalive_pong_timeout_seconds: 75,
        snapshot_timeout_seconds: 15,
    }
}

impl Default for Config {
    fn default() -> (c: Config)
        ensures
            c@ == default_config(),
    {
        Config {
            backend: Backend::Mock,
            device: None,
            bind: DEFAULT_BIND.to_owned(),
            unit_id_hint: None,
            log_level: DEFAULT_LOG_LEVEL.to_owned(),
            aoa_chunk_size: DEFAULT_AOA_CHUNK_SIZE,
            aoa_chunk_delay_ms: DEFAULT_AOA_CHUNK_DELAY_MS,
            tty_baud: DEFAULT_TTY_BAUD,
            ws_idle_timeout_minutes: 0,
            ws_idle_retry_seconds: 60,
            keepalive_interval_seconds: 30,
            keepalive_pong_timeout_seconds: 75,
            snapshot_timeout_seconds: 15,
        }
    }
}

/// The value of a layer where it has one, else the value below.
pub open spec fn over<T>(upper: Option<T>, lower: T) -> T {
    match upper {
        Some(v) => v,
        None => lower,
    }
}

/// A configuration with a layer laid over it.
pub open spec fn laid(c: ConfigModel, l: LayerModel) -> ConfigModel {
    ConfigModel {
        backend: over(l.backend, c.backend),
        device: match l.device {
            Some(d) => Some(d),
            None => c.device,
        },
        bind: over(l.bind, c.bind),
        unit_id_hint: match l.unit_id_hint {
            Some(h) => Some(h),
            None => c.unit_id_hint,
        },
        log_level: over(l.log_level, c.log_level),
        aoa_chunk_size: over(l.aoa_chunk_size, c.aoa_chunk_size),
        aoa_chunk_delay_ms: over(l.aoa_chunk_delay_ms, c.aoa_chunk_delay_ms),
        tty_baud: over(l.tty_baud, c.tty_baud),
        ws_idle_timeout_minutes: over(l.ws_idle_timeout_minutes, c.ws_idle_timeout_minutes),
        ws_idle_retry_seconds: over(l.ws_idle_retry_seconds, c.ws_idle_retry_seconds),
        keepalive_interval_seconds: over(
            l.keepalive_interval_seconds,
            c.keepalive_interval_seconds,
        ),
        keepalive_pong_timeout_seconds: over(
            l.keepalive_pong_timeout_seconds,
            c.keepalive_pong_timeout_seconds,
        ),
        snapshot_timeout_seconds: over(l.snapshot_timeout_seconds, c.snapshot_timeout_seconds),
    }
}

/// Lays a layer over a configuration.
fn lay(c: Config, l: Layer) -> (r: Config)
    ensures
        r@ == laid(c@, l@),
{
    let mut c = c;
    let ghost before = c@;
    if let Some(v) = l.backend {
        c.backend = v;
    }
    if let Some(v) = l.device {
        c.device = Some(v);
    }
    if let Some(v) = l.bind {
        c.bind = v;
    }
    if let Some(v) = l.unit_id_hint {
        c.unit_id_hint = Some(v);
    }
    if let Some(v) = l.log_level {
        c.log_level = v;
    }
    if let Some(v) = l.aoa_chunk_size {
        c.aoa_chunk_size = v;
    }
    if let Some(v) = l.aoa_chunk_delay_ms {
        c.aoa_chunk_delay_ms = v;
    }
    if let Some(v) = l.tty_baud {
        c.tty_baud = v;
    }
    if let Some(v) = l.ws_idle_timeout_minutes {
        c.ws_idle_timeout_minutes = v;
    }
    if let Some(v) = l.ws_idle_retry_seconds {
        c.ws_idle_retry_seconds = v;
    }
    if let Some(v) = l.keepalive_interval_seconds {
        c.keepalive_interval_seconds = v;
    }
    if let Some(v) = l.keepalive_pong_timeout_seconds {
        c.keepalive_pong_timeout_seconds = v;
    }
    if let Some(v) = l.snapshot_timeout_seconds {
        c.snapshot_timeout_seconds = v;
    }
    c
}

/// The backend that a source names; `place` is what is said of the source.
pub open spec fn source_backend(place: Seq<char>, s: Option<Seq<char>>) -> Result<
    Option<Backend>,
    ConfigFault,
> {
    match s {
        None => Ok(None),
        Some(s) => match backend_of(s) {
            Ok(b) => Ok(Some(b)),
            Err(cause) => Err(ConfigFault { text: place + " `"@ + s + "`"@, cause: Some(cause) }),
        },
    }
}

/// The address that a source names.
pub open spec fn source_bind(place: Seq<char>, b: Option<(Seq<char>, bool)>) -> Result<
    Option<Seq<char>>,
    ConfigFault,
> {
    match b {
        None => Ok(None),
        Some((text, valid)) => if valid {
            Ok(Some(text))
        } else {
            Err(
                ConfigFault {
                    text: place + " `"@ + text + "`"@,
                    cause: Some("invalid socket address syntax"@),
                },
            )
        },
    }
}

/// The unit that a source names.
pub open spec fn source_hint(place: Seq<char>, s: Option<Seq<char>>) -> Result<
    Option<UnitId>,
    ConfigFault,
> {
    match s {
        None => Ok(None),
        Some(s) => match hint_of(s) {
            Ok(id) => Ok(Some(id)),
            Err(cause) => Err(ConfigFault { text: place, cause: Some(cause) }),
        },
    }
}

/// The number that a source names.
pub open spec fn source_number(place: Seq<char>, s: Option<Seq<char>>, max: nat) -> Result<
    Option<nat>,
    ConfigFault,
> {
    match s {
        None => Ok(None),
        Some(s) => match number_of(s, max) {
            Ok(n) => Ok(Some(n)),
            Err(fault) => Err(
                ConfigFault { text: place + " `"@ + s + "`"@, cause: Some(fault.text()) },
            ),
        },
    }
}

/// The place of a setting and its text.
fn place_text(place: &str, raw: &str) -> (out: String)
    ensures
        out@ == place@ + " `"@ + raw@ + "`"@,
{
    let mut out = place.to_owned();
    out.append(" `");
    out.append(raw);
    out.append("`");
    out
}

/// The backend that a source names.
fn read_backend(place: &str, raw: &Option<String>) -> (r: Result<Option<Backend>, ConfigError>)
    ensures
        known(r) == source_backend(place@, text_option(*raw)),
{
    match raw {
        None => Ok(None),
        Some(s) => match parse_backend(s.as_str()) {
            Ok(b) => Ok(Some(b)),
            Err(cause) => Err(
                ConfigError { text: place_text(place, s.as_str()), cause: Some(cause) },
            ),
        },
    }
}

/// What the outcome of reading a text says.
pub open spec fn known_text(r: Result<Option<String>, ConfigError>) -> Result<
    Option<Seq<char>>,
    ConfigFault,
> {
    match r {
        Ok(s) => Ok(text_option(s)),
        Err(e) => Err(e@),
    }
}

/// The address that a source names.
fn read_bind(place: &str, raw: &Option<BindText>) -> (r: Result<Option<String>, ConfigError>)
    ensures
        known_text(r) == source_bind(place@, bind_inside(*raw)),
{
    match raw {
        None => Ok(None),
        Some(b) => if b.valid {
            Ok(Some(b.text.clone()))
        } else {
            Err(
                ConfigError {
                    text: place_text(place, b.text.as_str()),
                    cause: Some("invalid socket address syntax".to_owned()),
                },
            )
        },
    }
}

/// The unit that a source names.
fn read_hint(place: &str, raw: &Option<String>) -> (r: Result<Option<UnitId>, ConfigError>)
    ensures
        known(r) == source_hint(place@, text_option(*raw)),
{
    match raw {
        None => Ok(None),
        Some(s) => match parse_unit_id_hint(s.as_str()) {
            Ok(id) => Ok(Some(id)),
            Err(cause) => Err(ConfigError { text: place.to_owned(), cause: Some(cause) }),
        },
    }
}

/// What the outcome of reading a number says.
pub open spec fn known_number(r: Result<Option<u64>, ConfigError>) -> Result<
    Option<nat>,
    ConfigFault,
> {
    match r {
        Ok(Some(n)) => Ok(Some(n as nat)),
        Ok(None) => Ok(None),
        Err(e) => Err(e@),
    }
}

/// The number that a source names.
fn read_number(place: &str, raw: &Option<String>, max: u64) -> (r: Result<
    Option<u64>,
    ConfigError,
>)
    ensures
        known_number(r) == source_number(place@, text_option(*raw), max as nat),
        r matches Ok(Some(n)) ==> n <= max,
{
    match raw {
        None => Ok(None),
        Some(s) => match parse_number(s.as_str(), max) {
            Ok(n) => Ok(Some(n)),
            Err(fault) => Err(
                ConfigError {
                    text: place_text(place, s.as_str()),
                    cause: Some(fault.describe().to_owned()),
                },
            ),
        },
    }
}

/// A copy of a text that may be there.
fn copied(text: &Option<String>) -> (r: Option<String>)
    ensures
        text_option(r) == text_option(*text),
{
    match text {
        Some(s) => Some(s.clone()),
        None => None,
    }
}

/// The settings of a file, or the first one that cannot be read.
pub open spec fn file_layer(f: FileModel) -> Result<LayerModel, ConfigFault> {
    match (
        source_backend("config file backend"@, f.backend),
        source_bind("config file bind"@, f.bind),
        source_hint("config file unit_id_hint"@, f.unit_id_hint),
    ) {
        (Err(e), _, _) => Err(e),
        (_, Err(e), _) => Err(e),
        (_, _, Err(e)) => Err(e),
        (Ok(backend), Ok(bind), Ok(unit_id_hint)) => Ok(
            LayerModel {
                backend,
                device: f.device,
                bind,
                unit_id_hint,
                log_level: f.log_level,
                aoa_chunk_size: f.aoa_chunk_size,
                aoa_chunk_delay_ms: f.aoa_chunk_delay_ms,
                tty_baud: f.tty_baud,
                ws_idle_timeout_minutes: f.ws_idle_timeout_minutes,
                ws_idle_retry_seconds: f.ws_idle_retry_seconds,
                keepalive_interval_seconds: f.keepalive_interval_seconds,
                keepalive_pong_timeout_seconds: f.keepalive_pong_timeout_seconds,
                snapshot_timeout_seconds: f.snapshot_timeout_seconds,
            },
        ),
    }
}

/// What the outcome of reading a source says.
pub open spec fn known_layer(r: Result<Layer, ConfigError>) -> Result<LayerModel, ConfigFault> {
    match r {
        Ok(l) => Ok(l@),
        Err(e) => Err(e@),
    }
}

/// Reads the settings of a file.
fn read_file(f: &FileConfig) -> (r: Result<Layer, ConfigError>)
    ensures
        known_layer(r) == file_layer(f@),
{
    let backend = match read_backend("config file backend", &f.backend) {
        Ok(v) => v,
        Err(e) => {
            return Err(e);
        },
    };
    let bind = match read_bind("config file bind", &f.bind) {
        Ok(v) => v,
        Err(e) => {
            return Err(e);
        },
    };
    let unit_id_hint = match read_hint("config file unit_id_hint", &f.unit_id_hint) {
        Ok(v) => v,
        Err(e) => {
            return Err(e);
        },
    };
    Ok(
        Layer {
            backend,
            device: copied(&f.device),
            bind,
            unit_id_hint,
            log_level: copied(&f.log_level),
            aoa_chunk_size: f.aoa_chunk_size,
            aoa_chunk_delay_ms: f.aoa_chunk_delay_ms,
            tty_baud: f.tty_baud,
            ws_idle_timeout_minutes: f.ws_idle_timeout_minutes,
            ws_idle_retry_seconds: f.ws_idle_retry_seconds,
            keepalive_interval_seconds: f.keepalive_interval_seconds,
            keepalive_pong_timeout_seconds: f.keepalive_pong_timeout_seconds,
            snapshot_timeout_seconds: f.snapshot_timeout_seconds,
        },
    )
}

/// The value of an outcome, nothing where it failed.
pub open spec fn found<T>(r: Result<Option<T>, ConfigFault>) -> Option<T> {
    match r {
        Ok(v) => v,
        Err(_) => None,
    }
}

/// The numbers of the environment, in the order in which they are read.
pub open spec fn env_numbers(e: EnvModel) -> Seq<Result<Option<nat>, ConfigFault>> {
    seq![
        source_number("CB_DAEMON_AOA_CHUNK_SIZE"@, e.aoa_chunk_size, usize::MAX as nat),
        source_number("CB_DAEMON_AOA_CHUNK_DELAY_MS"@, e.aoa_chunk_delay_ms, u64::MAX as nat),
        source_number("CB_DAEMON_TTY_BAUD"@, e.tty_baud, u32::MAX as nat),
        source_number(
            "CB_DAEMON_WS_IDLE_TIMEOUT_MINUTES"@,
            e.ws_idle_timeout_minutes,
            u64::MAX as nat,
        ),
        source_number("CB_DAEMON_WS_IDLE_RETRY_SECONDS"@, e.ws_idle_retry_seconds, u64::MAX as nat),
        source_number(
            "CB_DAEMON_KEEPALIVE_INTERVAL_SECONDS"@,
            e.keepalive_interval_seconds,
            u64::MAX as nat,
        ),
        source_number(
            "CB_DAEMON_KEEPALIVE_PONG_TIMEOUT_SECONDS"@,
            e.keepalive_pong_timeout_seconds,
            u64::MAX as nat,
        ),
        source_number(
            "CB_DAEMON_SNAPSHOT_TIMEOUT_SECONDS"@,
            e.snapshot_timeout_seconds,
            u64::MAX as nat,
        ),
    ]
}

/// The first fault from `at` on.
pub open spec fn first_fault(list: Seq<Result<Option<nat>, ConfigFault>>, at: int) -> Option<
    ConfigFault,
>
    decreases list.len() - at,
{
    if at < 0 || at >= list.len() {
        None
    } else {
        match list[at] {
            Err(e) => Some(e),
            Ok(_) => first_fault(list, at + 1),
        }
    }
}

/// The settings of the environment, or the first one that cannot be read.
pub open spec fn env_layer(e: EnvModel) -> Result<LayerModel, ConfigFault> {
    let numbers = env_numbers(e);
    match (
        source_backend("CB_DAEMON_BACKEND"@, e.backend),
        source_bind("CB_DAEMON_BIND"@, e.bind),
        source_hint("CB_DAEMON_UNIT_ID_HINT"@, e.unit_id_hint),
        first_fault(numbers, 0),
    ) {
        (Err(f), _, _, _) => Err(f),
        (_, Err(f), _, _) => Err(f),
        (_, _, Err(f), _) => Err(f),
        (_, _, _, Some(f)) => Err(f),
        (Ok(backend), Ok(bind), Ok(unit_id_hint), None) => Ok(
            LayerModel {
                backend,
                device: e.device,
                bind,
                unit_id_hint,
                log_level: e.log_level,
                aoa_chunk_size: as_usize(found(numbers[0])),
                aoa_chunk_delay_ms: as_u64(found(numbers[1])),
                tty_baud: as_u32(found(numbers[2])),
                ws_idle_timeout_minutes: as_u64(found(numbers[3])),
                ws_idle_retry_seconds: as_u64(found(numbers[4])),
                keepalive_interval_seconds: as_u64(found(numbers[5])),
                keepalive_pong_timeout_seconds: as_u64(found(numbers[6])),
                snapshot_timeout_seconds: as_u64(found(numbers[7])),
            },
        ),
    }
}

/// A number that may be there, as `usize`.
pub open spec fn as_usize(n: Option<nat>) -> Option<usize> {
    match n {
        Some(n) => Some(n as usize),
        None => None,
    }
}

/// A number that may be there, as `u64`.
pub open spec fn as_u64(n: Option<nat>) -> Option<u64> {
    match n {
        Some(n) => Some(n as u64),
        None => None,
    }
}

/// A number that may be there, as `u32`.
pub open spec fn as_u32(n: Option<nat>) -> Option<u32> {
    match n {
        Some(n) => Some(n as u32),
        None => None,
    }
}

/// Reads the settings of the environment.
fn read_env(e: &EnvOverrides) -> (r: Result<Layer, ConfigError>)
    ensures
        known_layer(r) == env_layer(e@),
{
    let ghost numbers = env_numbers(e@);
    proof {
        reveal_with_fuel(first_fault, 9);
    }
    let backend = match read_backend("CB_DAEMON_BACKEND", &e.backend) {
        Ok(v) => v,
        Err(f) => {
            return Err(f);
        },
    };
    let bind = match read_bind("CB_DAEMON_BIND", &e.bind) {
        Ok(v) => v,
        Err(f) => {
            return Err(f);
        },
    };
    let unit_id_hint = match read_hint("CB_DAEMON_UNIT_ID_HINT", &e.unit_id_hint) {
        Ok(v) => v,
        Err(f) => {
            return Err(f);
        },
    };
    let aoa_chunk_size: Option<usize> = match read_number(
        "CB_DAEMON_AOA_CHUNK_SIZE",
        &e.aoa_chunk_size,
        usize::MAX as u64,
    ) {
        Ok(Some(n)) => Some(n as usize),
        Ok(None) => None,
        Err(f) => {
            assert(numbers[0] == Err::<Option<nat>, ConfigFault>(f@));
            return Err(f);
        },
    };
    assert(numbers[0] is Ok);
    let aoa_chunk_delay_ms: Option<u64> = match read_number(
        "CB_DAEMON_AOA_CHUNK_DELAY_MS",
        &e.aoa_chunk_delay_ms,
        u64::MAX,
    ) {
        Ok(Some(n)) => Some(n),
        Ok(None) => None,
        Err(f) => {
            assert(numbers[1] == Err::<Option<nat>, ConfigFault>(f@));
            return Err(f);
        },
    };
    assert(numbers[1] is Ok);
    let tty_baud: Option<u32> = match read_number(
        "CB_DAEMON_TTY_BAUD",
        &e.tty_baud,
        u32::MAX as u64,
    ) {
        Ok(Some(n)) => Some(n as u32),
        Ok(None) => None,
        Err(f) => {
            assert(numbers[2] == Err::<Option<nat>, ConfigFault>(f@));
            return Err(f);
        },
    };
    assert(numbers[2] is Ok);
    let ws_idle_timeout_minutes: Option<u64> = match read_number(
        "CB_DAEMON_WS_IDLE_TIMEOUT_MINUTES",
        &e.ws_idle_timeout_minutes,
        u64::MAX,
    ) {
        Ok(Some(n)) => Some(n),
        Ok(None) => None,
        Err(f) => {
            assert(numbers[3] == Err::<Option<nat>, ConfigFault>(f@));
            return Err(f);
        },
    };
    assert(numbers[3] is Ok);
    let ws_idle_retry_seconds: Option<u64> = match read_number(
        "CB_DAEMON_WS_IDLE_RETRY_SECONDS",
        &e.ws_idle_retry_seconds,
        u64::MAX,
    ) {
        Ok(Some(n)) => Some(n),
        Ok(None) => None,
        Err(f) => {
            assert(numbers[4] == Err::<Option<nat>, ConfigFault>(f@));
            return Err(f);
        },
    };
    assert(numbers[4] is Ok);
    let keepalive_interval_seconds: Option<u64> = match read_number(
        "CB_DAEMON_KEEPALIVE_INTERVAL_SECONDS",
        &e.keepalive_interval_seconds,
        u64::MAX,
    ) {
        Ok(Some(n)) => Some(n),
        Ok(None) => None,
        Err(f) => {
            assert(numbers[5] == Err::<Option<nat>, ConfigFault>(f@));
            return Err(f);
        },
    };
    assert(numbers[5] is Ok);
    let keepalive_pong_timeout_seconds: Option<u64> = match read_number(
        "CB_DAEMON_KEEPALIVE_PONG_TIMEOUT_SECONDS",
        &e.keepalive_pong_timeout_seconds,
        u64::MAX,
    ) {
        Ok(Some(n)) => Some(n),
        Ok(None) => None,
        Err(f) => {
            assert(numbers[6] == Err::<Option<nat>, ConfigFault>(f@));
            return Err(f);
        },
    };
    assert(numbers[6] is Ok);
    let snapshot_timeout_seconds: Option<u64> = match read_number(
        "CB_DAEMON_SNAPSHOT_TIMEOUT_SECONDS",
        &e.snapshot_timeout_seconds,
        u64::MAX,
    ) {
        Ok(Some(n)) => Some(n),
        Ok(None) => None,
        Err(f) => {
            assert(numbers[7] == Err::<Option<nat>, ConfigFault>(f@));
            return Err(f);
        },
    };
    assert(numbers[7] is Ok);
    Ok(
        Layer {
            backend,
            device: copied(&e.device),
            bind,
            unit_id_hint,
            log_level: copied(&e.log_level),
            aoa_chunk_size,
            aoa_chunk_delay_ms,
            tty_baud,
            ws_idle_timeout_minutes,
            ws_idle_retry_seconds,
            keepalive_interval_seconds,
            keepalive_pong_timeout_seconds,
            snapshot_timeout_seconds,
        },
    )
}

/// The settings of the command line, or the one that cannot be read.
pub open spec fn cli_layer(c: CliModel) -> Result<LayerModel, ConfigFault> {
    match source_hint("--unit-id-hint"@, c.unit_id_hint) {
        Err(e) => Err(e),
        Ok(unit_id_hint) => Ok(
            LayerModel {
                backend: c.backend,
                device: c.device,
                bind: c.bind,
                unit_id_hint,
                log_level: c.log_level,
                aoa_chunk_size: c.aoa_chunk_size,
                aoa_chunk_delay_ms: c.aoa_chunk_delay_ms,
                tty_baud: c.tty_baud,
                ws_idle_timeout_minutes: c.ws_idle_timeout_minutes,
                ws_idle_retry_seconds: c.ws_idle_retry_seconds,
                keepalive_interval_seconds: c.keepalive_interval_seconds,
                keepalive_pong_timeout_seconds: c.keepalive_pong_timeout_seconds,
                snapshot_timeout_seconds: c.snapshot_timeout_seconds,
            },
        ),
    }
}

/// Reads the settings of the command line.
fn read_cli(c: &CliArgs) -> (r: Result<Layer, ConfigError>)
    ensures
        known_layer(r) == cli_layer(c@),
{
    match read_hint("--unit-id-hint", &c.unit_id_hint) {
        Err(e) => Err(e),
        Ok(unit_id_hint) => Ok(
            Layer {
                backend: c.backend,
                device: copied(&c.device),
                bind: copied(&c.bind),
                unit_id_hint,
                log_level: copied(&c.log_level),
                aoa_chunk_size: c.aoa_chunk_size,
                aoa_chunk_delay_ms: c.aoa_chunk_delay_ms,
                tty_baud: c.tty_baud,
                ws_idle_timeout_minutes: c.ws_idle_timeout_minutes,
                ws_idle_retry_seconds: c.ws_idle_retry_seconds,
                keepalive_interval_seconds: c.keepalive_interval_seconds,
                keepalive_pong_timeout_seconds: c.keepalive_pong_timeout_seconds,
                snapshot_timeout_seconds: c.snapshot_timeout_seconds,
            },
        ),
    }
}

/// A configuration with the settings of a source laid over it.
pub open spec fn with_layer(c: ConfigModel, l: Result<LayerModel, ConfigFault>) -> Result<
    ConfigModel,
    ConfigFault,
> {
    match l {
        Ok(l) => Ok(laid(c, l)),
        Err(e) => Err(e),
    }
}

/// What the outcome of making a configuration says.
pub open spec fn known_config(r: Result<Config, ConfigError>) -> Result<ConfigModel, ConfigFault> {
    match r {
        Ok(c) => Ok(c@),
        Err(e) => Err(e@),
    }
}

/// Applies a configuration file.
pub fn apply_file(cfg: Config, file: &FileConfig) -> (r: Result<Config, ConfigError>)
    ensures
        known_config(r) == with_layer(cfg@, file_layer(file@)),
{
    match read_file(file) {
        Ok(l) => Ok(lay(cfg, l)),
        Err(e) => Err(e),
    }
}

/// Applies the environment.
pub fn apply_env(cfg: Config, env: &EnvOverrides) -> (r: Result<Config, ConfigError>)
    ensures
        known_config(r) == with_layer(cfg@, env_layer(env@)),
{
    match read_env(env) {
        Ok(l) => Ok(lay(cfg, l)),
        Err(e) => Err(e),
    }
}

/// Applies the command line.
pub fn apply_cli(cfg: Config, cli: &CliArgs) -> (r: Result<Config, ConfigError>)
    ensures
        known_config(r) == with_layer(cfg@, cli_layer(cli@)),
{
    match read_cli(cli) {
        Ok(l) => Ok(lay(cfg, l)),
        Err(e) => Err(e),
    }
}

/// Whether a path is absolute.
pub open spec fn absolute(path: Seq<char>) -> bool {
    path.len() > 0 && path[0] == '/'
}

/// Whether a path is absolute.
fn is_absolute(path: &str) -> (r: bool)
    ensures
        r == absolute(path@),
{
    let chars = chars_of(path);
    chars.len() > 0 && chars[0] == '/'
}

/// The device that a configuration uses: its own, or that of the backend.
pub open spec fn effective_device(c: ConfigModel) -> Seq<char> {
    match c.device {
        Some(d) => d,
        None => match c.backend {
            Backend::Aoa => AOA_DEFAULT_PATH@,
            Backend::Tty => TTY_DEFAULT_PATH@,
            Backend::Mock => ""@,
        },
    }
}

/// The device that a configuration uses.
pub fn effective_device_path(cfg: &Config) -> (r: String)
    ensures
        r@ == effective_device(cfg@),
{
    match &cfg.device {
        Some(d) => d.clone(),
        None => match cfg.backend {
            Backend::Aoa => AOA_DEFAULT_PATH.to_owned(),
            Backend::Tty => TTY_DEFAULT_PATH.to_owned(),
            Backend::Mock => "".to_owned(),
        },
    }
}

/// Whether a serial line can be set to a rate: those that termios names.
pub open spec fn supported_rate(rate: u32) -> bool {
    match rate {
        50 | 75 | 110 | 134 | 150 | 200 | 300 | 600 | 1_200 | 1_800 | 2_400 | 4_800 | 9_600
        | 19_200 | 38_400 | 57_600 | 115_200 | 230_400 | 460_800 | 500_000 | 576_000
        | 921_600 | 1_000_000 | 1_152_000 | 1_500_000 | 2_000_000 | 2_500_000 | 3_000_000
        | 3_500_000 | 4_000_000 => true,
        _ => false,
    }
}

/// Whether a serial line can be set to a rate.
pub fn is_supported_rate(rate: u32) -> (r: bool)
    ensures
        r == supported_rate(rate),
{
    match rate {
        50 | 75 | 110 | 134 | 150 | 200 | 300 | 600 | 1_200 | 1_800 | 2_400 | 4_800 | 9_600
        | 19_200 | 38_400 | 57_600 | 115_200 | 230_400 | 460_800 | 500_000 | 576_000
        | 921_600 | 1_000_000 | 1_152_000 | 1_500_000 | 2_000_000 | 2_500_000 | 3_000_000
        | 3_500_000 | 4_000_000 => true,
        _ => false,
    }
}

/// What is said of a number that is out of its range.
pub open spec fn range_text(rule: Seq<char>, n: nat) -> Seq<char> {
    rule + ", got "@ + decimal(n)
}

/// Why a configuration is refused: the first rule that it breaks.
pub open spec fn config_fault(c: ConfigModel) -> Option<Seq<char>> {
    if c.device matches Some(d) && !absolute(d) {
        Some(
            "device path must be absolute, got `"@ + effective_device(c) + "` (backend "@
                + c.backend.word() + ")"@,
        )
    } else if !(c.backend is Mock) && !absolute(effective_device(c)) {
        Some(
            "effective device path for backend "@ + c.backend.word() + " must be absolute, got `"@
                + effective_device(c) + "`"@,
        )
    } else if c.aoa_chunk_size < 1 {
        Some(range_text("aoa_chunk_size must be >= 1"@, c.aoa_chunk_size as nat))
    } else if c.tty_baud == 0 {
        Some("tty_baud must be > 0"@)
    } else if !supported_rate(c.tty_baud) {
        Some(range_text("tty_baud must be a supported termios rate"@, c.tty_baud as nat))
    } else if c.ws_idle_timeout_minutes > YEAR_MINUTES {
        Some(
            range_text(
                "ws_idle_timeout_minutes must be <= 525600"@,
                c.ws_idle_timeout_minutes as nat,
            ),
        )
    } else if c.ws_idle_retry_seconds < 1 {
        Some(range_text("ws_idle_retry_seconds must be >= 1"@, c.ws_idle_retry_seconds as nat))
    } else if c.keepalive_interval_seconds < 1 || c.keepalive_interval_seconds > YEAR_SECONDS {
        Some(
            range_text(
                "keepalive_interval_seconds must be in 1..=31536000"@,
                c.keepalive_interval_seconds as nat,
            ),
        )
    } else if c.keepalive_pong_timeout_seconds < c.keepalive_interval_seconds
        || c.keepalive_pong_timeout_seconds > YEAR_SECONDS {
        Some(
            range_text(
                "keepalive_pong_timeout_seconds must be in keepalive_interval_seconds..=31536000"@,
                c.keepalive_pong_timeout_seconds as nat,
            ),
        )
    } else if c.snapshot_timeout_seconds < 1 || c.snapshot_timeout_seconds > YEAR_SECONDS {
        Some(
            range_text(
                "snapshot_timeout_seconds must be in 1..=31536000"@,
                c.snapshot_timeout_seconds as nat,
            ),
        )
    } else if !level_word(c.log_level) {
        Some("log_level must be error, warn, info, debug or trace, got `"@ + c.log_level + "`"@)
    } else {
        None
    }
}

/// An error without a cause.
fn plain_error(text: String) -> (e: ConfigError)
    ensures
        e@ == (ConfigFault { text: text@, cause: None }),
{
    ConfigError { text, cause: None }
}

/// The error of a number that is out of its range.
fn range_error(rule: &str, n: u64) -> (e: ConfigError)
    ensures
        e@ == (ConfigFault { text: range_text(rule@, n as nat), cause: None }),
{
    let mut text = rule.to_owned();
    text.append(", got ");
    push_decimal(&mut text, n);
    plain_error(text)
}

/// Checks the device of a configuration.
fn check_device(cfg: &Config) -> (r: Result<(), ConfigError>)
    ensures
        match r {
            Ok(_) => !(cfg@.device matches Some(d) && !absolute(d)) && (cfg@.backend is Mock
                || absolute(effective_device(cfg@))),
            Err(e) => (cfg@.device matches Some(d) && !absolute(d) || !(cfg@.backend is Mock)
                && !absolute(effective_device(cfg@))) && config_fault(cfg@) == Some(e@.text)
                && e@.cause is None,
        },
{
    let effective = effective_device_path(cfg);
    if cfg.device.is_some() && !is_absolute(effective.as_str()) {
        let mut text = "device path must be absolute, got `".to_owned();
        text.append(effective.as_str());
        text.append("` (backend ");
        text.append(cfg.backend.as_str());
        text.append(")");
        return Err(plain_error(text));
    }
    if !matches!(cfg.backend, Backend::Mock) && !is_absolute(effective.as_str()) {
        let mut text = "effective device path for backend ".to_owned();
        text.append(cfg.backend.as_str());
        text.append(" must be absolute, got `");
        text.append(effective.as_str());
        text.append("`");
        return Err(plain_error(text));
    }
    Ok(())
}

/// Checks a configuration.
pub fn validate(cfg: &Config) -> (r: Result<(), ConfigError>)
    ensures
        match r {
            Ok(_) => config_fault(cfg@) is None,
            Err(e) => config_fault(cfg@) == Some(e@.text) && e@.cause is None,
        },
{
    match check_device(cfg) {
        Ok(_) => {},
        Err(e) => {
            return Err(e);
        },
    }
    if cfg.aoa_chunk_size < 1 {
        return Err(range_error("aoa_chunk_size must be >= 1", cfg.aoa_chunk_size as u64));
    }
    if cfg.tty_baud == 0 {
        return Err(plain_error("tty_baud must be > 0".to_owned()));
    }
    if !is_supported_rate(cfg.tty_baud) {
        return Err(
            range_error("tty_baud must be a supported termios rate", cfg.tty_baud as u64),
        );
    }
    if cfg.ws_idle_timeout_minutes > YEAR_MINUTES {
        return Err(
            range_error(
                "ws_idle_timeout_minutes must be <= 525600",
                cfg.ws_idle_timeout_minutes,
            ),
        );
    }
    if cfg.ws_idle_retry_seconds < 1 {
        return Err(
            range_error("ws_idle_retry_seconds must be >= 1", cfg.ws_idle_retry_seconds),
        );
    }
    if cfg.keepalive_interval_seconds < 1 || cfg.keepalive_interval_seconds > YEAR_SECONDS {
        return Err(
            range_error(
                "keepalive_interval_seconds must be in 1..=31536000",
                cfg.keepalive_interval_seconds,
            ),
        );
    }
    if cfg.keepalive_pong_timeout_seconds < cfg.keepalive_interval_seconds
        || cfg.keepalive_pong_timeout_seconds > YEAR_SECONDS {
        return Err(
            range_error(
                "keepalive_pong_timeout_seconds must be in keepalive_interval_seconds..=31536000",
                cfg.keepalive_pong_timeout_seconds,
            ),
        );
    }
    if cfg.snapshot_timeout_seconds < 1 || cfg.snapshot_timeout_seconds > YEAR_SECONDS {
        return Err(
            range_error(
                "snapshot_timeout_seconds must be in 1..=31536000",
                cfg.snapshot_timeout_seconds,
            ),
        );
    }
    if !is_level_word(cfg.log_level.as_str()) {
        let mut text = "log_level must be error, warn, info, debug or trace, got `".to_owned();
        text.append(cfg.log_level.as_str());
        text.append("`");
        return Err(plain_error(text));
    }
    Ok(())
}

/// The configuration that all sources make together, or why it is refused.
pub open spec fn merged_config(file: Option<FileModel>, env: EnvModel, cli: CliModel) -> Result<
    ConfigModel,
    ConfigFault,
> {
    let first = match file {
        Some(f) => with_layer(default_config(), file_layer(f)),
        None => Ok(default_config()),
    };
    match first {
        Err(e) => Err(e),
        Ok(c) => match with_layer(c, env_layer(env)) {
            Err(e) => Err(e),
            Ok(c) => match with_layer(c, cli_layer(cli)) {
                Err(e) => Err(e),
                Ok(c) => match config_fault(c) {
                    Some(text) => Err(ConfigFault { text, cause: None }),
                    None => Ok(c),
                },
            },
        },
    }
}

/// What a file that may be there says.
pub open spec fn file_inside(file: Option<&FileConfig>) -> Option<FileModel> {
    match file {
        Some(f) => Some(f@),
        None => None,
    }
}

/// Makes the configuration from all sources: defaults, then the file, then the
/// environment, then the command line; later ones win.
pub fn merge_config(file: Option<&FileConfig>, env: &EnvOverrides, cli: &CliArgs) -> (r: Result<
    Config,
    ConfigError,
>)
    ensures
        known_config(r) == merged_config(file_inside(file), env@, cli@),
{
    let mut cfg = Config::default();
    if let Some(f) = file {
        cfg = match apply_file(cfg, f) {
            Ok(c) => c,
            Err(e) => {
                return Err(e);
            },
        };
    }
    cfg = match apply_env(cfg, env) {
        Ok(c) => c,
        Err(e) => {
            return Err(e);
        },
    };
    cfg = match apply_cli(cfg, cli) {
        Ok(c) => c,
        Err(e) => {
            return Err(e);
        },
    };
    match validate(&cfg) {
        Ok(_) => Ok(cfg),
        Err(e) => Err(e),
    }
}

/// Which configuration files are there.
#[derive(Debug, Clone, Copy, PartialEq, Eq, Structural)]
pub struct ConfigFiles {
    /// The one that the command line or the environment names.
    pub named: bool,
    /// The one under `/etc`.
    pub etc: bool,
    /// The one in the working directory.
    pub cwd: bool,
}

/// The configuration file to read, if any. A file that is named must be there, and
/// the command line names it before the environment.
pub open spec fn config_path(
    cli: Option<Seq<char>>,
    env: Option<Seq<char>>,
    files: ConfigFiles,
) -> Result<Option<Seq<char>>, ConfigFault> {
    let named = match cli {
        Some(p) => Some(p),
        None => env,
    };
    match named {
        Some(p) => if files.named {
            Ok(Some(p))
        } else {
            Err(
                ConfigFault {
                    text: "config file not found: "@ + p
                        + " (set via --config or CB_DAEMON_CONFIG)"@,
                    cause: None,
                },
            )
        },
        None => if files.etc {
            Ok(Some(ETC_CONFIG@))
        } else if files.cwd {
            Ok(Some(CWD_CONFIG@))
        } else {
            Ok(None)
        },
    }
}

/// The configuration file to read, if any.
pub fn resolve_config_path_with(cli: Option<&str>, env: Option<&str>, files: ConfigFiles) -> (r:
    Result<Option<String>, ConfigError>)
    ensures
        known_text(r) == config_path(str_option(cli), str_option(env), files),
{
    let named = match cli {
        Some(p) => Some(p),
        None => env,
    };
    match named {
        Some(p) => if files.named {
            Ok(Some(p.to_owned()))
        } else {
            let mut text = "config file not found: ".to_owned();
            text.append(p);
            text.append(" (set via --config or CB_DAEMON_CONFIG)");
            Err(plain_error(text))
        },
        None => if files.etc {
            Ok(Some(ETC_CONFIG.to_owned()))
        } else if files.cwd {
            Ok(Some(CWD_CONFIG.to_owned()))
        } else {
            Ok(None)
        },
    }
}

/// The settings of a source that may be there.
pub open spec fn settings(file: Option<FileModel>) -> LayerModel {
    match file {
        Some(f) => match file_layer(f) {
            Ok(l) => l,
            Err(_) => no_settings(),
        },
        None => no_settings(),
    }
}

/// No settings.
pub open spec fn no_settings() -> LayerModel {
    LayerModel {
        backend: None,
        device: None,
        bind: None,
        unit_id_hint: None,
        log_level: None,
        aoa_chunk_size: None,
        aoa_chunk_delay_ms: None,
        tty_baud: None,
        ws_idle_timeout_minutes: None,
        ws_idle_retry_seconds: None,
        keepalive_interval_seconds: None,
        keepalive_pong_timeout_seconds: None,
        snapshot_timeout_seconds: None,
    }
}

/// Later sources win: each setting of an accepted configuration is that of the
/// command line, else that of the environment, else that of the file, else the
/// default.
pub proof fn law_later_sources_win(file: Option<FileModel>, env: EnvModel, cli: CliModel)
    requires
        merged_config(file, env, cli) is Ok,
    ensures
        env_layer(env) is Ok,
        cli_layer(cli) is Ok,
        ({
            let c = merged_config(file, env, cli)->Ok_0;
            let k = cli_layer(cli)->Ok_0;
            let e = env_layer(env)->Ok_0;
            let f = settings(file);
            let d = default_config();
            &&& c.backend == over(k.backend, over(e.backend, over(f.backend, d.backend)))
            &&& c.device == (if k.device is Some {
                k.device
            } else if e.device is Some {
                e.device
            } else {
                f.device
            })
            &&& c.bind == over(k.bind, over(e.bind, over(f.bind, d.bind)))
            &&& c.unit_id_hint == (if k.unit_id_hint is Some {
                k.unit_id_hint
            } else if e.unit_id_hint is Some {
                e.unit_id_hint
            } else {
                f.unit_id_hint
            })
            &&& c.log_level == over(k.log_level, over(e.log_level, over(f.log_level, d.log_level)))
            &&& c.aoa_chunk_size == over(
                k.aoa_chunk_size,
                over(e.aoa_chunk_size, over(f.aoa_chunk_size, d.aoa_chunk_size)),
            )
            &&& c.aoa_chunk_delay_ms == over(
                k.aoa_chunk_delay_ms,
                over(e.aoa_chunk_delay_ms, over(f.aoa_chunk_delay_ms, d.aoa_chunk_delay_ms)),
            )
            &&& c.tty_baud == over(
                k.tty_baud,
                over(e.tty_baud, over(f.tty_baud, d.tty_baud)),
            )
            &&& c.ws_idle_timeout_minutes == over(
                k.ws_idle_timeout_minutes,
                over(
                    e.ws_idle_timeout_minutes,
                    over(f.ws_idle_timeout_minutes, d.ws_idle_timeout_minutes),
                ),
            )
            &&& c.ws_idle_retry_seconds == over(
                k.ws_idle_retry_seconds,
                over(
                    e.ws_idle_retry_seconds,
                    over(f.ws_idle_retry_seconds, d.ws_idle_retry_seconds),
                ),
            )
            &&& c.keepalive_interval_seconds == over(
                k.keepalive_interval_seconds,
                over(
                    e.keepalive_interval_seconds,
                    over(f.keepalive_interval_seconds, d.keepalive_interval_seconds),
                ),
            )
            &&& c.keepalive_pong_timeout_seconds == over(
                k.keepalive_pong_timeout_seconds,
                over(
                    e.keepalive_pong_timeout_seconds,
                    over(f.keepalive_pong_timeout_seconds, d.keepalive_pong_timeout_seconds),
                ),
            )
            &&& c.snapshot_timeout_seconds == over(
                k.snapshot_timeout_seconds,
                over(
                    e.snapshot_timeout_seconds,
                    over(f.snapshot_timeout_seconds, d.snapshot_timeout_seconds),
                ),
            )
        }),
{
    match file {
        Some(f) => {
            assert(with_layer(default_config(), file_layer(f)) is Ok);
        },
        None => {
            assert(laid(default_config(), no_settings()) == default_config());
        },
    }
}

/// With nothing set the configuration is accepted, whatever the backend.
pub proof fn law_defaults_are_accepted(backend: Backend)
    ensures
        config_fault(ConfigModel { backend, ..default_config() }) is None,
{
    reveal_strlit("/dev/usb_accessory");
    reveal_strlit("/dev/ttyUSB0");
}

} // verus!
