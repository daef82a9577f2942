//! The configuration of the processor, resolved from what the environment gave.
//!
//! Every setting but one has a default. The store's connection string has
//! none: without it the service does not start. A number that is set must be
//! a plain decimal number that fits its type; one that is not stops the
//! service as well.

use vstd::prelude::*;
use vstd::string::{is_ascii_spec_bytes, StringExecFns};

verus! {

/// What the environment gave: each setting as found, or `None` where it was not set.
#[derive(Debug, Clone, PartialEq, Eq)]
pub struct Settings {
    pub broker: Option<String>,
    pub store_url: Option<String>,
    pub cache_url: Option<String>,
    pub group_id: Option<String>,
    pub topic: Option<String>,
    pub window_size: Option<String>,
    pub max_batch_size: Option<String>,
    pub batch_timeout: Option<String>,
}

/// The configuration that the processor runs with. `batch_timeout` is in milliseconds.
#[derive(Debug, Clone, PartialEq, Eq)]
pub struct Config {
    pub broker: String,
    pub store_url: String,
    pub cache_url: String,
    pub group_id: String,
    pub topic: String,
    pub window_size: usize,
    pub max_batch_size: usize,
    pub batch_timeout: u64,
}

/// Why no configuration could be made.
#[derive(Debug, Clone, Copy, PartialEq, Eq)]
pub enum ConfigError {
    /// The store's connection string is not set.
    MissingStoreUrl,
    /// The window size is set, but not to a number that fits.
    InvalidWindowSize,
    /// The size bound of the batch is set, but not to a number that fits.
    InvalidMaxBatchSize,
    /// The batch timeout is set, but not to a number that fits.
    InvalidBatchTimeout,
}

/// A configuration as a mathematical value.
pub struct ConfigView {
    pub broker: Seq<char>,
    pub store_url: Seq<char>,
    pub cache_url: Seq<char>,
    pub group_id: Seq<char>,
    pub topic: Seq<char>,
    pub window_size: nat,
    pub max_batch_size: nat,
    pub batch_timeout: nat,
}

impl View for Config {
    type V = ConfigView;

    open spec fn view(&self) -> ConfigView {
        ConfigView {
            broker: self.broker@,
            store_url: self.store_url@,
            cache_url: self.cache_url@,
            group_id: self.group_id@,
            topic: self.topic@,
            window_size: self.window_size as nat,
            max_batch_size: self.max_batch_size as nat,
            batch_timeout: self.batch_timeout as nat,
        }
    }
}

/// The number of prices a window keeps, unless set otherwise.
pub const DEFAULT_WINDOW_SIZE: usize = 10;

/// The size bound of the batch, unless set otherwise.
pub const DEFAULT_MAX_BATCH_SIZE: usize = 100;

/// The period of the flush timer in milliseconds, unless set otherwise.
pub const DEFAULT_BATCH_TIMEOUT: u64 = 500;

/// The wait between two attempts to subscribe, in milliseconds.
pub const SUBSCRIBE_BACKOFF: u64 = 5000;

/// The value of a decimal digit; `None` for any other character.
pub open spec fn digit(c: char) -> Option<nat> {
    if '0' <= c && c <= '9' {
        Some((c as u32 - '0' as u32) as nat)
    } else {
        None
    }
}

/// The number that `text` writes in decimal: one digit or more, and nothing else.
pub open spec fn decimal(text: Seq<char>) -> Option<nat>
    decreases text.len(),
{
    if text.len() == 0 {
        None
    } else {
        match digit(text.last()) {
            None => None,
            Some(units) => if text.len() == 1 {
                Some(units)
            } else {
                match decimal(text.drop_last()) {
                    Some(tens) => Some(10 * tens + units),
                    None => None,
                }
            },
        }
    }
}

/// The number that `text` writes, if it writes one that is no more than `limit`.
pub open spec fn decimal_within(text: Seq<char>, limit: nat) -> Option<nat> {
    match decimal(text) {
        Some(value) => if value <= limit {
            Some(value)
        } else {
            None
        },
        None => None,
    }
}

/// The text setting that was given, or its default.
pub open spec fn text_or(given: Option<String>, default: Seq<char>) -> Seq<char> {
    match given {
        Some(text) => text@,
        None => default,
    }
}

/// The number setting that was given, or its default; `None` where what was given is no number
/// or is more than `limit`.
pub open spec fn number_or(given: Option<String>, default: nat, limit: nat) -> Option<nat> {
    match given {
        Some(text) => decimal_within(text@, limit),
        None => Some(default),
    }
}

/// What `settings` resolve to. The store's connection string is looked at first, then the window
/// size, the size bound and the timeout, and the first fault found is the one reported.
pub open spec fn resolved(settings: Settings) -> Result<ConfigView, ConfigError> {
    if settings.store_url is None {
        Err(ConfigError::MissingStoreUrl)
    } else if number_or(settings.window_size, DEFAULT_WINDOW_SIZE as nat, usize::MAX as nat)
        is None {
        Err(ConfigError::InvalidWindowSize)
    } else if number_or(settings.max_batch_size, DEFAULT_MAX_BATCH_SIZE as nat, usize::MAX as nat)
        is None {
        Err(ConfigError::InvalidMaxBatchSize)
    } else if number_or(settings.batch_timeout, DEFAULT_BATCH_TIMEOUT as nat, u64::MAX as nat)
        is None {
        Err(ConfigError::InvalidBatchTimeout)
    } else {
        Ok(
            ConfigView {
                broker: text_or(settings.broker, "localhost:9094"@),
                store_url: settings.store_url->0@,
                cache_url: text_or(settings.cache_url, "redis://127.0.0.1:6379"@),
                group_id: text_or(settings.group_id, "crypto-proccesor-group"@),
                topic: text_or(settings.topic, "trades"@),
                window_size: number_or(
                    settings.window_size,
                    DEFAULT_WINDOW_SIZE as nat,
                    usize::MAX as nat,
                )->0,
                max_batch_size: number_or(
                    settings.max_batch_size,
                    DEFAULT_MAX_BATCH_SIZE as nat,
                    usize::MAX as nat,
                )->0,
                batch_timeout: number_or(
                    settings.batch_timeout,
                    DEFAULT_BATCH_TIMEOUT as nat,
                    u64::MAX as nat,
                )->0,
            },
        )
    }
}

/// A text that writes a number is made of digits, and each of its beginnings writes a number
/// that is no larger.
proof fn lemma_decimal_prefix(text: Seq<char>, length: int)
    requires
        decimal(text) is Some,
        1 <= length <= text.len(),
    ensures
        forall|i: int| 0 <= i < text.len() ==> digit(#[trigger] text[i]) is Some,
        decimal(text.take(length)) matches Some(part) && part <= decimal(text)->0,
    decreases text.len(),
{
    if text.len() == 1 {
        assert(text.take(length) =~= text);
    } else {
        let front = text.drop_last();
        if length == text.len() {
            assert(text.take(length) =~= text);
            lemma_decimal_prefix(front, length - 1);
        } else {
            lemma_decimal_prefix(front, length);
            assert(text.take(length) =~= front.take(length));
        }
        assert forall|i: int| 0 <= i < text.len() implies digit(#[trigger] text[i]) is Some by {
            if i < text.len() - 1 {
                assert(front[i] == text[i]);
            }
        }
    }
}

/// Reads a decimal number: one digit or more and nothing else, no sign, no blank. Gives `None`
/// for any other text and for a number that does not fit in 64 bits.
pub fn parse_decimal(text: &str) -> (value: Option<u64>)
    ensures
        match value {
            Some(v) => decimal_within(text@, u64::MAX as nat) == Some(v as nat),
            None => decimal_within(text@, u64::MAX as nat) is None,
        },
{
    if !text.is_ascii() {
        proof {
            if decimal(text@) is Some {
                lemma_decimal_prefix(text@, 1);
            }
        }
        return None;
    }
    let bytes = text.as_bytes();
    proof {
        is_ascii_spec_bytes(text);
    }
    let mut value: u64 = 0;
    let mut i: usize = 0;
    while i < bytes.len()
        invariant
            i <= bytes@.len(),
            bytes@.len() == text@.len(),
            forall|k: int| 0 <= k < text@.len() ==> bytes@[k] == #[trigger] text@[k] as u8,
            forall|k: int| 0 <= k < text@.len() ==> '\0' <= #[trigger] text@[k] <= '\u{7f}',
            i == 0 ==> value == 0,
            i > 0 ==> decimal(text@.take(i as int)) == Some(value as nat),
        decreases bytes@.len() - i,
    {
        let byte: u8 = bytes[i];
        let ghost c = text@[i as int];
        assert(byte == c as u8);
        if byte < 0x30 || byte > 0x39 {
            proof {
                assert(digit(c) is None);
                if decimal(text@) is Some {
                    lemma_decimal_prefix(text@, 1);
                }
            }
            return None;
        }
        let units: u64 = (byte - 0x30) as u64;
        proof {
            assert(digit(c) == Some(units as nat));
            let longer = text@.take(i + 1);
            assert(longer.last() == c);
            assert(longer.drop_last() =~= text@.take(i as int));
        }
        if value > (u64::MAX - units) / 10 {
            proof {
                assert(decimal(text@.take(i + 1)) == Some((10 * value + units) as nat));
                if decimal(text@) is Some {
                    lemma_decimal_prefix(text@, i + 1);
                }
            }
            return None;
        }
        value = 10 * value + units;
        i += 1;
    }
    if i == 0 {
        None
    } else {
        assert(text@.take(i as int) =~= text@);
        Some(value)
    }
}

fn text_or_default(given: Option<String>, default: &str) -> (text: String)
    ensures
        text@ == text_or(given, default@),
{
    match given {
        Some(text) => text,
        None => String::from_str(default),
    }
}

fn number_or_default(given: &Option<String>, default: u64, limit: u64) -> (number: Option<u64>)
    requires
        default <= limit,
    ensures
        match number {
            Some(n) => number_or(*given, default as nat, limit as nat) == Some(n as nat) && n
                <= limit,
            None => number_or(*given, default as nat, limit as nat) is None,
        },
{
    match given {
        Some(text) => match parse_decimal(text.as_str()) {
            Some(n) => if n <= limit {
                Some(n)
            } else {
                None
            },
            None => None,
        },
        None => Some(default),
    }
}

/// Resolves the configuration. Fails when the store's connection string is missing, or when a
/// number is set to something that is no number or does not fit; every setting that is not set
/// takes its default.
pub fn resolve(settings: Settings) -> (outcome: Result<Config, ConfigError>)
    ensures
        match outcome {
            Ok(config) => resolved(settings) == Ok::<_, ConfigError>(config@),
            Err(e) => resolved(settings) == Err::<ConfigView, _>(e),
        },
        outcome is Ok <==> {
            &&& settings.store_url is Some
            &&& settings.window_size matches Some(text) ==> decimal_within(
                text@,
                usize::MAX as nat,
            ) is Some
            &&& settings.max_batch_size matches Some(text) ==> decimal_within(
                text@,
                usize::MAX as nat,
            ) is Some
            &&& settings.batch_timeout matches Some(text) ==> decimal_within(
                text@,
                u64::MAX as nat,
            ) is Some
        },
{
    if settings.store_url.is_none() {
        return Err(ConfigError::MissingStoreUrl);
    }
    let window_size = match number_or_default(
        &settings.window_size,
        DEFAULT_WINDOW_SIZE as u64,
        usize::MAX as u64,
    ) {
        Some(n) => n as usize,
        None => {
            return Err(ConfigError::InvalidWindowSize);
        },
    };
    let max_batch_size = match number_or_default(
        &settings.max_batch_size,
        DEFAULT_MAX_BATCH_SIZE as u64,
        usize::MAX as u64,
    ) {
        Some(n) => n as usize,
        None => {
            return Err(ConfigError::InvalidMaxBatchSize);
        },
    };
    let batch_timeout = match number_or_default(
        &settings.batch_timeout,
        DEFAULT_BATCH_TIMEOUT,
        u64::MAX,
    ) {
        Some(n) => n,
        None => {
            return Err(ConfigError::InvalidBatchTimeout);
        },
    };
    Ok(
        Config {
            broker: text_or_default(settings.broker, "localhost:9094"),
            store_url: settings.store_url.unwrap(),
            cache_url: text_or_default(settings.cache_url, "redis://127.0.0.1:6379"),
            group_id: text_or_default(settings.group_id, "crypto-proccesor-group"),
            topic: text_or_default(settings.topic, "trades"),
            window_size,
            max_batch_size,
            batch_timeout,
        },
    )
}

} // verus!
