//! Settings from the environment.
//!
//! Each setting is a text that may be missing; one that is missing or cannot be
//! read has a default.

use crate::decimal::Dec;
use crate::words::{begins_with, number_in, read_number, starts_with, trim, trimmed};
use vstd::prelude::*;

verus! {

/// The digits of a private key: its text without white space around it and
/// without one `0x` at its front.
pub open spec fn key_digits(text: Seq<char>) -> Seq<char> {
    let inner = trimmed(text);
    if begins_with(inner, "0x"@) {
        inner.skip(2)
    } else {
        inner
    }
}

/// Reads the digits of a private key.
pub fn key_text(text: &str) -> (r: String)
    ensures
        r@ == key_digits(text@),
{
    let inner = trim(text);
    proof {
        reveal_strlit("0x");
    }
    if starts_with(inner, "0x") {
        let total: usize = inner.unicode_len();
        assert(inner@.subrange(2, total as int) =~= inner@.skip(2));
        inner.substring_char(2, total).to_owned()
    } else {
        inner.to_owned()
    }
}

/// Default of `TICK_THRESHOLD`: net ticks required for an entry.
pub const DEFAULT_TICK_THRESHOLD: u64 = 4;

/// Default of `MIN_HOLD_MS`.
pub const DEFAULT_MIN_HOLD_MS: u64 = 3_500;

/// Default of `HOLD_TIMEOUT_MS`.
pub const DEFAULT_HOLD_TIMEOUT_MS: u64 = 7_500;

/// Default of `MAX_TRADES` per session.
pub const DEFAULT_MAX_TRADES: u64 = 20;

/// Default of `POLYMARKET_SIGNATURE_TYPE`.
pub const DEFAULT_SIGNATURE_TYPE: u64 = 1;

/// The number that a setting denotes, where it is no larger than `limit`.
pub open spec fn setting_number(text: Option<Seq<char>>, limit: u64, default: u64) -> u64 {
    match text {
        Some(t) => match number_in(t) {
            Some(n) => if n <= limit {
                n
            } else {
                default
            },
            None => default,
        },
        None => default,
    }
}

/// The characters of a setting that may be missing.
pub open spec fn setting_text(text: Option<&str>) -> Option<Seq<char>> {
    match text {
        Some(t) => Some(t@),
        None => None,
    }
}

/// Reads a number no larger than `limit`.
pub fn read_setting(text: Option<&str>, limit: u64, default: u64) -> (r: u64)
    ensures
        r == setting_number(setting_text(text), limit, default),
{
    match text {
        Some(t) => match read_number(t) {
            Some(n) => if n <= limit {
                n
            } else {
                default
            },
            None => default,
        },
        None => default,
    }
}

/// Reads `DRY_RUN`: nothing but `false` turns it off.
pub fn read_dry_run(text: Option<&str>) -> (r: bool)
    ensures
        r == !(setting_text(text) == Some("false"@)),
{
    match text {
        Some(t) => !(t.to_owned() == "false".to_owned()),
        None => true,
    }
}

/// Reads `POSITION_SIZE`, in shares per trade.
pub fn read_position_size(text: Option<&str>) -> (r: Dec)
    ensures
        r == (match setting_text(text) {
            Some(t) => match Dec::spec_parse(t) {
                Some(d) => d,
                None => Dec::of(30, 0),
            },
            None => Dec::of(30, 0),
        }),
{
    match text {
        Some(t) => match Dec::parse(t) {
            Some(d) => d,
            None => Dec::new(30, 0),
        },
        None => Dec::new(30, 0),
    }
}

/// The settings of the trading bot that are no floating-point numbers.
#[derive(Clone, Copy, Debug)]
pub struct BotConfig {
    pub dry_run: bool,
    pub position_size: Dec,
    pub tick_threshold: usize,
    pub min_hold_ms: u64,
    pub hold_timeout_ms: u64,
    pub max_trades: u32,
}

/// The texts of those settings.
#[derive(Debug)]
pub struct BotTexts<'a> {
    pub dry_run: Option<&'a str>,
    pub position_size: Option<&'a str>,
    pub tick_threshold: Option<&'a str>,
    pub min_hold_ms: Option<&'a str>,
    pub hold_timeout_ms: Option<&'a str>,
    pub max_trades: Option<&'a str>,
}

/// Reads the settings of the trading bot.
pub fn read_config(texts: &BotTexts<'_>) -> (r: BotConfig)
    ensures
        r.dry_run == !(setting_text(texts.dry_run) == Some("false"@)),
        r.position_size == (match setting_text(texts.position_size) {
            Some(t) => match Dec::spec_parse(t) {
                Some(d) => d,
                None => Dec::of(30, 0),
            },
            None => Dec::of(30, 0),
        }),
        r.tick_threshold == setting_number(
            setting_text(texts.tick_threshold),
            usize::MAX as u64,
            DEFAULT_TICK_THRESHOLD,
        ),
        r.min_hold_ms == setting_number(
            setting_text(texts.min_hold_ms),
            u64::MAX,
            DEFAULT_MIN_HOLD_MS,
        ),
        r.hold_timeout_ms == setting_number(
            setting_text(texts.hold_timeout_ms),
            u64::MAX,
            DEFAULT_HOLD_TIMEOUT_MS,
        ),
        r.max_trades == setting_number(
            setting_text(texts.max_trades),
            u32::MAX as u64,
            DEFAULT_MAX_TRADES,
        ),
        texts.tick_threshold is None ==> r.tick_threshold == 4,
        texts.min_hold_ms is None ==> r.min_hold_ms == 3500,
        texts.hold_timeout_ms is None ==> r.hold_timeout_ms == 7500,
        texts.max_trades is None ==> r.max_trades == 20,
{
    BotConfig {
        dry_run: read_dry_run(texts.dry_run),
        position_size: read_position_size(texts.position_size),
        tick_threshold: read_setting(
            texts.tick_threshold,
            usize::MAX as u64,
            DEFAULT_TICK_THRESHOLD,
        ) as usize,
        min_hold_ms: read_setting(texts.min_hold_ms, u64::MAX, DEFAULT_MIN_HOLD_MS),
        hold_timeout_ms: read_setting(texts.hold_timeout_ms, u64::MAX, DEFAULT_HOLD_TIMEOUT_MS),
        max_trades: read_setting(texts.max_trades, u32::MAX as u64, DEFAULT_MAX_TRADES) as u32,
    }
}

/// How a wallet signs.
#[derive(Clone, Copy, Debug, PartialEq, Eq, Structural)]
pub enum SignatureKind {
    /// An externally owned account.
    Eoa,
    /// A proxy wallet.
    Proxy,
    /// A Gnosis Safe.
    GnosisSafe,
}

impl SignatureKind {
    /// How a wallet of the given number signs.
    pub open spec fn spec_of(number: u64) -> SignatureKind {
        if number == 0 {
            SignatureKind::Eoa
        } else if number == 2 {
            SignatureKind::GnosisSafe
        } else {
            SignatureKind::Proxy
        }
    }

    /// The kind of the given number; an unknown number is a proxy wallet.
    pub fn of_number(number: u64) -> (r: SignatureKind)
        ensures
            r == SignatureKind::spec_of(number),
    {
        if number == 0 {
            SignatureKind::Eoa
        } else if number == 2 {
            SignatureKind::GnosisSafe
        } else {
            SignatureKind::Proxy
        }
    }
}

/// Reads `POLYMARKET_SIGNATURE_TYPE`.
pub fn read_signature_type(text: Option<&str>) -> (r: u64)
    ensures
        r == setting_number(setting_text(text), u8::MAX as u64, DEFAULT_SIGNATURE_TYPE),
        r <= u8::MAX,
        text is None ==> r == 1,
{
    read_setting(text, u8::MAX as u64, DEFAULT_SIGNATURE_TYPE)
}

/// The name shown for the number of a signature type.
pub open spec fn signature_name_of(number: u64) -> Seq<char> {
    if number == 0 {
        "EOA"@
    } else if number == 1 {
        "Proxy"@
    } else if number == 2 {
        "GnosisSafe (MetaMask)"@
    } else {
        "Unknown"@
    }
}

/// The name shown for the number of a signature type.
pub fn signature_name(number: u64) -> (r: String)
    ensures
        r@ == signature_name_of(number),
{
    let name = if number == 0 {
        "EOA"
    } else if number == 1 {
        "Proxy"
    } else if number == 2 {
        "GnosisSafe (MetaMask)"
    } else {
        "Unknown"
    };
    name.to_owned()
}

// ---------------------------------------------------------------------------
// Laws
// ---------------------------------------------------------------------------

/// A setting that is a number within its limit has that number; one that is
/// missing, no number, or too large has its default.
pub proof fn law_settings_have_their_number(text: Seq<char>, limit: u64, default: u64)
    ensures
        setting_number(None, limit, default) == default,
        number_in(text) is None ==> setting_number(Some(text), limit, default) == default,
        number_in(text) matches Some(n) ==> {
            &&& n <= limit ==> setting_number(Some(text), limit, default) == n
            &&& n > limit ==> setting_number(Some(text), limit, default) == default
        },
{
}

/// The text of a setting is its characters, where it is there.
pub proof fn law_setting_texts_are_as_written(text: &str)
    ensures
        setting_text(Some(text)) == Some(text@),
        setting_text(None) is None,
{
}

/// The digits of a private key are its text without white space around it, and
/// without one `0x` at its front.
pub proof fn law_key_digits_follow_the_prefix(text: Seq<char>)
    ensures
        begins_with(trimmed(text), "0x"@) ==> key_digits(text) == trimmed(text).subrange(
            2,
            trimmed(text).len() as int,
        ),
        !begins_with(trimmed(text), "0x"@) ==> key_digits(text) == trimmed(text),
{
}

/// The kinds of signatures and their names by number.
pub proof fn law_signatures_go_by_number(number: u64)
    ensures
        number == 0 ==> SignatureKind::spec_of(number) == SignatureKind::Eoa && signature_name_of(
            number,
        ) == "EOA"@,
        number == 1 ==> SignatureKind::spec_of(number) == SignatureKind::Proxy && signature_name_of(
            number,
        ) == "Proxy"@,
        number == 2 ==> SignatureKind::spec_of(number) == SignatureKind::GnosisSafe
            && signature_name_of(number) == "GnosisSafe (MetaMask)"@,
        number > 2 ==> SignatureKind::spec_of(number) == SignatureKind::Proxy && signature_name_of(
            number,
        ) == "Unknown"@,
{
}

} // verus!
