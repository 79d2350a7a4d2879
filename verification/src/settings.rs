//! Settings of the process, from their texts.

use crate::text::{self, parse_natural};
use vstd::prelude::*;

verus! {

/// How often a failed request is tried again where nothing is set.
pub const DEFAULT_MAX_RETRIES: u32 = 2;

/// How long a silent upstream is waited for where nothing is set, in seconds.
pub const DEFAULT_IDLE_TIMEOUT_SECS: u64 = 600;

/// The number that a setting denotes, where it denotes one up to a limit; or a default.
pub open spec fn number_setting(setting: Option<Seq<char>>, limit: nat, default: nat) -> nat {
    match setting {
        Some(words) => match text::natural_of(words) {
            Some(n) => if n <= limit {
                n
            } else {
                default
            },
            None => default,
        },
        None => default,
    }
}

/// The setting `PROXY_MAX_RETRIES`: how often a failed request is tried again.
pub fn max_retries(setting: Option<&str>) -> (r: u32)
    ensures
        r == number_setting(text::opt_str(setting), u32::MAX as nat, DEFAULT_MAX_RETRIES as nat),
{
    match setting {
        Some(words) => match parse_natural(words, u32::MAX as u64) {
            Some(n) => n as u32,
            None => DEFAULT_MAX_RETRIES,
        },
        None => DEFAULT_MAX_RETRIES,
    }
}

/// The setting `PROXY_STREAM_IDLE_TIMEOUT_SECS`: how long a silent upstream is waited
/// for.
pub fn idle_timeout_secs(setting: Option<&str>) -> (r: u64)
    ensures
        r == number_setting(
            text::opt_str(setting),
            u64::MAX as nat,
            DEFAULT_IDLE_TIMEOUT_SECS as nat,
        ),
{
    match setting {
        Some(words) => match parse_natural(words, u64::MAX) {
            Some(n) => n,
            None => DEFAULT_IDLE_TIMEOUT_SECS,
        },
        None => DEFAULT_IDLE_TIMEOUT_SECS,
    }
}

/// A setting that is a number in decimal notation counts up to the limit; everything else
/// leaves the default.
pub proof fn law_numbers_are_set(n: nat, words: Seq<char>, limit: nat, default: nat)
    ensures
        number_setting(None, limit, default) == default,
        n <= limit ==> number_setting(Some(text::decimal(n)), limit, default) == n,
        n > limit ==> number_setting(Some(text::decimal(n)), limit, default) == default,
        text::natural_of(words) is None ==> number_setting(Some(words), limit, default)
            == default,
{
    text::law_numbers_are_read_back(n);
}

} // verus!
