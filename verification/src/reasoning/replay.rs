//! Which models reason, and when their stored reasoning is replayed.

use crate::config::Config;
use crate::reasoning::apply_effort::{self, is_off_word};
use crate::text;
use vstd::prelude::*;

verus! {

/// Whether a model reasons: its profile says so.
pub open spec fn reasons(config: Config, model: Seq<char>) -> bool {
    config.profile_of(model) matches Some(profile) && profile.reasoning_enabled
}

/// Whether stored reasoning is replayed: the profile says so and the effort does not
/// turn reasoning off.
pub open spec fn replays(config: Config, model: Seq<char>, effort: Option<Seq<char>>) -> bool {
    &&& config.profile_of(model) matches Some(profile) && profile.reasoning_replay
    &&& effort matches Some(word) ==> !apply_effort::is_off(word)
}

/// Whether a model reasons.
pub fn requires_reasoning_content(model: &str, config: &Config) -> (r: bool)
    ensures
        r == reasons(*config, model@),
{
    match config.model_profile(model) {
        Some(profile) => profile.reasoning_enabled,
        None => false,
    }
}

/// Whether stored reasoning is replayed.
pub fn should_replay_reasoning_content(model: &str, effort: Option<&str>, config: &Config) -> (r:
    bool)
    ensures
        r == replays(*config, model@, text::opt_str(effort)),
{
    let off = match effort {
        Some(word) => is_off_word(word),
        None => false,
    };
    match config.model_profile(model) {
        Some(profile) => profile.reasoning_replay && !off,
        None => false,
    }
}

} // verus!
