//! Cache policies of providers, and how upstream token counts are reported under
//! them.

use crate::openai::types::Usage;
use crate::text::{self, clone_text, clone_texts, same};
use vstd::prelude::*;

verus! {

/// Where the cached-token count of an upstream is read from.
#[derive(Debug, Clone, Copy, PartialEq, Eq, Structural)]
pub enum UsagePolicy {
    Off,
    TopLevelCachedTokens,
}

/// How much of the stored assistant history is replayed.
#[derive(Debug, Clone, Copy, PartialEq, Eq, Structural)]
pub enum ReplayPolicy {
    Off,
    FullAssistant,
}

/// Whether stored history may be rewritten.
#[derive(Debug, Clone, Copy, PartialEq, Eq, Structural)]
pub enum HistoryPolicy {
    Off,
    AppendOnly,
}

/// Where volatile system blocks go.
#[derive(Debug, Clone, Copy, PartialEq, Eq, Structural)]
pub enum RelocatePolicy {
    Off,
    SplitTail,
}

/// The cache policy that a provider declares.
#[derive(Debug, PartialEq, Eq)]
pub struct CachePolicy {
    pub usage: UsagePolicy,
    pub prompt_cache_key_enabled: bool,
    pub upstream: Option<String>,
    pub effort_enum: Option<Vec<String>>,
    pub replay: ReplayPolicy,
    pub history: HistoryPolicy,
    pub relocate: RelocatePolicy,
    pub pinned_effort: Option<String>,
}

/// What a cache policy says.
pub struct CachePolicyView {
    pub usage: UsagePolicy,
    pub prompt_cache_key_enabled: bool,
    pub upstream: Option<Seq<char>>,
    pub effort_enum: Option<Seq<Seq<char>>>,
    pub replay: ReplayPolicy,
    pub history: HistoryPolicy,
    pub relocate: RelocatePolicy,
    pub pinned_effort: Option<Seq<char>>,
}

impl View for CachePolicy {
    type V = CachePolicyView;

    open spec fn view(&self) -> CachePolicyView {
        CachePolicyView {
            usage: self.usage,
            prompt_cache_key_enabled: self.prompt_cache_key_enabled,
            upstream: text::opt_text(self.upstream),
            effort_enum: match self.effort_enum {
                Some(words) => Some(text::texts(words@)),
                None => None,
            },
            replay: self.replay,
            history: self.history,
            relocate: self.relocate,
            pinned_effort: text::opt_text(self.pinned_effort),
        }
    }
}

impl Clone for CachePolicy {
    fn clone(&self) -> (r: CachePolicy)
        ensures
            r@ == self@,
    {
        CachePolicy {
            usage: self.usage,
            prompt_cache_key_enabled: self.prompt_cache_key_enabled,
            upstream: clone_text(&self.upstream),
            effort_enum: match &self.effort_enum {
                Some(words) => Some(clone_texts(words)),
                None => None,
            },
            replay: self.replay,
            history: self.history,
            relocate: self.relocate,
            pinned_effort: clone_text(&self.pinned_effort),
        }
    }
}

/// Whether an upstream binding is the official one.
pub open spec fn is_official(binding: Option<Seq<char>>) -> bool {
    binding == Some("official"@)
}

/// Whether an upstream binding is the official one.
pub fn official(binding: Option<&str>) -> (r: bool)
    ensures
        r == is_official(text::opt_str(binding)),
{
    match binding {
        Some(name) => same(name, "official"),
        None => false,
    }
}

impl CachePolicy {
    /// Whether the raw counts of the upstream are reported.
    pub open spec fn reports_raw(self) -> bool {
        self.usage != UsagePolicy::Off
    }

    /// Whether the raw counts of the upstream are reported.
    pub fn cache_usage_enabled(&self) -> (r: bool)
        ensures
            r == self.reports_raw(),
    {
        match self.usage {
            UsagePolicy::Off => false,
            UsagePolicy::TopLevelCachedTokens => true,
        }
    }

    /// Whether stored assistant messages are replayed in full: the policy says so
    /// and the binding is official.
    pub fn full_assistant_replay_for_upstream(&self, binding: Option<&str>) -> (r: bool)
        ensures
            r == (self.replay == ReplayPolicy::FullAssistant && is_official(
                text::opt_str(binding),
            )),
    {
        match self.replay {
            ReplayPolicy::Off => false,
            ReplayPolicy::FullAssistant => official(binding),
        }
    }

    /// Whether stored history is preserved as it is: the policy says so and the
    /// binding is official.
    pub fn append_only_history_for_upstream(&self, binding: Option<&str>) -> (r: bool)
        ensures
            r == (self.history == HistoryPolicy::AppendOnly && is_official(text::opt_str(binding))),
    {
        match self.history {
            HistoryPolicy::Off => false,
            HistoryPolicy::AppendOnly => official(binding),
        }
    }

    /// Whether volatile system blocks move to the tail: the policy says so and the
    /// binding is official.
    pub fn split_tail_relocate_for_upstream(&self, binding: Option<&str>) -> (r: bool)
        ensures
            r == (self.relocate == RelocatePolicy::SplitTail && is_official(text::opt_str(binding))),
    {
        match self.relocate {
            RelocatePolicy::Off => false,
            RelocatePolicy::SplitTail => official(binding),
        }
    }

    /// The pinned effort, where the binding is official.
    pub fn pinned_effort_for_upstream<'a>(&'a self, binding: Option<&str>) -> (r: Option<&'a str>)
        ensures
            text::opt_str(r) == if is_official(text::opt_str(binding)) {
                text::opt_text(self.pinned_effort)
            } else {
                None
            },
    {
        match &self.pinned_effort {
            Some(effort) => if official(binding) {
                Some(effort.as_str())
            } else {
                None
            },
            None => None,
        }
    }
}

/// Token counts as they are reported to the client and in the log.
#[derive(Debug, Clone, Copy, PartialEq, Eq, Structural)]
pub struct ChatUsageView {
    pub input: Option<u32>,
    pub read: Option<u32>,
    pub creation: Option<u32>,
    pub miss: Option<u32>,
}

/// The cache counts of a usage object.
#[derive(Debug, Clone, Copy, PartialEq, Eq, Structural)]
pub struct CacheStats {
    pub cache_read_tokens: Option<u32>,
}

/// The nested cached-token count.
pub open spec fn nested_read(usage: Usage) -> Option<u32> {
    match usage.prompt_tokens_details {
        Some(details) => details.cached_tokens,
        None => None,
    }
}

/// The cached-token count wherever the upstream puts it: at the top level, nested,
/// or as the hit count.
pub open spec fn raw_read(usage: Usage) -> Option<u32> {
    match usage.cached_tokens {
        Some(n) => Some(n),
        None => match nested_read(usage) {
            Some(n) => Some(n),
            None => usage.prompt_cache_hit_tokens,
        },
    }
}

/// The prompt tokens that were not read from the cache, at least 0.
pub open spec fn remainder(input: Option<u32>, read: Option<u32>) -> Option<u32> {
    match (input, read) {
        (Some(p), Some(c)) => Some(
            if p >= c {
                (p - c) as u32
            } else {
                0
            },
        ),
        _ => None,
    }
}

/// The prompt tokens that were not read from the cache, where the counts agree.
pub open spec fn guarded_miss(input: Option<u32>, read: Option<u32>) -> Option<u32> {
    match (input, read) {
        (Some(p), Some(c)) => if p >= c {
            Some((p - c) as u32)
        } else {
            None
        },
        _ => None,
    }
}

/// Whether a declared policy reports raw counts.
pub open spec fn raw_usage(policy: Option<&CachePolicy>) -> bool {
    policy matches Some(p) && p.reports_raw()
}

/// The reported counts. Without raw reporting the read count is the nested one and
/// the remainder of the prompt is labelled as created; with it the read count is
/// the upstream's own and nothing is labelled as created.
pub open spec fn usage_view(
    input: Option<u32>,
    legacy_read: Option<u32>,
    raw_read: Option<u32>,
    raw: bool,
) -> ChatUsageView {
    if raw {
        ChatUsageView {
            input,
            read: raw_read,
            creation: None,
            miss: guarded_miss(input, raw_read),
        }
    } else {
        ChatUsageView {
            input,
            read: legacy_read,
            creation: remainder(input, legacy_read),
            miss: remainder(input, legacy_read),
        }
    }
}

/// The reported counts of an optional usage object.
pub open spec fn usage_report(usage: Option<Usage>, raw: bool) -> ChatUsageView {
    match usage {
        Some(u) => usage_view(u.prompt_tokens, nested_read(u), raw_read(u), raw),
        None => usage_view(None, None, None, raw),
    }
}

/// The cache counts of a usage object.
pub fn from_chat_usage(usage: &Usage) -> (r: CacheStats)
    ensures
        r.cache_read_tokens == raw_read(*usage),
{
    let cache_read_tokens = match usage.cached_tokens {
        Some(n) => Some(n),
        None => match nested_cached_tokens(usage) {
            Some(n) => Some(n),
            None => usage.prompt_cache_hit_tokens,
        },
    };
    CacheStats { cache_read_tokens }
}

/// The nested cached-token count.
pub fn nested_cached_tokens(usage: &Usage) -> (r: Option<u32>)
    ensures
        r == nested_read(*usage),
{
    match usage.prompt_tokens_details {
        Some(details) => details.cached_tokens,
        None => None,
    }
}

/// The reported counts, from the counts gathered over a stream.
pub fn chat_usage_view_from_buckets(
    input: Option<u32>,
    legacy_read: Option<u32>,
    raw_read: Option<u32>,
    policy: Option<&CachePolicy>,
) -> (r: ChatUsageView)
    ensures
        r == usage_view(input, legacy_read, raw_read, raw_usage(policy)),
{
    let raw = match policy {
        Some(p) => p.cache_usage_enabled(),
        None => false,
    };
    if raw {
        let miss = match (input, raw_read) {
            (Some(p), Some(c)) => if p >= c {
                Some(p - c)
            } else {
                None
            },
            _ => None,
        };
        ChatUsageView { input, read: raw_read, creation: None, miss }
    } else {
        let rest = match (input, legacy_read) {
            (Some(p), Some(c)) => if p >= c {
                Some(p - c)
            } else {
                Some(0)
            },
            _ => None,
        };
        ChatUsageView { input, read: legacy_read, creation: rest, miss: rest }
    }
}

/// The reported counts of an optional usage object.
pub fn chat_usage_view(usage: Option<&Usage>, policy: Option<&CachePolicy>) -> (r: ChatUsageView)
    ensures
        r == usage_report(
            match usage {
                Some(u) => Some(*u),
                None => None,
            },
            raw_usage(policy),
        ),
{
    match usage {
        Some(u) => chat_usage_view_from_buckets(
            u.prompt_tokens,
            nested_cached_tokens(u),
            from_chat_usage(u).cache_read_tokens,
            policy,
        ),
        None => chat_usage_view_from_buckets(None, None, None, policy),
    }
}

/// With raw reporting nothing is ever labelled as created; without it the created
/// count and the read count add up to the prompt wherever the read count does not
/// exceed it.
pub proof fn law_creation_is_never_fabricated(
    input: Option<u32>,
    legacy_read: Option<u32>,
    raw_read: Option<u32>,
)
    ensures
        usage_view(input, legacy_read, raw_read, true).creation is None,
        ({
            let view = usage_view(input, legacy_read, raw_read, false);
            view.creation matches Some(n) ==> {
                &&& input is Some
                &&& legacy_read is Some
                &&& legacy_read->0 <= input->0 ==> n + legacy_read->0 == input->0
                &&& legacy_read->0 > input->0 ==> n == 0
            }
        }),
{
}

/// Counts that only the raw sources hold stay unknown without raw reporting.
pub proof fn law_legacy_reads_only_the_nested_count(usage: Usage)
    requires
        nested_read(usage) is None,
    ensures
        usage_report(Some(usage), false).read is None,
        usage_report(Some(usage), false).creation is None,
{
}

/// The prompt that is reported is the one of the usage object, and what was not read from
/// the cache is what is left of it; counts that contradict each other leave nothing
/// without raw reporting, and are not reported with it.
pub proof fn law_reported_misses(usage: Usage, raw: bool)
    ensures
        ({
            let view = usage_report(Some(usage), raw);
            &&& view.input == usage.prompt_tokens
            &&& view.miss is Some ==> view.input is Some && view.read is Some
            &&& view.input is Some && view.read is Some ==> if view.read->0 <= view.input->0 {
                view.miss is Some && view.miss->0 + view.read->0 == view.input->0
            } else if raw {
                view.miss is None
            } else {
                view.miss == Some(0u32)
            }
        }),
        usage_report(None, raw).input is None,
        usage_report(None, raw).read is None,
        usage_report(None, raw).creation is None,
        usage_report(None, raw).miss is None,
{
}

/// The binding that makes a policy count is the official one, by name.
pub proof fn law_official_is_a_name(binding: Option<Seq<char>>)
    ensures
        is_official(binding) <==> binding is Some && binding->0 == "official"@,
{
}

} // verus!
