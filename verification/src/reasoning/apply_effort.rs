//! Effort levels, and how a level is put into the words of a provider.

use crate::config::ProviderConfig;
use crate::json::{Json, JsonView};
use crate::table::Table;
use crate::text::{self, at_most, same, to_lowercase, trim};
use vstd::prelude::*;

verus! {

/// Whether a word turns reasoning off.
pub open spec fn is_off(word: Seq<char>) -> bool {
    word == "off"@ || word == "disabled"@ || word == "none"@ || word == "false"@
}

/// The tier of an effort word, from low to high. `xhigh` and `max` are two names of
/// the top tier.
pub open spec fn tier_of(word: Seq<char>) -> Option<u8> {
    if is_off(word) {
        Some(0)
    } else if word == "minimal"@ {
        Some(1)
    } else if word == "low"@ {
        Some(2)
    } else if word == "medium"@ {
        Some(3)
    } else if word == "high"@ {
        Some(4)
    } else if word == "xhigh"@ || word == "max"@ {
        Some(5)
    } else {
        None
    }
}

/// The rank of a supported value: its tier, or the highest rank of all.
pub open spec fn rank_of(word: Seq<char>) -> u8 {
    match tier_of(word) {
        Some(tier) => tier,
        None => u8::MAX,
    }
}

/// How far two ranks are apart.
pub open spec fn distance(a: u8, b: u8) -> int {
    if a >= b {
        a - b
    } else {
        b - a
    }
}

/// Whether a value is preferred to another, or is the same: the nearer rank, then the
/// lower rank, then the order of the text.
pub open spec fn preferred(tier: u8, a: Seq<char>, b: Seq<char>) -> bool {
    let da = distance(rank_of(a), tier);
    let db = distance(rank_of(b), tier);
    da < db || (da == db && (rank_of(a) < rank_of(b) || (rank_of(a) == rank_of(b) && text::lex_le(
        a,
        b,
    ))))
}

/// Whether a provider supports a value: some level maps to it.
pub open spec fn supports(effort_map: Map<Seq<char>, String>, value: Seq<char>) -> bool {
    exists|level: Seq<char>| #[trigger]
        effort_map.contains_key(level) && effort_map[level]@ == value
}

/// Whether a value is the supported one that is preferred to all others.
pub open spec fn is_nearest(
    effort_map: Map<Seq<char>, String>,
    tier: u8,
    value: Seq<char>,
) -> bool {
    &&& supports(effort_map, value)
    &&& forall|level: Seq<char>| #[trigger]
        effort_map.contains_key(level) ==> preferred(tier, value, effort_map[level]@)
}

/// The value for an effort word: what the provider maps it to; or the nearest
/// supported value to its tier; or `high` where the word has no tier or nothing is
/// supported.
pub open spec fn resolved(inbound: Seq<char>, effort_map: Map<Seq<char>, String>) -> Seq<char> {
    if effort_map.contains_key(inbound) {
        effort_map[inbound]@
    } else {
        match tier_of(inbound) {
            None => "high"@,
            Some(tier) => if effort_map.dom() == Set::<Seq<char>>::empty() {
                "high"@
            } else {
                choose|value: Seq<char>| is_nearest(effort_map, tier, value)
            },
        }
    }
}

/// Whether a word turns reasoning off.
pub fn is_off_word(word: &str) -> (r: bool)
    ensures
        r == is_off(word@),
{
    same(word, "off") || same(word, "disabled") || same(word, "none") || same(word, "false")
}

/// The tier of an effort word.
pub fn effort_tier(effort: &str) -> (r: Option<u8>)
    ensures
        r == tier_of(effort@),
{
    if is_off_word(effort) {
        Some(0)
    } else if same(effort, "minimal") {
        Some(1)
    } else if same(effort, "low") {
        Some(2)
    } else if same(effort, "medium") {
        Some(3)
    } else if same(effort, "high") {
        Some(4)
    } else if same(effort, "xhigh") || same(effort, "max") {
        Some(5)
    } else {
        None
    }
}

/// The rank of a supported value.
fn effort_rank(effort: &str) -> (r: u8)
    ensures
        r == rank_of(effort@),
{
    match effort_tier(effort) {
        Some(tier) => tier,
        None => u8::MAX,
    }
}

/// How far two ranks are apart.
fn rank_distance(a: u8, b: u8) -> (r: u8)
    ensures
        r == distance(a, b),
{
    if a >= b {
        a - b
    } else {
        b - a
    }
}

/// Whether a value is preferred to another, or is the same.
fn is_preferred(tier: u8, a: &str, b: &str) -> (r: bool)
    ensures
        r == preferred(tier, a@, b@),
{
    let rank_a: u8 = effort_rank(a);
    let rank_b: u8 = effort_rank(b);
    let da: u8 = rank_distance(rank_a, tier);
    let db: u8 = rank_distance(rank_b, tier);
    da < db || (da == db && (rank_a < rank_b || (rank_a == rank_b && at_most(a, b))))
}

/// `preferred` holds of a value and itself.
proof fn lemma_preferred_reflexive(tier: u8, a: Seq<char>)
    ensures
        preferred(tier, a, a),
{
    text::lemma_lex_reflexive(a);
}

/// Of two values one is preferred.
proof fn lemma_preferred_total(tier: u8, a: Seq<char>, b: Seq<char>)
    ensures
        preferred(tier, a, b) || preferred(tier, b, a),
{
    text::lemma_lex_total(a, b);
}

/// `preferred` is transitive.
proof fn lemma_preferred_transitive(tier: u8, a: Seq<char>, b: Seq<char>, c: Seq<char>)
    requires
        preferred(tier, a, b),
        preferred(tier, b, c),
    ensures
        preferred(tier, a, c),
{
    if text::lex_le(a, b) && text::lex_le(b, c) {
        text::lemma_lex_transitive(a, b, c);
    }
}

/// There is at most one nearest value.
pub proof fn law_nearest_is_unique(
    effort_map: Map<Seq<char>, String>,
    tier: u8,
    a: Seq<char>,
    b: Seq<char>,
)
    requires
        is_nearest(effort_map, tier, a),
        is_nearest(effort_map, tier, b),
    ensures
        a == b,
{
    let la = choose|level: Seq<char>| #[trigger]
        effort_map.contains_key(level) && effort_map[level]@ == a;
    let lb = choose|level: Seq<char>| #[trigger]
        effort_map.contains_key(level) && effort_map[level]@ == b;
    assert(preferred(tier, a, b));
    assert(preferred(tier, b, a));
    text::lemma_lex_antisymmetric(a, b);
}

/// The nearest supported value.
fn nearest_value(effort_map: &Table<String>, tier: u8) -> (r: Option<String>)
    ensures
        match r {
            Some(value) => is_nearest(effort_map@, tier, value@),
            None => effort_map@.dom() == Set::<Seq<char>>::empty(),
        },
{
    let n: usize = effort_map.len();
    let ghost names = effort_map.names();
    let ghost map = effort_map@;
    if n == 0 {
        assert forall|k: Seq<char>| !map.dom().contains(k) by {
            assert(map.contains_key(k) <==> names.contains(k));
        }
        assert(map.dom() =~= Set::empty());
        return None;
    }
    let mut best: &String = effort_map.value_at(0);
    let mut i: usize = 1;
    proof {
        lemma_preferred_reflexive(tier, best@);
    }
    while i < n
        invariant
            1 <= i <= n,
            n == names.len(),
            names == effort_map.names(),
            map == effort_map@,
            supports(map, best@),
            forall|j: int|
                0 <= j < i ==> map.contains_key(#[trigger] names[j]) && preferred(
                    tier,
                    best@,
                    map[names[j]]@,
                ),
        decreases n - i,
    {
        let candidate = effort_map.value_at(i);
        if !is_preferred(tier, best.as_str(), candidate.as_str()) {
            proof {
                lemma_preferred_total(tier, best@, candidate@);
                assert forall|j: int| 0 <= j < i + 1 implies map.contains_key(#[trigger] names[j])
                    && preferred(tier, candidate@, map[names[j]]@) by {
                    if j < i {
                        lemma_preferred_transitive(tier, candidate@, best@, map[names[j]]@);
                    } else {
                        lemma_preferred_reflexive(tier, candidate@);
                    }
                }
            }
            best = candidate;
        }
        i = i + 1;
    }
    proof {
        assert forall|level: Seq<char>| #[trigger] map.contains_key(level) implies preferred(
            tier,
            best@,
            map[level]@,
        ) by {
            let j = choose|j: int| 0 <= j < names.len() && names[j] == level;
            assert(names.contains(level));
            assert(map.contains_key(names[j]));
        }
    }
    Some(best.clone())
}

/// Puts an effort word into the words of a provider.
pub fn resolve_effort(inbound: &str, provider: &ProviderConfig) -> (r: String)
    ensures
        r@ == resolved(inbound@, provider.effort_map@),
{
    match provider.effort_map.get(inbound) {
        Some(mapped) => {
            return mapped.clone();
        },
        None => {},
    }
    let tier: u8 = match effort_tier(inbound) {
        Some(tier) => tier,
        None => {
            return "high".to_owned();
        },
    };
    match nearest_value(&provider.effort_map, tier) {
        Some(value) => {
            proof {
                let map = provider.effort_map@;
                let level = choose|level: Seq<char>| #[trigger]
                    map.contains_key(level) && map[level]@ == value@;
                assert(map.dom().contains(level));
                let chosen = choose|v: Seq<char>| is_nearest(map, tier, v);
                law_nearest_is_unique(map, tier, value@, chosen);
            }
            value
        },
        None => "high".to_owned(),
    }
}

/// There is a nearest value wherever something is supported.
pub proof fn law_a_nearest_value_exists(effort_map: Map<Seq<char>, String>, tier: u8) -> (value: Seq<char>)
    requires
        effort_map.dom().finite(),
        effort_map.dom() != Set::<Seq<char>>::empty(),
    ensures
        is_nearest(effort_map, tier, value),
    decreases effort_map.dom().len(),
{
    let key = effort_map.dom().choose();
    assert(effort_map.dom().contains(key)) by {
        if forall|k: Seq<char>| !effort_map.dom().contains(k) {
            assert(effort_map.dom() =~= Set::empty());
        }
    }
    assert(effort_map.contains_key(key));
    let mine = effort_map[key]@;
    let rest = effort_map.remove(key);
    lemma_preferred_reflexive(tier, mine);
    if rest.dom() == Set::<Seq<char>>::empty() {
        assert forall|level: Seq<char>| #[trigger] effort_map.contains_key(level) implies preferred(
            tier,
            mine,
            effort_map[level]@,
        ) by {
            if level != key {
                assert(rest.dom().contains(level));
            }
        }
        mine
    } else {
        let other = law_a_nearest_value_exists(rest, tier);
        let at = choose|level: Seq<char>| #[trigger]
            rest.contains_key(level) && rest[level]@ == other;
        assert(effort_map.contains_key(at) && effort_map[at]@ == other);
        lemma_preferred_total(tier, mine, other);
        if preferred(tier, mine, other) {
            assert forall|level: Seq<char>| #[trigger]
                effort_map.contains_key(level) implies preferred(
                tier,
                mine,
                effort_map[level]@,
            ) by {
                if level != key {
                    assert(rest.contains_key(level));
                    lemma_preferred_transitive(tier, mine, other, effort_map[level]@);
                }
            }
            mine
        } else {
            assert forall|level: Seq<char>| #[trigger]
                effort_map.contains_key(level) implies preferred(
                tier,
                other,
                effort_map[level]@,
            ) by {
                if level != key {
                    assert(rest.contains_key(level));
                }
            }
            other
        }
    }
}

/// A word with a tier always resolves to a supported value, as long as something is
/// supported. Where the word itself is not mapped, the value is the nearest one: no
/// supported value is nearer to the tier, none as near is of a lower rank, and none of
/// its rank comes before it in the order of texts.
pub proof fn law_resolved_is_nearest(inbound: Seq<char>, effort_map: Map<Seq<char>, String>)
    requires
        effort_map.dom().finite(),
        effort_map.dom() != Set::<Seq<char>>::empty(),
        tier_of(inbound) is Some || effort_map.contains_key(inbound),
    ensures
        supports(effort_map, resolved(inbound, effort_map)),
        !effort_map.contains_key(inbound) ==> is_nearest(
            effort_map,
            tier_of(inbound)->0,
            resolved(inbound, effort_map),
        ),
        !effort_map.contains_key(inbound) ==> {
            let tier = tier_of(inbound)->0;
            let rank = rank_of(resolved(inbound, effort_map));
            forall|level: Seq<char>| #[trigger]
                effort_map.contains_key(level) ==> {
                    let other = rank_of(effort_map[level]@);
                    &&& distance(rank, tier) <= distance(other, tier)
                    &&& distance(rank, tier) == distance(other, tier) ==> rank <= other
                }
        },
{
    if effort_map.contains_key(inbound) {
        assert(effort_map[inbound]@ == resolved(inbound, effort_map));
    } else {
        let tier = tier_of(inbound)->0;
        let value = law_a_nearest_value_exists(effort_map, tier);
        let chosen = choose|v: Seq<char>| is_nearest(effort_map, tier, v);
        law_nearest_is_unique(effort_map, tier, value, chosen);
    }
}

/// A word that is not mapped passes through in tier wherever the provider supports a
/// value of that tier.
pub proof fn law_same_tier_passes_through(
    inbound: Seq<char>,
    effort_map: Map<Seq<char>, String>,
    level: Seq<char>,
)
    requires
        effort_map.dom().finite(),
        !effort_map.contains_key(inbound),
        tier_of(inbound) is Some,
        effort_map.contains_key(level),
        tier_of(effort_map[level]@) == tier_of(inbound),
    ensures
        tier_of(resolved(inbound, effort_map)) == tier_of(inbound),
{
    assert(effort_map.dom().contains(level));
    law_resolved_is_nearest(inbound, effort_map);
}

/// `xhigh` and `max` are one tier: where neither is mapped they resolve alike.
pub proof fn law_top_names_resolve_alike(effort_map: Map<Seq<char>, String>)
    requires
        !effort_map.contains_key("xhigh"@),
        !effort_map.contains_key("max"@),
    ensures
        tier_of("xhigh"@) == tier_of("max"@),
        resolved("xhigh"@, effort_map) == resolved("max"@, effort_map),
{
    reveal_strlit("xhigh");
    reveal_strlit("max");
    reveal_strlit("off");
    reveal_strlit("disabled");
    reveal_strlit("none");
    reveal_strlit("false");
    reveal_strlit("minimal");
    reveal_strlit("low");
    reveal_strlit("medium");
    reveal_strlit("high");
    assert("xhigh"@[0] == 'x');
    assert("max"@.len() == 3 && "max"@[0] == 'm');
}

/// The members of a body that can be written to.
pub open spec fn members(body: JsonView) -> Map<Seq<char>, JsonView> {
    match body {
        JsonView::Object(m) => m,
        _ => Map::empty(),
    }
}

/// A thinking switch of a type.
pub open spec fn thinking_switch(kind: Seq<char>) -> JsonView {
    JsonView::Object(Map::empty().insert("type"@, JsonView::String(kind)))
}

/// A configured text, or its default.
pub open spec fn text_or(value: Option<String>, default: Seq<char>) -> Seq<char> {
    match value {
        Some(s) => s@,
        None => default,
    }
}

/// The value of a level, or a default for a level that is not mapped.
pub open spec fn level_or(
    effort_map: Map<Seq<char>, String>,
    level: Seq<char>,
    default: Seq<char>,
) -> Seq<char> {
    if effort_map.contains_key(level) {
        effort_map[level]@
    } else {
        default
    }
}

/// Whether a word makes the body be written to.
pub open spec fn effort_writes(word: Seq<char>, provider: ProviderConfig) -> bool {
    !is_off(word) || provider.disable_thinking || provider.thinking_param is Some
}

/// A body with an effort. A provider that cannot turn thinking off gets its lowest
/// effort and no thinking switch; another one loses its effort and is switched off. A
/// word that does not turn reasoning off is resolved against what the provider
/// supports, and thinking is switched on.
pub open spec fn body_with_effort(
    body: JsonView,
    word: Seq<char>,
    provider: ProviderConfig,
) -> JsonView {
    let param = provider.effort_param@;
    let map = provider.effort_map@;
    if is_off(word) {
        if provider.disable_thinking {
            let m = members(body).insert(param, JsonView::String(level_or(map, "low"@, "low"@)));
            match provider.thinking_param {
                Some(switch) => JsonView::Object(m.remove(switch@)),
                None => JsonView::Object(m),
            }
        } else {
            match provider.thinking_param {
                Some(switch) => JsonView::Object(
                    members(body).insert(
                        switch@,
                        thinking_switch(text_or(provider.thinking_type_disabled, "disabled"@)),
                    ).remove(param),
                ),
                None => match body {
                    JsonView::Object(m) => JsonView::Object(m.remove(param)),
                    other => other,
                },
            }
        }
    } else {
        let m = members(body).insert(param, JsonView::String(resolved(word, map)));
        match provider.thinking_param {
            Some(switch) => JsonView::Object(
                m.insert(
                    switch@,
                    thinking_switch(text_or(provider.thinking_type_enabled, "enabled"@)),
                ),
            ),
            None => JsonView::Object(m),
        }
    }
}

/// A configured text, or its default.
pub fn configured<'a>(value: &'a Option<String>, default: &'a str) -> (r: &'a str)
    ensures
        r@ == text_or(*value, default@),
{
    match value {
        Some(s) => s.as_str(),
        None => default,
    }
}

/// The value of a level, or a default for a level that is not mapped.
pub fn mapped_level<'a>(effort_map: &'a Table<String>, level: &str, default: &'a str) -> (r: &'a str)
    ensures
        r@ == level_or(effort_map@, level@, default@),
{
    match effort_map.get(level) {
        Some(value) => value.as_str(),
        None => default,
    }
}

/// Puts an effort word, trimmed and in lower case, into a request body.
pub fn apply_effort_word(body: &mut Json, word: &str, provider: &ProviderConfig)
    requires
        effort_writes(word@, *provider) ==> old(body)@ is Null || old(body)@ is Object,
    ensures
        final(body)@ == body_with_effort(old(body)@, word@, *provider),
{
    let ghost start = body@;
    if is_off_word(word) {
        if provider.disable_thinking {
            let lowest = mapped_level(&provider.effort_map, "low", "low");
            body.set(provider.effort_param.as_str(), Json::string(lowest));
            match &provider.thinking_param {
                Some(switch) => {
                    body.remove(switch.as_str());
                },
                None => {},
            }
        } else {
            match &provider.thinking_param {
                Some(switch) => {
                    let kind = configured(&provider.thinking_type_disabled, "disabled");
                    body.set(switch.as_str(), Json::object().with("type", Json::string(kind)));
                },
                None => {},
            }
            body.remove(provider.effort_param.as_str());
        }
    } else {
        let mapped = resolve_effort(word, provider);
        body.set(provider.effort_param.as_str(), Json::String(mapped));
        match &provider.thinking_param {
            Some(switch) => {
                let kind = configured(&provider.thinking_type_enabled, "enabled");
                body.set(switch.as_str(), Json::object().with("type", Json::string(kind)));
            },
            None => {},
        }
    }
}

/// The word of an effort: in lower case, without the space around it.
pub open spec fn effort_word(effort: Seq<char>) -> Seq<char> {
    text::trimmed(text::lowered(effort))
}

/// Whether an effort can be put into a body: nothing is written to it, or members can
/// be.
pub open spec fn takes_effort(
    body: JsonView,
    effort: Option<Seq<char>>,
    provider: ProviderConfig,
) -> bool {
    effort matches Some(e) && effort_writes(effort_word(e), provider) ==> body is Null
        || body is Object
}

/// Puts an effort into a request body, whatever its case and the space around it.
/// Without an effort the body stays as it is.
pub fn apply_reasoning_effort(body: &mut Json, effort: Option<&str>, provider: &ProviderConfig)
    requires
        takes_effort(old(body)@, text::opt_str(effort), *provider),
    ensures
        final(body)@ == match effort {
            Some(e) => body_with_effort(old(body)@, effort_word(e@), *provider),
            None => old(body)@,
        },
{
    match effort {
        Some(e) => {
            let lower = to_lowercase(e);
            apply_effort_word(body, trim(lower.as_str()), provider);
        },
        None => {},
    }
}

/// Puts an effort into a request body where it can be put there, and says whether it
/// could.
pub fn try_apply_reasoning_effort(
    body: &mut Json,
    effort: Option<&str>,
    provider: &ProviderConfig,
) -> (r: bool)
    ensures
        r == takes_effort(old(body)@, text::opt_str(effort), *provider),
        final(body)@ == match effort {
            Some(e) if r => body_with_effort(old(body)@, effort_word(e@), *provider),
            _ => old(body)@,
        },
{
    match effort {
        Some(e) => {
            let lower = to_lowercase(e);
            let off = is_off_word(trim(lower.as_str()));
            let writes = !off || provider.disable_thinking || provider.thinking_param.is_some();
            let writable = match body {
                Json::Null => true,
                Json::Object(_) => true,
                _ => false,
            };
            if writes && !writable {
                return false;
            }
        },
        None => {},
    }
    apply_reasoning_effort(body, effort, provider);
    true
}

/// A provider that cannot turn thinking off never gets a thinking switch from a word
/// that turns reasoning off, and one that can never keeps an effort.
pub proof fn law_off_words(body: JsonView, word: Seq<char>, provider: ProviderConfig)
    requires
        is_off(word),
        body is Object,
    ensures
        provider.disable_thinking && provider.thinking_param is Some
            ==> body_with_effort(body, word, provider).get(provider.thinking_param->0@) is None,
        !provider.disable_thinking ==> body_with_effort(body, word, provider).get(
            provider.effort_param@,
        ) is None,
{
}

/// A word that a provider maps is taken as mapped; where a word is neither mapped nor
/// known, or nothing is mapped at all, the level is `high`.
pub proof fn law_mapped_words_are_taken(inbound: Seq<char>, effort_map: Map<Seq<char>, String>)
    ensures
        effort_map.contains_key(inbound) ==> resolved(inbound, effort_map)
            == effort_map[inbound]@,
        !effort_map.contains_key(inbound) && tier_of(inbound) is None ==> resolved(
            inbound,
            effort_map,
        ) == "high"@,
        effort_map == Map::<Seq<char>, String>::empty() ==> resolved(inbound, effort_map)
            == "high"@,
{
    if effort_map == Map::<Seq<char>, String>::empty() {
        assert(effort_map.dom() =~= Set::empty());
    }
}

/// The known effort words, from none to the highest level.
pub proof fn law_tiers(word: Seq<char>)
    ensures
        tier_of(word) == Some(0u8) <==> word == "off"@ || word == "disabled"@ || word == "none"@
            || word == "false"@,
        tier_of(word) == Some(1u8) <==> word == "minimal"@,
        tier_of(word) == Some(2u8) <==> word == "low"@,
        tier_of(word) == Some(3u8) <==> word == "medium"@,
        tier_of(word) == Some(4u8) <==> word == "high"@,
        tier_of(word) == Some(5u8) <==> word == "xhigh"@ || word == "max"@,
        tier_of(word) matches Some(tier) ==> tier <= 5,
        is_off(word) <==> tier_of(word) == Some(0u8),
{
    reveal_strlit("xhigh");
    reveal_strlit("max");
    reveal_strlit("off");
    reveal_strlit("disabled");
    reveal_strlit("none");
    reveal_strlit("false");
    reveal_strlit("minimal");
    reveal_strlit("low");
    reveal_strlit("medium");
    reveal_strlit("high");
    assert("off"@.len() == 3 && "max"@.len() == 3 && "low"@.len() == 3);
    assert("off"@[0] == 'o' && "max"@[0] == 'm' && "low"@[0] == 'l');
    assert("none"@.len() == 4 && "high"@.len() == 4 && "none"@[0] == 'n' && "high"@[0] == 'h');
    assert("false"@.len() == 5 && "xhigh"@.len() == 5 && "false"@[0] == 'f' && "xhigh"@[0]
        == 'x');
    assert("medium"@.len() == 6 && "minimal"@.len() == 7 && "disabled"@.len() == 8);
}

/// An effort changes no member of a body but those of the effort and of the thinking
/// switch.
pub proof fn law_efforts_leave_other_members_alone(
    body: JsonView,
    word: Seq<char>,
    provider: ProviderConfig,
    name: Seq<char>,
)
    requires
        body is Object,
        name != provider.effort_param@,
        provider.thinking_param matches Some(switch) ==> name != switch@,
    ensures
        body_with_effort(body, word, provider).get(name) == body.get(name),
{
}

/// An effort that is on is put under the name that the provider has for it, in the words
/// of the provider, and thinking is switched on where the provider has a switch; a word
/// that turns reasoning off switches thinking off, or asks for the lowest level where
/// thinking cannot be.
pub proof fn law_efforts_are_put_into_bodies(
    body: JsonView,
    word: Seq<char>,
    provider: ProviderConfig,
)
    requires
        body is Object,
        provider.thinking_param matches Some(switch) ==> switch@ != provider.effort_param@,
    ensures
        ({
            let out = body_with_effort(body, word, provider);
            let effort = out.get(provider.effort_param@);
            if tier_of(word) != Some(0u8) {
                &&& effort == Some(JsonView::String(resolved(word, provider.effort_map@)))
                &&& provider.thinking_param matches Some(switch) ==> (out.get(
                    switch@,
                ) matches Some(set) && set.get("type"@) == Some(
                    JsonView::String(
                        match provider.thinking_type_enabled {
                            Some(kind) => kind@,
                            None => "enabled"@,
                        },
                    ),
                ))
            } else if provider.disable_thinking {
                &&& effort == Some(
                    JsonView::String(
                        if provider.effort_map@.contains_key("low"@) {
                            provider.effort_map@["low"@]@
                        } else {
                            "low"@
                        },
                    ),
                )
                &&& provider.thinking_param matches Some(switch) ==> out.get(switch@) is None
            } else {
                &&& effort is None
                &&& provider.thinking_param matches Some(switch) ==> (out.get(
                    switch@,
                ) matches Some(set) && set.get("type"@) == Some(
                    JsonView::String(
                        match provider.thinking_type_disabled {
                            Some(kind) => kind@,
                            None => "disabled"@,
                        },
                    ),
                ))
            }
        }),
{
    law_tiers(word);
}

/// A value ranks by its tier, and above all tiers where it has none; and ranks are as far
/// apart as the one is above the other.
pub proof fn law_ranks(word: Seq<char>, a: u8, b: u8)
    ensures
        tier_of(word) matches Some(tier) ==> rank_of(word) == tier,
        tier_of(word) is None ==> rank_of(word) == 255,
        a <= b ==> distance(a, b) == b - a && distance(b, a) == b - a,
{
}

/// The word of an effort is what is left of it in lower case without the white space
/// around it.
pub proof fn law_effort_words(effort: Seq<char>) -> (r: (Seq<char>, Seq<char>))
    ensures
        text::lowered(effort) == r.0 + effort_word(effort) + r.1,
        text::is_blank(r.0),
        text::is_blank(r.1),
        effort_word(effort).len() > 0 ==> !text::is_white(effort_word(effort)[0])
            && !text::is_white(effort_word(effort).last()),
{
    text::law_trimming_drops_outer_space(text::lowered(effort))
}

/// An effort can be put into null and into every object; into anything else only where
/// nothing would be written: without an effort, or with a word that turns reasoning off
/// for a provider that has neither a switch nor a lowest level for it.
pub proof fn law_what_takes_an_effort(
    body: JsonView,
    effort: Option<Seq<char>>,
    provider: ProviderConfig,
)
    ensures
        takes_effort(body, effort, provider) <==> {
            ||| body is Null
            ||| body is Object
            ||| effort is None
            ||| {
                &&& tier_of(effort_word(effort->0)) == Some(0u8)
                &&& !provider.disable_thinking
                &&& provider.thinking_param is None
            }
        },
{
    match effort {
        Some(e) => law_tiers(effort_word(e)),
        None => {},
    }
}

/// An effort is put into null as into an object without members, and where nothing is
/// written a body without members to lose stays as it is.
pub proof fn law_null_is_an_empty_body(word: Seq<char>, provider: ProviderConfig, body: JsonView)
    ensures
        effort_writes(word, provider) ==> body_with_effort(JsonView::Null, word, provider)
            == body_with_effort(JsonView::Object(Map::empty()), word, provider),
        !effort_writes(word, provider) && !(body is Object) ==> body_with_effort(
            body,
            word,
            provider,
        ) == body,
{
}

} // verus!
