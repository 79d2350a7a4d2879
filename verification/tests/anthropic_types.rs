use cc_proxy::anthropic::types::{
    ContentBlock, ContentValue, ContentValueInner, SseEvent, ThinkingConfig,
};
use cc_proxy::json::Json;

/// A setting as a parser that tries the variants in turn reads it: into the first one.
fn parsed(config_type: &str, budget_tokens: Option<u32>) -> ThinkingConfig {
    ThinkingConfig::Enabled {
        config_type: config_type.to_string(),
        budget_tokens,
        display: None,
    }
}

#[test]
fn disabled_type_string_is_not_enabled() {
    let parsed = parsed("disabled", None);
    assert!(!parsed.is_enabled());
    assert_eq!(parsed.type_str(), "disabled");
}

#[test]
fn enabled_type_string_is_enabled() {
    let parsed = parsed("enabled", Some(4096));
    assert!(parsed.is_enabled());
    assert_eq!(parsed.budget_tokens(), Some(4096));
}

#[test]
fn adaptive_type_string_is_enabled() {
    let parsed = parsed("adaptive", None);
    assert!(parsed.is_enabled());
    assert_eq!(parsed.budget_tokens(), None);
}

#[test]
fn every_variant_goes_by_its_type_string() {
    let disabled = ThinkingConfig::Disabled { config_type: "enabled".to_string() };
    assert!(disabled.is_enabled());
    assert_eq!(disabled.type_str(), "enabled");
    assert_eq!(disabled.budget_tokens(), None);
    let adaptive = ThinkingConfig::Adaptive {
        config_type: "adaptive".to_string(),
        display: None,
    };
    assert!(adaptive.is_enabled());
    assert_eq!(adaptive.budget_tokens(), None);
    assert_eq!(parsed("disabled", Some(7)).budget_tokens(), None);
}

#[test]
fn content_of_unknown_form_counts_as_none() {
    assert_eq!(
        ContentValue::from_inner(ContentValueInner::Raw(Json::Bool(true))),
        ContentValue::Null
    );
    assert_eq!(
        ContentValue::from_inner(ContentValueInner::Text("hi".to_string())),
        ContentValue::Text("hi".to_string())
    );
    assert_eq!(
        ContentValue::from_inner(ContentValueInner::Blocks(vec![ContentBlock::Unknown])),
        ContentValue::Blocks(vec![ContentBlock::Unknown])
    );
}

#[test]
fn events_have_their_wire_names() {
    assert_eq!(SseEvent::MessageStop.event_name(), "message_stop");
    assert_eq!(
        SseEvent::ContentBlockStop { index: 3 }.event_name(),
        "content_block_stop"
    );
}
