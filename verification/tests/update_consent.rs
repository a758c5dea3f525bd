use heddle::settings_value::{FileValue, SettingsValue};
use heddle::update_consent::UpdateConsent;

#[test]
fn the_default_is_unanswered() {
    assert_eq!(UpdateConsent::default(), UpdateConsent::Unanswered);
}

#[test]
fn only_an_explicit_yes_permits_a_network_request() {
    assert!(
        !UpdateConsent::Unanswered.should_check(),
        "not having asked is not consent"
    );
    assert!(
        !UpdateConsent::Disabled.should_check(),
        "declining must mean no request, ever"
    );
    assert!(UpdateConsent::Enabled.should_check());
}

#[test]
fn only_the_unanswered_state_prompts() {
    assert!(UpdateConsent::Unanswered.needs_prompt());
    assert!(!UpdateConsent::Enabled.needs_prompt());
    assert!(!UpdateConsent::Disabled.needs_prompt());
}

#[test]
fn round_trips_through_the_settings_wire_format() {
    for value in [
        UpdateConsent::Unanswered,
        UpdateConsent::Enabled,
        UpdateConsent::Disabled,
    ] {
        let stored = value.to_file_value();
        let back = UpdateConsent::from_file_value(&stored)
            .unwrap_or_else(|| panic!("{value:?} must decode from its own encoding"));
        assert_eq!(value, back, "{value:?} must survive a round trip");
    }
}

#[test]
fn the_persisted_names_are_the_ones_we_expect() {
    assert_eq!(
        UpdateConsent::Enabled.to_file_value(),
        FileValue::String("enabled".to_string())
    );
    assert_eq!(
        UpdateConsent::Unanswered.to_file_value(),
        FileValue::String("unanswered".to_string())
    );
    assert_eq!(
        UpdateConsent::Disabled.to_file_value(),
        FileValue::String("disabled".to_string())
    );
}

#[test]
fn an_unknown_persisted_value_does_not_become_consent() {
    let decoded = UpdateConsent::from_file_value(&FileValue::String("nonsense".to_string()));
    assert!(decoded.is_none(), "an unknown value must not decode");
    assert_eq!(
        decoded.unwrap_or_default(),
        UpdateConsent::Unanswered,
        "and the fallback must be the state that asks, not the state that permits"
    );
}

#[test]
fn names_are_matched_exactly() {
    assert_eq!(UpdateConsent::from_file_name("Enabled"), None);
    assert_eq!(UpdateConsent::from_file_name(" enabled"), None);
    assert_eq!(UpdateConsent::from_file_name(""), None);
    assert_eq!(
        UpdateConsent::from_file_name("disabled"),
        Some(UpdateConsent::Disabled)
    );
    assert_eq!(UpdateConsent::Enabled.file_name(), "enabled");
}

#[test]
fn only_a_string_can_hold_consent() {
    assert_eq!(UpdateConsent::from_file_value(&FileValue::Bool(true)), None);
    assert_eq!(UpdateConsent::from_file_value(&FileValue::Null), None);
}
