use wgpu_mc_jni::registry::{
    register_entry, Registration, RegistrationAction, RegistrationEvent, FALLBACK_BLOCK_STATES,
};

#[test]
fn the_block_states_file_is_fetched() {
    let (state, resource) = register_entry(0, "oak_log").unwrap();
    assert_eq!(state, Registration::Fetching);
    assert_eq!(resource, "blockstates/oak_log.json");
    assert!(register_entry(1, "oak_log").is_none());
    assert!(register_entry(-1, "oak_log").is_none());
}

#[test]
fn the_fetched_text_is_tried_first() {
    let text = "{\"variants\": \"\u{e9}\u{1F332}\"}";
    let (state, action) =
        Registration::Fetching.step(RegistrationEvent::Fetched(text.as_bytes().to_vec()));
    assert_eq!(state, Registration::TryingResource);
    assert_eq!(action, RegistrationAction::Build(text.to_string()));
    let (state, action) = state.step(RegistrationEvent::Built);
    assert_eq!(state, Registration::Registered);
    assert_eq!(action, RegistrationAction::Insert);
}

#[test]
fn bedrock_stands_in_for_a_rejected_text() {
    let (state, action) = Registration::TryingResource.step(RegistrationEvent::Rejected);
    assert_eq!(state, Registration::TryingFallback);
    assert_eq!(
        action,
        RegistrationAction::Build(
            "{\"variants\":{\"\": {\"model\": \"minecraft:block/bedrock\"}}}".to_string()
        )
    );
    assert_eq!(
        state.step(RegistrationEvent::Built),
        (Registration::Registered, RegistrationAction::Insert)
    );
    assert_eq!(
        Registration::TryingFallback.step(RegistrationEvent::Rejected),
        (Registration::Failed, RegistrationAction::Fail)
    );
    assert!(FALLBACK_BLOCK_STATES.contains("bedrock"));
}

#[test]
fn text_must_be_utf8() {
    assert_eq!(
        Registration::Fetching.step(RegistrationEvent::Fetched(vec![0x7b, 0xff])),
        (Registration::Failed, RegistrationAction::Fail)
    );
}

#[test]
fn nothing_follows_the_end() {
    for over in [Registration::Registered, Registration::Failed] {
        for event in [RegistrationEvent::Built, RegistrationEvent::Rejected] {
            assert_eq!(over.step(event), (Registration::Failed, RegistrationAction::Fail));
        }
    }
}
