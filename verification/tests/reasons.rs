use inlay_hints::hint::{ExcerptId, LanguageId, LanguageServerId};
use inlay_hints::reason::{InlayHintRefreshReason, InvalidationStrategy};
use inlay_hints::settings::InlayHintSettings;

fn some_settings() -> InlayHintSettings {
    InlayHintSettings {
        enabled: true,
        show_value_hints: true,
        edit_debounce_ms: 0,
        scroll_debounce_ms: 0,
        show_type_hints: true,
        show_parameter_hints: true,
        show_other_hints: true,
        show_background: false,
    }
}

fn every_reason() -> Vec<InlayHintRefreshReason> {
    vec![
        InlayHintRefreshReason::ModifiersChanged(true),
        InlayHintRefreshReason::Toggle(false),
        InlayHintRefreshReason::SettingsChange(some_settings()),
        InlayHintRefreshReason::NewLinesShown,
        InlayHintRefreshReason::BufferEdited(vec![LanguageId(3)]),
        InlayHintRefreshReason::RefreshRequested(LanguageServerId(1)),
        InlayHintRefreshReason::ExcerptsRemoved(vec![ExcerptId(2)]),
    ]
}

#[test]
fn every_reason_has_its_description() {
    let descriptions: Vec<&str> = every_reason().iter().map(|reason| reason.description()).collect();
    assert_eq!(
        descriptions,
        vec![
            "modifiers changed",
            "toggle",
            "settings change",
            "new lines shown",
            "buffer edited",
            "refresh requested",
            "excerpts removed",
        ]
    );
}

#[test]
fn only_three_reasons_name_a_strategy() {
    let strategies: Vec<Option<InvalidationStrategy>> =
        every_reason().iter().map(|reason| reason.strategy()).collect();
    assert_eq!(
        strategies,
        vec![
            None,
            None,
            None,
            Some(InvalidationStrategy::Additive),
            Some(InvalidationStrategy::BufferEdited),
            Some(InvalidationStrategy::RefreshRequested),
            None,
        ]
    );
}

#[test]
fn only_a_scroll_and_an_edit_are_debounced() {
    let ignores: Vec<bool> = every_reason().iter().map(|reason| reason.ignores_debounce()).collect();
    assert_eq!(ignores, vec![true, true, true, false, false, true, true]);
}

#[test]
fn only_an_edit_names_languages() {
    for reason in every_reason() {
        match &reason {
            InlayHintRefreshReason::BufferEdited(languages) => {
                assert_eq!(reason.required_languages(), Some(languages));
            }
            _ => assert_eq!(reason.required_languages(), None),
        }
    }
}
