use std::ops::ControlFlow;

use inlay_hints::hint::{BufferId, ExcerptId, InlayHint, Point, ResolveState};
use inlay_hints::hint_data::LspInlayHintData;
use inlay_hints::inlay::{Anchor, Inlay, InlayId};
use inlay_hints::settings::{debounce_value, AllowedHintKinds, InlayHintKind, InlayHintSettings};

fn settings(enabled: bool, types: bool, parameters: bool, other: bool) -> InlayHintSettings {
    InlayHintSettings {
        enabled,
        show_value_hints: true,
        edit_debounce_ms: 700,
        scroll_debounce_ms: 50,
        show_type_hints: types,
        show_parameter_hints: parameters,
        show_other_hints: other,
        show_background: false,
    }
}

fn visible(id: usize, label: &str, kind: Option<InlayHintKind>) -> Inlay {
    Inlay {
        id: InlayId::Hint(id),
        position: Anchor {
            excerpt_id: ExcerptId(1),
            buffer_id: BufferId(1),
            position: Point { row: 0, column: id as u32 },
        },
        hint: InlayHint {
            position: Point { row: 0, column: id as u32 },
            label: label.to_string(),
            kind,
            padding_left: false,
            padding_right: false,
            resolve_state: ResolveState::Resolved,
        },
    }
}

#[test]
fn new_takes_everything_from_the_settings() {
    let data = LspInlayHintData::new(settings(true, true, false, true));
    assert!(data.enabled());
    assert!(data.shown());
    assert_eq!(data.invalidate_debounce(), Some(700));
    assert_eq!(data.append_debounce(), Some(50));
    assert_eq!(
        data.allowed_hint_kinds(),
        AllowedHintKinds { type_hints: true, parameter_hints: false, other_hints: true }
    );
    assert!(data.cached_hints().is_empty());
    assert_eq!(data.next_task_id(), 0);
    assert!(!LspInlayHintData::new(settings(false, true, true, true)).enabled());
}

#[test]
fn a_debounce_of_zero_is_none() {
    assert_eq!(debounce_value(0), None);
    assert_eq!(debounce_value(1), Some(1));
    assert_eq!(debounce_value(u64::MAX), Some(u64::MAX));
    let mut zero = settings(true, true, true, true);
    zero.edit_debounce_ms = 0;
    zero.scroll_debounce_ms = 0;
    let data = LspInlayHintData::new(zero);
    assert_eq!(data.invalidate_debounce(), None);
    assert_eq!(data.append_debounce(), None);
}

#[test]
fn allowed_kinds_follow_the_three_switches() {
    let kinds = settings(true, true, false, true).enabled_inlay_hint_kinds();
    assert!(kinds.contains(Some(InlayHintKind::Type)));
    assert!(!kinds.contains(Some(InlayHintKind::Parameter)));
    assert!(kinds.contains(None));
    let kinds = settings(true, false, true, false).enabled_inlay_hint_kinds();
    assert!(!kinds.contains(Some(InlayHintKind::Type)));
    assert!(kinds.contains(Some(InlayHintKind::Parameter)));
    assert!(!kinds.contains(None));
}

#[test]
fn modifiers_override_reports_what_follows() {
    let mut data = LspInlayHintData::new(settings(true, true, true, true));
    assert_eq!(data.modifiers_override(false), None);
    assert_eq!(data.modifiers_override(true), Some(false));
    assert!(!data.shown());
    assert_eq!(data.modifiers_override(true), None);
    assert_eq!(data.modifiers_override(false), Some(true));
    assert!(data.shown());

    let mut data = LspInlayHintData::new(settings(false, true, true, true));
    assert_eq!(data.modifiers_override(true), Some(true));
    assert!(data.shown());
    assert!(!data.enabled());
    assert_eq!(data.modifiers_override(false), Some(false));
    assert!(!data.shown());
}

#[test]
fn toggle_reports_a_change_and_drops_the_override() {
    let mut data = LspInlayHintData::new(settings(false, true, true, true));
    assert!(!data.toggle(false));
    assert_eq!(data.modifiers_override(true), Some(true));
    assert!(data.toggle(true));
    assert!(data.enabled());
    assert!(data.shown(), "a toggle lets go of the override");
    assert!(!data.toggle(true));
    assert!(data.toggle(false));
    assert!(!data.enabled());
}

#[test]
fn settings_that_stay_disabled_only_adopt_the_kinds() {
    let mut data = LspInlayHintData::new(settings(false, true, true, true));
    let decision = data.update_settings(settings(false, false, true, false), Vec::new());
    assert!(matches!(decision, ControlFlow::Break(None)));
    assert!(!data.enabled());
    assert_eq!(
        data.allowed_hint_kinds(),
        AllowedHintKinds { type_hints: false, parameter_hints: true, other_hints: false }
    );
}

#[test]
fn settings_with_the_same_kinds_change_nothing() {
    let mut data = LspInlayHintData::new(settings(true, true, false, true));
    let mut new_settings = settings(true, true, false, true);
    new_settings.edit_debounce_ms = 0;
    new_settings.show_background = true;
    let decision = data.update_settings(new_settings, vec![visible(0, "a", None)]);
    assert!(matches!(decision, ControlFlow::Break(None)));
    assert_eq!(data.invalidate_debounce(), None, "the debounce is adopted all the same");
}

#[test]
fn settings_with_other_kinds_splice_without_a_fetch() {
    let mut data = LspInlayHintData::new(settings(true, true, false, true));
    let shown = vec![
        visible(0, "type", Some(InlayHintKind::Type)),
        visible(2, "other", None),
    ];
    let decision = data.update_settings(settings(true, false, false, true), shown);
    match decision {
        ControlFlow::Break(Some(splice)) => {
            assert_eq!(splice.to_remove, vec![InlayId::Hint(0)]);
            assert!(splice.to_insert.is_empty(), "nothing is cached that could come in");
        }
        _ => panic!("a change of the kinds is a splice"),
    }
    assert!(data.enabled());
    assert_eq!(
        data.allowed_hint_kinds(),
        AllowedHintKinds { type_hints: false, parameter_hints: false, other_hints: true }
    );
}

#[test]
fn settings_that_disable_take_the_visible_hints_out() {
    let mut data = LspInlayHintData::new(settings(true, true, true, true));
    let shown = vec![visible(4, "a", None), visible(9, "b", Some(InlayHintKind::Type))];
    match data.update_settings(settings(false, true, true, false), shown) {
        ControlFlow::Break(Some(splice)) => {
            assert_eq!(splice.to_remove, vec![InlayId::Hint(4), InlayId::Hint(9)]);
            assert!(splice.to_insert.is_empty());
        }
        _ => panic!("the visible hints have to leave"),
    }
    assert!(!data.enabled());
    assert!(data.cached_hints().is_empty());
    assert!(!data.allowed_hint_kinds().contains(None));

    let mut data = LspInlayHintData::new(settings(true, true, true, true));
    let decision = data.update_settings(settings(false, true, true, true), Vec::new());
    assert!(matches!(decision, ControlFlow::Break(None)));
    assert!(!data.enabled());
}

#[test]
fn settings_that_enable_ask_for_a_fetch() {
    let mut data = LspInlayHintData::new(settings(false, true, true, true));
    assert_eq!(data.modifiers_override(true), Some(true));
    let decision = data.update_settings(settings(true, false, true, true), Vec::new());
    assert!(matches!(decision, ControlFlow::Continue(())));
    assert!(data.enabled());
    assert!(data.shown(), "the override is dropped");
    assert!(!data.allowed_hint_kinds().contains(Some(InlayHintKind::Type)));
}

#[test]
fn settings_do_not_undo_a_toggle_unless_their_own_switch_moves() {
    let mut data = LspInlayHintData::new(settings(false, true, true, true));
    assert!(data.toggle(true));
    // Another setting changes; hints stay disabled in the settings.
    let decision = data.update_settings(settings(false, true, true, true), Vec::new());
    assert!(matches!(decision, ControlFlow::Break(None)));
    assert!(data.enabled(), "the toggle stands");
    // Now the settings enable hints, and then disable them again.
    let decision = data.update_settings(settings(true, true, true, true), Vec::new());
    assert!(matches!(decision, ControlFlow::Break(None)));
    let decision = data.update_settings(settings(false, true, true, true), Vec::new());
    assert!(matches!(decision, ControlFlow::Break(None)));
    assert!(!data.enabled());
}

#[test]
fn clear_empties_the_cache() {
    let mut data = LspInlayHintData::new(settings(true, true, true, true));
    data.clear();
    assert!(data.cached_hints().is_empty());
    assert!(data.enabled());
}
