use inlay_hints::clock::VersionClock;
use inlay_hints::editor::Editor;
use inlay_hints::fetch::{FetchRequest, ProviderError};
use inlay_hints::hint::{
    BufferId, ExcerptId, HintChunk, InlayHint, LanguageId, LanguageServerId, Point, PointRange,
    ResolveState, RowRange,
};
use inlay_hints::inlay::Inlay;
use inlay_hints::multi_buffer::{Excerpt, MultiBufferSnapshot, VisibleExcerpt};
use inlay_hints::reason::InlayHintRefreshReason;
use inlay_hints::settings::{AllowedHintKinds, InlayHintKind, InlayHintSettings};

fn settings(enabled: bool, kinds: &[Option<InlayHintKind>]) -> InlayHintSettings {
    InlayHintSettings {
        show_value_hints: true,
        enabled,
        edit_debounce_ms: 0,
        scroll_debounce_ms: 0,
        show_type_hints: kinds.contains(&Some(InlayHintKind::Type)),
        show_parameter_hints: kinds.contains(&Some(InlayHintKind::Parameter)),
        show_other_hints: kinds.contains(&None),
        show_background: false,
    }
}

fn all_kinds() -> Vec<Option<InlayHintKind>> {
    vec![None, Some(InlayHintKind::Type), Some(InlayHintKind::Parameter)]
}

fn kinds_of(kinds: &[Option<InlayHintKind>]) -> AllowedHintKinds {
    settings(true, kinds).enabled_inlay_hint_kinds()
}

fn hint(row: u32, column: u32, label: &str, kind: Option<InlayHintKind>) -> InlayHint {
    InlayHint {
        position: Point { row, column },
        label: label.to_string(),
        kind,
        padding_left: false,
        padding_right: false,
        resolve_state: ResolveState::Resolved,
    }
}

fn whole_file() -> PointRange {
    PointRange { start: Point { row: 0, column: 0 }, end: Point { row: 50, column: 0 } }
}

/// One document of the view, with its excerpt, its version and what is visible of it.
struct Document {
    excerpt_id: ExcerptId,
    buffer_id: BufferId,
    version: Vec<u32>,
    range: PointRange,
}

impl Document {
    fn new(id: u64) -> Document {
        Document {
            excerpt_id: ExcerptId(id as usize),
            buffer_id: BufferId(id),
            version: vec![0],
            range: whole_file(),
        }
    }

    fn edit(&mut self) {
        self.version[0] += 1;
    }

    fn region(&self) -> VisibleExcerpt {
        VisibleExcerpt {
            excerpt_id: self.excerpt_id,
            buffer_id: self.buffer_id,
            buffer_version: VersionClock::from_values(self.version.clone()),
            range: self.range,
            off_screen: false,
        }
    }
}

fn regions(documents: &[&Document]) -> Vec<VisibleExcerpt> {
    documents.iter().map(|document| document.region()).collect()
}

fn snapshot(documents: &[&Document]) -> MultiBufferSnapshot {
    MultiBufferSnapshot {
        excerpts: documents
            .iter()
            .map(|document| Excerpt { id: document.excerpt_id, buffer_id: document.buffer_id })
            .collect(),
    }
}

/// Runs the fetches of a refresh against `provider`, as a caller does once the
/// debounce is over: a fetch that is no longer registered is not sent.
fn run(
    editor: &mut Editor,
    fetches: Vec<FetchRequest>,
    view: &MultiBufferSnapshot,
    provider: &mut dyn FnMut(&FetchRequest) -> Result<Vec<InlayHint>, ProviderError>,
) {
    for request in fetches {
        if !editor.is_fetch_current(request.buffer_id, request.row_range, request.task_id) {
            continue;
        }
        let response = provider(&request)
            .map(|hints| vec![HintChunk { rows: request.row_range, hints }]);
        editor.complete_fetch(
            request.buffer_id,
            request.row_range,
            request.task_id,
            response,
            view,
        );
    }
}

fn refresh(
    editor: &mut Editor,
    reason: InlayHintRefreshReason,
    documents: &[&Document],
    provider: &mut dyn FnMut(&FetchRequest) -> Result<Vec<InlayHint>, ProviderError>,
) {
    let outcome = editor.refresh_inlay_hints(reason, regions(documents));
    run(editor, outcome.fetches, &snapshot(documents), provider);
}

fn label_of(inlay: &Inlay) -> String {
    let mut label = inlay.hint.label.clone();
    if inlay.hint.padding_left {
        label.insert(0, ' ');
    }
    if inlay.hint.padding_right {
        label.push(' ');
    }
    label
}

fn cached_hint_labels(editor: &Editor) -> Vec<String> {
    editor.inlay_hints().unwrap().cached_hints().iter().map(label_of).collect()
}

fn sorted_cached_hint_labels(editor: &Editor) -> Vec<String> {
    let mut labels = cached_hint_labels(editor);
    labels.sort();
    labels
}

/// The labels of the displayed hints in the order of the view: by document and
/// position, and among hints at one position in the order in which they came.
fn visible_hint_labels(editor: &Editor) -> Vec<String> {
    let mut hints = editor.visible_inlay_hints();
    hints.sort_by_key(|inlay| {
        (inlay.position.buffer_id.0, inlay.position.position.row, inlay.position.position.column)
    });
    hints.iter().map(label_of).collect()
}

fn allowed_hint_kinds_for_editor(editor: &Editor) -> AllowedHintKinds {
    editor.inlay_hints().unwrap().allowed_hint_kinds()
}

fn strings(labels: &[&str]) -> Vec<String> {
    labels.iter().map(|label| label.to_string()).collect()
}

#[test]
fn test_basic_cache_update_with_duplicate_hints() {
    let allowed_hint_kinds = [None, Some(InlayHintKind::Type)];
    let mut editor = Editor::new(true, true, Some(settings(true, &allowed_hint_kinds)));
    let mut main = Document::new(1);
    let mut lsp_request_count: u32 = 0;
    let mut provider = |_: &FetchRequest| {
        lsp_request_count += 1;
        let i = lsp_request_count;
        Ok(vec![hint(0, i, &i.to_string(), None)])
    };
    assert!(cached_hint_labels(&editor).is_empty());
    assert!(visible_hint_labels(&editor).is_empty());

    refresh(&mut editor, InlayHintRefreshReason::NewLinesShown, &[&main], &mut provider);
    let expected_hints = strings(&["1"]);
    assert_eq!(
        expected_hints,
        cached_hint_labels(&editor),
        "Should get its first hints when opening the editor"
    );
    assert_eq!(expected_hints, visible_hint_labels(&editor));
    assert_eq!(
        allowed_hint_kinds_for_editor(&editor),
        kinds_of(&allowed_hint_kinds),
        "Cache should use editor settings to get the allowed hint kinds"
    );

    main.edit();
    refresh(
        &mut editor,
        InlayHintRefreshReason::BufferEdited(vec![LanguageId(0)]),
        &[&main],
        &mut provider,
    );
    let expected_hints = strings(&["2"]);
    assert_eq!(expected_hints, cached_hint_labels(&editor), "Should get new hints after an edit");
    assert_eq!(expected_hints, visible_hint_labels(&editor));
    assert_eq!(
        allowed_hint_kinds_for_editor(&editor),
        kinds_of(&allowed_hint_kinds),
        "Cache should use editor settings to get the allowed hint kinds"
    );

    refresh(
        &mut editor,
        InlayHintRefreshReason::RefreshRequested(LanguageServerId(0)),
        &[&main],
        &mut provider,
    );
    let expected_hints = strings(&["3"]);
    assert_eq!(
        expected_hints,
        cached_hint_labels(&editor),
        "Should get new hints after hint refresh/ request"
    );
    assert_eq!(expected_hints, visible_hint_labels(&editor));
    assert_eq!(
        allowed_hint_kinds_for_editor(&editor),
        kinds_of(&allowed_hint_kinds),
        "Cache should use editor settings to get the allowed hint kinds"
    );
}

#[test]
fn test_no_hint_updates_for_unrelated_language_files() {
    let mut rs_editor = Editor::new(true, true, Some(settings(true, &all_kinds())));
    let mut md_editor = Editor::new(true, true, Some(settings(true, &all_kinds())));
    let mut rs = Document::new(1);
    let mut md = Document::new(2);
    let mut rs_requests: u32 = 0;
    let mut md_requests: u32 = 0;
    let mut rs_provider = |_: &FetchRequest| {
        rs_requests += 1;
        Ok(vec![hint(0, rs_requests, &rs_requests.to_string(), None)])
    };
    let mut md_provider = |_: &FetchRequest| {
        md_requests += 1;
        Ok(vec![hint(0, md_requests, &md_requests.to_string(), None)])
    };

    refresh(&mut rs_editor, InlayHintRefreshReason::NewLinesShown, &[&rs], &mut rs_provider);
    let expected_hints = strings(&["1"]);
    assert_eq!(
        expected_hints,
        cached_hint_labels(&rs_editor),
        "Should get its first hints when opening the editor"
    );
    assert_eq!(expected_hints, visible_hint_labels(&rs_editor));

    refresh(&mut md_editor, InlayHintRefreshReason::NewLinesShown, &[&md], &mut md_provider);
    let expected_hints = strings(&["1"]);
    assert_eq!(
        expected_hints,
        cached_hint_labels(&md_editor),
        "Markdown editor should have a separate version, repeating Rust editor rules"
    );
    assert_eq!(expected_hints, visible_hint_labels(&md_editor));

    rs.edit();
    refresh(
        &mut rs_editor,
        InlayHintRefreshReason::BufferEdited(vec![LanguageId(0)]),
        &[&rs],
        &mut rs_provider,
    );
    let expected_hints = strings(&["2"]);
    assert_eq!(
        expected_hints,
        cached_hint_labels(&rs_editor),
        "Rust inlay cache should change after the edit"
    );
    assert_eq!(expected_hints, visible_hint_labels(&rs_editor));
    let expected_hints = strings(&["1"]);
    assert_eq!(
        expected_hints,
        cached_hint_labels(&md_editor),
        "Markdown editor should not be affected by Rust editor changes"
    );
    assert_eq!(expected_hints, visible_hint_labels(&md_editor));

    md.edit();
    refresh(
        &mut md_editor,
        InlayHintRefreshReason::BufferEdited(vec![LanguageId(1)]),
        &[&md],
        &mut md_provider,
    );
    let expected_hints = strings(&["2"]);
    assert_eq!(
        expected_hints,
        cached_hint_labels(&md_editor),
        "Rust editor should not be affected by Markdown editor changes"
    );
    assert_eq!(expected_hints, visible_hint_labels(&md_editor));
    let expected_hints = strings(&["2"]);
    assert_eq!(
        expected_hints,
        cached_hint_labels(&rs_editor),
        "Markdown editor should also change independently"
    );
    assert_eq!(expected_hints, visible_hint_labels(&rs_editor));
}

fn three_kinds(_: &FetchRequest) -> Result<Vec<InlayHint>, ProviderError> {
    Ok(vec![
        hint(0, 1, "type hint", Some(InlayHintKind::Type)),
        hint(0, 2, "parameter hint", Some(InlayHintKind::Parameter)),
        hint(0, 3, "other hint", None),
    ])
}

#[test]
fn test_hint_setting_changes() {
    let allowed_hint_kinds = [None, Some(InlayHintKind::Type)];
    let mut editor = Editor::new(true, true, Some(settings(true, &allowed_hint_kinds)));
    let main = Document::new(1);
    let mut lsp_request_count: usize = 0;
    let mut provider = |request: &FetchRequest| {
        lsp_request_count += 1;
        three_kinds(request)
    };
    let mut requests_so_far: Vec<usize> = Vec::new();
    let all_labels = strings(&["type hint", "parameter hint", "other hint"]);

    refresh(&mut editor, InlayHintRefreshReason::NewLinesShown, &[&main], &mut provider);
    requests_so_far.push(editor.inlay_hints().unwrap().next_task_id() as usize);
    assert_eq!(requests_so_far[0], 1, "Should query new hints once");
    assert_eq!(
        all_labels,
        cached_hint_labels(&editor),
        "Should get its first hints when opening the editor"
    );
    assert_eq!(strings(&["type hint", "other hint"]), visible_hint_labels(&editor));
    assert_eq!(
        allowed_hint_kinds_for_editor(&editor),
        kinds_of(&allowed_hint_kinds),
        "Cache should use editor settings to get the allowed hint kinds"
    );

    refresh(
        &mut editor,
        InlayHintRefreshReason::RefreshRequested(LanguageServerId(0)),
        &[&main],
        &mut provider,
    );
    assert_eq!(editor.inlay_hints().unwrap().next_task_id(), 2, "Should load new hints twice");
    assert_eq!(
        all_labels,
        cached_hint_labels(&editor),
        "Cached hints should not change due to allowed hint kinds settings update"
    );
    assert_eq!(strings(&["type hint", "other hint"]), visible_hint_labels(&editor));

    let cases: Vec<(Vec<Option<InlayHintKind>>, Vec<String>)> = vec![
        (vec![None], strings(&["other hint"])),
        (vec![Some(InlayHintKind::Type)], strings(&["type hint"])),
        (vec![Some(InlayHintKind::Parameter)], strings(&["parameter hint"])),
        (vec![None, Some(InlayHintKind::Type)], strings(&["type hint", "other hint"])),
        (vec![None, Some(InlayHintKind::Parameter)], strings(&["parameter hint", "other hint"])),
        (
            vec![Some(InlayHintKind::Type), Some(InlayHintKind::Parameter)],
            strings(&["type hint", "parameter hint"]),
        ),
        (
            vec![None, Some(InlayHintKind::Type), Some(InlayHintKind::Parameter)],
            strings(&["type hint", "parameter hint", "other hint"]),
        ),
    ];
    for (new_allowed_hint_kinds, expected_visible_hints) in cases {
        refresh(
            &mut editor,
            InlayHintRefreshReason::SettingsChange(settings(true, &new_allowed_hint_kinds)),
            &[&main],
            &mut provider,
        );
        assert_eq!(
            editor.inlay_hints().unwrap().next_task_id(),
            2,
            "Should not load new hints on allowed hint kinds change for hint kinds {new_allowed_hint_kinds:?}"
        );
        assert_eq!(
            all_labels,
            cached_hint_labels(&editor),
            "Should get its cached hints unchanged after the settings change for hint kinds {new_allowed_hint_kinds:?}"
        );
        assert_eq!(
            expected_visible_hints,
            visible_hint_labels(&editor),
            "Should get its visible hints filtered after the settings change for hint kinds {new_allowed_hint_kinds:?}"
        );
        assert_eq!(
            allowed_hint_kinds_for_editor(&editor),
            kinds_of(&new_allowed_hint_kinds),
            "Cache should use editor settings to get the allowed hint kinds for hint kinds {new_allowed_hint_kinds:?}"
        );
    }

    let another_allowed_hint_kinds = [Some(InlayHintKind::Type)];
    refresh(
        &mut editor,
        InlayHintRefreshReason::SettingsChange(settings(false, &another_allowed_hint_kinds)),
        &[&main],
        &mut provider,
    );
    assert_eq!(
        editor.inlay_hints().unwrap().next_task_id(),
        2,
        "Should not load new hints when hints got disabled"
    );
    assert!(
        cached_hint_labels(&editor).is_empty(),
        "Should clear the cache when hints got disabled"
    );
    assert!(
        visible_hint_labels(&editor).is_empty(),
        "Should clear visible hints when hints got disabled"
    );
    assert_eq!(
        allowed_hint_kinds_for_editor(&editor),
        kinds_of(&another_allowed_hint_kinds),
        "Should update its allowed hint kinds even when hints got disabled"
    );

    refresh(
        &mut editor,
        InlayHintRefreshReason::RefreshRequested(LanguageServerId(0)),
        &[&main],
        &mut provider,
    );
    assert_eq!(
        editor.inlay_hints().unwrap().next_task_id(),
        2,
        "Should not load new hints when they got disabled"
    );
    assert!(cached_hint_labels(&editor).is_empty());
    assert!(visible_hint_labels(&editor).is_empty());

    let final_allowed_hint_kinds = [Some(InlayHintKind::Parameter)];
    refresh(
        &mut editor,
        InlayHintRefreshReason::SettingsChange(settings(true, &final_allowed_hint_kinds)),
        &[&main],
        &mut provider,
    );
    assert_eq!(
        editor.inlay_hints().unwrap().next_task_id(),
        3,
        "Should query for new hints when they got re-enabled"
    );
    assert_eq!(
        all_labels,
        cached_hint_labels(&editor),
        "Should get its cached hints fully repopulated after the hints got re-enabled"
    );
    assert_eq!(
        strings(&["parameter hint"]),
        visible_hint_labels(&editor),
        "Should get its visible hints repopulated and filtered after the h"
    );
    assert_eq!(
        allowed_hint_kinds_for_editor(&editor),
        kinds_of(&final_allowed_hint_kinds),
        "Cache should update editor settings when hints got re-enabled"
    );

    refresh(
        &mut editor,
        InlayHintRefreshReason::RefreshRequested(LanguageServerId(0)),
        &[&main],
        &mut provider,
    );
    assert_eq!(editor.inlay_hints().unwrap().next_task_id(), 4, "Should query for new hints again");
    assert_eq!(all_labels, cached_hint_labels(&editor));
    assert_eq!(strings(&["parameter hint"]), visible_hint_labels(&editor));
    drop(provider);
    assert_eq!(lsp_request_count, 4);
}

#[test]
fn test_hint_request_cancellation() {
    let mut editor = Editor::new(true, true, Some(settings(true, &all_kinds())));
    let mut main = Document::new(1);
    let mut lsp_request_count: u32 = 0;
    let mut provider = |_: &FetchRequest| {
        lsp_request_count += 1;
        let i = lsp_request_count;
        Ok(vec![hint(0, i, &i.to_string(), None)])
    };
    let view = snapshot(&[&main]);
    refresh(&mut editor, InlayHintRefreshReason::NewLinesShown, &[&main], &mut provider);

    let mut pending: Vec<FetchRequest> = Vec::new();
    let mut expected_changes = Vec::new();
    for change_after_opening in ["initial change #1", "initial change #2", "initial change #3"] {
        main.edit();
        let outcome = editor.refresh_inlay_hints(
            InlayHintRefreshReason::BufferEdited(vec![LanguageId(0)]),
            regions(&[&main]),
        );
        pending.extend(outcome.fetches);
        expected_changes.push(change_after_opening);
    }
    assert_eq!(pending.len(), expected_changes.len(), "Should apply all changes made");
    run(&mut editor, pending, &view, &mut provider);
    assert_eq!(
        editor.inlay_hints().unwrap().next_task_id(),
        4,
        "Should register a fetch for the editor init and for every edit"
    );
    let expected_hints = strings(&["2"]);
    assert_eq!(
        expected_hints,
        cached_hint_labels(&editor),
        "Should get hints from the last edit landed only"
    );
    assert_eq!(expected_hints, visible_hint_labels(&editor));

    let mut pending: Vec<FetchRequest> = Vec::new();
    for async_later_change in ["another change #1", "another change #2", "another change #3"] {
        expected_changes.push(async_later_change);
        main.edit();
        let outcome = editor.refresh_inlay_hints(
            InlayHintRefreshReason::BufferEdited(vec![LanguageId(0)]),
            regions(&[&main]),
        );
        pending.extend(outcome.fetches);
    }
    run(&mut editor, pending, &view, &mut provider);
    let expected_hints = strings(&["3"]);
    assert_eq!(
        expected_hints,
        cached_hint_labels(&editor),
        "Should get hints from the last edit landed only"
    );
    assert_eq!(expected_hints, visible_hint_labels(&editor));
    drop(provider);
    assert_eq!(
        lsp_request_count, 3,
        "Should query new hints one more time, for the last edit only"
    );
}

#[test]
fn test_excerpts_removed() {
    let mut editor = Editor::new(true, true, Some(settings(true, &[])));
    let mut main = Document::new(1);
    let mut other = Document::new(2);
    main.range = PointRange { start: Point { row: 0, column: 0 }, end: Point { row: 2, column: 0 } };
    other.range =
        PointRange { start: Point { row: 0, column: 1 }, end: Point { row: 2, column: 1 } };
    let mut provider = |request: &FetchRequest| {
        let hint_text = if request.buffer_id == BufferId(1) {
            "main hint"
        } else if request.buffer_id == BufferId(2) {
            "other hint"
        } else {
            panic!("unexpected uri: {:?}", request.buffer_id);
        };
        let positions = [(0, 2), (4, 2), (22, 2), (44, 2), (56, 2), (67, 2)];
        let mut hints = vec![hint(
            request.range.start.row + 99,
            request.range.start.column + 99,
            "out of excerpt range, should be ignored",
            None,
        )];
        for (i, (row, column)) in positions.into_iter().enumerate() {
            hints.push(hint(row, column, &format!("{hint_text}{} #{i}", ""), None));
        }
        Ok(hints)
    };

    refresh(&mut editor, InlayHintRefreshReason::NewLinesShown, &[&main, &other], &mut provider);
    assert_eq!(
        strings(&["main hint #0", "other hint #0"]),
        sorted_cached_hint_labels(&editor),
        "Cache should update for both excerpts despite hints display was disabled"
    );
    assert!(
        visible_hint_labels(&editor).is_empty(),
        "All hints are disabled and should not be shown despite being present in the cache"
    );

    refresh(
        &mut editor,
        InlayHintRefreshReason::ExcerptsRemoved(vec![other.excerpt_id]),
        &[&main],
        &mut provider,
    );
    assert_eq!(
        strings(&["main hint #0"]),
        cached_hint_labels(&editor),
        "For the removed excerpt, should clean corresponding cached hints"
    );
    assert!(
        visible_hint_labels(&editor).is_empty(),
        "All hints are disabled and should not be shown despite being present in the cache"
    );

    refresh(
        &mut editor,
        InlayHintRefreshReason::SettingsChange(settings(true, &all_kinds())),
        &[&main],
        &mut provider,
    );
    let expected_hints = strings(&["main hint #0"]);
    assert_eq!(
        expected_hints,
        cached_hint_labels(&editor),
        "Hint display settings change should not change the cache"
    );
    assert_eq!(
        expected_hints,
        visible_hint_labels(&editor),
        "Settings change should make cached hints visible"
    );
}

#[test]
fn test_toggle_inlay_hints() {
    let mut editor = Editor::new(true, true, Some(settings(false, &all_kinds())));
    let main = Document::new(1);
    let view = snapshot(&[&main]);
    let mut lsp_request_count: u32 = 0;
    let mut provider = |_: &FetchRequest| {
        lsp_request_count += 1;
        let i = lsp_request_count;
        Ok(vec![hint(0, i, &i.to_string(), None)])
    };

    let outcome = editor.toggle_inlay_hints(regions(&[&main]));
    run(&mut editor, outcome.fetches, &view, &mut provider);
    let expected_hints = strings(&["1"]);
    assert_eq!(
        expected_hints,
        cached_hint_labels(&editor),
        "Should display inlays after toggle despite them disabled in settings"
    );
    assert_eq!(expected_hints, visible_hint_labels(&editor));

    let outcome = editor.toggle_inlay_hints(regions(&[&main]));
    run(&mut editor, outcome.fetches, &view, &mut provider);
    assert!(cached_hint_labels(&editor).is_empty(), "Should clear hints after 2nd toggle");
    assert!(visible_hint_labels(&editor).is_empty());

    refresh(
        &mut editor,
        InlayHintRefreshReason::SettingsChange(settings(true, &all_kinds())),
        &[&main],
        &mut provider,
    );
    let expected_hints = strings(&["2"]);
    assert_eq!(
        expected_hints,
        cached_hint_labels(&editor),
        "Should query LSP hints for the 2nd time after enabling hints in settings"
    );
    assert_eq!(expected_hints, visible_hint_labels(&editor));

    let outcome = editor.toggle_inlay_hints(regions(&[&main]));
    run(&mut editor, outcome.fetches, &view, &mut provider);
    assert!(
        cached_hint_labels(&editor).is_empty(),
        "Should clear hints after enabling in settings and a 3rd toggle"
    );
    assert!(visible_hint_labels(&editor).is_empty());

    let outcome = editor.toggle_inlay_hints(regions(&[&main]));
    run(&mut editor, outcome.fetches, &view, &mut provider);
    let expected_hints = strings(&["3"]);
    assert_eq!(
        expected_hints,
        cached_hint_labels(&editor),
        "Should query LSP hints for the 3rd time after enabling hints in settings and toggling them back on"
    );
    assert_eq!(expected_hints, visible_hint_labels(&editor));
}

fn same_place(label: &str, padding_right: bool, resolve_state: ResolveState) -> InlayHint {
    InlayHint {
        position: Point { row: 3, column: 16 },
        label: label.to_string(),
        kind: None,
        padding_left: false,
        padding_right,
        resolve_state,
    }
}

#[test]
fn hints_at_the_same_place_keep_the_order_of_the_provider() {
    let mut editor = Editor::new(true, true, Some(settings(true, &all_kinds())));
    let main = Document::new(1);
    let mut provider = |_: &FetchRequest| {
        Ok(vec![
            same_place("move", false, ResolveState::Resolved),
            same_place("(", false, ResolveState::Resolved),
            same_place(
                "&x",
                false,
                ResolveState::CanResolve(LanguageServerId(0), "{\"file_id\":0}".to_string()),
            ),
            same_place(")", true, ResolveState::Resolved),
            same_place(
                ")",
                true,
                ResolveState::CanResolve(LanguageServerId(0), "{\"file_id\":1}".to_string()),
            ),
        ])
    };
    refresh(&mut editor, InlayHintRefreshReason::NewLinesShown, &[&main], &mut provider);
    let expected_hints = strings(&["move", "(", "&x", ") ", ") "]);
    assert_eq!(
        expected_hints,
        cached_hint_labels(&editor),
        "Editor inlay hints should repeat server's order when placed at the same spot"
    );
    assert_eq!(expected_hints, visible_hint_labels(&editor));
}

#[test]
fn a_record_that_repeats_its_neighbour_is_taken_once() {
    let mut editor = Editor::new(true, true, Some(settings(true, &all_kinds())));
    let main = Document::new(1);
    let mut provider = |_: &FetchRequest| {
        Ok(vec![
            same_place("(", false, ResolveState::Resolved),
            same_place(")", true, ResolveState::Resolved),
            same_place(")", true, ResolveState::Resolved),
            same_place("(", false, ResolveState::Resolved),
            same_place(")", true, ResolveState::Resolved),
        ])
    };
    refresh(&mut editor, InlayHintRefreshReason::NewLinesShown, &[&main], &mut provider);
    assert_eq!(strings(&["(", ") ", "(", ") "]), cached_hint_labels(&editor));
    assert_eq!(strings(&["(", ") ", "(", ") "]), visible_hint_labels(&editor));
}

#[test]
fn three_fast_edits_leave_the_hints_of_the_last() {
    let mut editor = Editor::new(true, true, Some(settings(true, &all_kinds())));
    let mut main = Document::new(1);
    let view = snapshot(&[&main]);
    let mut issued: Vec<FetchRequest> = Vec::new();
    for _ in 0..3 {
        main.edit();
        let outcome = editor.refresh_inlay_hints(
            InlayHintRefreshReason::BufferEdited(vec![LanguageId(0)]),
            regions(&[&main]),
        );
        assert!(outcome.splice.is_none());
        issued.extend(outcome.fetches);
    }
    assert_eq!(issued.len(), 3);
    // The responses land in the order of the edits; only the last is taken.
    for (i, request) in issued.iter().enumerate() {
        let label = (i + 1).to_string();
        let splice = editor.complete_fetch(
            request.buffer_id,
            request.row_range,
            request.task_id,
            Ok(vec![HintChunk { rows: request.row_range, hints: vec![hint(0, 1, &label, None)] }]),
            &view,
        );
        assert_eq!(splice.is_some(), i == 2);
    }
    assert_eq!(strings(&["3"]), cached_hint_labels(&editor));
    assert_eq!(strings(&["3"]), visible_hint_labels(&editor));
}

#[test]
fn a_response_that_lands_late_is_dropped() {
    let mut editor = Editor::new(true, true, Some(settings(true, &all_kinds())));
    let mut main = Document::new(1);
    let view = snapshot(&[&main]);
    main.edit();
    let first = editor
        .refresh_inlay_hints(
            InlayHintRefreshReason::BufferEdited(vec![LanguageId(0)]),
            regions(&[&main]),
        )
        .fetches[0];
    main.edit();
    let second = editor
        .refresh_inlay_hints(
            InlayHintRefreshReason::BufferEdited(vec![LanguageId(0)]),
            regions(&[&main]),
        )
        .fetches[0];
    assert_eq!(first.row_range, second.row_range);
    assert!(!editor.is_fetch_current(first.buffer_id, first.row_range, first.task_id));
    assert!(editor.is_fetch_current(second.buffer_id, second.row_range, second.task_id));
    let chunk = |label: &str| vec![HintChunk { rows: first.row_range, hints: vec![hint(0, 1, label, None)] }];
    // The later fetch answers first, the earlier one afterwards.
    let splice = editor.complete_fetch(
        second.buffer_id,
        second.row_range,
        second.task_id,
        Ok(chunk("new")),
        &view,
    );
    assert!(splice.is_some());
    let splice =
        editor.complete_fetch(first.buffer_id, first.row_range, first.task_id, Ok(chunk("old")), &view);
    assert!(splice.is_none());
    assert_eq!(strings(&["new"]), cached_hint_labels(&editor));
    assert_eq!(strings(&["new"]), visible_hint_labels(&editor));
    // A fetch completes once.
    let again = editor.complete_fetch(
        second.buffer_id,
        second.row_range,
        second.task_id,
        Ok(chunk("again")),
        &view,
    );
    assert!(again.is_none());
    assert_eq!(strings(&["new"]), cached_hint_labels(&editor));
}

#[test]
fn a_failed_fetch_leaves_the_cache_alone() {
    let mut editor = Editor::new(true, true, Some(settings(true, &all_kinds())));
    let mut main = Document::new(1);
    refresh(&mut editor, InlayHintRefreshReason::NewLinesShown, &[&main], &mut |_| {
        Ok(vec![hint(1, 1, "kept", None)])
    });
    main.edit();
    let outcome = editor.refresh_inlay_hints(
        InlayHintRefreshReason::BufferEdited(vec![LanguageId(0)]),
        regions(&[&main]),
    );
    let request = outcome.fetches[0];
    let splice = editor.complete_fetch(
        request.buffer_id,
        request.row_range,
        request.task_id,
        Err(ProviderError { message: "connection lost".to_string() }),
        &snapshot(&[&main]),
    );
    assert!(splice.is_none());
    assert!(!editor.is_fetch_current(request.buffer_id, request.row_range, request.task_id));
    assert_eq!(strings(&["kept"]), cached_hint_labels(&editor));
    assert_eq!(strings(&["kept"]), visible_hint_labels(&editor));
}

#[test]
fn hints_outside_the_queried_span_are_dropped() {
    let mut editor = Editor::new(true, true, Some(settings(true, &all_kinds())));
    let mut main = Document::new(1);
    main.range = PointRange { start: Point { row: 2, column: 4 }, end: Point { row: 5, column: 3 } };
    refresh(&mut editor, InlayHintRefreshReason::NewLinesShown, &[&main], &mut |_| {
        Ok(vec![
            hint(2, 3, "before the start", None),
            hint(2, 4, "at the start", None),
            hint(3, 0, "inside", None),
            hint(5, 3, "at the end", None),
            hint(5, 4, "after the end", None),
            hint(1, 9, "row above", None),
            hint(6, 0, "row below", None),
        ])
    });
    let expected = strings(&["at the start", "inside", "at the end"]);
    assert_eq!(expected, cached_hint_labels(&editor));
    assert_eq!(expected, visible_hint_labels(&editor));
    let ids: Vec<_> = editor.visible_inlay_hints().iter().map(|inlay| inlay.id).collect();
    assert_eq!(
        ids,
        vec![
            inlay_hints::inlay::InlayId::Hint(0),
            inlay_hints::inlay::InlayId::Hint(1),
            inlay_hints::inlay::InlayId::Hint(2)
        ]
    );
    assert_eq!(editor.next_inlay_id(), 3);
}

#[test]
fn removing_an_excerpt_leaves_the_other_document_alone() {
    let mut editor = Editor::new(true, true, Some(settings(true, &all_kinds())));
    let mut main = Document::new(1);
    let mut other = Document::new(2);
    let mut provider = |request: &FetchRequest| {
        Ok(vec![hint(1, 1, &format!("hint of {}", request.buffer_id.0), None)])
    };
    refresh(&mut editor, InlayHintRefreshReason::NewLinesShown, &[&main, &other], &mut provider);
    assert_eq!(strings(&["hint of 1", "hint of 2"]), visible_hint_labels(&editor));
    main.edit();
    other.edit();
    let pending = editor
        .refresh_inlay_hints(
            InlayHintRefreshReason::BufferEdited(vec![LanguageId(0)]),
            regions(&[&main, &other]),
        )
        .fetches;
    assert_eq!(pending.len(), 2);

    let outcome = editor.refresh_inlay_hints(
        InlayHintRefreshReason::ExcerptsRemoved(vec![other.excerpt_id]),
        regions(&[&main]),
    );
    assert!(outcome.fetches.is_empty());
    let splice = outcome.splice.unwrap();
    assert_eq!(splice.to_remove, vec![inlay_hints::inlay::InlayId::Hint(1)]);
    assert!(splice.to_insert.is_empty());
    assert_eq!(strings(&["hint of 1"]), cached_hint_labels(&editor));
    assert_eq!(strings(&["hint of 1"]), visible_hint_labels(&editor));
    assert!(editor.is_fetch_current(pending[0].buffer_id, pending[0].row_range, pending[0].task_id));
    assert!(!editor.is_fetch_current(pending[1].buffer_id, pending[1].row_range, pending[1].task_id));
}

#[test]
fn a_held_modifier_inverts_the_display() {
    let mut editor = Editor::new(true, true, Some(settings(true, &all_kinds())));
    let main = Document::new(1);
    let mut count: u32 = 0;
    let mut provider = |_: &FetchRequest| {
        count += 1;
        Ok(vec![hint(1, 1, &count.to_string(), None)])
    };
    refresh(&mut editor, InlayHintRefreshReason::NewLinesShown, &[&main], &mut provider);
    assert_eq!(strings(&["1"]), visible_hint_labels(&editor));

    let outcome =
        editor.refresh_inlay_hints(InlayHintRefreshReason::ModifiersChanged(true), regions(&[&main]));
    assert!(outcome.fetches.is_empty());
    assert_eq!(outcome.splice.unwrap().to_remove.len(), 1);
    assert!(cached_hint_labels(&editor).is_empty());
    assert!(visible_hint_labels(&editor).is_empty());
    assert!(editor.inlay_hints_enabled());

    // While hints are hidden nothing is fetched.
    let outcome = editor.refresh_inlay_hints(
        InlayHintRefreshReason::RefreshRequested(LanguageServerId(0)),
        regions(&[&main]),
    );
    assert!(outcome.fetches.is_empty() && outcome.splice.is_none());

    // The same state of the key again changes nothing.
    let outcome =
        editor.refresh_inlay_hints(InlayHintRefreshReason::ModifiersChanged(true), regions(&[&main]));
    assert!(outcome.fetches.is_empty() && outcome.splice.is_none());

    refresh(&mut editor, InlayHintRefreshReason::ModifiersChanged(false), &[&main], &mut provider);
    assert_eq!(strings(&["2"]), cached_hint_labels(&editor));
    assert_eq!(strings(&["2"]), visible_hint_labels(&editor));
}

#[test]
fn only_edits_and_margins_are_debounced() {
    let mut config = settings(true, &all_kinds());
    config.edit_debounce_ms = 50;
    config.scroll_debounce_ms = 400;
    let mut editor = Editor::new(true, true, Some(config));
    let mut main = Document::new(1);
    let mut margin = Document::new(1).region();
    margin.range = PointRange { start: Point { row: 51, column: 0 }, end: Point { row: 90, column: 0 } };
    margin.off_screen = true;

    let outcome =
        editor.refresh_inlay_hints(InlayHintRefreshReason::NewLinesShown, vec![main.region(), margin]);
    assert_eq!(outcome.fetches.len(), 2);
    assert_eq!(outcome.fetches[0].debounce_ms, None);
    assert_eq!(outcome.fetches[0].row_range, RowRange { start: 0, end: 50 });
    assert!(!outcome.fetches[0].should_invalidate);
    assert_eq!(outcome.fetches[1].debounce_ms, Some(400));
    assert_eq!(outcome.fetches[1].row_range, RowRange { start: 51, end: 90 });

    main.edit();
    let outcome = editor.refresh_inlay_hints(
        InlayHintRefreshReason::BufferEdited(vec![LanguageId(0)]),
        regions(&[&main]),
    );
    assert_eq!(outcome.fetches[0].debounce_ms, Some(50));
    assert!(outcome.fetches[0].should_invalidate);

    let outcome = editor.refresh_inlay_hints(
        InlayHintRefreshReason::RefreshRequested(LanguageServerId(0)),
        regions(&[&main]),
    );
    assert_eq!(outcome.fetches[0].debounce_ms, None);
    assert!(outcome.fetches[0].should_invalidate);
}

#[test]
fn a_surface_without_provider_or_hint_support_does_nothing() {
    let main = Document::new(1);
    for mut editor in [
        Editor::new(false, true, Some(settings(true, &all_kinds()))),
        Editor::new(true, false, Some(settings(true, &all_kinds()))),
        Editor::new(true, true, None),
    ] {
        let outcome =
            editor.refresh_inlay_hints(InlayHintRefreshReason::NewLinesShown, regions(&[&main]));
        assert!(outcome.fetches.is_empty() && outcome.splice.is_none());
        let outcome = editor.toggle_inlay_hints(regions(&[&main]));
        assert!(outcome.fetches.is_empty() && outcome.splice.is_none());
    }
    assert!(!Editor::new(true, true, None).inlay_hints_enabled());
}

#[test]
fn hints_of_a_vanished_excerpt_cannot_be_placed() {
    let mut editor = Editor::new(true, true, Some(settings(true, &all_kinds())));
    let main = Document::new(1);
    let outcome = editor.refresh_inlay_hints(InlayHintRefreshReason::NewLinesShown, regions(&[&main]));
    let request = outcome.fetches[0];
    let empty_view = MultiBufferSnapshot { excerpts: Vec::new() };
    let splice = editor
        .complete_fetch(
            request.buffer_id,
            request.row_range,
            request.task_id,
            Ok(vec![HintChunk { rows: request.row_range, hints: vec![hint(1, 1, "lost", None)] }]),
            &empty_view,
        )
        .unwrap();
    assert!(splice.to_insert.is_empty());
    assert!(cached_hint_labels(&editor).is_empty());
    assert_eq!(editor.next_inlay_id(), 0);
}

#[test]
fn of_many_responses_in_any_order_only_that_of_the_last_fetch_is_taken() {
    let mut editor = Editor::new(true, true, Some(settings(true, &all_kinds())));
    let mut main = Document::new(1);
    let view = snapshot(&[&main]);
    refresh(&mut editor, InlayHintRefreshReason::NewLinesShown, &[&main], &mut |_| {
        Ok(vec![hint(0, 0, "before", None)])
    });
    let reasons = [
        InlayHintRefreshReason::BufferEdited(vec![LanguageId(0)]),
        InlayHintRefreshReason::NewLinesShown,
        InlayHintRefreshReason::RefreshRequested(LanguageServerId(0)),
        InlayHintRefreshReason::BufferEdited(vec![LanguageId(0)]),
        InlayHintRefreshReason::NewLinesShown,
    ];
    let mut issued: Vec<FetchRequest> = Vec::new();
    for reason in reasons {
        main.edit();
        let outcome = editor.refresh_inlay_hints(reason, regions(&[&main]));
        assert!(outcome.splice.is_none());
        assert_eq!(outcome.fetches.len(), 1);
        issued.extend(outcome.fetches);
        let current: Vec<bool> = issued
            .iter()
            .map(|request| editor.is_fetch_current(request.buffer_id, request.row_range, request.task_id))
            .collect();
        assert_eq!(current.iter().filter(|current| **current).count(), 1);
        assert!(current[issued.len() - 1], "the fetch issued last is the registered one");
    }
    assert_eq!(cached_hint_labels(&editor), strings(&["before"]));

    // The responses arrive out of order; the last fetch answers in the middle.
    let mut splices = 0;
    for i in [2, 0, 4, 1, 3] {
        let request = issued[i];
        let label = format!("response {i}");
        let splice = editor.complete_fetch(
            request.buffer_id,
            request.row_range,
            request.task_id,
            Ok(vec![HintChunk { rows: request.row_range, hints: vec![hint(0, 1, &label, None)] }]),
            &view,
        );
        if let Some(splice) = splice {
            splices += 1;
            assert_eq!(i, 4);
            assert_eq!(splice.to_remove.len(), 1, "the document was edited since");
            assert_eq!(splice.to_insert.len(), 1);
            assert_eq!(splice.to_insert[0].hint.label, "response 4");
        }
    }
    assert_eq!(splices, 1);
    assert_eq!(cached_hint_labels(&editor), strings(&["response 4"]));
    assert_eq!(visible_hint_labels(&editor), strings(&["response 4"]));
}
