use meilisearch_cli::settings::SaveOutcome;
use meilisearch_cli::json::Json;
use meilisearch_cli::keys::{Key, KeyCode};
use meilisearch_cli::settings::{
    build_field_items, compute_field_value, distribution_fields, field_key, resource_defs,
    save_message, summarize_value, valid_sub_resources, validate_sub_resource, EditorState,
    FieldItem, SettingsAction, SettingsState, SettingsView,
};

fn s(t: &str) -> Json {
    Json::Str(t.to_string())
}

fn strs(v: &[&str]) -> Json {
    Json::Array(v.iter().map(|t| s(t)).collect())
}

fn key(code: KeyCode) -> Key {
    Key { code, ctrl: false, shift: false }
}

fn shift(code: KeyCode) -> Key {
    Key { code, ctrl: false, shift: true }
}

fn names(items: &[FieldItem]) -> Vec<(String, bool)> {
    items.iter().map(|i| (i.name.clone(), i.checked)).collect()
}

fn fields(v: &[&str]) -> Vec<String> {
    v.iter().map(|t| t.to_string()).collect()
}

#[test]
fn known_sub_resources_are_accepted() {
    assert!(validate_sub_resource("synonyms").is_ok());
    assert!(validate_sub_resource("typo-tolerance").is_ok());
    assert_eq!(valid_sub_resources().len(), 21);
}

#[test]
fn unknown_sub_resource_lists_the_known_ones() {
    let err = validate_sub_resource("nope").unwrap_err();
    assert!(err.starts_with("Unknown settings sub-resource: 'nope'\nValid sub-resources: chat, dictionary, "));
    assert!(err.ends_with("stop-words, synonyms, typo-tolerance"));
}

#[test]
fn resource_table_has_every_editable_setting() {
    let defs = resource_defs();
    assert_eq!(defs.len(), 21);
    assert_eq!(defs[0].slug, "displayed-attributes");
    assert_eq!(defs[0].key, "displayedAttributes");
    assert_eq!(defs[5].key, "proximityPrecision");
    assert_eq!(defs[19].slug, "facet-search");
    assert_eq!(defs[19].key, "facetSearch");
    assert_eq!(defs[19].group, "Other");
    assert_eq!(defs[20].slug, "chat");
    assert_eq!(defs[12].group, "Other");
}

#[test]
fn ordered_items_put_checked_first_then_the_rest_sorted() {
    let value = strs(&["title", "id"]);
    let (items, wildcard) = build_field_items(&value, &fields(&["year", "id", "genre", "title"]), true);
    assert!(!wildcard);
    assert_eq!(
        names(&items),
        vec![
            ("title".to_string(), true),
            ("id".to_string(), true),
            ("genre".to_string(), false),
            ("year".to_string(), false),
        ]
    );
}

#[test]
fn wildcard_checks_every_field() {
    let value = strs(&["*"]);
    let (items, wildcard) = build_field_items(&value, &fields(&["b", "a"]), true);
    assert!(wildcard);
    assert_eq!(names(&items), vec![("b".to_string(), true), ("a".to_string(), true)]);
    assert_eq!(compute_field_value(&items, true, true), strs(&["*"]));
}

#[test]
fn unordered_items_are_sorted_and_include_unknown_checked_names() {
    let value = strs(&["zeta", "genre"]);
    let (items, _) = build_field_items(&value, &fields(&["title", "genre"]), false);
    assert_eq!(
        names(&items),
        vec![
            ("genre".to_string(), true),
            ("title".to_string(), false),
            ("zeta".to_string(), true),
        ]
    );
    assert_eq!(compute_field_value(&items, false, false), strs(&["genre", "zeta"]));
}

fn item(n: &str, c: bool) -> FieldItem {
    FieldItem { name: n.to_string(), checked: c }
}

#[test]
fn unchecking_moves_item_among_unchecked_in_order() {
    let items = vec![item("b", true), item("d", true), item("a", false), item("c", false)];
    let (items, cursor, wildcard) = field_key(items, 1, true, false, key(KeyCode::Char(' ')));
    assert_eq!(cursor, 1);
    assert!(!wildcard);
    assert_eq!(
        names(&items),
        vec![
            ("b".to_string(), true),
            ("a".to_string(), false),
            ("c".to_string(), false),
            ("d".to_string(), false),
        ]
    );
}

#[test]
fn checking_appends_item_to_checked_and_follows_it() {
    let items = vec![item("b", true), item("a", false), item("c", false)];
    let (items, cursor, _) = field_key(items, 2, true, false, key(KeyCode::Char(' ')));
    assert_eq!(cursor, 1);
    assert_eq!(
        names(&items),
        vec![("b".to_string(), true), ("c".to_string(), true), ("a".to_string(), false)]
    );
}

#[test]
fn shift_moves_only_between_checked_items() {
    let items = vec![item("a", true), item("b", true), item("c", false)];
    let (items, cursor, _) = field_key(items, 1, true, false, shift(KeyCode::Up));
    assert_eq!(cursor, 0);
    assert_eq!(names(&items)[0], ("b".to_string(), true));
    let (items, cursor, _) = field_key(items, 1, true, false, shift(KeyCode::Down));
    assert_eq!(cursor, 1);
    assert_eq!(names(&items)[2], ("c".to_string(), false));
}

#[test]
fn toggling_in_unordered_editor_keeps_position() {
    let items = vec![item("a", false), item("b", true)];
    let (items, cursor, _) = field_key(items, 0, false, false, key(KeyCode::Char(' ')));
    assert_eq!(cursor, 0);
    assert_eq!(names(&items), vec![("a".to_string(), true), ("b".to_string(), true)]);
}

#[test]
fn star_toggles_wildcard_in_ordered_editor() {
    let items = vec![item("a", true)];
    let (_, _, w) = field_key(items.clone(), 0, true, false, key(KeyCode::Char('*')));
    assert!(w);
    let (_, _, w) = field_key(items.clone(), 0, true, true, key(KeyCode::Char('*')));
    assert!(!w);
    let (_, _, w) = field_key(items, 0, false, false, key(KeyCode::Char('*')));
    assert!(!w);
}

fn settings_json() -> Json {
    Json::Object(vec![
        ("displayedAttributes".to_string(), strs(&["*"])),
        ("rankingRules".to_string(), strs(&["words", "typo"])),
        ("searchCutoffMs".to_string(), Json::Null),
        ("proximityPrecision".to_string(), s("byWord")),
    ])
}

fn state() -> SettingsState {
    SettingsState::new("movies".to_string(), settings_json(), fields(&["title", "id"]))
}

#[test]
fn new_state_sorts_fields() {
    let st = state();
    assert_eq!(st.fields, fields(&["id", "title"]));
    assert_eq!(st.view, SettingsView::ResourceList);
    assert!(st.changes.is_empty());
}

#[test]
fn editing_a_string_list_records_a_change() {
    let mut st = state();
    st.res_cursor = 4; // ranking-rules
    assert_eq!(st.handle_input(key(KeyCode::Enter)), SettingsAction::Continue);
    assert_eq!(st.view, SettingsView::Editor);
    // delete "words"
    st.handle_input(key(KeyCode::Char('d')));
    st.handle_input(key(KeyCode::Esc));
    assert_eq!(st.view, SettingsView::ResourceList);
    assert_eq!(st.changes.len(), 1);
    assert_eq!(st.changes[0].0, "rankingRules");
    assert_eq!(st.changes[0].1, strs(&["typo"]));
}

#[test]
fn restoring_the_server_value_drops_the_change() {
    let mut st = state();
    st.res_cursor = 5; // proximity-precision, byWord selected
    st.handle_input(key(KeyCode::Enter));
    st.handle_input(key(KeyCode::Down));
    st.handle_input(key(KeyCode::Enter));
    assert_eq!(st.changes.len(), 1);
    assert_eq!(st.changes[0].1, s("byAttribute"));
    st.handle_input(key(KeyCode::Enter));
    st.handle_input(key(KeyCode::Up));
    st.handle_input(key(KeyCode::Enter));
    assert!(st.changes.is_empty());
}

#[test]
fn number_editor_parses_digits() {
    let mut st = state();
    st.res_cursor = 6; // search-cutoff-ms
    st.handle_input(key(KeyCode::Enter));
    st.handle_input(key(KeyCode::Char('1')));
    st.handle_input(key(KeyCode::Char('x')));
    st.handle_input(key(KeyCode::Char('5')));
    st.handle_input(key(KeyCode::Enter));
    assert_eq!(st.changes[0].1, Json::Number("15".to_string()));
}

#[test]
fn quitting_with_unsaved_changes_asks_once() {
    let mut st = state();
    st.res_cursor = 6;
    st.handle_input(key(KeyCode::Enter));
    st.handle_input(key(KeyCode::Char('3')));
    st.handle_input(key(KeyCode::Esc));
    assert_eq!(st.handle_input(key(KeyCode::Char('q'))), SettingsAction::Continue);
    assert_eq!(st.status_msg, "Unsaved changes! Press q again to discard, or s to save.");
    assert_eq!(st.handle_input(key(KeyCode::Char('q'))), SettingsAction::Quit);
}

#[test]
fn json_settings_open_the_external_editor() {
    let mut st = state();
    st.res_cursor = 13; // typo-tolerance
    assert_eq!(st.handle_input(key(KeyCode::Enter)), SettingsAction::LaunchEditor(13));
    let ctrl_c = Key { code: KeyCode::Char('c'), ctrl: true, shift: false };
    assert_eq!(st.handle_input(ctrl_c), SettingsAction::Quit);
}

#[test]
fn json_edit_records_or_drops_change() {
    let mut st = state();
    st.apply_json_edit(13, Json::Object(vec![("enabled".to_string(), Json::Bool(false))]));
    assert_eq!(st.status_msg, "Changed typo-tolerance. Press s to save.");
    assert_eq!(st.changes.len(), 1);
    st.apply_json_edit(13, Json::Null);
    assert!(st.changes.is_empty());
}

#[test]
fn save_body_holds_pending_changes() {
    let mut st = state();
    assert!(st.save_body().is_none());
    st.apply_json_edit(14, Json::Object(vec![]));
    let body = st.save_body().unwrap();
    assert_eq!(body, Json::Object(vec![("faceting".to_string(), Json::Object(vec![]))]));
}

#[test]
fn field_editor_space_on_empty_list_is_refused_up_front() {
    let mut st = SettingsState::new("i".to_string(), Json::Object(vec![]), vec![]);
    st.res_cursor = 2; // filterable-attributes, no fields at all
    st.handle_input(key(KeyCode::Enter));
    assert!(matches!(st.editor, EditorState::Field { .. }));
    assert!(st.key_fails(key(KeyCode::Char(' '))));
    assert!(!st.key_fails(key(KeyCode::Esc)));
}

#[test]
fn summaries_of_values() {
    assert_eq!(summarize_value(&strs(&["*"]), ""), "* (all fields)");
    assert_eq!(summarize_value(&strs(&[]), ""), "(none)");
    assert_eq!(summarize_value(&strs(&["a", "b"]), ""), "a, b");
    assert_eq!(summarize_value(&strs(&["a", "b", "c", "d", "e"]), ""), "a, b, c, +2");
    assert_eq!(summarize_value(&Json::Null, ""), "(default)");
    assert_eq!(summarize_value(&Json::Bool(true), ""), "true");
    assert_eq!(summarize_value(&Json::Number("1500".to_string()), ""), "1500");
    assert_eq!(summarize_value(&Json::Object(vec![]), "{}"), "(none)");
    let obj = Json::Object(vec![("a".to_string(), Json::Null)]);
    assert_eq!(summarize_value(&obj, "{\"a\":null}"), "{\"a\":null}");
    let long = "{\"twoTypos\":9,\"oneTypo\":5,\"enabled\":true,\"x\":1}";
    assert_eq!(summarize_value(&obj, long), format!("{}...", &long[..40]));
}

#[test]
fn save_messages() {
    let ok = Json::Object(vec![("status".to_string(), s("succeeded"))]);
    assert_eq!(save_message(12, &ok), "Saved! Task 12 succeeded.");
    let failed = Json::Object(vec![
        ("error".to_string(), Json::Object(vec![("message".to_string(), s("bad"))])),
        ("status".to_string(), s("failed")),
    ]);
    assert_eq!(save_message(12, &failed), "Task failed: bad");
    assert_eq!(save_message(3, &Json::Null), "Saved! Task 3 unknown.");
}

#[test]
fn fields_come_from_field_distribution() {
    let stats = Json::Object(vec![(
        "fieldDistribution".to_string(),
        Json::Object(vec![
            ("id".to_string(), Json::Number("3".to_string())),
            ("title".to_string(), Json::Number("3".to_string())),
        ]),
    )]);
    assert_eq!(distribution_fields(&stats), fields(&["id", "title"]));
    assert!(distribution_fields(&Json::Null).is_empty());
}

#[test]
fn edited_value_is_what_the_view_shows() {
    let mut st = state();
    let edited = Json::Object(vec![("maxValuesPerFacet".to_string(), Json::Number("10".to_string()))]);
    st.apply_json_edit(14, edited.deep_copy());
    assert_eq!(st.value_of("faceting"), Some(&edited));
    assert_eq!(st.value_of("pagination"), None);
}

#[test]
fn closed_editor_value_is_what_the_view_shows() {
    let mut st = state();
    st.res_cursor = 4; // ranking-rules
    st.handle_input(key(KeyCode::Enter));
    st.handle_input(key(KeyCode::Char('d')));
    st.handle_input(key(KeyCode::Esc));
    assert_eq!(st.value_of("rankingRules"), Some(&strs(&["typo"])));
    assert_eq!(st.value_of("displayedAttributes"), Some(&strs(&["*"])));
}

fn names_of(items: &[FieldItem]) -> Vec<(String, bool)> {
    items.iter().map(|i| (i.name.clone(), i.checked)).collect()
}

#[test]
fn ordered_field_toggles_keep_unchecked_names_ascending() {
    let items = vec![
        FieldItem { name: "title".to_string(), checked: true },
        FieldItem { name: "genre".to_string(), checked: true },
        FieldItem { name: "id".to_string(), checked: false },
        FieldItem { name: "year".to_string(), checked: false },
    ];
    // uncheck "title": it goes between "id" and "year"
    let (items, cursor, _) = field_key(items, 0, true, false, key(KeyCode::Char(' ')));
    assert_eq!(
        names_of(&items),
        vec![
            ("genre".to_string(), true),
            ("id".to_string(), false),
            ("title".to_string(), false),
            ("year".to_string(), false),
        ]
    );
    assert_eq!(cursor, 0);
    // check "id": it becomes the last checked item, the rest stays ascending
    let (items, _, _) = field_key(items, 1, true, false, key(KeyCode::Char(' ')));
    assert_eq!(
        names_of(&items),
        vec![
            ("genre".to_string(), true),
            ("id".to_string(), true),
            ("title".to_string(), false),
            ("year".to_string(), false),
        ]
    );
}

#[test]
fn untouched_ordered_field_editor_gives_the_value_back() {
    let fields: Vec<String> = vec!["id".to_string(), "title".to_string(), "year".to_string()];
    for value in [strs(&["year", "id"]), strs(&["*"]), strs(&[]), strs(&["missing", "title"])] {
        let (items, wildcard) = build_field_items(&value, &fields, true);
        assert_eq!(compute_field_value(&items, true, wildcard), value);
    }
}

#[test]
fn handle_input_navigates_opens_and_quits_from_the_list() {
    let mut st = state();
    st.status_msg = "old".to_string();
    assert_eq!(st.handle_input(key(KeyCode::Down)), SettingsAction::Continue);
    assert_eq!(st.res_cursor, 1);
    assert_eq!(st.status_msg, "");
    assert_eq!(st.handle_input(key(KeyCode::Char('s'))), SettingsAction::Save);
    assert_eq!(st.handle_input(key(KeyCode::Char('q'))), SettingsAction::Quit);
    st.res_cursor = 13; // typo-tolerance, edited as JSON
    assert_eq!(st.handle_input(key(KeyCode::Enter)), SettingsAction::LaunchEditor(13));
    st.res_cursor = 4;
    assert_eq!(st.handle_input(key(KeyCode::Enter)), SettingsAction::Continue);
    assert_eq!(st.view, SettingsView::Editor);
    assert_eq!(st.handle_input(key(KeyCode::Esc)), SettingsAction::Continue);
    assert_eq!(st.view, SettingsView::ResourceList);
}

#[test]
fn select_resource_moves_the_cursor_to_a_listed_setting() {
    let mut st = state();
    assert!(st.select_resource("stop-words"));
    assert_eq!(st.res_cursor, 8);
    assert!(st.select_resource("facet-search"));
    assert_eq!(st.res_cursor, 19);
    assert!(!st.select_resource("facets"));
    assert_eq!(st.res_cursor, 19);
}

#[test]
fn finishing_a_save_sets_the_status_and_drops_changes_unless_it_failed() {
    let mut st = state();
    st.apply_json_edit(14, Json::Object(vec![]));
    st.finish_save(SaveOutcome::Failed("HTTP 500".to_string()), None);
    assert_eq!(st.status_msg, "Error: HTTP 500");
    assert_eq!(st.changes.len(), 1);
    let task = Json::Object(vec![("status".to_string(), s("succeeded"))]);
    st.finish_save(SaveOutcome::Finished { task_uid: 9, task }, Some(Json::Null));
    assert_eq!(st.status_msg, "Saved! Task 9 succeeded.");
    assert!(st.changes.is_empty());
    assert_eq!(st.settings, Json::Null);
    st.finish_save(SaveOutcome::Nothing, None);
    assert_eq!(st.status_msg, "No changes to save.");
    st.finish_save(SaveOutcome::Queued, None);
    assert_eq!(st.status_msg, "Settings update queued.");
}

#[test]
fn every_sub_resource_can_be_opened_in_the_editor() {
    let names = valid_sub_resources();
    assert_eq!(names.len(), resource_defs().len());
    for name in &names {
        let mut st = state();
        assert!(st.select_resource(name), "{} is not listed", name);
        assert_eq!(st.resources[st.res_cursor].slug, name.as_str());
    }
    let mut st = state();
    assert!(st.select_resource("facet-search"));
    assert_eq!(st.resources[st.res_cursor].key, "facetSearch");
}
