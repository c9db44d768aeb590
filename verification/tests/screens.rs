use meilisearch_cli::chat::{ChatMessage, ChatState, Source};
use meilisearch_cli::chat_view::{log_tone, Span, Tone};
use meilisearch_cli::json::Json;
use meilisearch_cli::search_view::{hit_row, SearchState};
use meilisearch_cli::settings::{EditorState, FieldItem, SettingsState, SettingsView};
use meilisearch_cli::settings_view::{
    editor_hints, field_rows, list_rows, number_line, select_rows, Piece, RowTone,
};

fn texts(line: &[Span]) -> Vec<(String, Tone)> {
    line.iter().map(|s| (s.text.clone(), s.tone)).collect()
}

fn row(r: &[Piece]) -> Vec<(String, RowTone)> {
    r.iter().map(|p| (p.text.clone(), p.tone)).collect()
}

fn s(t: &str) -> String {
    t.to_string()
}

#[test]
fn welcome_message_is_shown_without_prefix() {
    let st = ChatState::new("ws", None);
    let lines = st.view_lines();
    assert_eq!(lines.len(), 2);
    assert_eq!(
        texts(&lines[0]),
        vec![(s(""), Tone::System), (s("Welcome to Meilisearch Chat. Type /help for commands."), Tone::Plain)]
    );
    assert!(lines[1].is_empty());
}

#[test]
fn multi_line_messages_are_indented_under_their_prefix() {
    let mut st = ChatState::new("ws", None);
    st.messages.clear();
    st.messages.push(ChatMessage { role: s("user"), content: s("a\nb"), sources: vec![] });
    let lines = st.view_lines();
    assert_eq!(texts(&lines[0]), vec![(s("You: "), Tone::User), (s("a"), Tone::Plain)]);
    assert_eq!(texts(&lines[1]), vec![(s("     "), Tone::Plain), (s("b"), Tone::Plain)]);
    assert_eq!(lines.len(), 3);
}

#[test]
fn sources_fold_and_unfold() {
    let mut st = ChatState::new("ws", None);
    st.messages.clear();
    st.messages.push(ChatMessage {
        role: s("assistant"),
        content: s("answer"),
        sources: vec![
            Source { index: s("movies"), title: s("Alien"), snippet: s("a film") },
            Source { index: s(""), title: s("Heat"), snippet: s("") },
        ],
    });
    let folded = st.view_lines();
    assert_eq!(folded.len(), 3);
    assert_eq!(texts(&folded[1]), vec![(s("    [2 sources — Ctrl+S to expand]"), Tone::Muted)]);
    st.show_sources = true;
    let open = st.view_lines();
    assert_eq!(open.len(), 6);
    assert_eq!(texts(&open[1]), vec![(s("    [2 sources]"), Tone::SourceCount)]);
    assert_eq!(
        texts(&open[2]),
        vec![(s("      "), Tone::Plain), (s("[movies] "), Tone::SourceIndex), (s("Alien"), Tone::SourceTitle)]
    );
    assert_eq!(texts(&open[3]), vec![(s("        "), Tone::Plain), (s("a film"), Tone::Muted)]);
    assert_eq!(
        texts(&open[4]),
        vec![(s("      "), Tone::Plain), (s(""), Tone::SourceIndex), (s("Heat"), Tone::SourceTitle)]
    );
    assert!(open[5].is_empty());
}

#[test]
fn waiting_and_streaming_lines() {
    let mut st = ChatState::new("ws", None);
    st.messages.clear();
    st.loading = true;
    st.tick = 4;
    let lines = st.view_lines();
    assert_eq!(
        texts(&lines[0]),
        vec![(s("AI: "), Tone::Assistant), (s("⠙ Searching and thinking..."), Tone::Waiting)]
    );
    st.streaming_content = s("par\ntial");
    st.tick = 30;
    let lines = st.view_lines();
    assert_eq!(texts(&lines[0]), vec![(s("AI: "), Tone::Assistant), (s("par"), Tone::Plain)]);
    assert_eq!(texts(&lines[1]), vec![(s("    "), Tone::Plain), (s("tial"), Tone::Plain)]);
    assert_eq!(texts(&lines[2]), vec![(s("    "), Tone::Plain), (s("⠋"), Tone::Waiting)]);
    assert!(lines[3].is_empty());
}

#[test]
fn scroll_follows_the_end_or_stays_within_it() {
    let mut st = ChatState::new("ws", None);
    st.auto_scroll = true;
    st.fit_scroll(50, 20);
    assert_eq!(st.scroll, 30);
    st.auto_scroll = false;
    st.scroll = 10;
    st.fit_scroll(50, 20);
    assert_eq!(st.scroll, 10);
    st.scroll = 45;
    st.fit_scroll(50, 20);
    assert_eq!(st.scroll, 30);
    st.fit_scroll(5, 20);
    assert_eq!(st.scroll, 0);
}

#[test]
fn chat_status_and_log_tones() {
    let mut st = ChatState::new("ws", None);
    assert_eq!(st.status_text(), " Enter send | Ctrl+C quit | Ctrl+O log | Ctrl+S show sources ");
    st.show_sources = true;
    assert_eq!(st.status_text(), " Enter send | Ctrl+C quit | Ctrl+O log | Ctrl+S hide sources ");
    assert_eq!(log_tone(">>> USER: hi"), Tone::Outgoing);
    assert_eq!(log_tone("<<< HTTP 200"), Tone::Incoming);
    assert_eq!(log_tone("  [tool call] x"), Tone::ToolNote);
    assert_eq!(log_tone("[DONE]"), Tone::Muted);
    assert_eq!(log_tone("data"), Tone::Plain);
}

fn item(name: &str, checked: bool) -> FieldItem {
    FieldItem { name: s(name), checked }
}

#[test]
fn field_rows_number_checked_fields_in_order() {
    let items = vec![item("title", true), item("genre", true), item("year", false)];
    let rows = field_rows(&items, 1, true, false);
    assert_eq!(row(&rows[0]), vec![(s("   [1] title"), RowTone::Checked)]);
    assert_eq!(row(&rows[1]), vec![(s(" > [2] genre"), RowTone::CheckedHighlight)]);
    assert_eq!(row(&rows[2]), vec![(s("   [ ] year"), RowTone::Dim)]);
    let rows = field_rows(&items, 2, false, false);
    assert_eq!(row(&rows[0]), vec![(s("   [x] title"), RowTone::Checked)]);
    assert_eq!(row(&rows[2]), vec![(s(" > [ ] year"), RowTone::Emphasis)]);
    let rows = field_rows(&items, 0, true, true);
    assert_eq!(rows.len(), 4);
    assert_eq!(row(&rows[0]), vec![(s("   [*] All fields (wildcard)"), RowTone::Wildcard)]);
    assert_eq!(row(&rows[3]), vec![(s("       year"), RowTone::Dim)]);
}

#[test]
fn list_select_and_number_rows() {
    let items = vec![s("words"), s("typo")];
    let rows = list_rows(&items, 1, false);
    assert_eq!(row(&rows[0]), vec![(s("   1. words"), RowTone::Normal)]);
    assert_eq!(row(&rows[1]), vec![(s(" > 2. typo"), RowTone::Highlight)]);
    let rows = list_rows(&items, 1, true);
    assert_eq!(row(&rows[1]), vec![(s("   2. typo"), RowTone::Normal)]);
    let rows = select_rows(&vec![s("byWord"), s("byAttribute")], 0);
    assert_eq!(row(&rows[0]), vec![(s("  (*) byWord"), RowTone::Highlight)]);
    assert_eq!(row(&rows[1]), vec![(s("  ( ) byAttribute"), RowTone::Normal)]);
    assert_eq!(number_line(""), "  Value: (null / default)");
    assert_eq!(number_line("150"), "  Value: 150");
    let e = EditorState::StringList { items: vec![], cursor: 0, input: s(""), adding: true };
    assert_eq!(editor_hints(&e), " Enter confirm | Esc cancel ");
}

fn settings_state() -> SettingsState {
    SettingsState::new(s("movies"), Json::Object(vec![]), vec![s("title")])
}

#[test]
fn resource_rows_group_settings_under_headings() {
    let mut st = settings_state();
    st.changes.push((s("displayedAttributes"), Json::Null));
    let summaries: Vec<String> = (0..st.resources.len()).map(|i| format!("v{i}")).collect();
    let rows = st.resource_rows(&summaries);
    assert_eq!(row(&rows[0]), vec![(s("  Field Attributes"), RowTone::Heading)]);
    assert_eq!(
        row(&rows[1]),
        vec![(format!(" *> {:<28}", "displayed-attributes"), RowTone::Highlight), (s("v0"), RowTone::Changed)]
    );
    assert_eq!(
        row(&rows[2]),
        vec![(format!("    {:<28}", "searchable-attributes"), RowTone::Normal), (s("v1"), RowTone::Dim)]
    );
    assert_eq!(row(&rows[5]), vec![(s("  Ranking"), RowTone::Heading)]);
    assert_eq!(rows.len(), st.resources.len() + 4);
}

#[test]
fn settings_status_line() {
    let mut st = settings_state();
    assert_eq!(st.status_line(), " Up/Down navigate | Enter edit | s save | q quit");
    st.changes.push((s("rankingRules"), Json::Null));
    assert_eq!(
        st.status_line(),
        " Up/Down navigate | Enter edit | s save | q quit | 1 unsaved change(s) — press s to save"
    );
    st.status_msg = s("Saved.");
    assert_eq!(st.status_line(), " Saved. | 1 unsaved change(s) — press s to save");
    st.status_msg.clear();
    st.view = SettingsView::Editor;
    assert_eq!(st.status_line(), " | 1 unsaved change(s) — press s to save");
}

#[test]
fn hit_rows_show_three_members() {
    let long = "x".repeat(70);
    let doc = Json::Object(vec![
        (s("id"), Json::Number(s("7"))),
        (s("title"), Json::Str(long.clone())),
        (s("genre"), Json::Str(s("drama"))),
        (s("year"), Json::Number(s("1999"))),
    ]);
    let texts = vec![s("7"), s("\"unused\""), s("\"drama\"")];
    let r = hit_row(&doc, &texts, "{}");
    assert_eq!(r, format!("id: 7 | title: {}... | genre: drama", &long[..60]));
    assert_eq!(hit_row(&Json::Number(s("3")), &vec![], "3"), "3");
}

#[test]
fn search_status_bar() {
    let mut st = SearchState::new();
    st.total_hits = 12;
    st.processing_time_ms = 3;
    assert_eq!(st.status_text(), " 12 hits in 3ms | ↑↓ navigate | Enter expand | q quit ");
}
