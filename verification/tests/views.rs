use meilisearch_cli::client::MeiliClient;
use meilisearch_cli::json::Json;
use meilisearch_cli::keys::{Key, KeyCode};
use meilisearch_cli::search_view::{SearchAction, SearchState};

fn key(code: KeyCode) -> Key {
    Key { code, ctrl: false, shift: false }
}

fn hits(n: usize) -> Json {
    let items = (0..n).map(|i| Json::Number(i.to_string())).collect();
    Json::Object(vec![
        ("estimatedTotalHits".to_string(), Json::Number("120".to_string())),
        ("hits".to_string(), Json::Array(items)),
        ("processingTimeMs".to_string(), Json::Number("4".to_string())),
    ])
}

#[test]
fn typing_changes_the_query_and_schedules_a_search() {
    let mut st = SearchState::new();
    assert_eq!(st.handle_key(key(KeyCode::Char('a'))), SearchAction::QueryChanged);
    assert_eq!(st.handle_key(key(KeyCode::Char('b'))), SearchAction::QueryChanged);
    assert_eq!(st.query, "ab");
    assert!(st.needs_search);
    assert!(!st.search_due(149));
    assert!(st.search_due(150));
    assert_eq!(st.handle_key(key(KeyCode::Backspace)), SearchAction::QueryChanged);
    assert_eq!(st.query, "a");
}

#[test]
fn a_due_search_asks_for_twenty_hits() {
    let client = MeiliClient::new("http://h", None).unwrap();
    let mut st = SearchState::new();
    assert_eq!(st.handle_key(key(KeyCode::Char('q'))), SearchAction::Quit);
    assert_eq!(st.query, "");
    st.handle_key(key(KeyCode::Char('x')));
    let req = st.start_search(&client, "movies").unwrap();
    assert_eq!(req.url, "http://h/indexes/movies/search");
    assert!(!st.needs_search);
}

#[test]
fn results_are_shown_and_navigated() {
    let mut st = SearchState::new();
    st.apply_results(hits(3));
    assert_eq!(st.results.len(), 3);
    assert_eq!(st.total_hits, 120);
    assert_eq!(st.processing_time_ms, 4);
    st.handle_key(key(KeyCode::Down));
    st.handle_key(key(KeyCode::Down));
    st.handle_key(key(KeyCode::Down));
    assert_eq!(st.selected, 2);
    st.handle_key(key(KeyCode::Enter));
    assert_eq!(st.expanded, Some(2));
    assert_eq!(st.handle_key(key(KeyCode::Char('q'))), SearchAction::Continue);
    assert_eq!(st.handle_key(key(KeyCode::Esc)), SearchAction::Continue);
    assert_eq!(st.expanded, None);
    assert_eq!(st.handle_key(key(KeyCode::Esc)), SearchAction::Quit);
}

#[test]
fn an_empty_query_clears_the_hits() {
    let client = MeiliClient::new("http://h", None).unwrap();
    let mut st = SearchState::new();
    st.apply_results(hits(2));
    st.needs_search = true;
    assert!(st.start_search(&client, "movies").is_none());
    assert!(st.results.is_empty());
    assert_eq!(st.total_hits, 0);
}

#[test]
fn expanding_and_closing_a_hit_restores_the_list() {
    let mut st = SearchState::new();
    st.apply_results(hits(2));
    st.handle_key(key(KeyCode::Down));
    st.handle_key(key(KeyCode::Enter));
    assert_eq!(st.expanded, Some(1));
    assert_eq!(st.handle_key(key(KeyCode::Enter)), SearchAction::Continue);
    assert_eq!(st.expanded, None);
    assert_eq!(st.selected, 1);
    assert_eq!(st.results.len(), 2);
}
