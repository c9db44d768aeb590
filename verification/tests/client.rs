use meilisearch_cli::client::{
    handle_response, wait_step, ApiError, Body, ClientError, MeiliClient, Method, TaskFilters,
    WaitStep,
};
use meilisearch_cli::json::Json;

#[test]
fn test_client_url_building() {
    let client = MeiliClient::new("http://localhost:7700", None).unwrap();
    assert_eq!(client.base_url, "http://localhost:7700");

    let client = MeiliClient::new("http://localhost:7700/", None).unwrap();
    assert_eq!(client.base_url, "http://localhost:7700");
}

#[test]
fn test_client_with_api_key() {
    let client = MeiliClient::new("http://localhost:7700", Some("test_key")).unwrap();
    assert_eq!(client.base_url, "http://localhost:7700");
}

#[test]
fn api_key_becomes_bearer_header() {
    let client = MeiliClient::new("http://h:1//", Some("abc")).unwrap();
    assert_eq!(client.base_url, "http://h:1");
    assert_eq!(client.authorization.as_deref(), Some("Bearer abc"));
}

#[test]
fn api_key_with_line_break_is_refused() {
    let r = MeiliClient::new("http://h", Some("bad\nkey"));
    assert!(matches!(r, Err(ClientError::InvalidApiKey)));
}

#[test]
fn task_filters_query_string() {
    let mut f = TaskFilters::default();
    assert_eq!(f.to_query_string(), "");
    f.statuses = Some("failed".to_string());
    f.limit = Some(5);
    assert_eq!(f.to_query_string(), "?statuses=failed&limit=5");
}

#[test]
fn task_filters_query_string_keeps_field_order() {
    let f = TaskFilters {
        uids: Some("1,2".to_string()),
        index_uids: Some("movies".to_string()),
        from: Some(10),
        ..TaskFilters::default()
    };
    assert_eq!(f.to_query_string(), "?uids=1,2&indexUids=movies&from=10");
}

#[test]
fn request_urls_follow_base_url() {
    let client = MeiliClient::new("http://h:7700", None).unwrap();
    let r = client.get_index("movies");
    assert_eq!(r.method, Method::Get);
    assert_eq!(r.url, "http://h:7700/indexes/movies");
    assert_eq!(r.body, Body::Empty);
    let r = client.get_task(42);
    assert_eq!(r.url, "http://h:7700/tasks/42");
    let r = client.list_indexes(Some(0), Some(20));
    assert_eq!(r.url, "http://h:7700/indexes?offset=0&limit=20");
}

#[test]
fn empty_success_reply_is_null() {
    assert_eq!(handle_response(204, "", None), Ok(Json::Null));
}

#[test]
fn empty_failure_reply_keeps_status() {
    assert_eq!(handle_response(500, "", None), Err(ApiError::EmptyFailure { status: 500 }));
}

#[test]
fn non_json_reply_is_reported_with_body() {
    assert_eq!(
        handle_response(502, "Bad gateway", None),
        Err(ApiError::NotJson { status: 502, body: "Bad gateway".to_string() })
    );
}

#[test]
fn api_error_reply_takes_code_and_message() {
    let body = Json::Object(vec![
        ("code".to_string(), Json::Str("index_not_found".to_string())),
        ("message".to_string(), Json::Str("Index `x` not found.".to_string())),
    ]);
    assert_eq!(
        handle_response(404, "{...}", Some(body)),
        Err(ApiError::Api {
            status: 404,
            code: "index_not_found".to_string(),
            message: "Index `x` not found.".to_string()
        })
    );
    let bare = Json::Object(vec![]);
    assert_eq!(
        handle_response(400, "{}", Some(bare)),
        Err(ApiError::Api {
            status: 400,
            code: "unknown".to_string(),
            message: "Unknown API error".to_string()
        })
    );
}

#[test]
fn successful_reply_is_its_document() {
    let body = Json::Object(vec![("taskUid".to_string(), Json::Number("7".to_string()))]);
    let r = handle_response(202, "{\"taskUid\":7}", Some(body)).unwrap();
    assert_eq!(r.get_u64("taskUid"), Some(7));
}

fn task(status: &str) -> Json {
    Json::Object(vec![("status".to_string(), Json::Str(status.to_string()))])
}

#[test]
fn waiting_ends_on_final_status_or_timeout() {
    assert_eq!(wait_step(&task("succeeded"), 0, 10), WaitStep::Finished);
    assert_eq!(wait_step(&task("canceled"), 99, 10), WaitStep::Finished);
    assert_eq!(wait_step(&task("processing"), 11, 10), WaitStep::TimedOut);
    assert_eq!(wait_step(&task("enqueued"), 10, 10), WaitStep::PollAgain);
}
