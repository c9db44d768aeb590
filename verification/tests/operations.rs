use meilisearch_cli::release::current_target;
use meilisearch_cli::client::{Body, MeiliClient, Method};
use meilisearch_cli::commands::{
    document_ids, fetch_body, server_version_line, task_failure_message, watch_line, DocumentCommand,
    DumpCommand, ExperimentalCommand, IndexCommand, NetworkCommand, SettingsCommand, TaskCommand,
};
use meilisearch_cli::import::{content_type_for, document_content_type, ndjson_batches};
use meilisearch_cli::json::Json;
use meilisearch_cli::release::{
    archive_name, binary_download_url, find_asset, is_program_entry, newer_release, parse_version,
    reports_running, should_install,
};
use meilisearch_cli::transfer::{
    clone_projects, dry_run_line, export_body, next_page, page_results, promote_uids, task_failed,
};

fn s(t: &str) -> Json {
    Json::Str(t.to_string())
}

#[test]
fn content_types_by_extension() {
    assert_eq!(content_type_for(Some("csv")), "text/csv");
    assert_eq!(content_type_for(Some("jsonl")), "application/x-ndjson");
    assert_eq!(content_type_for(Some("ndjson")), "application/x-ndjson");
    assert_eq!(content_type_for(Some("json")), "application/json");
    assert_eq!(content_type_for(None), "application/json");
}

#[test]
fn content_type_of_files_follows_their_extension() {
    assert_eq!(document_content_type(Some("data/movies.csv")), "text/csv");
    assert_eq!(document_content_type(Some("dump.jsonl")), "application/x-ndjson");
    assert_eq!(document_content_type(Some(".csv")), "application/json");
    assert_eq!(document_content_type(Some("noext")), "application/json");
    assert_eq!(document_content_type(None), "application/json");
}

#[test]
fn ndjson_is_cut_into_batches_by_size() {
    let text = "{\"a\":1}\n\n  \n{\"b\":2}\r\n{\"c\":3}";
    // each line counts 8 bytes (7 + line break)
    assert_eq!(ndjson_batches(text, 16), vec!["{\"a\":1}\n{\"b\":2}".to_string(), "{\"c\":3}".to_string()]);
    assert_eq!(ndjson_batches(text, 15), vec!["{\"a\":1}", "{\"b\":2}", "{\"c\":3}"]);
    assert_eq!(ndjson_batches(text, 1000), vec!["{\"a\":1}\n{\"b\":2}\n{\"c\":3}"]);
    assert!(ndjson_batches("\n \n", 10).is_empty());
}

#[test]
fn oversized_line_gets_its_own_batch() {
    assert_eq!(ndjson_batches("aaaaaaaaaa\nb", 4), vec!["aaaaaaaaaa", "b"]);
}

#[test]
fn versions_and_releases() {
    assert_eq!(parse_version("v0.2.1"), "0.2.1");
    assert_eq!(parse_version("0.2.1"), "0.2.1");
    assert_eq!(newer_release("v0.3.0", "0.2.1"), Some("v0.3.0".to_string()));
    assert_eq!(newer_release("v0.2.1", "0.2.1"), None);
    assert!(!should_install("v0.2.1", "0.2.1", false));
    assert!(should_install("v0.2.1", "0.2.1", true));
    assert_eq!(archive_name("v1.0.0", "x86_64-unknown-linux-gnu"), "msc-v1.0.0-x86_64-unknown-linux-gnu.tar.gz");
    let names = vec!["a".to_string(), "b".to_string(), "a".to_string()];
    assert_eq!(find_asset(&names, "a"), Some(0));
    assert_eq!(find_asset(&names, "z"), None);
    assert!(is_program_entry(Some("msc")));
    assert!(!is_program_entry(Some("README")));
    assert!(!is_program_entry(None));
}

#[test]
fn server_binary_urls() {
    assert_eq!(
        binary_download_url("linux", "x86_64"),
        Ok("https://github.com/meilisearch/meilisearch/releases/latest/download/meilisearch-linux-amd64".to_string())
    );
    assert_eq!(
        binary_download_url("macos", "aarch64"),
        Ok("https://github.com/meilisearch/meilisearch/releases/latest/download/meilisearch-macos-arm64".to_string())
    );
    assert_eq!(binary_download_url("windows", "x86_64"), Err("Unsupported platform for binary download".to_string()));
    assert_eq!(binary_download_url("linux", "riscv64"), Err("Unsupported architecture for binary download".to_string()));
    assert!(reports_running(" true\n"));
    assert!(!reports_running("false"));
}

#[test]
fn clone_project_resolution() {
    assert_eq!(clone_projects(None, None, None, "local"), ("local".to_string(), "local".to_string()));
    assert_eq!(clone_projects(None, Some("prod"), Some("dev"), "local"), ("dev".to_string(), "prod".to_string()));
    assert_eq!(clone_projects(Some("a"), None, Some("dev"), "local"), ("a".to_string(), "dev".to_string()));
    assert_eq!(clone_projects(Some("a"), None, None, "local"), ("a".to_string(), "local".to_string()));
}

#[test]
fn paging_through_documents() {
    assert_eq!(next_page(0, 1000), Some(1000));
    assert_eq!(next_page(1000, 999), None);
    assert_eq!(next_page(0, 0), None);
    let page = Json::Object(vec![("results".to_string(), Json::Array(vec![s("d1"), s("d2")]))]);
    assert_eq!(page_results(page), vec![s("d1"), s("d2")]);
    assert!(page_results(Json::Null).is_empty());
}

#[test]
fn indexes_to_promote() {
    let listed = vec![
        Json::Object(vec![("uid".to_string(), s("movies"))]),
        Json::Object(vec![]),
        Json::Object(vec![("uid".to_string(), s("books"))]),
    ];
    assert_eq!(promote_uids(&None, &listed), vec!["movies".to_string(), "books".to_string()]);
    let wanted = Some(vec!["x".to_string()]);
    assert_eq!(promote_uids(&wanted, &listed), vec!["x".to_string()]);
}

#[test]
fn export_body_and_dry_run() {
    let body = export_body("http://dst", None, "movies");
    assert_eq!(
        body,
        Json::Object(vec![
            ("apiKey".to_string(), Json::Null),
            ("indexes".to_string(), Json::Array(vec![s("movies")])),
            ("url".to_string(), s("http://dst")),
        ])
    );
    let body = export_body("http://dst", Some("k"), "movies");
    assert_eq!(body.get_str("apiKey"), Some("k"));
    let stats = Json::Object(vec![("numberOfDocuments".to_string(), Json::Number("31".to_string()))]);
    assert_eq!(dry_run_line("movies", &stats), "  movies (31 docs)");
    assert_eq!(dry_run_line("x", &Json::Null), "  x (0 docs)");
}

#[test]
fn task_outcomes() {
    let failed = Json::Object(vec![
        ("status".to_string(), s("failed")),
        ("type".to_string(), s("documentAdditionOrUpdate")),
    ]);
    assert!(task_failed(&failed));
    assert_eq!(task_failure_message(9, &failed), Some("Task 9 failed: unknown error".to_string()));
    assert_eq!(task_failure_message(9, &Json::Null), None);
    assert_eq!(watch_line(9, &failed), "\r9 — documentAdditionOrUpdate [failed]   ");
    let v = Json::Object(vec![("pkgVersion".to_string(), s("1.12.0"))]);
    assert_eq!(server_version_line(&v), "meilisearch server 1.12.0");
    assert_eq!(server_version_line(&Json::Null), "meilisearch server unknown");
}

#[test]
fn document_fetch_body_and_ids() {
    let fields = vec!["title".to_string()];
    let body = fetch_body(Some("year > 2000"), None, Some(5), Some(&fields));
    assert_eq!(
        body,
        Json::Object(vec![
            ("fields".to_string(), Json::Array(vec![s("title")])),
            ("filter".to_string(), s("year > 2000")),
            ("limit".to_string(), Json::Number("5".to_string())),
        ])
    );
    assert_eq!(fetch_body(None, None, None, None), Json::Object(vec![]));
    assert_eq!(document_ids(&vec!["1".to_string(), "2".to_string()]), vec![s("1"), s("2")]);
}

#[test]
fn commands_send_their_requests() {
    let client = MeiliClient::new("http://h", None).unwrap();
    let r = IndexCommand::Stats { uid: "movies".to_string() }.request(&client);
    assert_eq!((r.method, r.url.as_str()), (Method::Get, "http://h/indexes/movies/stats"));
    let r = IndexCommand::Delete { uid: "m".to_string() }.request(&client);
    assert_eq!((r.method, r.url.as_str()), (Method::Delete, "http://h/indexes/m"));
    let r = DumpCommand::Snapshot.request(&client);
    assert_eq!((r.method, r.url.as_str()), (Method::Post, "http://h/snapshots"));
    assert_eq!(r.body, Body::Json(Json::Object(vec![])));
    let r = TaskCommand::Get { id: 5 }.request(&client).unwrap();
    assert_eq!(r.url, "http://h/tasks/5");
    assert!(TaskCommand::Watch { id: 5 }.request(&client).is_none());
    let cmd = SettingsCommand::Get { uid: "m".to_string(), sub_resource: Some("stop-words".to_string()) };
    assert_eq!(cmd.request(&client).unwrap().unwrap().url, "http://h/indexes/m/settings/stop-words");
    let bad = SettingsCommand::Reset { uid: "m".to_string(), sub_resource: Some("colors".to_string()) };
    assert!(bad.request(&client).unwrap_err().starts_with("Unknown settings sub-resource: 'colors'"));
}

#[test]
fn task_list_filters_are_sent() {
    let client = MeiliClient::new("http://h", None).unwrap();
    let cmd = TaskCommand::List {
        uids: None,
        statuses: Some("failed".to_string()),
        types: None,
        index_uids: None,
        canceled_by: None,
        before_enqueued_at: None,
        after_enqueued_at: None,
        before_started_at: None,
        after_started_at: None,
        before_finished_at: None,
        after_finished_at: None,
        from: None,
        limit: Some(3),
    };
    assert_eq!(cmd.request(&client).unwrap().url, "http://h/tasks?statuses=failed&limit=3");
}

#[test]
fn document_commands_send_their_requests() {
    let client = MeiliClient::new("http://h", None).unwrap();
    let add = DocumentCommand::Add {
        uid: "movies".to_string(),
        file: Some("m.csv".to_string()),
        primary_key: Some("id".to_string()),
    };
    let r = add.request(&client, b"id\n1".to_vec());
    assert_eq!(r.method, Method::Post);
    assert_eq!(r.url, "http://h/indexes/movies/documents?primaryKey=id");
    assert_eq!(r.body, Body::Raw { bytes: b"id\n1".to_vec(), content_type: "text/csv".to_string() });
    let update = DocumentCommand::Update { uid: "movies".to_string(), file: None, primary_key: None };
    let r = update.request(&client, b"[]".to_vec());
    assert_eq!(r.method, Method::Put);
    assert_eq!(r.url, "http://h/indexes/movies/documents");
    assert_eq!(r.body, Body::Raw { bytes: b"[]".to_vec(), content_type: "application/json".to_string() });
    let list = DocumentCommand::List {
        uid: "movies".to_string(),
        offset: Some(5),
        limit: None,
        fields: Some("title,id".to_string()),
    };
    let r = list.request(&client, Vec::new());
    assert_eq!(r.method, Method::Get);
    assert_eq!(r.url, "http://h/indexes/movies/documents?offset=5&fields=title,id");
    let batch = DocumentCommand::DeleteBatch { uid: "movies".to_string(), ids: vec!["1".to_string(), "2".to_string()] };
    let r = batch.request(&client, Vec::new());
    assert_eq!(r.url, "http://h/indexes/movies/documents/delete-batch");
    assert_eq!(r.body, Body::Json(Json::Array(vec![s("1"), s("2")])));
    let edit = DocumentCommand::Edit { uid: "movies".to_string(), function: "doc.a = 1".to_string(), filter: None };
    let r = edit.request(&client, Vec::new());
    assert_eq!(r.url, "http://h/indexes/movies/documents/edit");
    assert_eq!(r.body, Body::Json(Json::Object(vec![("function".to_string(), s("doc.a = 1"))])));
    let get = DocumentCommand::Get { uid: "movies".to_string(), id: "7".to_string() };
    let r = get.request(&client, Vec::new());
    assert_eq!((r.method, r.url, r.body), (Method::Get, "http://h/indexes/movies/documents/7".to_string(), Body::Empty));
}

#[test]
fn network_and_experimental_updates_send_their_input() {
    let client = MeiliClient::new("http://h", None).unwrap();
    let input = Json::Object(vec![("chatCompletions".to_string(), Json::Bool(true))]);
    let r = ExperimentalCommand::Update { file: None }.request(&client, input.deep_copy());
    assert_eq!(r.method, Method::Patch);
    assert_eq!(r.url, "http://h/experimental-features");
    assert_eq!(r.body, Body::Json(input.deep_copy()));
    let r = NetworkCommand::Get.request(&client, Json::Null);
    assert_eq!((r.method, r.url, r.body), (Method::Get, "http://h/network".to_string(), Body::Empty));
    let r = NetworkCommand::Update { file: None }.request(&client, input.deep_copy());
    assert_eq!(r.method, Method::Patch);
    assert_eq!(r.url, "http://h/network");
}

#[test]
fn settings_update_sends_the_input() {
    let client = MeiliClient::new("http://h", None).unwrap();
    let input = Json::Array(vec![s("title")]);
    let all = SettingsCommand::Update { uid: "movies".to_string(), sub_resource: None, file: None };
    let r = all.update_request(&client, input.deep_copy()).unwrap().unwrap();
    assert_eq!(r.method, Method::Patch);
    assert_eq!(r.url, "http://h/indexes/movies/settings");
    let one = SettingsCommand::Update {
        uid: "movies".to_string(),
        sub_resource: Some("searchable-attributes".to_string()),
        file: None,
    };
    let r = one.update_request(&client, input.deep_copy()).unwrap().unwrap();
    assert_eq!(r.method, Method::Put);
    assert_eq!(r.url, "http://h/indexes/movies/settings/searchable-attributes");
    assert_eq!(r.body, Body::Json(input.deep_copy()));
    let bad = SettingsCommand::Update { uid: "movies".to_string(), sub_resource: Some("nope".to_string()), file: None };
    assert!(bad.update_request(&client, Json::Null).unwrap_err().starts_with("Unknown settings sub-resource: 'nope'"));
    let get = SettingsCommand::Get { uid: "movies".to_string(), sub_resource: None };
    assert!(get.update_request(&client, Json::Null).unwrap().is_none());
}

#[test]
fn settings_edit_reads_and_writes_one_sub_resource_or_all() {
    let client = MeiliClient::new("http://h", None).unwrap();
    let one = SettingsCommand::Edit {
        uid: "movies".to_string(),
        sub_resource: Some("synonyms".to_string()),
        interactive: false,
    };
    let r = one.request(&client).unwrap().unwrap();
    assert_eq!((r.method, r.url.as_str()), (Method::Get, "http://h/indexes/movies/settings/synonyms"));
    let w = one.update_request(&client, Json::Null).unwrap().unwrap();
    assert_eq!((w.method, w.url.as_str()), (Method::Put, "http://h/indexes/movies/settings/synonyms"));
    let all = SettingsCommand::Edit { uid: "movies".to_string(), sub_resource: None, interactive: false };
    let w = all.update_request(&client, Json::Null).unwrap().unwrap();
    assert_eq!((w.method, w.url.as_str()), (Method::Patch, "http://h/indexes/movies/settings"));
    let bad = SettingsCommand::Edit { uid: "movies".to_string(), sub_resource: Some("x".to_string()), interactive: true };
    assert!(bad.request(&client).is_err());
}

#[test]
fn release_targets_by_platform() {
    assert_eq!(current_target("linux", "x86_64").as_deref(), Some("x86_64-unknown-linux-gnu"));
    assert_eq!(current_target("macos", "aarch64").as_deref(), Some("aarch64-apple-darwin"));
    assert_eq!(current_target("freebsd", "x86_64"), None);
}
