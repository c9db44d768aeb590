use meilisearch_cli::client::{Body, MeiliClient, Method, Request};
use meilisearch_cli::copying::{
    dry_run_requests, IndexCopy, CopyAction, CopyEvent, CopyMode, FailKind, Phase, Side,
};
use meilisearch_cli::json::Json;

fn s(t: &str) -> Json {
    Json::Str(t.to_string())
}

fn obj(members: Vec<(&str, Json)>) -> Json {
    Json::Object(members.into_iter().map(|(k, v)| (k.to_string(), v)).collect())
}

fn num(n: u64) -> Json {
    Json::Number(n.to_string())
}

fn clients() -> (MeiliClient, MeiliClient) {
    (
        MeiliClient::new("http://src", None).unwrap(),
        MeiliClient::new("http://dst", Some("k")).unwrap(),
    )
}

fn sent(a: &CopyAction, side: Side) -> &Request {
    match a {
        CopyAction::Send(s, q) if *s == side => q,
        _ => panic!("expected a request to {:?}", side),
    }
}

fn waits_for(a: &CopyAction, side: Side, task: u64, ms: u64) {
    match a {
        CopyAction::Wait { side: s, task_uid, timeout_ms } => {
            assert_eq!((*s, *task_uid, *timeout_ms), (side, task, ms));
        }
        _ => panic!("expected a wait"),
    }
}

#[test]
fn clone_reads_settings_creates_writes_and_copies_pages() {
    let (src, dst) = clients();
    let (c, a) = IndexCopy::start(CopyMode::Clone, "movies", "films", Some("k"), &src, &dst);
    let q = sent(&a, Side::Source);
    assert_eq!((q.method, q.url.as_str(), &q.body), (Method::Get, "http://src/indexes/movies/settings", &Body::Empty));
    assert!(matches!(c.phase, Phase::ReadingSettings));

    let settings = obj(vec![("rankingRules", Json::Array(vec![s("words")]))]);
    let (c, a) = c.step(&src, &dst, CopyEvent::Replied(settings));
    let q = sent(&a, Side::Destination);
    assert_eq!((q.method, q.url.as_str()), (Method::Post, "http://dst/indexes"));
    assert_eq!(q.body, Body::Json(obj(vec![("uid", s("films"))])));

    // The index may already exist: the copy goes on.
    let (c, a) = c.step(&src, &dst, CopyEvent::Refused);
    let q = sent(&a, Side::Destination);
    assert_eq!((q.method, q.url.as_str()), (Method::Patch, "http://dst/indexes/films/settings"));
    assert_eq!(q.body, Body::Json(obj(vec![("rankingRules", Json::Array(vec![s("words")]))])));

    let (c, a) = c.step(&src, &dst, CopyEvent::Replied(obj(vec![("taskUid", num(5))])));
    waits_for(&a, Side::Destination, 5, 60000);

    let (c, a) = c.step(&src, &dst, CopyEvent::TaskEnded(obj(vec![("status", s("succeeded"))])));
    assert!(matches!(c.phase, Phase::ReadingPage { offset: 0 }));
    let q = sent(&a, Side::Source);
    assert_eq!(q.url, "http://src/indexes/movies/documents?offset=0&limit=1000");

    let page = obj(vec![("results", Json::Array(vec![s("d1"), s("d2")]))]);
    let (c, a) = c.step(&src, &dst, CopyEvent::Replied(page));
    let q = sent(&a, Side::Destination);
    assert_eq!((q.method, q.url.as_str()), (Method::Post, "http://dst/indexes/films/documents"));
    assert_eq!(q.body, Body::Json(Json::Array(vec![s("d1"), s("d2")])));

    let (c, a) = c.step(&src, &dst, CopyEvent::Replied(obj(vec![("taskUid", num(6))])));
    waits_for(&a, Side::Destination, 6, 300000);

    let (c, a) = c.step(&src, &dst, CopyEvent::TaskEnded(obj(vec![("status", s("succeeded"))])));
    assert!(matches!(a, CopyAction::Done));
    assert!(matches!(c.phase, Phase::Finished));
    assert_eq!(c.copied, 2);
}

#[test]
fn clone_stops_on_a_failed_task_or_a_refused_request() {
    let (src, dst) = clients();
    let (c, _) = IndexCopy::start(CopyMode::Clone, "movies", "films", None, &src, &dst);
    let (c, _) = c.step(&src, &dst, CopyEvent::Replied(obj(vec![])));
    let (c, _) = c.step(&src, &dst, CopyEvent::Replied(obj(vec![])));
    let (c, _) = c.step(&src, &dst, CopyEvent::Replied(obj(vec![("taskUid", num(1))])));
    let failed = obj(vec![("status", s("failed")), ("error", obj(vec![("code", s("bad"))]))]);
    let (c, a) = c.step(&src, &dst, CopyEvent::TaskEnded(failed));
    match a {
        CopyAction::TaskFailed(kind, e) => {
            assert_eq!(kind, FailKind::SettingsUpdate);
            assert_eq!(e, obj(vec![("code", s("bad"))]));
        }
        _ => panic!("expected a failed task"),
    }
    assert!(matches!(c.phase, Phase::Finished));

    let (c, _) = IndexCopy::start(CopyMode::Clone, "movies", "films", None, &src, &dst);
    let (_, a) = c.step(&src, &dst, CopyEvent::Refused);
    assert!(matches!(a, CopyAction::Abort));
}

#[test]
fn promote_exports_and_falls_back_to_pages() {
    let (src, dst) = clients();
    let (c, a) = IndexCopy::start(CopyMode::Promote { create: false }, "movies", "movies", Some("k"), &src, &dst);
    assert_eq!(sent(&a, Side::Source).url, "http://src/indexes/movies/settings");
    let (c, a) = c.step(&src, &dst, CopyEvent::Replied(obj(vec![])));
    assert_eq!(sent(&a, Side::Destination).url, "http://dst/indexes/movies/settings");
    // No task to wait for: on to the export.
    let (c, a) = c.step(&src, &dst, CopyEvent::Replied(obj(vec![])));
    let q = sent(&a, Side::Source);
    assert_eq!((q.method, q.url.as_str()), (Method::Post, "http://src/export"));
    assert_eq!(
        q.body,
        Body::Json(obj(vec![
            ("apiKey", s("k")),
            ("indexes", Json::Array(vec![s("movies")])),
            ("url", s("http://dst")),
        ]))
    );
    // The source cannot export: the documents are copied page by page.
    let (c, a) = c.step(&src, &dst, CopyEvent::Refused);
    assert_eq!(sent(&a, Side::Source).url, "http://src/indexes/movies/documents?offset=0&limit=1000");
    let (c, a) = c.step(&src, &dst, CopyEvent::Replied(obj(vec![("results", Json::Array(vec![]))])));
    let q = sent(&a, Side::Source);
    assert_eq!((q.method, q.url.as_str()), (Method::Get, "http://src/indexes/movies/stats"));
    let (c, a) = c.step(&src, &dst, CopyEvent::Replied(obj(vec![("numberOfDocuments", num(0))])));
    assert!(matches!(a, CopyAction::Done));
    assert!(matches!(c.phase, Phase::Finished));
}

#[test]
fn promote_with_create_creates_first_and_reports_a_failed_export() {
    let (src, dst) = clients();
    let (c, a) = IndexCopy::start(CopyMode::Promote { create: true }, "movies", "movies", None, &src, &dst);
    let q = sent(&a, Side::Destination);
    assert_eq!((q.method, q.url.as_str()), (Method::Post, "http://dst/indexes"));
    let (c, a) = c.step(&src, &dst, CopyEvent::Replied(obj(vec![("taskUid", num(1))])));
    assert_eq!(sent(&a, Side::Source).url, "http://src/indexes/movies/settings");
    let (c, _) = c.step(&src, &dst, CopyEvent::Replied(obj(vec![])));
    let (c, a) = c.step(&src, &dst, CopyEvent::Replied(obj(vec![("taskUid", num(2))])));
    waits_for(&a, Side::Destination, 2, 60000);
    let (c, a) = c.step(&src, &dst, CopyEvent::TaskEnded(obj(vec![("status", s("succeeded"))])));
    let q = sent(&a, Side::Source);
    assert_eq!(q.body, Body::Json(obj(vec![
        ("apiKey", Json::Null),
        ("indexes", Json::Array(vec![s("movies")])),
        ("url", s("http://dst")),
    ])));
    let (c, a) = c.step(&src, &dst, CopyEvent::Replied(obj(vec![("taskUid", num(3))])));
    waits_for(&a, Side::Source, 3, 300000);
    let (_, a) = c.step(&src, &dst, CopyEvent::TaskEnded(obj(vec![("status", s("failed"))])));
    match a {
        CopyAction::TaskFailed(kind, e) => {
            assert_eq!(kind, FailKind::Export);
            assert_eq!(e, Json::Null);
        }
        _ => panic!("expected a failed export"),
    }
}

#[test]
fn full_pages_lead_to_the_next_offset() {
    let (src, dst) = clients();
    let (c, _) = IndexCopy::start(CopyMode::Promote { create: false }, "m", "m", None, &src, &dst);
    let (c, _) = c.step(&src, &dst, CopyEvent::Replied(obj(vec![])));
    let (c, _) = c.step(&src, &dst, CopyEvent::Replied(obj(vec![])));
    let (c, _) = c.step(&src, &dst, CopyEvent::Refused);
    let docs: Vec<Json> = (0..1000).map(num).collect();
    let (c, _) = c.step(&src, &dst, CopyEvent::Replied(obj(vec![("results", Json::Array(docs))])));
    assert!(matches!(c.phase, Phase::WritingPage { offset: 0, count: 1000 }));
    let (c, a) = c.step(&src, &dst, CopyEvent::Replied(obj(vec![])));
    assert_eq!(sent(&a, Side::Source).url, "http://src/indexes/m/documents?offset=1000&limit=1000");
    assert_eq!(c.copied, 1000);
    assert!(!c.overflows_on(&CopyEvent::Refused));
}

#[test]
fn dry_run_only_reads_stats() {
    let (src, _) = clients();
    let uids = vec!["movies".to_string(), "books".to_string()];
    let r = dry_run_requests(&src, &uids);
    assert_eq!(r.len(), 2);
    for (q, uid) in r.iter().zip(["movies", "books"]) {
        assert_eq!(q.method, Method::Get);
        assert_eq!(q.url, format!("http://src/indexes/{}/stats", uid));
        assert_eq!(q.body, Body::Empty);
    }
}
