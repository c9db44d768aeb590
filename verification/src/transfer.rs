//! Copying an index's settings and documents between projects (`clone`,
//! `promote`): which projects, which indexes, and how the documents are
//! paged through.
use vstd::prelude::*;

use crate::json::{member_names, names_of, Json};
use crate::text::{decimal, texts};

verus! {

/// How many documents are read per page.
pub open spec fn page_size() -> u64 {
    1000
}

/// The project a side of a clone uses: the one asked for, else the project
/// given for the whole command, else the default.
pub open spec fn clone_source(from: Option<Seq<char>>, cli_project: Option<Seq<char>>, default: Seq<char>) -> Seq<char> {
    match from {
        Some(f) => f,
        None => match cli_project {
            Some(p) => p,
            None => default,
        },
    }
}

/// The source and destination projects of a clone: each side is the project
/// asked for, else the default one.
pub fn clone_projects(from: Option<&str>, to: Option<&str>, cli_project: Option<&str>, default: &str) -> (r: (
    String,
    String,
))
    ensures
        r.0@ == clone_source(crate::text::opt_str(from), crate::text::opt_str(cli_project), default@),
        r.1@ == clone_source(crate::text::opt_str(to), crate::text::opt_str(cli_project), default@),
{
    let source: &str = match from {
        Some(f) => f,
        None => match cli_project {
            Some(p) => p,
            None => default,
        },
    };
    let dest: &str = match to {
        Some(t) => t,
        None => match cli_project {
            Some(p) => p,
            None => default,
        },
    };
    (String::from_str(source), String::from_str(dest))
}

/// The documents of a page (none when the page has no `results` array).
pub open spec fn page_docs(page: Json) -> Seq<Json> {
    match page.spec_get("results"@) {
        Some(Json::Array(a)) => a@,
        _ => Seq::empty(),
    }
}

/// Takes the documents out of a page of documents.
pub fn page_results(page: Json) -> (r: Vec<Json>)
    ensures
        r@ == page_docs(page),
{
    let ghost docs = page_docs(page);
    let mut found: Vec<Json> = Vec::new();
    match page {
        Json::Object(mut m) => {
            let i = crate::json::position_of_member(&m, "results");
            if i < m.len() {
                let (_k, v) = m.remove(i);
                match v {
                    Json::Array(a) => {
                        found = a;
                    },
                    _ => {},
                }
            }
        },
        _ => {},
    }
    assert(found@ == docs);
    found
}

/// The offset of the next page after a page of `count` documents read at
/// `offset`; `None` once a page comes back short.
pub fn next_page(offset: u64, count: usize) -> (r: Option<u64>)
    requires
        count >= page_size() ==> offset + page_size() <= u64::MAX,
    ensures
        r == if count < page_size() {
            None
        } else {
            Some((offset + page_size()) as u64)
        },
{
    if count < 1000 {
        None
    } else {
        Some(offset + 1000)
    }
}

/// The `uid` strings of the listed indexes, in order.
pub open spec fn index_uids(list: Seq<Json>) -> Seq<Seq<char>>
    decreases list.len(),
{
    if list.len() == 0 {
        Seq::empty()
    } else {
        match list.last().str_at("uid"@) {
            Some(u) => index_uids(list.drop_last()).push(u),
            None => index_uids(list.drop_last()),
        }
    }
}

/// The indexes to promote: the ones asked for, else every listed index.
pub fn promote_uids(wanted: &Option<Vec<String>>, listed: &Vec<Json>) -> (r: Vec<String>)
    ensures
        texts(r@) == match wanted {
            Some(w) => texts(w@),
            None => index_uids(listed@),
        },
{
    match wanted {
        Some(w) => w.clone(),
        None => {
            let mut out: Vec<String> = Vec::new();
            let mut i: usize = 0;
            while i < listed.len()
                invariant
                    i <= listed@.len(),
                    texts(out@) == index_uids(listed@.take(i as int)),
                decreases listed@.len() - i,
            {
                assert(listed@.take(i + 1).drop_last() =~= listed@.take(i as int));
                if let Some(u) = listed[i].get_str("uid") {
                    crate::settings::push_text(&mut out, u);
                }
                i = i + 1;
            }
            assert(listed@.take(listed@.len() as int) =~= listed@);
            out
        },
    }
}

/// The body of an export of index `uid` to the server at `url`:
/// `{"apiKey": key or null, "indexes": [uid], "url": url}`.
pub open spec fn is_export_body(b: Json, url: Seq<char>, api_key: Option<Seq<char>>, uid: Seq<char>) -> bool {
    &&& names_of(b) == seq!["apiKey"@, "indexes"@, "url"@]
    &&& match api_key {
        Some(k) => b.str_at("apiKey"@) == Some(k),
        None => b.spec_get("apiKey"@) == Some(Json::Null),
    }
    &&& crate::json::str_items_at(b, "indexes"@) == Some(seq![uid])
    &&& b.str_at("url"@) == Some(url)
}

/// The keys of an export body, character by character.
proof fn lemma_export_keys()
    ensures
        "apiKey"@ == seq!['a', 'p', 'i', 'K', 'e', 'y'],
        "indexes"@ == seq!['i', 'n', 'd', 'e', 'x', 'e', 's'],
        "url"@ == seq!['u', 'r', 'l'],
{
    reveal_strlit("apiKey");
    reveal_strlit("indexes");
    reveal_strlit("url");
}


/// The body of an export of index `uid` to the server at `url`.
pub fn export_body(url: &str, api_key: Option<&str>, uid: &str) -> (r: Json)
    ensures
        is_export_body(r, url@, crate::text::opt_str(api_key), uid@),
{
    proof {
        lemma_export_keys();
    }
    let key = match api_key {
        Some(k) => Json::from_str(k),
        None => Json::Null,
    };
    let mut one: Vec<String> = Vec::new();
    crate::settings::push_text(&mut one, uid);
    let indexes = Json::from_strs(one.as_slice());
    assert(texts(one@) =~= seq![uid@]);
    let m = crate::json::with_member(Vec::new(), "apiKey", Some(key));
    let m = crate::json::with_member(m, "indexes", Some(indexes));
    let m = crate::json::with_member(m, "url", Some(Json::from_str(url)));
    let r = Json::Object(m);
    assert(names_of(r) =~= seq!["apiKey"@, "indexes"@, "url"@]) by {
        assert(names_of(r) =~= member_names(m@));
    }
    r
}

/// The line a dry run prints for an index: its uid and document count.
pub open spec fn dry_run_text(uid: Seq<char>, stats: Json) -> Seq<char> {
    "  "@ + uid + " ("@ + decimal(
        (match stats.u64_at("numberOfDocuments"@) {
            Some(n) => n,
            None => 0,
        }) as nat,
    ) + " docs)"@
}

/// The line a dry run prints for an index.
pub fn dry_run_line(uid: &str, stats: &Json) -> (r: String)
    ensures
        r@ == dry_run_text(uid@, *stats),
{
    let n = match stats.get_u64("numberOfDocuments") {
        Some(n) => n,
        None => 0,
    };
    let mut r = String::from_str("  ");
    r.append(uid);
    r.append(" (");
    let c = crate::text::u64_to_string(n);
    r.append(c.as_str());
    r.append(" docs)");
    r
}

/// Whether a task ended in failure.
pub fn task_failed(task: &Json) -> (r: bool)
    ensures
        r == (task.str_at("status"@) == Some("failed"@)),
{
    match task.get_str("status") {
        Some(s) => crate::text::str_eq(s, "failed"),
        None => false,
    }
}

} // verus!
