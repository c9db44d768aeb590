//! The routes of the Meilisearch API, one request builder per call.
use vstd::prelude::*;

use crate::client::{Body, MeiliClient, Method, Request};
use crate::json::{member_lookup, member_names, opt_name, str_items, with_member, Json};
use crate::text::{
    decimal, opt_param, opt_param_u64, opt_str, push_opt_param, push_opt_param_u64, query_string,
    query_text, texts, u64_to_string,
};

verus! {

broadcast use vstd::string::group_string_axioms;

/// `r` is a body-less request with method `m` to `url`.
pub open spec fn plain_request(r: Request, m: Method, url: Seq<char>) -> bool {
    r.method == m && r.url@ == url && r.body is Empty
}

/// `r` sends a JSON document with method `m` to `url`.
pub open spec fn json_request(r: Request, m: Method, url: Seq<char>) -> bool {
    r.method == m && r.url@ == url && r.body is Json
}

/// The JSON document a request carries (`Null` when it carries none).
pub open spec fn json_body(r: Request) -> Json {
    match r.body {
        Body::Json(j) => j,
        _ => Json::Null,
    }
}

/// The member names of the object a request carries.
pub open spec fn body_names(r: Request) -> Seq<Seq<char>> {
    match json_body(r) {
        Json::Object(m) => member_names(m@),
        _ => Seq::empty(),
    }
}

/// Member `key` of the object a request carries.
pub open spec fn body_member(r: Request, key: Seq<char>) -> Option<Json> {
    json_body(r).spec_get(key)
}

/// The string member `key` of a request's body.
pub open spec fn body_str(r: Request, key: Seq<char>) -> Option<Seq<char>> {
    match body_member(r, key) {
        Some(Json::Str(s)) => Some(s@),
        _ => None,
    }
}

/// The string-array member `key` of a request's body.
pub open spec fn body_strs(r: Request, key: Seq<char>) -> Option<Seq<Seq<char>>> {
    match body_member(r, key) {
        Some(j) => str_items(j),
        None => None,
    }
}

/// The texts of an optional list of strings.
pub open spec fn opt_texts(o: Option<&[String]>) -> Option<Seq<Seq<char>>> {
    match o {
        Some(v) => Some(texts(v@)),
        None => None,
    }
}

/// The numeric member `key` of a request's body.
pub open spec fn body_u64(r: Request, key: Seq<char>) -> Option<u64> {
    match body_member(r, key) {
        Some(j) => j.spec_as_u64(),
        None => None,
    }
}

/// The member names the request bodies use, spelled out.
proof fn lemma_names()
    ensures
        "uid"@ == seq!['u', 'i', 'd'],
        "primaryKey"@ == seq!['p', 'r', 'i', 'm', 'a', 'r', 'y', 'K', 'e', 'y'],
        "indexes"@ == seq!['i', 'n', 'd', 'e', 'x', 'e', 's'],
        "q"@ == seq!['q'],
        "filter"@ == seq!['f', 'i', 'l', 't', 'e', 'r'],
        "facets"@ == seq!['f', 'a', 'c', 'e', 't', 's'],
        "limit"@ == seq!['l', 'i', 'm', 'i', 't'],
        "offset"@ == seq!['o', 'f', 'f', 's', 'e', 't'],
        "sort"@ == seq!['s', 'o', 'r', 't'],
        "attributesToRetrieve"@ == seq!['a', 't', 't', 'r', 'i', 'b', 'u', 't', 'e', 's', 'T', 'o', 'R', 'e', 't', 'r', 'i', 'e', 'v', 'e'],
        "attributesToHighlight"@ == seq!['a', 't', 't', 'r', 'i', 'b', 'u', 't', 'e', 's', 'T', 'o', 'H', 'i', 'g', 'h', 'l', 'i', 'g', 'h', 't'],
        "queries"@ == seq!['q', 'u', 'e', 'r', 'i', 'e', 's'],
        "facetName"@ == seq!['f', 'a', 'c', 'e', 't', 'N', 'a', 'm', 'e'],
        "facetQuery"@ == seq!['f', 'a', 'c', 'e', 't', 'Q', 'u', 'e', 'r', 'y'],
        "target"@ == seq!['t', 'a', 'r', 'g', 'e', 't'],
        "mode"@ == seq!['m', 'o', 'd', 'e'],
        "actions"@ == seq!['a', 'c', 't', 'i', 'o', 'n', 's'],
        "description"@ == seq!['d', 'e', 's', 'c', 'r', 'i', 'p', 't', 'i', 'o', 'n'],
        "expiresAt"@ == seq!['e', 'x', 'p', 'i', 'r', 'e', 's', 'A', 't'],
        "name"@ == seq!['n', 'a', 'm', 'e'],
        "id"@ == seq!['i', 'd'],
        "function"@ == seq!['f', 'u', 'n', 'c', 't', 'i', 'o', 'n'],
{
    reveal_strlit("uid");
    reveal_strlit("primaryKey");
    reveal_strlit("indexes");
    reveal_strlit("q");
    reveal_strlit("filter");
    reveal_strlit("facets");
    reveal_strlit("limit");
    reveal_strlit("offset");
    reveal_strlit("sort");
    reveal_strlit("attributesToRetrieve");
    reveal_strlit("attributesToHighlight");
    reveal_strlit("queries");
    reveal_strlit("facetName");
    reveal_strlit("facetQuery");
    reveal_strlit("target");
    reveal_strlit("mode");
    reveal_strlit("actions");
    reveal_strlit("description");
    reveal_strlit("expiresAt");
    reveal_strlit("name");
    reveal_strlit("id");
    reveal_strlit("function");
    assert("uid"@ =~= seq!['u', 'i', 'd']);
    assert("primaryKey"@ =~= seq!['p', 'r', 'i', 'm', 'a', 'r', 'y', 'K', 'e', 'y']);
    assert("indexes"@ =~= seq!['i', 'n', 'd', 'e', 'x', 'e', 's']);
    assert("q"@ =~= seq!['q']);
    assert("filter"@ =~= seq!['f', 'i', 'l', 't', 'e', 'r']);
    assert("facets"@ =~= seq!['f', 'a', 'c', 'e', 't', 's']);
    assert("limit"@ =~= seq!['l', 'i', 'm', 'i', 't']);
    assert("offset"@ =~= seq!['o', 'f', 'f', 's', 'e', 't']);
    assert("sort"@ =~= seq!['s', 'o', 'r', 't']);
    assert("attributesToRetrieve"@ =~= seq!['a', 't', 't', 'r', 'i', 'b', 'u', 't', 'e', 's', 'T', 'o', 'R', 'e', 't', 'r', 'i', 'e', 'v', 'e']);
    assert("attributesToHighlight"@ =~= seq!['a', 't', 't', 'r', 'i', 'b', 'u', 't', 'e', 's', 'T', 'o', 'H', 'i', 'g', 'h', 'l', 'i', 'g', 'h', 't']);
    assert("queries"@ =~= seq!['q', 'u', 'e', 'r', 'i', 'e', 's']);
    assert("facetName"@ =~= seq!['f', 'a', 'c', 'e', 't', 'N', 'a', 'm', 'e']);
    assert("facetQuery"@ =~= seq!['f', 'a', 'c', 'e', 't', 'Q', 'u', 'e', 'r', 'y']);
    assert("target"@ =~= seq!['t', 'a', 'r', 'g', 'e', 't']);
    assert("mode"@ =~= seq!['m', 'o', 'd', 'e']);
    assert("actions"@ =~= seq!['a', 'c', 't', 'i', 'o', 'n', 's']);
    assert("description"@ =~= seq!['d', 'e', 's', 'c', 'r', 'i', 'p', 't', 'i', 'o', 'n']);
    assert("expiresAt"@ =~= seq!['e', 'x', 'p', 'i', 'r', 'e', 's', 'A', 't']);
    assert("name"@ =~= seq!['n', 'a', 'm', 'e']);
    assert("id"@ =~= seq!['i', 'd']);
    assert("function"@ =~= seq!['f', 'u', 'n', 'c', 't', 'i', 'o', 'n']);
}

fn json_str(s: Option<&str>) -> (r: Option<Json>)
    ensures
        r is Some == s is Some,
        s matches Some(t) ==> r matches Some(Json::Str(u)) && u@ == t@,
{
    match s {
        Some(t) => Some(Json::Str(String::from_str(t))),
        None => None,
    }
}

fn json_u64(n: Option<u64>) -> (r: Option<Json>)
    ensures
        r is Some == n is Some,
        n matches Some(v) ==> r matches Some(j) && j.spec_as_u64() == Some(v),
{
    match n {
        Some(v) => Some(Json::from_u64(v)),
        None => None,
    }
}

fn json_strs(s: Option<&[String]>) -> (r: Option<Json>)
    ensures
        r is Some == s is Some,
        s matches Some(v) ==> r matches Some(j) && str_items(j) == Some(texts(v@)),
{
    match s {
        Some(v) => Some(Json::from_strs(v)),
        None => None,
    }
}

fn object(members: Vec<(String, Json)>) -> (r: Json)
    ensures
        r == Json::Object(members),
{
    Json::Object(members)
}

impl MeiliClient {
    /// `GET /health`.
    pub fn health(&self) -> (r: Request)
        ensures
            plain_request(r, Method::Get, self.base_url@ + "/health"@),
    {
        Request { method: Method::Get, url: self.url("/health"), body: Body::Empty }
    }

    /// `GET /version`.
    pub fn version(&self) -> (r: Request)
        ensures
            plain_request(r, Method::Get, self.base_url@ + "/version"@),
    {
        Request { method: Method::Get, url: self.url("/version"), body: Body::Empty }
    }

    /// `GET /stats`.
    pub fn stats(&self) -> (r: Request)
        ensures
            plain_request(r, Method::Get, self.base_url@ + "/stats"@),
    {
        Request { method: Method::Get, url: self.url("/stats"), body: Body::Empty }
    }

    /// `GET /indexes` with `offset` and `limit` when given.
    pub fn list_indexes(&self, offset: Option<u64>, limit: Option<u64>) -> (r: Request)
        ensures
            plain_request(
                r,
                Method::Get,
                self.base_url@ + "/indexes"@ + query_text(
                    opt_param_u64("offset="@, offset) + opt_param_u64("limit="@, limit),
                ),
            ),
    {
        let mut params: Vec<String> = Vec::new();
        push_opt_param_u64(&mut params, "offset=", offset);
        push_opt_param_u64(&mut params, "limit=", limit);
        assert(texts(params@) =~= opt_param_u64("offset="@, offset) + opt_param_u64(
            "limit="@,
            limit,
        ));
        let qs = query_string(&params);
        Request { method: Method::Get, url: self.url2("/indexes", qs.as_str()), body: Body::Empty }
    }

    /// `POST /indexes` with `{"uid", "primaryKey"?}`.
    pub fn create_index(&self, uid: &str, primary_key: Option<&str>) -> (r: Request)
        ensures
            json_request(r, Method::Post, self.base_url@ + "/indexes"@),
            body_names(r) == seq!["uid"@] + opt_name("primaryKey"@, primary_key is Some),
            body_str(r, "uid"@) == Some(uid@),
            body_str(r, "primaryKey"@) == opt_str(primary_key),
    {
        proof {
            lemma_names();
        }
        let m = with_member(Vec::new(), "uid", Some(Json::from_str(uid)));
        let m = with_member(m, "primaryKey", json_str(primary_key));
        Request { method: Method::Post, url: self.url("/indexes"), body: Body::Json(object(m)) }
    }
}

impl MeiliClient {
    /// `GET /indexes/{uid}`.
    pub fn get_index(&self, uid: &str) -> (r: Request)
        ensures
            plain_request(r, Method::Get, self.base_url@ + "/indexes/"@ + uid@),
    {
        Request { method: Method::Get, url: self.url2("/indexes/", uid), body: Body::Empty }
    }

    /// `DELETE /indexes/{uid}`.
    pub fn delete_index(&self, uid: &str) -> (r: Request)
        ensures
            plain_request(r, Method::Delete, self.base_url@ + "/indexes/"@ + uid@),
    {
        Request { method: Method::Delete, url: self.url2("/indexes/", uid), body: Body::Empty }
    }

    /// `GET /indexes/{uid}/stats`.
    pub fn index_stats(&self, uid: &str) -> (r: Request)
        ensures
            plain_request(r, Method::Get, self.base_url@ + "/indexes/"@ + uid@ + "/stats"@),
    {
        Request { method: Method::Get, url: self.url3("/indexes/", uid, "/stats"), body: Body::Empty }
    }

    /// `POST /swap-indexes` with one `{"indexes": [a, b]}` per pair.
    pub fn swap_indexes(&self, swaps: &[(String, String)]) -> (r: Request)
        ensures
            json_request(r, Method::Post, self.base_url@ + "/swap-indexes"@),
            json_body(r) is Array,
            json_body(r)->Array_0@.len() == swaps@.len(),
            forall|i: int|
                0 <= i < swaps@.len() ==> {
                    let item = #[trigger] json_body(r)->Array_0@[i];
                    &&& item is Object
                    &&& member_names(item->Object_0@) == seq!["indexes"@]
                    &&& item.spec_get("indexes"@) matches Some(pair) && str_items(pair) == Some(
                        seq![swaps@[i].0@, swaps@[i].1@],
                    )
                },
    {
        proof {
            lemma_names();
        }
        let mut items: Vec<Json> = Vec::new();
        let mut i: usize = 0;
        while i < swaps.len()
            invariant
                i <= swaps@.len(),
                items@.len() == i,
                forall|k: int|
                    0 <= k < i ==> {
                        let item = #[trigger] items@[k];
                        &&& item is Object
                        &&& member_names(item->Object_0@) == seq!["indexes"@]
                        &&& item.spec_get("indexes"@) matches Some(pair) && str_items(pair)
                            == Some(seq![swaps@[k].0@, swaps@[k].1@])
                    },
            decreases swaps@.len() - i,
        {
            let mut pair: Vec<Json> = Vec::new();
            pair.push(Json::from_str(swaps[i].0.as_str()));
            pair.push(Json::from_str(swaps[i].1.as_str()));
            let pair = Json::Array(pair);
            assert(str_items(pair) == Some(seq![swaps@[i as int].0@, swaps@[i as int].1@])) by {
                assert(pair->Array_0@.map_values(|e: Json| e->Str_0@) =~= seq![
                    swaps@[i as int].0@,
                    swaps@[i as int].1@,
                ]);
            }
            let m = with_member(Vec::new(), "indexes", Some(pair));
            assert(member_names(m@) =~= seq!["indexes"@]);
            items.push(object(m));
            i = i + 1;
        }
        Request { method: Method::Post, url: self.url("/swap-indexes"), body: Body::Json(Json::Array(items)) }
    }

    /// `PATCH /indexes/{uid}` with `{"primaryKey"?}`.
    pub fn update_index(&self, uid: &str, primary_key: Option<&str>) -> (r: Request)
        ensures
            json_request(r, Method::Patch, self.base_url@ + "/indexes/"@ + uid@),
            body_names(r) == opt_name("primaryKey"@, primary_key is Some),
            body_str(r, "primaryKey"@) == opt_str(primary_key),
    {
        let m = with_member(Vec::new(), "primaryKey", json_str(primary_key));
        Request { method: Method::Patch, url: self.url2("/indexes/", uid), body: Body::Json(object(m)) }
    }

    /// `GET /indexes/{uid}/documents` with `offset`, `limit`, `fields` when given.
    pub fn get_documents(
        &self,
        uid: &str,
        offset: Option<u64>,
        limit: Option<u64>,
        fields: Option<&str>,
    ) -> (r: Request)
        ensures
            plain_request(
                r,
                Method::Get,
                self.base_url@ + "/indexes/"@ + uid@ + "/documents"@ + query_text(
                    opt_param_u64("offset="@, offset) + opt_param_u64("limit="@, limit) + opt_param(
                        "fields="@,
                        opt_str(fields),
                    ),
                ),
            ),
    {
        let mut params: Vec<String> = Vec::new();
        push_opt_param_u64(&mut params, "offset=", offset);
        push_opt_param_u64(&mut params, "limit=", limit);
        push_opt_param(&mut params, "fields=", fields);
        assert(texts(params@) =~= opt_param_u64("offset="@, offset) + opt_param_u64(
            "limit="@,
            limit,
        ) + opt_param("fields="@, opt_str(fields)));
        let qs = query_string(&params);
        Request {
            method: Method::Get,
            url: self.url4("/indexes/", uid, "/documents", qs.as_str()),
            body: Body::Empty,
        }
    }

    /// `GET /indexes/{uid}/documents/{doc_id}`.
    pub fn get_document(&self, uid: &str, doc_id: &str) -> (r: Request)
        ensures
            plain_request(
                r,
                Method::Get,
                self.base_url@ + "/indexes/"@ + uid@ + "/documents/"@ + doc_id@,
            ),
    {
        Request {
            method: Method::Get,
            url: self.url4("/indexes/", uid, "/documents/", doc_id),
            body: Body::Empty,
        }
    }

    /// `POST /indexes/{uid}/documents`, `?primaryKey=` when given, with the documents.
    pub fn add_documents(&self, uid: &str, documents: Json, primary_key: Option<&str>) -> (r: Request)
        ensures
            r.method == Method::Post,
            r.url@ == self.base_url@ + "/indexes/"@ + uid@ + "/documents"@ + primary_key_query(
                primary_key,
            ),
            r.body == Body::Json(documents),
    {
        let qs = primary_key_qs(primary_key);
        Request {
            method: Method::Post,
            url: self.url4("/indexes/", uid, "/documents", qs.as_str()),
            body: Body::Json(documents),
        }
    }

    /// `POST /indexes/{uid}/documents`, `?primaryKey=` when given, with raw bytes.
    pub fn add_documents_raw(
        &self,
        uid: &str,
        body: Vec<u8>,
        content_type: &str,
        primary_key: Option<&str>,
    ) -> (r: Request)
        ensures
            r.method == Method::Post,
            r.url@ == self.base_url@ + "/indexes/"@ + uid@ + "/documents"@ + primary_key_query(
                primary_key,
            ),
            r.body matches Body::Raw { bytes, content_type: ct } && bytes@ == body@ && ct@
                == content_type@,
    {
        let qs = primary_key_qs(primary_key);
        Request {
            method: Method::Post,
            url: self.url4("/indexes/", uid, "/documents", qs.as_str()),
            body: Body::Raw { bytes: body, content_type: String::from_str(content_type) },
        }
    }

    /// `PUT /indexes/{uid}/documents`, `?primaryKey=` when given, with raw bytes.
    pub fn add_or_update_documents_raw(
        &self,
        uid: &str,
        body: Vec<u8>,
        content_type: &str,
        primary_key: Option<&str>,
    ) -> (r: Request)
        ensures
            r.method == Method::Put,
            r.url@ == self.base_url@ + "/indexes/"@ + uid@ + "/documents"@ + primary_key_query(
                primary_key,
            ),
            r.body matches Body::Raw { bytes, content_type: ct } && bytes@ == body@ && ct@
                == content_type@,
    {
        let qs = primary_key_qs(primary_key);
        Request {
            method: Method::Put,
            url: self.url4("/indexes/", uid, "/documents", qs.as_str()),
            body: Body::Raw { bytes: body, content_type: String::from_str(content_type) },
        }
    }

    /// `DELETE /indexes/{uid}/documents/{doc_id}`.
    pub fn delete_document(&self, uid: &str, doc_id: &str) -> (r: Request)
        ensures
            plain_request(
                r,
                Method::Delete,
                self.base_url@ + "/indexes/"@ + uid@ + "/documents/"@ + doc_id@,
            ),
    {
        Request {
            method: Method::Delete,
            url: self.url4("/indexes/", uid, "/documents/", doc_id),
            body: Body::Empty,
        }
    }

    /// `DELETE /indexes/{uid}/documents`.
    pub fn delete_all_documents(&self, uid: &str) -> (r: Request)
        ensures
            plain_request(r, Method::Delete, self.base_url@ + "/indexes/"@ + uid@ + "/documents"@),
    {
        Request {
            method: Method::Delete,
            url: self.url3("/indexes/", uid, "/documents"),
            body: Body::Empty,
        }
    }

    /// `POST /indexes/{uid}/documents/delete-batch` with the ids as an array.
    pub fn delete_documents_batch(&self, uid: &str, ids: Vec<Json>) -> (r: Request)
        ensures
            r.method == Method::Post,
            r.url@ == self.base_url@ + "/indexes/"@ + uid@ + "/documents/delete-batch"@,
            r.body == Body::Json(Json::Array(ids)),
    {
        Request {
            method: Method::Post,
            url: self.url3("/indexes/", uid, "/documents/delete-batch"),
            body: Body::Json(Json::Array(ids)),
        }
    }

    /// `POST /indexes/{uid}/documents/fetch` with the given body.
    pub fn fetch_documents(&self, uid: &str, body: Json) -> (r: Request)
        ensures
            r.method == Method::Post,
            r.url@ == self.base_url@ + "/indexes/"@ + uid@ + "/documents/fetch"@,
            r.body == Body::Json(body),
    {
        Request {
            method: Method::Post,
            url: self.url3("/indexes/", uid, "/documents/fetch"),
            body: Body::Json(body),
        }
    }

    /// `POST /indexes/{uid}/documents/delete` with `{"filter"}`.
    pub fn delete_documents_by_filter(&self, uid: &str, filter: &str) -> (r: Request)
        ensures
            json_request(r, Method::Post, self.base_url@ + "/indexes/"@ + uid@ + "/documents/delete"@),
            body_names(r) == seq!["filter"@],
            body_str(r, "filter"@) == Some(filter@),
    {
        let m = with_member(Vec::new(), "filter", Some(Json::from_str(filter)));
        assert(member_names(m@) =~= seq!["filter"@]);
        Request {
            method: Method::Post,
            url: self.url3("/indexes/", uid, "/documents/delete"),
            body: Body::Json(object(m)),
        }
    }

    /// `POST /indexes/{uid}/documents/edit` with `{"function", "filter"?}`.
    pub fn edit_documents(&self, uid: &str, function: &str, filter: Option<&str>) -> (r: Request)
        ensures
            json_request(r, Method::Post, self.base_url@ + "/indexes/"@ + uid@ + "/documents/edit"@),
            body_names(r) == seq!["function"@] + opt_name("filter"@, filter is Some),
            body_str(r, "function"@) == Some(function@),
            body_str(r, "filter"@) == opt_str(filter),
    {
        proof {
            lemma_names();
        }
        let m = with_member(Vec::new(), "function", Some(Json::from_str(function)));
        let m = with_member(m, "filter", json_str(filter));
        Request {
            method: Method::Post,
            url: self.url3("/indexes/", uid, "/documents/edit"),
            body: Body::Json(object(m)),
        }
    }
}

/// `?primaryKey={pk}` when a primary key is given, else nothing.
pub open spec fn primary_key_query(pk: Option<&str>) -> Seq<char> {
    match pk {
        Some(k) => "?primaryKey="@ + k@,
        None => Seq::empty(),
    }
}

fn primary_key_qs(pk: Option<&str>) -> (r: String)
    ensures
        r@ == primary_key_query(pk),
{
    match pk {
        Some(k) => crate::text::param_text("?primaryKey=", k),
        None => String::new(),
    }
}

/// The settings sub-resources that are changed with `PATCH` (the others with `PUT`).
pub open spec fn patched_setting(sub: Seq<char>) -> bool {
    sub == "embedders"@ || sub == "faceting"@ || sub == "pagination"@ || sub == "typo-tolerance"@
}

/// The method that updates a settings sub-resource.
pub fn setting_update_method(sub: &str) -> (r: Method)
    ensures
        r == (if patched_setting(sub@) {
            Method::Patch
        } else {
            Method::Put
        }),
{
    if crate::text::str_eq(sub, "embedders") || crate::text::str_eq(sub, "faceting")
        || crate::text::str_eq(sub, "pagination") || crate::text::str_eq(sub, "typo-tolerance") {
        Method::Patch
    } else {
        Method::Put
    }
}

impl MeiliClient {
    /// `POST /indexes/{uid}/search` with `{"q"}` and each option that is given.
    pub fn search(
        &self,
        uid: &str,
        query: &str,
        filter: Option<&str>,
        facets: Option<&[String]>,
        limit: Option<u64>,
        offset: Option<u64>,
        sort: Option<&[String]>,
        attributes_to_retrieve: Option<&[String]>,
        attributes_to_highlight: Option<&[String]>,
    ) -> (r: Request)
        ensures
            json_request(r, Method::Post, self.base_url@ + "/indexes/"@ + uid@ + "/search"@),
            body_names(r) == seq!["q"@] + opt_name("filter"@, filter is Some) + opt_name(
                "facets"@,
                facets is Some,
            ) + opt_name("limit"@, limit is Some) + opt_name("offset"@, offset is Some) + opt_name(
                "sort"@,
                sort is Some,
            ) + opt_name("attributesToRetrieve"@, attributes_to_retrieve is Some) + opt_name(
                "attributesToHighlight"@,
                attributes_to_highlight is Some,
            ),
            body_str(r, "q"@) == Some(query@),
            body_str(r, "filter"@) == opt_str(filter),
            body_strs(r, "facets"@) == opt_texts(facets),
            body_u64(r, "limit"@) == limit,
            body_u64(r, "offset"@) == offset,
            body_strs(r, "sort"@) == opt_texts(sort),
            body_strs(r, "attributesToRetrieve"@) == opt_texts(attributes_to_retrieve),
            body_strs(r, "attributesToHighlight"@) == opt_texts(attributes_to_highlight),
    {
        proof {
            lemma_names();
        }
        let m = with_member(Vec::new(), "q", Some(Json::from_str(query)));
        let m = with_member(m, "filter", json_str(filter));
        let m = with_member(m, "facets", json_strs(facets));
        let m = with_member(m, "limit", json_u64(limit));
        let m = with_member(m, "offset", json_u64(offset));
        let m = with_member(m, "sort", json_strs(sort));
        let m = with_member(m, "attributesToRetrieve", json_strs(attributes_to_retrieve));
        let m = with_member(m, "attributesToHighlight", json_strs(attributes_to_highlight));
        Request {
            method: Method::Post,
            url: self.url3("/indexes/", uid, "/search"),
            body: Body::Json(object(m)),
        }
    }

    /// `POST /multi-search` with `{"queries"}`.
    pub fn multi_search(&self, queries: Json) -> (r: Request)
        ensures
            json_request(r, Method::Post, self.base_url@ + "/multi-search"@),
            body_names(r) == seq!["queries"@],
            body_member(r, "queries"@) == Some(queries),
    {
        let m = with_member(Vec::new(), "queries", Some(queries));
        assert(member_names(m@) =~= seq!["queries"@]);
        Request { method: Method::Post, url: self.url("/multi-search"), body: Body::Json(object(m)) }
    }

    /// `POST /indexes/{uid}/facet-search` with `{"facetName", "facetQuery"?, "filter"?}`.
    pub fn facet_search(
        &self,
        uid: &str,
        facet_name: &str,
        facet_query: Option<&str>,
        filter: Option<&str>,
    ) -> (r: Request)
        ensures
            json_request(r, Method::Post, self.base_url@ + "/indexes/"@ + uid@ + "/facet-search"@),
            body_names(r) == seq!["facetName"@] + opt_name("facetQuery"@, facet_query is Some)
                + opt_name("filter"@, filter is Some),
            body_str(r, "facetName"@) == Some(facet_name@),
            body_str(r, "facetQuery"@) == opt_str(facet_query),
            body_str(r, "filter"@) == opt_str(filter),
    {
        proof {
            lemma_names();
        }
        let m = with_member(Vec::new(), "facetName", Some(Json::from_str(facet_name)));
        let m = with_member(m, "facetQuery", json_str(facet_query));
        let m = with_member(m, "filter", json_str(filter));
        Request {
            method: Method::Post,
            url: self.url3("/indexes/", uid, "/facet-search"),
            body: Body::Json(object(m)),
        }
    }

    /// `GET /indexes/{uid}/settings`.
    pub fn get_settings(&self, uid: &str) -> (r: Request)
        ensures
            plain_request(r, Method::Get, self.base_url@ + "/indexes/"@ + uid@ + "/settings"@),
    {
        Request { method: Method::Get, url: self.url3("/indexes/", uid, "/settings"), body: Body::Empty }
    }

    /// `PATCH /indexes/{uid}/settings` with the settings.
    pub fn update_settings(&self, uid: &str, settings: Json) -> (r: Request)
        ensures
            r.method == Method::Patch,
            r.url@ == self.base_url@ + "/indexes/"@ + uid@ + "/settings"@,
            r.body == Body::Json(settings),
    {
        Request {
            method: Method::Patch,
            url: self.url3("/indexes/", uid, "/settings"),
            body: Body::Json(settings),
        }
    }

    /// `DELETE /indexes/{uid}/settings`.
    pub fn reset_settings(&self, uid: &str) -> (r: Request)
        ensures
            plain_request(r, Method::Delete, self.base_url@ + "/indexes/"@ + uid@ + "/settings"@),
    {
        Request {
            method: Method::Delete,
            url: self.url3("/indexes/", uid, "/settings"),
            body: Body::Empty,
        }
    }

    /// `GET /indexes/{uid}/settings/{sub}`.
    pub fn get_setting(&self, uid: &str, sub: &str) -> (r: Request)
        ensures
            plain_request(
                r,
                Method::Get,
                self.base_url@ + "/indexes/"@ + uid@ + "/settings/"@ + sub@,
            ),
    {
        Request {
            method: Method::Get,
            url: self.url4("/indexes/", uid, "/settings/", sub),
            body: Body::Empty,
        }
    }

    /// Updates one settings sub-resource: `PATCH` for embedders, faceting,
    /// pagination and typo tolerance, `PUT` for the others.
    pub fn update_setting(&self, uid: &str, sub: &str, value: Json) -> (r: Request)
        ensures
            r.method == (if patched_setting(sub@) {
                Method::Patch
            } else {
                Method::Put
            }),
            r.url@ == self.base_url@ + "/indexes/"@ + uid@ + "/settings/"@ + sub@,
            r.body == Body::Json(value),
    {
        Request {
            method: setting_update_method(sub),
            url: self.url4("/indexes/", uid, "/settings/", sub),
            body: Body::Json(value),
        }
    }

    /// `DELETE /indexes/{uid}/settings/{sub}`.
    pub fn reset_setting(&self, uid: &str, sub: &str) -> (r: Request)
        ensures
            plain_request(
                r,
                Method::Delete,
                self.base_url@ + "/indexes/"@ + uid@ + "/settings/"@ + sub@,
            ),
    {
        Request {
            method: Method::Delete,
            url: self.url4("/indexes/", uid, "/settings/", sub),
            body: Body::Empty,
        }
    }

    /// `GET /batches` with the given filters.
    pub fn list_batches(
        &self,
        limit: Option<u64>,
        from: Option<u64>,
        uids: Option<&str>,
        index_uids: Option<&str>,
        statuses: Option<&str>,
        types: Option<&str>,
    ) -> (r: Request)
        ensures
            plain_request(
                r,
                Method::Get,
                self.base_url@ + "/batches"@ + query_text(
                    opt_param_u64("limit="@, limit) + opt_param_u64("from="@, from) + opt_param(
                        "uids="@,
                        opt_str(uids),
                    ) + opt_param("indexUids="@, opt_str(index_uids)) + opt_param(
                        "statuses="@,
                        opt_str(statuses),
                    ) + opt_param("types="@, opt_str(types)),
                ),
            ),
    {
        let mut params: Vec<String> = Vec::new();
        push_opt_param_u64(&mut params, "limit=", limit);
        push_opt_param_u64(&mut params, "from=", from);
        push_opt_param(&mut params, "uids=", uids);
        push_opt_param(&mut params, "indexUids=", index_uids);
        push_opt_param(&mut params, "statuses=", statuses);
        push_opt_param(&mut params, "types=", types);
        assert(texts(params@) =~= opt_param_u64("limit="@, limit) + opt_param_u64("from="@, from)
            + opt_param("uids="@, opt_str(uids)) + opt_param("indexUids="@, opt_str(index_uids))
            + opt_param("statuses="@, opt_str(statuses)) + opt_param("types="@, opt_str(types)));
        let qs = query_string(&params);
        Request { method: Method::Get, url: self.url2("/batches", qs.as_str()), body: Body::Empty }
    }

    /// `GET /batches/{uid}`.
    pub fn get_batch(&self, uid: u64) -> (r: Request)
        ensures
            plain_request(r, Method::Get, self.base_url@ + "/batches/"@ + decimal(uid as nat)),
    {
        let n = u64_to_string(uid);
        Request { method: Method::Get, url: self.url2("/batches/", n.as_str()), body: Body::Empty }
    }

    /// `POST /logs/stderr` with `{"target"}`.
    pub fn update_log_stderr(&self, target: &str) -> (r: Request)
        ensures
            json_request(r, Method::Post, self.base_url@ + "/logs/stderr"@),
            body_names(r) == seq!["target"@],
            body_str(r, "target"@) == Some(target@),
    {
        let m = with_member(Vec::new(), "target", Some(Json::from_str(target)));
        assert(member_names(m@) =~= seq!["target"@]);
        Request { method: Method::Post, url: self.url("/logs/stderr"), body: Body::Json(object(m)) }
    }

    /// `POST /logs/stream` with `{"target", "mode"?}`.
    pub fn stream_logs(&self, target: &str, mode: Option<&str>) -> (r: Request)
        ensures
            json_request(r, Method::Post, self.base_url@ + "/logs/stream"@),
            body_names(r) == seq!["target"@] + opt_name("mode"@, mode is Some),
            body_str(r, "target"@) == Some(target@),
            body_str(r, "mode"@) == opt_str(mode),
    {
        proof {
            lemma_names();
        }
        let m = with_member(Vec::new(), "target", Some(Json::from_str(target)));
        let m = with_member(m, "mode", json_str(mode));
        Request { method: Method::Post, url: self.url("/logs/stream"), body: Body::Json(object(m)) }
    }

    /// `DELETE /logs/stream`.
    pub fn stop_log_stream(&self) -> (r: Request)
        ensures
            plain_request(r, Method::Delete, self.base_url@ + "/logs/stream"@),
    {
        Request { method: Method::Delete, url: self.url("/logs/stream"), body: Body::Empty }
    }

    /// `GET /network`.
    pub fn get_network(&self) -> (r: Request)
        ensures
            plain_request(r, Method::Get, self.base_url@ + "/network"@),
    {
        Request { method: Method::Get, url: self.url("/network"), body: Body::Empty }
    }

    /// `PATCH /network` with the given body.
    pub fn update_network(&self, body: Json) -> (r: Request)
        ensures
            r.method == Method::Patch,
            r.url@ == self.base_url@ + "/network"@,
            r.body == Body::Json(body),
    {
        Request { method: Method::Patch, url: self.url("/network"), body: Body::Json(body) }
    }

    /// `GET /metrics`; the reply is plain text (see `read_metrics`).
    pub fn get_metrics_raw(&self) -> (r: Request)
        ensures
            plain_request(r, Method::Get, self.base_url@ + "/metrics"@),
    {
        Request { method: Method::Get, url: self.url("/metrics"), body: Body::Empty }
    }

    /// `GET /tasks` with the filters' query string.
    pub fn list_tasks(&self, filters: &crate::client::TaskFilters) -> (r: Request)
        ensures
            plain_request(
                r,
                Method::Get,
                self.base_url@ + "/tasks"@ + query_text(crate::client::task_filter_params(*filters)),
            ),
    {
        let qs = filters.to_query_string();
        Request { method: Method::Get, url: self.url2("/tasks", qs.as_str()), body: Body::Empty }
    }

    /// `GET /tasks/{task_id}`.
    pub fn get_task(&self, task_id: u64) -> (r: Request)
        ensures
            plain_request(r, Method::Get, self.base_url@ + "/tasks/"@ + decimal(task_id as nat)),
    {
        let n = u64_to_string(task_id);
        Request { method: Method::Get, url: self.url2("/tasks/", n.as_str()), body: Body::Empty }
    }

    /// `POST /tasks/cancel` with the filters' query string and `{}`.
    pub fn cancel_tasks(&self, filters: &crate::client::TaskFilters) -> (r: Request)
        ensures
            json_request(
                r,
                Method::Post,
                self.base_url@ + "/tasks/cancel"@ + query_text(
                    crate::client::task_filter_params(*filters),
                ),
            ),
            body_names(r).len() == 0 && json_body(r) is Object,
    {
        let qs = filters.to_query_string();
        Request {
            method: Method::Post,
            url: self.url2("/tasks/cancel", qs.as_str()),
            body: Body::Json(object(Vec::new())),
        }
    }

    /// `DELETE /tasks` with the filters' query string.
    pub fn delete_tasks(&self, filters: &crate::client::TaskFilters) -> (r: Request)
        ensures
            plain_request(
                r,
                Method::Delete,
                self.base_url@ + "/tasks"@ + query_text(crate::client::task_filter_params(*filters)),
            ),
    {
        let qs = filters.to_query_string();
        Request { method: Method::Delete, url: self.url2("/tasks", qs.as_str()), body: Body::Empty }
    }

    /// `GET /keys`.
    pub fn list_keys(&self) -> (r: Request)
        ensures
            plain_request(r, Method::Get, self.base_url@ + "/keys"@),
    {
        Request { method: Method::Get, url: self.url("/keys"), body: Body::Empty }
    }

    /// `GET /keys/{key}`.
    pub fn get_key(&self, key: &str) -> (r: Request)
        ensures
            plain_request(r, Method::Get, self.base_url@ + "/keys/"@ + key@),
    {
        Request { method: Method::Get, url: self.url2("/keys/", key), body: Body::Empty }
    }

    /// `POST /keys` with `{"actions", "indexes", "description"?, "expiresAt"}`;
    /// `expiresAt` is `null` when no expiry is given.
    pub fn create_key(
        &self,
        description: Option<&str>,
        actions: &[String],
        indexes: &[String],
        expires_at: Option<&str>,
    ) -> (r: Request)
        ensures
            json_request(r, Method::Post, self.base_url@ + "/keys"@),
            body_names(r) == seq!["actions"@, "indexes"@] + opt_name(
                "description"@,
                description is Some,
            ) + seq!["expiresAt"@],
            body_strs(r, "actions"@) == Some(texts(actions@)),
            body_strs(r, "indexes"@) == Some(texts(indexes@)),
            body_str(r, "description"@) == opt_str(description),
            match expires_at {
                Some(e) => body_str(r, "expiresAt"@) == Some(e@),
                None => body_member(r, "expiresAt"@) == Some(Json::Null),
            },
    {
        proof {
            lemma_names();
        }
        let m = with_member(Vec::new(), "actions", Some(Json::from_strs(actions)));
        let m = with_member(m, "indexes", Some(Json::from_strs(indexes)));
        let m = with_member(m, "description", json_str(description));
        let expiry = match expires_at {
            Some(e) => Json::from_str(e),
            None => Json::Null,
        };
        let m = with_member(m, "expiresAt", Some(expiry));
        Request { method: Method::Post, url: self.url("/keys"), body: Body::Json(object(m)) }
    }

    /// `PATCH /keys/{key}` with `{"description"?, "name"?}`.
    pub fn update_key(&self, key: &str, description: Option<&str>, name: Option<&str>) -> (r: Request)
        ensures
            json_request(r, Method::Patch, self.base_url@ + "/keys/"@ + key@),
            body_names(r) == opt_name("description"@, description is Some) + opt_name(
                "name"@,
                name is Some,
            ),
            body_str(r, "description"@) == opt_str(description),
            body_str(r, "name"@) == opt_str(name),
    {
        proof {
            lemma_names();
        }
        let m = with_member(Vec::new(), "description", json_str(description));
        let m = with_member(m, "name", json_str(name));
        Request { method: Method::Patch, url: self.url2("/keys/", key), body: Body::Json(object(m)) }
    }

    /// `DELETE /keys/{key}`.
    pub fn delete_key(&self, key: &str) -> (r: Request)
        ensures
            plain_request(r, Method::Delete, self.base_url@ + "/keys/"@ + key@),
    {
        Request { method: Method::Delete, url: self.url2("/keys/", key), body: Body::Empty }
    }

    /// `POST /dumps` with `{}`.
    pub fn create_dump(&self) -> (r: Request)
        ensures
            json_request(r, Method::Post, self.base_url@ + "/dumps"@),
            body_names(r).len() == 0 && json_body(r) is Object,
    {
        Request { method: Method::Post, url: self.url("/dumps"), body: Body::Json(object(Vec::new())) }
    }

    /// `POST /snapshots` with `{}`.
    pub fn create_snapshot(&self) -> (r: Request)
        ensures
            json_request(r, Method::Post, self.base_url@ + "/snapshots"@),
            body_names(r).len() == 0 && json_body(r) is Object,
    {
        Request {
            method: Method::Post,
            url: self.url("/snapshots"),
            body: Body::Json(object(Vec::new())),
        }
    }

    /// `POST /export` with the given body.
    pub fn export(&self, body: Json) -> (r: Request)
        ensures
            r.method == Method::Post,
            r.url@ == self.base_url@ + "/export"@,
            r.body == Body::Json(body),
    {
        Request { method: Method::Post, url: self.url("/export"), body: Body::Json(body) }
    }

    /// `GET /experimental-features`.
    pub fn get_experimental_features(&self) -> (r: Request)
        ensures
            plain_request(r, Method::Get, self.base_url@ + "/experimental-features"@),
    {
        Request { method: Method::Get, url: self.url("/experimental-features"), body: Body::Empty }
    }

    /// `PATCH /experimental-features` with the given features.
    pub fn update_experimental_features(&self, features: Json) -> (r: Request)
        ensures
            r.method == Method::Patch,
            r.url@ == self.base_url@ + "/experimental-features"@,
            r.body == Body::Json(features),
    {
        Request {
            method: Method::Patch,
            url: self.url("/experimental-features"),
            body: Body::Json(features),
        }
    }

    /// `POST /indexes/{uid}/similar` with `{"id", "limit"?, "filter"?}`.
    pub fn similar(&self, uid: &str, id: &str, limit: Option<u64>, filter: Option<&str>) -> (r: Request)
        ensures
            json_request(r, Method::Post, self.base_url@ + "/indexes/"@ + uid@ + "/similar"@),
            body_names(r) == seq!["id"@] + opt_name("limit"@, limit is Some) + opt_name(
                "filter"@,
                filter is Some,
            ),
            body_str(r, "id"@) == Some(id@),
            body_u64(r, "limit"@) == limit,
            body_str(r, "filter"@) == opt_str(filter),
    {
        proof {
            lemma_names();
        }
        let m = with_member(Vec::new(), "id", Some(Json::from_str(id)));
        let m = with_member(m, "limit", json_u64(limit));
        let m = with_member(m, "filter", json_str(filter));
        Request {
            method: Method::Post,
            url: self.url3("/indexes/", uid, "/similar"),
            body: Body::Json(object(m)),
        }
    }

    /// `GET /chats`.
    pub fn list_chat_workspaces(&self) -> (r: Request)
        ensures
            plain_request(r, Method::Get, self.base_url@ + "/chats"@),
    {
        Request { method: Method::Get, url: self.url("/chats"), body: Body::Empty }
    }

    /// `GET /chats/{workspace}/settings`.
    pub fn get_chat_settings(&self, workspace: &str) -> (r: Request)
        ensures
            plain_request(r, Method::Get, self.base_url@ + "/chats/"@ + workspace@ + "/settings"@),
    {
        Request {
            method: Method::Get,
            url: self.url3("/chats/", workspace, "/settings"),
            body: Body::Empty,
        }
    }

    /// `PATCH /chats/{workspace}/settings` with the settings.
    pub fn update_chat_settings(&self, workspace: &str, settings: Json) -> (r: Request)
        ensures
            r.method == Method::Patch,
            r.url@ == self.base_url@ + "/chats/"@ + workspace@ + "/settings"@,
            r.body == Body::Json(settings),
    {
        Request {
            method: Method::Patch,
            url: self.url3("/chats/", workspace, "/settings"),
            body: Body::Json(settings),
        }
    }

    /// `DELETE /chats/{workspace}`.
    pub fn delete_chat_workspace(&self, workspace: &str) -> (r: Request)
        ensures
            plain_request(r, Method::Delete, self.base_url@ + "/chats/"@ + workspace@),
    {
        Request { method: Method::Delete, url: self.url2("/chats/", workspace), body: Body::Empty }
    }

    /// `POST /chats/{workspace}/chat/completions` with the body; the reply is a stream.
    pub fn chat_completions(&self, workspace: &str, body: Json) -> (r: Request)
        ensures
            r.method == Method::Post,
            r.url@ == self.base_url@ + "/chats/"@ + workspace@ + "/chat/completions"@,
            r.body == Body::Json(body),
    {
        Request {
            method: Method::Post,
            url: self.url3("/chats/", workspace, "/chat/completions"),
            body: Body::Json(body),
        }
    }
}

/// Reads the reply to `GET /metrics`: its text on success, else the status.
pub fn read_metrics(status: u16, body: String) -> (r: Result<String, (u16, String)>)
    ensures
        crate::client::status_ok(status) ==> r == Ok::<String, (u16, String)>(body),
        !crate::client::status_ok(status) ==> r == Err::<String, (u16, String)>((status, body)),
{
    if 200 <= status && status <= 299 {
        Ok(body)
    } else {
        Err((status, body))
    }
}

} // verus!
