//! The requests the client sends to a Meilisearch instance, and how it reads
//! the replies. Sending happens elsewhere; every function here says exactly
//! which method, URL and body a call of the API makes.
use vstd::prelude::*;

use crate::json::Json;
use crate::text::{
    decimal, join, opt_as_str, opt_param, opt_param_u64, opt_str, opt_text, param_text,
    push_opt_param, push_opt_param_u64, query_string, query_text, str_eq, texts, trim_end_slashes,
    trim_trailing_slashes, u64_to_string,
};

verus! {

/// Filters of the task routes (`/tasks`, `/tasks/cancel`).
#[derive(Clone, Debug, PartialEq)]
pub struct TaskFilters {
    pub uids: Option<String>,
    pub statuses: Option<String>,
    pub types: Option<String>,
    pub index_uids: Option<String>,
    pub canceled_by: Option<String>,
    pub before_enqueued_at: Option<String>,
    pub after_enqueued_at: Option<String>,
    pub before_started_at: Option<String>,
    pub after_started_at: Option<String>,
    pub before_finished_at: Option<String>,
    pub after_finished_at: Option<String>,
    pub from: Option<u64>,
    pub limit: Option<u64>,
}

/// The query parameters of a set of task filters, in their fixed order.
pub open spec fn task_filter_params(f: TaskFilters) -> Seq<Seq<char>> {
    opt_param("uids="@, opt_text(f.uids)) + opt_param("statuses="@, opt_text(f.statuses))
        + opt_param("types="@, opt_text(f.types)) + opt_param("indexUids="@, opt_text(f.index_uids))
        + opt_param("canceledBy="@, opt_text(f.canceled_by)) + opt_param(
        "beforeEnqueuedAt="@,
        opt_text(f.before_enqueued_at),
    ) + opt_param("afterEnqueuedAt="@, opt_text(f.after_enqueued_at)) + opt_param(
        "beforeStartedAt="@,
        opt_text(f.before_started_at),
    ) + opt_param("afterStartedAt="@, opt_text(f.after_started_at)) + opt_param(
        "beforeFinishedAt="@,
        opt_text(f.before_finished_at),
    ) + opt_param("afterFinishedAt="@, opt_text(f.after_finished_at)) + opt_param_u64(
        "from="@,
        f.from,
    ) + opt_param_u64("limit="@, f.limit)
}

impl Default for TaskFilters {
    /// No filter set.
    fn default() -> (r: TaskFilters)
        ensures
            task_filter_params(r).len() == 0,
            r.uids is None && r.statuses is None && r.types is None && r.index_uids is None,
            r.canceled_by is None && r.before_enqueued_at is None && r.after_enqueued_at is None,
            r.before_started_at is None && r.after_started_at is None,
            r.before_finished_at is None && r.after_finished_at is None,
            r.from is None && r.limit is None,
    {
        TaskFilters {
            uids: None,
            statuses: None,
            types: None,
            index_uids: None,
            canceled_by: None,
            before_enqueued_at: None,
            after_enqueued_at: None,
            before_started_at: None,
            after_started_at: None,
            before_finished_at: None,
            after_finished_at: None,
            from: None,
            limit: None,
        }
    }
}

impl TaskFilters {
    /// The filters as a query string: empty when none is set, else `?` and
    /// the set filters as `name=value` joined by `&`.
    pub fn to_query_string(&self) -> (r: String)
        ensures
            r@ == query_text(task_filter_params(*self)),
    {
        let mut params: Vec<String> = Vec::new();
        push_opt_param(&mut params, "uids=", opt_as_str(&self.uids));
        push_opt_param(&mut params, "statuses=", opt_as_str(&self.statuses));
        push_opt_param(&mut params, "types=", opt_as_str(&self.types));
        push_opt_param(&mut params, "indexUids=", opt_as_str(&self.index_uids));
        push_opt_param(&mut params, "canceledBy=", opt_as_str(&self.canceled_by));
        push_opt_param(&mut params, "beforeEnqueuedAt=", opt_as_str(&self.before_enqueued_at));
        push_opt_param(&mut params, "afterEnqueuedAt=", opt_as_str(&self.after_enqueued_at));
        push_opt_param(&mut params, "beforeStartedAt=", opt_as_str(&self.before_started_at));
        push_opt_param(&mut params, "afterStartedAt=", opt_as_str(&self.after_started_at));
        push_opt_param(&mut params, "beforeFinishedAt=", opt_as_str(&self.before_finished_at));
        push_opt_param(&mut params, "afterFinishedAt=", opt_as_str(&self.after_finished_at));
        push_opt_param_u64(&mut params, "from=", self.from);
        push_opt_param_u64(&mut params, "limit=", self.limit);
        assert(texts(params@) =~= task_filter_params(*self));
        query_string(&params)
    }
}

/// Whether HTTP header values accept the byte: tab, every byte from 32 to
/// 126 (space and visible ASCII), and every byte from 0x80 up.
pub open spec fn header_byte_ok(b: u8) -> bool {
    (b >= 32 && b != 127) || b == 9
}

pub open spec fn header_text_ok(bytes: Seq<u8>) -> bool {
    forall|i: int| 0 <= i < bytes.len() ==> header_byte_ok(#[trigger] bytes[i])
}

/// Checks a header value with `reqwest::header::HeaderValue::from_str`,
/// which accepts exactly the texts whose every byte passes `header_byte_ok`.
#[verifier::external_body]
fn header_value_accepted(text: &str) -> (r: bool)
    ensures
        r == header_text_ok(crate::text::utf8_bytes(text@)),
{
    reqwest::header::HeaderValue::from_str(text).is_ok()
}

/// The HTTP methods the API uses.
#[derive(PartialEq, Eq, Structural, Clone, Copy, Debug)]
pub enum Method {
    Get,
    Post,
    Put,
    Patch,
    Delete,
}

/// What a request carries.
#[derive(Debug, PartialEq)]
pub enum Body {
    Empty,
    /// A JSON document.
    Json(Json),
    /// Bytes sent as they are, with their content type.
    Raw { bytes: Vec<u8>, content_type: String },
}

/// One call of the API.
#[derive(Debug, PartialEq)]
pub struct Request {
    pub method: Method,
    pub url: String,
    pub body: Body,
}

/// Why a client could not be made.
#[derive(PartialEq, Eq, Structural, Clone, Copy, Debug)]
pub enum ClientError {
    /// The API key holds characters an HTTP header cannot carry.
    InvalidApiKey,
}

/// The address of one Meilisearch instance and the credentials to use there.
#[derive(Clone, Debug)]
pub struct MeiliClient {
    /// The instance's URL, without trailing `/`.
    pub base_url: String,
    /// The `Authorization` header value, when an API key is set.
    pub authorization: Option<String>,
}

/// The `Authorization` header value for an API key.
pub open spec fn bearer(key: Seq<char>) -> Seq<char> {
    "Bearer "@ + key
}

impl MeiliClient {
    /// A client for the instance at `url`, authenticating with `api_key` when given.
    pub fn new(url: &str, api_key: Option<&str>) -> (r: Result<MeiliClient, ClientError>)
        ensures
            r is Ok <==> (api_key matches Some(k) ==> header_text_ok(
                crate::text::utf8_bytes(bearer(k@)),
            )),
            r matches Ok(c) ==> {
                &&& c.base_url@ == trim_end_slashes(url@)
                &&& match api_key {
                    Some(k) => c.authorization matches Some(a) && a@ == bearer(k@),
                    None => c.authorization is None,
                }
            },
            r matches Err(e) ==> e == ClientError::InvalidApiKey,
    {
        let authorization = match api_key {
            Some(key) => {
                let header = param_text("Bearer ", key);
                if !header_value_accepted(header.as_str()) {
                    return Err(ClientError::InvalidApiKey);
                }
                Some(header)
            },
            None => None,
        };
        Ok(MeiliClient { base_url: trim_trailing_slashes(url), authorization })
    }

    /// The base URL followed by `path`.
    pub fn url(&self, path: &str) -> (r: String)
        ensures
            r@ == self.base_url@ + path@,
    {
        let mut r = self.base_url.clone();
        r.append(path);
        r
    }

    pub(crate) fn url2(&self, a: &str, b: &str) -> (r: String)
        ensures
            r@ == self.base_url@ + a@ + b@,
    {
        let mut r = self.base_url.clone();
        r.append(a);
        r.append(b);
        r
    }

    pub(crate) fn url3(&self, a: &str, b: &str, c: &str) -> (r: String)
        ensures
            r@ == self.base_url@ + a@ + b@ + c@,
    {
        let mut r = self.base_url.clone();
        r.append(a);
        r.append(b);
        r.append(c);
        r
    }

    pub(crate) fn url4(&self, a: &str, b: &str, c: &str, d: &str) -> (r: String)
        ensures
            r@ == self.base_url@ + a@ + b@ + c@ + d@,
    {
        let mut r = self.base_url.clone();
        r.append(a);
        r.append(b);
        r.append(c);
        r.append(d);
        r
    }
}

/// Whether an HTTP status denotes success (200 to 299).
pub open spec fn status_ok(status: u16) -> bool {
    200 <= status <= 299
}

/// How a reply of the API was refused.
#[derive(Clone, Debug, PartialEq)]
pub enum ApiError {
    /// A failure status with an empty body.
    EmptyFailure { status: u16 },
    /// A body that is not JSON.
    NotJson { status: u16, body: String },
    /// A failure status with a JSON body: the error's code and message
    /// (`unknown` and `Unknown API error` when the body has none).
    Api { status: u16, code: String, message: String },
}

/// The string member `key` of `j`, or `default` when there is none.
pub open spec fn str_or(j: Json, key: Seq<char>, default: Seq<char>) -> Seq<char> {
    match j.str_at(key) {
        Some(s) => s,
        None => default,
    }
}

/// Reads a reply of the API: its status, its body and, when the body is a
/// JSON document, that document (`parsed`, `None` when it is not one).
pub fn handle_response(status: u16, body: &str, parsed: Option<Json>) -> (r: Result<Json, ApiError>)
    ensures
        body@.len() == 0 ==> (if status_ok(status) {
            r matches Ok(Json::Null)
        } else {
            r matches Err(ApiError::EmptyFailure { status: s }) && s == status
        }),
        body@.len() > 0 ==> match parsed {
            None => r matches Err(ApiError::NotJson { status: s, body: b }) && s == status && b@
                == body@,
            Some(j) => if status_ok(status) {
                r == Ok::<Json, ApiError>(j)
            } else {
                r matches Err(ApiError::Api { status: s, code, message }) && s == status && code@
                    == str_or(j, "code"@, "unknown"@) && message@ == str_or(
                    j,
                    "message"@,
                    "Unknown API error"@,
                )
            },
        },
{
    let success = 200 <= status && status <= 299;
    if body.unicode_len() == 0 {
        if success {
            return Ok(Json::Null);
        }
        return Err(ApiError::EmptyFailure { status });
    }
    match parsed {
        None => Err(ApiError::NotJson { status, body: String::from_str(body) }),
        Some(j) => {
            if success {
                Ok(j)
            } else {
                let message = match j.get_str("message") {
                    Some(m) => String::from_str(m),
                    None => String::from_str("Unknown API error"),
                };
                let code = match j.get_str("code") {
                    Some(c) => String::from_str(c),
                    None => String::from_str("unknown"),
                };
                Err(ApiError::Api { status, code, message })
            }
        },
    }
}

/// Whether a task has reached a final state.
pub open spec fn terminal_status(s: Seq<char>) -> bool {
    s == "succeeded"@ || s == "failed"@ || s == "canceled"@
}

/// A task's status, `unknown` when it carries none.
pub open spec fn task_status(task: Json) -> Seq<char> {
    str_or(task, "status"@, "unknown"@)
}

/// Whether the status is one of `succeeded`, `failed`, `canceled`.
pub fn is_terminal_status(s: &str) -> (r: bool)
    ensures
        r == terminal_status(s@),
{
    str_eq(s, "succeeded") || str_eq(s, "failed") || str_eq(s, "canceled")
}

/// The status of a task document.
pub fn status_of(task: &Json) -> (r: &str)
    ensures
        r@ == task_status(*task),
{
    match task.get_str("status") {
        Some(s) => s,
        None => "unknown",
    }
}

/// One for a filter that is set, none otherwise.
pub open spec fn set_count(set: bool) -> int {
    if set {
        1
    } else {
        0
    }
}

/// A sequence made of two holds whatever either part holds.
broadcast proof fn lemma_concat_contains(a: Seq<Seq<char>>, b: Seq<Seq<char>>, x: Seq<char>)
    requires
        a.contains(x) || b.contains(x),
    ensures
        #[trigger] (a + b).contains(x),
{
    if a.contains(x) {
        let i = choose|i: int| 0 <= i < a.len() && a[i] == x;
        assert((a + b)[i] == x);
    } else {
        let j = choose|j: int| 0 <= j < b.len() && b[j] == x;
        assert((a + b)[a.len() + j] == x);
    }
}

proof fn lemma_opt_param_has(name: Seq<char>, o: Option<Seq<char>>)
    ensures
        o matches Some(v) ==> opt_param(name, o).contains(name + v),
{
    if let Some(v) = o {
        assert(opt_param(name, o)[0] == name + v);
    }
}

proof fn lemma_opt_param_u64_has(name: Seq<char>, o: Option<u64>)
    ensures
        o matches Some(n) ==> opt_param_u64(name, o).contains(name + decimal(n as nat)),
{
    if let Some(n) = o {
        assert(opt_param_u64(name, o)[0] == name + decimal(n as nat));
    }
}

/// Each filter that is set is sent under its own parameter name, and the
/// query has one parameter per filter set and no other.
pub proof fn law_each_filter_under_its_own_name(f: TaskFilters)
    ensures
        f.uids matches Some(v) ==> task_filter_params(f).contains("uids="@ + v@),
        f.statuses matches Some(v) ==> task_filter_params(f).contains("statuses="@ + v@),
        f.types matches Some(v) ==> task_filter_params(f).contains("types="@ + v@),
        f.index_uids matches Some(v) ==> task_filter_params(f).contains("indexUids="@ + v@),
        f.canceled_by matches Some(v) ==> task_filter_params(f).contains("canceledBy="@ + v@),
        f.before_enqueued_at matches Some(v) ==> task_filter_params(f).contains("beforeEnqueuedAt="@ + v@),
        f.after_enqueued_at matches Some(v) ==> task_filter_params(f).contains("afterEnqueuedAt="@ + v@),
        f.before_started_at matches Some(v) ==> task_filter_params(f).contains("beforeStartedAt="@ + v@),
        f.after_started_at matches Some(v) ==> task_filter_params(f).contains("afterStartedAt="@ + v@),
        f.before_finished_at matches Some(v) ==> task_filter_params(f).contains("beforeFinishedAt="@ + v@),
        f.after_finished_at matches Some(v) ==> task_filter_params(f).contains("afterFinishedAt="@ + v@),
        f.from matches Some(n) ==> task_filter_params(f).contains("from="@ + decimal(n as nat)),
        f.limit matches Some(n) ==> task_filter_params(f).contains("limit="@ + decimal(n as nat)),
        task_filter_params(f).len() == set_count(f.uids is Some) + set_count(f.statuses is Some) + set_count(f.types is Some) + set_count(f.index_uids is Some) + set_count(f.canceled_by is Some) + set_count(f.before_enqueued_at is Some) + set_count(f.after_enqueued_at is Some) + set_count(f.before_started_at is Some) + set_count(f.after_started_at is Some) + set_count(f.before_finished_at is Some) + set_count(f.after_finished_at is Some) + set_count(f.from is Some) + set_count(f.limit is Some),
{
    broadcast use lemma_concat_contains;

    lemma_opt_param_has("uids="@, opt_text(f.uids));
    lemma_opt_param_has("statuses="@, opt_text(f.statuses));
    lemma_opt_param_has("types="@, opt_text(f.types));
    lemma_opt_param_has("indexUids="@, opt_text(f.index_uids));
    lemma_opt_param_has("canceledBy="@, opt_text(f.canceled_by));
    lemma_opt_param_has("beforeEnqueuedAt="@, opt_text(f.before_enqueued_at));
    lemma_opt_param_has("afterEnqueuedAt="@, opt_text(f.after_enqueued_at));
    lemma_opt_param_has("beforeStartedAt="@, opt_text(f.before_started_at));
    lemma_opt_param_has("afterStartedAt="@, opt_text(f.after_started_at));
    lemma_opt_param_has("beforeFinishedAt="@, opt_text(f.before_finished_at));
    lemma_opt_param_has("afterFinishedAt="@, opt_text(f.after_finished_at));
    lemma_opt_param_u64_has("from="@, f.from);
    lemma_opt_param_u64_has("limit="@, f.limit);
}

/// A task in a final state, succeeded, failed or canceled, ends the wait on
/// the poll that sees it; a task still enqueued or processing, or one with
/// no status, does not.
pub proof fn law_final_states_end_the_wait(task: Json)
    ensures
        task.str_at("status"@) == Some("succeeded"@) ==> terminal_status(task_status(task)),
        task.str_at("status"@) == Some("failed"@) ==> terminal_status(task_status(task)),
        task.str_at("status"@) == Some("canceled"@) ==> terminal_status(task_status(task)),
        task.str_at("status"@) == Some("enqueued"@) ==> !terminal_status(task_status(task)),
        task.str_at("status"@) == Some("processing"@) ==> !terminal_status(task_status(task)),
        task.str_at("status"@) is None ==> !terminal_status(task_status(task)),
{
    reveal_strlit("succeeded");
    reveal_strlit("failed");
    reveal_strlit("canceled");
    reveal_strlit("enqueued");
    reveal_strlit("processing");
    reveal_strlit("unknown");
    assert("enqueued"@.len() != "succeeded"@.len() && "enqueued"@.len() != "failed"@.len());
    assert("enqueued"@[0] != "canceled"@[0]);
    assert("processing"@.len() != "succeeded"@.len() && "processing"@.len() != "failed"@.len()
        && "processing"@.len() != "canceled"@.len());
    assert("unknown"@.len() != "succeeded"@.len() && "unknown"@.len() != "failed"@.len()
        && "unknown"@.len() != "canceled"@.len());
}

/// What waiting for a task does after one poll.
#[derive(PartialEq, Eq, Structural, Clone, Copy, Debug)]
pub enum WaitStep {
    /// The task is done: its document is the result.
    Finished,
    /// The time allowed is over.
    TimedOut,
    /// Poll again (after a pause).
    PollAgain,
}

/// Decides, after polling a task, whether waiting is over: finished when the
/// task is in a final state, timed out once more than `timeout_ms` have passed.
pub fn wait_step(task: &Json, elapsed_ms: u64, timeout_ms: u64) -> (r: WaitStep)
    ensures
        r == (if terminal_status(task_status(*task)) {
            WaitStep::Finished
        } else if elapsed_ms > timeout_ms {
            WaitStep::TimedOut
        } else {
            WaitStep::PollAgain
        }),
{
    if is_terminal_status(status_of(task)) {
        WaitStep::Finished
    } else if elapsed_ms > timeout_ms {
        WaitStep::TimedOut
    } else {
        WaitStep::PollAgain
    }
}

} // verus!
