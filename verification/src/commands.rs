//! The commands of the command line, and the decisions they make between
//! reading their input and talking to the server.
use vstd::prelude::*;

use crate::client::TaskFilters;
use crate::json::{names_of, Json};
use crate::text::{decimal, texts};

verus! {

/// `msc batch …`
pub enum BatchCommand {
    /// List batches
    List {
        limit: Option<u64>,
        from: Option<u64>,
        uids: Option<String>,
        index_uids: Option<String>,
        statuses: Option<String>,
        types: Option<String>,
    },
    /// Get a batch by UID
    Get { uid: u64 },
}

/// `msc chat …`
pub struct ChatArgs {
    /// Chat message
    pub message: Option<String>,
    /// Workspace UID
    pub workspace: String,
    /// Model to use (passed through to the LLM provider)
    pub model: Option<String>,
    /// Interactive mode
    pub interactive: bool,
}

/// `msc clone …`
pub struct CloneArgs {
    pub source_uid: String,
    pub dest_uid: String,
    /// Source project
    pub from: Option<String>,
    /// Destination project
    pub to: Option<String>,
}

/// `msc document …`
#[allow(inconsistent_fields)]
pub enum DocumentCommand {
    /// Add or replace documents
    Add { uid: String, file: Option<String>, primary_key: Option<String> },
    /// Add or update documents (partial update)
    Update { uid: String, file: Option<String>, primary_key: Option<String> },
    /// Get a single document
    Get { uid: String, id: String },
    /// List documents
    List { uid: String, offset: Option<u64>, limit: Option<u64>, fields: Option<String> },
    /// Fetch documents with POST (supports filter)
    Fetch {
        uid: String,
        filter: Option<String>,
        offset: Option<u64>,
        limit: Option<u64>,
        fields: Option<Vec<String>>,
    },
    /// Delete a single document
    Delete { uid: String, id: String },
    /// Delete all documents
    DeleteAll { uid: String },
    /// Delete documents matching a filter
    DeleteByFilter { uid: String, filter: String },
    /// Delete documents by batch of IDs
    DeleteBatch { uid: String, ids: Vec<String> },
    /// Edit documents by function
    Edit { uid: String, function: String, filter: Option<String> },
}

/// `msc dump …`
pub enum DumpCommand {
    Create,
    Snapshot,
}

/// `msc experimental …`
pub enum ExperimentalCommand {
    Get,
    /// Configure experimental features (JSON from a file or stdin)
    Update { file: Option<String> },
}

/// `msc import …`
pub struct ImportArgs {
    pub uid: String,
    pub file: Option<String>,
    pub primary_key: Option<String>,
    /// Batch size in bytes
    pub batch_size: usize,
}

/// `msc index …`
pub enum IndexCommand {
    List { offset: Option<u64>, limit: Option<u64> },
    Create { uid: String, primary_key: Option<String> },
    Get { uid: String },
    Delete { uid: String },
    Stats { uid: String },
    Update { uid: String, primary_key: Option<String> },
    Swap { index_a: String, index_b: String },
}

/// `msc key …`
pub enum KeyCommand {
    List,
    Get { key: String },
    Create {
        actions: Vec<String>,
        indexes: Vec<String>,
        description: Option<String>,
        expires_at: Option<String>,
    },
    Update { key: String, description: Option<String>, name: Option<String> },
    Delete { key: String },
}

/// `msc local …`
pub enum LocalCommand {
    Start,
    Stop,
    Restart,
    Status,
    Logs { follow: bool },
    Reset,
    Upgrade,
}

/// `msc log …`
pub enum LogCommand {
    Stderr { target: String },
    Stream { target: String, mode: Option<String> },
    Stop,
}

/// `msc network …`
pub enum NetworkCommand {
    Get,
    Update { file: Option<String> },
}

/// `msc project …`
pub enum ProjectCommand {
    Add { name: String, url: Option<String>, api_key: Option<String> },
    Remove { name: String },
    List,
    Use { name: String },
    Current,
}

/// `msc promote …`
pub struct PromoteArgs {
    /// Source project
    pub from: String,
    /// Destination project
    pub to: String,
    /// Only promote these indexes
    pub indexes: Option<Vec<String>>,
    pub dry_run: bool,
    /// Create destination indexes if they don't exist
    pub create: bool,
}

/// `msc search …`
pub struct SearchArgs {
    pub uid: String,
    pub query: Option<String>,
    pub filter: Option<String>,
    pub facets: Option<Vec<String>>,
    pub limit: Option<u64>,
    pub offset: Option<u64>,
    pub sort: Option<Vec<String>>,
    pub attributes_to_retrieve: Option<Vec<String>>,
    pub attributes_to_highlight: Option<Vec<String>>,
    pub interactive: bool,
}

/// `msc multi-search …`
pub struct MultiSearchArgs {
    /// JSON file holding the queries (stdin when absent)
    pub file: Option<String>,
}

/// `msc facet-search …`
pub struct FacetSearchArgs {
    pub uid: String,
    pub facet_name: String,
    pub facet_query: Option<String>,
    pub filter: Option<String>,
}

/// `msc similar …`
pub struct SimilarArgs {
    pub uid: String,
    pub id: String,
    pub limit: Option<u64>,
    pub filter: Option<String>,
}

/// `msc settings …`
pub enum SettingsCommand {
    Get { uid: String, sub_resource: Option<String> },
    Update { uid: String, sub_resource: Option<String>, file: Option<String> },
    Reset { uid: String, sub_resource: Option<String> },
    /// Edit the settings as JSON in an editor, or in the interactive view
    Edit { uid: String, sub_resource: Option<String>, interactive: bool },
    Diff { uid: String },
}

/// `msc task …`
pub enum TaskCommand {
    /// List tasks
    List {
        uids: Option<String>,
        statuses: Option<String>,
        types: Option<String>,
        index_uids: Option<String>,
        canceled_by: Option<String>,
        before_enqueued_at: Option<String>,
        after_enqueued_at: Option<String>,
        before_started_at: Option<String>,
        after_started_at: Option<String>,
        before_finished_at: Option<String>,
        after_finished_at: Option<String>,
        from: Option<u64>,
        limit: Option<u64>,
    },
    /// Get a task by ID
    Get { id: u64 },
    /// Cancel tasks matching filters
    Cancel {
        uids: Option<String>,
        statuses: Option<String>,
        types: Option<String>,
        index_uids: Option<String>,
        canceled_by: Option<String>,
        before_enqueued_at: Option<String>,
        after_enqueued_at: Option<String>,
        before_started_at: Option<String>,
        after_started_at: Option<String>,
        before_finished_at: Option<String>,
        after_finished_at: Option<String>,
    },
    /// Delete tasks matching filters
    Delete {
        uids: Option<String>,
        statuses: Option<String>,
        types: Option<String>,
        index_uids: Option<String>,
        canceled_by: Option<String>,
        before_enqueued_at: Option<String>,
        after_enqueued_at: Option<String>,
        before_started_at: Option<String>,
        after_started_at: Option<String>,
        before_finished_at: Option<String>,
        after_finished_at: Option<String>,
    },
    /// Wait for a task to complete
    Wait { id: u64, timeout: u64 },
    /// Watch a task until completion
    Watch { id: u64 },
}

impl TaskCommand {
    /// The filters of a listing, cancelling or deleting command (empty
    /// for the others).
    pub open spec fn filters_spec(&self) -> TaskFilters {
        match self {
            TaskCommand::List { uids, statuses, types, index_uids, canceled_by, before_enqueued_at, after_enqueued_at, before_started_at, after_started_at, before_finished_at, after_finished_at, from, limit } => TaskFilters {
                uids: *uids,
                statuses: *statuses,
                types: *types,
                index_uids: *index_uids,
                canceled_by: *canceled_by,
                before_enqueued_at: *before_enqueued_at,
                after_enqueued_at: *after_enqueued_at,
                before_started_at: *before_started_at,
                after_started_at: *after_started_at,
                before_finished_at: *before_finished_at,
                after_finished_at: *after_finished_at,
                from: *from,
                limit: *limit,
            },
            TaskCommand::Cancel { uids, statuses, types, index_uids, canceled_by, before_enqueued_at, after_enqueued_at, before_started_at, after_started_at, before_finished_at, after_finished_at } => TaskFilters {
                uids: *uids,
                statuses: *statuses,
                types: *types,
                index_uids: *index_uids,
                canceled_by: *canceled_by,
                before_enqueued_at: *before_enqueued_at,
                after_enqueued_at: *after_enqueued_at,
                before_started_at: *before_started_at,
                after_started_at: *after_started_at,
                before_finished_at: *before_finished_at,
                after_finished_at: *after_finished_at,
                from: None,
                limit: None,
            },
            TaskCommand::Delete { uids, statuses, types, index_uids, canceled_by, before_enqueued_at, after_enqueued_at, before_started_at, after_started_at, before_finished_at, after_finished_at } => TaskFilters {
                uids: *uids,
                statuses: *statuses,
                types: *types,
                index_uids: *index_uids,
                canceled_by: *canceled_by,
                before_enqueued_at: *before_enqueued_at,
                after_enqueued_at: *after_enqueued_at,
                before_started_at: *before_started_at,
                after_started_at: *after_started_at,
                before_finished_at: *before_finished_at,
                after_finished_at: *after_finished_at,
                from: None,
                limit: None,
            },
            _ => TaskFilters {
                uids: None,
                statuses: None,
                types: None,
                index_uids: None,
                canceled_by: None,
                before_enqueued_at: None,
                after_enqueued_at: None,
                before_started_at: None,
                after_started_at: None,
                before_finished_at: None,
                after_finished_at: None,
                from: None,
                limit: None,
            },
        }
    }
}

/// A copy of an optional string.
pub fn copy_opt(o: &Option<String>) -> (r: Option<String>)
    ensures
        r == *o,
{
    match o {
        Some(s) => Some(s.clone()),
        None => None,
    }
}

impl TaskCommand {
    /// The filters a listing, cancelling or deleting command sends (`from`
    /// and `limit` only for a listing); `None` for the other commands.
    pub fn filters(&self) -> (r: Option<TaskFilters>)
        ensures
            match self {
                TaskCommand::List { uids, statuses, types, index_uids, canceled_by, before_enqueued_at, after_enqueued_at, before_started_at, after_started_at, before_finished_at, after_finished_at, from, limit } => r == Some(
                    TaskFilters {
                        uids: *uids,
                        statuses: *statuses,
                        types: *types,
                        index_uids: *index_uids,
                        canceled_by: *canceled_by,
                        before_enqueued_at: *before_enqueued_at,
                        after_enqueued_at: *after_enqueued_at,
                        before_started_at: *before_started_at,
                        after_started_at: *after_started_at,
                        before_finished_at: *before_finished_at,
                        after_finished_at: *after_finished_at,
                        from: *from,
                        limit: *limit,
                    },
                ),
                TaskCommand::Cancel { uids, statuses, types, index_uids, canceled_by, before_enqueued_at, after_enqueued_at, before_started_at, after_started_at, before_finished_at, after_finished_at } => r == Some(
                    TaskFilters {
                        uids: *uids,
                        statuses: *statuses,
                        types: *types,
                        index_uids: *index_uids,
                        canceled_by: *canceled_by,
                        before_enqueued_at: *before_enqueued_at,
                        after_enqueued_at: *after_enqueued_at,
                        before_started_at: *before_started_at,
                        after_started_at: *after_started_at,
                        before_finished_at: *before_finished_at,
                        after_finished_at: *after_finished_at,
                        from: None,
                        limit: None,
                    },
                ),
                TaskCommand::Delete { uids, statuses, types, index_uids, canceled_by, before_enqueued_at, after_enqueued_at, before_started_at, after_started_at, before_finished_at, after_finished_at } => r == Some(
                    TaskFilters {
                        uids: *uids,
                        statuses: *statuses,
                        types: *types,
                        index_uids: *index_uids,
                        canceled_by: *canceled_by,
                        before_enqueued_at: *before_enqueued_at,
                        after_enqueued_at: *after_enqueued_at,
                        before_started_at: *before_started_at,
                        after_started_at: *after_started_at,
                        before_finished_at: *before_finished_at,
                        after_finished_at: *after_finished_at,
                        from: None,
                        limit: None,
                    },
                ),
                _ => r is None,
            },
    {
        match self {
            TaskCommand::List { uids, statuses, types, index_uids, canceled_by, before_enqueued_at, after_enqueued_at, before_started_at, after_started_at, before_finished_at, after_finished_at, from, limit } => Some(
                TaskFilters {
                        uids: copy_opt(uids),
                        statuses: copy_opt(statuses),
                        types: copy_opt(types),
                        index_uids: copy_opt(index_uids),
                        canceled_by: copy_opt(canceled_by),
                        before_enqueued_at: copy_opt(before_enqueued_at),
                        after_enqueued_at: copy_opt(after_enqueued_at),
                        before_started_at: copy_opt(before_started_at),
                        after_started_at: copy_opt(after_started_at),
                        before_finished_at: copy_opt(before_finished_at),
                        after_finished_at: copy_opt(after_finished_at),
                        from: *from,
                        limit: *limit,
                    },
            ),
            TaskCommand::Cancel { uids, statuses, types, index_uids, canceled_by, before_enqueued_at, after_enqueued_at, before_started_at, after_started_at, before_finished_at, after_finished_at } => Some(
                TaskFilters {
                        uids: copy_opt(uids),
                        statuses: copy_opt(statuses),
                        types: copy_opt(types),
                        index_uids: copy_opt(index_uids),
                        canceled_by: copy_opt(canceled_by),
                        before_enqueued_at: copy_opt(before_enqueued_at),
                        after_enqueued_at: copy_opt(after_enqueued_at),
                        before_started_at: copy_opt(before_started_at),
                        after_started_at: copy_opt(after_started_at),
                        before_finished_at: copy_opt(before_finished_at),
                        after_finished_at: copy_opt(after_finished_at),
                        from: None,
                        limit: None,
                    },
            ),
            TaskCommand::Delete { uids, statuses, types, index_uids, canceled_by, before_enqueued_at, after_enqueued_at, before_started_at, after_started_at, before_finished_at, after_finished_at } => Some(
                TaskFilters {
                        uids: copy_opt(uids),
                        statuses: copy_opt(statuses),
                        types: copy_opt(types),
                        index_uids: copy_opt(index_uids),
                        canceled_by: copy_opt(canceled_by),
                        before_enqueued_at: copy_opt(before_enqueued_at),
                        after_enqueued_at: copy_opt(after_enqueued_at),
                        before_started_at: copy_opt(before_started_at),
                        after_started_at: copy_opt(after_started_at),
                        before_finished_at: copy_opt(before_finished_at),
                        after_finished_at: copy_opt(after_finished_at),
                        from: None,
                        limit: None,
                    },
            ),
            _ => None,
        }
    }
}

/// The body of `document fetch`: each option that is given, under its key
/// (`fields`, `filter`, `limit`, `offset`, in that order).
pub open spec fn is_fetch_body(
    b: Json,
    filter: Option<Seq<char>>,
    offset: Option<u64>,
    limit: Option<u64>,
    fields: Option<Seq<Seq<char>>>,
) -> bool {
    &&& names_of(b) == crate::json::opt_name("fields"@, fields is Some) + crate::json::opt_name(
        "filter"@,
        filter is Some,
    ) + crate::json::opt_name("limit"@, limit is Some) + crate::json::opt_name("offset"@, offset is Some)
    &&& b.str_at("filter"@) == filter
    &&& b.u64_at("offset"@) == offset
    &&& b.u64_at("limit"@) == limit
    &&& crate::json::str_items_at(b, "fields"@) == fields
}

/// The keys of a fetch body, character by character.
proof fn lemma_fetch_keys()
    ensures
        "fields"@ == seq!['f', 'i', 'e', 'l', 'd', 's'],
        "filter"@ == seq!['f', 'i', 'l', 't', 'e', 'r'],
        "limit"@ == seq!['l', 'i', 'm', 'i', 't'],
        "offset"@ == seq!['o', 'f', 'f', 's', 'e', 't'],
{
    reveal_strlit("fields");
    reveal_strlit("filter");
    reveal_strlit("limit");
    reveal_strlit("offset");
}


/// The body of `document fetch`.
pub fn fetch_body(
    filter: Option<&str>,
    offset: Option<u64>,
    limit: Option<u64>,
    fields: Option<&Vec<String>>,
) -> (r: Json)
    ensures
        is_fetch_body(
            r,
            crate::text::opt_str(filter),
            offset,
            limit,
            match fields {
                Some(f) => Some(texts(f@)),
                None => None,
            },
        ),
{
    proof {
        lemma_fetch_keys();
    }
    let f = match fields {
        Some(v) => Some(Json::from_strs(v.as_slice())),
        None => None,
    };
    let fi = match filter {
        Some(t) => Some(Json::from_str(t)),
        None => None,
    };
    let l = match limit {
        Some(n) => Some(Json::from_u64(n)),
        None => None,
    };
    let o = match offset {
        Some(n) => Some(Json::from_u64(n)),
        None => None,
    };
    let m = crate::json::with_member(Vec::new(), "fields", f);
    let m = crate::json::with_member(m, "filter", fi);
    let m = crate::json::with_member(m, "limit", l);
    let m = crate::json::with_member(m, "offset", o);
    let r = Json::Object(m);
    assert(names_of(r) == crate::json::member_names(m@));
    r
}

/// The ids of `document delete-batch`, as JSON strings.
pub fn document_ids(ids: &Vec<String>) -> (r: Vec<Json>)
    ensures
        r@.len() == ids@.len(),
        forall|i: int| 0 <= i < ids@.len() ==> (#[trigger] r@[i]).spec_as_str() == Some(ids@[i]@),
{
    let mut out: Vec<Json> = Vec::new();
    let mut i: usize = 0;
    while i < ids.len()
        invariant
            i <= ids@.len(),
            out@.len() == i,
            forall|k: int| 0 <= k < i ==> (#[trigger] out@[k]).spec_as_str() == Some(ids@[k]@),
        decreases ids@.len() - i,
    {
        out.push(Json::from_str(ids[i].as_str()));
        i = i + 1;
    }
    out
}

/// The status of a task (`unknown` when it has none).
pub open spec fn status_text(task: Json) -> Seq<char> {
    match task.str_at("status"@) {
        Some(s) => s,
        None => "unknown"@,
    }
}

/// The message of a task's error (`unknown error` when it has none).
pub open spec fn error_text(task: Json) -> Seq<char> {
    match task.spec_get("error"@) {
        Some(e) => match e.str_at("message"@) {
            Some(m) => m,
            None => "unknown error"@,
        },
        None => "unknown error"@,
    }
}

/// Why an import stops: its task `uid` failed.
pub fn task_failure_message(uid: u64, task: &Json) -> (r: Option<String>)
    ensures
        status_text(*task) == "failed"@ ==> (r matches Some(m) && m@ == "Task "@ + decimal(uid as nat)
            + " failed: "@ + error_text(*task)),
        status_text(*task) != "failed"@ ==> r is None,
{
    let status: &str = match task.get_str("status") {
        Some(s) => s,
        None => "unknown",
    };
    if !crate::text::str_eq(status, "failed") {
        return None;
    }
    let msg: &str = match task.get("error") {
        Some(e) => match e.get_str("message") {
            Some(m) => m,
            None => "unknown error",
        },
        None => "unknown error",
    };
    let mut r = String::from_str("Task ");
    let n = crate::text::u64_to_string(uid);
    r.append(n.as_str());
    r.append(" failed: ");
    r.append(msg);
    Some(r)
}

/// The progress line of `task watch`.
pub fn watch_line(id: u64, task: &Json) -> (r: String)
    ensures
        r@ == "\r"@ + decimal(id as nat) + " — "@ + match task.str_at("type"@) {
            Some(t) => t,
            None => "unknown"@,
        } + " ["@ + status_text(*task) + "]   "@,
{
    let status: &str = match task.get_str("status") {
        Some(s) => s,
        None => "unknown",
    };
    let kind: &str = match task.get_str("type") {
        Some(s) => s,
        None => "unknown",
    };
    let mut r = String::from_str("\r");
    let n = crate::text::u64_to_string(id);
    r.append(n.as_str());
    r.append(" — ");
    r.append(kind);
    r.append(" [");
    r.append(status);
    r.append("]   ");
    r
}

/// The line `version` prints about the server.
pub fn server_version_line(version: &Json) -> (r: String)
    ensures
        r@ == "meilisearch server "@ + match version.str_at("pkgVersion"@) {
            Some(v) => v,
            None => "unknown"@,
        },
{
    let v: &str = match version.get_str("pkgVersion") {
        Some(v) => v,
        None => "unknown",
    };
    let mut r = String::from_str("meilisearch server ");
    r.append(v);
    r
}

} // verus!
