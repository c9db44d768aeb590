//! The request each command sends, built from its arguments.
use vstd::prelude::*;

use crate::api::{body_names, body_str, body_strs, body_u64, json_body, json_request, opt_texts, plain_request};
use crate::client::{task_filter_params, Body, MeiliClient, Method, Request};
use crate::commands::{
    document_ids, fetch_body, is_fetch_body, BatchCommand, DocumentCommand, DumpCommand, FacetSearchArgs,
    ExperimentalCommand, IndexCommand, KeyCommand, LogCommand, NetworkCommand, SearchArgs, SettingsCommand,
    SimilarArgs, TaskCommand,
};
use crate::import::{content_type_of, document_content_type, path_extension};
use crate::json::{member_names, opt_name, str_items, Json};
use crate::text::{decimal, opt_as_str, opt_param, opt_param_u64, opt_text, query_text, texts};

verus! {

/// The texts of an optional list of strings.
pub open spec fn opt_vec_texts(o: Option<Vec<String>>) -> Option<Seq<Seq<char>>> {
    match o {
        Some(v) => Some(texts(v@)),
        None => None,
    }
}

fn opt_slice(o: &Option<Vec<String>>) -> (r: Option<&[String]>)
    ensures
        opt_texts(r) == opt_vec_texts(*o),
        r is Some == o is Some,
{
    match o {
        Some(v) => Some(v.as_slice()),
        None => None,
    }
}

impl IndexCommand {
    /// The request of an `index` command.
    pub fn request(&self, client: &MeiliClient) -> (r: Request)
        ensures
            match self {
                IndexCommand::List { offset, limit } => plain_request(
                    r,
                    Method::Get,
                    client.base_url@ + "/indexes"@ + query_text(
                        opt_param_u64("offset="@, *offset) + opt_param_u64("limit="@, *limit),
                    ),
                ),
                IndexCommand::Create { uid, primary_key } => {
                    &&& json_request(r, Method::Post, client.base_url@ + "/indexes"@)
                    &&& body_names(r) == seq!["uid"@] + opt_name("primaryKey"@, primary_key is Some)
                    &&& body_str(r, "uid"@) == Some(uid@)
                    &&& body_str(r, "primaryKey"@) == opt_text(*primary_key)
                },
                IndexCommand::Get { uid } => plain_request(r, Method::Get, client.base_url@ + "/indexes/"@ + uid@),
                IndexCommand::Delete { uid } => plain_request(r, Method::Delete, client.base_url@ + "/indexes/"@ + uid@),
                IndexCommand::Stats { uid } => plain_request(
                    r,
                    Method::Get,
                    client.base_url@ + "/indexes/"@ + uid@ + "/stats"@,
                ),
                IndexCommand::Update { uid, primary_key } => {
                    &&& json_request(r, Method::Patch, client.base_url@ + "/indexes/"@ + uid@)
                    &&& body_names(r) == opt_name("primaryKey"@, primary_key is Some)
                    &&& body_str(r, "primaryKey"@) == opt_text(*primary_key)
                },
                IndexCommand::Swap { index_a, index_b } => {
                    &&& json_request(r, Method::Post, client.base_url@ + "/swap-indexes"@)
                    &&& json_body(r) matches crate::json::Json::Array(items) && items@.len() == 1 && {
                        let item = items@[0];
                        &&& item is Object
                        &&& member_names(item->Object_0@) == seq!["indexes"@]
                        &&& item.spec_get("indexes"@) matches Some(pair) && str_items(pair) == Some(
                            seq![index_a@, index_b@],
                        )
                    }
                },
            },
    {
        match self {
            IndexCommand::List { offset, limit } => client.list_indexes(*offset, *limit),
            IndexCommand::Create { uid, primary_key } => client.create_index(uid.as_str(), opt_as_str(primary_key)),
            IndexCommand::Get { uid } => client.get_index(uid.as_str()),
            IndexCommand::Delete { uid } => client.delete_index(uid.as_str()),
            IndexCommand::Stats { uid } => client.index_stats(uid.as_str()),
            IndexCommand::Update { uid, primary_key } => client.update_index(uid.as_str(), opt_as_str(primary_key)),
            IndexCommand::Swap { index_a, index_b } => {
                let mut swaps: Vec<(String, String)> = Vec::new();
                swaps.push((index_a.clone(), index_b.clone()));
                let r = client.swap_indexes(swaps.as_slice());
                assert(swaps@[0].0@ == index_a@ && swaps@[0].1@ == index_b@);
                r
            },
        }
    }
}

/// The `?primaryKey=` part of a documents URL (nothing without a key).
pub open spec fn pk_query(pk: Option<String>) -> Seq<char> {
    match pk {
        Some(k) => "?primaryKey="@ + k@,
        None => Seq::empty(),
    }
}

/// The content type of documents read from `file` (JSON from standard input).
pub open spec fn documents_content_type(file: Option<String>) -> Seq<char> {
    match file {
        Some(p) => content_type_of(path_extension(p@)),
        None => "application/json"@,
    }
}

/// A request that sends `data` raw, as documents of the given content type.
pub open spec fn raw_documents(r: Request, method: Method, url: Seq<char>, data: Seq<u8>, content_type: Seq<char>) -> bool {
    &&& r.method == method
    &&& r.url@ == url
    &&& r.body matches Body::Raw { bytes, content_type: ct } && bytes@ == data && ct@ == content_type
}

impl DocumentCommand {
    /// The request of a `document` command. `data` is what `add` and
    /// `update` read from their file or from standard input; the other
    /// commands leave it unused.
    pub fn request(&self, client: &MeiliClient, data: Vec<u8>) -> (r: Request)
        ensures
            match self {
                DocumentCommand::Add { uid, file, primary_key } => raw_documents(
                    r,
                    Method::Post,
                    client.base_url@ + "/indexes/"@ + uid@ + "/documents"@ + pk_query(*primary_key),
                    data@,
                    documents_content_type(*file),
                ),
                DocumentCommand::Update { uid, file, primary_key } => raw_documents(
                    r,
                    Method::Put,
                    client.base_url@ + "/indexes/"@ + uid@ + "/documents"@ + pk_query(*primary_key),
                    data@,
                    documents_content_type(*file),
                ),
                DocumentCommand::Get { uid, id } => plain_request(
                    r,
                    Method::Get,
                    client.base_url@ + "/indexes/"@ + uid@ + "/documents/"@ + id@,
                ),
                DocumentCommand::List { uid, offset, limit, fields } => plain_request(
                    r,
                    Method::Get,
                    client.base_url@ + "/indexes/"@ + uid@ + "/documents"@ + query_text(
                        opt_param_u64("offset="@, *offset) + opt_param_u64("limit="@, *limit) + opt_param(
                            "fields="@,
                            opt_text(*fields),
                        ),
                    ),
                ),
                DocumentCommand::Fetch { uid, filter, offset, limit, fields } => {
                    &&& r.method == Method::Post
                    &&& r.url@ == client.base_url@ + "/indexes/"@ + uid@ + "/documents/fetch"@
                    &&& r.body matches Body::Json(b) && is_fetch_body(b, opt_text(*filter), *offset, *limit, opt_vec_texts(*fields))
                },
                DocumentCommand::Delete { uid, id } => plain_request(
                    r,
                    Method::Delete,
                    client.base_url@ + "/indexes/"@ + uid@ + "/documents/"@ + id@,
                ),
                DocumentCommand::DeleteAll { uid } => plain_request(
                    r,
                    Method::Delete,
                    client.base_url@ + "/indexes/"@ + uid@ + "/documents"@,
                ),
                DocumentCommand::DeleteByFilter { uid, filter } => {
                    &&& json_request(r, Method::Post, client.base_url@ + "/indexes/"@ + uid@ + "/documents/delete"@)
                    &&& body_names(r) == seq!["filter"@]
                    &&& body_str(r, "filter"@) == Some(filter@)
                },
                DocumentCommand::DeleteBatch { uid, ids } => {
                    &&& r.method == Method::Post
                    &&& r.url@ == client.base_url@ + "/indexes/"@ + uid@ + "/documents/delete-batch"@
                    &&& r.body matches Body::Json(Json::Array(items)) && items@.len() == ids@.len() && forall|i: int|
                        0 <= i < ids@.len() ==> (#[trigger] items@[i]).spec_as_str() == Some(ids@[i]@)
                },
                DocumentCommand::Edit { uid, function, filter } => {
                    &&& json_request(r, Method::Post, client.base_url@ + "/indexes/"@ + uid@ + "/documents/edit"@)
                    &&& body_names(r) == seq!["function"@] + opt_name("filter"@, filter is Some)
                    &&& body_str(r, "function"@) == Some(function@)
                    &&& body_str(r, "filter"@) == opt_text(*filter)
                },
            },
    {
        match self {
            DocumentCommand::Add { uid, file, primary_key } => {
                let ct = document_content_type(opt_as_str(file));
                let pk = opt_as_str(primary_key);
                client.add_documents_raw(uid.as_str(), data, ct, pk)
            },
            DocumentCommand::Update { uid, file, primary_key } => {
                let ct = document_content_type(opt_as_str(file));
                let pk = opt_as_str(primary_key);
                client.add_or_update_documents_raw(uid.as_str(), data, ct, pk)
            },
            DocumentCommand::Get { uid, id } => client.get_document(uid.as_str(), id.as_str()),
            DocumentCommand::List { uid, offset, limit, fields } => client.get_documents(
                uid.as_str(),
                *offset,
                *limit,
                opt_as_str(fields),
            ),
            DocumentCommand::Fetch { uid, filter, offset, limit, fields } => {
                let f = match fields {
                    Some(v) => Some(v),
                    None => None,
                };
                let body = fetch_body(opt_as_str(filter), *offset, *limit, f);
                client.fetch_documents(uid.as_str(), body)
            },
            DocumentCommand::Delete { uid, id } => client.delete_document(uid.as_str(), id.as_str()),
            DocumentCommand::DeleteAll { uid } => client.delete_all_documents(uid.as_str()),
            DocumentCommand::DeleteByFilter { uid, filter } => client.delete_documents_by_filter(
                uid.as_str(),
                filter.as_str(),
            ),
            DocumentCommand::DeleteBatch { uid, ids } => client.delete_documents_batch(uid.as_str(), document_ids(ids)),
            DocumentCommand::Edit { uid, function, filter } => client.edit_documents(
                uid.as_str(),
                function.as_str(),
                opt_as_str(filter),
            ),
        }
    }
}

impl NetworkCommand {
    /// The request of a `network` command; `input` is the JSON that
    /// `update` read from its file or from standard input.
    pub fn request(&self, client: &MeiliClient, input: Json) -> (r: Request)
        ensures
            match self {
                NetworkCommand::Get => plain_request(r, Method::Get, client.base_url@ + "/network"@),
                NetworkCommand::Update { .. } => r.method == Method::Patch && r.url@ == client.base_url@
                    + "/network"@ && r.body == Body::Json(input),
            },
    {
        match self {
            NetworkCommand::Get => client.get_network(),
            NetworkCommand::Update { .. } => client.update_network(input),
        }
    }
}

impl ExperimentalCommand {
    /// The request of an `experimental` command; `input` is the JSON that
    /// `update` read from its file or from standard input.
    pub fn request(&self, client: &MeiliClient, input: Json) -> (r: Request)
        ensures
            match self {
                ExperimentalCommand::Get => plain_request(
                    r,
                    Method::Get,
                    client.base_url@ + "/experimental-features"@,
                ),
                ExperimentalCommand::Update { .. } => r.method == Method::Patch && r.url@ == client.base_url@
                    + "/experimental-features"@ && r.body == Body::Json(input),
            },
    {
        match self {
            ExperimentalCommand::Get => client.get_experimental_features(),
            ExperimentalCommand::Update { .. } => client.update_experimental_features(input),
        }
    }
}

impl DumpCommand {
    /// The request of a `dump` command.
    pub fn request(&self, client: &MeiliClient) -> (r: Request)
        ensures
            match self {
                DumpCommand::Create => json_request(r, Method::Post, client.base_url@ + "/dumps"@),
                DumpCommand::Snapshot => json_request(r, Method::Post, client.base_url@ + "/snapshots"@),
            },
            body_names(r).len() == 0 && json_body(r) is Object,
    {
        match self {
            DumpCommand::Create => client.create_dump(),
            DumpCommand::Snapshot => client.create_snapshot(),
        }
    }
}

impl LogCommand {
    /// The request of a `log` command.
    pub fn request(&self, client: &MeiliClient) -> (r: Request)
        ensures
            match self {
                LogCommand::Stderr { target } => {
                    &&& json_request(r, Method::Post, client.base_url@ + "/logs/stderr"@)
                    &&& body_names(r) == seq!["target"@]
                    &&& body_str(r, "target"@) == Some(target@)
                },
                LogCommand::Stream { target, mode } => {
                    &&& json_request(r, Method::Post, client.base_url@ + "/logs/stream"@)
                    &&& body_names(r) == seq!["target"@] + opt_name("mode"@, mode is Some)
                    &&& body_str(r, "target"@) == Some(target@)
                    &&& body_str(r, "mode"@) == opt_text(*mode)
                },
                LogCommand::Stop => plain_request(r, Method::Delete, client.base_url@ + "/logs/stream"@),
            },
    {
        match self {
            LogCommand::Stderr { target } => client.update_log_stderr(target.as_str()),
            LogCommand::Stream { target, mode } => client.stream_logs(target.as_str(), opt_as_str(mode)),
            LogCommand::Stop => client.stop_log_stream(),
        }
    }
}

impl BatchCommand {
    /// The request of a `batch` command.
    pub fn request(&self, client: &MeiliClient) -> (r: Request)
        ensures
            match self {
                BatchCommand::List { limit, from, uids, index_uids, statuses, types } => plain_request(
                    r,
                    Method::Get,
                    client.base_url@ + "/batches"@ + query_text(
                        opt_param_u64("limit="@, *limit) + opt_param_u64("from="@, *from) + opt_param(
                            "uids="@,
                            opt_text(*uids),
                        ) + opt_param("indexUids="@, opt_text(*index_uids)) + opt_param(
                            "statuses="@,
                            opt_text(*statuses),
                        ) + opt_param("types="@, opt_text(*types)),
                    ),
                ),
                BatchCommand::Get { uid } => plain_request(
                    r,
                    Method::Get,
                    client.base_url@ + "/batches/"@ + decimal(*uid as nat),
                ),
            },
    {
        match self {
            BatchCommand::List { limit, from, uids, index_uids, statuses, types } => client.list_batches(
                *limit,
                *from,
                opt_as_str(uids),
                opt_as_str(index_uids),
                opt_as_str(statuses),
                opt_as_str(types),
            ),
            BatchCommand::Get { uid } => client.get_batch(*uid),
        }
    }
}

impl KeyCommand {
    /// The request of a `key` command.
    pub fn request(&self, client: &MeiliClient) -> (r: Request)
        ensures
            match self {
                KeyCommand::List => plain_request(r, Method::Get, client.base_url@ + "/keys"@),
                KeyCommand::Get { key } => plain_request(r, Method::Get, client.base_url@ + "/keys/"@ + key@),
                KeyCommand::Create { actions, indexes, description, expires_at } => {
                    &&& json_request(r, Method::Post, client.base_url@ + "/keys"@)
                    &&& body_names(r) == seq!["actions"@, "indexes"@] + opt_name(
                        "description"@,
                        description is Some,
                    ) + seq!["expiresAt"@]
                    &&& body_strs(r, "actions"@) == Some(texts(actions@))
                    &&& body_strs(r, "indexes"@) == Some(texts(indexes@))
                    &&& body_str(r, "description"@) == opt_text(*description)
                    &&& match expires_at {
                        Some(t) => body_str(r, "expiresAt"@) == Some(t@),
                        None => crate::api::body_member(r, "expiresAt"@) == Some(crate::json::Json::Null),
                    }
                },
                KeyCommand::Update { key, description, name } => {
                    &&& json_request(r, Method::Patch, client.base_url@ + "/keys/"@ + key@)
                    &&& body_names(r) == opt_name("description"@, description is Some) + opt_name(
                        "name"@,
                        name is Some,
                    )
                    &&& body_str(r, "description"@) == opt_text(*description)
                    &&& body_str(r, "name"@) == opt_text(*name)
                },
                KeyCommand::Delete { key } => plain_request(r, Method::Delete, client.base_url@ + "/keys/"@ + key@),
            },
    {
        match self {
            KeyCommand::List => client.list_keys(),
            KeyCommand::Get { key } => client.get_key(key.as_str()),
            KeyCommand::Create { actions, indexes, description, expires_at } => client.create_key(
                opt_as_str(description),
                actions.as_slice(),
                indexes.as_slice(),
                opt_as_str(expires_at),
            ),
            KeyCommand::Update { key, description, name } => client.update_key(
                key.as_str(),
                opt_as_str(description),
                opt_as_str(name),
            ),
            KeyCommand::Delete { key } => client.delete_key(key.as_str()),
        }
    }
}

impl TaskCommand {
    /// The request of a `task` command that sends one (`wait` and `watch`
    /// poll instead).
    pub fn request(&self, client: &MeiliClient) -> (r: Option<Request>)
        ensures
            match self {
                TaskCommand::Get { id } => (r matches Some(q) && plain_request(
                    q,
                    Method::Get,
                    client.base_url@ + "/tasks/"@ + decimal(*id as nat),
                )),
                TaskCommand::List { .. } => (r matches Some(q) && plain_request(
                    q,
                    Method::Get,
                    client.base_url@ + "/tasks"@ + query_text(task_filter_params(self.filters_spec())),
                )),
                TaskCommand::Cancel { .. } => (r matches Some(q) && json_request(
                    q,
                    Method::Post,
                    client.base_url@ + "/tasks/cancel"@ + query_text(task_filter_params(self.filters_spec())),
                ) && body_names(q).len() == 0 && json_body(q) is Object),
                TaskCommand::Delete { .. } => (r matches Some(q) && plain_request(
                    q,
                    Method::Delete,
                    client.base_url@ + "/tasks"@ + query_text(task_filter_params(self.filters_spec())),
                )),
                _ => r is None,
            },
    {
        match self {
            TaskCommand::Get { id } => Some(client.get_task(*id)),
            TaskCommand::List { .. } => {
                let f = self.filters();
                match f {
                    Some(filters) => Some(client.list_tasks(&filters)),
                    None => None,
                }
            },
            TaskCommand::Cancel { .. } => {
                let f = self.filters();
                match f {
                    Some(filters) => Some(client.cancel_tasks(&filters)),
                    None => None,
                }
            },
            TaskCommand::Delete { .. } => {
                let f = self.filters();
                match f {
                    Some(filters) => Some(client.delete_tasks(&filters)),
                    None => None,
                }
            },
            _ => None,
        }
    }
}

/// The request that reads the settings of an index (`sub`: one known
/// sub-resource); an unknown sub-resource is refused with the message of
/// `validate_sub_resource`.
pub open spec fn settings_read(r: Result<Option<Request>, String>, base: Seq<char>, uid: Seq<char>, sub: Option<String>) -> bool {
    match sub {
        Some(sub) => if crate::settings::sub_resource_names().contains(sub@) {
            r matches Ok(Some(q)) && plain_request(q, Method::Get, base + "/indexes/"@ + uid + "/settings/"@ + sub@)
        } else {
            r matches Err(m) && m@ == crate::settings::unknown_sub_resource_message(sub@)
        },
        None => r matches Ok(Some(q)) && plain_request(q, Method::Get, base + "/indexes/"@ + uid + "/settings"@),
    }
}

/// The request that writes `input` as the settings of an index (`sub`: one
/// known sub-resource); an unknown sub-resource is refused with the message
/// of `validate_sub_resource`.
pub open spec fn settings_write(
    r: Result<Option<Request>, String>,
    base: Seq<char>,
    uid: Seq<char>,
    sub: Option<String>,
    input: Json,
) -> bool {
    match sub {
        Some(sub) => if crate::settings::sub_resource_names().contains(sub@) {
            r matches Ok(Some(q)) && q.method == (if crate::api::patched_setting(sub@) {
                Method::Patch
            } else {
                Method::Put
            }) && q.url@ == base + "/indexes/"@ + uid + "/settings/"@ + sub@ && q.body == Body::Json(input)
        } else {
            r matches Err(m) && m@ == crate::settings::unknown_sub_resource_message(sub@)
        },
        None => r matches Ok(Some(q)) && q.method == Method::Patch && q.url@ == base + "/indexes/"@ + uid
            + "/settings"@ && q.body == Body::Json(input),
    }
}

fn read_settings(client: &MeiliClient, uid: &str, sub: &Option<String>) -> (r: Result<Option<Request>, String>)
    ensures
        settings_read(r, client.base_url@, uid@, *sub),
{
    match sub {
        Some(sub) => {
            crate::settings::validate_sub_resource(sub.as_str())?;
            Ok(Some(client.get_setting(uid, sub.as_str())))
        },
        None => Ok(Some(client.get_settings(uid))),
    }
}

fn write_settings(client: &MeiliClient, uid: &str, sub: &Option<String>, input: Json) -> (r: Result<
    Option<Request>,
    String,
>)
    ensures
        settings_write(r, client.base_url@, uid@, *sub, input),
{
    match sub {
        Some(sub) => {
            crate::settings::validate_sub_resource(sub.as_str())?;
            Ok(Some(client.update_setting(uid, sub.as_str(), input)))
        },
        None => Ok(Some(client.update_settings(uid, input))),
    }
}

impl SettingsCommand {
    /// The request of `settings get` or `settings reset` (all settings, or a
    /// known sub-resource), and the one `settings edit` reads what it edits
    /// with; an unknown sub-resource is refused with the message of
    /// `validate_sub_resource`. The other commands send none here.
    pub fn request(&self, client: &MeiliClient) -> (r: Result<Option<Request>, String>)
        ensures
            match self {
                SettingsCommand::Get { uid, sub_resource } => settings_read(r, client.base_url@, uid@, *sub_resource),
                SettingsCommand::Edit { uid, sub_resource, .. } => settings_read(
                    r,
                    client.base_url@,
                    uid@,
                    *sub_resource,
                ),
                SettingsCommand::Reset { uid, sub_resource } => match sub_resource {
                    Some(sub) => if crate::settings::sub_resource_names().contains(sub@) {
                        r matches Ok(Some(q)) && plain_request(
                            q,
                            Method::Delete,
                            client.base_url@ + "/indexes/"@ + uid@ + "/settings/"@ + sub@,
                        )
                    } else {
                        r matches Err(m) && m@ == crate::settings::unknown_sub_resource_message(sub@)
                    },
                    None => r matches Ok(Some(q)) && plain_request(
                        q,
                        Method::Delete,
                        client.base_url@ + "/indexes/"@ + uid@ + "/settings"@,
                    ),
                },
                _ => r matches Ok(None),
            },
    {
        match self {
            SettingsCommand::Get { uid, sub_resource } => read_settings(client, uid.as_str(), sub_resource),
            SettingsCommand::Edit { uid, sub_resource, .. } => read_settings(client, uid.as_str(), sub_resource),
            SettingsCommand::Reset { uid, sub_resource } => match sub_resource {
                Some(sub) => {
                    crate::settings::validate_sub_resource(sub.as_str())?;
                    Ok(Some(client.reset_setting(uid.as_str(), sub.as_str())))
                },
                None => Ok(Some(client.reset_settings(uid.as_str()))),
            },
            _ => Ok(None),
        }
    }

    /// The request of `settings update`, and the one `settings edit` writes
    /// the edited value back with, sending `input` (all settings, or a known
    /// sub-resource); an unknown sub-resource is refused with the message of
    /// `validate_sub_resource`. The other commands send none here.
    pub fn update_request(&self, client: &MeiliClient, input: Json) -> (r: Result<Option<Request>, String>)
        ensures
            match self {
                SettingsCommand::Update { uid, sub_resource, .. } => settings_write(
                    r,
                    client.base_url@,
                    uid@,
                    *sub_resource,
                    input,
                ),
                SettingsCommand::Edit { uid, sub_resource, .. } => settings_write(
                    r,
                    client.base_url@,
                    uid@,
                    *sub_resource,
                    input,
                ),
                _ => r matches Ok(None),
            },
    {
        match self {
            SettingsCommand::Update { uid, sub_resource, .. } => write_settings(client, uid.as_str(), sub_resource, input),
            SettingsCommand::Edit { uid, sub_resource, .. } => write_settings(client, uid.as_str(), sub_resource, input),
            _ => Ok(None),
        }
    }
}

impl FacetSearchArgs {
    /// The request of `facet-search`.
    pub fn request(&self, client: &MeiliClient) -> (r: Request)
        ensures
            json_request(r, Method::Post, client.base_url@ + "/indexes/"@ + self.uid@ + "/facet-search"@),
            body_names(r) == seq!["facetName"@] + opt_name("facetQuery"@, self.facet_query is Some)
                + opt_name("filter"@, self.filter is Some),
            body_str(r, "facetName"@) == Some(self.facet_name@),
            body_str(r, "facetQuery"@) == opt_text(self.facet_query),
            body_str(r, "filter"@) == opt_text(self.filter),
    {
        client.facet_search(
            self.uid.as_str(),
            self.facet_name.as_str(),
            opt_as_str(&self.facet_query),
            opt_as_str(&self.filter),
        )
    }
}

impl SimilarArgs {
    /// The request of `similar`.
    pub fn request(&self, client: &MeiliClient) -> (r: Request)
        ensures
            json_request(r, Method::Post, client.base_url@ + "/indexes/"@ + self.uid@ + "/similar"@),
            body_names(r) == seq!["id"@] + opt_name("limit"@, self.limit is Some) + opt_name(
                "filter"@,
                self.filter is Some,
            ),
            body_str(r, "id"@) == Some(self.id@),
            body_u64(r, "limit"@) == self.limit,
            body_str(r, "filter"@) == opt_text(self.filter),
    {
        client.similar(self.uid.as_str(), self.id.as_str(), self.limit, opt_as_str(&self.filter))
    }
}

impl SearchArgs {
    /// The request of a (non-interactive) `search`: the query (empty when
    /// none is given) and every option that is given.
    pub fn request(&self, client: &MeiliClient) -> (r: Request)
        ensures
            json_request(r, Method::Post, client.base_url@ + "/indexes/"@ + self.uid@ + "/search"@),
            body_names(r) == seq!["q"@] + opt_name("filter"@, self.filter is Some) + opt_name(
                "facets"@,
                self.facets is Some,
            ) + opt_name("limit"@, self.limit is Some) + opt_name("offset"@, self.offset is Some) + opt_name(
                "sort"@,
                self.sort is Some,
            ) + opt_name("attributesToRetrieve"@, self.attributes_to_retrieve is Some) + opt_name(
                "attributesToHighlight"@,
                self.attributes_to_highlight is Some,
            ),
            body_str(r, "q"@) == Some(
                match self.query {
                    Some(q) => q@,
                    None => Seq::<char>::empty(),
                },
            ),
            body_str(r, "filter"@) == opt_text(self.filter),
            body_strs(r, "facets"@) == opt_vec_texts(self.facets),
            body_u64(r, "limit"@) == self.limit,
            body_u64(r, "offset"@) == self.offset,
            body_strs(r, "sort"@) == opt_vec_texts(self.sort),
            body_strs(r, "attributesToRetrieve"@) == opt_vec_texts(self.attributes_to_retrieve),
            body_strs(r, "attributesToHighlight"@) == opt_vec_texts(self.attributes_to_highlight),
    {
        let query: &str = match &self.query {
            Some(q) => q.as_str(),
            None => "",
        };
        proof {
            reveal_strlit("");
        }
        client.search(
            self.uid.as_str(),
            query,
            opt_as_str(&self.filter),
            opt_slice(&self.facets),
            self.limit,
            self.offset,
            opt_slice(&self.sort),
            opt_slice(&self.attributes_to_retrieve),
            opt_slice(&self.attributes_to_highlight),
        )
    }
}

} // verus!
