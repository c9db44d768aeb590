//! The steps of copying one index between two instances, as `clone` and
//! `promote` take them: which request to send to which side next, which
//! task to wait for, when a failure stops the copy, and when promoting falls
//! back from an export to copying the documents page by page.
use vstd::prelude::*;

use crate::api::{body_names, body_str, plain_request};
use crate::client::{Body, MeiliClient, Method, Request};
use crate::json::Json;
use crate::text::{opt_param, opt_param_u64, opt_str, query_text};
use crate::transfer::{export_body, is_export_body, next_page, page_docs, page_results, page_size, task_failed};

verus! {

/// The instance a request goes to.
#[derive(PartialEq, Eq, Structural, Clone, Copy, Debug)]
pub enum Side {
    Source,
    Destination,
}

/// Which command copies.
#[derive(PartialEq, Eq, Structural, Clone, Copy, Debug)]
pub enum CopyMode {
    /// `clone`: settings, then every document page by page.
    Clone,
    /// `promote`: the destination index first when `create`, then the
    /// settings, then an export, or the documents page by page when the
    /// source cannot export.
    Promote { create: bool },
}

/// Which task failed.
#[derive(PartialEq, Eq, Structural, Clone, Copy, Debug)]
pub enum FailKind {
    /// The settings task of a clone.
    SettingsUpdate,
    /// The settings task of a promotion.
    SettingsSync,
    /// The export task of a promotion.
    Export,
    /// A documents task of a clone.
    DocumentImport,
}

/// What came back of the last action.
pub enum CopyEvent {
    /// The request was answered with this document.
    Replied(Json),
    /// The request, or the wait for a task, failed.
    Refused,
    /// The task waited for ended as this document.
    TaskEnded(Json),
}

/// What to do next.
pub enum CopyAction {
    /// Send this request to this side; its reply is the next event.
    Send(Side, Request),
    /// Wait at most `timeout_ms` milliseconds for a task of one side to end.
    Wait { side: Side, task_uid: u64, timeout_ms: u64 },
    /// Stop with the error of the last request.
    Abort,
    /// Stop because a task failed; the task's error comes along.
    TaskFailed(FailKind, Json),
    /// The index is copied (for `promote`, the last reply holds the source's stats).
    Done,
}

/// Where the copy is.
pub enum Phase {
    /// Creating the destination index; `settings` are the settings still to
    /// write (a clone reads them first).
    Creating { settings: Option<Json> },
    /// Reading the source's settings.
    ReadingSettings,
    /// Writing the settings to the destination.
    WritingSettings,
    /// Waiting for the destination's settings task.
    WaitingSettings,
    /// Asking the source for an export.
    Exporting,
    /// Waiting for the source's export task.
    WaitingExport,
    /// Reading the page of documents at `offset`.
    ReadingPage { offset: u64 },
    /// Adding the `count` documents read at `offset`.
    WritingPage { offset: u64, count: usize },
    /// Waiting for the task that adds them.
    WaitingPage { offset: u64, count: usize },
    /// Reading the source's stats (a promotion reports its document count).
    ReadingStats,
    /// The copy is over.
    Finished,
}

/// The copy of index `source_uid` of one instance into index `dest_uid` of
/// another.
pub struct IndexCopy {
    pub mode: CopyMode,
    pub source_uid: String,
    pub dest_uid: String,
    /// The destination's API key, which an export hands to the source.
    pub dest_key: Option<String>,
    pub phase: Phase,
    /// Documents copied page by page so far.
    pub copied: u64,
}

/// The `taskUid` of a reply.
pub open spec fn task_uid_of(j: Json) -> Option<u64> {
    j.u64_at("taskUid"@)
}

/// Whether a task ended as failed.
pub open spec fn failed(task: Json) -> bool {
    task.str_at("status"@) == Some("failed"@)
}

/// The error of a task (null when it has none).
pub open spec fn task_error(task: Json) -> Json {
    match task.spec_get("error"@) {
        Some(e) => e,
        None => Json::Null,
    }
}

/// `a` sends `GET /indexes/{uid}/settings` to the source.
pub open spec fn reads_settings(a: CopyAction, base: Seq<char>, uid: Seq<char>) -> bool {
    a matches CopyAction::Send(Side::Source, q) && plain_request(q, Method::Get, base + "/indexes/"@ + uid + "/settings"@)
}

/// `a` sends `PATCH /indexes/{uid}/settings` with `settings` to the destination.
pub open spec fn writes_settings(a: CopyAction, base: Seq<char>, uid: Seq<char>, settings: Json) -> bool {
    a matches CopyAction::Send(Side::Destination, q) && q.method == Method::Patch && q.url@ == base + "/indexes/"@
        + uid + "/settings"@ && q.body == Body::Json(settings)
}

/// `a` sends `POST /indexes` with `{"uid": uid}` to the destination.
pub open spec fn creates_index(a: CopyAction, base: Seq<char>, uid: Seq<char>) -> bool {
    a matches CopyAction::Send(Side::Destination, q) && q.method == Method::Post && q.url@ == base + "/indexes"@
        && q.body is Json && body_names(q) == seq!["uid"@] && body_str(q, "uid"@) == Some(uid)
}

/// `a` asks the source to export its index `uid` to the instance at `url`.
pub open spec fn exports(a: CopyAction, base: Seq<char>, url: Seq<char>, key: Option<Seq<char>>, uid: Seq<char>) -> bool {
    match a {
        CopyAction::Send(Side::Source, q) => q.method == Method::Post && q.url@ == base + "/export"@ && match q.body {
            Body::Json(b) => is_export_body(b, url, key, uid),
            _ => false,
        },
        _ => false,
    }
}

/// `a` reads the page of documents at `offset` from the source.
pub open spec fn reads_page(a: CopyAction, base: Seq<char>, uid: Seq<char>, offset: u64) -> bool {
    a matches CopyAction::Send(Side::Source, q) && plain_request(
        q,
        Method::Get,
        base + "/indexes/"@ + uid + "/documents"@ + query_text(
            opt_param_u64("offset="@, Some(offset)) + opt_param_u64("limit="@, Some(page_size())) + opt_param(
                "fields="@,
                None,
            ),
        ),
    )
}

/// `a` adds `docs` to index `uid` of the destination.
pub open spec fn writes_page(a: CopyAction, base: Seq<char>, uid: Seq<char>, docs: Seq<Json>) -> bool {
    match a {
        CopyAction::Send(Side::Destination, q) => q.method == Method::Post && q.url@ == base + "/indexes/"@ + uid
            + "/documents"@ && match q.body {
            Body::Json(Json::Array(v)) => v@ == docs,
            _ => false,
        },
        _ => false,
    }
}

/// `a` reads the stats of index `uid` from the source.
pub open spec fn reads_stats(a: CopyAction, base: Seq<char>, uid: Seq<char>) -> bool {
    a matches CopyAction::Send(Side::Source, q) && plain_request(q, Method::Get, base + "/indexes/"@ + uid + "/stats"@)
}

/// `a` waits for task `t` of `side` for at most `ms` milliseconds.
pub open spec fn waits(a: CopyAction, side: Side, t: u64, ms: u64) -> bool {
    a == (CopyAction::Wait { side, task_uid: t, timeout_ms: ms })
}

/// The copy in another phase.
pub open spec fn in_phase(o: IndexCopy, p: Phase) -> IndexCopy {
    IndexCopy { phase: p, ..o }
}

/// The copy is over and `a` says so with `done`.
pub open spec fn ends(o: IndexCopy, n: IndexCopy, a: CopyAction, done: CopyAction) -> bool {
    n == in_phase(o, Phase::Finished) && a == done
}

/// The text of an optional string.
pub open spec fn opt_text_of(o: Option<String>) -> Option<Seq<char>> {
    match o {
        Some(s) => Some(s@),
        None => None,
    }
}

/// After the documents: a promotion reads the source's stats, a clone is done.
pub open spec fn after_documents(o: IndexCopy, src: Seq<char>, n: IndexCopy, a: CopyAction) -> bool {
    if o.mode is Clone {
        ends(o, n, a, CopyAction::Done)
    } else {
        n == in_phase(o, Phase::ReadingStats) && reads_stats(a, src, o.source_uid@)
    }
}

/// After the settings: a clone reads the first page of documents, a
/// promotion asks the source for an export to the destination.
pub open spec fn after_settings(o: IndexCopy, src: Seq<char>, dst: Seq<char>, n: IndexCopy, a: CopyAction) -> bool {
    if o.mode is Clone {
        n == in_phase(o, Phase::ReadingPage { offset: 0 }) && reads_page(a, src, o.source_uid@, 0)
    } else {
        n == in_phase(o, Phase::Exporting) && exports(a, src, dst, opt_text_of(o.dest_key), o.dest_uid@)
    }
}

/// `a + b`, or the largest `u64` when that does not fit.
pub open spec fn sat_add(a: u64, b: u64) -> u64 {
    if a + b > u64::MAX {
        u64::MAX
    } else {
        (a + b) as u64
    }
}

/// After a page of `count` documents read at `offset` was added: the next
/// page, unless that page was short.
pub open spec fn after_page(o: IndexCopy, src: Seq<char>, offset: u64, count: usize, n: IndexCopy, a: CopyAction) -> bool {
    let o2 = IndexCopy { copied: sat_add(o.copied, count as u64), ..o };
    if count < page_size() {
        after_documents(o2, src, n, a)
    } else {
        let next = (offset + page_size()) as u64;
        n == in_phase(o2, Phase::ReadingPage { offset: next }) && reads_page(a, src, o.source_uid@, next)
    }
}

/// How a copy starts: a promotion that creates the index creates it first;
/// every other copy reads the source's settings first.
pub open spec fn started(n: IndexCopy, src: Seq<char>, dst: Seq<char>, a: CopyAction) -> bool {
    if n.mode == (CopyMode::Promote { create: true }) {
        n.phase == (Phase::Creating { settings: None }) && creates_index(a, dst, n.dest_uid@)
    } else {
        n.phase is ReadingSettings && reads_settings(a, src, n.source_uid@)
    }
}

/// One step of the copy: from `o`, on event `ev`, to `n`, doing `a`.
/// `src` and `dst` are the base URLs of the two instances. Whatever the
/// index creation answers, the copy goes on.
pub open spec fn copy_step(o: IndexCopy, src: Seq<char>, dst: Seq<char>, ev: CopyEvent, n: IndexCopy, a: CopyAction) -> bool {
    match o.phase {
        Phase::Creating { settings } => match settings {
            Some(s) => n == in_phase(o, Phase::WritingSettings) && writes_settings(a, dst, o.dest_uid@, s),
            None => n == in_phase(o, Phase::ReadingSettings) && reads_settings(a, src, o.source_uid@),
        },
        Phase::ReadingSettings => match ev {
            CopyEvent::Replied(s) => if o.mode is Clone {
                n == in_phase(o, Phase::Creating { settings: Some(s) }) && creates_index(a, dst, o.dest_uid@)
            } else {
                n == in_phase(o, Phase::WritingSettings) && writes_settings(a, dst, o.dest_uid@, s)
            },
            _ => ends(o, n, a, CopyAction::Abort),
        },
        Phase::WritingSettings => match ev {
            CopyEvent::Replied(task) => match task_uid_of(task) {
                Some(t) => n == in_phase(o, Phase::WaitingSettings) && waits(a, Side::Destination, t, 60000),
                None => after_settings(o, src, dst, n, a),
            },
            _ => ends(o, n, a, CopyAction::Abort),
        },
        Phase::WaitingSettings => match ev {
            CopyEvent::TaskEnded(task) => if failed(task) {
                ends(
                    o,
                    n,
                    a,
                    CopyAction::TaskFailed(
                        if o.mode is Clone {
                            FailKind::SettingsUpdate
                        } else {
                            FailKind::SettingsSync
                        },
                        task_error(task),
                    ),
                )
            } else {
                after_settings(o, src, dst, n, a)
            },
            _ => ends(o, n, a, CopyAction::Abort),
        },
        Phase::Exporting => match ev {
            CopyEvent::Replied(task) => match task_uid_of(task) {
                Some(t) => n == in_phase(o, Phase::WaitingExport) && waits(a, Side::Source, t, 300000),
                None => after_documents(o, src, n, a),
            },
            _ => n == in_phase(o, Phase::ReadingPage { offset: 0 }) && reads_page(a, src, o.source_uid@, 0),
        },
        Phase::WaitingExport => match ev {
            CopyEvent::TaskEnded(task) => if failed(task) {
                ends(o, n, a, CopyAction::TaskFailed(FailKind::Export, task_error(task)))
            } else {
                after_documents(o, src, n, a)
            },
            _ => ends(o, n, a, CopyAction::Abort),
        },
        Phase::ReadingPage { offset } => match ev {
            CopyEvent::Replied(page) => if page_docs(page).len() == 0 {
                after_documents(o, src, n, a)
            } else {
                n == in_phase(o, Phase::WritingPage { offset, count: page_docs(page).len() as usize })
                    && writes_page(a, dst, o.dest_uid@, page_docs(page))
            },
            _ => ends(o, n, a, CopyAction::Abort),
        },
        Phase::WritingPage { offset, count } => match ev {
            CopyEvent::Replied(task) => match task_uid_of(task) {
                Some(t) => n == in_phase(o, Phase::WaitingPage { offset, count }) && waits(
                    a,
                    Side::Destination,
                    t,
                    300000,
                ),
                None => after_page(o, src, offset, count, n, a),
            },
            _ => ends(o, n, a, CopyAction::Abort),
        },
        Phase::WaitingPage { offset, count } => match ev {
            CopyEvent::TaskEnded(task) => if o.mode is Clone && failed(task) {
                ends(o, n, a, CopyAction::TaskFailed(FailKind::DocumentImport, task_error(task)))
            } else {
                after_page(o, src, offset, count, n, a)
            },
            _ => ends(o, n, a, CopyAction::Abort),
        },
        Phase::ReadingStats => match ev {
            CopyEvent::Replied(_) => ends(o, n, a, CopyAction::Done),
            _ => ends(o, n, a, CopyAction::Abort),
        },
        Phase::Finished => ends(o, n, a, CopyAction::Done),
    }
}

/// What a copy sends to the source: requests that only read, and, for a
/// promotion, the request to export the index to the destination.
pub open spec fn reads_source_only(a: CopyAction, mode: CopyMode, src: Seq<char>, dst: Seq<char>, key: Option<
    Seq<char>,
>, uid: Seq<char>) -> bool {
    match a {
        CopyAction::Send(Side::Source, q) => q.method == Method::Get || (mode is Promote && exports(
            a,
            src,
            dst,
            key,
            uid,
        )),
        _ => true,
    }
}

/// A copy never writes to the source: from its first action on, every
/// request it sends there only reads, except a promotion's export request.
pub proof fn law_source_is_only_read(o: IndexCopy, src: Seq<char>, dst: Seq<char>, ev: CopyEvent, n: IndexCopy, a: CopyAction)
    requires
        started(o, src, dst, a) || copy_step(o, src, dst, ev, n, a),
    ensures
        reads_source_only(a, o.mode, src, dst, opt_text_of(o.dest_key), o.dest_uid@),
{
}

/// The requests of a dry run of `promote`: the stats of each index, read
/// from the source, in order; a dry run sends nothing else.
pub fn dry_run_requests(src: &MeiliClient, uids: &[String]) -> (r: Vec<Request>)
    ensures
        r@.len() == uids@.len(),
        forall|i: int|
            0 <= i < uids@.len() ==> plain_request(
                #[trigger] r@[i],
                Method::Get,
                src.base_url@ + "/indexes/"@ + uids@[i]@ + "/stats"@,
            ),
{
    let mut r: Vec<Request> = Vec::new();
    let mut i: usize = 0;
    while i < uids.len()
        invariant
            i <= uids@.len(),
            r@.len() == i,
            forall|j: int|
                0 <= j < i ==> plain_request(
                    #[trigger] r@[j],
                    Method::Get,
                    src.base_url@ + "/indexes/"@ + uids@[j]@ + "/stats"@,
                ),
        decreases uids@.len() - i,
    {
        r.push(src.index_stats(uids[i].as_str()));
        i = i + 1;
    }
    r
}

/// Whether a full page at `offset` leaves no room for the next offset.
pub open spec fn page_overflows(offset: u64, count: usize) -> bool {
    count >= page_size() && offset + page_size() > u64::MAX
}

/// Whether `ev` ends the page at `o`'s offset when the next offset does not
/// fit in a `u64` (the copy would overflow there).
pub open spec fn offset_overflows(o: IndexCopy, ev: CopyEvent) -> bool {
    match o.phase {
        Phase::WritingPage { offset, count } => page_overflows(offset, count) && match ev {
            CopyEvent::Replied(t) => task_uid_of(t) is None,
            _ => false,
        },
        Phase::WaitingPage { offset, count } => page_overflows(offset, count) && match ev {
            CopyEvent::TaskEnded(t) => !(o.mode is Clone && failed(t)),
            _ => false,
        },
        _ => false,
    }
}

/// `GET /indexes/{uid}/settings` on the source.
fn read_settings(src: &MeiliClient, uid: &str) -> (a: CopyAction)
    ensures
        reads_settings(a, src.base_url@, uid@),
{
    CopyAction::Send(Side::Source, src.get_settings(uid))
}

/// `PATCH /indexes/{uid}/settings` on the destination.
fn write_settings(dst: &MeiliClient, uid: &str, settings: Json) -> (a: CopyAction)
    ensures
        writes_settings(a, dst.base_url@, uid@, settings),
{
    CopyAction::Send(Side::Destination, dst.update_settings(uid, settings))
}

/// `POST /indexes` on the destination.
fn create_dest(dst: &MeiliClient, uid: &str) -> (a: CopyAction)
    ensures
        creates_index(a, dst.base_url@, uid@),
{
    let q = dst.create_index(uid, None);
    assert(seq!["uid"@] + crate::json::opt_name("primaryKey"@, false) =~= seq!["uid"@]);
    CopyAction::Send(Side::Destination, q)
}

/// The page of documents at `offset` on the source.
fn read_page(src: &MeiliClient, uid: &str, offset: u64) -> (a: CopyAction)
    ensures
        reads_page(a, src.base_url@, uid@, offset),
{
    CopyAction::Send(Side::Source, src.get_documents(uid, Some(offset), Some(1000), None))
}

/// The stats of index `uid` on the source.
fn read_stats(src: &MeiliClient, uid: &str) -> (a: CopyAction)
    ensures
        reads_stats(a, src.base_url@, uid@),
{
    CopyAction::Send(Side::Source, src.index_stats(uid))
}

/// The error of a task, taken out of it.
fn take_error(task: Json) -> (r: Json)
    ensures
        r == task_error(task),
{
    match task {
        Json::Object(mut m) => {
            let i = crate::json::position_of_member(&m, "error");
            if i < m.len() {
                let (_k, v) = m.remove(i);
                v
            } else {
                Json::Null
            }
        },
        _ => Json::Null,
    }
}

impl IndexCopy {
    /// The copy in phase `p`.
    fn moved_to(self, p: Phase) -> (r: IndexCopy)
        ensures
            r == in_phase(self, p),
    {
        IndexCopy {
            mode: self.mode,
            source_uid: self.source_uid,
            dest_uid: self.dest_uid,
            dest_key: self.dest_key,
            phase: p,
            copied: self.copied,
        }
    }

    /// The copy over, with `done` as the last action.
    fn end(self, done: CopyAction) -> (r: (IndexCopy, CopyAction))
        ensures
            ends(self, r.0, r.1, done),
    {
        (self.moved_to(Phase::Finished), done)
    }

    /// What follows the documents.
    fn documents_done(self, src: &MeiliClient) -> (r: (IndexCopy, CopyAction))
        ensures
            after_documents(self, src.base_url@, r.0, r.1),
    {
        match self.mode {
            CopyMode::Clone => self.end(CopyAction::Done),
            CopyMode::Promote { .. } => {
                let a = read_stats(src, self.source_uid.as_str());
                (self.moved_to(Phase::ReadingStats), a)
            },
        }
    }

    /// What follows the settings.
    fn settings_done(self, src: &MeiliClient, dst: &MeiliClient) -> (r: (IndexCopy, CopyAction))
        ensures
            after_settings(self, src.base_url@, dst.base_url@, r.0, r.1),
    {
        match self.mode {
            CopyMode::Clone => {
                let a = read_page(src, self.source_uid.as_str(), 0);
                (self.moved_to(Phase::ReadingPage { offset: 0 }), a)
            },
            CopyMode::Promote { .. } => {
                let key: Option<&str> = match &self.dest_key {
                    Some(k) => Some(k.as_str()),
                    None => None,
                };
                let body = export_body(dst.base_url.as_str(), key, self.dest_uid.as_str());
                let a = CopyAction::Send(Side::Source, src.export(body));
                (self.moved_to(Phase::Exporting), a)
            },
        }
    }

    /// What follows a page of `count` documents read at `offset`.
    fn page_done(self, src: &MeiliClient, offset: u64, count: usize) -> (r: (IndexCopy, CopyAction))
        requires
            !page_overflows(offset, count),
        ensures
            after_page(self, src.base_url@, offset, count, r.0, r.1),
    {
        let n: u64 = count as u64;
        let copied: u64 = if self.copied > u64::MAX - n {
            u64::MAX
        } else {
            self.copied + n
        };
        let o2 = IndexCopy {
            mode: self.mode,
            source_uid: self.source_uid,
            dest_uid: self.dest_uid,
            dest_key: self.dest_key,
            phase: self.phase,
            copied,
        };
        match next_page(offset, count) {
            None => o2.documents_done(src),
            Some(next) => {
                let a = read_page(src, o2.source_uid.as_str(), next);
                (o2.moved_to(Phase::ReadingPage { offset: next }), a)
            },
        }
    }

    /// Starts copying index `source_uid` of `src` into index `dest_uid` of
    /// `dst`; `dest_key` is the destination's API key.
    pub fn start(
        mode: CopyMode,
        source_uid: &str,
        dest_uid: &str,
        dest_key: Option<&str>,
        src: &MeiliClient,
        dst: &MeiliClient,
    ) -> (r: (IndexCopy, CopyAction))
        ensures
            r.0.mode == mode,
            r.0.source_uid@ == source_uid@,
            r.0.dest_uid@ == dest_uid@,
            opt_text_of(r.0.dest_key) == opt_str(dest_key),
            r.0.copied == 0,
            started(r.0, src.base_url@, dst.base_url@, r.1),
    {
        let key: Option<String> = match dest_key {
            Some(k) => Some(String::from_str(k)),
            None => None,
        };
        let create = match mode {
            CopyMode::Promote { create } => create,
            CopyMode::Clone => false,
        };
        if create {
            let a = create_dest(dst, dest_uid);
            let c = IndexCopy {
                mode,
                source_uid: String::from_str(source_uid),
                dest_uid: String::from_str(dest_uid),
                dest_key: key,
                phase: Phase::Creating { settings: None },
                copied: 0,
            };
            (c, a)
        } else {
            let a = read_settings(src, source_uid);
            let c = IndexCopy {
                mode,
                source_uid: String::from_str(source_uid),
                dest_uid: String::from_str(dest_uid),
                dest_key: key,
                phase: Phase::ReadingSettings,
                copied: 0,
            };
            (c, a)
        }
    }

    /// Whether `ev` would take the copy past the last page offset a `u64`
    /// holds; `step` is not to be called then.
    pub fn overflows_on(&self, ev: &CopyEvent) -> (r: bool)
        ensures
            r == offset_overflows(*self, *ev),
    {
        match self.phase {
            Phase::WritingPage { offset, count } => count >= 1000 && offset > u64::MAX - 1000 && match ev {
                CopyEvent::Replied(t) => t.get_u64("taskUid").is_none(),
                _ => false,
            },
            Phase::WaitingPage { offset, count } => count >= 1000 && offset > u64::MAX - 1000 && match ev {
                CopyEvent::TaskEnded(t) => !(self.mode == CopyMode::Clone && task_failed(t)),
                _ => false,
            },
            _ => false,
        }
    }

    /// Takes the copy one step: `ev` is what came of the last action, and
    /// the result is the copy after it with the next action.
    pub fn step(self, src: &MeiliClient, dst: &MeiliClient, ev: CopyEvent) -> (r: (IndexCopy, CopyAction))
        requires
            !offset_overflows(self, ev),
        ensures
            copy_step(self, src.base_url@, dst.base_url@, ev, r.0, r.1),
    {
        let ghost o = self;
        let IndexCopy { mode, source_uid, dest_uid, dest_key, phase, copied } = self;
        let base = IndexCopy { mode, source_uid, dest_uid, dest_key, phase: Phase::Finished, copied };
        assert(forall|p: Phase| in_phase(base, p) == in_phase(o, p));
        match phase {
            Phase::Creating { settings } => match settings {
                Some(s) => {
                    let a = write_settings(dst, base.dest_uid.as_str(), s);
                    (base.moved_to(Phase::WritingSettings), a)
                },
                None => {
                    let a = read_settings(src, base.source_uid.as_str());
                    (base.moved_to(Phase::ReadingSettings), a)
                },
            },
            Phase::ReadingSettings => match ev {
                CopyEvent::Replied(s) => match base.mode {
                    CopyMode::Clone => {
                        let a = create_dest(dst, base.dest_uid.as_str());
                        (base.moved_to(Phase::Creating { settings: Some(s) }), a)
                    },
                    CopyMode::Promote { .. } => {
                        let a = write_settings(dst, base.dest_uid.as_str(), s);
                        (base.moved_to(Phase::WritingSettings), a)
                    },
                },
                _ => base.end(CopyAction::Abort),
            },
            Phase::WritingSettings => match ev {
                CopyEvent::Replied(task) => match task.get_u64("taskUid") {
                    Some(t) => (
                        base.moved_to(Phase::WaitingSettings),
                        CopyAction::Wait { side: Side::Destination, task_uid: t, timeout_ms: 60000 },
                    ),
                    None => base.settings_done(src, dst),
                },
                _ => base.end(CopyAction::Abort),
            },
            Phase::WaitingSettings => match ev {
                CopyEvent::TaskEnded(task) => if task_failed(&task) {
                    let kind = match base.mode {
                        CopyMode::Clone => FailKind::SettingsUpdate,
                        CopyMode::Promote { .. } => FailKind::SettingsSync,
                    };
                    let e = take_error(task);
                    base.end(CopyAction::TaskFailed(kind, e))
                } else {
                    base.settings_done(src, dst)
                },
                _ => base.end(CopyAction::Abort),
            },
            Phase::Exporting => match ev {
                CopyEvent::Replied(task) => match task.get_u64("taskUid") {
                    Some(t) => (
                        base.moved_to(Phase::WaitingExport),
                        CopyAction::Wait { side: Side::Source, task_uid: t, timeout_ms: 300000 },
                    ),
                    None => base.documents_done(src),
                },
                _ => {
                    let a = read_page(src, base.source_uid.as_str(), 0);
                    (base.moved_to(Phase::ReadingPage { offset: 0 }), a)
                },
            },
            Phase::WaitingExport => match ev {
                CopyEvent::TaskEnded(task) => if task_failed(&task) {
                    let e = take_error(task);
                    base.end(CopyAction::TaskFailed(FailKind::Export, e))
                } else {
                    base.documents_done(src)
                },
                _ => base.end(CopyAction::Abort),
            },
            Phase::ReadingPage { offset } => match ev {
                CopyEvent::Replied(page) => {
                    let docs = page_results(page);
                    let count = docs.len();
                    if count == 0 {
                        base.documents_done(src)
                    } else {
                        let q = dst.add_documents(base.dest_uid.as_str(), Json::Array(docs), None);
                        assert(q.url@ =~= dst.base_url@ + "/indexes/"@ + base.dest_uid@ + "/documents"@);
                        (
                            base.moved_to(Phase::WritingPage { offset, count }),
                            CopyAction::Send(Side::Destination, q),
                        )
                    }
                },
                _ => base.end(CopyAction::Abort),
            },
            Phase::WritingPage { offset, count } => match ev {
                CopyEvent::Replied(task) => match task.get_u64("taskUid") {
                    Some(t) => (
                        base.moved_to(Phase::WaitingPage { offset, count }),
                        CopyAction::Wait { side: Side::Destination, task_uid: t, timeout_ms: 300000 },
                    ),
                    None => base.page_done(src, offset, count),
                },
                _ => base.end(CopyAction::Abort),
            },
            Phase::WaitingPage { offset, count } => match ev {
                CopyEvent::TaskEnded(task) => {
                    let is_clone = base.mode == CopyMode::Clone;
                    if is_clone && task_failed(&task) {
                        let e = take_error(task);
                        base.end(CopyAction::TaskFailed(FailKind::DocumentImport, e))
                    } else {
                        base.page_done(src, offset, count)
                    }
                },
                _ => base.end(CopyAction::Abort),
            },
            Phase::ReadingStats => match ev {
                CopyEvent::Replied(_) => base.end(CopyAction::Done),
                _ => base.end(CopyAction::Abort),
            },
            Phase::Finished => base.end(CopyAction::Done),
        }
    }
}

} // verus!
