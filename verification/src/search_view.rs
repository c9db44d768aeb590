//! The interactive search view: the query typed so far, the hits shown, and
//! when to search again.
use vstd::prelude::*;

use crate::api::{body_names, body_str, body_u64, json_request};
use crate::client::{MeiliClient, Method, Request};
use crate::json::Json;
use crate::keys::{Key, KeyCode};
use crate::text::{decimal, lemma_utf8_concat, push_char, texts, u64_to_string, utf8_bytes, utf8_len, without_last};

verus! {

/// The state of the search view.
pub struct SearchState {
    pub query: String,
    pub results: Vec<Json>,
    pub selected: usize,
    pub total_hits: u64,
    pub processing_time_ms: u64,
    /// The hit shown in full, if any.
    pub expanded: Option<usize>,
    /// The query changed since the last search.
    pub needs_search: bool,
}

/// What the program does after a key in the search view.
#[derive(PartialEq, Eq, Structural, Clone, Copy, Debug)]
pub enum SearchAction {
    Continue,
    Quit,
    /// The query changed: search again once typing pauses.
    QueryChanged,
}

/// How long typing must pause before the view searches, in milliseconds.
pub open spec fn debounce_ms() -> u64 {
    150
}

/// The hits of a search result.
pub open spec fn hits_of(result: Json) -> Seq<Json> {
    match result.spec_get("hits"@) {
        Some(Json::Array(a)) => a@,
        _ => Seq::empty(),
    }
}

/// A count of a search result (0 when absent).
pub open spec fn count_of(result: Json, key: Seq<char>) -> u64 {
    match result.u64_at(key) {
        Some(n) => n,
        None => 0,
    }
}


/// The bytes of a member's value as a hit's row shows it: a string cut after
/// 60 bytes with `...`, any other value as `text`, its JSON text.
pub open spec fn shown_value_bytes(v: Json, text: Seq<char>) -> Seq<u8> {
    match v {
        Json::Str(t) => if utf8_bytes(t@).len() > 60 {
            utf8_bytes(t@).take(60) + utf8_bytes("..."@)
        } else {
            utf8_bytes(t@)
        },
        _ => utf8_bytes(text),
    }
}

/// The bytes of `key: value` for a member.
pub open spec fn member_bytes(m: (String, Json), text: Seq<char>) -> Seq<u8> {
    utf8_bytes(m.0@) + utf8_bytes(": "@) + shown_value_bytes(m.1, text)
}

/// The bytes of the first `n` members, joined by ` | `.
pub open spec fn members_bytes(ms: Seq<(String, Json)>, value_texts: Seq<Seq<char>>, n: nat) -> Seq<u8>
    decreases n,
{
    if n == 0 {
        Seq::empty()
    } else if n == 1 {
        member_bytes(ms[0], value_texts[0])
    } else {
        members_bytes(ms, value_texts, (n - 1) as nat) + utf8_bytes(" | "@) + member_bytes(
            ms[n - 1],
            value_texts[n - 1],
        )
    }
}

/// How many members of a hit its row shows.
pub open spec fn shown_members(len: nat) -> nat {
    if len < 3 {
        len
    } else {
        3
    }
}

/// The bytes of a hit's row: its first three members for an object, else
/// `doc_text`, its JSON text.
pub open spec fn hit_row_bytes(doc: Json, value_texts: Seq<Seq<char>>, doc_text: Seq<char>) -> Seq<u8> {
    match doc {
        Json::Object(m) => members_bytes(m@, value_texts, shown_members(m@.len())),
        _ => utf8_bytes(doc_text),
    }
}

/// A string longer than 60 bytes can be cut after 60 bytes.
pub open spec fn value_cuttable(v: Json) -> bool {
    match v {
        Json::Str(t) => utf8_bytes(t@).len() > 60 ==> vstd::utf8::is_char_boundary(utf8_bytes(t@), 60),
        _ => true,
    }
}

/// A long string among the shown members can be cut after 60 bytes.
pub open spec fn hit_cuttable(doc: Json) -> bool {
    match doc {
        Json::Object(m) => forall|i: int| 0 <= i < shown_members(m@.len()) ==> value_cuttable((#[trigger] m@[i]).1),
        _ => true,
    }
}

/// The status bar of the search view.
pub open spec fn search_status_of(total_hits: u64, ms: u64) -> Seq<char> {
    " "@ + decimal(total_hits as nat) + " hits in "@ + decimal(ms as nat) + "ms | ↑↓ navigate | Enter expand | q quit "@
}

/// A member's value as a hit's row shows it.
fn shown_value(v: &Json, text: &str) -> (r: String)
    requires
        value_cuttable(*v),
    ensures
        utf8_bytes(r@) == shown_value_bytes(*v, text@),
{
    match v {
        Json::Str(t) => {
            if utf8_len(t.as_str()) > 60 {
                let (head, _tail) = t.as_str().split_at(60);
                let mut r = String::from_str(head);
                r.append("...");
                proof {
                    lemma_utf8_concat(head@, "..."@);
                    assert(utf8_bytes(head@) =~= utf8_bytes(t@).subrange(0, 60));
                    assert(utf8_bytes(t@).take(60) =~= utf8_bytes(t@).subrange(0, 60));
                    assert(r@ == head@ + "..."@);
                }
                r
            } else {
                t.clone()
            }
        },
        _ => String::from_str(text),
    }
}

/// The row of a hit in the list of results, given the JSON texts of the
/// values of its first members (`value_texts`) and of the whole hit (`doc_text`).
pub fn hit_row(doc: &Json, value_texts: &Vec<String>, doc_text: &str) -> (r: String)
    requires
        hit_cuttable(*doc),
        doc matches Json::Object(m) ==> value_texts@.len() >= shown_members(m@.len()),
    ensures
        utf8_bytes(r@) == hit_row_bytes(*doc, texts(value_texts@), doc_text@),
{
    match doc {
        Json::Object(m) => {
            let n = if m.len() < 3 {
                m.len()
            } else {
                3
            };
            let ghost vt = texts(value_texts@);
            assert(forall|j: int| 0 <= j < n ==> value_cuttable(#[trigger] m@[j].1));
            let mut r = String::new();
            let mut i: usize = 0;
            while i < n
                invariant
                    n == shown_members(m@.len()),
                    n <= m@.len(),
                    n <= value_texts@.len(),
                    vt == texts(value_texts@),
                    forall|j: int| 0 <= j < n ==> value_cuttable(#[trigger] m@[j].1),
                    i <= n,
                    utf8_bytes(r@) == members_bytes(m@, vt, i as nat),
                decreases n - i,
            {
                let ghost before = r@;
                assert(value_cuttable(m@[i as int].1));
                if i > 0 {
                    r.append(" | ");
                }
                let ghost mid = r@;
                r.append(m[i].0.as_str());
                r.append(": ");
                let shown = shown_value(&m[i].1, value_texts[i].as_str());
                r.append(shown.as_str());
                proof {
                    let piece = m@[i as int].0@ + ": "@ + shown@;
                    assert(vt[i as int] == value_texts@[i as int]@);
                    lemma_utf8_concat(m@[i as int].0@, ": "@);
                    lemma_utf8_concat(m@[i as int].0@ + ": "@, shown@);
                    assert(utf8_bytes(piece) == member_bytes(m@[i as int], vt[i as int]));
                    assert(r@ =~= mid + piece);
                    lemma_utf8_concat(mid, piece);
                    if i > 0 {
                        assert(mid =~= before + " | "@);
                        lemma_utf8_concat(before, " | "@);
                    } else {
                        assert(mid =~= Seq::<char>::empty());
                        assert(utf8_bytes(mid) =~= Seq::<u8>::empty());
                        assert(utf8_bytes(r@) =~= utf8_bytes(piece));
                    }
                }
                i = i + 1;
            }
            r
        },
        _ => String::from_str(doc_text),
    }
}

/// A key in the search view: typing edits the query, arrows move the
/// selection, Enter shows or hides the selected hit in full, `q` or Esc
/// quits (Esc first closes a hit shown in full).
pub open spec fn search_key(o: SearchState, key: Key, n: SearchState, r: SearchAction) -> bool {
    if (key.code == KeyCode::Char('q') && o.expanded is None) || key.is_ctrl_char('c') {
        r == SearchAction::Quit && n == o
    } else if key.code == KeyCode::Esc {
        if o.expanded is Some {
            r == SearchAction::Continue && n == (SearchState { expanded: None, ..o })
        } else {
            r == SearchAction::Quit && n == o
        }
    } else if key.code is Char && o.expanded is None {
        &&& r == SearchAction::QueryChanged
        &&& n.query@ == o.query@.push(key.code->Char_0)
        &&& n == (SearchState { query: n.query, needs_search: true, ..o })
    } else if key.code == KeyCode::Backspace && o.expanded is None {
        &&& r == SearchAction::QueryChanged
        &&& n.query@ == if o.query@.len() == 0 { o.query@ } else { o.query@.drop_last() }
        &&& n == (SearchState { query: n.query, needs_search: true, ..o })
    } else if key.code == KeyCode::Up {
        r == SearchAction::Continue && n == (SearchState {
            selected: if o.selected > 0 { (o.selected - 1) as usize } else { o.selected },
            ..o
        })
    } else if key.code == KeyCode::Down {
        r == SearchAction::Continue && n == (SearchState {
            selected: if o.selected + 1 < o.results@.len() { (o.selected + 1) as usize } else { o.selected },
            ..o
        })
    } else if key.code == KeyCode::Enter {
        r == SearchAction::Continue && n == (SearchState {
            expanded: if o.expanded is Some {
                None
            } else if o.results@.len() > 0 {
                Some(o.selected)
            } else {
                None
            },
            ..o
        })
    } else {
        r == SearchAction::Continue && n == o
    }
}

impl SearchState {
    /// An empty view.
    pub fn new() -> (r: SearchState)
        ensures
            r.query@.len() == 0,
            r.results@.len() == 0,
            r.selected == 0,
            r.total_hits == 0,
            r.processing_time_ms == 0,
            r.expanded is None,
            !r.needs_search,
    {
        SearchState {
            query: String::new(),
            results: Vec::new(),
            selected: 0,
            total_hits: 0,
            processing_time_ms: 0,
            expanded: None,
            needs_search: false,
        }
    }

    /// Reacts to a key: typing edits the query, arrows move the selection,
    /// Enter shows or hides the selected hit in full, `q` or Esc quits (Esc
    /// first closes a hit shown in full).
    pub fn handle_key(&mut self, key: Key) -> (r: SearchAction)
        ensures
            search_key(*old(self), key, *final(self), r),
    {
        let collapsed = self.expanded.is_none();
        if (key.code == KeyCode::Char('q') && collapsed) || key.ctrl_char('c') {
            return SearchAction::Quit;
        }
        match key.code {
            KeyCode::Esc => {
                if collapsed {
                    SearchAction::Quit
                } else {
                    self.expanded = None;
                    SearchAction::Continue
                }
            },
            KeyCode::Char(c) => {
                if collapsed {
                    push_char(&mut self.query, c);
                    self.needs_search = true;
                    SearchAction::QueryChanged
                } else {
                    SearchAction::Continue
                }
            },
            KeyCode::Backspace => {
                if collapsed {
                    self.query = without_last(self.query.as_str());
                    self.needs_search = true;
                    SearchAction::QueryChanged
                } else {
                    SearchAction::Continue
                }
            },
            KeyCode::Up => {
                if self.selected > 0 {
                    self.selected = self.selected - 1;
                }
                SearchAction::Continue
            },
            KeyCode::Down => {
                let len = self.results.len();
                if len > 0 && self.selected < len - 1 {
                    self.selected = self.selected + 1;
                }
                SearchAction::Continue
            },
            KeyCode::Enter => {
                if self.expanded.is_some() {
                    self.expanded = None;
                } else if self.results.len() > 0 {
                    self.expanded = Some(self.selected);
                }
                SearchAction::Continue
            },
            _ => SearchAction::Continue,
        }
    }

    /// Whether to search now: the query changed and typing has paused for
    /// `debounce_ms` since.
    pub fn search_due(&self, elapsed_ms: u64) -> (r: bool)
        ensures
            r == (self.needs_search && elapsed_ms >= debounce_ms()),
    {
        self.needs_search && elapsed_ms >= 150
    }

    /// Starts a due search: the request for the first 20 hits of the query,
    /// or, for an empty query, no request and no hits.
    pub fn start_search(&mut self, client: &MeiliClient, uid: &str) -> (r: Option<Request>)
        ensures
            !final(self).needs_search,
            old(self).query@.len() > 0 ==> {
                &&& r matches Some(req) && json_request(req, Method::Post, client.base_url@ + "/indexes/"@ + uid@ + "/search"@)
                    && body_names(req) == seq!["q"@, "limit"@] && body_str(req, "q"@) == Some(old(self).query@)
                    && body_u64(req, "limit"@) == Some(20u64)
                &&& *final(self) == (SearchState { needs_search: false, ..*old(self) })
            },
            old(self).query@.len() == 0 ==> {
                &&& r is None
                &&& final(self).results@.len() == 0
                &&& final(self).total_hits == 0
                &&& final(self).processing_time_ms == 0
                &&& *final(self) == (SearchState {
                    results: final(self).results,
                    total_hits: 0,
                    processing_time_ms: 0,
                    needs_search: false,
                    ..*old(self)
                })
            },
    {
        self.needs_search = false;
        if !self.query.as_str().is_empty() {
            let req = client.search(uid, self.query.as_str(), None, None, Some(20), None, None, None, None);
            assert(body_names(req) =~= seq!["q"@, "limit"@]);
            Some(req)
        } else {
            self.results = Vec::new();
            self.total_hits = 0;
            self.processing_time_ms = 0;
            None
        }
    }

    /// The status bar: the count of hits, the time the search took, and the keys.
    pub fn status_text(&self) -> (r: String)
        ensures
            r@ == search_status_of(self.total_hits, self.processing_time_ms),
    {
        let mut t = String::from_str(" ");
        let a = u64_to_string(self.total_hits);
        t.append(a.as_str());
        t.append(" hits in ");
        let b = u64_to_string(self.processing_time_ms);
        t.append(b.as_str());
        t.append("ms | ↑↓ navigate | Enter expand | q quit ");
        t
    }

    /// Shows the hits of a search result, the first one selected.
    pub fn apply_results(&mut self, result: Json)
        ensures
            final(self).results@ == hits_of(result),
            final(self).total_hits == count_of(result, "estimatedTotalHits"@),
            final(self).processing_time_ms == count_of(result, "processingTimeMs"@),
            final(self).selected == 0,
            final(self).expanded is None,
            final(self).query == old(self).query,
            final(self).needs_search == old(self).needs_search,
    {
        self.total_hits = match result.get_u64("estimatedTotalHits") {
            Some(n) => n,
            None => 0,
        };
        self.processing_time_ms = match result.get_u64("processingTimeMs") {
            Some(n) => n,
            None => 0,
        };
        let ghost hits = hits_of(result);
        let mut found: Vec<Json> = Vec::new();
        match result {
            Json::Object(mut m) => {
                let i = crate::json::position_of_member(&m, "hits");
                if i < m.len() {
                    let (_k, v) = m.remove(i);
                    match v {
                        Json::Array(a) => {
                            found = a;
                        },
                        _ => {},
                    }
                }
            },
            _ => {},
        }
        assert(found@ == hits);
        self.results = found;
        self.selected = 0;
        self.expanded = None;
    }
}

/// Showing the selected hit in full and closing it again, with Enter or
/// Esc, gives back the list as it was.
pub proof fn law_expand_then_close(
    o: SearchState,
    open: Key,
    m: SearchState,
    r1: SearchAction,
    close: Key,
    n: SearchState,
    r2: SearchAction,
)
    requires
        o.expanded is None,
        o.results@.len() > 0,
        open.code == KeyCode::Enter,
        close.code == KeyCode::Enter || close.code == KeyCode::Esc,
        search_key(o, open, m, r1),
        search_key(m, close, n, r2),
    ensures
        m.expanded == Some(o.selected),
        r1 == SearchAction::Continue,
        r2 == SearchAction::Continue,
        n == o,
{
}

} // verus!
