//! Reading a streamed chat answer (server-sent events): splitting the
//! received text into lines, and turning each `data:` line into events.
use vstd::prelude::*;

use crate::chat::{event_views, EventView, Source, SseEvent};
use crate::json::Json;
use crate::text::{push_char, starts_with, str_eq, substring, texts, trim, trimmed, utf8_bytes};

verus! {

/// The first line break in `s`.
pub open spec fn first_newline(s: Seq<char>) -> Option<int>
    decreases s.len(),
{
    if s.len() == 0 {
        None
    } else if s[0] == '\n' {
        Some(0)
    } else {
        match first_newline(s.drop_first()) {
            Some(i) => Some(i + 1),
            None => None,
        }
    }
}

/// Takes the first complete line out of the received text: the line,
/// trimmed, and the text after its line break. `None` while no line is
/// complete.
pub fn take_line(buffer: &str) -> (r: Option<(String, String)>)
    ensures
        match first_newline(buffer@) {
            None => r is None,
            Some(i) => (r matches Some((line, rest)) && line@ == trimmed(buffer@.take(i)) && rest@
                == buffer@.skip(i + 1)),
        },
{
    let n = buffer.unicode_len();
    let mut i: usize = 0;
    assert(buffer@.skip(0) =~= buffer@);
    while i < n
        invariant
            n == buffer@.len(),
            i <= n,
            first_newline(buffer@) == match first_newline(buffer@.skip(i as int)) {
                Some(j) => Some(j + i),
                None => None,
            },
        decreases n - i,
    {
        assert(buffer@.skip(i as int).drop_first() =~= buffer@.skip(i + 1));
        if buffer.get_char(i) == '\n' {
            let head = substring(buffer, 0, i);
            let rest = substring(buffer, i + 1, n);
            assert(head@ =~= buffer@.take(i as int));
            assert(rest@ =~= buffer@.skip(i + 1));
            let line = trim(head.as_str());
            return Some((line, rest));
        }
        i = i + 1;
    }
    None
}

/// A line of the stream.
#[derive(Clone, Debug, PartialEq)]
pub enum SseLine {
    Blank,
    /// The end of the answer.
    Done,
    /// The payload of a `data: ` line.
    Data(String),
    /// Any other line.
    Ignored,
}

/// The prefix of a data line.
pub open spec fn data_prefix() -> Seq<char> {
    "data: "@
}

/// Reads a (trimmed) line of the stream.
pub fn sse_line(line: &str) -> (r: SseLine)
    ensures
        line@.len() == 0 ==> r is Blank,
        line@.len() > 0 && line@ == "data: [DONE]"@ ==> r is Done,
        line@.len() > 0 && line@ != "data: [DONE]"@ && line@.len() >= data_prefix().len() && line@.take(
            data_prefix().len() as int,
        ) == data_prefix() ==> (r matches SseLine::Data(d) && d@ == line@.skip(data_prefix().len() as int)),
        line@.len() > 0 && line@ != "data: [DONE]"@ && !(line@.len() >= data_prefix().len() && line@.take(
            data_prefix().len() as int,
        ) == data_prefix()) ==> r is Ignored,
{
    if line.is_empty() {
        return SseLine::Blank;
    }
    if str_eq(line, "data: [DONE]") {
        return SseLine::Done;
    }
    if starts_with(line, "data: ") {
        proof {
            reveal_strlit("data: ");
        }
        let n = line.unicode_len();
        let rest = substring(line, 6, n);
        assert(rest@ =~= line@.skip(6));
        return SseLine::Data(rest);
    }
    SseLine::Ignored
}

/// Values kept per tool call, by call index, in order of first appearance.
pub open spec fn keyed_index(s: Seq<(u64, Seq<char>)>, k: u64) -> Option<int>
    decreases s.len(),
{
    if s.len() == 0 {
        None
    } else if s[0].0 == k {
        Some(0)
    } else {
        match keyed_index(s.drop_first(), k) {
            Some(i) => Some(i + 1),
            None => None,
        }
    }
}

/// The value kept for call `k`.
pub open spec fn keyed_get(s: Seq<(u64, Seq<char>)>, k: u64) -> Option<Seq<char>> {
    match keyed_index(s, k) {
        Some(i) => Some(s[i].1),
        None => None,
    }
}

/// Call `k` now has value `v` (as a map insert does).
pub open spec fn keyed_set(s: Seq<(u64, Seq<char>)>, k: u64, v: Seq<char>) -> Seq<(u64, Seq<char>)> {
    match keyed_index(s, k) {
        Some(i) => s.update(i, (k, v)),
        None => s.push((k, v)),
    }
}

/// `v` is appended to the value of call `k` (empty when new).
pub open spec fn keyed_append(s: Seq<(u64, Seq<char>)>, k: u64, v: Seq<char>) -> Seq<(u64, Seq<char>)> {
    match keyed_index(s, k) {
        Some(i) => s.update(i, (k, s[i].1 + v)),
        None => s.push((k, v)),
    }
}

/// The views of keyed values.
pub open spec fn keyed_views(s: Seq<(u64, String)>) -> Seq<(u64, Seq<char>)> {
    s.map_values(|e: (u64, String)| (e.0, e.1@))
}

/// The first choice of a chunk.
pub open spec fn choice0(j: Json) -> Option<Json> {
    match j.spec_get("choices"@) {
        Some(c) => c.spec_at(0),
        None => None,
    }
}

/// The delta of the first choice.
pub open spec fn delta_of(j: Json) -> Option<Json> {
    match choice0(j) {
        Some(c) => c.spec_get("delta"@),
        None => None,
    }
}

/// The text a chunk adds to the answer.
pub open spec fn delta_content(j: Json) -> Option<Seq<char>> {
    match delta_of(j) {
        Some(d) => d.str_at("content"@),
        None => None,
    }
}

/// The tool calls a chunk carries.
pub open spec fn delta_calls(j: Json) -> Seq<Json> {
    match delta_of(j) {
        Some(d) => match d.spec_get("tool_calls"@) {
            Some(Json::Array(a)) => a@,
            _ => Seq::empty(),
        },
        None => Seq::empty(),
    }
}

/// Whether the chunk ends a round of tool calls.
pub open spec fn ends_tool_calls(j: Json) -> bool {
    match choice0(j) {
        Some(c) => c.str_at("finish_reason"@) == Some("tool_calls"@),
        None => false,
    }
}

/// A call's index (0 when it has none).
pub open spec fn call_index(c: Json) -> u64 {
    match c.u64_at("index"@) {
        Some(n) => n,
        None => 0,
    }
}

/// A call's function name.
pub open spec fn call_name(c: Json) -> Option<Seq<char>> {
    match c.spec_get("function"@) {
        Some(f) => f.str_at("name"@),
        None => None,
    }
}

/// A piece of a call's arguments.
pub open spec fn call_args(c: Json) -> Option<Seq<char>> {
    match c.spec_get("function"@) {
        Some(f) => f.str_at("arguments"@),
        None => None,
    }
}

/// Reading the tool calls of a chunk: names are recorded (and announced),
/// argument pieces are appended per call.
pub open spec fn calls_effect(
    calls: Seq<Json>,
    names: Seq<(u64, Seq<char>)>,
    args: Seq<(u64, Seq<char>)>,
) -> (Seq<(u64, Seq<char>)>, Seq<(u64, Seq<char>)>, Seq<EventView>)
    decreases calls.len(),
{
    if calls.len() == 0 {
        (names, args, Seq::empty())
    } else {
        let prev = calls_effect(calls.drop_last(), names, args);
        let c = calls.last();
        let k = call_index(c);
        let (n2, e2) = match call_name(c) {
            Some(nm) => (
                keyed_set(prev.0, k, nm),
                prev.2 + seq![EventView::ToolCall(nm), EventView::RawLog("  [tool_call] "@ + nm)],
            ),
            None => (prev.0, prev.2),
        };
        let a2 = match call_args(c) {
            Some(t) => keyed_append(prev.1, k, t),
            None => prev.1,
        };
        (n2, a2, e2)
    }
}

/// The name recorded for call `k`, or `unknown`.
pub open spec fn name_or_unknown(names: Seq<(u64, Seq<char>)>, k: u64) -> Seq<char> {
    match keyed_get(names, k) {
        Some(n) => n,
        None => "unknown"@,
    }
}

/// The complete calls of a round: each call's name and full arguments, in
/// order of first appearance.
pub open spec fn finished_calls(names: Seq<(u64, Seq<char>)>, args: Seq<(u64, Seq<char>)>) -> Seq<
    (Seq<char>, Seq<char>),
> {
    args.map_values(|a: (u64, Seq<char>)| (name_or_unknown(names, a.0), a.1))
}

/// The tool calls being received: names and arguments so far, by call index.
pub struct ToolCalls {
    pub names: Vec<(u64, String)>,
    pub args: Vec<(u64, String)>,
}

/// `keyed_index` finds the first entry with the key.
proof fn lemma_keyed_index(s: Seq<(u64, Seq<char>)>, k: u64)
    ensures
        match keyed_index(s, k) {
            Some(i) => 0 <= i < s.len() && s[i].0 == k,
            None => forall|j: int| 0 <= j < s.len() ==> s[j].0 != k,
        },
    decreases s.len(),
{
    if s.len() > 0 {
        lemma_keyed_index(s.drop_first(), k);
        if s[0].0 != k {
            match keyed_index(s.drop_first(), k) {
                Some(i) => {
                    assert(s.drop_first()[i] == s[i + 1]);
                },
                None => {
                    assert forall|j: int| 0 <= j < s.len() implies s[j].0 != k by {
                        if j > 0 {
                            assert(s.drop_first()[j - 1] == s[j]);
                        }
                    }
                },
            }
        }
    }
}

/// The position of call `k`.
fn find_key(s: &Vec<(u64, String)>, k: u64) -> (r: Option<usize>)
    ensures
        match r {
            Some(i) => keyed_index(keyed_views(s@), k) == Some(i as int) && i < s@.len(),
            None => keyed_index(keyed_views(s@), k) is None,
        },
{
    let mut i: usize = 0;
    assert(keyed_views(s@).skip(0) =~= keyed_views(s@));
    while i < s.len()
        invariant
            i <= s@.len(),
            keyed_index(keyed_views(s@), k) == match keyed_index(keyed_views(s@).skip(i as int), k) {
                Some(j) => Some(j + i),
                None => None,
            },
        decreases s@.len() - i,
    {
        assert(keyed_views(s@).skip(i as int).drop_first() =~= keyed_views(s@).skip(i + 1));
        if s[i].0 == k {
            return Some(i);
        }
        i = i + 1;
    }
    None
}

/// Records `v` as the value of call `k`.
fn set_key(s: &mut Vec<(u64, String)>, k: u64, v: &str)
    ensures
        keyed_views(final(s)@) == keyed_set(keyed_views(old(s)@), k, v@),
{
    match find_key(s, k) {
        Some(i) => {
            let ghost before = keyed_views(s@);
            s.remove(i);
            s.insert(i, (k, String::from_str(v)));
            assert(keyed_views(s@) =~= before.update(i as int, (k, v@)));
        },
        None => {
            let ghost before = keyed_views(s@);
            s.push((k, String::from_str(v)));
            assert(keyed_views(s@) =~= before.push((k, v@)));
        },
    }
}

/// Appends `v` to the value of call `k`.
fn append_key(s: &mut Vec<(u64, String)>, k: u64, v: &str)
    ensures
        keyed_views(final(s)@) == keyed_append(keyed_views(old(s)@), k, v@),
{
    match find_key(s, k) {
        Some(i) => {
            let ghost before = keyed_views(s@);
            proof {
                lemma_keyed_index(before, k);
                assert(before[i as int] == (s@[i as int].0, s@[i as int].1@));
            }
            let (key, mut text) = s.remove(i);
            text.append(v);
            s.insert(i, (key, text));
            assert(keyed_views(s@) =~= before.update(i as int, (k, before[i as int].1 + v@)));
        },
        None => {
            let ghost before = keyed_views(s@);
            s.push((k, String::from_str(v)));
            assert(keyed_views(s@) =~= before.push((k, v@)));
        },
    }
}

/// The name of call `k`, or `unknown`.
fn name_of(names: &Vec<(u64, String)>, k: u64) -> (r: String)
    ensures
        r@ == name_or_unknown(keyed_views(names@), k),
{
    match find_key(names, k) {
        Some(i) => names[i].1.clone(),
        None => String::from_str("unknown"),
    }
}

/// A log entry.
fn log_event(events: &mut Vec<SseEvent>, prefix: &str, text: &str)
    ensures
        event_views(final(events)@) == event_views(old(events)@).push(EventView::RawLog(prefix@ + text@)),
{
    let mut e = String::from_str(prefix);
    e.append(text);
    let ghost before = event_views(events@);
    events.push(SseEvent::RawLog(e));
    assert(event_views(events@) =~= before.push(EventView::RawLog(prefix@ + text@)));
}

/// What reading one `data:` payload does, from the tool calls received so
/// far (`names`, `args`) to the events it produces, the calls it completes
/// and the tool calls kept (`names2`, `args2`). `parsed` is the payload
/// parsed as JSON, when it is JSON.
pub open spec fn decode_effect(
    names: Seq<(u64, Seq<char>)>,
    args: Seq<(u64, Seq<char>)>,
    data: Seq<char>,
    parsed: Option<&Json>,
    events: Seq<SseEvent>,
    finished: Seq<(String, String)>,
    names2: Seq<(u64, Seq<char>)>,
    args2: Seq<(u64, Seq<char>)>,
) -> bool {
    match parsed {
        None => {
            &&& event_views(events) == seq![EventView::RawLog(data)]
            &&& finished.len() == 0
            &&& names2 == names
            &&& args2 == args
        },
        Some(j) => {
            let eff = calls_effect(delta_calls(*j), names, args);
            let content = match delta_content(*j) {
                Some(t) => seq![EventView::ContentDelta(t)],
                None => Seq::empty(),
            };
            &&& event_views(events) == seq![EventView::RawLog(data)] + content + eff.2
            &&& if ends_tool_calls(*j) {
                &&& finished.map_values(|c: (String, String)| (c.0@, c.1@)) == finished_calls(eff.0, eff.1)
                &&& names2.len() == 0
                &&& args2.len() == 0
            } else {
                &&& finished.len() == 0
                &&& names2 == eff.0
                &&& args2 == eff.1
            }
        },
    }
}

impl ToolCalls {
    pub fn new() -> (r: ToolCalls)
        ensures
            r.names@.len() == 0,
            r.args@.len() == 0,
    {
        ToolCalls { names: Vec::new(), args: Vec::new() }
    }

    /// Reads one `data:` payload, parsed as JSON when it is JSON. Returns the
    /// events it produces, and, when the chunk ends a round of tool calls,
    /// each call's name and complete arguments (the calls are then
    /// forgotten).
    pub fn decode_data(&mut self, data: &str, parsed: Option<&Json>) -> (r: (Vec<SseEvent>, Vec<(String, String)>))
        ensures
            decode_effect(
                keyed_views(old(self).names@),
                keyed_views(old(self).args@),
                data@,
                parsed,
                r.0@,
                r.1@,
                keyed_views(final(self).names@),
                keyed_views(final(self).args@),
            ),
    {
        let mut events: Vec<SseEvent> = Vec::new();
        log_event(&mut events, "", data);
        proof {
            reveal_strlit("");
            assert(""@ + data@ =~= data@);
        }
        let mut finished: Vec<(String, String)> = Vec::new();
        let j = match parsed {
            Some(j) => j,
            None => {
                assert(event_views(events@) =~= seq![EventView::RawLog(data@)]);
                return (events, finished);
            },
        };
        let delta: Option<&Json> = match j.get("choices") {
            Some(c) => match c.at(0) {
                Some(c0) => c0.get("delta"),
                None => None,
            },
            None => None,
        };
        if let Some(d) = delta {
            if let Some(t) = d.get_str("content") {
                let ghost before = event_views(events@);
                events.push(SseEvent::ContentDelta(String::from_str(t)));
                assert(event_views(events@) =~= before.push(EventView::ContentDelta(t@)));
            }
        }
        let ghost base = event_views(events@);
        let empty: Vec<Json> = Vec::new();
        let calls: &Vec<Json> = match delta {
            Some(d) => match d.get("tool_calls") {
                Some(Json::Array(a)) => a,
                _ => &empty,
            },
            None => &empty,
        };
        assert(calls@ == delta_calls(*j));
        let mut i: usize = 0;
        while i < calls.len()
            invariant
                i <= calls@.len(),
                ({
                    let eff = calls_effect(calls@.take(i as int), keyed_views(old(self).names@), keyed_views(old(self).args@));
                    &&& keyed_views(self.names@) == eff.0
                    &&& keyed_views(self.args@) == eff.1
                    &&& event_views(events@) == base + eff.2
                }),
            decreases calls@.len() - i,
        {
            assert(calls@.take(i + 1).drop_last() =~= calls@.take(i as int));
            let c = &calls[i];
            let k: u64 = match c.get_u64("index") {
                Some(n) => n,
                None => 0,
            };
            let f = c.get("function");
            let name: Option<&str> = match f {
                Some(fv) => fv.get_str("name"),
                None => None,
            };
            if let Some(nm) = name {
                set_key(&mut self.names, k, nm);
                let ghost before = event_views(events@);
                events.push(SseEvent::ToolCall(String::from_str(nm)));
                log_event(&mut events, "  [tool_call] ", nm);
                assert(event_views(events@) =~= before + seq![EventView::ToolCall(nm@), EventView::RawLog("  [tool_call] "@ + nm@)]);
            }
            let args: Option<&str> = match f {
                Some(fv) => fv.get_str("arguments"),
                None => None,
            };
            if let Some(t) = args {
                append_key(&mut self.args, k, t);
            }
            i = i + 1;
        }
        assert(calls@.take(calls@.len() as int) =~= calls@);
        let ends = match j.get("choices") {
            Some(c) => match c.at(0) {
                Some(c0) => match c0.get_str("finish_reason") {
                    Some(fr) => str_eq(fr, "tool_calls"),
                    None => false,
                },
                None => false,
            },
            None => false,
        };
        if ends {
            let mut k: usize = 0;
            while k < self.args.len()
                invariant
                    k <= self.args@.len(),
                    finished@.len() == k,
                    finished@.map_values(|c: (String, String)| (c.0@, c.1@)) == finished_calls(keyed_views(self.names@), keyed_views(self.args@)).take(k as int),
                decreases self.args@.len() - k,
            {
                let nm = name_of(&self.names, self.args[k].0);
                let ghost before = finished@;
                let arg = self.args[k].1.clone();
                assert(finished_calls(keyed_views(self.names@), keyed_views(self.args@))[k as int] == (nm@, arg@));
                finished.push((nm, arg));
                assert(finished@.map_values(|c: (String, String)| (c.0@, c.1@)) =~= before.map_values(|c: (String, String)| (c.0@, c.1@)).push((nm@, arg@)));
                assert(finished@.map_values(|c: (String, String)| (c.0@, c.1@)) =~= finished_calls(keyed_views(self.names@), keyed_views(self.args@)).take(k + 1));
                k = k + 1;
            }
            assert(finished_calls(keyed_views(self.names@), keyed_views(self.args@)).take(self.args@.len() as int) =~= finished_calls(keyed_views(self.names@), keyed_views(self.args@)));
            self.names = Vec::new();
            self.args = Vec::new();
            assert(keyed_views(self.names@) =~= Seq::<(u64, Seq<char>)>::empty());
            assert(keyed_views(self.args@) =~= Seq::<(u64, Seq<char>)>::empty());
        }
        proof {
            let eff = calls_effect(delta_calls(*j), keyed_views(old(self).names@), keyed_views(old(self).args@));
            let content = match delta_content(*j) {
                Some(t) => seq![EventView::ContentDelta(t)],
                None => Seq::<EventView>::empty(),
            };
            assert(base =~= seq![EventView::RawLog(data@)] + content);
        }
        (events, finished)
    }
}

/// What one line of a streamed answer gives: events for the view, the tool
/// calls it completes, and whether the answer is over.
pub struct LineStep {
    pub events: Vec<SseEvent>,
    pub finished: Vec<(String, String)>,
    pub stop: bool,
}

/// The line that ends an answer.
pub open spec fn is_done_line(line: Seq<char>) -> bool {
    line.len() > 0 && line == "data: [DONE]"@
}

/// A `data:` line other than the end of the answer.
pub open spec fn is_data_line(line: Seq<char>) -> bool {
    &&& line.len() > 0
    &&& line != "data: [DONE]"@
    &&& line.len() >= data_prefix().len()
    &&& line.take(data_prefix().len() as int) == data_prefix()
}

impl ToolCalls {
    /// Reads one (trimmed) line of a streamed answer. `parsed` is the
    /// payload of a `data:` line parsed as JSON, when it is JSON. The end
    /// line logs `[DONE]` and ends the answer; a `data:` line is decoded as
    /// `decode_data` says; any other line gives nothing.
    pub fn read_line(&mut self, line: &str, parsed: Option<&Json>) -> (r: LineStep)
        ensures
            is_done_line(line@) ==> {
                &&& event_views(r.events@) == seq![EventView::RawLog("[DONE]"@), EventView::Done]
                &&& r.finished@.len() == 0
                &&& r.stop
                &&& final(self).names == old(self).names && final(self).args == old(self).args
            },
            is_data_line(line@) ==> !r.stop && decode_effect(
                keyed_views(old(self).names@),
                keyed_views(old(self).args@),
                line@.skip(data_prefix().len() as int),
                parsed,
                r.events@,
                r.finished@,
                keyed_views(final(self).names@),
                keyed_views(final(self).args@),
            ),
            !is_done_line(line@) && !is_data_line(line@) ==> {
                &&& r.events@.len() == 0
                &&& r.finished@.len() == 0
                &&& !r.stop
                &&& final(self).names == old(self).names && final(self).args == old(self).args
            },
    {
        match sse_line(line) {
            SseLine::Done => {
                let mut events: Vec<SseEvent> = Vec::new();
                events.push(SseEvent::RawLog(String::from_str("[DONE]")));
                events.push(SseEvent::Done);
                assert(event_views(events@) =~= seq![EventView::RawLog("[DONE]"@), EventView::Done]);
                LineStep { events, finished: Vec::new(), stop: true }
            },
            SseLine::Data(d) => {
                let (events, finished) = self.decode_data(d.as_str(), parsed);
                LineStep { events, finished, stop: false }
            },
            _ => LineStep { events: Vec::new(), finished: Vec::new(), stop: false },
        }
    }
}

/// The text of a chunk's delta, for printing as it arrives.
pub fn content_delta(j: &Json) -> (r: Option<&str>)
    ensures
        match r {
            Some(t) => delta_content(*j) == Some(t@),
            None => delta_content(*j) is None,
        },
{
    match j.get("choices") {
        Some(c) => match c.at(0) {
            Some(c0) => match c0.get("delta") {
                Some(d) => d.get_str("content"),
                None => None,
            },
            None => None,
        },
        None => None,
    }
}

/// The first of the string members `a`, `b` (and `c`) a document has.
pub open spec fn first_str(doc: Json, keys: Seq<Seq<char>>) -> Option<Seq<char>>
    decreases keys.len(),
{
    if keys.len() == 0 {
        None
    } else {
        match doc.str_at(keys[0]) {
            Some(t) => Some(t),
            None => first_str(doc, keys.drop_first()),
        }
    }
}

/// The text of `t`, or `default`.
pub open spec fn or_text(t: Option<Seq<char>>, default: Seq<char>) -> Seq<char> {
    match t {
        Some(x) => x,
        None => default,
    }
}

/// A document's excerpt, before it is shortened.
pub open spec fn raw_snippet(doc: Json) -> Seq<char> {
    or_text(first_str(doc, seq!["overview"@, "description"@, "content"@]), Seq::empty())
}

/// Whether the excerpt can be cut after 117 bytes (it can always when it is
/// short enough to be kept whole).
pub open spec fn snippet_cuttable(doc: Json) -> bool {
    utf8_bytes(raw_snippet(doc)).len() > 120 ==> vstd::utf8::is_char_boundary(utf8_bytes(raw_snippet(doc)), 117)
}

/// The source a search-sources document stands for: its index, its title
/// (`(untitled)` when it has none) and its excerpt, cut to 117 bytes and
/// `...` when longer than 120 bytes.
pub open spec fn source_matches(doc: Json, s: (Seq<char>, Seq<char>, Seq<char>)) -> bool {
    let snip = utf8_bytes(raw_snippet(doc));
    &&& s.0 == or_text(first_str(doc, seq!["_index"@, "indexUid"@]), Seq::empty())
    &&& s.1 == or_text(first_str(doc, seq!["title"@, "name"@]), "(untitled)"@)
    &&& utf8_bytes(s.2) == if snip.len() > 120 {
        snip.take(117) + utf8_bytes("..."@)
    } else {
        snip
    }
}

/// The first of the string members a document has, in this order.
fn first_str_of<'a>(doc: &'a Json, a: &str, b: &str) -> (r: Option<&'a str>)
    ensures
        match r {
            Some(t) => first_str(*doc, seq![a@, b@]) == Some(t@),
            None => first_str(*doc, seq![a@, b@]) is None,
        },
{
    proof {
        assert(seq![a@, b@].drop_first() =~= seq![b@]);
        assert(seq![b@].drop_first() =~= Seq::<Seq<char>>::empty());
        reveal_with_fuel(first_str, 3);
    }
    match doc.get_str(a) {
        Some(t) => Some(t),
        None => doc.get_str(b),
    }
}

/// The source a search-sources document stands for.
pub fn source_of(doc: &Json) -> (r: Source)
    requires
        snippet_cuttable(*doc),
        utf8_bytes(raw_snippet(*doc)).len() <= usize::MAX,
    ensures
        source_matches(*doc, r@),
{
    let index = match first_str_of(doc, "_index", "indexUid") {
        Some(t) => String::from_str(t),
        None => String::new(),
    };
    let title = match first_str_of(doc, "title", "name") {
        Some(t) => String::from_str(t),
        None => String::from_str("(untitled)"),
    };
    proof {
        let ks = seq!["overview"@, "description"@, "content"@];
        assert(ks.drop_first() =~= seq!["description"@, "content"@]);
        assert(ks.drop_first().drop_first() =~= seq!["content"@]);
        assert(ks.drop_first().drop_first().drop_first() =~= Seq::<Seq<char>>::empty());
        reveal_with_fuel(first_str, 4);
    }
    let raw: &str = match doc.get_str("overview") {
        Some(t) => t,
        None => match doc.get_str("description") {
            Some(t) => t,
            None => match doc.get_str("content") {
                Some(t) => t,
                None => "",
            },
        },
    };
    proof {
        reveal_strlit("");
    }
    assert(raw@ == raw_snippet(*doc));
    let snippet = if raw.len() > 120 {
        let (head, _tail) = raw.split_at(117);
        let mut t = String::from_str(head);
        t.append("...");
        proof {
            crate::text::lemma_utf8_concat(head@, "..."@);
            assert(utf8_bytes(head@) =~= utf8_bytes(raw@).subrange(0, 117));
            assert(utf8_bytes(raw@).take(117) =~= utf8_bytes(raw@).subrange(0, 117));
        }
        t
    } else {
        String::from_str(raw)
    };
    Source { index, title, snippet }
}

/// Whether every document of a sources payload can have its excerpt cut.
pub open spec fn documents_cuttable(parsed: Json) -> bool {
    match parsed.spec_get("documents"@) {
        Some(Json::Array(docs)) => forall|i: int| 0 <= i < docs@.len() ==> {
            &&& snippet_cuttable(#[trigger] docs@[i])
            &&& utf8_bytes(raw_snippet(docs@[i])).len() <= usize::MAX
        },
        _ => true,
    }
}

/// An event that announces the source `doc` stands for.
pub open spec fn source_event(e: EventView, doc: Json) -> bool {
    match e {
        EventView::Source(s) => source_matches(doc, s),
        _ => false,
    }
}

/// The name of the tool whose arguments list the documents an answer used.
pub open spec fn sources_tool() -> Seq<char> {
    "_meiliSearchSources"@
}

/// The events for a completed tool call whose arguments parsed as
/// `parsed` (`compact` is their compact JSON text): a log entry, and for the
/// search-sources tool one source per document.
pub fn tool_result_events(name: &str, parsed: &Json, compact: &str) -> (r: Vec<SseEvent>)
    requires
        name@ == sources_tool() ==> documents_cuttable(*parsed),
    ensures
        r@.len() >= 1,
        event_views(r@)[0] == EventView::RawLog("  [tool_args] "@ + compact@),
        ({
            let docs = if name@ == sources_tool() {
                match parsed.spec_get("documents"@) {
                    Some(Json::Array(d)) => d@,
                    _ => Seq::empty(),
                }
            } else {
                Seq::empty()
            };
            &&& r@.len() == docs.len() + 1
            &&& forall|i: int| 0 <= i < docs.len() ==> source_event((#[trigger] event_views(r@)[i + 1]), docs[i])
        }),
{
    let mut events: Vec<SseEvent> = Vec::new();
    log_event(&mut events, "  [tool_args] ", compact);
    assert(event_views(events@).len() == events@.len());
    proof {
        reveal_strlit("_meiliSearchSources");
    }
    if str_eq(name, "_meiliSearchSources") {
        if let Some(Json::Array(docs)) = parsed.get("documents") {
            let mut i: usize = 0;
            while i < docs.len()
                invariant
                    i <= docs@.len(),
                    events@.len() == i + 1,
                    event_views(events@)[0] == EventView::RawLog("  [tool_args] "@ + compact@),
                    forall|k: int| 0 <= k < docs@.len() ==> {
                        &&& snippet_cuttable(#[trigger] docs@[k])
                        &&& utf8_bytes(raw_snippet(docs@[k])).len() <= usize::MAX
                    },
                    forall|k: int| 0 <= k < i ==> source_event((#[trigger] event_views(events@)[k + 1]), docs@[k]),
                decreases docs@.len() - i,
            {
                let src = source_of(&docs[i]);
                let ghost before = event_views(events@);
                events.push(SseEvent::Source(src));
                assert(event_views(events@) =~= before.push(EventView::Source(src@)));
                assert(event_views(events@)[i + 1] == EventView::Source(src@));
                i = i + 1;
            }
        }
    }
    events
}

} // verus!
