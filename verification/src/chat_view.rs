//! What the chat screen shows: the lines of the conversation with the tone
//! of each piece, where the history scrolls to, and the text of its bars.
use vstd::prelude::*;

use crate::chat::{message_views, ChatMessage, ChatState, MessageView, Source};
use crate::text::{decimal, push_char, spaces, spaces_text, split_newlines, split_parts, starts_with, texts, u64_to_string};

verus! {

/// How a piece of text is shown.
#[derive(Clone, Copy, Debug, PartialEq, Eq, Structural)]
pub enum Tone {
    /// Ordinary text.
    Plain,
    /// The prefix of a message of the user.
    User,
    /// The prefix of an answer.
    Assistant,
    /// The (empty) prefix of any other message.
    System,
    /// The spinner and the note shown while an answer is awaited.
    Waiting,
    /// The count of sources above the unfolded list.
    SourceCount,
    /// The index a source comes from.
    SourceIndex,
    /// The title of a source.
    SourceTitle,
    /// Dimmed text: snippets, the folded count of sources, the end of a stream.
    Muted,
    /// A log entry of what was sent.
    Outgoing,
    /// A log entry of what came back.
    Incoming,
    /// A log entry of a tool call.
    ToolNote,
}

/// A piece of a line with its tone.
pub struct Span {
    pub text: String,
    pub tone: Tone,
}

impl View for Span {
    type V = (Seq<char>, Tone);

    open spec fn view(&self) -> (Seq<char>, Tone) {
        (self.text@, self.tone)
    }
}

/// A line as the texts and tones of its pieces.
pub type LineView = Seq<(Seq<char>, Tone)>;

/// The view of a line.
pub open spec fn line_view(l: Seq<Span>) -> LineView {
    l.map_values(|s: Span| s@)
}

/// The views of a list of lines.
pub open spec fn lines_view(ls: Seq<Vec<Span>>) -> Seq<LineView> {
    ls.map_values(|l: Vec<Span>| line_view(l@))
}

/// The prefix of a message and its tone, by the message's role.
pub open spec fn role_prefix(role: Seq<char>) -> (Seq<char>, Tone) {
    if role == "user"@ {
        ("You: "@, Tone::User)
    } else if role == "assistant"@ {
        ("AI: "@, Tone::Assistant)
    } else {
        (Seq::empty(), Tone::System)
    }
}

/// One line of a message's text: the first carries the prefix, the others
/// are indented by as many spaces.
pub open spec fn body_line(prefix: Seq<char>, tone: Tone, part: Seq<char>, first: bool) -> LineView {
    if first {
        seq![(prefix, tone), (part, Tone::Plain)]
    } else {
        seq![(spaces(prefix.len()), Tone::Plain), (part, Tone::Plain)]
    }
}

/// The lines of a text split at its line breaks.
pub open spec fn body_lines(prefix: Seq<char>, tone: Tone, parts: Seq<Seq<char>>) -> Seq<LineView> {
    Seq::new(parts.len(), |i: int| body_line(prefix, tone, parts[i], i == 0))
}

/// `[index] ` before a source's title, or nothing when the index is unknown.
pub open spec fn index_label(index: Seq<char>) -> Seq<char> {
    if index.len() == 0 {
        Seq::empty()
    } else {
        "["@ + index + "] "@
    }
}

/// The lines of one unfolded source: its index and title, then its snippet if it has one.
pub open spec fn source_entry(s: (Seq<char>, Seq<char>, Seq<char>)) -> Seq<LineView> {
    seq![seq![("      "@, Tone::Plain), (index_label(s.0), Tone::SourceIndex), (s.1, Tone::SourceTitle)]]
        + if s.2.len() == 0 {
        Seq::<LineView>::empty()
    } else {
        seq![seq![("        "@, Tone::Plain), (s.2, Tone::Muted)]]
    }
}

/// The lines of unfolded sources, in order.
pub open spec fn source_entries(srcs: Seq<(Seq<char>, Seq<char>, Seq<char>)>) -> Seq<LineView>
    decreases srcs.len(),
{
    if srcs.len() == 0 {
        Seq::empty()
    } else {
        source_entries(srcs.drop_last()) + source_entry(srcs.last())
    }
}

/// The lines under a message about its sources: none without sources, else
/// their count and, when sources are shown, each of them.
pub open spec fn source_lines(srcs: Seq<(Seq<char>, Seq<char>, Seq<char>)>, show: bool) -> Seq<LineView> {
    if srcs.len() == 0 {
        Seq::empty()
    } else if show {
        seq![seq![("    ["@ + decimal(srcs.len()) + " sources]"@, Tone::SourceCount)]] + source_entries(srcs)
    } else {
        seq![seq![("    ["@ + decimal(srcs.len()) + " sources — Ctrl+S to expand]"@, Tone::Muted)]]
    }
}

/// The lines of a message: its text, its sources and an empty line.
pub open spec fn message_lines(m: MessageView, show: bool) -> Seq<LineView> {
    let p = role_prefix(m.0);
    body_lines(p.0, p.1, split_parts(m.1)) + source_lines(m.2, show) + seq![Seq::<(Seq<char>, Tone)>::empty()]
}

/// The lines of the messages, in order.
pub open spec fn transcript(msgs: Seq<MessageView>, show: bool) -> Seq<LineView>
    decreases msgs.len(),
{
    if msgs.len() == 0 {
        Seq::empty()
    } else {
        transcript(msgs.drop_last(), show) + message_lines(msgs.last(), show)
    }
}

/// The frame of the spinner for a tick count divided by three.
pub open spec fn spinner_frame(k: nat) -> char {
    let i = k % 10;
    if i == 0 {
        '⠋'
    } else if i == 1 {
        '⠙'
    } else if i == 2 {
        '⠹'
    } else if i == 3 {
        '⠸'
    } else if i == 4 {
        '⠼'
    } else if i == 5 {
        '⠴'
    } else if i == 6 {
        '⠦'
    } else if i == 7 {
        '⠧'
    } else if i == 8 {
        '⠇'
    } else {
        '⠏'
    }
}

/// The lines of an answer being received: a waiting note before the first
/// text, else the text so far and the spinner; then an empty line.
pub open spec fn streaming_lines(content: Seq<char>, tick: u64) -> Seq<LineView> {
    let sp = seq![spinner_frame((tick / 3) as nat)];
    (if content.len() == 0 {
        seq![seq![("AI: "@, Tone::Assistant), (sp + " Searching and thinking..."@, Tone::Waiting)]]
    } else {
        body_lines("AI: "@, Tone::Assistant, split_parts(content)) + seq![seq![("    "@, Tone::Plain), (sp, Tone::Waiting)]]
    }) + seq![Seq::<(Seq<char>, Tone)>::empty()]
}

/// Everything the history of the chat view shows.
pub open spec fn chat_lines(s: ChatState) -> Seq<LineView> {
    transcript(message_views(s.messages@), s.show_sources) + if s.loading {
        streaming_lines(s.streaming_content@, s.tick)
    } else {
        Seq::empty()
    }
}

/// How far the history can scroll: its rows beyond the visible ones.
pub open spec fn scroll_limit(total_rows: u16, view_height: u16) -> u16 {
    if total_rows > view_height {
        (total_rows - view_height) as u16
    } else {
        0
    }
}

/// Where the history scrolls to: to the end while following the answer,
/// else where it was, but never past the end.
pub open spec fn fitted_scroll(scroll: u16, auto_scroll: bool, total_rows: u16, view_height: u16) -> u16 {
    let limit = scroll_limit(total_rows, view_height);
    if auto_scroll || scroll > limit {
        limit
    } else {
        scroll
    }
}

/// The state with another scroll position.
pub open spec fn with_scroll(s: ChatState, scroll: u16) -> ChatState {
    ChatState { scroll, ..s }
}

/// The status bar of the chat view.
pub open spec fn chat_status(show_sources: bool) -> Seq<char> {
    if show_sources {
        " Enter send | Ctrl+C quit | Ctrl+O log | Ctrl+S hide sources "@
    } else {
        " Enter send | Ctrl+C quit | Ctrl+O log | Ctrl+S show sources "@
    }
}

/// Whether `s` starts with `p`.
pub open spec fn has_prefix(s: Seq<char>, p: Seq<char>) -> bool {
    p.len() <= s.len() && s.take(p.len() as int) == p
}

/// The tone of an entry of the log, by how it starts.
pub open spec fn log_tone_of(entry: Seq<char>) -> Tone {
    if has_prefix(entry, ">>>"@) {
        Tone::Outgoing
    } else if has_prefix(entry, "<<<"@) {
        Tone::Incoming
    } else if has_prefix(entry, "  [tool"@) {
        Tone::ToolNote
    } else if has_prefix(entry, "[DONE]"@) {
        Tone::Muted
    } else {
        Tone::Plain
    }
}

/// Appends a line.
fn push_line(out: &mut Vec<Vec<Span>>, line: Vec<Span>)
    ensures
        lines_view(final(out)@) == lines_view(old(out)@).push(line_view(line@)),
{
    let ghost before = lines_view(out@);
    out.push(line);
    assert(lines_view(out@) =~= before.push(line_view(line@)));
}

/// A line of two pieces.
fn two_spans(a: String, ta: Tone, b: String, tb: Tone) -> (r: Vec<Span>)
    ensures
        line_view(r@) == seq![(a@, ta), (b@, tb)],
{
    let mut l: Vec<Span> = Vec::new();
    l.push(Span { text: a, tone: ta });
    l.push(Span { text: b, tone: tb });
    assert(line_view(l@) =~= seq![(a@, ta), (b@, tb)]);
    l
}

/// A line of one piece.
fn one_span(a: String, ta: Tone) -> (r: Vec<Span>)
    ensures
        line_view(r@) == seq![(a@, ta)],
{
    let mut l: Vec<Span> = Vec::new();
    l.push(Span { text: a, tone: ta });
    assert(line_view(l@) =~= seq![(a@, ta)]);
    l
}

/// Appends the lines of a text split at its line breaks.
fn push_body(out: &mut Vec<Vec<Span>>, prefix: &str, tone: Tone, content: &str)
    ensures
        lines_view(final(out)@) == lines_view(old(out)@) + body_lines(prefix@, tone, split_parts(content@)),
{
    let parts = split_newlines(content);
    let ghost start = lines_view(out@);
    let ghost ps = texts(parts@);
    let n = parts.len();
    let mut i: usize = 0;
    assert(body_lines(prefix@, tone, ps.take(0)) =~= Seq::<LineView>::empty());
    assert(start + Seq::<LineView>::empty() =~= start);
    while i < n
        invariant
            n == parts@.len(),
            i <= n,
            ps == texts(parts@),
            ps == split_parts(content@),
            lines_view(out@) == start + body_lines(prefix@, tone, ps.take(i as int)),
        decreases n - i,
    {
        let first = if i == 0 {
            String::from_str(prefix)
        } else {
            spaces_text(prefix.unicode_len())
        };
        let first_tone = if i == 0 {
            tone
        } else {
            Tone::Plain
        };
        let line = two_spans(first, first_tone, parts[i].clone(), Tone::Plain);
        push_line(out, line);
        assert(body_lines(prefix@, tone, ps.take(i + 1)) =~= body_lines(prefix@, tone, ps.take(i as int)).push(
            body_line(prefix@, tone, ps[i as int], i == 0),
        ));
        i = i + 1;
    }
    assert(ps.take(n as int) =~= ps);
}

/// `[index] `, or nothing for an unknown index.
fn index_label_text(index: &str) -> (r: String)
    ensures
        r@ == index_label(index@),
{
    if index.unicode_len() == 0 {
        String::new()
    } else {
        let mut l = String::from_str("[");
        l.append(index);
        l.append("] ");
        l
    }
}

/// Appends the lines of one unfolded source.
fn push_source(out: &mut Vec<Vec<Span>>, src: &Source)
    ensures
        lines_view(final(out)@) == lines_view(old(out)@) + source_entry(src@),
{
    let ghost start = lines_view(out@);
    let mut l: Vec<Span> = Vec::new();
    l.push(Span { text: String::from_str("      "), tone: Tone::Plain });
    l.push(Span { text: index_label_text(src.index.as_str()), tone: Tone::SourceIndex });
    l.push(Span { text: src.title.clone(), tone: Tone::SourceTitle });
    let ghost head = line_view(l@);
    assert(head =~= seq![("      "@, Tone::Plain), (index_label(src.index@), Tone::SourceIndex), (src.title@, Tone::SourceTitle)]);
    push_line(out, l);
    if src.snippet.as_str().unicode_len() > 0 {
        let line = two_spans(String::from_str("        "), Tone::Plain, src.snippet.clone(), Tone::Muted);
        push_line(out, line);
        assert(lines_view(out@) =~= start + source_entry(src@));
    } else {
        assert(lines_view(out@) =~= start + source_entry(src@));
    }
}

/// The count of sources in brackets, followed by `tail`.
fn count_text(n: usize, tail: &str) -> (r: String)
    ensures
        r@ == "    ["@ + decimal(n as nat) + tail@,
{
    let mut t = String::from_str("    [");
    let d = u64_to_string(n as u64);
    t.append(d.as_str());
    t.append(tail);
    t
}

/// Appends the lines about a message's sources.
fn push_sources(out: &mut Vec<Vec<Span>>, srcs: &Vec<Source>, show: bool)
    ensures
        lines_view(final(out)@) == lines_view(old(out)@) + source_lines(srcs@.map_values(|x: Source| x@), show),
{
    let ghost sv = srcs@.map_values(|x: Source| x@);
    let ghost start = lines_view(out@);
    let n = srcs.len();
    if n == 0 {
        assert(start + Seq::<LineView>::empty() =~= start);
        return;
    }
    if !show {
        let line = one_span(count_text(n, " sources — Ctrl+S to expand]"), Tone::Muted);
        push_line(out, line);
        assert(lines_view(out@) =~= start + source_lines(sv, show));
        return;
    }
    let line = one_span(count_text(n, " sources]"), Tone::SourceCount);
    push_line(out, line);
    let ghost head = lines_view(out@);
    let mut i: usize = 0;
    assert(source_entries(sv.take(0)) =~= Seq::<LineView>::empty());
    assert(head + Seq::<LineView>::empty() =~= head);
    while i < n
        invariant
            n == srcs@.len(),
            sv == srcs@.map_values(|x: Source| x@),
            i <= n,
            lines_view(out@) == head + source_entries(sv.take(i as int)),
        decreases n - i,
    {
        push_source(out, &srcs[i]);
        assert(sv.take(i + 1).drop_last() =~= sv.take(i as int));
        assert(sv.take(i + 1).last() == srcs@[i as int]@);
        i = i + 1;
    }
    assert(sv.take(n as int) =~= sv);
    assert(lines_view(out@) =~= start + source_lines(sv, show));
}

/// The prefix of a message and its tone.
fn role_prefix_of(role: &str) -> (r: (&'static str, Tone))
    ensures
        r.0@ == role_prefix(role@).0,
        r.1 == role_prefix(role@).1,
{
    if crate::text::str_eq(role, "user") {
        ("You: ", Tone::User)
    } else if crate::text::str_eq(role, "assistant") {
        ("AI: ", Tone::Assistant)
    } else {
        proof {
            reveal_strlit("");
        }
        ("", Tone::System)
    }
}

/// Appends the lines of a message.
fn push_message(out: &mut Vec<Vec<Span>>, m: &ChatMessage, show: bool)
    ensures
        lines_view(final(out)@) == lines_view(old(out)@) + message_lines(m@, show),
{
    let ghost start = lines_view(out@);
    let (p, t) = role_prefix_of(m.role.as_str());
    push_body(out, p, t, m.content.as_str());
    push_sources(out, &m.sources, show);
    push_line(out, Vec::new());
    assert(line_view(Seq::<Span>::empty()) =~= Seq::<(Seq<char>, Tone)>::empty());
    assert(lines_view(out@) =~= start + message_lines(m@, show));
}

/// The frame of the spinner for a tick count divided by three.
fn spinner_char(k: u64) -> (c: char)
    ensures
        c == spinner_frame(k as nat),
{
    let i = k % 10;
    if i == 0 {
        '⠋'
    } else if i == 1 {
        '⠙'
    } else if i == 2 {
        '⠹'
    } else if i == 3 {
        '⠸'
    } else if i == 4 {
        '⠼'
    } else if i == 5 {
        '⠴'
    } else if i == 6 {
        '⠦'
    } else if i == 7 {
        '⠧'
    } else if i == 8 {
        '⠇'
    } else {
        '⠏'
    }
}

impl ChatState {
    /// The lines of the history: every message, then the answer being
    /// received while one is awaited.
    pub fn view_lines(&self) -> (r: Vec<Vec<Span>>)
        ensures
            lines_view(r@) == chat_lines(*self),
    {
        let mut out: Vec<Vec<Span>> = Vec::new();
        let ghost mv = message_views(self.messages@);
        let n = self.messages.len();
        let mut i: usize = 0;
        assert(lines_view(out@) =~= transcript(mv.take(0), self.show_sources));
        while i < n
            invariant
                n == self.messages@.len(),
                mv == message_views(self.messages@),
                i <= n,
                lines_view(out@) == transcript(mv.take(i as int), self.show_sources),
            decreases n - i,
        {
            push_message(&mut out, &self.messages[i], self.show_sources);
            assert(mv.take(i + 1).drop_last() =~= mv.take(i as int));
            assert(mv.take(i + 1).last() == self.messages@[i as int]@);
            i = i + 1;
        }
        assert(mv.take(n as int) =~= mv);
        if self.loading {
            let ghost before = lines_view(out@);
            let mut sp = String::new();
            push_char(&mut sp, spinner_char(self.tick / 3));
            if self.streaming_content.as_str().unicode_len() == 0 {
                let mut note = sp;
                note.append(" Searching and thinking...");
                let line = two_spans(String::from_str("AI: "), Tone::Assistant, note, Tone::Waiting);
                push_line(&mut out, line);
            } else {
                push_body(&mut out, "AI: ", Tone::Assistant, self.streaming_content.as_str());
                let line = two_spans(String::from_str("    "), Tone::Plain, sp, Tone::Waiting);
                push_line(&mut out, line);
            }
            push_line(&mut out, Vec::new());
            assert(line_view(Seq::<Span>::empty()) =~= Seq::<(Seq<char>, Tone)>::empty());
            assert(lines_view(out@) =~= before + streaming_lines(self.streaming_content@, self.tick));
        } else {
            assert(lines_view(out@) + Seq::<LineView>::empty() =~= lines_view(out@));
        }
        out
    }

    /// Fits the scroll position once the history is laid out in
    /// `total_rows` rows of which `view_height` are visible.
    pub fn fit_scroll(&mut self, total_rows: u16, view_height: u16)
        ensures
            *final(self) == with_scroll(
                *old(self),
                fitted_scroll(old(self).scroll, old(self).auto_scroll, total_rows, view_height),
            ),
    {
        let limit = if total_rows > view_height {
            total_rows - view_height
        } else {
            0
        };
        if self.auto_scroll || self.scroll > limit {
            self.scroll = limit;
        }
    }

    /// The status bar of the chat view.
    pub fn status_text(&self) -> (r: String)
        ensures
            r@ == chat_status(self.show_sources),
    {
        if self.show_sources {
            String::from_str(" Enter send | Ctrl+C quit | Ctrl+O log | Ctrl+S hide sources ")
        } else {
            String::from_str(" Enter send | Ctrl+C quit | Ctrl+O log | Ctrl+S show sources ")
        }
    }
}

/// The tone of an entry of the log.
pub fn log_tone(entry: &str) -> (r: Tone)
    ensures
        r == log_tone_of(entry@),
{
    if starts_with(entry, ">>>") {
        Tone::Outgoing
    } else if starts_with(entry, "<<<") {
        Tone::Incoming
    } else if starts_with(entry, "  [tool") {
        Tone::ToolNote
    } else if starts_with(entry, "[DONE]") {
        Tone::Muted
    } else {
        Tone::Plain
    }
}

} // verus!
