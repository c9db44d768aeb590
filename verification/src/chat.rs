//! The chat view: conversation state, slash commands, key handling, the
//! events a streamed answer produces, and the requests it sends.
use vstd::prelude::*;

use crate::json::{add_member, Json};
use crate::keys::{Key, KeyCode};
use crate::text::{decimal, opt_text, push_char, replace_all, replaced, starts_with, str_eq, texts, trim, trimmed, without_last};

verus! {

/// A document an answer was drawn from.
#[derive(Clone, Debug, PartialEq)]
pub struct Source {
    pub index: String,
    pub title: String,
    pub snippet: String,
}

impl View for Source {
    type V = (Seq<char>, Seq<char>, Seq<char>);

    open spec fn view(&self) -> (Seq<char>, Seq<char>, Seq<char>) {
        (self.index@, self.title@, self.snippet@)
    }
}

/// The views of a list of sources.
pub open spec fn source_views(s: Seq<Source>) -> Seq<(Seq<char>, Seq<char>, Seq<char>)> {
    s.map_values(|x: Source| x@)
}

/// One message of the conversation.
#[derive(Clone, Debug, PartialEq)]
pub struct ChatMessage {
    pub role: String,
    pub content: String,
    pub sources: Vec<Source>,
}

/// A message as role, content and sources.
pub type MessageView = (Seq<char>, Seq<char>, Seq<(Seq<char>, Seq<char>, Seq<char>)>);

impl View for ChatMessage {
    type V = MessageView;

    open spec fn view(&self) -> MessageView {
        (self.role@, self.content@, source_views(self.sources@))
    }
}

/// The views of a list of messages.
pub open spec fn message_views(s: Seq<ChatMessage>) -> Seq<MessageView> {
    s.map_values(|m: ChatMessage| m@)
}

/// What arrives from a streamed answer.
#[derive(Clone, Debug, PartialEq)]
pub enum SseEvent {
    ContentDelta(String),
    ToolCall(String),
    Source(Source),
    RawLog(String),
    Done,
    Error(String),
}

/// An event as texts.
pub enum EventView {
    ContentDelta(Seq<char>),
    ToolCall(Seq<char>),
    Source((Seq<char>, Seq<char>, Seq<char>)),
    RawLog(Seq<char>),
    Done,
    Error(Seq<char>),
}

impl View for SseEvent {
    type V = EventView;

    open spec fn view(&self) -> EventView {
        match self {
            SseEvent::ContentDelta(t) => EventView::ContentDelta(t@),
            SseEvent::ToolCall(t) => EventView::ToolCall(t@),
            SseEvent::Source(s) => EventView::Source(s@),
            SseEvent::RawLog(t) => EventView::RawLog(t@),
            SseEvent::Done => EventView::Done,
            SseEvent::Error(t) => EventView::Error(t@),
        }
    }
}

/// The views of a list of events.
pub open spec fn event_views(s: Seq<SseEvent>) -> Seq<EventView> {
    s.map_values(|e: SseEvent| e@)
}

/// What the program does after a key in the chat view.
#[derive(Debug, PartialEq)]
pub enum ChatAction {
    Continue,
    Quit,
    /// Send this chat request and stream its answer.
    Send(Json),
    /// Send this request for a summary that replaces the conversation.
    Compact(Json),
}

/// The state of the chat view.
pub struct ChatState {
    pub input: String,
    pub messages: Vec<ChatMessage>,
    /// The part of the current answer received so far.
    pub streaming_content: String,
    pub streaming_sources: Vec<Source>,
    pub raw_log: Vec<String>,
    pub scroll: u16,
    pub auto_scroll: bool,
    pub log_scroll: u16,
    pub loading: bool,
    pub show_log: bool,
    pub show_sources: bool,
    pub tick: u64,
    pub model: String,
    pub workspace: String,
    /// Submitted inputs, oldest first.
    pub input_history: Vec<String>,
    /// Position in the history; its length stands for the new input.
    pub history_pos: usize,
    /// The new input, kept while browsing the history.
    pub input_stash: String,
    /// The next answer replaces the conversation.
    pub compacting: bool,
    /// The system prompt sent ahead of the conversation, once one is set.
    pub system_prompt: Option<String>,
}

/// The model used when none is given.
pub open spec fn default_model() -> Seq<char> {
    "gpt-4o-mini"@
}

/// The help text, before the current model and workspace are filled in.
pub open spec fn help_template() -> Seq<char> {
    "/model <name>     — change LLM model (current: MODEL)\n/workspace <name> — change chat workspace (current: WORKSPACE)\n/sources           — toggle source display\n/clear             — clear all history and logs\n/compact           — summarize conversation into a fresh start\n/log               — show raw SSE log\n/system <msg>     — set the system prompt\n/help              — show this help"@
}

/// Whether a message belongs to the conversation sent to the model.
pub open spec fn is_convo_role(role: Seq<char>) -> bool {
    role == "user"@ || role == "assistant"@
}

/// A message of the system with no sources.
pub open spec fn system_message(content: Seq<char>) -> MessageView {
    ("system"@, content, Seq::empty())
}

/// Where the log view scrolls to show its last entry.
pub open spec fn last_log_line(n: nat) -> u16 {
    (if n > 0 {
        n - 1
    } else {
        0
    }) as u16
}

/// The first `' '` in `s`.
pub open spec fn first_space(s: Seq<char>) -> Option<int>
    decreases s.len(),
{
    if s.len() == 0 {
        None
    } else if s[0] == ' ' {
        Some(0)
    } else {
        match first_space(s.drop_first()) {
            Some(i) => Some(i + 1),
            None => None,
        }
    }
}

/// The command word of a slash command: the trimmed input up to its first space.
pub open spec fn command_word(input: Seq<char>) -> Seq<char> {
    let t = trimmed(input);
    match first_space(t) {
        Some(i) => t.take(i),
        None => t,
    }
}

/// The argument of a slash command: what follows the first space, trimmed.
pub open spec fn command_arg(input: Seq<char>) -> Option<Seq<char>> {
    let t = trimmed(input);
    match first_space(t) {
        Some(i) => Some(trimmed(t.skip(i + 1))),
        None => None,
    }
}

/// Splits a slash command into its word and argument.
pub fn split_command(input: &str) -> (r: (String, Option<String>))
    ensures
        r.0@ == command_word(input@),
        match r.1 {
            Some(a) => command_arg(input@) == Some(a@),
            None => command_arg(input@) is None,
        },
{
    let t = trim(input);
    let n = t.unicode_len();
    let mut i: usize = 0;
    assert(t@.skip(0) =~= t@);
    while i < n
        invariant
            n == t@.len(),
            t@ == trimmed(input@),
            i <= n,
            first_space(t@) == match first_space(t@.skip(i as int)) {
                Some(j) => Some(j + i),
                None => None,
            },
        decreases n - i,
    {
        assert(t@.skip(i as int).drop_first() =~= t@.skip(i + 1));
        if t.as_str().get_char(i) == ' ' {
            let word = crate::text::substring(t.as_str(), 0, i);
            let rest = crate::text::substring(t.as_str(), i + 1, n);
            assert(word@ =~= t@.take(i as int));
            assert(rest@ =~= t@.skip(i + 1));
            let arg = trim(rest.as_str());
            return (word, Some(arg));
        }
        i = i + 1;
    }
    (t, None)
}

/// Whether some message belongs to the conversation.
pub open spec fn has_convo(msgs: Seq<MessageView>) -> bool {
    exists|i: int| 0 <= i < msgs.len() && is_convo_role(#[trigger] msgs[i].0)
}

/// The reply to a slash command other than `/compact` (with conversation)
/// and `/log`, given the state after it ran.
pub open spec fn slash_reply(
    cmd: Seq<char>,
    arg: Option<Seq<char>>,
    model: Seq<char>,
    workspace: Seq<char>,
    show_sources: bool,
    prompt: Option<Seq<char>>,
) -> Seq<char> {
    if cmd == "/help"@ {
        replaced(replaced(help_template(), "MODEL"@, model), "WORKSPACE"@, workspace)
    } else if cmd == "/model"@ {
        match arg {
            Some(name) => "Model set to: "@ + name,
            None => "Current model: "@ + model + "\nUsage: /model <name>"@,
        }
    } else if cmd == "/workspace"@ {
        match arg {
            Some(name) => "Workspace set to: "@ + name,
            None => "Current workspace: "@ + workspace + "\nUsage: /workspace <name>"@,
        }
    } else if cmd == "/sources"@ {
        if show_sources {
            "Sources: visible"@
        } else {
            "Sources: hidden"@
        }
    } else if cmd == "/system"@ {
        match arg {
            Some(text) => "System prompt set: "@ + text,
            None => match prompt {
                Some(p) => "Current system prompt: "@ + p + "\nUsage: /system <message>"@,
                None => "No system prompt set.\nUsage: /system <message>"@,
            },
        }
    } else if cmd == "/clear"@ {
        "Chat cleared."@
    } else if cmd == "/compact"@ {
        "Nothing to compact."@
    } else {
        "Unknown command: "@ + cmd + "\nType /help for available commands."@
    }
}

/// Pushes a message of the system.
fn push_system(messages: &mut Vec<ChatMessage>, content: String)
    ensures
        message_views(final(messages)@) == message_views(old(messages)@).push(system_message(content@)),
{
    let m = ChatMessage { role: String::from_str("system"), content, sources: Vec::new() };
    assert(source_views(m.sources@) =~= Seq::empty());
    messages.push(m);
    assert(message_views(final(messages)@) =~= message_views(old(messages)@).push(system_message(content@)));
}

/// Whether some message belongs to the conversation.
fn any_convo(messages: &Vec<ChatMessage>) -> (r: bool)
    ensures
        r == has_convo(message_views(messages@)),
{
    let mut i: usize = 0;
    while i < messages.len()
        invariant
            i <= messages@.len(),
            forall|j: int| 0 <= j < i ==> !is_convo_role(#[trigger] messages@[j].role@),
        decreases messages@.len() - i,
    {
        let role = messages[i].role.as_str();
        if str_eq(role, "user") || str_eq(role, "assistant") {
            assert(message_views(messages@)[i as int].0 == messages@[i as int].role@);
            return true;
        }
        i = i + 1;
    }
    proof {
        if has_convo(message_views(messages@)) {
            let j = choose|j: int| 0 <= j < message_views(messages@).len() && is_convo_role(#[trigger] message_views(messages@)[j].0);
            assert(message_views(messages@)[j].0 == messages@[j].role@);
        }
    }
    false
}

/// What a slash command does to the state (the input line and its history
/// aside). Returns `true` only for `/compact` with a conversation.
pub open spec fn slash_effect(o: ChatState, input: Seq<char>, n: ChatState, r: bool) -> bool {
    let cmd = command_word(input);
    let arg = command_arg(input);
    let keep = ChatState {
        input: n.input,
        input_history: n.input_history,
        history_pos: n.history_pos,
        input_stash: n.input_stash,
        ..o
    };
    if cmd == "/compact"@ && has_convo(message_views(o.messages@)) {
        r && n == keep
    } else if cmd == "/log"@ {
        &&& !r
        &&& n == ChatState { show_log: true, log_scroll: last_log_line(o.raw_log@.len()), ..keep }
    } else {
        let model = if cmd == "/model"@ && arg is Some { arg->Some_0 } else { o.model@ };
        let workspace = if cmd == "/workspace"@ && arg is Some { arg->Some_0 } else { o.workspace@ };
        let sources = if cmd == "/sources"@ { !o.show_sources } else { o.show_sources };
        let prompt = if cmd == "/system"@ && arg is Some { arg } else { opt_text(o.system_prompt) };
        let clear = cmd == "/clear"@;
        let before = if clear { Seq::empty() } else { message_views(o.messages@) };
        &&& !r
        &&& n.model@ == model
        &&& n.workspace@ == workspace
        &&& n.show_sources == sources
        &&& opt_text(n.system_prompt) == prompt
        &&& message_views(n.messages@) == before.push(system_message(slash_reply(cmd, arg, model, workspace, sources, prompt)))
        &&& n.raw_log@.len() == if clear { 0 } else { o.raw_log@.len() }
        &&& !clear ==> n.raw_log == o.raw_log
        &&& n.scroll == if clear { 0 } else { o.scroll }
        &&& n.auto_scroll
        &&& n == ChatState {
            model: n.model,
            workspace: n.workspace,
            system_prompt: n.system_prompt,
            show_sources: n.show_sources,
            messages: n.messages,
            raw_log: n.raw_log,
            scroll: n.scroll,
            auto_scroll: n.auto_scroll,
            ..keep
        }
    }
}

/// The command words, character by character.
proof fn lemma_command_words()
    ensures
        "/help"@ == seq!['/', 'h', 'e', 'l', 'p'],
        "/model"@ == seq!['/', 'm', 'o', 'd', 'e', 'l'],
        "/workspace"@ == seq!['/', 'w', 'o', 'r', 'k', 's', 'p', 'a', 'c', 'e'],
        "/sources"@ == seq!['/', 's', 'o', 'u', 'r', 'c', 'e', 's'],
        "/clear"@ == seq!['/', 'c', 'l', 'e', 'a', 'r'],
        "/compact"@ == seq!['/', 'c', 'o', 'm', 'p', 'a', 'c', 't'],
        "/log"@ == seq!['/', 'l', 'o', 'g'],
        "/system"@ == seq!['/', 's', 'y', 's', 't', 'e', 'm'],
{
    reveal_strlit("/help");
    reveal_strlit("/model");
    reveal_strlit("/workspace");
    reveal_strlit("/sources");
    reveal_strlit("/clear");
    reveal_strlit("/compact");
    reveal_strlit("/log");
    reveal_strlit("/system");
}

impl ChatState {
    /// A new conversation in `workspace` with `model` (or the default one),
    /// opened by a welcome message.
    pub fn new(workspace: &str, model: Option<&str>) -> (r: ChatState)
        ensures
            r.input@.len() == 0,
            message_views(r.messages@) == seq![system_message("Welcome to Meilisearch Chat. Type /help for commands."@)],
            r.streaming_content@.len() == 0,
            r.streaming_sources@.len() == 0,
            r.raw_log@.len() == 0,
            r.scroll == 0,
            r.auto_scroll,
            r.log_scroll == 0,
            !r.loading,
            !r.show_log,
            !r.show_sources,
            r.tick == 0,
            r.model@ == match model {
                Some(m) => m@,
                None => default_model(),
            },
            r.workspace@ == workspace@,
            r.input_history@.len() == 0,
            r.history_pos == 0,
            r.input_stash@.len() == 0,
            !r.compacting,
            r.system_prompt is None,
    {
        let mut messages: Vec<ChatMessage> = Vec::new();
        push_system(&mut messages, String::from_str("Welcome to Meilisearch Chat. Type /help for commands."));
        let m = match model {
            Some(m) => String::from_str(m),
            None => String::from_str("gpt-4o-mini"),
        };
        ChatState {
            input: String::new(),
            messages,
            streaming_content: String::new(),
            streaming_sources: Vec::new(),
            raw_log: Vec::new(),
            scroll: 0,
            auto_scroll: true,
            log_scroll: 0,
            loading: false,
            show_log: false,
            show_sources: false,
            tick: 0,
            model: m,
            workspace: String::from_str(workspace),
            input_history: Vec::new(),
            history_pos: 0,
            input_stash: String::new(),
            compacting: false,
            system_prompt: None,
        }
    }

    /// Runs a slash command. Returns `true` when `/compact` has a
    /// conversation to summarize (the caller sends the request); `/log`
    /// opens the log view; every other command answers with a message of the
    /// system.
    pub fn handle_slash_command(&mut self, input: &str) -> (r: bool)
        ensures
            slash_effect(*old(self), input@, *final(self), r),
            final(self).input == old(self).input,
            final(self).input_history == old(self).input_history,
            final(self).history_pos == old(self).history_pos,
            final(self).input_stash == old(self).input_stash,
    {
        proof {
            lemma_command_words();
        }
        let (cmd, arg) = split_command(input);
        let c = cmd.as_str();
        assert(c@ == command_word(input@));
        let response: String = if str_eq(c, "/help") {
            let t = replace_all("/model <name>     — change LLM model (current: MODEL)\n/workspace <name> — change chat workspace (current: WORKSPACE)\n/sources           — toggle source display\n/clear             — clear all history and logs\n/compact           — summarize conversation into a fresh start\n/log               — show raw SSE log\n/system <msg>     — set the system prompt\n/help              — show this help", "MODEL", self.model.as_str());
            replace_all(t.as_str(), "WORKSPACE", self.workspace.as_str())
        } else if str_eq(c, "/model") {
            match arg {
                Some(name) => {
                    let mut r = String::from_str("Model set to: ");
                    r.append(name.as_str());
                    self.model = name;
                    r
                },
                None => {
                    let mut r = String::from_str("Current model: ");
                    r.append(self.model.as_str());
                    r.append("\nUsage: /model <name>");
                    r
                },
            }
        } else if str_eq(c, "/workspace") {
            match arg {
                Some(name) => {
                    let mut r = String::from_str("Workspace set to: ");
                    r.append(name.as_str());
                    self.workspace = name;
                    r
                },
                None => {
                    let mut r = String::from_str("Current workspace: ");
                    r.append(self.workspace.as_str());
                    r.append("\nUsage: /workspace <name>");
                    r
                },
            }
        } else if str_eq(c, "/sources") {
            self.show_sources = !self.show_sources;
            if self.show_sources {
                String::from_str("Sources: visible")
            } else {
                String::from_str("Sources: hidden")
            }
        } else if str_eq(c, "/system") {
            match arg {
                Some(text) => {
                    let mut r = String::from_str("System prompt set: ");
                    r.append(text.as_str());
                    self.system_prompt = Some(text);
                    r
                },
                None => match &self.system_prompt {
                    Some(p) => {
                        let mut r = String::from_str("Current system prompt: ");
                        r.append(p.as_str());
                        r.append("\nUsage: /system <message>");
                        r
                    },
                    None => String::from_str("No system prompt set.\nUsage: /system <message>"),
                },
            }
        } else if str_eq(c, "/clear") {
            self.messages = Vec::new();
            self.raw_log = Vec::new();
            self.scroll = 0;
            String::from_str("Chat cleared.")
        } else if str_eq(c, "/compact") {
            if any_convo(&self.messages) {
                return true;
            }
            String::from_str("Nothing to compact.")
        } else if str_eq(c, "/log") {
            self.show_log = true;
            let n = self.raw_log.len();
            self.log_scroll = if n > 0 { (n - 1) as u16 } else { 0 };
            return false;
        } else {
            let mut r = String::from_str("Unknown command: ");
            r.append(c);
            r.append("\nType /help for available commands.");
            r
        };
        let ghost before = message_views(self.messages@);
        assert(before == if command_word(input@) == "/clear"@ {
            Seq::<MessageView>::empty()
        } else {
            message_views(old(self).messages@)
        });
        push_system(&mut self.messages, response);
        self.auto_scroll = true;
        false
    }
}

/// The role and content of the messages that belong to the conversation.
pub open spec fn convo(msgs: Seq<MessageView>) -> Seq<(Seq<char>, Seq<char>)>
    decreases msgs.len(),
{
    if msgs.len() == 0 {
        Seq::empty()
    } else if is_convo_role(msgs.last().0) {
        convo(msgs.drop_last()).push((msgs.last().0, msgs.last().1))
    } else {
        convo(msgs.drop_last())
    }
}

/// The conversation of one message: the message itself when it is the
/// user's or the assistant's, nothing otherwise.
pub proof fn law_conversation_of_one_message(m: MessageView)
    ensures
        (m.0 == "user"@ || m.0 == "assistant"@) ==> convo(seq![m]) == seq![(m.0, m.1)],
        !(m.0 == "user"@ || m.0 == "assistant"@) ==> convo(seq![m]).len() == 0,
{
    assert(seq![m].drop_last() =~= Seq::<MessageView>::empty());
    assert(seq![m].last() == m);
    assert(convo(Seq::<MessageView>::empty()) == Seq::<(Seq<char>, Seq<char>)>::empty());
    assert(Seq::<(Seq<char>, Seq<char>)>::empty().push((m.0, m.1)) =~= seq![(m.0, m.1)]);
}

/// The conversation of a history is the conversation of its first part
/// followed by that of the rest: no message is moved or dropped because of
/// the ones around it.
pub proof fn law_conversation_of_parts(a: Seq<MessageView>, b: Seq<MessageView>)
    ensures
        convo(a + b) == convo(a) + convo(b),
    decreases b.len(),
{
    if b.len() == 0 {
        assert(a + b =~= a);
        assert(convo(a) + convo(b) =~= convo(a));
    } else {
        law_conversation_of_parts(a, b.drop_last());
        assert((a + b).drop_last() =~= a + b.drop_last());
        assert((a + b).last() == b.last());
        if is_convo_role(b.last().0) {
            assert(convo(a) + convo(b.drop_last()).push((b.last().0, b.last().1)) =~= (convo(a) + convo(
                b.drop_last(),
            )).push((b.last().0, b.last().1)));
        }
    }
}

/// Every message of the user or the assistant in the history is sent to
/// the model, at the place its turn in the history gives it: after the
/// conversation of the messages before it.
pub proof fn law_conversation_keeps_every_turn(msgs: Seq<MessageView>, i: int)
    requires
        0 <= i < msgs.len(),
        msgs[i].0 == "user"@ || msgs[i].0 == "assistant"@,
    ensures
        convo(msgs).len() > convo(msgs.take(i)).len(),
        convo(msgs)[convo(msgs.take(i)).len() as int] == (msgs[i].0, msgs[i].1),
        convo(msgs).contains((msgs[i].0, msgs[i].1)),
{
    let pre = msgs.take(i);
    let post = msgs.skip(i + 1);
    assert(msgs =~= pre + (seq![msgs[i]] + post));
    law_conversation_of_parts(pre, seq![msgs[i]] + post);
    law_conversation_of_parts(seq![msgs[i]], post);
    law_conversation_of_one_message(msgs[i]);
    let k = convo(pre).len() as int;
    assert(convo(msgs)[k] == (msgs[i].0, msgs[i].1));
}

/// The conversation as text: `role: content` and a blank line per message.
pub open spec fn convo_text(msgs: Seq<MessageView>) -> Seq<char>
    decreases msgs.len(),
{
    if msgs.len() == 0 {
        Seq::empty()
    } else if is_convo_role(msgs.last().0) {
        convo_text(msgs.drop_last()) + msgs.last().0 + ": "@ + msgs.last().1 + "\n\n"@
    } else {
        convo_text(msgs.drop_last())
    }
}

/// `{"content": .., "role": ..}` for one message.
pub open spec fn is_message_json(j: Json, role: Seq<char>, content: Seq<char>) -> bool {
    &&& crate::json::names_of(j) == seq!["content"@, "role"@]
    &&& j.str_at("content"@) == Some(content)
    &&& j.str_at("role"@) == Some(role)
}

/// `{"messages": [..], "model": .., "stream": true}`: a streamed chat
/// request with these messages.
pub open spec fn is_chat_body(b: Json, model: Seq<char>, msgs: Seq<(Seq<char>, Seq<char>)>) -> bool {
    &&& crate::json::names_of(b) == seq!["messages"@, "model"@, "stream"@]
    &&& b.str_at("model"@) == Some(model)
    &&& b.spec_get("stream"@) == Some(Json::Bool(true))
    &&& b.spec_get("messages"@) matches Some(Json::Array(a)) && a@.len() == msgs.len() && forall|i: int|
        0 <= i < msgs.len() ==> is_message_json(#[trigger] a@[i], msgs[i].0, msgs[i].1)
}

/// The request for a summary of the conversation.
pub open spec fn compact_prompt(text: Seq<char>) -> Seq<char> {
    "Summarize the following conversation into a concise context paragraph that preserves all important facts, decisions, and context. Write it as a system-style briefing so the conversation can continue from this summary.\n\n"@ + text
}

/// A slash command does the same to two states that differ only in the
/// input line and its history.
proof fn lemma_slash_effect_same_core(o: ChatState, m: ChatState, input: Seq<char>, n: ChatState, r: bool)
    requires
        m == (ChatState {
            input: m.input,
            input_history: m.input_history,
            history_pos: m.history_pos,
            input_stash: m.input_stash,
            ..o
        }),
        slash_effect(m, input, n, r),
    ensures
        slash_effect(o, input, n, r),
        r ==> command_word(input) == "/compact"@ && has_convo(message_views(o.messages@)),
        r ==> n == (ChatState {
            input: n.input,
            input_history: n.input_history,
            history_pos: n.history_pos,
            input_stash: n.input_stash,
            ..o
        }),
{
}

/// The slash, as a character.
proof fn lemma_slash()
    ensures
        "/"@ == seq!['/'],
{
    reveal_strlit("/");
}

/// The JSON keys of the chat requests, character by character.
proof fn lemma_chat_keys()
    ensures
        "content"@ == seq!['c', 'o', 'n', 't', 'e', 'n', 't'],
        "role"@ == seq!['r', 'o', 'l', 'e'],
        "messages"@ == seq!['m', 'e', 's', 's', 'a', 'g', 'e', 's'],
        "model"@ == seq!['m', 'o', 'd', 'e', 'l'],
        "stream"@ == seq!['s', 't', 'r', 'e', 'a', 'm'],
{
    reveal_strlit("content");
    reveal_strlit("role");
    reveal_strlit("messages");
    reveal_strlit("model");
    reveal_strlit("stream");
}


/// `{"content": content, "role": role}`.
pub fn message_json(role: &str, content: &str) -> (r: Json)
    ensures
        is_message_json(r, role@, content@),
{
    proof {
        lemma_chat_keys();
    }
    let m = crate::json::with_member(Vec::new(), "content", Some(Json::from_str(content)));
    let m = crate::json::with_member(m, "role", Some(Json::from_str(role)));
    let r = Json::Object(m);
    assert(crate::json::names_of(r) =~= seq!["content"@, "role"@]) by {
        assert(crate::json::names_of(r) =~= crate::json::member_names(m@));
    }
    r
}

/// `{"messages": messages, "model": model, "stream": true}`.
pub fn chat_body(model: &str, messages: Vec<Json>) -> (r: Json)
    ensures
        crate::json::names_of(r) == seq!["messages"@, "model"@, "stream"@],
        r.str_at("model"@) == Some(model@),
        r.spec_get("stream"@) == Some(Json::Bool(true)),
        r.spec_get("messages"@) matches Some(Json::Array(a)) && a@ == messages@,
{
    proof {
        lemma_chat_keys();
    }
    let ghost items = messages@;
    let m = crate::json::with_member(Vec::new(), "messages", Some(Json::Array(messages)));
    let m = crate::json::with_member(m, "model", Some(Json::from_str(model)));
    let m = crate::json::with_member(m, "stream", Some(Json::Bool(true)));
    let r = Json::Object(m);
    assert(crate::json::names_of(r) =~= seq!["messages"@, "model"@, "stream"@]) by {
        assert(crate::json::names_of(r) =~= crate::json::member_names(m@));
    }
    r
}

/// The conversation's messages as JSON, in order.
fn api_messages(messages: &Vec<ChatMessage>) -> (r: Vec<Json>)
    ensures
        r@.len() == convo(message_views(messages@)).len(),
        forall|i: int| 0 <= i < r@.len() ==> is_message_json(#[trigger] r@[i], convo(message_views(messages@))[i].0, convo(message_views(messages@))[i].1),
{
    let mut out: Vec<Json> = Vec::new();
    let mut k: usize = 0;
    while k < messages.len()
        invariant
            k <= messages@.len(),
            out@.len() == convo(message_views(messages@).take(k as int)).len(),
            forall|i: int| 0 <= i < out@.len() ==> is_message_json(#[trigger] out@[i], convo(message_views(messages@).take(k as int))[i].0, convo(message_views(messages@).take(k as int))[i].1),
        decreases messages@.len() - k,
    {
        assert(message_views(messages@).take(k + 1).drop_last() =~= message_views(messages@).take(k as int));
        let role = messages[k].role.as_str();
        if str_eq(role, "user") || str_eq(role, "assistant") {
            let j = message_json(role, messages[k].content.as_str());
            out.push(j);
        }
        k = k + 1;
    }
    assert(message_views(messages@).take(messages@.len() as int) =~= message_views(messages@));
    out
}

/// The system prompt as the first message of a request, when one is set.
pub open spec fn prompt_messages(p: Option<String>) -> Seq<(Seq<char>, Seq<char>)> {
    match p {
        Some(t) => seq![("system"@, t@)],
        None => Seq::empty(),
    }
}

/// The messages of a chat request: the system prompt, if any, then the
/// conversation.
fn request_messages(prompt: &Option<String>, messages: &Vec<ChatMessage>) -> (r: Vec<Json>)
    ensures
        r@.len() == (prompt_messages(*prompt) + convo(message_views(messages@))).len(),
        forall|i: int|
            0 <= i < r@.len() ==> is_message_json(
                #[trigger] r@[i],
                (prompt_messages(*prompt) + convo(message_views(messages@)))[i].0,
                (prompt_messages(*prompt) + convo(message_views(messages@)))[i].1,
            ),
{
    let ghost all = prompt_messages(*prompt) + convo(message_views(messages@));
    let mut out: Vec<Json> = Vec::new();
    match prompt {
        Some(p) => {
            out.push(message_json("system", p.as_str()));
        },
        None => {},
    }
    let ghost head = out@;
    let mut rest = api_messages(messages);
    let ghost tail = rest@;
    out.append(&mut rest);
    assert(out@ == head + tail);
    assert forall|i: int| 0 <= i < out@.len() implies is_message_json(#[trigger] out@[i], all[i].0, all[i].1) by {
        if i < head.len() {
            assert(out@[i] == head[i]);
        } else {
            assert(out@[i] == tail[i - head.len()]);
        }
    }
    out
}

/// The conversation as text.
fn conversation_text(messages: &Vec<ChatMessage>) -> (r: String)
    ensures
        r@ == convo_text(message_views(messages@)),
{
    let mut out = String::new();
    let mut k: usize = 0;
    while k < messages.len()
        invariant
            k <= messages@.len(),
            out@ == convo_text(message_views(messages@).take(k as int)),
        decreases messages@.len() - k,
    {
        assert(message_views(messages@).take(k + 1).drop_last() =~= message_views(messages@).take(k as int));
        let role = messages[k].role.as_str();
        if str_eq(role, "user") || str_eq(role, "assistant") {
            out.append(role);
            out.append(": ");
            out.append(messages[k].content.as_str());
            out.append("\n\n");
        }
        k = k + 1;
    }
    assert(message_views(messages@).take(messages@.len() as int) =~= message_views(messages@));
    out
}

/// One less, stopping at zero.
pub open spec fn dec16(x: u16) -> u16 {
    if x > 0 {
        (x - 1) as u16
    } else {
        0
    }
}

/// One more, stopping at the top.
pub open spec fn inc16(x: u16) -> u16 {
    if x < u16::MAX {
        (x + 1) as u16
    } else {
        u16::MAX
    }
}

/// A key in the log view.
pub open spec fn log_view_key(o: ChatState, key: Key, n: ChatState, r: ChatAction) -> bool {
    if key.is_ctrl_char('o') || key.code == KeyCode::Esc {
        r is Continue && n == ChatState { show_log: false, ..o }
    } else if key.code == KeyCode::Up || key.code == KeyCode::Char('k') {
        r is Continue && n == ChatState { log_scroll: dec16(o.log_scroll), ..o }
    } else if key.code == KeyCode::Down || key.code == KeyCode::Char('j') {
        r is Continue && n == ChatState { log_scroll: inc16(o.log_scroll), ..o }
    } else if key.code == KeyCode::Char('G') {
        r is Continue && n == ChatState { log_scroll: last_log_line(o.raw_log@.len()), ..o }
    } else if key.code == KeyCode::Char('g') {
        r is Continue && n == ChatState { log_scroll: 0, ..o }
    } else if key.is_ctrl_char('c') {
        r is Quit && n == o
    } else {
        r is Continue && n == o
    }
}

/// Enter on a non-empty input while no answer is pending: the line joins the
/// history; a slash command runs; anything else is sent to the model.
pub open spec fn submitted(o: ChatState, n: ChatState, r: ChatAction) -> bool {
    let line = o.input@;
    &&& texts(n.input_history@) == texts(o.input_history@).push(line)
    &&& n.history_pos == n.input_history@.len()
    &&& n.input_stash@.len() == 0
    &&& n.input@.len() == 0
    &&& if line[0] == '/' {
        if command_word(line) == "/compact"@ && has_convo(message_views(o.messages@)) {
            &&& r matches ChatAction::Compact(b) && is_chat_body(
                b,
                o.model@,
                prompt_messages(o.system_prompt) + seq![("user"@, compact_prompt(convo_text(message_views(o.messages@))))],
            )
            &&& message_views(n.messages@) == message_views(o.messages@).push(system_message("Compacting conversation..."@))
            &&& n.loading && n.compacting && n.auto_scroll
            &&& n.streaming_content@.len() == 0 && n.streaming_sources@.len() == 0
            &&& n == ChatState {
                input: n.input,
                input_history: n.input_history,
                history_pos: n.history_pos,
                input_stash: n.input_stash,
                messages: n.messages,
                loading: n.loading,
                compacting: n.compacting,
                auto_scroll: n.auto_scroll,
                streaming_content: n.streaming_content,
                streaming_sources: n.streaming_sources,
                ..o
            }
        } else {
            r is Continue && slash_effect(o, line, n, false)
        }
    } else {
        let msgs = message_views(o.messages@).push(("user"@, line, Seq::empty()));
        &&& r matches ChatAction::Send(b) && is_chat_body(b, o.model@, prompt_messages(o.system_prompt) + convo(msgs))
        &&& message_views(n.messages@) == msgs
        &&& texts(n.raw_log@) == texts(o.raw_log@).push(">>> USER: "@ + line)
        &&& n.loading && n.auto_scroll
        &&& n.streaming_content@.len() == 0 && n.streaming_sources@.len() == 0
        &&& n == ChatState {
            input: n.input,
            input_history: n.input_history,
            history_pos: n.history_pos,
            input_stash: n.input_stash,
            messages: n.messages,
            raw_log: n.raw_log,
            loading: n.loading,
            auto_scroll: n.auto_scroll,
            streaming_content: n.streaming_content,
            streaming_sources: n.streaming_sources,
            ..o
        }
    }
}

/// A key in the chat view.
pub open spec fn chat_view_key(o: ChatState, key: Key, n: ChatState, r: ChatAction) -> bool {
    let len = o.input_history@.len();
    let pos = o.history_pos;
    if key.is_ctrl_char('c') || key.code == KeyCode::Esc {
        r is Quit && n == o
    } else if key.is_ctrl_char('o') || key.is_ctrl_char('d') {
        r is Continue && n == ChatState { show_log: true, log_scroll: last_log_line(o.raw_log@.len()), ..o }
    } else if key.is_ctrl_char('l') {
        &&& r is Continue
        &&& message_views(n.messages@) == seq![system_message("Chat cleared."@)]
        &&& n.raw_log@.len() == 0
        &&& n == ChatState { messages: n.messages, raw_log: n.raw_log, scroll: 0, auto_scroll: true, ..o }
    } else if key.is_ctrl_char('s') {
        r is Continue && n == ChatState { show_sources: !o.show_sources, ..o }
    } else if key.code == KeyCode::Enter && !o.loading && o.input@.len() > 0 {
        submitted(o, n, r)
    } else if key.code == KeyCode::Up && !o.loading {
        &&& r is Continue
        &&& if len > 0 && pos > 0 {
            &&& n.history_pos == pos - 1
            &&& n.input@ == o.input_history@[pos - 1]@
            &&& n.input_stash@ == if pos == len { o.input@ } else { o.input_stash@ }
            &&& n == ChatState { history_pos: n.history_pos, input: n.input, input_stash: n.input_stash, ..o }
        } else {
            n == o
        }
    } else if key.code == KeyCode::Down && !o.loading {
        &&& r is Continue
        &&& if pos < len {
            &&& n.history_pos == pos + 1
            &&& n.input@ == if pos + 1 == len { o.input_stash@ } else { o.input_history@[pos + 1]@ }
            &&& n == ChatState { history_pos: n.history_pos, input: n.input, ..o }
        } else {
            n == o
        }
    } else if key.code is Char && !o.loading {
        r is Continue && n.input@ == o.input@.push(key.code->Char_0) && n == ChatState { input: n.input, ..o }
    } else if key.code == KeyCode::Backspace && !o.loading {
        &&& r is Continue
        &&& n.input@ == if o.input@.len() == 0 { o.input@ } else { o.input@.drop_last() }
        &&& n == ChatState { input: n.input, ..o }
    } else if key.code == KeyCode::Up {
        r is Continue && n == ChatState { auto_scroll: false, scroll: dec16(o.scroll), ..o }
    } else if key.code == KeyCode::Down {
        r is Continue && n == ChatState { auto_scroll: false, scroll: inc16(o.scroll), ..o }
    } else {
        r is Continue && n == o
    }
}

impl ChatState {
    /// Reacts to a key: in the log view it scrolls or closes the log; in the
    /// chat view it edits the input, browses the history, submits, scrolls,
    /// toggles the sources or quits.
    pub fn handle_key(&mut self, key: Key) -> (r: ChatAction)
        requires
            old(self).history_pos <= old(self).input_history@.len(),
        ensures
            final(self).history_pos <= final(self).input_history@.len(),
            old(self).show_log ==> log_view_key(*old(self), key, *final(self), r),
            !old(self).show_log ==> chat_view_key(*old(self), key, *final(self), r),
    {
        if self.show_log {
            if key.ctrl_char('o') || key.code == KeyCode::Esc {
                self.show_log = false;
            } else if key.code == KeyCode::Up || key.code == KeyCode::Char('k') {
                self.log_scroll = if self.log_scroll > 0 { self.log_scroll - 1 } else { 0 };
            } else if key.code == KeyCode::Down || key.code == KeyCode::Char('j') {
                self.log_scroll = if self.log_scroll < u16::MAX { self.log_scroll + 1 } else { u16::MAX };
            } else if key.code == KeyCode::Char('G') {
                let n = self.raw_log.len();
                self.log_scroll = if n > 0 { (n - 1) as u16 } else { 0 };
            } else if key.code == KeyCode::Char('g') {
                self.log_scroll = 0;
            } else if key.ctrl_char('c') {
                return ChatAction::Quit;
            }
            return ChatAction::Continue;
        }
        if key.ctrl_char('c') {
            return ChatAction::Quit;
        }
        if key.ctrl_char('o') || key.ctrl_char('d') {
            self.show_log = true;
            let n = self.raw_log.len();
            self.log_scroll = if n > 0 { (n - 1) as u16 } else { 0 };
            return ChatAction::Continue;
        }
        if key.ctrl_char('l') {
            self.messages = Vec::new();
            push_system(&mut self.messages, String::from_str("Chat cleared."));
            assert(message_views(self.messages@) =~= seq![system_message("Chat cleared."@)]);
            self.raw_log = Vec::new();
            self.scroll = 0;
            self.auto_scroll = true;
            return ChatAction::Continue;
        }
        if key.ctrl_char('s') {
            self.show_sources = !self.show_sources;
            return ChatAction::Continue;
        }
        if key.code == KeyCode::Esc {
            return ChatAction::Quit;
        }
        let len = self.input_history.len();
        match key.code {
            KeyCode::Enter => {
                if !self.loading && !self.input.as_str().is_empty() {
                    return self.submit();
                }
                ChatAction::Continue
            },
            KeyCode::Up => {
                if !self.loading {
                    if len > 0 && self.history_pos > 0 {
                        if self.history_pos == len {
                            self.input_stash = self.input.clone();
                        }
                        self.history_pos = self.history_pos - 1;
                        self.input = self.input_history[self.history_pos].clone();
                    }
                } else {
                    self.auto_scroll = false;
                    self.scroll = if self.scroll > 0 { self.scroll - 1 } else { 0 };
                }
                ChatAction::Continue
            },
            KeyCode::Down => {
                if !self.loading {
                    if self.history_pos < len {
                        self.history_pos = self.history_pos + 1;
                        if self.history_pos == len {
                            self.input = self.input_stash.clone();
                        } else {
                            self.input = self.input_history[self.history_pos].clone();
                        }
                    }
                } else {
                    self.auto_scroll = false;
                    self.scroll = if self.scroll < u16::MAX { self.scroll + 1 } else { u16::MAX };
                }
                ChatAction::Continue
            },
            KeyCode::Char(c) => {
                if !self.loading {
                    push_char(&mut self.input, c);
                }
                ChatAction::Continue
            },
            KeyCode::Backspace => {
                if !self.loading {
                    self.input = without_last(self.input.as_str());
                }
                ChatAction::Continue
            },
            _ => ChatAction::Continue,
        }
    }

    /// Submits the input line, as `submitted` says.
    fn submit(&mut self) -> (r: ChatAction)
        requires
            old(self).input@.len() > 0,
        ensures
            submitted(*old(self), *final(self), r),
    {
        let line = self.input.clone();
        let ghost hist = texts(self.input_history@);
        self.input_history.push(line.clone());
        assert(texts(self.input_history@) =~= hist.push(line@));
        self.history_pos = self.input_history.len();
        self.input_stash = String::new();
        let slash = starts_with(line.as_str(), "/");
        proof {
            lemma_slash();
            if line@[0] == '/' {
                assert(line@.take(1) =~= "/"@);
            }
            if slash {
                assert(line@.take(1)[0] == line@[0]);
            }
        }
        if slash {
            self.input = String::new();
            let ghost m = *self;
            assert(m == ChatState {
                input: m.input,
                input_history: m.input_history,
                history_pos: m.history_pos,
                input_stash: m.input_stash,
                ..*old(self)
            });
            let needs_compact = self.handle_slash_command(line.as_str());
            proof {
                lemma_slash_effect_same_core(*old(self), m, line@, *self, needs_compact);
            }
            if needs_compact {
                assert(self.messages == old(self).messages);
                assert(self.model == old(self).model);
                let text = conversation_text(&self.messages);
                let mut prompt = String::from_str("Summarize the following conversation into a concise context paragraph that preserves all important facts, decisions, and context. Write it as a system-style briefing so the conversation can continue from this summary.\n\n");
                prompt.append(text.as_str());
                let mut msgs: Vec<Json> = Vec::new();
                match &self.system_prompt {
                    Some(p) => {
                        msgs.push(message_json("system", p.as_str()));
                    },
                    None => {},
                }
                msgs.push(message_json("user", prompt.as_str()));
                let body = chat_body(self.model.as_str(), msgs);
                push_system(&mut self.messages, String::from_str("Compacting conversation..."));
                self.loading = true;
                self.compacting = true;
                self.streaming_content = String::new();
                self.streaming_sources = Vec::new();
                self.auto_scroll = true;
                return ChatAction::Compact(body);
            }
            return ChatAction::Continue;
        }
        let ghost before = message_views(self.messages@);
        let user = ChatMessage { role: String::from_str("user"), content: line.clone(), sources: Vec::new() };
        assert(source_views(user.sources@) =~= Seq::empty());
        self.messages.push(user);
        assert(message_views(self.messages@) =~= before.push(("user"@, line@, Seq::empty())));
        self.input = String::new();
        self.loading = true;
        self.streaming_content = String::new();
        self.streaming_sources = Vec::new();
        let mut entry = String::from_str(">>> USER: ");
        entry.append(line.as_str());
        let ghost log = texts(self.raw_log@);
        self.raw_log.push(entry);
        assert(texts(self.raw_log@) =~= log.push(">>> USER: "@ + line@));
        let msgs = request_messages(&self.system_prompt, &self.messages);
        let body = chat_body(self.model.as_str(), msgs);
        self.auto_scroll = true;
        ChatAction::Send(body)
    }
}

/// What an event does to the chat state; `finished` tells that the answer
/// is complete (or failed).
pub open spec fn event_effect(o: ChatState, ev: EventView, n: ChatState, finished: bool) -> bool {
    match ev {
        EventView::ContentDelta(d) => {
            &&& !finished
            &&& n.streaming_content@ == o.streaming_content@ + d
            &&& n == ChatState { streaming_content: n.streaming_content, auto_scroll: true, ..o }
        },
        EventView::ToolCall(_) => !finished && n == o,
        EventView::Source(src) => {
            &&& !finished
            &&& source_views(n.streaming_sources@) == source_views(o.streaming_sources@).push(src)
            &&& n == ChatState { streaming_sources: n.streaming_sources, ..o }
        },
        EventView::RawLog(e) => {
            &&& !finished
            &&& texts(n.raw_log@) == texts(o.raw_log@).push(e)
            &&& n == ChatState { raw_log: n.raw_log, ..o }
        },
        EventView::Done => {
            let content = if o.streaming_content@.len() == 0 {
                "(empty response — check log with Ctrl+O)"@
            } else {
                o.streaming_content@
            };
            let sources = source_views(o.streaming_sources@);
            &&& finished
            &&& n.streaming_content@.len() == 0
            &&& n.streaming_sources@.len() == 0
            &&& !n.loading
            &&& !n.compacting
            &&& if o.compacting {
                &&& message_views(n.messages@) == seq![
                    system_message("Conversation compacted."@),
                    ("assistant"@, "[Context]\n"@ + content, sources),
                ]
                &&& n.scroll == 0
                &&& n == ChatState {
                    streaming_content: n.streaming_content,
                    streaming_sources: n.streaming_sources,
                    messages: n.messages,
                    loading: false,
                    compacting: false,
                    scroll: 0,
                    ..o
                }
            } else {
                &&& message_views(n.messages@) == message_views(o.messages@).push(("assistant"@, content, sources))
                &&& n == ChatState {
                    streaming_content: n.streaming_content,
                    streaming_sources: n.streaming_sources,
                    messages: n.messages,
                    loading: false,
                    ..o
                }
            }
        },
        EventView::Error(e) => {
            let content = if o.streaming_content@.len() == 0 {
                "Stream error: "@ + e
            } else {
                o.streaming_content@ + "\n\n[stream error: "@ + e + "]"@
            };
            &&& finished
            &&& texts(n.raw_log@) == texts(o.raw_log@).push("<<< STREAM ERROR: "@ + e)
            &&& message_views(n.messages@) == message_views(o.messages@).push(("assistant"@, content, source_views(o.streaming_sources@)))
            &&& n.streaming_content@.len() == 0
            &&& n.streaming_sources@.len() == 0
            &&& n == ChatState {
                streaming_content: n.streaming_content,
                streaming_sources: n.streaming_sources,
                messages: n.messages,
                raw_log: n.raw_log,
                loading: false,
                compacting: false,
                ..o
            }
        },
    }
}

/// Pushes an answer of the model.
fn push_assistant(messages: &mut Vec<ChatMessage>, content: String, sources: Vec<Source>)
    ensures
        message_views(final(messages)@) == message_views(old(messages)@).push(("assistant"@, content@, source_views(sources@))),
{
    messages.push(ChatMessage { role: String::from_str("assistant"), content, sources });
    assert(message_views(final(messages)@) =~= message_views(old(messages)@).push(("assistant"@, content@, source_views(sources@))));
}

impl ChatState {
    /// Applies an event of the streamed answer; returns whether the answer
    /// is complete (or failed).
    pub fn apply_event(&mut self, ev: SseEvent) -> (finished: bool)
        ensures
            event_effect(*old(self), ev@, *final(self), finished),
    {
        match ev {
            SseEvent::ContentDelta(d) => {
                self.streaming_content.append(d.as_str());
                self.auto_scroll = true;
                false
            },
            SseEvent::ToolCall(_name) => false,
            SseEvent::Source(src) => {
                let ghost before = source_views(self.streaming_sources@);
                self.streaming_sources.push(src);
                assert(source_views(self.streaming_sources@) =~= before.push(src@));
                false
            },
            SseEvent::RawLog(entry) => {
                let ghost before = texts(self.raw_log@);
                self.raw_log.push(entry);
                assert(texts(self.raw_log@) =~= before.push(entry@));
                false
            },
            SseEvent::Done => {
                let content = if self.streaming_content.as_str().is_empty() {
                    String::from_str("(empty response — check log with Ctrl+O)")
                } else {
                    let mut c = String::new();
                    std::mem::swap(&mut c, &mut self.streaming_content);
                    c
                };
                let mut sources: Vec<Source> = Vec::new();
                std::mem::swap(&mut sources, &mut self.streaming_sources);
                if self.compacting {
                    self.messages = Vec::new();
                    push_system(&mut self.messages, String::from_str("Conversation compacted."));
                    let mut text = String::from_str("[Context]\n");
                    text.append(content.as_str());
                    push_assistant(&mut self.messages, text, sources);
                    assert(message_views(self.messages@) =~= seq![
                        system_message("Conversation compacted."@),
                        ("assistant"@, "[Context]\n"@ + content@, source_views(old(self).streaming_sources@)),
                    ]);
                    self.scroll = 0;
                    self.compacting = false;
                } else {
                    push_assistant(&mut self.messages, content, sources);
                }
                self.loading = false;
                true
            },
            SseEvent::Error(e) => {
                let mut entry = String::from_str("<<< STREAM ERROR: ");
                entry.append(e.as_str());
                let ghost before = texts(self.raw_log@);
                self.raw_log.push(entry);
                assert(texts(self.raw_log@) =~= before.push("<<< STREAM ERROR: "@ + e@));
                self.compacting = false;
                let content = if self.streaming_content.as_str().is_empty() {
                    let mut c = String::from_str("Stream error: ");
                    c.append(e.as_str());
                    c
                } else {
                    let mut partial = String::new();
                    std::mem::swap(&mut partial, &mut self.streaming_content);
                    partial.append("\n\n[stream error: ");
                    partial.append(e.as_str());
                    partial.append("]");
                    partial
                };
                let mut sources: Vec<Source> = Vec::new();
                std::mem::swap(&mut sources, &mut self.streaming_sources);
                push_assistant(&mut self.messages, content, sources);
                self.loading = false;
                true
            },
        }
    }

    /// Records the request sent for an answer in the log.
    pub fn log_request(&mut self, compact: bool, body_text: &str)
        ensures
            texts(final(self).raw_log@) == texts(old(self).raw_log@).push(
                (if compact {
                    ">>> COMPACT REQUEST: "@
                } else {
                    ">>> REQUEST: "@
                }) + body_text@,
            ),
            *final(self) == (ChatState { raw_log: final(self).raw_log, ..*old(self) }),
    {
        let mut entry = if compact {
            String::from_str(">>> COMPACT REQUEST: ")
        } else {
            String::from_str(">>> REQUEST: ")
        };
        entry.append(body_text);
        let ghost before = texts(self.raw_log@);
        self.raw_log.push(entry);
        assert(texts(self.raw_log@) =~= before.push(entry@));
    }
}

/// Whether the server's experimental features have chat completions on.
pub fn chat_enabled(features: &Json) -> (r: bool)
    ensures
        r == (features.spec_get("chatCompletions"@) == Some(Json::Bool(true))),
{
    match features.get("chatCompletions") {
        Some(v) => match v.as_bool() {
            Some(b) => b,
            None => false,
        },
        None => false,
    }
}

/// `{"chatCompletions": true}`: the features update that turns chat on.
pub fn enable_chat_body() -> (r: Json)
    ensures
        crate::json::names_of(r) == seq!["chatCompletions"@],
        r.spec_get("chatCompletions"@) == Some(Json::Bool(true)),
{
    let m = crate::json::with_member(Vec::new(), "chatCompletions", Some(Json::Bool(true)));
    let r = Json::Object(m);
    assert(crate::json::names_of(r) =~= seq!["chatCompletions"@]) by {
        assert(crate::json::names_of(r) =~= crate::json::member_names(m@));
    }
    r
}

/// The request of a one-off chat: the message (`Hello` by default) to the
/// model (the default one when none is given).
pub fn single_message_body(message: Option<&str>, model: Option<&str>) -> (r: Json)
    ensures
        is_chat_body(
            r,
            match model {
                Some(m) => m@,
                None => default_model(),
            },
            seq![(
                "user"@,
                match message {
                    Some(t) => t@,
                    None => "Hello"@,
                },
            )],
        ),
{
    let text: &str = match message {
        Some(t) => t,
        None => "Hello",
    };
    let name: &str = match model {
        Some(m) => m,
        None => "gpt-4o-mini",
    };
    let mut msgs: Vec<Json> = Vec::new();
    msgs.push(message_json("user", text));
    chat_body(name, msgs)
}

/// Going back one step in the history and forward again gives back the
/// line that was being typed.
pub proof fn law_history_back_and_forth(
    o: ChatState,
    up: Key,
    m: ChatState,
    r1: ChatAction,
    down: Key,
    n: ChatState,
    r2: ChatAction,
)
    requires
        !o.loading,
        o.input_history@.len() > 0,
        o.history_pos == o.input_history@.len(),
        up.code == KeyCode::Up,
        down.code == KeyCode::Down,
        chat_view_key(o, up, m, r1),
        chat_view_key(m, down, n, r2),
    ensures
        r1 is Continue,
        r2 is Continue,
        m.input@ == o.input_history@.last()@,
        n.input@ == o.input@,
        n.history_pos == o.history_pos,
        n.input_history == o.input_history,
        n.messages == o.messages,
{
}

/// Opening the log and closing it again leaves the chat as it was, but for
/// where the log is scrolled.
pub proof fn law_log_open_then_close(
    o: ChatState,
    open: Key,
    m: ChatState,
    r1: ChatAction,
    close: Key,
    n: ChatState,
    r2: ChatAction,
)
    requires
        !o.show_log,
        open.is_ctrl_char('o') || open.is_ctrl_char('d'),
        close.is_ctrl_char('o') || close.code == KeyCode::Esc,
        chat_view_key(o, open, m, r1),
        log_view_key(m, close, n, r2),
    ensures
        m.show_log,
        r1 is Continue,
        r2 is Continue,
        n == (ChatState { log_scroll: n.log_scroll, ..o }),
{
}

/// Toggling the sources twice shows them as before.
pub proof fn law_sources_toggle_twice(
    o: ChatState,
    k1: Key,
    m: ChatState,
    r1: ChatAction,
    k2: Key,
    n: ChatState,
    r2: ChatAction,
)
    requires
        k1.is_ctrl_char('s'),
        k2.is_ctrl_char('s'),
        chat_view_key(o, k1, m, r1),
        chat_view_key(m, k2, n, r2),
    ensures
        m.show_sources == !o.show_sources,
        n == o,
{
}

} // verus!
