use meilisearch_cli::chat::{
    chat_enabled, enable_chat_body, single_message_body, split_command, ChatAction, ChatState,
    Source, SseEvent,
};
use meilisearch_cli::json::Json;
use meilisearch_cli::keys::{Key, KeyCode};
use meilisearch_cli::sse::{content_delta, sse_line, take_line, tool_result_events, SseLine, ToolCalls};

fn key(code: KeyCode) -> Key {
    Key { code, ctrl: false, shift: false }
}

fn ctrl(c: char) -> Key {
    Key { code: KeyCode::Char(c), ctrl: true, shift: false }
}

fn type_text(st: &mut ChatState, t: &str) {
    for c in t.chars() {
        st.handle_key(key(KeyCode::Char(c)));
    }
}

fn last_content(st: &ChatState) -> &str {
    st.messages.last().unwrap().content.as_str()
}

#[test]
fn command_word_and_argument() {
    assert_eq!(split_command("  /model   gpt-4o  "), ("/model".to_string(), Some("gpt-4o".to_string())));
    assert_eq!(split_command("/help"), ("/help".to_string(), None));
}

#[test]
fn new_chat_greets_and_uses_default_model() {
    let st = ChatState::new("cloud", None);
    assert_eq!(st.model, "gpt-4o-mini");
    assert_eq!(st.workspace, "cloud");
    assert_eq!(last_content(&st), "Welcome to Meilisearch Chat. Type /help for commands.");
}

#[test]
fn help_shows_current_model_and_workspace() {
    let mut st = ChatState::new("ws1", Some("m1"));
    assert!(!st.handle_slash_command("/help"));
    let help = last_content(&st);
    assert!(help.starts_with("/model <name>     — change LLM model (current: m1)\n/workspace <name> — change chat workspace (current: ws1)\n"));
    assert!(help.ends_with("/help              — show this help"));
    assert_eq!(st.messages.last().unwrap().role, "system");
}

#[test]
fn model_and_workspace_commands() {
    let mut st = ChatState::new("ws", None);
    st.handle_slash_command("/model gpt-4o");
    assert_eq!(st.model, "gpt-4o");
    assert_eq!(last_content(&st), "Model set to: gpt-4o");
    st.handle_slash_command("/model");
    assert_eq!(last_content(&st), "Current model: gpt-4o\nUsage: /model <name>");
    st.handle_slash_command("/workspace docs");
    assert_eq!(st.workspace, "docs");
    assert_eq!(last_content(&st), "Workspace set to: docs");
}

#[test]
fn clear_sources_log_and_unknown_commands() {
    let mut st = ChatState::new("ws", None);
    st.raw_log.push("x".to_string());
    st.handle_slash_command("/sources");
    assert!(st.show_sources);
    assert_eq!(last_content(&st), "Sources: visible");
    st.handle_slash_command("/clear");
    assert_eq!(st.messages.len(), 1);
    assert!(st.raw_log.is_empty());
    assert_eq!(last_content(&st), "Chat cleared.");
    st.raw_log.push("a".to_string());
    st.raw_log.push("b".to_string());
    let before = st.messages.len();
    assert!(!st.handle_slash_command("/log"));
    assert!(st.show_log);
    assert_eq!(st.log_scroll, 1);
    assert_eq!(st.messages.len(), before);
    st.handle_slash_command("/frob x");
    assert_eq!(last_content(&st), "Unknown command: /frob\nType /help for available commands.");
}

#[test]
fn compact_needs_a_conversation() {
    let mut st = ChatState::new("ws", None);
    assert!(!st.handle_slash_command("/compact"));
    assert_eq!(last_content(&st), "Nothing to compact.");
}

#[test]
fn sending_a_message_builds_the_request() {
    let mut st = ChatState::new("ws", Some("m"));
    type_text(&mut st, "hi");
    let action = st.handle_key(key(KeyCode::Enter));
    let expected = Json::Object(vec![
        (
            "messages".to_string(),
            Json::Array(vec![Json::Object(vec![
                ("content".to_string(), Json::Str("hi".to_string())),
                ("role".to_string(), Json::Str("user".to_string())),
            ])]),
        ),
        ("model".to_string(), Json::Str("m".to_string())),
        ("stream".to_string(), Json::Bool(true)),
    ]);
    assert_eq!(action, ChatAction::Send(expected));
    assert!(st.loading);
    assert_eq!(st.input, "");
    assert_eq!(st.input_history, vec!["hi".to_string()]);
    assert_eq!(st.raw_log, vec![">>> USER: hi".to_string()]);
    // keys other than scrolling are ignored while the answer streams
    st.handle_key(key(KeyCode::Char('x')));
    assert_eq!(st.input, "");
}

#[test]
fn streamed_answer_becomes_a_message() {
    let mut st = ChatState::new("ws", None);
    st.loading = true;
    assert!(!st.apply_event(SseEvent::ContentDelta("Hel".to_string())));
    assert!(!st.apply_event(SseEvent::ContentDelta("lo".to_string())));
    let src = Source { index: "movies".to_string(), title: "T".to_string(), snippet: String::new() };
    st.apply_event(SseEvent::Source(src.clone()));
    assert!(st.apply_event(SseEvent::Done));
    let m = st.messages.last().unwrap();
    assert_eq!(m.role, "assistant");
    assert_eq!(m.content, "Hello");
    assert_eq!(m.sources, vec![src]);
    assert!(!st.loading);
    assert!(st.streaming_content.is_empty());
}

#[test]
fn empty_answer_and_stream_errors() {
    let mut st = ChatState::new("ws", None);
    st.apply_event(SseEvent::Done);
    assert_eq!(last_content(&st), "(empty response — check log with Ctrl+O)");
    st.apply_event(SseEvent::Error("boom".to_string()));
    assert_eq!(last_content(&st), "Stream error: boom");
    assert_eq!(st.raw_log.last().unwrap(), "<<< STREAM ERROR: boom");
    st.apply_event(SseEvent::ContentDelta("part".to_string()));
    st.apply_event(SseEvent::Error("cut".to_string()));
    assert_eq!(last_content(&st), "part\n\n[stream error: cut]");
}

#[test]
fn compaction_replaces_the_conversation() {
    let mut st = ChatState::new("ws", Some("m"));
    type_text(&mut st, "q1");
    st.handle_key(key(KeyCode::Enter));
    st.apply_event(SseEvent::ContentDelta("a1".to_string()));
    st.apply_event(SseEvent::Done);
    type_text(&mut st, "/compact");
    let action = st.handle_key(key(KeyCode::Enter));
    match action {
        ChatAction::Compact(body) => {
            let msgs = body.get("messages").unwrap();
            let prompt = msgs.at(0).unwrap().get_str("content").unwrap();
            assert!(prompt.ends_with("continue from this summary.\n\nuser: q1\n\nassistant: a1\n\n"));
        }
        other => panic!("unexpected {:?}", other),
    }
    assert!(st.compacting);
    assert_eq!(last_content(&st), "Compacting conversation...");
    st.apply_event(SseEvent::ContentDelta("summary".to_string()));
    st.apply_event(SseEvent::Done);
    assert_eq!(st.messages.len(), 2);
    assert_eq!(st.messages[0].content, "Conversation compacted.");
    assert_eq!(st.messages[1].content, "[Context]\nsummary");
    assert!(!st.compacting);
}

#[test]
fn history_recall_with_arrows() {
    let mut st = ChatState::new("ws", None);
    type_text(&mut st, "/sources");
    st.handle_key(key(KeyCode::Enter));
    type_text(&mut st, "dra");
    st.handle_key(key(KeyCode::Up));
    assert_eq!(st.input, "/sources");
    st.handle_key(key(KeyCode::Down));
    assert_eq!(st.input, "dra");
    st.handle_key(key(KeyCode::Backspace));
    assert_eq!(st.input, "dr");
}

#[test]
fn log_view_keys() {
    let mut st = ChatState::new("ws", None);
    st.raw_log = vec!["a".to_string(), "b".to_string(), "c".to_string()];
    st.handle_key(ctrl('o'));
    assert!(st.show_log);
    assert_eq!(st.log_scroll, 2);
    st.handle_key(key(KeyCode::Char('g')));
    assert_eq!(st.log_scroll, 0);
    st.handle_key(key(KeyCode::Up));
    assert_eq!(st.log_scroll, 0);
    st.handle_key(key(KeyCode::Char('j')));
    assert_eq!(st.log_scroll, 1);
    st.handle_key(key(KeyCode::Esc));
    assert!(!st.show_log);
    assert_eq!(st.handle_key(ctrl('c')), ChatAction::Quit);
}

#[test]
fn ctrl_l_clears_and_ctrl_d_shows_the_log() {
    let mut st = ChatState::new("ws", None);
    type_text(&mut st, "hello");
    st.raw_log.push("x".to_string());
    assert_eq!(st.handle_key(ctrl('l')), ChatAction::Continue);
    assert_eq!(st.messages.len(), 1);
    assert_eq!(last_content(&st), "Chat cleared.");
    assert!(st.raw_log.is_empty());
    assert_eq!(st.input, "hello");
    st.handle_key(ctrl('d'));
    assert!(st.show_log);
}

#[test]
fn chat_feature_and_one_off_request() {
    let on = Json::Object(vec![("chatCompletions".to_string(), Json::Bool(true))]);
    assert!(chat_enabled(&on));
    assert!(!chat_enabled(&Json::Object(vec![])));
    assert_eq!(enable_chat_body(), on);
    let body = single_message_body(None, None);
    assert_eq!(body.get_str("model"), Some("gpt-4o-mini"));
    let first = body.get("messages").unwrap().at(0).unwrap();
    assert_eq!(first.get_str("content"), Some("Hello"));
    assert_eq!(first.get_str("role"), Some("user"));
}

#[test]
fn lines_are_taken_one_at_a_time() {
    assert_eq!(take_line("partial"), None);
    assert_eq!(
        take_line("  data: x \r\nrest"),
        Some(("data: x".to_string(), "rest".to_string()))
    );
}

#[test]
fn sse_lines_are_classified() {
    assert_eq!(sse_line(""), SseLine::Blank);
    assert_eq!(sse_line("data: [DONE]"), SseLine::Done);
    assert_eq!(sse_line("data: {}"), SseLine::Data("{}".to_string()));
    assert_eq!(sse_line("event: ping"), SseLine::Ignored);
}

fn chunk(delta: Json, finish: Option<&str>) -> Json {
    let mut choice = vec![("delta".to_string(), delta)];
    if let Some(f) = finish {
        choice.push(("finish_reason".to_string(), Json::Str(f.to_string())));
    }
    Json::Object(vec![("choices".to_string(), Json::Array(vec![Json::Object(choice)]))])
}

#[test]
fn content_delta_is_read() {
    let c = chunk(Json::Object(vec![("content".to_string(), Json::Str("Hi".to_string()))]), None);
    assert_eq!(content_delta(&c), Some("Hi"));
    let mut calls = ToolCalls::new();
    let (events, done) = calls.decode_data("raw", Some(&c));
    assert_eq!(
        events,
        vec![SseEvent::RawLog("raw".to_string()), SseEvent::ContentDelta("Hi".to_string())]
    );
    assert!(done.is_empty());
    let (events, _) = calls.decode_data("not json", None);
    assert_eq!(events, vec![SseEvent::RawLog("not json".to_string())]);
}

fn call(index: u64, name: Option<&str>, args: &str) -> Json {
    let mut f = vec![];
    if let Some(n) = name {
        f.push(("name".to_string(), Json::Str(n.to_string())));
    }
    f.push(("arguments".to_string(), Json::Str(args.to_string())));
    Json::Object(vec![
        ("index".to_string(), Json::Number(index.to_string())),
        ("function".to_string(), Json::Object(f)),
    ])
}

#[test]
fn tool_call_arguments_are_gathered_until_the_round_ends() {
    let mut calls = ToolCalls::new();
    let first = chunk(
        Json::Object(vec![("tool_calls".to_string(), Json::Array(vec![call(0, Some("_meiliSearchSources"), "{\"docu")]))]),
        None,
    );
    let (events, done) = calls.decode_data("d1", Some(&first));
    assert_eq!(
        events,
        vec![
            SseEvent::RawLog("d1".to_string()),
            SseEvent::ToolCall("_meiliSearchSources".to_string()),
            SseEvent::RawLog("  [tool_call] _meiliSearchSources".to_string()),
        ]
    );
    assert!(done.is_empty());
    let second = chunk(
        Json::Object(vec![("tool_calls".to_string(), Json::Array(vec![call(0, None, "ments\":[]}")]))]),
        Some("tool_calls"),
    );
    let (_, done) = calls.decode_data("d2", Some(&second));
    assert_eq!(done, vec![("_meiliSearchSources".to_string(), "{\"documents\":[]}".to_string())]);
    assert!(calls.args.is_empty());
}

#[test]
fn search_sources_become_sources() {
    let long: String = "x".repeat(130);
    let docs = Json::Object(vec![(
        "documents".to_string(),
        Json::Array(vec![
            Json::Object(vec![
                ("_index".to_string(), Json::Str("movies".to_string())),
                ("name".to_string(), Json::Str("Heat".to_string())),
                ("description".to_string(), Json::Str(long.clone())),
            ]),
            Json::Object(vec![]),
        ]),
    )]);
    let events = tool_result_events("_meiliSearchSources", &docs, "{...}");
    assert_eq!(events[0], SseEvent::RawLog("  [tool_args] {...}".to_string()));
    assert_eq!(
        events[1],
        SseEvent::Source(Source {
            index: "movies".to_string(),
            title: "Heat".to_string(),
            snippet: format!("{}...", &long[..117]),
        })
    );
    assert_eq!(
        events[2],
        SseEvent::Source(Source { index: String::new(), title: "(untitled)".to_string(), snippet: String::new() })
    );
    assert_eq!(tool_result_events("other", &docs, "c").len(), 1);
}

#[test]
fn opening_and_closing_the_log_leaves_the_chat_as_it_was() {
    let mut st = ChatState::new("ws", None);
    type_text(&mut st, "draft");
    st.raw_log = vec!["a".to_string(), "b".to_string()];
    st.handle_key(ctrl('d'));
    assert!(st.show_log);
    st.handle_key(key(KeyCode::Esc));
    assert!(!st.show_log);
    assert_eq!(st.input, "draft");
    assert_eq!(st.messages.len(), 1);
    assert_eq!(st.log_scroll, 1);
}

#[test]
fn toggling_sources_twice_restores_them() {
    let mut st = ChatState::new("ws", None);
    st.handle_key(ctrl('s'));
    assert!(st.show_sources);
    st.handle_key(ctrl('s'));
    assert!(!st.show_sources);
}

fn msg(role: &str, content: &str) -> Json {
    Json::Object(vec![
        ("content".to_string(), Json::Str(content.to_string())),
        ("role".to_string(), Json::Str(role.to_string())),
    ])
}

#[test]
fn system_prompt_is_set_and_sent_with_later_requests() {
    let mut st = ChatState::new("cloud", None);
    assert!(!st.handle_slash_command("/system"));
    assert_eq!(last_content(&st), "No system prompt set.\nUsage: /system <message>");
    assert!(!st.handle_slash_command("/system Be brief"));
    assert_eq!(last_content(&st), "System prompt set: Be brief");
    assert_eq!(st.system_prompt, Some("Be brief".to_string()));
    assert!(!st.handle_slash_command("/system"));
    assert_eq!(last_content(&st), "Current system prompt: Be brief\nUsage: /system <message>");
    type_text(&mut st, "hi");
    let action = st.handle_key(key(KeyCode::Enter));
    let expected = Json::Object(vec![
        ("messages".to_string(), Json::Array(vec![msg("system", "Be brief"), msg("user", "hi")])),
        ("model".to_string(), Json::Str("gpt-4o-mini".to_string())),
        ("stream".to_string(), Json::Bool(true)),
    ]);
    assert_eq!(action, ChatAction::Send(expected));
}

#[test]
fn help_lists_the_system_command() {
    let mut st = ChatState::new("ws", None);
    st.handle_slash_command("/help");
    assert!(last_content(&st).contains("/system <msg>     — set the system prompt\n"));
}

#[test]
fn stream_lines_end_on_done_and_decode_data() {
    let mut calls = ToolCalls::new();
    let step = calls.read_line("", None);
    assert!(step.events.is_empty() && !step.stop);
    let step = calls.read_line(": keep-alive", None);
    assert!(step.events.is_empty() && !step.stop);
    let chunk = Json::Object(vec![(
        "choices".to_string(),
        Json::Array(vec![Json::Object(vec![(
            "delta".to_string(),
            Json::Object(vec![("content".to_string(), Json::Str("Hel".to_string()))]),
        )])]),
    )]);
    let step = calls.read_line("data: {\"x\":1}", Some(&chunk));
    assert!(!step.stop);
    assert_eq!(
        step.events,
        vec![SseEvent::RawLog("{\"x\":1}".to_string()), SseEvent::ContentDelta("Hel".to_string())]
    );
    let step = calls.read_line("data: [DONE]", None);
    assert!(step.stop);
    assert_eq!(step.events, vec![SseEvent::RawLog("[DONE]".to_string()), SseEvent::Done]);
}
