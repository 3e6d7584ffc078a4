//! What a model sees, the tools it is offered, and what a turn leaves in the log.

use execlaw_server::chat_history::build_runner_history_messages;
use execlaw_server::chat_types::{
    spotlight_for, EventKind, EventRecord, ModelTurnPayload, Payload, Role, Spotlight, ToolResultPayload,
    ToolUsePayload, TrustLevel, UserMessagePayload,
};
use execlaw_server::json::{JsonMember, JsonValue};
use execlaw_server::real_turn::{
    answer_event, answer_request, build_executor_turn, real_turn_messages, run_stub_turn,
    run_tool_capable_turn, spoken_history, stub_reply, stub_turn_events, ChoiceDelta,
    ExecutorSetting, ExecutorTurn, OutputHint, StreamAssembly,
};
use execlaw_server::runner_turn::{
    answer_seq, build_turn_request, stamp_origin, ResolvedInference, RunnerDrain, RunnerEnd,
    TurnIdentity, TurnPrompt, MAX_ANSWER_TOKENS,
};
use execlaw_server::send::{TurnPath, TurnPlan};
use execlaw_server::tool_catalog::{
    build_runner_tool_catalog, has_sensitive_tools, AccessLookup, BuiltinTool, PluginTool,
    ToolAccessRow,
};

fn user(text: &str) -> UserMessagePayload {
    UserMessagePayload {
        text: text.to_owned(),
        sender_principal_id: None,
        channel_origin: None,
        attachment_ids: vec![],
        applied_skill_names: vec![],
    }
}

fn event(seq: i64, kind: EventKind, payload: Payload, actor: &str) -> EventRecord {
    EventRecord { seq, kind, payload: Some(payload), actor: Some(actor.to_owned()), committed_at: 0 }
}

fn said(seq: i64, text: &str) -> EventRecord {
    event(seq, EventKind::UserMsg, Payload::User(user(text)), "controller")
}

fn answered(seq: i64, text: &str) -> EventRecord {
    event(
        seq,
        EventKind::ModelTurn,
        Payload::Model(ModelTurnPayload {
            model: "Q".to_owned(),
            text: text.to_owned(),
            finish_reason: Some("stop".to_owned()),
            channel_origin: None,
        }),
        "agent",
    )
}

fn called(seq: i64, ordinal: u32, name: &str, args: &str) -> EventRecord {
    event(
        seq,
        EventKind::ToolUse,
        Payload::ToolUse(ToolUsePayload {
            ordinal,
            tool_name: name.to_owned(),
            args_json: args.to_owned(),
        }),
        "agent",
    )
}

fn returned(seq: i64, ordinal: u32, outcome: Result<&str, &str>) -> EventRecord {
    event(
        seq,
        EventKind::ToolResult,
        Payload::ToolResult(ToolResultPayload {
            ordinal,
            outcome: outcome.map(str::to_owned).map_err(str::to_owned),
        }),
        "system",
    )
}

#[test]
fn build_runner_history_messages_includes_tool_traces() {
    let history = [
        said(1, "find me a chart"),
        called(2, 0, "chart.render", "{\"spec\":\"...\"}"),
        returned(3, 0, Ok("{\"chart_id\":\"c1\"}")),
        answered(4, "here is the chart"),
        said(5, "what color was that?"),
    ];
    let messages = build_runner_history_messages(&history, 5, None, 100_000);
    assert_eq!(messages.len(), 4);
    assert!(matches!(messages[0].role, Role::User));
    assert!(matches!(messages[1].role, Role::Assistant));
    assert!(matches!(messages[2].role, Role::Tool));
    assert!(matches!(messages[3].role, Role::Assistant));
    assert_eq!(messages[1].tool_calls.len(), 1);
    assert_eq!(messages[1].tool_calls[0].function.name, "chart.render");
    assert_eq!(messages[1].tool_calls[0].id, "call_0");
    assert_eq!(messages[2].tool_call_id.as_deref(), Some("call_0"));
    assert_eq!(messages[3].content, "here is the chart");
    assert!(messages[3].tool_calls.is_empty());
}

#[test]
fn history_without_a_budget_keeps_no_broken_turn() {
    let history = [said(1, "one"), answered(2, "two"), said(3, "three")];
    let all = build_runner_history_messages(&history, 9, None, 100_000);
    assert_eq!(all.len(), 3);
    let none = build_runner_history_messages(&history, 9, None, 0);
    assert!(none.len() < all.len());
    assert!(none.iter().all(|m| m.role != Role::Tool));
}

fn plugin(name: &str, caps: &[&str], access: AccessLookup) -> PluginTool {
    PluginTool {
        tool_name: name.to_owned(),
        plugin_id: "p".to_owned(),
        latency: "low".to_owned(),
        description: None,
        schema_json: None,
        required_capabilities: caps.iter().map(|c| (*c).to_owned()).collect(),
        sensitive: false,
        access,
    }
}

fn builtin(name: &str, caps: &[&str]) -> BuiltinTool {
    BuiltinTool {
        name: name.to_owned(),
        description: "d".to_owned(),
        schema: "{\"type\":\"object\"}".to_owned(),
        capability_tags: caps.iter().map(|c| (*c).to_owned()).collect(),
        sensitive: false,
        access: AccessLookup::Missing,
    }
}

fn caps(items: &[&str]) -> Vec<String> {
    items.iter().map(|s| (*s).to_owned()).collect()
}

#[test]
fn build_runner_tool_catalog_strips_all_tools_when_planner_executor() {
    let plugins = vec![plugin("p.tool_a", &[], AccessLookup::Missing)];
    let off = build_runner_tool_catalog(
        &vec![],
        &plugins,
        TrustLevel::Controller,
        &caps(&["*"]),
        false,
    );
    assert!(!off.declarations.is_empty());
    assert!(!off.builtin_names.is_empty() || !off.plugin_tool_names.is_empty());
    let on = build_runner_tool_catalog(
        &vec![],
        &plugins,
        TrustLevel::Controller,
        &caps(&["*"]),
        true,
    );
    assert!(on.declarations.is_empty());
    assert!(on.builtin_names.is_empty() && on.plugin_tool_names.is_empty());
}

#[test]
fn build_runner_tool_catalog_filters_by_tool_access_row() {
    let only = || {
        AccessLookup::Row(ToolAccessRow {
            enabled: true,
            removed_at: None,
            allowed_classes: vec!["Controller".to_owned()],
        })
    };
    let plugins = vec![
        plugin("controller_only_tool", &[], only()),
        plugin("open_tool", &[], AccessLookup::Missing),
    ];
    let limited = build_runner_tool_catalog(
        &vec![],
        &plugins,
        TrustLevel::KnownLimited,
        &caps(&["messaging.reply_current_transport"]),
        false,
    );
    let names: Vec<&str> =
        limited.declarations.iter().map(|t| t.function.name.as_str()).collect();
    assert!(!names.contains(&"controller_only_tool"));
    assert!(names.contains(&"open_tool"));
    assert!(!limited.plugin_tool_names.contains(&"controller_only_tool".to_owned()));
    assert!(limited.plugin_tool_names.contains(&"open_tool".to_owned()));

    let controller = build_runner_tool_catalog(
        &vec![],
        &plugins,
        TrustLevel::Controller,
        &caps(&["*"]),
        false,
    );
    let names: Vec<&str> =
        controller.declarations.iter().map(|t| t.function.name.as_str()).collect();
    assert!(names.contains(&"controller_only_tool"));
    assert!(names.contains(&"open_tool"));
}

#[test]
fn build_runner_tool_catalog_filters_builtins_by_caller_caps() {
    let builtins = vec![builtin("memory_write_test", &["memory.write"]), builtin("no_caps_test", &[])];
    let limited = build_runner_tool_catalog(
        &builtins,
        &vec![],
        TrustLevel::KnownLimited,
        &caps(&["messaging.reply_current_transport"]),
        false,
    );
    let names: Vec<&str> =
        limited.declarations.iter().map(|t| t.function.name.as_str()).collect();
    assert!(!names.contains(&"memory_write_test"));
    assert!(names.contains(&"no_caps_test"));
    assert!(!limited.builtin_names.contains(&"memory_write_test".to_owned()));
    assert!(limited.builtin_names.contains(&"no_caps_test".to_owned()));

    let controller = build_runner_tool_catalog(
        &builtins,
        &vec![],
        TrustLevel::Controller,
        &caps(&["*"]),
        false,
    );
    let names: Vec<&str> =
        controller.declarations.iter().map(|t| t.function.name.as_str()).collect();
    assert!(names.contains(&"memory_write_test"));
    assert!(names.contains(&"no_caps_test"));
}

#[test]
fn build_runner_tool_catalog_filters_plugin_tools_by_required_capabilities() {
    let plugins = vec![
        plugin("needs_memory", &["memory.read", "memory.write"], AccessLookup::Missing),
        plugin("needs_nothing", &[], AccessLookup::Missing),
    ];
    let limited = build_runner_tool_catalog(
        &vec![],
        &plugins,
        TrustLevel::KnownLimited,
        &caps(&["messaging.reply_current_transport"]),
        false,
    );
    let names: Vec<&str> =
        limited.declarations.iter().map(|t| t.function.name.as_str()).collect();
    assert!(!names.contains(&"needs_memory"));
    assert!(names.contains(&"needs_nothing"));

    let trusted = build_runner_tool_catalog(
        &vec![],
        &plugins,
        TrustLevel::KnownTrusted,
        &caps(&[
            "messaging.reply_current_transport",
            "memory.read",
            "memory.write",
            "tools.safe",
        ]),
        false,
    );
    let names: Vec<&str> =
        trusted.declarations.iter().map(|t| t.function.name.as_str()).collect();
    assert!(names.contains(&"needs_memory"));
    assert!(names.contains(&"needs_nothing"));
}

#[test]
fn unreadable_and_switched_off_rules_hide_a_tool() {
    let off = AccessLookup::Row(ToolAccessRow {
        enabled: false,
        removed_at: None,
        allowed_classes: vec!["Controller".to_owned()],
    });
    let plugins = vec![plugin("broken", &[], AccessLookup::Failed), plugin("off", &[], off)];
    let view = build_runner_tool_catalog(
        &vec![],
        &plugins,
        TrustLevel::Controller,
        &caps(&["*"]),
        false,
    );
    assert!(view.declarations.is_empty());
    assert!(!has_sensitive_tools(&vec![], &plugins));
    let mut secret = plugin("s", &[], AccessLookup::Missing);
    secret.sensitive = true;
    assert!(has_sensitive_tools(&vec![], &vec![secret]));
}

#[test]
fn runner_path_emits_paired_tool_events() {
    let mut drain = RunnerDrain::new();
    drain.on_tool_request(
        "web.fetch".to_owned(),
        "{\"url\":\"https://example.test\"}".to_owned(),
    );
    let ok = "{\"body\":\"ok\",\"status\":200}".to_owned();
    assert_eq!(drain.on_tool_outcome(Ok(ok)), "finished");
    drain.on_tool_request(
        "memory.write".to_owned(),
        "{\"key\":\"k\",\"value\":\"v\"}".to_owned(),
    );
    assert_eq!(drain.on_tool_outcome(Err("capability not granted".to_owned())), "failed");
    let text = JsonMember { key: "text".to_owned(), value: JsonValue::Text("done".to_owned()) };
    drain.on_append("model_turn", JsonValue::Object(vec![text]), Some("agent".to_owned()), None);
    drain.on_complete("done".to_owned());
    let events = match drain.finish() {
        RunnerEnd::Commit { events, reply } => {
            assert_eq!(reply.as_deref(), Ok("done"));
            events
        }
        other => panic!("unexpected {other:?}"),
    };
    assert_eq!(events.len(), 5);
    let mut uses: Vec<u32> = vec![];
    let mut results: Vec<(u32, bool)> = vec![];
    for e in &events {
        match &e.payload {
            Payload::ToolUse(p) => uses.push(p.ordinal),
            Payload::ToolResult(p) => results.push((p.ordinal, p.outcome.is_err())),
            _ => {}
        }
    }
    assert_eq!(uses, vec![0, 1]);
    assert_eq!(results, vec![(0, false), (1, true)]);
    assert!(events.iter().any(|e| matches!(e.kind, EventKind::ModelTurn)));
}

#[test]
fn runner_abnormal_end_still_commits_executed_tools() {
    let mut drain = RunnerDrain::new();
    drain.on_tool_request("calendar.create_event".to_owned(), "{\"title\":\"lunch\"}".to_owned());
    drain.on_tool_outcome(Ok("{\"event_id\":\"evt-1\"}".to_owned()));
    drain.on_error("stopped".to_owned(), true);
    let events = match drain.finish() {
        RunnerEnd::Commit { events, reply } => {
            assert_eq!(reply.as_deref(), Ok("(stopped before any output)"));
            events
        }
        other => panic!("unexpected {other:?}"),
    };
    assert_eq!(events.len(), 3);
    let kinds: Vec<&str> = events.iter().map(|e| e.kind.as_str()).collect();
    assert_eq!(kinds, vec!["tool_use", "tool_result", "model_turn"]);
    match &events[2].payload {
        Payload::Model(p) => {
            assert_eq!(p.finish_reason.as_deref(), Some("cancelled"));
            assert_eq!(p.text, "(stopped before any output)");
            assert_eq!(p.model, "");
        }
        other => panic!("unexpected {other:?}"),
    }
    assert_eq!(events[2].actor.as_deref(), Some("system"));
}

#[test]
fn a_failure_before_anything_was_recorded_commits_nothing() {
    let mut drain = RunnerDrain::new();
    drain.on_error("no route".to_owned(), false);
    match drain.finish() {
        RunnerEnd::Abandoned(m) => assert_eq!(m, "no route"),
        other => panic!("unexpected {other:?}"),
    }
    let mut broken = RunnerDrain::new();
    broken.on_tool_request("t".to_owned(), "{}".to_owned());
    broken.on_encode_error("tool_result", "bad utf8");
    match broken.finish() {
        RunnerEnd::Commit { reply, .. } => {
            assert_eq!(reply.unwrap_err(), "encode tool_result: bad utf8");
        }
        other => panic!("unexpected {other:?}"),
    }
}

#[test]
fn a_runner_gets_one_consistent_request() {
    let request = build_turn_request(
        TurnIdentity {
            turn_id: "t".to_owned(),
            conversation_id: "c".to_owned(),
            group_id: "g".to_owned(),
            sender_principal_id: None,
            sender_trust: TrustLevel::Controller,
        },
        TurnPrompt {
            system_prompt: "s".to_owned(),
            history: vec![],
            user_text: "u".to_owned(),
            user_image_urls: vec![],
            tool_catalog: vec![],
        },
        ResolvedInference {
            endpoint: "http://h/v1".to_owned(),
            model_id: "m".to_owned(),
            reasoning_enabled: true,
        },
        None,
        8,
    );
    assert_eq!(request.sender_principal_id, "controller");
    assert_eq!(request.sender_trust_class, "Controller");
    assert_eq!(request.max_tokens, Some(MAX_ANSWER_TOKENS));
    assert_eq!((request.model.as_str(), request.inference_url.as_str()), ("m", "http://h/v1"));
}

fn backend(model: &str, reasoning_enabled: bool) -> ResolvedInference {
    ResolvedInference {
        endpoint: "http://h/v1".to_owned(),
        model_id: model.to_owned(),
        reasoning_enabled,
    }
}

fn marks() -> Spotlight {
    Spotlight { open: "<<".to_owned(), before: "<<\n".to_owned(), after: "\n>>".to_owned() }
}

fn executor_turn(spotlight: bool, small: bool, policy: Option<&str>) -> ExecutorTurn {
    let plan = TurnPlan {
        path: TurnPath::Tools,
        user_text: "u".to_owned(),
        sender_principal_id: Some("pri_x".to_owned()),
        caller_caps: vec!["web".to_owned()],
        caller_trust: TrustLevel::KnownLimited,
        spotlight,
        planner_executor: true,
        channel_origin: Some("signal".to_owned()),
        timezone: None,
        attachment_ids: vec!["a1".to_owned()],
        applied_skill_names: vec!["s1".to_owned()],
    };
    let setting = ExecutorSetting {
        system_prompt: "s".to_owned(),
        tools: vec![],
        user_image_urls: vec!["data:".to_owned()],
        max_tool_rounds: 7,
        context_window_policy: policy.map(str::to_owned),
        small: if small { Some(backend("tiny", false)) } else { None },
        standard: Some(backend("big", true)),
    };
    build_executor_turn(plan, &backend("m", true), setting, marks())
}

#[test]
fn the_executor_gets_the_limits_of_the_turn() {
    let turn = executor_turn(true, true, Some("last-10"));
    assert_eq!((turn.config.model.as_str(), turn.config.system_prompt.as_str()), ("m", "s"));
    assert_eq!((turn.config.max_tokens, turn.config.max_tool_rounds), (Some(4096), 7));
    assert!(turn.config.reasoning_enabled && turn.config.tools.is_empty());
    assert_eq!(turn.config.inbound_channel_origin.as_deref(), Some("signal"));
    assert_eq!(turn.config.spotlight_delim.as_deref(), Some("<<"));
    assert_eq!(turn.config.context_window_policy, "last-10");
    assert_eq!(turn.config.summarizer.map(|b| b.model_id).as_deref(), Some("tiny"));
    assert_eq!(turn.caller_caps, vec!["web".to_owned()]);
    assert_eq!(turn.caller_trust, TrustLevel::KnownLimited);
    assert_eq!(turn.user_image_urls, vec!["data:".to_owned()]);
    assert_eq!(turn.attachment_ids, vec!["a1".to_owned()]);

    let plain = executor_turn(false, false, None);
    assert_eq!(plain.config.spotlight_delim, None);
    assert_eq!(plain.config.context_window_policy, "");
    assert_eq!(plain.config.summarizer.map(|b| b.model_id).as_deref(), Some("big"));
}

#[test]
fn a_streamed_answer_is_asked_for_with_its_limits() {
    for thinking in [true, false] {
        let request = answer_request(&backend("m", thinking), vec![]);
        assert_eq!((request.model.as_str(), request.stream), ("m", true));
        assert_eq!(request.max_tokens, Some(4096));
        assert_eq!(request.enable_thinking, Some(thinking));
        assert_eq!(request.hint, OutputHint::Conversation);
    }
}

#[test]
fn marks_come_only_where_the_policy_asks() {
    assert!(spotlight_for(false, marks()).is_none());
    assert_eq!(spotlight_for(true, marks()).unwrap().open, "<<");
}

#[test]
fn the_origin_is_stamped_once() {
    let stamped = stamp_origin(JsonValue::Object(vec![]), Some("signal"));
    assert_eq!(stamped.get_str("channel_origin"), Some("signal"));
    let again = stamp_origin(stamped, Some("sms"));
    assert_eq!(again.get_str("channel_origin"), Some("signal"));
    let bare = stamp_origin(JsonValue::Object(vec![]), None);
    assert!(bare.get("channel_origin").is_none());
    let member = JsonMember { key: "k".to_owned(), value: JsonValue::Null };
    assert!(stamp_origin(JsonValue::Object(vec![member]), Some("x")).is_object());
}

#[test]
fn answers_are_found_in_what_was_written() {
    let written = vec![said(1, "hi"), answered(2, "yo"), said(3, "more")];
    assert_eq!(answer_seq(&written, 9), 2);
    // Without an answer among them, the number after the log's last one.
    assert_eq!(answer_seq(&vec![said(1, "hi")], 9), 10);
    let outcome = run_tool_capable_turn(&written, 9, "yo".to_owned());
    assert_eq!((outcome.assistant_seq, outcome.assistant_text.as_str()), (2, "yo"));
}

#[test]
fn the_stub_answers_in_two_events() {
    assert_eq!(
        stub_reply("héllo"),
        "(execlaw dev stub) received 5 chars — configure EXECLAW_INFERENCE_URL for live replies"
    );
    let (first, second) = stub_turn_events(user("hello"));
    assert_eq!(first.kind.as_str(), "user_msg");
    assert_eq!(second.kind.as_str(), "model_turn");
    let outcome =
        run_stub_turn(&vec![said(1, "hello"), answered(2, "r")], "r".to_owned()).unwrap();
    assert_eq!((outcome.user_msg_seq, outcome.assistant_seq), (1, 2));
    assert!(run_stub_turn(&vec![], "r".to_owned()).is_err());
}

#[test]
fn a_plain_turn_speaks_and_wraps() {
    // The message of this turn is in the log before the log is read.
    let history = [said(1, "a"), called(2, 0, "t", "{}"), answered(3, "b"), said(4, "now")];
    let kept = spoken_history(&history);
    assert_eq!(kept.len(), 3);
    let spotlight = Spotlight {
        open: "<<".to_owned(),
        before: "<<\n".to_owned(),
        after: "\n>>".to_owned(),
    };
    let messages = real_turn_messages("sys".to_owned(), &kept, "now", vec![], Some(&spotlight));
    let roles: Vec<Role> = messages.iter().map(|m| m.role).collect();
    assert_eq!(roles, vec![Role::System, Role::User, Role::Assistant, Role::User]);
    assert_eq!(messages[1].content, "<<\na\n>>");
    assert_eq!(messages[2].content, "b");
    assert_eq!(messages[3].content, "<<\nnow\n>>");
    let bare = real_turn_messages("sys".to_owned(), &kept, "now", vec![], None);
    assert_eq!(bare[3].content, "now");
}

#[test]
fn images_join_the_message_of_the_turn() {
    let url = "data:image/png;base64,AA".to_owned();
    let kept = spoken_history(&[said(1, "look")]);
    let joined = real_turn_messages("sys".to_owned(), &kept, "look", vec![url.clone()], None);
    assert_eq!(joined.len(), 2);
    assert_eq!(joined[1].content, "look");
    assert_eq!(joined[1].image_urls, vec![url.clone()]);
    // Truncation has evicted the message of the turn.
    let evicted = spoken_history(&[answered(1, "b")]);
    let restored = real_turn_messages("sys".to_owned(), &evicted, "look", vec![url], None);
    assert_eq!(restored.len(), 3);
    assert_eq!(restored[2].content, "look");
}

#[test]
fn a_streamed_answer_is_put_together() {
    let mut stream = StreamAssembly::new("m".to_owned());
    let shown = stream.on_chunk(
        "m2".to_owned(),
        &vec![ChoiceDelta { visible: "Hel".to_owned(), finish_reason: None }],
    );
    assert_eq!(shown, vec!["Hel".to_owned()]);
    stream.on_chunk(
        "m2".to_owned(),
        &vec![ChoiceDelta { visible: "lo".to_owned(), finish_reason: Some("stop".to_owned()) }],
    );
    let end = stream.finish("!".to_owned(), Some("signal"));
    assert_eq!(end.payload.text, "Hello!");
    assert_eq!(end.payload.finish_reason.as_deref(), Some("stop"));
    assert_eq!(end.payload.channel_origin.as_deref(), Some("signal"));
    assert_eq!(answer_event(end.payload).kind.as_str(), "model_turn");

    let mut stopped = StreamAssembly::new("m".to_owned());
    stopped.cancel();
    assert_eq!(stopped.finish(String::new(), None).payload.text, "(stopped before any output)");
    let empty = StreamAssembly::new("m".to_owned());
    assert_eq!(empty.finish(String::new(), None).payload.text, "(empty response)");
}
