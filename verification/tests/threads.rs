//! The thread endpoints.

use execlaw_server::chat_types::{
    EventKind, EventRecord, ModelTurnPayload, Payload, Phase, Role, ToolResultPayload,
    ToolUsePayload, UserMessagePayload,
};
use execlaw_server::dispatch::SYSTEM_ORCHESTRATOR_ACTOR;
use execlaw_server::json::{JsonMember, JsonValue};
use execlaw_server::real_turn::OutputHint;
use execlaw_server::runner_turn::ResolvedInference;
use execlaw_server::send::SendEvent;
use execlaw_server::threads::{
    attach_report, begin_incognito, extract_text, generate_title, incognito_messages,
    list_messages, message_view, patch_thread, report_job, run_incognito_send, stop_turn,
    thread_channel, title_end, title_messages, title_request, CardKind, CardState, IncognitoTurnMessage,
    NameSource, PatchThreadRequest, ThreadName, ThreadWrite, TitleEnd, TitleStart,
};

fn said(seq: i64, text: &str, actor: &str, skills: &[&str]) -> EventRecord {
    EventRecord {
        seq,
        kind: EventKind::UserMsg,
        payload: Some(Payload::User(UserMessagePayload {
            text: text.to_owned(),
            sender_principal_id: None,
            channel_origin: None,
            attachment_ids: vec![],
            applied_skill_names: skills.iter().map(|s| (*s).to_owned()).collect(),
        })),
        actor: Some(actor.to_owned()),
        committed_at: 100 + seq,
    }
}

fn answered(seq: i64, text: &str) -> EventRecord {
    EventRecord {
        seq,
        kind: EventKind::ModelTurn,
        payload: Some(Payload::Model(ModelTurnPayload {
            model: "m".to_owned(),
            text: text.to_owned(),
            finish_reason: None,
            channel_origin: Some("signal".to_owned()),
        })),
        actor: Some("agent".to_owned()),
        committed_at: 0,
    }
}

#[test]
fn list_messages_returns_committed_events() {
    let events = [
        said(1, "first", "controller", &[]),
        answered(2, "one"),
        said(3, "second", "controller", &[]),
        answered(4, "two"),
    ];
    let shown: Vec<String> =
        list_messages(&events, None).into_iter().map(|i| message_view(&events[i]).kind).collect();
    assert_eq!(shown.len(), 4);
    assert_eq!(shown[0], "user_msg");
    assert_eq!(shown[1], "model_turn");
}

#[test]
fn list_messages_hides_user_msg_events_with_system_orchestrator_actor() {
    let notice = "[SYSTEM ORCHESTRATOR NOTICE] please ask the user X";
    let events = [
        said(1, "hello", "controller", &[]),
        answered(2, "hi"),
        said(3, notice, SYSTEM_ORCHESTRATOR_ACTOR, &[]),
    ];
    let listed = list_messages(&events, None);
    assert_eq!(listed, vec![0, 1]);
    for i in listed {
        let view = message_view(&events[i]);
        let orchestrator = view.actor.as_deref() == Some(SYSTEM_ORCHESTRATOR_ACTOR);
        assert!(!(view.kind == "user_msg" && orchestrator));
        assert!(!view.text.unwrap_or_default().contains("SYSTEM ORCHESTRATOR NOTICE"));
    }
}

#[test]
fn a_page_is_held_between_one_and_a_thousand() {
    let events = [said(1, "a", "c", &[]), answered(2, "b"), answered(3, "d")];
    assert_eq!(list_messages(&events, Some(0)), vec![0]);
    assert_eq!(list_messages(&events, Some(2)), vec![0, 1]);
    assert_eq!(list_messages(&events, Some(i64::MAX)), vec![0, 1, 2]);
}

#[test]
fn list_messages_surfaces_applied_skill_names_for_user_msg() {
    let view = message_view(&said(1, "hi", "controller", &["test/foo"]));
    assert_eq!(view.kind, "user_msg");
    assert_eq!(view.committed_at, 101);
    assert_eq!(view.applied_skill_names, vec!["test/foo".to_owned()]);
}

#[test]
fn messages_without_skills_name_none() {
    let view = message_view(&said(1, "no skills here", "controller", &[]));
    assert!(view.applied_skill_names.is_empty());
    let answer = message_view(&answered(2, "x"));
    assert_eq!(answer.channel_origin.as_deref(), Some("signal"));
    assert_eq!(answer.text.as_deref(), Some("x"));
}

#[test]
fn extract_text_surfaces_tool_result_json_for_spa_dispatcher() {
    let result = |outcome: Result<&str, &str>| EventRecord {
        seq: 1,
        kind: EventKind::ToolResult,
        payload: Some(Payload::ToolResult(ToolResultPayload {
            ordinal: 1,
            outcome: outcome.map(str::to_owned).map_err(str::to_owned),
        })),
        actor: Some("agent".to_owned()),
        committed_at: 0,
    };
    let success = result(Ok(
        "{\"attachment_id\":\"art_abc\",\"svg\":\"<svg>...</svg>\",\"chat_component_kind\":\"chart\"}",
    ));
    let text = extract_text(&success).expect("ToolResult must surface text");
    let parsed: serde_json::Value = serde_json::from_str(&text).expect("must be JSON");
    assert_eq!(parsed["chat_component_kind"], "chart");
    assert_eq!(parsed["attachment_id"], "art_abc");

    let failure = result(Err("vega-lite spec invalid"));
    let text = extract_text(&failure).expect("failed ToolResult still surfaces text");
    let parsed: serde_json::Value = serde_json::from_str(&text).unwrap();
    assert_eq!(parsed["error"], "vega-lite spec invalid");

    let usage = EventRecord {
        seq: 3,
        kind: EventKind::ToolUse,
        payload: Some(Payload::ToolUse(ToolUsePayload {
            ordinal: 1,
            tool_name: "chart.render".to_owned(),
            args_json: "{\"title\":\"Test\"}".to_owned(),
        })),
        actor: Some("agent".to_owned()),
        committed_at: 0,
    };
    let text = extract_text(&usage).expect("ToolUse must surface text");
    let parsed: serde_json::Value = serde_json::from_str(&text).unwrap();
    assert_eq!(parsed["title"], "Test");
}

#[test]
fn apply_auto_display_name_tracks_source_and_respects_manual_renames() {
    let mut row = ThreadName { display_name: None, source: NameSource::Auto };
    row.apply_auto_display_name(None);
    assert!(row.display_name.is_none());
    row.apply_auto_display_name(Some("   "));
    assert!(row.display_name.is_none());

    row.apply_auto_display_name(Some("  Family chat  "));
    assert_eq!(row.display_name.as_deref(), Some("Family chat"));
    assert_eq!(row.source, NameSource::Auto);

    row.apply_auto_display_name(Some("Saturday crew"));
    assert_eq!(row.display_name.as_deref(), Some("Saturday crew"));
    assert_eq!(row.source, NameSource::Auto);

    row.set_display_name(Some("My weekend group".to_owned()));
    assert_eq!(row.source, NameSource::Manual);
    row.apply_auto_display_name(Some("Signal renamed it again"));
    assert_eq!(row.display_name.as_deref(), Some("My weekend group"));
    assert_eq!(row.source, NameSource::Manual);

    row.set_display_name(None);
    assert!(row.display_name.is_none());
    assert_eq!(row.source, NameSource::Auto);
    row.apply_auto_display_name(Some("Fresh from Signal"));
    assert_eq!(row.display_name.as_deref(), Some("Fresh from Signal"));
    assert_eq!(row.source, NameSource::Auto);
}

fn patch() -> PatchThreadRequest {
    PatchThreadRequest {
        display_name: None,
        is_pinned: None,
        is_ephemeral: None,
        ephemeral_expires_at: None,
    }
}

/// A thread's row, as the writes leave it.
#[derive(Default)]
struct Row {
    display_name: Option<String>,
    is_pinned: bool,
    ephemeral_expires_at: Option<i64>,
}

impl Row {
    fn patch(&mut self, req: PatchThreadRequest) {
        for write in patch_thread(req) {
            match write {
                ThreadWrite::SetDisplayName(name) => self.display_name = name,
                ThreadWrite::SetPinned(pinned) => self.is_pinned = pinned,
                ThreadWrite::MarkEphemeral(expires) => self.ephemeral_expires_at = expires,
            }
        }
    }

    fn is_ephemeral(&self) -> bool {
        self.ephemeral_expires_at.is_some()
    }
}

#[test]
fn patch_thread_sets_display_name_and_pinned() {
    let mut row = Row::default();
    row.patch(PatchThreadRequest {
        display_name: Some(Some("Q4 plans".to_owned())),
        is_pinned: Some(true),
        ..patch()
    });
    assert_eq!(row.display_name.as_deref(), Some("Q4 plans"));
    assert!(row.is_pinned);
    assert!(!row.is_ephemeral());
    assert_eq!(row.ephemeral_expires_at, None);
}

#[test]
fn patch_thread_toggle_incognito() {
    let mut row = Row::default();
    row.patch(PatchThreadRequest {
        is_ephemeral: Some(true),
        ephemeral_expires_at: Some(Some(1_700_000_000)),
        ..patch()
    });
    assert!(row.is_ephemeral());
    assert_eq!(row.ephemeral_expires_at, Some(1_700_000_000));
    row.patch(PatchThreadRequest { is_ephemeral: Some(false), ..patch() });
    assert!(!row.is_ephemeral());
    assert_eq!(row.ephemeral_expires_at, None);
    // Switched off, an expiry that comes along is not kept.
    row.patch(PatchThreadRequest {
        is_ephemeral: Some(false),
        ephemeral_expires_at: Some(Some(99)),
        ..patch()
    });
    assert_eq!(row.ephemeral_expires_at, None);
}

#[test]
fn an_expiry_alone_extends_an_incognito_thread() {
    let mut row = Row::default();
    row.patch(PatchThreadRequest {
        display_name: Some(Some("Side talk".to_owned())),
        is_pinned: Some(true),
        is_ephemeral: Some(true),
        ephemeral_expires_at: Some(Some(1_000)),
    });
    row.patch(PatchThreadRequest { ephemeral_expires_at: Some(Some(2_000)), ..patch() });
    assert!(row.is_ephemeral());
    assert_eq!(row.ephemeral_expires_at, Some(2_000));
    assert_eq!(row.display_name.as_deref(), Some("Side talk"));
    assert!(row.is_pinned);
    // An explicit null clears it, alone or with the flag.
    row.patch(PatchThreadRequest { ephemeral_expires_at: Some(None), ..patch() });
    assert_eq!(row.ephemeral_expires_at, None);
    assert_eq!(row.display_name.as_deref(), Some("Side talk"));
    row.patch(PatchThreadRequest {
        is_ephemeral: Some(true),
        ephemeral_expires_at: Some(None),
        ..patch()
    });
    assert_eq!(row.ephemeral_expires_at, None);
}

#[test]
fn patch_thread_distinguishes_null_from_missing_for_display_name() {
    let mut row = Row::default();
    row.patch(PatchThreadRequest { display_name: Some(Some("First".to_owned())), ..patch() });
    assert_eq!(row.display_name.as_deref(), Some("First"));
    row.patch(PatchThreadRequest { is_pinned: Some(true), ..patch() });
    assert_eq!(row.display_name.as_deref(), Some("First"));
    row.patch(PatchThreadRequest { display_name: Some(None), ..patch() });
    assert_eq!(row.display_name, None);
    assert!(patch_thread(patch()).is_empty());
}

#[test]
fn stopping_shows_idle_only_where_a_turn_ran() {
    assert!(stop_turn(false).is_empty());
    let shown = stop_turn(true);
    assert_eq!(shown.len(), 1);
    assert!(matches!(shown[0], SendEvent::PhaseChanged(Phase::Idle)));
}

fn object(members: &[(&str, &str)]) -> JsonValue {
    JsonValue::Object(
        members
            .iter()
            .map(|(k, v)| JsonMember {
                key: (*k).to_owned(),
                value: JsonValue::Text((*v).to_owned()),
            })
            .collect(),
    )
}

#[test]
fn old_research_cards_get_their_report() {
    let details = object(&[("job_id", "j1")]);
    assert_eq!(
        report_job(CardKind::Research, CardState::Completed, &details).as_deref(),
        Some("j1")
    );
    assert_eq!(report_job(CardKind::Research, CardState::Running, &details), None);
    assert_eq!(report_job(CardKind::Chart, CardState::Completed, &details), None);
    let whole = attach_report(details, "# Report");
    assert_eq!(whole.get_str("report_markdown"), Some("# Report"));
    assert_eq!(attach_report(whole, "other").get_str("report_markdown"), Some("# Report"));
    assert_eq!(thread_channel(&vec!["sms".to_owned()]).as_deref(), Some("sms"));
    assert_eq!(thread_channel(&vec![]), None);
}

#[test]
fn an_incognito_turn_reads_only_what_the_client_holds() {
    let prior = vec![
        IncognitoTurnMessage { role: "user".to_owned(), content: "a".to_owned() },
        IncognitoTurnMessage { role: "assistant".to_owned(), content: "b".to_owned() },
    ];
    let messages = incognito_messages("sys", &prior, "c");
    let roles: Vec<Role> = messages.iter().map(|m| m.role).collect();
    assert_eq!(roles, vec![Role::System, Role::User, Role::Assistant, Role::User]);
    assert!(begin_incognito(false, "c", None).is_err());
    assert!(begin_incognito(true, "c", None).is_ok());
    let (_, outcome) = run_incognito_send("answer".to_owned());
    assert_eq!(outcome.assistant_text, "answer");
}

#[test]
fn titles_are_asked_for_once() {
    let history = [said(1, "plan a trip", "controller", &[])];
    match generate_title(Some("Trip".to_owned()), &history, true) {
        TitleStart::Named(n) => assert_eq!(n, "Trip"),
        other => panic!("unexpected {other:?}"),
    }
    match generate_title(None, &history, true) {
        TitleStart::Ask(text) => assert_eq!(text, "plan a trip"),
        other => panic!("unexpected {other:?}"),
    }
    assert!(matches!(generate_title(None, &[], true), TitleStart::Skipped));
    assert_eq!(title_messages("plan a trip", "plan a trip").last().unwrap().role, Role::User);
    match title_end(Ok("Trip".to_owned()), "plan".to_owned()) {
        TitleEnd::Named { title, fallback } => assert_eq!((title.as_str(), fallback), ("Trip", false)),
        other => panic!("unexpected {other:?}"),
    }
    match title_end(Ok(String::new()), "plan".to_owned()) {
        TitleEnd::Named { title, fallback } => assert_eq!((title.as_str(), fallback), ("plan", true)),
        other => panic!("unexpected {other:?}"),
    }
    assert!(matches!(title_end(Ok(String::new()), String::new()), TitleEnd::Skipped));
}

#[test]
fn a_title_is_asked_for_briefly() {
    let backend = ResolvedInference {
        endpoint: "http://x/v1".to_owned(),
        model_id: "m".to_owned(),
        reasoning_enabled: true,
    };
    let request = title_request(&backend, title_messages("plan a trip", "plan a trip"));
    assert_eq!(request.model, "m");
    assert_eq!(request.messages.len(), 2);
    assert_eq!((request.stream, request.max_tokens), (false, Some(16)));
    assert_eq!((request.enable_thinking, request.hint), (None, OutputHint::Plain));
}

#[test]
fn a_failed_title_leaves_the_thread_its_label() {
    assert!(matches!(title_end(Err(()), "plan".to_owned()), TitleEnd::Skipped));
    assert!(matches!(title_end(Err(()), String::new()), TitleEnd::Skipped));
}
