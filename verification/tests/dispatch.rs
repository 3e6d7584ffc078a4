//! Turns of transports and routines, and the bridge back.

use execlaw_server::chat_types::{
    EventKind, EventRecord, ModelTurnPayload, Payload, Phase, ToolUsePayload, TrustLevel,
    UserMessagePayload,
};
use execlaw_server::dispatch::{
    bridge_reply, commit_inbound_user_msg_silently, dispatch_clarification_turn,
    dispatch_external_turn, dispatch_routine_turn, finish_clarification_turn, finish_external_turn,
    finish_routine_turn, is_send_tool_for_channel, routine_conversation_id, typing_tool, DispatchEvent,
    ExternalMessage, ExternalStep,
};
use execlaw_server::platform::fresh_approval_id;
use execlaw_server::real_turn::TurnOutcome;
use execlaw_server::send::{TurnPath, TurnPolicy};

#[test]
fn is_send_tool_recognises_signal_send_tools() {
    assert!(is_send_tool_for_channel("signal", "signal.send_message"));
    assert!(is_send_tool_for_channel("signal", "signal.reply"));
}

#[test]
fn is_send_tool_recognises_sms_send_tools() {
    assert!(is_send_tool_for_channel("sms", "sms.send_message"));
    assert!(is_send_tool_for_channel("sms", "sms.reply"));
}

#[test]
fn is_send_tool_recognises_whatsapp_send_tools() {
    assert!(is_send_tool_for_channel("whatsapp", "whatsapp.send_message"));
    assert!(is_send_tool_for_channel("whatsapp", "whatsapp.reply"));
}

#[test]
fn is_send_tool_recognises_slack_send_tools() {
    assert!(is_send_tool_for_channel("slack", "slack.send_message"));
    assert!(is_send_tool_for_channel("slack", "slack.reply"));
}

#[test]
fn is_send_tool_recognises_arbitrary_future_channel() {
    assert!(is_send_tool_for_channel("discord", "discord.send_message"));
    assert!(is_send_tool_for_channel("discord", "discord.reply"));
    assert!(is_send_tool_for_channel("xmpp", "xmpp.send_message"));
}

#[test]
fn a_send_tool_belongs_to_one_channel_whatever_its_name() {
    assert!(is_send_tool_for_channel("a.reply", "a.reply.send_message"));
    assert!(!is_send_tool_for_channel("a", "a.reply.send_message"));
    assert!(is_send_tool_for_channel("a.send_message", "a.send_message.reply"));
    assert!(!is_send_tool_for_channel("a", "a.send_message.reply"));
}

#[test]
fn is_send_tool_rejects_host_internal_and_unrelated_tools() {
    assert!(!is_send_tool_for_channel("sms", "sms.set_typing"));
    assert!(!is_send_tool_for_channel("sms", "sms.send_with_attachments"));
    assert!(!is_send_tool_for_channel("sms", "sms.fetch_attachment"));
    assert!(!is_send_tool_for_channel("signal", "sms.send_message"));
    assert!(!is_send_tool_for_channel("sms", "signal.send_message"));
    assert!(!is_send_tool_for_channel("sms", "google_calendar.create_event"));
    assert!(!is_send_tool_for_channel("sms", ""));
}

#[test]
fn is_send_tool_does_not_match_prefix_collisions() {
    assert!(!is_send_tool_for_channel("sms", "smsfoo.send_message"));
    assert!(!is_send_tool_for_channel("sms", "sms.send_message_extended"));
    assert!(!is_send_tool_for_channel("sms", "sms.replyall"));
}

fn outcome() -> TurnOutcome {
    TurnOutcome { user_msg_seq: 1, assistant_text: "hi".to_owned(), assistant_seq: 2 }
}

#[test]
fn a_routine_ends_idle_whatever_comes_of_it() {
    let plan =
        dispatch_routine_turn("do the thing".to_owned(), None, false, false, None, 0, 0);
    assert!(matches!(plan.path, TurnPath::Stub));
    assert_eq!(plan.sender_principal_id.as_deref(), Some("controller"));
    assert_eq!(plan.caller_caps, vec!["*".to_owned()]);
    let (events, result) = finish_routine_turn("conv".to_owned(), Ok(outcome()));
    assert!(matches!(events[0], DispatchEvent::PhaseChanged(Phase::Idle)));
    assert_eq!(result.unwrap().assistant_text, "hi");
    let (events, result) = finish_routine_turn("conv".to_owned(), Err("x".to_owned()));
    assert!(matches!(events[0], DispatchEvent::PhaseChanged(Phase::Idle)));
    assert_eq!(result.unwrap_err(), "x");
}

#[test]
fn routines_get_a_conversation() {
    assert_eq!(routine_conversation_id("r1", Some("conv")), "conv");
    let fresh = routine_conversation_id("r1", None);
    assert!(fresh.starts_with("routine-r1-"));
    assert!(routine_conversation_id("rt-test", None).starts_with("routine-rt-test-"));
    assert_eq!(fresh.len(), "routine-r1-".len() + 36);
    assert_ne!(fresh, routine_conversation_id("r1", None));
    assert!(fresh_approval_id().starts_with("appr-"));
}

#[test]
fn a_clarification_is_relayed_in_the_orchestrators_name() {
    let plan = dispatch_clarification_turn("j1", "which city?", true, true, None, 3);
    assert!(matches!(plan.path, TurnPath::Tools));
    assert_eq!(plan.sender_principal_id.as_deref(), Some("system-orchestrator"));
    assert!(plan.user_text.contains("(id: j1)"));
    assert!(plan.user_text.contains("which city?"));
    let (events, _) =
        finish_clarification_turn("conv".to_owned(), plan.user_text, Ok(outcome()));
    assert_eq!(events.len(), 4);
    assert!(matches!(events[1], DispatchEvent::Bridge));
    assert!(matches!(events[3], DispatchEvent::PhaseChanged(Phase::Idle)));
}

fn message(trust: TrustLevel) -> ExternalMessage {
    ExternalMessage {
        principal_id: "pri_x".to_owned(),
        trust,
        text: "hello".to_owned(),
        channel_origin: Some("signal".to_owned()),
        attachment_ids: vec![],
    }
}

fn policy(drop_turn: bool, require_approval: bool) -> TurnPolicy {
    TurnPolicy {
        drop_turn,
        require_approval,
        planner_executor: false,
        spotlighting: true,
        capability_set: vec![],
    }
}

fn external(trust: TrustLevel, drop_turn: bool, require_approval: bool) -> ExternalStep {
    dispatch_external_turn(
        message(trust),
        policy(drop_turn, require_approval),
        "alert-1".to_owned(),
        true,
        true,
        Some("grp".to_owned()),
        0,
    )
}

#[test]
fn external_turns_have_tools_where_plugins_offer_some() {
    let run = |plugin_tools: usize| {
        match dispatch_external_turn(
            message(TrustLevel::KnownTrusted),
            policy(false, false),
            "alert-1".to_owned(),
            true,
            false,
            Some("grp".to_owned()),
            plugin_tools,
        ) {
            ExternalStep::Run(plan) => plan.path,
            other => panic!("unexpected {other:?}"),
        }
    };
    assert!(matches!(run(1), TurnPath::Tools));
    assert!(matches!(run(0), TurnPath::Plain));
}

#[test]
fn external_messages_pass_the_policy() {
    assert!(matches!(external(TrustLevel::Blocked, false, false), ExternalStep::Refused(_)));
    assert!(matches!(external(TrustLevel::UnknownPending, false, false), ExternalStep::Refused(_)));
    assert!(matches!(external(TrustLevel::KnownTrusted, true, true), ExternalStep::Dropped));
    match external(TrustLevel::KnownTrusted, false, true) {
        ExternalStep::NeedsApproval(DispatchEvent::AlertFired { alert_id, title, .. }) => {
            assert_eq!(alert_id, "alert-1");
            assert_eq!(title, "Inbound Signal turn from pri_x would breach rule-of-two");
        }
        other => panic!("unexpected {other:?}"),
    }
    match external(TrustLevel::KnownTrusted, false, false) {
        ExternalStep::Run(plan) => {
            assert!(matches!(plan.path, TurnPath::Runner(_)));
            assert!(plan.spotlight);
            assert_eq!(plan.channel_origin.as_deref(), Some("signal"));
        }
        other => panic!("unexpected {other:?}"),
    }
    let (events, result) = finish_external_turn(Ok(outcome()));
    assert!(result.is_ok());
    assert!(matches!(events[1], DispatchEvent::Bridge));
    let (events, result) = finish_external_turn(Err("x".to_owned()));
    assert_eq!((events.len(), result.unwrap_err().as_str()), (1, "x"));
}

fn event(seq: i64, kind: EventKind, payload: Payload) -> EventRecord {
    EventRecord { seq, kind, payload: Some(payload), actor: None, committed_at: 0 }
}

fn said(seq: i64, text: &str) -> EventRecord {
    event(
        seq,
        EventKind::UserMsg,
        Payload::User(UserMessagePayload {
            text: text.to_owned(),
            sender_principal_id: None,
            channel_origin: None,
            attachment_ids: vec![],
            applied_skill_names: vec![],
        }),
    )
}

fn answered(seq: i64, text: &str) -> EventRecord {
    event(
        seq,
        EventKind::ModelTurn,
        Payload::Model(ModelTurnPayload {
            model: "m".to_owned(),
            text: text.to_owned(),
            finish_reason: None,
            channel_origin: None,
        }),
    )
}

fn called(seq: i64, name: &str) -> EventRecord {
    event(
        seq,
        EventKind::ToolUse,
        Payload::ToolUse(ToolUsePayload {
            ordinal: 0,
            tool_name: name.to_owned(),
            args_json: "{}".to_owned(),
        }),
    )
}

#[test]
fn the_bridge_sends_what_the_agent_has_not_sent() {
    let plain = [said(1, "hi"), answered(2, "hello")];
    let send = bridge_reply(&plain, "signal", "+1", None).unwrap();
    assert_eq!(send.tool_name, "signal.send_message");
    assert_eq!((send.to.as_str(), send.text.as_str()), ("+1", "hello"));

    let sent = [said(1, "hi"), called(2, "signal.reply"), answered(3, "hello")];
    assert!(bridge_reply(&sent, "signal", "+1", None).is_none());
    assert!(bridge_reply(&sent, "sms", "+1", None).is_some());
    assert!(bridge_reply(&plain, "whatsapp", "+1", None).is_none());
    assert!(bridge_reply(&plain, "whatsapp", "+1", Some("automatic")).is_some());
    assert!(bridge_reply(&[said(1, "hi")], "signal", "+1", None).is_none());
    assert_eq!(typing_tool("sms"), "sms.set_typing");
}

#[test]
fn unaddressed_group_messages_are_kept_silently() {
    let (record, shown) =
        commit_inbound_user_msg_silently(4, "pri_x", "for Elyssa", "signal", vec![], 77);
    assert_eq!((record.seq, record.committed_at), (5, 77));
    match shown {
        DispatchEvent::Inbound { seq, text, sender } => {
            assert_eq!((seq, text.as_str(), sender.as_str()), (5, "for Elyssa", "pri_x"));
        }
        other => panic!("unexpected {other:?}"),
    }
}
