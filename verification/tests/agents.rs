//! The always-on child agents.

use execlaw_server::agent_supervisor::{
    finish_run, parse_purpose, run_agent, run_prompt, tick_once, MailboxMessage, RunResult,
};
use execlaw_server::agents_admin::{
    complete, controller, default_interval, default_runtime, default_tokens, draft_mode,
    message, one, run_limit, standard, upsert, yes, AgentDraft, AgentView, Limit, UserRole,
};
use execlaw_server::backend_spec::BackendPurpose;
use execlaw_server::chat_types::Role;
use execlaw_server::json::{JsonMember, JsonValue};

fn agent(enabled: bool, paused: bool) -> AgentView {
    AgentView {
        id: "a".to_owned(),
        name: "Scout".to_owned(),
        role_prompt: "You scout.".to_owned(),
        model: None,
        backend_purpose: "standard".to_owned(),
        tools: vec![],
        trust_policy: JsonValue::Null,
        interval_secs: 300,
        token_budget: 1024,
        max_runtime_secs: 60,
        concurrency_limit: 1,
        enabled,
        paused,
        next_run_at: None,
        last_run_at: None,
        last_run_status: None,
        last_error: None,
        trigger: JsonValue::Null,
        reply_mode: "draft".to_owned(),
    }
}

fn letter(id: &str, direction: &str, content: &str, parent: Option<&str>) -> MailboxMessage {
    MailboxMessage {
        id: id.to_owned(),
        direction: direction.to_owned(),
        content: content.to_owned(),
        parent_agent_id: parent.map(str::to_owned),
    }
}

#[test]
fn supervisor_does_not_claim_future_agent() {
    // No agents at all: a look at them starts nothing.
    assert!(tick_once(&[]).is_empty());
}

#[test]
fn only_enabled_agents_that_are_not_paused_run() {
    let agents = [agent(true, false), agent(false, false), agent(true, true), agent(true, false)];
    assert_eq!(tick_once(&agents), vec![0, 3]);
}

#[test]
fn a_run_quotes_the_mailbox() {
    assert_eq!(
        run_prompt(&vec![]),
        "No new mailbox messages. Perform your scheduled responsibility and report only useful changes."
    );
    let mail = vec![letter("1", "in", "hi", None), letter("2", "out", "bye", None)];
    assert_eq!(
        run_prompt(&mail),
        "Mailbox:\n[in] hi\n[out] bye\n\nProcess these messages and report the result."
    );
    let run = run_agent(&agent(true, false), &mail, Some("qwen")).unwrap();
    assert_eq!(run.model, "qwen");
    assert_eq!(run.messages.len(), 2);
    assert_eq!(run.messages[0].role, Role::System);
    assert_eq!(run.messages[0].content, "You scout.");
    assert_eq!(run.max_tokens, 1024);
    assert_eq!(run.mailbox_count, 2);
    let mut own = agent(true, false);
    own.model = Some("own".to_owned());
    assert_eq!(run_agent(&own, &vec![], Some("qwen")).unwrap().model, "own");
    assert_eq!(
        run_agent(&own, &vec![], None).unwrap_err(),
        "no inference backend configured"
    );
}

#[test]
fn a_run_that_went_well_delivers_and_answers() {
    let mail = vec![letter("1", "in", "hi", Some("boss")), letter("2", "in", "x", None)];
    let result = RunResult::Answer { text: Some("done".to_owned()), tokens: Some(7) };
    let end = finish_run(result, &mail, 300, 1000);
    assert_eq!(end.status, "success");
    assert_eq!(end.next_run_at, 1300);
    assert_eq!(end.output.as_deref(), Some("done"));
    assert_eq!(end.tokens, Some(7));
    assert_eq!(end.delivered, vec!["1".to_owned(), "2".to_owned()]);
    assert_eq!(end.parents, vec!["boss".to_owned()]);
}

#[test]
fn a_run_that_failed_backs_off() {
    let mail = vec![letter("1", "in", "hi", Some("boss"))];
    let end = finish_run(RunResult::Failed("refused".to_owned()), &mail, 300, 1000);
    assert_eq!(end.status, "failed");
    assert_eq!(end.next_run_at, 1600);
    assert_eq!(end.error.as_deref(), Some("inference: refused"));
    assert!(end.delivered.is_empty());
    assert!(end.parents.is_empty());
    let late = finish_run(RunResult::TimedOut, &mail, 300, i64::MAX - 10);
    assert_eq!(late.error.as_deref(), Some("runtime budget exceeded"));
    assert_eq!(late.next_run_at, i64::MAX);
}

#[test]
fn purposes_are_read_in_any_case() {
    assert_eq!(parse_purpose("SMALL"), BackendPurpose::Small);
    assert_eq!(parse_purpose("vision"), BackendPurpose::Vision);
    assert_eq!(parse_purpose("voice_stt"), BackendPurpose::VoiceStt);
    assert_eq!(parse_purpose("Voice_TTS"), BackendPurpose::VoiceTts);
    assert_eq!(parse_purpose("whatever"), BackendPurpose::Standard);
}

fn draft() -> AgentDraft {
    AgentDraft {
        name: "n".to_owned(),
        role_prompt: "p".to_owned(),
        model: None,
        backend_purpose: None,
        tools: None,
        trust_policy: None,
        interval_secs: None,
        token_budget: None,
        max_runtime_secs: None,
        concurrency_limit: None,
        enabled: None,
        trigger: None,
        reply_mode: None,
    }
}

#[test]
fn a_definition_is_completed_with_the_defaults() {
    let whole = complete(draft());
    assert_eq!(whole.backend_purpose, standard());
    assert_eq!(whole.reply_mode, draft_mode());
    assert_eq!(whole.interval_secs, default_interval());
    assert_eq!(whole.token_budget, default_tokens());
    assert_eq!(whole.max_runtime_secs, default_runtime());
    assert_eq!(whole.concurrency_limit, one());
    assert_eq!(whole.enabled, yes());
    assert_eq!((whole.interval_secs, whole.token_budget, whole.max_runtime_secs), (300, 1024, 300));
    assert_eq!((standard(), draft_mode()), ("standard".to_owned(), "draft".to_owned()));
    let mut some = draft();
    some.enabled = Some(false);
    some.interval_secs = Some(60);
    let whole = complete(some);
    assert!(!whole.enabled);
    assert_eq!(whole.interval_secs, 60);
}

#[test]
fn only_the_controller_changes_agents() {
    assert!(controller(UserRole::Controller).is_ok());
    let refused = controller(UserRole::Other).unwrap_err();
    assert_eq!(refused.status, 403);
    assert_eq!(refused.code, "controller_required");
    assert_eq!(refused.message, "Controller role required");
    let write = upsert(UserRole::Controller, Some("x".to_owned()), draft()).unwrap();
    assert_eq!(write.id.as_deref(), Some("x"));
    assert!(upsert(UserRole::Other, None, draft()).is_err());
    let fault = execlaw_server::agents_admin::map("no agent x".to_owned());
    assert_eq!((fault.status, fault.code.as_str()), (400, "agent_error"));
}

#[test]
fn messages_come_from_the_controller() {
    let body = JsonValue::Object(vec![JsonMember {
        key: "content".to_owned(),
        value: JsonValue::Text("go".to_owned()),
    }]);
    let mail = message(UserRole::Controller, "a", &body).unwrap();
    assert_eq!((mail.sender.as_str(), mail.content.as_str()), ("controller", "go"));
    assert_eq!(message(UserRole::Controller, "a", &JsonValue::Null).unwrap().content, "");
    assert!(message(UserRole::Other, "a", &body).is_err());
}

#[test]
fn the_runs_that_are_shown_are_capped() {
    assert_eq!(run_limit(Limit { limit: None }), 50);
    assert_eq!(run_limit(Limit { limit: Some(7) }), 7);
    assert_eq!(run_limit(Limit { limit: Some(1000) }), 200);
}
