//! The way of a posted message, on a conversation held in memory.

use execlaw_server::approval_token::JwtSigner;
use execlaw_server::chat_types::{
    EventKind, EventRecord, Payload, PendingEvent, Phase, TrustLevel, UserMessagePayload,
};
use execlaw_server::dispatch::{handle_cold_contact, ColdContactAnswer};
use execlaw_server::real_turn::{run_stub_turn, stub_reply, stub_turn_events, TurnOutcome};
use execlaw_server::send::{
    policy_input, Refusal, SendAsk, SendEvent, SendMessageRequest, SendReply, SendStage, SendTurn,
    TurnPath, TurnPlan, TurnPolicy,
};

fn request(text: &str) -> SendMessageRequest {
    SendMessageRequest {
        text: text.to_owned(),
        attachments: 0,
        skill_names: vec![],
        incognito: false,
        sender_principal_id: None,
        timezone: None,
    }
}

fn policy() -> TurnPolicy {
    TurnPolicy {
        drop_turn: false,
        require_approval: false,
        planner_executor: false,
        spotlighting: false,
        capability_set: vec!["*".to_owned()],
    }
}

/// One conversation, with what answers it.
struct World {
    log: Vec<EventRecord>,
    phase: Phase,
    shown: Vec<String>,
    stored: usize,
    inference: bool,
    /// The text of each skill that is known.
    skills: Vec<(String, String)>,
}

/// What a client gets.
struct Answer {
    status: u16,
    outcome: Option<TurnOutcome>,
    code: Option<String>,
    cold: Option<ColdContactAnswer>,
}

fn answer(status: u16) -> Answer {
    Answer { status, outcome: None, code: None, cold: None }
}

impl World {
    fn new() -> World {
        World {
            log: vec![],
            phase: Phase::Idle,
            shown: vec![],
            stored: 0,
            inference: false,
            skills: vec![],
        }
    }

    fn written(&self, events: Vec<PendingEvent>) -> Vec<EventRecord> {
        let base = self.log.len() as i64;
        let mut out = vec![];
        for (i, e) in events.into_iter().enumerate() {
            out.push(EventRecord {
                seq: base + 1 + i as i64,
                kind: e.kind,
                payload: Some(e.payload),
                actor: e.actor,
                committed_at: 0,
            });
        }
        out
    }

    fn show(&mut self, event: &SendEvent) {
        self.shown.push(match event {
            SendEvent::PhaseChanged(p) => p.as_str().to_owned(),
            SendEvent::TurnFailed { path, .. } => format!("failed {path}"),
            SendEvent::ResolveTurnAlerts => "resolve".to_owned(),
            SendEvent::Inbound { .. } => "inbound".to_owned(),
            SendEvent::Outbound { .. } => "outbound".to_owned(),
            SendEvent::TurnFinished { .. } => "finished".to_owned(),
        });
    }

    fn run(&mut self, plan: TurnPlan) -> Result<TurnOutcome, String> {
        if !matches!(plan.path, TurnPath::Stub) {
            return Err("stream open: connection refused".to_owned());
        }
        let reply = stub_reply(&plan.user_text);
        let (user, model) = stub_turn_events(UserMessagePayload {
            text: plan.user_text,
            sender_principal_id: plan.sender_principal_id,
            channel_origin: plan.channel_origin,
            attachment_ids: plan.attachment_ids,
            applied_skill_names: plan.applied_skill_names,
        });
        let written = self.written(vec![user, model]);
        let outcome = run_stub_turn(&written, reply);
        self.log.extend(written);
        outcome
    }

    fn resolve_skills(&self, names: &[String]) -> Result<String, Refusal> {
        let mut out = String::new();
        for name in names {
            match self.skills.iter().find(|(known, _)| known == name) {
                Some((_, body)) => {
                    out.push_str(&format!("<skill name=\"{name}\">\n{body}\n</skill>\n\n"));
                }
                None => {
                    return Err(Refusal {
                        status: 404,
                        code: "skill_not_found".to_owned(),
                        message: format!("no skill named '{name}'"),
                    });
                }
            }
        }
        Ok(out)
    }

    fn send(&mut self, cid: &str, req: SendMessageRequest) -> Answer {
        let sender = req.sender_principal_id.clone();
        let skill_names = req.skill_names.clone();
        let text = req.text.clone();
        let files = req.attachments;
        let (mut turn, mut step) = SendTurn::begin(cid.to_owned(), req);
        loop {
            for event in &step.events {
                self.show(event);
            }
            step = match step.ask {
                SendAsk::DecodeAttachments => turn.on_decoded(Ok(())),
                SendAsk::ResolveSkills => turn.on_skills(self.resolve_skills(&skill_names)),
                SendAsk::RunIncognito => panic!("not an incognito message"),
                SendAsk::ResolveSender => turn.on_sender(Ok(match &sender {
                    None => ("controller".to_owned(), TrustLevel::Controller),
                    Some(id) => (id.clone(), TrustLevel::UnknownPending),
                })),
                SendAsk::EvaluatePolicy => turn.on_policy(policy()),
                SendAsk::ColdContact => {
                    let signer = JwtSigner {
                        issuer: "execlaw".to_owned(),
                        private_der: vec![],
                        public_key: [0; 32],
                    };
                    let mut cold = handle_cold_contact(&signer, cid, &turn.principal_id, &text);
                    self.phase = cold.contact.phase;
                    let event = std::mem::replace(
                        &mut cold.contact.event,
                        PendingEvent {
                            kind: EventKind::UserMsg,
                            payload: Payload::Json(execlaw_server::json::JsonValue::Null),
                            actor: None,
                        },
                    );
                    let written = self.written(vec![event]);
                    self.log.extend(written);
                    let status = cold.http_status();
                    return Answer { cold: Some(cold), ..answer(status) };
                }
                SendAsk::LookUpRuntime => turn.on_runtime(self.inference, false, false),
                SendAsk::ResolveGroup => turn.on_group(None),
                SendAsk::StoreAttachments => {
                    self.stored += files;
                    let ids = (0..files).map(|i| format!("att-{i}")).collect();
                    turn.on_stored(Ok(ids))
                }
                SendAsk::Run(plan) => {
                    let outcome = self.run(plan);
                    turn.on_turn(outcome)
                }
                SendAsk::Reply(reply) => {
                    assert_eq!(turn.stage, SendStage::Over);
                    let status = reply.status();
                    return match reply {
                        SendReply::Done(o) => Answer { outcome: Some(o), ..answer(status) },
                        SendReply::Refused(r) => Answer { code: Some(r.code), ..answer(status) },
                        _ => answer(status),
                    };
                }
            };
        }
    }

    fn user_message(&self) -> &UserMessagePayload {
        for e in &self.log {
            if let Some(Payload::User(p)) = &e.payload {
                return p;
            }
        }
        panic!("no user message in the log")
    }
}

#[test]
fn chat_routes_through_inference_resolver_when_backends_row_has_endpoint() {
    let mut world = World::new();
    world.inference = true;
    assert_eq!(world.send("conv1", request("hi")).status, 500);
    assert_eq!(world.shown, vec!["thinking", "failed real", "idle"]);
}

#[test]
fn send_message_commits_both_events_and_returns_reply() {
    let mut world = World::new();
    let got = world.send("conv1", request("hello"));
    assert_eq!(got.status, 200);
    let outcome = got.outcome.unwrap();
    assert_eq!(outcome.user_msg_seq, 1);
    assert!(outcome.assistant_text.contains("execlaw dev stub"));
}

#[test]
fn stub_path_commits_user_and_model_atomically() {
    let mut world = World::new();
    let got = world.send("conv1", request("hi there"));
    assert_eq!(got.status, 200);
    let outcome = got.outcome.unwrap();
    assert_eq!((outcome.user_msg_seq, outcome.assistant_seq), (1, 2));
    assert_eq!(world.log.len(), 2);
}

#[test]
fn send_message_rejects_empty_text() {
    let mut world = World::new();
    assert_eq!(world.send("conv1", request("   ")).status, 400);
    assert!(world.log.is_empty());
}

#[test]
fn send_message_with_one_skill_prepends_body_and_records_name() {
    let mut world = World::new();
    let body = "When asked, always answer in haiku form.";
    world.skills.push(("test/foo".to_owned(), body.to_owned()));
    let mut req = request("tell me a story");
    req.skill_names = vec!["test/foo".to_owned()];
    let got = world.send("conv1", req);
    assert_eq!(got.status, 200);
    assert_eq!(got.outcome.unwrap().user_msg_seq, 1);
    let payload = world.user_message();
    assert_eq!(payload.applied_skill_names, vec!["test/foo".to_owned()]);
    assert!(payload.text.starts_with("<skill name=\"test/foo\">\n"));
    assert!(payload.text.contains("When asked, always answer in haiku form."));
    assert!(payload.text.ends_with("tell me a story"));
}

#[test]
fn send_message_unknown_skill_name_returns_404() {
    let mut world = World::new();
    let mut req = request("go");
    req.skill_names = vec!["test/does-not-exist".to_owned()];
    let got = world.send("conv1", req);
    assert_eq!(got.status, 404);
    assert_eq!(got.code.as_deref(), Some("skill_not_found"));
    assert!(world.log.is_empty());
}

#[test]
fn send_message_without_skills_leaves_text_unchanged() {
    let mut world = World::new();
    assert_eq!(world.send("conv1", request("plain hello")).status, 200);
    let payload = world.user_message();
    assert_eq!(payload.text, "plain hello");
    assert!(payload.applied_skill_names.is_empty());
}

#[test]
fn send_message_publishes_processing_phase_lifecycle() {
    let mut world = World::new();
    world.send("conv1", request("hi"));
    let at = |name: &str| world.shown.iter().position(|s| s == name).expect("shown");
    assert!(at("thinking") < at("idle"));
    assert!(at("idle") < at("outbound"));
    assert!(at("inbound") < at("outbound"));
    assert_eq!(world.shown.iter().filter(|s| *s == "idle").count(), 1);
}

#[test]
fn unknown_sender_triggers_cold_contact_flow() {
    let mut world = World::new();
    let mut req = request("hi from a stranger");
    req.sender_principal_id = Some("new-contact-1".to_owned());
    let got = world.send("cold-conv", req);
    assert_eq!(got.status, 202);
    let cold = got.cold.unwrap();
    assert_eq!(cold.status, "awaiting_approval");
    assert_eq!(cold.reason, "cold_contact");
    assert!(cold.approval_id.starts_with("appr-"));
    assert!(world.log.iter().any(|e| matches!(e.kind, EventKind::ColdContactArrived)));
    assert_eq!(world.phase, Phase::AwaitingTrustDecision);
    assert!(world.shown.is_empty());
}

#[test]
fn parked_cold_contact_turn_does_not_persist_attachments() {
    let mut world = World::new();
    let mut req = request("smuggle this in");
    req.sender_principal_id = Some("stranger-attach-1".to_owned());
    req.attachments = 1;
    assert_eq!(world.send("cold-conv-attach", req).status, 202);
    assert_eq!(world.stored, 0);
}

#[test]
fn controller_turn_persists_attachments_through_commit_point() {
    let mut world = World::new();
    let mut req = request("look at this");
    req.attachments = 1;
    assert_eq!(world.send("persist-happy", req).status, 200);
    assert_eq!(world.stored, 1);
    assert_eq!(world.user_message().attachment_ids, vec!["att-0".to_owned()]);
}

#[test]
fn policy_controller_sender_reaches_turn() {
    let mut world = World::new();
    let got = world.send("conv1", request("hi"));
    assert_eq!(got.status, 200);
    assert!(!got.outcome.unwrap().assistant_text.is_empty());
}

fn plan(ask: SendAsk) -> TurnPlan {
    match ask {
        SendAsk::Run(plan) => plan,
        other => panic!("expected a turn, got {other:?}"),
    }
}

fn reply(ask: SendAsk) -> SendReply {
    match ask {
        SendAsk::Reply(r) => r,
        other => panic!("expected a reply, got {other:?}"),
    }
}

#[test]
fn a_group_takes_the_turn_to_its_runner() {
    let (mut turn, _) = SendTurn::begin("conv1".to_owned(), request("hi"));
    turn.on_sender(Ok(("controller".to_owned(), TrustLevel::Controller)));
    turn.on_policy(policy());
    let step = turn.on_runtime(true, true, true);
    assert!(matches!(step.ask, SendAsk::ResolveGroup));
    let plan = plan(turn.on_group(Some("grp".to_owned())).ask);
    match plan.path {
        TurnPath::Runner(g) => assert_eq!(g, "grp"),
        other => panic!("unexpected {other:?}"),
    }
    assert_eq!(plan.caller_trust, TrustLevel::Controller);
}

#[test]
fn the_gates_refuse_in_order() {
    let (mut turn, _) = SendTurn::begin("c".to_owned(), request("hi"));
    turn.on_sender(Ok(("p".to_owned(), TrustLevel::Blocked)));
    let dropped = TurnPolicy { drop_turn: true, require_approval: true, ..policy() };
    assert_eq!(reply(turn.on_policy(dropped).ask).status(), 403);

    let (mut turn, _) = SendTurn::begin("c".to_owned(), request("hi"));
    turn.on_sender(Ok(("p".to_owned(), TrustLevel::KnownLimited)));
    let risky = TurnPolicy { require_approval: true, ..policy() };
    assert_eq!(reply(turn.on_policy(risky).ask).status(), 202);

    let (mut turn, _) = SendTurn::begin("c".to_owned(), request("hi"));
    match reply(turn.on_sender(Err("db".to_owned())).ask) {
        SendReply::Failed(m) => assert_eq!(m, "identity resolution: db"),
        other => panic!("unexpected {other:?}"),
    }

    let mut secret = request("hi");
    secret.incognito = true;
    let (turn, step) = SendTurn::begin("c".to_owned(), secret);
    assert!(matches!(step.ask, SendAsk::RunIncognito));
    assert_eq!(turn.stage, SendStage::Over);
}

#[test]
fn the_split_leaves_the_tools_out() {
    let (mut turn, _) = SendTurn::begin("c".to_owned(), request("hi"));
    turn.on_sender(Ok(("p".to_owned(), TrustLevel::KnownLimited)));
    turn.on_policy(TurnPolicy { planner_executor: true, ..policy() });
    let plan = plan(turn.on_runtime(true, false, true).ask);
    assert!(matches!(plan.path, TurnPath::Plain));
    let input = policy_input(TrustLevel::KnownLimited, true);
    assert!(input.accesses_sensitive_data && !input.voice && !input.produces_external_effect);
}
