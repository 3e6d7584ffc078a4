//! `POST /api/chats/{id}/messages`: the way of a message from the request to
//! the committed turn.
//!
//! A message passes a fixed sequence of gates. Nothing of it is stored before
//! the last gate has let it pass: attachments and skills are only checked on
//! the way, and stored once the turn is certain to run.

use vstd::prelude::*;
use crate::chat_types::{Phase, TrustLevel};
use crate::real_turn::TurnOutcome;
use crate::text::{blank, copy_all, decimal, decimal_text, is_blank};

verus! {

/// A message as it was posted.
#[derive(Debug)]
pub struct SendMessageRequest {
    pub text: String,
    pub attachments: usize,
    pub skill_names: Vec<String>,
    pub incognito: bool,
    pub sender_principal_id: Option<String>,
    pub timezone: Option<String>,
}

/// What the policy engine says of a turn.
#[derive(Debug)]
pub struct TurnPolicy {
    pub drop_turn: bool,
    pub require_approval: bool,
    pub planner_executor: bool,
    pub spotlighting: bool,
    pub capability_set: Vec<String>,
}

/// What the policy engine is asked.
#[derive(Debug)]
pub struct TurnPolicyInput {
    pub effective_trust: TrustLevel,
    pub sender_trust: TrustLevel,
    pub voice: bool,
    pub accesses_sensitive_data: bool,
    pub produces_external_effect: bool,
}

/// What the policy engine is asked of a text turn.
pub fn policy_input(trust: TrustLevel, has_sensitive_tools: bool) -> (r: TurnPolicyInput)
    ensures
        r == (TurnPolicyInput {
            effective_trust: trust,
            sender_trust: trust,
            voice: false,
            accesses_sensitive_data: has_sensitive_tools,
            produces_external_effect: false,
        }),
{
    TurnPolicyInput {
        effective_trust: trust,
        sender_trust: trust,
        voice: false,
        accesses_sensitive_data: has_sensitive_tools,
        produces_external_effect: false,
    }
}

/// Which runtime answers a turn.
#[derive(Debug)]
pub enum TurnPath {
    /// The runner of a principal group.
    Runner(String),
    /// The in-process executor with tools.
    Tools,
    /// The streaming turn without tools.
    Plain,
    /// The stub.
    Stub,
}

/// The runtime of a turn: a runner where a group has one, else the executor
/// where tools may be used, else plain streaming; the stub without a backend.
pub open spec fn path_of(inference: bool, group: Option<String>, tools: bool) -> TurnPath {
    if !inference {
        TurnPath::Stub
    } else {
        match group {
            Some(g) => TurnPath::Runner(g),
            None => if tools {
                TurnPath::Tools
            } else {
                TurnPath::Plain
            },
        }
    }
}

/// The runtime of a turn.
pub fn select_path(inference: bool, group: Option<String>, tools: bool) -> (r: TurnPath)
    ensures
        r == path_of(inference, group, tools),
{
    if !inference {
        return TurnPath::Stub;
    }
    match group {
        Some(g) => TurnPath::Runner(g),
        None => {
            if tools {
                TurnPath::Tools
            } else {
                TurnPath::Plain
            }
        },
    }
}

impl TurnPath {
    /// The name under which failures of a path raise an alert.
    pub open spec fn alert_name(self) -> Seq<char> {
        match self {
            TurnPath::Runner(_) => "runner"@,
            TurnPath::Tools => "tool"@,
            TurnPath::Plain => "real"@,
            TurnPath::Stub => "stub"@,
        }
    }

    /// What a failure of a path is answered with.
    pub open spec fn failure_text(self, chain: Seq<char>) -> Seq<char> {
        let head = match self {
            TurnPath::Runner(_) => "runner turn failed: "@,
            TurnPath::Tools => "tool-capable turn failed: "@,
            TurnPath::Plain => "turn failed: "@,
            TurnPath::Stub => "stub turn failed: "@,
        };
        head + chain
    }

    fn alert(&self) -> (r: &'static str)
        ensures
            r@ == self.alert_name(),
    {
        match self {
            TurnPath::Runner(_) => "runner",
            TurnPath::Tools => "tool",
            TurnPath::Plain => "real",
            TurnPath::Stub => "stub",
        }
    }

    fn failure(&self, chain: &str) -> (r: String)
        ensures
            r@ == self.failure_text(chain@),
    {
        let head: &str = match self {
            TurnPath::Runner(_) => "runner turn failed: ",
            TurnPath::Tools => "tool-capable turn failed: ",
            TurnPath::Plain => "turn failed: ",
            TurnPath::Stub => "stub turn failed: ",
        };
        let mut out: String = head.to_owned();
        out.append(chain);
        out
    }
}

/// A refusal that a helper worded: status, code and message.
#[derive(Debug)]
pub struct Refusal {
    pub status: u16,
    pub code: String,
    pub message: String,
}

/// What a request is answered with.
#[derive(Debug)]
pub enum SendReply {
    /// 400
    EmptyText,
    /// The helper's status.
    Refused(Refusal),
    /// 500
    Failed(String),
    /// 403
    SenderBlocked,
    /// 202
    RuleOfTwoBreach { principal_id: String },
    /// 200
    Done(TurnOutcome),
}

/// The status of a reply.
pub open spec fn status_code(reply: SendReply) -> u16 {
    match reply {
        SendReply::EmptyText => 400,
        SendReply::Refused(r) => r.status,
        SendReply::Failed(_) => 500,
        SendReply::SenderBlocked => 403,
        SendReply::RuleOfTwoBreach { .. } => 202,
        SendReply::Done(_) => 200,
    }
}

impl SendReply {
    /// The status of a reply.
    pub fn status(&self) -> (r: u16)
        ensures
            r == status_code(*self),
    {
        match self {
            SendReply::EmptyText => 400,
            SendReply::Refused(r) => r.status,
            SendReply::Failed(_) => 500,
            SendReply::SenderBlocked => 403,
            SendReply::RuleOfTwoBreach { .. } => 202,
            SendReply::Done(_) => 200,
        }
    }
}

/// What is published while a message is on its way.
#[derive(Debug)]
pub enum SendEvent {
    PhaseChanged(Phase),
    TurnFailed { path: String, chain: String },
    ResolveTurnAlerts,
    Inbound { seq: i64, text: String, sender: Option<String> },
    Outbound { seq: i64, text: String },
    /// Hand the finished turn to the skill workers under this run id.
    TurnFinished { until_seq: i64, run_id: String },
}

/// Everything a runtime needs for a turn.
#[derive(Debug)]
pub struct TurnPlan {
    pub path: TurnPath,
    pub user_text: String,
    pub sender_principal_id: Option<String>,
    pub caller_caps: Vec<String>,
    pub caller_trust: TrustLevel,
    pub spotlight: bool,
    pub planner_executor: bool,
    pub channel_origin: Option<String>,
    pub timezone: Option<String>,
    pub attachment_ids: Vec<String>,
    pub applied_skill_names: Vec<String>,
}

/// What is to be found out next.
#[derive(Debug)]
pub enum SendAsk {
    /// Check and decode the attachments: `on_decoded`.
    DecodeAttachments,
    /// Read the skills: `on_skills`.
    ResolveSkills,
    /// Run the transient turn instead.
    RunIncognito,
    /// Who sends: `on_sender`.
    ResolveSender,
    /// Ask the policy engine: `on_policy`.
    EvaluatePolicy,
    /// Park the conversation and ask the controller instead.
    ColdContact,
    /// What can answer: `on_runtime`.
    LookUpRuntime,
    /// Which group's runner serves the conversation: `on_group`.
    ResolveGroup,
    /// Store the attachments: `on_stored`.
    StoreAttachments,
    /// Run the turn: `on_turn`.
    Run(TurnPlan),
    /// Answer the request.
    Reply(SendReply),
}

/// What follows an answer.
#[derive(Debug)]
pub struct SendStep {
    pub events: Vec<SendEvent>,
    pub ask: SendAsk,
}

/// How far a message has come.
#[derive(Clone, Copy, Debug, PartialEq, Eq, Structural)]
pub enum SendStage {
    Checking,
    Decoding,
    Skills,
    Sender,
    Policy,
    Runtime,
    Group,
    Storing,
    Running,
    Over,
}

/// A message on its way.
#[derive(Debug)]
pub struct SendTurn {
    pub stage: SendStage,
    pub conversation_id: String,
    pub request: SendMessageRequest,
    pub skill_prepend: String,
    pub principal_id: String,
    pub trust: TrustLevel,
    pub policy: TurnPolicy,
    pub has_tools: bool,
    pub inference: bool,
    pub group: Option<String>,
    /// The path the running turn took.
    pub running: Option<TurnPath>,
}

impl SendStage {
    /// How far a message has come. Every answer takes it further, so it is replied
    /// to in the end.
    pub open spec fn place(self) -> nat {
        match self {
            SendStage::Checking => 0,
            SendStage::Decoding => 1,
            SendStage::Skills => 2,
            SendStage::Sender => 3,
            SendStage::Policy => 4,
            SendStage::Runtime => 5,
            SendStage::Group => 6,
            SendStage::Storing => 7,
            SendStage::Running => 8,
            SendStage::Over => 9,
        }
    }
}

/// The policy engine and the trust level let a turn run.
pub open spec fn admitted(trust: TrustLevel, policy: TurnPolicy) -> bool {
    !policy.drop_turn && trust != TrustLevel::UnknownPending && !policy.require_approval
}

/// The stages in which a turn is shown as being processed.
pub open spec fn processing(stage: SendStage) -> bool {
    stage == SendStage::Group || stage == SendStage::Storing || stage == SendStage::Running
}

fn quiet(ask: SendAsk) -> (r: SendStep)
    ensures
        r.events@.len() == 0,
        r.ask == ask,
{
    SendStep { events: Vec::new(), ask }
}

fn reply(r: SendReply) -> (s: SendStep)
    ensures
        s.events@.len() == 0,
        s.ask == SendAsk::Reply(r),
{
    quiet(SendAsk::Reply(r))
}

/// A reply that ends the processing window.
fn reply_idle(r: SendReply) -> (s: SendStep)
    ensures
        s.events@ == seq![SendEvent::PhaseChanged(Phase::Idle)],
        s.ask == SendAsk::Reply(r),
{
    let mut events: Vec<SendEvent> = Vec::new();
    events.push(SendEvent::PhaseChanged(Phase::Idle));
    assert(events@ =~= seq![SendEvent::PhaseChanged(Phase::Idle)]);
    SendStep { events, ask: SendAsk::Reply(r) }
}

impl SendTurn {
    /// A message that has not passed the gates is not being processed, and one
    /// that is being processed has passed them.
    pub open spec fn wf(self) -> bool {
        &&& processing(self.stage) ==> admitted(self.trust, self.policy)
            && !self.request.incognito
        &&& self.stage == SendStage::Runtime ==> admitted(self.trust, self.policy)
            && !self.request.incognito
        &&& (self.stage == SendStage::Sender || self.stage == SendStage::Policy)
            ==> !self.request.incognito
        &&& (self.stage == SendStage::Running <==> self.running is Some)
    }

    /// The text the model gets: the applied skills in front of the message.
    pub open spec fn effective_text(self) -> Seq<char> {
        self.skill_prepend@ + self.request.text@
    }

    /// Nothing but the stage changed.
    pub open spec fn moved(self, before: SendTurn, stage: SendStage) -> bool {
        self == (SendTurn { stage, ..before })
    }

    /// Starts with a request. A message with neither text nor attachments is
    /// refused at once.
    pub fn begin(conversation_id: String, request: SendMessageRequest) -> (r: (SendTurn, SendStep))
        ensures
            r.0.wf(),
            r.0.conversation_id == conversation_id,
            r.0.request == request,
            r.0.skill_prepend@.len() == 0,
            r.1.events@.len() == 0,
            blank(request.text@) && request.attachments == 0 ==> r.0.stage == SendStage::Over
                && r.1.ask == SendAsk::Reply(SendReply::EmptyText),
            !(blank(request.text@) && request.attachments == 0) ==> {
                if !request.incognito && request.attachments > 0 {
                    r.0.stage == SendStage::Decoding && r.1.ask == SendAsk::DecodeAttachments
                } else {
                    r.0.after_decoding(r.1)
                }
            },
    {
        let empty: bool = is_blank(request.text.as_str()) && request.attachments == 0;
        let incognito: bool = request.incognito;
        let decode: bool = !incognito && request.attachments > 0;
        let mut turn = SendTurn {
            stage: SendStage::Checking,
            conversation_id,
            request,
            skill_prepend: String::new(),
            principal_id: String::new(),
            trust: TrustLevel::UnknownPending,
            policy: TurnPolicy {
                drop_turn: true,
                require_approval: true,
                planner_executor: true,
                spotlighting: true,
                capability_set: Vec::new(),
            },
            has_tools: false,
            inference: false,
            group: None,
            running: None,
        };
        if empty {
            turn.stage = SendStage::Over;
            return (turn, reply(SendReply::EmptyText));
        }
        if decode {
            turn.stage = SendStage::Decoding;
            return (turn, quiet(SendAsk::DecodeAttachments));
        }
        let step: SendStep = turn.to_skills();
        (turn, step)
    }

    /// Where a message goes once its attachments are decoded.
    pub open spec fn after_decoding(self, step: SendStep) -> bool {
        &&& step.events@.len() == 0
        &&& if self.request.incognito {
            self.stage == SendStage::Over && step.ask == SendAsk::RunIncognito
        } else if self.request.skill_names@.len() > 0 {
            self.stage == SendStage::Skills && step.ask == SendAsk::ResolveSkills
        } else {
            self.stage == SendStage::Sender && step.ask == SendAsk::ResolveSender
        }
    }

    fn to_skills(&mut self) -> (r: SendStep)
        requires
            old(self).running is None,
        ensures
            final(self).after_decoding(r),
            final(self).wf(),
            *final(self) == (SendTurn { stage: final(self).stage, ..*old(self) }),
    {
        if self.request.incognito {
            self.stage = SendStage::Over;
            quiet(SendAsk::RunIncognito)
        } else if self.request.skill_names.len() > 0 {
            self.stage = SendStage::Skills;
            quiet(SendAsk::ResolveSkills)
        } else {
            self.stage = SendStage::Sender;
            quiet(SendAsk::ResolveSender)
        }
    }

    /// The attachments were checked. A malformed one ends the way; a good one
    /// is held in memory only.
    pub fn on_decoded(&mut self, outcome: Result<(), Refusal>) -> (r: SendStep)
        requires
            old(self).wf(),
            old(self).stage == SendStage::Decoding,
        ensures
            old(self).stage.place() < final(self).stage.place(),
            final(self).wf(),
            outcome matches Err(e) ==> final(self).moved(*old(self), SendStage::Over)
                && r.events@.len() == 0 && r.ask == SendAsk::Reply(SendReply::Refused(e)),
            outcome is Ok ==> final(self).after_decoding(r) && final(self).moved(
                *old(self),
                final(self).stage,
            ),
    {
        match outcome {
            Err(e) => {
                self.stage = SendStage::Over;
                reply(SendReply::Refused(e))
            },
            Ok(()) => self.to_skills(),
        }
    }

    /// The skills were read. An unknown one ends the way.
    pub fn on_skills(&mut self, outcome: Result<String, Refusal>) -> (r: SendStep)
        requires
            old(self).wf(),
            old(self).stage == SendStage::Skills,
            !old(self).request.incognito,
        ensures
            old(self).stage.place() < final(self).stage.place(),
            final(self).wf(),
            r.events@.len() == 0,
            outcome matches Err(e) ==> final(self).moved(*old(self), SendStage::Over) && r.ask
                == SendAsk::Reply(SendReply::Refused(e)),
            outcome matches Ok(block) ==> *final(self) == (SendTurn {
                stage: SendStage::Sender,
                skill_prepend: block,
                ..*old(self)
            }) && r.ask == SendAsk::ResolveSender,
    {
        match outcome {
            Err(e) => {
                self.stage = SendStage::Over;
                reply(SendReply::Refused(e))
            },
            Ok(block) => {
                self.skill_prepend = block;
                self.stage = SendStage::Sender;
                quiet(SendAsk::ResolveSender)
            },
        }
    }

    /// The sender was looked up.
    pub fn on_sender(&mut self, outcome: Result<(String, TrustLevel), String>) -> (r: SendStep)
        requires
            old(self).wf(),
            old(self).stage == SendStage::Sender,
        ensures
            old(self).stage.place() < final(self).stage.place(),
            final(self).wf(),
            r.events@.len() == 0,
            outcome matches Err(e) ==> final(self).moved(*old(self), SendStage::Over) && (
            r.ask matches SendAsk::Reply(SendReply::Failed(m)) && m@ == "identity resolution: "@
                + e@),
            outcome matches Ok(found) ==> *final(self) == (SendTurn {
                stage: SendStage::Policy,
                principal_id: found.0,
                trust: found.1,
                ..*old(self)
            }) && r.ask == SendAsk::EvaluatePolicy,
    {
        match outcome {
            Err(e) => {
                self.stage = SendStage::Over;
                let mut message: String = "identity resolution: ".to_owned();
                message.append(e.as_str());
                reply(SendReply::Failed(message))
            },
            Ok(found) => {
                self.principal_id = found.0;
                self.trust = found.1;
                self.stage = SendStage::Policy;
                quiet(SendAsk::EvaluatePolicy)
            },
        }
    }

    /// The policy engine answered. A dropped turn is forbidden, an unknown
    /// sender parks the conversation, a turn that needs approval waits for it,
    /// in this order; any other turn passes.
    pub fn on_policy(&mut self, policy: TurnPolicy) -> (r: SendStep)
        requires
            old(self).wf(),
            old(self).stage == SendStage::Policy,
        ensures
            old(self).stage.place() < final(self).stage.place(),
            final(self).wf(),
            r.events@.len() == 0,
            *final(self) == (SendTurn {
                stage: if admitted(old(self).trust, policy) {
                    SendStage::Runtime
                } else {
                    SendStage::Over
                },
                policy,
                ..*old(self)
            }),
            policy.drop_turn ==> r.ask == SendAsk::Reply(SendReply::SenderBlocked),
            !policy.drop_turn && old(self).trust == TrustLevel::UnknownPending ==> r.ask
                == SendAsk::ColdContact,
            !policy.drop_turn && old(self).trust != TrustLevel::UnknownPending
                && policy.require_approval ==> r.ask == SendAsk::Reply(
                SendReply::RuleOfTwoBreach { principal_id: old(self).principal_id },
            ),
            admitted(old(self).trust, policy) ==> r.ask == SendAsk::LookUpRuntime,
    {
        self.policy = policy;
        if self.policy.drop_turn {
            self.stage = SendStage::Over;
            return reply(SendReply::SenderBlocked);
        }
        if self.trust == TrustLevel::UnknownPending {
            self.stage = SendStage::Over;
            return quiet(SendAsk::ColdContact);
        }
        if self.policy.require_approval {
            self.stage = SendStage::Over;
            return reply(SendReply::RuleOfTwoBreach { principal_id: self.principal_id.clone() });
        }
        self.stage = SendStage::Runtime;
        quiet(SendAsk::LookUpRuntime)
    }

    /// What can answer was looked up. From here on the turn is shown as being
    /// processed. A group's runner is looked for where a supervisor and a
    /// backend are there.
    pub fn on_runtime(&mut self, inference: bool, supervisor: bool, has_tools: bool) -> (r:
        SendStep)
        requires
            old(self).wf(),
            old(self).stage == SendStage::Runtime,
        ensures
            old(self).stage.place() < final(self).stage.place(),
            final(self).wf(),
            r.events@.len() == 1,
            r.events@[0] == SendEvent::PhaseChanged(Phase::Thinking),
            final(self).inference == inference,
            final(self).has_tools == has_tools,
            final(self).group is None,
            supervisor && inference ==> final(self).stage == SendStage::Group && r.ask
                == SendAsk::ResolveGroup,
            !(supervisor && inference) ==> final(self).after_routing(r.ask),
            *final(self) == (SendTurn {
                stage: final(self).stage,
                inference,
                has_tools,
                group: None,
                running: final(self).running,
                ..*old(self)
            }),
    {
        self.inference = inference;
        self.has_tools = has_tools;
        self.group = None;
        let mut events: Vec<SendEvent> = Vec::new();
        events.push(SendEvent::PhaseChanged(Phase::Thinking));
        let ask: SendAsk = if supervisor && inference {
            self.stage = SendStage::Group;
            SendAsk::ResolveGroup
        } else {
            self.to_storing()
        };
        SendStep { events, ask }
    }

    /// The plan of the turn that an admitted message becomes. The executor's
    /// tools are used only outside the planner/executor split.
    pub open spec fn plans(self, ids: Seq<String>, plan: TurnPlan) -> bool {
        &&& plan.path == path_of(
            self.inference,
            self.group,
            self.has_tools && !self.policy.planner_executor,
        )
        &&& plan.user_text@ == self.effective_text()
        &&& plan.sender_principal_id == self.request.sender_principal_id
        &&& plan.caller_caps@ == self.policy.capability_set@
        &&& plan.caller_trust == self.trust
        &&& plan.spotlight == self.policy.spotlighting
        &&& plan.planner_executor == self.policy.planner_executor
        &&& plan.channel_origin is None
        &&& plan.timezone == self.request.timezone
        &&& plan.attachment_ids@ == ids
        &&& plan.applied_skill_names@ == self.request.skill_names@
    }

    /// Where a message goes once its runtime is known.
    pub open spec fn after_routing(self, ask: SendAsk) -> bool {
        if self.request.attachments > 0 {
            self.stage == SendStage::Storing && ask == SendAsk::StoreAttachments
        } else {
            &&& self.stage == SendStage::Running
            &&& ask matches SendAsk::Run(plan)
            &&& self.plans(Seq::empty(), plan)
            &&& self.running == Some(plan.path)
        }
    }

    fn to_storing(&mut self) -> (ask: SendAsk)
        requires
            admitted(old(self).trust, old(self).policy),
            !old(self).request.incognito,
            old(self).running is None,
        ensures
            final(self).after_routing(ask),
            final(self).wf(),
            *final(self) == (SendTurn {
                stage: final(self).stage,
                running: final(self).running,
                ..*old(self)
            }),
    {
        if self.request.attachments > 0 {
            self.stage = SendStage::Storing;
            SendAsk::StoreAttachments
        } else {
            let plan: TurnPlan = self.to_running(Vec::new());
            SendAsk::Run(plan)
        }
    }

    fn to_running(&mut self, ids: Vec<String>) -> (plan: TurnPlan)
        requires
            admitted(old(self).trust, old(self).policy),
            !old(self).request.incognito,
        ensures
            final(self).stage == SendStage::Running,
            final(self).wf(),
            final(self).plans(ids@, plan),
            final(self).running == Some(plan.path),
            *final(self) == (SendTurn {
                stage: SendStage::Running,
                running: final(self).running,
                ..*old(self)
            }),
    {
        let tools: bool = self.has_tools && !self.policy.planner_executor;
        let mut user_text: String = self.skill_prepend.clone();
        user_text.append(self.request.text.as_str());
        self.running = Some(select_path(self.inference, self.group.clone(), tools));
        self.stage = SendStage::Running;
        TurnPlan {
            path: select_path(self.inference, self.group.clone(), tools),
            user_text,
            sender_principal_id: self.request.sender_principal_id.clone(),
            caller_caps: copy_all(&self.policy.capability_set),
            caller_trust: self.trust,
            spotlight: self.policy.spotlighting,
            planner_executor: self.policy.planner_executor,
            channel_origin: None,
            timezone: self.request.timezone.clone(),
            attachment_ids: ids,
            applied_skill_names: copy_all(&self.request.skill_names),
        }
    }

    /// The group's runner was looked for; without one the turn runs in process.
    pub fn on_group(&mut self, group: Option<String>) -> (r: SendStep)
        requires
            old(self).wf(),
            old(self).stage == SendStage::Group,
        ensures
            old(self).stage.place() < final(self).stage.place(),
            final(self).wf(),
            r.events@.len() == 0,
            final(self).after_routing(r.ask),
            *final(self) == (SendTurn {
                stage: final(self).stage,
                running: final(self).running,
                group,
                ..*old(self)
            }),
    {
        self.group = group;
        let ask: SendAsk = self.to_storing();
        quiet(ask)
    }

    /// The attachments were stored.
    pub fn on_stored(&mut self, outcome: Result<Vec<String>, Refusal>) -> (r: SendStep)
        requires
            old(self).wf(),
            old(self).stage == SendStage::Storing,
        ensures
            old(self).stage.place() < final(self).stage.place(),
            final(self).wf(),
            outcome matches Err(e) ==> final(self).moved(*old(self), SendStage::Over) && r.events@
                == seq![SendEvent::PhaseChanged(Phase::Idle)] && r.ask == SendAsk::Reply(
                SendReply::Refused(e),
            ),
            outcome matches Ok(ids) ==> {
                &&& r.events@.len() == 0
                &&& r.ask matches SendAsk::Run(plan)
                &&& final(self).plans(ids@, plan)
                &&& *final(self) == (SendTurn {
                    stage: SendStage::Running,
                    running: Some(plan.path),
                    ..*old(self)
                })
            },
    {
        match outcome {
            Err(e) => {
                self.stage = SendStage::Over;
                reply_idle(SendReply::Refused(e))
            },
            Ok(ids) => {
                let plan: TurnPlan = self.to_running(ids);
                quiet(SendAsk::Run(plan))
            },
        }
    }

    /// The turn has run. A failure raises its path's alert and is answered with
    /// the chain of causes. A success is shown as idle first, then as the
    /// message, then as the reply.
    pub fn on_turn(&mut self, outcome: Result<TurnOutcome, String>) -> (r: SendStep)
        requires
            old(self).wf(),
            old(self).stage == SendStage::Running,
        ensures
            old(self).stage.place() < final(self).stage.place(),
            final(self).wf(),
            *final(self) == (SendTurn { stage: SendStage::Over, running: None, ..*old(self) }),
            outcome matches Err(chain) ==> {
                &&& r.events@.len() == 2
                &&& r.events@[0] matches SendEvent::TurnFailed { path, chain: c }
                &&& path@ == (old(self).running->0).alert_name()
                &&& c == chain
                &&& r.events@[1] == SendEvent::PhaseChanged(Phase::Idle)
                &&& r.ask matches SendAsk::Reply(SendReply::Failed(m))
                &&& m@ == (old(self).running->0).failure_text(chain@)
            },
            outcome matches Ok(done) ==> {
                &&& r.events@.len() == 5
                &&& r.events@[0] == SendEvent::ResolveTurnAlerts
                &&& r.events@[1] == SendEvent::PhaseChanged(Phase::Idle)
                &&& r.events@[2] == (SendEvent::Inbound {
                    seq: done.user_msg_seq,
                    text: old(self).request.text,
                    sender: old(self).request.sender_principal_id,
                })
                &&& r.events@[3] == (SendEvent::Outbound {
                    seq: done.assistant_seq,
                    text: done.assistant_text,
                })
                &&& r.events@[4] matches SendEvent::TurnFinished { until_seq, run_id }
                &&& until_seq == done.assistant_seq
                &&& run_id@ == run_name(old(self).conversation_id@, done.assistant_seq)
                &&& r.ask == SendAsk::Reply(SendReply::Done(done))
            },
    {
        let path: Option<TurnPath> = self.running.take();
        self.stage = SendStage::Over;
        let path: TurnPath = match path {
            Some(p) => p,
            None => TurnPath::Stub,
        };
        let mut events: Vec<SendEvent> = Vec::new();
        match outcome {
            Err(chain) => {
                let message: String = path.failure(chain.as_str());
                events.push(SendEvent::TurnFailed { path: path.alert().to_owned(), chain });
                events.push(SendEvent::PhaseChanged(Phase::Idle));
                SendStep { events, ask: SendAsk::Reply(SendReply::Failed(message)) }
            },
            Ok(done) => {
                events.push(SendEvent::ResolveTurnAlerts);
                events.push(SendEvent::PhaseChanged(Phase::Idle));
                events.push(
                    SendEvent::Inbound {
                        seq: done.user_msg_seq,
                        text: self.request.text.clone(),
                        sender: self.request.sender_principal_id.clone(),
                    },
                );
                events.push(
                    SendEvent::Outbound {
                        seq: done.assistant_seq,
                        text: done.assistant_text.clone(),
                    },
                );
                events.push(
                    SendEvent::TurnFinished {
                        until_seq: done.assistant_seq,
                        run_id: run_id(self.conversation_id.as_str(), done.assistant_seq),
                    },
                );
                SendStep { events, ask: SendAsk::Reply(SendReply::Done(done)) }
            },
        }
    }
}

/// A signed number in decimal.
pub open spec fn signed_decimal(n: i64) -> Seq<char> {
    if n >= 0 {
        decimal(n as nat)
    } else {
        "-"@ + decimal((-n) as nat)
    }
}

fn signed_text(n: i64) -> (r: String)
    ensures
        r@ == signed_decimal(n),
{
    if n >= 0 {
        decimal_text(n as u64)
    } else {
        let magnitude: i128 = -(n as i128);
        let mut out: String = "-".to_owned();
        let digits: String = decimal_text(magnitude as u64);
        out.append(digits.as_str());
        out
    }
}

/// The run id of a finished turn.
pub open spec fn run_name(conversation_id: Seq<char>, seq: i64) -> Seq<char> {
    "turn-"@ + conversation_id + "-"@ + signed_decimal(seq)
}

fn run_id(conversation_id: &str, seq: i64) -> (r: String)
    ensures
        r@ == run_name(conversation_id@, seq),
{
    let mut out: String = "turn-".to_owned();
    out.append(conversation_id);
    out.append("-");
    let n: String = signed_text(seq);
    out.append(n.as_str());
    out
}

/// The runtime of an admitted message with a backend and no group: the executor with
/// tools exactly where there are tools and the turn is not split, else plain streaming.
pub proof fn tools_decide_the_runtime_without_a_group(
    turn: SendTurn,
    ids: Seq<String>,
    plan: TurnPlan,
)
    requires
        turn.plans(ids, plan),
        turn.inference,
        turn.group is None,
    ensures
        plan.path == TurnPath::Tools <==> turn.has_tools && !turn.policy.planner_executor,
        plan.path == TurnPath::Plain <==> !turn.has_tools || turn.policy.planner_executor,
{
}

/// A message without attachments that is routed is run at once, on the runtime that its
/// backend, group, tools and split ask for: the stub without a backend, the runner of its
/// group where it has one, the executor where it has tools and is not split, and plain
/// streaming otherwise.
pub proof fn a_routed_message_runs_where_it_should(turn: SendTurn, ask: SendAsk)
    requires
        turn.after_routing(ask),
    ensures
        turn.request.attachments > 0 ==> ask == SendAsk::StoreAttachments && turn.stage
            == SendStage::Storing,
        turn.request.attachments == 0 ==> (ask matches SendAsk::Run(plan) && {
            &&& turn.stage == SendStage::Running
            &&& turn.running == Some(plan.path)
            &&& plan.attachment_ids@.len() == 0
            &&& !turn.inference <==> plan.path == TurnPath::Stub
            &&& turn.inference ==> (turn.group matches Some(g) ==> plan.path == TurnPath::Runner(
                g,
            ))
            &&& turn.inference && turn.group is None && turn.has_tools
                && !turn.policy.planner_executor ==> plan.path == TurnPath::Tools
            &&& turn.inference && turn.group is None && (!turn.has_tools
                || turn.policy.planner_executor) ==> plan.path == TurnPath::Plain
        }),
{
}

/// The plan of a turn carries what its sender wrote and what the policy allows, and no
/// more: the skills in front of the message, the sender, the stored attachments, the
/// policy's capabilities, its marks and its split.
pub proof fn a_plan_carries_the_message_and_its_limits(
    turn: SendTurn,
    ids: Seq<String>,
    plan: TurnPlan,
)
    requires
        turn.plans(ids, plan),
    ensures
        plan.user_text@.len() == turn.skill_prepend@.len() + turn.request.text@.len(),
        plan.user_text@.take(turn.skill_prepend@.len() as int) == turn.skill_prepend@,
        plan.user_text@.skip(turn.skill_prepend@.len() as int) == turn.request.text@,
        plan.sender_principal_id == turn.request.sender_principal_id,
        plan.caller_trust == turn.trust,
        plan.caller_caps@ == turn.policy.capability_set@,
        plan.spotlight == turn.policy.spotlighting,
        plan.planner_executor == turn.policy.planner_executor,
        plan.attachment_ids@ == ids,
        plan.applied_skill_names@ == turn.request.skill_names@,
        plan.timezone == turn.request.timezone,
        plan.channel_origin is None,
{
    assert(plan.user_text@.take(turn.skill_prepend@.len() as int) =~= turn.skill_prepend@);
    assert(plan.user_text@.skip(turn.skill_prepend@.len() as int) =~= turn.request.text@);
}

/// Without a backend nothing answers but the stub; a group's runner goes before tools, and
/// tools before plain streaming.
pub proof fn runtimes_have_an_order(group: String, tools: bool)
    ensures
        path_of(false, Some(group), tools) == TurnPath::Stub,
        path_of(false, None, tools) == TurnPath::Stub,
        path_of(true, Some(group), tools) == TurnPath::Runner(group),
        path_of(true, None, true) == TurnPath::Tools,
        path_of(true, None, false) == TurnPath::Plain,
{
}

/// A turn runs only where the policy drops it not, asks for no approval, and the sender is
/// known; and then it does run.
pub proof fn only_admitted_messages_run(trust: TrustLevel, policy: TurnPolicy)
    ensures
        policy.drop_turn ==> !admitted(trust, policy),
        policy.require_approval ==> !admitted(trust, policy),
        trust == TrustLevel::UnknownPending ==> !admitted(trust, policy),
        !policy.drop_turn && !policy.require_approval && trust != TrustLevel::UnknownPending
            ==> admitted(trust, policy),
{
}

/// A decoded message that is transient leaves the ordinary way at once; another has its
/// skills read where it names any, and its sender looked up where it names none.
pub proof fn skills_come_before_the_sender(turn: SendTurn, step: SendStep)
    requires
        turn.after_decoding(step),
    ensures
        step.events@.len() == 0,
        turn.request.incognito ==> step.ask == SendAsk::RunIncognito && turn.stage
            == SendStage::Over,
        !turn.request.incognito && turn.request.skill_names@.len() > 0 ==> step.ask
            == SendAsk::ResolveSkills && turn.stage == SendStage::Skills,
        !turn.request.incognito && turn.request.skill_names@.len() == 0 ==> step.ask
            == SendAsk::ResolveSender && turn.stage == SendStage::Sender,
{
}

/// Every reply has the status of its sort.
pub proof fn replies_have_their_status(
    refusal: Refusal,
    why: String,
    who: String,
    done: TurnOutcome,
)
    ensures
        status_code(SendReply::EmptyText) == 400,
        status_code(SendReply::Refused(refusal)) == refusal.status,
        status_code(SendReply::Failed(why)) == 500,
        status_code(SendReply::SenderBlocked) == 403,
        status_code(SendReply::RuleOfTwoBreach { principal_id: who }) == 202,
        status_code(SendReply::Done(done)) == 200,
{
}

/// A failure is told with its cause, under the name of the runtime that failed.
pub proof fn a_failure_names_its_runtime(group: String, chain: Seq<char>)
    ensures
        TurnPath::Runner(group).failure_text(chain) == "runner turn failed: "@ + chain,
        TurnPath::Tools.failure_text(chain) == "tool-capable turn failed: "@ + chain,
        TurnPath::Plain.failure_text(chain) == "turn failed: "@ + chain,
        TurnPath::Stub.failure_text(chain) == "stub turn failed: "@ + chain,
        TurnPath::Runner(group).alert_name() == "runner"@,
        TurnPath::Tools.alert_name() == "tool"@,
        TurnPath::Plain.alert_name() == "real"@,
        TurnPath::Stub.alert_name() == "stub"@,
{
}

/// A run is named after its conversation and the number of its message.
pub proof fn a_run_is_named_after_its_message(conversation_id: Seq<char>, seq: i64)
    ensures
        seq >= 0 ==> run_name(conversation_id, seq) == "turn-"@ + conversation_id + "-"@ + decimal(
            seq as nat,
        ),
        seq < 0 ==> run_name(conversation_id, seq) == "turn-"@ + conversation_id + "-"@ + ("-"@
            + decimal((-seq) as nat)),
{
}

} // verus!
