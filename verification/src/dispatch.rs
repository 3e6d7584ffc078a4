//! Turns that do not come from the chat composer: scheduled routines, messages
//! of external transports, and questions of the research planner. And what
//! becomes of a message whose sender nobody knows yet.

use vstd::prelude::*;
use crate::chat_types::{
    ColdContactPayload, EventKind, EventRecord, Payload, PendingEvent, Phase, TrustLevel,
    UserMessagePayload,
};
use crate::approval_token::{issue_approval_token, token_at, JwtSigner};
use crate::platform::{
    approval_shaped, fresh_approval_id, fresh_uuid, uuid_shaped, LAST_SECOND,
};
use crate::real_turn::TurnOutcome;
use crate::send::{path_of, select_path, TurnPath, TurnPlan, TurnPolicy};
use crate::text::{blank, has_text, is_blank, occurs_at, opt_view, same, texts};

verus! {

/// The sender of a turn that the server itself starts. Its messages are kept in
/// the log and hidden from the message list.
pub const SYSTEM_ORCHESTRATOR_ACTOR: &'static str = "system-orchestrator";

/// A tool that sends a text reply on a channel, by the naming convention of the
/// transport plugins.
pub open spec fn send_tool(channel: Seq<char>, tool: Seq<char>) -> bool {
    tool == channel + ".send_message"@ || tool == channel + ".reply"@
}

/// Whether a tool is the one by which the agent sends a text reply on a
/// channel: `{channel}.send_message` or `{channel}.reply`.
pub fn is_send_tool_for_channel(channel: &str, tool_name: &str) -> (r: bool)
    ensures
        r == send_tool(channel@, tool_name@),
{
    let mut send: String = channel.to_owned();
    send.append(".send_message");
    let mut reply: String = channel.to_owned();
    reply.append(".reply");
    same(tool_name, send.as_str()) || same(tool_name, reply.as_str())
}

/// No tool is the send tool of two channels: a channel never takes the tool of
/// one whose name begins like its own.
pub proof fn send_tools_belong_to_one_channel(a: Seq<char>, b: Seq<char>, tool: Seq<char>)
    requires
        send_tool(a, tool),
        send_tool(b, tool),
    ensures
        a == b,
{
    reveal_strlit(".send_message");
    reveal_strlit(".reply");
    assert((a + ".send_message"@).last() == 'e');
    assert((b + ".send_message"@).last() == 'e');
    assert((a + ".reply"@).last() == 'y');
    assert((b + ".reply"@).last() == 'y');
    assert(a.len() == b.len());
    assert(a =~= tool.take(a.len() as int));
    assert(b =~= tool.take(b.len() as int));
}

/// Where the last turn of a log begins: at the last user message, or at the
/// start.
pub open spec fn last_turn_start(events: Seq<EventRecord>) -> int
    decreases events.len(),
{
    if events.len() == 0 {
        0
    } else if events.last().kind is UserMsg {
        events.len() - 1
    } else {
        last_turn_start(events.drop_last())
    }
}

/// The events of the last turn.
pub open spec fn last_turn(events: Seq<EventRecord>) -> Seq<EventRecord> {
    events.skip(last_turn_start(events))
}

/// The agent called a send tool of the channel.
pub open spec fn already_sent(turn: Seq<EventRecord>, channel: Seq<char>) -> bool {
    exists|i: int|
        0 <= i < turn.len() && (#[trigger] turn[i]).kind is ToolUse && (
        turn[i].payload matches Some(Payload::ToolUse(p)) && send_tool(channel, p.tool_name@))
}

/// The text of the last model turn that could be read; empty without one.
pub open spec fn last_answer_text(turn: Seq<EventRecord>) -> Seq<char>
    decreases turn.len(),
{
    if turn.len() == 0 {
        Seq::empty()
    } else {
        match (turn.last().kind, turn.last().payload) {
            (EventKind::ModelTurn, Some(Payload::Model(p))) => p.text@,
            _ => last_answer_text(turn.drop_last()),
        }
    }
}

/// A reply to be sent through a channel's plugin.
#[derive(Debug)]
pub struct BridgeSend {
    pub tool_name: String,
    pub to: String,
    pub text: String,
}

/// Replies on a channel are held back for the operator to read first.
pub open spec fn review_only(channel: Seq<char>, mode: Option<Seq<char>>) -> bool {
    channel == "whatsapp"@ && mode != Some("automatic"@)
}

/// Whether the reply of the last turn is sent on its own: on a channel that
/// sends automatically, where the turn has an answer and the agent has not sent
/// it already.
pub open spec fn bridges(
    events: Seq<EventRecord>,
    channel: Seq<char>,
    mode: Option<Seq<char>>,
) -> bool {
    let turn = last_turn(events);
    &&& !review_only(channel, mode)
    &&& !already_sent(turn, channel)
    &&& !blank(last_answer_text(turn))
}

fn find_turn_start(events: &[EventRecord]) -> (r: usize)
    ensures
        r == last_turn_start(events@),
        r <= events@.len(),
{
    let mut i: usize = events.len();
    assert(events@.take(i as int) =~= events@);
    while i > 0
        invariant
            i <= events@.len(),
            last_turn_start(events@) == last_turn_start(events@.take(i as int)),
        decreases i,
    {
        assert(events@.take(i as int).last() == events@[i - 1]);
        if let EventKind::UserMsg = &events[i - 1].kind {
            return i - 1;
        }
        assert(events@.take(i as int).drop_last() =~= events@.take(i - 1));
        i -= 1;
    }
    0
}

/// Decides whether the agent's reply is sent back on the transport that the
/// message came from. `mode` is the channel's stored reply mode.
pub fn bridge_reply(
    events: &[EventRecord],
    channel: &str,
    foreign_id: &str,
    mode: Option<&str>,
) -> (r: Option<BridgeSend>)
    ensures
        r is Some <==> bridges(
            events@,
            channel@,
            match mode {
                Some(m) => Some(m@),
                None => None,
            },
        ),
        r matches Some(s) ==> s.tool_name@ == channel@ + ".send_message"@ && s.to@ == foreign_id@
            && s.text@ == last_answer_text(last_turn(events@)),
{
    if same(channel, "whatsapp") {
        let automatic: bool = match mode {
            Some(m) => same(m, "automatic"),
            None => false,
        };
        if !automatic {
            return None;
        }
    }
    let start: usize = find_turn_start(events);
    let ghost turn = last_turn(events@);
    let mut i: usize = start;
    let mut text: Option<String> = None;
    assert(turn.take(0) =~= Seq::<EventRecord>::empty());
    while i < events.len()
        invariant
            start <= i <= events@.len(),
            start == last_turn_start(events@),
            turn == last_turn(events@),
            forall|j: int|
                0 <= j < i - start ==> !((#[trigger] turn[j]).kind is ToolUse && (
                turn[j].payload matches Some(Payload::ToolUse(p)) && send_tool(
                    channel@,
                    p.tool_name@,
                ))),
            last_answer_text(turn.take(i - start)) == match text {
                Some(t) => t@,
                None => Seq::<char>::empty(),
            },
        decreases events.len() - i,
    {
        let ev: &EventRecord = &events[i];
        assert(turn[i - start] == *ev);
        assert(turn.take(i - start + 1).drop_last() =~= turn.take(i - start));
        match (&ev.kind, &ev.payload) {
            (EventKind::ToolUse, Some(Payload::ToolUse(p))) => {
                if is_send_tool_for_channel(channel, p.tool_name.as_str()) {
                    return None;
                }
            },
            (EventKind::ModelTurn, Some(Payload::Model(p))) => {
                text = Some(p.text.clone());
            },
            _ => {},
        }
        i += 1;
    }
    assert(turn.take(i - start) =~= turn);
    let text: String = match text {
        Some(t) => t,
        None => {
            return None;
        },
    };
    if is_blank(text.as_str()) {
        return None;
    }
    let mut tool_name: String = channel.to_owned();
    tool_name.append(".send_message");
    Some(BridgeSend { tool_name, to: foreign_id.to_owned(), text })
}

proof fn lemma_turn_starts_in_the_log(events: Seq<EventRecord>)
    ensures
        0 <= last_turn_start(events) <= events.len(),
    decreases events.len(),
{
    if events.len() > 0 && !(events.last().kind is UserMsg) {
        lemma_turn_starts_in_the_log(events.drop_last());
    }
}

/// A reply that was sent as the bridge asks is not sent again: once the send is
/// in the log of the turn, the bridge holds back.
pub proof fn bridge_does_not_send_twice(
    events: Seq<EventRecord>,
    channel: Seq<char>,
    mode: Option<Seq<char>>,
    i: int,
)
    requires
        last_turn_start(events) <= i < events.len(),
        events[i].kind is ToolUse,
        events[i].payload matches Some(Payload::ToolUse(p)) && p.tool_name@ == channel
            + ".send_message"@,
    ensures
        !bridges(events, channel, mode),
{
    lemma_turn_starts_in_the_log(events);
    let turn = last_turn(events);
    let j = i - last_turn_start(events);
    assert(turn[j] == events[i]);
}

/// The tool by which a channel shows that the agent is typing.
pub fn typing_tool(channel: &str) -> (r: String)
    ensures
        r@ == channel@ + ".set_typing"@,
{
    let mut out: String = channel.to_owned();
    out.append(".set_typing");
    out
}

/// What a dispatched turn has published, in order.
#[derive(Debug)]
pub enum DispatchEvent {
    PhaseChanged(Phase),
    Inbound { seq: i64, text: String, sender: String },
    /// Send the reply back on the originating transport, as `bridge_reply`
    /// decides.
    Bridge,
    Outbound { seq: i64, text: String },
    AlertFired { alert_id: String, severity: String, source: String, title: String },
    ApprovalCreated { approval_id: String, conversation_id: String },
}

/// The result of a routine-triggered turn.
#[derive(Debug)]
pub struct RoutineDispatchOutcome {
    pub conversation_id: String,
    pub assistant_text: String,
}

fn wildcard() -> (r: Vec<String>)
    ensures
        texts(r@) == seq!["*"@],
{
    let mut v: Vec<String> = Vec::new();
    v.push("*".to_owned());
    assert(texts(v@) =~= seq!["*"@]);
    v
}

/// A turn that runs with the controller's rights on text the server vouches
/// for: every capability, no spotlighting, no split.
pub open spec fn controller_plan(
    plan: TurnPlan,
    path: TurnPath,
    text: Seq<char>,
    sender: Seq<char>,
    timezone: Option<String>,
) -> bool {
    &&& plan.path == path
    &&& plan.user_text@ == text
    &&& opt_view(plan.sender_principal_id) == Some(sender)
    &&& texts(plan.caller_caps@) == seq!["*"@]
    &&& plan.caller_trust == TrustLevel::Controller
    &&& !plan.spotlight
    &&& !plan.planner_executor
    &&& plan.channel_origin is None
    &&& plan.timezone == timezone
    &&& plan.attachment_ids@.len() == 0
    &&& plan.applied_skill_names@.len() == 0
}

fn plan_as_controller(
    path: TurnPath,
    text: String,
    sender: &str,
    timezone: Option<String>,
) -> (plan: TurnPlan)
    ensures
        controller_plan(plan, path, text@, sender@, timezone),
{
    TurnPlan {
        path,
        user_text: text,
        sender_principal_id: Some(sender.to_owned()),
        caller_caps: wildcard(),
        caller_trust: TrustLevel::Controller,
        spotlight: false,
        planner_executor: false,
        channel_origin: None,
        timezone,
        attachment_ids: Vec::new(),
        applied_skill_names: Vec::new(),
    }
}

/// The conversation of a routine without a target.
pub open spec fn routine_conversation(routine_id: Seq<char>, s: Seq<char>) -> bool {
    exists|u: Seq<char>| uuid_shaped(u) && s == #[trigger] ("routine-"@ + routine_id + "-"@ + u)
}

/// The conversation a routine's turn runs on: its target, or a fresh one.
pub fn routine_conversation_id(routine_id: &str, target: Option<&str>) -> (r: String)
    ensures
        target matches Some(t) ==> r@ == t@,
        target is None ==> routine_conversation(routine_id@, r@),
{
    match target {
        Some(t) => t.to_owned(),
        None => {
            let uuid: String = fresh_uuid();
            let mut out: String = "routine-".to_owned();
            out.append(routine_id);
            out.append("-");
            out.append(uuid.as_str());
            assert(out@ == "routine-"@ + routine_id@ + "-"@ + uuid@);
            out
        },
    }
}

/// Whether the agent has anything to call.
pub open spec fn has_tool_surface(plugin_tools: usize, builtin_tools: usize) -> bool {
    plugin_tools > 0 || builtin_tools > 0
}

/// Plans a routine's turn, which runs as if the controller had typed its
/// prompt. A runner serves it only where the conversation is bound to a group
/// already.
pub fn dispatch_routine_turn(
    prompt: String,
    timezone: Option<String>,
    inference: bool,
    supervisor: bool,
    bound_group: Option<String>,
    plugin_tools: usize,
    builtin_tools: usize,
) -> (plan: TurnPlan)
    ensures
        controller_plan(
            plan,
            path_of(
                inference,
                if supervisor {
                    bound_group
                } else {
                    None
                },
                has_tool_surface(plugin_tools, builtin_tools),
            ),
            prompt@,
            "controller"@,
            timezone,
        ),
{
    let group: Option<String> = if supervisor {
        bound_group
    } else {
        None
    };
    let path: TurnPath = select_path(inference, group, plugin_tools > 0 || builtin_tools > 0);
    plan_as_controller(path, prompt, "controller", timezone)
}

/// Ends a routine's turn: the conversation is idle again, whatever happened.
pub fn finish_routine_turn(
    conversation_id: String,
    outcome: Result<TurnOutcome, String>,
) -> (r: (Vec<DispatchEvent>, Result<RoutineDispatchOutcome, String>))
    ensures
        r.0@ == seq![DispatchEvent::PhaseChanged(Phase::Idle)],
        outcome matches Ok(done) ==> r.1 == Ok::<RoutineDispatchOutcome, String>(
            RoutineDispatchOutcome { conversation_id, assistant_text: done.assistant_text },
        ),
        outcome matches Err(e) ==> r.1 == Err::<RoutineDispatchOutcome, String>(e),
{
    let mut events: Vec<DispatchEvent> = Vec::new();
    events.push(DispatchEvent::PhaseChanged(Phase::Idle));
    assert(events@ =~= seq![DispatchEvent::PhaseChanged(Phase::Idle)]);
    match outcome {
        Ok(done) => (
            events,
            Ok(RoutineDispatchOutcome { conversation_id, assistant_text: done.assistant_text }),
        ),
        Err(e) => (events, Err(e)),
    }
}

/// The prompt by which the agent is told to relay a research question.
pub open spec fn clarification_text(job_id: Seq<char>, question: Seq<char>) -> Seq<char> {
    "[SYSTEM ORCHESTRATOR NOTICE] A deep-research job (id: "@ + job_id
        + ") you started needs the user's clarification before it can proceed.\n\nThe planner asked:\n  "@
        + question
        + "\n\nPlease relay this question to the user in chat in a natural way — quote it verbatim or briefly reframe, whichever feels more conversational. Do NOT call any research_* tool right now: wait for the user's reply in their next message, then call research_clarify(job_id=\""@
        + job_id + "\", clarification=\"<their answer>\") to resume the job."@
}

/// The prompt by which the agent is told to relay a research question.
pub fn clarification_prompt(job_id: &str, question: &str) -> (r: String)
    ensures
        r@ == clarification_text(job_id@, question@),
{
    let mut out: String = "[SYSTEM ORCHESTRATOR NOTICE] A deep-research job (id: ".to_owned();
    out.append(job_id);
    out.append(
        ") you started needs the user's clarification before it can proceed.\n\nThe planner asked:\n  ",
    );
    out.append(question);
    out.append(
        "\n\nPlease relay this question to the user in chat in a natural way — quote it verbatim or briefly reframe, whichever feels more conversational. Do NOT call any research_* tool right now: wait for the user's reply in their next message, then call research_clarify(job_id=\"",
    );
    out.append(job_id);
    out.append("\", clarification=\"<their answer>\") to resume the job.");
    out
}

/// Plans the turn that relays a research question. It runs as the controller's,
/// under the orchestrator's name; the executor is used only where plugin tools
/// are there.
pub fn dispatch_clarification_turn(
    job_id: &str,
    question: &str,
    inference: bool,
    supervisor: bool,
    bound_group: Option<String>,
    plugin_tools: usize,
) -> (plan: TurnPlan)
    ensures
        controller_plan(
            plan,
            path_of(
                inference,
                if supervisor {
                    bound_group
                } else {
                    None
                },
                plugin_tools > 0,
            ),
            clarification_text(job_id@, question@),
            SYSTEM_ORCHESTRATOR_ACTOR@,
            None,
        ),
{
    let group: Option<String> = if supervisor {
        bound_group
    } else {
        None
    };
    let path: TurnPath = select_path(inference, group, plugin_tools > 0);
    plan_as_controller(path, clarification_prompt(job_id, question), SYSTEM_ORCHESTRATOR_ACTOR, None)
}

/// Ends the turn that relays a research question. On success the hidden
/// message, the bridge, the reply and the idle phase follow in this order.
pub fn finish_clarification_turn(
    conversation_id: String,
    prompt: String,
    outcome: Result<TurnOutcome, String>,
) -> (r: (Vec<DispatchEvent>, Result<RoutineDispatchOutcome, String>))
    ensures
        outcome matches Ok(done) ==> {
            &&& r.0@.len() == 4
            &&& r.0@[0] matches DispatchEvent::Inbound { seq, text, sender }
            &&& seq == done.user_msg_seq
            &&& text == prompt
            &&& sender@ == SYSTEM_ORCHESTRATOR_ACTOR@
            &&& r.0@[1] == DispatchEvent::Bridge
            &&& r.0@[2] == (DispatchEvent::Outbound {
                seq: done.assistant_seq,
                text: done.assistant_text,
            })
            &&& r.0@[3] == DispatchEvent::PhaseChanged(Phase::Idle)
            &&& r.1 == Ok::<RoutineDispatchOutcome, String>(
                RoutineDispatchOutcome { conversation_id, assistant_text: done.assistant_text },
            )
        },
        outcome matches Err(e) ==> r.0@ == seq![DispatchEvent::PhaseChanged(Phase::Idle)] && r.1
            == Err::<RoutineDispatchOutcome, String>(e),
{
    let mut events: Vec<DispatchEvent> = Vec::new();
    match outcome {
        Ok(done) => {
            events.push(
                DispatchEvent::Inbound {
                    seq: done.user_msg_seq,
                    text: prompt,
                    sender: SYSTEM_ORCHESTRATOR_ACTOR.to_owned(),
                },
            );
            events.push(DispatchEvent::Bridge);
            events.push(
                DispatchEvent::Outbound {
                    seq: done.assistant_seq,
                    text: done.assistant_text.clone(),
                },
            );
            events.push(DispatchEvent::PhaseChanged(Phase::Idle));
            (
                events,
                Ok(
                    RoutineDispatchOutcome {
                        conversation_id,
                        assistant_text: done.assistant_text,
                    },
                ),
            )
        },
        Err(e) => {
            events.push(DispatchEvent::PhaseChanged(Phase::Idle));
            assert(events@ =~= seq![DispatchEvent::PhaseChanged(Phase::Idle)]);
            (events, Err(e))
        },
    }
}

/// The senders whose messages may become turns.
pub open spec fn routable(trust: TrustLevel) -> bool {
    trust != TrustLevel::Blocked && trust != TrustLevel::UnknownPending
}

/// What an unroutable sender is refused with.
pub open spec fn unroutable_text(trust: TrustLevel) -> Seq<char> {
    "dispatch_external_turn called with non-routable trust class "@ + trust.tag()
        + "; caller must drop / cold-contact those classes before reaching here"@
}

/// How an external message goes on.
#[derive(Debug)]
pub enum ExternalStep {
    /// The caller should not have come here.
    Refused(String),
    /// The policy engine drops the turn; nothing happens.
    Dropped,
    /// The controller is alerted; the turn does not run.
    NeedsApproval(DispatchEvent),
    /// The turn runs.
    Run(TurnPlan),
}

/// Whether a message of this trust may become a turn.
pub fn is_routable(trust: TrustLevel) -> (r: bool)
    ensures
        r == routable(trust),
{
    trust != TrustLevel::Blocked && trust != TrustLevel::UnknownPending
}

/// An external message that may become a turn.
#[derive(Debug)]
pub struct ExternalMessage {
    pub principal_id: String,
    pub trust: TrustLevel,
    pub text: String,
    pub channel_origin: Option<String>,
    pub attachment_ids: Vec<String>,
}

/// The plan of an external turn: everything that depends on trust comes from
/// the policy engine, on every path.
pub open spec fn external_plan(
    plan: TurnPlan,
    message: ExternalMessage,
    policy: TurnPolicy,
    path: TurnPath,
) -> bool {
    &&& plan.path == path
    &&& plan.user_text == message.text
    &&& plan.sender_principal_id == Some(message.principal_id)
    &&& plan.caller_caps == policy.capability_set
    &&& plan.caller_trust == message.trust
    &&& plan.spotlight == policy.spotlighting
    &&& plan.planner_executor == policy.planner_executor
    &&& plan.channel_origin == message.channel_origin
    &&& plan.timezone is None
    &&& plan.attachment_ids == message.attachment_ids
    &&& plan.applied_skill_names@.len() == 0
}

/// Decides how an external message goes on. `alert_id` names the alert that a
/// turn which needs approval raises. Without a runner, plugin tools alone decide
/// whether the turn has tools.
pub fn dispatch_external_turn(
    message: ExternalMessage,
    policy: TurnPolicy,
    alert_id: String,
    inference: bool,
    supervisor: bool,
    bound_group: Option<String>,
    plugin_tools: usize,
) -> (r: ExternalStep)
    ensures
        !routable(message.trust) ==> (r matches ExternalStep::Refused(m) && m@ == unroutable_text(
            message.trust,
        )),
        routable(message.trust) && policy.drop_turn ==> r is Dropped,
        routable(message.trust) && !policy.drop_turn && policy.require_approval ==> {
            &&& r matches ExternalStep::NeedsApproval(
                DispatchEvent::AlertFired { alert_id: a, severity, source, title },
            )
            &&& a == alert_id
            &&& severity@ == "Warning"@
            &&& source@ == "core.rule_of_two_breach"@
            &&& title@ == "Inbound Signal turn from "@ + message.principal_id@
                + " would breach rule-of-two"@
        },
        routable(message.trust) && !policy.drop_turn && !policy.require_approval ==> (r matches
            ExternalStep::Run(plan) && external_plan(
            plan,
            message,
            policy,
            path_of(
                inference,
                if supervisor {
                    bound_group
                } else {
                    None
                },
                plugin_tools > 0,
            ),
        )),
{
    if !is_routable(message.trust) {
        let mut text: String =
            "dispatch_external_turn called with non-routable trust class ".to_owned();
        text.append(message.trust.as_str());
        text.append("; caller must drop / cold-contact those classes before reaching here");
        return ExternalStep::Refused(text);
    }
    if policy.drop_turn {
        return ExternalStep::Dropped;
    }
    if policy.require_approval {
        let mut title: String = "Inbound Signal turn from ".to_owned();
        title.append(message.principal_id.as_str());
        title.append(" would breach rule-of-two");
        return ExternalStep::NeedsApproval(
            DispatchEvent::AlertFired {
                alert_id,
                severity: "Warning".to_owned(),
                source: "core.rule_of_two_breach".to_owned(),
                title,
            },
        );
    }
    let group: Option<String> = if supervisor {
        bound_group
    } else {
        None
    };
    let path: TurnPath = select_path(inference, group, plugin_tools > 0);
    ExternalStep::Run(
        TurnPlan {
            path,
            user_text: message.text,
            sender_principal_id: Some(message.principal_id),
            caller_caps: policy.capability_set,
            caller_trust: message.trust,
            spotlight: policy.spotlighting,
            planner_executor: policy.planner_executor,
            channel_origin: message.channel_origin,
            timezone: None,
            attachment_ids: message.attachment_ids,
            applied_skill_names: Vec::new(),
        },
    )
}

/// Ends an external turn: idle in any case, and the bridge after a success.
pub fn finish_external_turn(outcome: Result<TurnOutcome, String>) -> (r: (
    Vec<DispatchEvent>,
    Result<(), String>,
))
    ensures
        outcome is Ok ==> r.0@ == seq![
            DispatchEvent::PhaseChanged(Phase::Idle),
            DispatchEvent::Bridge,
        ] && r.1 == Ok::<(), String>(()),
        outcome matches Err(e) ==> r.0@ == seq![DispatchEvent::PhaseChanged(Phase::Idle)] && r.1
            == Err::<(), String>(e),
{
    let mut events: Vec<DispatchEvent> = Vec::new();
    events.push(DispatchEvent::PhaseChanged(Phase::Idle));
    match outcome {
        Ok(_) => {
            events.push(DispatchEvent::Bridge);
            assert(events@ =~= seq![
                DispatchEvent::PhaseChanged(Phase::Idle),
                DispatchEvent::Bridge,
            ]);
            (events, Ok(()))
        },
        Err(e) => {
            assert(events@ =~= seq![DispatchEvent::PhaseChanged(Phase::Idle)]);
            (events, Err(e))
        },
    }
}

/// What a cold contact leaves behind: one event in the log, a parked
/// conversation, and two notices for the controller.
#[derive(Debug)]
pub struct ColdContact {
    pub event: PendingEvent,
    pub phase: Phase,
    pub notices: Vec<DispatchEvent>,
}

/// The records of a cold contact. No turn runs.
pub open spec fn cold_contact(
    c: ColdContact,
    conversation_id: Seq<char>,
    principal_id: Seq<char>,
    text: Seq<char>,
    approval_id: Seq<char>,
    title: Seq<char>,
) -> bool {
    &&& c.event.kind is ColdContactArrived
    &&& opt_view(c.event.actor) == Some(principal_id)
    &&& c.event.payload matches Payload::ColdContact(p)
    &&& p.text@ == text
    &&& p.sender_principal_id@ == principal_id
    &&& p.approval_id@ == approval_id
    &&& c.phase == Phase::AwaitingTrustDecision
    &&& c.notices@.len() == 2
    &&& c.notices@[0] matches DispatchEvent::AlertFired { alert_id, severity, source, title: t }
    &&& alert_id@ == approval_id
    &&& severity@ == "Warning"@
    &&& source@ == "core.cold_contact"@
    &&& t@ == title
    &&& c.notices@[1] matches DispatchEvent::ApprovalCreated {
        approval_id: a,
        conversation_id: cid,
    }
    &&& a@ == approval_id
    &&& cid@ == conversation_id
}

/// Records a cold contact under an approval id. `lead` begins the alert's title.
pub fn record_cold_contact(
    conversation_id: &str,
    principal_id: &str,
    text: &str,
    approval_id: &str,
    lead: &str,
) -> (r: ColdContact)
    ensures
        cold_contact(
            r,
            conversation_id@,
            principal_id@,
            text@,
            approval_id@,
            lead@ + principal_id@,
        ),
{
    let mut title: String = lead.to_owned();
    title.append(principal_id);
    let mut notices: Vec<DispatchEvent> = Vec::new();
    notices.push(
        DispatchEvent::AlertFired {
            alert_id: approval_id.to_owned(),
            severity: "Warning".to_owned(),
            source: "core.cold_contact".to_owned(),
            title,
        },
    );
    notices.push(
        DispatchEvent::ApprovalCreated {
            approval_id: approval_id.to_owned(),
            conversation_id: conversation_id.to_owned(),
        },
    );
    ColdContact {
        event: PendingEvent {
            kind: EventKind::ColdContactArrived,
            payload: Payload::ColdContact(
                ColdContactPayload {
                    text: text.to_owned(),
                    sender_principal_id: principal_id.to_owned(),
                    approval_id: approval_id.to_owned(),
                },
            ),
            actor: Some(principal_id.to_owned()),
        },
        phase: Phase::AwaitingTrustDecision,
        notices,
    }
}

/// What the sender of a parked message is answered: the approval that the message
/// waits for, and the token by which it can be answered.
#[derive(Debug)]
pub struct ColdContactAnswer {
    pub contact: ColdContact,
    pub status: String,
    pub reason: String,
    pub approval_id: String,
    pub approval_token: Option<String>,
    pub principal_id: String,
    pub conversation_id: String,
}

impl ColdContactAnswer {
    /// The HTTP status of the answer: the message is accepted, and waits.
    pub fn http_status(&self) -> (r: u16)
        ensures
            r == 202,
    {
        202
    }
}

/// Parks a message of the chat composer whose sender is not known yet, under a fresh
/// approval id, and mints the token of that approval. There is no token where the
/// signer's private key cannot be read.
pub fn handle_cold_contact(
    signer: &JwtSigner,
    conversation_id: &str,
    principal_id: &str,
    text: &str,
) -> (r: ColdContactAnswer)
    ensures
        approval_shaped(r.approval_id@),
        cold_contact(
            r.contact,
            conversation_id@,
            principal_id@,
            text@,
            r.approval_id@,
            "New contact wants to talk — approve?: "@ + principal_id@,
        ),
        r.status@ == "awaiting_approval"@,
        r.reason@ == "cold_contact"@,
        exists|now: i64|
            0 <= now <= LAST_SECOND && opt_view(r.approval_token) == #[trigger] token_at(
                *signer,
                r.approval_id@,
                conversation_id@,
                "cold_contact"@,
                now,
            ),
        r.principal_id@ == principal_id@,
        r.conversation_id@ == conversation_id@,
{
    let approval_id: String = fresh_approval_id();
    let approval_token: Option<String> = issue_approval_token(
        signer,
        approval_id.as_str(),
        conversation_id,
        "cold_contact",
    );
    let contact: ColdContact = record_cold_contact(
        conversation_id,
        principal_id,
        text,
        approval_id.as_str(),
        "New contact wants to talk — approve?: ",
    );
    ColdContactAnswer {
        contact,
        status: "awaiting_approval".to_owned(),
        reason: "cold_contact".to_owned(),
        approval_id,
        approval_token,
        principal_id: principal_id.to_owned(),
        conversation_id: conversation_id.to_owned(),
    }
}

/// Parks a message of an external transport whose sender is not known yet, under a
/// fresh approval id.
pub fn handle_cold_contact_for_inbound(
    conversation_id: &str,
    principal_id: &str,
    text: &str,
) -> (r: ColdContact)
    ensures
        exists|approval_id: Seq<char>|
            approval_shaped(approval_id) && #[trigger] cold_contact(
                r,
                conversation_id@,
                principal_id@,
                text@,
                approval_id,
                "New Signal contact wants to talk — approve?: "@ + principal_id@,
            ),
{
    let approval_id: String = fresh_approval_id();
    record_cold_contact(
        conversation_id,
        principal_id,
        text,
        approval_id.as_str(),
        "New Signal contact wants to talk — approve?: ",
    )
}

/// Records a group message that nobody addressed to the agent: it is kept and
/// shown, and no turn runs. `base_seq` is the last number of the log, `now` the
/// second at which it is recorded.
pub fn commit_inbound_user_msg_silently(
    base_seq: i64,
    sender_principal_id: &str,
    text: &str,
    channel_origin: &str,
    attachment_ids: Vec<String>,
    now: i64,
) -> (r: (EventRecord, DispatchEvent))
    requires
        base_seq < i64::MAX,
    ensures
        r.0.seq == base_seq + 1,
        r.0.kind is UserMsg,
        r.0.committed_at == now,
        opt_view(r.0.actor) == Some(sender_principal_id@),
        r.0.payload matches Some(Payload::User(p)) && p.text@ == text@ && opt_view(
            p.sender_principal_id,
        ) == Some(sender_principal_id@) && opt_view(p.channel_origin) == Some(channel_origin@)
            && p.attachment_ids == attachment_ids && p.applied_skill_names@.len() == 0,
        r.1 matches DispatchEvent::Inbound { seq, text: t, sender } && seq == base_seq + 1 && t@
            == text@ && sender@ == sender_principal_id@,
{
    let seq: i64 = base_seq + 1;
    let record = EventRecord {
        seq,
        kind: EventKind::UserMsg,
        payload: Some(
            Payload::User(
                UserMessagePayload {
                    text: text.to_owned(),
                    sender_principal_id: Some(sender_principal_id.to_owned()),
                    channel_origin: Some(channel_origin.to_owned()),
                    attachment_ids,
                    applied_skill_names: Vec::new(),
                },
            ),
        ),
        actor: Some(sender_principal_id.to_owned()),
        committed_at: now,
    };
    (
        record,
        DispatchEvent::Inbound {
            seq,
            text: text.to_owned(),
            sender: sender_principal_id.to_owned(),
        },
    )
}

/// The last turn begins at the last user message: that message and all that came after it are
/// of the turn, and nothing before it is.
pub proof fn the_last_turn_begins_at_the_last_message(events: Seq<EventRecord>, i: int)
    requires
        0 <= i < events.len(),
        events[i].kind is UserMsg,
        forall|j: int| i < j < events.len() ==> !((#[trigger] events[j]).kind is UserMsg),
    ensures
        last_turn_start(events) == i,
        last_turn(events) == events.skip(i),
    decreases events.len(),
{
    if i < events.len() - 1 {
        assert(!(events[events.len() - 1].kind is UserMsg));
        let front = events.drop_last();
        assert forall|j: int| i < j < front.len() implies !((#[trigger] front[j]).kind is UserMsg) by {
            assert(front[j] == events[j]);
        }
        the_last_turn_begins_at_the_last_message(front, i);
    }
}

/// The text that is bridged is that of the last model turn of the turn that could be read.
pub proof fn the_last_answer_is_bridged(turn: Seq<EventRecord>, i: int)
    requires
        0 <= i < turn.len(),
        turn[i].kind is ModelTurn,
        turn[i].payload matches Some(Payload::Model(_)),
        forall|j: int| i < j < turn.len() ==> !((#[trigger] turn[j]).kind is ModelTurn),
    ensures
        turn[i].payload matches Some(Payload::Model(p)) && last_answer_text(turn) == p.text@,
    decreases turn.len(),
{
    if i < turn.len() - 1 {
        assert(!(turn[turn.len() - 1].kind is ModelTurn));
        let front = turn.drop_last();
        assert forall|j: int| i < j < front.len() implies !((#[trigger] front[j]).kind is ModelTurn) by {
            assert(front[j] == turn[j]);
        }
        assert(front[i] == turn[i]);
        the_last_answer_is_bridged(front, i);
    }
}

/// A reply that says something, on a channel that sends on its own and that the agent has not
/// used itself in this turn, is bridged; one that says nothing is not, and on WhatsApp only a
/// channel that was set to automatic sends on its own.
pub proof fn replies_are_bridged_unless_held_back(
    events: Seq<EventRecord>,
    channel: Seq<char>,
    mode: Option<Seq<char>>,
)
    ensures
        channel == "whatsapp"@ && mode != Some("automatic"@) ==> !bridges(events, channel, mode),
        (channel != "whatsapp"@ || mode == Some("automatic"@)) && !blank(
            last_answer_text(last_turn(events)),
        ) && (forall|i: int|
            0 <= i < last_turn(events).len() ==> !((#[trigger] last_turn(events)[i]).kind is ToolUse))
            ==> bridges(events, channel, mode),
        blank(last_answer_text(last_turn(events))) ==> !bridges(events, channel, mode),
        send_tool(channel, channel + ".send_message"@),
        send_tool(channel, channel + ".reply"@),
{
}

/// The server's own turns run with every right, unmarked and unsplit, on the server's own text.
pub proof fn server_turns_run_with_every_right(
    plan: TurnPlan,
    path: TurnPath,
    text: Seq<char>,
    sender: Seq<char>,
    timezone: Option<String>,
)
    requires
        controller_plan(plan, path, text, sender, timezone),
    ensures
        plan.path == path,
        plan.user_text@ == text,
        plan.sender_principal_id matches Some(s) && s@ == sender,
        plan.caller_caps@.len() == 1 && plan.caller_caps@[0]@ == "*"@,
        plan.caller_trust == TrustLevel::Controller,
        !plan.spotlight && !plan.planner_executor,
        plan.timezone == timezone,
{
    assert(texts(plan.caller_caps@).len() == 1);
    assert(texts(plan.caller_caps@)[0] == plan.caller_caps@[0]@);
}

/// An external turn has the rights that the policy gives its sender and no others, is marked
/// and split as the policy asks, and keeps its sender, its words and its channel.
pub proof fn external_turns_keep_to_the_policy(
    plan: TurnPlan,
    message: ExternalMessage,
    policy: TurnPolicy,
    path: TurnPath,
)
    requires
        external_plan(plan, message, policy, path),
    ensures
        plan.path == path,
        plan.user_text@ == message.text@,
        plan.sender_principal_id == Some(message.principal_id),
        plan.caller_trust == message.trust,
        plan.caller_caps@ == policy.capability_set@,
        plan.spotlight == policy.spotlighting,
        plan.planner_executor == policy.planner_executor,
        plan.channel_origin == message.channel_origin,
        plan.attachment_ids@ == message.attachment_ids@,
{
}

/// Blocked and unknown senders' messages become no turns; everybody else's may.
pub proof fn strangers_are_not_routed(trust: TrustLevel)
    ensures
        !routable(TrustLevel::Blocked),
        !routable(TrustLevel::UnknownPending),
        trust != TrustLevel::Blocked && trust != TrustLevel::UnknownPending ==> routable(trust),
{
}

/// A cold contact is recorded under its approval, with its sender and its words; it parks the
/// conversation and warns the controller.
pub proof fn a_cold_contact_waits_for_the_controller(
    c: ColdContact,
    conversation_id: Seq<char>,
    principal_id: Seq<char>,
    text: Seq<char>,
    approval_id: Seq<char>,
    title: Seq<char>,
)
    requires
        cold_contact(c, conversation_id, principal_id, text, approval_id, title),
    ensures
        c.event.kind is ColdContactArrived,
        c.event.payload matches Payload::ColdContact(p) && p.text@ == text
            && p.sender_principal_id@ == principal_id && p.approval_id@ == approval_id,
        c.phase == Phase::AwaitingTrustDecision,
        c.notices@.len() == 2,
        c.notices@[0] matches DispatchEvent::AlertFired { alert_id, title: t, .. } && alert_id@
            == approval_id && t@ == title,
        c.notices@[1] matches DispatchEvent::ApprovalCreated { approval_id: a, conversation_id: cid }
            && a@ == approval_id && cid@ == conversation_id,
{
}

/// Only a send on the reply's own channel holds the bridge back: other tools that
/// were called in the turn do not.
pub proof fn other_tools_do_not_hold_a_reply_back(
    events: Seq<EventRecord>,
    channel: Seq<char>,
    mode: Option<Seq<char>>,
)
    requires
        channel != "whatsapp"@ || mode == Some("automatic"@),
        !blank(last_answer_text(last_turn(events))),
        forall|i: int|
            0 <= i < last_turn(events).len() ==> ((#[trigger] last_turn(
                events,
            )[i]).payload matches Some(Payload::ToolUse(p)) ==> p.tool_name@ != channel
                + ".send_message"@ && p.tool_name@ != channel + ".reply"@),
    ensures
        bridges(events, channel, mode),
{
}

/// A reply that the agent sent on the channel itself is not bridged.
pub proof fn a_sent_reply_is_not_bridged(
    events: Seq<EventRecord>,
    channel: Seq<char>,
    mode: Option<Seq<char>>,
    i: int,
)
    requires
        0 <= i < last_turn(events).len(),
        last_turn(events)[i].kind is ToolUse,
        last_turn(events)[i].payload matches Some(Payload::ToolUse(p)) && (p.tool_name@ == channel
            + ".send_message"@ || p.tool_name@ == channel + ".reply"@),
    ensures
        !bridges(events, channel, mode),
{
}

/// One tool of either kind is enough to call.
pub proof fn one_tool_is_a_surface(plugin_tools: usize, builtin_tools: usize)
    ensures
        has_tool_surface(plugin_tools, builtin_tools) <==> plugin_tools + builtin_tools > 0,
{
}

/// A clarification names its job and quotes the question as it was asked.
pub proof fn a_clarification_quotes_its_question(job_id: Seq<char>, question: Seq<char>)
    ensures
        has_text(clarification_text(job_id, question), question),
        has_text(clarification_text(job_id, question), job_id),
        ("[SYSTEM ORCHESTRATOR NOTICE] A deep-research job (id: "@ + job_id).is_prefix_of(
            clarification_text(job_id, question),
        ),
{
    let start = "[SYSTEM ORCHESTRATOR NOTICE] A deep-research job (id: "@;
    let middle = ") you started needs the user's clarification before it can proceed.\n\nThe planner asked:\n  "@;
    let whole = clarification_text(job_id, question);
    let head = start + job_id;
    assert(whole.take(head.len() as int) =~= head);
    let k = start.len() as int;
    assert(whole.subrange(k, k + job_id.len()) =~= job_id);
    assert(occurs_at(whole, job_id, k));
    let q = (head.len() + middle.len()) as int;
    assert(whole.subrange(q, q + question.len()) =~= question);
    assert(occurs_at(whole, question, q));
}

} // verus!
