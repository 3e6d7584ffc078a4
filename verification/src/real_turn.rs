//! Turns that the server runs itself: the stub without a backend, the streaming
//! turn without tools, and the turn with the in-process executor.

use vstd::prelude::*;
use crate::chat_types::{
    lit, message_models, picturing, plain, wrap, ChatMessage, EventKind, EventRecord, MessageModel,
    ModelTurnPayload, Payload, PendingEvent, Role, Spotlight, TrustLevel, UserMessagePayload,
};
use crate::runner_turn::{ResolvedInference, MAX_ANSWER_TOKENS};
use crate::send::TurnPlan;
use crate::text::{decimal, decimal_text, opt_view, texts};
use crate::tool_catalog::ToolDeclaration;

verus! {

/// The seqs a turn was recorded under, and what the assistant said.
#[derive(Debug)]
pub struct TurnOutcome {
    pub user_msg_seq: i64,
    pub assistant_text: String,
    pub assistant_seq: i64,
}

/// The reply of a server without an inference backend.
pub open spec fn stub_text(user_text: Seq<char>) -> Seq<char> {
    "(execlaw dev stub) received "@ + decimal(user_text.len())
        + " chars — configure EXECLAW_INFERENCE_URL for live replies"@
}

/// The reply of a server without an inference backend.
pub fn stub_reply(user_text: &str) -> (r: String)
    ensures
        r@ == stub_text(user_text@),
{
    let mut out: String = "(execlaw dev stub) received ".to_owned();
    let n: String = decimal_text(user_text.unicode_len() as u64);
    out.append(n.as_str());
    out.append(" chars — configure EXECLAW_INFERENCE_URL for live replies");
    out
}

/// The event that records a user message.
pub fn user_event(payload: UserMessagePayload, actor: Option<String>) -> (r: PendingEvent)
    ensures
        r == (PendingEvent { kind: EventKind::UserMsg, payload: Payload::User(payload), actor }),
{
    PendingEvent { kind: EventKind::UserMsg, payload: Payload::User(payload), actor }
}

fn copied(s: Option<&str>) -> (r: Option<String>)
    ensures
        opt_view(r) == match s {
            Some(t) => Some(t@),
            None => None,
        },
{
    match s {
        Some(t) => Some(t.to_owned()),
        None => None,
    }
}

/// The two events of a stub turn, to be committed together: the user message
/// without an actor, and the reply of the stub.
pub fn stub_turn_events(message: UserMessagePayload) -> (r: (PendingEvent, PendingEvent))
    ensures
        r.0 == (PendingEvent {
            kind: EventKind::UserMsg,
            payload: Payload::User(message),
            actor: None,
        }),
        r.1.kind is ModelTurn,
        opt_view(r.1.actor) == Some("agent-stub"@),
        r.1.payload matches Payload::Model(p) && p.model@ == "stub"@ && p.text@ == stub_text(
            message.text@,
        ) && opt_view(p.finish_reason) == Some("stub"@) && p.channel_origin
            == message.channel_origin,
{
    let reply = ModelTurnPayload {
        model: "stub".to_owned(),
        text: stub_reply(message.text.as_str()),
        finish_reason: Some("stub".to_owned()),
        channel_origin: message.channel_origin.clone(),
    };
    (
        user_event(message, None),
        PendingEvent {
            kind: EventKind::ModelTurn,
            payload: Payload::Model(reply),
            actor: Some("agent-stub".to_owned()),
        },
    )
}

/// The sequence number of the first event of a kind.
pub open spec fn first_of(written: Seq<EventRecord>, answer: bool) -> Option<i64>
    decreases written.len(),
{
    if written.len() == 0 {
        None
    } else if (if answer {
        written[0].kind is ModelTurn
    } else {
        written[0].kind is UserMsg
    }) {
        Some(written[0].seq)
    } else {
        first_of(written.skip(1), answer)
    }
}

fn find_first(written: &Vec<EventRecord>, answer: bool) -> (r: Option<i64>)
    ensures
        r == first_of(written@, answer),
{
    let mut i: usize = 0;
    assert(written@.skip(0) =~= written@);
    while i < written.len()
        invariant
            i <= written.len(),
            first_of(written@, answer) == first_of(written@.skip(i as int), answer),
        decreases written.len() - i,
    {
        let found: bool = match &written[i].kind {
            EventKind::ModelTurn => answer,
            EventKind::UserMsg => !answer,
            _ => false,
        };
        if found {
            return Some(written[i].seq);
        }
        assert(written@.skip(i as int).skip(1) =~= written@.skip(i + 1));
        i += 1;
    }
    None
}

/// What a committed stub turn returns. Both rows must be there.
pub fn run_stub_turn(written: &Vec<EventRecord>, reply_text: String) -> (r: Result<
    TurnOutcome,
    String,
>)
    ensures
        match (first_of(written@, false), first_of(written@, true)) {
            (Some(u), Some(a)) => r == Ok::<TurnOutcome, String>(
                TurnOutcome { user_msg_seq: u, assistant_text: reply_text, assistant_seq: a },
            ),
            (None, _) => r matches Err(m) && m@ == "commit_turn returned no user_msg row"@,
            (_, None) => r matches Err(m) && m@ == "commit_turn returned no model_turn row"@,
        },
{
    let user_msg_seq: i64 = match find_first(written, false) {
        Some(s) => s,
        None => {
            return Err("commit_turn returned no user_msg row".to_owned());
        },
    };
    let assistant_seq: i64 = match find_first(written, true) {
        Some(s) => s,
        None => {
            return Err("commit_turn returned no model_turn row".to_owned());
        },
    };
    Ok(TurnOutcome { user_msg_seq, assistant_text: reply_text, assistant_seq })
}

/// A message of the conversation so far.
#[derive(Debug)]
pub struct HistoryMessage {
    pub from_user: bool,
    pub text: String,
}

/// The message an event becomes in a turn without tools.
pub open spec fn spoken(ev: EventRecord) -> Option<(bool, Seq<char>)> {
    match (ev.kind, ev.payload) {
        (EventKind::UserMsg, Some(Payload::User(p))) => Some((true, p.text@)),
        (EventKind::ModelTurn, Some(Payload::Model(p))) => Some((false, p.text@)),
        _ => None,
    }
}

/// The messages that events become in a turn without tools.
pub open spec fn spoken_all(history: Seq<EventRecord>) -> Seq<(bool, Seq<char>)>
    decreases history.len(),
{
    if history.len() == 0 {
        Seq::empty()
    } else {
        let rest = spoken_all(history.drop_last());
        match spoken(history.last()) {
            Some(m) => rest.push(m),
            None => rest,
        }
    }
}

/// The models of history messages.
pub open spec fn spoken_models(v: Seq<HistoryMessage>) -> Seq<(bool, Seq<char>)> {
    v.map_values(|m: HistoryMessage| (m.from_user, m.text@))
}

/// What users and the model said, in order; events that could not be read are
/// left out.
pub fn spoken_history(history: &[EventRecord]) -> (r: Vec<HistoryMessage>)
    ensures
        spoken_models(r@) == spoken_all(history@),
{
    let mut out: Vec<HistoryMessage> = Vec::new();
    let mut i: usize = 0;
    assert(spoken_models(out@) =~= spoken_all(history@.take(0)));
    while i < history.len()
        invariant
            i <= history.len(),
            spoken_models(out@) == spoken_all(history@.take(i as int)),
        decreases history.len() - i,
    {
        let ghost before = spoken_models(out@);
        let ev: &EventRecord = &history[i];
        assert(history@.take(i + 1).drop_last() =~= history@.take(i as int));
        let said: Option<HistoryMessage> = match (&ev.kind, &ev.payload) {
            (EventKind::UserMsg, Some(Payload::User(p))) => Some(
                HistoryMessage { from_user: true, text: p.text.clone() },
            ),
            (EventKind::ModelTurn, Some(Payload::Model(p))) => Some(
                HistoryMessage { from_user: false, text: p.text.clone() },
            ),
            _ => None,
        };
        if let Some(m) = said {
            out.push(m);
            assert(spoken_models(out@) =~= before.push((m.from_user, m.text@)));
        }
        i += 1;
    }
    assert(history@.take(i as int) =~= history@);
    out
}

/// How a history message is shown: only users' text is marked as untrusted.
pub open spec fn shown(m: (bool, Seq<char>), spotlight: Option<&Spotlight>) -> MessageModel {
    if m.0 {
        plain(Role::User, lit(spotlight, m.1))
    } else {
        plain(Role::Assistant, m.1)
    }
}

/// The prompt of a turn without tools, before its images.
pub open spec fn text_prompt(
    system: Seq<char>,
    kept: Seq<(bool, Seq<char>)>,
    spotlight: Option<&Spotlight>,
) -> Seq<MessageModel> {
    seq![plain(Role::System, system)] + kept.map_values(
        |m: (bool, Seq<char>)| shown(m, spotlight),
    )
}

/// The prompt of a turn without tools. Images of the turn go onto its user
/// message; where that was dropped from the history it is added again.
pub open spec fn prompt_with_images(
    prompt: Seq<MessageModel>,
    user_text: Seq<char>,
    images: Seq<Seq<char>>,
    spotlight: Option<&Spotlight>,
) -> Seq<MessageModel> {
    if images.len() == 0 {
        prompt
    } else if prompt.len() > 0 && prompt.last().role == Role::User {
        prompt.drop_last().push(picturing(prompt.last().content, images))
    } else {
        prompt.push(picturing(lit(spotlight, user_text), images))
    }
}

/// Builds the prompt of a turn without tools from the history that the budget
/// keeps.
pub fn real_turn_messages(
    system: String,
    kept: &Vec<HistoryMessage>,
    user_text: &str,
    image_urls: Vec<String>,
    spotlight: Option<&Spotlight>,
) -> (r: Vec<ChatMessage>)
    ensures
        message_models(r@) == prompt_with_images(
            text_prompt(system@, spoken_models(kept@), spotlight),
            user_text@,
            texts(image_urls@),
            spotlight,
        ),
{
    let mut out: Vec<ChatMessage> = Vec::new();
    let ghost all = spoken_models(kept@);
    out.push(ChatMessage::text(Role::System, system));
    let mut i: usize = 0;
    assert(message_models(out@) =~= text_prompt(system@, all.take(0), spotlight));
    while i < kept.len()
        invariant
            i <= kept.len(),
            all == spoken_models(kept@),
            out@.len() == i + 1,
            message_models(out@) == text_prompt(system@, all.take(i as int), spotlight),
        decreases kept.len() - i,
    {
        let ghost before = message_models(out@);
        let m: &HistoryMessage = &kept[i];
        let message: ChatMessage = if m.from_user {
            ChatMessage::text(Role::User, wrap(spotlight, m.text.as_str()))
        } else {
            ChatMessage::text(Role::Assistant, m.text.clone())
        };
        out.push(message);
        i += 1;
        assert(message_models(out@) =~= before.push(message@));
        assert(all[i - 1] == (m.from_user, m.text@));
        assert(before.push(message@) =~= text_prompt(system@, all.take(i as int), spotlight));
    }
    assert(all.take(i as int) =~= all);
    if image_urls.len() == 0 {
        return out;
    }
    let ghost prompt = message_models(out@);
    let last: usize = out.len() - 1;
    assert(prompt.last() == out@[last as int]@);
    let shown_text: String = if out[last].role == Role::User {
        let text: String = out[last].content.clone();
        out.pop();
        assert(message_models(out@) =~= prompt.drop_last());
        text
    } else {
        wrap(spotlight, user_text)
    };
    let ghost before = message_models(out@);
    let message: ChatMessage = ChatMessage::user_with_images(shown_text, image_urls);
    out.push(message);
    assert(message_models(out@) =~= before.push(message@));
    out
}

/// One choice of a stream chunk: the text left to show once reasoning is taken
/// out, and the reason the stream ends for, where it does.
#[derive(Debug)]
pub struct ChoiceDelta {
    pub visible: String,
    pub finish_reason: Option<String>,
}

/// An answer that is being streamed.
#[derive(Debug)]
pub struct StreamAssembly {
    pub assembled: String,
    pub finish_reason: Option<String>,
    pub model_id: String,
    pub was_cancelled: bool,
}

/// The visible texts of choices, one behind the other.
pub open spec fn visible_text(choices: Seq<ChoiceDelta>) -> Seq<char>
    decreases choices.len(),
{
    if choices.len() == 0 {
        Seq::empty()
    } else {
        visible_text(choices.drop_last()) + choices.last().visible@
    }
}

/// The visible texts of choices that are not empty, each by itself.
pub open spec fn deltas(choices: Seq<ChoiceDelta>) -> Seq<Seq<char>>
    decreases choices.len(),
{
    if choices.len() == 0 {
        Seq::empty()
    } else if choices.last().visible@.len() > 0 {
        deltas(choices.drop_last()).push(choices.last().visible@)
    } else {
        deltas(choices.drop_last())
    }
}

/// The last finish reason among choices, or `before`.
pub open spec fn last_reason(choices: Seq<ChoiceDelta>, before: Option<String>) -> Option<String>
    decreases choices.len(),
{
    if choices.len() == 0 {
        before
    } else if choices.last().finish_reason is Some {
        choices.last().finish_reason
    } else {
        last_reason(choices.drop_last(), before)
    }
}

/// What is committed of a streamed answer, and what is still to be shown.
#[derive(Debug)]
pub struct StreamEnd {
    pub payload: ModelTurnPayload,
    pub last_delta: Option<String>,
}

/// The text a streamed answer is recorded as.
pub open spec fn answer_text(assembled: Seq<char>, cancelled: bool) -> Seq<char> {
    if assembled.len() == 0 {
        if cancelled {
            "(stopped before any output)"@
        } else {
            "(empty response)"@
        }
    } else if cancelled {
        assembled + " … (stopped)"@
    } else {
        assembled
    }
}

impl StreamAssembly {
    /// An answer of which nothing has come yet.
    pub fn new(model_id: String) -> (r: StreamAssembly)
        ensures
            r.assembled@.len() == 0,
            r.finish_reason is None,
            r.model_id == model_id,
            !r.was_cancelled,
    {
        StreamAssembly {
            assembled: String::new(),
            finish_reason: None,
            model_id,
            was_cancelled: false,
        }
    }

    /// A chunk of the stream. Returns the texts to show, in order.
    pub fn on_chunk(&mut self, model: String, choices: &Vec<ChoiceDelta>) -> (r: Vec<String>)
        ensures
            texts(r@) == deltas(choices@),
            final(self).assembled@ == old(self).assembled@ + visible_text(choices@),
            final(self).finish_reason == last_reason(choices@, old(self).finish_reason),
            final(self).model_id == model,
            final(self).was_cancelled == old(self).was_cancelled,
    {
        self.model_id = model;
        let mut out: Vec<String> = Vec::new();
        let mut i: usize = 0;
        assert(texts(out@) =~= deltas(choices@.take(0)));
        assert(self.assembled@ + visible_text(choices@.take(0)) =~= self.assembled@);
        while i < choices.len()
            invariant
                i <= choices.len(),
                texts(out@) == deltas(choices@.take(i as int)),
                self.assembled@ == old(self).assembled@ + visible_text(choices@.take(i as int)),
                self.finish_reason == last_reason(
                    choices@.take(i as int),
                    old(self).finish_reason,
                ),
                self.model_id == model,
                self.was_cancelled == old(self).was_cancelled,
            decreases choices.len() - i,
        {
            let ghost before = texts(out@);
            let ghost so_far = self.assembled@;
            let c: &ChoiceDelta = &choices[i];
            assert(choices@.take(i + 1).drop_last() =~= choices@.take(i as int));
            if !c.visible.as_str().is_empty() {
                self.assembled.append(c.visible.as_str());
                out.push(c.visible.clone());
                assert(texts(out@) =~= before.push(c.visible@));
            } else {
                assert(so_far + c.visible@ =~= so_far);
            }
            assert(self.assembled@ =~= old(self).assembled@ + (visible_text(
                choices@.take(i as int),
            ) + c.visible@));
            if let Some(reason) = &c.finish_reason {
                self.finish_reason = Some(reason.clone());
            }
            i += 1;
        }
        assert(choices@.take(i as int) =~= choices@);
        out
    }

    /// The operator stopped the turn.
    pub fn cancel(&mut self)
        ensures
            *final(self) == (StreamAssembly { was_cancelled: true, ..*old(self) }),
    {
        self.was_cancelled = true;
    }

    /// The stream is over; `tail` is what the reasoning filter still held back.
    /// The answer is never empty, and a stopped one says so.
    pub fn finish(self, tail: String, channel_origin: Option<&str>) -> (r: StreamEnd)
        ensures
            r.payload.model == self.model_id,
            r.payload.text@ == answer_text(self.assembled@ + tail@, self.was_cancelled),
            r.payload.text@.len() > 0,
            self.was_cancelled ==> opt_view(r.payload.finish_reason) == Some("cancelled"@),
            !self.was_cancelled ==> r.payload.finish_reason == self.finish_reason,
            opt_view(r.payload.channel_origin) == match channel_origin {
                Some(o) => Some(o@),
                None => None,
            },
            r.last_delta == if tail@.len() > 0 {
                Some(tail)
            } else {
                None
            },
    {
        let mut text: String = self.assembled;
        text.append(tail.as_str());
        let finish_reason: Option<String> = if self.was_cancelled {
            Some("cancelled".to_owned())
        } else {
            self.finish_reason
        };
        if text.as_str().is_empty() {
            proof {
                reveal_strlit("(stopped before any output)");
                reveal_strlit("(empty response)");
            }
            text = if self.was_cancelled {
                "(stopped before any output)".to_owned()
            } else {
                "(empty response)".to_owned()
            };
        } else if self.was_cancelled {
            text.append(" … (stopped)");
        }
        let last_delta: Option<String> = if tail.as_str().is_empty() {
            None
        } else {
            Some(tail)
        };
        StreamEnd {
            payload: ModelTurnPayload {
                model: self.model_id,
                text,
                finish_reason,
                channel_origin: copied(channel_origin),
            },
            last_delta,
        }
    }
}

/// The event that records a streamed answer.
pub fn answer_event(payload: ModelTurnPayload) -> (r: PendingEvent)
    ensures
        r.kind is ModelTurn,
        r.payload == Payload::Model(payload),
        opt_view(r.actor) == Some("agent"@),
{
    PendingEvent {
        kind: EventKind::ModelTurn,
        payload: Payload::Model(payload),
        actor: Some("agent".to_owned()),
    }
}

/// The sequence number of the last model turn among written events, or
/// `latest`.
pub open spec fn last_answer(written: Seq<EventRecord>, latest: i64) -> i64
    decreases written.len(),
{
    if written.len() == 0 {
        latest
    } else if written.last().kind is ModelTurn {
        written.last().seq
    } else {
        last_answer(written.drop_last(), latest)
    }
}

fn find_last_answer(written: &Vec<EventRecord>, latest: i64) -> (r: i64)
    ensures
        r == last_answer(written@, latest),
{
    let mut i: usize = written.len();
    assert(written@.take(i as int) =~= written@);
    while i > 0
        invariant
            i <= written.len(),
            last_answer(written@, latest) == last_answer(written@.take(i as int), latest),
        decreases i,
    {
        if let EventKind::ModelTurn = &written[i - 1].kind {
            return written[i - 1].seq;
        }
        assert(written@.take(i as int).drop_last() =~= written@.take(i - 1));
        i -= 1;
    }
    latest
}

/// What a model's answer is for. A model family may shape its requests by it.
#[derive(Clone, Copy, Debug, PartialEq, Eq, Structural)]
pub enum OutputHint {
    Conversation,
    Plain,
}

/// A request to a model that has no tools.
#[derive(Debug)]
pub struct ChatRequest {
    pub model: String,
    pub messages: Vec<ChatMessage>,
    pub stream: bool,
    pub max_tokens: Option<u32>,
    /// Whether the model may reason first; unsaid, the model's own default holds.
    pub enable_thinking: Option<bool>,
    pub hint: OutputHint,
}

/// The request for a streamed answer, of an ordinary turn and of a transient one.
/// Whether the model reasons comes from the row that names the model, and is said
/// either way.
pub fn answer_request(resolved: &ResolvedInference, messages: Vec<ChatMessage>) -> (r: ChatRequest)
    ensures
        r.model == resolved.model_id,
        r.messages == messages,
        r.stream,
        r.max_tokens == Some(MAX_ANSWER_TOKENS),
        r.enable_thinking == Some(resolved.reasoning_enabled),
        r.hint == OutputHint::Conversation,
{
    ChatRequest {
        model: resolved.model_id.clone(),
        messages,
        stream: true,
        max_tokens: Some(MAX_ANSWER_TOKENS),
        enable_thinking: Some(resolved.reasoning_enabled),
        hint: OutputHint::Conversation,
    }
}

/// How the in-process executor runs a turn.
#[derive(Debug)]
pub struct TurnConfig {
    pub model: String,
    pub system_prompt: String,
    pub max_tokens: Option<u32>,
    pub max_tool_rounds: u32,
    pub tools: Vec<ToolDeclaration>,
    pub reasoning_enabled: bool,
    pub inbound_channel_origin: Option<String>,
    pub spotlight_delim: Option<String>,
    /// How much of the history the model sees; all of it where nothing is said.
    pub context_window_policy: String,
    /// The backend that sums up what no longer fits.
    pub summarizer: Option<ResolvedInference>,
}

/// A turn that is handed to the in-process executor.
#[derive(Debug)]
pub struct ExecutorTurn {
    pub config: TurnConfig,
    pub user_text: String,
    pub sender_principal_id: Option<String>,
    pub attachment_ids: Vec<String>,
    pub user_image_urls: Vec<String>,
    pub applied_skill_names: Vec<String>,
    /// What the sender may have tools do.
    pub caller_caps: Vec<String>,
    pub caller_trust: TrustLevel,
}

/// What surrounds a turn of the executor.
#[derive(Debug)]
pub struct ExecutorSetting {
    pub system_prompt: String,
    /// The tools that the turn is offered.
    pub tools: Vec<ToolDeclaration>,
    pub user_image_urls: Vec<String>,
    pub max_tool_rounds: u32,
    /// The conversation's own policy, where it has one.
    pub context_window_policy: Option<String>,
    /// The backend of small tasks.
    pub small: Option<ResolvedInference>,
    /// The backend of chats.
    pub standard: Option<ResolvedInference>,
}

/// Builds a turn for the in-process executor. The user's messages are marked only
/// where the policy asks for it, with the fresh delimiter; the backend of small tasks
/// sums up, or that of chats where there is none.
pub fn build_executor_turn(
    plan: TurnPlan,
    resolved: &ResolvedInference,
    setting: ExecutorSetting,
    fresh: Spotlight,
) -> (r: ExecutorTurn)
    ensures
        r.config.model == resolved.model_id,
        r.config.system_prompt == setting.system_prompt,
        r.config.max_tokens == Some(MAX_ANSWER_TOKENS),
        r.config.max_tool_rounds == setting.max_tool_rounds,
        r.config.tools == setting.tools,
        r.config.reasoning_enabled == resolved.reasoning_enabled,
        r.config.inbound_channel_origin == plan.channel_origin,
        r.config.spotlight_delim == if plan.spotlight {
            Some(fresh.open)
        } else {
            None
        },
        r.config.context_window_policy@ == match setting.context_window_policy {
            Some(p) => p@,
            None => Seq::<char>::empty(),
        },
        r.config.summarizer == if setting.small is Some {
            setting.small
        } else {
            setting.standard
        },
        r.user_text == plan.user_text,
        r.sender_principal_id == plan.sender_principal_id,
        r.attachment_ids == plan.attachment_ids,
        r.user_image_urls == setting.user_image_urls,
        r.applied_skill_names == plan.applied_skill_names,
        r.caller_caps == plan.caller_caps,
        r.caller_trust == plan.caller_trust,
{
    let spotlight_delim: Option<String> = if plan.spotlight {
        Some(fresh.open)
    } else {
        None
    };
    let context_window_policy: String = match setting.context_window_policy {
        Some(p) => p,
        None => String::new(),
    };
    let summarizer: Option<ResolvedInference> = if setting.small.is_some() {
        setting.small
    } else {
        setting.standard
    };
    ExecutorTurn {
        config: TurnConfig {
            model: resolved.model_id.clone(),
            system_prompt: setting.system_prompt,
            max_tokens: Some(MAX_ANSWER_TOKENS),
            max_tool_rounds: setting.max_tool_rounds,
            tools: setting.tools,
            reasoning_enabled: resolved.reasoning_enabled,
            inbound_channel_origin: plan.channel_origin,
            spotlight_delim,
            context_window_policy,
            summarizer,
        },
        user_text: plan.user_text,
        sender_principal_id: plan.sender_principal_id,
        attachment_ids: plan.attachment_ids,
        user_image_urls: setting.user_image_urls,
        applied_skill_names: plan.applied_skill_names,
        caller_caps: plan.caller_caps,
        caller_trust: plan.caller_trust,
    }
}

/// What a turn of the in-process executor returns. The executor appends the
/// user message before it commits the events it reports, so that the message
/// stands in front of them; `latest` is the last number of the log.
pub fn run_tool_capable_turn(
    written: &Vec<EventRecord>,
    latest: i64,
    assistant_text: String,
) -> (r: TurnOutcome)
    requires
        latest - written@.len() >= i64::MIN,
    ensures
        r.user_msg_seq == latest - written@.len(),
        r.assistant_seq == last_answer(written@, latest),
        r.assistant_text == assistant_text,
{
    let before: i128 = latest as i128 - written.len() as i128;
    let assistant_seq: i64 = find_last_answer(written, latest);
    TurnOutcome { user_msg_seq: before as i64, assistant_text, assistant_seq }
}

/// What a turn without tools is shown of the log is what users and the model said, each with
/// its speaker and its words; tools are not shown.
pub proof fn only_speech_is_shown_without_tools(ev: EventRecord)
    ensures
        ev.kind is UserMsg ==> (ev.payload matches Some(Payload::User(p)) ==> spoken(ev) == Some(
            (true, p.text@),
        )),
        ev.kind is ModelTurn ==> (ev.payload matches Some(Payload::Model(p)) ==> spoken(ev) == Some(
            (false, p.text@),
        )),
        !(ev.kind is UserMsg || ev.kind is ModelTurn) ==> spoken(ev) is None,
        ev.payload is None ==> spoken(ev) is None,
{
}

/// Nothing that was said is lost or moved: one more event adds what it says behind all that
/// was said before, or nothing.
pub proof fn speech_keeps_its_order(history: Seq<EventRecord>, ev: EventRecord)
    ensures
        spoken_all(Seq::empty()).len() == 0,
        spoken(ev) matches Some(m) ==> spoken_all(history.push(ev)) == spoken_all(history).push(m),
        spoken(ev) is None ==> spoken_all(history.push(ev)) == spoken_all(history),
{
    assert(history.push(ev).drop_last() =~= history);
}

/// The prompt of a turn without tools: the system prompt, then every kept message in its
/// place, the users' between the marks and the model's bare.
pub proof fn the_prompt_keeps_every_message(
    system: Seq<char>,
    kept: Seq<(bool, Seq<char>)>,
    spotlight: Option<&Spotlight>,
    i: int,
)
    requires
        0 <= i < kept.len(),
    ensures
        text_prompt(system, kept, spotlight).len() == kept.len() + 1,
        text_prompt(system, kept, spotlight)[0].role == Role::System,
        text_prompt(system, kept, spotlight)[0].content == system,
        kept[i].0 ==> text_prompt(system, kept, spotlight)[i + 1].role == Role::User && text_prompt(
            system,
            kept,
            spotlight,
        )[i + 1].content == (match spotlight {
            Some(s) => s.before@ + kept[i].1 + s.after@,
            None => kept[i].1,
        }),
        !kept[i].0 ==> text_prompt(system, kept, spotlight)[i + 1].role == Role::Assistant
            && text_prompt(system, kept, spotlight)[i + 1].content == kept[i].1,
{
}

/// The images of a turn go onto its user's message, whose words stay; every other message
/// stays as it was; without images nothing changes.
pub proof fn images_join_the_users_message(
    prompt: Seq<MessageModel>,
    user_text: Seq<char>,
    images: Seq<Seq<char>>,
    spotlight: Option<&Spotlight>,
    i: int,
)
    requires
        0 <= i < prompt.len(),
    ensures
        ({
            let after = prompt_with_images(prompt, user_text, images, spotlight);
            &&& images.len() == 0 ==> after == prompt
            &&& images.len() > 0 ==> after.last().role == Role::User && after.last().image_urls
                == images
            &&& i < prompt.len() - 1 ==> after[i] == prompt[i]
            &&& images.len() > 0 && prompt.last().role == Role::User ==> after.len() == prompt.len()
                && after.last().content == prompt.last().content
            &&& images.len() > 0 && prompt.last().role != Role::User ==> after.len()
                == prompt.len() + 1 && after[prompt.len() - 1] == prompt.last()
                && after.last().content == (match spotlight {
                Some(s) => s.before@ + user_text + s.after@,
                None => user_text,
            })
        }),
{
}

/// A streamed answer is every visible piece, in order, and each piece that shows something is
/// shown once.
pub proof fn a_streamed_answer_is_its_pieces(choices: Seq<ChoiceDelta>, c: ChoiceDelta)
    ensures
        visible_text(Seq::empty()).len() == 0,
        visible_text(choices.push(c)) == visible_text(choices) + c.visible@,
        c.visible@.len() > 0 ==> deltas(choices.push(c)) == deltas(choices).push(c.visible@),
        c.visible@.len() == 0 ==> deltas(choices.push(c)) == deltas(choices),
{
    assert(choices.push(c).drop_last() =~= choices);
}

/// The last reason that a stream gives for its end is the one that counts.
pub proof fn the_last_reason_counts(
    choices: Seq<ChoiceDelta>,
    c: ChoiceDelta,
    before: Option<String>,
)
    ensures
        last_reason(Seq::empty(), before) == before,
        c.finish_reason is Some ==> last_reason(choices.push(c), before) == c.finish_reason,
        c.finish_reason is None ==> last_reason(choices.push(c), before) == last_reason(
            choices,
            before,
        ),
{
    assert(choices.push(c).drop_last() =~= choices);
}

/// What came of an answer is kept as it came, with a note where it was stopped; an answer of
/// which nothing came is said to be empty or stopped.
pub proof fn an_answer_is_recorded_as_it_came(assembled: Seq<char>)
    ensures
        assembled.len() > 0 ==> answer_text(assembled, false) == assembled,
        assembled.len() > 0 ==> assembled.is_prefix_of(answer_text(assembled, true)) && answer_text(
            assembled,
            true,
        ) == assembled + " … (stopped)"@,
        answer_text(Seq::empty(), false) == "(empty response)"@,
        answer_text(Seq::empty(), true) == "(stopped before any output)"@,
{
    let stopped = assembled + " … (stopped)"@;
    assert(stopped.subrange(0, assembled.len() as int) =~= assembled);
}

/// The number of an answer is that of the last model turn that was written; the last number of
/// the log where none was.
pub proof fn the_last_model_turn_is_the_answer(written: Seq<EventRecord>, latest: i64, i: int)
    requires
        -1 <= i < written.len(),
        i >= 0 ==> written[i].kind is ModelTurn,
        forall|j: int| i < j < written.len() ==> !((#[trigger] written[j]).kind is ModelTurn),
    ensures
        i >= 0 ==> last_answer(written, latest) == written[i].seq,
        i == -1 ==> last_answer(written, latest) == latest,
    decreases written.len(),
{
    if written.len() > 0 && i < written.len() - 1 {
        assert(!(written[written.len() - 1].kind is ModelTurn));
        let front = written.drop_last();
        assert forall|j: int| i < j < front.len() implies !((#[trigger] front[j]).kind is ModelTurn) by {
            assert(front[j] == written[j]);
        }
        the_last_model_turn_is_the_answer(front, latest, i);
    }
}

/// What is looked for among written events is the first of its kind: the user's
/// message, or the model's answer.
pub proof fn the_first_of_a_kind_is_found(written: Seq<EventRecord>, answer: bool, i: int)
    requires
        0 <= i <= written.len(),
        forall|j: int|
            0 <= j < i ==> !(answer && (#[trigger] written[j]).kind is ModelTurn) && !(!answer
                && written[j].kind is UserMsg),
        i < written.len() ==> (answer && written[i].kind is ModelTurn) || (!answer
            && written[i].kind is UserMsg),
    ensures
        first_of(written, answer) == (if i < written.len() {
            Some(written[i].seq)
        } else {
            None
        }),
    decreases i,
{
    if i > 0 {
        let rest = written.skip(1);
        assert(!(answer && written[0].kind is ModelTurn));
        assert forall|j: int| 0 <= j < i - 1 implies !(answer && (
        #[trigger] rest[j]).kind is ModelTurn) && !(!answer && rest[j].kind is UserMsg) by {
            assert(rest[j] == written[j + 1]);
        }
        if i < written.len() {
            assert(rest[i - 1] == written[i]);
        }
        the_first_of_a_kind_is_found(rest, answer, i - 1);
    }
}

} // verus!
