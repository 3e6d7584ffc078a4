//! The records of the chat surface: events, their payloads, trust levels and
//! the messages a model sees.

use vstd::prelude::*;
use crate::json::JsonValue;
use crate::text::{opt_view, texts, same};

verus! {

/// How far a sender is trusted.
#[derive(Clone, Copy, Debug, PartialEq, Eq, Structural)]
pub enum TrustLevel {
    Controller,
    Delegated,
    KnownTrusted,
    KnownLimited,
    UnknownPending,
    Blocked,
}

impl TrustLevel {
    /// The class tag of a trust level.
    pub open spec fn tag(self) -> Seq<char> {
        match self {
            TrustLevel::Controller => "Controller"@,
            TrustLevel::Delegated => "Delegated"@,
            TrustLevel::KnownTrusted => "KnownTrusted"@,
            TrustLevel::KnownLimited => "KnownLimited"@,
            TrustLevel::UnknownPending => "UnknownPending"@,
            TrustLevel::Blocked => "Blocked"@,
        }
    }

    /// The class tag of a trust level.
    pub fn as_str(&self) -> (r: &'static str)
        ensures
            r@ == self.tag(),
    {
        match self {
            TrustLevel::Controller => "Controller",
            TrustLevel::Delegated => "Delegated",
            TrustLevel::KnownTrusted => "KnownTrusted",
            TrustLevel::KnownLimited => "KnownLimited",
            TrustLevel::UnknownPending => "UnknownPending",
            TrustLevel::Blocked => "Blocked",
        }
    }
}

/// No two trust levels share a class tag.
pub proof fn trust_tags_are_distinct(a: TrustLevel, b: TrustLevel)
    ensures
        a.tag() == b.tag() <==> a == b,
{
    reveal_strlit("Controller");
    reveal_strlit("Delegated");
    reveal_strlit("KnownTrusted");
    reveal_strlit("KnownLimited");
    reveal_strlit("UnknownPending");
    reveal_strlit("Blocked");
    if a.tag() == b.tag() {
        assert(a.tag().len() == b.tag().len());
        assert(a.tag()[0] == b.tag()[0]);
        assert(a.tag()[5] == b.tag()[5]);
    }
}

/// Where a conversation stands.
#[derive(Clone, Copy, Debug, PartialEq, Eq, Structural)]
pub enum Phase {
    Idle,
    Thinking,
    AwaitingTool,
    AwaitingTrustDecision,
    AwaitingApproval,
}

impl Phase {
    /// The name of a phase.
    pub open spec fn name(self) -> Seq<char> {
        match self {
            Phase::Idle => "idle"@,
            Phase::Thinking => "thinking"@,
            Phase::AwaitingTool => "awaiting_tool"@,
            Phase::AwaitingTrustDecision => "awaiting_trust_decision"@,
            Phase::AwaitingApproval => "awaiting_approval"@,
        }
    }

    /// The name of a phase.
    pub fn as_str(&self) -> (r: &'static str)
        ensures
            r@ == self.name(),
    {
        match self {
            Phase::Idle => "idle",
            Phase::Thinking => "thinking",
            Phase::AwaitingTool => "awaiting_tool",
            Phase::AwaitingTrustDecision => "awaiting_trust_decision",
            Phase::AwaitingApproval => "awaiting_approval",
        }
    }
}

/// What an event of a conversation's log records.
#[derive(Debug)]
pub enum EventKind {
    UserMsg,
    ModelTurn,
    ToolUse,
    ToolResult,
    ColdContactArrived,
    TrustChanged,
    Other(String),
}

impl EventKind {
    /// The name of a kind in the log.
    pub open spec fn name(self) -> Seq<char> {
        match self {
            EventKind::UserMsg => "user_msg"@,
            EventKind::ModelTurn => "model_turn"@,
            EventKind::ToolUse => "tool_use"@,
            EventKind::ToolResult => "tool_result"@,
            EventKind::ColdContactArrived => "cold_contact_arrived"@,
            EventKind::TrustChanged => "trust_changed"@,
            EventKind::Other(s) => s@,
        }
    }

    /// The name of a kind in the log.
    pub fn as_str(&self) -> (r: &str)
        ensures
            r@ == self.name(),
    {
        match self {
            EventKind::UserMsg => "user_msg",
            EventKind::ModelTurn => "model_turn",
            EventKind::ToolUse => "tool_use",
            EventKind::ToolResult => "tool_result",
            EventKind::ColdContactArrived => "cold_contact_arrived",
            EventKind::TrustChanged => "trust_changed",
            EventKind::Other(s) => s.as_str(),
        }
    }

    /// The kind that a name in the log stands for.
    pub fn parse(name: &str) -> (r: EventKind)
        ensures
            r.name() == name@,
            r is ModelTurn <==> name@ == "model_turn"@,
            r is UserMsg <==> name@ == "user_msg"@,
            r is ToolUse <==> name@ == "tool_use"@,
            r is ToolResult <==> name@ == "tool_result"@,
            r is ColdContactArrived <==> name@ == "cold_contact_arrived"@,
            r is TrustChanged <==> name@ == "trust_changed"@,
    {
        proof {
            reveal_strlit("user_msg");
            reveal_strlit("model_turn");
            reveal_strlit("tool_use");
            reveal_strlit("tool_result");
            reveal_strlit("cold_contact_arrived");
            reveal_strlit("trust_changed");
            assert("user_msg"@[0] != "tool_use"@[0]);
        }
        if same(name, "user_msg") {
            EventKind::UserMsg
        } else if same(name, "model_turn") {
            EventKind::ModelTurn
        } else if same(name, "tool_use") {
            EventKind::ToolUse
        } else if same(name, "tool_result") {
            EventKind::ToolResult
        } else if same(name, "cold_contact_arrived") {
            EventKind::ColdContactArrived
        } else if same(name, "trust_changed") {
            EventKind::TrustChanged
        } else {
            EventKind::Other(name.to_owned())
        }
    }
}

/// What a user said.
#[derive(Debug)]
pub struct UserMessagePayload {
    pub text: String,
    pub sender_principal_id: Option<String>,
    pub channel_origin: Option<String>,
    pub attachment_ids: Vec<String>,
    pub applied_skill_names: Vec<String>,
}

/// What the model answered.
#[derive(Debug)]
pub struct ModelTurnPayload {
    pub model: String,
    pub text: String,
    pub finish_reason: Option<String>,
    pub channel_origin: Option<String>,
}

/// A tool call. The arguments are held as compact JSON text.
#[derive(Debug)]
pub struct ToolUsePayload {
    pub ordinal: u32,
    pub tool_name: String,
    pub args_json: String,
}

/// The outcome of a tool call: compact JSON text, or an error message.
#[derive(Debug)]
pub struct ToolResultPayload {
    pub ordinal: u32,
    pub outcome: Result<String, String>,
}

/// A message of a sender who is not known yet.
#[derive(Debug)]
pub struct ColdContactPayload {
    pub text: String,
    pub sender_principal_id: String,
    pub approval_id: String,
}

/// A change of a sender's trust that the controller decided.
#[derive(Debug)]
pub struct TrustChangedPayload {
    pub principal_id: String,
    pub new_class: String,
    pub approval_id: String,
    pub reason: Option<String>,
}

/// What an event carries.
#[derive(Debug)]
pub enum Payload {
    User(UserMessagePayload),
    Model(ModelTurnPayload),
    ToolUse(ToolUsePayload),
    ToolResult(ToolResultPayload),
    ColdContact(ColdContactPayload),
    TrustChanged(TrustChangedPayload),
    Json(JsonValue),
}

/// An event to be committed.
#[derive(Debug)]
pub struct PendingEvent {
    pub kind: EventKind,
    pub payload: Payload,
    pub actor: Option<String>,
}

/// An event of a conversation's log. The payload is absent where it could not
/// be read.
#[derive(Debug)]
pub struct EventRecord {
    pub seq: i64,
    pub kind: EventKind,
    pub payload: Option<Payload>,
    pub actor: Option<String>,
    /// The second at which the event was committed.
    pub committed_at: i64,
}

impl EventRecord {
    /// The text of a user message that could be read.
    pub open spec fn user_text(self) -> Option<Seq<char>> {
        match (self.kind, self.payload) {
            (EventKind::UserMsg, Some(Payload::User(p))) => Some(p.text@),
            _ => None,
        }
    }

    /// The text of a model turn; empty where it could not be read.
    pub open spec fn model_text(self) -> Seq<char> {
        match self.payload {
            Some(Payload::Model(p)) => p.text@,
            _ => Seq::empty(),
        }
    }
}

/// Who speaks in a chat message.
#[derive(Clone, Copy, Debug, PartialEq, Eq, Structural)]
pub enum Role {
    System,
    User,
    Assistant,
    Tool,
}

/// The function part of a tool call.
#[derive(Debug)]
pub struct ToolCallFunction {
    pub name: String,
    pub arguments: String,
}

/// A tool call that an assistant message bears.
#[derive(Debug)]
pub struct ToolCall {
    pub id: String,
    pub kind: String,
    pub function: ToolCallFunction,
}

/// A message as the model sees it.
#[derive(Debug)]
pub struct ChatMessage {
    pub role: Role,
    pub content: String,
    pub tool_calls: Vec<ToolCall>,
    pub tool_call_id: Option<String>,
    pub image_urls: Vec<String>,
}

/// The model of a `ToolCall`.
pub struct CallModel {
    pub id: Seq<char>,
    pub kind: Seq<char>,
    pub name: Seq<char>,
    pub arguments: Seq<char>,
}

impl View for ToolCall {
    type V = CallModel;

    open spec fn view(&self) -> CallModel {
        CallModel {
            id: self.id@,
            kind: self.kind@,
            name: self.function.name@,
            arguments: self.function.arguments@,
        }
    }
}

/// The model of a `ChatMessage`.
#[verifier::ext_equal]
pub struct MessageModel {
    pub role: Role,
    pub content: Seq<char>,
    pub tool_calls: Seq<CallModel>,
    pub tool_call_id: Option<Seq<char>>,
    pub image_urls: Seq<Seq<char>>,
}

impl View for ChatMessage {
    type V = MessageModel;

    open spec fn view(&self) -> MessageModel {
        MessageModel {
            role: self.role,
            content: self.content@,
            tool_calls: self.tool_calls@.map_values(|c: ToolCall| c@),
            tool_call_id: opt_view(self.tool_call_id),
            image_urls: texts(self.image_urls@),
        }
    }
}

/// The models of a vector of messages.
pub open spec fn message_models(v: Seq<ChatMessage>) -> Seq<MessageModel> {
    v.map_values(|m: ChatMessage| m@)
}

/// A message that is nothing but text.
pub open spec fn plain(role: Role, content: Seq<char>) -> MessageModel {
    MessageModel {
        role,
        content,
        tool_calls: Seq::empty(),
        tool_call_id: None,
        image_urls: Seq::empty(),
    }
}

/// An assistant message that bears one tool call and says nothing.
pub open spec fn calling(id: Seq<char>, name: Seq<char>, arguments: Seq<char>) -> MessageModel {
    MessageModel {
        tool_calls: seq![CallModel { id, kind: "function"@, name, arguments }],
        ..plain(Role::Assistant, Seq::empty())
    }
}

/// The answer to a tool call.
pub open spec fn answering(id: Seq<char>, body: Seq<char>) -> MessageModel {
    MessageModel { tool_call_id: Some(id), ..plain(Role::Tool, body) }
}

/// A user message with images.
pub open spec fn picturing(content: Seq<char>, urls: Seq<Seq<char>>) -> MessageModel {
    MessageModel { image_urls: urls, ..plain(Role::User, content) }
}

impl ChatMessage {
    /// A message that is nothing but text.
    pub fn text(role: Role, content: String) -> (r: ChatMessage)
        ensures
            r@ == plain(role, content@),
    {
        let r = ChatMessage {
            role,
            content,
            tool_calls: Vec::new(),
            tool_call_id: None,
            image_urls: Vec::new(),
        };
        assert(r@.tool_calls =~= Seq::<CallModel>::empty());
        assert(r@.image_urls =~= Seq::<Seq<char>>::empty());
        r
    }

    /// An assistant message that bears one tool call and says nothing.
    pub fn call(id: String, name: String, arguments: String) -> (r: ChatMessage)
        ensures
            r@ == calling(id@, name@, arguments@),
    {
        let call = ToolCall {
            id,
            kind: "function".to_owned(),
            function: ToolCallFunction { name, arguments },
        };
        let mut tool_calls: Vec<ToolCall> = Vec::new();
        tool_calls.push(call);
        let r = ChatMessage {
            role: Role::Assistant,
            content: String::new(),
            tool_calls,
            tool_call_id: None,
            image_urls: Vec::new(),
        };
        assert(r@.tool_calls =~= seq![call@]);
        assert(r@.image_urls =~= Seq::<Seq<char>>::empty());
        r
    }

    /// The answer to a tool call.
    pub fn tool_result(id: String, body: String) -> (r: ChatMessage)
        ensures
            r@ == answering(id@, body@),
    {
        let r = ChatMessage {
            role: Role::Tool,
            content: body,
            tool_calls: Vec::new(),
            tool_call_id: Some(id),
            image_urls: Vec::new(),
        };
        assert(r@.tool_calls =~= Seq::<CallModel>::empty());
        assert(r@.image_urls =~= Seq::<Seq<char>>::empty());
        r
    }

    /// A user message with images.
    pub fn user_with_images(content: String, image_urls: Vec<String>) -> (r: ChatMessage)
        ensures
            r@ == picturing(content@, texts(image_urls@)),
    {
        let r = ChatMessage {
            role: Role::User,
            content,
            tool_calls: Vec::new(),
            tool_call_id: None,
            image_urls,
        };
        assert(r@.tool_calls =~= Seq::<CallModel>::empty());
        r
    }
}

/// How untrusted text is marked for the model. The policy engine draws the
/// delimiters and lays them out.
#[derive(Debug)]
pub struct Spotlight {
    /// The opening delimiter, bare.
    pub open: String,
    /// All that comes before a marked text, line breaks included.
    pub before: String,
    /// All that comes behind a marked text, line breaks included.
    pub after: String,
}

/// The marks of a turn: fresh ones where the policy asks for them, none otherwise.
pub fn spotlight_for(asked: bool, fresh: Spotlight) -> (r: Option<Spotlight>)
    ensures
        r == if asked {
            Some(fresh)
        } else {
            None
        },
{
    if asked {
        Some(fresh)
    } else {
        None
    }
}

/// A text as the model sees it: between its marks, where there are any.
pub open spec fn lit(spotlight: Option<&Spotlight>, text: Seq<char>) -> Seq<char> {
    match spotlight {
        Some(s) => s.before@ + text + s.after@,
        None => text,
    }
}

/// A text as the model sees it.
pub fn wrap(spotlight: Option<&Spotlight>, text: &str) -> (r: String)
    ensures
        r@ == lit(spotlight, text@),
{
    match spotlight {
        Some(s) => {
            let mut out: String = s.before.clone();
            out.append(text);
            out.append(s.after.as_str());
            out
        },
        None => text.to_owned(),
    }
}

/// A spotlight stands round a text and leaves the text itself as it is.
pub proof fn a_spotlight_stands_round_its_text(spotlight: &Spotlight, text: Seq<char>)
    ensures
        lit(Some(spotlight), text).len() == spotlight.before@.len() + text.len()
            + spotlight.after@.len(),
        lit(Some(spotlight), text).subrange(
            spotlight.before@.len() as int,
            (spotlight.before@.len() + text.len()) as int,
        ) == text,
        spotlight.before@.is_prefix_of(lit(Some(spotlight), text)),
        spotlight.after@.is_suffix_of(lit(Some(spotlight), text)),
        lit(None, text) == text,
{
    let whole = lit(Some(spotlight), text);
    let n = spotlight.before@.len() as int;
    assert(whole.subrange(n, n + text.len()) =~= text);
    assert(whole.take(n) =~= spotlight.before@);
    assert(whole.skip(n + text.len()) =~= spotlight.after@);
}

/// The model of a message is the message: its role, its text, each of its calls and
/// images in its place, and the call that it answers.
pub proof fn a_message_is_seen_as_it_is(m: ChatMessage, i: int, k: int)
    ensures
        m@.role == m.role,
        m@.content == m.content@,
        m@.tool_calls.len() == m.tool_calls@.len(),
        0 <= i < m.tool_calls@.len() ==> m@.tool_calls[i].id == m.tool_calls@[i].id@
            && m@.tool_calls[i].kind == m.tool_calls@[i].kind@ && m@.tool_calls[i].name
            == m.tool_calls@[i].function.name@ && m@.tool_calls[i].arguments
            == m.tool_calls@[i].function.arguments@,
        m.tool_call_id matches Some(id) ==> m@.tool_call_id == Some(id@),
        m.tool_call_id is None ==> m@.tool_call_id is None,
        m@.image_urls.len() == m.image_urls@.len(),
        0 <= k < m.image_urls@.len() ==> m@.image_urls[k] == m.image_urls@[k]@,
{
}

/// A message is made of what it is given: a plain one of its text, a call of its
/// tool and arguments, an answer of the call's id, a picture of its images.
pub proof fn messages_hold_what_they_are_given(
    role: Role,
    content: Seq<char>,
    id: Seq<char>,
    name: Seq<char>,
    arguments: Seq<char>,
    urls: Seq<Seq<char>>,
)
    ensures
        plain(role, content).role == role && plain(role, content).content == content,
        plain(role, content).tool_calls.len() == 0 && plain(role, content).image_urls.len() == 0,
        plain(role, content).tool_call_id is None,
        calling(id, name, arguments).role is Assistant,
        calling(id, name, arguments).content.len() == 0,
        calling(id, name, arguments).tool_calls.len() == 1,
        calling(id, name, arguments).tool_calls[0].id == id,
        calling(id, name, arguments).tool_calls[0].kind == "function"@,
        calling(id, name, arguments).tool_calls[0].name == name,
        calling(id, name, arguments).tool_calls[0].arguments == arguments,
        answering(id, content).role is Tool,
        answering(id, content).content == content,
        answering(id, content).tool_call_id == Some(id),
        picturing(content, urls).role is User,
        picturing(content, urls).content == content,
        picturing(content, urls).image_urls == urls,
{
}

} // verus!
