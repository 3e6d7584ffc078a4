//! The thread endpoints: listing messages and cards, renaming, stopping,
//! titling, and the transient incognito turn.

use vstd::prelude::*;
use crate::chat_types::{
    message_models, plain, ChatMessage, EventKind, EventRecord, MessageModel, Payload, Phase, Role,
};
use crate::dispatch::SYSTEM_ORCHESTRATOR_ACTOR;
use crate::json::{add_default, json_member_text, json_member_to_text, with_default, JsonValue};
use crate::real_turn::{ChatRequest, OutputHint, TurnOutcome};
use crate::runner_turn::ResolvedInference;
use crate::send::SendEvent;
use crate::text::{copy_all, opt_view, same, texts, trim, trimmed};

verus! {

/// How many messages a page holds.
pub open spec fn page_size(limit: Option<i64>) -> nat {
    match limit {
        Some(n) => if n < 1 {
            1
        } else if n > 1000 {
            1000
        } else {
            n as nat
        },
        None => 200,
    }
}

/// Whether the message list shows an event: what users, the model and tools
/// said, but not what the orchestrator said in the user's place.
pub open spec fn listed(ev: EventRecord) -> bool {
    match ev.kind {
        EventKind::UserMsg => opt_view(ev.actor) != Some(SYSTEM_ORCHESTRATOR_ACTOR@),
        EventKind::ModelTurn => true,
        EventKind::ToolUse => true,
        EventKind::ToolResult => true,
        _ => false,
    }
}

/// The positions of the listed events among the first `n`.
pub open spec fn listed_positions(events: Seq<EventRecord>, n: nat) -> Seq<usize>
    decreases n,
{
    if n == 0 {
        Seq::empty()
    } else {
        let rest = listed_positions(events, (n - 1) as nat);
        if listed(events[n - 1]) {
            rest.push((n - 1) as usize)
        } else {
            rest
        }
    }
}

/// The positions of the events on a page.
pub open spec fn page(events: Seq<EventRecord>, size: nat) -> Seq<usize> {
    let all = listed_positions(events, events.len());
    if all.len() <= size {
        all
    } else {
        all.take(size as int)
    }
}

fn shows(ev: &EventRecord) -> (r: bool)
    ensures
        r == listed(*ev),
{
    match &ev.kind {
        EventKind::UserMsg => match &ev.actor {
            Some(a) => !same(a.as_str(), SYSTEM_ORCHESTRATOR_ACTOR),
            None => true,
        },
        EventKind::ModelTurn => true,
        EventKind::ToolUse => true,
        EventKind::ToolResult => true,
        _ => false,
    }
}

proof fn lemma_positions_grow(events: Seq<EventRecord>, k: nat, n: nat)
    requires
        k <= n,
    ensures
        listed_positions(events, k).is_prefix_of(listed_positions(events, n)),
    decreases n,
{
    if k < n {
        lemma_positions_grow(events, k, (n - 1) as nat);
        let a = listed_positions(events, k);
        let b = listed_positions(events, (n - 1) as nat);
        let c = listed_positions(events, n);
        assert(b.is_prefix_of(c)) by {
            assert(c.subrange(0, b.len() as int) =~= b);
        }
        assert(c.subrange(0, a.len() as int) =~= b.subrange(0, a.len() as int));
    } else {
        let a = listed_positions(events, k);
        assert(a.subrange(0, a.len() as int) =~= a);
    }
}

/// The positions of the events that a page of the message list shows, oldest
/// first: up to the limit, which is held between one and a thousand.
pub fn list_messages(events: &[EventRecord], limit: Option<i64>) -> (r: Vec<usize>)
    ensures
        r@ == page(events@, page_size(limit)),
{
    let size: usize = match limit {
        Some(n) => {
            if n < 1 {
                1
            } else if n > 1000 {
                1000
            } else {
                n as usize
            }
        },
        None => 200,
    };
    let mut out: Vec<usize> = Vec::new();
    let mut i: usize = 0;
    while i < events.len()
        invariant
            i <= events@.len(),
            size == page_size(limit),
            out@.len() < size,
            out@ == listed_positions(events@, i as nat),
        decreases events.len() - i,
    {
        if shows(&events[i]) {
            out.push(i);
        }
        i += 1;
        if out.len() == size {
            proof {
                lemma_positions_grow(events@, i as nat, events@.len());
                let all = listed_positions(events@, events@.len());
                assert(all.subrange(0, out@.len() as int) =~= out@);
                assert(page(events@, size as nat) =~= out@);
            }
            return out;
        }
    }
    out
}

proof fn lemma_listed_positions(events: Seq<EventRecord>, n: nat)
    requires
        n <= events.len(),
        events.len() <= usize::MAX,
    ensures
        forall|k: int|
            0 <= k < listed_positions(events, n).len() ==> (#[trigger] listed_positions(
                events,
                n,
            )[k]) < n && listed(events[listed_positions(events, n)[k] as int]),
        forall|j: usize|
            j < n && listed(#[trigger] events[j as int]) ==> listed_positions(events, n).contains(j),
    decreases n,
{
    if n > 0 {
        let m = (n - 1) as nat;
        lemma_listed_positions(events, m);
        let before = listed_positions(events, m);
        let all = listed_positions(events, n);
        assert forall|j: usize| j < n && listed(#[trigger] events[j as int]) implies all.contains(
            j,
        ) by {
            if j < m {
                let k = choose|k: int| 0 <= k < before.len() && before[k] == j;
                assert(all[k] == j);
            } else {
                assert(all[all.len() - 1] == j);
            }
        }
    }
}

/// No page shows what the orchestrator said in the user's place, and a page that
/// is long enough shows every other message.
pub proof fn pages_hide_only_the_orchestrator(events: Seq<EventRecord>, size: nat)
    requires
        events.len() <= usize::MAX,
    ensures
        forall|k: int|
            0 <= k < page(events, size).len() ==> (#[trigger] page(events, size)[k]) < events.len()
                && listed(events[page(events, size)[k] as int]),
        listed_positions(events, events.len()).len() <= size ==> forall|j: usize|
            j < events.len() && listed(#[trigger] events[j as int]) ==> page(
                events,
                size,
            ).contains(j),
{
    lemma_listed_positions(events, events.len());
    let all = listed_positions(events, events.len());
    let p = page(events, size);
    assert forall|k: int| 0 <= k < p.len() implies (#[trigger] p[k]) < events.len() && listed(
        events[p[k] as int],
    ) by {
        assert(p[k] == all[k]);
    }
}

/// The text that the message list shows for an event: what was said, the arguments
/// of a tool call, and the outcome of one. A tool's outcome is its JSON as it came,
/// or an object that holds the error.
pub open spec fn shown_text(ev: EventRecord) -> Option<Seq<char>> {
    match (ev.kind, ev.payload) {
        (EventKind::UserMsg, Some(Payload::User(p))) => Some(p.text@),
        (EventKind::ModelTurn, Some(Payload::Model(p))) => Some(p.text@),
        (EventKind::ToolUse, Some(Payload::ToolUse(p))) => Some(p.args_json@),
        (EventKind::ToolResult, Some(Payload::ToolResult(p))) => match p.outcome {
            Ok(json) => Some(json@),
            Err(e) => Some(json_member_text("error"@, e@)),
        },
        _ => None,
    }
}

/// The text that the message list shows for an event.
pub fn extract_text(ev: &EventRecord) -> (r: Option<String>)
    ensures
        opt_view(r) == shown_text(*ev),
{
    match (&ev.kind, &ev.payload) {
        (EventKind::UserMsg, Some(Payload::User(p))) => Some(p.text.clone()),
        (EventKind::ModelTurn, Some(Payload::Model(p))) => Some(p.text.clone()),
        (EventKind::ToolUse, Some(Payload::ToolUse(p))) => Some(p.args_json.clone()),
        (EventKind::ToolResult, Some(Payload::ToolResult(p))) => match &p.outcome {
            Ok(json) => Some(json.clone()),
            Err(e) => Some(json_member_to_text("error", e.as_str())),
        },
        _ => None,
    }
}

/// A message as the list shows it.
#[derive(Debug)]
pub struct MessageView {
    pub seq: i64,
    pub kind: String,
    pub text: Option<String>,
    pub actor: Option<String>,
    pub committed_at: i64,
    pub channel_origin: Option<String>,
    pub attachment_ids: Vec<String>,
    pub applied_skill_names: Vec<String>,
}

/// The channel that an event names as its origin.
pub open spec fn origin_of(ev: EventRecord) -> Option<Seq<char>> {
    match (ev.kind, ev.payload) {
        (EventKind::UserMsg, Some(Payload::User(p))) => opt_view(p.channel_origin),
        (EventKind::ModelTurn, Some(Payload::Model(p))) => opt_view(p.channel_origin),
        _ => None,
    }
}

/// The attachments of a user message.
pub open spec fn attachments_of(ev: EventRecord) -> Seq<Seq<char>> {
    match (ev.kind, ev.payload) {
        (EventKind::UserMsg, Some(Payload::User(p))) => texts(p.attachment_ids@),
        _ => Seq::empty(),
    }
}

/// The skills that a user message was sent with.
pub open spec fn skills_of(ev: EventRecord) -> Seq<Seq<char>> {
    match (ev.kind, ev.payload) {
        (EventKind::UserMsg, Some(Payload::User(p))) => texts(p.applied_skill_names@),
        _ => Seq::empty(),
    }
}

/// An event as the message list shows it.
pub fn message_view(ev: &EventRecord) -> (r: MessageView)
    ensures
        r.seq == ev.seq,
        r.kind@ == ev.kind.name(),
        opt_view(r.text) == shown_text(*ev),
        r.actor == ev.actor,
        r.committed_at == ev.committed_at,
        opt_view(r.channel_origin) == origin_of(*ev),
        texts(r.attachment_ids@) == attachments_of(*ev),
        texts(r.applied_skill_names@) == skills_of(*ev),
{
    let (channel_origin, attachment_ids, applied_skill_names): (
        Option<String>,
        Vec<String>,
        Vec<String>,
    ) = match (&ev.kind, &ev.payload) {
        (EventKind::UserMsg, Some(Payload::User(p))) => (
            p.channel_origin.clone(),
            copy_all(&p.attachment_ids),
            copy_all(&p.applied_skill_names),
        ),
        (EventKind::ModelTurn, Some(Payload::Model(p))) => (
            p.channel_origin.clone(),
            Vec::new(),
            Vec::new(),
        ),
        _ => (None, Vec::new(), Vec::new()),
    };
    assert(texts(attachment_ids@) =~= attachments_of(*ev));
    assert(texts(applied_skill_names@) =~= skills_of(*ev));
    MessageView {
        seq: ev.seq,
        kind: ev.kind.as_str().to_owned(),
        text: extract_text(ev),
        actor: ev.actor.clone(),
        committed_at: ev.committed_at,
        channel_origin,
        attachment_ids,
        applied_skill_names,
    }
}

/// Who gave a thread its name.
#[derive(Clone, Copy, Debug, PartialEq, Eq, Structural)]
pub enum NameSource {
    Auto,
    Manual,
}

/// A thread's name.
#[derive(Debug)]
pub struct ThreadName {
    pub display_name: Option<String>,
    pub source: NameSource,
}

impl ThreadName {
    /// Takes in the name that a transport calls the conversation by. It replaces a
    /// name that came the same way; one that the operator gave stays, and a blank one
    /// changes nothing.
    pub fn apply_auto_display_name(&mut self, name: Option<&str>)
        ensures
            final(self).source == old(self).source,
            match name {
                Some(n) => if old(self).source == NameSource::Auto && trimmed(n@).len() > 0 {
                    opt_view(final(self).display_name) == Some(trimmed(n@))
                } else {
                    *final(self) == *old(self)
                },
                None => *final(self) == *old(self),
            },
    {
        let name: &str = match name {
            Some(n) => n,
            None => {
                return;
            },
        };
        let clean: String = trim(name);
        if clean.as_str().unicode_len() == 0 {
            return;
        }
        if self.source == NameSource::Auto {
            self.display_name = Some(clean);
        }
    }

    /// The operator names the thread, or clears its name, so that the transport's
    /// shows through again.
    pub fn set_display_name(&mut self, name: Option<String>)
        ensures
            final(self).display_name == name,
            final(self).source == (if name is Some {
                NameSource::Manual
            } else {
                NameSource::Auto
            }),
    {
        self.source = if name.is_some() {
            NameSource::Manual
        } else {
            NameSource::Auto
        };
        self.display_name = name;
    }
}

/// The kinds of a card.
#[derive(Clone, Copy, Debug, PartialEq, Eq, Structural)]
pub enum CardKind {
    Research,
    Attachment,
    Chart,
    Other,
}

/// The states of a card.
#[derive(Clone, Copy, Debug, PartialEq, Eq, Structural)]
pub enum CardState {
    Running,
    Completed,
    Failed,
}

/// The job whose report a card lacks: only a completed research card that names
/// its job has one.
pub open spec fn report_job_of(kind: CardKind, state: CardState, details: JsonValue) -> Option<
    Seq<char>,
> {
    if kind == CardKind::Research && state == CardState::Completed {
        details.text_field("job_id"@)
    } else {
        None
    }
}

/// The job whose report a card lacks.
pub fn report_job(kind: CardKind, state: CardState, details: &JsonValue) -> (r: Option<String>)
    ensures
        opt_view(r) == report_job_of(kind, state, *details),
{
    if kind == CardKind::Research && state == CardState::Completed {
        match details.get_str("job_id") {
            Some(s) => Some(s.to_owned()),
            None => None,
        }
    } else {
        None
    }
}

/// A card's details with its report, unless they hold one already.
pub fn attach_report(details: JsonValue, report: &str) -> (r: JsonValue)
    ensures
        with_default(details, "report_markdown"@, report@, r),
{
    add_default(details, "report_markdown", report)
}

/// The channel a thread is shown under: that of its first binding.
pub fn thread_channel(bound_channels: &Vec<String>) -> (r: Option<String>)
    ensures
        bound_channels@.len() == 0 ==> r is None,
        bound_channels@.len() > 0 ==> r == Some(bound_channels@[0]),
{
    if bound_channels.len() == 0 {
        None
    } else {
        Some(bound_channels[0].clone())
    }
}

/// What an operator changes of a thread. A field that is absent stays as it is;
/// a name or an expiry that is present and empty-handed is cleared.
#[derive(Debug)]
pub struct PatchThreadRequest {
    pub display_name: Option<Option<String>>,
    pub is_pinned: Option<bool>,
    pub is_ephemeral: Option<bool>,
    pub ephemeral_expires_at: Option<Option<i64>>,
}

/// One change of a thread's row.
#[derive(Debug)]
pub enum ThreadWrite {
    SetDisplayName(Option<String>),
    SetPinned(bool),
    MarkEphemeral(Option<i64>),
}

/// The changes of a patch, in order.
pub open spec fn patch_writes(req: PatchThreadRequest) -> Seq<ThreadWrite> {
    let name = match req.display_name {
        Some(n) => seq![ThreadWrite::SetDisplayName(n)],
        None => Seq::empty(),
    };
    let pinned = match req.is_pinned {
        Some(p) => seq![ThreadWrite::SetPinned(p)],
        None => Seq::empty(),
    };
    let ephemeral = match (req.is_ephemeral, req.ephemeral_expires_at) {
        (Some(true), Some(expires)) => seq![ThreadWrite::MarkEphemeral(expires)],
        (Some(_), _) => seq![ThreadWrite::MarkEphemeral(None)],
        (None, Some(expires)) => seq![ThreadWrite::MarkEphemeral(expires)],
        (None, None) => Seq::empty(),
    };
    name + pinned + ephemeral
}

/// The changes of a patch. Turning incognito off clears the expiry, and so does an
/// expiry that is present and empty-handed; an expiry that comes alone is applied as
/// it is.
pub fn patch_thread(req: PatchThreadRequest) -> (r: Vec<ThreadWrite>)
    ensures
        r@ == patch_writes(req),
{
    let mut out: Vec<ThreadWrite> = Vec::new();
    if let Some(name) = req.display_name {
        out.push(ThreadWrite::SetDisplayName(name));
    }
    if let Some(pinned) = req.is_pinned {
        out.push(ThreadWrite::SetPinned(pinned));
    }
    match (req.is_ephemeral, req.ephemeral_expires_at) {
        (Some(true), Some(expires)) => {
            out.push(ThreadWrite::MarkEphemeral(expires));
        },
        (Some(_), _) => {
            out.push(ThreadWrite::MarkEphemeral(None));
        },
        (None, Some(expires)) => {
            out.push(ThreadWrite::MarkEphemeral(expires));
        },
        (None, None) => {},
    }
    assert(out@ =~= patch_writes(req));
    out
}

/// What follows a stop request. `cancelled` says whether a turn was running; only
/// then is the conversation shown as idle.
pub fn stop_turn(cancelled: bool) -> (r: Vec<SendEvent>)
    ensures
        cancelled ==> r@ == seq![SendEvent::PhaseChanged(Phase::Idle)],
        !cancelled ==> r@.len() == 0,
{
    let mut out: Vec<SendEvent> = Vec::new();
    if cancelled {
        out.push(SendEvent::PhaseChanged(Phase::Idle));
        assert(out@ =~= seq![SendEvent::PhaseChanged(Phase::Idle)]);
    }
    out
}

/// A message of a transcript that the client holds.
#[derive(Debug)]
pub struct IncognitoTurnMessage {
    pub role: String,
    pub content: String,
}

/// How a held message is shown: anything that is not the assistant's is the
/// user's.
pub open spec fn held(m: IncognitoTurnMessage) -> MessageModel {
    if m.role@ == "assistant"@ {
        plain(Role::Assistant, m.content@)
    } else {
        plain(Role::User, m.content@)
    }
}

/// The prompt of an incognito turn: the bare system prompt, the transcript that
/// the client holds, and the new message. Nothing is read from the store.
pub fn incognito_messages(
    system_prompt: &str,
    prior: &Vec<IncognitoTurnMessage>,
    text: &str,
) -> (r: Vec<ChatMessage>)
    ensures
        message_models(r@) == seq![plain(Role::System, system_prompt@)] + prior@.map_values(
            |m: IncognitoTurnMessage| held(m),
        ) + seq![plain(Role::User, text@)],
{
    let mut out: Vec<ChatMessage> = Vec::new();
    let ghost head = seq![plain(Role::System, system_prompt@)];
    let ghost all = prior@.map_values(|m: IncognitoTurnMessage| held(m));
    out.push(ChatMessage::text(Role::System, system_prompt.to_owned()));
    let mut i: usize = 0;
    assert(message_models(out@) =~= head + all.take(0));
    while i < prior.len()
        invariant
            i <= prior@.len(),
            all == prior@.map_values(|m: IncognitoTurnMessage| held(m)),
            message_models(out@) == head + all.take(i as int),
        decreases prior.len() - i,
    {
        let ghost before = message_models(out@);
        let m: &IncognitoTurnMessage = &prior[i];
        let role: Role = if same(m.role.as_str(), "assistant") {
            Role::Assistant
        } else {
            Role::User
        };
        let message: ChatMessage = ChatMessage::text(role, m.content.clone());
        out.push(message);
        i += 1;
        assert(message_models(out@) =~= before.push(message@));
        assert(all[i - 1] == message@);
        assert(before.push(message@) =~= head + all.take(i as int));
    }
    assert(all.take(i as int) =~= all);
    let ghost before = message_models(out@);
    let last: ChatMessage = ChatMessage::text(Role::User, text.to_owned());
    out.push(last);
    assert(message_models(out@) =~= before.push(last@));
    assert(before.push(last@) =~= head + all + seq![last@]);
    out
}

/// What opens an incognito turn, or why there is none.
pub fn begin_incognito(
    backend: bool,
    text: &str,
    sender: Option<String>,
) -> (r: Result<Vec<SendEvent>, String>)
    ensures
        !backend ==> (r matches Err(m) && m@
            == "no inference backend configured for incognito chat"@),
        backend ==> {
            &&& r matches Ok(events)
            &&& events@.len() == 2
            &&& events@[0] == SendEvent::PhaseChanged(Phase::Thinking)
            &&& events@[1] matches SendEvent::Inbound { seq, text: t, sender: s }
            &&& seq == 0
            &&& t@ == text@
            &&& s == sender
        },
{
    if !backend {
        return Err("no inference backend configured for incognito chat".to_owned());
    }
    let mut events: Vec<SendEvent> = Vec::new();
    events.push(SendEvent::PhaseChanged(Phase::Thinking));
    events.push(SendEvent::Inbound { seq: 0, text: text.to_owned(), sender });
    Ok(events)
}

/// Ends an incognito turn: the reply, then the idle phase, and no number of any
/// log.
pub fn run_incognito_send(assistant_text: String) -> (r: (Vec<SendEvent>, TurnOutcome))
    ensures
        r.0@ == seq![
            SendEvent::Outbound { seq: 0, text: assistant_text },
            SendEvent::PhaseChanged(Phase::Idle),
        ],
        r.1 == (TurnOutcome { user_msg_seq: 0, assistant_text, assistant_seq: 0 }),
{
    let mut events: Vec<SendEvent> = Vec::new();
    events.push(SendEvent::Outbound { seq: 0, text: assistant_text.clone() });
    events.push(SendEvent::PhaseChanged(Phase::Idle));
    assert(events@ =~= seq![
        SendEvent::Outbound { seq: 0, text: assistant_text },
        SendEvent::PhaseChanged(Phase::Idle),
    ]);
    (events, TurnOutcome { user_msg_seq: 0, assistant_text, assistant_seq: 0 })
}

/// The first user message of a log that says something; empty without one.
pub open spec fn first_request(history: Seq<EventRecord>) -> Seq<char>
    decreases history.len(),
{
    if history.len() == 0 {
        Seq::empty()
    } else {
        match history[0].user_text() {
            Some(t) if t.len() > 0 => t,
            _ => first_request(history.skip(1)),
        }
    }
}

/// The cap on the tokens of a generated title.
pub const TITLE_TOKENS: u32 = 16;

/// How a title request goes on.
#[derive(Debug)]
pub enum TitleStart {
    /// The thread has a name already.
    Named(String),
    /// There is nothing to title, or nobody to title it.
    Skipped,
    /// Ask the model for a title of this text.
    Ask(String),
}

fn find_first_request(history: &[EventRecord]) -> (r: String)
    ensures
        r@ == first_request(history@),
{
    let mut i: usize = 0;
    assert(history@.skip(0) =~= history@);
    while i < history.len()
        invariant
            i <= history@.len(),
            first_request(history@) == first_request(history@.skip(i as int)),
        decreases history.len() - i,
    {
        assert(history@.skip(i as int)[0] == history@[i as int]);
        if let (EventKind::UserMsg, Some(Payload::User(p))) = (
            &history[i].kind,
            &history[i].payload,
        ) {
            if !p.text.as_str().is_empty() {
                return p.text.clone();
            }
        }
        assert(history@.skip(i as int).skip(1) =~= history@.skip(i + 1));
        i += 1;
    }
    String::new()
}

/// Decides whether a thread gets a generated title. A name that is there is
/// never touched.
pub fn generate_title(
    display_name: Option<String>,
    history: &[EventRecord],
    backend: bool,
) -> (r: TitleStart)
    ensures
        display_name matches Some(n) ==> r == TitleStart::Named(n),
        display_name is None ==> if first_request(history@).len() == 0 || !backend {
            r is Skipped
        } else {
            r matches TitleStart::Ask(t) && t@ == first_request(history@)
        },
{
    if let Some(name) = display_name {
        return TitleStart::Named(name);
    }
    let text: String = find_first_request(history);
    if text.as_str().is_empty() || !backend {
        return TitleStart::Skipped;
    }
    TitleStart::Ask(text)
}

/// What the model is told about titles.
pub open spec fn title_system_text() -> Seq<char> {
    "You produce very short titles for chat conversations. Reply with ONLY the title — 3 to 4 words, no quotes, no punctuation, no preamble. Title-case is fine. Examples: 'Sourdough starter ratio', 'Refactoring axum routes', 'Trip to Lisbon planning'."@
}

/// The two messages of a title request. `excerpt` is the leading sentences of
/// the request; the whole of it where that is empty.
pub fn title_messages(user_text: &str, excerpt: &str) -> (r: Vec<ChatMessage>)
    ensures
        message_models(r@) == seq![
            plain(Role::System, title_system_text()),
            plain(
                Role::User,
                "First request (first three sentences): "@ + (if excerpt@.len() == 0 {
                    user_text@
                } else {
                    excerpt@
                }) + "\n\nTitle:"@,
            ),
        ],
{
    let mut prompt: String = "First request (first three sentences): ".to_owned();
    if excerpt.is_empty() {
        prompt.append(user_text);
    } else {
        prompt.append(excerpt);
    }
    prompt.append("\n\nTitle:");
    let system: ChatMessage = ChatMessage::text(
        Role::System,
        "You produce very short titles for chat conversations. Reply with ONLY the title — 3 to 4 words, no quotes, no punctuation, no preamble. Title-case is fine. Examples: 'Sourdough starter ratio', 'Refactoring axum routes', 'Trip to Lisbon planning'.".to_owned(),
    );
    let user: ChatMessage = ChatMessage::text(Role::User, prompt);
    let mut out: Vec<ChatMessage> = Vec::new();
    out.push(system);
    out.push(user);
    assert(message_models(out@) =~= seq![system@, user@]);
    out
}

/// The request for a title: short, whole, and without a word on reasoning.
pub fn title_request(resolved: &ResolvedInference, messages: Vec<ChatMessage>) -> (r: ChatRequest)
    ensures
        r.model == resolved.model_id,
        r.messages == messages,
        !r.stream,
        r.max_tokens == Some(TITLE_TOKENS),
        r.enable_thinking is None,
        r.hint == OutputHint::Plain,
{
    ChatRequest {
        model: resolved.model_id.clone(),
        messages,
        stream: false,
        max_tokens: Some(TITLE_TOKENS),
        enable_thinking: None,
        hint: OutputHint::Plain,
    }
}

/// How a title request ends.
#[derive(Debug)]
pub enum TitleEnd {
    /// The thread stays without a name.
    Skipped,
    /// The thread gets this name; `fallback` where it comes from the user's own
    /// text.
    Named { title: String, fallback: bool },
}

/// Decides on a thread's name. `generated` is the model's cleaned answer. Where
/// the model failed, the thread keeps its default label; where it said nothing,
/// `fallback`, a name from the user's own text, takes the title's place.
pub fn title_end(generated: Result<String, ()>, fallback: String) -> (r: TitleEnd)
    ensures
        generated is Err ==> r is Skipped,
        generated matches Ok(t) ==> if t@.len() > 0 {
            r == (TitleEnd::Named { title: t, fallback: false })
        } else if fallback@.len() > 0 {
            r == (TitleEnd::Named { title: fallback, fallback: true })
        } else {
            r is Skipped
        },
{
    match generated {
        Err(_) => TitleEnd::Skipped,
        Ok(title) => {
            if !title.as_str().is_empty() {
                TitleEnd::Named { title, fallback: false }
            } else if !fallback.as_str().is_empty() {
                TitleEnd::Named { title: fallback, fallback: true }
            } else {
                TitleEnd::Skipped
            }
        },
    }
}

/// A page that is long enough shows a position exactly where the event there is a
/// model's turn, a tool's use, a tool's result, or a user's message that the
/// orchestrator did not write; and it shows the positions in the order of the log.
pub proof fn a_page_shows_what_users_models_and_tools_said(
    events: Seq<EventRecord>,
    size: nat,
    at: usize,
)
    requires
        events.len() <= usize::MAX,
        events.len() <= size,
        at < events.len(),
    ensures
        page(events, size).contains(at) <==> (events[at as int].kind is ModelTurn
            || events[at as int].kind is ToolUse || events[at as int].kind is ToolResult || (
        events[at as int].kind is UserMsg && (events[at as int].actor matches Some(a) ==> a@
            != SYSTEM_ORCHESTRATOR_ACTOR@))),
        forall|i: int, j: int|
            #![trigger page(events, size)[i], page(events, size)[j]]
            0 <= i < j < page(events, size).len() ==> page(events, size)[i] < page(
                events,
                size,
            )[j],
{
    lemma_listed_positions(events, events.len());
    lemma_positions_ascend(events, events.len());
    let all = listed_positions(events, events.len());
    assert(page(events, size) == all);
    if all.contains(at) {
        let k = choose|k: int| 0 <= k < all.len() && all[k] == at;
        assert(listed(events[all[k] as int]));
    }
    assert(listed(events[at as int]) ==> all.contains(at));
}

proof fn lemma_positions_ascend(events: Seq<EventRecord>, n: nat)
    requires
        n <= events.len(),
        events.len() <= usize::MAX,
    ensures
        listed_positions(events, n).len() <= n,
        forall|i: int, j: int|
            #![trigger listed_positions(events, n)[i], listed_positions(events, n)[j]]
            0 <= i < j < listed_positions(events, n).len() ==> listed_positions(events, n)[i]
                < listed_positions(events, n)[j],
    decreases n,
{
    if n > 0 {
        lemma_positions_ascend(events, (n - 1) as nat);
        lemma_listed_positions(events, (n - 1) as nat);
        let before = listed_positions(events, (n - 1) as nat);
        let all = listed_positions(events, n);
        assert forall|i: int, j: int|
            #![trigger all[i], all[j]]
            0 <= i < j < all.len() implies all[i] < all[j] by {
            if j < before.len() {
                assert(before[i] < before[j]);
            } else {
                assert(before[i] < n - 1);
            }
        }
    }
}

/// A shorter page is the beginning of a longer one, and is as long as its size allows:
/// what is cut off is the newest.
pub proof fn a_shorter_page_is_the_beginning_of_a_longer_one(
    events: Seq<EventRecord>,
    size: nat,
    more: nat,
)
    requires
        size <= more,
    ensures
        page(events, size).len() <= size,
        page(events, size).is_prefix_of(page(events, more)),
        page(events, size).len() < size ==> page(events, size) == page(events, more),
{
    let a = page(events, size);
    let b = page(events, more);
    assert(b.subrange(0, a.len() as int) =~= a);
}

/// A page holds at least one message and at most a thousand: the number that was asked
/// for where it lies between, and two hundred where none was.
pub proof fn pages_are_bounded(limit: Option<i64>)
    ensures
        1 <= page_size(limit) <= 1000,
        limit is None ==> page_size(limit) == 200,
        limit matches Some(n) ==> (1 <= n <= 1000 ==> page_size(limit) == n),
        limit matches Some(n) ==> (n < 1 ==> page_size(limit) == 1) && (n > 1000
            ==> page_size(limit) == 1000),
{
}

/// What the list shows for an event is what the event holds: the words of a user or of
/// a model, the arguments of a call, the result of one, and of a failed call an object
/// under `error`. An event whose payload is of another sort, or could not be read, shows
/// no text.
pub proof fn the_list_shows_what_was_said(ev: EventRecord)
    ensures
        ev.kind is UserMsg ==> (ev.payload matches Some(Payload::User(p)) ==> shown_text(ev) == Some(
            p.text@,
        )),
        ev.kind is ModelTurn ==> (ev.payload matches Some(Payload::Model(p)) ==> shown_text(ev)
            == Some(p.text@)),
        ev.kind is ToolUse ==> (ev.payload matches Some(Payload::ToolUse(p)) ==> shown_text(ev)
            == Some(p.args_json@)),
        ev.kind is ToolResult ==> (ev.payload matches Some(Payload::ToolResult(p)) ==> (
        p.outcome matches Ok(json) ==> shown_text(ev) == Some(json@))),
        ev.kind is ToolResult ==> (ev.payload matches Some(Payload::ToolResult(p)) ==> (
        p.outcome matches Err(e) ==> shown_text(ev) == Some(json_member_text("error"@, e@)))),
        ev.payload is None ==> shown_text(ev) is None,
        ev.kind is ToolUse && !(ev.payload matches Some(Payload::ToolUse(_))) ==> shown_text(ev) is None,
        ev.kind is ToolResult && !(ev.payload matches Some(Payload::ToolResult(_))) ==> shown_text(
            ev,
        ) is None,
{
}

/// A message's channel, attachments and skills are those of its own payload; only users'
/// messages have attachments and skills, and only users and models name a channel.
pub proof fn the_list_keeps_a_messages_context(ev: EventRecord, i: int)
    ensures
        ev.kind is UserMsg ==> (ev.payload matches Some(Payload::User(p)) ==> {
            &&& origin_of(ev) == (match p.channel_origin {
                Some(c) => Some(c@),
                None => None,
            })
            &&& attachments_of(ev).len() == p.attachment_ids@.len()
            &&& skills_of(ev).len() == p.applied_skill_names@.len()
            &&& 0 <= i < p.attachment_ids@.len() ==> attachments_of(ev)[i]
                == p.attachment_ids@[i]@
            &&& 0 <= i < p.applied_skill_names@.len() ==> skills_of(ev)[i]
                == p.applied_skill_names@[i]@
        }),
        ev.kind is ModelTurn ==> (ev.payload matches Some(Payload::Model(p)) ==> origin_of(ev)
            == (match p.channel_origin {
            Some(c) => Some(c@),
            None => None,
        })),
        !(ev.kind is UserMsg) ==> attachments_of(ev).len() == 0 && skills_of(ev).len() == 0,
        !(ev.kind is UserMsg || ev.kind is ModelTurn) ==> origin_of(ev) is None,
{
}

/// A patch writes each field that is present, once and with the value it brings, and
/// none that is absent: the name, then the pin, then the expiry.
pub proof fn a_patch_writes_what_it_brings(req: PatchThreadRequest, w: ThreadWrite)
    ensures
        w is SetDisplayName ==> (patch_writes(req).contains(w) <==> req.display_name == Some(
            w->SetDisplayName_0,
        )),
        w is SetPinned ==> (patch_writes(req).contains(w) <==> req.is_pinned == Some(
            w->SetPinned_0,
        )),
        patch_writes(req).len() == (if req.display_name is Some {
            1int
        } else {
            0
        }) + (if req.is_pinned is Some {
            1int
        } else {
            0
        }) + (if req.is_ephemeral is Some || req.ephemeral_expires_at is Some {
            1int
        } else {
            0
        }),
        req.is_ephemeral == Some(false) ==> patch_writes(req).contains(
            ThreadWrite::MarkEphemeral(None),
        ),
        req.is_ephemeral != Some(false) ==> (req.ephemeral_expires_at matches Some(expires)
            ==> patch_writes(req).contains(ThreadWrite::MarkEphemeral(expires))),
        req.is_ephemeral == Some(true) && req.ephemeral_expires_at is None ==> patch_writes(
            req,
        ).contains(ThreadWrite::MarkEphemeral(None)),
{
    let all = patch_writes(req);
    let n: int = if req.display_name is Some {
        1
    } else {
        0
    };
    let m: int = n + if req.is_pinned is Some {
        1int
    } else {
        0
    };
    if let Some(name) = req.display_name {
        assert(all[0] == ThreadWrite::SetDisplayName(name));
    }
    if let Some(pin) = req.is_pinned {
        assert(all[n] == ThreadWrite::SetPinned(pin));
    }
    if all.len() > m {
        assert(all[m] is MarkEphemeral);
        assert(all.contains(all[m]));
    }
    if all.contains(w) {
        let k = choose|k: int| 0 <= k < all.len() && all[k] == w;
        assert(k == 0 || k == n || k == m);
    }
}

/// The client's own words stay the user's and the model's words the model's, unchanged
/// and in their places, between the system prompt and the new message.
pub proof fn an_incognito_message_keeps_its_speaker(m: IncognitoTurnMessage)
    ensures
        held(m).content == m.content@,
        m.role@ == "assistant"@ ==> held(m).role == Role::Assistant,
        m.role@ != "assistant"@ ==> held(m).role == Role::User,
        held(m).tool_calls.len() == 0 && held(m).tool_call_id is None && held(m).image_urls.len()
            == 0,
{
}

/// The text that a title is asked for is that of the earliest user message that could be
/// read and says something.
pub proof fn a_title_is_about_the_first_request(history: Seq<EventRecord>, i: int)
    requires
        0 <= i < history.len(),
        history[i].kind is UserMsg,
        history[i].payload matches Some(Payload::User(p)) && p.text@.len() > 0,
        forall|j: int|
            0 <= j < i ==> !((#[trigger] history[j]).kind is UserMsg && (
            history[j].payload matches Some(Payload::User(q)) && q.text@.len() > 0)),
    ensures
        history[i].payload matches Some(Payload::User(p)) && first_request(history) == p.text@,
    decreases i,
{
    if i > 0 {
        assert(history[0].user_text() matches Some(t) ==> t.len() == 0);
        let rest = history.skip(1);
        assert forall|j: int| 0 <= j < i - 1 implies !((#[trigger] rest[j]).kind is UserMsg && (
        rest[j].payload matches Some(Payload::User(q)) && q.text@.len() > 0)) by {
            assert(rest[j] == history[j + 1]);
        }
        assert(rest[i - 1] == history[i]);
        a_title_is_about_the_first_request(rest, i - 1);
    }
}

/// A report belongs to a research card that is completed, under the job it names.
pub proof fn only_completed_research_has_a_report(
    kind: CardKind,
    state: CardState,
    details: JsonValue,
)
    ensures
        kind is Research && state is Completed ==> report_job_of(kind, state, details)
            == details.text_field("job_id"@),
        !(kind is Research) || !(state is Completed) ==> report_job_of(kind, state, details) is None,
{
}

} // verus!
