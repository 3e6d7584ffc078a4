//! A turn that a runner serves: what it is asked, how its event stream is
//! drained, and what is committed at the end.

use vstd::prelude::*;
use crate::chat_types::{
    ChatMessage, EventKind, EventRecord, ModelTurnPayload, Payload, PendingEvent, Spotlight,
    ToolResultPayload, ToolUsePayload, TrustLevel,
};
use crate::json::{add_default, with_default, JsonValue};
use crate::text::opt_view;
use crate::tool_catalog::ToolDeclaration;

verus! {

/// The cap on the tokens of one answer.
pub const MAX_ANSWER_TOKENS: u32 = 4096;

/// What a runner is asked to do.
#[derive(Debug)]
pub struct TurnRequest {
    pub turn_id: String,
    pub conversation_id: String,
    pub group_id: String,
    pub user_text: String,
    pub user_image_urls: Vec<String>,
    pub sender_principal_id: String,
    pub sender_trust_class: String,
    pub system_prompt: String,
    pub history: Vec<ChatMessage>,
    pub tool_catalog: Vec<ToolDeclaration>,
    pub inference_url: String,
    pub model: String,
    pub max_tokens: Option<u32>,
    pub reasoning_enabled: bool,
    pub spotlight: Option<String>,
    pub max_tool_rounds: u32,
}

/// The backend a turn is resolved to: endpoint, model and reasoning come from
/// the same row.
#[derive(Debug)]
pub struct ResolvedInference {
    pub endpoint: String,
    pub model_id: String,
    pub reasoning_enabled: bool,
}

/// Who sends a turn, and where it belongs.
#[derive(Debug)]
pub struct TurnIdentity {
    pub turn_id: String,
    pub conversation_id: String,
    pub group_id: String,
    pub sender_principal_id: Option<String>,
    pub sender_trust: TrustLevel,
}

/// What a model is shown in a turn.
#[derive(Debug)]
pub struct TurnPrompt {
    pub system_prompt: String,
    pub history: Vec<ChatMessage>,
    pub user_text: String,
    pub user_image_urls: Vec<String>,
    pub tool_catalog: Vec<ToolDeclaration>,
}

/// Builds the request for a runner. A turn without a sender is the
/// controller's; the runner gets the opening delimiter only.
pub fn build_turn_request(
    identity: TurnIdentity,
    prompt: TurnPrompt,
    resolved: ResolvedInference,
    spotlight: Option<&Spotlight>,
    max_tool_rounds: u32,
) -> (r: TurnRequest)
    ensures
        r.turn_id == identity.turn_id,
        r.conversation_id == identity.conversation_id,
        r.group_id == identity.group_id,
        r.sender_principal_id@ == match identity.sender_principal_id {
            Some(s) => s@,
            None => "controller"@,
        },
        r.sender_trust_class@ == identity.sender_trust.tag(),
        r.system_prompt == prompt.system_prompt,
        r.history == prompt.history,
        r.user_text == prompt.user_text,
        r.user_image_urls == prompt.user_image_urls,
        r.tool_catalog == prompt.tool_catalog,
        r.inference_url == resolved.endpoint,
        r.model == resolved.model_id,
        r.reasoning_enabled == resolved.reasoning_enabled,
        r.max_tokens == Some(MAX_ANSWER_TOKENS),
        opt_view(r.spotlight) == match spotlight {
            Some(s) => Some(s.open@),
            None => None,
        },
        r.max_tool_rounds == max_tool_rounds,
{
    let sender_principal_id: String = match identity.sender_principal_id {
        Some(s) => s,
        None => "controller".to_owned(),
    };
    let open: Option<String> = match spotlight {
        Some(s) => Some(s.open.clone()),
        None => None,
    };
    TurnRequest {
        turn_id: identity.turn_id,
        conversation_id: identity.conversation_id,
        group_id: identity.group_id,
        user_text: prompt.user_text,
        user_image_urls: prompt.user_image_urls,
        sender_principal_id,
        sender_trust_class: identity.sender_trust.as_str().to_owned(),
        system_prompt: prompt.system_prompt,
        history: prompt.history,
        tool_catalog: prompt.tool_catalog,
        inference_url: resolved.endpoint,
        model: resolved.model_id,
        max_tokens: Some(MAX_ANSWER_TOKENS),
        reasoning_enabled: resolved.reasoning_enabled,
        spotlight: open,
        max_tool_rounds,
    }
}

/// A payload with its channel of origin: added where the payload is an object
/// that does not name one yet.
pub open spec fn stamped(payload: JsonValue, origin: Option<Seq<char>>, r: JsonValue) -> bool {
    match origin {
        Some(o) => with_default(payload, "channel_origin"@, o, r),
        None => r == payload,
    }
}

/// Stamps a model turn's payload with its channel of origin.
pub fn stamp_origin(payload: JsonValue, origin: Option<&str>) -> (r: JsonValue)
    ensures
        stamped(
            payload,
            match origin {
                Some(o) => Some(o@),
                None => None,
            },
            r,
        ),
{
    match origin {
        None => payload,
        Some(o) => add_default(payload, "channel_origin", o),
    }
}

/// The state of a runner's event stream while it is drained.
#[derive(Debug)]
pub struct RunnerDrain {
    /// What will be committed.
    pub pending: Vec<PendingEvent>,
    /// The ordinal of the next tool call.
    pub tool_ordinal: u32,
    pub assistant_text: String,
    pub got_complete: bool,
    pub error_message: Option<String>,
    pub was_cancelled: bool,
    /// The call whose outcome is awaited.
    pub open_call: Option<u32>,
}

/// The event at `i` is a call with that ordinal.
pub open spec fn is_call(events: Seq<PendingEvent>, i: int, ordinal: u32) -> bool {
    events[i].payload matches Payload::ToolUse(u) && u.ordinal == ordinal
}

/// The event at `i` is a result with that ordinal.
pub open spec fn is_result(events: Seq<PendingEvent>, i: int, ordinal: u32) -> bool {
    events[i].payload matches Payload::ToolResult(r) && r.ordinal == ordinal
}

/// Every call is followed by its result; one call may be open.
pub open spec fn paired(events: Seq<PendingEvent>, open: Option<u32>) -> bool {
    forall|i: int, n: u32|
        0 <= i < events.len() && #[trigger] is_call(events, i, n) ==> open == Some(n) || exists|
            j: int,
        | i < j < events.len() && #[trigger] is_result(events, j, n)
}

proof fn lemma_push_keeps_pairs(events: Seq<PendingEvent>, open: Option<u32>, e: PendingEvent)
    requires
        paired(events, open),
        !(e.payload is ToolUse),
    ensures
        paired(events.push(e), open),
{
    let all = events.push(e);
    assert forall|i: int, n: u32| 0 <= i < all.len() && #[trigger] is_call(all, i, n) implies open
        == Some(n) || exists|j: int| i < j < all.len() && #[trigger] is_result(all, j, n) by {
        assert(i < events.len());
        assert(all[i] == events[i]);
        assert(is_call(events, i, n));
        if open != Some(n) {
            let j = choose|j: int| i < j < events.len() && #[trigger] is_result(events, j, n);
            assert(all[j] == events[j]);
            assert(is_result(all, j, n));
        }
    }
}

/// How a drained turn ends.
#[derive(Debug)]
pub enum RunnerEnd {
    /// Nothing is committed, and the turn failed.
    Abandoned(String),
    /// The events are committed; then the turn succeeds with a text or fails
    /// with a message.
    Commit { events: Vec<PendingEvent>, reply: Result<String, String> },
}

impl RunnerDrain {
    /// The stream goes on.
    pub open spec fn draining(self) -> bool {
        !self.got_complete && self.error_message is None
    }

    /// The stream ended with an error instead of an answer.
    pub open spec fn abnormal(self) -> bool {
        !self.got_complete && self.error_message is Some
    }

    /// Every call made so far has its result, but for the open one.
    pub open spec fn wf(self) -> bool {
        paired(self.pending@, self.open_call)
    }

    /// A stream of which nothing has come yet.
    pub fn new() -> (r: RunnerDrain)
        ensures
            r.wf(),
            r.draining(),
            r.pending@.len() == 0,
            r.tool_ordinal == 0,
            r.assistant_text@.len() == 0,
            !r.was_cancelled,
            r.open_call is None,
    {
        RunnerDrain {
            pending: Vec::new(),
            tool_ordinal: 0,
            assistant_text: String::new(),
            got_complete: false,
            error_message: None,
            was_cancelled: false,
            open_call: None,
        }
    }

    /// The runner asks for a tool call: it is recorded before it is made.
    /// Returns the call's ordinal.
    pub fn on_tool_request(&mut self, tool_name: String, args_json: String) -> (ordinal: u32)
        requires
            old(self).open_call is None,
            old(self).wf(),
        ensures
            final(self).wf(),
            ordinal == old(self).tool_ordinal,
            final(self).open_call == Some(ordinal),
            final(self).tool_ordinal == if ordinal < u32::MAX {
                (ordinal + 1) as u32
            } else {
                u32::MAX
            },
            final(self).pending@.len() == old(self).pending@.len() + 1,
            final(self).pending@.drop_last() == old(self).pending@,
            final(self).pending@.last().kind is ToolUse,
            final(self).pending@.last().payload == Payload::ToolUse(
                ToolUsePayload { ordinal, tool_name, args_json },
            ),
            opt_view(final(self).pending@.last().actor) == Some("agent"@),
            *final(self) == (RunnerDrain {
                pending: final(self).pending,
                tool_ordinal: final(self).tool_ordinal,
                open_call: final(self).open_call,
                ..*old(self)
            }),
    {
        let ordinal: u32 = self.tool_ordinal;
        if self.tool_ordinal < u32::MAX {
            self.tool_ordinal = self.tool_ordinal + 1;
        }
        let ghost before = self.pending@;
        self.pending.push(
            PendingEvent {
                kind: EventKind::ToolUse,
                payload: Payload::ToolUse(ToolUsePayload { ordinal, tool_name, args_json }),
                actor: Some("agent".to_owned()),
            },
        );
        self.open_call = Some(ordinal);
        proof {
            let all = self.pending@;
            assert(all.drop_last() =~= before);
            assert forall|i: int, n: u32|
                0 <= i < all.len() && #[trigger] is_call(all, i, n) implies self.open_call == Some(
                n,
            ) || exists|j: int| i < j < all.len() && #[trigger] is_result(all, j, n) by {
                if i < before.len() {
                    assert(all[i] == before[i]);
                    assert(is_call(before, i, n));
                    let j = choose|j: int|
                        i < j < before.len() && #[trigger] is_result(before, j, n);
                    assert(all[j] == before[j]);
                    assert(is_result(all, j, n));
                }
            }
        }
        ordinal
    }

    /// The outcome of the open call: it is recorded, whether it is a success or
    /// a failure. Returns the status to show.
    pub fn on_tool_outcome(&mut self, outcome: Result<String, String>) -> (status: &'static str)
        requires
            old(self).open_call is Some,
            old(self).wf(),
        ensures
            final(self).wf(),
            final(self).open_call is None,
            status@ == if outcome is Ok {
                "finished"@
            } else {
                "failed"@
            },
            final(self).pending@.len() == old(self).pending@.len() + 1,
            final(self).pending@.drop_last() == old(self).pending@,
            final(self).pending@.last().kind is ToolResult,
            final(self).pending@.last().payload == Payload::ToolResult(
                ToolResultPayload { ordinal: old(self).open_call->0, outcome },
            ),
            opt_view(final(self).pending@.last().actor) == Some("system"@),
            *final(self) == (RunnerDrain {
                pending: final(self).pending,
                open_call: None,
                ..*old(self)
            }),
    {
        let ghost before = self.pending@;
        let ghost open = self.open_call;
        let status: &'static str = match &outcome {
            Ok(_) => "finished",
            Err(_) => "failed",
        };
        if let Some(ordinal) = self.open_call {
            self.pending.push(
                PendingEvent {
                    kind: EventKind::ToolResult,
                    payload: Payload::ToolResult(ToolResultPayload { ordinal, outcome }),
                    actor: Some("system".to_owned()),
                },
            );
            self.open_call = None;
        }
        proof {
            let all = self.pending@;
            assert(all.drop_last() =~= before);
            lemma_push_keeps_pairs(before, open, all.last());
            assert(all =~= before.push(all.last()));
            assert forall|i: int, n: u32|
                0 <= i < all.len() && #[trigger] is_call(all, i, n) implies exists|j: int|
                i < j < all.len() && #[trigger] is_result(all, j, n) by {
                if open == Some(n) {
                    assert(is_result(all, all.len() - 1, n));
                }
            }
        }
        status
    }

    /// The runner proposes an event. A model turn gets its channel of origin;
    /// anything else passes through.
    pub fn on_append(
        &mut self,
        kind: &str,
        payload: JsonValue,
        actor: Option<String>,
        origin: Option<&str>,
    )
        requires
            old(self).wf(),
        ensures
            final(self).wf(),
            final(self).pending@.len() == old(self).pending@.len() + 1,
            final(self).pending@.drop_last() == old(self).pending@,
            final(self).pending@.last().kind.name() == kind@,
            final(self).pending@.last().actor == actor,
            final(self).pending@.last().payload matches Payload::Json(p) && if kind@
                == "model_turn"@ {
                stamped(
                    payload,
                    match origin {
                        Some(o) => Some(o@),
                        None => None,
                    },
                    p,
                )
            } else {
                p == payload
            },
            *final(self) == (RunnerDrain { pending: final(self).pending, ..*old(self) }),
    {
        let ghost before = self.pending@;
        let parsed: EventKind = EventKind::parse(kind);
        let answer: bool = match &parsed {
            EventKind::ModelTurn => true,
            _ => false,
        };
        let body: JsonValue = if answer {
            stamp_origin(payload, origin)
        } else {
            payload
        };
        self.pending.push(PendingEvent { kind: parsed, payload: Payload::Json(body), actor });
        proof {
            let all = self.pending@;
            assert(all.drop_last() =~= before);
            lemma_push_keeps_pairs(before, self.open_call, all.last());
            assert(all =~= before.push(all.last()));
        }
    }

    /// The runner is done.
    pub fn on_complete(&mut self, text: String)
        ensures
            *final(self) == (RunnerDrain {
                assistant_text: text,
                got_complete: true,
                ..*old(self)
            }),
    {
        self.assistant_text = text;
        self.got_complete = true;
    }

    /// The runner failed, or was cancelled.
    pub fn on_error(&mut self, message: String, cancelled: bool)
        ensures
            *final(self) == (RunnerDrain {
                error_message: Some(message),
                was_cancelled: cancelled,
                ..*old(self)
            }),
    {
        self.error_message = Some(message);
        self.was_cancelled = cancelled;
    }

    /// A tool event could not be encoded, which ends the turn.
    pub fn on_encode_error(&mut self, what: &str, error: &str)
        ensures
            opt_view(final(self).error_message) == Some("encode "@ + what@ + ": "@ + error@),
            *final(self) == (RunnerDrain {
                error_message: final(self).error_message,
                ..*old(self)
            }),
    {
        let mut message: String = "encode ".to_owned();
        message.append(what);
        message.append(": ");
        message.append(error);
        self.error_message = Some(message);
    }

    /// The text of a turn that ended abnormally.
    pub open spec fn abnormal_text(self) -> Seq<char> {
        if self.assistant_text@.len() > 0 {
            self.assistant_text@
        } else if self.was_cancelled {
            "(stopped before any output)"@
        } else {
            "(turn errored before completion)"@
        }
    }

    /// Ends the turn. A failure before anything was recorded commits nothing.
    /// Any other abnormal end commits what was recorded with a closing model
    /// turn; a cancelled turn then succeeds with its text, a failed one fails.
    /// A normal end commits what was recorded and succeeds.
    pub fn finish(self) -> (r: RunnerEnd)
        requires
            self.wf(),
        ensures
            r is Abandoned <==> self.abnormal() && self.pending@.len() == 0 && !self.was_cancelled,
            r matches RunnerEnd::Abandoned(m) ==> Some(m) == self.error_message,
            r matches RunnerEnd::Commit { events, reply } ==> {
                &&& paired(events@, self.open_call)
                &&& !self.abnormal() ==> events == self.pending && reply == Ok::<String, String>(
                    self.assistant_text,
                )
                &&& self.abnormal() ==> {
                    &&& events@.len() == self.pending@.len() + 1
                    &&& events@.drop_last() == self.pending@
                    &&& events@.last().kind is ModelTurn
                    &&& opt_view(events@.last().actor) == Some("system"@)
                    &&& events@.last().payload matches Payload::Model(p)
                    &&& p.model@.len() == 0
                    &&& p.text@ == self.abnormal_text()
                    &&& p.channel_origin is None
                    &&& opt_view(p.finish_reason) == Some(
                        if self.was_cancelled {
                            "cancelled"@
                        } else {
                            "error"@
                        },
                    )
                    &&& if self.was_cancelled {
                        reply matches Ok(t) && t@ == self.abnormal_text()
                    } else {
                        reply matches Err(m) && Some(m) == self.error_message
                    }
                }
            },
    {
        let abnormal: bool = !self.got_complete && self.error_message.is_some();
        if !abnormal {
            return RunnerEnd::Commit { events: self.pending, reply: Ok(self.assistant_text) };
        }
        let message: String = match self.error_message {
            Some(m) => m,
            None => String::new(),
        };
        if self.pending.is_empty() && !self.was_cancelled {
            return RunnerEnd::Abandoned(message);
        }
        let text: String = if !self.assistant_text.as_str().is_empty() {
            self.assistant_text
        } else if self.was_cancelled {
            "(stopped before any output)".to_owned()
        } else {
            "(turn errored before completion)".to_owned()
        };
        let finish_reason: &str = if self.was_cancelled {
            "cancelled"
        } else {
            "error"
        };
        let ghost before = self.pending@;
        let mut events: Vec<PendingEvent> = self.pending;
        events.push(
            PendingEvent {
                kind: EventKind::ModelTurn,
                payload: Payload::Model(
                    ModelTurnPayload {
                        model: String::new(),
                        text: text.clone(),
                        finish_reason: Some(finish_reason.to_owned()),
                        channel_origin: None,
                    },
                ),
                actor: Some("system".to_owned()),
            },
        );
        proof {
            assert(events@.drop_last() =~= before);
            lemma_push_keeps_pairs(before, self.open_call, events@.last());
            assert(events@ =~= before.push(events@.last()));
        }
        let reply: Result<String, String> = if self.was_cancelled {
            Ok(text)
        } else {
            Err(message)
        };
        RunnerEnd::Commit { events, reply }
    }
}

/// The sequence number of the first model turn among written events.
pub open spec fn first_answer(written: Seq<EventRecord>) -> Option<i64>
    decreases written.len(),
{
    if written.len() == 0 {
        None
    } else if written[0].kind is ModelTurn {
        Some(written[0].seq)
    } else {
        first_answer(written.skip(1))
    }
}

/// The sequence number of the first model turn among written events; where
/// there is none, the one behind the latest.
pub fn answer_seq(written: &Vec<EventRecord>, latest: i64) -> (r: i64)
    requires
        latest < i64::MAX,
    ensures
        r == match first_answer(written@) {
            Some(s) => s,
            None => (latest + 1) as i64,
        },
{
    let mut i: usize = 0;
    assert(written@.skip(0) =~= written@);
    while i < written.len()
        invariant
            i <= written.len(),
            first_answer(written@) == first_answer(written@.skip(i as int)),
        decreases written.len() - i,
    {
        if let EventKind::ModelTurn = &written[i].kind {
            return written[i].seq;
        }
        assert(written@.skip(i as int).skip(1) =~= written@.skip(i + 1));
        i += 1;
    }
    latest + 1
}

/// The answer is the first model turn that was written; without one there is none.
pub proof fn the_first_model_turn_is_the_answer(written: Seq<EventRecord>, i: int)
    requires
        0 <= i <= written.len(),
        forall|j: int| 0 <= j < i ==> !((#[trigger] written[j]).kind is ModelTurn),
        i < written.len() ==> written[i].kind is ModelTurn,
    ensures
        first_answer(written) == (if i < written.len() {
            Some(written[i].seq)
        } else {
            None
        }),
    decreases i,
{
    if i > 0 {
        let rest = written.skip(1);
        assert(!(written[0].kind is ModelTurn));
        assert forall|j: int| 0 <= j < i - 1 implies !((#[trigger] rest[j]).kind is ModelTurn) by {
            assert(rest[j] == written[j + 1]);
        }
        if i < written.len() {
            assert(rest[i - 1] == written[i]);
        }
        the_first_model_turn_is_the_answer(rest, i - 1);
    }
}

/// What the model said before a turn broke off is kept; where it said nothing the
/// text tells whether the turn was stopped or failed.
pub proof fn a_broken_turn_keeps_what_was_said(drain: RunnerDrain)
    ensures
        drain.assistant_text@.len() > 0 ==> drain.abnormal_text() == drain.assistant_text@,
        drain.assistant_text@.len() == 0 && drain.was_cancelled ==> drain.abnormal_text()
            == "(stopped before any output)"@,
        drain.assistant_text@.len() == 0 && !drain.was_cancelled ==> drain.abnormal_text()
            == "(turn errored before completion)"@,
{
}

/// A payload without a channel of origin to add stays as it is, and so does one that
/// is no object.
pub proof fn nothing_is_stamped_without_an_origin(
    payload: JsonValue,
    origin: Option<Seq<char>>,
    r: JsonValue,
)
    requires
        stamped(payload, origin, r),
        origin is None || !(payload is Object),
    ensures
        r == payload,
{
}

/// In a turn that is over every tool call is followed by its own result.
pub proof fn every_call_has_its_result(events: Seq<PendingEvent>, i: int, ordinal: u32) -> (j: int)
    requires
        paired(events, None),
        0 <= i < events.len(),
        events[i].payload matches Payload::ToolUse(u) && u.ordinal == ordinal,
    ensures
        i < j < events.len(),
        events[j].payload matches Payload::ToolResult(r) && r.ordinal == ordinal,
{
    assert(is_call(events, i, ordinal));
    choose|j: int| i < j < events.len() && #[trigger] is_result(events, j, ordinal)
}

} // verus!
