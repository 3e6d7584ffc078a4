//! From a conversation's event log to the messages a model sees.

use vstd::prelude::*;
use crate::chat_types::{
    answering, calling, lit, message_models, plain, wrap, ChatMessage, EventKind, EventRecord,
    MessageModel, Payload, Role, Spotlight, ToolResultPayload, ToolUsePayload,
};
use crate::json::{json_member_text, json_member_to_text};
use crate::text::{byte_count, byte_len, decimal, decimal_text};

verus! {

/// The id under which a tool call of a turn is answered.
pub open spec fn call_id(ordinal: u32) -> Seq<char> {
    "call_"@ + decimal(ordinal as nat)
}

/// The text a tool outcome is shown as.
pub open spec fn outcome_text(outcome: Result<String, String>) -> Seq<char> {
    match outcome {
        Ok(v) => v@,
        Err(e) => json_member_text("error"@, e@),
    }
}

/// How much an event counts against the history budget, in bytes.
pub open spec fn weight(ev: EventRecord) -> nat {
    match (ev.kind, ev.payload) {
        (EventKind::UserMsg, Some(Payload::User(p))) => byte_count(p.text@),
        (EventKind::ModelTurn, Some(Payload::Model(p))) => byte_count(p.text@),
        (EventKind::ToolUse, Some(Payload::ToolUse(p))) => byte_count(p.tool_name@) + byte_count(
            p.args_json@,
        ),
        (EventKind::ToolResult, Some(Payload::ToolResult(p))) => match p.outcome {
            Ok(v) => byte_count(v@),
            Err(e) => byte_count(e@) + 16,
        },
        _ => 0,
    }
}

/// What an event counts in all.
pub open spec fn total_weight(events: Seq<EventRecord>) -> nat
    decreases events.len(),
{
    if events.len() == 0 {
        0
    } else {
        total_weight(events.drop_last()) + weight(events.last())
    }
}

/// Whether an event belongs to the turn that is open when it comes.
pub open spec fn attaches(kind: EventKind) -> bool {
    kind is ModelTurn || kind is ToolUse || kind is ToolResult
}

/// The turns of a log: each begins with a user message, and the events behind
/// it attach to it. The user message of the current turn is left out, as is
/// what comes before the first turn.
pub open spec fn turns(history: Seq<EventRecord>, current: i64) -> Seq<Seq<EventRecord>>
    decreases history.len(),
{
    if history.len() == 0 {
        Seq::empty()
    } else {
        let rest = turns(history.drop_last(), current);
        let ev = history.last();
        if ev.kind is UserMsg {
            if ev.seq == current {
                rest
            } else {
                rest.push(seq![ev])
            }
        } else if attaches(ev.kind) && rest.len() > 0 {
            rest.update(rest.len() - 1, rest.last().push(ev))
        } else {
            rest
        }
    }
}

/// What turns count in all.
pub open spec fn turns_weight(t: Seq<Seq<EventRecord>>) -> nat
    decreases t.len(),
{
    if t.len() == 0 {
        0
    } else {
        total_weight(t[0]) + turns_weight(t.skip(1))
    }
}

/// The turns that fit the budget: whole turns are dropped, oldest first, until
/// the rest fits.
pub open spec fn fitting(t: Seq<Seq<EventRecord>>, budget: nat) -> Seq<Seq<EventRecord>>
    decreases t.len(),
{
    if t.len() == 0 || turns_weight(t) <= budget {
        t
    } else {
        fitting(t.skip(1), budget)
    }
}

/// The message that an event becomes.
pub open spec fn event_message(ev: EventRecord, spotlight: Option<&Spotlight>) -> Option<
    MessageModel,
> {
    match (ev.kind, ev.payload) {
        (EventKind::UserMsg, Some(Payload::User(p))) => Some(
            plain(Role::User, lit(spotlight, p.text@)),
        ),
        (EventKind::ToolUse, Some(Payload::ToolUse(p))) => Some(
            calling(call_id(p.ordinal), p.tool_name@, p.args_json@),
        ),
        (EventKind::ToolResult, Some(Payload::ToolResult(p))) => Some(
            answering(call_id(p.ordinal), outcome_text(p.outcome)),
        ),
        (EventKind::ModelTurn, _) => Some(plain(Role::Assistant, ev.model_text())),
        _ => None,
    }
}

/// The messages that events become, in order.
pub open spec fn messages_of(events: Seq<EventRecord>, spotlight: Option<&Spotlight>) -> Seq<
    MessageModel,
>
    decreases events.len(),
{
    if events.len() == 0 {
        Seq::empty()
    } else {
        let rest = messages_of(events.drop_last(), spotlight);
        match event_message(events.last(), spotlight) {
            Some(m) => rest.push(m),
            None => rest,
        }
    }
}

/// The messages that turns become, in order.
pub open spec fn turn_messages(t: Seq<Seq<EventRecord>>, spotlight: Option<&Spotlight>) -> Seq<
    MessageModel,
>
    decreases t.len(),
{
    if t.len() == 0 {
        Seq::empty()
    } else {
        turn_messages(t.drop_last(), spotlight) + messages_of(t.last(), spotlight)
    }
}

/// The history the runner receives.
pub open spec fn runner_history(
    history: Seq<EventRecord>,
    current: i64,
    spotlight: Option<&Spotlight>,
    budget: u32,
) -> Seq<MessageModel> {
    turn_messages(fitting(turns(history, current), budget as nat * 4), spotlight)
}

fn call_name(ordinal: u32) -> (r: String)
    ensures
        r@ == call_id(ordinal),
{
    let mut out: String = "call_".to_owned();
    let n: String = decimal_text(ordinal as u64);
    out.append(n.as_str());
    out
}

fn event_weight(ev: &EventRecord) -> (r: u128)
    ensures
        r == weight(*ev),
        r <= 2 * usize::MAX + 16,
{
    match (&ev.kind, &ev.payload) {
        (EventKind::UserMsg, Some(Payload::User(p))) => byte_len(p.text.as_str()) as u128,
        (EventKind::ModelTurn, Some(Payload::Model(p))) => byte_len(p.text.as_str()) as u128,
        (EventKind::ToolUse, Some(Payload::ToolUse(p))) => byte_len(p.tool_name.as_str()) as u128
            + byte_len(p.args_json.as_str()) as u128,
        (EventKind::ToolResult, Some(Payload::ToolResult(p))) => match &p.outcome {
            Ok(v) => byte_len(v.as_str()) as u128,
            Err(e) => byte_len(e.as_str()) as u128 + 16,
        },
        _ => 0,
    }
}

spec fn picked(history: Seq<EventRecord>, idx: Seq<usize>) -> Seq<EventRecord> {
    idx.map_values(|i: usize| history[i as int])
}

spec fn grouped(history: Seq<EventRecord>, groups: Seq<Vec<usize>>) -> Seq<Seq<EventRecord>> {
    groups.map_values(|g: Vec<usize>| picked(history, g@))
}

spec fn within(groups: Seq<Vec<usize>>, n: int) -> bool {
    forall|k: int, j: int|
        0 <= k < groups.len() && 0 <= j < groups[k]@.len() ==> (#[trigger] groups[k]@[j]) < n
}

/// Collects the positions of the events of each turn.
fn collect_turns(history: &[EventRecord], current: i64) -> (groups: Vec<Vec<usize>>)
    ensures
        grouped(history@, groups@) == turns(history@, current),
        within(groups@, history@.len() as int),
{
    let mut groups: Vec<Vec<usize>> = Vec::new();
    let mut i: usize = 0;
    assert(grouped(history@, groups@) =~= turns(history@.take(0), current));
    while i < history.len()
        invariant
            i <= history.len(),
            grouped(history@, groups@) == turns(history@.take(i as int), current),
            within(groups@, i as int),
        decreases history.len() - i,
    {
        let ghost before = grouped(history@, groups@);
        let ghost old_groups = groups@;
        let ev: &EventRecord = &history[i];
        assert(history@.take(i + 1).drop_last() =~= history@.take(i as int));
        assert(history@.take(i + 1).last() == *ev);
        let (starts, joins): (bool, bool) = match &ev.kind {
            EventKind::UserMsg => (true, false),
            EventKind::ModelTurn => (false, true),
            EventKind::ToolUse => (false, true),
            EventKind::ToolResult => (false, true),
            _ => (false, false),
        };
        if starts {
            if ev.seq != current {
                let mut g: Vec<usize> = Vec::new();
                g.push(i);
                groups.push(g);
                assert(picked(history@, g@) =~= seq![*ev]);
                assert(grouped(history@, groups@) =~= before.push(seq![*ev]));
            }
        } else if joins && groups.len() > 0 {
            let last: usize = groups.len() - 1;
            groups[last].push(i);
            proof {
                assert(picked(history@, groups@[last as int]@) =~= before[last as int].push(*ev));
                assert forall|k: int| 0 <= k < groups@.len() && k != last implies groups@[k]
                    == old_groups[k] by {}
                assert(grouped(history@, groups@) =~= before.update(
                    last as int,
                    before[last as int].push(*ev),
                ));
            }
        }
        i += 1;
    }
    assert(history@.take(i as int) =~= history@);
    groups
}

/// What a turn counts, up to `limit`.
fn capped_weight(history: &[EventRecord], idx: &Vec<usize>, limit: u64) -> (r: Option<u64>)
    requires
        forall|j: int| 0 <= j < idx@.len() ==> (#[trigger] idx@[j]) < history@.len(),
    ensures
        r matches Some(w) ==> w == total_weight(picked(history@, idx@)) && w <= limit,
        r is None ==> total_weight(picked(history@, idx@)) > limit,
{
    let ghost all = picked(history@, idx@);
    let mut sum: u128 = 0;
    let mut j: usize = 0;
    assert(all.take(0) =~= Seq::<EventRecord>::empty());
    while j < idx.len()
        invariant
            j <= idx.len(),
            all == picked(history@, idx@),
            forall|j: int| 0 <= j < idx@.len() ==> (#[trigger] idx@[j]) < history@.len(),
            sum == total_weight(all.take(j as int)),
            sum <= limit,
        decreases idx.len() - j,
    {
        let w: u128 = event_weight(&history[idx[j]]);
        assert(all.take(j + 1).drop_last() =~= all.take(j as int));
        sum = sum + w;
        j += 1;
        if sum > limit as u128 {
            proof {
                lemma_prefix_weight(all, j as int);
            }
            return None;
        }
    }
    assert(all.take(j as int) =~= all);
    Some(sum as u64)
}

proof fn lemma_prefix_weight(events: Seq<EventRecord>, k: int)
    requires
        0 <= k <= events.len(),
    ensures
        total_weight(events.take(k)) <= total_weight(events),
    decreases events.len(),
{
    if k == events.len() {
        assert(events.take(k) =~= events);
    } else {
        lemma_prefix_weight(events.drop_last(), k);
        assert(events.drop_last().take(k) =~= events.take(k));
    }
}

proof fn lemma_suffix_weight(t: Seq<Seq<EventRecord>>, k: int)
    requires
        0 <= k <= t.len(),
    ensures
        turns_weight(t.skip(k)) <= turns_weight(t),
    decreases k,
{
    if k == 0 {
        assert(t.skip(0) =~= t);
    } else {
        lemma_suffix_weight(t.skip(1), k - 1);
        assert(t.skip(1).skip(k - 1) =~= t.skip(k));
    }
}

proof fn lemma_fitting(t: Seq<Seq<EventRecord>>, budget: nat, k: int)
    requires
        0 <= k <= t.len(),
        turns_weight(t.skip(k)) <= budget,
        k > 0 ==> turns_weight(t.skip(k - 1)) > budget,
    ensures
        fitting(t, budget) == t.skip(k),
    decreases k,
{
    if k == 0 {
        assert(t.skip(0) =~= t);
    } else {
        lemma_suffix_weight(t, k - 1);
        let rest = t.skip(1);
        assert(rest.skip(k - 1) =~= t.skip(k));
        if k > 1 {
            assert(rest.skip(k - 2) =~= t.skip(k - 1));
        }
        lemma_fitting(rest, budget, k - 1);
    }
}

/// Finds the first turn that is kept.
fn first_kept(history: &[EventRecord], groups: &Vec<Vec<usize>>, budget: u64) -> (k: usize)
    requires
        within(groups@, history@.len() as int),
    ensures
        k <= groups@.len(),
        fitting(grouped(history@, groups@), budget as nat) == grouped(history@, groups@).skip(
            k as int,
        ),
{
    let ghost t = grouped(history@, groups@);
    let mut k: usize = groups.len();
    let mut used: u64 = 0;
    assert(turns_weight(t.skip(k as int)) == 0);
    while k > 0
        invariant
            k <= groups@.len(),
            t == grouped(history@, groups@),
            within(groups@, history@.len() as int),
            used == turns_weight(t.skip(k as int)),
            used <= budget,
        decreases k,
    {
        assert(t.skip(k - 1)[0] == picked(history@, groups@[k - 1]@));
        assert(t.skip(k - 1).skip(1) =~= t.skip(k as int));
        assert forall|j: int| 0 <= j < groups@[k - 1]@.len() implies (#[trigger] groups@[k
            - 1]@[j]) < history@.len() by {}
        match capped_weight(history, &groups[k - 1], budget - used) {
            Some(w) => {
                used = used + w;
                k -= 1;
            },
            None => {
                proof {
                    lemma_fitting(t, budget as nat, k as int);
                }
                return k;
            },
        }
    }
    proof {
        lemma_fitting(t, budget as nat, 0);
    }
    0
}

fn message_for(ev: &EventRecord, spotlight: Option<&Spotlight>) -> (r: Option<ChatMessage>)
    ensures
        (match r {
            Some(m) => Some(m@),
            None => None,
        }) == event_message(*ev, spotlight),
{
    match (&ev.kind, &ev.payload) {
        (EventKind::UserMsg, Some(Payload::User(p))) => {
            Some(ChatMessage::text(Role::User, wrap(spotlight, p.text.as_str())))
        },
        (EventKind::ToolUse, Some(Payload::ToolUse(p))) => {
            Some(
                ChatMessage::call(
                    call_name(p.ordinal),
                    p.tool_name.clone(),
                    p.args_json.clone(),
                ),
            )
        },
        (EventKind::ToolResult, Some(Payload::ToolResult(p))) => {
            let body: String = match &p.outcome {
                Ok(v) => v.clone(),
                Err(e) => json_member_to_text("error", e.as_str()),
            };
            Some(ChatMessage::tool_result(call_name(p.ordinal), body))
        },
        (EventKind::ModelTurn, Some(Payload::Model(p))) => {
            Some(ChatMessage::text(Role::Assistant, p.text.clone()))
        },
        (EventKind::ModelTurn, _) => Some(ChatMessage::text(Role::Assistant, String::new())),
        _ => None,
    }
}

/// Builds the history the runner receives: every turn but the current one, tool
/// calls and their results included, the oldest whole turns dropped until the
/// rest fits four bytes per token of `budget`.
pub fn build_runner_history_messages(
    history: &[EventRecord],
    current_user_seq: i64,
    spotlight: Option<&Spotlight>,
    budget: u32,
) -> (r: Vec<ChatMessage>)
    ensures
        message_models(r@) == runner_history(history@, current_user_seq, spotlight, budget),
{
    let groups: Vec<Vec<usize>> = collect_turns(history, current_user_seq);
    let first: usize = first_kept(history, &groups, budget as u64 * 4);
    let ghost kept = grouped(history@, groups@).skip(first as int);
    let mut out: Vec<ChatMessage> = Vec::new();
    let mut g: usize = first;
    assert(kept.take(0) =~= Seq::<Seq<EventRecord>>::empty());
    assert(message_models(out@) =~= Seq::<MessageModel>::empty());
    while g < groups.len()
        invariant
            first <= g <= groups@.len(),
            kept == grouped(history@, groups@).skip(first as int),
            within(groups@, history@.len() as int),
            message_models(out@) == turn_messages(kept.take(g - first), spotlight),
        decreases groups.len() - g,
    {
        let ghost done = turn_messages(kept.take(g - first), spotlight);
        let ghost turn = picked(history@, groups@[g as int]@);
        assert(kept.take(g - first + 1).drop_last() =~= kept.take(g - first));
        assert(kept.take(g - first + 1).last() == turn);
        let mut j: usize = 0;
        assert(turn.take(0) =~= Seq::<EventRecord>::empty());
        assert(done + Seq::<MessageModel>::empty() =~= done);
        while j < groups[g].len()
            invariant
                g < groups@.len(),
                j <= groups@[g as int]@.len(),
                turn == picked(history@, groups@[g as int]@),
                within(groups@, history@.len() as int),
                message_models(out@) == done + messages_of(turn.take(j as int), spotlight),
            decreases groups@[g as int]@.len() - j,
        {
            let ghost before = message_models(out@);
            let at: usize = groups[g][j];
            assert(turn.take(j + 1).drop_last() =~= turn.take(j as int));
            assert(turn.take(j + 1).last() == history@[at as int]);
            if let Some(m) = message_for(&history[at], spotlight) {
                out.push(m);
                assert(message_models(out@) =~= before.push(m@));
                assert(before.push(m@) =~= done + messages_of(turn.take(j as int), spotlight).push(
                    m@,
                ));
            }
            j += 1;
        }
        assert(turn.take(j as int) =~= turn);
        g += 1;
    }
    assert(kept.take(g - first) =~= kept);
    out
}

/// The kept turns are the newest ones, whole; they fit the budget or there are
/// none; and one turn more would not have fitted.
pub proof fn history_keeps_the_newest_whole_turns(t: Seq<Seq<EventRecord>>, budget: nat)
    ensures
        fitting(t, budget).len() <= t.len(),
        fitting(t, budget) == t.skip(t.len() - fitting(t, budget).len()),
        turns_weight(fitting(t, budget)) <= budget,
        fitting(t, budget).len() < t.len() ==> turns_weight(
            t.skip(t.len() - fitting(t, budget).len() - 1),
        ) > budget,
    decreases t.len(),
{
    if t.len() == 0 || turns_weight(t) <= budget {
        assert(t.skip(0) =~= t);
    } else {
        let rest = t.skip(1);
        history_keeps_the_newest_whole_turns(rest, budget);
        let n = fitting(rest, budget).len();
        assert(rest.skip(rest.len() - n) =~= t.skip(t.len() - n));
        if n < rest.len() {
            assert(rest.skip(rest.len() - n - 1) =~= t.skip(t.len() - n - 1));
        } else {
            assert(t.skip(0) =~= t);
        }
    }
}

/// No turn holds the user message of the current turn, every turn begins with
/// a user message, and every event of a turn comes from the log.
pub proof fn turns_leave_the_current_message_out(history: Seq<EventRecord>, current: i64)
    ensures
        forall|k: int, j: int|
            #![trigger turns(history, current)[k][j]]
            0 <= k < turns(history, current).len() && 0 <= j < turns(history, current)[k].len()
                ==> {
                let ev = turns(history, current)[k][j];
                &&& history.contains(ev)
                &&& !(ev.kind is UserMsg && ev.seq == current)
                &&& (j == 0 <==> ev.kind is UserMsg)
                &&& (j > 0 ==> attaches(ev.kind))
            },
        forall|k: int|
            #![trigger turns(history, current)[k]]
            0 <= k < turns(history, current).len() ==> turns(history, current)[k].len() > 0,
    decreases history.len(),
{
    if history.len() > 0 {
        let front = history.drop_last();
        turns_leave_the_current_message_out(front, current);
        let before = turns(front, current);
        let t = turns(history, current);
        let last = history.last();
        assert(history[history.len() - 1] == last);
        assert forall|k: int, j: int|
            #![trigger t[k][j]]
            0 <= k < t.len() && 0 <= j < t[k].len() implies {
            let ev = t[k][j];
            &&& history.contains(ev)
            &&& !(ev.kind is UserMsg && ev.seq == current)
            &&& (j == 0 <==> ev.kind is UserMsg)
            &&& (j > 0 ==> attaches(ev.kind))
        } by {
            let ev = t[k][j];
            if k < before.len() && j < before[k].len() {
                assert(ev == before[k][j]);
                let i = choose|i: int| 0 <= i < front.len() && front[i] == ev;
                assert(history[i] == ev);
            } else {
                assert(ev == last);
                if k < before.len() {
                    assert(before[k].len() > 0);
                }
            }
        }
    }
}

/// A turn whose results each come behind the call they answer.
pub open spec fn calls_precede_results(turn: Seq<EventRecord>) -> bool {
    forall|j: int|
        #![trigger turn[j]]
        0 <= j < turn.len() && turn[j].kind is ToolResult ==> match turn[j].payload {
            Some(Payload::ToolResult(r)) => exists|i: int|
                0 <= i < j && (#[trigger] turn[i]).kind is ToolUse && (turn[i].payload matches Some(
                    Payload::ToolUse(u),
                ) && u.ordinal == r.ordinal),
            _ => true,
        }
}

/// A message sequence in which every tool answer comes behind an assistant
/// message that bears the call it answers.
pub open spec fn answers_follow_calls(m: Seq<MessageModel>) -> bool {
    forall|j: int|
        #![trigger m[j]]
        0 <= j < m.len() && m[j].role == Role::Tool ==> exists|i: int|
            0 <= i < j && (#[trigger] m[i]).role == Role::Assistant && m[i].tool_calls.len() == 1
                && m[j].tool_call_id == Some(m[i].tool_calls[0].id)
}

proof fn lemma_call_is_materialised(
    turn: Seq<EventRecord>,
    spotlight: Option<&Spotlight>,
    i: int,
    u: ToolUsePayload,
)
    requires
        0 <= i < turn.len(),
        turn[i].kind is ToolUse,
        turn[i].payload == Some(Payload::ToolUse(u)),
    ensures
        exists|k: int|
            0 <= k < messages_of(turn, spotlight).len() && (#[trigger] messages_of(
                turn,
                spotlight,
            )[k]) == calling(call_id(u.ordinal), u.tool_name@, u.args_json@),
    decreases turn.len(),
{
    let m = messages_of(turn, spotlight);
    let front = turn.drop_last();
    if i == turn.len() - 1 {
        assert(m[m.len() - 1] == calling(call_id(u.ordinal), u.tool_name@, u.args_json@));
    } else {
        assert(front[i] == turn[i]);
        lemma_call_is_materialised(front, spotlight, i, u);
        let before = messages_of(front, spotlight);
        let k = choose|k: int|
            0 <= k < before.len() && (#[trigger] before[k]) == calling(
                call_id(u.ordinal),
                u.tool_name@,
                u.args_json@,
            );
        assert(m[k] == before[k]);
    }
}

proof fn lemma_turn_answers_follow_calls(turn: Seq<EventRecord>, spotlight: Option<&Spotlight>)
    requires
        calls_precede_results(turn),
    ensures
        answers_follow_calls(messages_of(turn, spotlight)),
    decreases turn.len(),
{
    if turn.len() > 0 {
        let front = turn.drop_last();
        let last = turn.last();
        assert forall|j: int|
            #![trigger front[j]]
            0 <= j < front.len() && front[j].kind is ToolResult implies match front[j].payload {
            Some(Payload::ToolResult(r)) => exists|i: int|
                0 <= i < j && (#[trigger] front[i]).kind is ToolUse && (
                front[i].payload matches Some(Payload::ToolUse(u)) && u.ordinal == r.ordinal),
            _ => true,
        } by {
            assert(front[j] == turn[j]);
            if let Some(Payload::ToolResult(r)) = front[j].payload {
                let i = choose|i: int|
                    0 <= i < j && (#[trigger] turn[i]).kind is ToolUse && (
                    turn[i].payload matches Some(Payload::ToolUse(u)) && u.ordinal == r.ordinal);
                assert(front[i] == turn[i]);
            }
        }
        lemma_turn_answers_follow_calls(front, spotlight);
        let before = messages_of(front, spotlight);
        let m = messages_of(turn, spotlight);
        assert forall|j: int|
            #![trigger m[j]]
            0 <= j < m.len() && m[j].role == Role::Tool implies exists|i: int|
            0 <= i < j && (#[trigger] m[i]).role == Role::Assistant && m[i].tool_calls.len() == 1
                && m[j].tool_call_id == Some(m[i].tool_calls[0].id) by {
            if j < before.len() {
                assert(m[j] == before[j]);
                let i = choose|i: int|
                    0 <= i < j && (#[trigger] before[i]).role == Role::Assistant
                        && before[i].tool_calls.len() == 1 && before[j].tool_call_id == Some(
                        before[i].tool_calls[0].id,
                    );
                assert(m[i] == before[i]);
            } else {
                assert(turn[turn.len() - 1] == last);
                if let Some(Payload::ToolResult(r)) = last.payload {
                    let i = choose|i: int|
                        0 <= i < turn.len() - 1 && (#[trigger] turn[i]).kind is ToolUse && (
                        turn[i].payload matches Some(Payload::ToolUse(u)) && u.ordinal
                            == r.ordinal);
                    if let Some(Payload::ToolUse(u)) = turn[i].payload {
                        assert(front[i] == turn[i]);
                        lemma_call_is_materialised(front, spotlight, i, u);
                        let k = choose|k: int|
                            0 <= k < before.len() && (#[trigger] before[k]) == calling(
                                call_id(u.ordinal),
                                u.tool_name@,
                                u.args_json@,
                            );
                        assert(m[k] == before[k]);
                    }
                }
            }
        }
    }
}

/// Where every turn of the log has its calls in front of their results, every
/// tool answer in the history comes behind the assistant message that bears its
/// call, however many turns are dropped.
pub proof fn history_never_orphans_a_tool_answer(
    t: Seq<Seq<EventRecord>>,
    spotlight: Option<&Spotlight>,
)
    requires
        forall|k: int| 0 <= k < t.len() ==> calls_precede_results(#[trigger] t[k]),
    ensures
        answers_follow_calls(turn_messages(t, spotlight)),
    decreases t.len(),
{
    if t.len() > 0 {
        let front = t.drop_last();
        assert forall|k: int| 0 <= k < front.len() implies calls_precede_results(
            #[trigger] front[k],
        ) by {
            assert(front[k] == t[k]);
        }
        history_never_orphans_a_tool_answer(front, spotlight);
        assert(calls_precede_results(t[t.len() - 1]));
        lemma_turn_answers_follow_calls(t.last(), spotlight);
        let a = turn_messages(front, spotlight);
        let b = messages_of(t.last(), spotlight);
        let m = turn_messages(t, spotlight);
        assert forall|j: int|
            #![trigger m[j]]
            0 <= j < m.len() && m[j].role == Role::Tool implies exists|i: int|
            0 <= i < j && (#[trigger] m[i]).role == Role::Assistant && m[i].tool_calls.len() == 1
                && m[j].tool_call_id == Some(m[i].tool_calls[0].id) by {
            if j < a.len() {
                assert(m[j] == a[j]);
                let i = choose|i: int|
                    0 <= i < j && (#[trigger] a[i]).role == Role::Assistant && a[i].tool_calls.len()
                        == 1 && a[j].tool_call_id == Some(a[i].tool_calls[0].id);
                assert(m[i] == a[i]);
            } else {
                let jj = j - a.len();
                assert(m[j] == b[jj]);
                let i = choose|i: int|
                    0 <= i < jj && (#[trigger] b[i]).role == Role::Assistant
                        && b[i].tool_calls.len() == 1 && b[jj].tool_call_id == Some(
                        b[i].tool_calls[0].id,
                    );
                assert(m[a.len() + i] == b[i]);
            }
        }
    }
}

/// An event is shown as what it holds, by who said it: a user's words as the user's, between
/// the marks where there are any; a call as an assistant message that bears that one call; a
/// result as the tool's answer to the call of its ordinal, whose content is the result
/// itself, or the object that names the error; a model's words as the assistant's.
pub proof fn events_are_shown_as_what_they_hold(ev: EventRecord, spotlight: Option<&Spotlight>)
    ensures
        ev.kind is UserMsg ==> (ev.payload matches Some(Payload::User(p)) ==> (event_message(
            ev,
            spotlight,
        ) matches Some(m) && m.role == Role::User && m.tool_calls.len() == 0 && m.tool_call_id is None
            && m.content == (match spotlight {
            Some(s) => s.before@ + p.text@ + s.after@,
            None => p.text@,
        }))),
        ev.kind is ToolUse ==> (ev.payload matches Some(Payload::ToolUse(p)) ==> (event_message(
            ev,
            spotlight,
        ) matches Some(m) && m.role == Role::Assistant && m.content.len() == 0
            && m.tool_calls.len() == 1 && m.tool_calls[0].id == "call_"@ + decimal(
            p.ordinal as nat,
        ) && m.tool_calls[0].kind == "function"@ && m.tool_calls[0].name == p.tool_name@
            && m.tool_calls[0].arguments == p.args_json@)),
        ev.kind is ToolResult ==> (ev.payload matches Some(Payload::ToolResult(p)) ==> (
        event_message(ev, spotlight) matches Some(m) && m.role == Role::Tool
            && m.tool_calls.len() == 0 && m.tool_call_id == Some(
            "call_"@ + decimal(p.ordinal as nat),
        ) && (p.outcome matches Ok(v) ==> m.content == v@) && (p.outcome matches Err(e)
            ==> m.content == json_member_text("error"@, e@)))),
        ev.kind is ModelTurn ==> (ev.payload matches Some(Payload::Model(p)) ==> (event_message(
            ev,
            spotlight,
        ) matches Some(m) && m.role == Role::Assistant && m.content == p.text@
            && m.tool_calls.len() == 0)),
        !(ev.kind is UserMsg || attaches(ev.kind)) ==> event_message(ev, spotlight) is None,
{
}

proof fn lemma_event_is_shown(events: Seq<EventRecord>, spotlight: Option<&Spotlight>, j: int)
    requires
        0 <= j < events.len(),
    ensures
        event_message(events[j], spotlight) matches Some(m) ==> messages_of(
            events,
            spotlight,
        ).contains(m),
    decreases events.len(),
{
    let front = events.drop_last();
    let before = messages_of(front, spotlight);
    let all = messages_of(events, spotlight);
    if let Some(m) = event_message(events[j], spotlight) {
        if j == events.len() - 1 {
            assert(all[all.len() - 1] == m);
        } else {
            assert(front[j] == events[j]);
            lemma_event_is_shown(front, spotlight, j);
            let k = choose|k: int| 0 <= k < before.len() && before[k] == m;
            assert(all[k] == m);
        }
    }
}

proof fn lemma_turn_is_shown(t: Seq<Seq<EventRecord>>, spotlight: Option<&Spotlight>, k: int, j: int)
    requires
        0 <= k < t.len(),
        0 <= j < t[k].len(),
    ensures
        event_message(t[k][j], spotlight) matches Some(m) ==> turn_messages(t, spotlight).contains(
            m,
        ),
    decreases t.len(),
{
    let front = t.drop_last();
    let a = turn_messages(front, spotlight);
    let b = messages_of(t.last(), spotlight);
    let all = turn_messages(t, spotlight);
    if let Some(m) = event_message(t[k][j], spotlight) {
        if k == t.len() - 1 {
            lemma_event_is_shown(t.last(), spotlight, j);
            let i = choose|i: int| 0 <= i < b.len() && b[i] == m;
            assert(all[a.len() + i] == m);
        } else {
            assert(front[k] == t[k]);
            lemma_turn_is_shown(front, spotlight, k, j);
            let i = choose|i: int| 0 <= i < a.len() && a[i] == m;
            assert(all[i] == m);
        }
    }
}

/// In the history of any log, every successful result of a kept turn is shown as a tool's
/// message whose content is exactly that result and which answers the call of its ordinal.
pub proof fn a_kept_result_is_shown_whole(
    history: Seq<EventRecord>,
    current: i64,
    spotlight: Option<&Spotlight>,
    budget: u32,
    k: int,
    j: int,
    p: ToolResultPayload,
    v: String,
)
    requires
        0 <= k < fitting(turns(history, current), budget as nat * 4).len(),
        0 <= j < fitting(turns(history, current), budget as nat * 4)[k].len(),
        fitting(turns(history, current), budget as nat * 4)[k][j].kind is ToolResult,
        fitting(turns(history, current), budget as nat * 4)[k][j].payload == Some(
            Payload::ToolResult(p),
        ),
        p.outcome == Ok::<String, String>(v),
    ensures
        exists|i: int|
            0 <= i < runner_history(history, current, spotlight, budget).len() && (
            #[trigger] runner_history(history, current, spotlight, budget)[i]).role == Role::Tool
                && runner_history(history, current, spotlight, budget)[i].content == v@
                && runner_history(history, current, spotlight, budget)[i].tool_call_id == Some(
                "call_"@ + decimal(p.ordinal as nat),
            ),
{
    let t = fitting(turns(history, current), budget as nat * 4);
    lemma_turn_is_shown(t, spotlight, k, j);
    events_are_shown_as_what_they_hold(t[k][j], spotlight);
    let m = event_message(t[k][j], spotlight)->0;
    let all = runner_history(history, current, spotlight, budget);
    let i = choose|i: int| 0 <= i < all.len() && all[i] == m;
    assert(all[i].role == Role::Tool);
}

/// Every event that a model may see belongs to a turn, once a user's message that is not
/// the current one stands in front of it: no call, result or answer is lost.
pub proof fn no_event_of_a_turn_is_lost(
    history: Seq<EventRecord>,
    current: i64,
    first: int,
    i: int,
)
    requires
        0 <= first <= i < history.len(),
        history[first].kind is UserMsg,
        history[first].seq != current,
        history[i].kind is ModelTurn || history[i].kind is ToolUse || history[i].kind is ToolResult
            || (history[i].kind is UserMsg && history[i].seq != current),
    ensures
        exists|k: int, j: int|
            #![trigger turns(history, current)[k][j]]
            0 <= k < turns(history, current).len() && 0 <= j < turns(history, current)[k].len()
                && turns(history, current)[k][j] == history[i],
    decreases history.len(),
{
    let front = history.drop_last();
    let before = turns(front, current);
    let t = turns(history, current);
    let last = history.last();
    if i == history.len() - 1 {
        if last.kind is UserMsg {
            assert(t[t.len() - 1][0] == last);
        } else {
            assert(front[first] == history[first]);
            no_event_of_a_turn_is_lost(front, current, first, first);
            let n = before.len() - 1;
            assert(t[n][before[n].len() as int] == last);
        }
    } else {
        assert(front[first] == history[first]);
        assert(front[i] == history[i]);
        no_event_of_a_turn_is_lost(front, current, first, i);
        let (k, j) = choose|k: int, j: int|
            #![trigger before[k][j]]
            0 <= k < before.len() && 0 <= j < before[k].len() && before[k][j] == history[i];
        assert(t[k][j] == before[k][j]);
    }
}

/// A budget that all turns fit keeps all of them, and every event of theirs is shown: each
/// successful result behind a user's message that is not the current one is there, whole
/// and under its call.
pub proof fn a_large_budget_shows_every_result(
    history: Seq<EventRecord>,
    current: i64,
    spotlight: Option<&Spotlight>,
    budget: u32,
    first: int,
    i: int,
    p: ToolResultPayload,
    v: String,
)
    requires
        turns_weight(turns(history, current)) <= budget * 4,
        0 <= first < i < history.len(),
        history[first].kind is UserMsg,
        history[first].seq != current,
        history[i].kind is ToolResult,
        history[i].payload == Some(Payload::ToolResult(p)),
        p.outcome == Ok::<String, String>(v),
    ensures
        exists|n: int|
            0 <= n < runner_history(history, current, spotlight, budget).len() && (
            #[trigger] runner_history(history, current, spotlight, budget)[n]).role == Role::Tool
                && runner_history(history, current, spotlight, budget)[n].content == v@
                && runner_history(history, current, spotlight, budget)[n].tool_call_id == Some(
                "call_"@ + decimal(p.ordinal as nat),
            ),
{
    no_event_of_a_turn_is_lost(history, current, first, i);
    let t = turns(history, current);
    let (k, j) = choose|k: int, j: int|
        #![trigger t[k][j]]
        0 <= k < t.len() && 0 <= j < t[k].len() && t[k][j] == history[i];
    assert(fitting(t, budget as nat * 4) == t);
    a_kept_result_is_shown_whole(history, current, spotlight, budget, k, j, p, v);
}

/// What an event counts against the budget is the length of what a model is shown of it.
pub proof fn events_count_by_their_length(ev: EventRecord)
    ensures
        ev.kind is UserMsg ==> (ev.payload matches Some(Payload::User(p)) ==> weight(ev)
            == byte_count(p.text@)),
        ev.kind is ModelTurn ==> (ev.payload matches Some(Payload::Model(p)) ==> weight(ev)
            == byte_count(p.text@)),
        ev.kind is ToolUse ==> (ev.payload matches Some(Payload::ToolUse(p)) ==> weight(ev)
            == byte_count(p.tool_name@) + byte_count(p.args_json@)),
        ev.kind is ToolResult ==> (ev.payload matches Some(Payload::ToolResult(p)) ==> (
        p.outcome matches Ok(v) ==> weight(ev) == byte_count(v@))),
        ev.kind is ToolResult ==> (ev.payload matches Some(Payload::ToolResult(p)) ==> (
        p.outcome matches Err(e) ==> weight(ev) == byte_count(e@) + 16)),
        ev.payload is None ==> weight(ev) == 0,
{
}

/// The budget counts every event once: turns weigh together what each of them weighs.
pub proof fn a_turn_weighs_what_its_events_weigh(
    events: Seq<EventRecord>,
    ev: EventRecord,
    t: Seq<Seq<EventRecord>>,
)
    ensures
        total_weight(Seq::empty()) == 0,
        total_weight(events.push(ev)) == total_weight(events) + weight(ev),
        turns_weight(Seq::empty()) == 0,
        turns_weight(seq![events] + t) == total_weight(events) + turns_weight(t),
{
    assert(events.push(ev).drop_last() =~= events);
    assert((seq![events] + t).skip(1) =~= t);
}

} // verus!
