//! The supervisor of the always-on child agents: which of them run, what a run asks
//! the model, and what becomes of its answer.

use vstd::prelude::*;
use crate::agents_admin::AgentView;
use crate::backend_spec::BackendPurpose;
use crate::chat_types::{message_models, plain, ChatMessage, Role};
use crate::text::{ascii_lowercase, join, joined, opt_view, same, texts, to_ascii_lowercase};

verus! {

/// The seconds between two looks at the agents.
pub const DEFAULT_TICK_SECS: u64 = 5;

/// How many messages one run takes from the mailbox.
pub const MAILBOX_BATCH: usize = 32;

/// An agent runs while it is enabled and not paused.
pub open spec fn runnable(agent: AgentView) -> bool {
    agent.enabled && !agent.paused
}

/// The positions of the agents that run, in order.
pub open spec fn runnable_positions(agents: Seq<AgentView>) -> Seq<int>
    decreases agents.len(),
{
    if agents.len() == 0 {
        Seq::empty()
    } else {
        let before = runnable_positions(agents.drop_last());
        if runnable(agents.last()) {
            before.push(agents.len() - 1)
        } else {
            before
        }
    }
}

/// The positions of the agents that a look at them starts, in order.
pub fn tick_once(agents: &[AgentView]) -> (r: Vec<usize>)
    ensures
        r@.map_values(|i: usize| i as int) == runnable_positions(agents@),
{
    let mut out: Vec<usize> = Vec::new();
    let mut i: usize = 0;
    assert(out@.map_values(|i: usize| i as int) =~= runnable_positions(agents@.take(0)));
    while i < agents.len()
        invariant
            i <= agents.len(),
            out@.map_values(|i: usize| i as int) == runnable_positions(agents@.take(i as int)),
        decreases agents.len() - i,
    {
        let ghost before = out@.map_values(|i: usize| i as int);
        assert(agents@.take(i + 1).drop_last() =~= agents@.take(i as int));
        assert(agents@.take(i + 1).last() == agents@[i as int]);
        if agents[i].enabled && !agents[i].paused {
            out.push(i);
            assert(out@.map_values(|i: usize| i as int) =~= before.push(i as int));
        }
        i += 1;
    }
    assert(agents@.take(i as int) =~= agents@);
    out
}

/// A message in an agent's mailbox.
#[derive(Debug)]
pub struct MailboxMessage {
    pub id: String,
    pub direction: String,
    pub content: String,
    pub parent_agent_id: Option<String>,
}

/// A message as the prompt quotes it.
pub open spec fn quoted(m: MailboxMessage) -> Seq<char> {
    "["@ + m.direction@ + "] "@ + m.content@
}

/// The mailbox as the prompt quotes it: a message per line.
pub open spec fn mailbox_text(messages: Seq<MailboxMessage>) -> Seq<char> {
    joined(messages.map_values(|m: MailboxMessage| quoted(m)), "\n"@)
}

/// What a run is asked to do.
pub open spec fn prompt_for(messages: Seq<MailboxMessage>) -> Seq<char> {
    if mailbox_text(messages).len() == 0 {
        "No new mailbox messages. Perform your scheduled responsibility and report only useful changes."@
    } else {
        "Mailbox:\n"@ + mailbox_text(messages)
            + "\n\nProcess these messages and report the result."@
    }
}

fn quote_all(messages: &Vec<MailboxMessage>) -> (r: Vec<String>)
    ensures
        texts(r@) == messages@.map_values(|m: MailboxMessage| quoted(m)),
{
    let mut lines: Vec<String> = Vec::new();
    let mut i: usize = 0;
    while i < messages.len()
        invariant
            i <= messages.len(),
            lines@.len() == i,
            forall|j: int| 0 <= j < i ==> (#[trigger] lines@[j])@ == quoted(messages@[j]),
        decreases messages.len() - i,
    {
        let mut line: String = "[".to_owned();
        line.append(messages[i].direction.as_str());
        line.append("] ");
        line.append(messages[i].content.as_str());
        assert(line@ == quoted(messages@[i as int]));
        lines.push(line);
        i += 1;
    }
    assert(texts(lines@) =~= messages@.map_values(|m: MailboxMessage| quoted(m)));
    lines
}

/// The prompt of a run.
pub fn run_prompt(messages: &Vec<MailboxMessage>) -> (r: String)
    ensures
        r@ == prompt_for(messages@),
{
    let lines: Vec<String> = quote_all(messages);
    let mailbox: String = join(&lines, "\n");
    if mailbox.as_str().unicode_len() == 0 {
        "No new mailbox messages. Perform your scheduled responsibility and report only useful changes.".to_owned()
    } else {
        let mut out: String = "Mailbox:\n".to_owned();
        out.append(mailbox.as_str());
        out.append("\n\nProcess these messages and report the result.");
        out
    }
}

/// What a run asks the model.
#[derive(Debug)]
pub struct AgentRun {
    pub model: String,
    pub messages: Vec<ChatMessage>,
    pub max_tokens: u32,
    pub max_runtime_secs: u32,
    pub mailbox_count: usize,
}

/// What a run asks the model: the agent's role, then the mailbox, within the agent's
/// budget and with its own model where it names one.
pub open spec fn asks(
    run: AgentRun,
    agent: AgentView,
    messages: Seq<MailboxMessage>,
    resolved_model: Seq<char>,
) -> bool {
    &&& run.model@ == match agent.model {
        Some(m) => m@,
        None => resolved_model,
    }
    &&& message_models(run.messages@) == seq![
        plain(Role::System, agent.role_prompt@),
        plain(Role::User, prompt_for(messages)),
    ]
    &&& run.max_tokens == agent.token_budget
    &&& run.max_runtime_secs == agent.max_runtime_secs
    &&& run.mailbox_count == messages.len()
}

/// Prepares a run of an agent. `resolved_model` is the model of the backend that
/// serves it, where one does.
pub fn run_agent(
    agent: &AgentView,
    messages: &Vec<MailboxMessage>,
    resolved_model: Option<&str>,
) -> (r: Result<AgentRun, String>)
    ensures
        resolved_model matches Some(m) ==> (r matches Ok(run) && asks(run, *agent, messages@, m@)),
        resolved_model is None ==> (r matches Err(e) && e@ == "no inference backend configured"@),
{
    let resolved: &str = match resolved_model {
        Some(m) => m,
        None => {
            return Err("no inference backend configured".to_owned());
        },
    };
    let model: String = match &agent.model {
        Some(m) => m.clone(),
        None => resolved.to_owned(),
    };
    let mut chat: Vec<ChatMessage> = Vec::new();
    chat.push(ChatMessage::text(Role::System, agent.role_prompt.clone()));
    chat.push(ChatMessage::text(Role::User, run_prompt(messages)));
    assert(message_models(chat@) =~= seq![
        plain(Role::System, agent.role_prompt@),
        plain(Role::User, prompt_for(messages@)),
    ]);
    Ok(
        AgentRun {
            model,
            messages: chat,
            max_tokens: agent.token_budget,
            max_runtime_secs: agent.max_runtime_secs,
            mailbox_count: messages.len(),
        },
    )
}

/// What came of asking the model.
#[derive(Debug)]
pub enum RunResult {
    /// The model answered: the text of its first choice, and the tokens it took.
    Answer { text: Option<String>, tokens: Option<u32> },
    /// The backend failed.
    Failed(String),
    /// The run took too long.
    TimedOut,
}

/// What is written when a run ends.
#[derive(Debug)]
pub struct RunEnd {
    pub status: String,
    pub finished_at: i64,
    pub next_run_at: i64,
    pub tokens: Option<u32>,
    pub output: Option<String>,
    pub error: Option<String>,
    /// The messages that the run has dealt with.
    pub delivered: Vec<String>,
    /// The agents that the answer goes to, in order.
    pub parents: Vec<String>,
}

/// A sum that stays in the range of the clock.
pub open spec fn later(now: i64, secs: int) -> i64 {
    if now + secs > i64::MAX {
        i64::MAX
    } else {
        (now + secs) as i64
    }
}

/// The agents that sent the messages, in order.
pub open spec fn parents_of(messages: Seq<MailboxMessage>) -> Seq<Seq<char>>
    decreases messages.len(),
{
    if messages.len() == 0 {
        Seq::empty()
    } else {
        let before = parents_of(messages.drop_last());
        match messages.last().parent_agent_id {
            Some(p) => before.push(p@),
            None => before,
        }
    }
}

fn collect_parents(messages: &Vec<MailboxMessage>) -> (r: Vec<String>)
    ensures
        texts(r@) == parents_of(messages@),
{
    let mut out: Vec<String> = Vec::new();
    let mut i: usize = 0;
    assert(texts(out@) =~= parents_of(messages@.take(0)));
    while i < messages.len()
        invariant
            i <= messages.len(),
            texts(out@) == parents_of(messages@.take(i as int)),
        decreases messages.len() - i,
    {
        let ghost before = texts(out@);
        assert(messages@.take(i + 1).drop_last() =~= messages@.take(i as int));
        assert(messages@.take(i + 1).last() == messages@[i as int]);
        match &messages[i].parent_agent_id {
            Some(p) => {
                out.push(p.clone());
                assert(texts(out@) =~= before.push(p@));
            },
            None => {},
        }
        i += 1;
    }
    assert(messages@.take(i as int) =~= messages@);
    out
}

fn collect_ids(messages: &Vec<MailboxMessage>) -> (r: Vec<String>)
    ensures
        texts(r@) == messages@.map_values(|m: MailboxMessage| m.id@),
{
    let mut out: Vec<String> = Vec::new();
    let mut i: usize = 0;
    while i < messages.len()
        invariant
            i <= messages.len(),
            out@.len() == i,
            forall|j: int| 0 <= j < i ==> (#[trigger] out@[j])@ == messages@[j].id@,
        decreases messages.len() - i,
    {
        out.push(messages[i].id.clone());
        i += 1;
    }
    assert(texts(out@) =~= messages@.map_values(|m: MailboxMessage| m.id@));
    out
}

/// A run that went well: the messages are dealt with, the answer goes to every agent
/// that wrote, and the next run is one interval away.
pub open spec fn succeeded(
    end: RunEnd,
    text: Option<String>,
    tokens: Option<u32>,
    messages: Seq<MailboxMessage>,
    interval_secs: u32,
    now: i64,
) -> bool {
    &&& end.status@ == "success"@
    &&& end.finished_at == now
    &&& end.next_run_at == later(now, interval_secs as int)
    &&& end.tokens == tokens
    &&& opt_view(end.output) == Some(
        match text {
            Some(t) => t@,
            None => Seq::empty(),
        },
    )
    &&& end.error is None
    &&& texts(end.delivered@) == messages.map_values(|m: MailboxMessage| m.id@)
    &&& texts(end.parents@) == parents_of(messages)
}

/// A run that failed: the messages stay, nobody hears of it, and the next run is two
/// intervals away.
pub open spec fn failed(end: RunEnd, cause: Seq<char>, interval_secs: u32, now: i64) -> bool {
    &&& end.status@ == "failed"@
    &&& end.finished_at == now
    &&& end.next_run_at == later(now, 2 * interval_secs)
    &&& end.tokens is None
    &&& end.output is None
    &&& opt_view(end.error) == Some(cause)
    &&& end.delivered@.len() == 0
    &&& end.parents@.len() == 0
}

fn add_secs(now: i64, secs: i64) -> (r: i64)
    requires
        0 <= secs,
    ensures
        r == later(now, secs as int),
{
    if now > i64::MAX - secs {
        i64::MAX
    } else {
        now + secs
    }
}

/// Ends a run that failed.
pub fn finish_error(cause: String, interval_secs: u32, now: i64) -> (r: RunEnd)
    ensures
        failed(r, cause@, interval_secs, now),
{
    RunEnd {
        status: "failed".to_owned(),
        finished_at: now,
        next_run_at: add_secs(now, interval_secs as i64 * 2),
        tokens: None,
        output: None,
        error: Some(cause),
        delivered: Vec::new(),
        parents: Vec::new(),
    }
}

/// Ends a run.
pub fn finish_run(
    result: RunResult,
    messages: &Vec<MailboxMessage>,
    interval_secs: u32,
    now: i64,
) -> (r: RunEnd)
    ensures
        match result {
            RunResult::Answer { text, tokens } => succeeded(
                r,
                text,
                tokens,
                messages@,
                interval_secs,
                now,
            ),
            RunResult::Failed(e) => failed(r, "inference: "@ + e@, interval_secs, now),
            RunResult::TimedOut => failed(r, "runtime budget exceeded"@, interval_secs, now),
        },
{
    match result {
        RunResult::Answer { text, tokens } => {
            let output: String = match text {
                Some(t) => t,
                None => String::new(),
            };
            RunEnd {
                status: "success".to_owned(),
                finished_at: now,
                next_run_at: add_secs(now, interval_secs as i64),
                tokens,
                output: Some(output),
                error: None,
                delivered: collect_ids(messages),
                parents: collect_parents(messages),
            }
        },
        RunResult::Failed(e) => {
            let mut cause: String = "inference: ".to_owned();
            cause.append(e.as_str());
            finish_error(cause, interval_secs, now)
        },
        RunResult::TimedOut => finish_error(
            "runtime budget exceeded".to_owned(),
            interval_secs,
            now,
        ),
    }
}

/// An agent that fails waits at least as long as one that succeeds, and neither runs
/// before it ended.
pub proof fn failures_wait_longer(now: i64, interval_secs: u32)
    ensures
        now <= later(now, interval_secs as int) <= later(now, 2 * interval_secs),
{
}

/// The backend that a name in an agent's definition stands for, whatever its case;
/// an unknown name stands for the standard one.
pub open spec fn purpose_of(name: Seq<char>) -> BackendPurpose {
    let lower = ascii_lowercase(name);
    if lower == "small"@ {
        BackendPurpose::Small
    } else if lower == "vision"@ {
        BackendPurpose::Vision
    } else if lower == "voice_stt"@ {
        BackendPurpose::VoiceStt
    } else if lower == "voice_tts"@ {
        BackendPurpose::VoiceTts
    } else {
        BackendPurpose::Standard
    }
}

/// The backend that a name in an agent's definition stands for.
pub fn parse_purpose(value: &str) -> (r: BackendPurpose)
    ensures
        r == purpose_of(value@),
{
    let lower: String = to_ascii_lowercase(value);
    if same(lower.as_str(), "small") {
        BackendPurpose::Small
    } else if same(lower.as_str(), "vision") {
        BackendPurpose::Vision
    } else if same(lower.as_str(), "voice_stt") {
        BackendPurpose::VoiceStt
    } else if same(lower.as_str(), "voice_tts") {
        BackendPurpose::VoiceTts
    } else {
        BackendPurpose::Standard
    }
}

/// A look at the agents starts an agent exactly where it is enabled and not paused, each
/// once and in order.
pub proof fn a_look_starts_every_agent_that_runs(agents: Seq<AgentView>, i: int)
    requires
        0 <= i < agents.len(),
    ensures
        runnable_positions(agents).contains(i) <==> agents[i].enabled && !agents[i].paused,
        forall|a: int, b: int|
            #![trigger runnable_positions(agents)[a], runnable_positions(agents)[b]]
            0 <= a < b < runnable_positions(agents).len() ==> runnable_positions(agents)[a]
                < runnable_positions(agents)[b],
        forall|a: int|
            #![trigger runnable_positions(agents)[a]]
            0 <= a < runnable_positions(agents).len() ==> 0 <= runnable_positions(agents)[a]
                < agents.len(),
    decreases agents.len(),
{
    let front = agents.drop_last();
    let before = runnable_positions(front);
    let all = runnable_positions(agents);
    let n = agents.len() - 1;
    if front.len() > 0 {
        a_look_starts_every_agent_that_runs(front, 0);
        if i < n {
            a_look_starts_every_agent_that_runs(front, i);
            assert(front[i] == agents[i]);
        }
    }
    if before.contains(i) {
        let k = choose|k: int| 0 <= k < before.len() && before[k] == i;
        assert(all[k] == i);
    }
    if runnable(agents.last()) {
        assert(all[all.len() - 1] == n);
    }
    if all.contains(i) {
        let k = choose|k: int| 0 <= k < all.len() && all[k] == i;
        if k < before.len() {
            assert(before[k] == i);
        }
    }
    if i == n && before.contains(n) {
        let k = choose|k: int| 0 <= k < before.len() && before[k] == n;
        assert(before[k] < front.len());
    }
}

/// A run is told of every message in its mailbox, with its direction, and of nothing else; an
/// empty mailbox is said to be empty.
pub proof fn a_run_is_told_of_its_mailbox(messages: Seq<MailboxMessage>, m: MailboxMessage)
    ensures
        quoted(m) == "["@ + m.direction@ + "] "@ + m.content@,
        messages.len() == 0 ==> prompt_for(messages)
            == "No new mailbox messages. Perform your scheduled responsibility and report only useful changes."@,
        messages == seq![m] ==> prompt_for(messages) == "Mailbox:\n"@ + quoted(m)
            + "\n\nProcess these messages and report the result."@,
        messages.len() > 0 ==> mailbox_text(messages.push(m)) == mailbox_text(messages) + "\n"@
            + quoted(m),
{
    let lines = messages.map_values(|x: MailboxMessage| quoted(x));
    let more = messages.push(m).map_values(|x: MailboxMessage| quoted(x));
    assert(more.drop_last() =~= lines);
    reveal_strlit("[");
    if messages == seq![m] {
        assert(lines =~= seq![quoted(m)]);
        assert(quoted(m)[0] == '[');
    }
}

/// A run asks the agent's own model, or the backend's where it names none, as the agent's
/// role and within the agent's limits.
pub proof fn a_run_keeps_to_its_agent(
    run: AgentRun,
    agent: AgentView,
    messages: Seq<MailboxMessage>,
    resolved_model: Seq<char>,
)
    requires
        asks(run, agent, messages, resolved_model),
    ensures
        agent.model matches Some(own) ==> run.model@ == own@,
        agent.model is None ==> run.model@ == resolved_model,
        run.messages@.len() == 2,
        run.messages@[0].role == Role::System && run.messages@[0].content@ == agent.role_prompt@,
        run.messages@[1].role == Role::User && run.messages@[1].content@ == prompt_for(messages),
        run.max_tokens == agent.token_budget,
        run.max_runtime_secs == agent.max_runtime_secs,
{
    let models = message_models(run.messages@);
    assert(models.len() == 2);
    assert(models[0] == run.messages@[0]@);
    assert(models[1] == run.messages@[1]@);
}

/// A run that went well deals with every message it was given and answers every agent that
/// wrote, each in order; the next run is one interval away.
pub proof fn a_good_run_answers_everybody(
    end: RunEnd,
    text: Option<String>,
    tokens: Option<u32>,
    messages: Seq<MailboxMessage>,
    interval_secs: u32,
    now: i64,
    i: int,
)
    requires
        succeeded(end, text, tokens, messages, interval_secs, now),
        0 <= i < messages.len(),
    ensures
        end.delivered@.len() == messages.len(),
        end.delivered@[i]@ == messages[i].id@,
        messages[i].parent_agent_id matches Some(p) ==> texts(end.parents@).contains(p@),
        end.error is None,
        end.tokens == tokens,
        text matches Some(t) ==> opt_view(end.output) == Some(t@),
        end.finished_at == now,
        now + interval_secs <= i64::MAX ==> end.next_run_at == now + interval_secs,
{
    let ids = messages.map_values(|m: MailboxMessage| m.id@);
    let told = texts(end.delivered@);
    assert(told == ids);
    assert(told.len() == end.delivered@.len());
    assert(ids.len() == messages.len());
    assert(told[i] == end.delivered@[i]@);
    assert(ids[i] == messages[i].id@);
    lemma_parent_is_listed(messages, i);
}

proof fn lemma_parent_is_listed(messages: Seq<MailboxMessage>, i: int)
    requires
        0 <= i < messages.len(),
    ensures
        messages[i].parent_agent_id matches Some(p) ==> parents_of(messages).contains(p@),
    decreases messages.len(),
{
    let front = messages.drop_last();
    let before = parents_of(front);
    let all = parents_of(messages);
    if let Some(p) = messages[i].parent_agent_id {
        if i == messages.len() - 1 {
            assert(all[all.len() - 1] == p@);
        } else {
            assert(front[i] == messages[i]);
            lemma_parent_is_listed(front, i);
            let k = choose|k: int| 0 <= k < before.len() && before[k] == p@;
            assert(all[k] == p@);
        }
    }
}

/// A run that failed keeps its messages, tells nobody but the record why, and is tried again
/// two intervals later.
pub proof fn a_failed_run_keeps_its_messages(
    end: RunEnd,
    cause: Seq<char>,
    interval_secs: u32,
    now: i64,
)
    requires
        failed(end, cause, interval_secs, now),
    ensures
        end.delivered@.len() == 0,
        end.parents@.len() == 0,
        end.output is None,
        end.error matches Some(e) && e@ == cause,
        now + 2 * interval_secs <= i64::MAX ==> end.next_run_at == now + 2 * interval_secs,
{
}

/// The name of a backend stands for that backend, and any other name for the standard one.
pub proof fn purposes_are_called_by_their_names(name: Seq<char>)
    ensures
        ascii_lowercase(name) == "small"@ ==> purpose_of(name) == BackendPurpose::Small,
        ascii_lowercase(name) == "vision"@ ==> purpose_of(name) == BackendPurpose::Vision,
        ascii_lowercase(name) == "voice_stt"@ ==> purpose_of(name) == BackendPurpose::VoiceStt,
        ascii_lowercase(name) == "voice_tts"@ ==> purpose_of(name) == BackendPurpose::VoiceTts,
        ascii_lowercase(name) != "small"@ && ascii_lowercase(name) != "vision"@ && ascii_lowercase(
            name,
        ) != "voice_stt"@ && ascii_lowercase(name) != "voice_tts"@ ==> purpose_of(name)
            == BackendPurpose::Standard,
{
    reveal_strlit("small");
    reveal_strlit("vision");
    reveal_strlit("voice_stt");
    reveal_strlit("voice_tts");
    assert("small"@.len() == 5);
    assert("vision"@.len() == 6);
    assert("voice_stt"@.len() == 9);
    assert("voice_tts"@.len() == 9);
    assert("voice_stt"@[6] == 's');
    assert("voice_tts"@[6] == 't');
}

} // verus!
