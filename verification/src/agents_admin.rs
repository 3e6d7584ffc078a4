//! The controller's interface to the always-on child agents: definitions, messages
//! and the runs that are shown.

use vstd::prelude::*;
use crate::api::{error, ApiError};
use crate::json::{the_first_member_counts, JsonMember, JsonValue};
use crate::text::opt_view;

verus! {

/// A child agent, as it is stored and as it is shown.
#[derive(Debug)]
pub struct AgentView {
    pub id: String,
    pub name: String,
    pub role_prompt: String,
    pub model: Option<String>,
    pub backend_purpose: String,
    pub tools: Vec<String>,
    pub trust_policy: JsonValue,
    pub interval_secs: u32,
    pub token_budget: u32,
    pub max_runtime_secs: u32,
    pub concurrency_limit: u32,
    pub enabled: bool,
    pub paused: bool,
    pub next_run_at: Option<i64>,
    pub last_run_at: Option<i64>,
    pub last_run_status: Option<String>,
    pub last_error: Option<String>,
    pub trigger: JsonValue,
    pub reply_mode: String,
}

/// A definition of a child agent, as it is posted. What may be left out is absent.
#[derive(Debug)]
pub struct AgentDraft {
    pub name: String,
    pub role_prompt: String,
    pub model: Option<String>,
    pub backend_purpose: Option<String>,
    pub tools: Option<Vec<String>>,
    pub trust_policy: Option<JsonValue>,
    pub interval_secs: Option<u32>,
    pub token_budget: Option<u32>,
    pub max_runtime_secs: Option<u32>,
    pub concurrency_limit: Option<u32>,
    pub enabled: Option<bool>,
    pub trigger: Option<JsonValue>,
    pub reply_mode: Option<String>,
}

/// A whole definition of a child agent.
#[derive(Debug)]
pub struct AgentRequest {
    pub name: String,
    pub role_prompt: String,
    pub model: Option<String>,
    pub backend_purpose: String,
    pub tools: Vec<String>,
    pub trust_policy: JsonValue,
    pub interval_secs: u32,
    pub token_budget: u32,
    pub max_runtime_secs: u32,
    pub concurrency_limit: u32,
    pub enabled: bool,
    pub trigger: JsonValue,
    pub reply_mode: String,
}

/// The reply mode of an agent that names none.
pub fn draft_mode() -> (r: String)
    ensures
        r@ == "draft"@,
{
    "draft".to_owned()
}

/// The backend of an agent that names none.
pub fn standard() -> (r: String)
    ensures
        r@ == "standard"@,
{
    "standard".to_owned()
}

/// The seconds between two runs of an agent that names none.
pub fn default_interval() -> (r: u32)
    ensures
        r == 300,
{
    300
}

/// The tokens of an agent that names none.
pub fn default_tokens() -> (r: u32)
    ensures
        r == 1024,
{
    1024
}

/// The seconds that a run may take, of an agent that names none.
pub fn default_runtime() -> (r: u32)
    ensures
        r == 300,
{
    300
}

/// The runs at a time of an agent that names none.
pub fn one() -> (r: u32)
    ensures
        r == 1,
{
    1
}

/// An agent is enabled unless it says otherwise.
pub fn yes() -> (r: bool)
    ensures
        r,
{
    true
}

/// The value, or the default where there is none.
pub open spec fn or_default<T>(value: Option<T>, default: T) -> T {
    match value {
        Some(v) => v,
        None => default,
    }
}

/// A definition with everything that was left out filled in.
pub open spec fn completed(r: AgentRequest, draft: AgentDraft) -> bool {
    &&& r.name == draft.name
    &&& r.role_prompt == draft.role_prompt
    &&& r.model == draft.model
    &&& r.backend_purpose@ == or_default(opt_view(draft.backend_purpose), "standard"@)
    &&& match draft.tools {
        Some(t) => r.tools == t,
        None => r.tools@.len() == 0,
    }
    &&& r.trust_policy == or_default(draft.trust_policy, JsonValue::Null)
    &&& r.interval_secs == or_default(draft.interval_secs, 300)
    &&& r.token_budget == or_default(draft.token_budget, 1024)
    &&& r.max_runtime_secs == or_default(draft.max_runtime_secs, 300)
    &&& r.concurrency_limit == or_default(draft.concurrency_limit, 1)
    &&& r.enabled == or_default(draft.enabled, true)
    &&& r.trigger == or_default(draft.trigger, JsonValue::Null)
    &&& r.reply_mode@ == or_default(opt_view(draft.reply_mode), "draft"@)
}

/// Fills in what a definition leaves out.
pub fn complete(draft: AgentDraft) -> (r: AgentRequest)
    ensures
        completed(r, draft),
{
    AgentRequest {
        name: draft.name,
        role_prompt: draft.role_prompt,
        model: draft.model,
        backend_purpose: match draft.backend_purpose {
            Some(v) => v,
            None => standard(),
        },
        tools: match draft.tools {
            Some(v) => v,
            None => Vec::new(),
        },
        trust_policy: match draft.trust_policy {
            Some(v) => v,
            None => JsonValue::Null,
        },
        interval_secs: match draft.interval_secs {
            Some(v) => v,
            None => default_interval(),
        },
        token_budget: match draft.token_budget {
            Some(v) => v,
            None => default_tokens(),
        },
        max_runtime_secs: match draft.max_runtime_secs {
            Some(v) => v,
            None => default_runtime(),
        },
        concurrency_limit: match draft.concurrency_limit {
            Some(v) => v,
            None => one(),
        },
        enabled: match draft.enabled {
            Some(v) => v,
            None => yes(),
        },
        trigger: match draft.trigger {
            Some(v) => v,
            None => JsonValue::Null,
        },
        reply_mode: match draft.reply_mode {
            Some(v) => v,
            None => draft_mode(),
        },
    }
}

/// The roles of the people who sign in.
#[derive(Clone, Copy, Debug, PartialEq, Eq, Structural)]
pub enum UserRole {
    Controller,
    Other,
}

/// Lets the controller through, and nobody else.
pub fn controller(role: UserRole) -> (r: Result<(), ApiError>)
    ensures
        role == UserRole::Controller ==> r is Ok,
        role != UserRole::Controller ==> (r matches Err(e) && e@ == error(
            403,
            "controller_required"@,
            "Controller role required"@,
        )),
{
    if role == UserRole::Controller {
        Ok(())
    } else {
        Err(ApiError::new(403, "controller_required", "Controller role required".to_owned()))
    }
}

/// What a fault of the agent store is reported as.
pub fn map(message: String) -> (r: ApiError)
    ensures
        r@ == error(400, "agent_error"@, message@),
{
    ApiError::new(400, "agent_error", message)
}

/// A definition to be stored: under its id, or under a new one.
#[derive(Debug)]
pub struct AgentUpsert {
    pub id: Option<String>,
    pub definition: AgentRequest,
}

/// Stores a definition on behalf of a user: a new one, or that of the agent `id`.
pub fn upsert(role: UserRole, id: Option<String>, draft: AgentDraft) -> (r: Result<
    AgentUpsert,
    ApiError,
>)
    ensures
        role == UserRole::Controller ==> (r matches Ok(write) && write.id == id && completed(
            write.definition,
            draft,
        )),
        role != UserRole::Controller ==> (r matches Err(e) && e@ == error(
            403,
            "controller_required"@,
            "Controller role required"@,
        )),
{
    match controller(role) {
        Err(e) => Err(e),
        Ok(_) => Ok(AgentUpsert { id, definition: complete(draft) }),
    }
}

/// The content of a posted message; empty where it has none.
pub open spec fn content_of(body: JsonValue) -> Seq<char> {
    match body.text_field("content"@) {
        Some(text) => text,
        None => Seq::empty(),
    }
}

/// A message to be put into an agent's mailbox.
#[derive(Debug)]
pub struct MailboxWrite {
    pub agent_id: String,
    pub sender: String,
    pub content: String,
}

/// Puts a posted message into an agent's mailbox, from the controller.
pub fn message(role: UserRole, agent_id: &str, body: &JsonValue) -> (r: Result<
    MailboxWrite,
    ApiError,
>)
    ensures
        role == UserRole::Controller ==> {
            &&& r matches Ok(write)
            &&& write.agent_id@ == agent_id@
            &&& write.sender@ == "controller"@
            &&& write.content@ == content_of(*body)
        },
        role != UserRole::Controller ==> (r matches Err(e) && e@ == error(
            403,
            "controller_required"@,
            "Controller role required"@,
        )),
{
    match controller(role) {
        Err(e) => Err(e),
        Ok(_) => {
            let content: String = match body.get_str("content") {
                Some(text) => text.to_owned(),
                None => String::new(),
            };
            Ok(
                MailboxWrite {
                    agent_id: agent_id.to_owned(),
                    sender: "controller".to_owned(),
                    content,
                },
            )
        },
    }
}

/// How many runs a request asks for.
#[derive(Debug)]
pub struct Limit {
    pub limit: Option<u32>,
}

/// How many runs are shown: fifty unless the request says otherwise, and never more
/// than two hundred.
pub fn run_limit(query: Limit) -> (r: u32)
    ensures
        r == (if or_default(query.limit, 50) < 200 {
            or_default(query.limit, 50)
        } else {
            200
        }),
        r <= 200,
{
    let wanted: u32 = match query.limit {
        Some(n) => n,
        None => 50,
    };
    if wanted < 200 {
        wanted
    } else {
        200
    }
}

/// What a definition says is kept, and only what it leaves out is filled in.
pub proof fn a_definition_keeps_what_it_says(r: AgentRequest, draft: AgentDraft)
    requires
        completed(r, draft),
    ensures
        r.name == draft.name && r.role_prompt == draft.role_prompt && r.model == draft.model,
        draft.backend_purpose matches Some(v) ==> r.backend_purpose@ == v@,
        draft.backend_purpose is None ==> r.backend_purpose@ == "standard"@,
        draft.tools matches Some(v) ==> r.tools@ == v@,
        draft.tools is None ==> r.tools@.len() == 0,
        draft.interval_secs matches Some(v) ==> r.interval_secs == v,
        draft.interval_secs is None ==> r.interval_secs == 300,
        draft.token_budget matches Some(v) ==> r.token_budget == v,
        draft.token_budget is None ==> r.token_budget == 1024,
        draft.max_runtime_secs matches Some(v) ==> r.max_runtime_secs == v,
        draft.max_runtime_secs is None ==> r.max_runtime_secs == 300,
        draft.concurrency_limit matches Some(v) ==> r.concurrency_limit == v,
        draft.concurrency_limit is None ==> r.concurrency_limit == 1,
        draft.enabled matches Some(v) ==> r.enabled == v,
        draft.enabled is None ==> r.enabled,
        draft.trust_policy matches Some(v) ==> r.trust_policy == v,
        draft.trigger matches Some(v) ==> r.trigger == v,
        draft.reply_mode matches Some(v) ==> r.reply_mode@ == v@,
        draft.reply_mode is None ==> r.reply_mode@ == "draft"@,
{
}

/// A posted message is delivered with the text under its `content`.
pub proof fn a_message_is_its_content(members: Vec<JsonMember>, i: int)
    requires
        0 <= i < members@.len(),
        members@[i].key@ == "content"@,
        forall|j: int| 0 <= j < i ==> (#[trigger] members@[j]).key@ != "content"@,
        members@[i].value is Text,
    ensures
        content_of(JsonValue::Object(members)) == members@[i].value->Text_0@,
{
    the_first_member_counts(members@, "content"@, i);
}

} // verus!
