//! The approval flow: what the controller's answer to a cold contact does, the
//! approvals of tool chains, trust changes by hand, and the lists behind the
//! settings pages.
//!
//! A cold contact parks its conversation and leaves a `cold_contact_arrived` event
//! that bears an approval id. The controller answers with a verb. The verb decides
//! the sender's new trust, a `trust_changed` event records it, and on `Trust` and
//! `TrustLimited` the parked message is replayed through the normal turn path.

use vstd::prelude::*;
use crate::api::{error, ApiError, ErrorModel};
use crate::chat_types::{
    trust_tags_are_distinct, ColdContactPayload, EventKind, EventRecord, Payload, TrustLevel,
};
use crate::json::JsonValue;
use crate::text::{opt_view, same, texts};

verus! {

/// What the controller answers to an approval.
#[derive(Clone, Copy, Debug, PartialEq, Eq, Structural)]
pub enum ApprovalVerb {
    Trust,
    TrustLimited,
    ClaimAsMe,
    Block,
    IgnoreOnce,
    Approve,
    Edit,
    Reject,
}

impl ApprovalVerb {
    /// The name of a verb.
    pub open spec fn name(self) -> Seq<char> {
        match self {
            ApprovalVerb::Trust => "Trust"@,
            ApprovalVerb::TrustLimited => "TrustLimited"@,
            ApprovalVerb::ClaimAsMe => "ClaimAsMe"@,
            ApprovalVerb::Block => "Block"@,
            ApprovalVerb::IgnoreOnce => "IgnoreOnce"@,
            ApprovalVerb::Approve => "Approve"@,
            ApprovalVerb::Edit => "Edit"@,
            ApprovalVerb::Reject => "Reject"@,
        }
    }

    /// The name of a verb.
    pub fn as_str(&self) -> (r: &'static str)
        ensures
            r@ == self.name(),
    {
        match self {
            ApprovalVerb::Trust => "Trust",
            ApprovalVerb::TrustLimited => "TrustLimited",
            ApprovalVerb::ClaimAsMe => "ClaimAsMe",
            ApprovalVerb::Block => "Block",
            ApprovalVerb::IgnoreOnce => "IgnoreOnce",
            ApprovalVerb::Approve => "Approve",
            ApprovalVerb::Edit => "Edit",
            ApprovalVerb::Reject => "Reject",
        }
    }
}

/// The answer to an approval, as it is posted.
#[derive(Debug)]
pub struct ApprovalRequest {
    pub verb: ApprovalVerb,
    /// The topics of `TrustLimited`.
    pub allowed_topics: Vec<String>,
    /// A reason for people, kept for audit.
    pub reason: Option<String>,
    /// The signed token of the approval. It is checked where it is there, and may
    /// be asked for.
    pub approval_token: Option<String>,
}

/// What an answered approval reports back.
#[derive(Debug)]
pub struct ApprovalResponse {
    pub approval_id: String,
    pub principal_id: String,
    pub conversation_id: String,
    pub new_trust_class: String,
    pub outcome: String,
}

/// The model of an [`ApprovalResponse`].
pub struct ResponseModel {
    pub approval_id: Seq<char>,
    pub principal_id: Seq<char>,
    pub conversation_id: Seq<char>,
    pub new_trust_class: Seq<char>,
    pub outcome: Seq<char>,
}

impl View for ApprovalResponse {
    type V = ResponseModel;

    open spec fn view(&self) -> ResponseModel {
        ResponseModel {
            approval_id: self.approval_id@,
            principal_id: self.principal_id@,
            conversation_id: self.conversation_id@,
            new_trust_class: self.new_trust_class@,
            outcome: self.outcome@,
        }
    }
}

/// A handle under which somebody is reached on a transport.
#[derive(Debug)]
pub struct Identifier {
    pub transport: String,
    pub handle: String,
}

impl Clone for Identifier {
    fn clone(&self) -> (r: Self)
        ensures
            r == *self,
    {
        Identifier { transport: self.transport.clone(), handle: self.handle.clone() }
    }
}

impl Identifier {
    /// Transport and handle.
    pub open spec fn pair(self) -> (Seq<char>, Seq<char>) {
        (self.transport@, self.handle@)
    }
}

/// The transports and handles of identifiers.
pub open spec fn pairs(identifiers: Seq<Identifier>) -> Seq<(Seq<char>, Seq<char>)> {
    identifiers.map_values(|i: Identifier| i.pair())
}

/// The trust that a principal has, with what was recorded when it was given.
#[derive(Debug)]
pub enum PrincipalTrust {
    Controller,
    Delegated,
    KnownTrusted { resolvers: Vec<String>, approved_by: String, approved_at: i64 },
    KnownLimited {
        resolvers: Vec<String>,
        allowed_topics: Vec<String>,
        allowed_tools: Option<Vec<String>>,
    },
    UnknownPending { first_seen: i64, notification_event_seq: Option<i64> },
    Blocked { blocked_by: String, blocked_at: i64, reason: Option<String> },
}

impl PrincipalTrust {
    /// The level of this trust.
    pub open spec fn level(self) -> TrustLevel {
        match self {
            PrincipalTrust::Controller => TrustLevel::Controller,
            PrincipalTrust::Delegated => TrustLevel::Delegated,
            PrincipalTrust::KnownTrusted { .. } => TrustLevel::KnownTrusted,
            PrincipalTrust::KnownLimited { .. } => TrustLevel::KnownLimited,
            PrincipalTrust::UnknownPending { .. } => TrustLevel::UnknownPending,
            PrincipalTrust::Blocked { .. } => TrustLevel::Blocked,
        }
    }

    /// The level of this trust.
    pub fn flat(&self) -> (r: TrustLevel)
        ensures
            r == self.level(),
    {
        match self {
            PrincipalTrust::Controller => TrustLevel::Controller,
            PrincipalTrust::Delegated => TrustLevel::Delegated,
            PrincipalTrust::KnownTrusted { .. } => TrustLevel::KnownTrusted,
            PrincipalTrust::KnownLimited { .. } => TrustLevel::KnownLimited,
            PrincipalTrust::UnknownPending { .. } => TrustLevel::UnknownPending,
            PrincipalTrust::Blocked { .. } => TrustLevel::Blocked,
        }
    }

    /// The controller trusts a principal, at the second `now`.
    pub open spec fn trusted(self, now: i64) -> bool {
        &&& self matches PrincipalTrust::KnownTrusted { resolvers, approved_by, approved_at }
        &&& resolvers@.len() == 0
        &&& approved_by@ == "controller"@
        &&& approved_at == now
    }

    /// The controller trusts a principal on some topics.
    pub open spec fn limited(self, topics: Seq<Seq<char>>) -> bool {
        &&& self matches PrincipalTrust::KnownLimited { resolvers, allowed_topics, allowed_tools }
        &&& resolvers@.len() == 0
        &&& texts(allowed_topics@) == topics
        &&& allowed_tools is None
    }

    /// The controller blocks a principal, at the second `now`.
    pub open spec fn blocked(self, now: i64, why: Option<Seq<char>>) -> bool {
        &&& self matches PrincipalTrust::Blocked { blocked_by, blocked_at, reason }
        &&& blocked_by@ == "controller"@
        &&& blocked_at == now
        &&& opt_view(reason) == why
    }
}

/// The controller trusts a principal, at the second `now`.
pub fn trust_of_controller(now: i64) -> (r: PrincipalTrust)
    ensures
        r.trusted(now),
{
    PrincipalTrust::KnownTrusted {
        resolvers: Vec::new(),
        approved_by: "controller".to_owned(),
        approved_at: now,
    }
}

/// The controller trusts a principal on some topics.
pub fn trust_on_topics(topics: Vec<String>) -> (r: PrincipalTrust)
    ensures
        r.limited(texts(topics@)),
{
    PrincipalTrust::KnownLimited {
        resolvers: Vec::new(),
        allowed_topics: topics,
        allowed_tools: None,
    }
}

/// The controller blocks a principal, at the second `now`.
pub fn block_by_controller(now: i64, reason: Option<String>) -> (r: PrincipalTrust)
    ensures
        r.blocked(now, opt_view(reason)),
{
    PrincipalTrust::Blocked { blocked_by: "controller".to_owned(), blocked_at: now, reason }
}

/// Somebody whom the system has seen.
#[derive(Debug)]
pub struct Principal {
    pub id: String,
    pub identifiers: Vec<Identifier>,
    pub trust_level: PrincipalTrust,
    /// The resolvers that vouch for who this is.
    pub resolved_by: Vec<String>,
    pub metadata: JsonValue,
    pub first_seen: i64,
    pub last_seen: Option<i64>,
    pub controller_notes: Option<String>,
}

/// A cold contact: a parked message and who sent it.
#[derive(Debug)]
pub struct Contact {
    pub conversation_id: String,
    pub sender_principal_id: String,
    pub text: String,
    pub approval_id: String,
}

/// The model of a [`Contact`].
#[verifier::ext_equal]
pub struct ContactModel {
    pub conversation_id: Seq<char>,
    pub sender_principal_id: Seq<char>,
    pub text: Seq<char>,
    pub approval_id: Seq<char>,
}

impl View for Contact {
    type V = ContactModel;

    open spec fn view(&self) -> ContactModel {
        ContactModel {
            conversation_id: self.conversation_id@,
            sender_principal_id: self.sender_principal_id@,
            text: self.text@,
            approval_id: self.approval_id@,
        }
    }
}

impl Clone for Contact {
    fn clone(&self) -> (r: Self)
        ensures
            r == *self,
    {
        Contact {
            conversation_id: self.conversation_id.clone(),
            sender_principal_id: self.sender_principal_id.clone(),
            text: self.text.clone(),
            approval_id: self.approval_id.clone(),
        }
    }
}

/// The models of contacts.
pub open spec fn contact_models(v: Seq<Contact>) -> Seq<ContactModel> {
    v.map_values(|c: Contact| c@)
}

/// The log of one conversation; no events where it could not be read.
#[derive(Debug)]
pub struct ConversationLog {
    pub conversation_id: String,
    pub events: Option<Vec<EventRecord>>,
}

/// The contact that an event records, where it does and can be read.
pub open spec fn contact_of(conversation_id: Seq<char>, event: EventRecord) -> Option<
    ContactModel,
> {
    match (event.kind, event.payload) {
        (EventKind::ColdContactArrived, Some(Payload::ColdContact(p))) => Some(
            ContactModel {
                conversation_id,
                sender_principal_id: p.sender_principal_id@,
                text: p.text@,
                approval_id: p.approval_id@,
            },
        ),
        _ => None,
    }
}

/// The contacts that the events of a conversation record, in order.
pub open spec fn contacts_in(conversation_id: Seq<char>, events: Seq<EventRecord>) -> Seq<
    ContactModel,
>
    decreases events.len(),
{
    if events.len() == 0 {
        Seq::empty()
    } else {
        let before = contacts_in(conversation_id, events.drop_last());
        match contact_of(conversation_id, events.last()) {
            Some(c) => before.push(c),
            None => before,
        }
    }
}

/// The contacts that the logs record, in order. A log that could not be read is
/// passed over.
pub open spec fn contacts(logs: Seq<ConversationLog>) -> Seq<ContactModel>
    decreases logs.len(),
{
    if logs.len() == 0 {
        Seq::empty()
    } else {
        let before = contacts(logs.drop_last());
        match logs.last().events {
            Some(events) => before + contacts_in(logs.last().conversation_id@, events@),
            None => before,
        }
    }
}

fn collect_from(conversation_id: &str, events: &Vec<EventRecord>, out: &mut Vec<Contact>)
    ensures
        contact_models(final(out)@) == contact_models(old(out)@) + contacts_in(
            conversation_id@,
            events@,
        ),
{
    let ghost start = contact_models(out@);
    let mut i: usize = 0;
    assert(events@.take(0) =~= Seq::<EventRecord>::empty());
    assert(start + contacts_in(conversation_id@, events@.take(0)) =~= start);
    while i < events.len()
        invariant
            i <= events.len(),
            contact_models(out@) == start + contacts_in(conversation_id@, events@.take(i as int)),
        decreases events.len() - i,
    {
        let event: &EventRecord = &events[i];
        let ghost before = contact_models(out@);
        assert(events@.take(i + 1).drop_last() =~= events@.take(i as int));
        assert(events@.take(i + 1).last() == *event);
        match (&event.kind, &event.payload) {
            (EventKind::ColdContactArrived, Some(Payload::ColdContact(p))) => {
                out.push(
                    Contact {
                        conversation_id: conversation_id.to_owned(),
                        sender_principal_id: p.sender_principal_id.clone(),
                        text: p.text.clone(),
                        approval_id: p.approval_id.clone(),
                    },
                );
                let ghost c = contact_of(conversation_id@, *event)->0;
                assert(contact_models(out@) =~= before.push(c));
                assert(start + contacts_in(conversation_id@, events@.take(i as int)).push(c)
                    =~= before.push(c));
            },
            _ => {},
        }
        i += 1;
    }
    assert(events@.take(i as int) =~= events@);
}

/// The contacts that the logs record, in order.
pub fn collect_contacts(logs: &[ConversationLog]) -> (r: Vec<Contact>)
    ensures
        contact_models(r@) == contacts(logs@),
{
    let mut out: Vec<Contact> = Vec::new();
    let mut i: usize = 0;
    assert(logs@.take(0) =~= Seq::<ConversationLog>::empty());
    assert(contact_models(out@) =~= contacts(logs@.take(0)));
    while i < logs.len()
        invariant
            i <= logs.len(),
            contact_models(out@) == contacts(logs@.take(i as int)),
        decreases logs.len() - i,
    {
        assert(logs@.take(i + 1).drop_last() =~= logs@.take(i as int));
        assert(logs@.take(i + 1).last() == logs@[i as int]);
        match &logs[i].events {
            Some(events) => collect_from(logs[i].conversation_id.as_str(), events, &mut out),
            None => {},
        }
        i += 1;
    }
    assert(logs@.take(i as int) =~= logs@);
    out
}

/// The first contact that bears an approval id.
pub open spec fn first_for(all: Seq<ContactModel>, approval_id: Seq<char>) -> Option<ContactModel>
    decreases all.len(),
{
    if all.len() == 0 {
        None
    } else if all[0].approval_id == approval_id {
        Some(all[0])
    } else {
        first_for(all.skip(1), approval_id)
    }
}

/// Finds the cold contact that an approval is about.
pub fn find_cold_contact_event(logs: &[ConversationLog], approval_id: &str) -> (r: Option<Contact>)
    ensures
        r matches Some(c) ==> first_for(contacts(logs@), approval_id@) == Some(c@),
        r is None ==> first_for(contacts(logs@), approval_id@) is None,
{
    let all: Vec<Contact> = collect_contacts(logs);
    let ghost models = contact_models(all@);
    let mut i: usize = 0;
    assert(models.skip(0) =~= models);
    while i < all.len()
        invariant
            i <= all.len(),
            models == contact_models(all@),
            first_for(models, approval_id@) == first_for(models.skip(i as int), approval_id@),
            models == contacts(logs@),
        decreases all.len() - i,
    {
        assert(models.skip(i as int)[0] == all@[i as int]@);
        if same(all[i].approval_id.as_str(), approval_id) {
            return Some(all[i].clone());
        }
        assert(models.skip(i as int).skip(1) =~= models.skip(i + 1));
        i += 1;
    }
    None
}

/// The level of the principal with this id, where there is one.
pub open spec fn level_of(principals: Seq<Principal>, id: Seq<char>) -> Option<TrustLevel>
    decreases principals.len(),
{
    if principals.len() == 0 {
        None
    } else if principals[0].id@ == id {
        Some(principals[0].trust_level.level())
    } else {
        level_of(principals.skip(1), id)
    }
}

fn find_level(principals: &[Principal], id: &str) -> (r: Option<TrustLevel>)
    ensures
        r == level_of(principals@, id@),
{
    let mut i: usize = 0;
    assert(principals@.skip(0) =~= principals@);
    while i < principals.len()
        invariant
            i <= principals.len(),
            level_of(principals@, id@) == level_of(principals@.skip(i as int), id@),
        decreases principals.len() - i,
    {
        if same(principals[i].id.as_str(), id) {
            return Some(principals[i].trust_level.flat());
        }
        assert(principals@.skip(i as int).skip(1) =~= principals@.skip(i + 1));
        i += 1;
    }
    None
}

/// An approval that waits for the controller.
#[derive(Debug)]
pub struct PendingApprovalSummary {
    pub approval_id: String,
    pub conversation_id: String,
    pub sender_principal_id: String,
    pub original_text: String,
}

impl View for PendingApprovalSummary {
    type V = ContactModel;

    open spec fn view(&self) -> ContactModel {
        ContactModel {
            conversation_id: self.conversation_id@,
            sender_principal_id: self.sender_principal_id@,
            text: self.original_text@,
            approval_id: self.approval_id@,
        }
    }
}

/// The approvals that wait for the controller.
#[derive(Debug)]
pub struct PendingApprovalsResponse {
    pub approvals: Vec<PendingApprovalSummary>,
}

/// The models of summaries.
pub open spec fn summary_models(v: Seq<PendingApprovalSummary>) -> Seq<ContactModel> {
    v.map_values(|a: PendingApprovalSummary| a@)
}

/// A tool chain that waits for approval.
#[derive(Debug)]
pub struct ChainRow {
    pub approval_id: String,
    pub conversation_id: String,
    pub objective: String,
}

/// A contact waits while its sender is there and nobody has decided on them. A
/// sender who is gone was merged into another principal: that is the decision.
pub open spec fn waits(principals: Seq<Principal>, c: ContactModel) -> bool {
    level_of(principals, c.sender_principal_id) == Some(TrustLevel::UnknownPending)
}

/// The contacts that wait, in order.
pub open spec fn waiting(principals: Seq<Principal>, all: Seq<ContactModel>) -> Seq<ContactModel>
    decreases all.len(),
{
    if all.len() == 0 {
        Seq::empty()
    } else {
        let before = waiting(principals, all.drop_last());
        if waits(principals, all.last()) {
            before.push(all.last())
        } else {
            before
        }
    }
}

/// How a waiting tool chain is listed.
pub open spec fn chain_summary(row: ChainRow) -> ContactModel {
    ContactModel {
        conversation_id: row.conversation_id@,
        sender_principal_id: "tool-chain"@,
        text: "Tool-chain execution awaiting approval: "@ + row.objective@,
        approval_id: row.approval_id@,
    }
}

/// How the waiting tool chains are listed.
pub open spec fn chain_summaries(rows: Seq<ChainRow>) -> Seq<ContactModel> {
    rows.map_values(|row: ChainRow| chain_summary(row))
}

/// Lists the approvals that wait for the controller: the cold contacts whose
/// sender is still undecided, then the tool chains that wait.
pub fn list_pending_approvals(
    logs: &[ConversationLog],
    principals: &[Principal],
    chains: &[ChainRow],
) -> (r: PendingApprovalsResponse)
    ensures
        summary_models(r.approvals@) == waiting(principals@, contacts(logs@)) + chain_summaries(
            chains@,
        ),
{
    let all: Vec<Contact> = collect_contacts(logs);
    let ghost models = contact_models(all@);
    let mut out: Vec<PendingApprovalSummary> = Vec::new();
    let mut i: usize = 0;
    assert(models.take(0) =~= Seq::<ContactModel>::empty());
    assert(summary_models(out@) =~= waiting(principals@, models.take(0)));
    while i < all.len()
        invariant
            i <= all.len(),
            models == contact_models(all@),
            summary_models(out@) == waiting(principals@, models.take(i as int)),
        decreases all.len() - i,
    {
        let ghost before = summary_models(out@);
        assert(models.take(i + 1).drop_last() =~= models.take(i as int));
        assert(models.take(i + 1).last() == all@[i as int]@);
        let contact: &Contact = &all[i];
        let undecided: bool = match find_level(principals, contact.sender_principal_id.as_str()) {
            Some(level) => level == TrustLevel::UnknownPending,
            None => false,
        };
        if undecided {
            out.push(
                PendingApprovalSummary {
                    approval_id: contact.approval_id.clone(),
                    conversation_id: contact.conversation_id.clone(),
                    sender_principal_id: contact.sender_principal_id.clone(),
                    original_text: contact.text.clone(),
                },
            );
            assert(summary_models(out@) =~= before.push(contact@));
        }
        i += 1;
    }
    assert(models.take(i as int) =~= models);
    let ghost contacts_listed = summary_models(out@);
    let mut j: usize = 0;
    assert(contacts_listed + chain_summaries(chains@.take(0)) =~= contacts_listed);
    while j < chains.len()
        invariant
            j <= chains.len(),
            summary_models(out@) == contacts_listed + chain_summaries(chains@.take(j as int)),
        decreases chains.len() - j,
    {
        let ghost before = summary_models(out@);
        let row: &ChainRow = &chains[j];
        let mut text: String = "Tool-chain execution awaiting approval: ".to_owned();
        text.append(row.objective.as_str());
        out.push(
            PendingApprovalSummary {
                approval_id: row.approval_id.clone(),
                conversation_id: row.conversation_id.clone(),
                sender_principal_id: "tool-chain".to_owned(),
                original_text: text,
            },
        );
        assert(summary_models(out@) =~= before.push(chain_summary(*row)));
        assert(chain_summaries(chains@.take(j + 1)) =~= chain_summaries(chains@.take(j as int)).push(
            chain_summary(*row),
        ));
        assert(contacts_listed + chain_summaries(chains@.take(j as int)).push(chain_summary(*row))
            =~= before.push(chain_summary(*row)));
        j += 1;
    }
    assert(chains@.take(j as int) =~= chains@);
    PendingApprovalsResponse { approvals: out }
}

/// An approval is listed if and only if it waits: no contact whose sender was
/// decided on or is gone stays in the list, and none that waits is missing.
pub proof fn only_undecided_contacts_are_listed(
    principals: Seq<Principal>,
    all: Seq<ContactModel>,
    c: ContactModel,
)
    ensures
        waiting(principals, all).contains(c) <==> all.contains(c) && waits(principals, c),
    decreases all.len(),
{
    if all.len() > 0 {
        let front = all.drop_last();
        only_undecided_contacts_are_listed(principals, front, c);
        let listed = waiting(principals, front);
        if listed.contains(c) {
            let k = choose|k: int| 0 <= k < listed.len() && listed[k] == c;
            assert(waiting(principals, all)[k] == c);
        }
        if front.contains(c) {
            let k = choose|k: int| 0 <= k < front.len() && front[k] == c;
            assert(all[k] == c);
        }
        if waits(principals, all.last()) {
            assert(waiting(principals, all)[listed.len() as int] == all.last());
        }
        if waiting(principals, all).contains(c) && !listed.contains(c) {
            let k = choose|k: int|
                0 <= k < waiting(principals, all).len() && waiting(principals, all)[k] == c;
            if k < listed.len() {
                assert(listed[k] == c);
            }
            assert(all[all.len() - 1] == c);
        }
        if all.contains(c) && !front.contains(c) {
            let k = choose|k: int| 0 <= k < all.len() && all[k] == c;
            if k < front.len() {
                assert(front[k] == c);
            }
        }
    }
}

/// An identifier as it is listed.
#[derive(Debug)]
pub struct IdentifierSummary {
    pub transport: String,
    pub handle: String,
}

/// A principal as it is listed.
#[derive(Debug)]
pub struct PrincipalSummary {
    pub id: String,
    pub trust_class: String,
    pub display_name: Option<String>,
    pub first_seen: i64,
    pub last_seen: Option<i64>,
    pub identifiers: Vec<IdentifierSummary>,
}

/// The principals as they are listed.
#[derive(Debug)]
pub struct PrincipalListResponse {
    pub principals: Vec<PrincipalSummary>,
}

/// The transports and handles of listed identifiers.
pub open spec fn summary_pairs(identifiers: Seq<IdentifierSummary>) -> Seq<(Seq<char>, Seq<char>)> {
    identifiers.map_values(|i: IdentifierSummary| (i.transport@, i.handle@))
}

/// A summary shows its principal.
pub open spec fn shows(summary: PrincipalSummary, p: Principal) -> bool {
    &&& summary.id@ == p.id@
    &&& summary.trust_class@ == p.trust_level.level().tag()
    &&& opt_view(summary.display_name) == p.metadata.text_field("display_name"@)
    &&& summary.first_seen == p.first_seen
    &&& summary.last_seen == p.last_seen
    &&& summary_pairs(summary.identifiers@) == pairs(p.identifiers@)
}

fn summarize_identifiers(identifiers: &Vec<Identifier>) -> (r: Vec<IdentifierSummary>)
    ensures
        summary_pairs(r@) == pairs(identifiers@),
{
    let mut out: Vec<IdentifierSummary> = Vec::new();
    let mut i: usize = 0;
    while i < identifiers.len()
        invariant
            i <= identifiers.len(),
            out@.len() == i,
            forall|j: int|
                0 <= j < i ==> (#[trigger] out@[j]).transport@ == identifiers@[j].transport@
                    && out@[j].handle@ == identifiers@[j].handle@,
        decreases identifiers.len() - i,
    {
        out.push(
            IdentifierSummary {
                transport: identifiers[i].transport.clone(),
                handle: identifiers[i].handle.clone(),
            },
        );
        i += 1;
    }
    assert(summary_pairs(out@) =~= pairs(identifiers@));
    out
}

/// Lists the principals, in the order in which the store hands them out.
pub fn list_principals(principals: &[Principal]) -> (r: PrincipalListResponse)
    ensures
        r.principals@.len() == principals@.len(),
        forall|i: int|
            0 <= i < principals@.len() ==> shows(#[trigger] r.principals@[i], principals@[i]),
{
    let mut out: Vec<PrincipalSummary> = Vec::new();
    let mut i: usize = 0;
    while i < principals.len()
        invariant
            i <= principals.len(),
            out@.len() == i,
            forall|j: int| 0 <= j < i ==> shows(#[trigger] out@[j], principals@[j]),
        decreases principals.len() - i,
    {
        let p: &Principal = &principals[i];
        let display_name: Option<String> = match p.metadata.get_str("display_name") {
            Some(name) => Some(name.to_owned()),
            None => None,
        };
        out.push(
            PrincipalSummary {
                id: p.id.clone(),
                trust_class: p.trust_level.flat().as_str().to_owned(),
                display_name,
                first_seen: p.first_seen,
                last_seen: p.last_seen,
                identifiers: summarize_identifiers(&p.identifiers),
            },
        );
        i += 1;
    }
    PrincipalListResponse { principals: out }
}

/// A request to revoke a principal's trust.
#[derive(Debug)]
pub struct RevokeRequest {
    pub reason: Option<String>,
}

/// A request to change a principal's trust class.
#[derive(Debug)]
pub struct SetTrustRequest {
    /// One of `KnownTrusted`, `KnownLimited` and `Blocked`.
    pub class: String,
    /// The topics of `KnownLimited`; ignored for the other classes.
    pub allowed_topics: Option<Vec<String>>,
    /// A note of the operator, kept on a blocked principal.
    pub reason: Option<String>,
}

/// A trust change to be written, and what is reported once it is.
#[derive(Debug)]
pub struct TrustWrite {
    pub principal_id: String,
    pub trust: PrincipalTrust,
    pub new_trust_class: String,
    pub outcome: String,
}

/// What an unknown principal is refused with.
pub open spec fn principal_not_found(principal_id: Seq<char>) -> ErrorModel {
    error(404, "principal_not_found"@, "no principal with id '"@ + principal_id + "'"@)
}

fn refuse_unknown_principal(principal_id: &str) -> (r: ApiError)
    ensures
        r@ == principal_not_found(principal_id@),
{
    let mut message: String = "no principal with id '".to_owned();
    message.append(principal_id);
    message.append("'");
    ApiError::new(404, "principal_not_found", message)
}

/// Revokes a principal's trust: whatever it was, the principal is blocked.
pub fn revoke(principal_id: &str, exists_already: bool, req: RevokeRequest, now: i64) -> (r: Result<
    TrustWrite,
    ApiError,
>)
    ensures
        !exists_already ==> (r matches Err(e) && e@ == principal_not_found(principal_id@)),
        exists_already ==> {
            &&& r matches Ok(write)
            &&& write.principal_id@ == principal_id@
            &&& write.trust.blocked(now, opt_view(req.reason))
            &&& write.new_trust_class@ == "Blocked"@
            &&& write.outcome@ == "revoked"@
        },
{
    if !exists_already {
        return Err(refuse_unknown_principal(principal_id));
    }
    Ok(
        TrustWrite {
            principal_id: principal_id.to_owned(),
            trust: block_by_controller(now, req.reason),
            new_trust_class: "Blocked".to_owned(),
            outcome: "revoked".to_owned(),
        },
    )
}

/// The classes that the operator may set by hand. The controller's own class, a
/// delegation and the undecided state are not among them.
pub open spec fn settable(class: Seq<char>) -> bool {
    class == "KnownTrusted"@ || class == "KnownLimited"@ || class == "Blocked"@
}

/// What another class is refused with.
pub open spec fn unsupported_class(class: Seq<char>) -> ErrorModel {
    error(
        400,
        "unsupported_class"@,
        "trust class '"@ + class
            + "' is not operator-settable; use one of: KnownTrusted, KnownLimited, Blocked"@,
    )
}

/// The topics of a request; none where it names none.
pub open spec fn topics_of(topics: Option<Vec<String>>) -> Seq<Seq<char>> {
    match topics {
        Some(t) => texts(t@),
        None => Seq::empty(),
    }
}

/// The trust that a class and its particulars stand for.
pub open spec fn trust_for_class(trust: PrincipalTrust, req: SetTrustRequest, now: i64) -> bool {
    if req.class@ == "KnownTrusted"@ {
        trust.trusted(now)
    } else if req.class@ == "KnownLimited"@ {
        trust.limited(topics_of(req.allowed_topics))
    } else {
        trust.blocked(now, opt_view(req.reason))
    }
}

/// Changes a principal's trust class by hand.
pub fn set_trust(principal_id: &str, exists_already: bool, req: SetTrustRequest, now: i64) -> (r:
    Result<TrustWrite, ApiError>)
    ensures
        !exists_already ==> (r matches Err(e) && e@ == principal_not_found(principal_id@)),
        exists_already && !settable(req.class@) ==> (r matches Err(e) && e@ == unsupported_class(
            req.class@,
        )),
        exists_already && settable(req.class@) ==> {
            &&& r matches Ok(write)
            &&& write.principal_id@ == principal_id@
            &&& trust_for_class(write.trust, req, now)
            &&& write.new_trust_class@ == req.class@
            &&& write.trust.level().tag() == req.class@
            &&& write.outcome@ == "trust_changed"@
        },
{
    if !exists_already {
        return Err(refuse_unknown_principal(principal_id));
    }
    proof {
        reveal_strlit("KnownTrusted");
        reveal_strlit("KnownLimited");
        reveal_strlit("Blocked");
        assert("KnownTrusted"@[5] != "KnownLimited"@[5]);
        assert("KnownTrusted"@.len() != "Blocked"@.len());
    }
    let trust: PrincipalTrust = if same(req.class.as_str(), "KnownTrusted") {
        trust_of_controller(now)
    } else if same(req.class.as_str(), "KnownLimited") {
        let topics: Vec<String> = match req.allowed_topics {
            Some(t) => t,
            None => Vec::new(),
        };
        assert(texts(topics@) =~= topics_of(req.allowed_topics));
        trust_on_topics(topics)
    } else if same(req.class.as_str(), "Blocked") {
        block_by_controller(now, req.reason)
    } else {
        let mut message: String = "trust class '".to_owned();
        message.append(req.class.as_str());
        message.append(
            "' is not operator-settable; use one of: KnownTrusted, KnownLimited, Blocked",
        );
        return Err(ApiError::new(400, "unsupported_class", message));
    };
    let class: String = trust.flat().as_str().to_owned();
    Ok(
        TrustWrite {
            principal_id: principal_id.to_owned(),
            trust,
            new_trust_class: class,
            outcome: "trust_changed".to_owned(),
        },
    )
}

proof fn lemma_recorded_contact(
    conversation_id: Seq<char>,
    events: Seq<EventRecord>,
    k: int,
    p: ColdContactPayload,
)
    requires
        0 <= k < events.len(),
        events[k].kind is ColdContactArrived,
        events[k].payload == Some(Payload::ColdContact(p)),
    ensures
        contacts_in(conversation_id, events).contains(
            (ContactModel {
                conversation_id,
                sender_principal_id: p.sender_principal_id@,
                text: p.text@,
                approval_id: p.approval_id@,
            }),
        ),
    decreases events.len(),
{
    let c = ContactModel {
        conversation_id,
        sender_principal_id: p.sender_principal_id@,
        text: p.text@,
        approval_id: p.approval_id@,
    };
    let front = events.drop_last();
    let before = contacts_in(conversation_id, front);
    let all = contacts_in(conversation_id, events);
    if k < front.len() {
        assert(front[k] == events[k]);
        lemma_recorded_contact(conversation_id, front, k, p);
        let j = choose|j: int| 0 <= j < before.len() && before[j] == c;
        assert(all[j] == c);
    } else {
        assert(all == before.push(c));
        assert(all[before.len() as int] == c);
    }
}

/// A contact that a readable log records can be found, with the log's conversation
/// and the sender, the text and the approval that the record names.
pub proof fn a_recorded_contact_is_kept(
    logs: Seq<ConversationLog>,
    at: int,
    events: Vec<EventRecord>,
    k: int,
    p: ColdContactPayload,
)
    requires
        0 <= at < logs.len(),
        logs[at].events == Some(events),
        0 <= k < events@.len(),
        events@[k].kind is ColdContactArrived,
        events@[k].payload == Some(Payload::ColdContact(p)),
    ensures
        contacts(logs).contains(
            (ContactModel {
                conversation_id: logs[at].conversation_id@,
                sender_principal_id: p.sender_principal_id@,
                text: p.text@,
                approval_id: p.approval_id@,
            }),
        ),
    decreases logs.len(),
{
    let c = ContactModel {
        conversation_id: logs[at].conversation_id@,
        sender_principal_id: p.sender_principal_id@,
        text: p.text@,
        approval_id: p.approval_id@,
    };
    let front = logs.drop_last();
    let before = contacts(front);
    let all = contacts(logs);
    if at < front.len() {
        assert(front[at] == logs[at]);
        a_recorded_contact_is_kept(front, at, events, k, p);
        let j = choose|j: int| 0 <= j < before.len() && before[j] == c;
        assert(all[j] == c);
    } else {
        let own = contacts_in(logs[at].conversation_id@, events@);
        lemma_recorded_contact(logs[at].conversation_id@, events@, k, p);
        let j = choose|j: int| 0 <= j < own.len() && own[j] == c;
        assert(all == before + own);
        assert(all[before.len() + j] == c);
    }
}

/// Events of any other kind, and contacts that cannot be read, record nothing.
pub proof fn other_events_record_no_contact(conversation_id: Seq<char>, event: EventRecord)
    ensures
        contact_of(conversation_id, event) is Some ==> event.kind is ColdContactArrived && (
        event.payload matches Some(Payload::ColdContact(_))),
{
}

/// Of the contacts with an approval id the first is the one that is answered, and
/// without one there is none.
pub proof fn the_first_contact_is_answered(all: Seq<ContactModel>, approval_id: Seq<char>, i: int)
    requires
        0 <= i <= all.len(),
        forall|j: int| 0 <= j < i ==> (#[trigger] all[j]).approval_id != approval_id,
        i < all.len() ==> all[i].approval_id == approval_id,
    ensures
        first_for(all, approval_id) == (if i < all.len() {
            Some(all[i])
        } else {
            None
        }),
    decreases all.len(),
{
    if i > 0 {
        let rest = all.skip(1);
        assert(all[0].approval_id != approval_id);
        assert forall|j: int| 0 <= j < i - 1 implies (#[trigger] rest[j]).approval_id
            != approval_id by {
            assert(rest[j] == all[j + 1]);
        }
        if i < all.len() {
            assert(rest[i - 1] == all[i]);
        }
        the_first_contact_is_answered(rest, approval_id, i - 1);
    }
}

/// The level of a trust is the one that its variant names.
pub proof fn a_level_is_the_trust_itself(trust: PrincipalTrust)
    ensures
        trust is Controller <==> trust.level() is Controller,
        trust is Delegated <==> trust.level() is Delegated,
        trust is KnownTrusted <==> trust.level() is KnownTrusted,
        trust is KnownLimited <==> trust.level() is KnownLimited,
        trust is UnknownPending <==> trust.level() is UnknownPending,
        trust is Blocked <==> trust.level() is Blocked,
{
}

proof fn lemma_first_principal(principals: Seq<Principal>, id: Seq<char>, i: int)
    requires
        0 <= i <= principals.len(),
        forall|j: int| 0 <= j < i ==> (#[trigger] principals[j]).id@ != id,
        i < principals.len() ==> principals[i].id@ == id,
    ensures
        level_of(principals, id) == (if i < principals.len() {
            Some(principals[i].trust_level.level())
        } else {
            None
        }),
    decreases principals.len(),
{
    if i > 0 {
        let rest = principals.skip(1);
        assert(principals[0].id@ != id);
        assert forall|j: int| 0 <= j < i - 1 implies (#[trigger] rest[j]).id@ != id by {
            assert(rest[j] == principals[j + 1]);
        }
        if i < principals.len() {
            assert(rest[i - 1] == principals[i]);
        }
        lemma_first_principal(rest, id, i - 1);
    }
}

/// A contact is listed while its sender's record is undecided, and not once the
/// record says anything else or is gone.
pub proof fn a_contact_waits_for_its_senders_record(
    principals: Seq<Principal>,
    all: Seq<ContactModel>,
    c: ContactModel,
    i: int,
)
    requires
        all.contains(c),
        0 <= i <= principals.len(),
        forall|j: int| 0 <= j < i ==> (#[trigger] principals[j]).id@ != c.sender_principal_id,
        i < principals.len() ==> principals[i].id@ == c.sender_principal_id,
    ensures
        waiting(principals, all).contains(c) <==> i < principals.len()
            && principals[i].trust_level is UnknownPending,
{
    lemma_first_principal(principals, c.sender_principal_id, i);
    only_undecided_contacts_are_listed(principals, all, c);
    if i < principals.len() {
        a_level_is_the_trust_itself(principals[i].trust_level);
    }
}

/// Every waiting tool chain is listed, in its place, under its own approval and
/// conversation and with its objective.
pub proof fn a_waiting_chain_is_listed(rows: Seq<ChainRow>, i: int)
    requires
        0 <= i < rows.len(),
    ensures
        chain_summaries(rows).len() == rows.len(),
        chain_summaries(rows)[i].approval_id == rows[i].approval_id@,
        chain_summaries(rows)[i].conversation_id == rows[i].conversation_id@,
        chain_summaries(rows)[i].sender_principal_id == "tool-chain"@,
        rows[i].objective@.is_suffix_of(chain_summaries(rows)[i].text),
        "Tool-chain execution awaiting approval: "@.is_prefix_of(chain_summaries(rows)[i].text),
{
    let head = "Tool-chain execution awaiting approval: "@;
    let whole = head + rows[i].objective@;
    assert(chain_summaries(rows)[i].text == whole);
    assert(whole.take(head.len() as int) =~= head);
    assert(whole.skip(head.len() as int) =~= rows[i].objective@);
}

/// A principal is listed as it is: its id, its times, its class by name, and each
/// identifier in its place.
pub proof fn a_principal_is_listed_as_it_is(summary: PrincipalSummary, p: Principal, i: int)
    requires
        shows(summary, p),
        0 <= i < p.identifiers@.len(),
    ensures
        summary.id@ == p.id@,
        summary.first_seen == p.first_seen,
        summary.last_seen == p.last_seen,
        p.trust_level is Controller ==> summary.trust_class@ == "Controller"@,
        p.trust_level is Delegated ==> summary.trust_class@ == "Delegated"@,
        p.trust_level is KnownTrusted ==> summary.trust_class@ == "KnownTrusted"@,
        p.trust_level is KnownLimited ==> summary.trust_class@ == "KnownLimited"@,
        p.trust_level is UnknownPending ==> summary.trust_class@ == "UnknownPending"@,
        p.trust_level is Blocked ==> summary.trust_class@ == "Blocked"@,
        opt_view(summary.display_name) == p.metadata.text_field("display_name"@),
        summary.identifiers@.len() == p.identifiers@.len(),
        summary.identifiers@[i].transport@ == p.identifiers@[i].transport@,
        summary.identifiers@[i].handle@ == p.identifiers@[i].handle@,
{
    let given = pairs(p.identifiers@);
    let told = summary_pairs(summary.identifiers@);
    assert(told.len() == summary.identifiers@.len());
    assert(given.len() == p.identifiers@.len());
    assert(told[i] == (summary.identifiers@[i].transport@, summary.identifiers@[i].handle@));
    assert(given[i] == (p.identifiers@[i].transport@, p.identifiers@[i].handle@));
}

/// A class set by hand is the trust of that name, given by the controller, with the
/// time, the topics or the reason that the request brings.
pub proof fn a_class_is_set_as_named(trust: PrincipalTrust, req: SetTrustRequest, now: i64)
    requires
        trust_for_class(trust, req, now),
    ensures
        req.class@ == "KnownTrusted"@ ==> (trust matches PrincipalTrust::KnownTrusted {
            resolvers,
            approved_by,
            approved_at,
        } && resolvers@.len() == 0 && approved_by@ == "controller"@ && approved_at == now),
        req.class@ == "KnownLimited"@ ==> (trust matches PrincipalTrust::KnownLimited {
            resolvers,
            allowed_topics,
            allowed_tools,
        } && resolvers@.len() == 0 && allowed_tools is None && match req.allowed_topics {
            Some(t) => texts(allowed_topics@) == texts(t@),
            None => allowed_topics@.len() == 0,
        }),
        req.class@ == "Blocked"@ ==> (trust matches PrincipalTrust::Blocked {
            blocked_by,
            blocked_at,
            reason,
        } && blocked_by@ == "controller"@ && blocked_at == now && opt_view(reason) == opt_view(
            req.reason,
        )),
{
    trust_tags_are_distinct(TrustLevel::KnownTrusted, TrustLevel::KnownLimited);
    trust_tags_are_distinct(TrustLevel::KnownTrusted, TrustLevel::Blocked);
    trust_tags_are_distinct(TrustLevel::KnownLimited, TrustLevel::Blocked);
    if req.class@ == "KnownLimited"@ && req.allowed_topics is None {
        assert(texts(trust->KnownLimited_allowed_topics@).len()
            == trust->KnownLimited_allowed_topics@.len());
    }
}

/// Of the levels three can be set by hand: trusted, limited and blocked.
pub proof fn three_levels_can_be_set(level: TrustLevel)
    ensures
        settable(level.tag()) <==> level is KnownTrusted || level is KnownLimited
            || level is Blocked,
{
    trust_tags_are_distinct(level, TrustLevel::KnownTrusted);
    trust_tags_are_distinct(level, TrustLevel::KnownLimited);
    trust_tags_are_distinct(level, TrustLevel::Blocked);
}

/// Contacts stand in the order in which they arrived, and those that wait keep it.
pub proof fn contacts_keep_their_order(
    conversation_id: Seq<char>,
    events: Seq<EventRecord>,
    ev: EventRecord,
    p: ColdContactPayload,
    principals: Seq<Principal>,
    all: Seq<ContactModel>,
    c: ContactModel,
)
    requires
        ev.kind is ColdContactArrived,
        ev.payload == Some(Payload::ColdContact(p)),
    ensures
        contacts_in(conversation_id, events.push(ev)).len() == contacts_in(
            conversation_id,
            events,
        ).len() + 1,
        contacts_in(conversation_id, events.push(ev)).last().text == p.text@,
        contacts_in(conversation_id, events).is_prefix_of(
            contacts_in(conversation_id, events.push(ev)),
        ),
        waiting(principals, all).is_prefix_of(waiting(principals, all.push(c))),
{
    assert(events.push(ev).drop_last() =~= events);
    assert(all.push(c).drop_last() =~= all);
    let before = contacts_in(conversation_id, events);
    let after = contacts_in(conversation_id, events.push(ev));
    assert(after.take(before.len() as int) =~= before);
    let waited = waiting(principals, all);
    assert(waiting(principals, all.push(c)).take(waited.len() as int) =~= waited);
}

} // verus!
