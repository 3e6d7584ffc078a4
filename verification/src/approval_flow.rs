//! How an answered approval takes effect, step by step. The machine says what to do
//! next; its caller does it and hands the result back.

use vstd::prelude::*;
use crate::api::{error, ApiError};
use crate::approval_token::{
    expired_cause, signed_under, token_at, unverified_text, verify_approval_token, JwtSigner,
};
use crate::approvals::{
    block_by_controller, pairs, trust_of_controller, trust_on_topics, ApprovalRequest,
    ApprovalResponse, ApprovalVerb, Contact, Identifier, Principal, PrincipalTrust, ResponseModel,
};
use crate::chat_types::{
    EventKind, Payload, PendingEvent, TrustChangedPayload, TrustLevel,
};
use crate::json::{JsonMember, JsonValue};
use crate::platform::{utc_now, LAST_SECOND};
use crate::text::{opt_view, same, texts};

verus! {

/// The verbs that change the sender's trust.
#[derive(Clone, Copy, Debug, PartialEq, Eq, Structural)]
pub enum TrustOutcome {
    Trust,
    TrustLimited,
    Block,
}

impl TrustOutcome {
    /// The name that is reported.
    pub open spec fn name(self) -> Seq<char> {
        match self {
            TrustOutcome::Trust => "trust"@,
            TrustOutcome::TrustLimited => "trust_limited"@,
            TrustOutcome::Block => "block"@,
        }
    }

    /// The trust that the sender has afterwards.
    pub open spec fn level(self) -> TrustLevel {
        match self {
            TrustOutcome::Trust => TrustLevel::KnownTrusted,
            TrustOutcome::TrustLimited => TrustLevel::KnownLimited,
            TrustOutcome::Block => TrustLevel::Blocked,
        }
    }

    /// The name that is reported.
    pub fn as_str(&self) -> (r: &'static str)
        ensures
            r@ == self.name(),
    {
        match self {
            TrustOutcome::Trust => "trust",
            TrustOutcome::TrustLimited => "trust_limited",
            TrustOutcome::Block => "block",
        }
    }

    /// The class tag of the trust that the sender has afterwards.
    pub fn class_tag(&self) -> (r: &'static str)
        ensures
            r@ == self.level().tag(),
    {
        match self {
            TrustOutcome::Trust => TrustLevel::KnownTrusted.as_str(),
            TrustOutcome::TrustLimited => TrustLevel::KnownLimited.as_str(),
            TrustOutcome::Block => TrustLevel::Blocked.as_str(),
        }
    }
}

/// Something to be done without waiting for a result.
#[derive(Debug)]
pub enum ApprovalEffect {
    /// Show the parked message.
    Inbound { conversation_id: String, seq: i64, text: String, sender: String },
    /// Set the conversation idle.
    Unpark { conversation_id: String },
    /// Tell the clients that the approval is answered.
    Resolved { approval_id: String, conversation_id: String },
}

/// A parked message that runs as a turn now. It carries no attachments.
#[derive(Debug)]
pub struct Replay {
    pub conversation_id: String,
    pub principal: Principal,
    pub trust: TrustLevel,
    pub text: String,
}

/// What the machine needs next, or how it ended.
#[derive(Debug)]
pub enum ApprovalAsk {
    /// The approval is about no cold contact. It may be a tool chain's.
    Chain,
    /// The controller says that the sender is them.
    Claim(Contact),
    /// Write the sender's trust.
    SetTrust { principal_id: String, trust: PrincipalTrust },
    /// Append an event to the conversation's log.
    Commit { conversation_id: String, event: PendingEvent },
    /// Read the sender back.
    FetchPrincipal { principal_id: String },
    /// Run the parked message. A turn that fails changes nothing here.
    Replay(Replay),
    /// The request is refused.
    Refuse(ApiError),
    /// The approval is answered.
    Done(ApprovalResponse),
}

/// What to do, in order, and what comes next.
#[derive(Debug)]
pub struct ApprovalStep {
    pub effects: Vec<ApprovalEffect>,
    pub ask: ApprovalAsk,
}

/// Why the trust change could not be recorded.
#[derive(Debug)]
pub enum CommitFault {
    Encode(String),
    LastSeq(String),
    Commit(String),
}

/// What the machine waits for.
#[derive(Clone, Copy, Debug, PartialEq, Eq, Structural)]
pub enum ApprovalStage {
    SettingTrust,
    Committing,
    Promoting,
    Replaying,
    Ended,
}

impl ApprovalStage {
    /// How far an answer has come. Every step takes it further, so it ends.
    pub open spec fn place(self) -> nat {
        match self {
            ApprovalStage::SettingTrust => 0,
            ApprovalStage::Committing => 1,
            ApprovalStage::Promoting => 2,
            ApprovalStage::Replaying => 3,
            ApprovalStage::Ended => 4,
        }
    }
}

/// An approval that is being answered with a verb that changes trust.
#[derive(Debug)]
pub struct ApprovalTurn {
    pub contact: Contact,
    pub outcome: TrustOutcome,
    pub reason: Option<String>,
    pub stage: ApprovalStage,
}

fn step(ask: ApprovalAsk) -> (r: ApprovalStep)
    ensures
        r.effects@.len() == 0,
        r.ask == ask,
{
    ApprovalStep { effects: Vec::new(), ask }
}

/// The report on an answered approval.
pub open spec fn report(
    contact: Contact,
    principal_id: Seq<char>,
    class: Seq<char>,
    outcome: Seq<char>,
) -> ResponseModel {
    ResponseModel {
        approval_id: contact.approval_id@,
        principal_id,
        conversation_id: contact.conversation_id@,
        new_trust_class: class,
        outcome,
    }
}

fn respond(contact: &Contact, principal_id: &str, class: &str, outcome: &str) -> (r:
    ApprovalResponse)
    ensures
        r@ == report(*contact, principal_id@, class@, outcome@),
{
    ApprovalResponse {
        approval_id: contact.approval_id.clone(),
        principal_id: principal_id.to_owned(),
        conversation_id: contact.conversation_id.clone(),
        new_trust_class: class.to_owned(),
        outcome: outcome.to_owned(),
    }
}

/// The clients learn that the approval is answered.
pub open spec fn resolved(contact: Contact) -> ApprovalEffect {
    ApprovalEffect::Resolved {
        approval_id: contact.approval_id,
        conversation_id: contact.conversation_id,
    }
}

fn resolve(contact: &Contact) -> (r: ApprovalEffect)
    ensures
        r == resolved(*contact),
{
    ApprovalEffect::Resolved {
        approval_id: contact.approval_id.clone(),
        conversation_id: contact.conversation_id.clone(),
    }
}

/// The conversation is set idle.
pub open spec fn unparked(contact: Contact) -> ApprovalEffect {
    ApprovalEffect::Unpark { conversation_id: contact.conversation_id }
}

/// What a verb that fits no cold contact is refused with.
pub open spec fn unsupported_verb_text(verb: ApprovalVerb) -> Seq<char> {
    "verb "@ + verb.name()
        + " is not supported for cold-contact approvals; use Trust / TrustLimited / ClaimAsMe / Block / IgnoreOnce"@
}

/// The outcome of a verb that changes trust.
pub open spec fn outcome_of(verb: ApprovalVerb) -> Option<TrustOutcome> {
    match verb {
        ApprovalVerb::Trust => Some(TrustOutcome::Trust),
        ApprovalVerb::TrustLimited => Some(TrustOutcome::TrustLimited),
        ApprovalVerb::Block => Some(TrustOutcome::Block),
        _ => None,
    }
}

/// The trust that an outcome stands for.
pub open spec fn granted(
    trust: PrincipalTrust,
    outcome: TrustOutcome,
    req: ApprovalRequest,
    now: i64,
) -> bool {
    match outcome {
        TrustOutcome::Trust => trust.trusted(now),
        TrustOutcome::TrustLimited => trust.limited(texts(req.allowed_topics@)),
        TrustOutcome::Block => trust.blocked(now, opt_view(req.reason)),
    }
}

/// How an answer begins. A bad token is refused before anything else; an approval
/// without a cold contact goes to the tool chains; the verb decides the rest.
pub open spec fn begun(
    token: Result<(), String>,
    req: ApprovalRequest,
    contact: Option<Contact>,
    now: i64,
    turn: Option<ApprovalTurn>,
    first: ApprovalStep,
) -> bool {
    match (token, contact) {
        (Err(e), _) => {
            &&& turn is None
            &&& first.effects@.len() == 0
            &&& first.ask matches ApprovalAsk::Refuse(refusal)
            &&& refusal@ == error(401, "bad_approval_token"@, e@)
        },
        (Ok(_), None) => turn is None && first.effects@.len() == 0 && first.ask is Chain,
        (Ok(_), Some(c)) => match outcome_of(req.verb) {
            Some(outcome) => {
                &&& turn == Some(
                    ApprovalTurn {
                        contact: c,
                        outcome,
                        reason: req.reason,
                        stage: ApprovalStage::SettingTrust,
                    },
                )
                &&& first.effects@.len() == 0
                &&& first.ask matches ApprovalAsk::SetTrust { principal_id, trust }
                &&& principal_id == c.sender_principal_id
                &&& granted(trust, outcome, req, now)
            },
            None => turn is None && match req.verb {
                ApprovalVerb::IgnoreOnce => {
                    &&& first.effects@ == seq![unparked(c), resolved(c)]
                    &&& first.ask matches ApprovalAsk::Done(response)
                    &&& response@ == report(
                        c,
                        c.sender_principal_id@,
                        "UnknownPending"@,
                        "ignore_once"@,
                    )
                },
                ApprovalVerb::ClaimAsMe => first.effects@.len() == 0 && first.ask
                    == ApprovalAsk::Claim(c),
                _ => {
                    &&& first.effects@.len() == 0
                    &&& first.ask matches ApprovalAsk::Refuse(refusal)
                    &&& refusal@ == error(
                        400,
                        "unsupported_verb"@,
                        unsupported_verb_text(req.verb),
                    )
                },
            },
        },
    }
}

/// Begins to answer an approval, given what became of its token.
pub fn begin_with(
    token: Result<(), String>,
    req: ApprovalRequest,
    contact: Option<Contact>,
    now: i64,
) -> (r: (Option<ApprovalTurn>, ApprovalStep))
    ensures
        begun(token, req, contact, now, r.0, r.1),
{
    match token {
        Err(e) => {
            return (
                None,
                step(ApprovalAsk::Refuse(ApiError::new(401, "bad_approval_token", e))),
            );
        },
        Ok(_) => {},
    }
    let contact: Contact = match contact {
        Some(c) => c,
        None => {
            return (None, step(ApprovalAsk::Chain));
        },
    };
    let (outcome, trust): (TrustOutcome, PrincipalTrust) = match req.verb {
        ApprovalVerb::Trust => (TrustOutcome::Trust, trust_of_controller(now)),
        ApprovalVerb::TrustLimited => (
            TrustOutcome::TrustLimited,
            trust_on_topics(req.allowed_topics),
        ),
        ApprovalVerb::Block => (TrustOutcome::Block, block_by_controller(now, req.reason.clone())),
        ApprovalVerb::IgnoreOnce => {
            let mut effects: Vec<ApprovalEffect> = Vec::new();
            effects.push(
                ApprovalEffect::Unpark { conversation_id: contact.conversation_id.clone() },
            );
            effects.push(resolve(&contact));
            assert(effects@ =~= seq![unparked(contact), resolved(contact)]);
            let response = respond(
                &contact,
                contact.sender_principal_id.as_str(),
                "UnknownPending",
                "ignore_once",
            );
            return (None, ApprovalStep { effects, ask: ApprovalAsk::Done(response) });
        },
        ApprovalVerb::ClaimAsMe => {
            return (None, step(ApprovalAsk::Claim(contact)));
        },
        other => {
            let mut message: String = "verb ".to_owned();
            message.append(other.as_str());
            message.append(
                " is not supported for cold-contact approvals; use Trust / TrustLimited / ClaimAsMe / Block / IgnoreOnce",
            );
            return (
                None,
                step(ApprovalAsk::Refuse(ApiError::new(400, "unsupported_verb", message))),
            );
        },
    };
    let ask = ApprovalAsk::SetTrust {
        principal_id: contact.sender_principal_id.clone(),
        trust,
    };
    let turn = ApprovalTurn {
        contact,
        outcome,
        reason: req.reason,
        stage: ApprovalStage::SettingTrust,
    };
    (Some(turn), step(ask))
}

/// What becomes of a request without a token.
pub open spec fn unsigned(token: Result<(), String>, token_required: bool) -> bool {
    match token {
        Ok(_) => !token_required,
        Err(m) => token_required && m@ == "approval token required"@,
    }
}

/// The token is the server's own, minted for this approval.
pub open spec fn own_token(signer: JwtSigner, approval_id: Seq<char>, token: Seq<char>) -> bool {
    exists|conversation_id: Seq<char>, reason: Seq<char>, minted: i64|
        0 <= minted <= LAST_SECOND && #[trigger] token_at(
            signer,
            approval_id,
            conversation_id,
            reason,
            minted,
        ) == Some(token)
}

/// The request's token was accepted, or its time is over.
pub open spec fn accepted_or_expired(token: Result<(), String>) -> bool {
    token matches Err(m) ==> m@ == unverified_text(expired_cause())
}

/// The request is refused for its token, and nothing is done.
pub open spec fn token_refused(turn: Option<ApprovalTurn>, first: ApprovalStep) -> bool {
    &&& turn is None
    &&& first.effects@.len() == 0
    &&& first.ask matches ApprovalAsk::Refuse(refusal)
    &&& refusal.status == 401
    &&& refusal.code@ == "bad_approval_token"@
}

/// Begins to answer an approval. A token is checked where the request has one, and
/// a request without one is refused where `token_required`. A token that is not
/// signed under the server's key, or that was minted for another approval, answers
/// nothing; the server's own token for this approval fails only by its expiry.
pub fn begin(
    signer: &JwtSigner,
    approval_id: &str,
    req: ApprovalRequest,
    contact: Option<Contact>,
    token_required: bool,
) -> (r: (Option<ApprovalTurn>, ApprovalStep))
    ensures
        exists|token: Result<(), String>, now: i64|
            0 <= now <= LAST_SECOND && #[trigger] begun(token, req, contact, now, r.0, r.1) && (
            req.approval_token is None ==> unsigned(token, token_required)) && (
            req.approval_token matches Some(t) ==> (signer.paired() && own_token(
                *signer,
                approval_id@,
                t@,
            ) ==> accepted_or_expired(token))),
        req.approval_token matches Some(t) && !signed_under(t@, signer.public_key@)
            ==> token_refused(r.0, r.1),
        forall|
            minter: JwtSigner,
            other_id: Seq<char>,
            conversation_id: Seq<char>,
            reason: Seq<char>,
            minted: i64,
        |
            req.approval_token matches Some(t) && Some(t@) == #[trigger] token_at(
                minter,
                other_id,
                conversation_id,
                reason,
                minted,
            ) && other_id != approval_id@ ==> token_refused(r.0, r.1),
{
    let token: Result<(), String> = match &req.approval_token {
        Some(token) => match verify_approval_token(signer, token.as_str(), approval_id) {
            Ok(_) => Ok(()),
            Err(e) => Err(e),
        },
        None => if token_required {
            Err("approval token required".to_owned())
        } else {
            Ok(())
        },
    };
    let now: i64 = utc_now();
    let ghost asked = req;
    let ghost whom = contact;
    let r = begin_with(token, req, contact, now);
    proof {
        if let Some(t) = asked.approval_token {
            if signer.paired() && own_token(*signer, approval_id@, t@) {
                assert(accepted_or_expired(token));
            }
        }
        assert(begun(token, asked, whom, now, r.0, r.1));
    }
    r
}

/// The sender's parked message is answered after this outcome.
pub open spec fn replays(outcome: TrustOutcome) -> bool {
    outcome != TrustOutcome::Block
}

/// The event that records a trust change.
pub open spec fn records_change(event: PendingEvent, turn: ApprovalTurn) -> bool {
    &&& event.kind is TrustChanged
    &&& opt_view(event.actor) == Some("controller"@)
    &&& event.payload matches Payload::TrustChanged(p)
    &&& p.principal_id == turn.contact.sender_principal_id
    &&& p.new_class@ == turn.outcome.level().tag()
    &&& p.approval_id == turn.contact.approval_id
    &&& p.reason == turn.reason
}

/// What follows once the trust change is recorded: the parked message is shown and
/// the conversation set idle, unless the sender was blocked.
pub open spec fn after_commit(contact: Contact, outcome: TrustOutcome, seq: Option<i64>) -> Seq<
    ApprovalEffect,
> {
    if replays(outcome) {
        seq![
            ApprovalEffect::Inbound {
                conversation_id: contact.conversation_id,
                seq: match seq {
                    Some(n) => n,
                    None => 0,
                },
                text: contact.text,
                sender: contact.sender_principal_id,
            },
            unparked(contact),
        ]
    } else {
        seq![resolved(contact)]
    }
}

/// The machine ends with the report of its outcome.
pub open spec fn ends_well(turn: ApprovalTurn, ask: ApprovalAsk) -> bool {
    &&& ask matches ApprovalAsk::Done(response)
    &&& response@ == report(
        turn.contact,
        turn.contact.sender_principal_id@,
        turn.outcome.level().tag(),
        turn.outcome.name(),
    )
}

/// What a fault of the log is reported as.
pub open spec fn fault_text(fault: CommitFault) -> Seq<char> {
    match fault {
        CommitFault::Encode(e) => "encode trust_changed"@ + ": "@ + e@,
        CommitFault::LastSeq(e) => "last_seq"@ + ": "@ + e@,
        CommitFault::Commit(e) => "commit trust_changed"@ + ": "@ + e@,
    }
}

impl ApprovalTurn {
    /// The same turn at another stage.
    pub open spec fn at(self, stage: ApprovalStage) -> ApprovalTurn {
        ApprovalTurn { stage, ..self }
    }

    fn response(&self) -> (r: ApprovalAsk)
        ensures
            ends_well(*self, r),
    {
        ApprovalAsk::Done(
            respond(
                &self.contact,
                self.contact.sender_principal_id.as_str(),
                self.outcome.class_tag(),
                self.outcome.as_str(),
            ),
        )
    }

    /// The trust was written, or could not be.
    pub fn on_trust_set(&mut self, written: Result<(), String>) -> (r: ApprovalStep)
        requires
            old(self).stage == ApprovalStage::SettingTrust,
        ensures
            old(self).stage.place() < final(self).stage.place(),
            r.effects@.len() == 0,
            written is Ok ==> {
                &&& *final(self) == old(self).at(ApprovalStage::Committing)
                &&& r.ask matches ApprovalAsk::Commit { conversation_id, event }
                &&& conversation_id == old(self).contact.conversation_id
                &&& records_change(event, *old(self))
            },
            written matches Err(e) ==> {
                &&& *final(self) == old(self).at(ApprovalStage::Ended)
                &&& r.ask matches ApprovalAsk::Refuse(refusal)
                &&& refusal@ == error(500, "internal"@, "set_trust"@ + ": "@ + e@)
            },
    {
        match written {
            Err(e) => {
                self.stage = ApprovalStage::Ended;
                step(ApprovalAsk::Refuse(ApiError::internal("set_trust", e.as_str())))
            },
            Ok(_) => {
                self.stage = ApprovalStage::Committing;
                let event = PendingEvent {
                    kind: EventKind::TrustChanged,
                    payload: Payload::TrustChanged(
                        TrustChangedPayload {
                            principal_id: self.contact.sender_principal_id.clone(),
                            new_class: self.outcome.class_tag().to_owned(),
                            approval_id: self.contact.approval_id.clone(),
                            reason: self.reason.clone(),
                        },
                    ),
                    actor: Some("controller".to_owned()),
                };
                step(
                    ApprovalAsk::Commit {
                        conversation_id: self.contact.conversation_id.clone(),
                        event,
                    },
                )
            },
        }
    }

    /// The trust change was recorded, and the log ends at a number that may be
    /// unreadable; or it could not be recorded.
    pub fn on_committed(&mut self, committed: Result<Option<i64>, CommitFault>) -> (r: ApprovalStep)
        requires
            old(self).stage == ApprovalStage::Committing,
        ensures
            old(self).stage.place() < final(self).stage.place(),
            committed matches Err(fault) ==> {
                &&& *final(self) == old(self).at(ApprovalStage::Ended)
                &&& r.effects@.len() == 0
                &&& r.ask matches ApprovalAsk::Refuse(refusal)
                &&& refusal@ == error(500, "internal"@, fault_text(fault))
            },
            committed matches Ok(seq) ==> r.effects@ == after_commit(
                old(self).contact,
                old(self).outcome,
                seq,
            ),
            committed is Ok && replays(old(self).outcome) ==> {
                &&& *final(self) == old(self).at(ApprovalStage::Promoting)
                &&& r.ask == (ApprovalAsk::FetchPrincipal {
                    principal_id: old(self).contact.sender_principal_id,
                })
            },
            committed is Ok && !replays(old(self).outcome) ==> {
                &&& *final(self) == old(self).at(ApprovalStage::Ended)
                &&& ends_well(*old(self), r.ask)
            },
    {
        let seq: Option<i64> = match committed {
            Ok(seq) => seq,
            Err(fault) => {
                self.stage = ApprovalStage::Ended;
                let refusal = match fault {
                    CommitFault::Encode(e) => ApiError::internal(
                        "encode trust_changed",
                        e.as_str(),
                    ),
                    CommitFault::LastSeq(e) => ApiError::internal("last_seq", e.as_str()),
                    CommitFault::Commit(e) => ApiError::internal(
                        "commit trust_changed",
                        e.as_str(),
                    ),
                };
                return step(ApprovalAsk::Refuse(refusal));
            },
        };
        let mut effects: Vec<ApprovalEffect> = Vec::new();
        if self.outcome == TrustOutcome::Block {
            self.stage = ApprovalStage::Ended;
            effects.push(resolve(&self.contact));
            assert(effects@ =~= after_commit(self.contact, self.outcome, seq));
            let ask = self.response();
            return ApprovalStep { effects, ask };
        }
        let number: i64 = match seq {
            Some(n) => n,
            None => 0,
        };
        effects.push(
            ApprovalEffect::Inbound {
                conversation_id: self.contact.conversation_id.clone(),
                seq: number,
                text: self.contact.text.clone(),
                sender: self.contact.sender_principal_id.clone(),
            },
        );
        effects.push(
            ApprovalEffect::Unpark { conversation_id: self.contact.conversation_id.clone() },
        );
        assert(effects@ =~= after_commit(self.contact, self.outcome, seq));
        self.stage = ApprovalStage::Promoting;
        let ask = ApprovalAsk::FetchPrincipal {
            principal_id: self.contact.sender_principal_id.clone(),
        };
        ApprovalStep { effects, ask }
    }

    /// The sender was read back, or is not there.
    pub fn on_promoted(&mut self, promoted: Option<Principal>) -> (r: ApprovalStep)
        requires
            old(self).stage == ApprovalStage::Promoting,
        ensures
            old(self).stage.place() < final(self).stage.place(),
            r.effects@.len() == 0,
            promoted matches Some(principal) ==> {
                &&& *final(self) == old(self).at(ApprovalStage::Replaying)
                &&& r.ask == ApprovalAsk::Replay(
                    Replay {
                        conversation_id: old(self).contact.conversation_id,
                        principal,
                        trust: principal.trust_level.level(),
                        text: old(self).contact.text,
                    },
                )
            },
            promoted is None ==> {
                &&& *final(self) == old(self).at(ApprovalStage::Ended)
                &&& r.ask matches ApprovalAsk::Refuse(refusal)
                &&& refusal@ == error(500, "internal"@, "post-trust principal lookup failed"@)
            },
    {
        match promoted {
            None => {
                self.stage = ApprovalStage::Ended;
                step(
                    ApprovalAsk::Refuse(
                        ApiError::new(
                            500,
                            "internal",
                            "post-trust principal lookup failed".to_owned(),
                        ),
                    ),
                )
            },
            Some(principal) => {
                self.stage = ApprovalStage::Replaying;
                let trust: TrustLevel = principal.trust_level.flat();
                step(
                    ApprovalAsk::Replay(
                        Replay {
                            conversation_id: self.contact.conversation_id.clone(),
                            principal,
                            trust,
                            text: self.contact.text.clone(),
                        },
                    ),
                )
            },
        }
    }

    /// The parked message has run, with or without success: the trust stands.
    pub fn on_replayed(&mut self) -> (r: ApprovalStep)
        requires
            old(self).stage == ApprovalStage::Replaying,
        ensures
            old(self).stage.place() < final(self).stage.place(),
            *final(self) == old(self).at(ApprovalStage::Ended),
            r.effects@ == seq![resolved(old(self).contact)],
            ends_well(*old(self), r.ask),
    {
        self.stage = ApprovalStage::Ended;
        let mut effects: Vec<ApprovalEffect> = Vec::new();
        effects.push(resolve(&self.contact));
        assert(effects@ =~= seq![resolved(self.contact)]);
        let ask = self.response();
        ApprovalStep { effects, ask }
    }
}

/// A refused answer changes nothing: a bad token or a verb that fits no cold
/// contact leads to no effect and to no turn.
pub proof fn a_refused_answer_changes_nothing(
    token: Result<(), String>,
    req: ApprovalRequest,
    contact: Option<Contact>,
    now: i64,
    turn: Option<ApprovalTurn>,
    first: ApprovalStep,
)
    requires
        begun(token, req, contact, now, turn, first),
        token is Err || (contact is Some && (req.verb == ApprovalVerb::Approve || req.verb
            == ApprovalVerb::Edit || req.verb == ApprovalVerb::Reject)),
    ensures
        turn is None,
        first.effects@.len() == 0,
        first.ask is Refuse,
{
}

/// The trust that is written is the one that is recorded and reported, and a
/// message is replayed for a trusted sender only.
pub proof fn the_verb_decides_the_trust(
    req: ApprovalRequest,
    contact: Option<Contact>,
    now: i64,
    turn: Option<ApprovalTurn>,
    first: ApprovalStep,
)
    requires
        begun(Ok(()), req, contact, now, turn, first),
        turn is Some,
    ensures
        first.ask matches ApprovalAsk::SetTrust { trust, .. } && trust.level()
            == turn->0.outcome.level(),
        replays(turn->0.outcome) <==> turn->0.outcome.level() != TrustLevel::Blocked,
        replays(turn->0.outcome) <==> req.verb == ApprovalVerb::Trust || req.verb
            == ApprovalVerb::TrustLimited,
{
}

/// A blocked sender's conversation stays parked, and their message unseen.
pub proof fn a_block_shows_and_frees_nothing(contact: Contact, seq: Option<i64>, i: int)
    requires
        0 <= i < after_commit(contact, TrustOutcome::Block, seq).len(),
    ensures
        after_commit(contact, TrustOutcome::Block, seq)[i] is Resolved,
{
}

/// The identifiers `extra` added to `base`, each once.
pub open spec fn merged(
    base: Seq<(Seq<char>, Seq<char>)>,
    extra: Seq<(Seq<char>, Seq<char>)>,
) -> Seq<(Seq<char>, Seq<char>)>
    decreases extra.len(),
{
    if extra.len() == 0 {
        base
    } else {
        let before = merged(base, extra.drop_last());
        if before.contains(extra.last()) {
            before
        } else {
            before.push(extra.last())
        }
    }
}

fn holds_identifier(identifiers: &Vec<Identifier>, wanted: &Identifier) -> (r: bool)
    ensures
        r == pairs(identifiers@).contains(wanted.pair()),
{
    let mut i: usize = 0;
    while i < identifiers.len()
        invariant
            i <= identifiers.len(),
            forall|j: int| 0 <= j < i ==> (#[trigger] pairs(identifiers@)[j]) != wanted.pair(),
        decreases identifiers.len() - i,
    {
        if same(identifiers[i].transport.as_str(), wanted.transport.as_str()) && same(
            identifiers[i].handle.as_str(),
            wanted.handle.as_str(),
        ) {
            assert(pairs(identifiers@)[i as int] == wanted.pair());
            return true;
        }
        assert(pairs(identifiers@)[i as int] != wanted.pair());
        i += 1;
    }
    false
}

/// The controller's record after a claim, and whether it has to be saved.
#[derive(Debug)]
pub struct ClaimPlan {
    pub controller: Principal,
    pub save: bool,
}

/// The identifiers of a principal that may not be there.
pub open spec fn pairs_of(principal: Option<Principal>) -> Seq<(Seq<char>, Seq<char>)> {
    match principal {
        Some(p) => pairs(p.identifiers@),
        None => Seq::empty(),
    }
}

/// The controller's record after a claim: the identifiers of the sender are the
/// controller's, each once, and nothing else changes but the time it was last seen,
/// where an identifier is new. A controller without a record gets one.
pub open spec fn claimed(
    plan: ClaimPlan,
    stale: Option<Principal>,
    controller_id: Seq<char>,
    controller: Option<Principal>,
    now: i64,
) -> bool {
    let before = pairs_of(controller);
    let after = merged(before, pairs_of(stale));
    &&& pairs(plan.controller.identifiers@) == after
    &&& plan.save == (after.len() > before.len())
    &&& match controller {
        Some(c) => {
            &&& plan.controller.id == c.id
            &&& plan.controller.trust_level == c.trust_level
            &&& plan.controller.resolved_by == c.resolved_by
            &&& plan.controller.controller_notes == c.controller_notes
            &&& plan.controller.metadata == c.metadata
            &&& plan.controller.first_seen == c.first_seen
            &&& plan.controller.last_seen == (if plan.save {
                Some(now)
            } else {
                c.last_seen
            })
        },
        None => {
            &&& plan.controller.id@ == controller_id
            &&& plan.controller.trust_level is Controller
            &&& plan.controller.resolved_by@.len() == 0
            &&& plan.controller.controller_notes is None
            &&& plan.controller.metadata matches JsonValue::Object(m)
            &&& m@.len() == 0
            &&& plan.controller.first_seen == now
            &&& plan.controller.last_seen == Some(now)
        },
    }
}

/// Makes the identifiers of a cold contact's sender the controller's. A sender who
/// is gone was merged already, and adds none.
pub fn claim_as_me(
    stale: Option<Principal>,
    controller_id: &str,
    controller: Option<Principal>,
    now: i64,
) -> (plan: ClaimPlan)
    ensures
        claimed(plan, stale, controller_id@, controller, now),
{
    let ghost before = pairs_of(controller);
    let mut row: Principal = match controller {
        Some(c) => c,
        None => {
            let members: Vec<JsonMember> = Vec::new();
            Principal {
                id: controller_id.to_owned(),
                identifiers: Vec::new(),
                trust_level: PrincipalTrust::Controller,
                resolved_by: Vec::new(),
                metadata: JsonValue::Object(members),
                first_seen: now,
                last_seen: Some(now),
                controller_notes: None,
            }
        },
    };
    assert(pairs(row.identifiers@) =~= before);
    let ghost start = row;
    let extra: Vec<Identifier> = match stale {
        Some(s) => s.identifiers,
        None => Vec::new(),
    };
    let ghost added = pairs(extra@);
    assert(added =~= pairs_of(stale));
    let mut save: bool = false;
    let mut i: usize = 0;
    assert(added.take(0) =~= Seq::<(Seq<char>, Seq<char>)>::empty());
    while i < extra.len()
        invariant
            i <= extra.len(),
            added == pairs(extra@),
            pairs(row.identifiers@) == merged(before, added.take(i as int)),
            save == (pairs(row.identifiers@).len() > before.len()),
            pairs(row.identifiers@).len() >= before.len(),
            row == (Principal { identifiers: row.identifiers, ..start }),
        decreases extra.len() - i,
    {
        let ghost so_far = pairs(row.identifiers@);
        let wanted: &Identifier = &extra[i];
        assert(added.take(i + 1).drop_last() =~= added.take(i as int));
        assert(added.take(i + 1).last() == wanted.pair());
        if !holds_identifier(&row.identifiers, wanted) {
            row.identifiers.push(wanted.clone());
            assert(pairs(row.identifiers@) =~= so_far.push(wanted.pair()));
            save = true;
        }
        i += 1;
    }
    assert(added.take(i as int) =~= added);
    if save {
        row.last_seen = Some(now);
    }
    ClaimPlan { controller: row, save }
}

/// What a claim replays, once the controller's record has been read back.
pub fn replay_claim(contact: &Contact, controller: Option<Principal>) -> (r: Result<
    Replay,
    ApiError,
>)
    ensures
        controller matches Some(principal) ==> r == Ok::<Replay, ApiError>(
            Replay {
                conversation_id: contact.conversation_id,
                principal,
                trust: TrustLevel::Controller,
                text: contact.text,
            },
        ),
        controller is None ==> (r matches Err(e) && e@ == error(
            500,
            "internal"@,
            "controller principal vanished mid-claim"@,
        )),
{
    match controller {
        Some(principal) => Ok(
            Replay {
                conversation_id: contact.conversation_id.clone(),
                principal,
                trust: TrustLevel::Controller,
                text: contact.text.clone(),
            },
        ),
        None => Err(
            ApiError::new(500, "internal", "controller principal vanished mid-claim".to_owned()),
        ),
    }
}

/// Ends a claim: the approval is answered, whatever became of the replay.
pub fn finish_claim(contact: &Contact, controller_id: &str) -> (r: ApprovalStep)
    ensures
        r.effects@ == seq![resolved(*contact)],
        r.ask matches ApprovalAsk::Done(response) && response@ == report(
            *contact,
            controller_id@,
            "Controller"@,
            "claim_as_me"@,
        ),
{
    let mut effects: Vec<ApprovalEffect> = Vec::new();
    effects.push(resolve(contact));
    assert(effects@ =~= seq![resolved(*contact)]);
    ApprovalStep {
        effects,
        ask: ApprovalAsk::Done(respond(contact, controller_id, "Controller", "claim_as_me")),
    }
}

/// A claim gives the controller every identifier of the sender, keeps those the
/// controller had, in their places, and makes none double.
pub proof fn a_claim_adds_each_identifier_once(
    base: Seq<(Seq<char>, Seq<char>)>,
    extra: Seq<(Seq<char>, Seq<char>)>,
)
    ensures
        base.is_prefix_of(merged(base, extra)),
        forall|i: int| 0 <= i < extra.len() ==> merged(base, extra).contains(#[trigger] extra[i]),
        base.no_duplicates() ==> merged(base, extra).no_duplicates(),
    decreases extra.len(),
{
    if extra.len() == 0 {
        assert(base.take(base.len() as int) =~= base);
    } else {
        let front = extra.drop_last();
        let before = merged(base, front);
        let after = merged(base, extra);
        a_claim_adds_each_identifier_once(base, front);
        assert forall|i: int| 0 <= i < extra.len() implies after.contains(#[trigger] extra[i]) by {
            if i < front.len() {
                assert(front[i] == extra[i]);
                let k = choose|k: int| 0 <= k < before.len() && before[k] == front[i];
                assert(after[k] == extra[i]);
            } else if !before.contains(extra.last()) {
                assert(after[before.len() as int] == extra[i]);
            }
        }
    }
}

/// A claim that is repeated adds nothing: once the controller has the identifiers,
/// the record is not saved again.
pub proof fn a_repeated_claim_adds_nothing(
    base: Seq<(Seq<char>, Seq<char>)>,
    extra: Seq<(Seq<char>, Seq<char>)>,
)
    requires
        forall|i: int| 0 <= i < extra.len() ==> base.contains(#[trigger] extra[i]),
    ensures
        merged(base, extra) == base,
    decreases extra.len(),
{
    if extra.len() > 0 {
        let front = extra.drop_last();
        assert forall|i: int| 0 <= i < front.len() implies base.contains(#[trigger] front[i]) by {
            assert(front[i] == extra[i]);
        }
        a_repeated_claim_adds_nothing(base, front);
        assert(base.contains(extra[extra.len() - 1]));
    }
}

/// What the controller decides about a tool chain.
#[derive(Clone, Copy, Debug, PartialEq, Eq, Structural)]
pub enum ChainApprovalDecision {
    Approve,
    Deny,
}

/// The decision that a verb stands for.
pub open spec fn chain_decision(verb: ApprovalVerb) -> Option<ChainApprovalDecision> {
    match verb {
        ApprovalVerb::Approve => Some(ChainApprovalDecision::Approve),
        ApprovalVerb::Reject => Some(ChainApprovalDecision::Deny),
        _ => None,
    }
}

/// Answers an approval that is about no cold contact. It is decided where a tool
/// chain waits under its id and the verb is a decision.
pub fn respond_chain_approval(waiting: bool, verb: ApprovalVerb) -> (r: Result<
    ChainApprovalDecision,
    ApiError,
>)
    ensures
        !waiting ==> (r matches Err(e) && e@ == error(
            404,
            "approval_not_found"@,
            "no pending approval matches this approval_id"@,
        )),
        waiting && chain_decision(verb) is None ==> (r matches Err(e) && e@ == error(
            400,
            "unsupported_verb"@,
            "verb "@ + verb.name()
                + " is not supported for chain approvals; use Approve or Reject"@,
        )),
        waiting ==> (chain_decision(verb) matches Some(d) ==> r == Ok::<
            ChainApprovalDecision,
            ApiError,
        >(d)),
{
    if !waiting {
        return Err(
            ApiError::new(
                404,
                "approval_not_found",
                "no pending approval matches this approval_id".to_owned(),
            ),
        );
    }
    match verb {
        ApprovalVerb::Approve => Ok(ChainApprovalDecision::Approve),
        ApprovalVerb::Reject => Ok(ChainApprovalDecision::Deny),
        other => {
            let mut message: String = "verb ".to_owned();
            message.append(other.as_str());
            message.append(" is not supported for chain approvals; use Approve or Reject");
            Err(ApiError::new(400, "unsupported_verb", message))
        },
    }
}

/// The report on a decided tool chain. Its outcome is the chain's `status`, or
/// `unknown` where the chain has none.
#[derive(Debug)]
pub struct ChainReport {
    pub approval_id: String,
    pub principal_id: String,
    pub conversation_id: String,
    pub new_trust_class: String,
    pub chain: JsonValue,
}

impl ChainReport {
    /// The outcome, where the chain has a `status`.
    pub fn status(&self) -> (r: Option<&JsonValue>)
        ensures
            r is Some == self.chain.field("status"@) is Some,
            r matches Some(v) ==> self.chain.field("status"@) == Some(*v),
    {
        self.chain.get("status")
    }
}

/// The conversation of a decided chain; empty where it names none.
pub open spec fn chain_conversation(chain: JsonValue) -> Seq<char> {
    match chain.text_field("conversation_id"@) {
        Some(id) => id,
        None => Seq::empty(),
    }
}

/// Reports on a tool chain's approval, given what became of the decision. The
/// clients are told where the chain names its conversation.
pub fn finish_chain_approval(approval_id: &str, decided: Result<JsonValue, String>) -> (r: (
    Option<ApprovalEffect>,
    Result<ChainReport, ApiError>,
))
    ensures
        decided matches Err(e) ==> r.0 is None && (r.1 matches Err(refusal) && refusal@ == (if e@
            == "approval_not_found"@ {
            error(
                404,
                "approval_not_found"@,
                "no pending chain approval matches this approval_id"@,
            )
        } else {
            error(500, "internal"@, "chain approval resolve"@ + ": "@ + e@)
        })),
        decided matches Ok(chain) ==> {
            &&& r.1 matches Ok(done)
            &&& done.approval_id@ == approval_id@
            &&& done.principal_id@ == "tool-chain"@
            &&& done.conversation_id@ == chain_conversation(chain)
            &&& done.new_trust_class@ == "N/A"@
            &&& done.chain == chain
        },
        decided matches Ok(chain) ==> (r.0 is Some <==> chain_conversation(chain).len() > 0),
        decided matches Ok(chain) ==> (r.0 matches Some(effect) ==> {
            &&& effect matches ApprovalEffect::Resolved { approval_id: a, conversation_id: c }
            &&& a@ == approval_id@
            &&& c@ == chain_conversation(chain)
        }),
{
    match decided {
        Err(e) => {
            let refusal = if same(e.as_str(), "approval_not_found") {
                ApiError::new(
                    404,
                    "approval_not_found",
                    "no pending chain approval matches this approval_id".to_owned(),
                )
            } else {
                ApiError::internal("chain approval resolve", e.as_str())
            };
            (None, Err(refusal))
        },
        Ok(chain) => {
            let conversation_id: String = match chain.get_str("conversation_id") {
                Some(id) => id.to_owned(),
                None => String::new(),
            };
            let effect: Option<ApprovalEffect> = if conversation_id.as_str().unicode_len() > 0 {
                Some(
                    ApprovalEffect::Resolved {
                        approval_id: approval_id.to_owned(),
                        conversation_id: conversation_id.clone(),
                    },
                )
            } else {
                None
            };
            let done = ChainReport {
                approval_id: approval_id.to_owned(),
                principal_id: "tool-chain".to_owned(),
                conversation_id,
                new_trust_class: "N/A".to_owned(),
                chain,
            };
            (effect, Ok(done))
        },
    }
}

/// Every verb begins in its own way for a cold contact: trust, limited trust and a
/// block are written for the sender, a claim is asked for, a contact that is ignored
/// once is unparked and reported, and no other verb is taken.
pub proof fn each_verb_begins_its_own_way(
    req: ApprovalRequest,
    c: Contact,
    now: i64,
    turn: Option<ApprovalTurn>,
    first: ApprovalStep,
)
    requires
        begun(Ok(()), req, Some(c), now, turn, first),
    ensures
        req.verb is Trust ==> (first.ask matches ApprovalAsk::SetTrust { principal_id, trust }
            && principal_id == c.sender_principal_id && (trust matches PrincipalTrust::KnownTrusted {
            resolvers,
            approved_by,
            approved_at,
        } && resolvers@.len() == 0 && approved_by@ == "controller"@ && approved_at == now)),
        req.verb is TrustLimited ==> (first.ask matches ApprovalAsk::SetTrust {
            principal_id,
            trust,
        } && principal_id == c.sender_principal_id && (trust matches PrincipalTrust::KnownLimited {
            resolvers,
            allowed_topics,
            allowed_tools,
        } && texts(allowed_topics@) == texts(req.allowed_topics@) && allowed_tools is None)),
        req.verb is Block ==> (first.ask matches ApprovalAsk::SetTrust { principal_id, trust }
            && principal_id == c.sender_principal_id && (trust matches PrincipalTrust::Blocked {
            blocked_by,
            blocked_at,
            reason,
        } && blocked_by@ == "controller"@ && blocked_at == now && opt_view(reason) == opt_view(
            req.reason,
        ))),
        req.verb is Trust || req.verb is TrustLimited || req.verb is Block ==> (turn matches Some(t)
            && t.contact == c && t.reason == req.reason && t.stage is SettingTrust),
        req.verb is IgnoreOnce ==> turn is None && (first.ask matches ApprovalAsk::Done(response)
            && response.approval_id@ == c.approval_id@ && response.principal_id@
            == c.sender_principal_id@ && response.conversation_id@ == c.conversation_id@
            && response.new_trust_class@ == "UnknownPending"@ && response.outcome@
            == "ignore_once"@),
        req.verb is IgnoreOnce ==> first.effects@.len() == 2 && (
        first.effects@[0] matches ApprovalEffect::Unpark { conversation_id } && conversation_id
            == c.conversation_id) && (first.effects@[1] matches ApprovalEffect::Resolved {
            approval_id,
            conversation_id,
        } && approval_id == c.approval_id && conversation_id == c.conversation_id),
        req.verb is ClaimAsMe ==> turn is None && first.ask == ApprovalAsk::Claim(c)
            && first.effects@.len() == 0,
        req.verb is Approve || req.verb is Reject || req.verb is Edit ==> turn is None && (
        first.ask matches ApprovalAsk::Refuse(refusal) && refusal.status == 400 && refusal.code@
            == "unsupported_verb"@),
{
}

/// A sender who is not blocked is heard: their parked message is shown where it was
/// sent, as it was sent, and the conversation goes on. A block is only announced.
pub proof fn a_trusted_sender_is_heard(contact: Contact, outcome: TrustOutcome, seq: Option<i64>)
    ensures
        outcome is Block ==> after_commit(contact, outcome, seq).len() == 1,
        outcome is Block ==> (after_commit(contact, outcome, seq)[0] matches ApprovalEffect::Resolved {
            approval_id,
            conversation_id,
        } && approval_id == contact.approval_id && conversation_id == contact.conversation_id),
        !(outcome is Block) ==> after_commit(contact, outcome, seq).len() == 2,
        !(outcome is Block) ==> (after_commit(contact, outcome, seq)[0] matches ApprovalEffect::Inbound {
            conversation_id,
            seq: shown_seq,
            text,
            sender,
        } && conversation_id == contact.conversation_id && text == contact.text && sender
            == contact.sender_principal_id && (seq matches Some(n) ==> shown_seq == n) && (
        seq is None ==> shown_seq == 0)),
        !(outcome is Block) ==> (after_commit(contact, outcome, seq)[1] matches ApprovalEffect::Unpark {
            conversation_id,
        } && conversation_id == contact.conversation_id),
{
}

/// The log says who was decided on, under which approval, why, and with what class.
pub proof fn a_decision_is_recorded_as_it_fell(event: PendingEvent, turn: ApprovalTurn)
    requires
        records_change(event, turn),
    ensures
        event.kind is TrustChanged,
        opt_view(event.actor) == Some("controller"@),
        event.payload matches Payload::TrustChanged(p) && p.principal_id
            == turn.contact.sender_principal_id && p.approval_id == turn.contact.approval_id
            && p.reason == turn.reason && (turn.outcome is Trust ==> p.new_class@
            == "KnownTrusted"@) && (turn.outcome is TrustLimited ==> p.new_class@
            == "KnownLimited"@) && (turn.outcome is Block ==> p.new_class@ == "Blocked"@),
{
}

/// An answer ends with a report on the contact it was about.
pub proof fn an_answer_reports_on_its_contact(turn: ApprovalTurn, ask: ApprovalAsk)
    requires
        ends_well(turn, ask),
    ensures
        ask matches ApprovalAsk::Done(response) && response.approval_id@
            == turn.contact.approval_id@ && response.principal_id@
            == turn.contact.sender_principal_id@ && response.conversation_id@
            == turn.contact.conversation_id@ && (turn.outcome is Trust ==> response.outcome@
            == "trust"@ && response.new_trust_class@ == "KnownTrusted"@) && (
        turn.outcome is TrustLimited ==> response.outcome@ == "trust_limited"@
            && response.new_trust_class@ == "KnownLimited"@) && (turn.outcome is Block
            ==> response.outcome@ == "block"@ && response.new_trust_class@ == "Blocked"@),
{
}

/// A claim adds nobody else's identifiers: each one comes from the controller or
/// from the sender.
pub proof fn a_claim_adds_nothing_foreign(
    base: Seq<(Seq<char>, Seq<char>)>,
    extra: Seq<(Seq<char>, Seq<char>)>,
    k: int,
)
    requires
        0 <= k < merged(base, extra).len(),
    ensures
        base.contains(merged(base, extra)[k]) || extra.contains(merged(base, extra)[k]),
    decreases extra.len(),
{
    if extra.len() > 0 {
        let front = extra.drop_last();
        let before = merged(base, front);
        if k < before.len() {
            a_claim_adds_nothing_foreign(base, front, k);
            if front.contains(before[k]) {
                let j = choose|j: int| 0 <= j < front.len() && front[j] == before[k];
                assert(extra[j] == before[k]);
            }
        } else {
            assert(extra[extra.len() - 1] == merged(base, extra)[k]);
        }
    } else {
        assert(base[k] == merged(base, extra)[k]);
    }
}

/// A claim changes nothing of the controller's record but the identifiers and the
/// time it was last seen, keeps the identifiers it had in their places, and is saved
/// where it brings a new one.
pub proof fn a_claim_keeps_the_controllers_record(
    plan: ClaimPlan,
    stale: Option<Principal>,
    controller_id: Seq<char>,
    c: Principal,
    now: i64,
    i: int,
)
    requires
        claimed(plan, stale, controller_id, Some(c), now),
        0 <= i < c.identifiers@.len(),
    ensures
        plan.controller.id == c.id,
        plan.controller.trust_level == c.trust_level,
        plan.controller.metadata == c.metadata,
        plan.controller.first_seen == c.first_seen,
        plan.controller.identifiers@.len() >= c.identifiers@.len(),
        plan.controller.identifiers@[i].transport@ == c.identifiers@[i].transport@,
        plan.controller.identifiers@[i].handle@ == c.identifiers@[i].handle@,
        plan.save <==> plan.controller.identifiers@.len() > c.identifiers@.len(),
        plan.save ==> plan.controller.last_seen == Some(now),
        !plan.save ==> plan.controller.last_seen == c.last_seen,
{
    let before = pairs(c.identifiers@);
    let extra = pairs_of(stale);
    let after = merged(before, extra);
    a_claim_adds_each_identifier_once(before, extra);
    assert(before.len() == c.identifiers@.len());
    assert(pairs(plan.controller.identifiers@).len() == plan.controller.identifiers@.len());
    assert(after.take(before.len() as int)[i] == before[i]);
    assert(before[i] == c.identifiers@[i].pair());
    assert(pairs(plan.controller.identifiers@)[i] == plan.controller.identifiers@[i].pair());
}

/// A claim leaves the controller with each of the sender's identifiers.
pub proof fn a_claim_brings_the_senders_identifiers(
    plan: ClaimPlan,
    sender: Principal,
    controller_id: Seq<char>,
    controller: Option<Principal>,
    now: i64,
    i: int,
) -> (k: int)
    requires
        claimed(plan, Some(sender), controller_id, controller, now),
        0 <= i < sender.identifiers@.len(),
    ensures
        0 <= k < plan.controller.identifiers@.len(),
        plan.controller.identifiers@[k].transport@ == sender.identifiers@[i].transport@,
        plan.controller.identifiers@[k].handle@ == sender.identifiers@[i].handle@,
{
    let before = pairs_of(controller);
    let extra = pairs(sender.identifiers@);
    let after = merged(before, extra);
    a_claim_adds_each_identifier_once(before, extra);
    assert(extra[i] == sender.identifiers@[i].pair());
    assert(after.contains(extra[i]));
    let k = choose|k: int| 0 <= k < after.len() && after[k] == extra[i];
    assert(pairs(plan.controller.identifiers@)[k] == plan.controller.identifiers@[k].pair());
    k
}

/// A tool chain is decided by approval and rejection, and by no other verb.
pub proof fn a_chain_is_approved_or_denied(verb: ApprovalVerb)
    ensures
        verb is Approve <==> chain_decision(verb) == Some(ChainApprovalDecision::Approve),
        verb is Reject <==> chain_decision(verb) == Some(ChainApprovalDecision::Deny),
        chain_decision(verb) is None <==> !(verb is Approve) && !(verb is Reject),
{
}

/// A fault of the log is told with the step that failed and its cause.
pub proof fn a_fault_names_its_step(cause: String)
    ensures
        fault_text(CommitFault::Encode(cause)) == "encode trust_changed"@ + ": "@ + cause@,
        fault_text(CommitFault::LastSeq(cause)) == "last_seq"@ + ": "@ + cause@,
        fault_text(CommitFault::Commit(cause)) == "commit trust_changed"@ + ": "@ + cause@,
{
}

/// A decided chain belongs to the conversation that it names.
pub proof fn a_chain_belongs_to_its_conversation(chain: JsonValue)
    ensures
        chain.text_field("conversation_id"@) matches Some(id) ==> chain_conversation(chain) == id,
        chain.text_field("conversation_id"@) is None ==> chain_conversation(chain).len() == 0,
{
}

} // verus!
