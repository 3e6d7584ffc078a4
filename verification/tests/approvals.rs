//! Approvals: tokens, answers, claims, lists and trust changes.

use std::collections::BTreeMap;

use jsonwebtoken::{encode, Algorithm, EncodingKey, Header};
use serde_json::Value;

use execlaw_server::api::ApiError;
use execlaw_server::approval_flow::{
    begin, begin_with, claim_as_me, finish_chain_approval, finish_claim, replay_claim,
    respond_chain_approval, ApprovalAsk, ApprovalEffect, ApprovalStage, ApprovalTurn,
    ChainApprovalDecision, CommitFault, TrustOutcome,
};
use execlaw_server::approval_token::{
    check_claims, issue_approval_token, issue_approval_token_at, rules_of, verify_approval_token,
    ApprovalReason, JwtSigner, TokenClaims,
};
use execlaw_server::approvals::{
    find_cold_contact_event, list_pending_approvals, list_principals, revoke, set_trust,
    ApprovalRequest, ApprovalVerb, ChainRow, Contact, ConversationLog, Identifier, Principal,
    PrincipalTrust, RevokeRequest, SetTrustRequest,
};
use execlaw_server::chat_types::{
    ColdContactPayload, EventKind, EventRecord, Payload, TrustLevel,
};
use execlaw_server::dispatch::{handle_cold_contact, handle_cold_contact_for_inbound, DispatchEvent};
use execlaw_server::json::{JsonMember, JsonValue};

fn bytes(hex: &str) -> Vec<u8> {
    (0..hex.len() / 2).map(|i| u8::from_str_radix(&hex[2 * i..2 * i + 2], 16).unwrap()).collect()
}

/// The first key pair of the Ed25519 test vectors.
fn signer() -> JwtSigner {
    let mut private_der = bytes("302e020100300506032b657004220420");
    private_der
        .extend(bytes("9d61b19deffd5a60ba844af492ec2cc44449c5697b326919703bac031cae7f60"));
    let public = bytes("d75a980182b10ab7d54bfed3c964073a0ee172f3daa62325af021a68f707511a");
    let mut public_key = [0u8; 32];
    public_key.copy_from_slice(&public);
    JwtSigner { issuer: "execlaw".to_owned(), private_der, public_key }
}

/// The second key pair of the Ed25519 test vectors, under the same name.
fn stranger() -> JwtSigner {
    let mut private_der = bytes("302e020100300506032b657004220420");
    private_der
        .extend(bytes("4ccd089b28ff96da9db6c346ec114e0f5b8a319f35aba624da8cf6ed4fb8a6fb"));
    let public = bytes("3d4017c3e843895a92b70aa74d1b7ebc9c982ccf2ec4968cc0cd55f12af4660c");
    let mut public_key = [0u8; 32];
    public_key.copy_from_slice(&public);
    JwtSigner { issuer: "execlaw".to_owned(), private_der, public_key }
}

/// A token of the server's key with these claims beside a fresh expiry.
fn token_with(claims: &[(&str, Value)]) -> String {
    let mut all: BTreeMap<&str, Value> = BTreeMap::from([
        ("iss", Value::from("execlaw")),
        ("jti", Value::from("appr-1")),
        ("conversation_id", Value::from("conv-1")),
        ("reason", Value::from("cold_contact")),
        ("iat", Value::from(1)),
        ("exp", Value::from(4_000_000_000i64)),
    ]);
    all.extend(claims.iter().cloned());
    let key = EncodingKey::from_ed_der(&signer().private_der);
    encode(&Header::new(Algorithm::EdDSA), &all, &key).unwrap()
}

#[test]
fn claims_of_another_type_are_refused() {
    let plain = verify_approval_token(&signer(), &token_with(&[]), "appr-1").unwrap();
    assert_eq!((plain.tool_call_id, plain.iat, plain.exp), (None, 1, 4_000_000_000));
    let named = token_with(&[("tool_call_id", Value::from("call_1"))]);
    let named = verify_approval_token(&signer(), &named, "appr-1").unwrap();
    assert_eq!(named.tool_call_id.as_deref(), Some("call_1"));
    for (name, value, cause) in [
        ("tool_call_id", Value::from(7), "invalid type: integer `7`, expected a string"),
        ("tool_call_id", Value::from(vec!["x"]), "invalid type: sequence, expected a string"),
        ("iss", Value::from(vec!["execlaw"]), "invalid type: sequence, expected a string"),
        ("iss", Value::Null, "invalid type: null, expected a string"),
        ("jti", Value::from(1), "invalid type: integer `1`, expected a string"),
        ("conversation_id", Value::from(true), "invalid type: boolean `true`, expected a string"),
        ("reason", Value::Null, "invalid type: null, expected a string"),
        ("iat", Value::from("1"), "invalid type: string \"1\", expected i64"),
        ("iat", Value::Null, "invalid type: null, expected i64"),
    ] {
        assert_eq!(
            verify_approval_token(&signer(), &token_with(&[(name, value)]), "appr-1").unwrap_err(),
            format!("approval token verification failed: JSON error: {cause}"),
            "{name}"
        );
    }
    let bored = token_with(&[("reason", Value::from("boredom"))]);
    let e = verify_approval_token(&signer(), &bored, "appr-1").unwrap_err();
    assert!(e.contains("unknown variant `boredom`"), "{e}");
}

#[test]
fn tokens_are_decoded_by_the_signers_own_rules() {
    let rules = rules_of(&signer());
    assert_eq!(rules.issuer, "execlaw");
    assert_eq!(rules.public_key, signer().public_key);
    assert_eq!(rules.leeway, 5);
    assert_ne!(rules_of(&stranger()).public_key, rules.public_key);
}

#[test]
fn a_token_verifies_for_its_own_approval() {
    let signer = signer();
    let token = issue_approval_token(&signer, "appr-1", "conv-1", "ask_controller").unwrap();
    assert_eq!(token.matches('.').count(), 2);
    let claims = verify_approval_token(&signer, &token, "appr-1").unwrap();
    assert_eq!(claims.iss, "execlaw");
    assert_eq!(claims.jti, "appr-1");
    assert_eq!(claims.conversation_id, "conv-1");
    assert_eq!(claims.reason, ApprovalReason::AskController);
    assert_eq!(claims.tool_call_id, None);
    assert_eq!(claims.exp - claims.iat, 86_400);
}

#[test]
fn a_token_does_not_verify_for_another_approval() {
    let signer = signer();
    let token = issue_approval_token(&signer, "appr-1", "conv-1", "cold_contact").unwrap();
    assert_eq!(
        verify_approval_token(&signer, &token, "appr-2").unwrap_err(),
        "approval token jti 'appr-1' does not match path approval_id 'appr-2'"
    );
}

#[test]
fn a_token_of_another_issuer_or_a_forged_one_is_refused() {
    let signer = signer();
    let mut other = self::signer();
    other.issuer = "someone".to_owned();
    let foreign = issue_approval_token(&other, "appr-1", "conv-1", "cold_contact").unwrap();
    let e = verify_approval_token(&signer, &foreign, "appr-1").unwrap_err();
    assert!(e.starts_with("approval token verification failed: "), "{e}");

    let token = issue_approval_token(&signer, "appr-1", "conv-1", "cold_contact").unwrap();
    let mut forged = token.clone();
    let last = forged.pop().unwrap();
    forged.push(if last == 'A' { 'Q' } else { 'A' });
    assert!(verify_approval_token(&signer, &forged, "appr-1").is_err());
    assert!(verify_approval_token(&signer, "", "appr-1").is_err());
}

#[test]
fn an_expired_token_is_refused() {
    let signer = signer();
    let old = issue_approval_token_at(&signer, "appr-1", "conv-1", "cold_contact", 1000).unwrap();
    let e = verify_approval_token(&signer, &old, "appr-1").unwrap_err();
    assert_eq!(e, "approval token verification failed: ExpiredSignature");
}

#[test]
fn minting_is_a_function_of_its_inputs() {
    let signer = signer();
    let at = |id: &str, now: i64| issue_approval_token_at(&signer, id, "c", "cold_contact", now);
    assert_eq!(at("appr-1", 5), at("appr-1", 5));
    assert_ne!(at("appr-1", 5), at("appr-2", 5));
    assert_ne!(at("appr-1", 5), at("appr-1", 6));
    // An unknown reason is a cold contact.
    assert_eq!(issue_approval_token_at(&signer, "appr-1", "c", "whatever", 5), at("appr-1", 5));
    let mut broken = self::signer();
    broken.private_der.pop();
    assert_eq!(issue_approval_token_at(&broken, "appr-1", "c", "cold_contact", 5), None);
}

fn claims() -> TokenClaims {
    TokenClaims {
        iss: "execlaw".to_owned(),
        jti: "appr-1".to_owned(),
        conversation_id: "c".to_owned(),
        reason: "anomaly_tripwire".to_owned(),
        tool_call_id: Some("t".to_owned()),
        iat: 1,
        exp: 2,
    }
}

#[test]
fn claims_are_accepted_or_refused() {
    let ok = check_claims(Ok(claims()), "appr-1").unwrap();
    assert_eq!(ok.reason, ApprovalReason::AnomalyTripwire);
    assert_eq!(ok.tool_call_id.as_deref(), Some("t"));
    let without = TokenClaims { tool_call_id: None, ..claims() };
    assert_eq!(check_claims(Ok(without), "appr-1").unwrap().tool_call_id, None);
    let bored = TokenClaims { reason: "boredom".to_owned(), ..claims() };
    assert_eq!(
        check_claims(Ok(bored), "appr-2").unwrap_err(),
        "approval token verification failed: JSON error: unknown variant `boredom`, expected one of `cold_contact`, `rule_of_two_breach`, `sensitive_tool_call`, `ask_controller`, `anomaly_tripwire`"
    );
    assert_eq!(
        check_claims(Err("InvalidToken".to_owned()), "appr-1").unwrap_err(),
        "approval token verification failed: InvalidToken"
    );
    for name in [
        "cold_contact",
        "rule_of_two_breach",
        "sensitive_tool_call",
        "ask_controller",
        "anomaly_tripwire",
    ] {
        assert_eq!(ApprovalReason::parse(name).unwrap().as_str(), name);
    }
}

#[test]
fn a_cold_contact_carries_the_token_of_its_approval() {
    let signer = signer();
    let answer = handle_cold_contact(&signer, "conv-1", "pri_x", "hello");
    assert!(answer.approval_id.starts_with("appr-"));
    assert_eq!(answer.http_status(), 202);
    assert_eq!(answer.status, "awaiting_approval");
    assert_eq!(answer.reason, "cold_contact");
    let token = answer.approval_token.unwrap();
    let claims = verify_approval_token(&signer, &token, &answer.approval_id).unwrap();
    assert_eq!(claims.reason, ApprovalReason::ColdContact);
    match &answer.contact.notices[0] {
        DispatchEvent::AlertFired { alert_id, title, .. } => {
            assert_eq!(alert_id, &answer.approval_id);
            assert_eq!(title, "New contact wants to talk — approve?: pri_x");
        }
        other => panic!("unexpected {other:?}"),
    }
    let other = handle_cold_contact_for_inbound("conv-1", "pri_x", "hello");
    match other.event.payload {
        Payload::ColdContact(p) => {
            assert_eq!(p.text, "hello");
            assert_ne!(p.approval_id, answer.approval_id);
        }
        p => panic!("unexpected {p:?}"),
    }
}

fn contact() -> Contact {
    Contact {
        conversation_id: "conv-1".to_owned(),
        sender_principal_id: "pri_x".to_owned(),
        text: "can we talk".to_owned(),
        approval_id: "appr-1".to_owned(),
    }
}

fn request(verb: ApprovalVerb) -> ApprovalRequest {
    ApprovalRequest {
        verb,
        allowed_topics: vec!["scheduling".to_owned()],
        reason: Some("met in person".to_owned()),
        approval_token: None,
    }
}

fn principal(id: &str, trust_level: PrincipalTrust) -> Principal {
    Principal {
        id: id.to_owned(),
        identifiers: vec![],
        trust_level,
        resolved_by: vec![],
        metadata: JsonValue::Object(vec![]),
        first_seen: 0,
        last_seen: None,
        controller_notes: None,
    }
}

fn trusted() -> PrincipalTrust {
    PrincipalTrust::KnownTrusted {
        resolvers: vec![],
        approved_by: "controller".to_owned(),
        approved_at: 9,
    }
}

fn pending() -> PrincipalTrust {
    PrincipalTrust::UnknownPending { first_seen: 0, notification_event_seq: None }
}

fn refused(ask: ApprovalAsk) -> ApiError {
    match ask {
        ApprovalAsk::Refuse(e) => e,
        other => panic!("expected a refusal, got {other:?}"),
    }
}

fn begun(verb: ApprovalVerb) -> ApprovalTurn {
    begin_with(Ok(()), request(verb), Some(contact()), 42).0.unwrap()
}

#[test]
fn trust_is_written_recorded_shown_and_replayed() {
    let (turn, first) = begin_with(Ok(()), request(ApprovalVerb::Trust), Some(contact()), 42);
    let mut turn = turn.unwrap();
    assert!(first.effects.is_empty());
    match first.ask {
        ApprovalAsk::SetTrust { principal_id, trust } => {
            assert_eq!(principal_id, "pri_x");
            match trust {
                PrincipalTrust::KnownTrusted { approved_by, approved_at, resolvers } => {
                    assert_eq!(approved_by, "controller");
                    assert_eq!(approved_at, 42);
                    assert!(resolvers.is_empty());
                }
                other => panic!("unexpected {other:?}"),
            }
        }
        other => panic!("unexpected {other:?}"),
    }
    let step = turn.on_trust_set(Ok(()));
    match step.ask {
        ApprovalAsk::Commit { conversation_id, event } => {
            assert_eq!(conversation_id, "conv-1");
            assert_eq!(event.actor.as_deref(), Some("controller"));
            match event.payload {
                Payload::TrustChanged(p) => {
                    assert_eq!(p.principal_id, "pri_x");
                    assert_eq!(p.new_class, "KnownTrusted");
                    assert_eq!(p.approval_id, "appr-1");
                    assert_eq!(p.reason.as_deref(), Some("met in person"));
                }
                other => panic!("unexpected {other:?}"),
            }
        }
        other => panic!("unexpected {other:?}"),
    }
    let step = turn.on_committed(Ok(Some(7)));
    assert_eq!(step.effects.len(), 2);
    match &step.effects[0] {
        ApprovalEffect::Inbound { seq, text, sender, .. } => {
            assert_eq!(*seq, 7);
            assert_eq!(text, "can we talk");
            assert_eq!(sender, "pri_x");
        }
        other => panic!("unexpected {other:?}"),
    }
    assert!(matches!(step.effects[1], ApprovalEffect::Unpark { .. }));
    assert!(matches!(step.ask, ApprovalAsk::FetchPrincipal { .. }));
    let step = turn.on_promoted(Some(principal("pri_x", trusted())));
    match step.ask {
        ApprovalAsk::Replay(replay) => {
            assert_eq!(replay.trust, TrustLevel::KnownTrusted);
            assert_eq!(replay.text, "can we talk");
        }
        other => panic!("unexpected {other:?}"),
    }
    let step = turn.on_replayed();
    assert!(matches!(step.effects[0], ApprovalEffect::Resolved { .. }));
    match step.ask {
        ApprovalAsk::Done(r) => {
            assert_eq!(r.new_trust_class, "KnownTrusted");
            assert_eq!(r.outcome, "trust");
            assert_eq!(r.approval_id, "appr-1");
        }
        other => panic!("unexpected {other:?}"),
    }
    assert_eq!(turn.stage, ApprovalStage::Ended);
}

#[test]
fn limited_trust_keeps_the_topics() {
    let (turn, first) =
        begin_with(Ok(()), request(ApprovalVerb::TrustLimited), Some(contact()), 42);
    assert_eq!(turn.unwrap().outcome, TrustOutcome::TrustLimited);
    match first.ask {
        ApprovalAsk::SetTrust {
            trust: PrincipalTrust::KnownLimited { allowed_topics, allowed_tools, .. },
            ..
        } => {
            assert_eq!(allowed_topics, vec!["scheduling".to_owned()]);
            assert!(allowed_tools.is_none());
        }
        other => panic!("unexpected {other:?}"),
    }
}

#[test]
fn a_block_replays_nothing_and_leaves_the_conversation_parked() {
    let mut turn = begun(ApprovalVerb::Block);
    turn.on_trust_set(Ok(()));
    let step = turn.on_committed(Ok(Some(7)));
    assert_eq!(step.effects.len(), 1);
    assert!(matches!(step.effects[0], ApprovalEffect::Resolved { .. }));
    match step.ask {
        ApprovalAsk::Done(r) => {
            assert_eq!(r.new_trust_class, "Blocked");
            assert_eq!(r.outcome, "block");
        }
        other => panic!("unexpected {other:?}"),
    }
}

#[test]
fn ignoring_once_only_frees_the_conversation() {
    let (turn, step) =
        begin_with(Ok(()), request(ApprovalVerb::IgnoreOnce), Some(contact()), 42);
    assert!(turn.is_none());
    assert!(matches!(step.effects[0], ApprovalEffect::Unpark { .. }));
    assert!(matches!(step.effects[1], ApprovalEffect::Resolved { .. }));
    match step.ask {
        ApprovalAsk::Done(r) => {
            assert_eq!(r.new_trust_class, "UnknownPending");
            assert_eq!(r.outcome, "ignore_once");
            assert_eq!(r.principal_id, "pri_x");
        }
        other => panic!("unexpected {other:?}"),
    }
}

#[test]
fn refused_answers_change_nothing() {
    let (turn, step) = begin_with(
        Err("approval token verification failed: InvalidToken".to_owned()),
        request(ApprovalVerb::Trust),
        Some(contact()),
        42,
    );
    assert!(turn.is_none() && step.effects.is_empty());
    let e = refused(step.ask);
    assert_eq!((e.status, e.code.as_str()), (401, "bad_approval_token"));
    assert_eq!(e.message, "approval token verification failed: InvalidToken");

    let (turn, step) = begin_with(Ok(()), request(ApprovalVerb::Edit), Some(contact()), 42);
    assert!(turn.is_none() && step.effects.is_empty());
    let e = refused(step.ask);
    assert_eq!((e.status, e.code.as_str()), (400, "unsupported_verb"));
    assert_eq!(
        e.message,
        "verb Edit is not supported for cold-contact approvals; use Trust / TrustLimited / ClaimAsMe / Block / IgnoreOnce"
    );

    let (_, step) = begin_with(Ok(()), request(ApprovalVerb::Trust), None, 42);
    assert!(matches!(step.ask, ApprovalAsk::Chain));
    let (_, step) = begin_with(Ok(()), request(ApprovalVerb::ClaimAsMe), Some(contact()), 42);
    assert!(matches!(step.ask, ApprovalAsk::Claim(_)));
}

#[test]
fn the_answer_checks_the_token_of_the_request() {
    let signer = signer();
    let mut req = request(ApprovalVerb::Trust);
    req.approval_token = issue_approval_token(&signer, "appr-1", "conv-1", "cold_contact");
    let (turn, _) = begin(&signer, "appr-1", req, Some(contact()), false);
    assert!(turn.is_some());

    let mut req = request(ApprovalVerb::Trust);
    req.approval_token = issue_approval_token(&signer, "appr-9", "conv-1", "cold_contact");
    let (turn, step) = begin(&signer, "appr-1", req, Some(contact()), false);
    assert!(turn.is_none());
    assert_eq!(refused(step.ask).status, 401);

    let (turn, _) = begin(&signer, "appr-1", request(ApprovalVerb::Trust), Some(contact()), false);
    assert!(turn.is_some());
}

#[test]
fn a_token_of_another_key_answers_nothing() {
    let mut req = request(ApprovalVerb::Trust);
    req.approval_token = issue_approval_token(&stranger(), "appr-1", "conv-1", "cold_contact");
    assert!(req.approval_token.is_some());
    let (turn, step) = begin(&signer(), "appr-1", req, Some(contact()), false);
    assert!(turn.is_none() && step.effects.is_empty());
    let e = refused(step.ask);
    assert_eq!((e.status, e.code.as_str()), (401, "bad_approval_token"));
    assert_eq!(e.message, "approval token verification failed: InvalidSignature");
}

#[test]
fn a_missing_token_is_refused_where_it_is_required() {
    let signer = signer();
    let (turn, step) =
        begin(&signer, "appr-1", request(ApprovalVerb::IgnoreOnce), Some(contact()), true);
    assert!(turn.is_none() && step.effects.is_empty());
    let e = refused(step.ask);
    assert_eq!((e.status, e.code.as_str()), (401, "bad_approval_token"));
    assert_eq!(e.message, "approval token required");

    let mut req = request(ApprovalVerb::Trust);
    req.approval_token = issue_approval_token(&signer, "appr-1", "conv-1", "cold_contact");
    assert!(begin(&signer, "appr-1", req, Some(contact()), true).0.is_some());
}

#[test]
fn faults_of_the_store_are_reported() {
    let mut turn = begun(ApprovalVerb::Trust);
    assert_eq!(refused(turn.on_trust_set(Err("locked".to_owned())).ask).message, "set_trust: locked");

    for (fault, message) in [
        (CommitFault::Encode("x".to_owned()), "encode trust_changed: x"),
        (CommitFault::LastSeq("x".to_owned()), "last_seq: x"),
        (CommitFault::Commit("x".to_owned()), "commit trust_changed: x"),
    ] {
        let mut turn = begun(ApprovalVerb::Trust);
        turn.on_trust_set(Ok(()));
        let e = refused(turn.on_committed(Err(fault)).ask);
        assert_eq!((e.status, e.code.as_str(), e.message.as_str()), (500, "internal", message));
    }

    let mut turn = begun(ApprovalVerb::Trust);
    turn.on_trust_set(Ok(()));
    match &turn.on_committed(Ok(None)).effects[0] {
        ApprovalEffect::Inbound { seq, .. } => assert_eq!(*seq, 0),
        other => panic!("unexpected {other:?}"),
    }
    assert_eq!(refused(turn.on_promoted(None).ask).message, "post-trust principal lookup failed");
}

fn identifier(transport: &str, handle: &str) -> Identifier {
    Identifier { transport: transport.to_owned(), handle: handle.to_owned() }
}

#[test]
fn a_claim_moves_the_identifiers_once() {
    let mut stale = principal("pri_x", pending());
    stale.identifiers =
        vec![identifier("signal", "+1"), identifier("sms", "+1"), identifier("signal", "+1")];
    let mut me = principal("pri_me", PrincipalTrust::Controller);
    me.identifiers = vec![identifier("sms", "+1")];
    me.resolved_by = vec!["contacts".to_owned()];
    me.controller_notes = Some("that is me".to_owned());
    let plan = claim_as_me(Some(stale), "pri_me", Some(me), 42);
    assert!(plan.save);
    assert_eq!(plan.controller.resolved_by, vec!["contacts".to_owned()]);
    assert_eq!(plan.controller.controller_notes.as_deref(), Some("that is me"));
    assert_eq!(plan.controller.last_seen, Some(42));
    let got: Vec<(&str, &str)> = plan
        .controller
        .identifiers
        .iter()
        .map(|i| (i.transport.as_str(), i.handle.as_str()))
        .collect();
    assert_eq!(got, vec![("sms", "+1"), ("signal", "+1")]);

    let again = claim_as_me(None, "pri_me", Some(plan.controller), 99);
    assert!(!again.save);
    assert_eq!(again.controller.last_seen, Some(42));

    let fresh = claim_as_me(None, "pri_me", None, 42);
    assert!(!fresh.save);
    assert_eq!(fresh.controller.id, "pri_me");
    assert_eq!(fresh.controller.trust_level.flat(), TrustLevel::Controller);

    let replay =
        replay_claim(&contact(), Some(principal("pri_me", PrincipalTrust::Controller))).unwrap();
    assert_eq!(replay.trust, TrustLevel::Controller);
    assert_eq!(
        replay_claim(&contact(), None).unwrap_err().message,
        "controller principal vanished mid-claim"
    );
    match finish_claim(&contact(), "pri_me").ask {
        ApprovalAsk::Done(r) => {
            assert_eq!(r.principal_id, "pri_me");
            assert_eq!(r.new_trust_class, "Controller");
            assert_eq!(r.outcome, "claim_as_me");
        }
        other => panic!("unexpected {other:?}"),
    }
}

#[test]
fn chain_approvals_are_decided_or_refused() {
    assert_eq!(
        respond_chain_approval(true, ApprovalVerb::Approve).unwrap(),
        ChainApprovalDecision::Approve
    );
    assert_eq!(
        respond_chain_approval(true, ApprovalVerb::Reject).unwrap(),
        ChainApprovalDecision::Deny
    );
    let e = respond_chain_approval(false, ApprovalVerb::Approve).unwrap_err();
    assert_eq!((e.status, e.message.as_str()), (404, "no pending approval matches this approval_id"));
    let e = respond_chain_approval(true, ApprovalVerb::Trust).unwrap_err();
    assert_eq!(
        e.message,
        "verb Trust is not supported for chain approvals; use Approve or Reject"
    );

    let chain = JsonValue::Object(vec![
        JsonMember {
            key: "conversation_id".to_owned(),
            value: JsonValue::Text("conv-1".to_owned()),
        },
        JsonMember { key: "status".to_owned(), value: JsonValue::Text("running".to_owned()) },
    ]);
    let (effect, report) = finish_chain_approval("appr-1", Ok(chain));
    assert!(matches!(effect, Some(ApprovalEffect::Resolved { .. })));
    let report = report.unwrap();
    assert_eq!(report.principal_id, "tool-chain");
    assert_eq!(report.new_trust_class, "N/A");
    assert_eq!(report.conversation_id, "conv-1");
    assert_eq!(report.status().and_then(|s| s.as_str()), Some("running"));

    let (effect, report) = finish_chain_approval("appr-1", Ok(JsonValue::Null));
    assert!(effect.is_none());
    assert!(report.unwrap().status().is_none());
    let (_, report) = finish_chain_approval("appr-1", Err("approval_not_found".to_owned()));
    assert_eq!(report.unwrap_err().status, 404);
    let (_, report) = finish_chain_approval("appr-1", Err("db".to_owned()));
    assert_eq!(report.unwrap_err().message, "chain approval resolve: db");
}

fn arrival(approval_id: &str, sender: &str, text: &str) -> EventRecord {
    EventRecord {
        seq: 1,
        kind: EventKind::ColdContactArrived,
        payload: Some(Payload::ColdContact(ColdContactPayload {
            text: text.to_owned(),
            sender_principal_id: sender.to_owned(),
            approval_id: approval_id.to_owned(),
        })),
        actor: None,
        committed_at: 0,
    }
}

fn log(id: &str, events: Option<Vec<EventRecord>>) -> ConversationLog {
    ConversationLog { conversation_id: id.to_owned(), events }
}

#[test]
fn list_principals_returns_empty_on_fresh_db() {
    assert_eq!(list_principals(&[]).principals.len(), 0);
}

#[test]
fn list_pending_approvals_returns_empty_on_fresh_db() {
    assert_eq!(list_pending_approvals(&[], &[], &[]).approvals.len(), 0);
}

#[test]
fn list_pending_filters_out_events_whose_principal_was_reconciled_away() {
    let logs = [log(
        "conv-phantom",
        Some(vec![arrival("appr-phantom-1", "pri_signal_+15551234567", "Good morning")]),
    )];
    assert_eq!(list_pending_approvals(&logs, &[], &[]).approvals.len(), 0);
}

#[test]
fn list_pending_keeps_events_whose_principal_is_unknown_pending() {
    let logs = [log(
        "conv-real",
        Some(vec![arrival("appr-real-1", "pri_signal_+15559998888", "hi can we chat")]),
    )];
    let principals = [principal("pri_signal_+15559998888", pending())];
    let listed = list_pending_approvals(&logs, &principals, &[]);
    assert_eq!(listed.approvals.len(), 1);
    assert_eq!(listed.approvals[0].approval_id, "appr-real-1");
}

#[test]
fn pending_approvals_skip_what_was_decided_and_add_the_chains() {
    let logs = [
        log("c0", None),
        log(
            "c1",
            Some(vec![
                arrival("appr-1", "pri_a", "one"),
                arrival("appr-2", "pri_b", "two"),
                EventRecord {
                    seq: 3,
                    kind: EventKind::ColdContactArrived,
                    payload: None,
                    actor: None,
                    committed_at: 0,
                },
            ]),
        ),
    ];
    let principals = [principal("pri_a", trusted()), principal("pri_b", pending())];
    let chains = [ChainRow {
        approval_id: "appr-3".to_owned(),
        conversation_id: "c2".to_owned(),
        objective: "book a flight".to_owned(),
    }];
    let listed = list_pending_approvals(&logs, &principals, &chains);
    let ids: Vec<&str> = listed.approvals.iter().map(|a| a.approval_id.as_str()).collect();
    assert_eq!(ids, vec!["appr-2", "appr-3"]);
    assert_eq!(listed.approvals[1].sender_principal_id, "tool-chain");
    assert_eq!(
        listed.approvals[1].original_text,
        "Tool-chain execution awaiting approval: book a flight"
    );
    let found = find_cold_contact_event(&logs, "appr-1").unwrap();
    assert_eq!((found.conversation_id.as_str(), found.text.as_str()), ("c1", "one"));
    assert!(find_cold_contact_event(&logs, "appr-3").is_none());
}

#[test]
fn principals_are_listed_with_their_names() {
    let mut p = principal("pri_a", pending());
    p.metadata = JsonValue::Object(vec![JsonMember {
        key: "display_name".to_owned(),
        value: JsonValue::Text("Ada".to_owned()),
    }]);
    p.identifiers = vec![identifier("signal", "+1")];
    let listed = list_principals(&[p, principal("pri_b", PrincipalTrust::Delegated)]);
    assert_eq!(listed.principals[0].display_name.as_deref(), Some("Ada"));
    assert_eq!(listed.principals[0].trust_class, "UnknownPending");
    assert_eq!(listed.principals[0].identifiers[0].handle, "+1");
    assert_eq!(listed.principals[1].trust_class, "Delegated");
    assert_eq!(listed.principals[1].display_name, None);
}

fn change(class: &str) -> SetTrustRequest {
    SetTrustRequest { class: class.to_owned(), allowed_topics: None, reason: None }
}

#[test]
fn set_trust_404s_unknown_principal() {
    let e = set_trust("pri_does_not_exist", false, change("KnownTrusted"), 1).unwrap_err();
    assert_eq!(e.status, 404);
    assert_eq!(e.code, "principal_not_found");
    assert_eq!(e.message, "no principal with id 'pri_does_not_exist'");
}

#[test]
fn set_trust_elevates_limited_to_trusted() {
    let write = set_trust("pri_signal_+15551111111", true, change("KnownTrusted"), 1).unwrap();
    assert_eq!(write.new_trust_class, "KnownTrusted");
    assert_eq!(write.trust.flat().as_str(), "KnownTrusted");
    assert_eq!(write.outcome, "trust_changed");
}

#[test]
fn set_trust_demotes_to_limited_with_topic_scope() {
    let req = SetTrustRequest {
        class: "KnownLimited".to_owned(),
        allowed_topics: Some(vec!["scheduling".to_owned(), "logistics".to_owned()]),
        reason: None,
    };
    match set_trust("pri_signal_+15552222222", true, req, 1).unwrap().trust {
        PrincipalTrust::KnownLimited { allowed_topics, .. } => {
            assert_eq!(allowed_topics, vec!["scheduling".to_owned(), "logistics".to_owned()]);
        }
        other => panic!("expected KnownLimited, got {other:?}"),
    }
    match set_trust("p", true, change("KnownLimited"), 1).unwrap().trust {
        PrincipalTrust::KnownLimited { allowed_topics, .. } => assert!(allowed_topics.is_empty()),
        other => panic!("expected KnownLimited, got {other:?}"),
    }
}

#[test]
fn set_trust_blocks_with_reason() {
    let req = SetTrustRequest {
        class: "Blocked".to_owned(),
        allowed_topics: None,
        reason: Some("spam after vacation".to_owned()),
    };
    match set_trust("pri_signal_+15553333333", true, req, 1).unwrap().trust {
        PrincipalTrust::Blocked { reason, .. } => {
            assert_eq!(reason.as_deref(), Some("spam after vacation"));
        }
        other => panic!("expected Blocked, got {other:?}"),
    }
}

#[test]
fn set_trust_rejects_non_settable_classes() {
    for forbidden in ["Controller", "Delegated", "UnknownPending", "Garbage"] {
        let e = set_trust("pri_signal_+15554444444", true, change(forbidden), 1).unwrap_err();
        assert_eq!(e.status, 400, "class {forbidden} must be rejected");
        assert_eq!(e.code, "unsupported_class");
    }
}

#[test]
fn revoking_blocks() {
    let write = revoke("p", true, RevokeRequest { reason: Some("done".to_owned()) }, 5).unwrap();
    assert_eq!((write.new_trust_class.as_str(), write.outcome.as_str()), ("Blocked", "revoked"));
    match write.trust {
        PrincipalTrust::Blocked { blocked_by, blocked_at, reason } => {
            assert_eq!((blocked_by.as_str(), blocked_at), ("controller", 5));
            assert_eq!(reason.as_deref(), Some("done"));
        }
        other => panic!("unexpected {other:?}"),
    }
    assert_eq!(revoke("p", false, RevokeRequest { reason: None }, 5).unwrap_err().status, 404);
}
