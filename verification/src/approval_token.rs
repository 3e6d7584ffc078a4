//! Signed approval tokens. A token names the approval it is for, so that nobody
//! can answer an approval by guessing its id.

use vstd::prelude::*;
use jsonwebtoken::errors::Error;
use jsonwebtoken::{decode, encode, Algorithm, DecodingKey, EncodingKey, Header, Validation};
use serde_json::{from_value, Value};
use std::collections::BTreeMap;
use crate::platform::{utc_now, LAST_SECOND};
use crate::text::{opt_view, same};

verus! {

/// How long the controller has to answer: one day.
pub const TOKEN_LIFETIME_SECS: i64 = 86_400;

/// The clock skew that a token's expiry is granted.
pub const LEEWAY_SECS: u64 = 5;

/// The key pair of the server and the name it signs under.
pub struct JwtSigner {
    pub issuer: String,
    /// The Ed25519 private key, PKCS#8 in DER.
    pub private_der: Vec<u8>,
    /// The Ed25519 public key.
    pub public_key: [u8; 32],
}

impl JwtSigner {
    /// The two keys belong together: what the private key signs verifies under the
    /// public key.
    pub open spec fn paired(self) -> bool {
        forall|
            iss: Seq<char>,
            jti: Seq<char>,
            conversation_id: Seq<char>,
            reason: Seq<char>,
            iat: i64,
            exp: i64,
        |
            (#[trigger] signed_token(
                self.private_der@,
                iss,
                jti,
                conversation_id,
                reason,
                iat,
                exp,
            )) matches Some(token) ==> signed_under(token, self.public_key@)
    }
}

/// Why an approval is asked for.
#[derive(Clone, Copy, Debug, PartialEq, Eq, Structural)]
pub enum ApprovalReason {
    ColdContact,
    RuleOfTwoBreach,
    SensitiveToolCall,
    AskController,
    AnomalyTripwire,
}

impl ApprovalReason {
    /// The name of a reason.
    pub open spec fn name(self) -> Seq<char> {
        match self {
            ApprovalReason::ColdContact => "cold_contact"@,
            ApprovalReason::RuleOfTwoBreach => "rule_of_two_breach"@,
            ApprovalReason::SensitiveToolCall => "sensitive_tool_call"@,
            ApprovalReason::AskController => "ask_controller"@,
            ApprovalReason::AnomalyTripwire => "anomaly_tripwire"@,
        }
    }

    /// The name of a reason.
    pub fn as_str(&self) -> (r: &'static str)
        ensures
            r@ == self.name(),
    {
        match self {
            ApprovalReason::ColdContact => "cold_contact",
            ApprovalReason::RuleOfTwoBreach => "rule_of_two_breach",
            ApprovalReason::SensitiveToolCall => "sensitive_tool_call",
            ApprovalReason::AskController => "ask_controller",
            ApprovalReason::AnomalyTripwire => "anomaly_tripwire",
        }
    }

    /// The reason of a name.
    pub fn parse(name: &str) -> (r: Option<ApprovalReason>)
        ensures
            r matches Some(reason) ==> reason.name() == name@,
            r is None ==> forall|reason: ApprovalReason| #[trigger] reason.name() != name@,
    {
        if same(name, "cold_contact") {
            Some(ApprovalReason::ColdContact)
        } else if same(name, "rule_of_two_breach") {
            Some(ApprovalReason::RuleOfTwoBreach)
        } else if same(name, "sensitive_tool_call") {
            Some(ApprovalReason::SensitiveToolCall)
        } else if same(name, "ask_controller") {
            Some(ApprovalReason::AskController)
        } else if same(name, "anomaly_tripwire") {
            Some(ApprovalReason::AnomalyTripwire)
        } else {
            None
        }
    }
}

/// No two reasons share a name.
pub proof fn reason_names_are_distinct(a: ApprovalReason, b: ApprovalReason)
    ensures
        a.name() == b.name() <==> a == b,
{
    reveal_strlit("cold_contact");
    reveal_strlit("rule_of_two_breach");
    reveal_strlit("sensitive_tool_call");
    reveal_strlit("ask_controller");
    reveal_strlit("anomaly_tripwire");
    if a.name() == b.name() {
        assert(a.name().len() == b.name().len());
        assert(a.name()[1] == b.name()[1]);
    }
}

/// What a token vouches for.
#[derive(Debug)]
pub struct ApprovalClaims {
    pub iss: String,
    /// The approval that the token is for.
    pub jti: String,
    pub conversation_id: String,
    pub reason: ApprovalReason,
    pub tool_call_id: Option<String>,
    pub iat: i64,
    pub exp: i64,
}

/// The claims that a decoded token bears. The reason is not judged yet.
#[derive(Debug)]
pub struct TokenClaims {
    pub iss: String,
    pub jti: String,
    pub conversation_id: String,
    pub reason: String,
    pub tool_call_id: Option<String>,
    pub iat: i64,
    pub exp: i64,
}

/// What a token is decoded by.
#[derive(Debug)]
pub struct DecodeRules {
    pub issuer: String,
    pub public_key: [u8; 32],
    pub leeway: u64,
}

/// The token that `jsonwebtoken` signs, with EdDSA and this private key, for these
/// claims; none where the key cannot be read.
pub uninterp spec fn signed_token(
    private_der: Seq<u8>,
    iss: Seq<char>,
    jti: Seq<char>,
    conversation_id: Seq<char>,
    reason: Seq<char>,
    iat: i64,
    exp: i64,
) -> Option<Seq<char>>;

/// Calls `jsonwebtoken::encode` with an EdDSA header on the six claims and a null
/// `tool_call_id`: the token is a function of the key and the claims, as an EdDSA
/// signature is, and comes if and only if the key can be read.
#[verifier::external_body]
fn sign_claims(
    private_der: &Vec<u8>,
    iss: &str,
    jti: &str,
    conversation_id: &str,
    reason: &str,
    iat: i64,
    exp: i64,
) -> (r: Option<String>)
    ensures
        opt_view(r) == signed_token(private_der@, iss@, jti@, conversation_id@, reason@, iat, exp),
{
    let claims: BTreeMap<&str, Value> = BTreeMap::from([
        ("iss", Value::from(iss)),
        ("jti", Value::from(jti)),
        ("conversation_id", Value::from(conversation_id)),
        ("reason", Value::from(reason)),
        ("tool_call_id", Value::Null),
        ("iat", Value::from(iat)),
        ("exp", Value::from(exp)),
    ]);
    let key = EncodingKey::from_ed_der(private_der);
    encode(&Header::new(Algorithm::EdDSA), &claims, &key).ok()
}

/// The claims are those that [`signed_token`] was given.
pub open spec fn bears(
    claims: TokenClaims,
    iss: Seq<char>,
    jti: Seq<char>,
    conversation_id: Seq<char>,
    reason: Seq<char>,
    iat: i64,
    exp: i64,
) -> bool {
    &&& claims.iss@ == iss
    &&& claims.jti@ == jti
    &&& claims.conversation_id@ == conversation_id
    &&& claims.reason@ == reason
    &&& claims.tool_call_id is None
    &&& claims.iat == iat
    &&& claims.exp == exp
}

/// The token bears an EdDSA signature that verifies under this public key.
pub uninterp spec fn signed_under(token: Seq<char>, public_key: Seq<u8>) -> bool;

/// What a token is refused with when its time is over.
pub open spec fn expired_cause() -> Seq<char> {
    "ExpiredSignature"@
}

/// What the decoder makes of a token of these claims that was signed under the right
/// key and in the right name: it yields the claims, or finds them expired.
pub open spec fn yields(
    r: Result<TokenClaims, String>,
    iss: Seq<char>,
    jti: Seq<char>,
    conversation_id: Seq<char>,
    reason: Seq<char>,
    iat: i64,
    exp: i64,
) -> bool {
    match r {
        Ok(claims) => bears(claims, iss, jti, conversation_id, reason, iat, exp),
        Err(cause) => cause@ == expired_cause(),
    }
}

/// Calls `jsonwebtoken::decode` for EdDSA by these rules, and has the seven claims
/// read as their types by `serde_json::from_value`; a claim of another type is the
/// decoder's JSON error. On success the token's signature verifies under the public
/// key, the issuer is the one asked for, and the claims of a token that
/// [`signed_token`] names are those that it was signed for. A token that it names, in
/// the issuer's name and with a signature that verifies, fails for nothing but its
/// expiry, which is a second of the epoch or later. Which second the machine's clock
/// reads is not said.
#[verifier::external_body]
fn decode_claims(token: &str, rules: &DecodeRules) -> (r: Result<TokenClaims, String>)
    requires
        rules.leeway == LEEWAY_SECS,
    ensures
        r is Ok ==> signed_under(token@, rules.public_key@),
        r matches Ok(claims) ==> claims.iss@ == rules.issuer@,
        r matches Ok(claims) ==> (forall|
            der: Seq<u8>,
            iss: Seq<char>,
            jti: Seq<char>,
            conversation_id: Seq<char>,
            reason: Seq<char>,
            iat: i64,
            exp: i64,
        |
            #[trigger] signed_token(der, iss, jti, conversation_id, reason, iat, exp) == Some(token@)
                ==> bears(claims, iss, jti, conversation_id, reason, iat, exp)),
        signed_under(token@, rules.public_key@) ==> (forall|
            der: Seq<u8>,
            jti: Seq<char>,
            conversation_id: Seq<char>,
            reason: Seq<char>,
            iat: i64,
            exp: i64,
        |
            exp >= 0 && #[trigger] signed_token(
                der,
                rules.issuer@,
                jti,
                conversation_id,
                reason,
                iat,
                exp,
            ) == Some(token@) ==> yields(
                r,
                rules.issuer@,
                jti,
                conversation_id,
                reason,
                iat,
                exp,
            )),
{
    let mut by = Validation::new(Algorithm::EdDSA);
    by.set_issuer(&[&rules.issuer]);
    by.leeway = rules.leeway;
    let key = DecodingKey::from_ed_der(&rules.public_key);
    let all = decode::<Value>(token, &key, &by).map_err(|e| e.to_string())?.claims;
    let names = ["iss", "jti", "conversation_id", "reason", "tool_call_id", "iat", "exp"];
    let row = Value::from(names.map(|name| all[name].clone()).to_vec());
    let (iss, jti, conversation_id, reason, tool_call_id, iat, exp) =
        from_value(row).map_err(|e| Error::from(e).to_string())?;
    Ok(TokenClaims { iss, jti, conversation_id, reason, tool_call_id, iat, exp })
}

/// What this server's tokens are decoded by: its own name and key, and the leeway
/// that every token is granted.
pub fn rules_of(signer: &JwtSigner) -> (r: DecodeRules)
    ensures
        r.issuer@ == signer.issuer@,
        r.public_key == signer.public_key,
        r.leeway == LEEWAY_SECS,
{
    DecodeRules {
        issuer: signer.issuer.clone(),
        public_key: signer.public_key,
        leeway: LEEWAY_SECS,
    }
}

/// The reason that a token bears: an unknown name stands for a cold contact.
pub open spec fn reason_of(name: Seq<char>) -> ApprovalReason {
    if name == "rule_of_two_breach"@ {
        ApprovalReason::RuleOfTwoBreach
    } else if name == "sensitive_tool_call"@ {
        ApprovalReason::SensitiveToolCall
    } else if name == "ask_controller"@ {
        ApprovalReason::AskController
    } else if name == "anomaly_tripwire"@ {
        ApprovalReason::AnomalyTripwire
    } else {
        ApprovalReason::ColdContact
    }
}

/// Mints the token of an approval, valid for one day from now. None comes back
/// where the signer's private key cannot be read.
pub fn issue_approval_token(
    signer: &JwtSigner,
    approval_id: &str,
    conversation_id: &str,
    reason: &str,
) -> (r: Option<String>)
    ensures
        exists|now: i64|
            0 <= now <= LAST_SECOND && opt_view(r) == #[trigger] token_at(
                *signer,
                approval_id@,
                conversation_id@,
                reason@,
                now,
            ),
{
    let now: i64 = utc_now();
    let r = issue_approval_token_at(signer, approval_id, conversation_id, reason, now);
    assert(opt_view(r) == token_at(*signer, approval_id@, conversation_id@, reason@, now));
    r
}

/// The token of an approval that is minted at the second `now`.
pub open spec fn token_at(
    signer: JwtSigner,
    approval_id: Seq<char>,
    conversation_id: Seq<char>,
    reason: Seq<char>,
    now: i64,
) -> Option<Seq<char>> {
    signed_token(
        signer.private_der@,
        signer.issuer@,
        approval_id,
        conversation_id,
        reason_of(reason).name(),
        now,
        (now + TOKEN_LIFETIME_SECS) as i64,
    )
}

/// [`issue_approval_token`] at the second `now`.
pub fn issue_approval_token_at(
    signer: &JwtSigner,
    approval_id: &str,
    conversation_id: &str,
    reason: &str,
    now: i64,
) -> (r: Option<String>)
    requires
        now + TOKEN_LIFETIME_SECS <= i64::MAX,
    ensures
        opt_view(r) == token_at(*signer, approval_id@, conversation_id@, reason@, now),
{
    let named: ApprovalReason = match ApprovalReason::parse(reason) {
        Some(known) => known,
        None => ApprovalReason::ColdContact,
    };
    proof {
        reason_names_are_distinct(named, reason_of(reason@));
        assert(ApprovalReason::RuleOfTwoBreach.name() == "rule_of_two_breach"@);
        assert(ApprovalReason::SensitiveToolCall.name() == "sensitive_tool_call"@);
        assert(ApprovalReason::AskController.name() == "ask_controller"@);
        assert(ApprovalReason::AnomalyTripwire.name() == "anomaly_tripwire"@);
    }
    sign_claims(
        &signer.private_der,
        signer.issuer.as_str(),
        approval_id,
        conversation_id,
        named.as_str(),
        now,
        now + TOKEN_LIFETIME_SECS,
    )
}

/// The name is that of a reason.
pub open spec fn known_reason(name: Seq<char>) -> bool {
    exists|reason: ApprovalReason| #[trigger] reason.name() == name
}

/// What a token with an unknown reason is refused with.
pub open spec fn unknown_reason_text(name: Seq<char>) -> Seq<char> {
    "JSON error: unknown variant `"@ + name
        + "`, expected one of `cold_contact`, `rule_of_two_breach`, `sensitive_tool_call`, `ask_controller`, `anomaly_tripwire`"@
}

/// What a mismatch between a token and the approval it is used for is refused with.
pub open spec fn mismatch_text(jti: Seq<char>, expected_jti: Seq<char>) -> Seq<char> {
    "approval token jti '"@ + jti + "' does not match path approval_id '"@ + expected_jti + "'"@
}

/// The verdict on a decoded token.
pub open spec fn judged(
    decoded: Result<TokenClaims, String>,
    expected_jti: Seq<char>,
    verdict: Result<ApprovalClaims, String>,
) -> bool {
    match decoded {
        Err(e) => verdict matches Err(m) && m@ == unverified_text(e@),
        Ok(claims) => if !known_reason(claims.reason@) {
            verdict matches Err(m) && m@ == unverified_text(unknown_reason_text(claims.reason@))
        } else if claims.jti@ != expected_jti {
            verdict matches Err(m) && m@ == mismatch_text(claims.jti@, expected_jti)
        } else {
            &&& verdict matches Ok(c)
            &&& c.iss == claims.iss
            &&& c.jti == claims.jti
            &&& c.conversation_id == claims.conversation_id
            &&& c.reason.name() == claims.reason@
            &&& c.tool_call_id == claims.tool_call_id
            &&& c.iat == claims.iat
            &&& c.exp == claims.exp
        },
    }
}

/// What a token that does not verify is refused with.
pub open spec fn unverified_text(cause: Seq<char>) -> Seq<char> {
    "approval token verification failed: "@ + cause
}

fn unverified(cause: &str) -> (r: String)
    ensures
        r@ == unverified_text(cause@),
{
    let mut text: String = "approval token verification failed: ".to_owned();
    text.append(cause);
    text
}

/// Judges a decoded token: the claims, where their reason is known and they are for
/// the approval `expected_jti`.
pub fn check_claims(decoded: Result<TokenClaims, String>, expected_jti: &str) -> (r: Result<
    ApprovalClaims,
    String,
>)
    ensures
        judged(decoded, expected_jti@, r),
{
    let claims: TokenClaims = match decoded {
        Ok(claims) => claims,
        Err(e) => {
            return Err(unverified(e.as_str()));
        },
    };
    let reason: ApprovalReason = match ApprovalReason::parse(claims.reason.as_str()) {
        Some(reason) => reason,
        None => {
            let mut cause: String = "JSON error: unknown variant `".to_owned();
            cause.append(claims.reason.as_str());
            cause.append(
                "`, expected one of `cold_contact`, `rule_of_two_breach`, `sensitive_tool_call`, `ask_controller`, `anomaly_tripwire`",
            );
            return Err(unverified(cause.as_str()));
        },
    };
    assert(reason.name() == claims.reason@);
    if !same(claims.jti.as_str(), expected_jti) {
        let mut text: String = "approval token jti '".to_owned();
        text.append(claims.jti.as_str());
        text.append("' does not match path approval_id '");
        text.append(expected_jti);
        text.append("'");
        return Err(text);
    }
    Ok(
        ApprovalClaims {
            iss: claims.iss,
            jti: claims.jti,
            conversation_id: claims.conversation_id,
            reason,
            tool_call_id: claims.tool_call_id,
            iat: claims.iat,
            exp: claims.exp,
        },
    )
}

/// The claims are those of a token that was minted at the second `now`.
pub open spec fn vouches(
    claims: ApprovalClaims,
    approval_id: Seq<char>,
    conversation_id: Seq<char>,
    reason: Seq<char>,
    now: i64,
) -> bool {
    &&& claims.jti@ == approval_id
    &&& claims.conversation_id@ == conversation_id
    &&& claims.reason.name() == reason_of(reason).name()
    &&& claims.tool_call_id is None
    &&& claims.iat == now
    &&& claims.exp == (now + TOKEN_LIFETIME_SECS) as i64
}

/// The verdict on a server's own token, used for its own approval: it is accepted,
/// or its time is over.
pub open spec fn honoured(
    verdict: Result<ApprovalClaims, String>,
    approval_id: Seq<char>,
    conversation_id: Seq<char>,
    reason: Seq<char>,
    now: i64,
) -> bool {
    match verdict {
        Ok(claims) => vouches(claims, approval_id, conversation_id, reason, now),
        Err(m) => m@ == unverified_text(expired_cause()),
    }
}

/// Verifies a token for the approval `expected_jti`. Accepted claims are this
/// signer's, signed under its key, and for that approval. A token that was minted for
/// another approval is never accepted, and one that the signer minted for this one is
/// refused for nothing but its expiry. Which second the clock reads is not said.
pub fn verify_approval_token(signer: &JwtSigner, token: &str, expected_jti: &str) -> (r: Result<
    ApprovalClaims,
    String,
>)
    ensures
        exists|decoded: Result<TokenClaims, String>| #[trigger] judged(decoded, expected_jti@, r),
        r is Ok ==> signed_under(token@, signer.public_key@),
        r matches Ok(claims) ==> claims.iss@ == signer.issuer@ && claims.jti@ == expected_jti@,
        forall|
            minter: JwtSigner,
            approval_id: Seq<char>,
            conversation_id: Seq<char>,
            reason: Seq<char>,
            now: i64,
        |
            #[trigger] token_at(minter, approval_id, conversation_id, reason, now) == Some(token@)
                ==> match r {
                Ok(claims) => approval_id == expected_jti@ && vouches(
                    claims,
                    approval_id,
                    conversation_id,
                    reason,
                    now,
                ),
                Err(m) => approval_id == expected_jti@ || m@ == mismatch_text(
                    approval_id,
                    expected_jti@,
                ) || "approval token verification failed: "@.is_prefix_of(m@),
            },
        signer.paired() ==> forall|conversation_id: Seq<char>, reason: Seq<char>, now: i64|
            0 <= now <= LAST_SECOND && #[trigger] token_at(
                *signer,
                expected_jti@,
                conversation_id,
                reason,
                now,
            ) == Some(token@) ==> honoured(r, expected_jti@, conversation_id, reason, now),
{
    let rules: DecodeRules = rules_of(signer);
    let decoded = decode_claims(token, &rules);
    let ghost seen = decoded;
    let r = check_claims(decoded, expected_jti);
    proof {
        assert(judged(seen, expected_jti@, r));
        assert forall|
            minter: JwtSigner,
            approval_id: Seq<char>,
            conversation_id: Seq<char>,
            reason: Seq<char>,
            now: i64,
        |
            #[trigger] token_at(minter, approval_id, conversation_id, reason, now) == Some(
                token@,
            ) implies match r {
            Ok(claims) => approval_id == expected_jti@ && vouches(
                claims,
                approval_id,
                conversation_id,
                reason,
                now,
            ),
            Err(m) => approval_id == expected_jti@ || m@ == mismatch_text(
                approval_id,
                expected_jti@,
            ) || "approval token verification failed: "@.is_prefix_of(m@),
        } by {
            match seen {
                Err(e) => {
                    let lead = "approval token verification failed: "@;
                    assert((lead + e@).take(lead.len() as int) =~= lead);
                },
                Ok(claims) => {
                    assert(bears(
                        claims,
                        minter.issuer@,
                        approval_id,
                        conversation_id,
                        reason_of(reason).name(),
                        now,
                        (now + TOKEN_LIFETIME_SECS) as i64,
                    ));
                    assert(known_reason(claims.reason@));
                },
            }
        }
        if signer.paired() {
            assert forall|conversation_id: Seq<char>, reason: Seq<char>, now: i64|
                0 <= now <= LAST_SECOND && #[trigger] token_at(
                    *signer,
                    expected_jti@,
                    conversation_id,
                    reason,
                    now,
                ) == Some(token@) implies honoured(
                r,
                expected_jti@,
                conversation_id,
                reason,
                now,
            ) by {
                assert(signed_under(token@, signer.public_key@));
                assert(yields(
                    seen,
                    signer.issuer@,
                    expected_jti@,
                    conversation_id,
                    reason_of(reason).name(),
                    now,
                    (now + TOKEN_LIFETIME_SECS) as i64,
                ));
                assert(known_reason(reason_of(reason).name()));
            }
        }
    }
    r
}

/// A reason is known by its name, and any other name stands for a cold contact.
pub proof fn a_reason_is_known_by_its_name(reason: ApprovalReason, name: Seq<char>)
    ensures
        reason_of(reason.name()) == reason,
        name != "rule_of_two_breach"@ && name != "sensitive_tool_call"@ && name
            != "ask_controller"@ && name != "anomaly_tripwire"@ ==> reason_of(name) is ColdContact,
{
    reason_names_are_distinct(reason, ApprovalReason::RuleOfTwoBreach);
    reason_names_are_distinct(reason, ApprovalReason::SensitiveToolCall);
    reason_names_are_distinct(reason, ApprovalReason::AskController);
    reason_names_are_distinct(reason, ApprovalReason::AnomalyTripwire);
    reason_names_are_distinct(reason, ApprovalReason::ColdContact);
}

/// A decoded token is accepted if and only if it was minted for the approval it is
/// used for, under a reason with a name; what it claims is then handed on unchanged.
pub proof fn a_token_is_good_for_its_own_approval(
    claims: TokenClaims,
    expected_jti: Seq<char>,
    verdict: Result<ApprovalClaims, String>,
    reason: ApprovalReason,
)
    requires
        judged(Ok(claims), expected_jti, verdict),
        claims.reason@ == reason.name(),
    ensures
        verdict is Ok <==> claims.jti@ == expected_jti,
        verdict matches Ok(c) ==> c.iss == claims.iss && c.jti == claims.jti && c.conversation_id
            == claims.conversation_id && c.reason == reason && c.tool_call_id
            == claims.tool_call_id && c.iat == claims.iat && c.exp == claims.exp,
{
    if let Ok(c) = verdict {
        reason_names_are_distinct(c.reason, reason);
    }
}

/// A token that could not be decoded is refused, and the refusal tells the cause.
pub proof fn an_unreadable_token_is_refused(
    cause: String,
    expected_jti: Seq<char>,
    verdict: Result<ApprovalClaims, String>,
)
    requires
        judged(Err(cause), expected_jti, verdict),
    ensures
        verdict matches Err(m) && m@ == "approval token verification failed: "@ + cause@,
{
}

/// A token that is honoured speaks for one approval in one conversation, and for a
/// day from when it was minted.
pub proof fn a_token_lasts_a_day(
    claims: ApprovalClaims,
    approval_id: Seq<char>,
    conversation_id: Seq<char>,
    reason: ApprovalReason,
    now: i64,
)
    requires
        vouches(claims, approval_id, conversation_id, reason.name(), now),
        0 <= now <= LAST_SECOND,
    ensures
        claims.jti@ == approval_id,
        claims.conversation_id@ == conversation_id,
        claims.reason == reason,
        claims.tool_call_id is None,
        claims.iat == now,
        claims.exp - claims.iat == 24 * 60 * 60,
{
    a_reason_is_known_by_its_name(reason, reason.name());
    reason_names_are_distinct(claims.reason, reason);
}

} // verus!
