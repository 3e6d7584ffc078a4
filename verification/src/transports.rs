//! Who speaks and where: the sender of a message, the group that a conversation
//! runs for, and the transport that its replies go out on.

use vstd::prelude::*;
use crate::approvals::{Principal, PrincipalTrust};
use crate::chat_types::TrustLevel;
use crate::json::{JsonMember, JsonValue};
use crate::text::{any_same, opt_view, same, texts};

verus! {

/// A conversation's tie to somebody on a transport.
#[derive(Debug)]
pub struct Binding {
    pub channel: String,
    /// Whom the transport calls the other side.
    pub foreign_id: String,
}

/// The first binding whose channel an installed transport handles.
pub open spec fn first_supported(bindings: Seq<Binding>, supported: Seq<Seq<char>>) -> Option<
    Binding,
>
    decreases bindings.len(),
{
    if bindings.len() == 0 {
        None
    } else if supported.contains(bindings[0].channel@) {
        Some(bindings[0])
    } else {
        first_supported(bindings.skip(1), supported)
    }
}

/// Finds the first binding whose channel an installed transport handles.
pub fn lookup_first_supported_binding<'a>(
    bindings: &'a Vec<Binding>,
    supported: &Vec<String>,
) -> (r: Option<&'a Binding>)
    ensures
        r is Some == first_supported(bindings@, texts(supported@)) is Some,
        r matches Some(b) ==> first_supported(bindings@, texts(supported@)) == Some(*b),
{
    let mut i: usize = 0;
    assert(bindings@.skip(0) =~= bindings@);
    while i < bindings.len()
        invariant
            i <= bindings.len(),
            first_supported(bindings@, texts(supported@)) == first_supported(
                bindings@.skip(i as int),
                texts(supported@),
            ),
        decreases bindings.len() - i,
    {
        if any_same(supported, bindings[i].channel.as_str()) {
            return Some(&bindings[i]);
        }
        assert(bindings@.skip(i as int).skip(1) =~= bindings@.skip(i + 1));
        i += 1;
    }
    None
}

/// The channel that a conversation came in on.
pub open spec fn origin_channel(bindings: Option<Seq<Binding>>, supported: Seq<Seq<char>>) -> Option<
    Seq<char>,
> {
    match bindings {
        Some(b) => match first_supported(b, supported) {
            Some(first) => Some(first.channel@),
            None => None,
        },
        None => None,
    }
}

/// The channel that a conversation came in on, and that its replies go out on. The
/// bindings are absent where the conversation has no group or they could not be
/// read.
pub fn origin_channel_for_conversation(
    bindings: Option<&Vec<Binding>>,
    supported: &Vec<String>,
) -> (r: Option<String>)
    ensures
        opt_view(r) == origin_channel(
            match bindings {
                Some(b) => Some(b@),
                None => None,
            },
            texts(supported@),
        ),
{
    match bindings {
        Some(b) => match lookup_first_supported_binding(b, supported) {
            Some(first) => Some(first.channel.clone()),
            None => None,
        },
        None => None,
    }
}

/// The origin of a conversation is a channel that it is bound to and that an
/// installed transport handles, and there is one whenever such a binding exists.
pub proof fn the_origin_is_bound_and_handled(
    bindings: Seq<Binding>,
    supported: Seq<Seq<char>>,
    i: int,
)
    requires
        0 <= i < bindings.len(),
    ensures
        first_supported(bindings, supported) matches Some(b) ==> bindings.contains(b)
            && supported.contains(b.channel@),
        supported.contains(bindings[i].channel@) ==> first_supported(bindings, supported) is Some,
    decreases bindings.len(),
{
    if supported.contains(bindings[0].channel@) {
        assert(bindings.contains(bindings[0]));
    } else if bindings.len() > 1 {
        let rest = bindings.skip(1);
        let j = if i > 0 {
            i - 1
        } else {
            0
        };
        the_origin_is_bound_and_handled(rest, supported, j);
        if first_supported(rest, supported) is Some {
            let b = first_supported(rest, supported)->0;
            let k = choose|k: int| 0 <= k < rest.len() && rest[k] == b;
            assert(bindings[k + 1] == b);
        }
    }
}

/// Who sent a message of the chat composer.
#[derive(Debug)]
pub enum Sender {
    /// The controller, who needs no record.
    Controller(Principal),
    /// Somebody to be looked up, or admitted, under this id.
    Other(String),
}

/// The principal that stands for the controller.
pub open spec fn controller_principal(p: Principal, now: i64) -> bool {
    &&& p.id@ == "controller"@
    &&& p.identifiers@.len() == 0
    &&& p.trust_level is Controller
    &&& p.resolved_by@.len() == 0
    &&& p.controller_notes is None
    &&& p.metadata matches JsonValue::Object(m)
    &&& m@.len() == 0
    &&& p.first_seen == now
    &&& p.last_seen == Some(now)
}

/// Resolves the sender of a message: the controller where none is named or the name
/// is `controller`.
pub fn resolve_sender(sender_id: Option<&str>, now: i64) -> (r: Sender)
    ensures
        match sender_id {
            None => r matches Sender::Controller(p) && controller_principal(p, now),
            Some(id) => if id@ == "controller"@ {
                r matches Sender::Controller(p) && controller_principal(p, now)
            } else {
                r matches Sender::Other(o) && o@ == id@
            },
        },
{
    match sender_id {
        Some(id) => {
            if !same(id, "controller") {
                return Sender::Other(id.to_owned());
            }
        },
        None => {},
    }
    let members: Vec<JsonMember> = Vec::new();
    Sender::Controller(
        Principal {
            id: "controller".to_owned(),
            identifiers: Vec::new(),
            trust_level: PrincipalTrust::Controller,
            resolved_by: Vec::new(),
            metadata: JsonValue::Object(members),
            first_seen: now,
            last_seen: Some(now),
            controller_notes: None,
        },
    )
}

/// What a principal group is found by, or made from.
#[derive(Debug)]
pub struct GroupKey {
    pub channel: String,
    pub native_group_id: Option<String>,
    pub principals: Vec<String>,
    pub includes_controller: bool,
}

/// The group of a web chat: its one principal.
pub fn chat_group_key(principal_id: &str, trust: TrustLevel) -> (r: GroupKey)
    ensures
        r.channel@ == "web"@,
        r.native_group_id is None,
        texts(r.principals@) == seq![principal_id@],
        r.includes_controller == (trust == TrustLevel::Controller),
{
    let mut principals: Vec<String> = Vec::new();
    principals.push(principal_id.to_owned());
    assert(texts(principals@) =~= seq![principal_id@]);
    GroupKey {
        channel: "web".to_owned(),
        native_group_id: None,
        principals,
        includes_controller: trust == TrustLevel::Controller,
    }
}

/// How the group that runs a conversation is found.
#[derive(Debug)]
pub enum GroupRoute {
    /// The conversation is bound to a group.
    Bound(String),
    /// Find or make the group, and bind the conversation to it.
    Resolve(GroupKey),
}

/// Routes a conversation to the group that runs it: the one that it is bound to,
/// whoever types; else that of a web chat with the sender.
pub fn resolve_runner_routed_group(
    bound: Option<String>,
    principal_id: &str,
    trust: TrustLevel,
) -> (r: GroupRoute)
    ensures
        bound matches Some(g) ==> r == GroupRoute::Bound(g),
        bound is None ==> {
            &&& r matches GroupRoute::Resolve(key)
            &&& key.channel@ == "web"@
            &&& key.native_group_id is None
            &&& texts(key.principals@) == seq![principal_id@]
            &&& key.includes_controller == (trust == TrustLevel::Controller)
        },
{
    match bound {
        Some(g) => GroupRoute::Bound(g),
        None => GroupRoute::Resolve(chat_group_key(principal_id, trust)),
    }
}

/// The origin is the first of the bindings that an installed transport handles: none that
/// comes earlier is passed over.
pub proof fn the_first_handled_binding_wins(
    bindings: Seq<Binding>,
    supported: Seq<Seq<char>>,
    i: int,
)
    requires
        0 <= i <= bindings.len(),
        forall|j: int|
            0 <= j < i ==> !supported.contains((#[trigger] bindings[j]).channel@),
        i < bindings.len() ==> supported.contains(bindings[i].channel@),
    ensures
        i < bindings.len() ==> first_supported(bindings, supported) == Some(bindings[i])
            && origin_channel(Some(bindings), supported) == Some(bindings[i].channel@),
        i == bindings.len() ==> first_supported(bindings, supported) is None && origin_channel(
            Some(bindings),
            supported,
        ) is None,
    decreases i,
{
    if i > 0 {
        assert(!supported.contains(bindings[0].channel@));
        let rest = bindings.skip(1);
        assert forall|j: int| 0 <= j < i - 1 implies !supported.contains(
            (#[trigger] rest[j]).channel@,
        ) by {
            assert(rest[j] == bindings[j + 1]);
        }
        the_first_handled_binding_wins(rest, supported, i - 1);
    }
}

/// The controller's record is their own: it trusts them fully, was seen now, and
/// holds nothing yet.
pub proof fn a_new_controller_is_trusted(p: Principal, now: i64)
    requires
        controller_principal(p, now),
    ensures
        p.id@ == "controller"@,
        p.trust_level is Controller,
        p.identifiers@.len() == 0,
        p.resolved_by@.len() == 0,
        p.controller_notes is None,
        p.first_seen == now,
        p.last_seen == Some(now),
{
}

} // verus!
