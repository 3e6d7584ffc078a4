//! What every turn needs around it: the idle phase at its end, the people in its
//! room, and an address under which its model can be reached.

use vstd::prelude::*;
use crate::chat_types::{Phase, TrustLevel};
use crate::text::{ascii_lowercase, chars_of, same, to_ascii_lowercase};

verus! {

/// A notice that a conversation's phase has changed.
#[derive(Debug)]
pub struct PhaseNotice {
    pub conversation_id: String,
    pub phase: Phase,
}

/// Sees to it that a turn ends idle. It is armed until the idle phase has been
/// announced; whoever lets go of it announces what is still owed.
#[derive(Debug)]
pub struct IdlePhaseGuard {
    pub conversation_id: String,
    pub armed: bool,
}

impl IdlePhaseGuard {
    /// An armed guard.
    pub fn new(conversation_id: String) -> (r: IdlePhaseGuard)
        ensures
            r.conversation_id == conversation_id,
            r.armed,
    {
        IdlePhaseGuard { conversation_id, armed: true }
    }

    /// The idle phase is owed while the guard is armed.
    pub open spec fn owed(self) -> Option<PhaseNotice> {
        if self.armed {
            Some(PhaseNotice { conversation_id: self.conversation_id, phase: Phase::Idle })
        } else {
            None
        }
    }

    /// Announces the idle phase, unless that has been done, and disarms the guard.
    pub fn disarm_after_publishing_idle(&mut self) -> (r: Option<PhaseNotice>)
        ensures
            r == old(self).owed(),
            *final(self) == (IdlePhaseGuard { armed: false, ..*old(self) }),
    {
        if !self.armed {
            return None;
        }
        self.armed = false;
        Some(PhaseNotice { conversation_id: self.conversation_id.clone(), phase: Phase::Idle })
    }

    /// Lets go of the guard: announces what is still owed.
    pub fn release(self) -> (r: Option<PhaseNotice>)
        ensures
            r == self.owed(),
    {
        let mut guard = self;
        guard.disarm_after_publishing_idle()
    }
}

/// Every guard announces the idle phase once: at once where it is disarmed, and then
/// not when it is let go of; else when it is let go of.
pub proof fn idle_is_announced_once(guard: IdlePhaseGuard)
    requires
        guard.armed,
    ensures
        guard.owed() is Some,
        (IdlePhaseGuard { armed: false, ..guard }).owed() is None,
{
}

/// Why the agent was woken in a group.
#[derive(Clone, Copy, Debug, PartialEq, Eq, Structural)]
pub enum AddressedReason {
    EligibilityBypass,
    TransportMention,
    ClassifierDirected,
    FallOpenClassifierError,
}

/// The room that a turn runs in.
#[derive(Debug)]
pub struct GroupTurnContext {
    pub group_name: Option<String>,
    pub member_count: usize,
    pub addressed_reason: AddressedReason,
}

/// Somebody other than the controller is among the members.
pub open spec fn mixed(members: Seq<TrustLevel>) -> bool {
    exists|i: int| 0 <= i < members.len() && #[trigger] members[i] != TrustLevel::Controller
}

fn any_other(members: &Vec<TrustLevel>) -> (r: bool)
    ensures
        r == mixed(members@),
{
    let mut i: usize = 0;
    while i < members.len()
        invariant
            i <= members.len(),
            forall|j: int| 0 <= j < i ==> #[trigger] members@[j] == TrustLevel::Controller,
        decreases members.len() - i,
    {
        if members[i] != TrustLevel::Controller {
            assert(members@[i as int] != TrustLevel::Controller);
            return true;
        }
        i += 1;
    }
    false
}

/// The room that a turn runs in: a group with somebody other than the controller in
/// it. The members are absent where the conversation belongs to no group.
pub fn resolve_group_turn_context(
    members: Option<&Vec<TrustLevel>>,
    group_name: Option<String>,
    addressed_reason: AddressedReason,
) -> (r: Option<GroupTurnContext>)
    ensures
        members is None ==> r is None,
        members matches Some(m) && !mixed(m@) ==> r is None,
        members matches Some(m) ==> (mixed(m@) ==> r == Some(
            GroupTurnContext { group_name, member_count: m.len(), addressed_reason },
        )),
{
    match members {
        Some(m) => {
            if any_other(m) {
                Some(GroupTurnContext { group_name, member_count: m.len(), addressed_reason })
            } else {
                None
            }
        },
        None => None,
    }
}

/// Where the host begins in a URL: behind the first `://`.
pub open spec fn host_start(url: Seq<char>) -> Option<nat>
    decreases url.len(),
{
    if url.len() < 3 {
        None
    } else if url[0] == ':' && url[1] == '/' && url[2] == '/' {
        Some(3)
    } else {
        match host_start(url.skip(1)) {
            Some(n) => Some(n + 1),
            None => None,
        }
    }
}

/// The end of a host name in a URL.
pub open spec fn ends_host(c: char) -> bool {
    c == ':' || c == '/' || c == '?' || c == '#'
}

/// How long the host name at the beginning of a text is.
pub open spec fn host_length(s: Seq<char>) -> nat
    decreases s.len(),
{
    if s.len() == 0 || ends_host(s[0]) {
        0
    } else {
        1 + host_length(s.skip(1))
    }
}

/// A name of the machine itself.
pub open spec fn loopback(host: Seq<char>) -> bool {
    host == "127.0.0.1"@ || ascii_lowercase(host) == "localhost"@
}

/// A URL with the machine's own name replaced by an alias; any other URL as it is.
pub open spec fn aliased(url: Seq<char>, alias: Seq<char>) -> Seq<char> {
    match host_start(url) {
        Some(start) => {
            let rest = url.skip(start as int);
            let end = start + host_length(rest);
            if loopback(url.subrange(start as int, end as int)) {
                url.take(start as int) + alias + url.skip(end as int)
            } else {
                url
            }
        },
        None => url,
    }
}

proof fn host_start_is_inside(url: Seq<char>)
    ensures
        host_start(url) matches Some(n) ==> 3 <= n <= url.len(),
    decreases url.len(),
{
    if url.len() >= 3 {
        host_start_is_inside(url.skip(1));
    }
}

fn find_host(chars: &Vec<char>) -> (r: Option<usize>)
    ensures
        r is Some == host_start(chars@) is Some,
        r matches Some(n) ==> host_start(chars@) == Some(n as nat) && n <= chars.len(),
{
    proof {
        host_start_is_inside(chars@);
    }
    let mut i: usize = 0;
    assert(chars@.skip(0) =~= chars@);
    while i < chars.len()
        invariant
            i <= chars.len(),
            host_start(chars@) matches Some(n) ==> n <= chars.len(),
            host_start(chars@) == match host_start(chars@.skip(i as int)) {
                Some(n) => Some((n + i) as nat),
                None => None,
            },
        decreases chars.len() - i,
    {
        let ghost rest = chars@.skip(i as int);
        if chars.len() - i < 3 {
            return None;
        }
        assert(rest[0] == chars@[i as int] && rest[1] == chars@[i + 1] && rest[2] == chars@[i + 2]);
        if chars[i] == ':' && chars[i + 1] == '/' && chars[i + 2] == '/' {
            return Some(i + 3);
        }
        assert(rest.skip(1) =~= chars@.skip(i + 1));
        i += 1;
    }
    None
}

fn find_host_end(chars: &Vec<char>, start: usize) -> (r: usize)
    requires
        start <= chars.len(),
    ensures
        start <= r <= chars.len(),
        r == start + host_length(chars@.skip(start as int)),
{
    let mut i: usize = start;
    while i < chars.len()
        invariant
            start <= i <= chars.len(),
            host_length(chars@.skip(start as int)) == (i - start) + host_length(
                chars@.skip(i as int),
            ),
        decreases chars.len() - i,
    {
        let ghost rest = chars@.skip(i as int);
        assert(rest[0] == chars@[i as int]);
        let c: char = chars[i];
        if c == ':' || c == '/' || c == '?' || c == '#' {
            return i;
        }
        assert(rest.skip(1) =~= chars@.skip(i + 1));
        i += 1;
    }
    i
}

/// Replaces the machine's own name in a URL by an alias. Inside a container the
/// machine's own name means the container.
pub fn rewrite_url_with_alias(url: &str, alias: &str) -> (r: String)
    ensures
        r@ == aliased(url@, alias@),
{
    let chars: Vec<char> = chars_of(url);
    let start: usize = match find_host(&chars) {
        Some(n) => n,
        None => {
            return url.to_owned();
        },
    };
    let end: usize = find_host_end(&chars, start);
    let total: usize = url.unicode_len();
    let host: &str = url.substring_char(start, end);
    let lower: String = to_ascii_lowercase(host);
    if !(same(host, "127.0.0.1") || same(lower.as_str(), "localhost")) {
        return url.to_owned();
    }
    let head: &str = url.substring_char(0, start);
    let tail: &str = url.substring_char(end, total);
    let mut out: String = head.to_owned();
    out.append(alias);
    out.append(tail);
    assert(head@ =~= url@.take(start as int));
    assert(tail@ =~= url@.skip(end as int));
    out
}

/// A URL that does not name the machine itself stays as it is.
pub proof fn other_hosts_are_left_alone(url: Seq<char>, alias: Seq<char>)
    requires
        host_start(url) matches Some(start) ==> !loopback(
            url.subrange(start as int, (start + host_length(url.skip(start as int))) as int),
        ),
    ensures
        aliased(url, alias) == url,
{
}

proof fn lemma_host_starts_behind(scheme: Seq<char>, rest: Seq<char>)
    requires
        forall|i: int| 0 <= i < scheme.len() ==> #[trigger] scheme[i] != ':',
    ensures
        host_start(scheme + seq![':', '/', '/'] + rest) == Some((scheme.len() + 3) as nat),
    decreases scheme.len(),
{
    let url = scheme + seq![':', '/', '/'] + rest;
    if scheme.len() == 0 {
        assert(url[0] == ':' && url[1] == '/' && url[2] == '/');
    } else {
        assert(url[0] == scheme[0]);
        assert(url.skip(1) =~= scheme.skip(1) + seq![':', '/', '/'] + rest);
        assert forall|i: int| 0 <= i < scheme.skip(1).len() implies #[trigger] scheme.skip(1)[i]
            != ':' by {
            assert(scheme.skip(1)[i] == scheme[i + 1]);
        }
        lemma_host_starts_behind(scheme.skip(1), rest);
    }
}

proof fn lemma_host_ends(host: Seq<char>, tail: Seq<char>)
    requires
        forall|i: int| 0 <= i < host.len() ==> !ends_host(#[trigger] host[i]),
        tail.len() == 0 || ends_host(tail[0]),
    ensures
        host_length(host + tail) == host.len(),
    decreases host.len(),
{
    let s = host + tail;
    if host.len() == 0 {
        if tail.len() > 0 {
            assert(s[0] == tail[0]);
        }
    } else {
        assert(s[0] == host[0]);
        assert(s.skip(1) =~= host.skip(1) + tail);
        assert forall|i: int| 0 <= i < host.skip(1).len() implies !ends_host(
            #[trigger] host.skip(1)[i],
        ) by {
            assert(host.skip(1)[i] == host[i + 1]);
        }
        lemma_host_ends(host.skip(1), tail);
    }
}

/// In a URL made of a scheme, a host and what follows, the host alone is replaced,
/// and only where it is `127.0.0.1` or `localhost` in any case: the scheme, the port,
/// the path and the query stay.
pub proof fn only_the_machines_own_name_is_replaced(
    scheme: Seq<char>,
    host: Seq<char>,
    tail: Seq<char>,
    alias: Seq<char>,
)
    requires
        forall|i: int| 0 <= i < scheme.len() ==> #[trigger] scheme[i] != ':',
        forall|i: int|
            0 <= i < host.len() ==> (#[trigger] host[i]) != ':' && host[i] != '/' && host[i] != '?'
                && host[i] != '#',
        tail.len() == 0 || tail[0] == ':' || tail[0] == '/' || tail[0] == '?' || tail[0] == '#',
    ensures
        host == "127.0.0.1"@ || ascii_lowercase(host) == "localhost"@ ==> aliased(
            scheme + seq![':', '/', '/'] + (host + tail),
            alias,
        ) == scheme + seq![':', '/', '/'] + alias + tail,
        host != "127.0.0.1"@ && ascii_lowercase(host) != "localhost"@ ==> aliased(
            scheme + seq![':', '/', '/'] + (host + tail),
            alias,
        ) == scheme + seq![':', '/', '/'] + (host + tail),
{
    let head = scheme + seq![':', '/', '/'];
    let url = head + (host + tail);
    let start = (scheme.len() + 3) as nat;
    lemma_host_starts_behind(scheme, host + tail);
    lemma_host_ends(host, tail);
    assert(url.skip(start as int) =~= host + tail);
    assert(url.subrange(start as int, (start + host.len()) as int) =~= host);
    assert(url.take(start as int) =~= head);
    assert(url.skip((start + host.len()) as int) =~= tail);
}

/// A URL without `://` has no host to replace.
pub proof fn a_text_without_a_scheme_stays(url: Seq<char>, alias: Seq<char>)
    requires
        forall|i: int|
            0 <= i && i + 2 < url.len() ==> !((#[trigger] url[i]) == ':' && url[i + 1] == '/'
                && url[i + 2] == '/'),
    ensures
        host_start(url) is None,
        aliased(url, alias) == url,
    decreases url.len(),
{
    if url.len() >= 3 {
        let rest = url.skip(1);
        assert(!(url[0] == ':' && url[1] == '/' && url[2] == '/'));
        assert forall|i: int| 0 <= i && i + 2 < rest.len() implies !((#[trigger] rest[i]) == ':'
            && rest[i + 1] == '/' && rest[i + 2] == '/') by {
            assert(rest[i] == url[i + 1]);
            assert(rest[i + 1] == url[i + 2]);
            assert(rest[i + 2] == url[i + 3]);
        }
        a_text_without_a_scheme_stays(rest, alias);
    }
}

/// One member other than the controller makes a room, wherever they stand.
pub proof fn one_other_member_makes_a_room(members: Seq<TrustLevel>, i: int)
    requires
        0 <= i < members.len(),
    ensures
        !(members[i] is Controller) ==> mixed(members),
        (forall|j: int| 0 <= j < members.len() ==> #[trigger] members[j] is Controller) ==> !mixed(
            members,
        ),
{
}

} // verus!
