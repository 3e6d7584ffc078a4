//! What surrounds a turn: phases, rooms, senders, groups and addresses.

use execlaw_server::chat_types::{Phase, TrustLevel};
use execlaw_server::transports::{
    chat_group_key, lookup_first_supported_binding, origin_channel_for_conversation,
    resolve_runner_routed_group, resolve_sender, Binding, GroupRoute, Sender,
};
use execlaw_server::turn_support::{
    resolve_group_turn_context, rewrite_url_with_alias, AddressedReason, IdlePhaseGuard,
};

#[test]
fn idle_phase_guard_publishes_on_drop_when_armed() {
    let guard = IdlePhaseGuard::new("c-drop".into());
    let notice = guard.release().expect("expected idle on drop");
    assert_eq!(notice.conversation_id, "c-drop");
    assert_eq!(notice.phase.as_str(), "idle");
}

#[test]
fn idle_phase_guard_disarm_publishes_idle_only_once() {
    let mut guard = IdlePhaseGuard::new("c-once".into());
    let first = guard.disarm_after_publishing_idle().expect("explicit publish");
    assert_eq!(first.phase.as_str(), "idle");
    let second = guard.release();
    assert!(second.is_none(), "disarm must prevent the second publish; got {second:?}");
}

#[test]
fn phases_have_names() {
    assert_eq!(Phase::Thinking.as_str(), "thinking");
    assert_eq!(Phase::AwaitingTrustDecision.as_str(), "awaiting_trust_decision");
}

#[test]
fn rewrite_url_swaps_loopback_for_host_gateway_alias() {
    assert_eq!(
        rewrite_url_with_alias("http://127.0.0.1:8101/v1", "host.docker.internal"),
        "http://host.docker.internal:8101/v1",
    );
    assert_eq!(
        rewrite_url_with_alias("http://localhost:11434/v1", "host.docker.internal"),
        "http://host.docker.internal:11434/v1",
    );
    assert_eq!(
        rewrite_url_with_alias("http://127.0.0.1:8101/v1", "host.lima.internal"),
        "http://host.lima.internal:8101/v1",
    );
    assert_eq!(
        rewrite_url_with_alias("http://infer.execlaw.local:8000/v1", "host.docker.internal"),
        "http://infer.execlaw.local:8000/v1",
    );
    assert_eq!(
        rewrite_url_with_alias("http://192.168.1.50:8000/v1", "host.docker.internal"),
        "http://192.168.1.50:8000/v1",
    );
}

#[test]
fn rewrite_url_goes_by_the_whole_host() {
    assert_eq!(rewrite_url_with_alias("http://LocalHost", "h"), "http://h");
    assert_eq!(rewrite_url_with_alias("http://localhost.me/", "h"), "http://localhost.me/");
    assert_eq!(rewrite_url_with_alias("localhost:1", "h"), "localhost:1");
    assert_eq!(rewrite_url_with_alias("", "h"), "");
}

#[test]
fn resolve_group_turn_context_returns_none_for_dm() {
    assert!(resolve_group_turn_context(None, None, AddressedReason::EligibilityBypass).is_none());
}

#[test]
fn resolve_group_turn_context_returns_none_for_all_controller_group() {
    let members = vec![TrustLevel::Controller, TrustLevel::Controller];
    let got =
        resolve_group_turn_context(Some(&members), None, AddressedReason::EligibilityBypass);
    assert!(got.is_none(), "all-Controller group must not get a group block");
}

#[test]
fn resolve_group_turn_context_returns_some_for_mixed_group() {
    let members = vec![TrustLevel::Controller, TrustLevel::KnownTrusted];
    let got =
        resolve_group_turn_context(Some(&members), None, AddressedReason::ClassifierDirected)
            .expect("mixed group must resolve to Some");
    assert_eq!(got.member_count, 2);
    assert_eq!(got.addressed_reason, AddressedReason::ClassifierDirected);
}

#[test]
fn missing_sender_id_resolves_to_controller() {
    for sender in [None, Some("controller")] {
        match resolve_sender(sender, 5) {
            Sender::Controller(p) => {
                assert_eq!(p.id, "controller");
                assert_eq!(p.trust_level.flat(), TrustLevel::Controller);
                assert_eq!(p.last_seen, Some(5));
            }
            other => panic!("unexpected {other:?}"),
        }
    }
    match resolve_sender(Some("pri_x"), 5) {
        Sender::Other(id) => assert_eq!(id, "pri_x"),
        other => panic!("unexpected {other:?}"),
    }
}

#[test]
fn resolve_runner_routed_group_prefers_conversation_binding_over_controller_default() {
    match resolve_runner_routed_group(Some("grp".to_owned()), "controller", TrustLevel::Controller)
    {
        GroupRoute::Bound(g) => assert_eq!(g, "grp"),
        other => panic!("unexpected {other:?}"),
    }
}

#[test]
fn resolve_runner_routed_group_falls_back_to_resolve_chat_group_for_unbound_conv() {
    match resolve_runner_routed_group(None, "controller", TrustLevel::Controller) {
        GroupRoute::Resolve(key) => {
            assert_eq!(key.channel, "web");
            assert_eq!(key.principals, vec!["controller".to_owned()]);
            assert!(key.includes_controller);
        }
        other => panic!("unexpected {other:?}"),
    }
    assert!(!chat_group_key("pri_x", TrustLevel::KnownLimited).includes_controller);
}

fn binding(channel: &str, foreign_id: &str) -> Binding {
    Binding { channel: channel.to_owned(), foreign_id: foreign_id.to_owned() }
}

#[test]
fn the_origin_is_the_first_binding_that_is_handled() {
    let bindings = vec![binding("fax", "1"), binding("signal", "2"), binding("sms", "3")];
    let supported = vec!["sms".to_owned(), "signal".to_owned()];
    assert_eq!(
        lookup_first_supported_binding(&bindings, &supported).map(|b| b.foreign_id.as_str()),
        Some("2")
    );
    assert_eq!(
        origin_channel_for_conversation(Some(&bindings), &supported).as_deref(),
        Some("signal")
    );
    assert_eq!(origin_channel_for_conversation(Some(&bindings), &vec![]), None);
    assert_eq!(origin_channel_for_conversation(None, &supported), None);
}
