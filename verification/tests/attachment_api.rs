//! Delivered files and charts.

use execlaw_server::attachment_api::{
    bridge_to_originating_transport, create_artifact, emit_chart_card, send, AttachmentError,
    AttachmentRow, CardDetails,
};
use execlaw_server::threads::{CardKind, CardState};
use execlaw_server::transports::Binding;

fn row(conversation_id: &str) -> Option<AttachmentRow> {
    Some(AttachmentRow {
        conversation_id: conversation_id.to_owned(),
        mime_type: "application/pdf".to_owned(),
    })
}

#[test]
fn send_returns_view_with_correct_url_filename_and_size() {
    let att_id = "att-1";
    let view = send(
        att_id,
        "c-1",
        row("c-1"),
        Some("att-1.pdf".to_owned()),
        Some(14),
        Some("Final research report"),
    )
    .unwrap()
    .view;
    assert_eq!(view.attachment_id, att_id);
    assert_eq!(view.mime_type, "application/pdf");
    assert!(view.filename.ends_with(".pdf"));
    assert_eq!(view.download_url, format!("/api/attachments/{att_id}"));
    assert_eq!(view.caption.as_deref(), Some("Final research report"));
    assert!(view.byte_size.unwrap() > 0);
    assert_eq!(view.conversation_id, "c-1");
}

#[test]
fn send_refuses_cross_conversation_attachment_with_not_found() {
    let err = send("a", "conv-a", row("conv-b"), None, None, None).unwrap_err();
    match err {
        AttachmentError::NotFound(m) => assert_eq!(m, "no attachment 'a'"),
        other => panic!("expected NotFound, got {other:?}"),
    }
}

#[test]
fn send_returns_not_found_for_missing_id() {
    let err = send("nope", "c-1", None, None, None, None).unwrap_err();
    assert!(matches!(err, AttachmentError::NotFound(_)));
}

#[test]
fn emit_chart_card_lands_open_close_pair_with_svg_and_attachment_id() {
    let card = emit_chart_card(
        "art-chart-123",
        "<svg width=\"720\" height=\"400\"><g/></svg>",
        "AAPL_1mo.png",
        Some("AAPL — last month"),
        720,
        400,
    );
    assert_eq!(card.opened.kind, CardKind::Chart);
    assert_eq!(card.opened.title, "AAPL — last month");
    assert_eq!(card.opened.summary, "Chart (720x400)");
    match &card.opened.details {
        CardDetails::Chart { svg, attachment_id, mime_type, .. } => {
            assert!(svg.contains("<svg"));
            assert_eq!(attachment_id, "art-chart-123");
            assert_eq!(mime_type, "image/png");
        }
        other => panic!("expected chart details, got {other:?}"),
    }
    assert_eq!(card.closed.state, CardState::Completed);
    assert_eq!(card.closed.attachment_id, "art-chart-123");
    assert_eq!(card.closed.card_id, "chart-art-chart-123");
    assert_eq!(emit_chart_card("a", "", "f.png", Some("  "), 1, 0).opened.title, "f.png");
}

#[test]
fn send_emits_card_open_then_close_pair_on_event_bus() {
    let card = send("x", "c-1", row("c-1"), Some("r.pdf".to_owned()), None, Some("here"))
        .unwrap()
        .card;
    assert_eq!(card.opened.kind, CardKind::Attachment);
    assert_eq!(card.opened.state, CardState::Running);
    assert_eq!(card.opened.card_id, "att-x");
    assert_eq!(card.opened.title, "here");
    assert_eq!(card.opened.summary, "r.pdf (application/pdf)");
    assert_eq!(card.opened.open_href, "/api/attachments/x");
    assert_eq!(card.closed.card_id, "att-x");
    assert_eq!(card.closed.state, CardState::Completed);
    assert_eq!(card.closed.attachment_id, "x");
}

#[test]
fn a_file_without_a_name_or_caption_is_an_attachment() {
    let d = send("x", "c-1", row("c-1"), None, None, Some("  ")).unwrap();
    assert_eq!(d.view.filename, "attachment");
    assert_eq!(d.view.caption, None);
    assert_eq!(d.card.opened.title, "attachment");
}

#[test]
fn a_bound_conversation_gets_the_file_on_its_transport() {
    let binding = Binding { channel: "signal".to_owned(), foreign_id: "+1".to_owned() };
    let call = bridge_to_originating_transport(Some(&binding), "x", "r.pdf", None).unwrap();
    assert_eq!(call.tool_name, "signal.send_with_attachments");
    assert_eq!(call.to, "+1");
    assert_eq!(call.text, "r.pdf");
    assert_eq!(call.attachments, vec!["x".to_owned()]);
    let call = bridge_to_originating_transport(Some(&binding), "x", "r.pdf", Some("see"));
    assert_eq!(call.unwrap().text, "see");
    assert!(bridge_to_originating_transport(None, "x", "r.pdf", None).is_none());
}

#[test]
fn artifacts_need_a_place() {
    let write = create_artifact(Some("/a".to_owned()), "f.png", "image/png", Some(60)).unwrap();
    assert_eq!((write.root.as_str(), write.plugin_id.as_str()), ("/a", "core"));
    assert_eq!((write.filename.as_str(), write.ttl_seconds), ("f.png", Some(60)));
    match create_artifact(None, "f.png", "image/png", None).unwrap_err() {
        AttachmentError::Storage(m) => assert!(m.starts_with("create_artifact called but")),
        other => panic!("unexpected {other:?}"),
    }
}
