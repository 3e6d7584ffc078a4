//! Files that the agent delivers into a conversation.
//!
//! A file is delivered as a card that is opened and closed at once: a card that was
//! only opened would stay pending for ever. A file of another conversation is
//! answered exactly as one that does not exist, so that nobody can probe for ids.
//! Where the conversation came in on a transport, the file goes out there too.

use vstd::prelude::*;
use crate::text::{decimal, decimal_text, opt_view, same, texts, trim, trimmed};
use crate::threads::{CardKind, CardState};
use crate::transports::Binding;

verus! {

/// Why a file was not delivered.
#[derive(Debug)]
pub enum AttachmentError {
    NotFound(String),
    Storage(String),
}

/// A stored file.
#[derive(Debug)]
pub struct AttachmentRow {
    pub conversation_id: String,
    pub mime_type: String,
}

/// What a card shows.
#[derive(Debug)]
pub enum CardDetails {
    Attachment {
        attachment_id: String,
        filename: String,
        mime_type: String,
        byte_size: Option<u64>,
        download_url: String,
        caption: Option<String>,
    },
    Chart {
        attachment_id: String,
        filename: String,
        title: Option<String>,
        svg: String,
        width: u32,
        height: u32,
        download_url: String,
        mime_type: String,
    },
}

impl Clone for CardDetails {
    fn clone(&self) -> (r: Self)
        ensures
            r == *self,
    {
        match self {
            CardDetails::Attachment {
                attachment_id,
                filename,
                mime_type,
                byte_size,
                download_url,
                caption,
            } => CardDetails::Attachment {
                attachment_id: attachment_id.clone(),
                filename: filename.clone(),
                mime_type: mime_type.clone(),
                byte_size: *byte_size,
                download_url: download_url.clone(),
                caption: caption.clone(),
            },
            CardDetails::Chart {
                attachment_id,
                filename,
                title,
                svg,
                width,
                height,
                download_url,
                mime_type,
            } => CardDetails::Chart {
                attachment_id: attachment_id.clone(),
                filename: filename.clone(),
                title: title.clone(),
                svg: svg.clone(),
                width: *width,
                height: *height,
                download_url: download_url.clone(),
                mime_type: mime_type.clone(),
            },
        }
    }
}

/// A card is opened. A click on it opens `open_href`.
#[derive(Debug)]
pub struct CardOpened {
    pub card_id: String,
    pub kind: CardKind,
    pub title: String,
    pub summary: String,
    pub state: CardState,
    pub details: CardDetails,
    pub open_href: String,
}

/// A card is closed.
#[derive(Debug)]
pub struct CardClosed {
    pub card_id: String,
    pub state: CardState,
    pub summary: String,
    pub details: CardDetails,
    pub attachment_id: String,
}

/// The two halves of a card, to be emitted in this order by the agent.
#[derive(Debug)]
pub struct CardPair {
    pub opened: CardOpened,
    pub closed: CardClosed,
}

/// A card that is opened and closed at once, with the same details.
pub open spec fn card_pair(
    pair: CardPair,
    kind: CardKind,
    card_id: Seq<char>,
    attachment_id: Seq<char>,
    title: Seq<char>,
    summary: Seq<char>,
) -> bool {
    &&& pair.opened.card_id@ == card_id
    &&& pair.opened.kind == kind
    &&& pair.opened.title@ == title
    &&& pair.opened.summary@ == summary
    &&& pair.opened.state == CardState::Running
    &&& pair.opened.open_href@ == download_url_of(attachment_id)
    &&& pair.closed.card_id@ == card_id
    &&& pair.closed.state == CardState::Completed
    &&& pair.closed.summary@ == summary
    &&& pair.closed.details == pair.opened.details
    &&& pair.closed.attachment_id@ == attachment_id
}

/// Where a file can be fetched.
pub open spec fn download_url_of(attachment_id: Seq<char>) -> Seq<char> {
    "/api/attachments/"@ + attachment_id
}

fn download_url(attachment_id: &str) -> (r: String)
    ensures
        r@ == download_url_of(attachment_id@),
{
    let mut out: String = "/api/attachments/".to_owned();
    out.append(attachment_id);
    out
}

/// A caption without the blanks around it; a blank one is none.
pub open spec fn caption_of(caption: Option<Seq<char>>) -> Option<Seq<char>> {
    match caption {
        Some(c) => if trimmed(c).len() == 0 {
            None
        } else {
            Some(trimmed(c))
        },
        None => None,
    }
}

fn clean_caption(caption: Option<&str>) -> (r: Option<String>)
    ensures
        opt_view(r) == caption_of(
            match caption {
                Some(c) => Some(c@),
                None => None,
            },
        ),
{
    match caption {
        Some(c) => {
            let t: String = trim(c);
            if t.as_str().unicode_len() == 0 {
                None
            } else {
                Some(t)
            }
        },
        None => None,
    }
}

/// The first text, or the second where there is no first.
pub open spec fn or_else(first: Option<Seq<char>>, second: Seq<char>) -> Seq<char> {
    match first {
        Some(t) => t,
        None => second,
    }
}

fn first_or(first: &Option<String>, second: &str) -> (r: String)
    ensures
        r@ == or_else(opt_view(*first), second@),
{
    match first {
        Some(t) => t.clone(),
        None => second.to_owned(),
    }
}

fn pair_of(
    kind: CardKind,
    card_id: String,
    attachment_id: &str,
    title: String,
    summary: String,
    details: CardDetails,
) -> (r: CardPair)
    ensures
        card_pair(r, kind, card_id@, attachment_id@, title@, summary@),
        r.opened.details == details,
{
    CardPair {
        opened: CardOpened {
            card_id: card_id.clone(),
            kind,
            title,
            summary: summary.clone(),
            state: CardState::Running,
            details: details.clone(),
            open_href: download_url(attachment_id),
        },
        closed: CardClosed {
            card_id,
            state: CardState::Completed,
            summary,
            details,
            attachment_id: attachment_id.to_owned(),
        },
    }
}

/// What the caller learns of a delivered file.
#[derive(Debug)]
pub struct DeliveredAttachmentView {
    pub attachment_id: String,
    pub conversation_id: String,
    pub mime_type: String,
    pub filename: String,
    pub byte_size: Option<u64>,
    pub download_url: String,
    pub caption: Option<String>,
}

/// A delivery: the card, and what the caller learns.
#[derive(Debug)]
pub struct Delivery {
    pub card: CardPair,
    pub view: DeliveredAttachmentView,
}

/// A file can be delivered into the conversation that it belongs to.
pub open spec fn deliverable(row: Option<AttachmentRow>, conversation_id: Seq<char>) -> bool {
    row matches Some(r) && r.conversation_id@ == conversation_id
}

/// The delivery of a file.
pub open spec fn delivers(
    d: Delivery,
    attachment_id: Seq<char>,
    conversation_id: Seq<char>,
    mime_type: Seq<char>,
    filename: Seq<char>,
    byte_size: Option<u64>,
    caption: Option<Seq<char>>,
) -> bool {
    &&& card_pair(
        d.card,
        CardKind::Attachment,
        "att-"@ + attachment_id,
        attachment_id,
        or_else(caption, filename),
        filename + " ("@ + mime_type + ")"@,
    )
    &&& d.card.opened.details matches CardDetails::Attachment {
        attachment_id: a,
        filename: f,
        mime_type: m,
        byte_size: b,
        download_url: u,
        caption: c,
    }
    &&& a@ == attachment_id
    &&& f@ == filename
    &&& m@ == mime_type
    &&& b == byte_size
    &&& u@ == download_url_of(attachment_id)
    &&& opt_view(c) == caption
    &&& d.view.attachment_id@ == attachment_id
    &&& d.view.conversation_id@ == conversation_id
    &&& d.view.mime_type@ == mime_type
    &&& d.view.filename@ == filename
    &&& d.view.byte_size == byte_size
    &&& d.view.download_url@ == download_url_of(attachment_id)
    &&& opt_view(d.view.caption) == caption
}

/// Delivers a file into the caller's conversation. `filename` is the last part of
/// its path, where that has one, and `byte_size` its size, where that could be read.
pub fn send(
    attachment_id: &str,
    conversation_id: &str,
    row: Option<AttachmentRow>,
    filename: Option<String>,
    byte_size: Option<u64>,
    caption: Option<&str>,
) -> (r: Result<Delivery, AttachmentError>)
    ensures
        !deliverable(row, conversation_id@) ==> (r matches Err(AttachmentError::NotFound(m)) && m@
            == "no attachment '"@ + attachment_id@ + "'"@),
        deliverable(row, conversation_id@) ==> (r matches Ok(d) && delivers(
            d,
            attachment_id@,
            conversation_id@,
            row->0.mime_type@,
            or_else(opt_view(filename), "attachment"@),
            byte_size,
            caption_of(
                match caption {
                    Some(c) => Some(c@),
                    None => None,
                },
            ),
        )),
{
    let found: Option<AttachmentRow> = match row {
        Some(row) => {
            if same(row.conversation_id.as_str(), conversation_id) {
                Some(row)
            } else {
                None
            }
        },
        None => None,
    };
    let row: AttachmentRow = match found {
        Some(row) => row,
        None => {
            let mut text: String = "no attachment '".to_owned();
            text.append(attachment_id);
            text.append("'");
            return Err(AttachmentError::NotFound(text));
        },
    };
    let filename: String = first_or(&filename, "attachment");
    let caption: Option<String> = clean_caption(caption);
    let title: String = first_or(&caption, filename.as_str());
    let mut summary: String = filename.clone();
    summary.append(" (");
    summary.append(row.mime_type.as_str());
    summary.append(")");
    let details = CardDetails::Attachment {
        attachment_id: attachment_id.to_owned(),
        filename: filename.clone(),
        mime_type: row.mime_type.clone(),
        byte_size,
        download_url: download_url(attachment_id),
        caption: caption.clone(),
    };
    let mut card_id: String = "att-".to_owned();
    card_id.append(attachment_id);
    let card = pair_of(CardKind::Attachment, card_id, attachment_id, title, summary, details);
    let view = DeliveredAttachmentView {
        attachment_id: attachment_id.to_owned(),
        conversation_id: conversation_id.to_owned(),
        mime_type: row.mime_type,
        filename,
        byte_size,
        download_url: download_url(attachment_id),
        caption,
    };
    Ok(Delivery { card, view })
}

/// Two refused files look the same: whether one exists in another conversation or
/// nowhere cannot be told from the answer.
pub proof fn foreign_files_look_missing(
    row: AttachmentRow,
    conversation_id: Seq<char>,
)
    requires
        row.conversation_id@ != conversation_id,
    ensures
        deliverable(Some(row), conversation_id) == deliverable(None, conversation_id),
{
}

/// The card of a rendered chart.
pub open spec fn charts(
    card: CardPair,
    attachment_id: Seq<char>,
    svg: Seq<char>,
    filename: Seq<char>,
    title: Option<Seq<char>>,
    width: u32,
    height: u32,
) -> bool {
    &&& card_pair(
        card,
        CardKind::Chart,
        "chart-"@ + attachment_id,
        attachment_id,
        or_else(title, filename),
        "Chart ("@ + decimal(width as nat) + "x"@ + decimal(height as nat) + ")"@,
    )
    &&& card.opened.details matches CardDetails::Chart {
        attachment_id: a,
        filename: f,
        title: t,
        svg: s,
        width: w,
        height: h,
        download_url: u,
        mime_type: m,
    }
    &&& a@ == attachment_id
    &&& f@ == filename
    &&& opt_view(t) == title
    &&& s@ == svg
    &&& w == width
    &&& h == height
    &&& u@ == download_url_of(attachment_id)
    &&& m@ == "image/png"@
}

/// Shows a rendered chart in the caller's conversation.
pub fn emit_chart_card(
    attachment_id: &str,
    svg: &str,
    filename: &str,
    title: Option<&str>,
    width: u32,
    height: u32,
) -> (r: CardPair)
    ensures
        charts(
            r,
            attachment_id@,
            svg@,
            filename@,
            caption_of(
                match title {
                    Some(t) => Some(t@),
                    None => None,
                },
            ),
            width,
            height,
        ),
{
    let title: Option<String> = clean_caption(title);
    let card_title: String = first_or(&title, filename);
    let mut summary: String = "Chart (".to_owned();
    let w: String = decimal_text(width as u64);
    let h: String = decimal_text(height as u64);
    summary.append(w.as_str());
    summary.append("x");
    summary.append(h.as_str());
    summary.append(")");
    let details = CardDetails::Chart {
        attachment_id: attachment_id.to_owned(),
        filename: filename.to_owned(),
        title,
        svg: svg.to_owned(),
        width,
        height,
        download_url: download_url(attachment_id),
        mime_type: "image/png".to_owned(),
    };
    let mut card_id: String = "chart-".to_owned();
    card_id.append(attachment_id);
    pair_of(CardKind::Chart, card_id, attachment_id, card_title, summary, details)
}

/// A call of a transport plugin's tool that sends a file out. It runs with the
/// controller's rights.
#[derive(Debug)]
pub struct AttachmentCall {
    pub tool_name: String,
    pub to: String,
    pub text: String,
    pub attachments: Vec<String>,
}

/// The file goes out on the transport that the conversation came in on, with its
/// caption, or its name where it has none; a conversation without one stays on the
/// web.
pub fn bridge_to_originating_transport(
    binding: Option<&Binding>,
    attachment_id: &str,
    filename: &str,
    caption: Option<&str>,
) -> (r: Option<AttachmentCall>)
    ensures
        r is Some == binding is Some,
        r matches Some(call) ==> {
            &&& call.tool_name@ == binding->0.channel@ + ".send_with_attachments"@
            &&& call.to@ == binding->0.foreign_id@
            &&& call.text@ == match caption {
                Some(c) => c@,
                None => filename@,
            }
            &&& texts(call.attachments@) == seq![attachment_id@]
        },
{
    let bound: &Binding = match binding {
        Some(b) => b,
        None => {
            return None;
        },
    };
    let mut tool_name: String = bound.channel.clone();
    tool_name.append(".send_with_attachments");
    let mut attachments: Vec<String> = Vec::new();
    attachments.push(attachment_id.to_owned());
    assert(texts(attachments@) =~= seq![attachment_id@]);
    let text: String = match caption {
        Some(c) => c.to_owned(),
        None => filename.to_owned(),
    };
    Some(AttachmentCall { tool_name, to: bound.foreign_id.clone(), text, attachments })
}

/// The plugin that the server's own artifacts are filed under.
pub const BUILTIN_PLUGIN_ID: &'static str = "core";

/// What a server without a place for artifacts answers.
pub open spec fn no_root_text() -> Seq<char> {
    "create_artifact called but ServerAttachmentApi has no artifacts_root configured (only `send` is available). Production wires this via `with_artifacts_root` in tool_dispatch."@
}

/// An artifact to be written.
#[derive(Debug)]
pub struct ArtifactWrite {
    pub root: String,
    pub plugin_id: String,
    pub filename: String,
    pub mime_type: String,
    pub ttl_seconds: Option<i64>,
}

/// Files an artifact of a built-in tool, where the server has a place for it. There
/// is no default place.
pub fn create_artifact(
    root: Option<String>,
    filename: &str,
    mime_type: &str,
    ttl_seconds: Option<i64>,
) -> (r: Result<ArtifactWrite, AttachmentError>)
    ensures
        root is None ==> (r matches Err(AttachmentError::Storage(m)) && m@ == no_root_text()),
        root matches Some(place) ==> {
            &&& r matches Ok(write)
            &&& write.root == place
            &&& write.plugin_id@ == BUILTIN_PLUGIN_ID@
            &&& write.filename@ == filename@
            &&& write.mime_type@ == mime_type@
            &&& write.ttl_seconds == ttl_seconds
        },
{
    match root {
        Some(root) => Ok(
            ArtifactWrite {
                root,
                plugin_id: BUILTIN_PLUGIN_ID.to_owned(),
                filename: filename.to_owned(),
                mime_type: mime_type.to_owned(),
                ttl_seconds,
            },
        ),
        None => Err(
            AttachmentError::Storage(
                "create_artifact called but ServerAttachmentApi has no artifacts_root configured (only `send` is available). Production wires this via `with_artifacts_root` in tool_dispatch.".to_owned(),
            ),
        ),
    }
}

/// A file is delivered where its row names the conversation, and nowhere else.
pub proof fn a_file_is_delivered_in_its_own_conversation(
    row: Option<AttachmentRow>,
    conversation_id: Seq<char>,
)
    ensures
        row matches Some(r) ==> (deliverable(row, conversation_id) <==> r.conversation_id@
            == conversation_id),
        row is None ==> !deliverable(row, conversation_id),
{
}

/// A caption counts without the blanks around it, and a blank one does not count.
pub proof fn a_blank_caption_is_none(caption: Seq<char>)
    ensures
        trimmed(caption).len() > 0 ==> caption_of(Some(caption)) == Some(trimmed(caption)),
        trimmed(caption).len() == 0 ==> caption_of(Some(caption)) is None,
        caption_of(None) is None,
{
}

/// A delivered file is shown under its caption, or its name without one, opens at
/// its own address, and is reported as it is.
pub proof fn a_delivery_shows_its_file(
    d: Delivery,
    attachment_id: Seq<char>,
    conversation_id: Seq<char>,
    mime_type: Seq<char>,
    filename: Seq<char>,
    byte_size: Option<u64>,
    caption: Option<Seq<char>>,
)
    requires
        delivers(d, attachment_id, conversation_id, mime_type, filename, byte_size, caption),
    ensures
        d.card.opened.card_id@ == "att-"@ + attachment_id,
        d.card.closed.card_id@ == "att-"@ + attachment_id,
        d.card.opened.kind is Attachment,
        d.card.opened.state is Running,
        d.card.closed.state is Completed,
        caption matches Some(c) ==> d.card.opened.title@ == c,
        caption is None ==> d.card.opened.title@ == filename,
        d.card.opened.summary@ == filename + " ("@ + mime_type + ")"@,
        d.card.closed.summary@ == filename + " ("@ + mime_type + ")"@,
        d.card.opened.open_href@ == "/api/attachments/"@ + attachment_id,
        d.card.closed.attachment_id@ == attachment_id,
        d.card.closed.details == d.card.opened.details,
        d.view.attachment_id@ == attachment_id,
        d.view.conversation_id@ == conversation_id,
        d.view.mime_type@ == mime_type,
        d.view.filename@ == filename,
        d.view.byte_size == byte_size,
        d.view.download_url@ == "/api/attachments/"@ + attachment_id,
        opt_view(d.view.caption) == caption,
        d.card.opened.details matches CardDetails::Attachment {
            attachment_id: a,
            filename: f,
            mime_type: m,
            byte_size: b,
            download_url: u,
            caption: c,
        } && a@ == attachment_id && f@ == filename && m@ == mime_type && b == byte_size && u@
            == "/api/attachments/"@ + attachment_id && opt_view(c) == caption,
{
}

/// A chart is shown under its title, or its file's name without one, with its size
/// and its drawing.
pub proof fn a_chart_shows_its_drawing(
    card: CardPair,
    attachment_id: Seq<char>,
    svg: Seq<char>,
    filename: Seq<char>,
    title: Option<Seq<char>>,
    width: u32,
    height: u32,
)
    requires
        charts(card, attachment_id, svg, filename, title, width, height),
    ensures
        card.opened.card_id@ == "chart-"@ + attachment_id,
        card.closed.card_id@ == "chart-"@ + attachment_id,
        card.opened.kind is Chart,
        card.opened.state is Running,
        card.closed.state is Completed,
        title matches Some(t) ==> card.opened.title@ == t,
        title is None ==> card.opened.title@ == filename,
        card.opened.summary@ == "Chart ("@ + decimal(width as nat) + "x"@ + decimal(height as nat)
            + ")"@,
        card.closed.summary@ == card.opened.summary@,
        card.opened.open_href@ == "/api/attachments/"@ + attachment_id,
        card.closed.attachment_id@ == attachment_id,
        card.closed.details == card.opened.details,
        card.opened.details matches CardDetails::Chart {
            attachment_id: a,
            filename: f,
            title: t,
            svg: s,
            width: w,
            height: h,
            download_url: u,
            mime_type: m,
        } && a@ == attachment_id && f@ == filename && opt_view(t) == title && s@ == svg && w
            == width && h == height && u@ == "/api/attachments/"@ + attachment_id && m@
            == "image/png"@,
{
}

} // verus!
