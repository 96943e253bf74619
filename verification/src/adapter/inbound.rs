//! Messages on their way in: what the agent is shown of them.

use base64::Engine;
use serde_json::Value;
use vstd::prelude::*;

use super::types::{
    AdapterAttachment, AdapterAttachmentKind, AdapterAttachmentView, AdapterConfig, AdapterRecord,
};
use crate::json::{self, Json};
use crate::text;

verus! {

/// How many images of one message are forwarded to the model. Further images
/// are still listed with their URLs.
pub const MAX_INBOUND_IMAGES: usize = 4;

/// How many bytes an image forwarded to the model may have. Larger ones are
/// listed by URL only.
pub const MAX_INBOUND_IMAGE_BYTES: usize = 8_388_608;

/// The standard base64 text of some bytes, with padding, as the `base64` crate
/// gives it.
pub uninterp spec fn base64_text(bytes: Seq<u8>) -> Seq<char>;

/// `base64::engine::general_purpose::STANDARD.encode`: the standard base64 text
/// of the bytes. Its length must fit a `usize`, which it does for images of the
/// sizes that are forwarded.
#[verifier::external_body]
fn encode_base64(bytes: &Vec<u8>) -> (encoded: String)
    requires
        bytes.len() <= MAX_INBOUND_IMAGE_BYTES,
    ensures
        encoded@ == base64_text(bytes@),
{
    base64::engine::general_purpose::STANDARD.encode(bytes)
}

/// Whether an attachment is an image that can be fetched.
pub open spec fn is_image_candidate(attachment: AdapterAttachment) -> bool {
    attachment.kind is Image && attachment.url is Some
}

/// The attachments to fetch: the first images that have a URL.
pub open spec fn image_candidates(attachments: Seq<AdapterAttachment>) -> Seq<AdapterAttachment> {
    let images = attachments.filter(|attachment: AdapterAttachment| is_image_candidate(attachment));
    if images.len() > MAX_INBOUND_IMAGES {
        images.take(MAX_INBOUND_IMAGES as int)
    } else {
        images
    }
}

/// The attachments to fetch: the first images that have a URL, up to
/// [`MAX_INBOUND_IMAGES`].
pub fn inbound_image_candidates<'a>(attachments: &'a [AdapterAttachment]) -> (candidates: Vec<
    &'a AdapterAttachment,
>)
    ensures
        candidates@.map_values(|candidate: &'a AdapterAttachment| *candidate) == image_candidates(
            attachments@,
        ),
{
    let ghost pred = |attachment: AdapterAttachment| is_image_candidate(attachment);
    let mut candidates: Vec<&'a AdapterAttachment> = Vec::new();
    let mut i: usize = 0;
    proof {
        reveal(Seq::filter);
        assert(attachments@.take(0) =~= Seq::empty());
        assert(candidates@.map_values(|candidate: &'a AdapterAttachment| *candidate)
            =~= image_candidates(attachments@.take(0)));
    }
    while i < attachments.len()
        invariant
            i <= attachments.len(),
            pred == (|attachment: AdapterAttachment| is_image_candidate(attachment)),
            candidates.len() <= MAX_INBOUND_IMAGES,
            candidates@.map_values(|candidate: &'a AdapterAttachment| *candidate)
                == image_candidates(attachments@.take(i as int)),
        decreases attachments.len() - i,
    {
        let attachment = &attachments[i];
        let ghost before = attachments@.take(i as int).filter(pred);
        let ghost after = attachments@.take(i + 1).filter(pred);
        let ghost held = candidates@;
        proof {
            assert(attachments@.take(i + 1).drop_last() =~= attachments@.take(i as int));
            assert(attachments@.take(i + 1).last() == *attachment);
            reveal(Seq::filter);
        }
        if attachment.kind == AdapterAttachmentKind::Image && attachment.url.is_some() {
            assert(after == before.push(*attachment));
            if candidates.len() < MAX_INBOUND_IMAGES {
                candidates.push(attachment);
                assert(candidates@.map_values(|candidate: &'a AdapterAttachment| *candidate)
                    =~= held.map_values(|candidate: &'a AdapterAttachment| *candidate).push(
                    *attachment,
                ));
                assert(before =~= before.take(before.len() as int));
            }
            assert(candidates@.map_values(|candidate: &'a AdapterAttachment| *candidate)
                =~= image_candidates(attachments@.take(i + 1)));
        } else {
            assert(after == before);
        }
        i += 1;
    }
    assert(attachments@.take(i as int) =~= attachments@);
    candidates
}

/// An image the model is shown.
#[derive(Debug)]
pub struct ImagePart {
    /// The image's bytes, in base64.
    pub data: String,
    pub media_type: Option<String>,
}

/// The contents of an [`ImagePart`].
#[verifier::ext_equal]
pub struct ImageView {
    pub data: Seq<char>,
    pub media_type: Option<Seq<char>>,
}

impl View for ImagePart {
    type V = ImageView;

    open spec fn view(&self) -> ImageView {
        ImageView { data: self.data@, media_type: text::opt_view(self.media_type) }
    }
}

/// The contents of each image.
pub open spec fn image_views(images: Seq<ImagePart>) -> Seq<ImageView> {
    images.map_values(|image: ImagePart| image@)
}

/// The image of fetched bytes; `None` where they are too many, and the URL has
/// to do.
pub fn image_part(bytes: &Vec<u8>, attachment: &AdapterAttachment) -> (part: Option<ImagePart>)
    ensures
        match part {
            Some(image) => bytes.len() <= MAX_INBOUND_IMAGE_BYTES && image@ == (ImageView {
                data: base64_text(bytes@),
                media_type: text::opt_view(attachment.mime_type),
            }),
            None => bytes.len() > MAX_INBOUND_IMAGE_BYTES,
        },
{
    if bytes.len() > MAX_INBOUND_IMAGE_BYTES {
        return None;
    }
    Some(encoded_image(encode_base64(bytes), attachment))
}

/// The image of a base64 text, with the attachment's media type.
pub fn encoded_image(data: String, attachment: &AdapterAttachment) -> (image: ImagePart)
    ensures
        image@ == (ImageView {
            data: data@,
            media_type: text::opt_view(attachment.mime_type),
        }),
{
    ImagePart { data, media_type: text::opt_copy(&attachment.mime_type) }
}

/// The record of an attachment that could not be fetched.
pub fn download_failure_summary(error: &str) -> (summary: String)
    ensures
        summary@ == "inbound attachment download failed: "@ + error@,
{
    let mut summary = "inbound attachment download failed: ".to_string();
    summary.append(error);
    summary
}

/// What a kind of attachment is called.
pub open spec fn kind_label(kind: AdapterAttachmentKind) -> Seq<char> {
    match kind {
        AdapterAttachmentKind::Image => "image"@,
        AdapterAttachmentKind::Video => "video"@,
        AdapterAttachmentKind::Audio => "audio"@,
        AdapterAttachmentKind::Document => "document"@,
    }
}

/// What a kind of attachment is called.
pub fn attachment_kind_label(kind: AdapterAttachmentKind) -> (label: &'static str)
    ensures
        label@ == kind_label(kind),
{
    match kind {
        AdapterAttachmentKind::Image => "image",
        AdapterAttachmentKind::Video => "video",
        AdapterAttachmentKind::Audio => "audio",
        AdapterAttachmentKind::Document => "document",
    }
}

/// A text that may be missing, or what stands for it.
pub open spec fn or_else(text: Option<Seq<char>>, otherwise: Seq<char>) -> Seq<char> {
    match text {
        Some(held) => held,
        None => otherwise,
    }
}

/// How an attachment is listed.
pub open spec fn attachment_line(attachment: AdapterAttachmentView) -> Seq<char> {
    "- "@ + kind_label(attachment.kind) + " `"@ + or_else(attachment.file_name, "(unnamed)"@)
        + "` ("@ + or_else(attachment.mime_type, "unknown type"@) + ") — "@ + or_else(
        attachment.url,
        "no url"@,
    ) + "\n"@
}

/// How some attachments are listed.
pub open spec fn attachment_lines(attachments: Seq<AdapterAttachmentView>) -> Seq<char>
    decreases attachments.len(),
{
    if attachments.len() == 0 {
        Seq::empty()
    } else {
        attachment_lines(attachments.drop_last()) + attachment_line(attachments.last())
    }
}

/// What is said of the attachments of a message, `images` of which the model is
/// shown.
pub open spec fn attachments_note(
    attachments: Seq<AdapterAttachmentView>,
    images: nat,
) -> Seq<char> {
    if attachments.len() == 0 {
        Seq::empty()
    } else {
        "\n\nThe message includes these attachments:\n"@ + attachment_lines(attachments) + (
        if images > 0 {
            "\n"@ + text::decimal(images)
                + " image(s) are attached to this message so you can view them directly."@
        } else {
            Seq::empty()
        })
            + "\nAttachment URLs may expire quickly; if you need the raw file, download it promptly (e.g. with curl in your sandbox)."@
    }
}

/// What is said of a message that came from Slack.
pub open spec fn slack_note(dm_target: Option<Seq<char>>, active_thread: bool) -> Seq<char> {
    (match dm_target {
        Some(dm_target) => "\n\nSlack sender DM target: `"@ + dm_target
            + "`. Use this only for appropriate private follow-up; do not use DM to bypass safety policy."@,
        None => Seq::empty(),
    }) + (if active_thread {
        "\n\nThis Slack message is from an active thread, but it may be ambient conversation. Only call send_adapter_message if the message appears directed at Exo, asks Exo to do something, or clearly needs an Exo response. If no response is needed, do nothing."@
    } else {
        Seq::empty()
    })
}

/// What every inbound message ends with: how to answer it.
pub open spec fn reply_note(adapter_id: Seq<char>, target: Seq<char>) -> Seq<char> {
    "\n\nThis message came from an external adapter. If you answer this message, you MUST reply externally with send_adapter_message using adapterId `"@
        + adapter_id + "` and target `"@ + target
        + "`. Do not answer only in the REPL unless you are explicitly deciding that no external reply should be sent. If this asks you to schedule future work whose results should be posted back externally, include adapterId `"@
        + adapter_id + "` and target `"@ + target + "` in the scheduled task reportPrompt."@
}

/// What a message opens with.
pub open spec fn message_opening(
    adapter_type: Seq<char>,
    target: Seq<char>,
    sender: Option<Seq<char>>,
    adapter_name: Seq<char>,
    message: Seq<char>,
) -> Seq<char> {
    adapter_type + " message received at target `"@ + target + "` from "@ + or_else(
        sender,
        "unknown"@,
    ) + " via adapter `"@ + adapter_name + "`:\n\n"@ + message
}

/// The prompt of an inbound message, given what its metadata says: where to
/// reach the sender in private, and whether it belongs to an active thread.
/// Both matter on Slack alone.
pub open spec fn inbound_prompt(
    config: AdapterConfig,
    adapter: AdapterRecord,
    target: Seq<char>,
    sender: Option<Seq<char>>,
    message: Seq<char>,
    dm_target: Option<Seq<char>>,
    active_thread: bool,
    attachments: Seq<AdapterAttachmentView>,
    images: nat,
) -> Seq<char> {
    message_opening(config.adapter_type@, target, sender, adapter.name@, message) + (
    if config.adapter_type@ == "slack"@ {
        slack_note(dm_target, active_thread)
    } else {
        Seq::empty()
    }) + attachments_note(attachments, images) + reply_note(adapter.id@, target)
}

/// Where to reach the sender in private, by a message's metadata.
pub open spec fn dm_target_in(metadata: Json) -> Option<Seq<char>> {
    json::text_of(json::field_of(metadata, "dmTarget"@))
}

/// Whether a message belongs to an active thread, by its metadata.
pub open spec fn is_active_thread(metadata: Json) -> bool {
    json::field_of(metadata, "isActiveThread"@) == Some(Json::Bool(true))
}

/// Appends the listing of an attachment.
fn push_attachment_line(out: &mut String, attachment: &AdapterAttachment)
    ensures
        final(out)@ == old(out)@ + attachment_line(attachment@),
{
    out.append("- ");
    out.append(attachment_kind_label(attachment.kind));
    out.append(" `");
    push_or(out, &attachment.file_name, "(unnamed)");
    out.append("` (");
    push_or(out, &attachment.mime_type, "unknown type");
    out.append(") — ");
    push_or(out, &attachment.url, "no url");
    out.append("\n");
    assert(out@ =~= old(out)@ + attachment_line(attachment@));
}

/// Appends a text that may be missing, or what stands for it.
fn push_or(out: &mut String, text: &Option<String>, otherwise: &str)
    ensures
        final(out)@ == old(out)@ + or_else(text::opt_view(*text), otherwise@),
{
    match text {
        Some(held) => out.append(held.as_str()),
        None => out.append(otherwise),
    }
}

/// Appends what is said of the attachments.
fn push_attachments_note(out: &mut String, attachments: &[AdapterAttachment], images: usize)
    ensures
        final(out)@ == old(out)@ + attachments_note(
            super::types::attachment_views(attachments@),
            images as nat,
        ),
{
    let ghost views = super::types::attachment_views(attachments@);
    if attachments.len() == 0 {
        assert(out@ =~= old(out)@ + attachments_note(views, images as nat));
        return;
    }
    let mut note = "\n\nThe message includes these attachments:\n".to_string();
    let ghost head = note@;
    let mut i: usize = 0;
    proof {
        assert(views.take(0) =~= Seq::empty());
        assert(note@ =~= head + attachment_lines(views.take(0)));
    }
    while i < attachments.len()
        invariant
            i <= attachments.len(),
            views == super::types::attachment_views(attachments@),
            note@ == head + attachment_lines(views.take(i as int)),
        decreases attachments.len() - i,
    {
        proof {
            assert(views.take(i + 1).drop_last() =~= views.take(i as int));
            assert(views.take(i + 1).last() == attachments@[i as int]@);
        }
        push_attachment_line(&mut note, &attachments[i]);
        assert(note@ =~= head + attachment_lines(views.take(i + 1)));
        i += 1;
    }
    assert(views.take(i as int) =~= views);
    if images > 0 {
        note.append("\n");
        text::push_decimal(&mut note, images as u64);
        note.append(" image(s) are attached to this message so you can view them directly.");
    }
    note.append(
        "\nAttachment URLs may expire quickly; if you need the raw file, download it promptly (e.g. with curl in your sandbox).",
    );
    assert(note@ =~= attachments_note(views, images as nat));
    out.append(note.as_str());
}

/// Appends what is said of a message that came from Slack.
fn push_slack_note(out: &mut String, dm_target: Option<&str>, active_thread: bool)
    ensures
        final(out)@ == old(out)@ + slack_note(text::opt_str_view(dm_target), active_thread),
{
    if let Some(dm_target) = dm_target {
        out.append("\n\nSlack sender DM target: `");
        out.append(dm_target);
        out.append(
            "`. Use this only for appropriate private follow-up; do not use DM to bypass safety policy.",
        );
    }
    if active_thread {
        out.append(
            "\n\nThis Slack message is from an active thread, but it may be ambient conversation. Only call send_adapter_message if the message appears directed at Exo, asks Exo to do something, or clearly needs an Exo response. If no response is needed, do nothing.",
        );
    }
    assert(out@ =~= old(out)@ + slack_note(text::opt_str_view(dm_target), active_thread));
}

/// Appends how to answer.
fn push_reply_note(out: &mut String, adapter_id: &str, target: &str)
    ensures
        final(out)@ == old(out)@ + reply_note(adapter_id@, target@),
{
    out.append(
        "\n\nThis message came from an external adapter. If you answer this message, you MUST reply externally with send_adapter_message using adapterId `",
    );
    out.append(adapter_id);
    out.append("` and target `");
    out.append(target);
    out.append(
        "`. Do not answer only in the REPL unless you are explicitly deciding that no external reply should be sent. If this asks you to schedule future work whose results should be posted back externally, include adapterId `",
    );
    out.append(adapter_id);
    out.append("` and target `");
    out.append(target);
    out.append("` in the scheduled task reportPrompt.");
    assert(out@ =~= old(out)@ + reply_note(adapter_id@, target@));
}

/// The prompt of an inbound message, given what its metadata says: where to
/// reach the sender in private, and whether it belongs to an active thread.
pub fn compose_inbound_prompt(
    config: &AdapterConfig,
    adapter: &AdapterRecord,
    target: &str,
    sender: Option<&str>,
    message: &str,
    dm_target: Option<&str>,
    active_thread: bool,
    attachments: &[AdapterAttachment],
    attached_image_count: usize,
) -> (prompt: String)
    ensures
        prompt@ == inbound_prompt(
            *config,
            *adapter,
            target@,
            text::opt_str_view(sender),
            message@,
            text::opt_str_view(dm_target),
            active_thread,
            super::types::attachment_views(attachments@),
            attached_image_count as nat,
        ),
{
    let mut prompt = config.adapter_type.clone();
    prompt.append(" message received at target `");
    prompt.append(target);
    prompt.append("` from ");
    match sender {
        Some(sender) => prompt.append(sender),
        None => prompt.append("unknown"),
    }
    prompt.append(" via adapter `");
    prompt.append(adapter.name.as_str());
    prompt.append("`:\n\n");
    prompt.append(message);
    let ghost opening = prompt@;
    assert(opening =~= message_opening(
        config.adapter_type@,
        target@,
        text::opt_str_view(sender),
        adapter.name@,
        message@,
    ));
    if text::str_eq(config.adapter_type.as_str(), "slack") {
        push_slack_note(&mut prompt, dm_target, active_thread);
    }
    let ghost noted = prompt@;
    assert(noted =~= opening + (if config.adapter_type@ == "slack"@ {
        slack_note(text::opt_str_view(dm_target), active_thread)
    } else {
        Seq::empty()
    }));
    push_attachments_note(&mut prompt, attachments, attached_image_count);
    push_reply_note(&mut prompt, adapter.id.as_str(), target);
    prompt
}

/// The prompt of an inbound message.
pub fn compose_inbound_wakeup_prompt(
    config: &AdapterConfig,
    adapter: &AdapterRecord,
    target: &str,
    sender: Option<&str>,
    message: &str,
    metadata: &Value,
    attachments: &[AdapterAttachment],
    attached_image_count: usize,
) -> (prompt: String)
    ensures
        prompt@ == inbound_prompt(
            *config,
            *adapter,
            target@,
            text::opt_str_view(sender),
            message@,
            dm_target_in(json::json(*metadata)),
            is_active_thread(json::json(*metadata)),
            super::types::attachment_views(attachments@),
            attached_image_count as nat,
        ),
{
    let dm_target = json::text_field(metadata, "dmTarget");
    let active_thread = match json::field(metadata, "isActiveThread") {
        Some(value) => match json::as_bool(value) {
            Some(active) => active,
            None => false,
        },
        None => false,
    };
    compose_inbound_prompt(
        config,
        adapter,
        target,
        sender,
        message,
        dm_target,
        active_thread,
        attachments,
        attached_image_count,
    )
}

/// The record of an inbound message.
pub open spec fn inbound_summary(
    adapter_type: Seq<char>,
    sender: Option<Seq<char>>,
    target: Seq<char>,
    attachments: nat,
) -> Seq<char> {
    adapter_type + " adapter message from "@ + or_else(sender, "unknown"@) + " to "@ + target + (
    if attachments == 0 {
        Seq::empty()
    } else {
        " with "@ + text::decimal(attachments) + " attachment(s)"@
    })
}

/// The record of an inbound message.
pub fn inbound_event_summary(
    config: &AdapterConfig,
    sender: &Option<String>,
    target: &str,
    attachments: usize,
) -> (summary: String)
    ensures
        summary@ == inbound_summary(
            config.adapter_type@,
            text::opt_view(*sender),
            target@,
            attachments as nat,
        ),
{
    let mut summary = config.adapter_type.clone();
    summary.append(" adapter message from ");
    push_or(&mut summary, sender, "unknown");
    summary.append(" to ");
    summary.append(target);
    if attachments > 0 {
        summary.append(" with ");
        text::push_decimal(&mut summary, attachments as u64);
        summary.append(" attachment(s)");
    }
    assert(summary@ =~= inbound_summary(
        config.adapter_type@,
        text::opt_view(*sender),
        target@,
        attachments as nat,
    ));
    summary
}

} // verus!
