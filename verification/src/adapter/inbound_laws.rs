//! What the agent is shown of a message's attachments.

use vstd::prelude::*;

use super::inbound::{self, ImagePart};
use super::types::{AdapterAttachment, AdapterAttachmentKind};
use crate::filters;
use crate::text;

verus! {

/// Whether attachments are the first images with a URL of some, four at most:
/// `from` names all that there are.
pub open spec fn are_first_images(
    attachments: Seq<AdapterAttachment>,
    fetched: Seq<AdapterAttachment>,
    from: Seq<int>,
) -> bool {
    &&& filters::picks(
        from,
        attachments.len() as int,
        |i: int|
            attachments[i].kind == AdapterAttachmentKind::Image && attachments[i].url is Some,
    )
    &&& fetched.len() == if from.len() < 4 {
        from.len()
    } else {
        4
    }
    &&& forall|k: int| 0 <= k < fetched.len() ==> fetched[k] == attachments[#[trigger] from[k]]
}

/// The first four images that have a URL are fetched, in the order in which they
/// are attached, and nothing else.
pub proof fn the_first_images_are_fetched(attachments: Seq<AdapterAttachment>)
    ensures
        exists|from: Seq<int>| #[trigger]
            are_first_images(attachments, inbound::image_candidates(attachments), from),
{
    let keep = |attachment: AdapterAttachment| inbound::is_image_candidate(attachment);
    let from = filters::kept_positions(attachments, keep);
    let chosen = |i: int|
        attachments[i].kind == AdapterAttachmentKind::Image && attachments[i].url is Some;
    assert forall|i: int| 0 <= i < attachments.len() && #[trigger] chosen(i) implies from.contains(
        i,
    ) by {
        assert((|i: int| keep(attachments[i]))(i));
    }
    assert forall|k: int| 0 <= k < from.len() implies chosen(#[trigger] from[k]) by {
        assert((|i: int| keep(attachments[i]))(from[k]));
    }
    assert(are_first_images(attachments, inbound::image_candidates(attachments), from));
}

/// Kinds of attachments are called differently.
pub proof fn kinds_are_told_apart(a: AdapterAttachmentKind, b: AdapterAttachmentKind)
    ensures
        inbound::kind_label(a) == inbound::kind_label(b) <==> a == b,
        inbound::kind_label(AdapterAttachmentKind::Image) == "image"@,
{
    reveal_strlit("image");
    reveal_strlit("video");
    reveal_strlit("audio");
    reveal_strlit("document");
    assert("image"@[0] == 'i' && "video"@[0] == 'v' && "audio"@[0] == 'a' && "document"@[0]
        == 'd');
}

/// A listing says of an attachment of which kind it is, and of a message of
/// which images are shown how many they are.
pub proof fn a_listing_tells_kinds_and_images(attachments: Seq<AdapterAttachment>, images: nat)
    requires
        attachments.len() > 0,
    ensures
        ({
            let views = super::types::attachment_views(attachments);
            let note = inbound::attachments_note(views, images);
            &&& images > 0 ==> text::is_within(text::decimal(images), note)
            &&& text::is_within(
                inbound::kind_label(attachments.last().kind),
                inbound::attachment_line(attachments.last()@),
            )
            &&& text::is_within(inbound::attachment_lines(views), note)
        }),
{
    let views = super::types::attachment_views(attachments);
    let lines = inbound::attachment_lines(views);
    let note = inbound::attachments_note(views, images);
    let head = "\n\nThe message includes these attachments:\n"@;
    let rest = note.skip((head + lines).len() as int);
    assert(note =~= head + lines + rest);
    text::a_part_is_within(head, lines, rest);
    if images > 0 {
        let number = text::decimal(images);
        let before = head + lines + "\n"@;
        let after = note.skip((before + number).len() as int);
        assert(note =~= before + number + after);
        text::a_part_is_within(before, number, after);
    }
    let line = inbound::attachment_line(attachments.last()@);
    let kind = inbound::kind_label(attachments.last().kind);
    let tail = line.skip(("- "@ + kind).len() as int);
    assert(line =~= "- "@ + kind + tail);
    text::a_part_is_within("- "@, kind, tail);
}

/// A message without attachments is told nothing of them.
pub proof fn no_attachments_no_note(images: nat)
    ensures
        inbound::attachments_note(Seq::empty(), images).len() == 0,
{
}

/// An image's view shows its data and its media type.
pub proof fn an_image_shows_every_field(a: ImagePart, b: ImagePart)
    requires
        a@ == b@,
    ensures
        a.data@ == b.data@,
        text::same_opt(a.media_type, b.media_type),
{
}

/// The record of a message names its platform, who sent it and where to, and how
/// many attachments it has where it has any.
pub proof fn a_message_is_recorded_by_name(
    adapter_type: Seq<char>,
    sender: Option<Seq<char>>,
    target: Seq<char>,
    attachments: nat,
)
    ensures
        ({
            let summary = inbound::inbound_summary(adapter_type, sender, target, attachments);
            &&& text::is_within(adapter_type, summary)
            &&& text::is_within(target, summary)
            &&& sender matches Some(who) ==> text::is_within(who, summary)
            &&& sender is None ==> text::is_within("unknown"@, summary)
            &&& attachments > 0 ==> text::is_within(text::decimal(attachments), summary)
        }),
{
    let summary = inbound::inbound_summary(adapter_type, sender, target, attachments);
    let who = inbound::or_else(sender, "unknown"@);
    let none = Seq::<char>::empty();
    let after_type = summary.skip(adapter_type.len() as int);
    assert(summary =~= none + adapter_type + after_type);
    text::a_part_is_within(none, adapter_type, after_type);
    let before_who = adapter_type + " adapter message from "@;
    let after_who = summary.skip((before_who + who).len() as int);
    assert(summary =~= before_who + who + after_who);
    text::a_part_is_within(before_who, who, after_who);
    let before_target = before_who + who + " to "@;
    let after_target = summary.skip((before_target + target).len() as int);
    assert(summary =~= before_target + target + after_target);
    text::a_part_is_within(before_target, target, after_target);
    if attachments > 0 {
        let number = text::decimal(attachments);
        let before_number = before_target + target + " with "@;
        assert(summary =~= before_number + number + " attachment(s)"@);
        text::a_part_is_within(before_number, number, " attachment(s)"@);
    }
}

/// On Slack, a message from an active thread is told apart from one that is not:
/// its prompt says so in more words, and is the same otherwise.
pub proof fn an_active_thread_is_pointed_out(dm_target: Option<Seq<char>>)
    ensures
        ({
            let ambient = inbound::slack_note(dm_target, true);
            let direct = inbound::slack_note(dm_target, false);
            &&& ambient.len() > direct.len()
            &&& ambient.take(direct.len() as int) == direct
            &&& dm_target is None ==> direct.len() == 0
        }),
{
    let ambient = inbound::slack_note(dm_target, true);
    let direct = inbound::slack_note(dm_target, false);
    reveal_strlit(
        "\n\nThis Slack message is from an active thread, but it may be ambient conversation. Only call send_adapter_message if the message appears directed at Exo, asks Exo to do something, or clearly needs an Exo response. If no response is needed, do nothing.",
    );
    assert(ambient.take(direct.len() as int) =~= direct);
}

} // verus!
