//! Announcing that the adapter runner is back after a restart.

use vstd::prelude::*;

use super::types::AdapterRecord;
use crate::clock::Duration;
use crate::pairs::{self, ConversationKey, KeyView};
use crate::text;

verus! {

/// A notice older than this is stale, and is dropped rather than announced.
pub const REBOOT_NOTICE_MAX_AGE_SECS: u64 = 900;

/// Left by whoever restarts the adapter runner.
#[derive(Debug)]
pub struct RebootNotice {
    pub requested_at: Option<String>,
    pub reason: Option<String>,
}

/// Whether a notice of this age is fresh. One of unknown age is not.
pub open spec fn is_fresh(age: Option<Duration>) -> bool {
    age matches Some(age) && age.nanos <= REBOOT_NOTICE_MAX_AGE_SECS * 1_000_000_000
}

/// What a runner has of a notice it tried to claim.
#[derive(Debug, Clone, Copy, PartialEq, Eq, Structural)]
pub enum NoticeClaim {
    /// Another runner removed the file first.
    Lost,
    /// The file was this runner's, and stale.
    Stale,
    /// The file was this runner's, and is to be read.
    Fresh,
}

/// What a runner has of a notice, given whether it removed the file itself and
/// how old the file was.
pub fn judge_notice(removed: bool, age: Option<Duration>) -> (claim: NoticeClaim)
    ensures
        claim == if !removed {
            NoticeClaim::Lost
        } else if is_fresh(age) {
            NoticeClaim::Fresh
        } else {
            NoticeClaim::Stale
        },
{
    if !removed {
        return NoticeClaim::Lost;
    }
    match age {
        Some(age) => if age.nanos <= Duration::from_secs(REBOOT_NOTICE_MAX_AGE_SECS).nanos {
            NoticeClaim::Fresh
        } else {
            NoticeClaim::Stale
        },
        None => NoticeClaim::Stale,
    }
}

/// The notice a runner has claimed: only where it removed the file itself, the
/// file was fresh, and it held a notice. The file is gone in every other case
/// too, so a stale or malformed notice is consumed and never announced.
pub fn claimed_notice(removed: bool, age: Option<Duration>, parsed: Option<RebootNotice>) -> (notice: Option<
    RebootNotice,
>)
    ensures
        notice == if removed && is_fresh(age) {
            parsed
        } else {
            None
        },
{
    match judge_notice(removed, age) {
        NoticeClaim::Fresh => parsed,
        _ => None,
    }
}

/// The conversation of an adapter.
pub open spec fn key_view(adapter: AdapterRecord) -> KeyView {
    (adapter.agent_id@, adapter.conversation_id@)
}

/// The conversation of each adapter.
pub open spec fn adapter_keys(adapters: Seq<AdapterRecord>) -> Seq<KeyView> {
    adapters.map_values(|adapter: AdapterRecord| key_view(adapter))
}

/// The distinct conversations that have an adapter, in the adapters' order.
pub fn adapter_conversations(adapters: &Vec<AdapterRecord>) -> (keys: Vec<ConversationKey>)
    ensures
        pairs::key_views(keys@) == pairs::distinct(adapter_keys(adapters@)),
{
    let mut all: Vec<ConversationKey> = Vec::new();
    let mut i: usize = 0;
    while i < adapters.len()
        invariant
            i <= adapters.len(),
            all.len() == i,
            forall|j: int| 0 <= j < i ==> (#[trigger] all@[j])@ == key_view(adapters@[j]),
        decreases adapters.len() - i,
    {
        all.push(
            ConversationKey {
                agent_id: adapters[i].agent_id.clone(),
                conversation_id: adapters[i].conversation_id.clone(),
            },
        );
        i += 1;
    }
    assert(pairs::key_views(all@) =~= adapter_keys(adapters@));
    pairs::distinct_keys(&all)
}

/// How an adapter is named to the agent.
pub open spec fn adapter_label(adapter: AdapterRecord) -> Seq<char> {
    "`"@ + adapter.name@ + "` ("@ + adapter.config.adapter_type@ + ")"@
}

/// The adapters of a conversation, as they are named to the agent.
pub open spec fn labels_of(adapters: Seq<AdapterRecord>, key: KeyView) -> Seq<Seq<char>> {
    adapters.filter(|adapter: AdapterRecord| key_view(adapter) == key).map_values(
        |adapter: AdapterRecord| adapter_label(adapter),
    )
}

/// A text that may be missing, or what stands for it.
pub open spec fn text_or(text: Option<String>, otherwise: Seq<char>) -> Seq<char> {
    match text {
        Some(held) => held@,
        None => otherwise,
    }
}

/// What a conversation with these adapters is told after a reboot.
pub open spec fn reboot_prompt(notice: RebootNotice, labels: Seq<Seq<char>>) -> Seq<char> {
    "Host services were restarted (reason: "@ + text_or(notice.reason, "unspecified"@)
        + ", requested at "@ + text_or(notice.requested_at, "unknown time"@)
        + ") and the adapter runner is back up. Adapter workers for "@ + text::joined(
        labels,
        ", "@,
    )
        + " are reconnecting now. If you announced this reboot externally, or external users should know you are back, announce your return with send_adapter_message on the relevant adapters and targets; outbound messages queue durably and deliver once the adapter reconnects. If no announcement is appropriate, do nothing."@
}

/// A conversation to wake after a reboot, and what it is told.
#[derive(Debug)]
pub struct RebootAnnouncement {
    pub key: ConversationKey,
    pub prompt: String,
}

/// How an adapter is named to the agent.
fn label(adapter: &AdapterRecord) -> (named: String)
    ensures
        named@ == adapter_label(*adapter),
{
    let mut named = "`".to_string();
    named.append(adapter.name.as_str());
    named.append("` (");
    named.append(adapter.config.adapter_type.as_str());
    named.append(")");
    named
}

/// The adapters of a conversation, as they are named to the agent.
fn conversation_labels(adapters: &Vec<AdapterRecord>, key: &ConversationKey) -> (labels: Vec<
    String,
>)
    ensures
        text::views(labels@) == labels_of(adapters@, key@),
{
    let mut labels: Vec<String> = Vec::new();
    let mut i: usize = 0;
    proof {
        reveal(Seq::filter);
        assert(adapters@.take(0) =~= Seq::empty());
        assert(text::views(labels@) =~= labels_of(adapters@.take(0), key@));
    }
    while i < adapters.len()
        invariant
            i <= adapters.len(),
            text::views(labels@) == labels_of(adapters@.take(i as int), key@),
        decreases adapters.len() - i,
    {
        let adapter = &adapters[i];
        let ghost before = labels@;
        let ghost earlier = labels_of(adapters@.take(i as int), key@);
        let ghost now = labels_of(adapters@.take(i + 1), key@);
        proof {
            assert(adapters@.take(i + 1).drop_last() =~= adapters@.take(i as int));
            assert(adapters@.take(i + 1).last() == *adapter);
            reveal(Seq::filter);
        }
        if adapter.agent_id == key.agent_id && adapter.conversation_id == key.conversation_id {
            labels.push(label(adapter));
            assert(now =~= earlier.push(adapter_label(*adapter)));
            assert(text::views(labels@) =~= text::views(before).push(adapter_label(*adapter)));
        } else {
            assert(now =~= earlier);
        }
        i += 1;
    }
    assert(adapters@.take(i as int) =~= adapters@);
    labels
}

/// What a conversation with these adapters is told after a reboot.
fn compose_reboot_prompt(notice: &RebootNotice, labels: &Vec<String>) -> (prompt: String)
    ensures
        prompt@ == reboot_prompt(*notice, text::views(labels@)),
{
    let mut prompt = "Host services were restarted (reason: ".to_string();
    match &notice.reason {
        Some(reason) => prompt.append(reason.as_str()),
        None => prompt.append("unspecified"),
    }
    prompt.append(", requested at ");
    match &notice.requested_at {
        Some(requested_at) => prompt.append(requested_at.as_str()),
        None => prompt.append("unknown time"),
    }
    prompt.append(") and the adapter runner is back up. Adapter workers for ");
    prompt.append(text::join(labels, ", ").as_str());
    prompt.append(
        " are reconnecting now. If you announced this reboot externally, or external users should know you are back, announce your return with send_adapter_message on the relevant adapters and targets; outbound messages queue durably and deliver once the adapter reconnects. If no announcement is appropriate, do nothing.",
    );
    prompt
}

/// What is announced after a reboot: each conversation that has an adapter is
/// woken once, and told of all its adapters.
pub fn reboot_announcements(adapters: &Vec<AdapterRecord>, notice: &RebootNotice) -> (announcements: Vec<
    RebootAnnouncement,
>)
    ensures
        ({
            let keys = pairs::distinct(adapter_keys(adapters@));
            &&& announcements.len() == keys.len()
            &&& forall|i: int|
                0 <= i < announcements.len() ==> (#[trigger] announcements@[i]).key@ == keys[i]
                    && announcements@[i].prompt@ == reboot_prompt(
                    *notice,
                    labels_of(adapters@, keys[i]),
                )
        }),
{
    let keys = adapter_conversations(adapters);
    let ghost views = pairs::key_views(keys@);
    let mut announcements: Vec<RebootAnnouncement> = Vec::new();
    let mut i: usize = 0;
    while i < keys.len()
        invariant
            i <= keys.len(),
            views == pairs::key_views(keys@),
            announcements.len() == i,
            forall|j: int|
                0 <= j < i ==> (#[trigger] announcements@[j]).key@ == views[j]
                    && announcements@[j].prompt@ == reboot_prompt(
                    *notice,
                    labels_of(adapters@, views[j]),
                ),
        decreases keys.len() - i,
    {
        assert(views[i as int] == keys@[i as int]@);
        let labels = conversation_labels(adapters, &keys[i]);
        announcements.push(
            RebootAnnouncement {
                key: keys[i].clone(),
                prompt: compose_reboot_prompt(notice, &labels),
            },
        );
        i += 1;
    }
    announcements
}

/// Every conversation that has an adapter is announced to, and none twice.
pub proof fn every_conversation_is_told_once(adapters: Seq<AdapterRecord>, i: int)
    requires
        0 <= i < adapters.len(),
    ensures
        pairs::distinct(adapter_keys(adapters)).contains(key_view(adapters[i])),
        pairs::distinct(adapter_keys(adapters)).no_duplicates(),
{
    pairs::distinct_keys_are_the_keys(adapter_keys(adapters));
    assert(adapter_keys(adapters)[i] == key_view(adapters[i]));
    assert(adapter_keys(adapters).contains(key_view(adapters[i])));
}

} // verus!
