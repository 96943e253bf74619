//! Which conversation an inbound message belongs to, one outside operation at
//! a time.

use vstd::prelude::*;

use super::types::{AdapterConfig, AdapterRecord};
use crate::json;
use crate::text;

verus! {

/// Whether each target of an adapter has a conversation of its own. Anything
/// but an explicit `target` scope stays on the adapter's conversation.
pub open spec fn is_target_scoped(config: AdapterConfig) -> bool {
    json::text_of(
        json::field_of(json::json(config.initialization), "conversationScope"@),
    ) == Some("target"@)
}

/// Whether each target of an adapter has a conversation of its own.
pub fn uses_target_conversation_scope(config: &AdapterConfig) -> (scoped: bool)
    ensures
        scoped == is_target_scoped(*config),
{
    match json::text_field(&config.initialization, "conversationScope") {
        Some(scope) => text::str_eq(scope, "target"),
        None => false,
    }
}

/// Whether a character is an ASCII letter or digit.
pub open spec fn is_alphanumeric(c: char) -> bool {
    ('0' <= c && c <= '9') || ('A' <= c && c <= 'Z') || ('a' <= c && c <= 'z')
}

/// The first twelve ASCII letters and digits of a text.
pub open spec fn short_part(value: Seq<char>) -> Seq<char> {
    let kept = value.filter(|c: char| is_alphanumeric(c));
    if kept.len() > 12 {
        kept.take(12)
    } else {
        kept
    }
}

/// The slug of a target's conversation, given the key under which the adapter
/// store files the target.
pub open spec fn target_slug(adapter_id: Seq<char>, target_key: Seq<char>) -> Seq<char> {
    "adapter-"@ + short_part(adapter_id) + "-"@ + target_key
}

/// The first twelve ASCII letters and digits of a text.
pub fn short_slug_part(value: &str) -> (part: String)
    ensures
        part@ == short_part(value@),
{
    let ghost keep = |c: char| is_alphanumeric(c);
    let mut part = String::new();
    let mut kept: usize = 0;
    proof {
        reveal(Seq::filter);
        assert(value@.take(0) =~= Seq::empty());
        assert(part@ =~= value@.take(0).filter(keep));
    }
    for c in it: value.chars()
        invariant
            it.seq() == value@,
            keep == (|c: char| is_alphanumeric(c)),
            kept <= 12,
            kept == part@.len(),
            part@ == short_part(value@.take(it.index() as int)),
    {
        proof {
            let at = it.index() as int;
            assert(value@.take(at + 1).drop_last() =~= value@.take(at));
            assert(value@.take(at + 1).last() == c);
            reveal(Seq::filter);
        }
        let ghost before = value@.take(it.index() as int).filter(keep);
        let ghost after = value@.take(it.index() as int + 1).filter(keep);
        if ('0' <= c && c <= '9') || ('A' <= c && c <= 'Z') || ('a' <= c && c <= 'z') {
            assert(after == before.push(c));
            if kept < 12 {
                part.push(c);
                kept += 1;
                assert(before =~= before.take(before.len() as int));
            }
            assert(part@ =~= short_part(value@.take(it.index() as int + 1)));
        } else {
            assert(after == before);
        }
    }
    assert(value@.take(value@.len() as int) =~= value@);
    part
}

/// The slug of a target's conversation, given the key under which the adapter
/// store files the target.
pub fn target_conversation_slug(adapter: &AdapterRecord, target_key: &str) -> (slug: String)
    ensures
        slug@ == target_slug(adapter.id@, target_key@),
{
    let mut slug = "adapter-".to_string();
    slug.append(short_slug_part(adapter.id.as_str()).as_str());
    slug.append("-");
    slug.append(target_key);
    slug
}

/// The slug tells the targets of one adapter apart as the store's keys do.
pub proof fn slugs_are_target_specific(
    adapter_id: Seq<char>,
    a_key: Seq<char>,
    b_key: Seq<char>,
)
    ensures
        target_slug(adapter_id, a_key) == target_slug(adapter_id, b_key) <==> a_key == b_key,
{
    let head = "adapter-"@ + short_part(adapter_id) + "-"@;
    assert(target_slug(adapter_id, a_key).skip(head.len() as int) =~= a_key);
    assert(target_slug(adapter_id, b_key).skip(head.len() as int) =~= b_key);
}

/// The outside operation finding a message's conversation needs next, or its
/// end.
#[derive(Debug)]
pub enum ResolveEffect {
    /// Look up which conversation the target was mapped to.
    GetMapping,
    /// Look up a conversation by the id a mapping holds.
    LookUp { conversation_id: String },
    /// Create a conversation for the target.
    Create { slug: String, name: String },
    /// Look up a conversation by its slug.
    LookUpSlug { slug: String },
    /// Map the target to the conversation at hand.
    PutMapping,
    /// The message belongs to the adapter's own conversation.
    FinishRoot,
    /// The message belongs to the conversation at hand.
    Finish,
    /// There is no conversation: creating one failed, with these words to that
    /// error.
    FinishFailed { context: String },
}

/// What came of an outside operation. One that failed ends the search with its
/// own error, but for the creation of a conversation.
#[derive(Debug)]
pub enum ResolveEvent {
    Mapped { conversation_id: Option<String> },
    LookedUp { found: bool },
    Created { created: bool },
    LookedUpSlug { found: bool },
    Put,
}

/// Where the search stands.
#[derive(Debug, Clone, Copy, PartialEq, Eq, Structural)]
pub enum ResolvePhase {
    GettingMapping,
    LookingUp,
    Creating,
    LookingUpSlug,
    Putting,
    Finished,
}

/// The contents of a [`ResolveEffect`].
#[verifier::ext_equal]
pub enum ResolveEffectView {
    GetMapping,
    LookUp { conversation_id: Seq<char> },
    Create { slug: Seq<char>, name: Seq<char> },
    LookUpSlug { slug: Seq<char> },
    PutMapping,
    FinishRoot,
    Finish,
    FinishFailed { context: Seq<char> },
}

/// The contents of a [`ResolveEvent`].
#[verifier::ext_equal]
pub enum ResolveEventView {
    Mapped { conversation_id: Option<Seq<char>> },
    LookedUp { found: bool },
    Created { created: bool },
    LookedUpSlug { found: bool },
    Put,
}

impl View for ResolveEffect {
    type V = ResolveEffectView;

    open spec fn view(&self) -> ResolveEffectView {
        match *self {
            ResolveEffect::GetMapping => ResolveEffectView::GetMapping,
            ResolveEffect::LookUp { conversation_id } => ResolveEffectView::LookUp {
                conversation_id: conversation_id@,
            },
            ResolveEffect::Create { slug, name } => ResolveEffectView::Create {
                slug: slug@,
                name: name@,
            },
            ResolveEffect::LookUpSlug { slug } => ResolveEffectView::LookUpSlug { slug: slug@ },
            ResolveEffect::PutMapping => ResolveEffectView::PutMapping,
            ResolveEffect::FinishRoot => ResolveEffectView::FinishRoot,
            ResolveEffect::Finish => ResolveEffectView::Finish,
            ResolveEffect::FinishFailed { context } => ResolveEffectView::FinishFailed {
                context: context@,
            },
        }
    }
}

impl View for ResolveEvent {
    type V = ResolveEventView;

    open spec fn view(&self) -> ResolveEventView {
        match *self {
            ResolveEvent::Mapped { conversation_id } => ResolveEventView::Mapped {
                conversation_id: text::opt_view(conversation_id),
            },
            ResolveEvent::LookedUp { found } => ResolveEventView::LookedUp { found },
            ResolveEvent::Created { created } => ResolveEventView::Created { created },
            ResolveEvent::LookedUpSlug { found } => ResolveEventView::LookedUpSlug { found },
            ResolveEvent::Put => ResolveEventView::Put,
        }
    }
}

/// What the search is for: the slug and name a conversation of the target gets,
/// and the words to a failure to create it.
#[verifier::ext_equal]
pub struct TargetView {
    pub slug: Seq<char>,
    pub name: Seq<char>,
    pub context: Seq<char>,
}

/// What the search for a target of an adapter is for.
pub open spec fn target_of(
    adapter: AdapterRecord,
    target: Seq<char>,
    target_key: Seq<char>,
) -> TargetView {
    TargetView {
        slug: target_slug(adapter.id@, target_key),
        name: adapter.name@ + " target "@ + target,
        context: "failed to create target-scoped conversation for adapter "@ + adapter.id@
            + " target "@ + target,
    }
}

/// Whether an event answers what a phase is waiting for.
pub open spec fn answers(phase: ResolvePhase, event: ResolveEventView) -> bool {
    match phase {
        ResolvePhase::GettingMapping => event is Mapped,
        ResolvePhase::LookingUp => event is LookedUp,
        ResolvePhase::Creating => event is Created,
        ResolvePhase::LookingUpSlug => event is LookedUpSlug,
        ResolvePhase::Putting => event is Put,
        ResolvePhase::Finished => false,
    }
}

/// What the search does with an event. A mapping to a conversation that is gone
/// is made anew; a creation that fails may have lost to another, whose
/// conversation is then taken.
pub open spec fn next_resolve(target: TargetView, phase: ResolvePhase, event: ResolveEventView) -> (
    ResolvePhase,
    ResolveEffectView,
) {
    let create = (
        ResolvePhase::Creating,
        ResolveEffectView::Create { slug: target.slug, name: target.name },
    );
    match event {
        ResolveEventView::Mapped { conversation_id: Some(conversation_id) } => (
            ResolvePhase::LookingUp,
            ResolveEffectView::LookUp { conversation_id },
        ),
        ResolveEventView::Mapped { conversation_id: None } => create,
        ResolveEventView::LookedUp { found: true } => (
            ResolvePhase::Finished,
            ResolveEffectView::Finish,
        ),
        ResolveEventView::LookedUp { found: false } => create,
        ResolveEventView::Created { created: true } => (
            ResolvePhase::Putting,
            ResolveEffectView::PutMapping,
        ),
        ResolveEventView::Created { created: false } => (
            ResolvePhase::LookingUpSlug,
            ResolveEffectView::LookUpSlug { slug: target.slug },
        ),
        ResolveEventView::LookedUpSlug { found: true } => (
            ResolvePhase::Putting,
            ResolveEffectView::PutMapping,
        ),
        ResolveEventView::LookedUpSlug { found: false } => (
            ResolvePhase::Finished,
            ResolveEffectView::FinishFailed { context: target.context },
        ),
        ResolveEventView::Put => (ResolvePhase::Finished, ResolveEffectView::Finish),
    }
}

/// The search for a message's conversation, under way.
#[derive(Debug)]
pub struct ResolveRun {
    slug: String,
    name: String,
    context: String,
    phase: ResolvePhase,
}

impl ResolveRun {
    /// What the search is for.
    pub closed spec fn target(&self) -> TargetView {
        TargetView { slug: self.slug@, name: self.name@, context: self.context@ }
    }

    /// Where the search stands.
    pub closed spec fn phase(&self) -> ResolvePhase {
        self.phase
    }

    /// Starts the search for the conversation of a message to a target, and says
    /// what is needed first: nothing, where the adapter keeps all its targets in
    /// its own conversation.
    pub fn start(
        config: &AdapterConfig,
        adapter: &AdapterRecord,
        target: &str,
        target_key: &str,
    ) -> (started: (Self, ResolveEffect))
        ensures
            started.0.target() == target_of(*adapter, target@, target_key@),
            is_target_scoped(*config) ==> started.0.phase() == ResolvePhase::GettingMapping
                && started.1@ is GetMapping,
            !is_target_scoped(*config) ==> started.0.phase() == ResolvePhase::Finished
                && started.1@ is FinishRoot,
    {
        let mut name = adapter.name.clone();
        name.append(" target ");
        name.append(target);
        let mut context =
            "failed to create target-scoped conversation for adapter ".to_string();
        context.append(adapter.id.as_str());
        context.append(" target ");
        context.append(target);
        let scoped = uses_target_conversation_scope(config);
        let run = ResolveRun {
            slug: target_conversation_slug(adapter, target_key),
            name,
            context,
            phase: if scoped {
                ResolvePhase::GettingMapping
            } else {
                ResolvePhase::Finished
            },
        };
        let effect = if scoped {
            ResolveEffect::GetMapping
        } else {
            ResolveEffect::FinishRoot
        };
        (run, effect)
    }

    /// Takes what came of the last operation and says what is next.
    pub fn advance(&mut self, event: ResolveEvent) -> (effect: ResolveEffect)
        requires
            answers(old(self).phase(), event@),
        ensures
            final(self).target() == old(self).target(),
            (final(self).phase(), effect@) == next_resolve(
                old(self).target(),
                old(self).phase(),
                event@,
            ),
    {
        match event {
            ResolveEvent::Mapped { conversation_id: Some(conversation_id) } => {
                self.phase = ResolvePhase::LookingUp;
                ResolveEffect::LookUp { conversation_id }
            },
            ResolveEvent::LookedUp { found: true } => {
                self.phase = ResolvePhase::Finished;
                ResolveEffect::Finish
            },
            ResolveEvent::Mapped { conversation_id: None } | ResolveEvent::LookedUp {
                found: false,
            } => {
                self.phase = ResolvePhase::Creating;
                ResolveEffect::Create { slug: self.slug.clone(), name: self.name.clone() }
            },
            ResolveEvent::Created { created: false } => {
                self.phase = ResolvePhase::LookingUpSlug;
                ResolveEffect::LookUpSlug { slug: self.slug.clone() }
            },
            ResolveEvent::Created { created: true } | ResolveEvent::LookedUpSlug { found: true } => {
                self.phase = ResolvePhase::Putting;
                ResolveEffect::PutMapping
            },
            ResolveEvent::LookedUpSlug { found: false } => {
                self.phase = ResolvePhase::Finished;
                ResolveEffect::FinishFailed { context: self.context.clone() }
            },
            ResolveEvent::Put => {
                self.phase = ResolvePhase::Finished;
                ResolveEffect::Finish
            },
        }
    }
}

/// The adapter's store and its conversations, as far as a target goes: which
/// conversation the target is mapped to, and which there are, by id and slug.
pub struct TargetWorld {
    pub mapping: Option<Seq<char>>,
    pub by_id: Set<Seq<char>>,
    pub by_slug: Map<Seq<char>, Seq<char>>,
}

/// Where the search stands, the world, and the conversation at hand, after an
/// operation with nobody else about. `fresh` is the id a new conversation gets.
pub open spec fn carried_out(
    world: TargetWorld,
    at_hand: Option<Seq<char>>,
    effect: ResolveEffectView,
    fresh: Seq<char>,
) -> (TargetWorld, Option<Seq<char>>, ResolveEventView) {
    match effect {
        ResolveEffectView::GetMapping => (
            world,
            at_hand,
            ResolveEventView::Mapped { conversation_id: world.mapping },
        ),
        ResolveEffectView::LookUp { conversation_id } => (
            world,
            Some(conversation_id),
            ResolveEventView::LookedUp { found: world.by_id.contains(conversation_id) },
        ),
        ResolveEffectView::Create { slug, .. } => if world.by_slug.contains_key(slug) {
            (world, at_hand, ResolveEventView::Created { created: false })
        } else {
            (
                TargetWorld {
                    by_id: world.by_id.insert(fresh),
                    by_slug: world.by_slug.insert(slug, fresh),
                    ..world
                },
                Some(fresh),
                ResolveEventView::Created { created: true },
            )
        },
        ResolveEffectView::LookUpSlug { slug } => (
            world,
            Some(world.by_slug[slug]),
            ResolveEventView::LookedUpSlug { found: world.by_slug.contains_key(slug) },
        ),
        ResolveEffectView::PutMapping => (
            TargetWorld { mapping: at_hand, ..world },
            at_hand,
            ResolveEventView::Put,
        ),
        _ => (world, at_hand, ResolveEventView::Put),
    }
}

/// The world and the conversation at hand when a search has run to its end.
pub open spec fn run_resolve(
    target: TargetView,
    world: TargetWorld,
    at_hand: Option<Seq<char>>,
    phase: ResolvePhase,
    effect: ResolveEffectView,
    fresh: Seq<char>,
    steps: nat,
) -> (TargetWorld, Option<Seq<char>>, ResolveEffectView)
    decreases steps,
{
    if effect is Finish || effect is FinishRoot || effect is FinishFailed || steps == 0 {
        (world, at_hand, effect)
    } else {
        let (after, held, event) = carried_out(world, at_hand, effect, fresh);
        let (next, wanted) = next_resolve(target, phase, event);
        run_resolve(target, after, held, next, wanted, fresh, (steps - 1) as nat)
    }
}

/// A target has one conversation: the search ends within five operations with a
/// conversation that is there and to which the target is then mapped, and a
/// search that follows finds the same one.
pub proof fn a_target_keeps_its_conversation(
    target: TargetView,
    world: TargetWorld,
    fresh: Seq<char>,
    later: Seq<char>,
)
    requires
        forall|slug: Seq<char>| #[trigger]
            world.by_slug.contains_key(slug) ==> world.by_id.contains(world.by_slug[slug]),
    ensures
        ({
            let (after, found, end) = run_resolve(
                target,
                world,
                None,
                ResolvePhase::GettingMapping,
                ResolveEffectView::GetMapping,
                fresh,
                5,
            );
            let (again, refound, again_end) = run_resolve(
                target,
                after,
                None,
                ResolvePhase::GettingMapping,
                ResolveEffectView::GetMapping,
                later,
                5,
            );
            &&& end is Finish && found is Some && after.by_id.contains(found->0)
                && after.mapping == found
            &&& again_end is Finish && refound == found && again == after
        }),
{
    reveal_with_fuel(run_resolve, 6);
}

} // verus!
