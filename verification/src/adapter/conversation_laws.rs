//! Which conversation a message belongs to, told by the store and the
//! conversations there are.

use vstd::prelude::*;

use super::conversation::{
    self, ResolveEffect, ResolveEffectView, ResolveEventView, ResolvePhase, TargetView,
    TargetWorld,
};
use super::types::{AdapterConfig, AdapterRecord};
use crate::filters;
use crate::json::{self, Json};
use crate::text;

verus! {

/// An adapter keeps a conversation for each target exactly where its settings
/// are an object whose `conversationScope` is the text `target`.
pub proof fn only_an_explicit_scope_splits_targets(config: AdapterConfig)
    ensures
        conversation::is_target_scoped(config) <==> (json::json(config.initialization)
            matches Json::Object(fields) && fields.contains_key("conversationScope"@)
            && fields["conversationScope"@] == Json::Text("target"@)),
{
}

/// Whether a text is the first twelve ASCII letters and digits of another:
/// `from` names all that it has.
pub open spec fn is_short_form(value: Seq<char>, short: Seq<char>, from: Seq<int>) -> bool {
    &&& filters::picks(
        from,
        value.len() as int,
        |i: int|
            '0' <= value[i] <= '9' || 'A' <= value[i] <= 'Z' || 'a' <= value[i] <= 'z',
    )
    &&& short.len() == if from.len() < 12 {
        from.len()
    } else {
        12
    }
    &&& forall|k: int| 0 <= k < short.len() ==> short[k] == value[#[trigger] from[k]]
}

/// The part of an id in a slug is its first twelve letters and digits, in order.
pub proof fn a_slug_part_is_a_short_form(value: Seq<char>)
    ensures
        exists|from: Seq<int>| #[trigger]
            is_short_form(value, conversation::short_part(value), from),
{
    let keep = |c: char| conversation::is_alphanumeric(c);
    let from = filters::kept_positions(value, keep);
    let chosen = |i: int|
        '0' <= value[i] <= '9' || 'A' <= value[i] <= 'Z' || 'a' <= value[i] <= 'z';
    assert forall|i: int| 0 <= i < value.len() && #[trigger] chosen(i) implies from.contains(i) by {
        assert((|i: int| keep(value[i]))(i));
    }
    assert forall|k: int| 0 <= k < from.len() implies chosen(#[trigger] from[k]) by {
        assert((|i: int| keep(value[i]))(from[k]));
    }
    assert(is_short_form(value, conversation::short_part(value), from));
}

/// A target's conversation is named after its adapter and its target: its slug
/// carries the short form of the adapter's id and the target's key, its name the
/// adapter's name and the target, and a failure to make it both as well.
pub proof fn a_target_is_named_by_adapter_and_target(
    adapter: AdapterRecord,
    target: Seq<char>,
    target_key: Seq<char>,
)
    ensures
        ({
            let wanted = conversation::target_of(adapter, target, target_key);
            &&& text::is_within(conversation::short_part(adapter.id@), wanted.slug)
            &&& text::is_within(target_key, wanted.slug)
            &&& text::is_within(adapter.name@, wanted.name)
            &&& text::is_within(target, wanted.name)
            &&& text::is_within(adapter.id@, wanted.context)
            &&& text::is_within(target, wanted.context)
        }),
{
    let wanted = conversation::target_of(adapter, target, target_key);
    let none = Seq::<char>::empty();
    let short = conversation::short_part(adapter.id@);
    assert(wanted.slug =~= "adapter-"@ + short + ("-"@ + target_key));
    text::a_part_is_within("adapter-"@, short, "-"@ + target_key);
    assert(wanted.slug =~= ("adapter-"@ + short + "-"@) + target_key + none);
    text::a_part_is_within("adapter-"@ + short + "-"@, target_key, none);
    assert(wanted.name =~= none + adapter.name@ + (" target "@ + target));
    text::a_part_is_within(none, adapter.name@, " target "@ + target);
    assert(wanted.name =~= (adapter.name@ + " target "@) + target + none);
    text::a_part_is_within(adapter.name@ + " target "@, target, none);
    let head = "failed to create target-scoped conversation for adapter "@;
    assert(wanted.context =~= head + adapter.id@ + (" target "@ + target));
    text::a_part_is_within(head, adapter.id@, " target "@ + target);
    assert(wanted.context =~= (head + adapter.id@ + " target "@) + target + none);
    text::a_part_is_within(head + adapter.id@ + " target "@, target, none);
}

/// What a whole search of a target's conversation leaves and finds, with nobody
/// else about.
pub open spec fn searched(target: TargetView, world: TargetWorld, fresh: Seq<char>) -> (
    TargetWorld,
    Option<Seq<char>>,
    ResolveEffectView,
) {
    conversation::run_resolve(
        target,
        world,
        None,
        ResolvePhase::GettingMapping,
        ResolveEffectView::GetMapping,
        fresh,
        5,
    )
}

/// A target that is mapped to a conversation that is there stays with it, and
/// nothing is changed.
pub proof fn a_mapped_target_stays(
    target: TargetView,
    world: TargetWorld,
    fresh: Seq<char>,
    mapped: Seq<char>,
)
    requires
        world.mapping == Some(mapped),
        world.by_id.contains(mapped),
    ensures
        searched(target, world, fresh).0 == world,
        searched(target, world, fresh).1 == Some(mapped),
        searched(target, world, fresh).2 is Finish,
{
    reveal_with_fuel(conversation::run_resolve, 6);
}

/// A target without a live mapping gets the conversation of its slug: the one
/// that is there, or a new one under that slug where there is none. It is mapped
/// to it then.
pub proof fn an_unmapped_target_takes_its_slug(
    target: TargetView,
    world: TargetWorld,
    fresh: Seq<char>,
)
    requires
        world.mapping matches Some(mapped) ==> !world.by_id.contains(mapped),
    ensures
        ({
            let (after, found, end) = searched(target, world, fresh);
            &&& end is Finish
            &&& after.mapping == found
            &&& if world.by_slug.contains_key(target.slug) {
                &&& found == Some(world.by_slug[target.slug])
                &&& after.by_slug == world.by_slug
                &&& after.by_id == world.by_id
            } else {
                &&& found == Some(fresh)
                &&& after.by_slug == world.by_slug.insert(target.slug, fresh)
                &&& after.by_id == world.by_id.insert(fresh)
            }
        }),
{
    reveal_with_fuel(conversation::run_resolve, 6);
}

/// A conversation that could not be made is looked for by the slug it was to
/// have, and where that finds none either the search fails, in the words meant
/// for that.
pub proof fn a_failed_creation_is_told(target: TargetView)
    ensures
        ({
            let (phase, effect) = conversation::next_resolve(
                target,
                ResolvePhase::Creating,
                ResolveEventView::Created { created: false },
            );
            let end = conversation::next_resolve(
                target,
                phase,
                ResolveEventView::LookedUpSlug { found: false },
            ).1;
            &&& effect == (ResolveEffectView::LookUpSlug { slug: target.slug })
            &&& end == (ResolveEffectView::FinishFailed { context: target.context })
        }),
{
}

/// Whether two effects ask for the same.
pub open spec fn same_effect(a: ResolveEffect, b: ResolveEffect) -> bool {
    match (a, b) {
        (ResolveEffect::GetMapping, ResolveEffect::GetMapping) => true,
        (
            ResolveEffect::LookUp { conversation_id: x },
            ResolveEffect::LookUp { conversation_id: y },
        ) => x@ == y@,
        (
            ResolveEffect::Create { slug: x, name: m },
            ResolveEffect::Create { slug: y, name: n },
        ) => x@ == y@ && m@ == n@,
        (ResolveEffect::LookUpSlug { slug: x }, ResolveEffect::LookUpSlug { slug: y }) => x@
            == y@,
        (ResolveEffect::PutMapping, ResolveEffect::PutMapping) => true,
        (ResolveEffect::FinishRoot, ResolveEffect::FinishRoot) => true,
        (ResolveEffect::Finish, ResolveEffect::Finish) => true,
        (
            ResolveEffect::FinishFailed { context: x },
            ResolveEffect::FinishFailed { context: y },
        ) => x@ == y@,
        _ => false,
    }
}

/// An effect's view shows everything it asks for.
pub proof fn an_effect_shows_what_it_asks_for(a: ResolveEffect, b: ResolveEffect)
    requires
        a@ == b@,
    ensures
        same_effect(a, b),
{
}

} // verus!
