use vstd::prelude::*;

use crate::server::player_tracker::PlayerAdvancementTracker;
use crate::server::registry::{AdvancementRegistry, IdView};
use crate::server::triggers::{conditions_hold, AdvancementTriggers, TriggerContext};
use crate::util::resource_location::ResourceLocation;
use crate::world::advancement::AdvancementEntry;
use crate::world::criterion::AdvancementCriterion;
use crate::world::progress::obtained_names;
use crate::world::requirements::{all_groups_met, lemma_met_monotone};

verus! {

/// The criterion `name` of `t`'s advancement `id` is obtained.
pub open spec fn obtained(t: PlayerAdvancementTracker, id: IdView, name: Seq<char>) -> bool {
    t.progress_view_of(id).contains_key(name) && t.progress_view_of(id)[name] is Some
}

/// The criterion `name` is obtained in `after` and was not in `before`.
pub open spec fn newly_obtained(
    before: PlayerAdvancementTracker,
    after: PlayerAdvancementTracker,
    id: IdView,
    name: Seq<char>,
) -> bool {
    obtained(after, id, name) && !obtained(before, id, name)
}

/// The event meets `c` when the distance check gives `d`.
pub open spec fn meets(c: AdvancementCriterion, context: TriggerContext, d: bool) -> bool {
    c.trigger@ == context.trigger@ && match c.conditions {
        None => true,
        Some(cd) => conditions_hold(cd, context, d),
    }
}

/// Some criterion named `name` of the registered advancement `id` is met by the event for
/// every outcome that `distance_ok` can give for it.
pub open spec fn must_apply<F: Fn(&AdvancementCriterion) -> bool>(
    registry: AdvancementRegistry,
    context: TriggerContext,
    distance_ok: F,
    id: IdView,
    name: Seq<char>,
) -> bool {
    registry.placed_map().contains_key(id) && {
        let crit = registry.placed_map()[id].entry.advancement.criteria@;
        exists|j: int|
            0 <= j < crit.len() && (#[trigger] crit[j]).0@ == name && forall|d: bool|
                call_ensures(distance_ok, (&crit[j].1,), d) ==> meets(crit[j].1, context, d)
    }
}

/// Some criterion named `name` of the registered advancement `id` is met by the event for some
/// outcome that `distance_ok` can give for it.
pub open spec fn may_apply<F: Fn(&AdvancementCriterion) -> bool>(
    registry: AdvancementRegistry,
    context: TriggerContext,
    distance_ok: F,
    id: IdView,
    name: Seq<char>,
) -> bool {
    registry.placed_map().contains_key(id) && {
        let crit = registry.placed_map()[id].entry.advancement.criteria@;
        exists|j: int, d: bool|
            0 <= j < crit.len() && crit[j].0@ == name && call_ensures(
                distance_ok,
                (&crit[j].1,),
                d,
            ) && #[trigger] meets(crit[j].1, context, d)
    }
}

/// The criteria of an entry of the registry's listing.
pub open spec fn criteria_at(all: Seq<(&ResourceLocation, &AdvancementEntry)>, a: int) -> Seq<(String, AdvancementCriterion)> {
    all[a].1.advancement.criteria@
}

/// Every criterion up to position `j` of listing entry `i` (those of earlier entries
/// included) that the event must meet is obtained in `t`.
pub open spec fn met_ones_obtained<F: Fn(&AdvancementCriterion) -> bool>(
    t: PlayerAdvancementTracker,
    all: Seq<(&ResourceLocation, &AdvancementEntry)>,
    i: int,
    j: int,
    context: TriggerContext,
    distance_ok: F,
) -> bool {
    forall|a: int, b: int|
        0 <= a < all.len() && 0 <= b < criteria_at(all, a).len() && (a < i || (a == i && b < j))
            && (forall|d: bool|
            call_ensures(distance_ok, (&criteria_at(all, a)[b].1,), d) ==> meets(
                criteria_at(all, a)[b].1,
                context,
                d,
            )) ==> obtained(t, (#[trigger] all[a]).0@, (#[trigger] criteria_at(all, a)[b]).0@)
}

/// What holds of the tracker at every step of an event: obtained criteria stay with their
/// times, a newly obtained criterion is one the event may meet, an advancement with none
/// newly obtained keeps its progress, and the sets only grow where they may.
pub open spec fn step_facts<F: Fn(&AdvancementCriterion) -> bool>(
    before: PlayerAdvancementTracker,
    after: PlayerAdvancementTracker,
    registry: AdvancementRegistry,
    context: TriggerContext,
    distance_ok: F,
) -> bool {
    &&& after.wf()
    &&& forall|id: IdView, name: Seq<char>|
        #[trigger] obtained(before, id, name) ==> obtained(after, id, name)
            && after.progress_view_of(id)[name] == before.progress_view_of(id)[name]
    &&& forall|id: IdView, name: Seq<char>|
        #[trigger] newly_obtained(before, after, id, name) ==> may_apply(
            registry,
            context,
            distance_ok,
            id,
            name,
        )
    &&& forall|id: IdView|
        (forall|name: Seq<char>| !#[trigger] newly_obtained(before, after, id, name))
            ==> #[trigger] after.progress_view_of(id) == before.progress_view_of(id)
    &&& before.completed_set().subset_of(after.completed_set())
    &&& before.dirty_set().subset_of(after.dirty_set())
    &&& after.visible_set() == before.visible_set()
    &&& after.tab() == before.tab()
    &&& after.reset_flag() == before.reset_flag()
}

/// One grant of an event keeps the facts of every step: what `grant_criterion` states of a
/// call that grants `name` of `id` when `r`, or changes nothing when not.
proof fn lemma_grant_step<F: Fn(&AdvancementCriterion) -> bool>(
    start: PlayerAdvancementTracker,
    prev: PlayerAdvancementTracker,
    cur: PlayerAdvancementTracker,
    registry: AdvancementRegistry,
    context: TriggerContext,
    distance_ok: F,
    id: IdView,
    name: Seq<char>,
    r: bool,
)
    requires
        step_facts(start, prev, registry, context, distance_ok),
        cur.wf(),
        r == !obtained(prev, id, name),
        obtained(cur, id, name),
        cur.progress_view_of(id).remove(name) == prev.progress_view_of(id).remove(name),
        forall|k: IdView| k != id ==> #[trigger] cur.progress_view_of(k) == prev.progress_view_of(k),
        !r ==> cur.progress_map() == prev.progress_map(),
        r ==> may_apply(registry, context, distance_ok, id, name),
        prev.completed_set().subset_of(cur.completed_set()),
        prev.dirty_set().subset_of(cur.dirty_set()),
        cur.visible_set() == prev.visible_set(),
        cur.tab() == prev.tab(),
        cur.reset_flag() == prev.reset_flag(),
    ensures
        step_facts(start, cur, registry, context, distance_ok),
        forall|k: IdView, n: Seq<char>| #[trigger] obtained(prev, k, n) ==> obtained(cur, k, n),
        forall|k: IdView, n: Seq<char>|
            #[trigger] newly_obtained(start, prev, k, n) ==> newly_obtained(start, cur, k, n),
        r ==> newly_obtained(start, cur, id, name),
        !r ==> forall|k: IdView, n: Seq<char>|
            #[trigger] newly_obtained(start, cur, k, n) == newly_obtained(start, prev, k, n),
{
    assert forall|k: IdView, n: Seq<char>| #[trigger] obtained(prev, k, n) implies obtained(cur, k, n)
        && cur.progress_view_of(k)[n] == prev.progress_view_of(k)[n] by {
        if k != id {
            assert(cur.progress_view_of(k) == prev.progress_view_of(k));
        } else if n != name {
            assert(prev.progress_view_of(id).remove(name).contains_key(n));
            assert(cur.progress_view_of(id).remove(name)[n] == prev.progress_view_of(id).remove(name)[n]);
        } else {
            assert(!r);
        }
    }
    assert forall|k: IdView, n: Seq<char>| #[trigger] obtained(start, k, n) implies obtained(cur, k, n)
        && cur.progress_view_of(k)[n] == start.progress_view_of(k)[n] by {
        assert(obtained(prev, k, n));
    }
    assert forall|k: IdView, n: Seq<char>| #[trigger] obtained(cur, k, n) && !obtained(prev, k, n) implies k == id && n == name by {
        if k != id {
            assert(cur.progress_view_of(k) == prev.progress_view_of(k));
        } else if n != name {
            assert(cur.progress_view_of(id).remove(name).contains_key(n));
            assert(cur.progress_view_of(id).remove(name)[n] == prev.progress_view_of(id).remove(name)[n]);
        }
    }
    assert forall|k: IdView, n: Seq<char>|
        #[trigger] newly_obtained(start, cur, k, n) implies may_apply(registry, context, distance_ok, k, n) by {
        if obtained(prev, k, n) {
            assert(newly_obtained(start, prev, k, n));
        }
    }
    assert forall|k: IdView|
        (forall|n: Seq<char>| !#[trigger] newly_obtained(start, cur, k, n))
        implies #[trigger] cur.progress_view_of(k) == start.progress_view_of(k) by {
        assert forall|n: Seq<char>| !#[trigger] newly_obtained(start, prev, k, n) by {
            if newly_obtained(start, prev, k, n) {
                assert(obtained(cur, k, n));
                assert(newly_obtained(start, cur, k, n));
            }
        }
        assert(prev.progress_view_of(k) == start.progress_view_of(k));
        if k == id && r {
            assert(!obtained(start, id, name));
            assert(newly_obtained(start, cur, id, name));
        }
    }
    if r {
        if obtained(start, id, name) {
            assert(obtained(prev, id, name));
        }
    }
}

/// The advancements listed for an event so far: each is completed and has a newly obtained
/// criterion, and every advancement completed since `start` is among them.
pub open spec fn completed_listed(
    start: PlayerAdvancementTracker,
    t: PlayerAdvancementTracker,
    listed: Seq<ResourceLocation>,
) -> bool {
    &&& forall|x: int|
        0 <= x < listed.len() ==> t.completed_set().contains((#[trigger] listed[x])@) && exists|
            name: Seq<char>,
        | #[trigger] newly_obtained(start, t, listed[x]@, name)
    &&& forall|id: IdView|
        #[trigger] t.completed_set().contains(id) && !start.completed_set().contains(id)
            ==> exists|x: int| 0 <= x < listed.len() && (#[trigger] listed[x])@ == id
}

/// Handling one more criterion keeps the met criteria obtained.
proof fn lemma_met_step<F: Fn(&AdvancementCriterion) -> bool>(
    prev: PlayerAdvancementTracker,
    cur: PlayerAdvancementTracker,
    all: Seq<(&ResourceLocation, &AdvancementEntry)>,
    i: int,
    j: int,
    context: TriggerContext,
    distance_ok: F,
)
    requires
        met_ones_obtained(prev, all, i, j, context, distance_ok),
        0 <= i < all.len(),
        0 <= j < criteria_at(all, i).len(),
        forall|k: IdView, n: Seq<char>| #[trigger] obtained(prev, k, n) ==> obtained(cur, k, n),
        (forall|d: bool|
            call_ensures(distance_ok, (&criteria_at(all, i)[j].1,), d) ==> meets(
                criteria_at(all, i)[j].1,
                context,
                d,
            )) ==> obtained(cur, all[i].0@, criteria_at(all, i)[j].0@),
    ensures
        met_ones_obtained(cur, all, i, j + 1, context, distance_ok),
{
    assert forall|a: int, b: int|
        0 <= a < all.len() && 0 <= b < criteria_at(all, a).len() && (a < i || (a == i && b < j + 1))
            && (forall|d: bool|
            call_ensures(distance_ok, (&criteria_at(all, a)[b].1,), d) ==> meets(
                criteria_at(all, a)[b].1,
                context,
                d,
            )) implies obtained(cur, (#[trigger] all[a]).0@, (#[trigger] criteria_at(all, a)[b]).0@) by {
        if !(a == i && b == j) {
            assert(obtained(prev, all[a].0@, criteria_at(all, a)[b].0@));
        }
    }
}

/// Once every criterion of the listing is handled, every criterion the event must meet is
/// obtained.
proof fn lemma_met_all<F: Fn(&AdvancementCriterion) -> bool>(
    t: PlayerAdvancementTracker,
    registry: AdvancementRegistry,
    all: Seq<(&ResourceLocation, &AdvancementEntry)>,
    context: TriggerContext,
    distance_ok: F,
)
    requires
        met_ones_obtained(t, all, all.len() as int, 0, context, distance_ok),
        forall|a: int|
            0 <= a < all.len() ==> registry.placed_map().contains_key((#[trigger] all[a]).0@)
                && *all[a].1 == registry.placed_map()[all[a].0@].entry,
        forall|k: IdView|
            registry.placed_map().contains_key(k) ==> exists|a: int|
                0 <= a < all.len() && (#[trigger] all[a]).0@ == k,
    ensures
        forall|id: IdView, name: Seq<char>|
            #[trigger] must_apply(registry, context, distance_ok, id, name) ==> obtained(t, id, name),
{
    assert forall|id: IdView, name: Seq<char>|
        #[trigger] must_apply(registry, context, distance_ok, id, name) implies obtained(t, id, name) by {
        let a = choose|a: int| 0 <= a < all.len() && (#[trigger] all[a]).0@ == id;
        let crit = registry.placed_map()[id].entry.advancement.criteria@;
        let b = choose|b: int|
            0 <= b < crit.len() && (#[trigger] crit[b]).0@ == name && forall|d: bool|
                call_ensures(distance_ok, (&crit[b].1,), d) ==> meets(crit[b].1, context, d);
        assert(criteria_at(all, a) == crit);
        assert(criteria_at(all, a)[b] == crit[b]);
        assert(obtained(t, all[a].0@, criteria_at(all, a)[b].0@));
    }
}

/// Some criterion of `id` is newly obtained from `before` to `after`.
pub open spec fn touched(before: PlayerAdvancementTracker, after: PlayerAdvancementTracker, id: IdView) -> bool {
    exists|name: Seq<char>| #[trigger] newly_obtained(before, after, id, name)
}

/// The requirements of the registered advancement `id`.
pub open spec fn requirements_of(registry: AdvancementRegistry, id: IdView) -> Seq<Seq<Seq<char>>> {
    registry.placed_map()[id].entry.advancement.requirements@
}

/// How completion follows an event: an advancement with a newly obtained criterion is done
/// exactly when its requirements are met by its obtained criteria, is completed exactly when
/// it was before or is now done, and is marked changed; any other advancement keeps whether it
/// is completed, and no other advancement is marked changed.
pub open spec fn completion_facts(
    before: PlayerAdvancementTracker,
    after: PlayerAdvancementTracker,
    registry: AdvancementRegistry,
) -> bool {
    &&& forall|id: IdView|
        #[trigger] touched(before, after, id) ==> {
            &&& after.progress_map().contains_key(id)
            &&& after.progress_map()[id].done_flag() == all_groups_met(
                requirements_of(registry, id),
                obtained_names(after.progress_view_of(id)),
            )
            &&& (after.completed_set().contains(id) <==> before.completed_set().contains(id)
                || after.progress_map()[id].done_flag())
            &&& after.dirty_set().contains(id)
        }
    &&& forall|id: IdView|
        !touched(before, after, id) ==> (#[trigger] after.completed_set().contains(id)
            <==> before.completed_set().contains(id))
    &&& forall|id: IdView|
        #[trigger] after.dirty_set().contains(id) && !before.dirty_set().contains(id) ==> touched(
            before,
            after,
            id,
        )
}

/// One grant of an event keeps the completion facts, when a granted criterion's advancement
/// is done by its registered requirements.
proof fn lemma_completion_step(
    start: PlayerAdvancementTracker,
    prev: PlayerAdvancementTracker,
    cur: PlayerAdvancementTracker,
    registry: AdvancementRegistry,
    id: IdView,
    name: Seq<char>,
    r: bool,
)
    requires
        completion_facts(start, prev, registry),
        r == !obtained(prev, id, name),
        obtained(cur, id, name),
        cur.progress_view_of(id).remove(name) == prev.progress_view_of(id).remove(name),
        cur.progress_map().remove(id) == prev.progress_map().remove(id),
        cur.progress_map().contains_key(id),
        !r ==> cur.progress_map() == prev.progress_map(),
        !r ==> cur.completed_set() == prev.completed_set(),
        !r ==> cur.dirty_set() == prev.dirty_set(),
        r ==> cur.progress_map()[id].done_flag() == all_groups_met(
            requirements_of(registry, id),
            obtained_names(cur.progress_view_of(id)),
        ),
        r ==> cur.dirty_set() == prev.dirty_set().insert(id),
        r && cur.progress_map()[id].done_flag() ==> cur.completed_set() == prev.completed_set().insert(id),
        !(r && cur.progress_map()[id].done_flag()) ==> cur.completed_set() == prev.completed_set(),
        forall|k: IdView, n: Seq<char>|
            #[trigger] newly_obtained(start, prev, k, n) ==> newly_obtained(start, cur, k, n),
        r ==> newly_obtained(start, cur, id, name),
        !r ==> forall|k: IdView, n: Seq<char>|
            #[trigger] newly_obtained(start, cur, k, n) == newly_obtained(start, prev, k, n),
    ensures
        completion_facts(start, cur, registry),
{
    assert forall|k: IdView| #[trigger] touched(start, prev, k) implies touched(start, cur, k) by {
        let n = choose|n: Seq<char>| #[trigger] newly_obtained(start, prev, k, n);
        assert(newly_obtained(start, cur, k, n));
    }
    if r {
        assert(touched(start, cur, id));
    }
    assert forall|k: IdView| k != id implies #[trigger] cur.progress_map().contains_key(k) == prev.progress_map().contains_key(k)
        && (prev.progress_map().contains_key(k) ==> cur.progress_map()[k] == prev.progress_map()[k])
        && cur.progress_view_of(k) == prev.progress_view_of(k) by {
        assert(cur.progress_map().remove(id).dom().contains(k) == prev.progress_map().remove(id).dom().contains(k));
        assert(cur.progress_map().remove(id).dom().contains(k) == cur.progress_map().dom().contains(k));
        assert(prev.progress_map().remove(id).dom().contains(k) == prev.progress_map().dom().contains(k));
        if prev.progress_map().contains_key(k) {
            assert(cur.progress_map().remove(id)[k] == prev.progress_map().remove(id)[k]);
            assert(cur.progress_map().remove(id)[k] == cur.progress_map()[k]);
            assert(prev.progress_map().remove(id)[k] == prev.progress_map()[k]);
            assert(cur.progress_map()[k] == prev.progress_map()[k]);
        }
    }
    assert forall|k: IdView| #[trigger] touched(start, cur, k) && k != id implies touched(start, prev, k) by {
        let n = choose|n: Seq<char>| #[trigger] newly_obtained(start, cur, k, n);
        assert(cur.progress_view_of(k) == prev.progress_view_of(k));
        assert(newly_obtained(start, prev, k, n));
    }
    if !r {
        assert forall|k: IdView| touched(start, cur, k) == touched(start, prev, k) by {
            if touched(start, cur, k) {
                let n = choose|n: Seq<char>| #[trigger] newly_obtained(start, cur, k, n);
                assert(newly_obtained(start, prev, k, n));
            }
        }
    }
    assert forall|k: IdView| #[trigger] touched(start, cur, k) implies {
        &&& cur.progress_map().contains_key(k)
        &&& cur.progress_map()[k].done_flag() == all_groups_met(
            requirements_of(registry, k),
            obtained_names(cur.progress_view_of(k)),
        )
        &&& (cur.completed_set().contains(k) <==> start.completed_set().contains(k)
            || cur.progress_map()[k].done_flag())
        &&& cur.dirty_set().contains(k)
    } by {
        if k != id {
            assert(touched(start, prev, k));
            assert(cur.progress_view_of(k) == prev.progress_view_of(k));
        } else if !r {
            assert(touched(start, prev, k));
        } else {
            let smaller = obtained_names(prev.progress_view_of(id));
            let larger = obtained_names(cur.progress_view_of(id));
            assert forall|n: Seq<char>| smaller.contains(n) implies larger.contains(n) by {
                if n != name {
                    assert(prev.progress_view_of(id).remove(name).contains_key(n));
                    assert(cur.progress_view_of(id).remove(name)[n] == prev.progress_view_of(id).remove(name)[n]);
                }
            }
            if touched(start, prev, id) {
                if prev.progress_map()[id].done_flag() {
                    lemma_met_monotone(requirements_of(registry, id), smaller, larger);
                }
            } else {
                assert(prev.completed_set().contains(id) == start.completed_set().contains(id));
            }
        }
    }
    assert forall|k: IdView| !touched(start, cur, k) implies (#[trigger] cur.completed_set().contains(k)
        <==> start.completed_set().contains(k)) by {
        assert(!touched(start, prev, k));
        if r {
            assert(k != id);
        }
    }
    assert forall|k: IdView|
        #[trigger] cur.dirty_set().contains(k) && !start.dirty_set().contains(k) implies touched(start, cur, k) by {
        if prev.dirty_set().contains(k) {
            assert(touched(start, prev, k));
        } else {
            assert(r && k == id);
        }
    }
}

/// One grant of an event keeps the list of completed advancements right, when the granted
/// advancement is listed once it is completed.
proof fn lemma_listed_step(
    start: PlayerAdvancementTracker,
    prev: PlayerAdvancementTracker,
    cur: PlayerAdvancementTracker,
    prev_listed: Seq<ResourceLocation>,
    listed: Seq<ResourceLocation>,
    id: IdView,
    name: Seq<char>,
    granted: bool,
)
    requires
        completed_listed(start, prev, prev_listed),
        prev.completed_set().subset_of(cur.completed_set()),
        forall|k: IdView| #[trigger] cur.completed_set().contains(k) && !prev.completed_set().contains(k)
            ==> k == id && granted,
        forall|k: IdView, n: Seq<char>|
            #[trigger] newly_obtained(start, prev, k, n) ==> newly_obtained(start, cur, k, n),
        granted ==> newly_obtained(start, cur, id, name),
        (granted && cur.completed_set().contains(id)) ==> listed.len() == prev_listed.len() + 1
            && listed.drop_last() == prev_listed && listed.last()@ == id,
        !(granted && cur.completed_set().contains(id)) ==> listed == prev_listed,
    ensures
        completed_listed(start, cur, listed),
{
    assert forall|x: int|
        0 <= x < listed.len() implies cur.completed_set().contains((#[trigger] listed[x])@) && exists|
            n: Seq<char>,
        | #[trigger] newly_obtained(start, cur, listed[x]@, n) by {
        if x < prev_listed.len() {
            assert(listed[x] == prev_listed[x]);
            assert(prev.completed_set().contains(prev_listed[x]@));
            let n = choose|n: Seq<char>| #[trigger] newly_obtained(start, prev, prev_listed[x]@, n);
            assert(newly_obtained(start, cur, listed[x]@, n));
        } else {
            assert(listed[x]@ == id);
            assert(newly_obtained(start, cur, id, name));
        }
    }
    assert forall|k: IdView|
        #[trigger] cur.completed_set().contains(k) && !start.completed_set().contains(k)
        implies exists|x: int| 0 <= x < listed.len() && (#[trigger] listed[x])@ == k by {
        if prev.completed_set().contains(k) {
            let x = choose|x: int| 0 <= x < prev_listed.len() && (#[trigger] prev_listed[x])@ == k;
            assert(listed[x] == prev_listed[x]);
        } else {
            assert(listed[listed.len() - 1]@ == k);
        }
    }
}

/// What an event does to a player's tracker, from `before` to `after`: every criterion the
/// event must meet is obtained, a newly obtained one is one the event may meet, an obtained
/// one keeps its time, and nothing else about the player changes.
pub open spec fn event_applied<F: Fn(&AdvancementCriterion) -> bool>(
    before: PlayerAdvancementTracker,
    after: PlayerAdvancementTracker,
    registry: AdvancementRegistry,
    context: TriggerContext,
    distance_ok: F,
) -> bool {
    &&& step_facts(before, after, registry, context, distance_ok)
    &&& forall|id: IdView, name: Seq<char>|
        #[trigger] must_apply(registry, context, distance_ok, id, name) ==> obtained(
            after,
            id,
            name,
        )
}

/// Hands an event to every criterion of every registered advancement, in registration order:
/// each criterion the event meets is granted. `distance_ok` gives the outcome of a criterion's
/// distance condition. Returns, for each newly granted criterion whose advancement is then
/// completed, that advancement, and whether any criterion was newly granted.
pub fn apply_event<F: Fn(&AdvancementCriterion) -> bool>(
    tracker: &mut PlayerAdvancementTracker,
    registry: &AdvancementRegistry,
    context: &TriggerContext,
    distance_ok: F,
) -> (r: (Vec<ResourceLocation>, bool))
    requires
        old(tracker).wf(),
        registry.wf(),
        forall|c: &AdvancementCriterion| call_requires(distance_ok, (c,)),
    ensures
        event_applied(*old(tracker), *final(tracker), *registry, *context, distance_ok),
        r.1 <==> exists|id: IdView, name: Seq<char>|
            #[trigger] newly_obtained(*old(tracker), *final(tracker), id, name),
        completed_listed(*old(tracker), *final(tracker), r.0@),
        completion_facts(*old(tracker), *final(tracker), *registry),
{
    let ghost start = *tracker;
    let all = registry.iter();
    let mut completed: Vec<ResourceLocation> = Vec::new();
    let mut changed = false;
    let mut i: usize = 0;
    proof {
        assert forall|k: IdView| !#[trigger] touched(start, *tracker, k) by {
            if touched(start, *tracker, k) {
                let n = choose|n: Seq<char>| #[trigger] newly_obtained(start, *tracker, k, n);
            }
        }
        assert(completion_facts(start, *tracker, *registry));
        assert(step_facts(start, *tracker, *registry, *context, distance_ok)) by {
            assert forall|id: IdView|
                (forall|name: Seq<char>| !#[trigger] newly_obtained(start, *tracker, id, name))
                implies #[trigger] tracker.progress_view_of(id) == start.progress_view_of(id) by {
            }
        }
    }
    while i < all.len()
        invariant
            0 <= i <= all@.len(),
            start == *old(tracker),
            registry.wf(),
            forall|c: &AdvancementCriterion| call_requires(distance_ok, (c,)),
            forall|a: int|
                0 <= a < all@.len() ==> registry.placed_map().contains_key((#[trigger] all@[a]).0@)
                    && *all@[a].1 == registry.placed_map()[all@[a].0@].entry,
            forall|k: IdView|
                registry.placed_map().contains_key(k) ==> exists|a: int|
                    0 <= a < all@.len() && (#[trigger] all@[a]).0@ == k,
            step_facts(start, *tracker, *registry, *context, distance_ok),
            met_ones_obtained(*tracker, all@, i as int, 0, *context, distance_ok),
            changed <==> exists|id: IdView, name: Seq<char>|
                #[trigger] newly_obtained(start, *tracker, id, name),
            completed_listed(start, *tracker, completed@),
            completion_facts(start, *tracker, *registry),
        decreases all@.len() - i,
    {
        let (id, entry) = all[i];
        let criteria = &entry.advancement.criteria;
        let requirements = &entry.advancement.requirements;
        let mut j: usize = 0;
        while j < criteria.len()
            invariant
                0 <= i < all@.len(),
                0 <= j <= criteria@.len(),
                (id, entry) == all@[i as int],
                *criteria == entry.advancement.criteria,
                criteria@ == criteria_at(all@, i as int),
                start == *old(tracker),
                registry.wf(),
                forall|c: &AdvancementCriterion| call_requires(distance_ok, (c,)),
                forall|a: int|
                    0 <= a < all@.len() ==> registry.placed_map().contains_key(
                        (#[trigger] all@[a]).0@,
                    ) && *all@[a].1 == registry.placed_map()[all@[a].0@].entry,
                step_facts(start, *tracker, *registry, *context, distance_ok),
                met_ones_obtained(*tracker, all@, i as int, j as int, *context, distance_ok),
                changed <==> exists|id: IdView, name: Seq<char>|
                    #[trigger] newly_obtained(start, *tracker, id, name),
                completed_listed(start, *tracker, completed@),
                completion_facts(start, *tracker, *registry),
                *requirements == entry.advancement.requirements,
                registry.placed_map()[id@].entry == *entry,
            decreases criteria@.len() - j,
        {
            let name = &criteria[j].0;
            let criterion = &criteria[j].1;
            let d = distance_ok(criterion);
            let ghost prev = *tracker;
            let ghost prev_completed = completed@;
            proof {
                assert(criteria_at(all@, i as int)[j as int] == criteria@[j as int]);
            }
            if AdvancementTriggers::criterion_applies(criterion, context, d) {
                let granted = tracker.grant_criterion(id, name.as_str(), requirements);
                proof {
                    assert forall|k: IdView| k != id@ implies #[trigger] tracker.progress_view_of(k)
                        == prev.progress_view_of(k) by {
                        assert(tracker.progress_map().remove(id@).contains_key(k)
                            == prev.progress_map().remove(id@).contains_key(k));
                        if prev.progress_map().contains_key(k) {
                            assert(tracker.progress_map().remove(id@)[k] == prev.progress_map().remove(id@)[k]);
                        }
                    }
                    if granted {
                        assert(registry.placed_map()[id@].entry == *entry);
                        assert(call_ensures(distance_ok, (criterion,), d));
                        assert(meets(*criterion, *context, d));
                        assert(may_apply(*registry, *context, distance_ok, id@, name@));
                    }
                    lemma_grant_step(start, prev, *tracker, *registry, *context, distance_ok, id@, name@, granted);
                    assert(completion_facts(start, *tracker, *registry)) by {
                        assert(requirements@ == requirements_of(*registry, id@));
                        lemma_completion_step(start, prev, *tracker, *registry, id@, name@, granted);
                    }
                    lemma_met_step(prev, *tracker, all@, i as int, j as int, *context, distance_ok);
                }
                if granted {
                    changed = true;
                    if tracker.is_completed(id) {
                        completed.push(id.clone());
                        assert(completed@.drop_last() =~= prev_completed);
                    }
                }
                proof {
                    lemma_listed_step(start, prev, *tracker, prev_completed, completed@, id@, name@, granted);
                }
            } else {
                proof {
                    assert(!meets(*criterion, *context, d));
                    assert(completed_listed(start, *tracker, completed@));
                    lemma_met_step(prev, *tracker, all@, i as int, j as int, *context, distance_ok);
                }
            }
            j += 1;
        }
        proof {
            assert(met_ones_obtained(*tracker, all@, i + 1, 0, *context, distance_ok));
        }
        i += 1;
    }
    proof {
        lemma_met_all(*tracker, *registry, all@, *context, distance_ok);
    }
    (completed, changed)
}

} // verus!
