use vstd::prelude::*;

use crate::names::owned;
use crate::protocol::advancements::AdvancementProgressMapping;
use crate::server::player_tracker::{packet_matches_progress, PlayerAdvancementTracker};
use crate::server::registry::{AdvancementRegistry, IdView};
use crate::util::ids::distinct_ids;
use crate::world::advancement::AdvancementEntry;
use crate::util::resource_location::{has_char, parse_spec, text_of, ResourceLocation};
use crate::util::text::{NamedColor, TextComponent, TextContent};
use crate::world::progress::obtained_names;
use crate::world::requirements::{all_groups_met, lemma_all_names_meet, names_contain};

verus! {

/// Why a command's arguments could not be used.
#[derive(Debug, PartialEq, Eq)]
pub enum CommandError {
    /// The argument of this name was missing or of another kind.
    InvalidConsumption(Option<String>),
}

/// Reads the advancement argument of a command.
pub struct AdvancementArgumentConsumer;

impl AdvancementArgumentConsumer {
    /// The argument's name when none is given.
    pub fn default_name(&self) -> (r: &'static str)
        ensures
            r@ == "advancement"@,
    {
        "advancement"
    }

    /// The advancement named by the argument `name`, whose text is `arg` when the command
    /// received it as an identifier: read as written when it holds a colon, else in the
    /// vanilla namespace. A missing argument is an error that names it.
    pub fn find_arg(arg: Option<&str>, name: &str) -> (r: Result<ResourceLocation, CommandError>)
        ensures
            match arg {
                Some(s) => r matches Ok(id) && id@ == parse_spec(s@),
                None => r matches Err(CommandError::InvalidConsumption(Some(n))) && n@ == name@,
            },
    {
        match arg {
            Some(s) => {
                let resource = if has_colon(s) {
                    ResourceLocation::from(s)
                } else {
                    ResourceLocation::vanilla(s)
                };
                Ok(resource)
            },
            None => Err(CommandError::InvalidConsumption(Some(owned(name)))),
        }
    }
}

/// Whether a text holds a colon.
fn has_colon(s: &str) -> (r: bool)
    ensures
        r == has_char(s@, ':'),
{
    let n = s.unicode_len();
    let mut i: usize = 0;
    while i < n
        invariant
            0 <= i <= n,
            n == s@.len(),
            forall|k: int| 0 <= k < i ==> s@[k] != ':',
        decreases n - i,
    {
        if s.get_char(i) == ':' {
            return true;
        }
        i += 1;
    }
    false
}

/// Every advancement not among the first `i` of the listing has the progress it had.
pub open spec fn untouched_before(
    before: PlayerAdvancementTracker,
    after: PlayerAdvancementTracker,
    all: Seq<(&ResourceLocation, &AdvancementEntry)>,
    i: int,
) -> bool {
    forall|k: IdView|
        #![trigger after.progress_map().contains_key(k)]
        (forall|a: int| 0 <= a < i ==> (#[trigger] all[a]).0@ != k) ==> (
        after.progress_map().contains_key(k) == before.progress_map().contains_key(k)) && (
        before.progress_map().contains_key(k) ==> after.progress_map()[k]
            == before.progress_map()[k])
}

/// Grants every registered advancement to a player, then marks the player's view for a full
/// resend.
pub fn grant_all_advancements(tracker: &mut PlayerAdvancementTracker, registry: &AdvancementRegistry)
    requires
        old(tracker).wf(),
        registry.wf(),
    ensures
        final(tracker).wf(),
        final(tracker).reset_flag(),
        forall|k: IdView| #[trigger]
            registry.placed_map().contains_key(k) ==> final(tracker).progress_map().contains_key(
                k,
            ) && forall|n: Seq<char>|
                names_contain(registry.placed_map()[k].entry.advancement.requirements@, n)
                    ==> #[trigger] final(tracker).progress_view_of(k)[n] is Some,
        forall|k: IdView|
            #![trigger final(tracker).progress_map().contains_key(k)]
            !registry.placed_map().contains_key(k) ==> (final(tracker).progress_map().contains_key(k)
                == old(tracker).progress_map().contains_key(k)) && (old(
                tracker,
            ).progress_map().contains_key(k) ==> final(tracker).progress_map()[k] == old(
                tracker,
            ).progress_map()[k]),
        old(tracker).completed_set().subset_of(final(tracker).completed_set()),
        forall|k: IdView|
            #![trigger final(tracker).completed_set().contains(k)]
            final(tracker).completed_set().contains(k) && !old(tracker).completed_set().contains(k)
                ==> registry.placed_map().contains_key(k),
        old(tracker).dirty_set().subset_of(final(tracker).dirty_set()),
        forall|k: IdView|
            #![trigger final(tracker).dirty_set().contains(k)]
            final(tracker).dirty_set().contains(k) && !old(tracker).dirty_set().contains(k)
                ==> registry.placed_map().contains_key(k),
        final(tracker).visible_set() == old(tracker).visible_set(),
        final(tracker).tab() == old(tracker).tab(),
        forall|k: IdView|
            #![trigger registry.placed_map()[k]]
            registry.placed_map().contains_key(k) && lacks_some(
                registry.placed_map()[k].entry.advancement.requirements@,
                old(tracker).progress_view_of(k),
            ) && no_empty_group(registry.placed_map()[k].entry.advancement.requirements@)
                ==> final(tracker).completed_set().contains(k),
{
    let all = registry.iter();
    let mut i: usize = 0;
    while i < all.len()
        invariant
            0 <= i <= all@.len(),
            tracker.wf(),
            forall|a: int, b: int|
                0 <= a < all@.len() && 0 <= b < all@.len() && a != b ==> (#[trigger] all@[a]).0@
                    != (#[trigger] all@[b]).0@,
            forall|a: int|
                0 <= a < all@.len() ==> registry.placed_map().contains_key((#[trigger] all@[a]).0@)
                    && *all@[a].1 == registry.placed_map()[all@[a].0@].entry,
            forall|a: int|
                0 <= a < i ==> tracker.progress_map().contains_key((#[trigger] all@[a]).0@)
                    && forall|n: Seq<char>|
                    names_contain(all@[a].1.advancement.requirements@, n)
                        ==> #[trigger] tracker.progress_view_of(all@[a].0@)[n] is Some,
            untouched_before(*old(tracker), *tracker, all@, i as int),
            old(tracker).completed_set().subset_of(tracker.completed_set()),
            forall|k: IdView|
                #[trigger] tracker.completed_set().contains(k) && !old(
                    tracker,
                ).completed_set().contains(k) ==> exists|a: int|
                    0 <= a < i && (#[trigger] all@[a]).0@ == k,
            old(tracker).dirty_set().subset_of(tracker.dirty_set()),
            forall|k: IdView|
                #[trigger] tracker.dirty_set().contains(k) && !old(tracker).dirty_set().contains(k)
                    ==> exists|a: int| 0 <= a < i && (#[trigger] all@[a]).0@ == k,
            tracker.visible_set() == old(tracker).visible_set(),
            tracker.tab() == old(tracker).tab(),
            forall|a: int|
                0 <= a < i && lacks_some(
                    (#[trigger] all@[a]).1.advancement.requirements@,
                    old(tracker).progress_view_of(all@[a].0@),
                ) && no_empty_group(all@[a].1.advancement.requirements@)
                    ==> tracker.completed_set().contains(all@[a].0@),
        decreases all@.len() - i,
    {
        let (id, entry) = all[i];
        let ghost before = *tracker;
        proof {
            assert forall|a: int| 0 <= a < i implies (#[trigger] all@[a]).0@ != id@ by {
                assert(all@[i as int].0@ == id@);
            }
            assert(before.progress_map().contains_key(id@) == old(tracker).progress_map().contains_key(id@));
            assert(before.progress_view_of(id@) == old(tracker).progress_view_of(id@));
        }
        tracker.grant_advancement(id, &entry.advancement.requirements);
        proof {
            let groups = entry.advancement.requirements@;
            let got = obtained_names(tracker.progress_view_of(id@));
            assert forall|n: Seq<char>| names_contain(groups, n) implies #[trigger] got.contains(n) by {
                assert(tracker.progress_view_of(id@)[n] is Some);
            }
            if no_empty_group(groups) {
                lemma_all_names_meet(groups, got);
            }
            assert(before.completed_set().subset_of(tracker.completed_set()));
            assert forall|a: int|
                0 <= a < i + 1 && lacks_some(
                    (#[trigger] all@[a]).1.advancement.requirements@,
                    old(tracker).progress_view_of(all@[a].0@),
                ) && no_empty_group(all@[a].1.advancement.requirements@)
                    implies tracker.completed_set().contains(all@[a].0@) by {
                if a == i {
                    assert(all@[a].1 == entry);
                }
            }
        }
        assert forall|a: int| 0 <= a < i + 1 implies tracker.progress_map().contains_key(
            (#[trigger] all@[a]).0@,
        ) && forall|n: Seq<char>|
            names_contain(all@[a].1.advancement.requirements@, n)
                ==> #[trigger] tracker.progress_view_of(all@[a].0@)[n] is Some by {
            if a < i {
                let k = all@[a].0@;
                assert(k != id@);
                assert(before.progress_map().remove(id@).contains_key(k));
                assert(tracker.progress_map().remove(id@).contains_key(k));
                assert(tracker.progress_map()[k] == tracker.progress_map().remove(id@)[k]);
                assert(before.progress_map().remove(id@)[k] == before.progress_map()[k]);
                assert(tracker.progress_view_of(k) == before.progress_view_of(k));
            } else {
                assert(all@[a].0@ == id@);
                assert(*all@[a].1 == *entry);
            }
        }
        assert forall|k: IdView|
            (forall|a: int| 0 <= a < i + 1 ==> (#[trigger] all@[a]).0@ != k) implies (
            #[trigger] tracker.progress_map().contains_key(k) == old(tracker).progress_map().contains_key(k))
            && (old(tracker).progress_map().contains_key(k) ==> tracker.progress_map()[k]
                == old(tracker).progress_map()[k]) by {
            assert(before.progress_map().contains_key(k) == old(tracker).progress_map().contains_key(k));
            assert(all@[i as int].0@ != k);
            assert(before.progress_map().remove(id@).contains_key(k) == before.progress_map().contains_key(k));
            assert(tracker.progress_map().remove(id@).contains_key(k) == tracker.progress_map().contains_key(k));
            if before.progress_map().contains_key(k) {
                assert(tracker.progress_map()[k] == tracker.progress_map().remove(id@)[k]);
                assert(before.progress_map().remove(id@)[k] == before.progress_map()[k]);
            }
        }
        assert(untouched_before(*old(tracker), *tracker, all@, i + 1));
        assert forall|k: IdView|
            #[trigger] tracker.completed_set().contains(k) && !old(tracker).completed_set().contains(k)
            implies exists|a: int| 0 <= a < i + 1 && (#[trigger] all@[a]).0@ == k by {
            if !before.completed_set().contains(k) {
                assert(all@[i as int].0@ == k);
            }
        }
        assert forall|k: IdView|
            #[trigger] tracker.dirty_set().contains(k) && !old(tracker).dirty_set().contains(k)
            implies exists|a: int| 0 <= a < i + 1 && (#[trigger] all@[a]).0@ == k by {
            if !before.dirty_set().contains(k) {
                assert(all@[i as int].0@ == k);
            }
        }
        i += 1;
    }
    let ghost done = *tracker;
    tracker.mark_needs_reset();
    assert forall|k: IdView| #[trigger]
        registry.placed_map().contains_key(k) implies tracker.progress_map().contains_key(k)
        && forall|n: Seq<char>|
        names_contain(registry.placed_map()[k].entry.advancement.requirements@, n)
            ==> #[trigger] tracker.progress_view_of(k)[n] is Some by {
        let a = choose|a: int| 0 <= a < all@.len() && (#[trigger] all@[a]).0@ == k;
        assert(done.progress_map().contains_key(all@[a].0@));
        assert(tracker.progress_view_of(k) == done.progress_view_of(k));
    }
    assert forall|k: IdView| !registry.placed_map().contains_key(k) implies (
        #[trigger] tracker.progress_map().contains_key(k) == old(tracker).progress_map().contains_key(k))
        && (old(tracker).progress_map().contains_key(k) ==> tracker.progress_map()[k]
            == old(tracker).progress_map()[k]) by {
        assert forall|a: int| 0 <= a < all@.len() implies (#[trigger] all@[a]).0@ != k by {}
        assert(done.progress_map().contains_key(k) == old(tracker).progress_map().contains_key(k));
        if old(tracker).progress_map().contains_key(k) {
            assert(done.progress_map()[k] == old(tracker).progress_map()[k]);
        }
    }
    assert forall|k: IdView|
        #[trigger] tracker.completed_set().contains(k) && !old(tracker).completed_set().contains(k)
        implies registry.placed_map().contains_key(k) by {
        assert(done.completed_set().contains(k));
        let a = choose|a: int| 0 <= a < all@.len() && (#[trigger] all@[a]).0@ == k;
    }
    assert forall|k: IdView|
        #[trigger] tracker.dirty_set().contains(k) && !old(tracker).dirty_set().contains(k)
        implies registry.placed_map().contains_key(k) by {
        assert(done.dirty_set().contains(k));
        let a = choose|a: int| 0 <= a < all@.len() && (#[trigger] all@[a]).0@ == k;
    }
    assert forall|k: IdView|
        #![trigger registry.placed_map()[k]]
        registry.placed_map().contains_key(k) && lacks_some(
            registry.placed_map()[k].entry.advancement.requirements@,
            old(tracker).progress_view_of(k),
        ) && no_empty_group(registry.placed_map()[k].entry.advancement.requirements@)
            implies tracker.completed_set().contains(k) by {
        let a = choose|a: int| 0 <= a < all@.len() && (#[trigger] all@[a]).0@ == k;
        assert(*all@[a].1 == registry.placed_map()[k].entry);
        assert(done.completed_set().contains(k));
    }
}

/// Some criterion the requirements name is not obtained in `view`.
pub open spec fn lacks_some(groups: Seq<Seq<Seq<char>>>, view: Map<Seq<char>, Option<i64>>) -> bool {
    exists|n: Seq<char>| names_contain(groups, n) && !#[trigger] obtained_names(view).contains(n)
}

/// Every group of the requirements names at least one criterion.
pub open spec fn no_empty_group(groups: Seq<Seq<Seq<char>>>) -> bool {
    forall|i: int| 0 <= i < groups.len() ==> #[trigger] groups[i].len() > 0
}

/// Grants a registered advancement to a player; returns whether it is registered.
pub fn grant_advancement_to(
    tracker: &mut PlayerAdvancementTracker,
    registry: &AdvancementRegistry,
    id: &ResourceLocation,
) -> (r: bool)
    requires
        old(tracker).wf(),
        registry.wf(),
    ensures
        final(tracker).wf(),
        r == registry.placed_map().contains_key(id@),
        !r ==> *final(tracker) == *old(tracker),
        r ==> final(tracker).progress_map().contains_key(id@) && forall|n: Seq<char>|
            names_contain(registry.placed_map()[id@].entry.advancement.requirements@, n)
                ==> #[trigger] final(tracker).progress_view_of(id@)[n] is Some,
        final(tracker).progress_map().remove(id@) == old(tracker).progress_map().remove(id@),
        old(tracker).completed_set().subset_of(final(tracker).completed_set()),
        final(tracker).completed_set().subset_of(old(tracker).completed_set().insert(id@)),
        r && lacks_some(
            registry.placed_map()[id@].entry.advancement.requirements@,
            old(tracker).progress_view_of(id@),
        ) ==> (final(tracker).completed_set().contains(id@) <==> old(
            tracker,
        ).completed_set().contains(id@) || all_groups_met(
            registry.placed_map()[id@].entry.advancement.requirements@,
            obtained_names(final(tracker).progress_view_of(id@)),
        )),
        r && lacks_some(
            registry.placed_map()[id@].entry.advancement.requirements@,
            old(tracker).progress_view_of(id@),
        ) && no_empty_group(registry.placed_map()[id@].entry.advancement.requirements@) ==> final(tracker).completed_set().contains(id@),
        r && !lacks_some(
            registry.placed_map()[id@].entry.advancement.requirements@,
            old(tracker).progress_view_of(id@),
        ) ==> final(tracker).completed_set() == old(tracker).completed_set(),
        old(tracker).dirty_set().subset_of(final(tracker).dirty_set()),
        final(tracker).dirty_set().subset_of(old(tracker).dirty_set().insert(id@)),
        final(tracker).visible_set() == old(tracker).visible_set(),
        final(tracker).tab() == old(tracker).tab(),
        final(tracker).reset_flag() == old(tracker).reset_flag(),
{
    match registry.get(id) {
        Some(entry) => {
            let changed = tracker.grant_advancement(id, &entry.advancement.requirements);
            proof {
                let groups = entry.advancement.requirements@;
                let got = obtained_names(tracker.progress_view_of(id@));
                assert forall|n: Seq<char>| names_contain(groups, n) implies #[trigger] got.contains(n) by {
                    assert(tracker.progress_view_of(id@)[n] is Some);
                }
                if no_empty_group(groups) {
                    lemma_all_names_meet(groups, got);
                }
            }
            true
        },
        None => false,
    }
}

/// Revokes each of the given advancements from a player, then marks the player's view for a
/// full resend.
pub fn revoke_everything(tracker: &mut PlayerAdvancementTracker, ids: &Vec<ResourceLocation>)
    requires
        old(tracker).wf(),
    ensures
        final(tracker).wf(),
        final(tracker).reset_flag(),
        forall|i: int|
            0 <= i < ids@.len() ==> !final(tracker).progress_map().contains_key(
                (#[trigger] ids@[i])@,
            ) && !final(tracker).completed_set().contains(ids@[i]@),
        forall|k: IdView|
            #![trigger final(tracker).progress_map().contains_key(k)]
            not_listed(ids@, ids@.len() as int, k) ==> (final(tracker).progress_map().contains_key(k)
                == old(tracker).progress_map().contains_key(k)) && (old(
                tracker,
            ).progress_map().contains_key(k) ==> final(tracker).progress_map()[k] == old(
                tracker,
            ).progress_map()[k]),
        forall|k: IdView|
            #![trigger final(tracker).completed_set().contains(k)]
            final(tracker).completed_set().contains(k) <==> old(tracker).completed_set().contains(k)
                && not_listed(ids@, ids@.len() as int, k),
        old(tracker).dirty_set().subset_of(final(tracker).dirty_set()),
        forall|k: IdView|
            #![trigger final(tracker).dirty_set().contains(k)]
            final(tracker).dirty_set().contains(k) && !old(tracker).dirty_set().contains(k)
                ==> !not_listed(ids@, ids@.len() as int, k),
        final(tracker).visible_set() == old(tracker).visible_set(),
        final(tracker).tab() == old(tracker).tab(),
{
    let mut i: usize = 0;
    while i < ids.len()
        invariant
            0 <= i <= ids@.len(),
            tracker.wf(),
            forall|k: int|
                0 <= k < i ==> !tracker.progress_map().contains_key((#[trigger] ids@[k])@)
                    && !tracker.completed_set().contains(ids@[k]@),
            forall|k: IdView|
                #![trigger tracker.progress_map().contains_key(k)]
                not_listed(ids@, i as int, k) ==> (tracker.progress_map().contains_key(k)
                    == old(tracker).progress_map().contains_key(k)) && (old(
                    tracker,
                ).progress_map().contains_key(k) ==> tracker.progress_map()[k] == old(
                    tracker,
                ).progress_map()[k]),
            forall|k: IdView|
                #![trigger tracker.completed_set().contains(k)]
                tracker.completed_set().contains(k) <==> old(tracker).completed_set().contains(k)
                    && not_listed(ids@, i as int, k),
            old(tracker).dirty_set().subset_of(tracker.dirty_set()),
            forall|k: IdView|
                #![trigger tracker.dirty_set().contains(k)]
                tracker.dirty_set().contains(k) && !old(tracker).dirty_set().contains(k)
                    ==> !not_listed(ids@, i as int, k),
            tracker.visible_set() == old(tracker).visible_set(),
            tracker.tab() == old(tracker).tab(),
        decreases ids@.len() - i,
    {
        let ghost before = *tracker;
        tracker.revoke_advancement(&ids[i]);
        assert forall|k: int| 0 <= k < i + 1 implies !tracker.progress_map().contains_key(
            (#[trigger] ids@[k])@,
        ) && !tracker.completed_set().contains(ids@[k]@) by {
            if k < i {
                assert(!before.progress_map().contains_key(ids@[k]@));
                assert(!before.completed_set().contains(ids@[k]@));
            }
        }
        assert forall|k: IdView| not_listed(ids@, i + 1, k) implies (
            #[trigger] tracker.progress_map().contains_key(k) == old(tracker).progress_map().contains_key(k))
            && (old(tracker).progress_map().contains_key(k) ==> tracker.progress_map()[k]
                == old(tracker).progress_map()[k]) by {
            assert(ids@[i as int]@ != k);
            assert(not_listed(ids@, i as int, k));
            assert(before.progress_map().contains_key(k) == old(tracker).progress_map().contains_key(k));
        }
        assert forall|k: IdView|
            #[trigger] tracker.completed_set().contains(k) <==> old(tracker).completed_set().contains(k)
                && not_listed(ids@, i + 1, k) by {
            if not_listed(ids@, i + 1, k) {
                assert(ids@[i as int]@ != k);
                assert(not_listed(ids@, i as int, k));
            } else if !not_listed(ids@, i as int, k) {
                assert(!before.completed_set().contains(k));
            } else {
                assert(ids@[i as int]@ == k);
            }
            assert(before.completed_set().contains(k) <==> old(tracker).completed_set().contains(k)
                && not_listed(ids@, i as int, k));
        }
        assert forall|k: IdView|
            #[trigger] tracker.dirty_set().contains(k) && !old(tracker).dirty_set().contains(k)
                implies !not_listed(ids@, i + 1, k) by {
            if !before.dirty_set().contains(k) {
                assert(ids@[i as int]@ == k);
            } else {
                assert(!not_listed(ids@, i as int, k));
            }
        }
        i += 1;
    }
    tracker.mark_needs_reset();
}

/// No identifier among the first `n` of `ids` is `k`.
pub open spec fn not_listed(ids: Seq<ResourceLocation>, n: int, k: IdView) -> bool {
    forall|a: int| 0 <= a < n ==> (#[trigger] ids[a])@ != k
}

/// The message that reports an advancement granted to a player.
pub fn granted_message(id: &ResourceLocation) -> (r: TextComponent)
    ensures
        r.0.style.is_plain(),
        r.0.extra@.len() == 0,
        r.0.content matches TextContent::Text { text } && text@ == "Granted advancement "@
            + text_of(id@) + " to 1 player(s)"@,
{
    let mut s = owned("Granted advancement ");
    s.append(id.to_string().as_str());
    s.append(" to 1 player(s)");
    TextComponent::text(s)
}

/// The message that reports an advancement revoked from a player.
pub fn revoked_message(id: &ResourceLocation) -> (r: TextComponent)
    ensures
        r.0.style.is_plain(),
        r.0.extra@.len() == 0,
        r.0.content matches TextContent::Text { text } && text@ == "Revoked advancement "@
            + text_of(id@) + " from 1 player(s)"@,
{
    let mut s = owned("Revoked advancement ");
    s.append(id.to_string().as_str());
    s.append(" from 1 player(s)");
    TextComponent::text(s)
}

/// The message, in red, that reports an advancement the registry does not know.
pub fn unknown_message(id: &ResourceLocation) -> (r: TextComponent)
    ensures
        r.0.extra@.len() == 0,
        r.0.style.color == Some(crate::util::text::Color::Named(NamedColor::Red)),
        r.0.content matches TextContent::Text { text } && text@ == "Unknown advancement: "@
            + text_of(id@),
{
    let mut s = owned("Unknown advancement: ");
    s.append(id.to_string().as_str());
    TextComponent::text(s).color_named(NamedColor::Red)
}

/// What must be sent to bring a player's advancement screen up to date.
#[derive(Debug)]
pub struct PendingUpdate {
    /// Whether the client must drop everything it has first.
    pub reset: bool,
    /// On a reset, the shown advancements to send, in registration order.
    pub shown: Vec<ResourceLocation>,
    /// The player's progress of every advancement touched.
    pub progress: Vec<AdvancementProgressMapping>,
}

/// What to send a player, if anything is pending: on a reset every shown advancement, and the
/// progress of every advancement the player has touched.
pub fn pending_update(tracker: &PlayerAdvancementTracker, registry: &AdvancementRegistry) -> (r: Option<PendingUpdate>)
    requires
        tracker.wf(),
        registry.wf(),
    ensures
        r is Some <==> (tracker.reset_flag() || !tracker.dirty_set().is_empty()),
        r matches Some(u) ==> distinct_ids(u.shown@),
        r matches Some(u) ==> u.reset == tracker.reset_flag() && (!u.reset ==> u.shown@.len() == 0)
            && (u.reset ==> (forall|i: int|
            0 <= i < u.shown@.len() ==> registry.placed_map().contains_key(
                (#[trigger] u.shown@[i])@,
            ) && registry.placed_map()[u.shown@[i]@].entry.advancement.display is Some) && (
        forall|k: IdView|
            registry.placed_map().contains_key(k)
                && registry.placed_map()[k].entry.advancement.display is Some ==> exists|i: int|
                0 <= i < u.shown@.len() && (#[trigger] u.shown@[i])@ == k)) && u.progress@.len()
            == tracker.progress_entries().len() && forall|i: int|
            0 <= i < u.progress@.len() ==> (#[trigger] u.progress@[i]).id@
                == tracker.progress_entries()[i].0 && packet_matches_progress(
                u.progress@[i].progress,
                tracker.progress_entries()[i].1,
            ),
{
    if !tracker.has_pending_updates() {
        return None;
    }
    let reset = tracker.needs_reset();
    let mut shown: Vec<ResourceLocation> = Vec::new();
    if reset {
        let all = registry.iter();
        let mut i: usize = 0;
        while i < all.len()
            invariant
                0 <= i <= all@.len(),
                forall|a: int|
                    0 <= a < all@.len() ==> registry.placed_map().contains_key(
                        (#[trigger] all@[a]).0@,
                    ) && *all@[a].1 == registry.placed_map()[all@[a].0@].entry,
                forall|j: int|
                    0 <= j < shown@.len() ==> registry.placed_map().contains_key(
                        (#[trigger] shown@[j])@,
                    ) && registry.placed_map()[shown@[j]@].entry.advancement.display is Some,
                forall|a: int|
                    0 <= a < i && (#[trigger] all@[a]).1.advancement.display is Some ==> exists|
                        j: int,
                    | 0 <= j < shown@.len() && (#[trigger] shown@[j])@ == all@[a].0@,
                forall|a: int, b: int|
                    0 <= a < all@.len() && 0 <= b < all@.len() && a != b ==> (#[trigger] all@[a]).0@
                        != (#[trigger] all@[b]).0@,
                forall|j: int|
                    0 <= j < shown@.len() ==> exists|a: int|
                        0 <= a < i && (#[trigger] shown@[j])@ == (#[trigger] all@[a]).0@,
                distinct_ids(shown@),
            decreases all@.len() - i,
        {
            let (id, entry) = all[i];
            if entry.advancement.display.is_some() {
                let ghost before = shown@;
                shown.push(id.clone());
                assert forall|x: int, y: int|
                    0 <= x < shown@.len() && 0 <= y < shown@.len() && x != y implies (
                    #[trigger] shown@[x])@ != (#[trigger] shown@[y])@ by {
                    if x < before.len() && y < before.len() {
                        assert(before[x] == shown@[x] && before[y] == shown@[y]);
                    } else if x < before.len() {
                        assert(before[x] == shown@[x]);
                        let a = choose|a: int| 0 <= a < i && (#[trigger] before[x])@ == (#[trigger] all@[a]).0@;
                    } else {
                        assert(before[y] == shown@[y]);
                        let a = choose|a: int| 0 <= a < i && (#[trigger] before[y])@ == (#[trigger] all@[a]).0@;
                    }
                }
                assert forall|j: int| 0 <= j < shown@.len() implies exists|a: int|
                    0 <= a < i + 1 && (#[trigger] shown@[j])@ == (#[trigger] all@[a]).0@ by {
                    if j < before.len() {
                        assert(before[j] == shown@[j]);
                        let a = choose|a: int| 0 <= a < i && (#[trigger] before[j])@ == (#[trigger] all@[a]).0@;
                        assert(shown@[j]@ == all@[a].0@);
                    } else {
                        assert(shown@[j]@ == all@[i as int].0@);
                    }
                }
                assert forall|a: int|
                    0 <= a < i + 1 && (#[trigger] all@[a]).1.advancement.display is Some implies exists|
                        j: int,
                    | 0 <= j < shown@.len() && (#[trigger] shown@[j])@ == all@[a].0@ by {
                    if a < i {
                        let j = choose|j: int|
                            0 <= j < before.len() && (#[trigger] before[j])@ == all@[a].0@;
                        assert(shown@[j] == before[j]);
                    } else {
                        assert(shown@[before.len() as int]@ == all@[a].0@);
                    }
                }
            }
            i += 1;
        }
        assert forall|k: IdView|
            registry.placed_map().contains_key(k)
                && registry.placed_map()[k].entry.advancement.display is Some implies exists|i: int|
            0 <= i < shown@.len() && (#[trigger] shown@[i])@ == k by {
            let a = choose|a: int| 0 <= a < all@.len() && (#[trigger] all@[a]).0@ == k;
        }
    }
    let progress = tracker.to_progress_mappings();
    Some(PendingUpdate { reset, shown, progress })
}

} // verus!
