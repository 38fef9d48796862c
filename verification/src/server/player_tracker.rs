use vstd::prelude::*;

use crate::keyed::{
    has_key, index_of_key, lemma_map_of_index, lemma_map_of_push, lemma_map_of_remove,
    lemma_map_of_update, map_of, unique_keys,
};
use crate::protocol::advancements::{
    AdvancementProgress as ProgressPacket, AdvancementProgressMapping, CriterionProgressEntry,
};
use crate::util::ids::{contains_id, distinct_ids, id_set, insert_id, remove_id};
use crate::util::resource_location::ResourceLocation;
use crate::world::progress::{obtained_names, AdvancementProgress};
use crate::world::requirements::{all_groups_met, names_contain, AdvancementRequirements};

verus! {

/// An identifier by value.
pub type IdView = (Seq<char>, Seq<char>);

/// The protocol entries of a progress name the same criteria with the same times, in order.
pub open spec fn packet_matches_progress(packet: ProgressPacket, progress: AdvancementProgress) -> bool {
    &&& packet.criteria@.len() == progress.entries().len()
    &&& forall|j: int|
        0 <= j < packet.criteria@.len() ==> ((#[trigger] packet.criteria@[j]).criterion@,
        packet.criteria@[j].progress) == progress.entries()[j]
}

/// The pairs of a progress list with each identifier taken by value.
pub open spec fn id_entries(v: Seq<(ResourceLocation, AdvancementProgress)>) -> Seq<(IdView, AdvancementProgress)> {
    Seq::new(v.len(), |i: int| (v[i].0@, v[i].1))
}

/// The identifiers of progress mappings, in order.
pub open spec fn mapping_ids(s: Seq<AdvancementProgressMapping>) -> Seq<ResourceLocation> {
    s.map_values(|m: AdvancementProgressMapping| m.id)
}

/// Keeps the advancement progress of one player and what must be sent to that player's client.
#[derive(Debug)]
pub struct PlayerAdvancementTracker {
    progress: Vec<(ResourceLocation, AdvancementProgress)>,
    completed: Vec<ResourceLocation>,
    dirty: Vec<ResourceLocation>,
    current_tab: Option<ResourceLocation>,
    needs_reset: bool,
    visible: Vec<ResourceLocation>,
}

impl Default for PlayerAdvancementTracker {
    fn default() -> (r: Self)
        ensures
            r.wf(),
            r.progress_map() == Map::<IdView, AdvancementProgress>::empty(),
            r.completed_set() == Set::<IdView>::empty(),
            r.dirty_set() == Set::<IdView>::empty(),
            r.visible_set() == Set::<IdView>::empty(),
            r.tab() is None,
            r.reset_flag(),
    {
        Self::new()
    }
}

impl PlayerAdvancementTracker {
    /// The progress pairs by identifier value, in storage order.
    pub closed spec fn progress_entries(&self) -> Seq<(IdView, AdvancementProgress)> {
        id_entries(self.progress@)
    }

    /// The progress of each advancement the player has touched.
    pub closed spec fn progress_map(&self) -> Map<IdView, AdvancementProgress> {
        map_of(self.progress_entries())
    }

    /// The advancements marked completed.
    pub closed spec fn completed_set(&self) -> Set<IdView> {
        id_set(self.completed@)
    }

    /// The advancements whose progress changed since the last update was sent.
    pub closed spec fn dirty_set(&self) -> Set<IdView> {
        id_set(self.dirty@)
    }

    /// The advancements marked visible.
    pub closed spec fn visible_set(&self) -> Set<IdView> {
        id_set(self.visible@)
    }

    /// The selected tab.
    pub closed spec fn tab(&self) -> Option<IdView> {
        match self.current_tab {
            Some(t) => Some(t@),
            None => None,
        }
    }

    /// Whether the next update must resend everything.
    pub closed spec fn reset_flag(&self) -> bool {
        self.needs_reset
    }

    /// Each advancement has one progress, each progress names each criterion once, the sets
    /// hold no identifier twice, and every completed advancement has progress.
    pub closed spec fn wf(&self) -> bool {
        &&& unique_keys(self.progress_entries())
        &&& forall|i: int|
            0 <= i < self.progress@.len() ==> (#[trigger] self.progress@[i]).1.wf()
        &&& distinct_ids(self.completed@)
        &&& distinct_ids(self.dirty@)
        &&& distinct_ids(self.visible@)
        &&& forall|x: IdView| #[trigger]
            self.completed_set().contains(x) ==> self.progress_map().contains_key(x)
    }

    /// The criteria progress of an advancement, empty when the player has none.
    pub open spec fn progress_view_of(&self, id: IdView) -> Map<Seq<char>, Option<i64>> {
        if self.progress_map().contains_key(id) {
            self.progress_map()[id]@
        } else {
            Map::empty()
        }
    }

    /// The values of the progress map are well formed.
    proof fn lemma_values_wf(&self)
        requires
            self.wf(),
        ensures
            forall|x: IdView| #[trigger]
                self.progress_map().contains_key(x) ==> self.progress_map()[x].wf(),
    {
        assert forall|x: IdView| #[trigger]
            self.progress_map().contains_key(x) implies self.progress_map()[x].wf() by {
            let e = self.progress_entries();
            let k = index_of_key(e, x);
            assert(has_key(e, x));
            lemma_map_of_index(e, k);
            assert(self.progress@[k].1.wf());
        }
    }

    /// Well-formedness carries over to a tracker with the same progress and completed lists
    /// whose other lists hold no identifier twice.
    proof fn lemma_wf_frame(a: &Self, b: &Self)
        requires
            a.wf(),
            a.progress@ == b.progress@,
            a.completed@ == b.completed@,
            distinct_ids(b.dirty@),
            distinct_ids(b.visible@),
        ensures
            b.wf(),
            b.progress_map() == a.progress_map(),
            b.completed_set() == a.completed_set(),
    {
        assert(a.progress_entries() == b.progress_entries());
        assert(a.completed_set() == b.completed_set());
        assert forall|x: IdView| #[trigger]
            b.completed_set().contains(x) implies b.progress_map().contains_key(x) by {
            assert(a.completed_set().contains(x));
        }
        assert forall|i: int|
            0 <= i < b.progress@.len() implies (#[trigger] b.progress@[i]).1.wf() by {
            assert(a.progress@[i] == b.progress@[i]);
        }
    }

    /// Nothing is pending after the updates have been sent: with the reset flag cleared and no
    /// advancement marked changed, there are no pending updates.
    pub proof fn lemma_cleared_has_nothing_pending(&self)
        requires
            !self.reset_flag(),
            self.dirty_set() == Set::<IdView>::empty(),
        ensures
            !(self.reset_flag() || !self.dirty_set().is_empty()),
    {
    }

    /// Once every criterion an advancement's requirements name is obtained, and no group of them
    /// is empty, its requirements are met.
    pub proof fn lemma_granted_advancement_met(&self, id: IdView, groups: Seq<Seq<Seq<char>>>)
        requires
            forall|i: int| 0 <= i < groups.len() ==> #[trigger] groups[i].len() > 0,
            forall|n: Seq<char>| names_contain(groups, n) ==> #[trigger] self.progress_view_of(id)[n] is Some,
            forall|n: Seq<char>| names_contain(groups, n) ==> #[trigger] self.progress_view_of(id).contains_key(n),
        ensures
            all_groups_met(groups, obtained_names(self.progress_view_of(id))),
    {
        assert forall|n: Seq<char>| names_contain(groups, n) implies #[trigger] obtained_names(
            self.progress_view_of(id),
        ).contains(n) by {
            assert(self.progress_view_of(id).contains_key(n));
            assert(self.progress_view_of(id)[n] is Some);
        }
        crate::world::requirements::lemma_all_names_meet(groups, obtained_names(self.progress_view_of(id)));
    }

    /// In a well-formed tracker each advancement has one progress entry.
    pub proof fn lemma_entries_unique(&self)
        requires
            self.wf(),
        ensures
            unique_keys(self.progress_entries()),
    {
    }

    /// Every advancement marked completed has progress.
    pub proof fn lemma_completed_have_progress(&self)
        requires
            self.wf(),
        ensures
            forall|x: IdView| #[trigger]
                self.completed_set().contains(x) ==> self.progress_map().contains_key(x),
    {
    }

    pub fn new() -> (r: Self)
        ensures
            r.wf(),
            r.progress_map() == Map::<IdView, AdvancementProgress>::empty(),
            r.completed_set() == Set::<IdView>::empty(),
            r.dirty_set() == Set::<IdView>::empty(),
            r.visible_set() == Set::<IdView>::empty(),
            r.tab() is None,
            r.reset_flag(),
    {
        let r = Self {
            progress: Vec::new(),
            completed: Vec::new(),
            dirty: Vec::new(),
            current_tab: None,
            needs_reset: true,
            visible: Vec::new(),
        };
        assert(r.progress_map() =~= Map::<IdView, AdvancementProgress>::empty());
        assert(r.completed_set() =~= Set::<IdView>::empty());
        assert(r.dirty_set() =~= Set::<IdView>::empty());
        assert(r.visible_set() =~= Set::<IdView>::empty());
        r
    }

    /// Finds the position of an advancement's progress.
    fn find(&self, id: &ResourceLocation) -> (r: Option<usize>)
        ensures
            match r {
                Some(k) => k < self.progress@.len() && self.progress_entries()[k as int].0 == id@,
                None => !has_key(self.progress_entries(), id@),
            },
    {
        let mut i: usize = 0;
        while i < self.progress.len()
            invariant
                0 <= i <= self.progress@.len(),
                forall|k: int| 0 <= k < i ==> (#[trigger] self.progress_entries()[k]).0 != id@,
            decreases self.progress@.len() - i,
        {
            if self.progress[i].0.same(id) {
                return Some(i);
            }
            i += 1;
        }
        None
    }

    /// Finds the position of an advancement's progress, adding empty progress when there is
    /// none.
    fn entry_index(&mut self, id: &ResourceLocation) -> (k: usize)
        requires
            old(self).wf(),
        ensures
            final(self).wf(),
            k < final(self).progress@.len(),
            final(self).progress_entries()[k as int].0 == id@,
            final(self).progress_map().contains_key(id@),
            old(self).progress_map().contains_key(id@) ==> final(self).progress_map()
                == old(self).progress_map(),
            !old(self).progress_map().contains_key(id@) ==> final(self).progress_map()[id@]@
                == Map::<Seq<char>, Option<i64>>::empty(),
            !old(self).progress_map().contains_key(id@) ==> !final(self).progress_map()[id@].done_flag(),
            final(self).progress_map().remove(id@) == old(self).progress_map().remove(id@),
            final(self).progress_view_of(id@) == old(self).progress_view_of(id@),
            final(self).completed == old(self).completed,
            final(self).dirty == old(self).dirty,
            final(self).visible == old(self).visible,
            final(self).current_tab == old(self).current_tab,
            final(self).needs_reset == old(self).needs_reset,
    {
        let ghost e = self.progress_entries();
        match self.find(id) {
            Some(k) => {
                proof {
                    lemma_map_of_index(e, k as int);
                    Self::lemma_wf_frame(old(self), self);
                }
                k
            },
            None => {
                let fresh = AdvancementProgress::new();
                let ghost f = fresh;
                self.progress.push((id.clone(), fresh));
                assert(self.progress_entries() =~= e.push((id@, f)));
                proof {
                    lemma_map_of_push(e, (id@, f));
                }
                assert(self.progress_map().remove(id@) =~= old(self).progress_map().remove(id@));
                assert(self.progress_view_of(id@) =~= old(self).progress_view_of(id@));
                assert forall|i: int|
                    0 <= i < self.progress@.len() implies (#[trigger] self.progress@[i]).1.wf() by {
                    if i < e.len() {
                        assert(self.progress@[i] == old(self).progress@[i]);
                    }
                }
                assert forall|x: IdView| #[trigger]
                    self.completed_set().contains(x) implies self.progress_map().contains_key(x) by {
                    assert(old(self).completed_set().contains(x));
                }
                self.progress.len() - 1
            },
        }
    }

    /// Replaces the progress at position `k`, keeping its identifier.
    fn put_back(&mut self, k: usize, p: AdvancementProgress)
        requires
            old(self).wf(),
            k < old(self).progress@.len(),
            p.wf(),
        ensures
            final(self).progress_entries() == old(self).progress_entries().update(
                k as int,
                (old(self).progress_entries()[k as int].0, p),
            ),
            final(self).progress_map() == old(self).progress_map().insert(
                old(self).progress_entries()[k as int].0,
                p,
            ),
            final(self).wf(),
            final(self).completed == old(self).completed,
            final(self).dirty == old(self).dirty,
            final(self).visible == old(self).visible,
            final(self).current_tab == old(self).current_tab,
            final(self).needs_reset == old(self).needs_reset,
    {
        let ghost e = self.progress_entries();
        let (key, _old) = self.progress.remove(k);
        self.progress.insert(k, (key, p));
        assert(self.progress_entries() =~= e.update(k as int, (e[k as int].0, p)));
        proof {
            lemma_map_of_update(e, k as int, p);
        }
        assert forall|i: int|
            0 <= i < self.progress@.len() implies (#[trigger] self.progress@[i]).1.wf() by {
            if i != k {
                assert(self.progress@[i] == old(self).progress@[i]);
            }
        }
        assert forall|x: IdView| #[trigger]
            self.completed_set().contains(x) implies self.progress_map().contains_key(x) by {
            assert(old(self).completed_set().contains(x));
        }
    }

    /// Records that an advancement's progress changed.
    fn note_dirty(&mut self, id: &ResourceLocation)
        requires
            old(self).wf(),
        ensures
            final(self).wf(),
            final(self).dirty_set() == old(self).dirty_set().insert(id@),
            final(self).progress@ == old(self).progress@,
            final(self).completed@ == old(self).completed@,
            final(self).visible == old(self).visible,
            final(self).current_tab == old(self).current_tab,
            final(self).needs_reset == old(self).needs_reset,
    {
        insert_id(&mut self.dirty, id);
        proof {
            Self::lemma_wf_frame(old(self), self);
        }
    }

    /// Marks an advancement that has progress as completed.
    fn note_completed(&mut self, id: &ResourceLocation)
        requires
            old(self).wf(),
            old(self).progress_map().contains_key(id@),
        ensures
            final(self).wf(),
            final(self).completed_set() == old(self).completed_set().insert(id@),
            final(self).progress@ == old(self).progress@,
            final(self).dirty@ == old(self).dirty@,
            final(self).visible == old(self).visible,
            final(self).current_tab == old(self).current_tab,
            final(self).needs_reset == old(self).needs_reset,
    {
        insert_id(&mut self.completed, id);
        proof {
            assert(self.progress_entries() == old(self).progress_entries());
            assert forall|x: IdView| #[trigger]
                self.completed_set().contains(x) implies self.progress_map().contains_key(x) by {
                if x != id@ {
                    assert(old(self).completed_set().contains(x));
                }
            }
            assert forall|i: int|
                0 <= i < self.progress@.len() implies (#[trigger] self.progress@[i]).1.wf() by {
                assert(self.progress@[i] == old(self).progress@[i]);
            }
        }
    }

    /// Unmarks an advancement as completed.
    fn drop_completed(&mut self, id: &ResourceLocation)
        requires
            old(self).wf(),
        ensures
            final(self).wf(),
            final(self).completed_set() == old(self).completed_set().remove(id@),
            final(self).progress@ == old(self).progress@,
            final(self).dirty@ == old(self).dirty@,
            final(self).visible == old(self).visible,
            final(self).current_tab == old(self).current_tab,
            final(self).needs_reset == old(self).needs_reset,
    {
        remove_id(&mut self.completed, id);
        proof {
            assert(self.progress_entries() == old(self).progress_entries());
            assert forall|x: IdView| #[trigger]
                self.completed_set().contains(x) implies self.progress_map().contains_key(x) by {
                assert(old(self).completed_set().contains(x));
            }
            assert forall|i: int|
                0 <= i < self.progress@.len() implies (#[trigger] self.progress@[i]).1.wf() by {
                assert(self.progress@[i] == old(self).progress@[i]);
            }
        }
    }

    /// Takes the progress at position `k` out, leaving empty progress in its place.
    fn take_out(&mut self, k: usize) -> (p: AdvancementProgress)
        requires
            old(self).wf(),
            k < old(self).progress@.len(),
        ensures
            final(self).wf(),
            p == old(self).progress@[k as int].1,
            p.wf(),
            final(self).progress_map() == old(self).progress_map().insert(
                old(self).progress_entries()[k as int].0,
                final(self).progress@[k as int].1,
            ),
            final(self).progress@.len() == old(self).progress@.len(),
            final(self).progress@[k as int].0 == old(self).progress@[k as int].0,
            forall|i: int|
                0 <= i < final(self).progress@.len() && i != k ==> #[trigger] final(self).progress@[i]
                    == old(self).progress@[i],
            final(self).completed == old(self).completed,
            final(self).dirty == old(self).dirty,
            final(self).visible == old(self).visible,
            final(self).current_tab == old(self).current_tab,
            final(self).needs_reset == old(self).needs_reset,
    {
        let ghost e = self.progress_entries();
        let (key, p) = self.progress.remove(k);
        self.progress.insert(k, (key, AdvancementProgress::new()));
        proof {
            let f = self.progress_entries();
            assert(f =~= e.update(k as int, (e[k as int].0, self.progress@[k as int].1)));
            lemma_map_of_update(e, k as int, self.progress@[k as int].1);
            assert forall|i: int| 0 <= i < f.len() implies (#[trigger] f[i]).0 == e[i].0 by {
                if i != k {
                    assert(self.progress@[i] == old(self).progress@[i]);
                }
            }
            assert forall|a: int, b: int|
                0 <= a < f.len() && 0 <= b < f.len() && a != b implies (#[trigger] f[a]).0 != (
                #[trigger] f[b]).0 by {
                assert(f[a].0 == e[a].0 && f[b].0 == e[b].0);
            }
            assert forall|i: int|
                0 <= i < self.progress@.len() implies (#[trigger] self.progress@[i]).1.wf() by {
                if i != k {
                    assert(self.progress@[i] == old(self).progress@[i]);
                }
            }
            assert forall|x: IdView| #[trigger]
                self.completed_set().contains(x) implies self.progress_map().contains_key(x) by {
                assert(old(self).completed_set().contains(x));
                assert(old(self).progress_map().contains_key(x));
                let j = index_of_key(e, x);
                assert(has_key(e, x));
                assert(f[j].0 == x);
                assert(has_key(f, x));
            }
        }
        p
    }

    #[must_use]
    pub fn get_progress(&self, id: &ResourceLocation) -> (r: Option<&AdvancementProgress>)
        requires
            self.wf(),
        ensures
            r is None <==> !self.progress_map().contains_key(id@),
            r matches Some(p) ==> *p == self.progress_map()[id@] && p.wf(),
    {
        match self.find(id) {
            Some(k) => {
                proof {
                    lemma_map_of_index(self.progress_entries(), k as int);
                }
                Some(&self.progress[k].1)
            },
            None => None,
        }
    }

    /// The progress of an advancement, created empty when the player has none, for the caller
    /// to change in place.
    pub fn get_or_create_progress(&mut self, id: &ResourceLocation) -> (r: &mut AdvancementProgress)
        requires
            old(self).wf(),
        ensures
            r.wf(),
            old(self).progress_map().contains_key(id@) ==> *r == old(self).progress_map()[id@],
            !old(self).progress_map().contains_key(id@) ==> r@ == Map::<Seq<char>, Option<i64>>::empty()
                && !r.done_flag(),
            final(self).progress_map() == old(self).progress_map().insert(id@, *final(r)),
            final(r).wf() ==> final(self).wf(),
            final(self).completed_set() == old(self).completed_set(),
            final(self).dirty_set() == old(self).dirty_set(),
            final(self).visible_set() == old(self).visible_set(),
            final(self).tab() == old(self).tab(),
            final(self).reset_flag() == old(self).reset_flag(),
    {
        let k = self.entry_index(id);
        let ghost mid = *self;
        let ghost e = self.progress_entries();
        proof {
            lemma_map_of_index(e, k as int);
            self.lemma_values_wf();
            Self::lemma_completed_have_progress(&mid);
        }
        let r = &mut self.progress[k].1;
        proof {
            let v = *final(r);
            let u = mid.progress@.update(k as int, (mid.progress@[k as int].0, v));
            assert(id_entries(u) =~= e.update(k as int, (e[k as int].0, v)));
            lemma_map_of_update(e, k as int, v);
            let before_map = old(self).progress_map();
            assert(mid.progress_map().remove(id@) == before_map.remove(id@));
            assert(mid.progress_map().insert(id@, v) =~= mid.progress_map().remove(id@).insert(id@, v));
            assert(before_map.insert(id@, v) =~= before_map.remove(id@).insert(id@, v));
            assert forall|x: IdView| #[trigger]
                id_set(mid.completed@).contains(x) implies map_of(id_entries(u)).contains_key(x) by {
                assert(mid.completed_set().contains(x));
                assert(mid.progress_map().contains_key(x));
            }
        }
        r
    }

    pub fn grant_criterion(
        &mut self,
        advancement_id: &ResourceLocation,
        criterion: &str,
        requirements: &AdvancementRequirements,
    ) -> (r: bool)
        requires
            old(self).wf(),
        ensures
            final(self).wf(),
            r == !(old(self).progress_view_of(advancement_id@).contains_key(criterion@) && old(self).progress_view_of(advancement_id@)[criterion@] is Some),
            final(self).progress_map().contains_key(advancement_id@),
            final(self).progress_view_of(advancement_id@).contains_key(criterion@),
            final(self).progress_view_of(advancement_id@)[criterion@] is Some,
            final(self).progress_view_of(advancement_id@).remove(criterion@) == old(self).progress_view_of(advancement_id@).remove(criterion@),
            final(self).progress_map().remove(advancement_id@) == old(self).progress_map().remove(
                advancement_id@,
            ),
            !r ==> final(self).progress_map() == old(self).progress_map(),
            r ==> final(self).progress_map()[advancement_id@].done_flag() == all_groups_met(
                requirements@,
                obtained_names(final(self).progress_view_of(advancement_id@)),
            ),
            r ==> final(self).dirty_set() == old(self).dirty_set().insert(advancement_id@),
            !r ==> final(self).dirty_set() == old(self).dirty_set(),
            r && final(self).progress_map()[advancement_id@].done_flag() ==> final(self).completed_set() == old(self).completed_set().insert(advancement_id@),
            !(r && final(self).progress_map()[advancement_id@].done_flag()) ==> final(self).completed_set() == old(self).completed_set(),
            final(self).visible_set() == old(self).visible_set(),
            final(self).tab() == old(self).tab(),
            final(self).reset_flag() == old(self).reset_flag(),
    {
        let had = self.find(advancement_id).is_some();
        let k = self.entry_index(advancement_id);
        let ghost mid = *self;
        proof {
            lemma_map_of_index(self.progress_entries(), k as int);
            self.lemma_values_wf();
        }
        let mut p = self.take_out(k);
        let granted = p.grant_criterion(criterion);
        let mut is_done = false;
        if granted {
            p.update_done(requirements);
            is_done = p.is_done();
        }
        self.put_back(k, p);
        assert(self.progress_map() =~= mid.progress_map().insert(advancement_id@, p));
        if granted {
            self.note_dirty(advancement_id);
            if is_done {
                self.note_completed(advancement_id);
            }
        } else {
            assert(self.progress_map() =~= old(self).progress_map());
        }
        granted
    }

    pub fn revoke_criterion(
        &mut self,
        advancement_id: &ResourceLocation,
        criterion: &str,
        requirements: &AdvancementRequirements,
    ) -> (r: bool)
        requires
            old(self).wf(),
        ensures
            final(self).wf(),
            r == (old(self).progress_view_of(advancement_id@).contains_key(criterion@) && old(self).progress_view_of(advancement_id@)[criterion@] is Some),
            r ==> final(self).progress_view_of(advancement_id@) == old(self).progress_view_of(
                advancement_id@,
            ).insert(criterion@, None),
            r ==> final(self).progress_map()[advancement_id@].done_flag() == all_groups_met(
                requirements@,
                obtained_names(final(self).progress_view_of(advancement_id@)),
            ),
            r ==> final(self).progress_map().remove(advancement_id@) == old(self).progress_map().remove(advancement_id@),
            r ==> final(self).progress_map().contains_key(advancement_id@),
            r ==> final(self).dirty_set() == old(self).dirty_set().insert(advancement_id@),
            r ==> final(self).completed_set() == old(self).completed_set().remove(advancement_id@),
            !r ==> final(self).progress_map() == old(self).progress_map(),
            !r ==> final(self).dirty_set() == old(self).dirty_set(),
            !r ==> final(self).completed_set() == old(self).completed_set(),
            final(self).visible_set() == old(self).visible_set(),
            final(self).tab() == old(self).tab(),
            final(self).reset_flag() == old(self).reset_flag(),
    {
        match self.find(advancement_id) {
            Some(k) => {
                let ghost mid = *self;
                proof {
                    lemma_map_of_index(self.progress_entries(), k as int);
                    self.lemma_values_wf();
                }
                let mut p = self.take_out(k);
                if p.revoke_criterion(criterion) {
                    p.update_done(requirements);
                    self.put_back(k, p);
                    assert(self.progress_map() =~= mid.progress_map().insert(advancement_id@, p));
                    self.note_dirty(advancement_id);
                    self.drop_completed(advancement_id);
                    true
                } else {
                    self.put_back(k, p);
                    assert(self.progress_map() =~= mid.progress_map().insert(advancement_id@, p));
                    assert(self.progress_map() =~= old(self).progress_map());
                    false
                }
            },
            None => false,
        }
    }

    pub fn grant_advancement(
        &mut self,
        advancement_id: &ResourceLocation,
        requirements: &AdvancementRequirements,
    ) -> (r: bool)
        requires
            old(self).wf(),
        ensures
            final(self).wf(),
            r == exists|n: Seq<char>|
                names_contain(requirements@, n) && !#[trigger] obtained_names(
                    old(self).progress_view_of(advancement_id@),
                ).contains(n),
            final(self).progress_map().contains_key(advancement_id@),
            forall|n: Seq<char>| #[trigger]
                final(self).progress_view_of(advancement_id@).contains_key(n) <==> (old(self).progress_view_of(advancement_id@).contains_key(n) || names_contain(
                    requirements@,
                    n,
                )),
            forall|n: Seq<char>|
                names_contain(requirements@, n) ==> #[trigger] final(self).progress_view_of(
                    advancement_id@,
                )[n] is Some,
            forall|n: Seq<char>|
                #[trigger] obtained_names(old(self).progress_view_of(advancement_id@)).contains(n)
                    ==> final(self).progress_view_of(advancement_id@)[n] == old(self).progress_view_of(advancement_id@)[n],
            forall|n: Seq<char>|
                !names_contain(requirements@, n) && #[trigger] old(self).progress_view_of(
                    advancement_id@,
                ).contains_key(n) ==> final(self).progress_view_of(advancement_id@)[n] == old(self).progress_view_of(advancement_id@)[n],
            final(self).progress_map().remove(advancement_id@) == old(self).progress_map().remove(
                advancement_id@,
            ),
            r ==> final(self).progress_map()[advancement_id@].done_flag() == all_groups_met(
                requirements@,
                obtained_names(final(self).progress_view_of(advancement_id@)),
            ),
            r ==> final(self).dirty_set() == old(self).dirty_set().insert(advancement_id@),
            !r ==> final(self).dirty_set() == old(self).dirty_set(),
            r && final(self).progress_map()[advancement_id@].done_flag() ==> final(self).completed_set() == old(self).completed_set().insert(advancement_id@),
            !(r && final(self).progress_map()[advancement_id@].done_flag()) ==> final(self).completed_set() == old(self).completed_set(),
            !r && old(self).progress_map().contains_key(advancement_id@) ==> final(self).progress_map() == old(self).progress_map(),
            final(self).visible_set() == old(self).visible_set(),
            final(self).tab() == old(self).tab(),
            final(self).reset_flag() == old(self).reset_flag(),
    {
        let k = self.entry_index(advancement_id);
        let ghost mid = *self;
        proof {
            lemma_map_of_index(self.progress_entries(), k as int);
            self.lemma_values_wf();
        }
        let mut p = self.take_out(k);
        let ghost before = p@;
        let ghost orig = p;
        assert(before == old(self).progress_view_of(advancement_id@));
        let names = requirements.get_names();
        let mut changed = false;
        let mut i: usize = 0;
        while i < names.len()
            invariant
                0 <= i <= names@.len(),
                p.wf(),
                !changed ==> p == orig,
                p.done_flag() == mid.progress_map()[advancement_id@].done_flag(),
                forall|n: Seq<char>| #[trigger]
                    names.deep_view().contains(n) <==> names_contain(requirements@, n),
                forall|n: Seq<char>| #[trigger]
                    p@.contains_key(n) <==> (before.contains_key(n) || names.deep_view().take(
                        i as int,
                    ).contains(n)),
                forall|n: Seq<char>|
                    #[trigger] names.deep_view().take(i as int).contains(n) ==> p@[n] is Some,
                forall|n: Seq<char>|
                    #[trigger] obtained_names(before).contains(n) ==> p@[n] == before[n],
                forall|n: Seq<char>|
                    !names.deep_view().take(i as int).contains(n) && #[trigger] before.contains_key(
                        n,
                    ) ==> p@[n] == before[n],
                changed == exists|n: Seq<char>|
                    #[trigger] names.deep_view().take(i as int).contains(n) && !obtained_names(
                        before,
                    ).contains(n),
            decreases names@.len() - i,
        {
            let ghost nm = names.deep_view()[i as int];
            let ghost t1 = names.deep_view().take(i as int + 1);
            let ghost t0 = names.deep_view().take(i as int);
            let ghost prev = p@;
            assert forall|n: Seq<char>| #[trigger] t1.contains(n) <==> (t0.contains(n) || n == nm) by {
                if t1.contains(n) {
                    let j = choose|j: int| 0 <= j < t1.len() && #[trigger] t1[j] == n;
                    if j < i {
                        assert(t0[j] == n);
                    }
                }
                if t0.contains(n) {
                    let j = choose|j: int| 0 <= j < t0.len() && #[trigger] t0[j] == n;
                    assert(t1[j] == n);
                }
                if n == nm {
                    assert(t1[i as int] == n);
                }
            }
            assert(names[i as int]@ == nm);
            let g = p.grant_criterion(names[i].as_str());
            assert(g ==> !obtained_names(before).contains(nm)) by {
                if g && obtained_names(before).contains(nm) {
                    assert(prev[nm] == before[nm]);
                }
            }
            assert(!g ==> (t0.contains(nm) || obtained_names(before).contains(nm))) by {
                if !g && !t0.contains(nm) && !obtained_names(before).contains(nm) {
                    if before.contains_key(nm) {
                        assert(prev[nm] == before[nm]);
                    }
                }
            }
            if g {
                changed = true;
            }
            assert forall|n: Seq<char>| #[trigger] p@.contains_key(n) <==> (before.contains_key(n)
                || t1.contains(n)) by {
                if n != nm {
                    assert(p@.remove(nm).contains_key(n) == prev.remove(nm).contains_key(n));
                }
            }
            assert forall|n: Seq<char>| #[trigger] t1.contains(n) implies p@[n] is Some by {
                if n != nm {
                    assert(p@.remove(nm)[n] == prev.remove(nm)[n]);
                }
            }
            assert forall|n: Seq<char>| #[trigger] obtained_names(before).contains(n) implies p@[n]
                == before[n] by {
                if n != nm {
                    assert(p@.remove(nm)[n] == prev.remove(nm)[n]);
                } else {
                    assert(prev[n] == before[n]);
                }
            }
            assert forall|n: Seq<char>|
                !t1.contains(n) && #[trigger] before.contains_key(n) implies p@[n] == before[n] by {
                assert(n != nm);
                assert(p@.remove(nm)[n] == prev.remove(nm)[n]);
            }
            assert(changed == exists|n: Seq<char>|
                #[trigger] t1.contains(n) && !obtained_names(before).contains(n)) by {
                if changed && !g {
                    let n = choose|n: Seq<char>|
                        #[trigger] t0.contains(n) && !obtained_names(before).contains(n);
                    assert(t1.contains(n));
                }
                if g {
                    assert(t1.contains(nm) && !obtained_names(before).contains(nm));
                }
                if exists|n: Seq<char>| #[trigger] t1.contains(n) && !obtained_names(before).contains(n) {
                    let n = choose|n: Seq<char>|
                        #[trigger] t1.contains(n) && !obtained_names(before).contains(n);
                    if n != nm {
                        assert(t0.contains(n));
                    }
                }
            }
            i += 1;
        }
        assert(names.deep_view().take(names@.len() as int) =~= names.deep_view());
        let mut is_done = false;
        if changed {
            p.update_done(requirements);
            is_done = p.is_done();
        }
        self.put_back(k, p);
        assert(self.progress_map() =~= mid.progress_map().insert(advancement_id@, p));
        assert(self.progress_view_of(advancement_id@) == p@);
        if changed {
            self.note_dirty(advancement_id);
            if is_done {
                self.note_completed(advancement_id);
            }
        } else {
            proof {
                if old(self).progress_map().contains_key(advancement_id@) {
                    assert(self.progress_map() =~= old(self).progress_map());
                }
            }
        }
        assert forall|n: Seq<char>|
            names_contain(requirements@, n) implies #[trigger] self.progress_view_of(
                advancement_id@,
            )[n] is Some by {
            assert(names.deep_view().contains(n));
            assert(names.deep_view().take(names@.len() as int).contains(n));
        }
        changed
    }

    pub fn revoke_advancement(&mut self, advancement_id: &ResourceLocation) -> (r: bool)
        requires
            old(self).wf(),
        ensures
            final(self).wf(),
            r == old(self).progress_map().contains_key(advancement_id@),
            !final(self).progress_map().contains_key(advancement_id@),
            !final(self).completed_set().contains(advancement_id@),
            r ==> final(self).progress_map() == old(self).progress_map().remove(advancement_id@),
            r ==> final(self).completed_set() == old(self).completed_set().remove(advancement_id@),
            r ==> final(self).dirty_set() == old(self).dirty_set().insert(advancement_id@),
            !r ==> final(self).progress_map() == old(self).progress_map(),
            !r ==> final(self).completed_set() == old(self).completed_set(),
            !r ==> final(self).dirty_set() == old(self).dirty_set(),
            final(self).visible_set() == old(self).visible_set(),
            final(self).tab() == old(self).tab(),
            final(self).reset_flag() == old(self).reset_flag(),
    {
        match self.find(advancement_id) {
            Some(k) => {
                let ghost e = self.progress_entries();
                proof {
                    lemma_map_of_index(e, k as int);
                }
                let _removed = self.progress.remove(k);
                assert(self.progress_entries() =~= e.remove(k as int));
                proof {
                    lemma_map_of_remove(e, k as int);
                }
                assert forall|i: int|
                    0 <= i < self.progress@.len() implies (#[trigger] self.progress@[i]).1.wf() by {
                    let i2 = if i < k { i } else { i + 1 };
                    assert(self.progress@[i] == old(self).progress@[i2]);
                }
                remove_id(&mut self.completed, advancement_id);
                insert_id(&mut self.dirty, advancement_id);
                assert forall|x: IdView| #[trigger]
                    self.completed_set().contains(x) implies self.progress_map().contains_key(x) by {
                    assert(old(self).completed_set().contains(x));
                    assert(old(self).progress_map().contains_key(x));
                }
                true
            },
            None => {
                assert(!old(self).progress_map().contains_key(advancement_id@));
                assert(!old(self).completed_set().contains(advancement_id@));
                false
            },
        }
    }

    #[must_use]
    pub fn is_completed(&self, id: &ResourceLocation) -> (r: bool)
        ensures
            r == self.completed_set().contains(id@),
    {
        contains_id(&self.completed, id)
    }

    #[must_use]
    pub fn completed_advancements(&self) -> (r: &Vec<ResourceLocation>)
        requires
            self.wf(),
        ensures
            id_set(r@) == self.completed_set(),
            distinct_ids(r@),
    {
        &self.completed
    }

    pub fn set_current_tab(&mut self, tab: Option<ResourceLocation>)
        requires
            old(self).wf(),
        ensures
            final(self).wf(),
            final(self).tab() == match tab {
                Some(t) => Some(t@),
                None => None::<IdView>,
            },
            final(self).progress_map() == old(self).progress_map(),
            final(self).completed_set() == old(self).completed_set(),
            final(self).dirty_set() == old(self).dirty_set(),
            final(self).visible_set() == old(self).visible_set(),
            final(self).reset_flag() == old(self).reset_flag(),
    {
        self.current_tab = tab;
        proof {
            Self::lemma_wf_frame(old(self), self);
        }
    }

    #[must_use]
    pub fn current_tab(&self) -> (r: Option<&ResourceLocation>)
        ensures
            r is None <==> self.tab() is None,
            r matches Some(t) ==> self.tab() == Some(t@),
    {
        match &self.current_tab {
            Some(t) => Some(t),
            None => None,
        }
    }

    pub fn mark_needs_reset(&mut self)
        requires
            old(self).wf(),
        ensures
            final(self).wf(),
            final(self).reset_flag(),
            final(self).progress_map() == old(self).progress_map(),
            final(self).completed_set() == old(self).completed_set(),
            final(self).dirty_set() == old(self).dirty_set(),
            final(self).visible_set() == old(self).visible_set(),
            final(self).tab() == old(self).tab(),
    {
        self.needs_reset = true;
        proof {
            Self::lemma_wf_frame(old(self), self);
        }
    }

    pub fn clear_dirty(&mut self)
        requires
            old(self).wf(),
        ensures
            final(self).wf(),
            !final(self).reset_flag(),
            final(self).dirty_set() == Set::<IdView>::empty(),
            final(self).progress_map() == old(self).progress_map(),
            final(self).completed_set() == old(self).completed_set(),
            final(self).visible_set() == old(self).visible_set(),
            final(self).tab() == old(self).tab(),
    {
        self.dirty = Vec::new();
        self.needs_reset = false;
        assert(self.dirty_set() =~= Set::<IdView>::empty());
        proof {
            Self::lemma_wf_frame(old(self), self);
        }
    }

    #[must_use]
    pub fn has_pending_updates(&self) -> (r: bool)
        ensures
            r == (self.reset_flag() || !self.dirty_set().is_empty()),
    {
        let r = self.needs_reset || self.dirty.len() != 0;
        proof {
            if self.dirty@.len() != 0 {
                assert(self.dirty_set().contains(self.dirty@[0]@));
            } else {
                assert(self.dirty_set() =~= Set::<IdView>::empty());
            }
        }
        r
    }

    #[must_use]
    pub fn dirty_advancements(&self) -> (r: &Vec<ResourceLocation>)
        requires
            self.wf(),
        ensures
            id_set(r@) == self.dirty_set(),
            distinct_ids(r@),
    {
        &self.dirty
    }

    #[must_use]
    pub fn needs_reset(&self) -> (r: bool)
        ensures
            r == self.reset_flag(),
    {
        self.needs_reset
    }

    pub fn mark_visible(&mut self, id: ResourceLocation)
        requires
            old(self).wf(),
        ensures
            final(self).wf(),
            final(self).visible_set() == old(self).visible_set().insert(id@),
            final(self).progress_map() == old(self).progress_map(),
            final(self).completed_set() == old(self).completed_set(),
            final(self).dirty_set() == old(self).dirty_set(),
            final(self).tab() == old(self).tab(),
            final(self).reset_flag() == old(self).reset_flag(),
    {
        insert_id(&mut self.visible, &id);
        proof {
            Self::lemma_wf_frame(old(self), self);
        }
    }

    #[must_use]
    pub fn visible_advancements(&self) -> (r: &Vec<ResourceLocation>)
        requires
            self.wf(),
        ensures
            id_set(r@) == self.visible_set(),
            distinct_ids(r@),
    {
        &self.visible
    }

    /// Replaces all progress with loaded data and marks the advancements it shows done as
    /// completed.
    pub fn load_progress(&mut self, data: Vec<(ResourceLocation, AdvancementProgress)>)
        requires
            old(self).wf(),
            unique_keys(id_entries(data@)),
            forall|i: int| 0 <= i < data@.len() ==> (#[trigger] data@[i]).1.wf(),
        ensures
            final(self).wf(),
            final(self).progress_map() == map_of(
                id_entries(data@),
            ),
            forall|x: IdView| #[trigger]
                final(self).completed_set().contains(x) <==> (final(self).progress_map().contains_key(x) && final(self).progress_map()[x].done_flag()),
            final(self).reset_flag(),
            final(self).dirty_set() == old(self).dirty_set(),
            final(self).visible_set() == old(self).visible_set(),
            final(self).tab() == old(self).tab(),
    {
        let ghost d = data@;
        self.progress = data;
        self.completed = Vec::new();
        let ghost e = self.progress_entries();
        assert(e =~= id_entries(data@));
        let mut i: usize = 0;
        while i < self.progress.len()
            invariant
                0 <= i <= self.progress@.len(),
                e == self.progress_entries(),
                self.progress@ == d,
                forall|j: int| 0 <= j < d.len() ==> (#[trigger] d[j]).1.wf(),
                self.dirty == old(self).dirty,
                self.visible == old(self).visible,
                self.current_tab == old(self).current_tab,
                distinct_ids(self.dirty@),
                distinct_ids(self.visible@),
                unique_keys(e),
                distinct_ids(self.completed@),
                forall|x: IdView| #[trigger]
                    id_set(self.completed@).contains(x) <==> exists|k: int|
                        0 <= k < i && (#[trigger] e[k]).0 == x && e[k].1.done_flag(),
            decreases self.progress@.len() - i,
        {
            if self.progress[i].1.is_done() {
                let ghost before = self.completed@;
                let id = self.progress[i].0.clone();
                insert_id(&mut self.completed, &id);
                assert forall|x: IdView| #[trigger]
                    id_set(self.completed@).contains(x) <==> exists|k: int|
                        0 <= k < i + 1 && (#[trigger] e[k]).0 == x && e[k].1.done_flag() by {
                    if x == e[i as int].0 {
                        assert(e[i as int].1.done_flag());
                    }
                    if exists|k: int| 0 <= k < i + 1 && (#[trigger] e[k]).0 == x && e[k].1.done_flag() {
                        let k = choose|k: int|
                            0 <= k < i + 1 && (#[trigger] e[k]).0 == x && e[k].1.done_flag();
                        if k < i {
                            assert(id_set(before).contains(x));
                        }
                    }
                }
            } else {
                assert forall|x: IdView| #[trigger]
                    id_set(self.completed@).contains(x) <==> exists|k: int|
                        0 <= k < i + 1 && (#[trigger] e[k]).0 == x && e[k].1.done_flag() by {
                    if exists|k: int| 0 <= k < i + 1 && (#[trigger] e[k]).0 == x && e[k].1.done_flag() {
                        let k = choose|k: int|
                            0 <= k < i + 1 && (#[trigger] e[k]).0 == x && e[k].1.done_flag();
                        assert(k != i);
                    }
                }
            }
            i += 1;
        }
        assert forall|x: IdView| #[trigger]
            self.completed_set().contains(x) <==> (self.progress_map().contains_key(x)
                && self.progress_map()[x].done_flag()) by {
            if self.completed_set().contains(x) {
                let k = choose|k: int| 0 <= k < e.len() && (#[trigger] e[k]).0 == x && e[k].1.done_flag();
                lemma_map_of_index(e, k);
            }
            if self.progress_map().contains_key(x) {
                let k = index_of_key(e, x);
                assert(has_key(e, x));
                lemma_map_of_index(e, k);
            }
        }
        self.needs_reset = true;
    }

    #[must_use]
    pub fn save_progress(&self) -> (r: &Vec<(ResourceLocation, AdvancementProgress)>)
        requires
            self.wf(),
        ensures
            map_of(id_entries(r@)) == self.progress_map(),
            unique_keys(id_entries(r@)),
            forall|i: int| 0 <= i < r@.len() ==> (#[trigger] r@[i]).1.wf(),
    {
        &self.progress
    }

    /// The progress of every advancement the player has touched, as protocol entries, in
    /// storage order.
    #[must_use]
    pub fn to_progress_mappings(&self) -> (r: Vec<AdvancementProgressMapping>)
        requires
            self.wf(),
        ensures
            r@.len() == self.progress_entries().len(),
            forall|i: int|
                0 <= i < r@.len() ==> (#[trigger] r@[i]).id@ == self.progress_entries()[i].0
                    && packet_matches_progress(r@[i].progress, self.progress_entries()[i].1),
            distinct_ids(mapping_ids(r@)),
    {
        let mut r: Vec<AdvancementProgressMapping> = Vec::new();
        let mut i: usize = 0;
        while i < self.progress.len()
            invariant
                0 <= i <= self.progress@.len(),
                r@.len() == i,
                forall|k: int|
                    0 <= k < i ==> (#[trigger] r@[k]).id@ == self.progress_entries()[k].0
                        && packet_matches_progress(r@[k].progress, self.progress_entries()[k].1),
            decreases self.progress@.len() - i,
        {
            let packet = progress_packet(&self.progress[i].1);
            r.push(AdvancementProgressMapping::new(self.progress[i].0.clone(), packet));
            i += 1;
        }
        proof {
            assert forall|a: int, b: int|
                0 <= a < mapping_ids(r@).len() && 0 <= b < mapping_ids(r@).len() && a != b implies (
                #[trigger] mapping_ids(r@)[a])@ != (#[trigger] mapping_ids(r@)[b])@ by {
                assert(self.progress_entries()[a].0 != self.progress_entries()[b].0);
            }
        }
        r
    }

    /// The progress of each advancement changed since the last update, as protocol entries,
    /// in the order the changes were recorded; advancements whose progress was removed are
    /// left out.
    #[must_use]
    pub fn dirty_progress_mappings(&self) -> (r: Vec<AdvancementProgressMapping>)
        requires
            self.wf(),
        ensures
            forall|i: int|
                0 <= i < r@.len() ==> self.dirty_set().contains((#[trigger] r@[i]).id@)
                    && self.progress_map().contains_key(r@[i].id@) && packet_matches_progress(
                    r@[i].progress,
                    self.progress_map()[r@[i].id@],
                ),
            forall|x: IdView|
                self.dirty_set().contains(x) && self.progress_map().contains_key(x) ==> exists|
                    i: int,
                | 0 <= i < r@.len() && (#[trigger] r@[i]).id@ == x,
            distinct_ids(mapping_ids(r@)),
    {
        let mut r: Vec<AdvancementProgressMapping> = Vec::new();
        let mut i: usize = 0;
        while i < self.dirty.len()
            invariant
                0 <= i <= self.dirty@.len(),
                self.wf(),
                forall|k: int|
                    0 <= k < r@.len() ==> (exists|j: int|
                        0 <= j < i && (#[trigger] self.dirty@[j])@ == (#[trigger] r@[k]).id@)
                        && self.progress_map().contains_key(r@[k].id@) && packet_matches_progress(
                        r@[k].progress,
                        self.progress_map()[r@[k].id@],
                    ),
                forall|j: int|
                    0 <= j < i && self.progress_map().contains_key(
                        (#[trigger] self.dirty@[j])@,
                    ) ==> exists|k: int| 0 <= k < r@.len() && (#[trigger] r@[k]).id@ == self.dirty@[j]@,
                distinct_ids(mapping_ids(r@)),
            decreases self.dirty@.len() - i,
        {
            let id = &self.dirty[i];
            if let Some(k) = self.find(id) {
                proof {
                    lemma_map_of_index(self.progress_entries(), k as int);
                }
                let packet = progress_packet(&self.progress[k].1);
                let ghost before = r@;
                r.push(AdvancementProgressMapping::new(id.clone(), packet));
                assert forall|a: int, b: int|
                    0 <= a < r@.len() && 0 <= b < r@.len() && a != b implies (
                    #[trigger] mapping_ids(r@)[a])@ != (
                    #[trigger] mapping_ids(r@)[b])@ by {
                    if a < before.len() && b < before.len() {
                        assert(r@[a] == before[a] && r@[b] == before[b]);
                        assert(mapping_ids(before)[a]
                            == mapping_ids(r@)[a]);
                        assert(mapping_ids(before)[b]
                            == mapping_ids(r@)[b]);
                    } else {
                        let old_one = if a < before.len() { a } else { b };
                        assert(r@[old_one] == before[old_one]);
                        let j = choose|j: int|
                            0 <= j < i && (#[trigger] self.dirty@[j])@ == (#[trigger] before[old_one]).id@;
                        assert(self.dirty@[j]@ != self.dirty@[i as int]@);
                    }
                }
                assert forall|kk: int| 0 <= kk < r@.len() implies (exists|j: int|
                    0 <= j < i + 1 && (#[trigger] self.dirty@[j])@ == (#[trigger] r@[kk]).id@)
                    && self.progress_map().contains_key(r@[kk].id@) && packet_matches_progress(
                    r@[kk].progress,
                    self.progress_map()[r@[kk].id@],
                ) by {
                    if kk < before.len() {
                        assert(r@[kk] == before[kk]);
                    } else {
                        assert(self.dirty@[i as int]@ == r@[kk].id@);
                    }
                }
                assert forall|j: int|
                    0 <= j < i + 1 && self.progress_map().contains_key(
                        (#[trigger] self.dirty@[j])@,
                    ) implies exists|kk: int| 0 <= kk < r@.len() && (#[trigger] r@[kk]).id@ == self.dirty@[j]@ by {
                    if j < i {
                        let kk = choose|kk: int|
                            0 <= kk < before.len() && (#[trigger] before[kk]).id@ == self.dirty@[j]@;
                        assert(r@[kk] == before[kk]);
                    } else {
                        assert(r@[before.len() as int].id@ == self.dirty@[j]@);
                    }
                }
            } else {
                assert(!self.progress_map().contains_key(self.dirty@[i as int]@));
            }
            i += 1;
        }
        assert forall|x: IdView|
            self.dirty_set().contains(x) && self.progress_map().contains_key(x) implies exists|
                i: int,
            | 0 <= i < r@.len() && (#[trigger] r@[i]).id@ == x by {
            let j = choose|j: int| 0 <= j < self.dirty@.len() && (#[trigger] self.dirty@[j])@ == x;
        }
        assert forall|kk: int| 0 <= kk < r@.len() implies self.dirty_set().contains(
            (#[trigger] r@[kk]).id@,
        ) by {
            let j = choose|j: int|
                0 <= j < self.dirty@.len() && (#[trigger] self.dirty@[j])@ == (#[trigger] r@[kk]).id@;
        }
        r
    }
}

/// The protocol entries of one advancement's progress, criterion by criterion.
fn progress_packet(progress: &AdvancementProgress) -> (r: ProgressPacket)
    ensures
        packet_matches_progress(r, *progress),
{
    let criteria = progress.criteria();
    let mut entries: Vec<CriterionProgressEntry> = Vec::new();
    let mut j: usize = 0;
    while j < criteria.len()
        invariant
            0 <= j <= criteria@.len(),
            criteria@.len() == progress.entries().len(),
            forall|i: int|
                0 <= i < criteria@.len() ==> #[trigger] progress.entries()[i] == (
                    criteria@[i].0@,
                    criteria@[i].1.obtained_time,
                ),
            entries@.len() == j,
            forall|i: int|
                0 <= i < j ==> ((#[trigger] entries@[i]).criterion@, entries@[i].progress)
                    == progress.entries()[i],
        decreases criteria@.len() - j,
    {
        entries.push(
            CriterionProgressEntry {
                criterion: criteria[j].0.clone(),
                progress: criteria[j].1.obtained_time,
            },
        );
        j += 1;
    }
    ProgressPacket::with_criteria(entries)
}

} // verus!
