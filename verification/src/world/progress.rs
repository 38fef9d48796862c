use vstd::prelude::*;

use crate::clock::current_time_millis;
use crate::keyed::{has_key, index_of_key, lemma_map_of_index, lemma_map_of_push, lemma_map_of_update, map_of, unique_keys};
use crate::names::{contains_name, owned};
use crate::world::requirements::{met_group_count, all_groups_met, names_contain, AdvancementRequirements};

verus! {

/// The criteria of a progress map that are obtained.
pub open spec fn obtained_names(m: Map<Seq<char>, Option<i64>>) -> Set<Seq<char>> {
    Set::new(|n: Seq<char>| m.contains_key(n) && m[n] is Some)
}

/// Whether `after` is what granting the criterion `c` leaves of `before`: `c` is obtained and
/// every other criterion is as it was.
pub open spec fn granted_from(before: Map<Seq<char>, Option<i64>>, after: Map<Seq<char>, Option<i64>>, c: Seq<char>) -> bool {
    &&& after.contains_key(c)
    &&& after[c] is Some
    &&& after.remove(c) == before.remove(c)
}

/// A granted criterion is obtained, and granting takes no other criterion away.
pub proof fn lemma_grant_obtains(before: Map<Seq<char>, Option<i64>>, after: Map<Seq<char>, Option<i64>>, c: Seq<char>)
    requires
        granted_from(before, after, c),
    ensures
        obtained_names(after) == obtained_names(before).insert(c),
{
    assert forall|n: Seq<char>| #[trigger] obtained_names(after).contains(n) <==> obtained_names(
        before,
    ).insert(c).contains(n) by {
        if n != c {
            assert(after.remove(c).contains_key(n) == before.remove(c).contains_key(n));
            if after.contains_key(n) {
                assert(after.remove(c)[n] == after[n]);
            }
            if before.contains_key(n) {
                assert(before.remove(c)[n] == before[n]);
            }
        }
    }
    assert(obtained_names(after) =~= obtained_names(before).insert(c));
}

/// Granting a criterion never undoes met requirements.
pub proof fn lemma_grant_keeps_done(
    groups: Seq<Seq<Seq<char>>>,
    before: Map<Seq<char>, Option<i64>>,
    after: Map<Seq<char>, Option<i64>>,
    c: Seq<char>,
)
    requires
        granted_from(before, after, c),
        all_groups_met(groups, obtained_names(before)),
    ensures
        all_groups_met(groups, obtained_names(after)),
{
    lemma_grant_obtains(before, after, c);
    crate::world::requirements::lemma_met_monotone(groups, obtained_names(before), obtained_names(after));
}

/// Revoking a criterion just granted leaves the other obtained criteria, and `c` tracked but
/// not obtained.
pub proof fn lemma_grant_then_revoke(
    before: Map<Seq<char>, Option<i64>>,
    granted: Map<Seq<char>, Option<i64>>,
    revoked: Map<Seq<char>, Option<i64>>,
    c: Seq<char>,
)
    requires
        granted_from(before, granted, c),
        revoked == granted.insert(c, None),
    ensures
        obtained_names(revoked) == obtained_names(before).remove(c),
        revoked.dom() == before.dom().insert(c),
        revoked.remove(c) == before.remove(c),
{
    lemma_grant_obtains(before, granted, c);
    assert forall|n: Seq<char>| #[trigger] obtained_names(revoked).contains(n) <==> obtained_names(
        before,
    ).remove(c).contains(n) by {
        if n != c {
            assert(obtained_names(granted).contains(n) == obtained_names(before).contains(n));
        }
    }
    assert(obtained_names(revoked) =~= obtained_names(before).remove(c));
    assert forall|n: Seq<char>| #[trigger] revoked.dom().contains(n) <==> before.dom().insert(c).contains(n) by {
        if n != c {
            assert(granted.remove(c).contains_key(n) == before.remove(c).contains_key(n));
        }
    }
    assert(revoked.dom() =~= before.dom().insert(c));
    assert(revoked.remove(c) =~= granted.remove(c));
}

/// Tracks the progress of a single criterion.
#[derive(Debug, Clone, Copy, PartialEq, Eq)]
pub struct CriterionProgress {
    /// The time when this criterion was obtained (Unix timestamp in milliseconds).
    /// `None` if not yet obtained.
    pub obtained_time: Option<i64>,
}

impl Default for CriterionProgress {
    fn default() -> (r: Self)
        ensures
            r.obtained_time is None,
    {
        Self::new()
    }
}

impl CriterionProgress {
    /// Creates a new criterion progress that is not yet obtained.
    pub fn new() -> (r: Self)
        ensures
            r.obtained_time is None,
    {
        Self { obtained_time: None }
    }

    /// Returns whether this criterion is obtained.
    pub fn is_obtained(&self) -> (r: bool)
        ensures
            r == self.obtained_time is Some,
    {
        self.obtained_time.is_some()
    }

    /// Marks this criterion as obtained at the current time.
    /// A criterion that is already obtained keeps its time.
    pub fn obtain(&mut self)
        ensures
            final(self).obtained_time is Some,
            old(self).obtained_time is Some ==> *final(self) == *old(self),
    {
        if self.obtained_time.is_none() {
            self.obtained_time = Some(current_time_millis());
        }
    }

    /// Marks this criterion as obtained at a specific time.
    pub fn obtain_at(&mut self, time: i64)
        ensures
            final(self).obtained_time == Some(time),
    {
        self.obtained_time = Some(time);
    }

    /// Resets this criterion to not obtained.
    pub fn reset(&mut self)
        ensures
            final(self).obtained_time is None,
    {
        self.obtained_time = None;
    }
}

/// Tracks the progress of a single advancement for a player.
///
/// Each criterion name occurs at most once among the criteria (see `wf`).
#[derive(Debug)]
pub struct AdvancementProgress {
    /// Progress for each criterion, as pairs of criterion name and progress.
    criteria: Vec<(String, CriterionProgress)>,
    /// Whether this advancement is done (all requirements met).
    done: bool,
}

impl View for AdvancementProgress {
    type V = Map<Seq<char>, Option<i64>>;

    /// The obtained time (or none) of each tracked criterion, by name.
    open spec fn view(&self) -> Map<Seq<char>, Option<i64>> {
        map_of(self.entries())
    }
}

impl Default for AdvancementProgress {
    fn default() -> (r: Self)
        ensures
            r.wf(),
            r@ == Map::<Seq<char>, Option<i64>>::empty(),
            !r.done_flag(),
    {
        Self::new()
    }
}

impl AdvancementProgress {
    /// The tracked criteria as name/time pairs, in storage order.
    pub closed spec fn entries(&self) -> Seq<(Seq<char>, Option<i64>)> {
        Seq::new(
            self.criteria@.len(),
            |i: int| (self.criteria@[i].0@, self.criteria@[i].1.obtained_time),
        )
    }

    /// No criterion name is tracked twice.
    pub open spec fn wf(&self) -> bool {
        unique_keys(self.entries())
    }

    /// The stored completion flag.
    pub closed spec fn done_flag(&self) -> bool {
        self.done
    }

    /// Creates a new empty progress tracker.
    pub fn new() -> (r: Self)
        ensures
            r.wf(),
            r@ == Map::<Seq<char>, Option<i64>>::empty(),
            !r.done_flag(),
    {
        let r = Self { criteria: Vec::new(), done: false };
        assert(r@ =~= Map::<Seq<char>, Option<i64>>::empty());
        r
    }

    /// Creates a progress tracker from stored criteria and completion flag.
    pub fn from_parts(criteria: Vec<(String, CriterionProgress)>, done: bool) -> (r: Self)
        ensures
            r.entries().len() == criteria@.len(),
            forall|i: int|
                0 <= i < criteria@.len() ==> #[trigger] r.entries()[i] == (
                    criteria@[i].0@,
                    criteria@[i].1.obtained_time,
                ),
            r.done_flag() == done,
    {
        Self { criteria, done }
    }

    /// The stored criteria, as pairs of criterion name and progress.
    pub fn criteria(&self) -> (r: &Vec<(String, CriterionProgress)>)
        ensures
            r@.len() == self.entries().len(),
            forall|i: int|
                0 <= i < r@.len() ==> #[trigger] self.entries()[i] == (
                    r@[i].0@,
                    r@[i].1.obtained_time,
                ),
    {
        &self.criteria
    }

    /// Finds the position of a criterion by name.
    fn find(&self, name: &String) -> (r: Option<usize>)
        ensures
            match r {
                Some(k) => k < self.entries().len() && self.entries()[k as int].0 == name@,
                None => !has_key(self.entries(), name@),
            },
    {
        let mut i: usize = 0;
        while i < self.criteria.len()
            invariant
                0 <= i <= self.criteria@.len(),
                forall|k: int| 0 <= k < i ==> (#[trigger] self.entries()[k]).0 != name@,
            decreases self.criteria@.len() - i,
        {
            if self.criteria[i].0 == *name {
                return Some(i);
            }
            i += 1;
        }
        None
    }

    /// Initializes progress with the given requirements.
    /// Sets up criterion entries for all required criteria.
    pub fn init(&mut self, requirements: &AdvancementRequirements)
        requires
            old(self).wf(),
        ensures
            final(self).wf(),
            forall|n: Seq<char>| #[trigger]
                final(self)@.contains_key(n) <==> (old(self)@.contains_key(n) || names_contain(
                    requirements@,
                    n,
                )),
            forall|n: Seq<char>| #[trigger]
                old(self)@.contains_key(n) ==> final(self)@[n] == old(self)@[n],
            forall|n: Seq<char>|
                !old(self)@.contains_key(n) && #[trigger] final(self)@.contains_key(n)
                    ==> final(self)@[n] is None,
            final(self).done_flag() == all_groups_met(requirements@, obtained_names(final(self)@)),
    {
        let names = requirements.get_names();
        let mut i: usize = 0;
        while i < names.len()
            invariant
                0 <= i <= names@.len(),
                self.wf(),
                names.deep_view().no_duplicates(),
                forall|n: Seq<char>| #[trigger]
                    names.deep_view().contains(n) <==> names_contain(requirements@, n),
                forall|n: Seq<char>| #[trigger]
                    self@.contains_key(n) <==> (old(self)@.contains_key(n)
                        || names.deep_view().take(i as int).contains(n)),
                forall|n: Seq<char>| #[trigger]
                    old(self)@.contains_key(n) ==> self@[n] == old(self)@[n],
                forall|n: Seq<char>|
                    !old(self)@.contains_key(n) && #[trigger] self@.contains_key(n) ==> self@[n] is None,
            decreases names@.len() - i,
        {
            let ghost nm = names.deep_view()[i as int];
            let ghost before = self@;
            let name = &names[i];
            let ghost e = self.entries();
            match self.find(name) {
                Some(k) => {
                    proof {
                        lemma_map_of_index(e, k as int);
                    }
                    assert(self@.contains_key(nm));
                },
                None => {
                    self.criteria.push((name.clone(), CriterionProgress::new()));
                    assert(self.entries() =~= e.push((nm, None)));
                    proof {
                        lemma_map_of_push(e, (nm, None));
                    }
                    assert(!before.contains_key(nm));
                    assert(self@ == before.insert(nm, None));
                },
            }
            assert forall|n: Seq<char>|
                names.deep_view().take(i as int + 1).contains(n) <==> (names.deep_view().take(
                    i as int,
                ).contains(n) || n == nm) by {
                let t1 = names.deep_view().take(i as int + 1);
                let t0 = names.deep_view().take(i as int);
                if t1.contains(n) {
                    let k = choose|k: int| 0 <= k < t1.len() && #[trigger] t1[k] == n;
                    if k < i {
                        assert(t0[k] == n);
                    }
                }
                if t0.contains(n) {
                    let k = choose|k: int| 0 <= k < t0.len() && #[trigger] t0[k] == n;
                    assert(t1[k] == n);
                }
                if n == nm {
                    assert(t1[i as int] == n);
                }
            }
            assert forall|n: Seq<char>| #[trigger]
                self@.contains_key(n) <==> (old(self)@.contains_key(n)
                    || names.deep_view().take(i as int + 1).contains(n)) by {
                if n != nm {
                    assert(self@.contains_key(n) == before.contains_key(n));
                }
            }
            assert forall|n: Seq<char>| #[trigger]
                old(self)@.contains_key(n) implies self@[n] == old(self)@[n] by {
                assert(before.contains_key(n));
                assert(before[n] == old(self)@[n]);
            }
            i += 1;
        }
        assert(names.deep_view().take(names@.len() as int) =~= names.deep_view());
        let ghost filled = self@;
        self.update_done(requirements);
        assert(self@ == filled);
    }

    /// Grants a criterion, marking it as obtained.
    /// Returns `true` if the criterion was newly granted.
    pub fn grant_criterion(&mut self, criterion: &str) -> (r: bool)
        requires
            old(self).wf(),
        ensures
            final(self).wf(),
            r == !(old(self)@.contains_key(criterion@) && old(self)@[criterion@] is Some),
            final(self)@.contains_key(criterion@),
            final(self)@[criterion@] is Some,
            !r ==> *final(self) == *old(self),
            final(self)@.remove(criterion@) == old(self)@.remove(criterion@),
            final(self).done_flag() == old(self).done_flag(),
    {
        let name = owned(criterion);
        match self.find(&name) {
            Some(k) => {
                let ghost e = self.entries();
                proof {
                    lemma_map_of_index(e, k as int);
                }
                if !self.criteria[k].1.is_obtained() {
                    let mut progress = self.criteria[k].1;
                    progress.obtain();
                    let key = self.criteria[k].0.clone();
                    self.criteria.set(k, (key, progress));
                    assert(self.entries() =~= e.update(
                        k as int,
                        (e[k as int].0, progress.obtained_time),
                    ));
                    proof {
                        lemma_map_of_update(e, k as int, progress.obtained_time);
                    }
                    assert(self@.remove(criterion@) =~= old(self)@.remove(criterion@));
                    return true;
                }
            },
            None => {
                let mut progress = CriterionProgress::new();
                progress.obtain();
                let ghost e = self.entries();
                self.criteria.push((name, progress));
                assert(self.entries() =~= e.push((criterion@, progress.obtained_time)));
                proof {
                    lemma_map_of_push(e, (criterion@, progress.obtained_time));
                }
                assert(self@.remove(criterion@) =~= old(self)@.remove(criterion@));
                return true;
            },
        }
        false
    }

    /// Revokes a criterion, marking it as not obtained.
    /// Returns `true` if the criterion was previously obtained.
    pub fn revoke_criterion(&mut self, criterion: &str) -> (r: bool)
        requires
            old(self).wf(),
        ensures
            final(self).wf(),
            r == (old(self)@.contains_key(criterion@) && old(self)@[criterion@] is Some),
            r ==> final(self)@ == old(self)@.insert(criterion@, None) && !final(self).done_flag(),
            !r ==> *final(self) == *old(self),
    {
        let name = owned(criterion);
        if let Some(k) = self.find(&name) {
            let ghost e = self.entries();
            proof {
                lemma_map_of_index(e, k as int);
            }
            if self.criteria[k].1.is_obtained() {
                let mut progress = self.criteria[k].1;
                progress.reset();
                let key = self.criteria[k].0.clone();
                self.criteria.set(k, (key, progress));
                assert(self.entries() =~= e.update(k as int, (e[k as int].0, None)));
                proof {
                    lemma_map_of_update(e, k as int, None);
                }
                self.done = false;
                return true;
            }
        }
        false
    }

    /// Returns whether a specific criterion is obtained.
    pub fn is_criterion_obtained(&self, criterion: &str) -> (r: bool)
        requires
            self.wf(),
        ensures
            r == obtained_names(self@).contains(criterion@),
    {
        let name = owned(criterion);
        match self.find(&name) {
            Some(k) => {
                proof {
                    lemma_map_of_index(self.entries(), k as int);
                }
                self.criteria[k].1.is_obtained()
            },
            None => false,
        }
    }

    /// Returns all obtained criteria names.
    pub fn get_obtained_criteria(&self) -> (r: Vec<String>)
        requires
            self.wf(),
        ensures
            r.deep_view().no_duplicates(),
            forall|n: Seq<char>| #[trigger]
                r.deep_view().contains(n) <==> obtained_names(self@).contains(n),
    {
        let mut r: Vec<String> = Vec::new();
        let mut i: usize = 0;
        while i < self.criteria.len()
            invariant
                0 <= i <= self.criteria@.len(),
                self.wf(),
                r.deep_view().no_duplicates(),
                forall|n: Seq<char>| #[trigger]
                    r.deep_view().contains(n) <==> exists|k: int|
                        0 <= k < i && (#[trigger] self.entries()[k]).0 == n
                            && self.entries()[k].1 is Some,
            decreases self.criteria@.len() - i,
        {
            let ghost e = self.entries();
            if self.criteria[i].1.is_obtained() {
                let ghost before = r.deep_view();
                let name = self.criteria[i].0.clone();
                assert(!before.contains(e[i as int].0)) by {
                    if before.contains(e[i as int].0) {
                        let k = choose|k: int|
                            0 <= k < i && (#[trigger] e[k]).0 == e[i as int].0 && e[k].1 is Some;
                        assert(e[k].0 != e[i as int].0);
                    }
                };
                r.push(name);
                assert(r.deep_view() =~= before.push(e[i as int].0));
                assert forall|n: Seq<char>| #[trigger]
                    r.deep_view().contains(n) <==> exists|k: int|
                        0 <= k < i + 1 && (#[trigger] e[k]).0 == n && e[k].1 is Some by {
                    if r.deep_view().contains(n) {
                        let j = choose|j: int| 0 <= j < r.deep_view().len() && r.deep_view()[j] == n;
                        if j < before.len() {
                            assert(before.contains(n));
                        } else {
                            assert(e[i as int].0 == n);
                        }
                    }
                    if exists|k: int| 0 <= k < i + 1 && (#[trigger] e[k]).0 == n && e[k].1 is Some {
                        let k = choose|k: int| 0 <= k < i + 1 && (#[trigger] e[k]).0 == n && e[k].1 is Some;
                        if k < i {
                            assert(before.contains(n));
                            let j = choose|j: int| 0 <= j < before.len() && before[j] == n;
                            assert(r.deep_view()[j] == n);
                        } else {
                            assert(r.deep_view()[before.len() as int] == n);
                        }
                    }
                }
            } else {
                assert forall|n: Seq<char>| #[trigger]
                    r.deep_view().contains(n) <==> exists|k: int|
                        0 <= k < i + 1 && (#[trigger] e[k]).0 == n && e[k].1 is Some by {
                    if exists|k: int| 0 <= k < i + 1 && (#[trigger] e[k]).0 == n && e[k].1 is Some {
                        let k = choose|k: int| 0 <= k < i + 1 && (#[trigger] e[k]).0 == n && e[k].1 is Some;
                        assert(k != i);
                    }
                }
            }
            i += 1;
        }
        assert forall|n: Seq<char>| #[trigger]
            r.deep_view().contains(n) <==> obtained_names(self@).contains(n) by {
            let e = self.entries();
            if r.deep_view().contains(n) {
                let k = choose|k: int| 0 <= k < e.len() && (#[trigger] e[k]).0 == n && e[k].1 is Some;
                lemma_map_of_index(e, k);
            }
            if obtained_names(self@).contains(n) {
                let k = index_of_key(e, n);
                assert(has_key(e, n));
                lemma_map_of_index(e, k);
            }
        }
        r
    }

    /// Returns all remaining (not obtained) criteria names.
    pub fn get_remaining_criteria(&self, requirements: &AdvancementRequirements) -> (r: Vec<String>)
        requires
            self.wf(),
        ensures
            r.deep_view().no_duplicates(),
            forall|n: Seq<char>| #[trigger]
                r.deep_view().contains(n) <==> (names_contain(requirements@, n)
                    && !obtained_names(self@).contains(n)),
    {
        let obtained = self.get_obtained_criteria();
        let names = requirements.get_names();
        let mut r: Vec<String> = Vec::new();
        let mut i: usize = 0;
        while i < names.len()
            invariant
                0 <= i <= names@.len(),
                names.deep_view().no_duplicates(),
                r.deep_view().no_duplicates(),
                forall|n: Seq<char>| #[trigger]
                    r.deep_view().contains(n) <==> (names.deep_view().take(i as int).contains(n)
                        && !obtained.deep_view().contains(n)),
            decreases names@.len() - i,
        {
            let ghost nm = names.deep_view()[i as int];
            let ghost t1 = names.deep_view().take(i as int + 1);
            let ghost t0 = names.deep_view().take(i as int);
            assert forall|n: Seq<char>| t1.contains(n) <==> (t0.contains(n) || n == nm) by {
                if t1.contains(n) {
                    let k = choose|k: int| 0 <= k < t1.len() && #[trigger] t1[k] == n;
                    if k < i {
                        assert(t0[k] == n);
                    }
                }
                if t0.contains(n) {
                    let k = choose|k: int| 0 <= k < t0.len() && #[trigger] t0[k] == n;
                    assert(t1[k] == n);
                }
                if n == nm {
                    assert(t1[i as int] == n);
                }
            }
            if !contains_name(&obtained, &names[i]) {
                let ghost before = r.deep_view();
                assert(!before.contains(nm)) by {
                    if before.contains(nm) {
                        assert(t0.contains(nm));
                    }
                };
                assert(!t0.contains(nm)) by {
                    if t0.contains(nm) {
                        let k = choose|k: int| 0 <= k < t0.len() && #[trigger] t0[k] == nm;
                        assert(names.deep_view()[k] == names.deep_view()[i as int]);
                    }
                };
                r.push(names[i].clone());
                assert(r.deep_view() =~= before.push(nm));
                assert forall|n: Seq<char>| #[trigger]
                    r.deep_view().contains(n) <==> (before.contains(n) || n == nm) by {
                    if r.deep_view().contains(n) {
                        let j = choose|j: int| 0 <= j < r.deep_view().len() && r.deep_view()[j] == n;
                        if j < before.len() {
                            assert(before[j] == n);
                        }
                    }
                    if before.contains(n) {
                        let j = choose|j: int| 0 <= j < before.len() && before[j] == n;
                        assert(r.deep_view()[j] == n);
                    }
                    if n == nm {
                        assert(r.deep_view()[before.len() as int] == n);
                    }
                }
            }
            i += 1;
        }
        assert(names.deep_view().take(names@.len() as int) =~= names.deep_view());
        r
    }

    /// Updates the done status based on requirements.
    pub fn update_done(&mut self, requirements: &AdvancementRequirements)
        requires
            old(self).wf(),
        ensures
            final(self).wf(),
            final(self).entries() == old(self).entries(),
            final(self).done_flag() == all_groups_met(requirements@, obtained_names(final(self)@)),
    {
        let obtained = self.get_obtained_criteria();
        assert(obtained.deep_view().to_set() =~= obtained_names(self@));
        self.done = requirements.test(&obtained);
    }

    /// The number of requirement groups met by the obtained criteria: the numerator of the
    /// completion fraction, whose denominator is the number of groups.
    pub fn completed_groups(&self, requirements: &AdvancementRequirements) -> (r: usize)
        requires
            self.wf(),
        ensures
            r == met_group_count(requirements@, obtained_names(self@)),
            r <= requirements@.len(),
    {
        let obtained = self.get_obtained_criteria();
        assert(obtained.deep_view().to_set() =~= obtained_names(self@));
        requirements.count_completed(&obtained)
    }

    /// Returns whether this advancement is complete.
    pub fn is_done(&self) -> (r: bool)
        ensures
            r == self.done_flag(),
    {
        self.done
    }

    /// Returns the earliest time any criterion was obtained.
    pub fn get_earliest_progress_time(&self) -> (r: Option<i64>)
        requires
            self.wf(),
        ensures
            r is None <==> obtained_names(self@).is_empty(),
            r matches Some(t) ==> exists|n: Seq<char>|
                #[trigger] obtained_names(self@).contains(n) && self@[n] == Some(t),
            r matches Some(t) ==> forall|n: Seq<char>| #[trigger]
                obtained_names(self@).contains(n) ==> t <= self@[n].unwrap(),
    {
        let ghost e = self.entries();
        let mut best: Option<i64> = None;
        let mut i: usize = 0;
        while i < self.criteria.len()
            invariant
                0 <= i <= e.len(),
                e == self.entries(),
                best is None <==> forall|k: int| 0 <= k < i ==> (#[trigger] e[k]).1 is None,
                best matches Some(t) ==> exists|k: int|
                    0 <= k < i && (#[trigger] e[k]).1 == Some(t),
                best matches Some(t) ==> forall|k: int|
                    0 <= k < i && (#[trigger] e[k]).1 is Some ==> t <= e[k].1.unwrap(),
            decreases e.len() - i,
        {
            assert(e[i as int].1 == self.criteria@[i as int].1.obtained_time);
            if let Some(t) = self.criteria[i].1.obtained_time {
                assert(e[i as int].1 == Some(t));
                match best {
                    None => {
                        best = Some(t);
                    },
                    Some(b) => {
                        if t < b {
                            best = Some(t);
                        }
                    },
                }
            }
            i += 1;
        }
        proof {
            if best is None {
                assert forall|n: Seq<char>| !obtained_names(self@).contains(n) by {
                    if obtained_names(self@).contains(n) {
                        let k = index_of_key(e, n);
                        assert(has_key(e, n));
                        lemma_map_of_index(e, k);
                    }
                }
                assert(obtained_names(self@) =~= Set::<Seq<char>>::empty());
            } else {
                let t = best.unwrap();
                let k = choose|k: int| 0 <= k < i && (#[trigger] e[k]).1 == Some(t);
                lemma_map_of_index(e, k);
                assert(obtained_names(self@).contains(e[k].0));
                assert forall|n: Seq<char>| #[trigger]
                    obtained_names(self@).contains(n) implies t <= self@[n].unwrap() by {
                    let j = index_of_key(e, n);
                    assert(has_key(e, n));
                    lemma_map_of_index(e, j);
                }
            }
        }
        best
    }
}

} // verus!
