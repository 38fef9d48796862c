use vstd::prelude::*;

use crate::names::contains_name;

verus! {

/// At least one criterion of `group` is among `completed`.
pub open spec fn group_met(group: Seq<Seq<char>>, completed: Set<Seq<char>>) -> bool {
    exists|j: int| 0 <= j < group.len() && completed.contains(#[trigger] group[j])
}

/// Every group holds at least one completed criterion (AND of ORs).
pub open spec fn all_groups_met(groups: Seq<Seq<Seq<char>>>, completed: Set<Seq<char>>) -> bool {
    forall|i: int| 0 <= i < groups.len() ==> group_met(#[trigger] groups[i], completed)
}

/// The number of groups that hold at least one completed criterion.
pub open spec fn met_group_count(groups: Seq<Seq<Seq<char>>>, completed: Set<Seq<char>>) -> nat
    decreases groups.len(),
{
    if groups.len() == 0 {
        0
    } else {
        met_group_count(groups.drop_last(), completed) + if group_met(groups.last(), completed) {
            1nat
        } else {
            0nat
        }
    }
}

/// `name` occurs in some group.
pub open spec fn names_contain(groups: Seq<Seq<Seq<char>>>, name: Seq<char>) -> bool {
    exists|i: int, j: int|
        0 <= i < groups.len() && 0 <= j < groups[i].len() && #[trigger] groups[i][j] == name
}

/// Every criterion name in `criteria` as a group of its own.
pub open spec fn each_alone(criteria: Seq<Seq<char>>) -> Seq<Seq<Seq<char>>> {
    criteria.map_values(|c: Seq<char>| seq![c])
}

/// All of `criteria` as one single group, or no group at all when there is none.
pub open spec fn one_group(criteria: Seq<Seq<char>>) -> Seq<Seq<Seq<char>>> {
    if criteria.len() == 0 {
        Seq::empty()
    } else {
        seq![criteria]
    }
}

/// Requirements made by `all_of` are met exactly when every one of the criteria is completed.
pub proof fn lemma_all_of_met(criteria: Seq<Seq<char>>, completed: Set<Seq<char>>)
    ensures
        all_groups_met(each_alone(criteria), completed) <==> (forall|i: int|
            0 <= i < criteria.len() ==> completed.contains(#[trigger] criteria[i])),
{
    let groups = each_alone(criteria);
    if all_groups_met(groups, completed) {
        assert forall|i: int| 0 <= i < criteria.len() implies completed.contains(
            #[trigger] criteria[i],
        ) by {
            assert(group_met(groups[i], completed));
            let j = choose|j: int| 0 <= j < groups[i].len() && completed.contains(#[trigger] groups[i][j]);
            assert(groups[i] == seq![criteria[i]]);
        }
    }
    if forall|i: int| 0 <= i < criteria.len() ==> completed.contains(#[trigger] criteria[i]) {
        assert forall|i: int| 0 <= i < groups.len() implies group_met(#[trigger] groups[i], completed) by {
            assert(groups[i] == seq![criteria[i]]);
            assert(groups[i][0] == criteria[i]);
        }
    }
}

/// Requirements made by `any_of` are met exactly when there are no criteria or one of them is
/// completed.
pub proof fn lemma_any_of_met(criteria: Seq<Seq<char>>, completed: Set<Seq<char>>)
    ensures
        all_groups_met(one_group(criteria), completed) <==> (criteria.len() == 0 || exists|i: int|
            0 <= i < criteria.len() && completed.contains(#[trigger] criteria[i])),
{
    if criteria.len() != 0 {
        let groups = one_group(criteria);
        assert(groups[0] == criteria);
        if all_groups_met(groups, completed) {
            assert(group_met(groups[0], completed));
        }
    }
}

/// The requirements are met exactly when every group counts as completed.
pub proof fn lemma_met_iff_all_counted(groups: Seq<Seq<Seq<char>>>, completed: Set<Seq<char>>)
    ensures
        met_group_count(groups, completed) <= groups.len(),
        all_groups_met(groups, completed) <==> met_group_count(groups, completed) == groups.len(),
    decreases groups.len(),
{
    if groups.len() > 0 {
        let init = groups.drop_last();
        lemma_met_iff_all_counted(init, completed);
        if all_groups_met(groups, completed) {
            assert forall|i: int| 0 <= i < init.len() implies group_met(#[trigger] init[i], completed) by {
                assert(init[i] == groups[i]);
            }
            assert(group_met(groups[groups.len() - 1], completed));
        }
        if met_group_count(groups, completed) == groups.len() {
            assert forall|i: int| 0 <= i < groups.len() implies group_met(#[trigger] groups[i], completed) by {
                if i < groups.len() - 1 {
                    assert(init[i] == groups[i]);
                }
            }
        }
    }
}

/// Completing more criteria never undoes met requirements.
pub proof fn lemma_met_monotone(
    groups: Seq<Seq<Seq<char>>>,
    smaller: Set<Seq<char>>,
    larger: Set<Seq<char>>,
)
    requires
        smaller.subset_of(larger),
        all_groups_met(groups, smaller),
    ensures
        all_groups_met(groups, larger),
{
    assert forall|i: int| 0 <= i < groups.len() implies group_met(#[trigger] groups[i], larger) by {
        assert(group_met(groups[i], smaller));
        let j = choose|j: int| 0 <= j < groups[i].len() && smaller.contains(#[trigger] groups[i][j]);
        assert(larger.contains(groups[i][j]));
    }
}

/// When no group is empty, completing every named criterion meets the requirements.
pub proof fn lemma_all_names_meet(groups: Seq<Seq<Seq<char>>>, completed: Set<Seq<char>>)
    requires
        forall|i: int| 0 <= i < groups.len() ==> #[trigger] groups[i].len() > 0,
        forall|n: Seq<char>| names_contain(groups, n) ==> #[trigger] completed.contains(n),
    ensures
        all_groups_met(groups, completed),
{
    assert forall|i: int| 0 <= i < groups.len() implies group_met(#[trigger] groups[i], completed) by {
        assert(groups[i].len() > 0);
        assert(names_contain(groups, groups[i][0]));
        assert(completed.contains(groups[i][0]));
    }
}

/// Defines the requirements for completing an advancement.
///
/// Requirements are organized as a list of lists (AND of ORs).
/// Each inner list represents a group of criteria where at least one must be completed.
/// All groups must have at least one criterion completed for the advancement to be done.
#[derive(Debug)]
pub struct AdvancementRequirements {
    /// The requirement groups. Outer list is AND, inner lists are OR.
    pub requirements: Vec<Vec<String>>,
}

impl View for AdvancementRequirements {
    type V = Seq<Seq<Seq<char>>>;

    open spec fn view(&self) -> Seq<Seq<Seq<char>>> {
        self.requirements.deep_view()
    }
}

impl Default for AdvancementRequirements {
    fn default() -> (r: Self)
        ensures
            r@ == Seq::<Seq<Seq<char>>>::empty(),
    {
        Self::empty()
    }
}

/// Whether one group holds a criterion of `completed`.
fn group_completed(group: &Vec<String>, completed: &Vec<String>) -> (r: bool)
    ensures
        r == group_met(group.deep_view(), completed.deep_view().to_set()),
{
    let mut j: usize = 0;
    while j < group.len()
        invariant
            0 <= j <= group.len(),
            forall|k: int|
                0 <= k < j ==> !completed.deep_view().to_set().contains(
                    #[trigger] group.deep_view()[k],
                ),
        decreases group.len() - j,
    {
        if contains_name(completed, &group[j]) {
            assert(completed.deep_view().to_set().contains(group.deep_view()[j as int]));
            return true;
        }
        j += 1;
    }
    false
}

/// Copies one requirement group.
fn copy_group(group: &Vec<String>) -> (r: Vec<String>)
    ensures
        r.deep_view() == group.deep_view(),
{
    crate::names::copy_names(group)
}

impl AdvancementRequirements {
    /// Creates empty requirements.
    pub fn empty() -> (r: Self)
        ensures
            r@ == Seq::<Seq<Seq<char>>>::empty(),
    {
        let r = Self { requirements: Vec::new() };
        assert(r@ =~= Seq::<Seq<Seq<char>>>::empty());
        r
    }

    /// Creates requirements from a list of requirement groups.
    pub fn new(requirements: Vec<Vec<String>>) -> (r: Self)
        ensures
            r@ == requirements.deep_view(),
    {
        Self { requirements }
    }

    /// Creates requirements where ALL criteria must be completed.
    pub fn all_of(criteria: Vec<String>) -> (r: Self)
        ensures
            r@ == each_alone(criteria.deep_view()),
    {
        let mut requirements: Vec<Vec<String>> = Vec::new();
        let mut i: usize = 0;
        while i < criteria.len()
            invariant
                0 <= i <= criteria.len(),
                requirements.deep_view() =~= each_alone(criteria.deep_view().take(i as int)),
            decreases criteria.len() - i,
        {
            let c = criteria[i].clone();
            let group = vec![c];
            assert(group.deep_view() =~= seq![criteria.deep_view()[i as int]]);
            let ghost before = requirements.deep_view();
            requirements.push(group);
            assert(requirements.deep_view() =~= before.push(seq![criteria.deep_view()[i as int]]));
            assert(criteria.deep_view().take(i as int + 1) =~= criteria.deep_view().take(
                i as int,
            ).push(criteria.deep_view()[i as int]));
            i += 1;
        }
        assert(criteria.deep_view().take(criteria.len() as int) =~= criteria.deep_view());
        Self { requirements }
    }

    /// Creates requirements where ANY ONE criterion must be completed.
    pub fn any_of(criteria: Vec<String>) -> (r: Self)
        ensures
            r@ == one_group(criteria.deep_view()),
    {
        if criteria.len() == 0 {
            Self::empty()
        } else {
            let ghost c = criteria.deep_view();
            let requirements = vec![criteria];
            assert(requirements.deep_view() =~= seq![c]);
            Self { requirements }
        }
    }

    /// Returns whether these requirements are empty.
    pub fn is_empty(&self) -> (r: bool)
        ensures
            r == (self@.len() == 0),
    {
        self.requirements.len() == 0
    }

    /// Returns the total number of requirement groups.
    pub fn len(&self) -> (r: usize)
        ensures
            r == self@.len(),
    {
        self.requirements.len()
    }

    /// Returns all unique criterion names referenced in these requirements.
    pub fn get_names(&self) -> (r: Vec<String>)
        ensures
            r.deep_view().no_duplicates(),
            forall|n: Seq<char>| #[trigger]
                r.deep_view().contains(n) <==> names_contain(self@, n),
    {
        let mut names: Vec<String> = Vec::new();
        let mut i: usize = 0;
        while i < self.requirements.len()
            invariant
                0 <= i <= self@.len(),
                names.deep_view().no_duplicates(),
                forall|n: Seq<char>| #[trigger]
                    names.deep_view().contains(n) <==> names_contain(self@.take(i as int), n),
            decreases self@.len() - i,
        {
            let group = &self.requirements[i];
            let ghost g = self@[i as int];
            assert(group.deep_view() == g);
            let mut j: usize = 0;
            while j < group.len()
                invariant
                    0 <= i < self@.len(),
                    g == self@[i as int],
                    group.deep_view() == g,
                    0 <= j <= g.len(),
                    names.deep_view().no_duplicates(),
                    forall|n: Seq<char>| #[trigger]
                        names.deep_view().contains(n) <==> (names_contain(
                            self@.take(i as int),
                            n,
                        ) || g.take(j as int).contains(n)),
                decreases g.len() - j,
            {
                let name = &group[j];
                let ghost before = names.deep_view();
                if !contains_name(&names, name) {
                    names.push(name.clone());
                    assert(names.deep_view() =~= before.push(g[j as int]));
                    assert forall|n: Seq<char>| #[trigger]
                        names.deep_view().contains(n) <==> (before.contains(n) || n == g[j as int]) by {
                        if names.deep_view().contains(n) {
                            let k = choose|k: int| 0 <= k < names.deep_view().len() && names.deep_view()[k] == n;
                            if k < before.len() {
                                assert(before[k] == n);
                            }
                        }
                        if before.contains(n) {
                            let k = choose|k: int| 0 <= k < before.len() && before[k] == n;
                            assert(names.deep_view()[k] == n);
                        }
                        if n == g[j as int] {
                            assert(names.deep_view()[before.len() as int] == n);
                        }
                    }
                } else {
                    assert(before.contains(g[j as int]));
                }
                assert(g.take(j as int + 1) =~= g.take(j as int).push(g[j as int]));
                assert forall|n: Seq<char>|
                    g.take(j as int + 1).contains(n) <==> (g.take(j as int).contains(n) || n == g[j as int]) by {
                    if g.take(j as int + 1).contains(n) {
                        let k = choose|k: int| 0 <= k < j + 1 && #[trigger] g.take(j as int + 1)[k] == n;
                        if k < j {
                            assert(g.take(j as int)[k] == n);
                        }
                    }
                    if g.take(j as int).contains(n) {
                        let k = choose|k: int| 0 <= k < j && #[trigger] g.take(j as int)[k] == n;
                        assert(g.take(j as int + 1)[k] == n);
                    }
                    if n == g[j as int] {
                        assert(g.take(j as int + 1)[j as int] == n);
                    }
                }
                j += 1;
            }
            assert(g.take(g.len() as int) =~= g);
            assert forall|n: Seq<char>| #[trigger]
                names.deep_view().contains(n) <==> names_contain(
                    self@.take(i as int + 1),
                    n,
                ) by {
                let t = self@.take(i as int + 1);
                let t0 = self@.take(i as int);
                if names_contain(t, n) {
                    let (a, b) = choose|a: int, b: int|
                        0 <= a < t.len() && 0 <= b < t[a].len() && #[trigger] t[a][b] == n;
                    if a < i {
                        assert(t0[a][b] == n);
                    } else {
                        assert(g[b] == n);
                    }
                }
                if names_contain(t0, n) {
                    let (a, b) = choose|a: int, b: int|
                        0 <= a < t0.len() && 0 <= b < t0[a].len() && #[trigger] t0[a][b] == n;
                    assert(t[a][b] == n);
                }
                if g.contains(n) {
                    let b = choose|b: int| 0 <= b < g.len() && g[b] == n;
                    assert(t[i as int][b] == n);
                }
            }
            i += 1;
        }
        assert(self@.take(self@.len() as int) =~= self@);
        names
    }

    /// Tests whether the requirements are satisfied given a set of completed criteria.
    pub fn test(&self, completed: &Vec<String>) -> (r: bool)
        ensures
            r == all_groups_met(self@, completed.deep_view().to_set()),
    {
        if self.requirements.len() == 0 {
            return true;
        }
        let mut i: usize = 0;
        while i < self.requirements.len()
            invariant
                0 <= i <= self@.len(),
                forall|k: int|
                    0 <= k < i ==> group_met(#[trigger] self@[k], completed.deep_view().to_set()),
            decreases self@.len() - i,
        {
            // At least one criterion in each group must be completed
            assert(self.requirements@[i as int].deep_view() == self@[i as int]);
            let group_satisfied = group_completed(&self.requirements[i], completed);
            if !group_satisfied {
                return false;
            }
            i += 1;
        }
        true
    }

    /// Counts the number of requirement groups that are satisfied.
    pub fn count_completed(&self, completed: &Vec<String>) -> (r: usize)
        ensures
            r == met_group_count(self@, completed.deep_view().to_set()),
            r <= self@.len(),
    {
        let ghost done = completed.deep_view().to_set();
        let mut count: usize = 0;
        let mut i: usize = 0;
        while i < self.requirements.len()
            invariant
                0 <= i <= self@.len(),
                done == completed.deep_view().to_set(),
                count == met_group_count(self@.take(i as int), done),
                count <= i,
            decreases self@.len() - i,
        {
            assert(self@.take(i as int + 1).drop_last() =~= self@.take(i as int));
            assert(self.requirements@[i as int].deep_view() == self@[i as int]);
            if group_completed(&self.requirements[i], completed) {
                count += 1;
            }
            i += 1;
        }
        assert(self@.take(self@.len() as int) =~= self@);
        count
    }

    /// Copies these requirements group by group.
    pub fn copy(&self) -> (r: Self)
        ensures
            r@ == self@,
    {
        let mut requirements: Vec<Vec<String>> = Vec::new();
        let mut i: usize = 0;
        while i < self.requirements.len()
            invariant
                0 <= i <= self@.len(),
                requirements.deep_view() =~= self@.take(i as int),
            decreases self@.len() - i,
        {
            let group = copy_group(&self.requirements[i]);
            let ghost before = requirements.deep_view();
            requirements.push(group);
            assert(requirements.deep_view() =~= before.push(self@[i as int]));
            i += 1;
        }
        assert(self@.take(self@.len() as int) =~= self@);
        Self { requirements }
    }
}

/// Defines how criteria should be merged into requirements.
#[derive(Debug, Clone, Copy, PartialEq, Eq)]
pub enum CriterionMerger {
    /// All criteria must be completed (each criterion is its own requirement group).
    And,
    /// Any one criterion must be completed (all criteria in one requirement group).
    Or,
}

impl Default for CriterionMerger {
    fn default() -> (r: Self)
        ensures
            r == CriterionMerger::And,
    {
        CriterionMerger::And
    }
}

impl CriterionMerger {
    /// Creates requirements from criteria names using this merger strategy.
    pub fn create(&self, criteria: Vec<String>) -> (r: AdvancementRequirements)
        ensures
            *self == CriterionMerger::And ==> r@ == each_alone(criteria.deep_view()),
            *self == CriterionMerger::Or ==> r@ == one_group(criteria.deep_view()),
    {
        match self {
            CriterionMerger::And => AdvancementRequirements::all_of(criteria),
            CriterionMerger::Or => AdvancementRequirements::any_of(criteria),
        }
    }
}

} // verus!
