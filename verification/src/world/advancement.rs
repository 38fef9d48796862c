use vstd::prelude::*;

use crate::util::resource_location::ResourceLocation;
use crate::world::criterion::{criteria_keys, criteria_names, AdvancementCriterion, CriteriaMap};
use crate::world::display::AdvancementDisplay;
use crate::world::requirements::{each_alone, AdvancementRequirements};
use crate::world::rewards::AdvancementRewards;

verus! {

/// The position of the criterion named `name`, if there is one.
pub open spec fn criterion_position(s: Seq<(String, AdvancementCriterion)>, name: Seq<char>) -> Option<int> {
    if exists|i: int| 0 <= i < s.len() && (#[trigger] s[i]).0@ == name {
        Some(choose|i: int| 0 <= i < s.len() && (#[trigger] s[i]).0@ == name)
    } else {
        None
    }
}

/// The criteria with `name` set to `criterion`: in place when the name is there, else at the
/// end.
pub open spec fn put_criterion_spec(
    s: Seq<(String, AdvancementCriterion)>,
    name: String,
    criterion: AdvancementCriterion,
) -> Seq<(String, AdvancementCriterion)> {
    match criterion_position(s, name@) {
        Some(i) => s.update(i, (name, criterion)),
        None => s.push((name, criterion)),
    }
}

/// Sets the criterion named `name`, replacing one of that name.
pub fn put_criterion(criteria: &mut CriteriaMap, name: String, criterion: AdvancementCriterion)
    requires
        criteria_names(old(criteria)@).no_duplicates(),
    ensures
        final(criteria)@ == put_criterion_spec(old(criteria)@, name, criterion),
        criteria_names(final(criteria)@).no_duplicates(),
{
    let mut i: usize = 0;
    while i < criteria.len()
        invariant
            0 <= i <= criteria@.len(),
            criteria@ == old(criteria)@,
            criteria_names(old(criteria)@).no_duplicates(),
            forall|k: int| 0 <= k < i ==> (#[trigger] criteria@[k]).0@ != name@,
        decreases criteria@.len() - i,
    {
        if criteria[i].0 == name {
            let ghost s = criteria@;
            proof {
                assert(s[i as int].0@ == name@);
                let j = choose|j: int| 0 <= j < s.len() && (#[trigger] s[j]).0@ == name@;
                if j != i {
                    assert(criteria_names(s)[j] == criteria_names(s)[i as int]);
                }
            }
            criteria.set(i, (name, criterion));
            assert(criteria_names(criteria@) =~= criteria_names(s).update(i as int, name@));
            assert(criteria_names(s).update(i as int, name@) =~= criteria_names(s));
            return;
        }
        i += 1;
    }
    let ghost s = criteria@;
    criteria.push((name, criterion));
    assert(criteria_names(criteria@) =~= criteria_names(s).push(name@));
    assert forall|a: int, b: int|
        0 <= a < criteria_names(criteria@).len() && 0 <= b < criteria_names(criteria@).len() && a
            != b implies criteria_names(criteria@)[a] != criteria_names(criteria@)[b] by {
        if a < s.len() && b < s.len() {
            assert(criteria_names(s)[a] == criteria_names(criteria@)[a]);
            assert(criteria_names(s)[b] == criteria_names(criteria@)[b]);
        }
    }
}

/// An advancement definition.
#[derive(Debug)]
pub struct Advancement {
    /// The parent advancement; none for a root.
    pub parent: Option<ResourceLocation>,
    /// How it is shown; none for hidden ones, such as recipe advancements.
    pub display: Option<AdvancementDisplay>,
    /// What completing it gives.
    pub rewards: AdvancementRewards,
    /// Its criteria by name.
    pub criteria: CriteriaMap,
    /// Which criteria complete it.
    pub requirements: AdvancementRequirements,
    /// Whether completing it sends a telemetry event.
    pub sends_telemetry_event: bool,
}

impl Advancement {
    /// An advancement with no parent and no display whose criteria must all be met.
    pub fn new(criteria: CriteriaMap) -> (r: Self)
        ensures
            r.parent is None,
            r.display is None,
            r.rewards.is_empty_spec(),
            r.criteria@ == criteria@,
            r.requirements@ == each_alone(criteria_names(criteria@)),
            !r.sends_telemetry_event,
    {
        let requirements = AdvancementRequirements::all_of(criteria_keys(&criteria));
        Self {
            parent: None,
            display: None,
            rewards: AdvancementRewards::empty(),
            criteria,
            requirements,
            sends_telemetry_event: false,
        }
    }

    /// A root advancement shown with `display` whose criteria must all be met.
    pub fn root(display: AdvancementDisplay, criteria: CriteriaMap) -> (r: Self)
        ensures
            r.parent is None,
            r.display == Some(display),
            r.rewards.is_empty_spec(),
            r.criteria@ == criteria@,
            r.requirements@ == each_alone(criteria_names(criteria@)),
            !r.sends_telemetry_event,
    {
        let requirements = AdvancementRequirements::all_of(criteria_keys(&criteria));
        Self {
            parent: None,
            display: Some(display),
            rewards: AdvancementRewards::empty(),
            criteria,
            requirements,
            sends_telemetry_event: false,
        }
    }

    /// A builder with nothing set.
    pub fn builder() -> (r: AdvancementBuilder)
        ensures
            r.is_fresh(),
            r.wf(),
    {
        AdvancementBuilder::new()
    }

    /// Whether this advancement has no parent.
    pub fn is_root(&self) -> (r: bool)
        ensures
            r == self.parent is None,
    {
        self.parent.is_none()
    }

    /// Whether this advancement is shown.
    pub fn has_display(&self) -> (r: bool)
        ensures
            r == self.display is Some,
    {
        self.display.is_some()
    }
}

/// An advancement with its identifier.
#[derive(Debug)]
pub struct AdvancementEntry {
    pub id: ResourceLocation,
    pub advancement: Advancement,
}

impl AdvancementEntry {
    /// Pairs an advancement with its identifier.
    pub fn new(id: ResourceLocation, advancement: Advancement) -> (r: Self)
        ensures
            r.id == id,
            r.advancement == advancement,
    {
        Self { id, advancement }
    }
}

/// Puts an advancement together step by step.
#[derive(Debug)]
pub struct AdvancementBuilder {
    parent: Option<ResourceLocation>,
    display: Option<AdvancementDisplay>,
    rewards: AdvancementRewards,
    criteria: CriteriaMap,
    requirements: Option<AdvancementRequirements>,
    sends_telemetry_event: bool,
}

impl Default for AdvancementBuilder {
    fn default() -> (r: Self)
        ensures
            r.is_fresh(),
    {
        Self::new()
    }
}

impl AdvancementBuilder {
    /// The parent set so far.
    pub closed spec fn parent_spec(&self) -> Option<ResourceLocation> {
        self.parent
    }

    /// The display set so far.
    pub closed spec fn display_spec(&self) -> Option<AdvancementDisplay> {
        self.display
    }

    /// The rewards set so far.
    pub closed spec fn rewards_spec(&self) -> AdvancementRewards {
        self.rewards
    }

    /// The criteria added so far.
    pub closed spec fn criteria_spec(&self) -> Seq<(String, AdvancementCriterion)> {
        self.criteria@
    }

    /// The requirements set so far.
    pub closed spec fn requirements_spec(&self) -> Option<AdvancementRequirements> {
        self.requirements
    }

    /// The telemetry flag set so far.
    pub closed spec fn telemetry_spec(&self) -> bool {
        self.sends_telemetry_event
    }

    /// Nothing set yet.
    pub open spec fn is_fresh(&self) -> bool {
        &&& self.parent_spec() is None
        &&& self.display_spec() is None
        &&& self.rewards_spec().is_empty_spec()
        &&& self.criteria_spec().len() == 0
        &&& self.requirements_spec() is None
        &&& !self.telemetry_spec()
    }

    /// No criterion name occurs twice.
    pub open spec fn wf(&self) -> bool {
        criteria_names(self.criteria_spec()).no_duplicates()
    }

    /// A builder with nothing set.
    pub fn new() -> (r: Self)
        ensures
            r.is_fresh(),
            r.wf(),
    {
        let r = Self {
            parent: None,
            display: None,
            rewards: AdvancementRewards::empty(),
            criteria: Vec::new(),
            requirements: None,
            sends_telemetry_event: false,
        };
        assert(criteria_names(r.criteria@) =~= Seq::<Seq<char>>::empty());
        r
    }

    /// Sets the parent.
    pub fn parent(self, parent: ResourceLocation) -> (r: Self)
        ensures
            r.parent_spec() == Some(parent),
            r.display_spec() == self.display_spec(),
            r.rewards_spec() == self.rewards_spec(),
            r.criteria_spec() == self.criteria_spec(),
            r.requirements_spec() == self.requirements_spec(),
            r.telemetry_spec() == self.telemetry_spec(),
    {
        let mut s = self;
        s.parent = Some(parent);
        s
    }

    /// Sets the display.
    pub fn display(self, display: AdvancementDisplay) -> (r: Self)
        ensures
            r.parent_spec() == self.parent_spec(),
            r.display_spec() == Some(display),
            r.rewards_spec() == self.rewards_spec(),
            r.criteria_spec() == self.criteria_spec(),
            r.requirements_spec() == self.requirements_spec(),
            r.telemetry_spec() == self.telemetry_spec(),
    {
        let mut s = self;
        s.display = Some(display);
        s
    }

    /// Sets the rewards.
    pub fn rewards(self, rewards: AdvancementRewards) -> (r: Self)
        ensures
            r.parent_spec() == self.parent_spec(),
            r.display_spec() == self.display_spec(),
            r.rewards_spec() == rewards,
            r.criteria_spec() == self.criteria_spec(),
            r.requirements_spec() == self.requirements_spec(),
            r.telemetry_spec() == self.telemetry_spec(),
    {
        let mut s = self;
        s.rewards = rewards;
        s
    }

    /// Adds a criterion, replacing one of the same name.
    pub fn criterion(self, name: String, criterion: AdvancementCriterion) -> (r: Self)
        requires
            self.wf(),
        ensures
            r.wf(),
            r.parent_spec() == self.parent_spec(),
            r.display_spec() == self.display_spec(),
            r.rewards_spec() == self.rewards_spec(),
            r.criteria_spec() == put_criterion_spec(self.criteria_spec(), name, criterion),
            r.requirements_spec() == self.requirements_spec(),
            r.telemetry_spec() == self.telemetry_spec(),
    {
        let mut s = self;
        put_criterion(&mut s.criteria, name, criterion);
        s
    }

    /// Sets the requirements.
    pub fn requirements(self, requirements: AdvancementRequirements) -> (r: Self)
        ensures
            r.parent_spec() == self.parent_spec(),
            r.display_spec() == self.display_spec(),
            r.rewards_spec() == self.rewards_spec(),
            r.criteria_spec() == self.criteria_spec(),
            r.requirements_spec() == Some(requirements),
            r.telemetry_spec() == self.telemetry_spec(),
    {
        let mut s = self;
        s.requirements = Some(requirements);
        s
    }

    /// Makes the advancement send telemetry events.
    pub fn sends_telemetry_event(self) -> (r: Self)
        ensures
            r.parent_spec() == self.parent_spec(),
            r.display_spec() == self.display_spec(),
            r.rewards_spec() == self.rewards_spec(),
            r.criteria_spec() == self.criteria_spec(),
            r.requirements_spec() == self.requirements_spec(),
            r.telemetry_spec(),
    {
        let mut s = self;
        s.sends_telemetry_event = true;
        s
    }

    /// The advancement: what was set, with all criteria required when no requirements were
    /// set.
    pub fn build(self) -> (r: Advancement)
        ensures
            r.parent == self.parent_spec(),
            r.display == self.display_spec(),
            r.rewards == self.rewards_spec(),
            r.criteria@ == self.criteria_spec(),
            r.requirements@ == match self.requirements_spec() {
                Some(req) => req@,
                None => each_alone(criteria_names(self.criteria_spec())),
            },
            r.sends_telemetry_event == self.telemetry_spec(),
    {
        let requirements = match self.requirements {
            Some(req) => req,
            None => AdvancementRequirements::all_of(criteria_keys(&self.criteria)),
        };
        Advancement {
            parent: self.parent,
            display: self.display,
            rewards: self.rewards,
            criteria: self.criteria,
            requirements,
            sends_telemetry_event: self.sends_telemetry_event,
        }
    }

    /// The advancement with its identifier.
    pub fn build_entry(self, id: ResourceLocation) -> (r: AdvancementEntry)
        ensures
            r.id == id,
            r.advancement.parent == self.parent_spec(),
            r.advancement.display == self.display_spec(),
            r.advancement.rewards == self.rewards_spec(),
            r.advancement.criteria@ == self.criteria_spec(),
            r.advancement.requirements@ == match self.requirements_spec() {
                Some(req) => req@,
                None => each_alone(criteria_names(self.criteria_spec())),
            },
            r.advancement.sends_telemetry_event == self.telemetry_spec(),
    {
        AdvancementEntry::new(id, self.build())
    }
}

/// An advancement in the tree, with its parent and children.
#[derive(Debug)]
pub struct PlacedAdvancement {
    pub entry: AdvancementEntry,
    pub parent: Option<ResourceLocation>,
    /// The children, in the order they were added.
    pub children: Vec<ResourceLocation>,
}

impl PlacedAdvancement {
    /// Places an advancement under its parent, with no children yet.
    pub fn new(entry: AdvancementEntry) -> (r: Self)
        ensures
            r.entry == entry,
            r.parent == entry.advancement.parent,
            r.children@.len() == 0,
    {
        let parent = match &entry.advancement.parent {
            Some(p) => Some(p.clone()),
            None => None,
        };
        Self { entry, parent, children: Vec::new() }
    }

    /// Adds a child.
    pub fn add_child(&mut self, child_id: ResourceLocation)
        ensures
            final(self).entry == old(self).entry,
            final(self).parent == old(self).parent,
            final(self).children@ == old(self).children@.push(child_id),
    {
        self.children.push(child_id);
    }
}

} // verus!
