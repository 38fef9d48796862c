use vstd::prelude::*;

use crate::keyed::{has_key, lemma_map_of_index, lemma_map_of_push, lemma_map_of_update, map_of, unique_keys};
use crate::names::owned;
use crate::util::resource_location::{vanilla_namespace, ResourceLocation};
use crate::util::text::TextComponent;
use crate::world::advancement::{Advancement, AdvancementEntry, PlacedAdvancement};
use crate::world::criterion::AdvancementCriterion;
use crate::world::display::{AdvancementDisplay, AdvancementIcon};
use crate::world::frame::AdvancementFrame;
use crate::world::triggers;

verus! {

/// An identifier by value.
pub type IdView = (Seq<char>, Seq<char>);

/// The placed advancements of a list, each under its identifier's value.
pub open spec fn placed_entries(v: Seq<(ResourceLocation, PlacedAdvancement)>) -> Seq<(IdView, PlacedAdvancement)> {
    Seq::new(v.len(), |i: int| (v[i].0@, v[i].1))
}

/// All advancements known to the server, placed in their trees.
#[derive(Debug)]
pub struct AdvancementRegistry {
    placed: Vec<(ResourceLocation, PlacedAdvancement)>,
    roots: Vec<ResourceLocation>,
}

impl Default for AdvancementRegistry {
    fn default() -> (r: Self)
        ensures
            r.wf(),
            r.placed_map() == Map::<IdView, PlacedAdvancement>::empty(),
            r.roots_spec().len() == 0,
    {
        Self::new()
    }
}

impl AdvancementRegistry {
    /// The placed advancements by identifier value, in registration order.
    pub closed spec fn entries(&self) -> Seq<(IdView, PlacedAdvancement)> {
        placed_entries(self.placed@)
    }

    /// Each registered advancement, placed, by identifier.
    pub closed spec fn placed_map(&self) -> Map<IdView, PlacedAdvancement> {
        map_of(self.entries())
    }

    /// The root identifiers, in registration order.
    pub closed spec fn roots_spec(&self) -> Seq<ResourceLocation> {
        self.roots@
    }

    /// Whether `k` is among the roots.
    pub open spec fn is_root_id(&self, k: IdView) -> bool {
        exists|i: int| 0 <= i < self.roots_spec().len() && (#[trigger] self.roots_spec()[i])@ == k
    }

    /// Each identifier is registered once.
    pub closed spec fn keys_ok(&self) -> bool {
        unique_keys(self.entries())
    }

    /// Every root is registered, and every registered advancement without a parent is a root.
    #[verifier::opaque]
    pub closed spec fn roots_ok(&self) -> bool {
        &&& forall|i: int|
            0 <= i < self.roots@.len() ==> self.placed_map().contains_key(
                (#[trigger] self.roots@[i])@,
            )
        &&& forall|k: IdView|
            #[trigger] self.placed_map().contains_key(k)
                && self.placed_map()[k].entry.advancement.parent is None ==> self.is_root_id(k)
    }

    /// Each identifier is registered once, every root is registered, and every registered
    /// advancement without a parent is a root.
    pub closed spec fn wf(&self) -> bool {
        self.keys_ok() && self.roots_ok()
    }

    /// In a well-formed registry each identifier has one entry.
    pub proof fn lemma_entries_unique(&self)
        requires
            self.wf(),
        ensures
            unique_keys(self.entries()),
    {
    }

    /// In a well-formed registry every root is registered, and every registered advancement
    /// without a parent is a root.
    pub proof fn lemma_roots(&self)
        requires
            self.wf(),
        ensures
            forall|i: int|
                0 <= i < self.roots_spec().len() ==> self.placed_map().contains_key(
                    (#[trigger] self.roots_spec()[i])@,
                ),
            forall|k: IdView|
                #[trigger] self.placed_map().contains_key(k)
                    && self.placed_map()[k].entry.advancement.parent is None ==> self.is_root_id(k),
    {
        reveal(AdvancementRegistry::roots_ok);
    }

    /// An empty registry.
    pub fn new() -> (r: Self)
        ensures
            r.wf(),
            r.placed_map() == Map::<IdView, PlacedAdvancement>::empty(),
            r.roots_spec().len() == 0,
    {
        let r = Self { placed: Vec::new(), roots: Vec::new() };
        assert(r.placed_map() =~= Map::<IdView, PlacedAdvancement>::empty());
        proof {
            reveal(AdvancementRegistry::roots_ok);
        }
        r
    }

    /// The position of an identifier's entry.
    fn find(&self, id: &ResourceLocation) -> (r: Option<usize>)
        requires
            self.keys_ok(),
        ensures
            match r {
                Some(k) => k < self.placed@.len() && self.entries()[k as int].0 == id@
                    && self.placed_map().contains_key(id@) && self.placed_map()[id@]
                    == self.placed@[k as int].1,
                None => !self.placed_map().contains_key(id@),
            },
    {
        let mut i: usize = 0;
        while i < self.placed.len()
            invariant
                0 <= i <= self.placed@.len(),
                self.keys_ok(),
                forall|k: int| 0 <= k < i ==> (#[trigger] self.entries()[k]).0 != id@,
            decreases self.placed@.len() - i,
        {
            if self.placed[i].0.same(id) {
                proof {
                    lemma_map_of_index(self.entries(), i as int);
                }
                return Some(i);
            }
            i += 1;
        }
        None
    }

    /// Registers an advancement: adds it as a child of its parent when the parent is placed,
    /// places it with no children (replacing one of the same identifier), and records it as a
    /// root when it has no parent.
    pub fn register(&mut self, entry: AdvancementEntry)
        requires
            old(self).wf(),
        ensures
            final(self).wf(),
            final(self).placed_map().dom() == old(self).placed_map().dom().insert(entry.id@),
            final(self).placed_map()[entry.id@].entry == entry,
            final(self).placed_map()[entry.id@].parent == entry.advancement.parent,
            final(self).placed_map()[entry.id@].children@.len() == 0,
            forall|k: IdView|
                k != entry.id@ && #[trigger] old(self).placed_map().contains_key(k) ==> {
                    let before = old(self).placed_map()[k];
                    let after = final(self).placed_map()[k];
                    if entry.advancement.parent matches Some(p) && p@ == k {
                        after.entry == before.entry && after.parent == before.parent
                            && after.children@ == before.children@.push(entry.id)
                    } else {
                        after == before
                    }
                },
            final(self).roots_spec() == if entry.advancement.parent is None {
                old(self).roots_spec().push(entry.id)
            } else {
                old(self).roots_spec()
            },
            !old(self).placed_map().contains_key(entry.id@) ==> (final(self).is_root_id(entry.id@)
                <==> entry.advancement.parent is None),
            !old(self).placed_map().contains_key(entry.id@) ==> final(self).entries().len() == old(
                self,
            ).entries().len() + 1,
            old(self).placed_map().contains_key(entry.id@) ==> final(self).entries().len() == old(
                self,
            ).entries().len(),
    {
        let id = entry.id.clone();
        let is_root = entry.advancement.is_root();
        let ghost e0 = self.entries();
        if let Some(parent_id) = &entry.advancement.parent {
            if let Some(k) = self.find(parent_id) {
                let ghost before = self.placed@[k as int];
                let mut item = self.placed.remove(k);
                item.1.add_child(id.clone());
                self.placed.insert(k, item);
                assert(self.entries() =~= e0.update(k as int, (e0[k as int].0, item.1)));
                proof {
                    lemma_map_of_update(e0, k as int, item.1);
                }
            }
        }
        let ghost e1 = self.entries();
        let placed = PlacedAdvancement::new(entry);
        match self.find(&id) {
            Some(k) => {
                self.placed.set(k, (id.clone(), placed));
                assert(self.entries() =~= e1.update(k as int, (e1[k as int].0, placed)));
                proof {
                    lemma_map_of_update(e1, k as int, placed);
                }
            },
            None => {
                self.placed.push((id.clone(), placed));
                assert(self.entries() =~= e1.push((id@, placed)));
                proof {
                    lemma_map_of_push(e1, (id@, placed));
                }
            },
        }
        let ghost mid_roots = self.roots@;
        if is_root {
            self.roots.push(id);
        }
        proof {
            reveal(AdvancementRegistry::roots_ok);
            let before = old(self);
            assert forall|i: int|
                0 <= i < self.roots@.len() implies self.placed_map().contains_key(
                (#[trigger] self.roots@[i])@,
            ) by {
                if i < before.roots@.len() {
                    assert(self.roots@[i] == before.roots@[i]);
                }
            }
            assert forall|k: IdView|
                #[trigger] self.placed_map().contains_key(k)
                    && self.placed_map()[k].entry.advancement.parent is None implies self.is_root_id(
                k,
            ) by {
                if k == entry.id@ {
                    assert(self.placed_map()[k].entry == entry);
                    assert(is_root);
                    assert(self.roots_spec()[self.roots@.len() - 1]@ == k);
                } else {
                    assert(before.placed_map().contains_key(k));
                    assert(self.placed_map()[k].entry == before.placed_map()[k].entry);
                    assert(before.is_root_id(k));
                    let i = choose|i: int|
                        0 <= i < before.roots_spec().len() && (#[trigger] before.roots_spec()[i])@ == k;
                    assert(self.roots_spec()[i] == before.roots@[i]);
                }
            }
            if !before.placed_map().contains_key(entry.id@) && entry.advancement.parent is Some {
                if self.is_root_id(entry.id@) {
                    let i = choose|i: int|
                        0 <= i < self.roots_spec().len() && (#[trigger] self.roots_spec()[i])@ == entry.id@;
                    assert(before.placed_map().contains_key(before.roots@[i]@));
                }
            }
            if entry.advancement.parent is None {
                assert(self.roots_spec()[self.roots@.len() - 1]@ == entry.id@);
            }
        }
    }

    /// The advancement registered under `id`.
    pub fn get(&self, id: &ResourceLocation) -> (r: Option<&AdvancementEntry>)
        requires
            self.wf(),
        ensures
            r is None <==> !self.placed_map().contains_key(id@),
            r matches Some(e) ==> *e == self.placed_map()[id@].entry,
    {
        match self.find(id) {
            Some(k) => Some(&self.placed[k].1.entry),
            None => None,
        }
    }

    /// The root identifiers, in registration order.
    pub fn roots(&self) -> (r: &[ResourceLocation])
        ensures
            r@ == self.roots_spec(),
    {
        self.roots.as_slice()
    }

    /// The registered advancements with their identifiers, in registration order.
    pub fn iter(&self) -> (r: Vec<(&ResourceLocation, &AdvancementEntry)>)
        requires
            self.wf(),
        ensures
            r@.len() == self.entries().len(),
            forall|i: int|
                0 <= i < r@.len() ==> (#[trigger] r@[i]).0@ == self.entries()[i].0
                    && self.placed_map().contains_key(r@[i].0@) && *r@[i].1
                    == self.placed_map()[r@[i].0@].entry,
            forall|i: int, j: int|
                0 <= i < r@.len() && 0 <= j < r@.len() && i != j ==> (#[trigger] r@[i]).0@ != (
                #[trigger] r@[j]).0@,
            forall|k: IdView|
                self.placed_map().contains_key(k) ==> exists|i: int|
                    0 <= i < r@.len() && (#[trigger] r@[i]).0@ == k,
    {
        let mut r: Vec<(&ResourceLocation, &AdvancementEntry)> = Vec::new();
        let mut i: usize = 0;
        while i < self.placed.len()
            invariant
                0 <= i <= self.placed@.len(),
                self.wf(),
                r@.len() == i,
                forall|k: int|
                    0 <= k < i ==> (#[trigger] r@[k]).0@ == self.entries()[k].0
                        && self.placed_map().contains_key(r@[k].0@) && *r@[k].1
                        == self.placed_map()[r@[k].0@].entry,
            decreases self.placed@.len() - i,
        {
            proof {
                lemma_map_of_index(self.entries(), i as int);
            }
            r.push((&self.placed[i].0, &self.placed[i].1.entry));
            i += 1;
        }
        assert forall|i: int, j: int|
            0 <= i < r@.len() && 0 <= j < r@.len() && i != j implies (#[trigger] r@[i]).0@ != (
            #[trigger] r@[j]).0@ by {
            assert(self.entries()[i].0 != self.entries()[j].0);
        }
        assert forall|k: IdView| self.placed_map().contains_key(k) implies exists|i: int|
            0 <= i < r@.len() && (#[trigger] r@[i]).0@ == k by {
            let i = choose|i: int|
                0 <= i < self.entries().len() && (#[trigger] self.entries()[i]).0 == k;
            assert(r@[i].0@ == k);
        }
        r
    }

    /// The number of registered advancements.
    pub fn len(&self) -> (r: usize)
        requires
            self.wf(),
        ensures
            r == self.entries().len(),
            r == 0 <==> self.placed_map() == Map::<IdView, PlacedAdvancement>::empty(),
    {
        let n = self.placed.len();
        proof {
            if n == 0 {
                assert(self.placed_map() =~= Map::<IdView, PlacedAdvancement>::empty());
            } else {
                lemma_map_of_index(self.entries(), 0);
            }
        }
        n
    }

    /// Whether no advancement is registered.
    pub fn is_empty(&self) -> (r: bool)
        requires
            self.wf(),
        ensures
            r <==> self.placed_map() == Map::<IdView, PlacedAdvancement>::empty(),
    {
        self.len() == 0
    }

    /// Forgets every advancement and root.
    pub fn clear(&mut self)
        ensures
            final(self).wf(),
            final(self).placed_map() == Map::<IdView, PlacedAdvancement>::empty(),
            final(self).roots_spec().len() == 0,
    {
        self.placed = Vec::new();
        self.roots = Vec::new();
        assert(self.placed_map() =~= Map::<IdView, PlacedAdvancement>::empty());
        proof {
            reveal(AdvancementRegistry::roots_ok);
        }
    }

    /// The placed advancement registered under `id`.
    pub fn get_placed(&self, id: &ResourceLocation) -> (r: Option<&PlacedAdvancement>)
        requires
            self.wf(),
        ensures
            r is None <==> !self.placed_map().contains_key(id@),
            r matches Some(p) ==> *p == self.placed_map()[id@],
    {
        match self.find(id) {
            Some(k) => Some(&self.placed[k].1),
            None => None,
        }
    }

    /// The registered identifiers, in registration order, each once.
    pub fn all_ids(&self) -> (r: Vec<ResourceLocation>)
        requires
            self.wf(),
        ensures
            r@.len() == self.entries().len(),
            forall|i: int| 0 <= i < r@.len() ==> (#[trigger] r@[i])@ == self.entries()[i].0,
            forall|k: IdView|
                self.placed_map().contains_key(k) <==> exists|i: int|
                    0 <= i < r@.len() && (#[trigger] r@[i])@ == k,
    {
        let mut r: Vec<ResourceLocation> = Vec::new();
        let mut i: usize = 0;
        while i < self.placed.len()
            invariant
                0 <= i <= self.placed@.len(),
                r@.len() == i,
                forall|k: int| 0 <= k < i ==> (#[trigger] r@[k])@ == self.entries()[k].0,
            decreases self.placed@.len() - i,
        {
            r.push(self.placed[i].0.clone());
            i += 1;
        }
        assert forall|k: IdView|
            self.placed_map().contains_key(k) <==> exists|i: int|
                0 <= i < r@.len() && (#[trigger] r@[i])@ == k by {
            if self.placed_map().contains_key(k) {
                let i = choose|i: int|
                    0 <= i < self.entries().len() && (#[trigger] self.entries()[i]).0 == k;
                assert(r@[i]@ == k);
            }
            if exists|i: int| 0 <= i < r@.len() && (#[trigger] r@[i])@ == k {
                let i = choose|i: int| 0 <= i < r@.len() && (#[trigger] r@[i])@ == k;
                assert(self.entries()[i].0 == k);
                assert(has_key(self.entries(), k));
            }
        }
        r
    }
}

/// The identifiers of the built-in advancements of the story tab.
spec fn story_ids() -> Set<IdView> {
    set![
        (vanilla_namespace(), "story/root"@),
        (vanilla_namespace(), "story/mine_stone"@),
        (vanilla_namespace(), "story/upgrade_tools"@),
        (vanilla_namespace(), "story/smelt_iron"@),
        (vanilla_namespace(), "story/obtain_armor"@),
        (vanilla_namespace(), "story/lava_bucket"@),
        (vanilla_namespace(), "story/iron_tools"@),
        (vanilla_namespace(), "story/deflect_arrow"@),
        (vanilla_namespace(), "story/form_obsidian"@),
        (vanilla_namespace(), "story/mine_diamond"@),
        (vanilla_namespace(), "story/enter_the_nether"@),
        (vanilla_namespace(), "story/shiny_gear"@),
        (vanilla_namespace(), "story/enchant_item"@),
        (vanilla_namespace(), "story/cure_zombie_villager"@),
        (vanilla_namespace(), "story/follow_ender_eye"@),
        (vanilla_namespace(), "story/enter_the_end"@),
    ]
}

/// The identifiers of the built-in advancements of the Nether tab.
spec fn nether_ids() -> Set<IdView> {
    set![
        (vanilla_namespace(), "nether/root"@),
        (vanilla_namespace(), "nether/return_to_sender"@),
        (vanilla_namespace(), "nether/find_bastion"@),
        (vanilla_namespace(), "nether/obtain_ancient_debris"@),
        (vanilla_namespace(), "nether/fast_travel"@),
        (vanilla_namespace(), "nether/find_fortress"@),
        (vanilla_namespace(), "nether/obtain_crying_obsidian"@),
        (vanilla_namespace(), "nether/distract_piglin"@),
        (vanilla_namespace(), "nether/ride_strider"@),
        (vanilla_namespace(), "nether/uneasy_alliance"@),
        (vanilla_namespace(), "nether/loot_bastion"@),
        (vanilla_namespace(), "nether/use_lodestone"@),
        (vanilla_namespace(), "nether/netherite_armor"@),
        (vanilla_namespace(), "nether/get_wither_skull"@),
        (vanilla_namespace(), "nether/obtain_blaze_rod"@),
        (vanilla_namespace(), "nether/charge_respawn_anchor"@),
        (vanilla_namespace(), "nether/ride_strider_in_overworld_lava"@),
        (vanilla_namespace(), "nether/summon_wither"@),
        (vanilla_namespace(), "nether/brew_potion"@),
        (vanilla_namespace(), "nether/create_beacon"@),
        (vanilla_namespace(), "nether/all_potions"@),
        (vanilla_namespace(), "nether/create_full_beacon"@),
        (vanilla_namespace(), "nether/all_effects"@),
        (vanilla_namespace(), "nether/explore_nether"@),
    ]
}

/// The identifiers of the built-in advancements of the End tab.
spec fn end_ids() -> Set<IdView> {
    set![
        (vanilla_namespace(), "end/root"@),
        (vanilla_namespace(), "end/kill_dragon"@),
        (vanilla_namespace(), "end/dragon_egg"@),
        (vanilla_namespace(), "end/enter_end_gateway"@),
        (vanilla_namespace(), "end/respawn_dragon"@),
        (vanilla_namespace(), "end/dragon_breath"@),
        (vanilla_namespace(), "end/find_end_city"@),
        (vanilla_namespace(), "end/elytra"@),
        (vanilla_namespace(), "end/levitate"@),
    ]
}

/// The identifiers of the built-in advancements of the first half of the adventure tab.
spec fn adventure_first_ids() -> Set<IdView> {
    set![
        (vanilla_namespace(), "adventure/root"@),
        (vanilla_namespace(), "adventure/voluntary_exile"@),
        (vanilla_namespace(), "adventure/spyglass_at_parrot"@),
        (vanilla_namespace(), "adventure/kill_a_mob"@),
        (vanilla_namespace(), "adventure/read_power_of_chiseled_bookshelf"@),
        (vanilla_namespace(), "adventure/trade"@),
        (vanilla_namespace(), "adventure/trim_with_any_armor_pattern"@),
        (vanilla_namespace(), "adventure/honey_block_slide"@),
        (vanilla_namespace(), "adventure/sleep_in_bed"@),
        (vanilla_namespace(), "adventure/hero_of_the_village"@),
        (vanilla_namespace(), "adventure/spyglass_at_ghast"@),
        (vanilla_namespace(), "adventure/throw_trident"@),
        (vanilla_namespace(), "adventure/kill_mob_near_sculk_catalyst"@),
        (vanilla_namespace(), "adventure/shoot_arrow"@),
        (vanilla_namespace(), "adventure/kill_all_mobs"@),
        (vanilla_namespace(), "adventure/totem_of_undying"@),
        (vanilla_namespace(), "adventure/summon_iron_golem"@),
        (vanilla_namespace(), "adventure/trade_at_world_height"@),
        (vanilla_namespace(), "adventure/trim_with_all_exclusive_armor_patterns"@),
    ]
}

/// The identifiers of the built-in advancements of the second half of the adventure tab.
spec fn adventure_second_ids() -> Set<IdView> {
    set![
        (vanilla_namespace(), "adventure/spyglass_at_dragon"@),
        (vanilla_namespace(), "adventure/very_very_frightening"@),
        (vanilla_namespace(), "adventure/sniper_duel"@),
        (vanilla_namespace(), "adventure/bullseye"@),
        (vanilla_namespace(), "adventure/fall_from_world_height"@),
        (vanilla_namespace(), "adventure/avoid_vibration"@),
        (vanilla_namespace(), "adventure/sneak_while_mining"@),
        (vanilla_namespace(), "adventure/two_birds_one_arrow"@),
        (vanilla_namespace(), "adventure/whos_the_pillager_now"@),
        (vanilla_namespace(), "adventure/arbalistic"@),
        (vanilla_namespace(), "adventure/craft_decorated_pot_using_only_sherds"@),
        (vanilla_namespace(), "adventure/adventuring_time"@),
        (vanilla_namespace(), "adventure/play_jukebox_in_meadows"@),
        (vanilla_namespace(), "adventure/walk_on_powder_snow_with_leather_boots"@),
        (vanilla_namespace(), "adventure/lightning_rod_with_villager_no_fire"@),
        (vanilla_namespace(), "adventure/salvage_sherd"@),
        (vanilla_namespace(), "adventure/ominous_trial_omen"@),
        (vanilla_namespace(), "adventure/blowback"@),
        (vanilla_namespace(), "adventure/who_needs_rockets"@),
        (vanilla_namespace(), "adventure/minecraft_trials_edition"@),
        (vanilla_namespace(), "adventure/ol_betsy"@),
    ]
}

/// The identifiers of the built-in advancements of the husbandry tab.
spec fn husbandry_ids() -> Set<IdView> {
    set![
        (vanilla_namespace(), "husbandry/root"@),
        (vanilla_namespace(), "husbandry/safely_harvest_honey"@),
        (vanilla_namespace(), "husbandry/breed_an_animal"@),
        (vanilla_namespace(), "husbandry/allay_deliver_item_to_player"@),
        (vanilla_namespace(), "husbandry/ride_a_boat_with_a_goat"@),
        (vanilla_namespace(), "husbandry/tame_an_animal"@),
        (vanilla_namespace(), "husbandry/make_a_sign_glow"@),
        (vanilla_namespace(), "husbandry/fishy_business"@),
        (vanilla_namespace(), "husbandry/silk_touch_nest"@),
        (vanilla_namespace(), "husbandry/wax_on"@),
        (vanilla_namespace(), "husbandry/bred_all_animals"@),
        (vanilla_namespace(), "husbandry/allay_deliver_cake_to_note_block"@),
        (vanilla_namespace(), "husbandry/complete_catalogue"@),
        (vanilla_namespace(), "husbandry/tactical_fishing"@),
        (vanilla_namespace(), "husbandry/leash_all_frog_variants"@),
        (vanilla_namespace(), "husbandry/feed_snifflet"@),
        (vanilla_namespace(), "husbandry/wax_off"@),
        (vanilla_namespace(), "husbandry/axolotl_in_a_bucket"@),
        (vanilla_namespace(), "husbandry/froglights"@),
        (vanilla_namespace(), "husbandry/plant_any_sniffer_seed"@),
        (vanilla_namespace(), "husbandry/kill_axolotl_target"@),
        (vanilla_namespace(), "husbandry/balanced_diet"@),
        (vanilla_namespace(), "husbandry/obtain_netherite_hoe"@),
        (vanilla_namespace(), "husbandry/plant_seed"@),
        (vanilla_namespace(), "husbandry/repair_wolf_armor"@),
        (vanilla_namespace(), "husbandry/whole_pack"@),
        (vanilla_namespace(), "husbandry/remove_wolf_armor"@),
        (vanilla_namespace(), "husbandry/obtain_sniffer_egg"@),
    ]
}

// Built-in definitions kept for when data files are not at hand.
#[allow(dead_code)]
impl AdvancementRegistry {
    /// Registers a built-in advancement triggered by `trigger`, with a parent or, as a root, a
    /// background; a root shows a toast and is announced. The position is given by the bit
    /// patterns of two 32-bit floats.
    fn adv(
        &mut self,
        id: &str,
        parent: Option<&str>,
        icon: &str,
        title: &str,
        desc: &str,
        frame: AdvancementFrame,
        bg: Option<&str>,
        x_bits: u32,
        y_bits: u32,
        trigger: &ResourceLocation,
    )
        requires
            old(self).wf(),
        ensures
            final(self).wf(),
            final(self).placed_map().dom() == old(self).placed_map().dom().insert(
                (vanilla_namespace(), id@),
            ),
            forall|k: IdView|
                k != (vanilla_namespace(), id@) && old(self).placed_map().contains_key(k)
                    ==> #[trigger] final(self).placed_map()[k].entry == old(self).placed_map()[k].entry,
            parent is None ==> final(self).roots_spec().len() == old(self).roots_spec().len() + 1
                && final(self).roots_spec().drop_last() == old(self).roots_spec()
                && final(self).roots_spec().last()@ == (vanilla_namespace(), id@),
            parent is Some ==> final(self).roots_spec() == old(self).roots_spec(),
    {
        let adv_id = ResourceLocation::vanilla(id);
        let background = match bg {
            Some(b) => Some(ResourceLocation::vanilla(b)),
            None => None,
        };
        let mut display = AdvancementDisplay::new(
            AdvancementIcon::simple(ResourceLocation::vanilla(icon)),
            TextComponent::text(owned(title)),
            TextComponent::text(owned(desc)),
            frame,
            background,
            bg.is_none(),
            bg.is_none(),
            false,
        );
        display.set_pos(x_bits, y_bits);
        let advancement = match parent {
            Some(p) => Advancement::builder().parent(ResourceLocation::vanilla(p)).display(
                display,
            ).criterion(owned("trigger"), AdvancementCriterion::new(trigger.clone())).build(),
            None => {
                let mut criteria: Vec<(String, AdvancementCriterion)> = Vec::new();
                criteria.push((owned("trigger"), AdvancementCriterion::new(trigger.clone())));
                Advancement::root(display, criteria)
            },
        };
        self.register(AdvancementEntry::new(adv_id, advancement));
    }

    /// Registers a built-in advancement that stays hidden until its parent is completed.
    fn adv_hidden(
        &mut self,
        id: &str,
        parent: &str,
        icon: &str,
        title: &str,
        desc: &str,
        frame: AdvancementFrame,
        x_bits: u32,
        y_bits: u32,
        trigger: &ResourceLocation,
    )
        requires
            old(self).wf(),
        ensures
            final(self).wf(),
            final(self).placed_map().dom() == old(self).placed_map().dom().insert(
                (vanilla_namespace(), id@),
            ),
            forall|k: IdView|
                k != (vanilla_namespace(), id@) && old(self).placed_map().contains_key(k)
                    ==> #[trigger] final(self).placed_map()[k].entry == old(self).placed_map()[k].entry,
            final(self).roots_spec() == old(self).roots_spec(),
    {
        let adv_id = ResourceLocation::vanilla(id);
        let mut display = AdvancementDisplay::new(
            AdvancementIcon::simple(ResourceLocation::vanilla(icon)),
            TextComponent::text(owned(title)),
            TextComponent::text(owned(desc)),
            frame,
            None,
            true,
            true,
            true,
        );
        display.set_pos(x_bits, y_bits);
        let advancement = Advancement::builder().parent(ResourceLocation::vanilla(parent)).display(
            display,
        ).criterion(owned("trigger"), AdvancementCriterion::new(trigger.clone())).build();
        self.register(AdvancementEntry::new(adv_id, advancement));
    }

    /// Registers the built-in advancements of the story tab.
    fn register_story_advancements(&mut self)
        requires
            old(self).wf(),
        ensures
            final(self).wf(),
            final(self).placed_map().dom() == old(self).placed_map().dom().union(story_ids()),
            forall|k: IdView|
                old(self).placed_map().contains_key(k) && !story_ids().contains(k)
                    ==> #[trigger] final(self).placed_map()[k].entry == old(self).placed_map()[k].entry,
            final(self).roots_spec().len() == old(self).roots_spec().len() + 1,
            final(self).roots_spec().drop_last() == old(self).roots_spec(),
            final(self).roots_spec().last()@ == (vanilla_namespace(), "story/root"@),
    {
        let bg: Option<&str> = Some("textures/gui/advancements/backgrounds/stone.png");
        // Root: Minecraft
        self.adv("story/root", None, "grass_block", "Minecraft", "The heart and story of the game", AdvancementFrame::Task, bg, 0x00000000, 0x00000000, &triggers::inventory_changed());
        // Stone Age
        self.adv("story/mine_stone", Some("story/root"), "wooden_pickaxe", "Stone Age", "Mine Stone with your new Pickaxe", AdvancementFrame::Task, None, 0x40000000, 0x40400000, &triggers::inventory_changed());
        // Getting an Upgrade
        self.adv("story/upgrade_tools", Some("story/mine_stone"), "stone_pickaxe", "Getting an Upgrade", "Construct a better Pickaxe", AdvancementFrame::Task, None, 0x40800000, 0x40400000, &triggers::inventory_changed());
        // Acquire Hardware
        self.adv("story/smelt_iron", Some("story/upgrade_tools"), "iron_ingot", "Acquire Hardware", "Smelt an Iron Ingot", AdvancementFrame::Task, None, 0x40c00000, 0x40400000, &triggers::inventory_changed());
        // Suit Up
        self.adv("story/obtain_armor", Some("story/smelt_iron"), "iron_chestplate", "Suit Up", "Protect yourself with a piece of iron armor", AdvancementFrame::Task, None, 0x40c00000, 0x40a00000, &triggers::inventory_changed());
        // Hot Stuff
        self.adv("story/lava_bucket", Some("story/smelt_iron"), "lava_bucket", "Hot Stuff", "Fill a Bucket with lava", AdvancementFrame::Task, None, 0x40e00000, 0x40800000, &triggers::inventory_changed());
        // Isn't It Iron Pick
        self.adv("story/iron_tools", Some("story/smelt_iron"), "iron_pickaxe", "Isn't It Iron Pick", "Upgrade your Pickaxe", AdvancementFrame::Task, None, 0x40c00000, 0x3f800000, &triggers::inventory_changed());
        // Not Today, Thank You
        self.adv("story/deflect_arrow", Some("story/obtain_armor"), "shield", "Not Today, Thank You", "Deflect a projectile with a Shield", AdvancementFrame::Task, None, 0x40c00000, 0x40e00000, &triggers::inventory_changed());
        // Ice Bucket Challenge
        self.adv("story/form_obsidian", Some("story/lava_bucket"), "obsidian", "Ice Bucket Challenge", "Obtain a block of Obsidian", AdvancementFrame::Task, None, 0x41000000, 0x40800000, &triggers::inventory_changed());
        // Diamonds!
        self.adv("story/mine_diamond", Some("story/iron_tools"), "diamond", "Diamonds!", "Acquire diamonds", AdvancementFrame::Task, None, 0x40e00000, 0x3f800000, &triggers::inventory_changed());
        // We Need to Go Deeper
        self.adv("story/enter_the_nether", Some("story/form_obsidian"), "flint_and_steel", "We Need to Go Deeper", "Build, light and enter a Nether Portal", AdvancementFrame::Task, None, 0x41200000, 0x40800000, &triggers::changed_dimension());
        // Cover Me with Diamonds
        self.adv("story/shiny_gear", Some("story/mine_diamond"), "diamond_chestplate", "Cover Me with Diamonds", "Diamond armor saves lives", AdvancementFrame::Task, None, 0x41100000, 0x3f800000, &triggers::inventory_changed());
        // Enchanter
        self.adv("story/enchant_item", Some("story/mine_diamond"), "enchanting_table", "Enchanter", "Enchant an item at an Enchanting Table", AdvancementFrame::Task, None, 0x40e00000, 0xbf800000, &triggers::inventory_changed());
        // Zombie Doctor
        self.adv("story/cure_zombie_villager", Some("story/enter_the_nether"), "golden_apple", "Zombie Doctor", "Weaken and then cure a Zombie Villager", AdvancementFrame::Goal, None, 0x41400000, 0x40800000, &triggers::villager_trade());
        // Eye Spy
        self.adv("story/follow_ender_eye", Some("story/enter_the_nether"), "ender_eye", "Eye Spy", "Follow an Eye of Ender", AdvancementFrame::Task, None, 0x41200000, 0x40000000, &triggers::location());
        // The End?
        self.adv("story/enter_the_end", Some("story/follow_ender_eye"), "end_stone", "The End?", "Enter the End Portal", AdvancementFrame::Task, None, 0x41400000, 0x40000000, &triggers::changed_dimension());
    }

    /// Registers the built-in advancements of the Nether tab.
    fn register_nether_advancements(&mut self)
        requires
            old(self).wf(),
        ensures
            final(self).wf(),
            final(self).placed_map().dom() == old(self).placed_map().dom().union(nether_ids()),
            forall|k: IdView|
                old(self).placed_map().contains_key(k) && !nether_ids().contains(k)
                    ==> #[trigger] final(self).placed_map()[k].entry == old(self).placed_map()[k].entry,
            final(self).roots_spec().len() == old(self).roots_spec().len() + 1,
            final(self).roots_spec().drop_last() == old(self).roots_spec(),
            final(self).roots_spec().last()@ == (vanilla_namespace(), "nether/root"@),
    {
        let bg: Option<&str> = Some("textures/gui/advancements/backgrounds/nether.png");
        // Root: Nether
        self.adv("nether/root", None, "red_nether_bricks", "Nether", "Bring summer clothes", AdvancementFrame::Task, bg, 0x00000000, 0x00000000, &triggers::changed_dimension());
        // Return to Sender
        self.adv("nether/return_to_sender", Some("nether/root"), "fire_charge", "Return to Sender", "Destroy a Ghast with a fireball", AdvancementFrame::Challenge, None, 0x40800000, 0x00000000, &triggers::player_killed_entity());
        // Those Were the Days
        self.adv("nether/find_bastion", Some("nether/root"), "polished_blackstone_bricks", "Those Were the Days", "Enter a Bastion Remnant", AdvancementFrame::Task, None, 0x40000000, 0x40000000, &triggers::location());
        // Hidden in the Depths
        self.adv("nether/obtain_ancient_debris", Some("nether/root"), "ancient_debris", "Hidden in the Depths", "Obtain Ancient Debris", AdvancementFrame::Task, None, 0x40000000, 0xc0000000, &triggers::inventory_changed());
        // Subspace Bubble
        self.adv("nether/fast_travel", Some("nether/root"), "map", "Subspace Bubble", "Use the Nether to travel 7 km in the Overworld", AdvancementFrame::Challenge, None, 0x40000000, 0x00000000, &triggers::nether_travel());
        // A Terrible Fortress
        self.adv("nether/find_fortress", Some("nether/root"), "nether_bricks", "A Terrible Fortress", "Break your way into a Nether Fortress", AdvancementFrame::Task, None, 0x40800000, 0x40000000, &triggers::location());
        // Who is Cutting Onions?
        self.adv("nether/obtain_crying_obsidian", Some("nether/root"), "crying_obsidian", "Who is Cutting Onions?", "Obtain Crying Obsidian", AdvancementFrame::Task, None, 0x00000000, 0x40000000, &triggers::inventory_changed());
        // Oh Shiny
        self.adv("nether/distract_piglin", Some("nether/root"), "gold_ingot", "Oh Shiny", "Distract Piglins with gold", AdvancementFrame::Task, None, 0x00000000, 0xc0000000, &triggers::thrown_item_picked_up_by_entity());
        // This Boat Has Legs
        self.adv("nether/ride_strider", Some("nether/root"), "warped_fungus_on_a_stick", "This Boat Has Legs", "Ride a Strider with a Warped Fungus on a Stick", AdvancementFrame::Task, None, 0xc0000000, 0x00000000, &triggers::started_riding());
        // Uneasy Alliance
        self.adv("nether/uneasy_alliance", Some("nether/return_to_sender"), "ghast_tear", "Uneasy Alliance", "Rescue a Ghast from the Nether, bring it safely home to the Overworld... and then kill it", AdvancementFrame::Challenge, None, 0x40c00000, 0x00000000, &triggers::player_killed_entity());
        // War Pigs
        self.adv("nether/loot_bastion", Some("nether/find_bastion"), "chest", "War Pigs", "Loot a chest in a Bastion Remnant", AdvancementFrame::Task, None, 0x40800000, 0x40800000, &triggers::inventory_changed());
        // Country Lode, Take Me Home
        self.adv("nether/use_lodestone", Some("nether/obtain_ancient_debris"), "lodestone", "Country Lode, Take Me Home", "Use a Compass on a Lodestone", AdvancementFrame::Task, None, 0x40800000, 0xc0000000, &triggers::item_used_on_block());
        // Cover Me in Debris
        self.adv("nether/netherite_armor", Some("nether/obtain_ancient_debris"), "netherite_chestplate", "Cover Me in Debris", "Get a full suit of Netherite armor", AdvancementFrame::Challenge, None, 0x40000000, 0xc0800000, &triggers::inventory_changed());
        // Spooky Scary Skeleton
        self.adv("nether/get_wither_skull", Some("nether/find_fortress"), "wither_skeleton_skull", "Spooky Scary Skeleton", "Obtain a Wither Skeleton's skull", AdvancementFrame::Task, None, 0x40c00000, 0x40000000, &triggers::inventory_changed());
        // Into Fire
        self.adv("nether/obtain_blaze_rod", Some("nether/find_fortress"), "blaze_rod", "Into Fire", "Relieve a Blaze of its rod", AdvancementFrame::Task, None, 0x40800000, 0x40c00000, &triggers::inventory_changed());
        // Not Quite \"Nine\" Lives
        self.adv("nether/charge_respawn_anchor", Some("nether/obtain_crying_obsidian"), "respawn_anchor", "Not Quite \"Nine\" Lives", "Charge a Respawn Anchor to the maximum", AdvancementFrame::Task, None, 0x00000000, 0x40800000, &triggers::item_used_on_block());
        // Feel the Burn (renamed from Feels like home)
        self.adv("nether/ride_strider_in_overworld_lava", Some("nether/ride_strider"), "strider_spawn_egg", "Feels Like Home", "Take a Strider for a loooong ride on a lava lake in the Overworld", AdvancementFrame::Task, None, 0xc0800000, 0x00000000, &triggers::started_riding());
        // Withering Heights
        self.adv("nether/summon_wither", Some("nether/get_wither_skull"), "nether_star", "Withering Heights", "Summon the Wither", AdvancementFrame::Task, None, 0x41000000, 0x40000000, &triggers::summoned_entity());
        // Local Brewery
        self.adv("nether/brew_potion", Some("nether/obtain_blaze_rod"), "potion", "Local Brewery", "Brew a Potion", AdvancementFrame::Task, None, 0x40800000, 0x41000000, &triggers::brewed_potion());
        // Bring Home the Beacon
        self.adv("nether/create_beacon", Some("nether/summon_wither"), "beacon", "Bring Home the Beacon", "Construct and place a Beacon", AdvancementFrame::Task, None, 0x41200000, 0x40000000, &triggers::construct_beacon());
        // A Furious Cocktail
        self.adv("nether/all_potions", Some("nether/brew_potion"), "milk_bucket", "A Furious Cocktail", "Have every potion effect applied at the same time", AdvancementFrame::Challenge, None, 0x40800000, 0x41200000, &triggers::effects_changed());
        // Beaconator
        self.adv("nether/create_full_beacon", Some("nether/create_beacon"), "beacon", "Beaconator", "Bring a Beacon to full power", AdvancementFrame::Goal, None, 0x41400000, 0x40000000, &triggers::construct_beacon());
        // How Did We Get Here?
        self.adv_hidden("nether/all_effects", "nether/all_potions", "bucket", "How Did We Get Here?", "Have every effect applied at the same time", AdvancementFrame::Challenge, 0x40800000, 0x41400000, &triggers::effects_changed());
        // Hot Tourist Destinations
        self.adv("nether/explore_nether", Some("nether/fast_travel"), "netherite_boots", "Hot Tourist Destinations", "Explore all Nether biomes", AdvancementFrame::Challenge, None, 0x40000000, 0xc0800000, &triggers::location());
    }

    /// Registers the built-in advancements of the End tab.
    fn register_end_advancements(&mut self)
        requires
            old(self).wf(),
        ensures
            final(self).wf(),
            final(self).placed_map().dom() == old(self).placed_map().dom().union(end_ids()),
            forall|k: IdView|
                old(self).placed_map().contains_key(k) && !end_ids().contains(k)
                    ==> #[trigger] final(self).placed_map()[k].entry == old(self).placed_map()[k].entry,
            final(self).roots_spec().len() == old(self).roots_spec().len() + 1,
            final(self).roots_spec().drop_last() == old(self).roots_spec(),
            final(self).roots_spec().last()@ == (vanilla_namespace(), "end/root"@),
    {
        let bg: Option<&str> = Some("textures/gui/advancements/backgrounds/end.png");
        // Root: The End
        self.adv("end/root", None, "end_stone", "The End", "Or the beginning?", AdvancementFrame::Task, bg, 0x00000000, 0x00000000, &triggers::changed_dimension());
        // Free the End
        self.adv("end/kill_dragon", Some("end/root"), "dragon_head", "Free the End", "Good luck", AdvancementFrame::Task, None, 0x40800000, 0x00000000, &triggers::player_killed_entity());
        // The Next Generation
        self.adv("end/dragon_egg", Some("end/kill_dragon"), "dragon_egg", "The Next Generation", "Hold the Dragon Egg", AdvancementFrame::Goal, None, 0x40c00000, 0x00000000, &triggers::inventory_changed());
        // Remote Getaway
        self.adv("end/enter_end_gateway", Some("end/kill_dragon"), "ender_pearl", "Remote Getaway", "Escape the island", AdvancementFrame::Task, None, 0x40800000, 0x40000000, &triggers::location());
        // The End... Again...
        self.adv("end/respawn_dragon", Some("end/kill_dragon"), "end_crystal", "The End... Again...", "Respawn the Ender Dragon", AdvancementFrame::Goal, None, 0x40800000, 0xc0000000, &triggers::summoned_entity());
        // You Need a Mint
        self.adv("end/dragon_breath", Some("end/kill_dragon"), "dragon_breath", "You Need a Mint", "Collect Dragon's Breath in a Glass Bottle", AdvancementFrame::Goal, None, 0x40c00000, 0x40000000, &triggers::inventory_changed());
        // The City at the End of the Game
        self.adv("end/find_end_city", Some("end/enter_end_gateway"), "purpur_block", "The City at the End of the Game", "Go on in, what could happen?", AdvancementFrame::Task, None, 0x40800000, 0x40800000, &triggers::location());
        // Sky's the Limit
        self.adv("end/elytra", Some("end/find_end_city"), "elytra", "Sky's the Limit", "Find Elytra", AdvancementFrame::Goal, None, 0x40c00000, 0x40800000, &triggers::inventory_changed());
        // Great View From Up Here
        self.adv("end/levitate", Some("end/find_end_city"), "shulker_shell", "Great View From Up Here", "Levitate up 50 blocks from the attacks of a Shulker", AdvancementFrame::Challenge, None, 0x40000000, 0x40800000, &triggers::levitation());
    }

    /// Registers the built-in advancements of the adventure tab.
    fn register_adventure_advancements(&mut self)
        requires
            old(self).wf(),
        ensures
            final(self).wf(),
            final(self).placed_map().dom() == old(self).placed_map().dom().union(adventure_first_ids().union(adventure_second_ids())),
            forall|k: IdView|
                old(self).placed_map().contains_key(k) && !adventure_first_ids().union(adventure_second_ids()).contains(k)
                    ==> #[trigger] final(self).placed_map()[k].entry == old(self).placed_map()[k].entry,
            final(self).roots_spec().len() == old(self).roots_spec().len() + 1,
            final(self).roots_spec().drop_last() == old(self).roots_spec(),
            final(self).roots_spec().last()@ == (vanilla_namespace(), "adventure/root"@),
    {
        let bg: Option<&str> = Some("textures/gui/advancements/backgrounds/adventure.png");
        // Root: Adventure
        self.adv("adventure/root", None, "map", "Adventure", "Adventure, exploration and combat", AdvancementFrame::Task, bg, 0x00000000, 0x00000000, &triggers::location());
        // Voluntary Exile
        self.adv("adventure/voluntary_exile", Some("adventure/root"), "ominous_banner", "Voluntary Exile", "Kill a raid captain. Maybe consider staying away from villages for the time being...", AdvancementFrame::Task, None, 0x40000000, 0xc0800000, &triggers::player_killed_entity());
        // Is It a Bird?
        self.adv("adventure/spyglass_at_parrot", Some("adventure/root"), "spyglass", "Is It a Bird?", "Look at a Parrot through a Spyglass", AdvancementFrame::Task, None, 0xc0000000, 0xc0800000, &triggers::using_item());
        // Monster Hunter
        self.adv("adventure/kill_a_mob", Some("adventure/root"), "iron_sword", "Monster Hunter", "Kill any hostile monster", AdvancementFrame::Task, None, 0x40000000, 0x40000000, &triggers::player_killed_entity());
        // The Power of Books
        self.adv("adventure/read_power_of_chiseled_bookshelf", Some("adventure/root"), "chiseled_bookshelf", "The Power of Books", "Read the power signal of a Chiseled Bookshelf using a Comparator", AdvancementFrame::Task, None, 0xc0000000, 0x40000000, &triggers::item_used_on_block());
        // What a Deal!
        self.adv("adventure/trade", Some("adventure/root"), "emerald", "What a Deal!", "Successfully trade with a Villager", AdvancementFrame::Task, None, 0x00000000, 0x40000000, &triggers::villager_trade());
        // Crafting a New Look
        self.adv("adventure/trim_with_any_armor_pattern", Some("adventure/root"), "dune_armor_trim_smithing_template", "Crafting a New Look", "Craft a trimmed armor at a Smithing Table", AdvancementFrame::Task, None, 0xc0000000, 0x00000000, &triggers::recipe_crafted());
        // Sticky Situation
        self.adv("adventure/honey_block_slide", Some("adventure/root"), "honey_block", "Sticky Situation", "Jump into a Honey Block to break your fall", AdvancementFrame::Task, None, 0x00000000, 0xc0000000, &triggers::location());
        // Sweet Dreams
        self.adv("adventure/sleep_in_bed", Some("adventure/root"), "red_bed", "Sweet Dreams", "Sleep in a Bed to change your respawn point", AdvancementFrame::Task, None, 0x40000000, 0x00000000, &triggers::slept_in_bed());
        // Hero of the Village
        self.adv("adventure/hero_of_the_village", Some("adventure/voluntary_exile"), "ominous_banner", "Hero of the Village", "Successfully defend a village from a raid", AdvancementFrame::Challenge, None, 0x40000000, 0xc0c00000, &triggers::hero_of_the_village());
        // Is It a Balloon?
        self.adv("adventure/spyglass_at_ghast", Some("adventure/spyglass_at_parrot"), "spyglass", "Is It a Balloon?", "Look at a Ghast through a Spyglass", AdvancementFrame::Task, None, 0xc0800000, 0xc0800000, &triggers::using_item());
        // A Throwaway Joke
        self.adv("adventure/throw_trident", Some("adventure/kill_a_mob"), "trident", "A Throwaway Joke", "Throw a Trident at something. Note: Throwing away your only weapon is not a good idea.", AdvancementFrame::Task, None, 0x40c00000, 0x40000000, &triggers::player_hurt_entity());
        // It Spreads
        self.adv("adventure/kill_mob_near_sculk_catalyst", Some("adventure/kill_a_mob"), "sculk_catalyst", "It Spreads", "Kill a mob near a Sculk Catalyst", AdvancementFrame::Task, None, 0x40000000, 0x40800000, &triggers::player_killed_entity());
        // Take Aim
        self.adv("adventure/shoot_arrow", Some("adventure/kill_a_mob"), "bow", "Take Aim", "Shoot something with an Arrow", AdvancementFrame::Task, None, 0x40800000, 0x00000000, &triggers::player_hurt_entity());
        // Monsters Hunted
        self.adv("adventure/kill_all_mobs", Some("adventure/kill_a_mob"), "diamond_sword", "Monsters Hunted", "Kill one of every hostile monster", AdvancementFrame::Challenge, None, 0x40000000, 0x40c00000, &triggers::player_killed_entity());
        // Postmortal
        self.adv("adventure/totem_of_undying", Some("adventure/kill_a_mob"), "totem_of_undying", "Postmortal", "Use a Totem of Undying to cheat death", AdvancementFrame::Goal, None, 0x40800000, 0x40800000, &triggers::used_totem());
        // Hired Help
        self.adv("adventure/summon_iron_golem", Some("adventure/trade"), "carved_pumpkin", "Hired Help", "Summon an Iron Golem to help defend a village", AdvancementFrame::Goal, None, 0x00000000, 0x40800000, &triggers::summoned_entity());
        // Star Trader
        self.adv("adventure/trade_at_world_height", Some("adventure/trade"), "emerald", "Star Trader", "Trade with a Villager at the build height limit", AdvancementFrame::Task, None, 0xc0000000, 0x40800000, &triggers::villager_trade());
        // Smithing with Style
        self.adv("adventure/trim_with_all_exclusive_armor_patterns", Some("adventure/trim_with_any_armor_pattern"), "silence_armor_trim_smithing_template", "Smithing with Style", "Apply these smithing templates at least once: Spire, Snout, Rib, Ward, Silence, Vex, Tide, Wayfinder", AdvancementFrame::Challenge, None, 0xc0800000, 0x00000000, &triggers::recipe_crafted());
        self.register_adventure_advancements_part2();
    }

    /// Registers the built-in advancements of the second half of the adventure tab.
    fn register_adventure_advancements_part2(&mut self)
        requires
            old(self).wf(),
        ensures
            final(self).wf(),
            final(self).placed_map().dom() == old(self).placed_map().dom().union(adventure_second_ids()),
            forall|k: IdView|
                old(self).placed_map().contains_key(k) && !adventure_second_ids().contains(k)
                    ==> #[trigger] final(self).placed_map()[k].entry == old(self).placed_map()[k].entry,
            final(self).roots_spec() == old(self).roots_spec(),
    {
        // Is It a Plane?
        self.adv("adventure/spyglass_at_dragon", Some("adventure/spyglass_at_ghast"), "spyglass", "Is It a Plane?", "Look at the Ender Dragon through a Spyglass", AdvancementFrame::Task, None, 0xc0c00000, 0xc0800000, &triggers::using_item());
        // Very Very Frightening
        self.adv("adventure/very_very_frightening", Some("adventure/throw_trident"), "trident", "Very Very Frightening", "Strike a Villager with lightning", AdvancementFrame::Task, None, 0x41000000, 0x40000000, &triggers::channeled_lightning());
        // Sniper Duel
        self.adv("adventure/sniper_duel", Some("adventure/shoot_arrow"), "arrow", "Sniper Duel", "Kill a Skeleton from at least 50 meters away", AdvancementFrame::Challenge, None, 0x40800000, 0xc0000000, &triggers::player_killed_entity());
        // Bullseye
        self.adv("adventure/bullseye", Some("adventure/shoot_arrow"), "target", "Bullseye", "Hit the bullseye of a Target block from at least 30 meters away", AdvancementFrame::Challenge, None, 0x40c00000, 0x00000000, &triggers::target_hit());
        // Caves & Cliffs
        self.adv("adventure/fall_from_world_height", Some("adventure/totem_of_undying"), "water_bucket", "Caves & Cliffs", "Free fall from the top of the world (build limit) to the bottom of the world and survive", AdvancementFrame::Task, None, 0x40800000, 0x40c00000, &triggers::fall_from_height());
        // Respecting the Remnants
        self.adv("adventure/avoid_vibration", Some("adventure/kill_mob_near_sculk_catalyst"), "sculk_sensor", "Respecting the Remnants", "Sneak near a Sculk Sensor or Warden to prevent it from detecting you", AdvancementFrame::Task, None, 0x40000000, 0x41000000, &triggers::avoid_vibration());
        // Sneak 100
        self.adv("adventure/sneak_while_mining", Some("adventure/avoid_vibration"), "swift_sneak_smithing_template", "Sneak 100", "Sneak near a Sculk Sensor without triggering it", AdvancementFrame::Task, None, 0x40000000, 0x41200000, &triggers::avoid_vibration());
        // Two Birds, One Arrow
        self.adv("adventure/two_birds_one_arrow", Some("adventure/sniper_duel"), "crossbow", "Two Birds, One Arrow", "Kill two Phantoms with a piercing Arrow", AdvancementFrame::Challenge, None, 0x40800000, 0xc0800000, &triggers::player_killed_entity());
        // Who's the Pillager Now?
        self.adv("adventure/whos_the_pillager_now", Some("adventure/sniper_duel"), "crossbow", "Who's the Pillager Now?", "Give a Pillager a taste of their own medicine", AdvancementFrame::Task, None, 0x40c00000, 0xc0000000, &triggers::player_killed_entity());
        // Arbalistic
        self.adv("adventure/arbalistic", Some("adventure/sniper_duel"), "crossbow", "Arbalistic", "Kill five unique mobs with one crossbow shot", AdvancementFrame::Challenge, None, 0x40000000, 0xc0800000, &triggers::killed_by_crossbow());
        // Careful Restoration
        self.adv("adventure/craft_decorated_pot_using_only_sherds", Some("adventure/sneak_while_mining"), "decorated_pot", "Careful Restoration", "Make a Decorated Pot out of 4 Pottery Sherds", AdvancementFrame::Task, None, 0x40000000, 0x41400000, &triggers::recipe_crafted());
        // Adventuring Time
        self.adv("adventure/adventuring_time", Some("adventure/sleep_in_bed"), "diamond_boots", "Adventuring Time", "Discover every biome", AdvancementFrame::Challenge, None, 0x40800000, 0x40000000, &triggers::location());
        // Sound of Music
        self.adv("adventure/play_jukebox_in_meadows", Some("adventure/sleep_in_bed"), "jukebox", "Sound of Music", "Make the Meadows come alive with the sound of music from a Jukebox", AdvancementFrame::Task, None, 0x40000000, 0xc0000000, &triggers::item_used_on_block());
        // Light as a Rabbit
        self.adv("adventure/walk_on_powder_snow_with_leather_boots", Some("adventure/sleep_in_bed"), "leather_boots", "Light as a Rabbit", "Walk on Powder Snow without sinking in it", AdvancementFrame::Task, None, 0x00000000, 0xc0800000, &triggers::location());
        // Surge Protector
        self.adv("adventure/lightning_rod_with_villager_no_fire", Some("adventure/very_very_frightening"), "lightning_rod", "Surge Protector", "Protect a Villager from an undesired shock without starting a fire", AdvancementFrame::Task, None, 0x41200000, 0x40000000, &triggers::lightning_strike());
        // Under Lock and Key
        self.adv("adventure/salvage_sherd", Some("adventure/craft_decorated_pot_using_only_sherds"), "brush", "Under Lock and Key", "Unlock a Trial Chamber Vault with a Trial Key", AdvancementFrame::Task, None, 0x40800000, 0x41400000, &triggers::item_used_on_block());
        // Revaulting
        self.adv("adventure/ominous_trial_omen", Some("adventure/salvage_sherd"), "ominous_trial_key", "Revaulting", "Unlock an Ominous Trial Chamber Vault", AdvancementFrame::Challenge, None, 0x40c00000, 0x41400000, &triggers::item_used_on_block());
        // Blowback
        self.adv("adventure/blowback", Some("adventure/salvage_sherd"), "wind_charge", "Blowback", "Kill a Breeze with a deflected Breeze-shot Wind Charge", AdvancementFrame::Challenge, None, 0x40800000, 0x41600000, &triggers::player_killed_entity());
        // Who Needs Rockets?
        self.adv("adventure/who_needs_rockets", Some("adventure/blowback"), "wind_charge", "Who Needs Rockets?", "Use a Wind Charge to launch yourself upward at least 8 blocks", AdvancementFrame::Task, None, 0x40800000, 0x41800000, &triggers::fall_after_explosion());
        // Minecraft: Trial(s) Edition
        self.adv("adventure/minecraft_trials_edition", Some("adventure/ominous_trial_omen"), "trial_spawner", "Minecraft: Trial(s) Edition", "Defeat all unique mobs in a Trial Chamber", AdvancementFrame::Challenge, None, 0x41000000, 0x41400000, &triggers::player_killed_entity());
        // Ol' Betsy
        self.adv("adventure/ol_betsy", Some("adventure/kill_a_mob"), "crossbow", "Ol' Betsy", "Shoot a Crossbow", AdvancementFrame::Task, None, 0x40c00000, 0x40800000, &triggers::shot_crossbow());
    }

    /// Registers the built-in advancements of the husbandry tab.
    fn register_husbandry_advancements(&mut self)
        requires
            old(self).wf(),
        ensures
            final(self).wf(),
            final(self).placed_map().dom() == old(self).placed_map().dom().union(husbandry_ids()),
            forall|k: IdView|
                old(self).placed_map().contains_key(k) && !husbandry_ids().contains(k)
                    ==> #[trigger] final(self).placed_map()[k].entry == old(self).placed_map()[k].entry,
            final(self).roots_spec().len() == old(self).roots_spec().len() + 1,
            final(self).roots_spec().drop_last() == old(self).roots_spec(),
            final(self).roots_spec().last()@ == (vanilla_namespace(), "husbandry/root"@),
    {
        let bg: Option<&str> = Some("textures/gui/advancements/backgrounds/husbandry.png");
        // Root: Husbandry
        self.adv("husbandry/root", None, "hay_block", "Husbandry", "The world is full of friends and food", AdvancementFrame::Task, bg, 0x00000000, 0x00000000, &triggers::consume_item());
        // Bee Our Guest
        self.adv("husbandry/safely_harvest_honey", Some("husbandry/root"), "bee_nest", "Bee Our Guest", "Use a Campfire to collect Honey from a Beehive using a Bottle without aggravating the bees", AdvancementFrame::Task, None, 0x40000000, 0xc0800000, &triggers::item_used_on_block());
        // The Parrots and the Bats
        self.adv("husbandry/breed_an_animal", Some("husbandry/root"), "wheat", "The Parrots and the Bats", "Breed two animals together", AdvancementFrame::Task, None, 0x40000000, 0x40000000, &triggers::bred_animals());
        // You've Got a Friend in Me
        self.adv("husbandry/allay_deliver_item_to_player", Some("husbandry/root"), "allay_spawn_egg", "You've Got a Friend in Me", "Have an Allay deliver items to you", AdvancementFrame::Task, None, 0xc0000000, 0x00000000, &triggers::allay_drop_item_on_block());
        // Whatever Floats Your Goat!
        self.adv("husbandry/ride_a_boat_with_a_goat", Some("husbandry/root"), "oak_boat", "Whatever Floats Your Goat!", "Get in a Boat and float with a Goat", AdvancementFrame::Task, None, 0x00000000, 0x40000000, &triggers::started_riding());
        // Best Friends Forever
        self.adv("husbandry/tame_an_animal", Some("husbandry/root"), "lead", "Best Friends Forever", "Tame an animal", AdvancementFrame::Task, None, 0xc0000000, 0x40000000, &triggers::tame_animal());
        // Glow and Behold!
        self.adv("husbandry/make_a_sign_glow", Some("husbandry/root"), "glow_ink_sac", "Glow and Behold!", "Make the text of any kind of sign glow", AdvancementFrame::Task, None, 0x00000000, 0xc0000000, &triggers::item_used_on_block());
        // Fishy Business
        self.adv("husbandry/fishy_business", Some("husbandry/root"), "fishing_rod", "Fishy Business", "Catch a fish", AdvancementFrame::Task, None, 0x40000000, 0x00000000, &triggers::fishing_rod_hooked());
        // Total Beelocation
        self.adv("husbandry/silk_touch_nest", Some("husbandry/safely_harvest_honey"), "bee_nest", "Total Beelocation", "Move a Bee Nest, with 3 bees inside, using Silk Touch", AdvancementFrame::Task, None, 0x40000000, 0xc0c00000, &triggers::bee_nest_destroyed());
        // Wax On
        self.adv("husbandry/wax_on", Some("husbandry/safely_harvest_honey"), "honeycomb", "Wax On", "Apply Honeycomb to a Copper block!", AdvancementFrame::Task, None, 0x40800000, 0xc0800000, &triggers::item_used_on_block());
        // Two by Two
        self.adv("husbandry/bred_all_animals", Some("husbandry/breed_an_animal"), "golden_carrot", "Two by Two", "Breed all the animals!", AdvancementFrame::Challenge, None, 0x40000000, 0x40800000, &triggers::bred_animals());
        // Birthday Song
        self.adv("husbandry/allay_deliver_cake_to_note_block", Some("husbandry/allay_deliver_item_to_player"), "note_block", "Birthday Song", "Have an Allay drop a Cake at a Note Block", AdvancementFrame::Task, None, 0xc0800000, 0x00000000, &triggers::allay_drop_item_on_block());
        // A Complete Catalogue
        self.adv("husbandry/complete_catalogue", Some("husbandry/tame_an_animal"), "cod", "A Complete Catalogue", "Tame all cat variants!", AdvancementFrame::Challenge, None, 0xc0000000, 0x40800000, &triggers::tame_animal());
        // Tactical Fishing
        self.adv("husbandry/tactical_fishing", Some("husbandry/fishy_business"), "pufferfish_bucket", "Tactical Fishing", "Catch a Fish in a Bucket!", AdvancementFrame::Task, None, 0x40800000, 0x00000000, &triggers::filled_bucket());
        // When the Squad Hops into Town
        self.adv("husbandry/leash_all_frog_variants", Some("husbandry/breed_an_animal"), "lead", "When the Squad Hops into Town", "Get each Frog variant on a Lead", AdvancementFrame::Task, None, 0x00000000, 0x40800000, &triggers::player_interacted_with_entity());
        // Little Sniffs
        self.adv("husbandry/feed_snifflet", Some("husbandry/breed_an_animal"), "torchflower_seeds", "Little Sniffs", "Feed a Snifflet", AdvancementFrame::Task, None, 0x40800000, 0x40000000, &triggers::player_interacted_with_entity());
        // Wax Off
        self.adv("husbandry/wax_off", Some("husbandry/wax_on"), "stone_axe", "Wax Off", "Scrape Wax off of a Copper block!", AdvancementFrame::Task, None, 0x40c00000, 0xc0800000, &triggers::item_used_on_block());
        // The Cutest Predator
        self.adv("husbandry/axolotl_in_a_bucket", Some("husbandry/tactical_fishing"), "axolotl_bucket", "The Cutest Predator", "Catch an Axolotl in a Bucket", AdvancementFrame::Task, None, 0x40c00000, 0x00000000, &triggers::filled_bucket());
        // With Our Powers Combined!
        self.adv("husbandry/froglights", Some("husbandry/leash_all_frog_variants"), "verdant_froglight", "With Our Powers Combined!", "Have all Froglights in your inventory", AdvancementFrame::Task, None, 0x00000000, 0x40c00000, &triggers::inventory_changed());
        // Planting the Past
        self.adv("husbandry/plant_any_sniffer_seed", Some("husbandry/feed_snifflet"), "torchflower_seeds", "Planting the Past", "Plant any Sniffer seed", AdvancementFrame::Task, None, 0x40c00000, 0x40000000, &triggers::item_used_on_block());
        // The Healing Power of Friendship!
        self.adv("husbandry/kill_axolotl_target", Some("husbandry/axolotl_in_a_bucket"), "tropical_fish_bucket", "The Healing Power of Friendship!", "Team up with an axolotl and win a fight", AdvancementFrame::Task, None, 0x41000000, 0x00000000, &triggers::player_killed_entity());
        // A Balanced Diet
        self.adv("husbandry/balanced_diet", Some("husbandry/bred_all_animals"), "apple", "A Balanced Diet", "Eat everything that is edible, even if it's not good for you", AdvancementFrame::Challenge, None, 0x40000000, 0x40c00000, &triggers::consume_item());
        // Serious Dedication
        self.adv("husbandry/obtain_netherite_hoe", Some("husbandry/bred_all_animals"), "netherite_hoe", "Serious Dedication", "Use a Netherite Ingot to upgrade a Hoe, and then reevaluate your life choices", AdvancementFrame::Challenge, None, 0x40800000, 0x40800000, &triggers::inventory_changed());
        // A Seedy Place
        self.adv("husbandry/plant_seed", Some("husbandry/root"), "wheat_seeds", "A Seedy Place", "Plant a seed and watch it grow", AdvancementFrame::Task, None, 0xc0000000, 0xc0000000, &triggers::item_used_on_block());
        // Good as New
        self.adv("husbandry/repair_wolf_armor", Some("husbandry/tame_an_animal"), "wolf_armor", "Good as New", "Repair a damaged Wolf Armor using Armadillo Scutes", AdvancementFrame::Task, None, 0xc0800000, 0x40000000, &triggers::player_interacted_with_entity());
        // The Whole Pack
        self.adv("husbandry/whole_pack", Some("husbandry/complete_catalogue"), "bone", "The Whole Pack", "Tame all dog variants!", AdvancementFrame::Challenge, None, 0xc0000000, 0x40c00000, &triggers::tame_animal());
        // Shear Brilliance
        self.adv("husbandry/remove_wolf_armor", Some("husbandry/repair_wolf_armor"), "shears", "Shear Brilliance", "Remove Wolf Armor from a Wolf using Shears", AdvancementFrame::Task, None, 0xc0c00000, 0x40000000, &triggers::player_interacted_with_entity());
        // Smells Interesting
        self.adv("husbandry/obtain_sniffer_egg", Some("husbandry/plant_any_sniffer_seed"), "sniffer_egg", "Smells Interesting", "Obtain a Sniffer Egg", AdvancementFrame::Task, None, 0x41000000, 0x40000000, &triggers::inventory_changed());
    }
}

} // verus!
