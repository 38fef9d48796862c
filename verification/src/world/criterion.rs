use vstd::prelude::*;

use crate::util::json::{find_field, lookup, JsonValue};
use crate::util::resource_location::ResourceLocation;

verus! {

/// A criterion that must be met to complete an advancement.
#[derive(Debug)]
pub struct AdvancementCriterion {
    /// The trigger that can meet it, such as `minecraft:inventory_changed`.
    pub trigger: ResourceLocation,
    /// The conditions the trigger's event must meet.
    pub conditions: Option<CriterionConditions>,
}

impl AdvancementCriterion {
    /// A criterion met by any event of `trigger`.
    pub fn new(trigger: ResourceLocation) -> (r: Self)
        ensures
            r.trigger == trigger,
            r.conditions is None,
    {
        Self { trigger, conditions: None }
    }

    /// A criterion met by events of `trigger` that meet `conditions`.
    pub fn with_conditions(trigger: ResourceLocation, conditions: CriterionConditions) -> (r: Self)
        ensures
            r.trigger == trigger,
            r.conditions == Some(conditions),
    {
        Self { trigger, conditions: Some(conditions) }
    }
}

/// The conditions of a criterion: the player's, and the other fields by name, whose meaning
/// depends on the trigger.
#[derive(Debug)]
pub struct CriterionConditions {
    /// The conditions on the player, if any.
    pub player: Option<JsonValue>,
    /// The other condition fields, each name once.
    pub other: Vec<(String, JsonValue)>,
}

/// The names of a list of named values, in order.
pub open spec fn field_names(fields: Seq<(String, JsonValue)>) -> Seq<Seq<char>> {
    fields.map_values(|f: (String, JsonValue)| f.0@)
}

impl CriterionConditions {
    /// No name occurs twice among the other fields.
    pub open spec fn wf(&self) -> bool {
        field_names(self.other@).no_duplicates()
    }

    /// The other field named `key`.
    pub open spec fn field(&self, key: Seq<char>) -> Option<JsonValue> {
        lookup(self.other@, key)
    }

    /// The string of the other field named `key`, when it is a string.
    pub open spec fn str_field(&self, key: Seq<char>) -> Option<Seq<char>> {
        match self.field(key) {
            Some(v) => v.str_of(),
            None => None,
        }
    }

    /// The minimum level the conditions ask for: the `min` of a `level` object, or a `level`
    /// number, when it is an `i64`.
    pub open spec fn level_spec(&self) -> Option<i64> {
        match self.field("level"@) {
            Some(v) => match v {
                JsonValue::Object(_) => match v.member("min"@) {
                    Some(m) => m.i64_of(),
                    None => None,
                },
                _ => v.i64_of(),
            },
            None => None,
        }
    }

    /// The `items` field, or else the `item` field.
    pub open spec fn items_spec(&self) -> Option<JsonValue> {
        match self.field("items"@) {
            Some(v) => Some(v),
            None => self.field("item"@),
        }
    }

    /// No conditions.
    pub fn empty() -> (r: Self)
        ensures
            r.player is None,
            r.other@.len() == 0,
            r.wf(),
    {
        let r = Self { player: None, other: Vec::new() };
        assert(field_names(r.other@) =~= Seq::<Seq<char>>::empty());
        r
    }

    /// Conditions on the player only.
    pub fn with_player(player: JsonValue) -> (r: Self)
        ensures
            r.player == Some(player),
            r.other@.len() == 0,
            r.wf(),
    {
        let r = Self { player: Some(player), other: Vec::new() };
        assert(field_names(r.other@) =~= Seq::<Seq<char>>::empty());
        r
    }

    /// The other field named `key`.
    pub fn get(&self, key: &str) -> (r: Option<&JsonValue>)
        ensures
            match r {
                Some(v) => self.field(key@) == Some(*v),
                None => self.field(key@) is None,
            },
    {
        find_field(&self.other, key)
    }

    /// The item condition (of `inventory_changed`, `consume_item` and the like): the `items`
    /// field, or else the `item` field.
    pub fn get_items(&self) -> (r: Option<&JsonValue>)
        ensures
            match r {
                Some(v) => self.items_spec() == Some(*v),
                None => self.items_spec() is None,
            },
    {
        match self.get("items") {
            Some(v) => Some(v),
            None => self.get("item"),
        }
    }

    /// The `entity` condition (of `player_killed_entity` and the like).
    pub fn get_entity(&self) -> (r: Option<&JsonValue>)
        ensures
            match r {
                Some(v) => self.field("entity"@) == Some(*v),
                None => self.field("entity"@) is None,
            },
    {
        self.get("entity")
    }

    /// The `effects` condition (of `effects_changed`).
    pub fn get_effects(&self) -> (r: Option<&JsonValue>)
        ensures
            match r {
                Some(v) => self.field("effects"@) == Some(*v),
                None => self.field("effects"@) is None,
            },
    {
        self.get("effects")
    }

    /// The `block` condition.
    pub fn get_block(&self) -> (r: Option<&JsonValue>)
        ensures
            match r {
                Some(v) => self.field("block"@) == Some(*v),
                None => self.field("block"@) is None,
            },
    {
        self.get("block")
    }

    /// The `location` condition.
    pub fn get_location(&self) -> (r: Option<&JsonValue>)
        ensures
            match r {
                Some(v) => self.field("location"@) == Some(*v),
                None => self.field("location"@) is None,
            },
    {
        self.get("location")
    }

    /// The `distance` condition.
    pub fn get_distance(&self) -> (r: Option<&JsonValue>)
        ensures
            match r {
                Some(v) => self.field("distance"@) == Some(*v),
                None => self.field("distance"@) is None,
            },
    {
        self.get("distance")
    }

    /// The string of the field `key`, when it is a string.
    fn get_str(&self, key: &str) -> (r: Option<&str>)
        ensures
            match r {
                Some(s) => self.str_field(key@) == Some(s@),
                None => self.str_field(key@) is None,
            },
    {
        match self.get(key) {
            Some(v) => match v.as_str() {
                Some(s) => Some(s.as_str()),
                None => None,
            },
            None => None,
        }
    }

    /// The dimension the player comes from (of `changed_dimension`).
    pub fn get_from_dimension(&self) -> (r: Option<&str>)
        ensures
            match r {
                Some(s) => self.str_field("from"@) == Some(s@),
                None => self.str_field("from"@) is None,
            },
    {
        self.get_str("from")
    }

    /// The dimension the player goes to (of `changed_dimension`).
    pub fn get_to_dimension(&self) -> (r: Option<&str>)
        ensures
            match r {
                Some(s) => self.str_field("to"@) == Some(s@),
                None => self.str_field("to"@) is None,
            },
    {
        self.get_str("to")
    }

    /// The recipe (of `recipe_crafted`).
    pub fn get_recipe_id(&self) -> (r: Option<&str>)
        ensures
            match r {
                Some(s) => self.str_field("recipe_id"@) == Some(s@),
                None => self.str_field("recipe_id"@) is None,
            },
    {
        self.get_str("recipe_id")
    }

    /// The potion (of `brewed_potion`).
    pub fn get_potion(&self) -> (r: Option<&str>)
        ensures
            match r {
                Some(s) => self.str_field("potion"@) == Some(s@),
                None => self.str_field("potion"@) is None,
            },
    {
        self.get_str("potion")
    }

    /// The minimum beacon level (of `construct_beacon`).
    pub fn get_level(&self) -> (r: Option<i64>)
        ensures
            r == self.level_spec(),
    {
        match self.get("level") {
            Some(v) => match v.as_object() {
                Some(_) => match v.get("min") {
                    Some(m) => m.as_i64(),
                    None => None,
                },
                None => v.as_i64(),
            },
            None => None,
        }
    }
}

/// The criteria of an advancement by name, in the order they were given; each name once.
pub type CriteriaMap = Vec<(String, AdvancementCriterion)>;

/// The names of a list of criteria, in order.
pub open spec fn criteria_names(criteria: Seq<(String, AdvancementCriterion)>) -> Seq<Seq<char>> {
    criteria.map_values(|c: (String, AdvancementCriterion)| c.0@)
}

/// Copies the names of a list of criteria, in order.
pub fn criteria_keys(criteria: &CriteriaMap) -> (r: Vec<String>)
    ensures
        r.deep_view() == criteria_names(criteria@),
{
    let mut r: Vec<String> = Vec::new();
    let mut i: usize = 0;
    while i < criteria.len()
        invariant
            0 <= i <= criteria@.len(),
            r.deep_view() == criteria_names(criteria@).take(i as int),
        decreases criteria@.len() - i,
    {
        let ghost before = r.deep_view();
        r.push(criteria[i].0.clone());
        assert(r.deep_view() =~= before.push(criteria[i as int].0@));
        assert(r.deep_view() =~= criteria_names(criteria@).take(i as int + 1));
        i += 1;
    }
    assert(criteria_names(criteria@).take(criteria@.len() as int) =~= criteria_names(criteria@));
    r
}

} // verus!
