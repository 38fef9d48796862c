use vstd::prelude::*;

use crate::util::resource_location::ResourceLocation;

verus! {

/// Whether an experience amount is zero.
pub fn is_zero(v: &i32) -> (r: bool)
    ensures
        r == (*v == 0),
{
    *v == 0
}

/// What a player receives on completing an advancement.
#[derive(Debug, Clone)]
pub struct AdvancementRewards {
    /// Experience points to grant.
    pub experience: i32,
    /// Recipes to unlock.
    pub recipes: Vec<ResourceLocation>,
    /// Loot table for item rewards.
    pub loot: Option<ResourceLocation>,
    /// Function to run on completion.
    pub function: Option<ResourceLocation>,
}

impl Default for AdvancementRewards {
    fn default() -> (r: Self)
        ensures
            r.is_empty_spec(),
    {
        Self::empty()
    }
}

impl AdvancementRewards {
    /// No experience, no recipe, no loot table and no function.
    pub open spec fn is_empty_spec(&self) -> bool {
        &&& self.experience == 0
        &&& self.recipes@.len() == 0
        &&& self.loot is None
        &&& self.function is None
    }

    /// Creates empty rewards.
    pub fn empty() -> (r: Self)
        ensures
            r.is_empty_spec(),
    {
        Self { experience: 0, recipes: Vec::new(), loot: None, function: None }
    }

    /// Creates rewards of experience only.
    pub fn with_experience(experience: i32) -> (r: Self)
        ensures
            r.experience == experience,
            r.recipes@.len() == 0,
            r.loot is None,
            r.function is None,
    {
        Self { experience, recipes: Vec::new(), loot: None, function: None }
    }

    /// Creates rewards that unlock recipes only.
    pub fn with_recipes(recipes: Vec<ResourceLocation>) -> (r: Self)
        ensures
            r.experience == 0,
            r.recipes@ == recipes@,
            r.loot is None,
            r.function is None,
    {
        Self { experience: 0, recipes, loot: None, function: None }
    }

    /// Returns whether these rewards give nothing.
    pub fn is_empty(&self) -> (r: bool)
        ensures
            r == self.is_empty_spec(),
    {
        self.experience == 0 && self.recipes.len() == 0 && self.loot.is_none()
            && self.function.is_none()
    }
}

} // verus!
