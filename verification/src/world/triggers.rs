use vstd::prelude::*;

use crate::util::resource_location::{vanilla_namespace, ResourceLocation};

verus! {

/// The trigger `minecraft:impossible`.
pub fn impossible() -> (r: ResourceLocation)
    ensures
        r@ == (vanilla_namespace(), "impossible"@),
{
    ResourceLocation::vanilla("impossible")
}

/// The trigger `minecraft:tick`.
pub fn tick() -> (r: ResourceLocation)
    ensures
        r@ == (vanilla_namespace(), "tick"@),
{
    ResourceLocation::vanilla("tick")
}

/// The trigger `minecraft:player_killed_entity`.
pub fn player_killed_entity() -> (r: ResourceLocation)
    ensures
        r@ == (vanilla_namespace(), "player_killed_entity"@),
{
    ResourceLocation::vanilla("player_killed_entity")
}

/// The trigger `minecraft:entity_killed_player`.
pub fn entity_killed_player() -> (r: ResourceLocation)
    ensures
        r@ == (vanilla_namespace(), "entity_killed_player"@),
{
    ResourceLocation::vanilla("entity_killed_player")
}

/// The trigger `minecraft:kill_mob_near_sculk_catalyst`.
pub fn kill_mob_near_sculk_catalyst() -> (r: ResourceLocation)
    ensures
        r@ == (vanilla_namespace(), "kill_mob_near_sculk_catalyst"@),
{
    ResourceLocation::vanilla("kill_mob_near_sculk_catalyst")
}

/// The trigger `minecraft:enter_block`.
pub fn enter_block() -> (r: ResourceLocation)
    ensures
        r@ == (vanilla_namespace(), "enter_block"@),
{
    ResourceLocation::vanilla("enter_block")
}

/// The trigger `minecraft:location`.
pub fn location() -> (r: ResourceLocation)
    ensures
        r@ == (vanilla_namespace(), "location"@),
{
    ResourceLocation::vanilla("location")
}

/// The trigger `minecraft:slept_in_bed`.
pub fn slept_in_bed() -> (r: ResourceLocation)
    ensures
        r@ == (vanilla_namespace(), "slept_in_bed"@),
{
    ResourceLocation::vanilla("slept_in_bed")
}

/// The trigger `minecraft:hero_of_the_village`.
pub fn hero_of_the_village() -> (r: ResourceLocation)
    ensures
        r@ == (vanilla_namespace(), "hero_of_the_village"@),
{
    ResourceLocation::vanilla("hero_of_the_village")
}

/// The trigger `minecraft:voluntary_exile`.
pub fn voluntary_exile() -> (r: ResourceLocation)
    ensures
        r@ == (vanilla_namespace(), "voluntary_exile"@),
{
    ResourceLocation::vanilla("voluntary_exile")
}

/// The trigger `minecraft:slide_down_block`.
pub fn slide_down_block() -> (r: ResourceLocation)
    ensures
        r@ == (vanilla_namespace(), "slide_down_block"@),
{
    ResourceLocation::vanilla("slide_down_block")
}

/// The trigger `minecraft:placed_block`.
pub fn placed_block() -> (r: ResourceLocation)
    ensures
        r@ == (vanilla_namespace(), "placed_block"@),
{
    ResourceLocation::vanilla("placed_block")
}

/// The trigger `minecraft:any_block_use`.
pub fn any_block_use() -> (r: ResourceLocation)
    ensures
        r@ == (vanilla_namespace(), "any_block_use"@),
{
    ResourceLocation::vanilla("any_block_use")
}

/// The trigger `minecraft:default_block_use`.
pub fn default_block_use() -> (r: ResourceLocation)
    ensures
        r@ == (vanilla_namespace(), "default_block_use"@),
{
    ResourceLocation::vanilla("default_block_use")
}

/// The trigger `minecraft:inventory_changed`.
pub fn inventory_changed() -> (r: ResourceLocation)
    ensures
        r@ == (vanilla_namespace(), "inventory_changed"@),
{
    ResourceLocation::vanilla("inventory_changed")
}

/// The trigger `minecraft:consume_item`.
pub fn consume_item() -> (r: ResourceLocation)
    ensures
        r@ == (vanilla_namespace(), "consume_item"@),
{
    ResourceLocation::vanilla("consume_item")
}

/// The trigger `minecraft:using_item`.
pub fn using_item() -> (r: ResourceLocation)
    ensures
        r@ == (vanilla_namespace(), "using_item"@),
{
    ResourceLocation::vanilla("using_item")
}

/// The trigger `minecraft:item_used_on_block`.
pub fn item_used_on_block() -> (r: ResourceLocation)
    ensures
        r@ == (vanilla_namespace(), "item_used_on_block"@),
{
    ResourceLocation::vanilla("item_used_on_block")
}

/// The trigger `minecraft:filled_bucket`.
pub fn filled_bucket() -> (r: ResourceLocation)
    ensures
        r@ == (vanilla_namespace(), "filled_bucket"@),
{
    ResourceLocation::vanilla("filled_bucket")
}

/// The trigger `minecraft:enchanted_item`.
pub fn enchanted_item() -> (r: ResourceLocation)
    ensures
        r@ == (vanilla_namespace(), "enchanted_item"@),
{
    ResourceLocation::vanilla("enchanted_item")
}

/// The trigger `minecraft:item_durability_changed`.
pub fn item_durability_changed() -> (r: ResourceLocation)
    ensures
        r@ == (vanilla_namespace(), "item_durability_changed"@),
{
    ResourceLocation::vanilla("item_durability_changed")
}

/// The trigger `minecraft:thrown_item_picked_up_by_entity`.
pub fn thrown_item_picked_up_by_entity() -> (r: ResourceLocation)
    ensures
        r@ == (vanilla_namespace(), "thrown_item_picked_up_by_entity"@),
{
    ResourceLocation::vanilla("thrown_item_picked_up_by_entity")
}

/// The trigger `minecraft:thrown_item_picked_up_by_player`.
pub fn thrown_item_picked_up_by_player() -> (r: ResourceLocation)
    ensures
        r@ == (vanilla_namespace(), "thrown_item_picked_up_by_player"@),
{
    ResourceLocation::vanilla("thrown_item_picked_up_by_player")
}

/// The trigger `minecraft:recipe_unlocked`.
pub fn recipe_unlocked() -> (r: ResourceLocation)
    ensures
        r@ == (vanilla_namespace(), "recipe_unlocked"@),
{
    ResourceLocation::vanilla("recipe_unlocked")
}

/// The trigger `minecraft:recipe_crafted`.
pub fn recipe_crafted() -> (r: ResourceLocation)
    ensures
        r@ == (vanilla_namespace(), "recipe_crafted"@),
{
    ResourceLocation::vanilla("recipe_crafted")
}

/// The trigger `minecraft:crafter_recipe_crafted`.
pub fn crafter_recipe_crafted() -> (r: ResourceLocation)
    ensures
        r@ == (vanilla_namespace(), "crafter_recipe_crafted"@),
{
    ResourceLocation::vanilla("crafter_recipe_crafted")
}

/// The trigger `minecraft:player_hurt_entity`.
pub fn player_hurt_entity() -> (r: ResourceLocation)
    ensures
        r@ == (vanilla_namespace(), "player_hurt_entity"@),
{
    ResourceLocation::vanilla("player_hurt_entity")
}

/// The trigger `minecraft:entity_hurt_player`.
pub fn entity_hurt_player() -> (r: ResourceLocation)
    ensures
        r@ == (vanilla_namespace(), "entity_hurt_player"@),
{
    ResourceLocation::vanilla("entity_hurt_player")
}

/// The trigger `minecraft:used_totem`.
pub fn used_totem() -> (r: ResourceLocation)
    ensures
        r@ == (vanilla_namespace(), "used_totem"@),
{
    ResourceLocation::vanilla("used_totem")
}

/// The trigger `minecraft:shot_crossbow`.
pub fn shot_crossbow() -> (r: ResourceLocation)
    ensures
        r@ == (vanilla_namespace(), "shot_crossbow"@),
{
    ResourceLocation::vanilla("shot_crossbow")
}

/// The trigger `minecraft:killed_by_crossbow`.
pub fn killed_by_crossbow() -> (r: ResourceLocation)
    ensures
        r@ == (vanilla_namespace(), "killed_by_crossbow"@),
{
    ResourceLocation::vanilla("killed_by_crossbow")
}

/// The trigger `minecraft:target_hit`.
pub fn target_hit() -> (r: ResourceLocation)
    ensures
        r@ == (vanilla_namespace(), "target_hit"@),
{
    ResourceLocation::vanilla("target_hit")
}

/// The trigger `minecraft:channeled_lightning`.
pub fn channeled_lightning() -> (r: ResourceLocation)
    ensures
        r@ == (vanilla_namespace(), "channeled_lightning"@),
{
    ResourceLocation::vanilla("channeled_lightning")
}

/// The trigger `minecraft:lightning_strike`.
pub fn lightning_strike() -> (r: ResourceLocation)
    ensures
        r@ == (vanilla_namespace(), "lightning_strike"@),
{
    ResourceLocation::vanilla("lightning_strike")
}

/// The trigger `minecraft:spear_mobs`.
pub fn spear_mobs() -> (r: ResourceLocation)
    ensures
        r@ == (vanilla_namespace(), "spear_mobs"@),
{
    ResourceLocation::vanilla("spear_mobs")
}

/// The trigger `minecraft:changed_dimension`.
pub fn changed_dimension() -> (r: ResourceLocation)
    ensures
        r@ == (vanilla_namespace(), "changed_dimension"@),
{
    ResourceLocation::vanilla("changed_dimension")
}

/// The trigger `minecraft:nether_travel`.
pub fn nether_travel() -> (r: ResourceLocation)
    ensures
        r@ == (vanilla_namespace(), "nether_travel"@),
{
    ResourceLocation::vanilla("nether_travel")
}

/// The trigger `minecraft:fall_from_height`.
pub fn fall_from_height() -> (r: ResourceLocation)
    ensures
        r@ == (vanilla_namespace(), "fall_from_height"@),
{
    ResourceLocation::vanilla("fall_from_height")
}

/// The trigger `minecraft:ride_entity_in_lava`.
pub fn ride_entity_in_lava() -> (r: ResourceLocation)
    ensures
        r@ == (vanilla_namespace(), "ride_entity_in_lava"@),
{
    ResourceLocation::vanilla("ride_entity_in_lava")
}

/// The trigger `minecraft:started_riding`.
pub fn started_riding() -> (r: ResourceLocation)
    ensures
        r@ == (vanilla_namespace(), "started_riding"@),
{
    ResourceLocation::vanilla("started_riding")
}

/// The trigger `minecraft:levitation`.
pub fn levitation() -> (r: ResourceLocation)
    ensures
        r@ == (vanilla_namespace(), "levitation"@),
{
    ResourceLocation::vanilla("levitation")
}

/// The trigger `minecraft:fall_after_explosion`.
pub fn fall_after_explosion() -> (r: ResourceLocation)
    ensures
        r@ == (vanilla_namespace(), "fall_after_explosion"@),
{
    ResourceLocation::vanilla("fall_after_explosion")
}

/// The trigger `minecraft:avoid_vibration`.
pub fn avoid_vibration() -> (r: ResourceLocation)
    ensures
        r@ == (vanilla_namespace(), "avoid_vibration"@),
{
    ResourceLocation::vanilla("avoid_vibration")
}

/// The trigger `minecraft:player_interacted_with_entity`.
pub fn player_interacted_with_entity() -> (r: ResourceLocation)
    ensures
        r@ == (vanilla_namespace(), "player_interacted_with_entity"@),
{
    ResourceLocation::vanilla("player_interacted_with_entity")
}

/// The trigger `minecraft:bred_animals`.
pub fn bred_animals() -> (r: ResourceLocation)
    ensures
        r@ == (vanilla_namespace(), "bred_animals"@),
{
    ResourceLocation::vanilla("bred_animals")
}

/// The trigger `minecraft:tame_animal`.
pub fn tame_animal() -> (r: ResourceLocation)
    ensures
        r@ == (vanilla_namespace(), "tame_animal"@),
{
    ResourceLocation::vanilla("tame_animal")
}

/// The trigger `minecraft:summoned_entity`.
pub fn summoned_entity() -> (r: ResourceLocation)
    ensures
        r@ == (vanilla_namespace(), "summoned_entity"@),
{
    ResourceLocation::vanilla("summoned_entity")
}

/// The trigger `minecraft:cured_zombie_villager`.
pub fn cured_zombie_villager() -> (r: ResourceLocation)
    ensures
        r@ == (vanilla_namespace(), "cured_zombie_villager"@),
{
    ResourceLocation::vanilla("cured_zombie_villager")
}

/// The trigger `minecraft:villager_trade`.
pub fn villager_trade() -> (r: ResourceLocation)
    ensures
        r@ == (vanilla_namespace(), "villager_trade"@),
{
    ResourceLocation::vanilla("villager_trade")
}

/// The trigger `minecraft:fishing_rod_hooked`.
pub fn fishing_rod_hooked() -> (r: ResourceLocation)
    ensures
        r@ == (vanilla_namespace(), "fishing_rod_hooked"@),
{
    ResourceLocation::vanilla("fishing_rod_hooked")
}

/// The trigger `minecraft:allay_drop_item_on_block`.
pub fn allay_drop_item_on_block() -> (r: ResourceLocation)
    ensures
        r@ == (vanilla_namespace(), "allay_drop_item_on_block"@),
{
    ResourceLocation::vanilla("allay_drop_item_on_block")
}

/// The trigger `minecraft:brewed_potion`.
pub fn brewed_potion() -> (r: ResourceLocation)
    ensures
        r@ == (vanilla_namespace(), "brewed_potion"@),
{
    ResourceLocation::vanilla("brewed_potion")
}

/// The trigger `minecraft:effects_changed`.
pub fn effects_changed() -> (r: ResourceLocation)
    ensures
        r@ == (vanilla_namespace(), "effects_changed"@),
{
    ResourceLocation::vanilla("effects_changed")
}

/// The trigger `minecraft:construct_beacon`.
pub fn construct_beacon() -> (r: ResourceLocation)
    ensures
        r@ == (vanilla_namespace(), "construct_beacon"@),
{
    ResourceLocation::vanilla("construct_beacon")
}

/// The trigger `minecraft:used_ender_eye`.
pub fn used_ender_eye() -> (r: ResourceLocation)
    ensures
        r@ == (vanilla_namespace(), "used_ender_eye"@),
{
    ResourceLocation::vanilla("used_ender_eye")
}

/// The trigger `minecraft:player_generates_container_loot`.
pub fn player_generates_container_loot() -> (r: ResourceLocation)
    ensures
        r@ == (vanilla_namespace(), "player_generates_container_loot"@),
{
    ResourceLocation::vanilla("player_generates_container_loot")
}

/// The trigger `minecraft:bee_nest_destroyed`.
pub fn bee_nest_destroyed() -> (r: ResourceLocation)
    ensures
        r@ == (vanilla_namespace(), "bee_nest_destroyed"@),
{
    ResourceLocation::vanilla("bee_nest_destroyed")
}

} // verus!
