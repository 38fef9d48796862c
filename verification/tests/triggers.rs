use pumpkin_advancement::server::triggers::{AdvancementTriggers, TriggerContext};
use pumpkin_advancement::util::json::JsonValue;
use pumpkin_advancement::util::resource_location::ResourceLocation;
use pumpkin_advancement::util::text::{TextComponent, TextContent};
use pumpkin_advancement::world::advancement::{Advancement, AdvancementEntry};
use pumpkin_advancement::world::criterion::{AdvancementCriterion, CriterionConditions};
use pumpkin_advancement::world::display::{AdvancementDisplay, AdvancementIcon};
use pumpkin_advancement::world::frame::AdvancementFrame;
use pumpkin_advancement::world::rewards::AdvancementRewards;
use pumpkin_advancement::world::triggers;

fn s(v: &str) -> String {
    v.to_string()
}

fn obj(fields: Vec<(&str, JsonValue)>) -> JsonValue {
    JsonValue::Object(fields.into_iter().map(|(k, v)| (k.to_string(), v)).collect())
}

fn with(trigger: ResourceLocation, fields: Vec<(&str, JsonValue)>) -> AdvancementCriterion {
    AdvancementCriterion::with_conditions(
        trigger,
        CriterionConditions { player: None, other: fields.into_iter().map(|(k, v)| (k.to_string(), v)).collect() },
    )
}

#[test]
fn no_conditions_always_hold() {
    let c = AdvancementCriterion::new(triggers::tick());
    let ctx = TriggerContext::new(triggers::tick());
    assert!(AdvancementTriggers::check_conditions(&c, &ctx, false));
    assert!(AdvancementTriggers::criterion_applies(&c, &ctx, false));
    assert!(!AdvancementTriggers::criterion_applies(&c, &TriggerContext::new(triggers::location()), true));
}

#[test]
fn item_conditions_match_with_or_without_namespace() {
    let c = with(
        triggers::inventory_changed(),
        vec![("items", JsonValue::Array(vec![obj(vec![("items", JsonValue::Str(s("stone")))])]))],
    );
    let stone = TriggerContext::new(triggers::inventory_changed())
        .with_resource(s("item"), ResourceLocation::vanilla("stone"));
    let dirt = TriggerContext::new(triggers::inventory_changed())
        .with_resource(s("item"), ResourceLocation::vanilla("dirt"));
    assert!(AdvancementTriggers::check_conditions(&c, &stone, true));
    assert!(!AdvancementTriggers::check_conditions(&c, &dirt, true));
    let empty = TriggerContext::new(triggers::inventory_changed());
    assert!(AdvancementTriggers::check_conditions(&c, &empty, true));
    let stack = TriggerContext::new(triggers::inventory_changed()).with_item_stack(s("minecraft:stone"), 3);
    assert!(AdvancementTriggers::check_conditions(&c, &stack, true));
}

#[test]
fn item_array_of_names() {
    let c = with(
        triggers::consume_item(),
        vec![("item", obj(vec![("items", JsonValue::Array(vec![JsonValue::Str(s("apple")), JsonValue::Str(s("minecraft:bread"))]))]))],
    );
    let bread = TriggerContext::new(triggers::consume_item()).with_string(s("item"), s("bread"));
    let cake = TriggerContext::new(triggers::consume_item()).with_string(s("item"), s("cake"));
    assert!(AdvancementTriggers::check_conditions(&c, &bread, true));
    assert!(!AdvancementTriggers::check_conditions(&c, &cake, true));
}

#[test]
fn entity_conditions() {
    let direct = with(triggers::player_killed_entity(), vec![("entity", obj(vec![("type", JsonValue::Str(s("minecraft:zombie")))]))]);
    let zombie = TriggerContext::new(triggers::player_killed_entity()).with_resource(s("entity"), ResourceLocation::vanilla("zombie"));
    let cow = TriggerContext::new(triggers::player_killed_entity()).with_resource(s("entity"), ResourceLocation::vanilla("cow"));
    assert!(AdvancementTriggers::check_conditions(&direct, &zombie, true));
    assert!(!AdvancementTriggers::check_conditions(&direct, &cow, true));
    let listed = with(
        triggers::player_killed_entity(),
        vec![("entity", JsonValue::Array(vec![obj(vec![("predicate", obj(vec![("type", JsonValue::Str(s("cow")))]))])]))],
    );
    assert!(AdvancementTriggers::check_conditions(&listed, &cow, true));
    assert!(!AdvancementTriggers::check_conditions(&listed, &zombie, true));
}

#[test]
fn dimension_recipe_level_and_block() {
    let dim = with(triggers::changed_dimension(), vec![("to", JsonValue::Str(s("minecraft:the_nether")))]);
    let to_nether = TriggerContext::new(triggers::changed_dimension())
        .with_resource(s("from"), ResourceLocation::vanilla("overworld"))
        .with_resource(s("to"), ResourceLocation::vanilla("the_nether"));
    let to_end = TriggerContext::new(triggers::changed_dimension())
        .with_resource(s("to"), ResourceLocation::vanilla("the_end"));
    assert!(AdvancementTriggers::check_conditions(&dim, &to_nether, true));
    assert!(!AdvancementTriggers::check_conditions(&dim, &to_end, true));

    let recipe = with(triggers::recipe_crafted(), vec![("recipe_id", JsonValue::Str(s("minecraft:bread")))]);
    let bread = TriggerContext::new(triggers::recipe_crafted()).with_resource(s("recipe_id"), ResourceLocation::vanilla("bread"));
    assert!(AdvancementTriggers::check_conditions(&recipe, &bread, true));
    assert!(!AdvancementTriggers::check_conditions(&recipe, &TriggerContext::new(triggers::recipe_crafted()), true));

    let level = with(triggers::construct_beacon(), vec![("level", obj(vec![("min", JsonValue::PosInt(4))]))]);
    let l3 = TriggerContext::new(triggers::construct_beacon()).with_int(s("level"), 3);
    let l4 = TriggerContext::new(triggers::construct_beacon()).with_int(s("level"), 4);
    assert!(!AdvancementTriggers::check_conditions(&level, &l3, true));
    assert!(AdvancementTriggers::check_conditions(&level, &l4, true));

    let block = with(triggers::enter_block(), vec![("block", obj(vec![("blocks", JsonValue::Str(s("honey_block")))]))]);
    let honey = TriggerContext::new(triggers::enter_block()).with_resource(s("block"), ResourceLocation::vanilla("honey_block"));
    let stone = TriggerContext::new(triggers::enter_block()).with_resource(s("block"), ResourceLocation::vanilla("stone"));
    assert!(AdvancementTriggers::check_conditions(&block, &honey, true));
    assert!(!AdvancementTriggers::check_conditions(&block, &stone, true));
}

#[test]
fn effects_must_all_be_active() {
    let c = with(triggers::effects_changed(), vec![("effects", obj(vec![("speed", JsonValue::Null), ("minecraft:haste", JsonValue::Null)]))]);
    let both = TriggerContext::new(triggers::effects_changed()).with_effects(vec![s("minecraft:speed"), s("minecraft:haste")]);
    let one = TriggerContext::new(triggers::effects_changed()).with_effects(vec![s("minecraft:speed")]);
    assert!(AdvancementTriggers::check_conditions(&c, &both, true));
    assert!(!AdvancementTriggers::check_conditions(&c, &one, true));
}

#[test]
fn distance_outcome_counts_only_with_a_distance() {
    let c = with(triggers::nether_travel(), vec![("distance", obj(vec![]))]);
    let ctx = TriggerContext::new(triggers::nether_travel()).with_float(s("distance"), 10.0f64.to_bits());
    assert!(AdvancementTriggers::check_conditions(&c, &ctx, true));
    assert!(!AdvancementTriggers::check_conditions(&c, &ctx, false));
}

#[test]
fn context_values_replace_by_name() {
    let ctx = TriggerContext::new(triggers::tick())
        .with_int(s("level"), 1)
        .with_bool(s("flag"), true)
        .with_int(s("level"), 2);
    assert_eq!(ctx.data.len(), 2);
}

fn display(bg: bool, toast: bool, hidden: bool, announce: bool) -> AdvancementDisplay {
    AdvancementDisplay::new(
        AdvancementIcon::simple(ResourceLocation::vanilla("stone")),
        TextComponent::text(s("T")),
        TextComponent::text(s("D")),
        AdvancementFrame::Goal,
        if bg { Some(ResourceLocation::vanilla("bg.png")) } else { None },
        toast,
        announce,
        hidden,
    )
}

#[test]
fn mapping_flags_and_fields() {
    let entry = AdvancementEntry::new(ResourceLocation::vanilla("a"), Advancement::builder().parent(ResourceLocation::vanilla("root")).build());
    let d = display(true, true, true, true);
    let m = AdvancementTriggers::create_advancement_mapping(&entry.id, &entry, &d, 42, vec![1, 2], vec![3]);
    assert_eq!(m.id, ResourceLocation::vanilla("a"));
    let pd = m.advancement.display.as_ref().unwrap();
    assert_eq!(pd.flags, 7);
    assert_eq!(pd.title, vec![1, 2]);
    assert_eq!(pd.icon.item_id.unwrap().0, 42);
    assert_eq!(pd.frame.ordinal(), 1);
    assert_eq!(m.advancement.parent, Some(ResourceLocation::vanilla("root")));
    let plain = AdvancementTriggers::create_advancement_mapping(&entry.id, &entry, &display(false, true, false, true), 1, vec![], vec![]);
    assert_eq!(plain.advancement.display.as_ref().unwrap().flags, 2);
}

#[test]
fn completion_message_by_frame() {
    let m = AdvancementTriggers::completion_message(&display(false, true, false, true), s("Alex"), TextComponent::text(s("Title"))).unwrap();
    assert!(matches!(&m.0.content, TextContent::Translate { translate, with } if translate == "chat.type.advancement.goal" && with.len() == 2));
    assert!(AdvancementTriggers::completion_message(&display(false, true, false, false), s("Alex"), TextComponent::text(s("Title"))).is_none());
}

#[test]
fn experience_reward_only_when_positive() {
    assert_eq!(AdvancementTriggers::reward_experience(&AdvancementRewards::with_experience(5)), Some(5));
    assert_eq!(AdvancementTriggers::reward_experience(&AdvancementRewards::with_experience(0)), None);
    assert_eq!(AdvancementTriggers::reward_experience(&AdvancementRewards::with_experience(-3)), None);
}

#[test]
fn event_contexts_carry_their_values() {
    let ctx = AdvancementTriggers::trigger_changed_dimension_context(
        ResourceLocation::vanilla("overworld"),
        ResourceLocation::vanilla("the_nether"),
    );
    assert_eq!(ctx.trigger, triggers::changed_dimension());
    assert_eq!(ctx.data.len(), 2);
    let trade = AdvancementTriggers::trigger_villager_trade_context(None);
    assert!(trade.data.is_empty());
    let beacon = AdvancementTriggers::trigger_construct_beacon_context(4);
    let level = with(triggers::construct_beacon(), vec![("level", obj(vec![("min", JsonValue::PosInt(4))]))]);
    assert!(AdvancementTriggers::check_conditions(&level, &beacon, true));
    let lightning = AdvancementTriggers::trigger_channeled_lightning_context(vec![
        ResourceLocation::vanilla("villager"),
        ResourceLocation::vanilla("villager"),
        ResourceLocation::vanilla("pig"),
    ]);
    assert_eq!(lightning.data.len(), 1);
    match &lightning.data[0].1 {
        pumpkin_advancement::server::triggers::TriggerValue::StringSet(set) => {
            assert_eq!(set, &vec![s("minecraft:villager"), s("minecraft:pig")]);
        }
        _ => panic!("expected a set"),
    }
    let fall = AdvancementTriggers::trigger_fall_from_height_context(12.5f64.to_bits());
    assert_eq!(fall.data[0].0, "distance");
}
