use pumpkin_advancement::util::json::{find_field, put_field, JsonValue};
use pumpkin_advancement::util::resource_location::ResourceLocation;
use pumpkin_advancement::util::text::TextContent;
use pumpkin_advancement::world::advancement::{Advancement, PlacedAdvancement};
use pumpkin_advancement::world::criterion::{AdvancementCriterion, CriterionConditions};
use pumpkin_advancement::world::display::{AdvancementDisplay, AdvancementIcon};
use pumpkin_advancement::world::errors::GetBlockError;
use pumpkin_advancement::world::frame::AdvancementFrame;
use pumpkin_advancement::world::loader::{
    parse_advancement, RawAdvancement, RawCriterion, RawDisplay, RawIcon, RawRewards,
};
use pumpkin_advancement::world::rewards::AdvancementRewards;
use pumpkin_advancement::world::triggers;
use pumpkin_advancement::util::text::TextComponent;

fn s(v: &str) -> String {
    v.to_string()
}

fn obj(fields: Vec<(&str, JsonValue)>) -> JsonValue {
    JsonValue::Object(fields.into_iter().map(|(k, v)| (k.to_string(), v)).collect())
}

#[test]
fn frame_ordinals_and_names() {
    for f in [AdvancementFrame::Task, AdvancementFrame::Goal, AdvancementFrame::Challenge] {
        assert_eq!(AdvancementFrame::from_ordinal(f.ordinal()), Some(f));
    }
    assert_eq!(AdvancementFrame::Goal.ordinal(), 1);
    assert_eq!(AdvancementFrame::from_ordinal(3), None);
    assert_eq!(AdvancementFrame::from_ordinal(-1), None);
    assert_eq!(AdvancementFrame::Challenge.as_str(), "challenge");
    assert_eq!(AdvancementFrame::default(), AdvancementFrame::Task);
}

#[test]
fn rewards_emptiness() {
    assert!(AdvancementRewards::empty().is_empty());
    assert!(!AdvancementRewards::with_experience(5).is_empty());
    assert!(AdvancementRewards::with_experience(0).is_empty());
    let r = AdvancementRewards::with_recipes(vec![ResourceLocation::vanilla("bread")]);
    assert!(!r.is_empty());
    assert_eq!(r.experience, 0);
}

#[test]
fn trigger_names() {
    assert_eq!(triggers::tick(), ResourceLocation::vanilla("tick"));
    assert_eq!(triggers::inventory_changed().to_string(), "minecraft:inventory_changed");
    assert_eq!(triggers::killed_by_crossbow().path, "killed_by_crossbow");
}

#[test]
fn conditions_lookups() {
    let conditions = CriterionConditions {
        player: None,
        other: vec![
            (s("item"), obj(vec![("items", JsonValue::Str(s("minecraft:stone")))])),
            (s("from"), JsonValue::Str(s("minecraft:overworld"))),
            (s("level"), obj(vec![("min", JsonValue::PosInt(3))])),
        ],
    };
    assert!(conditions.get_items().is_some());
    assert_eq!(conditions.get_from_dimension(), Some("minecraft:overworld"));
    assert_eq!(conditions.get_to_dimension(), None);
    assert_eq!(conditions.get_level(), Some(3));
    assert!(conditions.get_entity().is_none());
    let plain = CriterionConditions { player: None, other: vec![(s("level"), JsonValue::NegInt(-2))] };
    assert_eq!(plain.get_level(), Some(-2));
    let big = CriterionConditions { player: None, other: vec![(s("level"), JsonValue::PosInt(u64::MAX))] };
    assert_eq!(big.get_level(), None);
    assert!(CriterionConditions::empty().get("level").is_none());
}

#[test]
fn new_advancement_requires_all_criteria() {
    let criteria = vec![
        (s("a"), AdvancementCriterion::new(triggers::tick())),
        (s("b"), AdvancementCriterion::new(triggers::location())),
    ];
    let adv = Advancement::new(criteria);
    assert!(adv.is_root());
    assert!(!adv.has_display());
    assert_eq!(adv.requirements.requirements, vec![vec![s("a")], vec![s("b")]]);
    assert!(adv.rewards.is_empty());
}

#[test]
fn builder_sets_fields_and_replaces_criteria() {
    let adv = Advancement::builder()
        .parent(ResourceLocation::vanilla("story/root"))
        .criterion(s("x"), AdvancementCriterion::new(triggers::tick()))
        .criterion(s("x"), AdvancementCriterion::new(triggers::location()))
        .criterion(s("y"), AdvancementCriterion::new(triggers::tick()))
        .sends_telemetry_event()
        .build();
    assert!(!adv.is_root());
    assert_eq!(adv.criteria.len(), 2);
    assert_eq!(adv.criteria[0].1.trigger, triggers::location());
    assert_eq!(adv.requirements.requirements, vec![vec![s("x")], vec![s("y")]]);
    assert!(adv.sends_telemetry_event);
}

#[test]
fn placed_advancement_keeps_parent_and_children() {
    let adv = Advancement::builder().parent(ResourceLocation::vanilla("p")).build();
    let entry = pumpkin_advancement::world::advancement::AdvancementEntry::new(ResourceLocation::vanilla("c"), adv);
    let mut placed = PlacedAdvancement::new(entry);
    assert_eq!(placed.parent, Some(ResourceLocation::vanilla("p")));
    placed.add_child(ResourceLocation::vanilla("d"));
    assert_eq!(placed.children, vec![ResourceLocation::vanilla("d")]);
}

#[test]
fn display_position() {
    let mut display = AdvancementDisplay::new(
        AdvancementIcon::simple(ResourceLocation::vanilla("stone")),
        TextComponent::text(s("Title")),
        TextComponent::text(s("Desc")),
        AdvancementFrame::Goal,
        None,
        true,
        true,
        false,
    );
    assert_eq!(display.x_bits, 0);
    display.set_pos(2.5f32.to_bits(), (-1.0f32).to_bits());
    assert_eq!(f32::from_bits(display.x_bits), 2.5);
    assert_eq!(f32::from_bits(display.y_bits), -1.0);
    assert_eq!(AdvancementIcon::with_count(ResourceLocation::vanilla("stone"), 4).count, 4);
}

fn raw_display(title: JsonValue, title_json: &str) -> RawDisplay {
    RawDisplay {
        icon: RawIcon { id: s("minecraft:grass_block"), count: None, components: None },
        title,
        title_json: s(title_json),
        description: obj(vec![("text", JsonValue::Str(s("The heart")))]),
        description_json: s("{\"text\":\"The heart\"}"),
        frame: Some(s("challenge")),
        background: Some(s("minecraft:textures/gui/bg.png")),
        show_toast: true,
        announce_to_chat: false,
        hidden: false,
    }
}

#[test]
fn parse_advancement_reads_everything() {
    let raw = RawAdvancement {
        parent: Some(s("story/root")),
        display: Some(raw_display(obj(vec![("translate", JsonValue::Str(s("advancements.story.root.title")))]), "")),
        criteria: vec![(
            s("crafting_table"),
            RawCriterion {
                trigger: s("minecraft:inventory_changed"),
                conditions: Some(obj(vec![
                    ("player", JsonValue::Null),
                    ("items", JsonValue::Array(vec![])),
                ])),
            },
        )],
        requirements: None,
        rewards: Some(RawRewards {
            experience: 7,
            recipes: Some(vec![s("bread")]),
            loot: Some(vec![s("chests/a"), s("chests/b")]),
            function: None,
        }),
        sends_telemetry_event: true,
    };
    let entry = parse_advancement("story/mine_stone", raw);
    assert_eq!(entry.id, ResourceLocation::vanilla("story/mine_stone"));
    let adv = &entry.advancement;
    assert_eq!(adv.parent, Some(ResourceLocation::vanilla("story/root")));
    let display = adv.display.as_ref().unwrap();
    assert_eq!(display.frame, AdvancementFrame::Challenge);
    assert!(matches!(&display.title.0.content, TextContent::Translate { translate, with } if translate == "advancements.story.root.title" && with.is_empty()));
    assert!(matches!(&display.description.0.content, TextContent::Text { text } if text == "The heart"));
    assert_eq!(display.icon.count, 1);
    assert_eq!(display.background, Some(ResourceLocation::vanilla("textures/gui/bg.png")));
    assert_eq!(adv.criteria.len(), 1);
    let criterion = &adv.criteria[0].1;
    assert_eq!(criterion.trigger, triggers::inventory_changed());
    let conditions = criterion.conditions.as_ref().unwrap();
    assert_eq!(conditions.player, Some(JsonValue::Null));
    assert_eq!(conditions.other.len(), 1);
    assert_eq!(adv.requirements.requirements, vec![vec![s("crafting_table")]]);
    assert_eq!(adv.rewards.experience, 7);
    assert_eq!(adv.rewards.loot, Some(ResourceLocation::vanilla("chests/a")));
    assert_eq!(adv.rewards.recipes, vec![ResourceLocation::vanilla("bread")]);
    assert!(adv.sends_telemetry_event);
}

#[test]
fn parse_advancement_keeps_given_requirements_and_namespaces() {
    let raw = RawAdvancement {
        parent: None,
        display: Some(raw_display(JsonValue::PosInt(5), "5")),
        criteria: vec![],
        requirements: Some(vec![vec![s("q")]]),
        rewards: None,
        sends_telemetry_event: false,
    };
    let entry = parse_advancement("custom:thing", raw);
    assert_eq!(entry.id, ResourceLocation::new(s("custom"), s("thing")));
    assert!(entry.advancement.parent.is_none());
    assert_eq!(entry.advancement.requirements.requirements, vec![vec![s("q")]]);
    assert!(entry.advancement.rewards.is_empty());
    let display = entry.advancement.display.as_ref().unwrap();
    assert!(matches!(&display.title.0.content, TextContent::Text { text } if text == "5"));
}

#[test]
fn block_error_text() {
    assert_eq!(GetBlockError::InvalidBlockId.to_string(), "InvalidBlockId");
    assert_eq!(GetBlockError::BlockOutOfWorldBounds.to_string(), "BlockOutOfWorldBounds");
}

#[test]
fn json_values_copy_and_look_up() {
    let v = obj(vec![("a", JsonValue::PosInt(1)), ("b", JsonValue::Array(vec![JsonValue::Str(s("x"))]))]);
    let c = v.clone();
    assert_eq!(c, v);
    assert_eq!(v.get("b").and_then(|b| b.as_array()).map(|a| a.len()), Some(1));
    assert!(v.get("z").is_none());
    assert!(JsonValue::Str(s("q")).get("a").is_none());
    assert_eq!(JsonValue::NegInt(-4).as_i64(), Some(-4));
    assert_eq!(JsonValue::Float(s("1.5")).as_i64(), None);
    let mut fields: Vec<(String, i32)> = vec![(s("a"), 1), (s("b"), 2), (s("a"), 3)];
    assert_eq!(find_field(&fields, "a"), Some(&1));
    put_field(&mut fields, s("a"), 9);
    assert_eq!(fields, vec![(s("b"), 2), (s("a"), 9)]);
}
