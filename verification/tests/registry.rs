use pumpkin_advancement::server::commands::{
    grant_advancement_to, grant_all_advancements, granted_message, pending_update,
    revoke_everything, revoked_message, unknown_message, AdvancementArgumentConsumer,
    CommandError,
};
use pumpkin_advancement::server::player_tracker::PlayerAdvancementTracker;
use pumpkin_advancement::server::registry::AdvancementRegistry;
use pumpkin_advancement::util::resource_location::ResourceLocation;
use pumpkin_advancement::util::text::{Color, NamedColor, TextComponent, TextContent};
use pumpkin_advancement::world::advancement::{Advancement, AdvancementEntry};
use pumpkin_advancement::world::criterion::AdvancementCriterion;
use pumpkin_advancement::world::display::{AdvancementDisplay, AdvancementIcon};
use pumpkin_advancement::world::frame::AdvancementFrame;
use pumpkin_advancement::world::requirements::AdvancementRequirements;
use pumpkin_advancement::world::triggers;

fn id(p: &str) -> ResourceLocation {
    ResourceLocation::vanilla(p)
}

fn shown() -> AdvancementDisplay {
    AdvancementDisplay::new(
        AdvancementIcon::simple(id("stone")),
        TextComponent::text("T".to_string()),
        TextComponent::text("D".to_string()),
        AdvancementFrame::Task,
        None,
        true,
        true,
        false,
    )
}

fn entry(path: &str, parent: Option<&str>, display: bool) -> AdvancementEntry {
    let mut b = Advancement::builder().criterion("c".to_string(), AdvancementCriterion::new(triggers::tick()));
    if let Some(p) = parent {
        b = b.parent(id(p));
    }
    if display {
        b = b.display(shown());
    }
    b.build_entry(id(path))
}

fn sample() -> AdvancementRegistry {
    let mut r = AdvancementRegistry::new();
    r.register(entry("root", None, true));
    r.register(entry("child", Some("root"), true));
    r.register(entry("hidden", Some("root"), false));
    r
}

#[test]
fn register_places_children_and_roots() {
    let r = sample();
    assert_eq!(r.len(), 3);
    assert!(!r.is_empty());
    assert_eq!(r.roots(), &[id("root")]);
    assert_eq!(r.get_placed(&id("root")).unwrap().children, vec![id("child"), id("hidden")]);
    assert_eq!(r.get_placed(&id("child")).unwrap().parent, Some(id("root")));
    assert!(r.get(&id("missing")).is_none());
    assert_eq!(r.get(&id("child")).unwrap().id, id("child"));
    assert_eq!(r.all_ids(), vec![id("root"), id("child"), id("hidden")]);
    assert_eq!(r.iter().len(), 3);
}

#[test]
fn registering_again_replaces() {
    let mut r = sample();
    r.register(entry("root", None, false));
    assert_eq!(r.len(), 3);
    assert!(r.get(&id("root")).unwrap().advancement.display.is_none());
    assert!(r.get_placed(&id("root")).unwrap().children.is_empty());
    assert_eq!(r.roots().len(), 2);
    r.clear();
    assert!(r.is_empty());
    assert!(r.roots().is_empty());
}

#[test]
fn find_arg_reads_the_advancement() {
    assert_eq!(AdvancementArgumentConsumer::find_arg(Some("story/root"), "advancement").unwrap(), id("story/root"));
    assert_eq!(
        AdvancementArgumentConsumer::find_arg(Some("custom:x"), "advancement").unwrap(),
        ResourceLocation::new("custom".to_string(), "x".to_string())
    );
    assert_eq!(
        AdvancementArgumentConsumer::find_arg(None, "advancement").unwrap_err(),
        CommandError::InvalidConsumption(Some("advancement".to_string()))
    );
    assert_eq!(AdvancementArgumentConsumer.default_name(), "advancement");
}

#[test]
fn granting_and_revoking_everything() {
    let r = sample();
    let mut t = PlayerAdvancementTracker::new();
    grant_all_advancements(&mut t, &r);
    for a in ["root", "child", "hidden"] {
        assert!(t.is_completed(&id(a)));
    }
    assert!(t.needs_reset());
    t.clear_dirty();
    revoke_everything(&mut t, &r.all_ids());
    assert!(t.completed_advancements().is_empty());
    assert!(t.get_progress(&id("root")).is_none());
    assert!(t.needs_reset());
}

#[test]
fn grant_only_known_advancements() {
    let r = sample();
    let mut t = PlayerAdvancementTracker::new();
    assert!(grant_advancement_to(&mut t, &r, &id("child")));
    assert!(t.is_completed(&id("child")));
    assert!(!grant_advancement_to(&mut t, &r, &id("nope")));
}

#[test]
fn command_messages() {
    assert!(matches!(&granted_message(&id("a")).0.content, TextContent::Text { text } if text == "Granted advancement minecraft:a to 1 player(s)"));
    assert!(matches!(&revoked_message(&id("a")).0.content, TextContent::Text { text } if text == "Revoked advancement minecraft:a from 1 player(s)"));
    let unknown = unknown_message(&id("a"));
    assert!(matches!(&unknown.0.content, TextContent::Text { text } if text == "Unknown advancement: minecraft:a"));
    assert_eq!(unknown.0.style.color, Some(Color::Named(NamedColor::Red)));
}

#[test]
fn pending_update_on_reset_and_after() {
    let r = sample();
    let mut t = PlayerAdvancementTracker::new();
    let first = pending_update(&t, &r).unwrap();
    assert!(first.reset);
    assert_eq!(first.shown, vec![id("root"), id("child")]);
    assert!(first.progress.is_empty());
    t.clear_dirty();
    assert!(pending_update(&t, &r).is_none());
    t.grant_criterion(&id("child"), "c", &r.get(&id("child")).unwrap().advancement.requirements);
    let next = pending_update(&t, &r).unwrap();
    assert!(!next.reset);
    assert!(next.shown.is_empty());
    assert_eq!(next.progress.len(), 1);
}

#[test]
fn commands_leave_other_advancements_alone() {
    let r = sample();
    let mut t = PlayerAdvancementTracker::new();
    let other = AdvancementRequirements::all_of(vec!["x".to_string(), "y".to_string()]);
    assert!(t.grant_criterion(&id("elsewhere"), "x", &other));
    grant_all_advancements(&mut t, &r);
    assert!(t.get_progress(&id("elsewhere")).unwrap().is_criterion_obtained("x"));
    assert!(!t.is_completed(&id("elsewhere")));
    revoke_everything(&mut t, &vec![id("root")]);
    assert!(t.is_completed(&id("child")));
    assert!(!t.is_completed(&id("root")));
    assert!(t.get_progress(&id("elsewhere")).is_some());
}

#[test]
fn fresh_registration_is_a_root_exactly_without_parent() {
    let mut r = AdvancementRegistry::new();
    r.register(entry("a", None, true));
    r.register(entry("b", Some("a"), true));
    assert_eq!(r.roots(), &[id("a")]);
    let update = pending_update(&PlayerAdvancementTracker::new(), &r).unwrap();
    assert_eq!(update.shown, vec![id("a"), id("b")]);
}
