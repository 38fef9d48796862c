use pumpkin_advancement::server::events::apply_event;
use pumpkin_advancement::server::player_tracker::PlayerAdvancementTracker;
use pumpkin_advancement::server::registry::AdvancementRegistry;
use pumpkin_advancement::server::triggers::AdvancementTriggers;
use pumpkin_advancement::util::resource_location::ResourceLocation;
use pumpkin_advancement::world::advancement::{Advancement, AdvancementEntry};
use pumpkin_advancement::world::criterion::AdvancementCriterion;
use pumpkin_advancement::world::triggers;

fn id(p: &str) -> ResourceLocation {
    ResourceLocation::vanilla(p)
}

fn registry() -> AdvancementRegistry {
    let mut r = AdvancementRegistry::new();
    let one = Advancement::builder()
        .criterion("loc".to_string(), AdvancementCriterion::new(triggers::location()))
        .build();
    r.register(AdvancementEntry::new(id("a/one"), one));
    let two = Advancement::builder()
        .criterion("loc".to_string(), AdvancementCriterion::new(triggers::location()))
        .criterion("tick".to_string(), AdvancementCriterion::new(triggers::tick()))
        .build();
    r.register(AdvancementEntry::new(id("a/two"), two));
    r
}

#[test]
fn event_grants_matching_criteria() {
    let registry = registry();
    let mut tracker = PlayerAdvancementTracker::new();
    let context = AdvancementTriggers::trigger_location_context();
    let (completed, changed) = apply_event(&mut tracker, &registry, &context, |_c: &AdvancementCriterion| true);
    assert!(changed);
    assert_eq!(completed, vec![id("a/one")]);
    assert!(tracker.is_completed(&id("a/one")));
    assert!(!tracker.is_completed(&id("a/two")));
    let two = tracker.get_progress(&id("a/two")).unwrap();
    assert!(two.is_criterion_obtained("loc"));
    assert!(!two.is_criterion_obtained("tick"));

    let (completed, changed) = apply_event(&mut tracker, &registry, &context, |_c: &AdvancementCriterion| true);
    assert!(!changed);
    assert!(completed.is_empty());
}

#[test]
fn criteria_without_conditions_ignore_distance() {
    let registry = registry();
    let mut tracker = PlayerAdvancementTracker::new();
    let context = AdvancementTriggers::trigger_tick_context();
    let (completed, changed) = apply_event(&mut tracker, &registry, &context, |_c: &AdvancementCriterion| false);
    assert!(changed);
    assert!(completed.is_empty());
    assert!(tracker.get_progress(&id("a/two")).unwrap().is_criterion_obtained("tick"));
}

#[test]
fn completion_follows_requirements() {
    let registry = registry();
    let mut tracker = PlayerAdvancementTracker::new();
    let tick = AdvancementTriggers::trigger_tick_context();
    let (completed, _) = apply_event(&mut tracker, &registry, &tick, |_c: &AdvancementCriterion| true);
    assert!(completed.is_empty());
    assert!(!tracker.is_completed(&id("a/two")));
    let location = AdvancementTriggers::trigger_location_context();
    let (completed, _) = apply_event(&mut tracker, &registry, &location, |_c: &AdvancementCriterion| true);
    assert_eq!(completed, vec![id("a/one"), id("a/two")]);
    assert!(tracker.is_completed(&id("a/two")));
    assert_eq!(tracker.dirty_advancements().len(), 2);
}
