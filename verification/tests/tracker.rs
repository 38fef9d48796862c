use pumpkin_advancement::server::player_tracker::PlayerAdvancementTracker;
use pumpkin_advancement::util::resource_location::ResourceLocation;
use pumpkin_advancement::world::progress::AdvancementProgress;
use pumpkin_advancement::world::requirements::AdvancementRequirements;

fn id(path: &str) -> ResourceLocation {
    ResourceLocation::vanilla(path)
}

fn two_step() -> AdvancementRequirements {
    AdvancementRequirements::all_of(vec!["a".to_string(), "b".to_string()])
}

#[test]
fn new_tracker_wants_a_reset() {
    let tracker = PlayerAdvancementTracker::new();
    assert!(tracker.needs_reset());
    assert!(tracker.has_pending_updates());
    assert!(tracker.completed_advancements().is_empty());
    assert!(tracker.current_tab().is_none());
}

#[test]
fn granting_all_criteria_completes() {
    let mut tracker = PlayerAdvancementTracker::new();
    let reqs = two_step();
    let adv = id("story/root");
    assert!(tracker.grant_criterion(&adv, "a", &reqs));
    assert!(!tracker.is_completed(&adv));
    assert!(!tracker.grant_criterion(&adv, "a", &reqs));
    assert!(tracker.grant_criterion(&adv, "b", &reqs));
    assert!(tracker.is_completed(&adv));
    assert_eq!(tracker.dirty_advancements().len(), 1);
    assert!(tracker.get_progress(&adv).unwrap().is_done());
}

#[test]
fn revoking_a_criterion_uncompletes() {
    let mut tracker = PlayerAdvancementTracker::new();
    let reqs = two_step();
    let adv = id("story/mine_stone");
    tracker.grant_advancement(&adv, &reqs);
    assert!(tracker.is_completed(&adv));
    assert!(tracker.revoke_criterion(&adv, "b", &reqs));
    assert!(!tracker.is_completed(&adv));
    assert!(!tracker.revoke_criterion(&adv, "b", &reqs));
    assert!(!tracker.revoke_criterion(&id("unknown"), "b", &reqs));
}

#[test]
fn grant_advancement_reports_change() {
    let mut tracker = PlayerAdvancementTracker::new();
    let reqs = two_step();
    let adv = id("story/smelt_iron");
    assert!(tracker.grant_advancement(&adv, &reqs));
    assert!(!tracker.grant_advancement(&adv, &reqs));
    let progress = tracker.get_progress(&adv).unwrap();
    assert!(progress.is_criterion_obtained("a"));
    assert!(progress.is_criterion_obtained("b"));
}

#[test]
fn revoke_advancement_forgets_progress() {
    let mut tracker = PlayerAdvancementTracker::new();
    let reqs = two_step();
    let adv = id("story/iron_tools");
    tracker.grant_advancement(&adv, &reqs);
    assert!(tracker.revoke_advancement(&adv));
    assert!(tracker.get_progress(&adv).is_none());
    assert!(!tracker.is_completed(&adv));
    assert!(!tracker.revoke_advancement(&adv));
}

#[test]
fn clearing_dirty_leaves_nothing_pending() {
    let mut tracker = PlayerAdvancementTracker::new();
    tracker.grant_criterion(&id("x"), "a", &two_step());
    assert!(tracker.has_pending_updates());
    tracker.clear_dirty();
    assert!(!tracker.has_pending_updates());
    assert!(!tracker.needs_reset());
    tracker.mark_needs_reset();
    assert!(tracker.has_pending_updates());
}

#[test]
fn tab_and_visibility() {
    let mut tracker = PlayerAdvancementTracker::new();
    tracker.set_current_tab(Some(id("story/root")));
    assert_eq!(tracker.current_tab(), Some(&id("story/root")));
    tracker.set_current_tab(None);
    assert_eq!(tracker.current_tab(), None);
    tracker.mark_visible(id("a"));
    tracker.mark_visible(id("a"));
    assert_eq!(tracker.visible_advancements().len(), 1);
}

#[test]
fn load_marks_done_progress_completed() {
    let reqs = AdvancementRequirements::any_of(vec!["a".to_string()]);
    let mut done = AdvancementProgress::new();
    done.grant_criterion("a");
    done.update_done(&reqs);
    let open = AdvancementProgress::new();
    let mut tracker = PlayerAdvancementTracker::new();
    tracker.clear_dirty();
    tracker.load_progress(vec![(id("done"), done), (id("open"), open)]);
    assert!(tracker.is_completed(&id("done")));
    assert!(!tracker.is_completed(&id("open")));
    assert!(tracker.needs_reset());
    assert_eq!(tracker.save_progress().len(), 2);
}

#[test]
fn progress_mappings_follow_progress() {
    let mut tracker = PlayerAdvancementTracker::new();
    let reqs = two_step();
    tracker.grant_criterion(&id("one"), "a", &reqs);
    tracker.grant_criterion(&id("two"), "b", &reqs);
    let all = tracker.to_progress_mappings();
    assert_eq!(all.len(), 2);
    assert_eq!(all[0].id, id("one"));
    assert_eq!(all[0].progress.criteria.len(), 1);
    assert_eq!(all[0].progress.criteria[0].criterion, "a");
    assert!(all[0].progress.criteria[0].progress.is_some());
    tracker.clear_dirty();
    assert!(tracker.dirty_progress_mappings().is_empty());
    tracker.grant_criterion(&id("two"), "a", &reqs);
    let dirty = tracker.dirty_progress_mappings();
    assert_eq!(dirty.len(), 1);
    assert_eq!(dirty[0].id, id("two"));
}

#[test]
fn get_or_create_progress_creates_empty() {
    let mut tracker = PlayerAdvancementTracker::new();
    let adv = id("fresh");
    {
        let p = tracker.get_or_create_progress(&adv);
        assert!(!p.is_done());
        p.grant_criterion("a");
    }
    assert!(tracker.get_progress(&adv).unwrap().is_criterion_obtained("a"));
}
