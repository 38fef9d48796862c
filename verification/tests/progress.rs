use pumpkin_advancement::world::progress::{AdvancementProgress, CriterionProgress};
use pumpkin_advancement::world::requirements::AdvancementRequirements;

fn percent(progress: &AdvancementProgress, requirements: &AdvancementRequirements) -> f32 {
    if requirements.is_empty() {
        return 1.0;
    }
    progress.completed_groups(requirements) as f32 / requirements.len() as f32
}

#[test]
fn test_progress_tracking() {
    let requirements = AdvancementRequirements::all_of(vec![
        "criterion_a".to_string(),
        "criterion_b".to_string(),
    ]);

    let mut progress = AdvancementProgress::new();
    progress.init(&requirements);

    assert!(!progress.is_done());
    assert_eq!(percent(&progress, &requirements), 0.0);

    progress.grant_criterion("criterion_a");
    progress.update_done(&requirements);
    assert!(!progress.is_done());
    assert_eq!(percent(&progress, &requirements), 0.5);

    progress.grant_criterion("criterion_b");
    progress.update_done(&requirements);
    assert!(progress.is_done());
    assert_eq!(percent(&progress, &requirements), 1.0);
}

#[test]
fn granting_twice_reports_once() {
    let mut progress = AdvancementProgress::new();
    assert!(progress.grant_criterion("a"));
    assert!(!progress.grant_criterion("a"));
    assert!(progress.is_criterion_obtained("a"));
    assert!(!progress.is_criterion_obtained("b"));
}

#[test]
fn revoke_after_grant_restores_not_obtained() {
    let mut progress = AdvancementProgress::new();
    assert!(!progress.revoke_criterion("a"));
    progress.grant_criterion("a");
    progress.grant_criterion("b");
    assert!(progress.revoke_criterion("a"));
    assert!(!progress.revoke_criterion("a"));
    assert!(!progress.is_criterion_obtained("a"));
    assert_eq!(progress.get_obtained_criteria(), vec!["b".to_string()]);
}

#[test]
fn remaining_criteria_are_the_unobtained_named_ones() {
    let requirements = AdvancementRequirements::all_of(vec!["a".to_string(), "b".to_string(), "c".to_string()]);
    let mut progress = AdvancementProgress::new();
    progress.init(&requirements);
    progress.grant_criterion("b");
    let mut remaining = progress.get_remaining_criteria(&requirements);
    remaining.sort();
    assert_eq!(remaining, vec!["a".to_string(), "c".to_string()]);
}

#[test]
fn earliest_time_is_the_smallest_obtained_time() {
    let mut a = CriterionProgress::new();
    a.obtain_at(500);
    let mut b = CriterionProgress::new();
    b.obtain_at(200);
    let c = CriterionProgress::new();
    let progress = AdvancementProgress::from_parts(
        vec![("a".to_string(), a), ("b".to_string(), b), ("c".to_string(), c)],
        false,
    );
    assert_eq!(progress.get_earliest_progress_time(), Some(200));
    assert_eq!(AdvancementProgress::new().get_earliest_progress_time(), None);
}

#[test]
fn criterion_progress_obtain_and_reset() {
    let mut p = CriterionProgress::new();
    assert!(!p.is_obtained());
    p.obtain();
    assert!(p.is_obtained());
    let first = p.obtained_time;
    assert!(first.unwrap() > 0);
    p.obtain();
    assert_eq!(p.obtained_time, first);
    p.reset();
    assert!(!p.is_obtained());
}

#[test]
fn done_flag_follows_requirements() {
    let requirements = AdvancementRequirements::any_of(vec!["x".to_string(), "y".to_string()]);
    let mut progress = AdvancementProgress::new();
    progress.update_done(&requirements);
    assert!(!progress.is_done());
    progress.grant_criterion("y");
    progress.update_done(&requirements);
    assert!(progress.is_done());
    assert_eq!(progress.completed_groups(&requirements), 1);
}
