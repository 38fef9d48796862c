use pumpkin_advancement::world::requirements::{AdvancementRequirements, CriterionMerger};

fn names(list: &[&str]) -> Vec<String> {
    list.iter().map(|s| s.to_string()).collect()
}

#[test]
fn test_all_of() {
    let reqs = AdvancementRequirements::all_of(vec!["a".to_string(), "b".to_string()]);

    let mut completed: Vec<String> = Vec::new();
    assert!(!reqs.test(&completed));

    completed.push("a".to_string());
    assert!(!reqs.test(&completed));

    completed.push("b".to_string());
    assert!(reqs.test(&completed));
}

#[test]
fn test_any_of() {
    let reqs = AdvancementRequirements::any_of(vec!["a".to_string(), "b".to_string()]);

    let completed: Vec<String> = Vec::new();
    assert!(!reqs.test(&completed));

    let completed = names(&["a"]);
    assert!(reqs.test(&completed));
}

#[test]
fn empty_requirements_are_met_by_nothing() {
    let reqs = AdvancementRequirements::empty();
    assert!(reqs.is_empty());
    assert_eq!(reqs.len(), 0);
    assert!(reqs.test(&Vec::new()));
    assert_eq!(reqs.count_completed(&Vec::new()), 0);
}

#[test]
fn groups_are_and_of_ors() {
    let reqs = AdvancementRequirements::new(vec![names(&["a", "b"]), names(&["c"])]);
    assert_eq!(reqs.len(), 2);
    assert!(!reqs.test(&names(&["a"])));
    assert_eq!(reqs.count_completed(&names(&["a"])), 1);
    assert!(reqs.test(&names(&["b", "c"])));
    assert_eq!(reqs.count_completed(&names(&["b", "c"])), 2);
    assert_eq!(reqs.count_completed(&names(&["z"])), 0);
}

#[test]
fn get_names_lists_each_name_once() {
    let reqs = AdvancementRequirements::new(vec![names(&["a", "b"]), names(&["b", "c"])]);
    let mut got = reqs.get_names();
    got.sort();
    assert_eq!(got, names(&["a", "b", "c"]));
}

#[test]
fn merger_builds_all_or_any() {
    let all = CriterionMerger::And.create(names(&["x", "y"]));
    assert_eq!(all.requirements, vec![names(&["x"]), names(&["y"])]);
    let any = CriterionMerger::Or.create(names(&["x", "y"]));
    assert_eq!(any.requirements, vec![names(&["x", "y"])]);
    assert!(any.test(&names(&["y"])));
    assert!(!all.test(&names(&["y"])));
}

#[test]
fn meeting_more_criteria_keeps_requirements_met() {
    let reqs = AdvancementRequirements::new(vec![names(&["a", "b"]), names(&["c"])]);
    assert!(reqs.test(&names(&["a", "c"])));
    assert!(reqs.test(&names(&["a", "c", "b", "d"])));
}
