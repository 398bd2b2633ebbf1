use nettool::action::{ActionName, ActionRegistry, PermissionRequirement, ACTION_COUNT};

#[test]
fn registry_names_are_unique() {
    let mut names = ActionRegistry::all()
        .iter()
        .map(|item| item.name)
        .collect::<Vec<_>>();
    let original_length = names.len();
    names.sort_unstable();
    names.dedup();
    assert_eq!(names.len(), original_length);
}

#[test]
fn every_registered_action_is_found_under_its_name() {
    let all = ActionRegistry::all();
    assert_eq!(all.len(), ACTION_COUNT);
    for item in &all {
        let found = ActionRegistry::find(item.name).expect("registered");
        assert_eq!(found.name, item.name);
        assert_eq!(found.cli, item.cli);
        assert_eq!(found.idempotent, item.idempotent);
        assert!(found.permission == item.permission);
    }
    assert!(ActionRegistry::find("system.unknown").is_none());
    assert!(ActionRegistry::find("").is_none());
}

#[test]
fn privileged_actions_change_the_system() {
    let health = ActionRegistry::find("system.health").expect("health");
    assert!(health.permission == PermissionRequirement::ReadOnly);
    assert_eq!(ActionName::new("system.health").as_str(), "system.health");
}
