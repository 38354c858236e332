use module_router::modules::supervisor::{ModuleStatus, Supervisor, TaskOutcome};

fn names(items: &[&str]) -> Vec<String> {
    items.iter().map(|item| item.to_string()).collect()
}

fn statuses(supervisor: &Supervisor) -> Vec<ModuleStatus> {
    (0..supervisor.len()).map(|index| supervisor.status(index).unwrap().clone()).collect()
}

#[test]
fn supervisor_starts_with_started_and_not_routed() {
    let supervisor = Supervisor::new(names(&["a", "b"]), names(&["c"]));
    assert_eq!(supervisor.len(), 3);
    assert_eq!(
        statuses(&supervisor),
        vec![ModuleStatus::Started, ModuleStatus::Started, ModuleStatus::NotRouted]
    );
    assert_eq!(supervisor.status(3), None);
    assert!(!supervisor.finished());
}

#[test]
fn supervisor_of_nothing_is_finished() {
    let supervisor = Supervisor::new(Vec::new(), Vec::new());
    assert_eq!(supervisor.len(), 0);
    assert!(supervisor.finished());
    assert_eq!(supervisor.status(0), None);
}

#[test]
fn supervisor_of_idle_modules_is_finished() {
    let supervisor = Supervisor::new(Vec::new(), names(&["a", "b"]));
    assert!(supervisor.finished());
    assert_eq!(statuses(&supervisor), vec![ModuleStatus::NotRouted, ModuleStatus::NotRouted]);
}

#[test]
fn supervisor_records_in_arrival_order() {
    let mut supervisor = Supervisor::new(names(&["a", "b", "c"]), Vec::new());
    assert!(supervisor.record(2, TaskOutcome::Completed));
    assert!(!supervisor.finished());
    assert!(supervisor.record(0, TaskOutcome::Completed));
    assert!(!supervisor.finished());
    assert_eq!(
        statuses(&supervisor),
        vec![ModuleStatus::Completed, ModuleStatus::Started, ModuleStatus::Completed]
    );
    assert!(supervisor.record(1, TaskOutcome::Completed));
    assert!(supervisor.finished());
}

#[test]
fn supervisor_keeps_a_failure_with_its_module() {
    let mut supervisor = Supervisor::new(names(&["a", "b", "c"]), names(&["d"]));
    assert!(supervisor.record(1, TaskOutcome::Failed("socket closed".to_string())));
    assert_eq!(
        statuses(&supervisor),
        vec![
            ModuleStatus::Started,
            ModuleStatus::Failed("socket closed".to_string()),
            ModuleStatus::Started,
            ModuleStatus::NotRouted
        ]
    );
    assert!(!supervisor.finished());
    assert!(supervisor.record(0, TaskOutcome::Completed));
    assert!(supervisor.record(2, TaskOutcome::Failed("peer gone".to_string())));
    assert!(supervisor.finished());
    assert_eq!(
        statuses(&supervisor),
        vec![
            ModuleStatus::Completed,
            ModuleStatus::Failed("socket closed".to_string()),
            ModuleStatus::Failed("peer gone".to_string()),
            ModuleStatus::NotRouted
        ]
    );
}

#[test]
fn supervisor_ignores_what_cannot_have_ended() {
    let mut supervisor = Supervisor::new(names(&["a"]), names(&["b"]));
    assert!(!supervisor.record(1, TaskOutcome::Completed));
    assert!(!supervisor.record(2, TaskOutcome::Failed("out of range".to_string())));
    assert_eq!(statuses(&supervisor), vec![ModuleStatus::Started, ModuleStatus::NotRouted]);
    assert!(supervisor.record(0, TaskOutcome::Failed("first".to_string())));
    assert!(!supervisor.record(0, TaskOutcome::Completed));
    assert_eq!(
        statuses(&supervisor),
        vec![ModuleStatus::Failed("first".to_string()), ModuleStatus::NotRouted]
    );
    assert!(supervisor.finished());
}
