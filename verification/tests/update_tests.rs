use warpbits_loader::update::resolve_update;
use warpbits_loader::update::should_update_package;
use warpbits_loader::update::UpdateQuery;
use warpbits_loader::version::Version;

fn ver(date: &str, iteration: u64) -> Version {
    Version { date: String::from(date), iteration }
}

#[test]
fn no_local_version_installs_without_prompt() {
    let remote = ver("2024-01-15", 3);
    let q = should_update_package(None, &remote);
    assert_eq!(q, UpdateQuery::Install);
    assert!(resolve_update(q, false));
    assert!(resolve_update(q, true));
}

#[test]
fn equal_versions_reload_only_on_yes() {
    let local = ver("2024-01-15", 3);
    let remote = ver("2024-01-15", 3);
    let q = should_update_package(Some(&local), &remote);
    assert_eq!(q, UpdateQuery::AskReload);
    assert!(resolve_update(q, true));
    assert!(!resolve_update(q, false));
}

#[test]
fn newer_local_downgrades_only_on_yes() {
    let local = ver("2024-02-01", 0);
    let remote = ver("2024-01-15", 9);
    let q = should_update_package(Some(&local), &remote);
    assert_eq!(q, UpdateQuery::AskDowngrade);
    assert!(resolve_update(q, true));
    assert!(!resolve_update(q, false));
}

#[test]
fn newer_local_iteration_downgrades_only_on_yes() {
    let local = ver("2024-01-15", 4);
    let remote = ver("2024-01-15", 3);
    let q = should_update_package(Some(&local), &remote);
    assert_eq!(q, UpdateQuery::AskDowngrade);
}

#[test]
fn older_local_updates_unconditionally() {
    let local = ver("2024-01-15", 3);
    let remote = ver("2024-01-15", 4);
    let q = should_update_package(Some(&local), &remote);
    assert_eq!(q, UpdateQuery::Update);
    assert!(resolve_update(q, false));
}
