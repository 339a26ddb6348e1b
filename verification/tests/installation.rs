use tzupdate::error::InstallError;
use tzupdate::install::{advance, start, InstallAction, InstallEvent, InstallState};

const ROOT: &[u8] = b"/usr/share/zoneinfo";
const TARGET: &[u8] = b"/usr/share/zoneinfo/Europe/London";
const TEMP: &[u8] = b"/etc/.tmpA1b2C3";

fn path(bytes: &[u8]) -> InstallEvent {
    InstallEvent::Path(bytes.to_vec())
}

/// Runs an installation on `events`, and gives the state it reached and every
/// action it asked for.
fn run(events: Vec<InstallEvent>) -> (InstallState, Vec<InstallAction>) {
    let (mut state, first) = start();
    let mut actions = vec![first];
    for event in events {
        let (next, action) = advance(state, event);
        state = next;
        actions.push(action);
    }
    (state, actions)
}

fn up_to_devices() -> Vec<InstallEvent> {
    vec![path(ROOT), path(TARGET), path(TEMP), InstallEvent::NotFound, InstallEvent::Done]
}

fn is_finished(state: &InstallState) -> bool {
    matches!(state, InstallState::Finished)
}

#[test]
fn an_installation_starts_by_resolving_the_database() {
    let (state, action) = start();
    assert!(matches!(state, InstallState::ResolvingRoot));
    assert_eq!(action, InstallAction::ResolveRoot);
}

#[test]
fn a_successful_installation_takes_seven_steps() {
    let mut events = up_to_devices();
    events.push(InstallEvent::Devices { temp: 2049, dest: 2049 });
    events.push(InstallEvent::Done);
    let (state, actions) = run(events);
    assert!(is_finished(&state));
    assert_eq!(
        actions,
        vec![
            InstallAction::ResolveRoot,
            InstallAction::ResolveTarget,
            InstallAction::AllocateTemp,
            InstallAction::RemoveTemp,
            InstallAction::Symlink,
            InstallAction::CompareDevices,
            InstallAction::Rename,
            InstallAction::Finish(Ok(())),
        ]
    );
}

#[test]
fn the_link_is_made_under_the_temporary_name_to_the_validated_file() {
    let (state, _) = run(vec![path(ROOT), path(TARGET), path(TEMP), InstallEvent::Done]);
    match state {
        InstallState::Linking { target, temp } => {
            assert_eq!(target, TARGET);
            assert_eq!(temp, TEMP);
        }
        _ => panic!("the link should be asked for"),
    }
    let mut events = up_to_devices();
    events.push(InstallEvent::Devices { temp: 7, dest: 7 });
    let (state, _) = run(events);
    match state {
        InstallState::Renaming { target, temp } => {
            assert_eq!(target, TARGET);
            assert_eq!(temp, TEMP);
        }
        _ => panic!("the rename should be asked for"),
    }
}

#[test]
fn a_stale_temporary_entry_is_cleared_first() {
    let (_, actions) = run(vec![path(ROOT), path(TARGET), path(TEMP), InstallEvent::Done]);
    assert_eq!(actions[3], InstallAction::RemoveTemp);
    assert_eq!(actions[4], InstallAction::Symlink);
    let (_, actions) = run(vec![path(ROOT), path(TARGET), path(TEMP), InstallEvent::NotFound]);
    assert_eq!(actions[4], InstallAction::Symlink);
}

#[test]
fn a_stale_temporary_entry_that_cannot_be_removed_fails() {
    let (state, actions) = run(vec![path(ROOT), path(TARGET), path(TEMP), InstallEvent::Failed]);
    assert!(is_finished(&state));
    assert_eq!(actions[4], InstallAction::Finish(Err(InstallError::Io)));
}

#[test]
fn a_traversal_is_refused_before_anything_is_touched() {
    // What `/usr/share/zoneinfo` joined with `../../../etc/shadow` resolves to.
    let (state, actions) = run(vec![path(ROOT), path(b"/etc/shadow")]);
    assert!(is_finished(&state));
    assert_eq!(
        actions,
        vec![
            InstallAction::ResolveRoot,
            InstallAction::ResolveTarget,
            InstallAction::Finish(Err(InstallError::Traversal)),
        ]
    );
}

#[test]
fn a_file_beside_the_database_is_a_traversal() {
    let (_, actions) = run(vec![path(ROOT), path(b"/usr/share/zoneinfo-evil/UTC")]);
    assert_eq!(actions[2], InstallAction::Finish(Err(InstallError::Traversal)));
    let (_, actions) = run(vec![path(ROOT), path(b"/usr/share")]);
    assert_eq!(actions[2], InstallAction::Finish(Err(InstallError::Traversal)));
}

#[test]
fn the_database_itself_passes_validation() {
    let (state, actions) = run(vec![path(ROOT), path(ROOT)]);
    assert!(matches!(state, InstallState::AllocatingTemp { .. }));
    assert_eq!(actions[2], InstallAction::AllocateTemp);
}

#[test]
fn a_timezone_without_a_file_is_unknown() {
    let (state, actions) = run(vec![path(ROOT), InstallEvent::NotFound]);
    assert!(is_finished(&state));
    assert_eq!(actions[2], InstallAction::Finish(Err(InstallError::UnknownTimezone)));
    let (_, actions) = run(vec![InstallEvent::NotFound]);
    assert_eq!(actions[1], InstallAction::Finish(Err(InstallError::UnknownTimezone)));
}

#[test]
fn a_failure_to_resolve_is_passed_on() {
    let (_, actions) = run(vec![InstallEvent::Failed]);
    assert_eq!(actions[1], InstallAction::Finish(Err(InstallError::Io)));
    let (_, actions) = run(vec![path(ROOT), InstallEvent::Failed]);
    assert_eq!(actions[2], InstallAction::Finish(Err(InstallError::Io)));
}

#[test]
fn a_link_without_a_directory_around_it_is_refused() {
    let (state, actions) = run(vec![path(ROOT), path(TARGET), InstallEvent::NoParent]);
    assert!(is_finished(&state));
    assert_eq!(actions[3], InstallAction::Finish(Err(InstallError::NoParent)));
}

#[test]
fn a_temporary_name_that_cannot_be_had_fails() {
    let (_, actions) = run(vec![path(ROOT), path(TARGET), InstallEvent::Failed]);
    assert_eq!(actions[3], InstallAction::Finish(Err(InstallError::Io)));
    let (_, actions) = run(vec![path(ROOT), path(TARGET), InstallEvent::NotFound]);
    assert_eq!(actions[3], InstallAction::Finish(Err(InstallError::Io)));
}

#[test]
fn a_link_that_cannot_be_made_fails() {
    let (state, actions) =
        run(vec![path(ROOT), path(TARGET), path(TEMP), InstallEvent::Done, InstallEvent::Failed]);
    assert!(is_finished(&state));
    assert_eq!(actions[5], InstallAction::Finish(Err(InstallError::Io)));
}

#[test]
fn devices_that_differ_remove_the_link_and_fail() {
    let mut events = up_to_devices();
    events.push(InstallEvent::Devices { temp: 2049, dest: 2050 });
    let (state, actions) = run(events);
    match &state {
        InstallState::Discarding { temp, error } => {
            assert_eq!(temp, TEMP);
            assert_eq!(*error, InstallError::CrossDevice);
        }
        _ => panic!("the temporary link should be discarded"),
    }
    assert_eq!(actions[6], InstallAction::RemoveTemp);
    let (state, action) = advance(state, InstallEvent::Done);
    assert!(is_finished(&state));
    assert_eq!(action, InstallAction::Finish(Err(InstallError::CrossDevice)));
}

#[test]
fn devices_that_differ_never_lead_to_a_rename() {
    for last in [InstallEvent::Done, InstallEvent::NotFound, InstallEvent::Failed] {
        let mut events = up_to_devices();
        events.push(InstallEvent::Devices { temp: 1, dest: 2 });
        events.push(last);
        let (_, actions) = run(events);
        assert!(!actions.contains(&InstallAction::Rename));
        assert!(!actions.contains(&InstallAction::Finish(Ok(()))));
    }
}

#[test]
fn a_link_that_cannot_be_discarded_fails_with_that() {
    let mut events = up_to_devices();
    events.push(InstallEvent::Devices { temp: 1, dest: 2 });
    events.push(InstallEvent::Failed);
    let (_, actions) = run(events);
    assert_eq!(actions[7], InstallAction::Finish(Err(InstallError::Io)));
}

#[test]
fn devices_that_cannot_be_read_remove_the_link_and_fail() {
    for report in [InstallEvent::NotFound, InstallEvent::Failed] {
        let mut events = up_to_devices();
        events.push(report);
        events.push(InstallEvent::Done);
        let (state, actions) = run(events);
        assert!(is_finished(&state));
        assert_eq!(actions[6], InstallAction::RemoveTemp);
        assert_eq!(actions[7], InstallAction::Finish(Err(InstallError::Io)));
    }
}

#[test]
fn a_rename_that_fails_removes_the_link_and_fails() {
    let mut events = up_to_devices();
    events.push(InstallEvent::Devices { temp: 5, dest: 5 });
    events.push(InstallEvent::Failed);
    events.push(InstallEvent::Done);
    let (state, actions) = run(events);
    assert!(is_finished(&state));
    assert_eq!(actions[6], InstallAction::Rename);
    assert_eq!(actions[7], InstallAction::RemoveTemp);
    assert_eq!(actions[8], InstallAction::Finish(Err(InstallError::Io)));
}

#[test]
fn a_report_that_answers_nothing_is_out_of_order() {
    let (_, actions) = run(vec![InstallEvent::Done]);
    assert_eq!(actions[1], InstallAction::Finish(Err(InstallError::OutOfOrder)));
    let (_, actions) = run(vec![path(ROOT), InstallEvent::Devices { temp: 1, dest: 1 }]);
    assert_eq!(actions[2], InstallAction::Finish(Err(InstallError::OutOfOrder)));
    let (_, actions) = run(vec![path(ROOT), path(TARGET), InstallEvent::Done]);
    assert_eq!(actions[3], InstallAction::Finish(Err(InstallError::OutOfOrder)));
    let (_, actions) = run(vec![path(ROOT), path(TARGET), path(TEMP), InstallEvent::NoParent]);
    assert_eq!(actions[4], InstallAction::Finish(Err(InstallError::OutOfOrder)));
}

#[test]
fn a_report_out_of_order_still_removes_the_link() {
    let mut events = up_to_devices();
    events.push(InstallEvent::Done);
    events.push(InstallEvent::Done);
    let (_, actions) = run(events);
    assert_eq!(actions[6], InstallAction::RemoveTemp);
    assert_eq!(actions[7], InstallAction::Finish(Err(InstallError::OutOfOrder)));
}

#[test]
fn a_finished_installation_takes_no_more_reports() {
    let (state, actions) = run(vec![InstallEvent::Failed, InstallEvent::Done]);
    assert!(is_finished(&state));
    assert_eq!(actions[2], InstallAction::Finish(Err(InstallError::OutOfOrder)));
}

/// What resolving `path` gives on a system that keeps its accounts in
/// `/etc/passwd` and has no `/passwd`.
fn resolved(path: &str) -> InstallEvent {
    match path {
        "/etc" => InstallEvent::Path(b"/etc".to_vec()),
        "/etc/passwd" | "/etc/../etc/passwd" => InstallEvent::Path(b"/etc/passwd".to_vec()),
        "/etc/../passwd" => InstallEvent::NotFound,
        _ => InstallEvent::Failed,
    }
}

/// Resolves `base` and `path`, and gives the canonical `path` where it lies
/// within `base`.
fn safe_canonicalise_path(base: &str, path: &str) -> Result<Vec<u8>, InstallError> {
    let (state, _) = start();
    let (state, _) = advance(state, resolved(base));
    match advance(state, resolved(path)) {
        (InstallState::AllocatingTemp { target }, InstallAction::AllocateTemp) => Ok(target),
        (_, InstallAction::Finish(Err(error))) => Err(error),
        _ => panic!("validation ends in a validated file or in an error"),
    }
}

#[test]
fn canonicalise_normal() {
    assert!(safe_canonicalise_path("/etc", "/etc/passwd").is_ok());
}

#[test]
fn canonicalise_back_and_forth() {
    assert!(safe_canonicalise_path("/etc", "/etc/../etc/passwd").is_ok());
}

#[test]
fn canonicalise_failure() {
    assert!(safe_canonicalise_path("/etc", "/etc/../passwd").is_err());
}
