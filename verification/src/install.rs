//! The decisions of an installation.
//!
//! To install a timezone is to point the system's timezone link at a file of
//! the timezone database: validate the file's canonical path against the
//! database's, make a link to it under a temporary name beside the link to
//! replace, and rename the one onto the other, which the filesystem does in
//! one step. This module decides; the caller acts. Each [`InstallAction`] asks
//! the caller for one filesystem operation, and the caller reports what the
//! operation gave as an [`InstallEvent`].

use crate::error::InstallError;
use crate::path::{is_within, within};
use vstd::prelude::*;

verus! {

/// What the installation asks of its caller next.
#[derive(Clone, Copy, Debug, PartialEq, Eq)]
pub enum InstallAction {
    /// Give the canonical path of the timezone database.
    ResolveRoot,
    /// Give the canonical path of the timezone's file: the timezone's name
    /// joined to the database's path, with every link and `..` resolved.
    ResolveTarget,
    /// Choose a name that is free in the directory of the link to replace.
    AllocateTemp,
    /// Remove the entry under the temporary name.
    RemoveTemp,
    /// Make a symbolic link under the temporary name that points at the
    /// timezone's file.
    Symlink,
    /// Give the devices that hold the temporary entry and the link to
    /// replace.
    CompareDevices,
    /// Rename the temporary entry onto the link to replace.
    Rename,
    /// Stop: the installation is over, with this result.
    Finish(Result<(), InstallError>),
}

/// What the caller reports of the operation that was asked for.
pub enum InstallEvent {
    /// The path that was asked for.
    Path(Vec<u8>),
    /// The operation was carried out.
    Done,
    /// The device of the temporary entry and that of the link to replace.
    Devices { temp: u64, dest: u64 },
    /// The operation found no such file.
    NotFound,
    /// The link to replace has no directory around it.
    NoParent,
    /// The operation failed in another way.
    Failed,
}

/// An [`InstallEvent`] as the contracts see it.
pub enum Report {
    Path(Seq<u8>),
    Done,
    Devices { temp: u64, dest: u64 },
    NotFound,
    NoParent,
    Failed,
}

impl View for InstallEvent {
    type V = Report;

    open spec fn view(&self) -> Report {
        match self {
            InstallEvent::Path(path) => Report::Path(path@),
            InstallEvent::Done => Report::Done,
            InstallEvent::Devices { temp, dest } => Report::Devices { temp: *temp, dest: *dest },
            InstallEvent::NotFound => Report::NotFound,
            InstallEvent::NoParent => Report::NoParent,
            InstallEvent::Failed => Report::Failed,
        }
    }
}

/// How far an installation has come, with the paths it has learned. Each
/// state but the last awaits the report on one action.
pub enum InstallState {
    /// Awaits the canonical path of the timezone database.
    ResolvingRoot,
    /// Awaits the canonical path of the timezone's file.
    ResolvingTarget { root: Vec<u8> },
    /// Awaits a temporary name; the timezone's file is validated.
    AllocatingTemp { target: Vec<u8> },
    /// Awaits the removal of whatever the temporary name held.
    ClearingTemp { target: Vec<u8>, temp: Vec<u8> },
    /// Awaits the making of the temporary link.
    Linking { target: Vec<u8>, temp: Vec<u8> },
    /// Awaits the two devices.
    ComparingDevices { target: Vec<u8>, temp: Vec<u8> },
    /// Awaits the rename.
    Renaming { target: Vec<u8>, temp: Vec<u8> },
    /// Awaits the removal of the temporary link, after which the installation
    /// fails with `error`.
    Discarding { temp: Vec<u8>, error: InstallError },
    /// The installation is over.
    Finished,
}

/// An [`InstallState`] as the contracts see it.
pub enum Stage {
    ResolvingRoot,
    ResolvingTarget { root: Seq<u8> },
    AllocatingTemp { target: Seq<u8> },
    ClearingTemp { target: Seq<u8>, temp: Seq<u8> },
    Linking { target: Seq<u8>, temp: Seq<u8> },
    ComparingDevices { target: Seq<u8>, temp: Seq<u8> },
    Renaming { target: Seq<u8>, temp: Seq<u8> },
    Discarding { temp: Seq<u8>, error: InstallError },
    Finished,
}

impl View for InstallState {
    type V = Stage;

    open spec fn view(&self) -> Stage {
        match self {
            InstallState::ResolvingRoot => Stage::ResolvingRoot,
            InstallState::ResolvingTarget { root } => Stage::ResolvingTarget { root: root@ },
            InstallState::AllocatingTemp { target } => Stage::AllocatingTemp { target: target@ },
            InstallState::ClearingTemp { target, temp } => Stage::ClearingTemp {
                target: target@,
                temp: temp@,
            },
            InstallState::Linking { target, temp } => Stage::Linking {
                target: target@,
                temp: temp@,
            },
            InstallState::ComparingDevices { target, temp } => Stage::ComparingDevices {
                target: target@,
                temp: temp@,
            },
            InstallState::Renaming { target, temp } => Stage::Renaming {
                target: target@,
                temp: temp@,
            },
            InstallState::Discarding { temp, error } => Stage::Discarding {
                temp: temp@,
                error: *error,
            },
            InstallState::Finished => Stage::Finished,
        }
    }
}

/// The end of an installation in failure.
pub open spec fn fail(error: InstallError) -> (Stage, InstallAction) {
    (Stage::Finished, InstallAction::Finish(Err(error)))
}

/// The removal of the temporary link, to be followed by failure with `error`.
pub open spec fn discard(temp: Seq<u8>, error: InstallError) -> (Stage, InstallAction) {
    (Stage::Discarding { temp, error }, InstallAction::RemoveTemp)
}

/// The stage that follows `stage` on `report`, and the action to take next.
///
/// The stages follow one another in one line. A timezone whose file does not
/// exist is unknown; one whose file lies outside the database is a
/// traversal. A temporary name that held nothing is as good as one that was
/// cleared. Once the temporary link exists, every failure removes it before
/// the installation ends, and the rename is asked for only where the two
/// devices are the same.
pub open spec fn next(stage: Stage, report: Report) -> (Stage, InstallAction) {
    match stage {
        Stage::ResolvingRoot => match report {
            Report::Path(root) => (Stage::ResolvingTarget { root }, InstallAction::ResolveTarget),
            Report::NotFound => fail(InstallError::UnknownTimezone),
            Report::Failed => fail(InstallError::Io),
            _ => fail(InstallError::OutOfOrder),
        },
        Stage::ResolvingTarget { root } => match report {
            Report::Path(target) => if within(target, root) {
                (Stage::AllocatingTemp { target }, InstallAction::AllocateTemp)
            } else {
                fail(InstallError::Traversal)
            },
            Report::NotFound => fail(InstallError::UnknownTimezone),
            Report::Failed => fail(InstallError::Io),
            _ => fail(InstallError::OutOfOrder),
        },
        Stage::AllocatingTemp { target } => match report {
            Report::Path(temp) => (Stage::ClearingTemp { target, temp }, InstallAction::RemoveTemp),
            Report::NoParent => fail(InstallError::NoParent),
            Report::NotFound | Report::Failed => fail(InstallError::Io),
            _ => fail(InstallError::OutOfOrder),
        },
        Stage::ClearingTemp { target, temp } => match report {
            Report::Done | Report::NotFound => (
                Stage::Linking { target, temp },
                InstallAction::Symlink,
            ),
            Report::Failed => fail(InstallError::Io),
            _ => fail(InstallError::OutOfOrder),
        },
        Stage::Linking { target, temp } => match report {
            Report::Done => (
                Stage::ComparingDevices { target, temp },
                InstallAction::CompareDevices,
            ),
            Report::NotFound | Report::Failed => fail(InstallError::Io),
            _ => fail(InstallError::OutOfOrder),
        },
        Stage::ComparingDevices { target, temp } => match report {
            Report::Devices { temp: temp_device, dest: dest_device } => if temp_device
                == dest_device {
                (Stage::Renaming { target, temp }, InstallAction::Rename)
            } else {
                discard(temp, InstallError::CrossDevice)
            },
            Report::NotFound | Report::Failed => discard(temp, InstallError::Io),
            _ => discard(temp, InstallError::OutOfOrder),
        },
        Stage::Renaming { target, temp } => match report {
            Report::Done => (Stage::Finished, InstallAction::Finish(Ok(()))),
            Report::NotFound | Report::Failed => discard(temp, InstallError::Io),
            _ => discard(temp, InstallError::OutOfOrder),
        },
        Stage::Discarding { temp, error } => match report {
            Report::Done | Report::NotFound => fail(error),
            Report::Failed => fail(InstallError::Io),
            _ => fail(InstallError::OutOfOrder),
        },
        Stage::Finished => fail(InstallError::OutOfOrder),
    }
}

/// The state in which every installation starts, and its first action.
pub fn start() -> (begun: (InstallState, InstallAction))
    ensures
        begun.0@ == Stage::ResolvingRoot,
        begun.1 == InstallAction::ResolveRoot,
{
    (InstallState::ResolvingRoot, InstallAction::ResolveRoot)
}

fn failed(error: InstallError) -> (step: (InstallState, InstallAction))
    ensures
        (step.0@, step.1) == fail(error),
{
    (InstallState::Finished, InstallAction::Finish(Err(error)))
}

fn discarding(temp: Vec<u8>, error: InstallError) -> (step: (InstallState, InstallAction))
    ensures
        (step.0@, step.1) == discard(temp@, error),
{
    (InstallState::Discarding { temp, error }, InstallAction::RemoveTemp)
}

/// Takes the report on the action that was asked for last, and gives the
/// state that follows and the action to take next.
pub fn advance(state: InstallState, event: InstallEvent) -> (step: (InstallState, InstallAction))
    ensures
        (step.0@, step.1) == next(state@, event@),
{
    match state {
        InstallState::ResolvingRoot => match event {
            InstallEvent::Path(root) => (
                InstallState::ResolvingTarget { root },
                InstallAction::ResolveTarget,
            ),
            InstallEvent::NotFound => failed(InstallError::UnknownTimezone),
            InstallEvent::Failed => failed(InstallError::Io),
            _ => failed(InstallError::OutOfOrder),
        },
        InstallState::ResolvingTarget { root } => match event {
            InstallEvent::Path(target) => if is_within(target.as_slice(), root.as_slice()) {
                (InstallState::AllocatingTemp { target }, InstallAction::AllocateTemp)
            } else {
                failed(InstallError::Traversal)
            },
            InstallEvent::NotFound => failed(InstallError::UnknownTimezone),
            InstallEvent::Failed => failed(InstallError::Io),
            _ => failed(InstallError::OutOfOrder),
        },
        InstallState::AllocatingTemp { target } => match event {
            InstallEvent::Path(temp) => (
                InstallState::ClearingTemp { target, temp },
                InstallAction::RemoveTemp,
            ),
            InstallEvent::NoParent => failed(InstallError::NoParent),
            InstallEvent::NotFound | InstallEvent::Failed => failed(InstallError::Io),
            _ => failed(InstallError::OutOfOrder),
        },
        InstallState::ClearingTemp { target, temp } => match event {
            InstallEvent::Done | InstallEvent::NotFound => (
                InstallState::Linking { target, temp },
                InstallAction::Symlink,
            ),
            InstallEvent::Failed => failed(InstallError::Io),
            _ => failed(InstallError::OutOfOrder),
        },
        InstallState::Linking { target, temp } => match event {
            InstallEvent::Done => (
                InstallState::ComparingDevices { target, temp },
                InstallAction::CompareDevices,
            ),
            InstallEvent::NotFound | InstallEvent::Failed => failed(InstallError::Io),
            _ => failed(InstallError::OutOfOrder),
        },
        InstallState::ComparingDevices { target, temp } => match event {
            InstallEvent::Devices { temp: temp_device, dest: dest_device } => if temp_device
                == dest_device {
                (InstallState::Renaming { target, temp }, InstallAction::Rename)
            } else {
                discarding(temp, InstallError::CrossDevice)
            },
            InstallEvent::NotFound | InstallEvent::Failed => discarding(temp, InstallError::Io),
            _ => discarding(temp, InstallError::OutOfOrder),
        },
        InstallState::Renaming { target, temp } => match event {
            InstallEvent::Done => (InstallState::Finished, InstallAction::Finish(Ok(()))),
            InstallEvent::NotFound | InstallEvent::Failed => discarding(temp, InstallError::Io),
            _ => discarding(temp, InstallError::OutOfOrder),
        },
        InstallState::Discarding { temp, error } => match event {
            InstallEvent::Done | InstallEvent::NotFound => failed(error),
            InstallEvent::Failed => failed(InstallError::Io),
            _ => failed(InstallError::OutOfOrder),
        },
        InstallState::Finished => failed(InstallError::OutOfOrder),
    }
}

/// The stage of an installation after the first `taken` of `reports`.
pub open spec fn stage_after(reports: Seq<Report>, taken: nat) -> Stage
    decreases taken,
{
    if taken == 0 {
        Stage::ResolvingRoot
    } else {
        next(stage_after(reports, (taken - 1) as nat), reports[taken - 1]).0
    }
}

/// The action that an installation asks for after the first `taken` of
/// `reports`.
pub open spec fn action_after(reports: Seq<Report>, taken: nat) -> InstallAction {
    if taken == 0 {
        InstallAction::ResolveRoot
    } else {
        next(stage_after(reports, (taken - 1) as nat), reports[taken - 1]).1
    }
}

/// The action creates, removes or replaces an entry of the filesystem.
pub open spec fn changes_files(action: InstallAction) -> bool {
    match action {
        InstallAction::AllocateTemp
        | InstallAction::RemoveTemp
        | InstallAction::Symlink
        | InstallAction::Rename => true,
        _ => false,
    }
}

/// The first two of `reports` gave the canonical paths of the database and of
/// `target`, and `target` lies within the database.
pub open spec fn validated(reports: Seq<Report>, target: Seq<u8>) -> bool {
    &&& reports.len() >= 2
    &&& reports[0] matches Report::Path(root)
    &&& reports[1] == Report::Path(target)
    &&& within(target, root)
}

/// What the reports must have been for an installation to stand at `stage`
/// after `taken` of them.
pub open spec fn course(reports: Seq<Report>, taken: nat, stage: Stage) -> bool {
    match stage {
        Stage::ResolvingRoot => taken == 0,
        Stage::ResolvingTarget { root } => taken == 1 && reports[0] == Report::Path(root),
        Stage::AllocatingTemp { target } => taken == 2 && validated(reports, target),
        Stage::ClearingTemp { target, temp } => {
            &&& taken == 3
            &&& validated(reports, target)
            &&& reports[2] == Report::Path(temp)
        },
        Stage::Linking { target, temp } => {
            &&& taken == 4
            &&& validated(reports, target)
            &&& reports[2] == Report::Path(temp)
        },
        Stage::ComparingDevices { target, temp } => {
            &&& taken == 5
            &&& validated(reports, target)
            &&& reports[2] == Report::Path(temp)
            &&& reports[4] == Report::Done
        },
        Stage::Renaming { target, temp } => {
            &&& taken == 6
            &&& validated(reports, target)
            &&& reports[2] == Report::Path(temp)
            &&& reports[4] == Report::Done
            &&& reports[5] matches Report::Devices { temp: temp_device, dest: dest_device }
            &&& temp_device == dest_device
        },
        Stage::Discarding { temp, error } => {
            &&& 6 <= taken <= 7
            &&& reports[2] == Report::Path(temp)
            &&& reports[4] == Report::Done
            &&& error == InstallError::CrossDevice ==> {
                &&& taken == 6
                &&& reports[5] matches Report::Devices { temp: temp_device, dest: dest_device }
                &&& temp_device != dest_device
            }
        },
        Stage::Finished => taken >= 1,
    }
}

/// An installation stands at each stage only after the reports that lead
/// there.
pub proof fn lemma_course(reports: Seq<Report>, taken: nat)
    requires
        taken <= reports.len(),
    ensures
        course(reports, taken, stage_after(reports, taken)),
    decreases taken,
{
    if taken > 0 {
        lemma_course(reports, (taken - 1) as nat);
    }
}

/// No entry of the filesystem is touched before the timezone's file is
/// validated: an action that creates, removes or replaces one is asked for
/// only after the canonical path of the file was found to lie within the
/// canonical path of the database.
pub proof fn law_changes_follow_validation(reports: Seq<Report>, taken: nat)
    requires
        taken <= reports.len(),
        changes_files(action_after(reports, taken)),
    ensures
        taken >= 2,
        ({
            &&& reports[0] matches Report::Path(root)
            &&& reports[1] matches Report::Path(target)
            &&& within(target, root)
        }),
{
    if taken > 0 {
        lemma_course(reports, (taken - 1) as nat);
    }
}

/// A timezone whose file lies outside the database is refused as a
/// traversal, and up to then the installation has only asked for the two
/// canonical paths.
pub proof fn law_traversal_is_refused(reports: Seq<Report>, root: Seq<u8>, target: Seq<u8>)
    requires
        reports.len() >= 2,
        reports[0] == Report::Path(root),
        reports[1] == Report::Path(target),
        !within(target, root),
    ensures
        action_after(reports, 0) == InstallAction::ResolveRoot,
        action_after(reports, 1) == InstallAction::ResolveTarget,
        action_after(reports, 2) == InstallAction::Finish(Err(InstallError::Traversal)),
        stage_after(reports, 2) == Stage::Finished,
{
    reveal_with_fuel(stage_after, 3);
}

/// The rename is asked for once at most, as the seventh action, and only
/// after the link under the temporary name was made and the two devices
/// were reported to be the same.
pub proof fn law_rename_needs_one_device(reports: Seq<Report>, taken: nat)
    requires
        taken <= reports.len(),
        action_after(reports, taken) == InstallAction::Rename,
    ensures
        taken == 6,
        reports[4] == Report::Done,
        ({
            &&& reports[5] matches Report::Devices { temp: temp_device, dest: dest_device }
            &&& temp_device == dest_device
        }),
        action_after(reports, 4) == InstallAction::Symlink,
{
    if taken > 0 {
        lemma_course(reports, (taken - 1) as nat);
        lemma_course(reports, taken);
        lemma_course(reports, 4);
        lemma_course(reports, 3);
        reveal_with_fuel(stage_after, 2);
    }
}

/// Where the two devices differ, the installation asks for the temporary
/// link to be removed, and then fails: with the error that says so once the
/// link is gone, and never with a rename.
pub proof fn law_devices_that_differ(
    reports: Seq<Report>,
    temp_device: u64,
    dest_device: u64,
    later: nat,
)
    requires
        reports.len() >= 6,
        stage_after(reports, 5) is ComparingDevices,
        reports[5] == (Report::Devices { temp: temp_device, dest: dest_device }),
        temp_device != dest_device,
        6 <= later <= reports.len(),
    ensures
        action_after(reports, 6) == InstallAction::RemoveTemp,
        ({
            &&& stage_after(reports, 6) matches Stage::Discarding { temp, error }
            &&& error == InstallError::CrossDevice
            &&& reports[2] == Report::Path(temp)
        }),
        action_after(reports, later) != InstallAction::Rename,
        reports.len() >= 7 && (reports[6] == Report::Done || reports[6] == Report::NotFound)
            ==> action_after(reports, 7) == InstallAction::Finish(
            Err(InstallError::CrossDevice),
        ),
        later >= 7 ==> action_after(reports, later) is Finish,
{
    reveal_with_fuel(stage_after, 3);
    lemma_course(reports, 5);
    lemma_course(reports, 6);
    if later >= 7 {
        lemma_after_discarding(reports, later);
    }
}

proof fn lemma_after_discarding(reports: Seq<Report>, later: nat)
    requires
        reports.len() >= 6,
        stage_after(reports, 6) is Discarding,
        7 <= later <= reports.len(),
    ensures
        stage_after(reports, later) is Finished,
        action_after(reports, later) is Finish,
    decreases later,
{
    reveal_with_fuel(stage_after, 2);
    if later > 7 {
        lemma_after_discarding(reports, (later - 1) as nat);
    }
}

/// An installation succeeds in one way only. Seven reports lead there: the
/// canonical paths of the database and of the timezone's file, the file
/// within the database; a temporary name; that the name is free; that the
/// link was made; one device for both; and that the rename was done. The
/// actions asked for are the seven that these answer, in that order, and the
/// link that the rename puts in place is the one made under the temporary
/// name to point at the validated file.
pub proof fn law_success(reports: Seq<Report>)
    requires
        action_after(reports, reports.len()) == InstallAction::Finish(Ok(())),
    ensures
        reports.len() == 7,
        ({
            &&& reports[0] matches Report::Path(root)
            &&& reports[1] matches Report::Path(target)
            &&& reports[2] matches Report::Path(temp)
            &&& within(target, root)
            &&& stage_after(reports, 4) == (Stage::Linking { target, temp })
            &&& stage_after(reports, 6) == (Stage::Renaming { target, temp })
        }),
        reports[3] == Report::Done || reports[3] == Report::NotFound,
        reports[4] == Report::Done,
        ({
            &&& reports[5] matches Report::Devices { temp: temp_device, dest: dest_device }
            &&& temp_device == dest_device
        }),
        reports[6] == Report::Done,
        action_after(reports, 0) == InstallAction::ResolveRoot,
        action_after(reports, 1) == InstallAction::ResolveTarget,
        action_after(reports, 2) == InstallAction::AllocateTemp,
        action_after(reports, 3) == InstallAction::RemoveTemp,
        action_after(reports, 4) == InstallAction::Symlink,
        action_after(reports, 5) == InstallAction::CompareDevices,
        action_after(reports, 6) == InstallAction::Rename,
{
    let taken = reports.len();
    lemma_course(reports, (taken - 1) as nat);
    reveal_with_fuel(stage_after, 8);
}

} // verus!
