//! How a plugin package is installed next to what is already installed.
use vstd::prelude::*;

use crate::error::{CoreError, ErrorKind};
use crate::source_service::{signed_decimal, signed_decimal_of};
use crate::text::{chars_of, concat, same_text, string_from};

verus! {

/// How a plugin directory is put in place.
#[derive(Debug, Clone, Copy, PartialEq, Eq, Structural)]
pub enum InstallMode {
    /// No version is installed: the staged directory becomes the plugin's directory.
    Fresh,
    /// Another version is installed: it is kept as a backup until the new one is in place.
    Upgrade,
}

/// How a plugin is installed: the same version again, or a directory left behind without
/// a database record, is refused as already installed; another installed version is
/// upgraded; otherwise the plugin is installed fresh.
pub open spec fn install_mode(
    new_version: Seq<char>,
    installed_version: Option<Seq<char>>,
    target_dir_exists: bool,
) -> Option<InstallMode> {
    match installed_version {
        Some(v) => if v == new_version {
            None
        } else {
            Some(InstallMode::Upgrade)
        },
        None => if target_dir_exists {
            None
        } else {
            Some(InstallMode::Fresh)
        },
    }
}

/// Decides how a plugin is installed (see [`install_mode`]); a refusal is
/// `PluginAlreadyInstalled(plugin_id)`.
pub fn plan_plugin_install(
    plugin_id: &str,
    new_version: &str,
    installed_version: Option<&str>,
    target_dir_exists: bool,
) -> (r: Result<InstallMode, CoreError>)
    ensures
        match r {
            Ok(m) => install_mode(
                new_version@,
                match installed_version {
                    Some(v) => Some(v@),
                    None => None,
                },
                target_dir_exists,
            ) == Some(m),
            Err(e) => install_mode(
                new_version@,
                match installed_version {
                    Some(v) => Some(v@),
                    None => None,
                },
                target_dir_exists,
            ) is None && e@ == (ErrorKind::PluginAlreadyInstalled, plugin_id@),
        },
{
    match installed_version {
        Some(v) => {
            if same_text(chars_of(v).as_slice(), chars_of(new_version).as_slice()) {
                Err(CoreError::PluginAlreadyInstalled(plugin_id.to_owned()))
            } else {
                Ok(InstallMode::Upgrade)
            }
        },
        None => {
            if target_dir_exists {
                Err(CoreError::PluginAlreadyInstalled(plugin_id.to_owned()))
            } else {
                Ok(InstallMode::Fresh)
            }
        },
    }
}


/// The record of an installed plugin.
#[derive(Debug)]
pub struct PluginRecord {
    pub id: String,
    pub plugin_id: String,
    pub name: String,
    pub version: String,
    pub spec_version: String,
    pub plugin_type: String,
    pub status: String,
    pub installed_at: String,
    pub updated_at: String,
}

/// The abstract value of [`PluginRecord`].
pub struct RecordView {
    pub id: Seq<char>,
    pub plugin_id: Seq<char>,
    pub name: Seq<char>,
    pub version: Seq<char>,
    pub spec_version: Seq<char>,
    pub plugin_type: Seq<char>,
    pub status: Seq<char>,
    pub installed_at: Seq<char>,
    pub updated_at: Seq<char>,
}

impl View for PluginRecord {
    type V = RecordView;

    open spec fn view(&self) -> RecordView {
        RecordView {
            id: self.id@,
            plugin_id: self.plugin_id@,
            name: self.name@,
            version: self.version@,
            spec_version: self.spec_version@,
            plugin_type: self.plugin_type@,
            status: self.status@,
            installed_at: self.installed_at@,
            updated_at: self.updated_at@,
        }
    }
}

/// The record an installation writes (inserted fresh, or replacing the old one on an
/// upgrade) and answers with: the manifest's fields, the id `"{plugin_id}-{nanos}"`,
/// status `installed`, and the time `now` as both install and update time.
pub open spec fn plugin_record_of(
    plugin_id: Seq<char>,
    name: Seq<char>,
    version: Seq<char>,
    spec_version: Seq<char>,
    plugin_type: Seq<char>,
    created_nanos: int,
    now: Seq<char>,
) -> RecordView {
    RecordView {
        id: plugin_id + "-"@ + signed_decimal(created_nanos),
        plugin_id,
        name,
        version,
        spec_version,
        plugin_type,
        status: "installed"@,
        installed_at: now,
        updated_at: now,
    }
}

/// Builds the record of a plugin being installed (see [`plugin_record_of`]).
pub fn plugin_record(
    plugin_id: &str,
    name: &str,
    version: &str,
    spec_version: &str,
    plugin_type: &str,
    created_nanos: i128,
    now: &str,
) -> (r: PluginRecord)
    ensures
        r@ == plugin_record_of(
            plugin_id@,
            name@,
            version@,
            spec_version@,
            plugin_type@,
            created_nanos as int,
            now@,
        ),
{
    let a = concat(chars_of(plugin_id).as_slice(), chars_of("-").as_slice());
    let id = concat(a.as_slice(), signed_decimal_of(created_nanos).as_slice());
    PluginRecord {
        id: string_from(id.as_slice()),
        plugin_id: plugin_id.to_owned(),
        name: name.to_owned(),
        version: version.to_owned(),
        spec_version: spec_version.to_owned(),
        plugin_type: plugin_type.to_owned(),
        status: "installed".to_owned(),
        installed_at: now.to_owned(),
        updated_at: now.to_owned(),
    }
}

/// Where the installation of a staged plugin directory stands.
#[derive(Debug, Clone, Copy, PartialEq, Eq, Structural)]
pub enum InstallStage {
    Start,
    CleaningStaging,
    Copying,
    Validating,
    CheckingTarget,
    MovingIn,
    RecordingFresh,
    BackingUp,
    Swapping,
    RestoringAfterSwap,
    RecordingUpgrade,
    RestoringAfterRecord,
    RemovingBackup,
    RollingBack,
    Finished,
}

/// An installation under way: how it installs, the name of the plugin's target
/// directory, the error a restore is under way for, and where it stands.
#[derive(Debug)]
pub struct InstallState<E> {
    pub stage: InstallStage,
    pub mode: InstallMode,
    pub target_name: String,
    pub pending: Option<E>,
}

/// The abstract value of [`InstallState`].
pub struct InstallStateView<E> {
    pub stage: InstallStage,
    pub mode: InstallMode,
    pub target_name: Seq<char>,
    pub pending: Option<E>,
}

impl<E> View for InstallState<E> {
    type V = InstallStateView<E>;

    open spec fn view(&self) -> InstallStateView<E> {
        InstallStateView {
            stage: self.stage,
            mode: self.mode,
            target_name: self.target_name@,
            pending: self.pending,
        }
    }
}

/// What the file system, the plugin loader and the database report; `E` is their error.
#[derive(Debug)]
pub enum InstallEvent<E> {
    /// The installation is to start.
    Begin,
    /// The step asked for succeeded.
    Done,
    /// The step asked for failed.
    Failed(E),
    /// Whether the target directory exists.
    TargetExists(bool),
    /// The results of putting the old record back and of restoring the backup directory.
    RolledBack(Option<E>, Option<E>),
}

/// What an installation asks the outside world to do next.
#[derive(Debug)]
pub enum InstallAction<E> {
    /// Remove the staging and backup directories that are left over.
    CleanStaging,
    /// Copy the package into the staging directory.
    CopyToStaging,
    /// Load the plugin again from the staging directory.
    ValidateStaging,
    /// Look whether the target directory exists.
    CheckTarget,
    /// Rename the staging directory to the target directory.
    MoveStagingToTarget,
    /// Insert the plugin's record (see [`plugin_record`]).
    InsertRecord,
    /// Rename the target directory to the backup directory.
    MoveTargetToBackup,
    /// Replace the plugin's record with the new one (see [`plugin_record`]).
    ReplaceRecord,
    /// Remove the backup directory.
    RemoveBackup,
    /// Remove the staging directory, whatever that gives, and fail with this error.
    RemoveStagingThenFail(E),
    /// Remove the staging directory, whatever that gives, and fail with this error.
    RemoveStagingThenRefuse(CoreError),
    /// Remove the target directory, whatever that gives, and fail with this error.
    RemoveTargetThenFail(E),
    /// Remove the staging directory, whatever that gives, then rename the backup
    /// directory back to the target directory.
    RemoveStagingAndRestoreBackup,
    /// Remove the target directory, whatever that gives, then put the backup directory
    /// back in its place.
    RemoveTargetAndRestoreBackup,
    /// Put the old record back, remove the target directory, whatever that gives, and
    /// put the backup directory back in its place.
    RollBackAll,
    /// Fail with this error.
    Fail(E),
    /// Fail because both moving the new directory in and restoring the old one failed:
    /// with the error of the move, then that of the restore (see
    /// [`both_moves_failed_message`]).
    FailBoth(E, E),
    /// Answer with the record that was written (see [`plugin_record`]).
    Finish,
    /// The event does not fit the stage: nothing to do.
    Ignore,
}

/// The abstract value of [`InstallAction`].
pub enum InstallActionView<E> {
    CleanStaging,
    CopyToStaging,
    ValidateStaging,
    CheckTarget,
    MoveStagingToTarget,
    InsertRecord,
    MoveTargetToBackup,
    ReplaceRecord,
    RemoveBackup,
    RemoveStagingThenFail(E),
    RemoveStagingThenRefuse((ErrorKind, Seq<char>)),
    RemoveTargetThenFail(E),
    RemoveStagingAndRestoreBackup,
    RemoveTargetAndRestoreBackup,
    RollBackAll,
    Fail(E),
    FailBoth(E, E),
    Finish,
    Ignore,
}

impl<E> View for InstallAction<E> {
    type V = InstallActionView<E>;

    open spec fn view(&self) -> InstallActionView<E> {
        match self {
            InstallAction::CleanStaging => InstallActionView::CleanStaging,
            InstallAction::CopyToStaging => InstallActionView::CopyToStaging,
            InstallAction::ValidateStaging => InstallActionView::ValidateStaging,
            InstallAction::CheckTarget => InstallActionView::CheckTarget,
            InstallAction::MoveStagingToTarget => InstallActionView::MoveStagingToTarget,
            InstallAction::InsertRecord => InstallActionView::InsertRecord,
            InstallAction::MoveTargetToBackup => InstallActionView::MoveTargetToBackup,
            InstallAction::ReplaceRecord => InstallActionView::ReplaceRecord,
            InstallAction::RemoveBackup => InstallActionView::RemoveBackup,
            InstallAction::RemoveStagingThenFail(e) => InstallActionView::RemoveStagingThenFail(*e),
            InstallAction::RemoveStagingThenRefuse(e) => InstallActionView::RemoveStagingThenRefuse(e@),
            InstallAction::RemoveTargetThenFail(e) => InstallActionView::RemoveTargetThenFail(*e),
            InstallAction::RemoveStagingAndRestoreBackup => InstallActionView::RemoveStagingAndRestoreBackup,
            InstallAction::RemoveTargetAndRestoreBackup => InstallActionView::RemoveTargetAndRestoreBackup,
            InstallAction::RollBackAll => InstallActionView::RollBackAll,
            InstallAction::Fail(e) => InstallActionView::Fail(*e),
            InstallAction::FailBoth(a, b) => InstallActionView::FailBoth(*a, *b),
            InstallAction::Finish => InstallActionView::Finish,
            InstallAction::Ignore => InstallActionView::Ignore,
        }
    }
}

/// The state at another stage, with the same pending error.
pub open spec fn install_at<E>(s: InstallStateView<E>, stage: InstallStage) -> InstallStateView<E> {
    InstallStateView { stage, ..s }
}

/// The next state and action of an installation. Leftover staging directories are
/// removed, the package is copied into staging and loaded again from there (a failure
/// removes the staging directory). A fresh install refuses a target directory that
/// exists, moves staging in and inserts the record, removing the target again when that
/// fails. An upgrade moves the old directory to the backup, then staging in (on failure
/// the backup is moved back), then replaces the record (on failure the new directory is
/// removed and the backup restored), then removes the backup (on failure the old record
/// and directory are put back). Each failure ends the installation with its error, an
/// error of the rollback taking its place where the rollback's own result is checked.
pub open spec fn install_next<E>(s: InstallStateView<E>, event: InstallEvent<E>) -> (
    InstallStateView<E>,
    InstallActionView<E>,
) {
    let fin = install_at(s, InstallStage::Finished);
    match (s.stage, event) {
        (InstallStage::Start, InstallEvent::Begin) => (
            install_at(s, InstallStage::CleaningStaging),
            InstallActionView::CleanStaging,
        ),
        (InstallStage::CleaningStaging, InstallEvent::Done) => (
            install_at(s, InstallStage::Copying),
            InstallActionView::CopyToStaging,
        ),
        (InstallStage::CleaningStaging, InstallEvent::Failed(e)) => (fin, InstallActionView::Fail(e)),
        (InstallStage::Copying, InstallEvent::Done) => (
            install_at(s, InstallStage::Validating),
            InstallActionView::ValidateStaging,
        ),
        (InstallStage::Copying, InstallEvent::Failed(e)) => (
            fin,
            InstallActionView::RemoveStagingThenFail(e),
        ),
        (InstallStage::Validating, InstallEvent::Done) => match s.mode {
            InstallMode::Fresh => (
                install_at(s, InstallStage::CheckingTarget),
                InstallActionView::CheckTarget,
            ),
            InstallMode::Upgrade => (
                install_at(s, InstallStage::BackingUp),
                InstallActionView::MoveTargetToBackup,
            ),
        },
        (InstallStage::Validating, InstallEvent::Failed(e)) => (
            fin,
            InstallActionView::RemoveStagingThenFail(e),
        ),
        (InstallStage::CheckingTarget, InstallEvent::TargetExists(exists)) => if exists {
            (
                fin,
                InstallActionView::RemoveStagingThenRefuse(
                    (ErrorKind::PluginAlreadyInstalled, s.target_name),
                ),
            )
        } else {
            (install_at(s, InstallStage::MovingIn), InstallActionView::MoveStagingToTarget)
        },
        (InstallStage::MovingIn, InstallEvent::Done) => (
            install_at(s, InstallStage::RecordingFresh),
            InstallActionView::InsertRecord,
        ),
        (InstallStage::MovingIn, InstallEvent::Failed(e)) => (fin, InstallActionView::Fail(e)),
        (InstallStage::RecordingFresh, InstallEvent::Done) => (fin, InstallActionView::Finish),
        (InstallStage::RecordingFresh, InstallEvent::Failed(e)) => (
            fin,
            InstallActionView::RemoveTargetThenFail(e),
        ),
        (InstallStage::BackingUp, InstallEvent::Done) => (
            install_at(s, InstallStage::Swapping),
            InstallActionView::MoveStagingToTarget,
        ),
        (InstallStage::BackingUp, InstallEvent::Failed(e)) => (
            fin,
            InstallActionView::RemoveStagingThenFail(e),
        ),
        (InstallStage::Swapping, InstallEvent::Done) => (
            install_at(s, InstallStage::RecordingUpgrade),
            InstallActionView::ReplaceRecord,
        ),
        (InstallStage::Swapping, InstallEvent::Failed(e)) => (
            InstallStateView { stage: InstallStage::RestoringAfterSwap, pending: Some(e), ..s },
            InstallActionView::RemoveStagingAndRestoreBackup,
        ),
        (InstallStage::RestoringAfterSwap, InstallEvent::Done) => match s.pending {
            Some(e) => (InstallStateView { pending: None, ..fin }, InstallActionView::Fail(e)),
            None => (s, InstallActionView::Ignore),
        },
        (InstallStage::RestoringAfterSwap, InstallEvent::Failed(r)) => match s.pending {
            Some(e) => (InstallStateView { pending: None, ..fin }, InstallActionView::FailBoth(e, r)),
            None => (s, InstallActionView::Ignore),
        },
        (InstallStage::RecordingUpgrade, InstallEvent::Done) => (
            install_at(s, InstallStage::RemovingBackup),
            InstallActionView::RemoveBackup,
        ),
        (InstallStage::RecordingUpgrade, InstallEvent::Failed(e)) => (
            InstallStateView { stage: InstallStage::RestoringAfterRecord, pending: Some(e), ..s },
            InstallActionView::RemoveTargetAndRestoreBackup,
        ),
        (InstallStage::RestoringAfterRecord, InstallEvent::Done) => match s.pending {
            Some(e) => (InstallStateView { pending: None, ..fin }, InstallActionView::Fail(e)),
            None => (s, InstallActionView::Ignore),
        },
        (InstallStage::RestoringAfterRecord, InstallEvent::Failed(r)) => (
            InstallStateView { pending: None, ..fin },
            InstallActionView::Fail(r),
        ),
        (InstallStage::RemovingBackup, InstallEvent::Done) => (fin, InstallActionView::Finish),
        (InstallStage::RemovingBackup, InstallEvent::Failed(e)) => (
            InstallStateView { stage: InstallStage::RollingBack, pending: Some(e), ..s },
            InstallActionView::RollBackAll,
        ),
        (InstallStage::RollingBack, InstallEvent::RolledBack(record, restore)) => match record {
            Some(r) => (InstallStateView { pending: None, ..fin }, InstallActionView::Fail(r)),
            None => match restore {
                Some(r) => (InstallStateView { pending: None, ..fin }, InstallActionView::Fail(r)),
                None => match s.pending {
                    Some(e) => (InstallStateView { pending: None, ..fin }, InstallActionView::Fail(e)),
                    None => (s, InstallActionView::Ignore),
                },
            },
        },
        _ => (s, InstallActionView::Ignore),
    }
}

fn finished<E>(mode: InstallMode, target_name: String) -> (r: InstallState<E>)
    ensures
        r@ == (InstallStateView::<E> {
            stage: InstallStage::Finished,
            mode,
            target_name: target_name@,
            pending: None,
        }),
{
    InstallState { stage: InstallStage::Finished, mode, target_name, pending: None }
}

/// Takes an installation one step further (see [`install_next`]).
pub fn install_step<E>(state: InstallState<E>, event: InstallEvent<E>) -> (r: (InstallState<E>, InstallAction<E>))
    ensures
        (r.0@, r.1@) == install_next(state@, event),
{
    let InstallState { stage, mode, target_name, pending } = state;
    match (stage, event) {
        (InstallStage::Start, InstallEvent::Begin) => (
            InstallState { stage: InstallStage::CleaningStaging, mode, target_name, pending },
            InstallAction::CleanStaging,
        ),
        (InstallStage::CleaningStaging, InstallEvent::Done) => (
            InstallState { stage: InstallStage::Copying, mode, target_name, pending },
            InstallAction::CopyToStaging,
        ),
        (InstallStage::CleaningStaging, InstallEvent::Failed(e)) => (
            InstallState { stage: InstallStage::Finished, mode, target_name, pending },
            InstallAction::Fail(e),
        ),
        (InstallStage::Copying, InstallEvent::Done) => (
            InstallState { stage: InstallStage::Validating, mode, target_name, pending },
            InstallAction::ValidateStaging,
        ),
        (InstallStage::Copying, InstallEvent::Failed(e)) => (
            InstallState { stage: InstallStage::Finished, mode, target_name, pending },
            InstallAction::RemoveStagingThenFail(e),
        ),
        (InstallStage::Validating, InstallEvent::Done) => match mode {
            InstallMode::Fresh => (
                InstallState { stage: InstallStage::CheckingTarget, mode, target_name, pending },
                InstallAction::CheckTarget,
            ),
            InstallMode::Upgrade => (
                InstallState { stage: InstallStage::BackingUp, mode, target_name, pending },
                InstallAction::MoveTargetToBackup,
            ),
        },
        (InstallStage::Validating, InstallEvent::Failed(e)) => (
            InstallState { stage: InstallStage::Finished, mode, target_name, pending },
            InstallAction::RemoveStagingThenFail(e),
        ),
        (InstallStage::CheckingTarget, InstallEvent::TargetExists(exists)) => if exists {
            let refusal = CoreError::PluginAlreadyInstalled(target_name.clone());
            (
                InstallState { stage: InstallStage::Finished, mode, target_name, pending },
                InstallAction::RemoveStagingThenRefuse(refusal),
            )
        } else {
            (
                InstallState { stage: InstallStage::MovingIn, mode, target_name, pending },
                InstallAction::MoveStagingToTarget,
            )
        },
        (InstallStage::MovingIn, InstallEvent::Done) => (
            InstallState { stage: InstallStage::RecordingFresh, mode, target_name, pending },
            InstallAction::InsertRecord,
        ),
        (InstallStage::MovingIn, InstallEvent::Failed(e)) => (
            InstallState { stage: InstallStage::Finished, mode, target_name, pending },
            InstallAction::Fail(e),
        ),
        (InstallStage::RecordingFresh, InstallEvent::Done) => (
            InstallState { stage: InstallStage::Finished, mode, target_name, pending },
            InstallAction::Finish,
        ),
        (InstallStage::RecordingFresh, InstallEvent::Failed(e)) => (
            InstallState { stage: InstallStage::Finished, mode, target_name, pending },
            InstallAction::RemoveTargetThenFail(e),
        ),
        (InstallStage::BackingUp, InstallEvent::Done) => (
            InstallState { stage: InstallStage::Swapping, mode, target_name, pending },
            InstallAction::MoveStagingToTarget,
        ),
        (InstallStage::BackingUp, InstallEvent::Failed(e)) => (
            InstallState { stage: InstallStage::Finished, mode, target_name, pending },
            InstallAction::RemoveStagingThenFail(e),
        ),
        (InstallStage::Swapping, InstallEvent::Done) => (
            InstallState { stage: InstallStage::RecordingUpgrade, mode, target_name, pending },
            InstallAction::ReplaceRecord,
        ),
        (InstallStage::Swapping, InstallEvent::Failed(e)) => (
            InstallState { stage: InstallStage::RestoringAfterSwap, mode, target_name, pending: Some(e) },
            InstallAction::RemoveStagingAndRestoreBackup,
        ),
        (InstallStage::RestoringAfterSwap, InstallEvent::Done) => match pending {
            Some(e) => (finished(mode, target_name), InstallAction::Fail(e)),
            None => (
                InstallState { stage: InstallStage::RestoringAfterSwap, mode, target_name, pending: None },
                InstallAction::Ignore,
            ),
        },
        (InstallStage::RestoringAfterSwap, InstallEvent::Failed(r)) => match pending {
            Some(e) => (finished(mode, target_name), InstallAction::FailBoth(e, r)),
            None => (
                InstallState { stage: InstallStage::RestoringAfterSwap, mode, target_name, pending: None },
                InstallAction::Ignore,
            ),
        },
        (InstallStage::RecordingUpgrade, InstallEvent::Done) => (
            InstallState { stage: InstallStage::RemovingBackup, mode, target_name, pending },
            InstallAction::RemoveBackup,
        ),
        (InstallStage::RecordingUpgrade, InstallEvent::Failed(e)) => (
            InstallState { stage: InstallStage::RestoringAfterRecord, mode, target_name, pending: Some(e) },
            InstallAction::RemoveTargetAndRestoreBackup,
        ),
        (InstallStage::RestoringAfterRecord, InstallEvent::Done) => match pending {
            Some(e) => (finished(mode, target_name), InstallAction::Fail(e)),
            None => (
                InstallState { stage: InstallStage::RestoringAfterRecord, mode, target_name, pending: None },
                InstallAction::Ignore,
            ),
        },
        (InstallStage::RestoringAfterRecord, InstallEvent::Failed(r)) => (
            finished(mode, target_name),
            InstallAction::Fail(r),
        ),
        (InstallStage::RemovingBackup, InstallEvent::Done) => (
            InstallState { stage: InstallStage::Finished, mode, target_name, pending },
            InstallAction::Finish,
        ),
        (InstallStage::RemovingBackup, InstallEvent::Failed(e)) => (
            InstallState { stage: InstallStage::RollingBack, mode, target_name, pending: Some(e) },
            InstallAction::RollBackAll,
        ),
        (InstallStage::RollingBack, InstallEvent::RolledBack(record, restore)) => match record {
            Some(r) => (finished(mode, target_name), InstallAction::Fail(r)),
            None => match restore {
                Some(r) => (finished(mode, target_name), InstallAction::Fail(r)),
                None => match pending {
                    Some(e) => (finished(mode, target_name), InstallAction::Fail(e)),
                    None => (
                        InstallState { stage: InstallStage::RollingBack, mode, target_name, pending: None },
                        InstallAction::Ignore,
                    ),
                },
            },
        },
        (stage, _) => (InstallState { stage, mode, target_name, pending }, InstallAction::Ignore),
    }
}

/// The message of an upgrade whose new directory could not be moved in and whose old
/// directory could not be moved back, from the texts of the two errors.
pub open spec fn both_moves_failed_text(upgrade_error: Seq<char>, restore_error: Seq<char>) -> Seq<char> {
    "插件目录升级失败且旧目录恢复失败；升级错误："@ + upgrade_error + "；恢复错误："@ + restore_error
}

/// The message of [`InstallAction::FailBoth`] (see [`both_moves_failed_text`]).
pub fn both_moves_failed_message(upgrade_error: &str, restore_error: &str) -> (r: String)
    ensures
        r@ == both_moves_failed_text(upgrade_error@, restore_error@),
{
    let a = concat(chars_of("插件目录升级失败且旧目录恢复失败；升级错误：").as_slice(), chars_of(upgrade_error).as_slice());
    let b = concat(a.as_slice(), chars_of("；恢复错误：").as_slice());
    let c = concat(b.as_slice(), chars_of(restore_error).as_slice());
    string_from(c.as_slice())
}

/// The installed directory and record change only after the package was staged and
/// loaded again from staging; a fresh install never replaces a directory; a failed
/// upgrade step after the old directory was moved aside always asks for it back; and an
/// ended installation does nothing more.
pub proof fn lemma_install_order<E>(s: InstallStateView<E>, event: InstallEvent<E>)
    ensures
        install_next(s, event).1 is MoveTargetToBackup ==> s.stage == InstallStage::Validating
            && event is Done && s.mode == InstallMode::Upgrade,
        install_next(s, event).1 is MoveStagingToTarget ==> (s.stage == InstallStage::CheckingTarget
            && event == InstallEvent::<E>::TargetExists(false)) || (s.stage == InstallStage::BackingUp
            && event is Done),
        (s.stage == InstallStage::Swapping || s.stage == InstallStage::RecordingUpgrade
            || s.stage == InstallStage::RemovingBackup) && event is Failed ==> (install_next(
            s,
            event,
        ).1 is RemoveStagingAndRestoreBackup || install_next(s, event).1 is RemoveTargetAndRestoreBackup
            || install_next(s, event).1 is RollBackAll),
        s.stage == InstallStage::Finished ==> install_next(s, event) == (
            s,
            InstallActionView::<E>::Ignore,
        ),
{
}

} // verus!
