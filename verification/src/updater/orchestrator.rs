//! The steps of a check by hand, and of an installation.

use crate::updater::checker::ReleaseAsset;
use crate::updater::status::{status_widget, UpdateInfo, UpdateModel, UpdateStatus};
use vstd::prelude::*;

verus! {

broadcast use vstd::string::group_string_axioms;

/// What a check by hand does next.
#[derive(Debug, PartialEq, Eq)]
pub enum CheckStep {
    Finished,
    Download(ReleaseAsset),
}

/// Whether a failure is told.
pub open spec fn is_failed(status: UpdateStatus, error: Seq<char>) -> bool {
    status matches UpdateStatus::Failed { error: told } && told@ == error
}

/// Takes in the outcome of the check. An update that Homebrew installs is only
/// told of; any other is downloaded. Where nothing is left to do, the check by
/// hand ends.
pub fn run_manual_check(info: &mut UpdateInfo, result: Result<Option<ReleaseAsset>, String>) -> (r:
    CheckStep)
    ensures
        match result {
            Ok(Some(release)) => if old(info).view().is_homebrew {
                &&& r is Finished
                &&& final(info).view().status matches UpdateStatus::BrewUpdate { version }
                &&& version@ == release.version@
                &&& final(info).view() == (UpdateModel {
                    manual: false,
                    ..old(info).view().with_status(final(info).view().status)
                })
            } else {
                &&& r == CheckStep::Download(release)
                &&& final(info).view().status matches UpdateStatus::Downloading {
                    version,
                    progress,
                }
                &&& version@ == release.version@
                &&& progress == 0
                &&& final(info).view() == old(info).view().with_status(final(info).view().status)
            },
            Ok(None) => {
                &&& r is Finished
                &&& final(info).view() == (UpdateModel {
                    manual: false,
                    ..old(info).view().with_status(UpdateStatus::Idle)
                })
            },
            Err(error) => {
                &&& r is Finished
                &&& is_failed(final(info).view().status, error@)
                &&& final(info).view() == (UpdateModel {
                    manual: false,
                    ..old(info).view().with_status(final(info).view().status)
                })
            },
        },
{
    match result {
        Ok(Some(release)) => {
            if info.is_homebrew() {
                info.set_status(UpdateStatus::BrewUpdate { version: release.version });
            } else {
                info.set_status(
                    UpdateStatus::Downloading { version: release.version.clone(), progress: 0 },
                );
                return CheckStep::Download(release);
            }
        },
        Ok(None) => info.set_status(UpdateStatus::Idle),
        Err(error) => info.set_status(UpdateStatus::Failed { error }),
    }
    info.finish_manual();
    CheckStep::Finished
}

/// Takes in the outcome of the download, and ends the check by hand.
pub fn finish_download(info: &mut UpdateInfo, version: String, result: Result<String, String>)
    ensures
        match result {
            Ok(path) => final(info).view() == (UpdateModel {
                manual: false,
                ..old(info).view().with_status(UpdateStatus::Ready { version, path })
            }),
            Err(error) => final(info).view() == (UpdateModel {
                manual: false,
                ..old(info).view().with_status(UpdateStatus::Failed { error })
            }),
        },
{
    match result {
        Ok(path) => info.set_status(UpdateStatus::Ready { version, path }),
        Err(error) => info.set_status(UpdateStatus::Failed { error }),
    }
    info.finish_manual();
}

/// Begins to install a downloaded update, and says which; does nothing in any
/// other state.
pub fn start_install(info: &mut UpdateInfo) -> (r: Option<(String, String)>)
    ensures
        match old(info).view().status {
            UpdateStatus::Ready { version, path } => {
                &&& r.deep_view() == Some((version@, path@))
                &&& final(info).view().status matches UpdateStatus::Installing { version: v }
                &&& v@ == version@
                &&& final(info).view() == old(info).view().with_status(final(info).view().status)
            },
            _ => r is None && final(info).view() == old(info).view(),
        },
{
    let (version, path): (String, String) = match info.status() {
        UpdateStatus::Ready { version, path } => (version.clone(), path.clone()),
        _ => return None,
    };
    info.set_status(UpdateStatus::Installing { version: version.clone() });
    Some((version, path))
}

/// Takes in the outcome of an installation.
pub fn run_install(info: &mut UpdateInfo, version: String, result: Result<(), String>)
    ensures
        final(info).view() == old(info).view().with_status(
            match result {
                Ok(_) => UpdateStatus::ReadyToRestart { version },
                Err(error) => UpdateStatus::Failed { error },
            },
        ),
{
    match result {
        Ok(_) => info.set_status(UpdateStatus::ReadyToRestart { version }),
        Err(error) => info.set_status(UpdateStatus::Failed { error }),
    }
}

// ---------------------------------------------------------------------------
// Laws
// ---------------------------------------------------------------------------

/// A failure is shown with its own reason.
pub proof fn failures_are_shown(status: UpdateStatus, error: Seq<char>)
    requires
        is_failed(status, error),
    ensures
        status is Failed,
        status_widget(status) matches Some(w) && w.text == "Update failed: "@ + error,
{
}

} // verus!
