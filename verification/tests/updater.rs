use okena::http::HttpResponse;
use okena::updater::checker::{
    check_for_update, platform_asset_name, release_request, Platform, ReleaseAsset,
};
use okena::updater::orchestrator::{
    finish_download, run_install, run_manual_check, start_install, CheckStep,
};
use okena::updater::status::{
    is_homebrew_path, widget, Tone, UpdateInfo, UpdateStatus, WidgetAction,
};

const ASSET: &str = "okena-linux-x64.tar.gz";

fn release(tag: &str) -> String {
    let asset = |name: &str| format!(r#"{{"name":"{name}","browser_download_url":"https://d/{name}"}}"#);
    format!(
        r#"{{"tag_name":"{tag}","assets":[{},{},{}]}}"#,
        asset("okena-macos-x64.zip"),
        asset(ASSET),
        asset("SHA256SUMS")
    )
}

fn answered(version: &str, status: u16, body: &str) -> Result<Option<ReleaseAsset>, String> {
    let response = HttpResponse::new(status, vec![], body.as_bytes().to_vec());
    check_for_update(version, &Some(response), ASSET)
}

fn check(version: &str, body: &str) -> Result<Option<ReleaseAsset>, String> {
    answered(version, 200, body)
}

fn asset(version: &str) -> ReleaseAsset {
    ReleaseAsset {
        version: version.to_string(),
        asset_url: format!("https://d/{ASSET}"),
        asset_name: ASSET.to_string(),
        checksum_url: Some("https://d/SHA256SUMS".to_string()),
    }
}

fn info() -> UpdateInfo {
    UpdateInfo::new("1.0.0".to_string(), false)
}

#[test]
fn newer_releases_are_offered() {
    assert_eq!(check("1.2.3", &release("v1.2.4")), Ok(Some(asset("1.2.4"))));
    assert_eq!(check("1.2.3", &release("1.10.0")), Ok(Some(asset("1.10.0"))));
    assert_eq!(check("1.2.3-beta.1", &release("v1.2.3")), Ok(Some(asset("1.2.3"))));
}

#[test]
fn other_releases_are_not() {
    assert_eq!(check("1.2.3", &release("v1.2.3")), Ok(None));
    assert_eq!(check("1.2.3", &release("v1.2.3-beta.1")), Ok(None));
    assert_eq!(check("1.10.0", &release("v1.9.9")), Ok(None));
    let elsewhere = r#"{"tag_name":"v2.0.0","assets":[{"name":"other"}]}"#;
    assert_eq!(check("1.0.0", elsewhere), Ok(None));
}

#[test]
fn every_error_of_a_check() {
    let err = |m: &str| Err(m.to_string());
    let limit = "GitHub API rate limit exceeded \u{2014} try again later";
    assert_eq!(answered("1.0.0", 403, ""), err(limit));
    assert_eq!(answered("1.0.0", 429, ""), err(limit));
    assert_eq!(
        answered("1.0.0", 500, ""),
        err("GitHub API returned status 500")
    );
    assert_eq!(
        check_for_update("1.0.0", &None, ASSET),
        err("failed to fetch latest release")
    );
    assert_eq!(check("1.0.0", "<html>"), err("failed to parse release JSON"));
    assert_eq!(check("1.0.0", "{}"), err("missing tag_name"));
    assert_eq!(check("1.0.0", &release("nightly")), err("invalid remote version"));
    assert_eq!(check("dev", &release("v1.0.0")), err("invalid current version"));
    assert_eq!(check("1.0.0", r#"{"tag_name":"v2.0.0"}"#), err("missing assets array"));
    let no_url = format!(r#"{{"tag_name":"v2.0.0","assets":[{{"name":"{ASSET}"}}]}}"#);
    assert_eq!(check("1.0.0", &no_url), err("missing download URL"));
}

#[test]
fn releases_are_asked_for_by_name() {
    let request = release_request("1.2.3");
    assert_eq!(request.url, "https://api.github.com/repos/contember/okena/releases/latest");
    assert_eq!(request.user_agent.as_deref(), Some("okena/1.2.3"));
    assert_eq!(request.timeout_ms, Some(15_000));
    assert_eq!(request.label.as_deref(), Some("updater.check"));
}

#[test]
fn each_platform_has_its_file() {
    assert_eq!(platform_asset_name(Platform::LinuxX64), ASSET);
    assert_eq!(platform_asset_name(Platform::LinuxArm64), "okena-linux-arm64.tar.gz");
    assert_eq!(platform_asset_name(Platform::MacArm64), "okena-macos-arm64.zip");
    assert_eq!(platform_asset_name(Platform::MacX64), "okena-macos-x64.zip");
    assert_eq!(platform_asset_name(Platform::WindowsX64), "okena-windows-x64.zip");
    assert_eq!(platform_asset_name(Platform::WindowsArm64), "okena-windows-arm64.zip");
}

#[test]
fn work_that_was_called_off_stops_nothing() {
    let mut info = info();
    let first = info.try_start().unwrap();
    assert_eq!(info.try_start(), None);
    info.cancel();
    assert!(info.is_cancelled(first));
    let second = info.try_start().unwrap();
    assert_eq!(second, info.current_token());
    info.mark_stopped(first);
    assert_eq!(info.try_start(), None);
    info.mark_stopped(second);
    assert!(info.try_start().is_some());
}

#[test]
fn checks_exclude_each_other() {
    let mut info = info();
    assert!(info.try_start_manual());
    assert!(info.is_manual_active());
    assert!(!info.try_start_manual());
    assert_eq!(info.try_start(), None);
    info.finish_manual();
    info.set_status(UpdateStatus::Checking);
    assert!(!info.try_start_manual());
    info.set_status(UpdateStatus::Downloading {
        version: "2".to_string(),
        progress: 1,
    });
    assert!(!info.try_start_manual());
}

#[test]
fn news_are_shown_after_a_dismissal() {
    let mut info = info();
    assert_eq!(widget(&info), None);
    info.set_status(UpdateStatus::Failed {
        error: "disk full".to_string(),
    });
    let shown = widget(&info).unwrap();
    assert_eq!(shown.text, "Update failed: disk full");
    assert_eq!((shown.tone, shown.action), (Tone::Bad, WidgetAction::Dismiss));
    info.dismiss();
    assert!(info.is_dismissed());
    assert_eq!(widget(&info), None);
    info.set_status(UpdateStatus::Checking);
    assert!(info.is_dismissed());
    info.set_status(UpdateStatus::ReadyToRestart {
        version: "2".to_string(),
    });
    assert!(!info.is_dismissed());
    assert_eq!(widget(&info).unwrap().action, WidgetAction::Restart);
}

#[test]
fn the_status_bar_tells_each_status() {
    let mut info = info();
    let mut text = |status| {
        info.set_status(status);
        widget(&info).map(|w| w.text)
    };
    let v = || "2.0.0".to_string();
    assert_eq!(text(UpdateStatus::Checking).as_deref(), Some("Checking for updates..."));
    assert_eq!(
        text(UpdateStatus::Downloading { version: v(), progress: 40 }).as_deref(),
        Some("Downloading v2.0.0... 40%")
    );
    assert_eq!(
        text(UpdateStatus::Installing { version: v() }).as_deref(),
        Some("Installing v2.0.0...")
    );
    assert_eq!(
        text(UpdateStatus::BrewUpdate { version: v() }).as_deref(),
        Some("v2.0.0 \u{2014} brew upgrade okena")
    );
    let ready = UpdateStatus::Ready {
        version: v(),
        path: "/tmp/u".to_string(),
    };
    assert_eq!(text(ready).as_deref(), Some("New version available"));
    let link = widget(&info).unwrap().link;
    assert_eq!(
        link.as_deref(),
        Some("https://github.com/contember/okena/releases/tag/v2.0.0")
    );
}

#[test]
fn a_check_by_hand_runs_to_its_end() {
    let mut info = info();
    assert!(info.try_start_manual());
    let step = run_manual_check(&mut info, Ok(Some(asset("2.0.0"))));
    assert_eq!(step, CheckStep::Download(asset("2.0.0")));
    assert!(info.is_manual_active());
    assert_eq!(start_install(&mut info), None);
    finish_download(&mut info, "2.0.0".to_string(), Ok("/tmp/u".to_string()));
    assert!(!info.is_manual_active());
    assert_eq!(
        start_install(&mut info),
        Some(("2.0.0".to_string(), "/tmp/u".to_string()))
    );
    assert_eq!(
        info.status(),
        &UpdateStatus::Installing {
            version: "2.0.0".to_string(),
        }
    );
    run_install(&mut info, "2.0.0".to_string(), Err("no space".to_string()));
    assert_eq!(
        info.status(),
        &UpdateStatus::Failed {
            error: "no space".to_string(),
        }
    );
    run_install(&mut info, "2.0.0".to_string(), Ok(()));
    assert!(matches!(info.status(), UpdateStatus::ReadyToRestart { .. }));
}

#[test]
fn homebrew_installs_its_own() {
    assert!(is_homebrew_path("/opt/homebrew/Caskroom/okena/1.0/okena"));
    assert!(is_homebrew_path("/usr/local/Cellar/okena/1.0/bin/okena"));
    assert!(!is_homebrew_path("/usr/bin/okena"));
    let mut info = UpdateInfo::new("1.0.0".to_string(), true);
    assert!(info.is_homebrew());
    assert_eq!(info.app_version(), "1.0.0");
    assert!(info.try_start_manual());
    assert_eq!(run_manual_check(&mut info, Ok(Some(asset("2.0.0")))), CheckStep::Finished);
    assert!(matches!(info.status(), UpdateStatus::BrewUpdate { .. }));
    assert!(!info.is_manual_active());
    assert_eq!(run_manual_check(&mut info, Ok(None)), CheckStep::Finished);
    assert_eq!(info.status(), &UpdateStatus::Idle);
    assert_eq!(run_manual_check(&mut info, Err("x".to_string())), CheckStep::Finished);
    assert!(matches!(info.status(), UpdateStatus::Failed { .. }));
}
