// The auto-updater's decisions and status traces, the platform mapping,
// and the install planning.

use version_api::platform::{platform_string, HostOs};
use version_api::updater::{
    check_status_sequence, extract_entry_action, find_app_bundle, install_strategy, plan_check,
    plan_with_latest, reset_after_display, trigger_action, windows_backup_name, AutoUpdater,
    CheckDecision, EntryAction, FetchOutcome, InstallStrategy, RunOutcome, TriggerAction,
    UpdateStatus,
};
use version_api::version::{parse_semver, SemVer};

fn v(major: u64, minor: u64, patch: u64) -> SemVer {
    SemVer::new(major, minor, patch)
}

#[test]
fn test_semver_ordering() {
    assert!(v(1, 2, 0).lt(&v(1, 3, 0)));
    assert!(v(1, 2, 0).lt(&v(2, 0, 0)));
    assert!(v(1, 2, 0).lt(&v(1, 2, 1)));
    assert!(!v(1, 2, 0).lt(&v(1, 2, 0)));
    assert!(!v(1, 2, 0).lt(&v(1, 1, 9)));
    assert!(v(1, 2, 0).le(&v(1, 2, 0)));
    assert!(!v(1, 3, 0).le(&v(1, 2, 0)));
}

#[test]
fn test_parse_semver() {
    assert_eq!(parse_semver("1.2.3"), Some(v(1, 2, 3)));
    assert_eq!(parse_semver("0.1.0"), Some(v(0, 1, 0)));
    assert_eq!(parse_semver("2.0.0-alpha.1"), Some(v(2, 0, 0)));
    assert_eq!(parse_semver("not-a-version"), None);
    assert_eq!(parse_semver("1.2"), None);
}

// Current 1.2.0 against an equal or lower registry latest: the check ends
// UpToDate, with no download and no install status anywhere.
#[test]
fn test_check_up_to_date() {
    for latest in ["1.2.0", "1.1.9"] {
        let d = plan_check(&v(1, 2, 0), &FetchOutcome::Found(latest.to_string()));
        let parsed = parse_semver(latest).unwrap();
        assert_eq!(d, CheckDecision::Report(UpdateStatus::UpToDate { version: parsed }));
        let tr = check_status_sequence(&d, &RunOutcome::Installed);
        assert_eq!(tr.len(), 2);
        assert_eq!(tr[0], UpdateStatus::Checking);
        assert_eq!(tr[1], UpdateStatus::UpToDate { version: parsed });
        assert!(tr.iter().all(|s| !matches!(s, UpdateStatus::Downloading { .. })));
        assert!(tr.iter().all(|s| !matches!(s, UpdateStatus::Installing { .. })));
    }
}

// Current 1.2.0 against 1.3.0: exactly Checking, Downloading, Installing,
// Updated — one download, one install.
#[test]
fn test_check_upgrade_sequence() {
    let d = plan_check(&v(1, 2, 0), &FetchOutcome::Found("1.3.0".to_string()));
    assert_eq!(d, CheckDecision::Proceed(v(1, 3, 0)));
    let tr = check_status_sequence(&d, &RunOutcome::Installed);
    assert_eq!(
        tr,
        vec![
            UpdateStatus::Checking,
            UpdateStatus::Downloading { version: v(1, 3, 0) },
            UpdateStatus::Installing { version: v(1, 3, 0) },
            UpdateStatus::Updated { version: v(1, 3, 0) },
        ]
    );
    let downloads = tr
        .iter()
        .filter(|s| matches!(s, UpdateStatus::Downloading { .. }))
        .count();
    let installs = tr
        .iter()
        .filter(|s| matches!(s, UpdateStatus::Installing { .. }))
        .count();
    assert_eq!(downloads, 1);
    assert_eq!(installs, 1);
}

#[test]
fn test_check_failures() {
    let d = plan_check(&v(1, 2, 0), &FetchOutcome::Transport("connection refused".to_string()));
    assert_eq!(
        d,
        CheckDecision::Report(UpdateStatus::Error("connection refused".to_string()))
    );
    let d2 = plan_check(&v(1, 2, 0), &FetchOutcome::NoVersions);
    assert_eq!(
        d2,
        CheckDecision::Report(UpdateStatus::Error("No versions available".to_string()))
    );
    let d3 = plan_check(&v(1, 2, 0), &FetchOutcome::Found("garbage".to_string()));
    assert_eq!(
        d3,
        CheckDecision::Report(UpdateStatus::Error("Invalid version format".to_string()))
    );

    // A failed download stops before Installing; a failed install stops
    // before Updated.
    let go = plan_with_latest(&v(1, 2, 0), &v(1, 3, 0));
    let tr = check_status_sequence(&go, &RunOutcome::DownloadFailed("timeout".to_string()));
    assert_eq!(
        tr,
        vec![
            UpdateStatus::Checking,
            UpdateStatus::Downloading { version: v(1, 3, 0) },
            UpdateStatus::Error("timeout".to_string()),
        ]
    );
    let tr2 = check_status_sequence(&go, &RunOutcome::InstallFailed("copy failed".to_string()));
    assert_eq!(tr2.len(), 4);
    assert_eq!(tr2[3], UpdateStatus::Error("copy failed".to_string()));
}

// Error and UpToDate reset to Idle after display; Updated never resets.
#[test]
fn test_reset_after_display() {
    assert_eq!(
        reset_after_display(&UpdateStatus::Error("x".to_string())),
        Some(UpdateStatus::Idle)
    );
    assert_eq!(
        reset_after_display(&UpdateStatus::UpToDate { version: v(1, 0, 0) }),
        Some(UpdateStatus::Idle)
    );
    assert_eq!(reset_after_display(&UpdateStatus::Updated { version: v(1, 0, 0) }), None);
    assert_eq!(reset_after_display(&UpdateStatus::Checking), None);
    assert_eq!(reset_after_display(&UpdateStatus::Idle), None);
}

// A second trigger while a check is in flight is a no-op; after Updated
// the trigger restarts.
#[test]
fn test_trigger_serialization() {
    assert_eq!(trigger_action(&UpdateStatus::Idle), TriggerAction::StartCheck);
    assert_eq!(
        trigger_action(&UpdateStatus::Error("x".to_string())),
        TriggerAction::StartCheck
    );
    assert_eq!(trigger_action(&UpdateStatus::Checking), TriggerAction::Ignore);
    assert_eq!(
        trigger_action(&UpdateStatus::Downloading { version: v(1, 0, 0) }),
        TriggerAction::Ignore
    );
    assert_eq!(
        trigger_action(&UpdateStatus::Installing { version: v(1, 0, 0) }),
        TriggerAction::Ignore
    );
    assert_eq!(
        trigger_action(&UpdateStatus::Updated { version: v(1, 0, 0) }),
        TriggerAction::Restart
    );
}

#[test]
fn test_platform_mapping() {
    assert_eq!(platform_string(HostOs::Windows, false), "windows-x86_64-gnu");
    assert_eq!(platform_string(HostOs::Macos, true), "macos-arm");
    assert_eq!(platform_string(HostOs::Macos, false), "macos-intel");
    assert_eq!(platform_string(HostOs::Other, false), "linux-x86_64-gnu");
    let u = AutoUpdater::new(v(1, 2, 0), HostOs::Macos, true);
    assert_eq!(u.platform, "macos-arm");
    assert_eq!(u.current_version, v(1, 2, 0));
}

#[test]
fn test_install_planning() {
    assert_eq!(install_strategy(HostOs::Windows), InstallStrategy::WindowsBinarySwap);
    assert_eq!(install_strategy(HostOs::Macos), InstallStrategy::MacosBundleMirror);
    assert_eq!(install_strategy(HostOs::Other), InstallStrategy::Unsupported);
    assert_eq!(windows_backup_name("app.exe"), "app.exe.backup");
}

// Per archive entry: directories by trailing slash; files keep recorded
// permission bits; the main binary defaults to executable bits when the
// archive carries none.
#[test]
fn test_extract_entry_planning() {
    assert_eq!(extract_entry_action("bundle.app/", None, "demo"), EntryAction::MakeDir);
    assert_eq!(
        extract_entry_action("bundle.app/Contents/demo", Some(0o700), "demo"),
        EntryAction::WriteFile { mode: Some(0o700) }
    );
    assert_eq!(
        extract_entry_action("bundle.app/Contents/demo", None, "demo"),
        EntryAction::WriteFile { mode: Some(0o755) }
    );
    assert_eq!(
        extract_entry_action("bundle.app/Contents/readme.txt", None, "demo"),
        EntryAction::WriteFile { mode: None }
    );
}

// Walking up from the executable finds the enclosing bundle within three
// levels.
#[test]
fn test_find_app_bundle() {
    let path: Vec<String> = ["Applications", "demo.app", "Contents", "MacOS", "demo"]
        .iter()
        .map(|s| s.to_string())
        .collect();
    assert_eq!(find_app_bundle(&path), Some(2));

    let flat: Vec<String> = ["usr", "bin", "demo"].iter().map(|s| s.to_string()).collect();
    assert_eq!(find_app_bundle(&flat), None);

    let deep: Vec<String> = ["x", "demo.app", "a", "b", "c", "demo"]
        .iter()
        .map(|s| s.to_string())
        .collect();
    // The bundle is more than three levels up: not found.
    assert_eq!(find_app_bundle(&deep), None);

    // Nested bundles: the nearest enclosing one wins.
    let nested: Vec<String> = ["x", "outer.app", "inner.app", "MacOS", "demo"]
        .iter()
        .map(|s| s.to_string())
        .collect();
    assert_eq!(find_app_bundle(&nested), Some(3));
}
