use langateway::update::{
    check_release, is_newer, update_files, updater_args, updater_script, GitHubAsset,
    GitHubRelease, UpdateStatus,
};

#[test]
fn is_newer_detects_minor_bump() {
    assert!(is_newer("0.2.1", "v0.3.0"));
}

#[test]
fn is_newer_detects_patch_bump() {
    assert!(is_newer("0.2.1", "v0.2.2"));
}

#[test]
fn is_newer_equal_with_v_prefix() {
    assert!(!is_newer("0.2.1", "v0.2.1"));
}

#[test]
fn is_newer_equal_without_v_prefix() {
    assert!(!is_newer("0.2.1", "0.2.1"));
}

#[test]
fn is_newer_major_bump() {
    assert!(is_newer("0.2.1", "v1.0.0"));
}

#[test]
fn is_newer_remote_is_older() {
    assert!(!is_newer("0.3.0", "v0.2.1"));
}

#[test]
fn is_newer_handles_missing_components() {
    assert!(!is_newer("1.0", "v1.0.0"));
}

#[test]
fn update_status_is_busy_when_checking() {
    assert!(UpdateStatus::Checking.is_busy());
}

#[test]
fn update_status_is_not_busy_when_idle() {
    assert!(!UpdateStatus::Idle.is_busy());
}

#[test]
fn update_status_is_not_busy_when_uptodate() {
    assert!(!UpdateStatus::UpToDate.is_busy());
}

#[test]
fn update_status_busy_states() {
    assert!(UpdateStatus::Downloading.is_busy());
    assert!(UpdateStatus::PreparingUpdate.is_busy());
    assert!(UpdateStatus::Restarting.is_busy());
    assert!(!UpdateStatus::Failed("x".to_string()).is_busy());
    assert!(!UpdateStatus::Available {
        latest: "v1".to_string(),
        release_url: "u".to_string(),
        download_url: "d".to_string(),
    }
    .is_busy());
}

#[test]
fn is_newer_numeric_not_textual() {
    assert!(is_newer("0.9.0", "v0.10.0"));
    assert!(!is_newer("0.10.0", "v0.9.0"));
}

#[test]
fn is_newer_non_numbers_count_as_zero() {
    assert!(!is_newer("1.0.0", "v1.0.beta"));
    assert!(is_newer("1.0.beta", "1.0.1"));
    assert!(is_newer("0.1", "+1"));
    assert!(!is_newer("1.2", "vv1.2"));
}

#[test]
fn is_newer_laws_on_examples() {
    let vs = ["0.2.1", "v0.3.0", "1.0", "v1.0.0", "2", "0.10.3", "v0.2"];
    for a in vs.iter() {
        assert!(!is_newer(a, a));
        for b in vs.iter() {
            assert!(!(is_newer(a, b) && is_newer(b, a)));
            for c in vs.iter() {
                if is_newer(a, b) && is_newer(b, c) {
                    assert!(is_newer(a, c));
                }
            }
        }
    }
}

fn release(tag: &str, assets: Vec<(&str, &str)>) -> GitHubRelease {
    GitHubRelease {
        tag_name: tag.to_string(),
        html_url: "https://example.invalid/release".to_string(),
        assets: assets
            .into_iter()
            .map(|(n, u)| GitHubAsset { name: n.to_string(), browser_download_url: u.to_string() })
            .collect(),
    }
}

#[test]
fn check_release_newer_with_asset() {
    let r = release("v0.4.0", vec![("notes.txt", "n"), ("langateway.exe", "dl-exe")]);
    let got = check_release("0.3.0", &r).unwrap().unwrap();
    assert_eq!(got.0, "v0.4.0");
    assert_eq!(got.1, "https://example.invalid/release");
    assert_eq!(got.2, "dl-exe");
}

#[test]
fn check_release_not_newer() {
    let r = release("v0.3.0", vec![("langateway.exe", "dl-exe")]);
    assert!(check_release("0.3.0", &r).unwrap().is_none());
}

#[test]
fn check_release_missing_asset() {
    let r = release("v1.0.0", vec![("langateway.zip", "z")]);
    assert_eq!(
        check_release("0.3.0", &r).unwrap_err(),
        "No 'langateway.exe' asset found in release"
    );
}

#[test]
fn updater_script_names_the_process() {
    let s = updater_script();
    assert!(!s.contains("PROCESS_NAME"));
    assert!(s.contains("Get-Process -Name \"langateway\""));
    assert!(s.starts_with("param("));
}

#[test]
fn update_file_names() {
    let f = update_files("0.4.0");
    assert_eq!(f.old_exe, "langateway.exe");
    assert_eq!(f.new_exe, "langateway-v0.4.0.exe");
    assert_eq!(f.bak_exe, "langateway.exe.bak");
    assert_eq!(f.download_tmp, "langateway-v0.4.0.exe.download");
}

#[test]
fn updater_arguments() {
    assert_eq!(
        updater_args("C:\\a\\updater.ps1", "C:\\a\\old.exe", "C:\\a\\new.exe", "C:\\a\\old.exe.bak"),
        vec![
            "-NoProfile", "-ExecutionPolicy", "Bypass", "-File", "C:\\a\\updater.ps1", "-OldExe",
            "C:\\a\\old.exe", "-NewExe", "C:\\a\\new.exe", "-BakExe", "C:\\a\\old.exe.bak",
        ]
    );
}

#[test]
fn leading_v_and_trailing_zero_do_not_matter() {
    for (a, b) in [("0.2.1", "0.3.0"), ("0.3.0", "0.2.1"), ("1.0", "1.0"), ("0.2.1", "0.2.1")] {
        let base = is_newer(a, b);
        assert_eq!(is_newer(&format!("v{}", a), b), base);
        assert_eq!(is_newer(a, &format!("v{}", b)), base);
        assert_eq!(is_newer(&format!("{}.0", a), b), base);
        assert_eq!(is_newer(a, &format!("{}.0", b)), base);
    }
    assert!(!is_newer("0.3.0", "0.3"));
    assert!(!is_newer("v0.3", "0.3.0.0"));
}
