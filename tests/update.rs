use osu_helper_script::error::Error;
use osu_helper_script::plan::{initialize_binary, remove_binary, Execution, Step, StepOutcome};
use osu_helper_script::release::{GithubRelease, GithubReleaseAsset};
use osu_helper_script::update::{decide_update, update_head, update_plan, UpdateDecision};

const NOTHING: &str = "You don't have any known versions installed.\nUse the install command to install a version.";

fn latest() -> GithubRelease {
    GithubRelease {
        id: 2,
        tag_name: "2.0.0".to_string(),
        prerelease: false,
        assets: vec![GithubReleaseAsset {
            name: "osu.AppImage".to_string(),
            size: 10,
            browser_download_url: "u".to_string(),
        }],
    }
}

#[test]
fn same_version_is_up_to_date() {
    assert_eq!(decide_update("1.0.0", "1.0.0"), UpdateDecision::UpToDate { tag: "1.0.0".to_string() });
}

#[test]
fn newer_local_version_is_reported() {
    assert_eq!(
        decide_update("2.0.0", "1.0.0"),
        UpdateDecision::LocalNewer { local: "2.0.0".to_string(), remote: "1.0.0".to_string() }
    );
}

#[test]
fn older_local_version_is_updated() {
    assert_eq!(
        decide_update("2023.612.0", "2023.617.0"),
        UpdateDecision::Available { from: "2023.612.0".to_string(), to: "2023.617.0".to_string() }
    );
}

#[test]
fn nothing_installed_is_refused() {
    assert_eq!(update_head(&vec![]), Err(Error::Descriptive(NOTHING.to_string())));
    assert_eq!(update_head(&vec!["3.0".to_string(), "1.0".to_string()]), Ok("3.0".to_string()));
}

#[test]
fn update_installs_before_removing() {
    let steps = update_plan("/d", "/g", "/t", "1.0.0", &latest(), false, true).unwrap();
    let install = initialize_binary("/d", "/g", "/t", &latest(), false, true).unwrap();
    let removal = remove_binary("/d", "/g", "1.0.0");
    assert_eq!(steps.len(), install.len() + removal.len());
    assert_eq!(steps[..install.len()].to_vec(), install);
    assert_eq!(steps[install.len()..].to_vec(), removal);
    assert!(install.iter().all(|s| !matches!(s, Step::RemoveFile { .. })));
}

#[test]
fn failed_install_keeps_the_previous_version() {
    let steps = update_plan("/d", "/g", "/t", "1.0.0", &latest(), false, true).unwrap();
    let mut exec = Execution::new(steps);
    let mut removed = false;
    while let Some(step) = exec.current() {
        let outcome = match step {
            Step::Download { .. } => StepOutcome::Transferred(3),
            Step::RemoveFile { .. } => {
                removed = true;
                StepOutcome::Done
            }
            _ => StepOutcome::Done,
        };
        exec.record(outcome);
    }
    assert!(!removed);
    assert_eq!(exec.result(), Err(Error::SizeMismatch { expected: 10, actual: 3 }));
}
