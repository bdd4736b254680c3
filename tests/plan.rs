use osu_helper_script::error::Error;
use osu_helper_script::plan::{initialize_binary, judge, remove_binary, Execution, Step, StepOutcome};
use osu_helper_script::release::{GithubRelease, GithubReleaseAsset};

fn release(tag: &str, assets: Vec<GithubReleaseAsset>) -> GithubRelease {
    GithubRelease { id: 1, tag_name: tag.to_string(), prerelease: false, assets }
}

fn asset(name: &str, size: u64) -> GithubReleaseAsset {
    GithubReleaseAsset {
        name: name.to_string(),
        size,
        browser_download_url: format!("https://example.invalid/{}", name),
    }
}

fn s(v: &str) -> String {
    v.to_string()
}

fn missing() -> StepOutcome {
    StepOutcome::Failed { message: s("No such file or directory"), not_found: true }
}

fn run(steps: Vec<Step>, report: impl Fn(&Step) -> StepOutcome) -> (Vec<Step>, Result<(), Error>) {
    let mut exec = Execution::new(steps);
    let mut performed = Vec::new();
    while let Some(step) = exec.current() {
        let step = step.clone();
        let outcome = report(&step);
        performed.push(step);
        exec.record(outcome);
    }
    (performed, exec.result())
}

fn fresh_release() -> GithubRelease {
    release("2023.617.0", vec![asset("osu.zip", 3), asset("osu.AppImage", 1000), asset("b.AppImage", 7)])
}

#[test]
fn fresh_install_downloads_then_moves() {
    let steps = initialize_binary("/data", "/games", "/tmp/osu", &fresh_release(), false, false).unwrap();
    assert_eq!(
        steps,
        vec![
            Step::CreateDir { dir: s("/tmp/osu") },
            Step::Download {
                url: s("https://example.invalid/osu.AppImage"),
                size: 1000,
                dest: s("/tmp/osu/2023.617.0.AppImage"),
            },
            Step::CreateDir { dir: s("/games") },
            Step::MoveIntoPlace { from: s("/tmp/osu/2023.617.0.AppImage"), to: s("/games/2023.617.0.AppImage") },
            Step::SetExecutable { path: s("/games/2023.617.0.AppImage") },
            Step::FetchIcon { dest: s("/games/osu.png") },
            Step::CreateDir { dir: s("/data/applications") },
            Step::WriteDesktopEntry {
                path: s("/data/applications/osu!-2023.617.0.desktop"),
                name: s("osu! 2023.617.0"),
                icon: s("/games/osu.png"),
                program: s("/games/2023.617.0.AppImage"),
            },
            Step::ClearTempDir { dir: s("/tmp/osu") },
            Step::RefreshDesktopDatabase { dir: s("/data/applications") },
        ]
    );
}

#[test]
fn second_install_transfers_nothing() {
    let steps = initialize_binary("/data", "/games", "/tmp/osu", &fresh_release(), true, true).unwrap();
    assert!(steps.iter().all(|s| !matches!(s, Step::Download { .. } | Step::MoveIntoPlace { .. })));
    assert_eq!(
        steps,
        vec![
            Step::SetExecutable { path: s("/games/2023.617.0.AppImage") },
            Step::CreateDir { dir: s("/data/applications") },
            Step::WriteDesktopEntry {
                path: s("/data/applications/osu!-2023.617.0.desktop"),
                name: s("osu! 2023.617.0"),
                icon: s("/games/osu.png"),
                program: s("/games/2023.617.0.AppImage"),
            },
            Step::ClearTempDir { dir: s("/tmp/osu") },
            Step::RefreshDesktopDatabase { dir: s("/data/applications") },
        ]
    );
}

#[test]
fn installed_release_needs_no_bundle_asset() {
    let r = release("1.0.0", vec![]);
    assert!(initialize_binary("/data", "/games", "/tmp/osu", &r, true, true).is_ok());
}

#[test]
fn release_without_bundle_cannot_be_installed() {
    let r = release("1.0.0", vec![asset("osu.zip", 3)]);
    assert_eq!(
        initialize_binary("/data", "/games", "/tmp/osu", &r, false, true),
        Err(Error::Descriptive(s("AppImage asset is missing from the release assets of this tag")))
    );
}

#[test]
fn size_mismatch_stops_before_the_install_path() {
    let steps = initialize_binary("/data", "/games", "/tmp/osu", &fresh_release(), false, true).unwrap();
    let (performed, result) = run(steps, |step| match step {
        Step::Download { .. } => StepOutcome::Transferred(999),
        _ => StepOutcome::Done,
    });
    assert_eq!(result, Err(Error::SizeMismatch { expected: 1000, actual: 999 }));
    assert_eq!(performed.len(), 2);
    assert!(performed.iter().all(|s| !matches!(s, Step::MoveIntoPlace { .. } | Step::SetExecutable { .. })));
}

#[test]
fn complete_install_runs_every_step() {
    let steps = initialize_binary("/data", "/games", "/tmp/osu", &fresh_release(), false, false).unwrap();
    let n = steps.len();
    let (performed, result) = run(steps, |step| match step {
        Step::Download { size, .. } => StepOutcome::Transferred(*size),
        Step::ClearTempDir { .. } => missing(),
        _ => StepOutcome::Done,
    });
    assert_eq!(result, Ok(()));
    assert_eq!(performed.len(), n);
}

#[test]
fn removing_missing_files_succeeds() {
    let steps = remove_binary("/data", "/games", "1.0.0");
    assert_eq!(
        steps,
        vec![
            Step::RemoveFile { path: s("/games/1.0.0.AppImage") },
            Step::RemoveFile { path: s("/data/applications/osu!-1.0.0.desktop") },
            Step::RefreshDesktopDatabase { dir: s("/data/applications") },
        ]
    );
    let (performed, result) = run(steps, |step| match step {
        Step::RemoveFile { .. } => missing(),
        _ => StepOutcome::Done,
    });
    assert_eq!(result, Ok(()));
    assert_eq!(performed.len(), 3);
}

#[test]
fn removal_failure_other_than_missing_stops() {
    let steps = remove_binary("/data", "/games", "1.0.0");
    let (performed, result) = run(steps, |_| StepOutcome::Failed { message: s("denied"), not_found: false });
    assert_eq!(performed.len(), 1);
    assert_eq!(
        result,
        Err(Error::Io { source: s("denied"), context: Some(s("/games/1.0.0.AppImage")) })
    );
}

#[test]
fn verdicts_of_each_kind() {
    let failed = || StepOutcome::Failed { message: s("boom"), not_found: false };
    let dl = Step::Download { url: s("u"), size: 5, dest: s("/t/x") };
    assert_eq!(judge(&dl, StepOutcome::Transferred(5)), Ok(()));
    assert_eq!(judge(&dl, StepOutcome::Transferred(6)), Err(Error::SizeMismatch { expected: 5, actual: 6 }));
    assert_eq!(judge(&dl, StepOutcome::Done), Err(Error::SizeMismatch { expected: 5, actual: 0 }));
    assert_eq!(judge(&dl, failed()), Err(Error::Network(s("boom"))));
    assert_eq!(judge(&Step::FetchIcon { dest: s("/g/osu.png") }, failed()), Err(Error::Network(s("boom"))));
    assert_eq!(
        judge(&Step::CreateDir { dir: s("/g") }, failed()),
        Err(Error::Io { source: s("boom"), context: Some(s("/g")) })
    );
    assert_eq!(
        judge(&Step::MoveIntoPlace { from: s("/t/x"), to: s("/g/x") }, failed()),
        Err(Error::Io { source: s("boom"), context: Some(s("/g/x")) })
    );
    assert_eq!(judge(&Step::ClearTempDir { dir: s("/t") }, failed()), Ok(()));
    assert_eq!(judge(&Step::RefreshDesktopDatabase { dir: s("/a") }, failed()), Ok(()));
    assert_eq!(judge(&Step::RemoveFile { path: s("/g/x") }, missing()), Ok(()));
    assert_eq!(
        judge(&Step::RemoveDir { dir: s("/g") }, missing()),
        Err(Error::Io { source: s("No such file or directory"), context: Some(s("/g")) })
    );
}
