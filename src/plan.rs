//! The work that installing or removing a version takes, as a list of steps.
//!
//! A plan is computed from what was observed before any work starts. The
//! caller performs the steps in order and reports how each went; the verdict
//! on each report decides whether the work goes on. Nothing is rolled back: a
//! plan that stopped half-way is completed by planning again, since every step
//! can be repeated safely.
use crate::desktop::{entry_name, entry_name_of};
use crate::error::Error;
use crate::layout::{
    applications_dir, applications_dir_of, desktop_entry_path_of, icon_path, icon_path_of,
    install_path_of, temp_path, temp_path_of, InstallData,
};
use crate::release::{first_bundle_asset, GithubRelease};
use vstd::prelude::*;

verus! {

/// One piece of outside work.
#[derive(Debug, Clone, PartialEq, Eq)]
pub enum Step {
    /// Create a directory and its parents, where missing.
    CreateDir { dir: String },
    /// Stream the asset at `url` into the file `dest` and report the number of
    /// bytes written; the catalog declares `size` bytes.
    Download { url: String, size: u64, dest: String },
    /// Rename `from` to `to` in one move.
    MoveIntoPlace { from: String, to: String },
    /// Make the file executable (permission bits `0o755`).
    SetExecutable { path: String },
    /// Fetch the icon from the catalog and write it to `dest`.
    FetchIcon { dest: String },
    /// Write the desktop entry at `path`, for `program` with the icon `icon`,
    /// after resolving both to absolute paths.
    WriteDesktopEntry { path: String, name: String, icon: String, program: String },
    /// Remove the temporary directory, best-effort.
    ClearTempDir { dir: String },
    /// Remove a file.
    RemoveFile { path: String },
    /// Remove a directory and everything in it.
    RemoveDir { dir: String },
    /// Ask the launcher to re-read the desktop entries in `dir`.
    RefreshDesktopDatabase { dir: String },
}

/// A step, with texts in place of strings.
pub enum StepView {
    CreateDir { dir: Seq<char> },
    Download { url: Seq<char>, size: u64, dest: Seq<char> },
    MoveIntoPlace { from: Seq<char>, to: Seq<char> },
    SetExecutable { path: Seq<char> },
    FetchIcon { dest: Seq<char> },
    WriteDesktopEntry { path: Seq<char>, name: Seq<char>, icon: Seq<char>, program: Seq<char> },
    ClearTempDir { dir: Seq<char> },
    RemoveFile { path: Seq<char> },
    RemoveDir { dir: Seq<char> },
    RefreshDesktopDatabase { dir: Seq<char> },
}

impl View for Step {
    type V = StepView;

    open spec fn view(&self) -> StepView {
        match self {
            Step::CreateDir { dir } => StepView::CreateDir { dir: dir@ },
            Step::Download { url, size, dest } => StepView::Download {
                url: url@,
                size: *size,
                dest: dest@,
            },
            Step::MoveIntoPlace { from, to } => StepView::MoveIntoPlace { from: from@, to: to@ },
            Step::SetExecutable { path } => StepView::SetExecutable { path: path@ },
            Step::FetchIcon { dest } => StepView::FetchIcon { dest: dest@ },
            Step::WriteDesktopEntry { path, name, icon, program } => StepView::WriteDesktopEntry {
                path: path@,
                name: name@,
                icon: icon@,
                program: program@,
            },
            Step::ClearTempDir { dir } => StepView::ClearTempDir { dir: dir@ },
            Step::RemoveFile { path } => StepView::RemoveFile { path: path@ },
            Step::RemoveDir { dir } => StepView::RemoveDir { dir: dir@ },
            Step::RefreshDesktopDatabase { dir } => StepView::RefreshDesktopDatabase { dir: dir@ },
        }
    }
}

/// The views of a list of steps.
pub open spec fn step_views(steps: Seq<Step>) -> Seq<StepView> {
    steps.map_values(|s: Step| s@)
}

/// How a step went.
#[derive(Debug, Clone, PartialEq, Eq)]
pub enum StepOutcome {
    /// The step completed. For a download this means nothing was written.
    Done,
    /// The download completed after writing this many bytes.
    Transferred(u64),
    /// The step failed; `not_found` when what it acted on did not exist.
    Failed { message: String, not_found: bool },
}

/// Whether the work goes on after `step` went as `outcome` (`Ok`), or stops
/// with an error.
///
/// A download must have written exactly the declared size. A file to remove
/// that is already gone counts as removed. Clearing the temporary directory is
/// best-effort, and a failed refresh of the launcher is reported by the caller
/// without stopping the work. Other failures stop it: a transfer from the
/// catalog as a network error, the rest as an I/O error naming the path.
pub open spec fn step_verdict(step: Step, outcome: StepOutcome) -> Result<(), Error> {
    match outcome {
        StepOutcome::Done => match step {
            Step::Download { size, .. } => if size == 0 {
                Ok(())
            } else {
                Err(Error::SizeMismatch { expected: size, actual: 0 })
            },
            _ => Ok(()),
        },
        StepOutcome::Transferred(n) => match step {
            Step::Download { size, .. } => if n == size {
                Ok(())
            } else {
                Err(Error::SizeMismatch { expected: size, actual: n })
            },
            _ => Ok(()),
        },
        StepOutcome::Failed { message, not_found } => match step {
            Step::CreateDir { dir } => Err(Error::Io { source: message, context: Some(dir) }),
            Step::Download { .. } => Err(Error::Network(message)),
            Step::MoveIntoPlace { to, .. } => Err(Error::Io { source: message, context: Some(to) }),
            Step::SetExecutable { path } => Err(Error::Io { source: message, context: Some(path) }),
            Step::FetchIcon { .. } => Err(Error::Network(message)),
            Step::WriteDesktopEntry { path, .. } => Err(
                Error::Io { source: message, context: Some(path) },
            ),
            Step::ClearTempDir { .. } => Ok(()),
            Step::RemoveFile { path } => if not_found {
                Ok(())
            } else {
                Err(Error::Io { source: message, context: Some(path) })
            },
            Step::RemoveDir { dir } => Err(Error::Io { source: message, context: Some(dir) }),
            Step::RefreshDesktopDatabase { .. } => Ok(()),
        },
    }
}

/// The verdict on `step` having gone as `outcome`.
pub fn judge(step: &Step, outcome: StepOutcome) -> (r: Result<(), Error>)
    ensures
        r == step_verdict(*step, outcome),
{
    match outcome {
        StepOutcome::Done => match step {
            Step::Download { size, .. } => if *size == 0 {
                Ok(())
            } else {
                Err(Error::SizeMismatch { expected: *size, actual: 0 })
            },
            _ => Ok(()),
        },
        StepOutcome::Transferred(n) => match step {
            Step::Download { size, .. } => if n == *size {
                Ok(())
            } else {
                Err(Error::SizeMismatch { expected: *size, actual: n })
            },
            _ => Ok(()),
        },
        StepOutcome::Failed { message, not_found } => match step {
            Step::CreateDir { dir } => Err(Error::Io { source: message, context: Some(dir.clone()) }),
            Step::Download { .. } => Err(Error::Network(message)),
            Step::MoveIntoPlace { to, .. } => Err(
                Error::Io { source: message, context: Some(to.clone()) },
            ),
            Step::SetExecutable { path } => Err(
                Error::Io { source: message, context: Some(path.clone()) },
            ),
            Step::FetchIcon { .. } => Err(Error::Network(message)),
            Step::WriteDesktopEntry { path, .. } => Err(
                Error::Io { source: message, context: Some(path.clone()) },
            ),
            Step::ClearTempDir { .. } => Ok(()),
            Step::RemoveFile { path } => if not_found {
                Ok(())
            } else {
                Err(Error::Io { source: message, context: Some(path.clone()) })
            },
            Step::RemoveDir { dir } => Err(Error::Io { source: message, context: Some(dir.clone()) }),
            Step::RefreshDesktopDatabase { .. } => Ok(()),
        },
    }
}

/// The steps that install version `tag`.
///
/// `fetch` is `None` when the bundle is already at its install path: then
/// nothing is downloaded or moved. Otherwise it holds the asset's address and
/// declared size; the bundle is downloaded into the temporary directory and
/// moved into place only once complete. The icon is fetched only when
/// `icon_present` is false. The desktop entry is always written again.
pub open spec fn install_steps(
    local_data_dir: Seq<char>,
    install_dir: Seq<char>,
    temp_dir: Seq<char>,
    tag: Seq<char>,
    fetch: Option<(Seq<char>, u64)>,
    icon_present: bool,
) -> Seq<StepView> {
    let bundle = install_path_of(install_dir, tag);
    let download = match fetch {
        None => Seq::empty(),
        Some((url, size)) => seq![
            StepView::CreateDir { dir: temp_dir },
            StepView::Download { url, size, dest: temp_path_of(temp_dir, tag) },
            StepView::CreateDir { dir: install_dir },
            StepView::MoveIntoPlace { from: temp_path_of(temp_dir, tag), to: bundle },
        ],
    };
    let icon = if icon_present {
        Seq::empty()
    } else {
        seq![StepView::FetchIcon { dest: icon_path_of(install_dir) }]
    };
    download + seq![StepView::SetExecutable { path: bundle }] + icon + seq![
        StepView::CreateDir { dir: applications_dir_of(local_data_dir) },
        StepView::WriteDesktopEntry {
            path: desktop_entry_path_of(local_data_dir, tag),
            name: entry_name_of(tag),
            icon: icon_path_of(install_dir),
            program: bundle,
        },
        StepView::ClearTempDir { dir: temp_dir },
        StepView::RefreshDesktopDatabase { dir: applications_dir_of(local_data_dir) },
    ]
}

/// The steps that remove version `tag`.
pub open spec fn removal_steps(local_data_dir: Seq<char>, install_dir: Seq<char>, tag: Seq<char>) -> Seq<
    StepView,
> {
    seq![
        StepView::RemoveFile { path: install_path_of(install_dir, tag) },
        StepView::RemoveFile { path: desktop_entry_path_of(local_data_dir, tag) },
        StepView::RefreshDesktopDatabase { dir: applications_dir_of(local_data_dir) },
    ]
}

/// The text of the error for a release without a bundle.
pub open spec fn missing_bundle_text() -> Seq<char> {
    "AppImage asset is missing from the release assets of this tag"@
}

/// The steps that install `release`, or `None` when it must be downloaded but
/// has no bundle asset.
pub open spec fn planned_install(
    local_data_dir: Seq<char>,
    install_dir: Seq<char>,
    temp_dir: Seq<char>,
    release: GithubRelease,
    installed: bool,
    icon_present: bool,
) -> Option<Seq<StepView>> {
    if installed {
        Some(install_steps(local_data_dir, install_dir, temp_dir, release.tag_name@, None, icon_present))
    } else {
        match first_bundle_asset(release.assets@) {
            None => None,
            Some(a) => Some(
                install_steps(
                    local_data_dir,
                    install_dir,
                    temp_dir,
                    release.tag_name@,
                    Some((a.browser_download_url@, a.size)),
                    icon_present,
                ),
            ),
        }
    }
}

/// The plan that installs `release`.
///
/// `installed` tells whether its bundle is already at the install path and
/// `icon_present` whether the shared icon is there. A release that must be
/// downloaded but has no bundle asset cannot be installed.
pub fn initialize_binary(
    local_data_dir: &str,
    install_dir: &str,
    temp_dir: &str,
    release: &GithubRelease,
    installed: bool,
    icon_present: bool,
) -> (r: Result<Vec<Step>, Error>)
    ensures
        planned_install(local_data_dir@, install_dir@, temp_dir@, *release, installed, icon_present)
            matches Some(p) ==> (r matches Ok(steps) && step_views(steps@) == p),
        planned_install(local_data_dir@, install_dir@, temp_dir@, *release, installed, icon_present)
            is None ==> (r matches Err(Error::Descriptive(m)) && m@ == missing_bundle_text()),
{
    let tag = release.tag_name.as_str();
    let data = InstallData::new(local_data_dir, install_dir, tag);
    let mut steps: Vec<Step> = Vec::new();
    if !installed {
        match release.get_app_image_asset() {
            None => {
                return Err(
                    Error::Descriptive(
                        String::from_str(
                            "AppImage asset is missing from the release assets of this tag",
                        ),
                    ),
                );
            },
            Some(asset) => {
                let temp_file = temp_path(temp_dir, tag);
                steps.push(Step::CreateDir { dir: String::from_str(temp_dir) });
                steps.push(
                    Step::Download {
                        url: asset.browser_download_url.clone(),
                        size: asset.size,
                        dest: temp_file.clone(),
                    },
                );
                steps.push(Step::CreateDir { dir: String::from_str(install_dir) });
                steps.push(Step::MoveIntoPlace { from: temp_file, to: data.install_path.clone() });
            },
        }
    }
    steps.push(Step::SetExecutable { path: data.install_path.clone() });
    let icon = icon_path(install_dir);
    if !icon_present {
        steps.push(Step::FetchIcon { dest: icon.clone() });
    }
    let apps = applications_dir(local_data_dir);
    steps.push(Step::CreateDir { dir: apps.clone() });
    steps.push(
        Step::WriteDesktopEntry {
            path: data.desktop_entry_path,
            name: entry_name(tag),
            icon,
            program: data.install_path,
        },
    );
    steps.push(Step::ClearTempDir { dir: String::from_str(temp_dir) });
    steps.push(Step::RefreshDesktopDatabase { dir: apps });
    let ghost fetch = if installed {
        None
    } else {
        let a = first_bundle_asset(release.assets@)->Some_0;
        Some((a.browser_download_url@, a.size))
    };
    assert(step_views(steps@) =~= install_steps(
        local_data_dir@,
        install_dir@,
        temp_dir@,
        release.tag_name@,
        fetch,
        icon_present,
    ));
    Ok(steps)
}

/// The plan that removes version `tag_name`: its bundle and its desktop
/// entry, each of which may already be gone, then a refresh of the launcher.
pub fn remove_binary(local_data_dir: &str, install_dir: &str, tag_name: &str) -> (r: Vec<Step>)
    ensures
        step_views(r@) == removal_steps(local_data_dir@, install_dir@, tag_name@),
{
    let data = InstallData::new(local_data_dir, install_dir, tag_name);
    let mut steps: Vec<Step> = Vec::new();
    steps.push(Step::RemoveFile { path: data.install_path });
    steps.push(Step::RemoveFile { path: data.desktop_entry_path });
    steps.push(Step::RefreshDesktopDatabase { dir: applications_dir(local_data_dir) });
    assert(step_views(steps@) =~= removal_steps(local_data_dir@, install_dir@, tag_name@));
    steps
}

/// What performing `steps` gives when they go as `outcomes`, one for one:
/// the first error of a verdict, or `Ok` when every verdict is `Ok`.
pub open spec fn run_result(steps: Seq<Step>, outcomes: Seq<StepOutcome>) -> Result<(), Error>
    decreases steps.len(),
{
    if steps.len() == 0 || outcomes.len() == 0 {
        Ok(())
    } else {
        match step_verdict(steps[0], outcomes[0]) {
            Err(e) => Err(e),
            Ok(_) => run_result(steps.drop_first(), outcomes.drop_first()),
        }
    }
}

/// How many of `steps` are performed when they go as `outcomes`: all of them
/// up to and including the first whose verdict is an error.
pub open spec fn steps_performed(steps: Seq<Step>, outcomes: Seq<StepOutcome>) -> nat
    decreases steps.len(),
{
    if steps.len() == 0 || outcomes.len() == 0 {
        0
    } else {
        match step_verdict(steps[0], outcomes[0]) {
            Err(_) => 1,
            Ok(_) => 1 + steps_performed(steps.drop_first(), outcomes.drop_first()),
        }
    }
}

/// Performing a plan, one step at a time.
///
/// The caller asks for the current step, performs it and records how it went,
/// until no step is left; the first step whose verdict is an error ends the
/// work.
pub struct Execution {
    steps: Vec<Step>,
    next: usize,
    failure: Option<Error>,
    outcomes: Ghost<Seq<StepOutcome>>,
}

impl Execution {
    /// The plan being performed.
    pub closed spec fn steps(&self) -> Seq<Step> {
        self.steps@
    }

    /// How the steps performed so far went.
    pub closed spec fn outcomes(&self) -> Seq<StepOutcome> {
        self.outcomes@
    }

    pub closed spec fn wf(&self) -> bool {
        &&& self.next <= self.steps.len()
        &&& self.outcomes@.len() == self.next + if self.failure is Some { 1int } else { 0 }
        &&& self.outcomes@.len() <= self.steps.len()
        &&& forall|k: int|
            0 <= k < self.next ==> step_verdict(self.steps@[k], #[trigger] self.outcomes@[k]) is Ok
        &&& self.failure matches Some(e) ==> step_verdict(
            self.steps@[self.next as int],
            self.outcomes@[self.next as int],
        ) == Err::<(), Error>(e)
    }

    /// No step is left: all were performed, or one failed.
    pub open spec fn finished(&self) -> bool {
        ||| self.outcomes().len() == self.steps().len()
        ||| run_result(self.steps(), self.outcomes()) is Err
    }

    /// Starts performing `steps`.
    pub fn new(steps: Vec<Step>) -> (r: Self)
        ensures
            r.wf(),
            r.steps() == steps@,
            r.outcomes() == Seq::<StepOutcome>::empty(),
    {
        Execution { steps, next: 0, failure: None, outcomes: Ghost(Seq::empty()) }
    }

    proof fn lemma_progress(&self)
        requires
            self.wf(),
        ensures
            self.failure is None ==> run_result(self.steps(), self.outcomes()) == Ok::<(), Error>(()),
            self.failure is None ==> steps_performed(self.steps(), self.outcomes())
                == self.outcomes().len(),
            self.failure matches Some(e) ==> run_result(self.steps(), self.outcomes()) == Err::<
                (),
                Error,
            >(e),
            self.failure is Some ==> steps_performed(self.steps(), self.outcomes())
                == self.outcomes().len(),
    {
        lemma_run_prefix(self.steps@, self.outcomes@, self.next as int);
    }

    /// The step to perform now, or `None` when the work is over.
    pub fn current(&self) -> (r: Option<&Step>)
        requires
            self.wf(),
        ensures
            r is None <==> self.finished(),
            r matches Some(s) ==> *s == self.steps()[self.outcomes().len() as int],
    {
        proof {
            self.lemma_progress();
        }
        if self.failure.is_some() || self.next == self.steps.len() {
            None
        } else {
            Some(&self.steps[self.next])
        }
    }

    /// Records how the current step went.
    pub fn record(&mut self, outcome: StepOutcome)
        requires
            old(self).wf(),
            !old(self).finished(),
        ensures
            final(self).wf(),
            final(self).steps() == old(self).steps(),
            final(self).outcomes() == old(self).outcomes().push(outcome),
    {
        proof {
            self.lemma_progress();
        }
        let verdict = judge(&self.steps[self.next], outcome);
        proof {
            self.outcomes@ = self.outcomes@.push(outcome);
        }
        match verdict {
            Ok(()) => {
                self.next = self.next + 1;
            },
            Err(e) => {
                self.failure = Some(e);
            },
        }
    }

    /// How the work ended.
    pub fn result(self) -> (r: Result<(), Error>)
        requires
            self.wf(),
            self.finished(),
        ensures
            r == run_result(self.steps(), self.outcomes()),
            steps_performed(self.steps(), self.outcomes()) == self.outcomes().len(),
    {
        proof {
            self.lemma_progress();
        }
        match self.failure {
            Some(e) => Err(e),
            None => Ok(()),
        }
    }
}

/// Over a prefix of `n` steps whose verdicts are all `Ok`, followed by at most
/// one more outcome, the run is decided by that last outcome.
proof fn lemma_run_prefix(steps: Seq<Step>, outcomes: Seq<StepOutcome>, n: int)
    requires
        0 <= n <= steps.len(),
        n <= outcomes.len() <= n + 1,
        outcomes.len() <= steps.len(),
        forall|k: int| 0 <= k < n ==> step_verdict(steps[k], #[trigger] outcomes[k]) is Ok,
    ensures
        outcomes.len() == n ==> run_result(steps, outcomes) == Ok::<(), Error>(()),
        outcomes.len() == n + 1 ==> run_result(steps, outcomes) == (match step_verdict(
            steps[n],
            outcomes[n],
        ) {
            Ok(_) => Ok(()),
            Err(e) => Err(e),
        }),
        steps_performed(steps, outcomes) == outcomes.len(),
    decreases n,
{
    if n > 0 {
        assert forall|k: int| 0 <= k < n - 1 implies step_verdict(
            steps.drop_first()[k],
            #[trigger] outcomes.drop_first()[k],
        ) is Ok by {
            assert(step_verdict(steps[k + 1], outcomes[k + 1]) is Ok);
        }
        lemma_run_prefix(steps.drop_first(), outcomes.drop_first(), n - 1);
        assert(step_verdict(steps[0], outcomes[0]) is Ok);
        if outcomes.len() == n + 1 {
            assert(steps.drop_first()[n - 1] == steps[n]);
            assert(outcomes.drop_first()[n - 1] == outcomes[n]);
        }
    } else if outcomes.len() == 1 {
        assert(outcomes.drop_first().len() == 0);
        assert(run_result(steps.drop_first(), outcomes.drop_first()) == Ok::<(), Error>(()));
        assert(steps_performed(steps.drop_first(), outcomes.drop_first()) == 0);
    }
}

/// Installing a version whose bundle is already at its install path transfers
/// no bytes and leaves the bundle's contents alone: the plan downloads nothing
/// and moves nothing into place.
pub proof fn lemma_reinstall_transfers_nothing(
    local_data_dir: Seq<char>,
    install_dir: Seq<char>,
    temp_dir: Seq<char>,
    tag: Seq<char>,
    icon_present: bool,
)
    ensures
        forall|k: int|
            0 <= k < install_steps(local_data_dir, install_dir, temp_dir, tag, None, icon_present).len()
                ==> {
                let s = #[trigger] install_steps(
                    local_data_dir,
                    install_dir,
                    temp_dir,
                    tag,
                    None,
                    icon_present,
                )[k];
                !(s is Download) && !(s is MoveIntoPlace)
            },
{
}

/// A download that wrote a byte count other than the declared size stops the
/// install with `SizeMismatch` before anything reaches the install path: only
/// the temporary directory and the download itself were performed.
pub proof fn lemma_size_mismatch_stops_install(
    steps: Seq<Step>,
    outcomes: Seq<StepOutcome>,
    local_data_dir: Seq<char>,
    install_dir: Seq<char>,
    temp_dir: Seq<char>,
    tag: Seq<char>,
    url: Seq<char>,
    size: u64,
    icon_present: bool,
    written: u64,
)
    requires
        step_views(steps) == install_steps(
            local_data_dir,
            install_dir,
            temp_dir,
            tag,
            Some((url, size)),
            icon_present,
        ),
        outcomes.len() == steps.len(),
        step_verdict(steps[0], outcomes[0]) is Ok,
        outcomes[1] == StepOutcome::Transferred(written),
        written != size,
    ensures
        run_result(steps, outcomes) == Err::<(), Error>(
            Error::SizeMismatch { expected: size, actual: written },
        ),
        steps_performed(steps, outcomes) == 2,
        forall|k: int|
            0 <= k < 2 ==> !(#[trigger] steps[k]@ is MoveIntoPlace) && !(steps[k]@ is SetExecutable),
{
    let views = step_views(steps);
    assert(views.len() == steps.len());
    assert(views.len() >= 9);
    assert(views[0] == steps[0]@);
    assert(views[1] == steps[1]@);
    assert(steps.drop_first()[0] == steps[1]);
    assert(outcomes.drop_first()[0] == outcomes[1]);
    let e = Error::SizeMismatch { expected: size, actual: written };
    assert(step_verdict(steps[1], outcomes[1]) == Err::<(), Error>(e));
    assert(run_result(steps.drop_first(), outcomes.drop_first()) == Err::<(), Error>(e));
    assert(steps_performed(steps.drop_first(), outcomes.drop_first()) == 1);
}

/// Removing a version whose bundle and desktop entry are both already gone
/// succeeds, and the launcher is still refreshed.
pub proof fn lemma_remove_missing_succeeds(
    steps: Seq<Step>,
    outcomes: Seq<StepOutcome>,
    local_data_dir: Seq<char>,
    install_dir: Seq<char>,
    tag: Seq<char>,
)
    requires
        step_views(steps) == removal_steps(local_data_dir, install_dir, tag),
        outcomes.len() == 3,
        outcomes[0] matches StepOutcome::Failed { not_found: true, .. },
        outcomes[1] matches StepOutcome::Failed { not_found: true, .. },
    ensures
        run_result(steps, outcomes) == Ok::<(), Error>(()),
        steps_performed(steps, outcomes) == 3,
{
    let views = step_views(steps);
    assert(views.len() == steps.len());
    assert(views.len() == 3);
    assert forall|k: int| 0 <= k < 3 implies step_verdict(steps[k], #[trigger] outcomes[k]) is Ok by {
        assert(views[k] == steps[k]@);
    }
    lemma_run_prefix(steps, outcomes, 3);
}

/// Every step before one that was performed passed its verdict.
proof fn lemma_performed_steps_passed(steps: Seq<Step>, outcomes: Seq<StepOutcome>, k: int)
    requires
        0 <= k,
        steps_performed(steps, outcomes) > k + 1,
    ensures
        k < steps.len(),
        k < outcomes.len(),
        step_verdict(steps[k], outcomes[k]) is Ok,
    decreases k,
{
    if k > 0 {
        lemma_performed_steps_passed(steps.drop_first(), outcomes.drop_first(), k - 1);
        assert(steps.drop_first()[k - 1] == steps[k]);
        assert(outcomes.drop_first()[k - 1] == outcomes[k]);
    }
}

/// Nothing incomplete ever reaches the install path: the bundle is moved
/// there only after the download wrote exactly the declared size.
pub proof fn lemma_bundle_moved_only_when_complete(
    steps: Seq<Step>,
    outcomes: Seq<StepOutcome>,
    local_data_dir: Seq<char>,
    install_dir: Seq<char>,
    temp_dir: Seq<char>,
    tag: Seq<char>,
    url: Seq<char>,
    size: u64,
    icon_present: bool,
)
    requires
        step_views(steps) == install_steps(
            local_data_dir,
            install_dir,
            temp_dir,
            tag,
            Some((url, size)),
            icon_present,
        ),
        outcomes.len() == steps.len(),
        steps_performed(steps, outcomes) > 3,
    ensures
        steps[3]@ == (StepView::MoveIntoPlace {
            from: temp_path_of(temp_dir, tag),
            to: install_path_of(install_dir, tag),
        }),
        outcomes[1] == StepOutcome::Transferred(size) || (outcomes[1] == StepOutcome::Done && size
            == 0),
{
    let views = step_views(steps);
    assert(views.len() == steps.len());
    assert(views.len() >= 9);
    assert(views[1] == steps[1]@);
    assert(views[3] == steps[3]@);
    lemma_performed_steps_passed(steps, outcomes, 1);
}

} // verus!
