//! Updating the newest installed version to the catalog's latest release.
//!
//! With nothing installed the update is refused before the catalog is asked.
//! Otherwise the newest installed tag is compared with the latest release's:
//! an older one is replaced, by installing the new version first and removing
//! the old one after, so that a failed install never leaves no version at all.
use crate::error::{nothing_installed, nothing_installed_text, Error};
use crate::plan::{
    initialize_binary, missing_bundle_text, planned_install, remove_binary, removal_steps,
    run_result, step_verdict, step_views, steps_performed, Step, StepOutcome, StepView,
};
use crate::release::GithubRelease;
use crate::version::{cmp_version_tag_ltr, compare_tags};
use core::cmp::Ordering;
use vstd::prelude::*;

verus! {

/// What an update comes to.
#[derive(Debug, Clone, PartialEq, Eq)]
pub enum UpdateDecision {
    /// The newest installed version `from` is older than the latest release
    /// `to`.
    Available { from: String, to: String },
    /// The newest installed version is the latest release.
    UpToDate { tag: String },
    /// The newest installed version `local` sorts above the latest release
    /// `remote`.
    LocalNewer { local: String, remote: String },
}

/// The newest installed version: the first of the installed tags, which are
/// sorted greatest first. Nothing installed is an error.
pub fn update_head(installed: &Vec<String>) -> (r: Result<String, Error>)
    ensures
        installed.len() == 0 ==> (r matches Err(Error::Descriptive(m)) && m@
            == nothing_installed_text()),
        installed.len() > 0 ==> (r matches Ok(h) && h@ == installed@[0]@),
{
    if installed.len() == 0 {
        Err(nothing_installed())
    } else {
        Ok(installed[0].clone())
    }
}

/// What updating from the installed `head` to the latest release `latest`
/// comes to.
pub fn decide_update(head: &str, latest: &str) -> (r: UpdateDecision)
    ensures
        compare_tags(head@, latest@) == Ordering::Less ==> (r matches UpdateDecision::Available {
            from,
            to,
        } && from@ == head@ && to@ == latest@),
        compare_tags(head@, latest@) == Ordering::Equal ==> (r matches UpdateDecision::UpToDate {
            tag,
        } && tag@ == latest@),
        compare_tags(head@, latest@) == Ordering::Greater ==> (r matches UpdateDecision::LocalNewer {
            local,
            remote,
        } && local@ == head@ && remote@ == latest@),
{
    match cmp_version_tag_ltr(head, latest) {
        Ordering::Less => UpdateDecision::Available {
            from: String::from_str(head),
            to: String::from_str(latest),
        },
        Ordering::Equal => UpdateDecision::UpToDate { tag: String::from_str(latest) },
        Ordering::Greater => UpdateDecision::LocalNewer {
            local: String::from_str(head),
            remote: String::from_str(latest),
        },
    }
}

/// The plan that replaces the installed version `head` by `latest`: the
/// install of `latest`, then the removal of `head`.
pub fn update_plan(
    local_data_dir: &str,
    install_dir: &str,
    temp_dir: &str,
    head: &str,
    latest: &GithubRelease,
    installed: bool,
    icon_present: bool,
) -> (r: Result<Vec<Step>, Error>)
    ensures
        planned_install(local_data_dir@, install_dir@, temp_dir@, *latest, installed, icon_present)
            matches Some(p) ==> (r matches Ok(steps) && step_views(steps@) == p + removal_steps(
            local_data_dir@,
            install_dir@,
            head@,
        )),
        planned_install(local_data_dir@, install_dir@, temp_dir@, *latest, installed, icon_present)
            is None ==> (r matches Err(Error::Descriptive(m)) && m@ == missing_bundle_text()),
{
    let mut steps = initialize_binary(
        local_data_dir,
        install_dir,
        temp_dir,
        latest,
        installed,
        icon_present,
    )?;
    let ghost first = steps@;
    let mut removal = remove_binary(local_data_dir, install_dir, head);
    let ghost second = removal@;
    steps.append(&mut removal);
    assert(steps@ == first + second);
    assert(step_views(first + second) =~= step_views(first) + step_views(second));
    Ok(steps)
}

proof fn lemma_failed_prefix(
    a: Seq<Step>,
    b: Seq<Step>,
    oa: Seq<StepOutcome>,
    ob: Seq<StepOutcome>,
)
    requires
        oa.len() == a.len(),
        run_result(a, oa) is Err,
    ensures
        run_result(a + b, oa + ob) == run_result(a, oa),
        steps_performed(a + b, oa + ob) == steps_performed(a, oa),
        steps_performed(a, oa) <= a.len(),
    decreases a.len(),
{
    if a.len() > 0 {
        assert((a + b)[0] == a[0]);
        assert((oa + ob)[0] == oa[0]);
        if step_verdict(a[0], oa[0]) is Ok {
            assert((a + b).drop_first() =~= a.drop_first() + b);
            assert((oa + ob).drop_first() =~= oa.drop_first() + ob);
            lemma_failed_prefix(a.drop_first(), b, oa.drop_first(), ob);
        }
    }
}

/// When the install part of an update fails, the update stops there: none of
/// the steps that remove the previous version is performed, and the update
/// ends with the install's error.
pub proof fn lemma_failed_install_keeps_previous(
    steps: Seq<Step>,
    outcomes: Seq<StepOutcome>,
    install: Seq<StepView>,
    local_data_dir: Seq<char>,
    install_dir: Seq<char>,
    head: Seq<char>,
)
    requires
        step_views(steps) == install + removal_steps(local_data_dir, install_dir, head),
        outcomes.len() == steps.len(),
        run_result(
            steps.subrange(0, install.len() as int),
            outcomes.subrange(0, install.len() as int),
        ) is Err,
    ensures
        steps_performed(steps, outcomes) <= install.len(),
        run_result(steps, outcomes) == run_result(
            steps.subrange(0, install.len() as int),
            outcomes.subrange(0, install.len() as int),
        ),
{
    let n = install.len() as int;
    assert(step_views(steps).len() == steps.len());
    assert(steps =~= steps.subrange(0, n) + steps.subrange(n, steps.len() as int));
    assert(outcomes =~= outcomes.subrange(0, n) + outcomes.subrange(n, outcomes.len() as int));
    lemma_failed_prefix(
        steps.subrange(0, n),
        steps.subrange(n, steps.len() as int),
        outcomes.subrange(0, n),
        outcomes.subrange(n, outcomes.len() as int),
    );
}

} // verus!
