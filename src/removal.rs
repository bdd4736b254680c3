//! Choosing what the remove command removes.
use crate::error::{nothing_installed, nothing_installed_text, Error};
use crate::plan::{remove_binary, removal_steps, step_views, Step, StepView};
use crate::release::{contains_tag, has_tag};
use crate::version::views;
use vstd::prelude::*;

verus! {

/// What the remove command removes.
#[derive(Debug, Clone, PartialEq, Eq)]
pub enum RemovalTarget {
    /// Every installed version.
    All,
    /// The installed version with this tag.
    One(String),
}

/// The choice that stands for every installed version.
pub open spec fn all_choice() -> Seq<char> {
    "All"@
}

/// Nothing to remove when nothing is installed.
pub fn check_installed(installed: &Vec<String>) -> (r: Result<(), Error>)
    ensures
        installed.len() == 0 ==> (r matches Err(Error::Descriptive(m)) && m@
            == nothing_installed_text()),
        installed.len() > 0 ==> r is Ok,
{
    if installed.len() == 0 {
        Err(nothing_installed())
    } else {
        Ok(())
    }
}

/// The version named on the command line, which must be installed.
pub fn requested_removal(installed: &Vec<String>, version: String) -> (r: Result<
    RemovalTarget,
    Error,
>)
    ensures
        has_tag(installed@, version@) ==> r == Ok::<RemovalTarget, Error>(RemovalTarget::One(version)),
        !has_tag(installed@, version@) ==> r == Err::<RemovalTarget, Error>(Error::NotFound(version)),
{
    if contains_tag(installed, &version) {
        Ok(RemovalTarget::One(version))
    } else {
        Err(Error::NotFound(version))
    }
}

/// The choices offered when no version is named: the installed tags, then
/// `All`.
pub fn removal_choices(installed: &Vec<String>) -> (r: Vec<String>)
    ensures
        views(r@) == views(installed@).push(all_choice()),
{
    let mut r: Vec<String> = Vec::new();
    let mut i: usize = 0;
    while i < installed.len()
        invariant
            i <= installed.len(),
            views(r@) == views(installed@.subrange(0, i as int)),
        decreases installed.len() - i,
    {
        r.push(installed[i].clone());
        assert(views(installed@.subrange(0, i + 1)) =~= views(
            installed@.subrange(0, i as int),
        ).push(installed@[i as int]@));
        i = i + 1;
    }
    let ghost before = r@;
    r.push(String::from_str("All"));
    assert(installed@.subrange(0, installed.len() as int) =~= installed@);
    assert(views(r@) =~= views(before).push(all_choice()));
    r
}

/// What a chosen entry of the removal choices stands for.
pub fn removal_target(choice: String) -> (r: RemovalTarget)
    ensures
        choice@ == all_choice() ==> r == RemovalTarget::All,
        choice@ != all_choice() ==> r == RemovalTarget::One(choice),
{
    let all = String::from_str("All");
    if choice == all {
        RemovalTarget::All
    } else {
        RemovalTarget::One(choice)
    }
}

/// The steps that remove each of `tags` in turn.
pub open spec fn removal_steps_each(
    local_data_dir: Seq<char>,
    install_dir: Seq<char>,
    tags: Seq<Seq<char>>,
) -> Seq<StepView>
    decreases tags.len(),
{
    if tags.len() == 0 {
        Seq::empty()
    } else {
        removal_steps_each(local_data_dir, install_dir, tags.drop_last()) + removal_steps(
            local_data_dir,
            install_dir,
            tags.last(),
        )
    }
}

/// The tags that `target` removes.
pub open spec fn target_tags(target: RemovalTarget, installed: Seq<String>) -> Seq<Seq<char>> {
    match target {
        RemovalTarget::All => views(installed),
        RemovalTarget::One(t) => seq![t@],
    }
}

/// The plan that removes `target`.
pub fn removal_plan(
    local_data_dir: &str,
    install_dir: &str,
    target: &RemovalTarget,
    installed: &Vec<String>,
) -> (r: Vec<Step>)
    ensures
        step_views(r@) == removal_steps_each(
            local_data_dir@,
            install_dir@,
            target_tags(*target, installed@),
        ),
{
    match target {
        RemovalTarget::One(t) => {
            let steps = remove_binary(local_data_dir, install_dir, t.as_str());
            assert(seq![t@].drop_last() =~= Seq::<Seq<char>>::empty());
            assert(removal_steps_each(local_data_dir@, install_dir@, seq![t@].drop_last()) =~= Seq::<
                StepView,
            >::empty());
            assert(removal_steps_each(local_data_dir@, install_dir@, seq![t@]) =~= Seq::<
                StepView,
            >::empty() + removal_steps(local_data_dir@, install_dir@, t@));
            steps
        },
        RemovalTarget::All => {
            let mut steps: Vec<Step> = Vec::new();
            let mut i: usize = 0;
            assert(views(installed@.subrange(0, 0)) =~= Seq::<Seq<char>>::empty());
            while i < installed.len()
                invariant
                    i <= installed.len(),
                    step_views(steps@) == removal_steps_each(
                        local_data_dir@,
                        install_dir@,
                        views(installed@.subrange(0, i as int)),
                    ),
                decreases installed.len() - i,
            {
                let ghost before = steps@;
                let mut more = remove_binary(local_data_dir, install_dir, installed[i].as_str());
                let ghost added = more@;
                steps.append(&mut more);
                let ghost tags_next = views(installed@.subrange(0, i + 1));
                assert(tags_next.drop_last() =~= views(installed@.subrange(0, i as int)));
                assert(tags_next.last() == installed@[i as int]@);
                assert(step_views(before + added) =~= step_views(before) + step_views(added));
                i = i + 1;
            }
            assert(installed@.subrange(0, installed.len() as int) =~= installed@);
            steps
        },
    }
}

/// Whether to offer removing the whole install directory, icon included:
/// after removing every version, or the only one.
pub fn offers_purge(target: &RemovalTarget, installed: &Vec<String>) -> (r: bool)
    ensures
        r == (*target == RemovalTarget::All || installed.len() == 1),
{
    match target {
        RemovalTarget::All => true,
        RemovalTarget::One(_) => installed.len() == 1,
    }
}

/// The plan that removes the install directory and everything in it.
pub fn purge_plan(install_dir: &str) -> (r: Vec<Step>)
    ensures
        step_views(r@) == seq![StepView::RemoveDir { dir: install_dir@ }],
{
    let mut steps: Vec<Step> = Vec::new();
    steps.push(Step::RemoveDir { dir: String::from_str(install_dir) });
    assert(step_views(steps@) =~= seq![StepView::RemoveDir { dir: install_dir@ }]);
    steps
}

} // verus!
