use osu_helper_script::error::Error;
use osu_helper_script::plan::{remove_binary, Step};
use osu_helper_script::removal::{
    check_installed, offers_purge, purge_plan, removal_choices, removal_plan, removal_target,
    requested_removal, RemovalTarget,
};

fn tags(v: &[&str]) -> Vec<String> {
    v.iter().map(|s| s.to_string()).collect()
}

#[test]
fn requested_version_must_be_installed() {
    let installed = tags(&["2.0", "1.0"]);
    assert_eq!(requested_removal(&installed, "1.0".to_string()), Ok(RemovalTarget::One("1.0".to_string())));
    assert_eq!(requested_removal(&installed, "3.0".to_string()), Err(Error::NotFound("3.0".to_string())));
    assert!(check_installed(&installed).is_ok());
    assert!(matches!(check_installed(&vec![]), Err(Error::Descriptive(_))));
}

#[test]
fn choices_end_with_all() {
    assert_eq!(removal_choices(&tags(&["2.0", "1.0"])), tags(&["2.0", "1.0", "All"]));
    assert_eq!(removal_target("All".to_string()), RemovalTarget::All);
    assert_eq!(removal_target("1.0".to_string()), RemovalTarget::One("1.0".to_string()));
}

#[test]
fn removing_all_removes_each_version() {
    let installed = tags(&["2.0", "1.0"]);
    let mut expected = remove_binary("/d", "/g", "2.0");
    expected.extend(remove_binary("/d", "/g", "1.0"));
    assert_eq!(removal_plan("/d", "/g", &RemovalTarget::All, &installed), expected);
    assert_eq!(
        removal_plan("/d", "/g", &RemovalTarget::One("1.0".to_string()), &installed),
        remove_binary("/d", "/g", "1.0")
    );
}

#[test]
fn purge_is_offered_after_the_last_version() {
    assert!(offers_purge(&RemovalTarget::All, &tags(&["2.0", "1.0"])));
    assert!(!offers_purge(&RemovalTarget::One("1.0".to_string()), &tags(&["2.0", "1.0"])));
    assert!(offers_purge(&RemovalTarget::One("1.0".to_string()), &tags(&["1.0"])));
    assert_eq!(purge_plan("/g"), vec![Step::RemoveDir { dir: "/g".to_string() }]);
}
