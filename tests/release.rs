use osu_helper_script::error::Error;
use osu_helper_script::release::{
    find_release, installable_tags, is_latest_request, release_fetch_error, GithubRelease,
    GithubReleaseAsset,
};

fn asset(name: &str, size: u64) -> GithubReleaseAsset {
    GithubReleaseAsset { name: name.to_string(), size, browser_download_url: format!("u/{}", name) }
}

fn release(tag: &str) -> GithubRelease {
    GithubRelease { id: 0, tag_name: tag.to_string(), prerelease: false, assets: vec![] }
}

#[test]
fn first_bundle_asset_is_chosen() {
    let r = GithubRelease {
        id: 9,
        tag_name: "1.0.0".to_string(),
        prerelease: false,
        assets: vec![asset("a.zip", 1), asset("first.AppImage", 2), asset("second.AppImage", 3)],
    };
    assert_eq!(r.get_app_image_asset().unwrap().name, "first.AppImage");
    let none = GithubRelease { assets: vec![asset("a.zip", 1), asset("AppImage", 1)], ..r };
    assert!(none.get_app_image_asset().is_none());
}

#[test]
fn installable_tags_skip_installed_ones() {
    let releases = vec![release("3.0"), release("2.0"), release("1.0")];
    let installed = vec!["2.0".to_string()];
    assert_eq!(installable_tags(&releases, &installed), vec!["3.0".to_string(), "1.0".to_string()]);
    assert_eq!(installable_tags(&releases, &vec![]).len(), 3);
}

#[test]
fn find_release_by_tag() {
    let releases = vec![release("3.0"), release("2.0"), release("2.0")];
    assert_eq!(find_release(&releases, &"2.0".to_string()), Some(1));
    assert_eq!(find_release(&releases, &"9.9".to_string()), None);
}

#[test]
fn latest_request_ignores_case() {
    assert!(is_latest_request("latest"));
    assert!(is_latest_request("LATEST"));
    assert!(is_latest_request("LaTeSt"));
    assert!(!is_latest_request("latest "));
    assert!(!is_latest_request("2023.617.0"));
    assert!(!is_latest_request(""));
}

#[test]
fn fetch_errors_by_status() {
    assert_eq!(release_fetch_error("1.2.3", Some(404), "gone".to_string()), Error::NotFound("1.2.3".to_string()));
    assert_eq!(release_fetch_error("1.2.3", Some(500), "oops".to_string()), Error::Network("oops".to_string()));
    assert_eq!(release_fetch_error("1.2.3", None, "dns".to_string()), Error::Network("dns".to_string()));
}
