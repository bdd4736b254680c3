use osu_helper_script::layout::{
    applications_dir, default_install_dir, icon_path, temp_path, InstallData,
};
use osu_helper_script::text::join;
use std::path::Path;

#[test]
fn test_install_data() {
    let local_data_dir = Path::new("/home/username/.local/share");
    let install_dir = local_data_dir.join("games/osu!");
    let release_tag_name = String::from("2023.617.0");

    let install_data = InstallData::new(
        local_data_dir.to_str().unwrap(),
        install_dir.to_str().unwrap(),
        &release_tag_name,
    );

    assert_eq!(
        Path::new(&install_data.install_path),
        Path::new("/home/username/.local/share/games/osu!/2023.617.0.AppImage")
    );
    assert_eq!(
        Path::new(&install_data.desktop_entry_path),
        Path::new("/home/username/.local/share/applications/osu!-2023.617.0.desktop")
    );
}

#[test]
fn layout_is_the_same_for_the_same_inputs() {
    let a = InstallData::new("/data", "/games", "1.0.0");
    let b = InstallData::new("/data", "/games", "1.0.0");
    assert_eq!(a.install_path, b.install_path);
    assert_eq!(a.desktop_entry_path, b.desktop_entry_path);
    assert_eq!(a.install_path, "/games/1.0.0.AppImage");
    assert_eq!(a.desktop_entry_path, "/data/applications/osu!-1.0.0.desktop");
}

#[test]
fn join_follows_path_rules() {
    assert_eq!(join("/a", "b"), "/a/b");
    assert_eq!(join("/a/", "b"), "/a/b");
    assert_eq!(join("", "b"), "b");
    assert_eq!(join("/a", "/etc"), "/etc");
    assert_eq!(join("/a", ""), "/a/");
    for (base, name) in [("/a", "b"), ("/a/", "b"), ("", "b"), ("/a", "/etc"), ("rel", "x/y")] {
        assert_eq!(Path::new(&join(base, name)), Path::new(base).join(name));
    }
}

#[test]
fn shared_paths() {
    assert_eq!(applications_dir("/home/u/.local/share"), "/home/u/.local/share/applications");
    assert_eq!(icon_path("/games/osu!"), "/games/osu!/osu.png");
    assert_eq!(temp_path("/var/tmp/osu_helper_script", "2023.617.0"), "/var/tmp/osu_helper_script/2023.617.0.AppImage");
    assert_eq!(default_install_dir("/home/u/.local/share"), "/home/u/.local/share/games/osu!");
}
