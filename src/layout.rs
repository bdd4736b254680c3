//! Where the files of an installed version live.
//!
//! Every path here is computed from its inputs alone; nothing looks at the
//! file system.
use crate::text::{concat, join, join_path};
use vstd::prelude::*;

verus! {

/// The suffix that marks an installable bundle.
pub open spec fn bundle_suffix() -> Seq<char> {
    ".AppImage"@
}

/// File name of the bundle of version `tag`.
pub open spec fn bundle_file_name_of(tag: Seq<char>) -> Seq<char> {
    tag + bundle_suffix()
}

/// The installed bundle of `tag` under `install_dir`.
pub open spec fn install_path_of(install_dir: Seq<char>, tag: Seq<char>) -> Seq<char> {
    join_path(install_dir, bundle_file_name_of(tag))
}

/// The directory of desktop entries under the local data directory.
pub open spec fn applications_dir_of(local_data_dir: Seq<char>) -> Seq<char> {
    join_path(local_data_dir, "applications"@)
}

/// The desktop entry of `tag`.
pub open spec fn desktop_entry_path_of(local_data_dir: Seq<char>, tag: Seq<char>) -> Seq<char> {
    join_path(applications_dir_of(local_data_dir), "osu!-"@ + tag + ".desktop"@)
}

/// The icon shared by every installed version.
pub open spec fn icon_path_of(install_dir: Seq<char>) -> Seq<char> {
    join_path(install_dir, "osu.png"@)
}

/// Where the bundle of `tag` is downloaded before it is moved into place.
pub open spec fn temp_path_of(temp_dir: Seq<char>, tag: Seq<char>) -> Seq<char> {
    join_path(temp_dir, bundle_file_name_of(tag))
}

/// The install directory used when none is given.
pub open spec fn default_install_dir_of(local_data_dir: Seq<char>) -> Seq<char> {
    join_path(join_path(local_data_dir, "games"@), "osu!"@)
}

/// The paths needed to handle one installed version.
pub struct InstallData {
    pub desktop_entry_path: String,
    pub install_path: String,
}

impl InstallData {
    pub open spec fn matches(self, local_data_dir: Seq<char>, install_dir: Seq<char>, tag: Seq<char>) -> bool {
        &&& self.install_path@ == install_path_of(install_dir, tag)
        &&& self.desktop_entry_path@ == desktop_entry_path_of(local_data_dir, tag)
    }

    /// The paths of version `release_tag_name`.
    pub fn new(local_data_dir: &str, install_dir: &str, release_tag_name: &str) -> (r: Self)
        ensures
            r.matches(local_data_dir@, install_dir@, release_tag_name@),
    {
        let desktop_dir = applications_dir(local_data_dir);
        let app_image_file_name = bundle_file_name(release_tag_name);
        let prefix = "osu!-";
        let mut desktop_file_name = concat(prefix, release_tag_name);
        desktop_file_name.append(".desktop");
        InstallData {
            install_path: join(install_dir, app_image_file_name.as_str()),
            desktop_entry_path: join(desktop_dir.as_str(), desktop_file_name.as_str()),
        }
    }
}

/// File name of the bundle of version `tag`.
pub fn bundle_file_name(tag: &str) -> (r: String)
    ensures
        r@ == bundle_file_name_of(tag@),
{
    concat(tag, ".AppImage")
}

/// The directory of desktop entries under the local data directory.
pub fn applications_dir(local_data_dir: &str) -> (r: String)
    ensures
        r@ == applications_dir_of(local_data_dir@),
{
    join(local_data_dir, "applications")
}

/// The icon shared by every installed version.
pub fn icon_path(install_dir: &str) -> (r: String)
    ensures
        r@ == icon_path_of(install_dir@),
{
    join(install_dir, "osu.png")
}

/// Where the bundle of `tag` is downloaded before it is moved into place.
pub fn temp_path(temp_dir: &str, tag: &str) -> (r: String)
    ensures
        r@ == temp_path_of(temp_dir@, tag@),
{
    let file_name = bundle_file_name(tag);
    join(temp_dir, file_name.as_str())
}

/// The install directory used when none is given: `games/osu!` under the
/// local data directory.
pub fn default_install_dir(local_data_dir: &str) -> (r: String)
    ensures
        r@ == default_install_dir_of(local_data_dir@),
{
    let games = join(local_data_dir, "games");
    join(games.as_str(), "osu!")
}

/// The paths of a version depend on the local data directory, the install
/// directory and the tag alone: equal inputs give equal paths.
pub proof fn lemma_layout_depends_on_inputs_only(
    a: InstallData,
    b: InstallData,
    local_data_dir: Seq<char>,
    install_dir: Seq<char>,
    tag: Seq<char>,
)
    requires
        a.matches(local_data_dir, install_dir, tag),
        b.matches(local_data_dir, install_dir, tag),
    ensures
        a.install_path@ == b.install_path@,
        a.desktop_entry_path@ == b.desktop_entry_path@,
{
}

} // verus!
