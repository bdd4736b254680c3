//! Releases of the remote catalog, and the choices made over them.
use crate::error::Error;
use crate::layout::bundle_suffix;
use crate::text::{ends_with, has_suffix};
use crate::version::views;
use vstd::prelude::*;
use vstd::string::*;

verus! {

/// A downloadable file of a release.
#[derive(Debug, Clone)]
pub struct GithubReleaseAsset {
    pub name: String,
    pub size: u64,
    pub browser_download_url: String,
}

/// A release of the catalog.
#[derive(Debug, Clone)]
pub struct GithubRelease {
    pub id: u64,
    pub tag_name: String,
    pub prerelease: bool,
    pub assets: Vec<GithubReleaseAsset>,
}

/// The asset is an installable bundle.
pub open spec fn is_bundle_asset(a: GithubReleaseAsset) -> bool {
    has_suffix(a.name@, bundle_suffix())
}

/// The first installable bundle among `assets`.
pub open spec fn first_bundle_asset(assets: Seq<GithubReleaseAsset>) -> Option<GithubReleaseAsset>
    decreases assets.len(),
{
    if assets.len() == 0 {
        None
    } else if is_bundle_asset(assets[0]) {
        Some(assets[0])
    } else {
        first_bundle_asset(assets.drop_first())
    }
}

impl GithubRelease {
    /// The first asset whose name ends with the bundle suffix.
    pub fn get_app_image_asset(&self) -> (r: Option<&GithubReleaseAsset>)
        ensures
            r is None <==> first_bundle_asset(self.assets@) is None,
            r matches Some(a) ==> first_bundle_asset(self.assets@) == Some(*a),
    {
        let mut i: usize = 0;
        assert(self.assets@.subrange(0, self.assets.len() as int) =~= self.assets@);
        while i < self.assets.len()
            invariant
                i <= self.assets.len(),
                first_bundle_asset(self.assets@) == first_bundle_asset(
                    self.assets@.subrange(i as int, self.assets.len() as int),
                ),
            decreases self.assets.len() - i,
        {
            let ghost rest = self.assets@.subrange(i as int, self.assets.len() as int);
            assert(rest.drop_first() =~= self.assets@.subrange(i + 1, self.assets.len() as int));
            assert(rest[0] == self.assets@[i as int]);
            if ends_with(self.assets[i].name.as_str(), ".AppImage") {
                return Some(&self.assets[i]);
            }
            i = i + 1;
        }
        None
    }
}

/// Some string of `tags` has the text `t`.
pub open spec fn has_tag(tags: Seq<String>, t: Seq<char>) -> bool {
    exists|k: int| 0 <= k < tags.len() && #[trigger] tags[k]@ == t
}

/// Whether some string of `tags` has the text of `t`.
pub fn contains_tag(tags: &Vec<String>, t: &String) -> (r: bool)
    ensures
        r == has_tag(tags@, t@),
{
    let mut k: usize = 0;
    while k < tags.len()
        invariant
            k <= tags.len(),
            forall|j: int| 0 <= j < k ==> tags@[j]@ != t@,
        decreases tags.len() - k,
    {
        if tags[k] == *t {
            return true;
        }
        k = k + 1;
    }
    false
}

/// The tags of the releases, in catalog order.
pub open spec fn release_tags(releases: Seq<GithubRelease>) -> Seq<Seq<char>> {
    releases.map_values(|r: GithubRelease| r.tag_name@)
}

/// The tags of the releases that are not installed, in catalog order.
pub open spec fn uninstalled_tags(releases: Seq<GithubRelease>, installed: Seq<String>) -> Seq<
    Seq<char>,
> {
    release_tags(releases).filter(|t: Seq<char>| !has_tag(installed, t))
}

/// The tags that can be offered for installation: those of the catalog that
/// are not installed yet, in catalog order.
pub fn installable_tags(releases: &Vec<GithubRelease>, installed: &Vec<String>) -> (r: Vec<String>)
    ensures
        views(r@) == uninstalled_tags(releases@, installed@),
{
    let ghost pred = |t: Seq<char>| !has_tag(installed@, t);
    let mut r: Vec<String> = Vec::new();
    let mut i: usize = 0;
    proof {
        reveal(Seq::filter);
        assert(release_tags(releases@.subrange(0, 0)) =~= Seq::<Seq<char>>::empty());
        assert(views(r@) =~= Seq::<Seq<char>>::empty());
    }
    while i < releases.len()
        invariant
            i <= releases.len(),
            pred == (|t: Seq<char>| !has_tag(installed@, t)),
            views(r@) == release_tags(releases@.subrange(0, i as int)).filter(pred),
        decreases releases.len() - i,
    {
        let ghost before = r@;
        let ghost tags_i = release_tags(releases@.subrange(0, i as int));
        let ghost tags_next = release_tags(releases@.subrange(0, i + 1));
        proof {
            reveal(Seq::filter);
            assert(tags_next.drop_last() =~= tags_i);
            assert(tags_next.last() == releases@[i as int].tag_name@);
        }
        if !contains_tag(installed, &releases[i].tag_name) {
            r.push(releases[i].tag_name.clone());
            assert(views(r@) =~= views(before).push(releases@[i as int].tag_name@));
        } else {
            assert(views(r@) =~= views(before));
        }
        i = i + 1;
    }
    assert(releases@.subrange(0, releases.len() as int) =~= releases@);
    r
}

/// The position of the first release tagged `tag`.
pub fn find_release(releases: &Vec<GithubRelease>, tag: &String) -> (r: Option<usize>)
    ensures
        r is None ==> forall|i: int|
            0 <= i < releases.len() ==> #[trigger] releases@[i].tag_name@ != tag@,
        r matches Some(i) ==> i < releases.len() && releases@[i as int].tag_name@ == tag@
            && forall|j: int| 0 <= j < i ==> #[trigger] releases@[j].tag_name@ != tag@,
{
    let mut i: usize = 0;
    while i < releases.len()
        invariant
            i <= releases.len(),
            forall|j: int| 0 <= j < i ==> #[trigger] releases@[j].tag_name@ != tag@,
        decreases releases.len() - i,
    {
        if releases[i].tag_name == *tag {
            return Some(i);
        }
        i = i + 1;
    }
    None
}

/// `c` is `target`, or its upper-case ASCII form.
pub open spec fn same_letter_ignoring_case(c: char, target: char) -> bool {
    c == target || ('a' <= target <= 'z' && c as int == target as int - 32)
}

/// `v` asks for the newest release: it reads `latest` in any letter case.
pub open spec fn asks_for_latest(v: Seq<char>) -> bool {
    &&& v.len() == "latest"@.len()
    &&& forall|i: int| 0 <= i < v.len() ==> same_letter_ignoring_case(#[trigger] v[i], "latest"@[i])
}

/// Whether the requested version names the newest release.
pub fn is_latest_request(v: &str) -> (r: bool)
    ensures
        r == asks_for_latest(v@),
{
    let target = "latest";
    proof {
        reveal_strlit("latest");
    }
    let n = v.unicode_len();
    if n != 6 {
        return false;
    }
    let mut i: usize = 0;
    while i < n
        invariant
            n == v@.len(),
            n == target@.len(),
            target@ == "latest"@,
            i <= n,
            forall|k: int| 0 <= k < i ==> same_letter_ignoring_case(#[trigger] v@[k], target@[k]),
        decreases n - i,
    {
        let c = v.get_char(i);
        let t = target.get_char(i);
        let same = c == t || ('a' <= t && t <= 'z' && (c as u32) + 32 == t as u32);
        if !same {
            return false;
        }
        i = i + 1;
    }
    true
}

/// The error for a failed fetch of the release tagged `requested`: a missing
/// release (status 404) is `NotFound`, anything else a network failure.
pub fn release_fetch_error(requested: &str, status: Option<u16>, message: String) -> (e: Error)
    ensures
        status == Some(404u16) ==> (e matches Error::NotFound(t) && t@ == requested@),
        status != Some(404u16) ==> e == Error::Network(message),
{
    match status {
        Some(code) if code == 404 => Error::NotFound(String::from_str(requested)),
        _ => Error::Network(message),
    }
}

} // verus!
