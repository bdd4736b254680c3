//! What is installed: the bundles found directly in the install directory.
//!
//! The files on disk are the only record of what is installed; the listing is
//! taken afresh on every run.
use crate::error::Error;
use crate::layout::bundle_suffix;
use crate::text::{drop_last_chars, ends_with, has_suffix};
use crate::version::{is_stable_desc_sort, sort_version_tags_desc, views};
use vstd::prelude::*;

verus! {

/// An entry found directly in a directory.
#[derive(Debug, Clone)]
pub struct ScannedEntry {
    pub name: String,
    pub is_dir: bool,
}

/// What reading a directory gave.
#[derive(Debug, Clone)]
pub enum DirScan {
    /// The directory's entries, in the order they were read.
    Listed(Vec<ScannedEntry>),
    /// The directory does not exist.
    Missing,
    /// Reading failed for another reason, described here.
    Failed(String),
}

/// The entry is an installed bundle: a file whose name ends with the suffix.
pub open spec fn is_bundle_entry(e: ScannedEntry) -> bool {
    !e.is_dir && has_suffix(e.name@, bundle_suffix())
}

/// The tag of a bundle: its name without the suffix.
pub open spec fn entry_tag(e: ScannedEntry) -> Seq<char> {
    e.name@.subrange(0, e.name@.len() - bundle_suffix().len())
}

/// The tags of the bundles among `entries`, in listing order.
pub open spec fn bundle_tags(entries: Seq<ScannedEntry>) -> Seq<Seq<char>> {
    entries.filter(|e: ScannedEntry| is_bundle_entry(e)).map_values(|e: ScannedEntry| entry_tag(e))
}

proof fn lemma_bundle_tags_push(entries: Seq<ScannedEntry>, e: ScannedEntry)
    ensures
        bundle_tags(entries.push(e)) == (if is_bundle_entry(e) {
            bundle_tags(entries).push(entry_tag(e))
        } else {
            bundle_tags(entries)
        }),
{
    reveal(Seq::filter);
    let p = |x: ScannedEntry| is_bundle_entry(x);
    assert(entries.push(e).drop_last() =~= entries);
    if is_bundle_entry(e) {
        assert(entries.push(e).filter(p) == entries.filter(p).push(e));
        assert(bundle_tags(entries.push(e)) =~= bundle_tags(entries).push(entry_tag(e)));
    }
}

/// The installed version tags, greatest first.
///
/// A missing directory means nothing is installed yet and gives no tags; any
/// other failure to read it is an I/O error naming `install_dir`.
pub fn get_local_release_tags(install_dir: &str, scan: DirScan) -> (r: Result<Vec<String>, Error>)
    ensures
        scan is Missing ==> (r matches Ok(tags) && tags@.len() == 0),
        scan matches DirScan::Listed(entries) ==> (r matches Ok(tags) && is_stable_desc_sort(
            views(tags@),
            bundle_tags(entries@),
        )),
        scan matches DirScan::Failed(m) ==> (r matches Err(Error::Io { source, context }) && source
            == m && (context matches Some(c) && c@ == install_dir@)),
{
    match scan {
        DirScan::Missing => Ok(Vec::new()),
        DirScan::Failed(m) => Err(Error::Io { source: m, context: Some(String::from_str(install_dir)) }),
        DirScan::Listed(entries) => {
            let mut tags: Vec<String> = Vec::new();
            let mut i: usize = 0;
            proof {
                reveal(Seq::filter);
                assert(entries@.subrange(0, 0) =~= Seq::<ScannedEntry>::empty());
                assert(views(tags@) =~= Seq::<Seq<char>>::empty());
            }
            while i < entries.len()
                invariant
                    i <= entries.len(),
                    views(tags@) == bundle_tags(entries@.subrange(0, i as int)),
                decreases entries.len() - i,
            {
                let e = &entries[i];
                proof {
                    assert(entries@.subrange(0, i + 1) =~= entries@.subrange(0, i as int).push(*e));
                    lemma_bundle_tags_push(entries@.subrange(0, i as int), *e);
                }
                let ghost before = tags@;
                proof {
                    reveal_strlit(".AppImage");
                }
                if !e.is_dir && ends_with(e.name.as_str(), ".AppImage") {
                    let tag = drop_last_chars(e.name.as_str(), 9);
                    tags.push(tag);
                    assert(views(tags@) =~= views(before).push(entry_tag(*e)));
                }
                i = i + 1;
            }
            assert(entries@.subrange(0, entries.len() as int) =~= entries@);
            Ok(sort_version_tags_desc(tags))
        },
    }
}

} // verus!
