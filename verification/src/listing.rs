//! The repository tree listing: turning tree entries into file
//! descriptors, locating a requested file, filtering by substring
//! patterns, and the URLs the hub serves them under.

use vstd::prelude::*;
use crate::error::DownloadError;
use crate::text::chars_of;
use crate::text::contains_chars;
use crate::text::contains_seq;

verus! {

/// One entry of the hub's tree listing, as decoded from its response.
#[derive(Debug, Clone)]
pub struct HfTreeItem {
    pub item_type: String,
    pub oid: String,
    pub size: u64,
    pub path: String,
    pub xet_hash: Option<String>,
}

/// A file of the repository: its path, identity hash, size, and the
/// CAS hash when the hub advertises one.
#[derive(Debug, Clone)]
pub struct HfFileInfo {
    pub path: String,
    pub hash: String,
    pub size: u64,
    pub xet_hash: Option<String>,
}

impl HfFileInfo {
    /// A field-by-field copy, equal to the original.
    pub fn duplicate(&self) -> (r: HfFileInfo)
        ensures
            r == *self,
    {
        HfFileInfo {
            path: self.path.clone(),
            hash: self.hash.clone(),
            size: self.size,
            xet_hash: match &self.xet_hash {
                Some(h) => Some(h.clone()),
                None => None,
            },
        }
    }
}

/// A tree entry describes a file, not a directory.
pub open spec fn is_file_item(it: HfTreeItem) -> bool {
    it.item_type@ == "file"@
}

/// The descriptor a file entry becomes: `oid` is the identity hash.
pub open spec fn info_of_item(it: HfTreeItem) -> HfFileInfo {
    HfFileInfo { path: it.path, hash: it.oid, size: it.size, xet_hash: it.xet_hash }
}

/// The descriptors of a listing: its file entries, in order.
pub open spec fn files_from_tree_spec(items: Seq<HfTreeItem>) -> Seq<HfFileInfo>
    decreases items.len(),
{
    if items.len() == 0 {
        Seq::empty()
    } else {
        let rest = files_from_tree_spec(items.drop_last());
        if is_file_item(items.last()) {
            rest.push(info_of_item(items.last()))
        } else {
            rest
        }
    }
}

proof fn lemma_files_from_tree_prefix(items: Seq<HfTreeItem>, i: int)
    requires
        0 <= i < items.len(),
    ensures
        files_from_tree_spec(items.subrange(0, i + 1)) == if is_file_item(items[i]) {
            files_from_tree_spec(items.subrange(0, i)).push(info_of_item(items[i]))
        } else {
            files_from_tree_spec(items.subrange(0, i))
        },
{
    let p = items.subrange(0, i + 1);
    assert(p.drop_last() =~= items.subrange(0, i));
    assert(p.last() == items[i]);
}

/// Keep the file entries of a listing and drop the directories.
pub fn files_from_tree(items: Vec<HfTreeItem>) -> (r: Vec<HfFileInfo>)
    ensures
        r@ == files_from_tree_spec(items@),
{
    let file_kind = String::from_str("file");
    let mut out: Vec<HfFileInfo> = Vec::new();
    let mut i: usize = 0;
    while i < items.len()
        invariant
            i <= items@.len(),
            file_kind@ == "file"@,
            out@ == files_from_tree_spec(items@.subrange(0, i as int)),
        decreases items@.len() - i,
    {
        proof {
            lemma_files_from_tree_prefix(items@, i as int);
        }
        let it = &items[i];
        if it.item_type.eq(&file_kind) {
            out.push(
                HfFileInfo {
                    path: it.path.clone(),
                    hash: it.oid.clone(),
                    size: it.size,
                    xet_hash: it.xet_hash.clone(),
                },
            );
            proof {
                assert(out@.last() == info_of_item(items@[i as int]));
                assert(out@ =~= files_from_tree_spec(items@.subrange(0, i + 1)));
            }
        }
        i += 1;
    }
    proof {
        assert(items@.subrange(0, items@.len() as int) =~= items@);
    }
    out
}

/// Some descriptor carries this path.
pub open spec fn has_path(files: Seq<HfFileInfo>, path: Seq<char>) -> bool {
    exists|i: int| 0 <= i < files.len() && files[i].path@ == path
}

/// `i` is the first descriptor carrying `path`.
pub open spec fn is_first_path_match(files: Seq<HfFileInfo>, path: Seq<char>, i: int) -> bool {
    0 <= i < files.len() && files[i].path@ == path && (forall|j: int|
        0 <= j < i ==> files[j].path@ != path)
}

/// Locate the descriptor for `filename` in a listing: the first entry
/// with that path, or a not-found error naming the file.
pub fn select_file(files: &Vec<HfFileInfo>, filename: &str) -> (r: Result<
    HfFileInfo,
    DownloadError,
>)
    ensures
        match r {
            Ok(info) => exists|i: int|
                #[trigger] is_first_path_match(files@, filename@, i) && info == files@[i],
            Err(e) => {
                &&& !has_path(files@, filename@)
                &&& e matches DownloadError::NotFound { filename: f } && f@ == filename@
            },
        },
{
    let owned = filename.to_owned();
    let mut i: usize = 0;
    while i < files.len()
        invariant
            i <= files@.len(),
            owned@ == filename@,
            forall|j: int| 0 <= j < i ==> files@[j].path@ != filename@,
        decreases files@.len() - i,
    {
        let f = &files[i];
        if f.path.eq(&owned) {
            proof {
                assert(is_first_path_match(files@, filename@, i as int));
            }
            return Ok(f.duplicate());
        }
        i += 1;
    }
    Err(DownloadError::NotFound { filename: owned })
}

/// Some pattern of the list occurs in `path` as a substring.
pub open spec fn any_pat_in(path: Seq<char>, pats: Seq<String>) -> bool {
    exists|k: int| 0 <= k < pats.len() && contains_seq(path, pats[k]@)
}

/// A path passes the filters: with an allow list, some pattern must
/// occur in it as a substring; with an ignore list, none may.
pub open spec fn keep_path(
    path: Seq<char>,
    allow: &Option<Vec<String>>,
    ignore: &Option<Vec<String>>,
) -> bool {
    (match allow {
        Some(pats) => any_pat_in(path, pats@),
        None => true,
    }) && (match ignore {
        Some(pats) => !any_pat_in(path, pats@),
        None => true,
    })
}

/// The descriptors that pass the filters, in order.
pub open spec fn filtered_files_spec(
    files: Seq<HfFileInfo>,
    allow: &Option<Vec<String>>,
    ignore: &Option<Vec<String>>,
) -> Seq<HfFileInfo>
    decreases files.len(),
{
    if files.len() == 0 {
        Seq::empty()
    } else {
        let rest = filtered_files_spec(files.drop_last(), allow, ignore);
        if keep_path(files.last().path@, allow, ignore) {
            rest.push(files.last())
        } else {
            rest
        }
    }
}

proof fn lemma_filtered_files_prefix(
    files: Seq<HfFileInfo>,
    allow: &Option<Vec<String>>,
    ignore: &Option<Vec<String>>,
    i: int,
)
    requires
        0 <= i < files.len(),
    ensures
        filtered_files_spec(files.subrange(0, i + 1), allow, ignore) == if keep_path(
            files[i].path@,
            allow,
            ignore,
        ) {
            filtered_files_spec(files.subrange(0, i), allow, ignore).push(files[i])
        } else {
            filtered_files_spec(files.subrange(0, i), allow, ignore)
        },
{
    let p = files.subrange(0, i + 1);
    assert(p.drop_last() =~= files.subrange(0, i));
    assert(p.last() == files[i]);
}

/// Whether any pattern occurs in `path` as a substring.
fn any_pattern_matches(path: &String, pats: &Vec<String>) -> (r: bool)
    ensures
        r == any_pat_in(path@, pats@),
{
    let path_chars = chars_of(path.as_str());
    let mut k: usize = 0;
    while k < pats.len()
        invariant
            k <= pats@.len(),
            path_chars@ == path@,
            forall|j: int| 0 <= j < k ==> !contains_seq(path@, pats@[j]@),
        decreases pats@.len() - k,
    {
        let pat_chars = chars_of(pats[k].as_str());
        if contains_chars(&path_chars, &pat_chars) {
            return true;
        }
        k += 1;
    }
    false
}

/// Whether `path` passes the allow and ignore filters.
fn path_passes(
    path: &String,
    allow: &Option<Vec<String>>,
    ignore: &Option<Vec<String>>,
) -> (r: bool)
    ensures
        r == keep_path(path@, allow, ignore),
{
    let allowed = match allow {
        Some(pats) => any_pattern_matches(path, pats),
        None => true,
    };
    if !allowed {
        return false;
    }
    let denied = match ignore {
        Some(pats) => any_pattern_matches(path, pats),
        None => false,
    };
    !denied
}

/// Keep the descriptors that pass the allow and ignore filters.
pub fn filter_files(
    files: Vec<HfFileInfo>,
    allow: &Option<Vec<String>>,
    ignore: &Option<Vec<String>>,
) -> (r: Vec<HfFileInfo>)
    ensures
        r@ == filtered_files_spec(files@, allow, ignore),
{
    let mut out: Vec<HfFileInfo> = Vec::new();
    let mut i: usize = 0;
    while i < files.len()
        invariant
            i <= files@.len(),
            out@ == filtered_files_spec(files@.subrange(0, i as int), allow, ignore),
        decreases files@.len() - i,
    {
        proof {
            lemma_filtered_files_prefix(files@, allow, ignore, i as int);
        }
        let f = &files[i];
        if path_passes(&f.path, allow, ignore) {
            out.push(f.duplicate());
            proof {
                assert(out@ =~= filtered_files_spec(files@.subrange(0, i + 1), allow, ignore));
            }
        }
        i += 1;
    }
    proof {
        assert(files@.subrange(0, files@.len() as int) =~= files@);
    }
    out
}

/// The sum of the listed sizes.
pub open spec fn total_size_spec(files: Seq<HfFileInfo>) -> int
    decreases files.len(),
{
    if files.len() == 0 {
        0
    } else {
        total_size_spec(files.drop_last()) + files.last().size
    }
}

/// An `int` clamped to `u64` from above.
pub open spec fn sat_u64(x: int) -> u64 {
    if x > u64::MAX {
        u64::MAX
    } else if x < 0 {
        0
    } else {
        x as u64
    }
}

/// The total size of the listed files, saturating at the top.
pub fn total_size(files: &Vec<HfFileInfo>) -> (r: u64)
    ensures
        r == sat_u64(total_size_spec(files@)),
{
    let mut acc: u64 = 0;
    let mut i: usize = 0;
    while i < files.len()
        invariant
            i <= files@.len(),
            acc == sat_u64(total_size_spec(files@.subrange(0, i as int))),
            total_size_spec(files@.subrange(0, i as int)) >= 0,
        decreases files@.len() - i,
    {
        proof {
            let p = files@.subrange(0, i + 1);
            assert(p.drop_last() =~= files@.subrange(0, i as int));
            assert(p.last() == files@[i as int]);
        }
        acc = acc.saturating_add(files[i].size);
        i += 1;
    }
    proof {
        assert(files@.subrange(0, files@.len() as int) =~= files@);
    }
    acc
}

/// The revision a request names: the default branch when none is
/// given.
pub fn resolve_revision(revision: Option<&str>) -> (r: String)
    ensures
        r@ == match revision {
            Some(v) => v@,
            None => "main"@,
        },
{
    match revision {
        Some(v) => String::from_str(v),
        None => String::from_str("main"),
    }
}

/// The tree-listing URL of a repository revision.
pub fn tree_url(endpoint: &str, repo_id: &str, revision: &str) -> (r: String)
    ensures
        r@ == endpoint@ + "/api/models/"@ + repo_id@ + "/tree/"@ + revision@,
{
    let mut s = String::from_str(endpoint);
    s.append("/api/models/");
    s.append(repo_id);
    s.append("/tree/");
    s.append(revision);
    s
}

/// The download URL of one file of a repository revision.
pub fn resolve_url(endpoint: &str, repo_id: &str, revision: &str, path: &str) -> (r: String)
    ensures
        r@ == endpoint@ + "/"@ + repo_id@ + "/resolve/"@ + revision@ + "/"@ + path@,
{
    let mut s = String::from_str(endpoint);
    s.append("/");
    s.append(repo_id);
    s.append("/resolve/");
    s.append(revision);
    s.append("/");
    s.append(path);
    s
}

} // verus!
