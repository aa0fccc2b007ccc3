//! Discovery of the managed entries of a repository subtree, one directory
//! listing at a time, without recursion.
use vstd::prelude::*;

use crate::entry::{home_comp, home_name, marker_for, marker_name, stub_suffix};
use crate::ops::{paths_view, ObjKind, PathV};
use crate::path::FsPath;

verus! {

/// One item of a directory listing: its name and what it is (a link is not
/// followed).
#[derive(Clone, Debug, PartialEq, Eq)]
pub struct DirItem {
    pub name: String,
    pub kind: ObjKind,
}

/// The view of a listing.
pub open spec fn items_view(v: Seq<DirItem>) -> Seq<(Seq<char>, ObjKind)> {
    v.map_values(|d: DirItem| (d.name@, d.kind))
}

/// Whether a file name has the shape of a marker: a dot, a name, and the
/// marker suffix.
pub open spec fn is_marker_name(s: Seq<char>) -> bool {
    &&& s.len() > stub_suffix().len() + 1
    &&& s[0] == '.'
    &&& s.subrange(s.len() - stub_suffix().len(), s.len() as int) == stub_suffix()
}

/// Whether the listing holds the marker of the directory `name`.
pub open spec fn has_marker(items: Seq<(Seq<char>, ObjKind)>, name: Seq<char>) -> bool {
    exists|j: int| 0 <= j < items.len() && #[trigger] items[j] == (marker_name(name), ObjKind::File)
}

/// Whether an item is a managed entry: a file that is no marker, or a
/// directory with its marker beside it.
pub open spec fn is_leaf(items: Seq<(Seq<char>, ObjKind)>, it: (Seq<char>, ObjKind)) -> bool {
    (it.1 == ObjKind::File && !is_marker_name(it.0)) || (it.1 == ObjKind::Dir && has_marker(
        items,
        it.0,
    ))
}

/// Whether an item is a directory to look into: one without a marker.
pub open spec fn is_subdir(items: Seq<(Seq<char>, ObjKind)>, it: (Seq<char>, ObjKind)) -> bool {
    it.1 == ObjKind::Dir && !has_marker(items, it.0)
}

/// The entries among the first `n` items of the listing of `dir`.
pub open spec fn leaves(dir: PathV, items: Seq<(Seq<char>, ObjKind)>, n: nat) -> Seq<PathV>
    decreases n,
{
    if n == 0 {
        Seq::empty()
    } else {
        let prev = leaves(dir, items, (n - 1) as nat);
        if is_leaf(items, items[n - 1]) {
            prev.push(dir.push(items[n - 1].0))
        } else {
            prev
        }
    }
}

/// The directories to look into among the first `n` items of the listing of
/// `dir`.
pub open spec fn subdirs(dir: PathV, items: Seq<(Seq<char>, ObjKind)>, n: nat) -> Seq<PathV>
    decreases n,
{
    if n == 0 {
        Seq::empty()
    } else {
        let prev = subdirs(dir, items, (n - 1) as nat);
        if is_subdir(items, items[n - 1]) {
            prev.push(dir.push(items[n - 1].0))
        } else {
            prev
        }
    }
}

/// Whether a file name has the shape of a marker.
pub fn is_marker(name: &str) -> (r: bool)
    ensures
        r == is_marker_name(name@),
{
    let suffix = ".configma.stub";
    proof {
        reveal_strlit(".configma.stub");
    }
    let n = name.unicode_len();
    let m = suffix.unicode_len();
    assert(m == stub_suffix().len());
    if n <= m + 1 {
        return false;
    }
    if name.get_char(0) != '.' {
        return false;
    }
    let mut i: usize = 0;
    while i < m
        invariant
            n == name@.len(),
            m == suffix@.len(),
            suffix@ == stub_suffix(),
            n > m + 1,
            i <= m,
            forall|j: int| 0 <= j < i ==> name@[n - m + j] == suffix@[j],
        decreases m - i,
    {
        if name.get_char(n - m + i) != suffix.get_char(i) {
            assert(name@.subrange(n - m, n as int)[i as int] != stub_suffix()[i as int]);
            return false;
        }
        i = i + 1;
    }
    assert(name@.subrange(n - m, n as int) =~= stub_suffix());
    true
}

/// Whether the listing holds a file named `marker`.
fn listing_has_file(listing: &Vec<DirItem>, marker: &String) -> (r: bool)
    ensures
        r == exists|j: int|
            0 <= j < listing@.len() && #[trigger] items_view(listing@)[j] == (marker@, ObjKind::File),
{
    let mut i: usize = 0;
    while i < listing.len()
        invariant
            i <= listing.len(),
            forall|j: int| 0 <= j < i ==> #[trigger] items_view(listing@)[j] != (marker@, ObjKind::File),
        decreases listing.len() - i,
    {
        if listing[i].kind == ObjKind::File && listing[i].name == *marker {
            assert(items_view(listing@)[i as int] == (marker@, ObjKind::File));
            return true;
        }
        assert(items_view(listing@)[i as int] == (listing@[i as int].name@, listing@[i as int].kind));
        i = i + 1;
    }
    false
}

/// Splits the listing of `dir` (a path relative to the scanned root) into
/// the managed entries it holds and the directories still to look into.
/// Links and other objects are neither.
pub fn classify(dir: &FsPath, listing: &Vec<DirItem>) -> (r: (Vec<FsPath>, Vec<FsPath>))
    ensures
        paths_view(r.0@) == leaves(dir@, items_view(listing@), listing@.len()),
        paths_view(r.1@) == subdirs(dir@, items_view(listing@), listing@.len()),
{
    let ghost items = items_view(listing@);
    let mut found: Vec<FsPath> = Vec::new();
    let mut to_visit: Vec<FsPath> = Vec::new();
    let mut i: usize = 0;
    while i < listing.len()
        invariant
            i <= listing.len(),
            items == items_view(listing@),
            paths_view(found@) == leaves(dir@, items, i as nat),
            paths_view(to_visit@) == subdirs(dir@, items, i as nat),
        decreases listing.len() - i,
    {
        let item = &listing[i];
        assert(items[i as int] == (item.name@, item.kind));
        let mut p = dir.duplicate();
        p.push(item.name.clone());
        if item.kind == ObjKind::File {
            if !is_marker(item.name.as_str()) {
                let ghost before = found@;
                found.push(p);
                assert(paths_view(found@) =~= paths_view(before).push(dir@.push(item.name@)));
            }
        } else if item.kind == ObjKind::Dir {
            let marker = marker_for(item.name.as_str());
            if listing_has_file(listing, &marker) {
                let ghost before = found@;
                found.push(p);
                assert(paths_view(found@) =~= paths_view(before).push(dir@.push(item.name@)));
            } else {
                let ghost before = to_visit@;
                to_visit.push(p);
                assert(paths_view(to_visit@) =~= paths_view(before).push(dir@.push(item.name@)));
            }
        }
        i = i + 1;
    }
    (found, to_visit)
}

/// The state of a scan: the entries found so far, relative to the scanned
/// root, and the directories still to list.
pub struct Scanner {
    pub found: Vec<FsPath>,
    pub pending: Vec<FsPath>,
}

impl Scanner {
    /// A scan that starts at the root itself.
    pub fn new() -> (r: Scanner)
        ensures
            paths_view(r.found@) == Seq::<PathV>::empty(),
            paths_view(r.pending@) == seq![Seq::<Seq<char>>::empty()],
    {
        let mut pending: Vec<FsPath> = Vec::new();
        pending.push(FsPath::new());
        let r = Scanner { found: Vec::new(), pending };
        assert(paths_view(r.found@) =~= Seq::<PathV>::empty());
        assert(paths_view(r.pending@) =~= seq![Seq::<Seq<char>>::empty()]);
        r
    }

    /// The next directory to list, taken from the pending ones; `None` when
    /// the scan is done.
    pub fn next_dir(&mut self) -> (r: Option<FsPath>)
        ensures
            final(self).found == old(self).found,
            old(self).pending@.len() == 0 ==> r is None && final(self).pending == old(self).pending,
            old(self).pending@.len() > 0 ==> (r matches Some(d) && d@ == paths_view(
                old(self).pending@,
            ).last() && paths_view(final(self).pending@) == paths_view(old(self).pending@).drop_last()),
    {
        if self.pending.len() == 0 {
            return None;
        }
        let r = self.pending.pop();
        assert(paths_view(self.pending@) =~= paths_view(old(self).pending@).drop_last());
        r
    }

    /// Records the listing of `dir`: its entries are found, its unmarked
    /// directories wait to be listed.
    pub fn visit(&mut self, dir: &FsPath, listing: &Vec<DirItem>)
        ensures
            paths_view(final(self).found@) == paths_view(old(self).found@) + leaves(
                dir@,
                items_view(listing@),
                listing@.len(),
            ),
            paths_view(final(self).pending@) == paths_view(old(self).pending@) + subdirs(
                dir@,
                items_view(listing@),
                listing@.len(),
            ),
    {
        let (mut leaves_found, mut dirs) = classify(dir, listing);
        let ghost a = paths_view(leaves_found@);
        let ghost b = paths_view(dirs@);
        self.found.append(&mut leaves_found);
        self.pending.append(&mut dirs);
        assert(paths_view(self.found@) =~= paths_view(old(self).found@) + a);
        assert(paths_view(self.pending@) =~= paths_view(old(self).pending@) + b);
    }
}

/// The listing of a module directory without its `home` subdirectory, which
/// is scanned on its own.
pub fn without_home(listing: &Vec<DirItem>) -> (r: Vec<DirItem>)
    ensures
        items_view(r@) == items_view(listing@).filter(
            |it: (Seq<char>, ObjKind)| !(it.0 == home_comp() && it.1 == ObjKind::Dir),
        ),
{
    let ghost keep = |it: (Seq<char>, ObjKind)| !(it.0 == home_comp() && it.1 == ObjKind::Dir);
    let home = home_name();
    let mut r: Vec<DirItem> = Vec::new();
    let mut i: usize = 0;
    while i < listing.len()
        invariant
            i <= listing.len(),
            home@ == home_comp(),
            keep == (|it: (Seq<char>, ObjKind)| !(it.0 == home_comp() && it.1 == ObjKind::Dir)),
            items_view(r@) == items_view(listing@).subrange(0, i as int).filter(keep),
        decreases listing.len() - i,
    {
        let ghost s = items_view(listing@);
        proof {
            s.subrange(0, i as int).lemma_filter_push(s[i as int], keep);
            assert(s.subrange(0, i as int).push(s[i as int]) =~= s.subrange(0, i + 1));
        }
        let item = &listing[i];
        assert(s[i as int] == (item.name@, item.kind));
        if !(item.kind == ObjKind::Dir && item.name == home) {
            let ghost before = r@;
            r.push(DirItem { name: item.name.clone(), kind: item.kind });
            assert(items_view(r@) =~= items_view(before).push(s[i as int]));
        }
        i = i + 1;
    }
    assert(items_view(listing@).subrange(0, i as int) =~= items_view(listing@));
    r
}

} // verus!
