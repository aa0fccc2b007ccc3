//! Modules: named groups of managed entries, each with its own repository
//! subtree.
use vstd::prelude::*;

use crate::config::Ctx;
use crate::entry::{
    add_plan, entry_wf, home_comp, home_name, push_step, real_path, remove_plan, repo_path,
    repo_rel, Entry, KeyV, RelativePath,
};
use crate::error::Error;
use crate::ops::{paths_view, plain, steps_view, with_priv, FsOp, ObjKind, OpV, PathV, Step};
use crate::path::{prefix_of, FsPath};

verus! {

/// Why a path has no entry in a module.
#[derive(Clone, Copy, Debug, PartialEq, Eq, Structural)]
pub enum PathResolutionError {
    /// The path lies inside the repository, so it is no real-world location.
    InRepo,
    /// The path lies outside the repository, so it is no repository copy.
    OutsideRepo,
    /// The path lies inside the repository but outside this module.
    OutsideModule,
    /// The path is the home directory or the root itself.
    EmptyKey,
}

/// The key of the real-world path `src`: home-relative below `home`,
/// root-relative elsewhere; none inside the repository.
pub open spec fn key_of_src(home: PathV, repo: PathV, src: PathV) -> Result<KeyV, PathResolutionError> {
    if prefix_of(repo, src) {
        Err(PathResolutionError::InRepo)
    } else if prefix_of(home, src) {
        if src.len() == home.len() {
            Err(PathResolutionError::EmptyKey)
        } else {
            Ok((true, src.subrange(home.len() as int, src.len() as int)))
        }
    } else if src.len() == 0 {
        Err(PathResolutionError::EmptyKey)
    } else {
        Ok((false, src))
    }
}

/// The key of the repository path `dest` in the module at `module_dir`: a
/// first component `home` marks a home-relative key.
pub open spec fn key_of_dest(repo: PathV, module_dir: PathV, dest: PathV) -> Result<
    KeyV,
    PathResolutionError,
> {
    if !prefix_of(repo, dest) {
        Err(PathResolutionError::OutsideRepo)
    } else if !prefix_of(module_dir, dest) {
        Err(PathResolutionError::OutsideModule)
    } else {
        let rel = dest.subrange(module_dir.len() as int, dest.len() as int);
        if rel.len() > 0 && rel[0] == home_comp() {
            if rel.len() == 1 {
                Err(PathResolutionError::EmptyKey)
            } else {
                Ok((true, rel.drop_first()))
            }
        } else if rel.len() == 0 {
            Err(PathResolutionError::EmptyKey)
        } else {
            Ok((false, rel))
        }
    }
}

/// The key that a path names in the module: as a repository copy where it
/// lies inside the repository, else as a real-world path.
pub open spec fn key_of_path(home: PathV, repo: PathV, module_dir: PathV, p: PathV) -> Result<
    KeyV,
    PathResolutionError,
> {
    match key_of_dest(repo, module_dir, p) {
        Err(PathResolutionError::OutsideRepo) => key_of_src(home, repo, p),
        r => r,
    }
}

/// The directories that are pruned after an entry at `rel` below
/// `module_dir` is removed: its ancestors below `module_dir`, deepest first.
pub open spec fn prune_dirs(module_dir: PathV, rel: PathV) -> Seq<PathV> {
    if rel.len() == 0 {
        Seq::empty()
    } else {
        Seq::new((rel.len() - 1) as nat, |i: int| module_dir + rel.subrange(0, rel.len() - 1 - i))
    }
}

/// The steps that remove the unlinked entries in order: one for each entry
/// among the first `n` whose `src` is a link to its repository copy.
pub open spec fn unlink_steps(srcs: Seq<PathV>, obs: Seq<(bool, bool)>, n: nat) -> Seq<(OpV, bool)>
    decreases n,
{
    if n == 0 {
        Seq::empty()
    } else {
        let prev = unlink_steps(srcs, obs, (n - 1) as nat);
        if obs[n - 1].0 {
            prev.push(with_priv(OpV::RemoveFile(srcs[n - 1]), obs[n - 1].1))
        } else {
            prev
        }
    }
}

/// The real-world paths of the keys, given the home directory.
pub open spec fn srcs_of(keys: Seq<KeyV>, home: PathV) -> Seq<PathV> {
    keys.map_values(|k: KeyV| real_path(home, k))
}

/// `e` is the entry of key `k` in the module at `module_dir`.
pub open spec fn is_entry_of(e: &Entry, home: PathV, module_dir: PathV, k: KeyV) -> bool {
    e.relative@ == k && entry_wf(e, home, module_dir)
}

/// What a request to add a path to a module came to.
#[derive(Clone, Debug, PartialEq, Eq)]
pub enum AddOutcome {
    /// The path lies inside the repository; nothing is done.
    InRepo,
    /// The module already manages the path; nothing is done.
    AlreadyManaged,
    /// The path is managed from now on, once these steps have run.
    Added(Vec<Step>),
}

/// A named group of managed entries. The key sets are an index of the
/// module's repository subtree, rebuilt from a scan at each run.
#[derive(Clone, Debug, PartialEq, Eq)]
pub struct Module {
    pub name: String,
    pub module_dir: FsPath,
    pub home_entries: Vec<FsPath>,
    pub non_home_entries: Vec<FsPath>,
}

/// Whether `v` holds a path with the components of `p`.
pub fn index_contains(v: &Vec<FsPath>, p: &FsPath) -> (r: bool)
    ensures
        r == paths_view(v@).contains(p@),
{
    let mut i: usize = 0;
    while i < v.len()
        invariant
            i <= v.len(),
            forall|j: int| 0 <= j < i ==> v@[j]@ != p@,
        decreases v.len() - i,
    {
        if v[i].same(p) {
            assert(paths_view(v@)[i as int] == p@);
            return true;
        }
        i = i + 1;
    }
    assert forall|j: int| 0 <= j < paths_view(v@).len() implies paths_view(v@)[j] != p@ by {
        assert(paths_view(v@)[j] == v@[j]@);
    }
    false
}

/// Adds `p` to `v` unless a path with its components is there.
pub fn index_insert(v: &mut Vec<FsPath>, p: FsPath)
    requires
        paths_view(old(v)@).no_duplicates(),
    ensures
        paths_view(final(v)@).no_duplicates(),
        paths_view(final(v)@).to_set() == paths_view(old(v)@).to_set().insert(p@),
{
    if index_contains(v, &p) {
        assert(paths_view(v@).to_set() =~= paths_view(v@).to_set().insert(p@));
        return;
    }
    let ghost pv = p@;
    v.push(p);
    assert(paths_view(v@) =~= paths_view(old(v)@).push(pv));
    assert(paths_view(v@).to_set() =~= paths_view(old(v)@).to_set().insert(pv)) by {
        assert forall|x: PathV| paths_view(v@).to_set().contains(x) <==> paths_view(
            old(v)@,
        ).to_set().insert(pv).contains(x) by {
            if x == pv {
                assert(paths_view(v@)[old(v)@.len() as int] == pv);
            }
            if paths_view(old(v)@).contains(x) {
                let j = choose|j: int| 0 <= j < paths_view(old(v)@).len() && paths_view(old(v)@)[j] == x;
                assert(paths_view(v@)[j] == x);
            }
        }
    }
}

/// Removes from `v` the path with the components of `p`, if there is one.
pub fn index_remove(v: &mut Vec<FsPath>, p: &FsPath)
    requires
        paths_view(old(v)@).no_duplicates(),
    ensures
        paths_view(final(v)@).no_duplicates(),
        paths_view(final(v)@).to_set() == paths_view(old(v)@).to_set().remove(p@),
{
    let mut i: usize = 0;
    while i < v.len()
        invariant
            i <= v.len(),
            v@ == old(v)@,
            paths_view(old(v)@).no_duplicates(),
            forall|j: int| 0 <= j < i ==> v@[j]@ != p@,
        decreases v.len() - i,
    {
        if v[i].same(p) {
            let ghost before = paths_view(v@);
            assert(before[i as int] == p@);
            v.remove(i);
            assert(paths_view(v@) =~= before.remove(i as int));
            assert(paths_view(v@).to_set() =~= before.to_set().remove(p@)) by {
                assert forall|x: PathV| paths_view(v@).to_set().contains(x) <==> before.to_set().remove(
                    p@,
                ).contains(x) by {
                    if before.contains(x) && x != p@ {
                        let j = choose|j: int| 0 <= j < before.len() && before[j] == x;
                        if j < i {
                            assert(paths_view(v@)[j] == x);
                        } else {
                            assert(paths_view(v@)[j - 1] == x);
                        }
                    }
                    if paths_view(v@).contains(x) {
                        let j = choose|j: int| 0 <= j < paths_view(v@).len() && paths_view(v@)[j] == x;
                        if j < i {
                            assert(before[j] == x);
                        } else {
                            assert(before[j + 1] == x);
                        }
                        assert(before[i as int] == p@);
                    }
                }
            }
            assert(paths_view(v@).no_duplicates()) by {
                assert forall|a: int, b: int|
                    0 <= a < paths_view(v@).len() && 0 <= b < paths_view(v@).len() && a != b implies paths_view(
                    v@,
                )[a] != paths_view(v@)[b] by {
                    let a2 = if a < i { a } else { a + 1 };
                    let b2 = if b < i { b } else { b + 1 };
                    assert(paths_view(v@)[a] == before[a2]);
                    assert(paths_view(v@)[b] == before[b2]);
                }
            }
            return;
        }
        i = i + 1;
    }
    assert(!paths_view(v@).contains(p@)) by {
        if paths_view(v@).contains(p@) {
            let j = choose|j: int| 0 <= j < paths_view(v@).len() && paths_view(v@)[j] == p@;
            assert(v@[j]@ == p@);
        }
    }
    assert(paths_view(v@).to_set() =~= paths_view(old(v)@).to_set().remove(p@));
}

/// The paths of `v`, each held once.
pub fn build_index(v: &Vec<FsPath>) -> (r: Vec<FsPath>)
    ensures
        paths_view(r@).no_duplicates(),
        paths_view(r@).to_set() == paths_view(v@).to_set(),
{
    let mut r: Vec<FsPath> = Vec::new();
    let mut i: usize = 0;
    while i < v.len()
        invariant
            i <= v.len(),
            paths_view(r@).no_duplicates(),
            paths_view(r@).to_set() == paths_view(v@).subrange(0, i as int).to_set(),
        decreases v.len() - i,
    {
        index_insert(&mut r, v[i].duplicate());
        proof {
            let s = paths_view(v@);
            assert(s.subrange(0, i + 1) =~= s.subrange(0, i as int).push(s[i as int]));
            s.subrange(0, i as int).lemma_push_to_set_commute(s[i as int]);
        }
        i = i + 1;
    }
    assert(paths_view(v@).subrange(0, i as int) =~= paths_view(v@));
    r
}

impl Module {
    /// The home-relative keys.
    pub open spec fn home_set(&self) -> Set<PathV> {
        paths_view(self.home_entries@).to_set()
    }

    /// The root-relative keys.
    pub open spec fn non_home_set(&self) -> Set<PathV> {
        paths_view(self.non_home_entries@).to_set()
    }

    /// Whether the module manages the key `k`.
    pub open spec fn claims(&self, k: KeyV) -> bool {
        if k.0 {
            self.home_set().contains(k.1)
        } else {
            self.non_home_set().contains(k.1)
        }
    }

    /// The index holds each key once.
    pub open spec fn wf(&self) -> bool {
        &&& paths_view(self.home_entries@).no_duplicates()
        &&& paths_view(self.non_home_entries@).no_duplicates()
    }

    /// All keys in index order: the home-relative ones first.
    pub open spec fn keys(&self) -> Seq<KeyV> {
        paths_view(self.home_entries@).map_values(|p: PathV| (true, p)) + paths_view(
            self.non_home_entries@,
        ).map_values(|p: PathV| (false, p))
    }

    /// A module named `name` at `module_dir` that manages the given keys; a
    /// key listed twice is held once.
    pub fn new(name: String, module_dir: FsPath, home_entries: Vec<FsPath>, non_home_entries: Vec<
        FsPath,
    >) -> (r: Module)
        ensures
            r.wf(),
            r.name@ == name@,
            r.module_dir@ == module_dir@,
            r.home_set() == paths_view(home_entries@).to_set(),
            r.non_home_set() == paths_view(non_home_entries@).to_set(),
    {
        let home = build_index(&home_entries);
        let other = build_index(&non_home_entries);
        Module { name, module_dir, home_entries: home, non_home_entries: other }
    }

    /// Whether an ancestor of the key's path (below its mount point) is
    /// itself a key of the module: a directory managed as a whole.
    pub open spec fn under_managed_dir(&self, k: KeyV) -> bool {
        exists|j: int| 0 < j < k.1.len() && #[trigger] self.claims((k.0, k.1.subrange(0, j)))
    }

    /// Whether the module manages the entry's key.
    pub fn contains(&self, e: &Entry) -> (r: bool)
        ensures
            r == self.claims(e.relative@),
    {
        match &e.relative {
            RelativePath::Home(p) => index_contains(&self.home_entries, p),
            RelativePath::NonHome(p) => index_contains(&self.non_home_entries, p),
        }
    }

    /// Whether the module manages the key.
    pub fn contains_key(&self, k: &RelativePath) -> (r: bool)
        ensures
            r == self.claims(k@),
    {
        match k {
            RelativePath::Home(p) => index_contains(&self.home_entries, p),
            RelativePath::NonHome(p) => index_contains(&self.non_home_entries, p),
        }
    }

    /// The entry of a key in this module.
    pub fn entry_from_relative(&self, rel: &RelativePath, ctx: &Ctx) -> (r: Entry)
        ensures
            r.relative@ == rel@,
            r.src@ == real_path(ctx.canon_home_dir@, rel@),
            r.dest@ == repo_path(self.module_dir@, rel@),
    {
        let dest = self.module_dir.join(&rel.duplicate().relative());
        match rel {
            RelativePath::Home(p) => Entry {
                src: ctx.canon_home_dir.join(p),
                relative: rel.duplicate(),
                dest,
            },
            RelativePath::NonHome(p) => Entry { src: p.duplicate(), relative: rel.duplicate(), dest },
        }
    }

    /// The entry of a real-world path: home-relative below the home
    /// directory, root-relative elsewhere. A path inside the repository, the
    /// home directory itself and the root have none.
    pub fn entry_from_src(&self, src: &FsPath, ctx: &Ctx) -> (r: Result<Entry, PathResolutionError>)
        ensures
            match key_of_src(ctx.canon_home_dir@, ctx.canon_repo@, src@) {
                Ok(k) => (r matches Ok(e) && is_entry_of(&e, ctx.canon_home_dir@, self.module_dir@, k)
                    && e.src@ == src@),
                Err(err) => r == Err::<Entry, PathResolutionError>(err),
            },
    {
        if src.starts_with(&ctx.canon_repo) {
            return Err(PathResolutionError::InRepo);
        }
        let rel = if src.starts_with(&ctx.canon_home_dir) {
            let n = ctx.canon_home_dir.len();
            if src.len() == n {
                return Err(PathResolutionError::EmptyKey);
            }
            let k = src.skip(n);
            assert(ctx.canon_home_dir@ + k@ =~= src@);
            RelativePath::Home(k)
        } else {
            if src.len() == 0 {
                return Err(PathResolutionError::EmptyKey);
            }
            RelativePath::NonHome(src.duplicate())
        };
        let dest = self.module_dir.join(&rel.duplicate().relative());
        Ok(Entry { src: src.duplicate(), relative: rel, dest })
    }

    /// The entry of a repository path of this module: a first component
    /// `home` marks a home-relative key. A path outside the repository or
    /// outside this module has none.
    pub fn entry_from_dest(&self, dest: &FsPath, ctx: &Ctx) -> (r: Result<Entry, PathResolutionError>)
        ensures
            match key_of_dest(ctx.canon_repo@, self.module_dir@, dest@) {
                Ok(k) => (r matches Ok(e) && is_entry_of(&e, ctx.canon_home_dir@, self.module_dir@, k)
                    && e.dest@ == dest@),
                Err(err) => r == Err::<Entry, PathResolutionError>(err),
            },
    {
        if !dest.starts_with(&ctx.canon_repo) {
            return Err(PathResolutionError::OutsideRepo);
        }
        if !dest.starts_with(&self.module_dir) {
            return Err(PathResolutionError::OutsideModule);
        }
        let n = self.module_dir.len();
        let rel = dest.skip(n);
        assert(self.module_dir@ + rel@ =~= dest@);
        assert(rel@.len() == rel.comps@.len());
        let home = home_name();
        if rel.comps.len() > 0 && rel.comps[0] == home {
            assert(rel@[0] == home_comp());
            if rel.comps.len() == 1 {
                return Err(PathResolutionError::EmptyKey);
            }
            let k = rel.skip(1);
            assert(k@ =~= rel@.drop_first());
            assert(seq![home_comp()] + k@ =~= rel@);
            let src = ctx.canon_home_dir.join(&k);
            Ok(Entry { src, relative: RelativePath::Home(k), dest: dest.duplicate() })
        } else {
            if rel.comps.len() == 0 {
                return Err(PathResolutionError::EmptyKey);
            }
            assert(!(rel@.len() > 0 && rel@[0] == home_comp()));
            Ok(Entry { src: rel.duplicate(), relative: RelativePath::NonHome(rel), dest: dest.duplicate() })
        }
    }

    /// The entry that a path names in this module: read as a repository copy
    /// where it lies inside the repository, else as a real-world path.
    pub fn entry(&self, path: &FsPath, ctx: &Ctx) -> (r: Result<Entry, PathResolutionError>)
        ensures
            match key_of_path(ctx.canon_home_dir@, ctx.canon_repo@, self.module_dir@, path@) {
                Ok(k) => (r matches Ok(e) && is_entry_of(&e, ctx.canon_home_dir@, self.module_dir@, k)),
                Err(err) => r == Err::<Entry, PathResolutionError>(err),
            },
    {
        match self.entry_from_dest(path, ctx) {
            Err(PathResolutionError::OutsideRepo) => self.entry_from_src(path, ctx),
            r => r,
        }
    }

    /// The entries of all keys, in index order.
    pub fn entries(&self, ctx: &Ctx) -> (r: Vec<Entry>)
        ensures
            r@.len() == self.keys().len(),
            forall|i: int|
                0 <= i < r@.len() ==> (#[trigger] r@[i]).relative@ == self.keys()[i] && r@[i].src@
                    == real_path(ctx.canon_home_dir@, self.keys()[i]) && r@[i].dest@ == repo_path(
                    self.module_dir@,
                    self.keys()[i],
                ),
    {
        let ghost keys = self.keys();
        let nh = self.home_entries.len();
        let mut r: Vec<Entry> = Vec::new();
        let mut i: usize = 0;
        while i < nh
            invariant
                nh == self.home_entries.len(),
                i <= nh,
                keys == self.keys(),
                r@.len() == i,
                forall|j: int|
                    0 <= j < i ==> (#[trigger] r@[j]).relative@ == keys[j] && r@[j].src@ == real_path(
                        ctx.canon_home_dir@,
                        keys[j],
                    ) && r@[j].dest@ == repo_path(self.module_dir@, keys[j]),
            decreases nh - i,
        {
            let k = RelativePath::Home(self.home_entries[i].duplicate());
            assert(keys[i as int] == k@);
            r.push(self.entry_from_relative(&k, ctx));
            i = i + 1;
        }
        let no = self.non_home_entries.len();
        let mut i: usize = 0;
        while i < no
            invariant
                nh == self.home_entries.len(),
                no == self.non_home_entries.len(),
                i <= no,
                keys == self.keys(),
                r@.len() == nh + i,
                forall|j: int|
                    0 <= j < nh + i ==> (#[trigger] r@[j]).relative@ == keys[j] && r@[j].src@
                        == real_path(ctx.canon_home_dir@, keys[j]) && r@[j].dest@ == repo_path(
                        self.module_dir@,
                        keys[j],
                    ),
            decreases no - i,
        {
            let k = RelativePath::NonHome(self.non_home_entries[i].duplicate());
            assert(keys[nh + i] == k@);
            r.push(self.entry_from_relative(&k, ctx));
            i = i + 1;
        }
        assert(keys.len() == nh + no);
        r
    }

    /// The steps that remove the links of all entries, given for each entry
    /// (in the order of [`Module::entries`]) whether its `src` is a link to
    /// its repository copy and whether removing it needs privilege. An entry
    /// whose `src` is something else is passed over where `ignore_non_links`
    /// holds, and refused otherwise, before any step.
    pub fn unlink_all(&self, ignore_non_links: bool, ctx: &Ctx, obs: &Vec<(bool, bool)>) -> (r: Result<
        Vec<Step>,
        Error,
    >)
        requires
            obs@.len() == self.keys().len(),
        ensures
            ({
                let srcs = srcs_of(self.keys(), ctx.canon_home_dir@);
                if !ignore_non_links && exists|i: int| 0 <= i < obs@.len() && !(#[trigger] obs@[i]).0 {
                    r matches Err(Error::Conflict(p)) && exists|i: int|
                        0 <= i < obs@.len() && !(#[trigger] obs@[i]).0 && p@ == srcs[i] && forall|
                            j: int,
                        | 0 <= j < i ==> (#[trigger] obs@[j]).0
                } else {
                    r matches Ok(v) && steps_view(v@) == unlink_steps(srcs, obs@, obs@.len())
                }
            }),
    {
        let entries = self.entries(ctx);
        let ghost srcs = srcs_of(self.keys(), ctx.canon_home_dir@);
        let n = entries.len();
        let mut v: Vec<Step> = Vec::new();
        let mut i: usize = 0;
        while i < n
            invariant
                n == entries@.len(),
                n == obs@.len(),
                srcs == srcs_of(self.keys(), ctx.canon_home_dir@),
                srcs.len() == n,
                forall|j: int| 0 <= j < n ==> (#[trigger] entries@[j]).src@ == srcs[j],
                i <= n,
                !ignore_non_links ==> forall|j: int| 0 <= j < i ==> (#[trigger] obs@[j]).0,
                steps_view(v@) == unlink_steps(srcs, obs@, i as nat),
            decreases n - i,
        {
            let (linked, privd) = obs[i];
            if linked {
                push_step(&mut v, FsOp::RemoveFile(entries[i].src.duplicate()), privd);
            } else if !ignore_non_links {
                return Err(Error::Conflict(entries[i].src.duplicate()));
            }
            i = i + 1;
        }
        Ok(v)
    }

    /// Adds the real-world path `path` to the module, given the kind of the
    /// object there, whether it and the repository copy's directory share a
    /// device, and whether privilege is needed. A path inside the repository
    /// and one already managed are left alone; one inside a directory the
    /// module manages as a whole is refused.
    pub fn add(&mut self, path: &FsPath, ctx: &Ctx, kind: ObjKind, same_dev: bool, needs_priv: bool) -> (r:
        Result<AddOutcome, Error>)
        requires
            old(self).wf(),
        ensures
            final(self).wf(),
            final(self).name == old(self).name,
            final(self).module_dir == old(self).module_dir,
            match key_of_src(ctx.canon_home_dir@, ctx.canon_repo@, path@) {
                Err(PathResolutionError::InRepo) => (r matches Ok(AddOutcome::InRepo)) && *final(self)
                    == *old(self),
                Err(e) => r == Err::<AddOutcome, Error>(Error::PathResolution(e)) && *final(self)
                    == *old(self),
                Ok(k) => if old(self).under_managed_dir(k) {
                    (r matches Err(Error::InsideManagedDir(p)) && p@ == path@) && *final(self) == *old(self)
                } else if old(self).claims(k) {
                    (r matches Ok(AddOutcome::AlreadyManaged)) && *final(self) == *old(self)
                } else if kind == ObjKind::Other {
                    (r matches Err(Error::UnsupportedObjectType(p)) && p@ == path@) && *final(self)
                        == *old(self)
                } else {
                    &&& r matches Ok(AddOutcome::Added(v)) && steps_view(v@) == add_plan(
                        path@,
                        repo_path(old(self).module_dir@, k),
                        kind,
                        same_dev,
                        needs_priv,
                    )
                    &&& forall|k2: KeyV| #[trigger] final(self).claims(k2) == (old(self).claims(k2) || k2 == k)
                },
            },
    {
        let e = match self.entry_from_src(path, ctx) {
            Ok(e) => e,
            Err(PathResolutionError::InRepo) => return Ok(AddOutcome::InRepo),
            Err(err) => return Err(Error::PathResolution(err)),
        };
        let ghost k = e.relative@;
        let kp = e.relative.path();
        let n = kp.len();
        let mut j: usize = 1;
        while j < n
            invariant
                n == k.1.len(),
                kp@ == k.1,
                k == e.relative@,
                key_of_src(ctx.canon_home_dir@, ctx.canon_repo@, path@) == Ok::<KeyV, PathResolutionError>(k),
                self.wf(),
                *self == *old(self),
                1 <= j,
                forall|m: int| 0 < m < j && m < n ==> !self.claims((k.0, #[trigger] k.1.subrange(0, m))),
            decreases n - j,
        {
            let anc = kp.take(j);
            let found = if e.relative.is_home() {
                index_contains(&self.home_entries, &anc)
            } else {
                index_contains(&self.non_home_entries, &anc)
            };
            if found {
                assert(self.claims((k.0, k.1.subrange(0, j as int))));
                return Err(Error::InsideManagedDir(path.duplicate()));
            }
            j = j + 1;
        }
        if self.contains(&e) {
            return Ok(AddOutcome::AlreadyManaged);
        }
        assert(e.dest@.len() > 0);
        let steps = match e.add(kind, same_dev, needs_priv) {
            Ok(v) => v,
            Err(err) => return Err(err),
        };
        let ghost before = *self;
        match e.relative {
            RelativePath::Home(p) => index_insert(&mut self.home_entries, p),
            RelativePath::NonHome(p) => index_insert(&mut self.non_home_entries, p),
        }
        assert forall|k2: KeyV| #[trigger] self.claims(k2) == (before.claims(k2) || k2 == k) by {}
        Ok(AddOutcome::Added(steps))
    }

    /// The directories to prune after the entry at `rel` (below the module
    /// directory) is removed.
    pub fn prune_list(&self, rel: &FsPath) -> (r: Vec<FsPath>)
        ensures
            paths_view(r@) == prune_dirs(self.module_dir@, rel@),
    {
        let n = rel.len();
        let mut r: Vec<FsPath> = Vec::new();
        if n == 0 {
            assert(paths_view(r@) =~= prune_dirs(self.module_dir@, rel@));
            return r;
        }
        let mut j: usize = n - 1;
        while j > 0
            invariant
                n == rel@.len(),
                n > 0,
                j < n,
                r@.len() == n - 1 - j,
                forall|i: int| 0 <= i < r@.len() ==> (#[trigger] r@[i])@ == self.module_dir@ + rel@.subrange(0, n - 1 - i),
            decreases j,
        {
            r.push(self.module_dir.join(&rel.take(j)));
            j = j - 1;
        }
        assert(paths_view(r@) =~= prune_dirs(self.module_dir@, rel@));
        r
    }

    /// Removes from the module the entry that `path` names (a real-world path
    /// or a repository copy), given the kind of the repository copy, whether
    /// it and `src` share a device, and whether privilege is needed. Returns
    /// the entry and the steps: restore the object, then prune the emptied
    /// directories above the repository copy.
    pub fn remove(&mut self, path: &FsPath, ctx: &Ctx, kind: ObjKind, same_dev: bool, needs_priv: bool) -> (r:
        Result<(Entry, Vec<Step>), Error>)
        requires
            old(self).wf(),
        ensures
            final(self).wf(),
            final(self).name == old(self).name,
            final(self).module_dir == old(self).module_dir,
            match key_of_path(ctx.canon_home_dir@, ctx.canon_repo@, old(self).module_dir@, path@) {
                Err(e) => r == Err::<(Entry, Vec<Step>), Error>(Error::PathResolution(e)) && *final(self) == *old(self),
                Ok(k) => if !old(self).claims(k) {
                    (r matches Err(Error::NotManaged(p)) && p@ == real_path(ctx.canon_home_dir@, k))
                        && *final(self) == *old(self)
                } else if kind == ObjKind::Other {
                    (r matches Err(Error::UnsupportedObjectType(p)) && p@ == real_path(
                        ctx.canon_home_dir@,
                        k,
                    )) && *final(self) == *old(self)
                } else {
                    &&& r matches Ok((e, v)) && is_entry_of(
                        &e,
                        ctx.canon_home_dir@,
                        old(self).module_dir@,
                        k,
                    ) && steps_view(v@) == remove_plan(
                        e.src@,
                        e.dest@,
                        kind,
                        same_dev,
                        needs_priv,
                    ).push(plain(OpV::PruneEmptyDirs(prune_dirs(old(self).module_dir@, repo_rel(k)))))
                    &&& forall|k2: KeyV| #[trigger] final(self).claims(k2) == (old(self).claims(k2) && k2 != k)
                },
            },
    {
        let e = match self.entry(path, ctx) {
            Ok(e) => e,
            Err(err) => return Err(Error::PathResolution(err)),
        };
        let ghost k = e.relative@;
        if !self.contains(&e) {
            return Err(Error::NotManaged(e.src.duplicate()));
        }
        let mut steps = match e.remove(kind, same_dev, needs_priv) {
            Ok(v) => v,
            Err(err) => return Err(err),
        };
        let prune = self.prune_list(&e.relative.duplicate().relative());
        push_step(&mut steps, FsOp::PruneEmptyDirs(prune), false);
        let ghost before = *self;
        match &e.relative {
            RelativePath::Home(p) => index_remove(&mut self.home_entries, p),
            RelativePath::NonHome(p) => index_remove(&mut self.non_home_entries, p),
        }
        assert forall|k2: KeyV| #[trigger] self.claims(k2) == (before.claims(k2) && k2 != k) by {}
        Ok((e, steps))
    }

    /// The keys the module manages are the keys of its index order.
    pub proof fn lemma_claims_keys(&self, k: KeyV)
        ensures
            self.claims(k) <==> self.keys().contains(k),
    {
        let h = paths_view(self.home_entries@);
        let o = paths_view(self.non_home_entries@);
        let hk = h.map_values(|p: PathV| (true, p));
        let ok = o.map_values(|p: PathV| (false, p));
        assert(self.keys() == hk + ok);
        if self.claims(k) {
            if k.0 {
                let t = choose|t: int| 0 <= t < h.len() && h[t] == k.1;
                assert(self.keys()[t] == k);
            } else {
                let t = choose|t: int| 0 <= t < o.len() && o[t] == k.1;
                assert(self.keys()[hk.len() + t] == k);
            }
        }
        if self.keys().contains(k) {
            let t = choose|t: int| 0 <= t < self.keys().len() && self.keys()[t] == k;
            if t < hk.len() {
                assert(hk[t] == k);
                assert(h.contains(k.1));
            } else {
                assert(ok[t - hk.len()] == k);
                assert(o.contains(k.1));
            }
        }
    }
}

} // verus!
