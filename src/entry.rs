//! Managed entries: their keys, their locations, and the steps that move them
//! into and out of the repository.
use vstd::prelude::*;

use crate::error::Error;
use crate::ops::{plain, steps_view, with_priv, FsOp, ObjKind, OpV, PathV, Step};
use crate::path::FsPath;

verus! {

/// The name of the repository subdirectory that holds home-relative entries.
pub open spec fn home_comp() -> Seq<char> {
    seq!['h', 'o', 'm', 'e']
}

/// The suffix of a marker file's name.
pub open spec fn stub_suffix() -> Seq<char> {
    seq!['.', 'c', 'o', 'n', 'f', 'i', 'g', 'm', 'a', '.', 's', 't', 'u', 'b']
}

/// The name of the marker file that stands beside a directory named `name`
/// and marks it as managed as a whole.
pub open spec fn marker_name(name: Seq<char>) -> Seq<char> {
    seq!['.'] + name + stub_suffix()
}

/// The marker path of the managed directory at `dir`.
pub open spec fn stub_of(dir: PathV) -> PathV {
    dir.drop_last().push(marker_name(dir.last()))
}

/// The string `home`.
pub fn home_name() -> (r: String)
    ensures
        r@ == home_comp(),
{
    proof {
        reveal_strlit("home");
    }
    String::from_str("home")
}

/// The marker file name for a directory named `name`.
pub fn marker_for(name: &str) -> (r: String)
    ensures
        r@ == marker_name(name@),
{
    proof {
        reveal_strlit(".");
        reveal_strlit(".configma.stub");
    }
    let mut s = String::from_str(".");
    s.append(name);
    s.append(".configma.stub");
    s
}

/// The marker path of the managed directory at `dir`.
pub fn stub_path(dir: &FsPath) -> (r: FsPath)
    requires
        dir@.len() > 0,
    ensures
        r@ == stub_of(dir@),
{
    let mut r = dir.parent();
    r.push(marker_for(dir.last().as_str()));
    r
}

/// Where a managed path lives: below the home directory or below the root.
#[derive(Clone, Debug, PartialEq, Eq)]
pub enum RelativePath {
    Home(FsPath),
    NonHome(FsPath),
}

/// The view of a key: whether it is home-relative, and its path.
pub type KeyV = (bool, PathV);

impl View for RelativePath {
    type V = KeyV;

    open spec fn view(&self) -> KeyV {
        match self {
            RelativePath::Home(p) => (true, p@),
            RelativePath::NonHome(p) => (false, p@),
        }
    }
}

/// The path of a key below its module directory.
pub open spec fn repo_rel(k: KeyV) -> PathV {
    if k.0 {
        seq![home_comp()] + k.1
    } else {
        k.1
    }
}

/// The real-world path of a key, given the home directory.
pub open spec fn real_path(home: PathV, k: KeyV) -> PathV {
    if k.0 {
        home + k.1
    } else {
        k.1
    }
}

/// The repository path of a key in the module at `module_dir`.
pub open spec fn repo_path(module_dir: PathV, k: KeyV) -> PathV {
    module_dir + repo_rel(k)
}

impl RelativePath {
    /// The key's path below its module directory: under `home` for a
    /// home-relative key.
    pub fn relative(self) -> (r: FsPath)
        ensures
            r@ == repo_rel(self@),
    {
        match self {
            RelativePath::Home(p) => {
                let h = FsPath::single(home_name().as_str());
                h.join(&p)
            },
            RelativePath::NonHome(p) => p,
        }
    }

    /// The key's path below its mount point.
    pub fn path(&self) -> (r: &FsPath)
        ensures
            r@ == self@.1,
    {
        match self {
            RelativePath::Home(p) => p,
            RelativePath::NonHome(p) => p,
        }
    }

    /// Whether the key is home-relative.
    pub fn is_home(&self) -> (r: bool)
        ensures
            r == self@.0,
    {
        match self {
            RelativePath::Home(_) => true,
            RelativePath::NonHome(_) => false,
        }
    }

    /// A copy of the key.
    pub fn duplicate(&self) -> (r: RelativePath)
        ensures
            r@ == self@,
    {
        match self {
            RelativePath::Home(p) => RelativePath::Home(p.duplicate()),
            RelativePath::NonHome(p) => RelativePath::NonHome(p.duplicate()),
        }
    }
}

/// One managed object: where it stands in the world, its key, and where its
/// repository copy stands.
#[derive(Clone, Debug, PartialEq, Eq)]
pub struct Entry {
    pub src: FsPath,
    pub relative: RelativePath,
    pub dest: FsPath,
}

/// `e` is the entry of its key in the module at `module_dir`.
pub open spec fn entry_wf(e: &Entry, home: PathV, module_dir: PathV) -> bool {
    &&& e.relative@.1.len() > 0
    &&& e.src@ == real_path(home, e.relative@)
    &&& e.dest@ == repo_path(module_dir, e.relative@)
}

/// How an object is moved from `from` to `to`: a rename where both stand on
/// one device and no privilege is needed, else a copy and a removal.
pub open spec fn relocate(from: PathV, to: PathV, kind: ObjKind, same_dev: bool, privd: bool) -> Seq<
    (OpV, bool),
> {
    if kind == ObjKind::Symlink {
        seq![plain(OpV::CopyLink(from, to)), with_priv(OpV::RemoveFile(from), privd)]
    } else if same_dev && !privd {
        seq![plain(OpV::Rename(from, to))]
    } else if kind == ObjKind::File {
        seq![plain(OpV::CopyFile(from, to)), with_priv(OpV::RemoveFile(from), privd)]
    } else {
        seq![plain(OpV::CopyDir(from, to)), with_priv(OpV::RemoveDirAll(from), privd)]
    }
}

/// The steps that move the object at `src` into the repository at `dest` and
/// leave a link in its place.
pub open spec fn add_plan(src: PathV, dest: PathV, kind: ObjKind, same_dev: bool, privd: bool) -> Seq<
    (OpV, bool),
> {
    seq![plain(OpV::CreateDirAll(dest.drop_last()))] + relocate(src, dest, kind, same_dev, privd)
        + (if kind == ObjKind::Dir {
        seq![plain(OpV::CreateStub(stub_of(dest)))]
    } else {
        Seq::empty()
    }) + seq![with_priv(OpV::Symlink(dest, src), privd)]
}

/// The steps that move the object at `src` aside to `dump_to` and link `src`
/// to `dest`.
pub open spec fn dump_plan(
    src: PathV,
    dump_to: PathV,
    dest: PathV,
    kind: ObjKind,
    same_dev: bool,
    privd: bool,
) -> Seq<(OpV, bool)> {
    seq![plain(OpV::CreateDirAll(dump_to.drop_last()))] + relocate(
        src,
        dump_to,
        kind,
        same_dev,
        privd,
    ) + seq![with_priv(OpV::Symlink(dest, src), privd)]
}

/// How the repository copy at `dest` is brought back to `src`.
pub open spec fn restore(dest: PathV, src: PathV, kind: ObjKind, same_dev: bool, privd: bool) -> Seq<
    (OpV, bool),
> {
    if same_dev && !privd {
        seq![plain(OpV::Rename(dest, src))]
    } else if kind == ObjKind::Dir {
        seq![with_priv(OpV::CopyDir(dest, src), privd), plain(OpV::RemoveDirAll(dest))]
    } else if kind == ObjKind::File {
        seq![with_priv(OpV::CopyFile(dest, src), privd), plain(OpV::RemoveFile(dest))]
    } else {
        seq![with_priv(OpV::CopyLink(dest, src), privd), plain(OpV::RemoveFile(dest))]
    }
}

/// The steps that remove the link at `src` and bring the repository copy back.
pub open spec fn remove_plan(src: PathV, dest: PathV, kind: ObjKind, same_dev: bool, privd: bool) -> Seq<
    (OpV, bool),
> {
    seq![with_priv(OpV::RemoveFile(src), privd)] + (if kind == ObjKind::Dir {
        seq![plain(OpV::RemoveFile(stub_of(dest)))]
    } else {
        Seq::empty()
    }) + restore(dest, src, kind, same_dev, privd)
}

/// Appends one step to a plan.
pub fn push_step(v: &mut Vec<Step>, op: FsOp, privileged: bool)
    ensures
        steps_view(final(v)@) == steps_view(old(v)@).push((op@, privileged)),
{
    let ghost opv = op@;
    v.push(Step { op, privileged });
    assert(steps_view(v@) =~= steps_view(old(v)@).push((opv, privileged)));
}

/// Appends the steps that move an object from `from` to `to`.
fn push_relocate(
    v: &mut Vec<Step>,
    from: &FsPath,
    to: &FsPath,
    kind: ObjKind,
    same_dev: bool,
    privd: bool,
)
    requires
        kind != ObjKind::Other,
    ensures
        steps_view(final(v)@) == steps_view(old(v)@) + relocate(from@, to@, kind, same_dev, privd),
{
    if kind == ObjKind::Symlink {
        push_step(v, FsOp::CopyLink { from: from.duplicate(), to: to.duplicate() }, false);
        push_step(v, FsOp::RemoveFile(from.duplicate()), privd);
    } else if same_dev && !privd {
        push_step(v, FsOp::Rename { from: from.duplicate(), to: to.duplicate() }, false);
    } else if kind == ObjKind::File {
        push_step(v, FsOp::CopyFile { from: from.duplicate(), to: to.duplicate() }, false);
        push_step(v, FsOp::RemoveFile(from.duplicate()), privd);
    } else {
        push_step(v, FsOp::CopyDir { from: from.duplicate(), to: to.duplicate() }, false);
        push_step(v, FsOp::RemoveDirAll(from.duplicate()), privd);
    }
    assert(steps_view(v@) =~= steps_view(old(v)@) + relocate(from@, to@, kind, same_dev, privd));
}

impl Entry {
    /// Whether operations on this entry need elevated credentials, given the
    /// owner of the nearest existing proper ancestor of `src` (`None` where no
    /// ancestor exists). Home-relative entries never do; others do where that
    /// owner is root.
    pub fn needs_priv(&self, ancestor_owner: Option<u32>) -> (r: Result<bool, Error>)
        ensures
            self.relative@.0 ==> r == Ok::<bool, Error>(false),
            !self.relative@.0 ==> match ancestor_owner {
                Some(uid) => r == Ok::<bool, Error>(uid == 0),
                None => (r matches Err(Error::NoExistingAncestor(p)) && p@ == self.src@),
            },
    {
        match &self.relative {
            RelativePath::Home(_) => Ok(false),
            RelativePath::NonHome(_) => match ancestor_owner {
                Some(uid) => Ok(uid == 0),
                None => Err(Error::NoExistingAncestor(self.src.duplicate())),
            },
        }
    }

    /// The steps that move the object at `src` (of the given kind) into the
    /// repository and link `src` to it. A directory also gets its marker.
    pub fn add(&self, kind: ObjKind, same_dev: bool, needs_priv: bool) -> (r: Result<Vec<Step>, Error>)
        requires
            self.src@.len() > 0,
            self.dest@.len() > 0,
        ensures
            kind == ObjKind::Other ==> (r matches Err(Error::UnsupportedObjectType(p)) && p@
                == self.src@),
            kind != ObjKind::Other ==> (r matches Ok(v) && steps_view(v@) == add_plan(
                self.src@,
                self.dest@,
                kind,
                same_dev,
                needs_priv,
            )),
    {
        if kind == ObjKind::Other {
            return Err(Error::UnsupportedObjectType(self.src.duplicate()));
        }
        let mut v: Vec<Step> = Vec::new();
        push_step(&mut v, FsOp::CreateDirAll(self.dest.parent()), false);
        push_relocate(&mut v, &self.src, &self.dest, kind, same_dev, needs_priv);
        if kind == ObjKind::Dir {
            push_step(&mut v, FsOp::CreateStub(stub_path(&self.dest)), false);
        }
        push_step(
            &mut v,
            FsOp::Symlink { target: self.dest.duplicate(), at: self.src.duplicate() },
            needs_priv,
        );
        assert(steps_view(v@) =~= add_plan(self.src@, self.dest@, kind, same_dev, needs_priv));
        Ok(v)
    }

    /// Where the object at `src` goes when it is moved aside into `dump_dir`.
    pub fn dump_target(&self, dump_dir: &FsPath) -> (r: FsPath)
        ensures
            r@ == dump_dir@ + repo_rel(self.relative@),
    {
        dump_dir.join(&self.relative.duplicate().relative())
    }

    /// The steps that move the object at `src` aside into `dump_dir` and link
    /// `src` to the repository copy.
    pub fn dump(&self, dump_dir: &FsPath, kind: ObjKind, same_dev: bool, needs_priv: bool) -> (r:
        Result<Vec<Step>, Error>)
        requires
            self.relative@.1.len() > 0,
        ensures
            kind == ObjKind::Other ==> (r matches Err(Error::UnsupportedObjectType(p)) && p@
                == self.src@),
            kind != ObjKind::Other ==> (r matches Ok(v) && steps_view(v@) == dump_plan(
                self.src@,
                dump_dir@ + repo_rel(self.relative@),
                self.dest@,
                kind,
                same_dev,
                needs_priv,
            )),
    {
        if kind == ObjKind::Other {
            return Err(Error::UnsupportedObjectType(self.src.duplicate()));
        }
        let dump_to = self.dump_target(dump_dir);
        let mut v: Vec<Step> = Vec::new();
        push_step(&mut v, FsOp::CreateDirAll(dump_to.parent()), false);
        push_relocate(&mut v, &self.src, &dump_to, kind, same_dev, needs_priv);
        push_step(
            &mut v,
            FsOp::Symlink { target: self.dest.duplicate(), at: self.src.duplicate() },
            needs_priv,
        );
        assert(steps_view(v@) =~= dump_plan(
            self.src@,
            dump_to@,
            self.dest@,
            kind,
            same_dev,
            needs_priv,
        ));
        Ok(v)
    }

    /// The steps that remove the link at `src` and bring the repository copy
    /// (of the given kind) back in its place. A directory's marker goes too.
    pub fn remove(&self, kind: ObjKind, same_dev: bool, needs_priv: bool) -> (r: Result<
        Vec<Step>,
        Error,
    >)
        requires
            self.dest@.len() > 0,
        ensures
            kind == ObjKind::Other ==> (r matches Err(Error::UnsupportedObjectType(p)) && p@
                == self.src@),
            kind != ObjKind::Other ==> (r matches Ok(v) && steps_view(v@) == remove_plan(
                self.src@,
                self.dest@,
                kind,
                same_dev,
                needs_priv,
            )),
    {
        if kind == ObjKind::Other {
            return Err(Error::UnsupportedObjectType(self.src.duplicate()));
        }
        let mut v: Vec<Step> = Vec::new();
        push_step(&mut v, FsOp::RemoveFile(self.src.duplicate()), needs_priv);
        if kind == ObjKind::Dir {
            push_step(&mut v, FsOp::RemoveFile(stub_path(&self.dest)), false);
        }
        let ghost mid = steps_view(v@);
        if same_dev && !needs_priv {
            push_step(&mut v, FsOp::Rename { from: self.dest.duplicate(), to: self.src.duplicate() }, false);
        } else if kind == ObjKind::Dir {
            push_step(&mut v, FsOp::CopyDir { from: self.dest.duplicate(), to: self.src.duplicate() }, needs_priv);
            push_step(&mut v, FsOp::RemoveDirAll(self.dest.duplicate()), false);
        } else if kind == ObjKind::File {
            push_step(&mut v, FsOp::CopyFile { from: self.dest.duplicate(), to: self.src.duplicate() }, needs_priv);
            push_step(&mut v, FsOp::RemoveFile(self.dest.duplicate()), false);
        } else {
            push_step(&mut v, FsOp::CopyLink { from: self.dest.duplicate(), to: self.src.duplicate() }, needs_priv);
            push_step(&mut v, FsOp::RemoveFile(self.dest.duplicate()), false);
        }
        assert(steps_view(v@) =~= mid + restore(self.dest@, self.src@, kind, same_dev, needs_priv));
        assert(steps_view(v@) =~= remove_plan(self.src@, self.dest@, kind, same_dev, needs_priv));
        Ok(v)
    }

    /// The step that removes the link at `src`.
    pub fn rm_src_file(&self, needs_priv: bool) -> (r: Step)
        ensures
            r@ == with_priv(OpV::RemoveFile(self.src@), needs_priv),
    {
        Step::new(FsOp::RemoveFile(self.src.duplicate()), needs_priv)
    }

    /// The step that links `src` to the repository copy.
    pub fn symlink_to_src(&self, needs_priv: bool) -> (r: Step)
        ensures
            r@ == with_priv(OpV::Symlink(self.dest@, self.src@), needs_priv),
    {
        Step::new(FsOp::Symlink { target: self.dest.duplicate(), at: self.src.duplicate() }, needs_priv)
    }

    /// A copy of the entry.
    pub fn duplicate(&self) -> (r: Entry)
        ensures
            r.src@ == self.src@,
            r.relative@ == self.relative@,
            r.dest@ == self.dest@,
    {
        Entry { src: self.src.duplicate(), relative: self.relative.duplicate(), dest: self.dest.duplicate() }
    }
}

} // verus!
