//! Filesystem steps, as plans that callers carry out in order, and a model of
//! what each step does to a filesystem.
use vstd::prelude::*;

use crate::path::FsPath;

verus! {

/// A path in the model: its components below the root.
pub type PathV = Seq<Seq<char>>;

/// What is found at a path.
#[derive(Clone, Copy, Debug, PartialEq, Eq, Structural)]
pub enum ObjKind {
    File,
    Dir,
    Symlink,
    Other,
}

/// One filesystem step.
#[derive(Clone, Debug, PartialEq, Eq)]
pub enum FsOp {
    /// Create a directory and any missing ancestors.
    CreateDirAll(FsPath),
    /// Rename `from` to `to`, both on one device.
    Rename { from: FsPath, to: FsPath },
    /// Copy a regular file; a partial copy is removed if the copy fails.
    CopyFile { from: FsPath, to: FsPath },
    /// Copy a directory with its contents; a partial copy is removed if the copy fails.
    CopyDir { from: FsPath, to: FsPath },
    /// Create at `to` a symbolic link with the target of the link at `from`.
    CopyLink { from: FsPath, to: FsPath },
    /// Remove a file or a symbolic link.
    RemoveFile(FsPath),
    /// Remove a directory with its contents.
    RemoveDirAll(FsPath),
    /// Create at `at` a symbolic link that points to `target`.
    Symlink { target: FsPath, at: FsPath },
    /// Create an empty marker file.
    CreateStub(FsPath),
    /// Remove these directories in order while each is empty; stop at the
    /// first that is not.
    PruneEmptyDirs(Vec<FsPath>),
}

/// A step together with whether it runs with elevated credentials.
#[derive(Clone, Debug, PartialEq, Eq)]
pub struct Step {
    pub op: FsOp,
    pub privileged: bool,
}

/// The view of a step.
pub ghost enum OpV {
    CreateDirAll(PathV),
    Rename(PathV, PathV),
    CopyFile(PathV, PathV),
    CopyDir(PathV, PathV),
    CopyLink(PathV, PathV),
    RemoveFile(PathV),
    RemoveDirAll(PathV),
    Symlink(PathV, PathV),
    CreateStub(PathV),
    PruneEmptyDirs(Seq<PathV>),
}

pub open spec fn paths_view(v: Seq<FsPath>) -> Seq<PathV> {
    v.map_values(|p: FsPath| p@)
}

impl View for FsOp {
    type V = OpV;

    open spec fn view(&self) -> OpV {
        match self {
            FsOp::CreateDirAll(p) => OpV::CreateDirAll(p@),
            FsOp::Rename { from, to } => OpV::Rename(from@, to@),
            FsOp::CopyFile { from, to } => OpV::CopyFile(from@, to@),
            FsOp::CopyDir { from, to } => OpV::CopyDir(from@, to@),
            FsOp::CopyLink { from, to } => OpV::CopyLink(from@, to@),
            FsOp::RemoveFile(p) => OpV::RemoveFile(p@),
            FsOp::RemoveDirAll(p) => OpV::RemoveDirAll(p@),
            FsOp::Symlink { target, at } => OpV::Symlink(target@, at@),
            FsOp::CreateStub(p) => OpV::CreateStub(p@),
            FsOp::PruneEmptyDirs(v) => OpV::PruneEmptyDirs(paths_view(v@)),
        }
    }
}

impl View for Step {
    type V = (OpV, bool);

    open spec fn view(&self) -> (OpV, bool) {
        (self.op@, self.privileged)
    }
}

/// The views of a list of steps.
pub open spec fn steps_view(v: Seq<Step>) -> Seq<(OpV, bool)> {
    v.map_values(|s: Step| s@)
}

/// A step that runs with the user's own credentials.
pub open spec fn plain(op: OpV) -> (OpV, bool) {
    (op, false)
}

/// A step that runs with elevated credentials where `privileged` holds.
pub open spec fn with_priv(op: OpV, privileged: bool) -> (OpV, bool) {
    (op, privileged)
}

/// An object in the model. A directory that is managed as one unit is one
/// node; its contents stand behind the number.
pub ghost enum Node {
    File(nat),
    Dir(nat),
    Link(PathV),
}

/// A filesystem in the model: what stands at each path.
pub type FsModel = Map<PathV, Node>;

/// Whether no path in `fs` lies below `d`.
pub open spec fn is_empty_dir(fs: FsModel, d: PathV) -> bool {
    &&& fs.contains_key(d)
    &&& fs[d] is Dir
    &&& forall|p: PathV| #[trigger] fs.contains_key(p) ==> !(d.len() < p.len() && p.subrange(0, d.len() as int) == d)
}

/// What `PruneEmptyDirs` does in the model.
pub open spec fn prune(fs: FsModel, dirs: Seq<PathV>) -> FsModel
    decreases dirs.len(),
{
    if dirs.len() == 0 {
        fs
    } else if is_empty_dir(fs, dirs[0]) {
        prune(fs.remove(dirs[0]), dirs.drop_first())
    } else {
        fs
    }
}

/// The effect of one step on the model; `None` where the step fails.
pub open spec fn apply_op(fs: FsModel, op: OpV) -> Option<FsModel> {
    match op {
        OpV::CreateDirAll(p) => if !fs.contains_key(p) {
            Some(fs.insert(p, Node::Dir(0)))
        } else if fs[p] is Dir {
            Some(fs)
        } else {
            None
        },
        OpV::Rename(from, to) => if fs.contains_key(from) && !fs.contains_key(to) {
            Some(fs.remove(from).insert(to, fs[from]))
        } else {
            None
        },
        OpV::CopyFile(from, to) => if fs.contains_key(from) && fs[from] is File
            && !fs.contains_key(to) {
            Some(fs.insert(to, fs[from]))
        } else {
            None
        },
        OpV::CopyDir(from, to) => if fs.contains_key(from) && fs[from] is Dir && !fs.contains_key(
            to,
        ) {
            Some(fs.insert(to, fs[from]))
        } else {
            None
        },
        OpV::CopyLink(from, to) => if fs.contains_key(from) && fs[from] is Link
            && !fs.contains_key(to) {
            Some(fs.insert(to, fs[from]))
        } else {
            None
        },
        OpV::RemoveFile(p) => if fs.contains_key(p) && !(fs[p] is Dir) {
            Some(fs.remove(p))
        } else {
            None
        },
        OpV::RemoveDirAll(p) => if fs.contains_key(p) && fs[p] is Dir {
            Some(fs.remove(p))
        } else {
            None
        },
        OpV::Symlink(target, at) => if !fs.contains_key(at) {
            Some(fs.insert(at, Node::Link(target)))
        } else {
            None
        },
        OpV::CreateStub(p) => if !fs.contains_key(p) {
            Some(fs.insert(p, Node::File(0)))
        } else {
            None
        },
        OpV::PruneEmptyDirs(dirs) => Some(prune(fs, dirs)),
    }
}

/// The effect of a list of steps run in order; `None` if one fails.
pub open spec fn apply_steps(fs: FsModel, steps: Seq<(OpV, bool)>) -> Option<FsModel>
    decreases steps.len(),
{
    if steps.len() == 0 {
        Some(fs)
    } else {
        match apply_op(fs, steps[0].0) {
            Some(fs2) => apply_steps(fs2, steps.drop_first()),
            None => None,
        }
    }
}

/// What is found at a path, as the sync decision sees it.
#[derive(Clone, Debug, PartialEq, Eq)]
pub enum TargetState {
    /// Nothing exists there.
    Absent,
    /// Something exists; `canonical` is where it resolves to.
    Present { canonical: FsPath, kind: ObjKind },
}

/// The view of a [`TargetState`]: `None` for absent.
impl View for TargetState {
    type V = Option<(PathV, ObjKind)>;

    open spec fn view(&self) -> Option<(PathV, ObjKind)> {
        match self {
            TargetState::Absent => None,
            TargetState::Present { canonical, kind } => Some((canonical@, *kind)),
        }
    }
}

/// The kind of the object at `p` in the model.
pub open spec fn kind_in(fs: FsModel, p: PathV) -> ObjKind {
    match fs[p] {
        Node::File(_) => ObjKind::File,
        Node::Dir(_) => ObjKind::Dir,
        Node::Link(_) => ObjKind::Symlink,
    }
}

/// What a look at `p` in the model shows: a link resolves to its target.
pub open spec fn observe(fs: FsModel, p: PathV) -> Option<(PathV, ObjKind)> {
    if !fs.contains_key(p) {
        None
    } else {
        match fs[p] {
            Node::Link(t) => Some((t, ObjKind::Symlink)),
            _ => Some((p, kind_in(fs, p))),
        }
    }
}

impl Step {
    /// A step with the given credentials.
    pub fn new(op: FsOp, privileged: bool) -> (r: Step)
        ensures
            r@ == (op@, privileged),
    {
        Step { op, privileged }
    }
}

} // verus!
