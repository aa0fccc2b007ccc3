//! Errors of the library.
use vstd::prelude::*;

use crate::module::PathResolutionError;
use crate::path::FsPath;

verus! {

/// Why an operation was refused.
#[derive(Clone, Debug, PartialEq, Eq)]
pub enum Error {
    /// The path could not be mapped to a repository location.
    PathResolution(PathResolutionError),
    /// No ancestor of the path exists, so its owner cannot be told.
    NoExistingAncestor(FsPath),
    /// The module does not manage the path.
    NotManaged(FsPath),
    /// Something other than the expected link stands at the path.
    Conflict(FsPath),
    /// A module of higher precedence already manages the path.
    PrecedenceShadow(String),
    /// A directory managed by `outer_module` contains `inner` of `inner_module`.
    Overlap { outer_module: String, outer: FsPath, inner_module: String, inner: FsPath },
    /// An ancestor of the path is a directory already managed as a whole.
    InsideManagedDir(FsPath),
    /// The object at the path is neither a file, a directory nor a link.
    UnsupportedObjectType(FsPath),
    /// No module of that name is known.
    ModuleNotFound(String),
    /// The module is not in the active list.
    ModuleNotActive(String),
    /// No active module manages the path.
    NoActiveModuleContains(FsPath),
    /// No profile of that name is configured.
    ProfileNotFound(String),
    /// The profile does not list the default module.
    DefaultModuleNotInProfile(String),
}

} // verus!
