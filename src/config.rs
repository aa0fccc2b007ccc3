//! Configuration values and the run context.
use vstd::prelude::*;

use crate::error::Error;
use crate::ops::PathV;
use crate::path::FsPath;

verus! {

/// The user's configuration: where the repository is, the default module,
/// the profiles and the modules declared by hand.
#[derive(Clone, Debug, PartialEq, Eq)]
pub struct Config {
    pub repo: String,
    pub default_module: Option<String>,
    pub profiles: Vec<ProfileDesc>,
    pub modules: Vec<ModuleDesc>,
}

/// A profile: a name and an ordered list of module names; later modules
/// take precedence over earlier ones.
#[derive(Clone, Debug, PartialEq, Eq)]
pub struct ProfileDesc {
    pub name: String,
    pub modules: Vec<String>,
}

/// A module declared in the configuration, with the path of its parent
/// directory where it lives outside the repository.
#[derive(Clone, Debug, PartialEq, Eq)]
pub struct ModuleDesc {
    pub name: String,
    pub path: Option<String>,
}

/// Command-line options.
#[derive(Clone, Debug, PartialEq, Eq)]
pub struct Cli {
    pub config_dir: Option<String>,
    pub command: Command,
}

/// The subcommands.
#[derive(Clone, Debug, PartialEq, Eq)]
pub enum Command {
    /// Add paths to a module.
    Add { src: Vec<String>, module: Option<String> },
    /// Remove paths from a module: a named one, the default one, or the
    /// active one of highest precedence that manages each path.
    Remove { src: Vec<String>, module: Option<String>, active: bool, default: bool },
    /// Create a new profile.
    NewProfile { name: String },
    /// Switch to another profile and sync.
    SwitchProfile { name: String, force: bool },
    /// Bring the filesystem in line with the configuration.
    Sync { force: bool },
}

/// The locations a run works with, all canonical and absolute.
#[derive(Clone, Debug, PartialEq, Eq)]
pub struct Ctx {
    pub canon_home_dir: FsPath,
    pub canon_repo: FsPath,
    pub dump_dir: FsPath,
    pub profile_file: FsPath,
}

/// The text of an absolute path: each component after a `/`.
pub open spec fn render(p: PathV) -> Seq<char>
    decreases p.len(),
{
    if p.len() == 0 {
        Seq::empty()
    } else {
        render(p.drop_last()) + seq!['/'] + p.last()
    }
}

/// The text of an absolute path; the root is `/`.
pub open spec fn render_abs(p: PathV) -> Seq<char> {
    if p.len() == 0 {
        seq!['/']
    } else {
        render(p)
    }
}

/// A path with a leading `~` (alone or before `/`) that stands for `home`.
pub open spec fn tilde_expanded(input: Seq<char>, home: Seq<char>) -> Seq<char> {
    if input.len() > 0 && input[0] == '~' && (input.len() == 1 || input[1] == '/') {
        home + input.drop_first()
    } else {
        input
    }
}

/// Relies on shellexpand::tilde_with_context: where the input is `~` or
/// starts with `~/` (the Unix separator), that `~` is replaced by the home
/// directory that the context gives; any other input comes back as it is.
#[verifier::external_body]
fn tilde_with_home(input: &str, home: &str) -> (r: String)
    ensures
        r@ == tilde_expanded(input@, home@),
{
    shellexpand::tilde_with_context(input, || Some(home)).into_owned()
}

impl FsPath {
    /// The text of this path as an absolute path.
    pub fn to_path_string(&self) -> (r: String)
        ensures
            r@ == render_abs(self@),
    {
        proof {
            reveal_strlit("/");
        }
        if self.comps.len() == 0 {
            return String::from_str("/");
        }
        let mut s = String::new();
        let mut i: usize = 0;
        while i < self.comps.len()
            invariant
                i <= self.comps.len(),
                s@ == render(self@.subrange(0, i as int)),
            decreases self.comps.len() - i,
        {
            let ghost q = self@.subrange(0, i + 1);
            proof {
                reveal_strlit("/");
                assert(q.drop_last() =~= self@.subrange(0, i as int));
                assert(q.last() == self.comps@[i as int]@);
            }
            s.append("/");
            s.append(self.comps[i].as_str());
            assert(s@ =~= render(q.drop_last()) + seq!['/'] + q.last());
            i = i + 1;
        }
        assert(self@.subrange(0, i as int) =~= self@);
        s
    }
}

/// The name of the directory, inside the configuration directory, that
/// holds one dump directory per run.
pub open spec fn dumps_name() -> Seq<char> {
    seq!['d', 'u', 'm', 'p', 's']
}

/// The name of the file, inside the configuration directory, that records
/// the module list currently linked.
pub open spec fn profile_file_name() -> Seq<char> {
    seq!['p', 'r', 'o', 'f', 'i', 'l', 'e', '.', 'a', 'c', 't', 'i', 'v', 'e', '.', 't', 'o', 'm', 'l']
}

impl Ctx {
    /// The context of a run: this run's dump directory is `stamp` under
    /// `dumps` in the configuration directory, beside the record of the
    /// active profile.
    pub fn new(canon_home_dir: FsPath, canon_repo: FsPath, config_dir: &FsPath, stamp: &str) -> (r: Ctx)
        ensures
            r.canon_home_dir@ == canon_home_dir@,
            r.canon_repo@ == canon_repo@,
            r.dump_dir@ == config_dir@.push(dumps_name()).push(stamp@),
            r.profile_file@ == config_dir@.push(profile_file_name()),
    {
        proof {
            reveal_strlit("dumps");
            reveal_strlit("profile.active.toml");
        }
        let dumps = String::from_str("dumps");
        assert(dumps@ =~= dumps_name());
        let record = String::from_str("profile.active.toml");
        assert(record@ =~= profile_file_name());
        let mut dump_dir = config_dir.duplicate();
        dump_dir.push(dumps);
        dump_dir.push(String::from_str(stamp));
        let mut profile_file = config_dir.duplicate();
        profile_file.push(record);
        Ctx { canon_home_dir, canon_repo, dump_dir, profile_file }
    }

    /// `path` with a leading `~` replaced by the home directory.
    pub fn expand_home(&self, path: &str) -> (r: String)
        ensures
            r@ == tilde_expanded(path@, render_abs(self.canon_home_dir@)),
    {
        let home = self.canon_home_dir.to_path_string();
        tilde_with_home(path, home.as_str())
    }
}

impl Config {
    /// The profile of that name.
    pub fn find_profile(&self, name: &str) -> (r: Result<ProfileDesc, Error>)
        ensures
            match r {
                Ok(p) => exists|i: int|
                    0 <= i < self.profiles@.len() && (#[trigger] self.profiles@[i]).name@ == name@
                        && p.name@ == name@ && p.modules@ == self.profiles@[i].modules@,
                Err(e) => (e matches Error::ProfileNotFound(n) && n@ == name@) && forall|i: int|
                    0 <= i < self.profiles@.len() ==> (#[trigger] self.profiles@[i]).name@ != name@,
            },
    {
        let target = name.to_owned();
        let mut i: usize = 0;
        while i < self.profiles.len()
            invariant
                i <= self.profiles@.len(),
                target@ == name@,
                forall|j: int| 0 <= j < i ==> (#[trigger] self.profiles@[j]).name@ != name@,
            decreases self.profiles@.len() - i,
        {
            if self.profiles[i].name == target {
                let mut modules: Vec<String> = Vec::new();
                let src = &self.profiles[i].modules;
                let mut j: usize = 0;
                while j < src.len()
                    invariant
                        j <= src@.len(),
                        modules@ == src@.subrange(0, j as int),
                    decreases src@.len() - j,
                {
                    modules.push(src[j].clone());
                    assert(modules@ =~= src@.subrange(0, j + 1));
                    j = j + 1;
                }
                assert(src@.subrange(0, j as int) =~= src@);
                return Ok(ProfileDesc { name: self.profiles[i].name.clone(), modules });
            }
            i = i + 1;
        }
        Err(Error::ProfileNotFound(target))
    }

    /// Checks that the default module, where one is set, is in the list.
    #[verifier::loop_isolation(false)]
    pub fn check_default_module(&self, modules: &Vec<String>) -> (r: Result<(), Error>)
        ensures
            match self.default_module {
                None => r is Ok,
                Some(d) => (r is Ok <==> exists|i: int| 0 <= i < modules@.len() && (#[trigger] modules@[i])@ == d@)
                    && (r matches Err(e) ==> (e matches Error::DefaultModuleNotInProfile(n) && n@ == d@)),
            },
    {
        match &self.default_module {
            None => Ok(()),
            Some(d) => {
                let mut i: usize = 0;
                while i < modules.len()
                    invariant
                        i <= modules@.len(),
                        forall|j: int| 0 <= j < i ==> (#[trigger] modules@[j])@ != d@,
                    decreases modules@.len() - i,
                {
                    if modules[i] == *d {
                        assert(modules@[i as int]@ == d@);
                        assert(exists|j: int| 0 <= j < modules@.len() && (#[trigger] modules@[j])@ == d@);
                        return Ok(());
                    }
                    i = i + 1;
                }
                Err(Error::DefaultModuleNotInProfile(d.clone()))
            },
        }
    }
}

/// The name of a path: its last component.
pub trait Convenience {
    /// Whether the path has a last component.
    spec fn has_name(&self) -> bool;

    /// The last component.
    spec fn name_view(&self) -> Seq<char>;

    fn name(&self) -> (r: &str)
        requires
            self.has_name(),
        ensures
            r@ == self.name_view(),
    ;
}

impl Convenience for FsPath {
    open spec fn has_name(&self) -> bool {
        self@.len() > 0
    }

    open spec fn name_view(&self) -> Seq<char> {
        self@.last()
    }

    fn name(&self) -> (r: &str) {
        self.last().as_str()
    }
}

} // verus!
