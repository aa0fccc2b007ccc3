//! Profiles: ordered lists of modules, where later modules take precedence.
use vstd::prelude::*;

use crate::config::{Ctx, ModuleDesc, ProfileDesc};
use crate::entry::{
    add_plan, dump_plan, push_step, real_path, remove_plan, repo_rel, Entry, KeyV, RelativePath,
};
use crate::error::Error;
use crate::module::{
    index_contains, is_entry_of, key_of_path, key_of_src, prune_dirs, AddOutcome, Module,
    PathResolutionError,
};
use crate::ops::{
    paths_view, plain, steps_view, with_priv, FsOp, ObjKind, OpV, PathV, Step, TargetState,
};
use crate::path::{proper_prefix_of, FsPath};

verus! {

/// The text of each string of a list.
pub open spec fn names_view(v: Seq<String>) -> Seq<Seq<char>> {
    v.map_values(|s: String| s@)
}

/// The names of a list of modules.
pub open spec fn module_names(v: Seq<Module>) -> Seq<Seq<char>> {
    v.map_values(|m: Module| m.name@)
}

/// `a` (of module `j`) is a proper ancestor of `k` (of module `i`), both
/// under one mount point, and the modules differ.
pub open spec fn overlap_at(mods: Seq<Module>, i: int, k: KeyV, j: int, a: KeyV) -> bool {
    &&& 0 <= i < mods.len()
    &&& 0 <= j < mods.len()
    &&& i != j
    &&& mods[i].claims(k)
    &&& mods[j].claims(a)
    &&& a.0 == k.0
    &&& proper_prefix_of(a.1, k.1)
}

/// Whether some module manages a path inside a directory that another module
/// manages as a whole.
pub open spec fn has_overlap(mods: Seq<Module>) -> bool {
    exists|i: int, k: KeyV, j: int, a: KeyV| #[trigger] overlap_at(mods, i, k, j, a)
}

/// No module but the `i`th manages a proper ancestor of `k` under the same
/// mount point.
pub open spec fn no_overlap_for(mods: Seq<Module>, i: int, k: KeyV) -> bool {
    forall|j: int, l: int|
        0 <= j < mods.len() && j != i && 0 <= l < k.1.len() ==> !(#[trigger] mods[j]).claims(
            (k.0, #[trigger] k.1.subrange(0, l)),
        )
}

/// The steps that bring `src` in line with its repository copy at `dest`,
/// given what is at `src` now: none where it already resolves to `dest`, a
/// new link where nothing is there, and, where something else is there and
/// `force` holds, that object moved aside first. `None` where the sync is
/// refused.
pub open spec fn sync_plan(
    src: PathV,
    key: KeyV,
    dest: PathV,
    dump_dir: PathV,
    force: bool,
    state: Option<(PathV, ObjKind)>,
    same_dev: bool,
    privd: bool,
) -> Option<Seq<(OpV, bool)>> {
    match state {
        None => Some(
            seq![
                with_priv(OpV::CreateDirAll(src.drop_last()), privd),
                with_priv(OpV::Symlink(dest, src), privd),
            ],
        ),
        Some((canonical, kind)) => if canonical == dest {
            Some(Seq::empty())
        } else if !force || kind == ObjKind::Other {
            None
        } else {
            Some(dump_plan(src, dump_dir + repo_rel(key), dest, kind, same_dev, privd))
        },
    }
}

/// `new` is `old` with key `k` added to (or, where `added` fails, removed
/// from) the module named `name`, and every other module as it was.
pub open spec fn only_key_changed(
    old: Seq<Module>,
    new: Seq<Module>,
    name: Seq<char>,
    k: KeyV,
    added: bool,
) -> bool {
    &&& new.len() == old.len()
    &&& forall|i: int|
        0 <= i < old.len() ==> (#[trigger] new[i]).name == old[i].name && new[i].module_dir
            == old[i].module_dir && new[i].wf()
    &&& forall|i: int| 0 <= i < old.len() && old[i].name@ != name ==> #[trigger] new[i] == old[i]
    &&& forall|i: int, k2: KeyV|
        0 <= i < old.len() && old[i].name@ == name ==> #[trigger] new[i].claims(k2) == if added {
            old[i].claims(k2) || k2 == k
        } else {
            old[i].claims(k2) && k2 != k
        }
}

/// `pos` is the first position of `name` in `list`.
pub open spec fn is_first_pos(list: Seq<String>, name: Seq<char>, pos: int) -> bool {
    &&& 0 <= pos < list.len()
    &&& list[pos]@ == name
    &&& forall|q: int| 0 <= q < pos ==> (#[trigger] list[q])@ != name
}

/// The module at `j` is the last of its name in `mods`.
pub open spec fn last_of_name(mods: Seq<Module>, j: int) -> bool {
    &&& 0 <= j < mods.len()
    &&& forall|j2: int| j < j2 < mods.len() ==> (#[trigger] mods[j2]).name@ != mods[j].name@
}

/// Every module the configuration declares without a path, and every
/// module of both lists, is among `mods`.
pub open spec fn all_known(
    mods: Seq<Module>,
    declared: Seq<ModuleDesc>,
    active: Seq<String>,
    required: Seq<String>,
) -> bool {
    &&& forall|i: int|
        0 <= i < declared.len() && (#[trigger] declared[i]).path is None ==> module_names(
            mods,
        ).contains(declared[i].name@)
    &&& forall|i: int| 0 <= i < active.len() ==> module_names(mods).contains((#[trigger] active[i])@)
    &&& forall|i: int| 0 <= i < required.len() ==> module_names(mods).contains((#[trigger] required[i])@)
}

/// The last module of each name, in no particular order.
#[verifier::rlimit(40)]
#[verifier::loop_isolation(false)]
pub fn last_of_each_name(modules: Vec<Module>) -> (r: Vec<Module>)
    ensures
        module_names(r@).no_duplicates(),
        module_names(r@).to_set() == module_names(modules@).to_set(),
        each_last_of_name(r@, modules@),
{
    let ghost input = modules@;
    let mut rest = modules;
    let mut kept: Vec<Module> = Vec::new();
    while rest.len() > 0
        invariant
            input == modules@,
            rest@ == input.subrange(0, rest@.len() as int),
            rest@.len() <= input.len(),
            module_names(kept@).no_duplicates(),
            module_names(kept@).to_set() == module_names(input.subrange(rest@.len() as int, input.len() as int)).to_set(),
            each_last_of_name(kept@, input),
        decreases rest@.len(),
    {
        let m = rest.pop().unwrap();
        let ghost jm = rest@.len() as int;
        let ghost tail = input.subrange(jm + 1, input.len() as int);
        assert(m == input[jm]);
        assert(input.subrange(jm, input.len() as int) =~= seq![m] + tail);
        proof {
            assert(module_names(input.subrange(jm, input.len() as int)) =~= seq![m.name@] + module_names(tail));
            assert(module_names(input.subrange(jm, input.len() as int)).to_set() =~= module_names(tail).to_set().insert(m.name@)) by {
                let a = module_names(input.subrange(jm, input.len() as int));
                assert forall|x: Seq<char>| a.to_set().contains(x) <==> module_names(tail).to_set().insert(m.name@).contains(x) by {
                    if a.contains(x) {
                        let t = choose|t: int| 0 <= t < a.len() && a[t] == x;
                        if t > 0 {
                            assert(module_names(tail)[t - 1] == x);
                        }
                    }
                    if module_names(tail).contains(x) {
                        let t = choose|t: int| 0 <= t < module_names(tail).len() && module_names(tail)[t] == x;
                        assert(a[t + 1] == x);
                    }
                    if x == m.name@ {
                        assert(a[0] == x);
                    }
                }
            }
        }
        match find_module(&kept, m.name.as_str()) {
            Some(t) => {
                assert(module_names(kept@)[t as int] == m.name@);
                assert(module_names(kept@).to_set().contains(m.name@));
                assert(each_last_of_name(kept@, input));
            },
            None => {
                let ghost old_kept = kept@;
                assert(!module_names(old_kept).contains(m.name@)) by {
                    if module_names(old_kept).contains(m.name@) {
                        let t = choose|t: int| 0 <= t < module_names(old_kept).len() && module_names(old_kept)[t] == m.name@;
                        assert(old_kept[t].name@ == m.name@);
                    }
                }
                assert forall|j2: int| jm < j2 < input.len() implies (#[trigger] input[j2]).name@ != input[jm].name@ by {
                    assert(module_names(tail)[j2 - jm - 1] == input[j2].name@);
                    assert(module_names(tail).to_set().contains(input[j2].name@));
                }
                assert(last_of_name(input, jm));
                kept.push(m);
                assert(module_names(kept@) =~= module_names(old_kept).push(input[jm].name@));
                proof {
                    module_names(old_kept).lemma_push_to_set_commute(input[jm].name@);
                }
                let ghost new_kept = kept@;
                assert(each_last_of_name(new_kept, input)) by {
                    assert forall|i: int| 0 <= i < new_kept.len() implies #[trigger] has_last_copy(new_kept, input, i) by {
                        if i < old_kept.len() {
                            assert(has_last_copy(old_kept, input, i));
                            assert(old_kept[i] == new_kept[i]);
                            let j = choose|j: int| #[trigger] is_last_copy(old_kept, input, i, j);
                            assert(is_last_copy(new_kept, input, i, j));
                        } else {
                            assert(is_last_copy(new_kept, input, i, jm));
                        }
                    }
                }
            },
        }
    }
    assert(input.subrange(0, input.len() as int) =~= input);
    assert(input == modules@);
    assert forall|i: int| 0 <= i < kept@.len() implies #[trigger] has_last_copy(kept@, modules@, i) by {
        assert(has_last_copy(kept@, input, i));
        let j = choose|j: int| #[trigger] is_last_copy(kept@, input, i, j);
        assert(is_last_copy(kept@, modules@, i, j));
    }
    kept
}

/// The module at `i` of `out` is the one at `j` of `input`, the last of its
/// name there.
pub open spec fn is_last_copy(out: Seq<Module>, input: Seq<Module>, i: int, j: int) -> bool {
    last_of_name(input, j) && out[i] == input[j]
}

/// The module at `i` of `out` is the last of its name in `input`.
pub open spec fn has_last_copy(out: Seq<Module>, input: Seq<Module>, i: int) -> bool {
    exists|j: int| #[trigger] is_last_copy(out, input, i, j)
}

/// Each module of `out` is the last of its name in `input`.
pub open spec fn each_last_of_name(out: Seq<Module>, input: Seq<Module>) -> bool {
    forall|i: int| 0 <= i < out.len() ==> #[trigger] has_last_copy(out, input, i)
}

/// The position of the first string equal to `name`.
pub fn position_of(v: &Vec<String>, name: &str) -> (r: Option<usize>)
    ensures
        match r {
            Some(i) => i < v@.len() && v@[i as int]@ == name@ && forall|j: int|
                0 <= j < i ==> (#[trigger] v@[j])@ != name@,
            None => forall|j: int| 0 <= j < v@.len() ==> (#[trigger] v@[j])@ != name@,
        },
{
    let target = name.to_owned();
    let mut i: usize = 0;
    while i < v.len()
        invariant
            i <= v.len(),
            target@ == name@,
            forall|j: int| 0 <= j < i ==> (#[trigger] v@[j])@ != name@,
        decreases v.len() - i,
    {
        if v[i] == target {
            return Some(i);
        }
        i = i + 1;
    }
    None
}

/// The index of the module named `name`.
pub fn find_module(mods: &Vec<Module>, name: &str) -> (r: Option<usize>)
    ensures
        match r {
            Some(i) => i < mods@.len() && mods@[i as int].name@ == name@,
            None => forall|j: int| 0 <= j < mods@.len() ==> (#[trigger] mods@[j]).name@ != name@,
        },
{
    let target = name.to_owned();
    let mut i: usize = 0;
    while i < mods.len()
        invariant
            i <= mods.len(),
            target@ == name@,
            forall|j: int| 0 <= j < i ==> (#[trigger] mods@[j]).name@ != name@,
        decreases mods.len() - i,
    {
        if mods[i].name == target {
            return Some(i);
        }
        i = i + 1;
    }
    None
}

/// The modules of a run, with the currently linked module list and the one
/// that should be linked after the next sync.
#[derive(Clone, Debug, PartialEq, Eq)]
pub struct Profile {
    pub modules: Vec<Module>,
    pub active_conf: ProfileDesc,
    pub required_conf: ProfileDesc,
}

impl Profile {
    /// Whether a module of that name is known.
    pub open spec fn has_module(&self, name: Seq<char>) -> bool {
        exists|i: int| 0 <= i < self.modules@.len() && (#[trigger] self.modules@[i]).name@ == name
    }

    /// The module of that name.
    pub open spec fn module_for(&self, name: Seq<char>) -> Module {
        self.modules@[choose|i: int|
            0 <= i < self.modules@.len() && (#[trigger] self.modules@[i]).name@ == name]
    }

    /// Module names are unique, each module's index holds each key once, and
    /// every listed name is known.
    pub open spec fn wf(&self) -> bool {
        &&& forall|i: int, j: int|
            0 <= i < self.modules@.len() && 0 <= j < self.modules@.len() && i != j
                ==> (#[trigger] self.modules@[i]).name@ != (#[trigger] self.modules@[j]).name@
        &&& forall|i: int| 0 <= i < self.modules@.len() ==> (#[trigger] self.modules@[i]).wf()
        &&& forall|i: int|
            0 <= i < self.active_conf.modules@.len() ==> self.has_module(
                (#[trigger] self.active_conf.modules@[i])@,
            )
        &&& forall|i: int|
            0 <= i < self.required_conf.modules@.len() ==> self.has_module(
                (#[trigger] self.required_conf.modules@[i])@,
            )
    }

    /// Whether the module at position `p` of `list` manages a key whose
    /// real-world path is `s`.
    pub open spec fn claims_src_at(&self, list: Seq<String>, p: int, home: PathV, s: PathV) -> bool {
        exists|k: KeyV| #[trigger] self.module_for(list[p]@).claims(k) && real_path(home, k) == s
    }

    /// A profile over the given modules, where a later module replaces an
    /// earlier one of the same name. Every module that the configuration
    /// declares without a path, and every module of both lists, must be
    /// among them.
    #[verifier::loop_isolation(false)]
    pub fn new(active: ProfileDesc, required: ProfileDesc, modules: Vec<Module>, declared: &Vec<
        ModuleDesc,
    >) -> (r: Result<Profile, Error>)
        requires
            forall|i: int| 0 <= i < modules@.len() ==> (#[trigger] modules@[i]).wf(),
        ensures
            all_known(modules@, declared@, active.modules@, required.modules@) ==> (r matches Ok(p)
                && p.wf() && p.active_conf.modules@ == active.modules@ && p.required_conf.modules@
                == required.modules@ && p.active_conf.name@ == active.name@
                && p.required_conf.name@ == required.name@ && (forall|n: Seq<char>|
                p.has_module(n) <==> module_names(modules@).contains(n)) && each_last_of_name(
                p.modules@,
                modules@,
            )),
            !all_known(modules@, declared@, active.modules@, required.modules@) ==> (r matches Err(
                Error::ModuleNotFound(n),
            ) && !module_names(modules@).contains(n@)),
    {
        let ghost input = modules@;
        let kept = last_of_each_name(modules);
        let p = Profile { modules: kept, active_conf: active, required_conf: required };
        assert forall|n: Seq<char>| p.has_module(n) <==> module_names(input).contains(n) by {
            if p.has_module(n) {
                let i = choose|i: int| 0 <= i < p.modules@.len() && (#[trigger] p.modules@[i]).name@ == n;
                assert(module_names(p.modules@)[i] == n);
                assert(module_names(p.modules@).contains(n));
                assert(module_names(p.modules@).to_set().contains(n));
                assert(module_names(input).to_set().contains(n));
            }
            if module_names(input).contains(n) {
                assert(module_names(input).to_set().contains(n));
                assert(module_names(p.modules@).to_set().contains(n));
                assert(module_names(p.modules@).contains(n));
                let i = choose|i: int| 0 <= i < module_names(p.modules@).len() && module_names(p.modules@)[i] == n;
                assert(p.modules@[i].name@ == n);
            }
        }
        let mut i: usize = 0;
        while i < declared.len()
            invariant
                i <= declared.len(),
                input == modules@,
                forall|n: Seq<char>| p.has_module(n) <==> module_names(input).contains(n),
                forall|j: int| 0 <= j < i && (#[trigger] declared@[j]).path is None ==> module_names(input).contains(declared@[j].name@),
            decreases declared.len() - i,
        {
            if declared[i].path.is_none() {
                match find_module(&p.modules, declared[i].name.as_str()) {
                    Some(t) => {
                        assert(p.modules@[t as int].name@ == declared@[i as int].name@);
                        assert(p.has_module(declared@[i as int].name@));
                    },
                    None => {
                        assert(!p.has_module(declared@[i as int].name@));
                        assert(!all_known(input, declared@, p.active_conf.modules@, p.required_conf.modules@));
                        return Err(Error::ModuleNotFound(declared[i].name.clone()));
                    },
                }
            }
            i = i + 1;
        }
        let mut i: usize = 0;
        while i < p.active_conf.modules.len()
            invariant
                i <= p.active_conf.modules.len(),
                input == modules@,
                forall|n: Seq<char>| p.has_module(n) <==> module_names(input).contains(n),
                forall|j: int| 0 <= j < i ==> p.has_module((#[trigger] p.active_conf.modules@[j])@),
            decreases p.active_conf.modules.len() - i,
        {
            match find_module(&p.modules, p.active_conf.modules[i].as_str()) {
                Some(t) => {
                    assert(p.modules@[t as int].name@ == p.active_conf.modules@[i as int]@);
                },
                None => {
                    assert(!p.has_module(p.active_conf.modules@[i as int]@));
                    assert(!all_known(input, declared@, p.active_conf.modules@, p.required_conf.modules@));
                    return Err(Error::ModuleNotFound(p.active_conf.modules[i].clone()));
                },
            }
            i = i + 1;
        }
        let mut i: usize = 0;
        while i < p.required_conf.modules.len()
            invariant
                i <= p.required_conf.modules.len(),
                input == modules@,
                forall|n: Seq<char>| p.has_module(n) <==> module_names(input).contains(n),
                forall|j: int| 0 <= j < i ==> p.has_module((#[trigger] p.required_conf.modules@[j])@),
            decreases p.required_conf.modules.len() - i,
        {
            match find_module(&p.modules, p.required_conf.modules[i].as_str()) {
                Some(t) => {
                    assert(p.modules@[t as int].name@ == p.required_conf.modules@[i as int]@);
                },
                None => {
                    assert(!p.has_module(p.required_conf.modules@[i as int]@));
                    assert(!all_known(input, declared@, p.active_conf.modules@, p.required_conf.modules@));
                    return Err(Error::ModuleNotFound(p.required_conf.modules[i].clone()));
                },
            }
            i = i + 1;
        }
        assert forall|a: int, b: int|
            0 <= a < p.modules@.len() && 0 <= b < p.modules@.len() && a != b implies (#[trigger] p.modules@[a]).name@
            != (#[trigger] p.modules@[b]).name@ by {
            assert(module_names(p.modules@)[a] == p.modules@[a].name@);
            assert(module_names(p.modules@)[b] == p.modules@[b].name@);
        }
        assert forall|a: int| 0 <= a < p.modules@.len() implies (#[trigger] p.modules@[a]).wf() by {
            assert(has_last_copy(p.modules@, input, a));
            let j = choose|j: int| #[trigger] is_last_copy(p.modules@, input, a, j);
            assert(input[j].wf());
        }
        Ok(p)
    }

    /// Checks that no module manages a path inside a directory that another
    /// module manages as a whole: a key with a proper ancestor (under the
    /// same mount point) that a module of another name claims. A claimed
    /// ancestor of a claimed path can only be a directory, so no look at the
    /// filesystem is needed.
    pub fn validate(&self) -> (r: Result<(), Error>)
        requires
            self.wf(),
        ensures
            r is Ok <==> !has_overlap(self.modules@),
            r matches Err(Error::Overlap { outer_module, outer, inner_module, inner }) ==> exists|
                i: int,
                k: KeyV,
                j: int,
                a: KeyV,
            |
                #[trigger] overlap_at(self.modules@, i, k, j, a) && inner_module@ == self.modules@[i].name@
                    && inner@ == k.1 && outer_module@ == self.modules@[j].name@ && outer@ == a.1,
            r is Ok || r matches Err(Error::Overlap { .. }),
    {
        let n = self.modules.len();
        let mut i: usize = 0;
        while i < n
            invariant
                n == self.modules@.len(),
                i <= n,
                forall|i2: int, k: KeyV|
                    0 <= i2 < i && #[trigger] self.modules@[i2].claims(k) ==> no_overlap_for(
                        self.modules@,
                        i2,
                        k,
                    ),
            decreases n - i,
        {
            let m = &self.modules[i];
            let mut t: usize = 0;
            while t < m.home_entries.len()
                invariant
                    n == self.modules@.len(),
                    i < n,
                    *m == self.modules@[i as int],
                    t <= m.home_entries.len(),
                    forall|t2: int| 0 <= t2 < t ==> no_overlap_for(self.modules@, i as int, (true, (#[trigger] m.home_entries@[t2])@)),
                    forall|i2: int, k: KeyV|
                        0 <= i2 < i && #[trigger] self.modules@[i2].claims(k) ==> no_overlap_for(
                            self.modules@,
                            i2,
                            k,
                        ),
                decreases m.home_entries.len() - t,
            {
                let k = RelativePath::Home(m.home_entries[t].duplicate());
                assert(paths_view(m.home_entries@)[t as int] == k@.1);
                assert(self.modules@[i as int].claims(k@));
                if let Some(err) = self.key_overlap(i, &k) {
                    return Err(err);
                }
                t = t + 1;
            }
            let mut t: usize = 0;
            while t < m.non_home_entries.len()
                invariant
                    n == self.modules@.len(),
                    i < n,
                    *m == self.modules@[i as int],
                    t <= m.non_home_entries.len(),
                    forall|t2: int| 0 <= t2 < m.home_entries@.len() ==> no_overlap_for(self.modules@, i as int, (true, (#[trigger] m.home_entries@[t2])@)),
                    forall|t2: int| 0 <= t2 < t ==> no_overlap_for(self.modules@, i as int, (false, (#[trigger] m.non_home_entries@[t2])@)),
                    forall|i2: int, k: KeyV|
                        0 <= i2 < i && #[trigger] self.modules@[i2].claims(k) ==> no_overlap_for(
                            self.modules@,
                            i2,
                            k,
                        ),
                decreases m.non_home_entries.len() - t,
            {
                let k = RelativePath::NonHome(m.non_home_entries[t].duplicate());
                assert(paths_view(m.non_home_entries@)[t as int] == k@.1);
                assert(self.modules@[i as int].claims(k@));
                if let Some(err) = self.key_overlap(i, &k) {
                    return Err(err);
                }
                t = t + 1;
            }
            assert forall|k: KeyV| #[trigger] self.modules@[i as int].claims(k) implies no_overlap_for(
                self.modules@,
                i as int,
                k,
            ) by {
                if k.0 {
                    let t2 = choose|t2: int| 0 <= t2 < paths_view(m.home_entries@).len() && paths_view(m.home_entries@)[t2] == k.1;
                    assert(m.home_entries@[t2]@ == k.1);
                } else {
                    let t2 = choose|t2: int| 0 <= t2 < paths_view(m.non_home_entries@).len() && paths_view(m.non_home_entries@)[t2] == k.1;
                    assert(m.non_home_entries@[t2]@ == k.1);
                }
            }
            i = i + 1;
        }
        assert(!has_overlap(self.modules@)) by {
            if has_overlap(self.modules@) {
                let (i2, k, j, a) = choose|i2: int, k: KeyV, j: int, a: KeyV| #[trigger] overlap_at(self.modules@, i2, k, j, a);
                assert(no_overlap_for(self.modules@, i2, k));
                assert(k.1.subrange(0, a.1.len() as int) == a.1);
                assert(!self.modules@[j].claims((k.0, k.1.subrange(0, a.1.len() as int))));
            }
        }
        Ok(())
    }

    /// The overlap of key `k` of the `i`th module with a directory another
    /// module manages, if there is one.
    fn key_overlap(&self, i: usize, k: &RelativePath) -> (r: Option<Error>)
        requires
            i < self.modules@.len(),
        ensures
            r is None ==> no_overlap_for(self.modules@, i as int, k@),
            r matches Some(e) ==> self.modules@[i as int].claims(k@) ==> (e matches Error::Overlap { outer_module, outer, inner_module, inner }
                && exists|j: int, a: KeyV| #[trigger] overlap_at(self.modules@, i as int, k@, j, a)
                && inner_module@ == self.modules@[i as int].name@ && inner@ == k@.1
                && outer_module@ == self.modules@[j].name@ && outer@ == a.1),
            r matches Some(e) ==> e matches Error::Overlap { .. },
    {
        let p = k.path();
        let len = p.len();
        let mut l: usize = 0;
        while l < len
            invariant
                len == k@.1.len(),
                p@ == k@.1,
                i < self.modules@.len(),
                l <= len,
                forall|j: int, l2: int|
                    0 <= j < self.modules@.len() && j != i && 0 <= l2 < l ==> !(#[trigger] self.modules@[j]).claims(
                        (k@.0, #[trigger] k@.1.subrange(0, l2)),
                    ),
            decreases len - l,
        {
            let anc = p.take(l);
            let a = if k.is_home() { RelativePath::Home(anc) } else { RelativePath::NonHome(anc) };
            let mut j: usize = 0;
            while j < self.modules.len()
                invariant
                    len == k@.1.len(),
                    p@ == k@.1,
                    i < self.modules@.len(),
                    l < len,
                    a@ == (k@.0, k@.1.subrange(0, l as int)),
                    j <= self.modules@.len(),
                    forall|j2: int| 0 <= j2 < j && j2 != i ==> !(#[trigger] self.modules@[j2]).claims(a@),
                    forall|j2: int, l2: int|
                        0 <= j2 < self.modules@.len() && j2 != i && 0 <= l2 < l ==> !(#[trigger] self.modules@[j2]).claims(
                            (k@.0, #[trigger] k@.1.subrange(0, l2)),
                        ),
                decreases self.modules@.len() - j,
            {
                if j != i && self.modules[j].contains_key(&a) {
                    proof {
                        if self.modules@[i as int].claims(k@) {
                            assert(k@.1.subrange(0, a@.1.len() as int) == a@.1);
                            assert(overlap_at(self.modules@, i as int, k@, j as int, a@));
                        }
                    }
                    return Some(Error::Overlap {
                        outer_module: self.modules[j].name.clone(),
                        outer: a.path().duplicate(),
                        inner_module: self.modules[i].name.clone(),
                        inner: p.duplicate(),
                    });
                }
                j = j + 1;
            }
            l = l + 1;
        }
        None
    }

    /// The modules that are active but no longer required, each once.
    pub fn retired(&self) -> (r: Vec<String>)
        ensures
            names_view(r@).no_duplicates(),
            forall|n: Seq<char>|
                names_view(r@).contains(n) <==> (names_view(self.active_conf.modules@).contains(n)
                    && !names_view(self.required_conf.modules@).contains(n)),
    {
        let act = &self.active_conf.modules;
        let req = &self.required_conf.modules;
        let mut r: Vec<String> = Vec::new();
        let mut i: usize = 0;
        while i < act.len()
            invariant
                i <= act.len(),
                names_view(r@).no_duplicates(),
                forall|n: Seq<char>|
                    names_view(r@).contains(n) <==> (names_view(act@).subrange(0, i as int).contains(n)
                        && !names_view(req@).contains(n)),
            decreases act.len() - i,
        {
            let ghost before = r@;
            let name = act[i].as_str();
            let in_req = position_of(req, name).is_some();
            let in_r = position_of(&r, name).is_some();
            proof {
                broadcast use vstd::seq_lib::lemma_seq_contains_after_push;
                assert(names_view(act@).subrange(0, i + 1) =~= names_view(act@).subrange(0, i as int).push(act@[i as int]@));
                if in_req {
                    let t = choose|t: int| 0 <= t < req@.len() && (#[trigger] req@[t])@ == act@[i as int]@;
                    assert(names_view(req@)[t] == act@[i as int]@);
                } else {
                    assert forall|t: int| 0 <= t < names_view(req@).len() implies names_view(req@)[t] != act@[i as int]@ by {
                        assert(names_view(req@)[t] == req@[t]@);
                    }
                }
                if in_r {
                    let t = choose|t: int| 0 <= t < r@.len() && (#[trigger] r@[t])@ == act@[i as int]@;
                    assert(names_view(r@)[t] == act@[i as int]@);
                } else {
                    assert forall|t: int| 0 <= t < names_view(r@).len() implies names_view(r@)[t] != act@[i as int]@ by {
                        assert(names_view(r@)[t] == r@[t]@);
                    }
                }
            }
            if !in_req && !in_r {
                r.push(act[i].clone());
                assert(names_view(r@) =~= names_view(before).push(act@[i as int]@));
            }
            proof {
                broadcast use vstd::seq_lib::lemma_seq_contains_after_push;
            }
            i = i + 1;
        }
        assert(names_view(act@).subrange(0, i as int) =~= names_view(act@));
        r
    }

    /// The steps that bring the entry's `src` in line with its repository
    /// copy, given what is at `src` now ([`TargetState`]), whether that and
    /// the dump directory share a device, and whether privilege is needed.
    /// Something other than a link to the copy is refused unless `force`
    /// holds, in which case it is moved into the dump directory.
    pub fn sync_entry(
        &self,
        e: &Entry,
        force: bool,
        state: &TargetState,
        same_dev: bool,
        needs_priv: bool,
        ctx: &Ctx,
    ) -> (r: Result<Vec<Step>, Error>)
        requires
            e.src@.len() > 0,
            e.relative@.1.len() > 0,
        ensures
            match sync_plan(e.src@, e.relative@, e.dest@, ctx.dump_dir@, force, state@, same_dev, needs_priv) {
                Some(s) => r matches Ok(v) && steps_view(v@) == s,
                None => (!force ==> (r matches Err(Error::Conflict(p)) && p@ == e.src@))
                    && (force ==> (r matches Err(Error::UnsupportedObjectType(p)) && p@ == e.src@)),
            },
    {
        match state {
            TargetState::Absent => {
                let mut v: Vec<Step> = Vec::new();
                push_step(&mut v, FsOp::CreateDirAll(e.src.parent()), needs_priv);
                push_step(&mut v, FsOp::Symlink { target: e.dest.duplicate(), at: e.src.duplicate() }, needs_priv);
                assert(steps_view(v@) =~= sync_plan(e.src@, e.relative@, e.dest@, ctx.dump_dir@, force, state@, same_dev, needs_priv)->0);
                Ok(v)
            },
            TargetState::Present { canonical, kind } => {
                if canonical.same(&e.dest) {
                    let v: Vec<Step> = Vec::new();
                    assert(steps_view(v@) =~= Seq::<(OpV, bool)>::empty());
                    return Ok(v);
                }
                if !force {
                    return Err(Error::Conflict(e.src.duplicate()));
                }
                e.dump(&ctx.dump_dir, *kind, same_dev, needs_priv)
            },
        }
    }

    /// The index of the module named `name`.
    pub fn index_for(&self, name: &str) -> (r: usize)
        requires
            self.wf(),
            self.has_module(name@),
        ensures
            r < self.modules@.len(),
            self.modules@[r as int] == self.module_for(name@),
            self.modules@[r as int].name@ == name@,
    {
        match find_module(&self.modules, name) {
            Some(i) => {
                let ghost c = choose|c: int| 0 <= c < self.modules@.len() && (#[trigger] self.modules@[c]).name@ == name@;
                assert(self.modules@[c].name@ == name@);
                assert(c == i as int);
                i
            },
            None => {
                assert(false);
                0
            },
        }
    }

    /// The entries that a sync links, each with the position (in the
    /// required list) of the module whose copy it links. Every real-world
    /// path that a required module manages appears once, taken from the
    /// module of highest precedence that manages it.
    pub fn sync_targets(&self, ctx: &Ctx) -> (r: Vec<(usize, Entry)>)
        requires
            self.wf(),
        ensures
            ({
                let req = self.required_conf.modules@;
                let home = ctx.canon_home_dir@;
                &&& forall|t: int|
                    #![trigger r@[t]]
                    0 <= t < r@.len() ==> {
                        let pos = r@[t].0 as int;
                        let e = r@[t].1;
                        let m = self.module_for(req[pos]@);
                        &&& 0 <= pos < req.len()
                        &&& m.claims(e.relative@)
                        &&& e.src@ == real_path(home, e.relative@)
                        &&& e.dest@ == crate::entry::repo_path(m.module_dir@, e.relative@)
                        &&& forall|q: int| pos < q < req.len() ==> !#[trigger] self.claims_src_at(req, q, home, e.src@)
                    }
                &&& forall|p: int, s: PathV|
                    0 <= p < req.len() && #[trigger] self.claims_src_at(req, p, home, s) ==> exists|t: int|
                        0 <= t < r@.len() && (#[trigger] r@[t]).1.src@ == s
                &&& forall|t1: int, t2: int|
                    0 <= t1 < r@.len() && 0 <= t2 < r@.len() && t1 != t2 ==> (#[trigger] r@[t1]).1.src@
                        != (#[trigger] r@[t2]).1.src@
            }),
    {
        let ghost req = self.required_conf.modules@;
        let ghost home = ctx.canon_home_dir@;
        let mut out: Vec<(usize, Entry)> = Vec::new();
        let mut seen: Vec<FsPath> = Vec::new();
        let len = self.required_conf.modules.len();
        let mut p: usize = len;
        while p > 0
            invariant
                self.wf(),
                req == self.required_conf.modules@,
                home == ctx.canon_home_dir@,
                len == req.len(),
                p <= len,
                seen@.len() == out@.len(),
                forall|t: int| 0 <= t < out@.len() ==> (#[trigger] seen@[t])@ == out@[t].1.src@,
                forall|s: PathV|
                    paths_view(seen@).contains(s) <==> exists|q: int|
                        p <= q < len && #[trigger] self.claims_src_at(req, q, home, s),
                forall|t: int|
                    #![trigger out@[t]]
                    0 <= t < out@.len() ==> {
                        let pos = out@[t].0 as int;
                        let e = out@[t].1;
                        let m = self.module_for(req[pos]@);
                        &&& p <= pos < req.len()
                        &&& m.claims(e.relative@)
                        &&& e.src@ == real_path(home, e.relative@)
                        &&& e.dest@ == crate::entry::repo_path(m.module_dir@, e.relative@)
                        &&& forall|q: int| pos < q < req.len() ==> !#[trigger] self.claims_src_at(req, q, home, e.src@)
                    },
                forall|t1: int, t2: int|
                    0 <= t1 < out@.len() && 0 <= t2 < out@.len() && t1 != t2 ==> (#[trigger] out@[t1]).1.src@
                        != (#[trigger] out@[t2]).1.src@,
            decreases p,
        {
            p = p - 1;
            let mi = self.index_for(self.required_conf.modules[p].as_str());
            let m = &self.modules[mi];
            let entries = m.entries(ctx);
            let ghost keys = m.keys();
            let mut i: usize = 0;
            while i < entries.len()
                invariant
                    self.wf(),
                    req == self.required_conf.modules@,
                    home == ctx.canon_home_dir@,
                    len == req.len(),
                    p < len,
                    *m == self.module_for(req[p as int]@),
                    keys == m.keys(),
                    entries@.len() == keys.len(),
                    forall|i2: int|
                        0 <= i2 < entries@.len() ==> (#[trigger] entries@[i2]).relative@ == keys[i2]
                            && entries@[i2].src@ == real_path(home, keys[i2]) && entries@[i2].dest@
                            == crate::entry::repo_path(m.module_dir@, keys[i2]),
                    i <= entries@.len(),
                    seen@.len() == out@.len(),
                    forall|t: int| 0 <= t < out@.len() ==> (#[trigger] seen@[t])@ == out@[t].1.src@,
                    forall|s: PathV|
                        paths_view(seen@).contains(s) <==> (exists|q: int|
                            p < q < len && #[trigger] self.claims_src_at(req, q, home, s)) || (exists|i2: int|
                            0 <= i2 < i && (#[trigger] entries@[i2]).src@ == s),
                    forall|t: int|
                        #![trigger out@[t]]
                        0 <= t < out@.len() ==> {
                            let pos = out@[t].0 as int;
                            let e = out@[t].1;
                            let mm = self.module_for(req[pos]@);
                            &&& p <= pos < req.len()
                            &&& mm.claims(e.relative@)
                            &&& e.src@ == real_path(home, e.relative@)
                            &&& e.dest@ == crate::entry::repo_path(mm.module_dir@, e.relative@)
                            &&& forall|q: int| pos < q < req.len() ==> !#[trigger] self.claims_src_at(req, q, home, e.src@)
                        },
                    forall|t1: int, t2: int|
                        0 <= t1 < out@.len() && 0 <= t2 < out@.len() && t1 != t2 ==> (#[trigger] out@[t1]).1.src@
                            != (#[trigger] out@[t2]).1.src@,
                decreases entries@.len() - i,
            {
                let e = &entries[i];
                if !index_contains(&seen, &e.src) {
                    proof {
                        m.lemma_claims_keys(keys[i as int]);
                        assert(keys.contains(keys[i as int]));
                        assert forall|t: int| 0 <= t < out@.len() implies (#[trigger] out@[t]).1.src@ != e.src@ by {
                            assert(paths_view(seen@)[t] == seen@[t]@);
                        }
                    }
                    let ghost old_seen = seen@;
                    seen.push(e.src.duplicate());
                    out.push((p, e.duplicate()));
                    proof {
                        assert(paths_view(seen@) =~= paths_view(old_seen).push(e.src@));
                        broadcast use vstd::seq_lib::lemma_seq_contains_after_push;
                    }
                }
                i = i + 1;
            }
            proof {
                assert forall|s: PathV|
                    (exists|i2: int| 0 <= i2 < entries@.len() && (#[trigger] entries@[i2]).src@ == s)
                        <==> self.claims_src_at(req, p as int, home, s) by {
                    if exists|i2: int| 0 <= i2 < entries@.len() && (#[trigger] entries@[i2]).src@ == s {
                        let i2 = choose|i2: int| 0 <= i2 < entries@.len() && (#[trigger] entries@[i2]).src@ == s;
                        m.lemma_claims_keys(keys[i2]);
                        assert(keys.contains(keys[i2]));
                        assert(m.claims(keys[i2]));
                    }
                    if self.claims_src_at(req, p as int, home, s) {
                        let k = choose|k: KeyV| #[trigger] self.module_for(req[p as int]@).claims(k) && real_path(home, k) == s;
                        m.lemma_claims_keys(k);
                        let i2 = choose|i2: int| 0 <= i2 < keys.len() && keys[i2] == k;
                        assert(entries@[i2].src@ == s);
                    }
                }
                assert forall|s: PathV|
                    paths_view(seen@).contains(s) <==> exists|q: int|
                        p <= q < len && #[trigger] self.claims_src_at(req, q, home, s) by {
                    if self.claims_src_at(req, p as int, home, s) {
                        assert(exists|i2: int| 0 <= i2 < entries@.len() && (#[trigger] entries@[i2]).src@ == s);
                    }
                    if exists|q: int| p <= q < len && #[trigger] self.claims_src_at(req, q, home, s) {
                        let q = choose|q: int| p <= q < len && #[trigger] self.claims_src_at(req, q, home, s);
                        if q == p {
                            assert(exists|i2: int| 0 <= i2 < entries@.len() && (#[trigger] entries@[i2]).src@ == s);
                        }
                    }
                }
            }
        }
        assert forall|q: int, s: PathV|
            0 <= q < req.len() && #[trigger] self.claims_src_at(req, q, home, s) implies exists|t: int|
                0 <= t < out@.len() && (#[trigger] out@[t]).1.src@ == s by {
            assert(paths_view(seen@).contains(s));
            let t = choose|t: int| 0 <= t < paths_view(seen@).len() && paths_view(seen@)[t] == s;
            assert(seen@[t]@ == s);
            assert(out@[t].1.src@ == s);
        }
        out
    }

    /// The module of a name is the one that carries it.
    pub proof fn lemma_module_for(&self, i: int)
        requires
            self.wf(),
            0 <= i < self.modules@.len(),
        ensures
            self.module_for(self.modules@[i].name@) == self.modules@[i],
    {
        let n = self.modules@[i].name@;
        let c = choose|c: int| 0 <= c < self.modules@.len() && (#[trigger] self.modules@[c]).name@ == n;
        assert(self.modules@[c].name@ == n);
    }

    /// The highest active position whose module manages key `k`, with the
    /// entry of `k` in that module.
    pub fn sync_active(&self, k: &RelativePath, ctx: &Ctx) -> (r: Option<(usize, Entry)>)
        requires
            self.wf(),
        ensures
            ({
                let act = self.active_conf.modules@;
                match r {
                    None => forall|q: int| 0 <= q < act.len() ==> !(#[trigger] self.module_for(act[q]@)).claims(k@),
                    Some((q, e)) => {
                        &&& q < act.len()
                        &&& self.module_for(act[q as int]@).claims(k@)
                        &&& forall|q2: int| q < q2 < act.len() ==> !(#[trigger] self.module_for(act[q2]@)).claims(k@)
                        &&& e.relative@ == k@
                        &&& e.src@ == real_path(ctx.canon_home_dir@, k@)
                        &&& e.dest@ == crate::entry::repo_path(self.module_for(act[q as int]@).module_dir@, k@)
                    },
                }
            }),
    {
        let ghost act = self.active_conf.modules@;
        let mut q: usize = self.active_conf.modules.len();
        while q > 0
            invariant
                self.wf(),
                act == self.active_conf.modules@,
                q <= act.len(),
                forall|q2: int| q <= q2 < act.len() ==> !(#[trigger] self.module_for(act[q2]@)).claims(k@),
            decreases q,
        {
            q = q - 1;
            let mi = self.index_for(self.active_conf.modules[q].as_str());
            if self.modules[mi].contains_key(k) {
                let e = self.modules[mi].entry_from_relative(k, ctx);
                return Some((q, e));
            }
        }
        None
    }

    /// Adds the real-world path `path` to the active module `dest`, given
    /// the kind of the object there, whether it and the repository copy's
    /// directory share a device, and whether privilege is needed. A module
    /// later in the active list that manages the same key would shadow the
    /// new copy, so that is refused.
    #[verifier::rlimit(40)]
    pub fn add(
        &mut self,
        path: &FsPath,
        ctx: &Ctx,
        dest: &str,
        kind: ObjKind,
        same_dev: bool,
        needs_priv: bool,
    ) -> (r: Result<AddOutcome, Error>)
        requires
            old(self).wf(),
        ensures
            final(self).wf(),
            final(self).active_conf == old(self).active_conf,
            final(self).required_conf == old(self).required_conf,
            ({
                let act = old(self).active_conf.modules@;
                let m = old(self).module_for(dest@);
                let home = ctx.canon_home_dir@;
                if forall|q: int| 0 <= q < act.len() ==> (#[trigger] act[q])@ != dest@ {
                    (r matches Err(Error::ModuleNotActive(n)) && n@ == dest@) && final(self).modules@ == old(self).modules@
                } else {
                    match key_of_src(home, ctx.canon_repo@, path@) {
                        Err(PathResolutionError::InRepo) => (r matches Ok(AddOutcome::InRepo)) && final(self).modules@ == old(self).modules@,
                        Err(e) => r == Err::<AddOutcome, Error>(Error::PathResolution(e)) && final(self).modules@ == old(self).modules@,
                        Ok(k) => forall|pos: int| #[trigger] is_first_pos(act, dest@, pos) ==> {
                            if exists|q: int| pos < q < act.len() && (#[trigger] old(self).module_for(act[q]@)).claims(k) {
                                (r matches Err(Error::PrecedenceShadow(n)) && exists|q: int| pos < q < act.len() && (#[trigger] old(self).module_for(act[q]@)).claims(k) && n@ == act[q]@)
                                    && final(self).modules@ == old(self).modules@
                            } else if m.under_managed_dir(k) {
                                (r matches Err(Error::InsideManagedDir(p)) && p@ == path@) && final(self).modules@ == old(self).modules@
                            } else if m.claims(k) {
                                (r matches Ok(AddOutcome::AlreadyManaged)) && final(self).modules@ == old(self).modules@
                            } else if kind == ObjKind::Other {
                                (r matches Err(Error::UnsupportedObjectType(p)) && p@ == path@) && final(self).modules@ == old(self).modules@
                            } else {
                                &&& r matches Ok(AddOutcome::Added(v)) && steps_view(v@) == add_plan(
                                    path@,
                                    crate::entry::repo_path(m.module_dir@, k),
                                    kind,
                                    same_dev,
                                    needs_priv,
                                )
                                &&& only_key_changed(old(self).modules@, final(self).modules@, dest@, k, true)
                            }
                        }
                    }
                }
            }),
    {
        let ghost act = self.active_conf.modules@;
        let pos = match position_of(&self.active_conf.modules, dest) {
            Some(pos) => pos,
            None => return Err(Error::ModuleNotActive(dest.to_owned())),
        };
        assert(self.has_module(act[pos as int]@));
        let mi = self.index_for(dest);
        let e = match self.modules[mi].entry_from_src(path, ctx) {
            Ok(e) => e,
            Err(PathResolutionError::InRepo) => return Ok(AddOutcome::InRepo),
            Err(err) => return Err(Error::PathResolution(err)),
        };
        let ghost k = e.relative@;
        assert forall|p2: int| #[trigger] is_first_pos(act, dest@, p2) implies p2 == pos as int by {
            if p2 < pos as int {
                assert(act[p2]@ != dest@);
            } else if p2 > pos as int {
                assert(act[pos as int]@ != dest@);
            }
        }
        assert(is_first_pos(act, dest@, pos as int));
        if let Some(q) = self.first_higher_claim(pos, &e.relative) {
            return Err(Error::PrecedenceShadow(self.active_conf.modules[q].clone()));
        }
        let ghost before = self.modules@;
        let mut m = self.modules.remove(mi);
        let res = m.add(path, ctx, kind, same_dev, needs_priv);
        self.modules.insert(mi, m);
        proof {
            assert(self.modules@ =~= before.update(mi as int, self.modules@[mi as int]));
            assert forall|i: int| 0 <= i < before.len() && before[i].name@ != dest@ implies #[trigger] self.modules@[i] == before[i] by {}
            assert forall|i: int| 0 <= i < before.len() && before[i].name@ == dest@ implies i == mi as int by {
                assert(before[mi as int].name@ == dest@);
            }
            assert forall|n: Seq<char>| self.has_module(n) <==> old(self).has_module(n) by {
                if self.has_module(n) {
                    let i = choose|i: int| 0 <= i < self.modules@.len() && (#[trigger] self.modules@[i]).name@ == n;
                    assert(before[i].name@ == n);
                }
                if old(self).has_module(n) {
                    let i = choose|i: int| 0 <= i < before.len() && (#[trigger] before[i]).name@ == n;
                    assert(self.modules@[i].name@ == n);
                }
            }
            if res is Err || res matches Ok(AddOutcome::InRepo) || res matches Ok(AddOutcome::AlreadyManaged) {
                assert(self.modules@ =~= before);
            }
            assert(before[mi as int] == old(self).module_for(dest@));
            assert forall|i: int| 0 <= i < before.len() implies (#[trigger] self.modules@[i]).name == before[i].name
                && self.modules@[i].module_dir == before[i].module_dir && self.modules@[i].wf() by {
                if i != mi as int {
                    assert(old(self).modules@[i].wf());
                }
            }
            assert(self.wf());
            let mo = before[mi as int];
            if !mo.under_managed_dir(k) && !mo.claims(k) && kind != ObjKind::Other {
                assert(only_key_changed(before, self.modules@, dest@, k, true));
            }
        }
        res
    }

    /// The first position after `pos` in the active list whose module
    /// manages key `k`.
    fn first_higher_claim(&self, pos: usize, k: &RelativePath) -> (r: Option<usize>)
        requires
            self.wf(),
            pos < self.active_conf.modules@.len(),
        ensures
            ({
                let act = self.active_conf.modules@;
                match r {
                    None => forall|q: int| pos < q < act.len() ==> !(#[trigger] self.module_for(act[q]@)).claims(k@),
                    Some(q) => pos < q < act.len() && self.module_for(act[q as int]@).claims(k@),
                }
            }),
    {
        let ghost act = self.active_conf.modules@;
        let n = self.active_conf.modules.len();
        let mut q: usize = pos + 1;
        while q < n
            invariant
                self.wf(),
                act == self.active_conf.modules@,
                n == act.len(),
                pos < q <= act.len(),
                forall|q2: int| pos < q2 < q ==> !(#[trigger] self.module_for(act[q2]@)).claims(k@),
            decreases act.len() - q,
        {
            let qi = self.index_for(self.active_conf.modules[q].as_str());
            if self.modules[qi].contains_key(k) {
                return Some(q);
            }
            q = q + 1;
        }
        None
    }

    /// Whether the module at position `q` of the active list manages the
    /// entry that `path` names in it.
    pub open spec fn owns_at(&self, q: int, home: PathV, repo: PathV, path: PathV) -> bool {
        let m = self.module_for(self.active_conf.modules@[q]@);
        match key_of_path(home, repo, m.module_dir@, path) {
            Ok(k) => m.claims(k),
            Err(_) => false,
        }
    }

    /// The highest position of the active list whose module manages the
    /// entry that `path` names in it.
    pub fn active_owner(&self, path: &FsPath, ctx: &Ctx) -> (r: Option<usize>)
        requires
            self.wf(),
        ensures
            ({
                let len = self.active_conf.modules@.len();
                let home = ctx.canon_home_dir@;
                let repo = ctx.canon_repo@;
                match r {
                    None => forall|q: int| 0 <= q < len ==> !#[trigger] self.owns_at(q, home, repo, path@),
                    Some(q) => q < len && self.owns_at(q as int, home, repo, path@) && forall|q2: int|
                        q < q2 < len ==> !#[trigger] self.owns_at(q2, home, repo, path@),
                }
            }),
    {
        let mut q: usize = self.active_conf.modules.len();
        while q > 0
            invariant
                self.wf(),
                q <= self.active_conf.modules@.len(),
                forall|q2: int|
                    q <= q2 < self.active_conf.modules@.len() ==> !#[trigger] self.owns_at(
                        q2,
                        ctx.canon_home_dir@,
                        ctx.canon_repo@,
                        path@,
                    ),
            decreases q,
        {
            q = q - 1;
            let mi = self.index_for(self.active_conf.modules[q].as_str());
            let m = &self.modules[mi];
            match m.entry(path, ctx) {
                Ok(e) => {
                    if m.contains(&e) {
                        return Some(q);
                    }
                },
                Err(_) => {},
            }
        }
        None
    }

    /// Removes from the active module `name` the entry that `path` names,
    /// given the kind of its repository copy, whether that and `src` share a
    /// device, and whether privilege is needed. Returns the entry, the steps
    /// that restore it, and the entry that should link `src` afterwards: that
    /// of the active module of highest precedence that still manages the key.
    #[verifier::rlimit(80)]
    #[verifier::spinoff_prover]
    pub fn remove(
        &mut self,
        path: &FsPath,
        ctx: &Ctx,
        name: &str,
        kind: ObjKind,
        same_dev: bool,
        needs_priv: bool,
    ) -> (r: Result<(Entry, Vec<Step>, Option<(usize, Entry)>), Error>)
        requires
            old(self).wf(),
        ensures
            final(self).wf(),
            final(self).active_conf == old(self).active_conf,
            final(self).required_conf == old(self).required_conf,
            ({
                let act = old(self).active_conf.modules@;
                let m = old(self).module_for(name@);
                let home = ctx.canon_home_dir@;
                if forall|q: int| 0 <= q < act.len() ==> (#[trigger] act[q])@ != name@ {
                    (r matches Err(Error::ModuleNotActive(n)) && n@ == name@) && final(self).modules@ == old(self).modules@
                } else {
                    match key_of_path(home, ctx.canon_repo@, m.module_dir@, path@) {
                        Err(e) => r == Err::<(Entry, Vec<Step>, Option<(usize, Entry)>), Error>(Error::PathResolution(e))
                            && final(self).modules@ == old(self).modules@,
                        Ok(k) => if !m.claims(k) {
                            (r matches Err(Error::NotManaged(p)) && p@ == real_path(home, k)) && final(self).modules@ == old(self).modules@
                        } else if kind == ObjKind::Other {
                            (r matches Err(Error::UnsupportedObjectType(p)) && p@ == real_path(home, k)) && final(self).modules@ == old(self).modules@
                        } else {
                            &&& r matches Ok((e, v, relink)) && is_entry_of(&e, home, m.module_dir@, k)
                                && steps_view(v@) == remove_plan(e.src@, e.dest@, kind, same_dev, needs_priv).push(
                                    plain(OpV::PruneEmptyDirs(prune_dirs(m.module_dir@, repo_rel(k)))),
                                )
                                && match relink {
                                    None => forall|q: int| 0 <= q < act.len() ==> !(#[trigger] final(self).module_for(act[q]@)).claims(k),
                                    Some((q, e2)) => {
                                        &&& q < act.len()
                                        &&& final(self).module_for(act[q as int]@).claims(k)
                                        &&& forall|q2: int| q < q2 < act.len() ==> !(#[trigger] final(self).module_for(act[q2]@)).claims(k)
                                        &&& e2.relative@ == k
                                        &&& e2.src@ == real_path(home, k)
                                        &&& e2.dest@ == crate::entry::repo_path(final(self).module_for(act[q as int]@).module_dir@, k)
                                    },
                                }
                            &&& only_key_changed(old(self).modules@, final(self).modules@, name@, k, false)
                        },
                    }
                }
            }),
    {
        let ghost act = self.active_conf.modules@;
        let pos = match position_of(&self.active_conf.modules, name) {
            Some(pos) => pos,
            None => return Err(Error::ModuleNotActive(name.to_owned())),
        };
        assert(self.has_module(act[pos as int]@));
        let mi = self.index_for(name);
        let ghost before = self.modules@;
        let mut m = self.modules.remove(mi);
        let res = m.remove(path, ctx, kind, same_dev, needs_priv);
        self.modules.insert(mi, m);
        proof {
            assert(self.modules@ =~= before.update(mi as int, self.modules@[mi as int]));
            assert forall|i: int| 0 <= i < before.len() && before[i].name@ != name@ implies #[trigger] self.modules@[i] == before[i] by {}
            assert forall|i: int| 0 <= i < before.len() && before[i].name@ == name@ implies i == mi as int by {
                assert(before[mi as int].name@ == name@);
            }
            assert forall|n: Seq<char>| self.has_module(n) <==> old(self).has_module(n) by {
                if self.has_module(n) {
                    let i = choose|i: int| 0 <= i < self.modules@.len() && (#[trigger] self.modules@[i]).name@ == n;
                    assert(before[i].name@ == n);
                }
                if old(self).has_module(n) {
                    let i = choose|i: int| 0 <= i < before.len() && (#[trigger] before[i]).name@ == n;
                    assert(self.modules@[i].name@ == n);
                }
            }
            if res is Err {
                assert(self.modules@ =~= before);
            }
            assert(before[mi as int] == old(self).module_for(name@));
            assert forall|i: int| 0 <= i < before.len() implies (#[trigger] self.modules@[i]).name == before[i].name
                && self.modules@[i].module_dir == before[i].module_dir && self.modules@[i].wf() by {
                if i != mi as int {
                    assert(old(self).modules@[i].wf());
                }
            }
            assert(self.wf());
        }
        match res {
            Ok((e, steps)) => {
                let relink = self.sync_active(&e.relative, ctx);
                Ok((e, steps, relink))
            },
            Err(err) => Err(err),
        }
    }

    /// Removes the entry that `path` names from the active module of highest
    /// precedence that manages it; see [`Profile::remove`].
    pub fn remove_from_active(
        &mut self,
        path: &FsPath,
        ctx: &Ctx,
        kind: ObjKind,
        same_dev: bool,
        needs_priv: bool,
    ) -> (r: Result<(Entry, Vec<Step>, Option<(usize, Entry)>), Error>)
        requires
            old(self).wf(),
        ensures
            final(self).wf(),
            final(self).active_conf == old(self).active_conf,
            final(self).required_conf == old(self).required_conf,
            ({
                let act = old(self).active_conf.modules@;
                let home = ctx.canon_home_dir@;
                let repo = ctx.canon_repo@;
                if forall|q: int| 0 <= q < act.len() ==> !#[trigger] old(self).owns_at(q, home, repo, path@) {
                    (r matches Err(Error::NoActiveModuleContains(p)) && p@ == path@) && final(self).modules@ == old(self).modules@
                } else {
                    forall|q: int| #![trigger act[q]]
                        0 <= q < act.len() && old(self).owns_at(q, home, repo, path@) && (forall|q2: int|
                            q < q2 < act.len() ==> !#[trigger] old(self).owns_at(q2, home, repo, path@)) ==> {
                            let m = old(self).module_for(act[q]@);
                            if kind == ObjKind::Other {
                                r matches Err(Error::UnsupportedObjectType(_)) && final(self).modules@ == old(self).modules@
                            } else {
                                r matches Ok((e, v, _)) && m.claims(e.relative@) && is_entry_of(&e, home, m.module_dir@, e.relative@)
                                    && steps_view(v@) == remove_plan(e.src@, e.dest@, kind, same_dev, needs_priv).push(
                                        plain(OpV::PruneEmptyDirs(prune_dirs(m.module_dir@, repo_rel(e.relative@)))),
                                    )
                                    && only_key_changed(old(self).modules@, final(self).modules@, act[q]@, e.relative@, false)
                            }
                        }
                }
            }),
    {
        let ghost act = self.active_conf.modules@;
        match self.active_owner(path, ctx) {
            None => Err(Error::NoActiveModuleContains(path.duplicate())),
            Some(q) => {
                let name = self.active_conf.modules[q].clone();
                proof {
                    assert forall|q1: int| #![trigger act[q1]]
                        0 <= q1 < act.len() && self.owns_at(q1, ctx.canon_home_dir@, ctx.canon_repo@, path@) && (forall|q2: int|
                            q1 < q2 < act.len() ==> !#[trigger] self.owns_at(q2, ctx.canon_home_dir@, ctx.canon_repo@, path@))
                        implies q1 == q as int by {
                        if q1 < q as int {
                            assert(!self.owns_at(q as int, ctx.canon_home_dir@, ctx.canon_repo@, path@));
                        } else if q1 > q as int {
                            assert(!self.owns_at(q1, ctx.canon_home_dir@, ctx.canon_repo@, path@));
                        }
                    }
                    assert(act[q as int]@ == name@);
                }
                self.remove(path, ctx, name.as_str(), kind, same_dev, needs_priv)
            },
        }
    }
}

} // verus!
