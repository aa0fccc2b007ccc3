//! Properties of the plans, stated over the filesystem model.
use vstd::prelude::*;

use crate::entry::{
    add_plan, home_comp, marker_name, real_path, relocate, remove_plan, repo_path, repo_rel,
    restore, stub_of, KeyV,
};
use crate::module::{key_of_dest, key_of_path, key_of_src, unlink_steps, PathResolutionError};
use crate::ops::{apply_op, apply_steps, kind_in, observe, FsModel, Node, ObjKind, OpV, PathV};
use crate::path::prefix_of;
use crate::profile::sync_plan;
use crate::scan::{has_marker, leaves, subdirs};

verus! {

/// Running two lists of steps one after the other is running the two lists
/// joined.
pub proof fn lemma_apply_concat(fs: FsModel, a: Seq<(OpV, bool)>, b: Seq<(OpV, bool)>)
    ensures
        apply_steps(fs, a + b) == match apply_steps(fs, a) {
            Some(f) => apply_steps(f, b),
            None => None,
        },
    decreases a.len(),
{
    if a.len() == 0 {
        assert(a + b =~= b);
    } else {
        assert((a + b).drop_first() =~= a.drop_first() + b);
        assert((a + b)[0] == a[0]);
        match apply_op(fs, a[0].0) {
            Some(f1) => lemma_apply_concat(f1, a.drop_first(), b),
            None => {},
        }
    }
}

/// Running one step.
pub proof fn lemma_apply_one(fs: FsModel, s: Seq<(OpV, bool)>)
    requires
        s.len() == 1,
    ensures
        apply_steps(fs, s) == apply_op(fs, s[0].0),
{
    reveal_with_fuel(apply_steps, 2);
    assert(s.drop_first() =~= Seq::<(OpV, bool)>::empty());
}

/// Running two steps.
pub proof fn lemma_apply_two(fs: FsModel, s: Seq<(OpV, bool)>)
    requires
        s.len() == 2,
    ensures
        apply_steps(fs, s) == match apply_op(fs, s[0].0) {
            Some(f) => apply_op(f, s[1].0),
            None => None,
        },
{
    reveal_with_fuel(apply_steps, 3);
    assert(s.drop_first().drop_first() =~= Seq::<(OpV, bool)>::empty());
}

/// Running a list of steps that ends with a link at `at`.
proof fn lemma_ends_with_link(fs: FsModel, a: Seq<(OpV, bool)>, target: PathV, at: PathV, p: bool)
    requires
        apply_steps(fs, a + seq![(OpV::Symlink(target, at), p)]) is Some,
    ensures
        apply_steps(fs, a + seq![(OpV::Symlink(target, at), p)])->0.contains_key(at),
        apply_steps(fs, a + seq![(OpV::Symlink(target, at), p)])->0[at] == Node::Link(target),
{
    lemma_apply_concat(fs, a, seq![(OpV::Symlink(target, at), p)]);
    let f = apply_steps(fs, a)->0;
    lemma_apply_one(f, seq![(OpV::Symlink(target, at), p)]);
}

/// Once a sync of an entry has run, a second sync of it, with nothing
/// changed in between, takes no step: `src` already resolves to the
/// repository copy.
pub proof fn law_sync_idempotent(
    fs: FsModel,
    src: PathV,
    key: KeyV,
    dest: PathV,
    dump_dir: PathV,
    force: bool,
    same_dev: bool,
    privd: bool,
    force2: bool,
    same_dev2: bool,
    privd2: bool,
)
    requires
        sync_plan(src, key, dest, dump_dir, force, observe(fs, src), same_dev, privd) is Some,
        apply_steps(
            fs,
            sync_plan(src, key, dest, dump_dir, force, observe(fs, src), same_dev, privd)->0,
        ) is Some,
    ensures
        ({
            let fs2 = apply_steps(
                fs,
                sync_plan(src, key, dest, dump_dir, force, observe(fs, src), same_dev, privd)->0,
            )->0;
            sync_plan(src, key, dest, dump_dir, force2, observe(fs2, src), same_dev2, privd2)
                == Some(Seq::<(OpV, bool)>::empty())
        }),
{
    let steps = sync_plan(src, key, dest, dump_dir, force, observe(fs, src), same_dev, privd)->0;
    match observe(fs, src) {
        None => {
            let a = seq![(OpV::CreateDirAll(src.drop_last()), privd)];
            assert(steps =~= a + seq![(OpV::Symlink(dest, src), privd)]);
            lemma_ends_with_link(fs, a, dest, src, privd);
        },
        Some((canonical, kind)) => {
            if canonical == dest {
                assert(apply_steps(fs, steps) == Some(fs));
            } else {
                let dump_to = dump_dir + repo_rel(key);
                let a = seq![(OpV::CreateDirAll(dump_to.drop_last()), false)] + relocate(
                    src,
                    dump_to,
                    kind,
                    same_dev,
                    privd,
                );
                assert(steps =~= a + seq![(OpV::Symlink(dest, src), privd)]);
                lemma_ends_with_link(fs, a, dest, src, privd);
            }
        },
    }
}

/// An unforced sync refuses a `src` taken by anything but a link: it yields
/// no step, so the object there is neither moved nor removed.
pub proof fn law_conflict_rejected(
    fs: FsModel,
    src: PathV,
    key: KeyV,
    dest: PathV,
    dump_dir: PathV,
    same_dev: bool,
    privd: bool,
)
    requires
        fs.contains_key(src),
        !(fs[src] is Link),
        src != dest,
    ensures
        sync_plan(src, key, dest, dump_dir, false, observe(fs, src), same_dev, privd) is None,
{
}

/// A forced sync against a regular file at `src` moves that file, content
/// and all, to its place in the dump directory and links `src` to the
/// repository copy.
pub proof fn law_forced_sync_dumps(
    fs: FsModel,
    src: PathV,
    key: KeyV,
    dest: PathV,
    dump_dir: PathV,
    same_dev: bool,
    privd: bool,
    content: nat,
)
    requires
        fs.contains_key(src),
        fs[src] == Node::File(content),
        src != dest,
        key.1.len() > 0,
        !prefix_of(dump_dir, src),
        !fs.contains_key(dump_dir + repo_rel(key)),
        fs.contains_key((dump_dir + repo_rel(key)).drop_last()) ==> fs[(dump_dir + repo_rel(
            key,
        )).drop_last()] is Dir,
    ensures
        ({
            let dump_to = dump_dir + repo_rel(key);
            let steps = sync_plan(src, key, dest, dump_dir, true, observe(fs, src), same_dev, privd);
            &&& steps is Some
            &&& apply_steps(fs, steps->0) is Some
            &&& apply_steps(fs, steps->0)->0.contains_key(dump_to)
            &&& apply_steps(fs, steps->0)->0[dump_to] == Node::File(content)
            &&& apply_steps(fs, steps->0)->0.contains_key(src)
            &&& apply_steps(fs, steps->0)->0[src] == Node::Link(dest)
        }),
{
    let dump_to = dump_dir + repo_rel(key);
    let dd = dump_to.drop_last();
    assert(repo_rel(key).len() > 0);
    assert(dump_to.subrange(0, dump_dir.len() as int) =~= dump_dir);
    assert(dd.subrange(0, dump_dir.len() as int) =~= dump_dir);
    assert(src != dump_to);
    assert(src != dd);
    assert(dd != dump_to);
    assert(observe(fs, src) == Some((src, ObjKind::File)));
    let steps = sync_plan(src, key, dest, dump_dir, true, observe(fs, src), same_dev, privd)->0;
    let c = seq![(OpV::CreateDirAll(dd), false)];
    let r = relocate(src, dump_to, ObjKind::File, same_dev, privd);
    let l = seq![(OpV::Symlink(dest, src), privd)];
    assert(steps =~= c + r + l);
    lemma_apply_concat(fs, c + r, l);
    lemma_apply_concat(fs, c, r);
    lemma_apply_one(fs, c);
    let f1 = apply_op(fs, OpV::CreateDirAll(dd))->0;
    assert(f1.contains_key(src) && f1[src] == Node::File(content) && !f1.contains_key(dump_to));
    if same_dev && !privd {
        lemma_apply_one(f1, r);
    } else {
        lemma_apply_two(f1, r);
    }
    let f2 = apply_steps(f1, r)->0;
    assert(f2.contains_key(dump_to) && f2[dump_to] == Node::File(content) && !f2.contains_key(src));
    lemma_apply_one(f2, l);
}

/// A marker name is longer than the name it marks.
proof fn lemma_marker_differs(dir: PathV)
    requires
        dir.len() > 0,
    ensures
        stub_of(dir) != dir,
        stub_of(dir).len() == dir.len(),
        stub_of(dir).drop_last() == dir.drop_last(),
{
    assert(stub_of(dir).last() == marker_name(dir.last()));
    assert(marker_name(dir.last()).len() > dir.last().len());
    assert(stub_of(dir).drop_last() =~= dir.drop_last());
}

/// Adding a regular file or a directory and then removing it brings the
/// object back to where it was, unchanged, and leaves no link, no
/// repository copy and no marker behind.
pub proof fn law_add_remove_round_trip(
    fs: FsModel,
    src: PathV,
    dest: PathV,
    kind: ObjKind,
    same_dev: bool,
    privd: bool,
    same_dev2: bool,
    privd2: bool,
)
    requires
        kind == ObjKind::File || kind == ObjKind::Dir,
        fs.contains_key(src),
        kind_in(fs, src) == kind,
        dest.len() > 0,
        !prefix_of(dest.drop_last(), src),
        !fs.contains_key(dest),
        !fs.contains_key(stub_of(dest)),
        fs.contains_key(dest.drop_last()) ==> fs[dest.drop_last()] is Dir,
    ensures
        apply_steps(fs, add_plan(src, dest, kind, same_dev, privd)) is Some,
        ({
            let fs1 = apply_steps(fs, add_plan(src, dest, kind, same_dev, privd))->0;
            &&& fs1.contains_key(dest)
            &&& kind_in(fs1, dest) == kind
            &&& apply_steps(fs1, remove_plan(src, dest, kind_in(fs1, dest), same_dev2, privd2)) is Some
        }),
        ({
            let fs1 = apply_steps(fs, add_plan(src, dest, kind, same_dev, privd))->0;
            let fs2 = apply_steps(fs1, remove_plan(src, dest, kind_in(fs1, dest), same_dev2, privd2))->0;
            &&& fs2.contains_key(src)
            &&& fs2[src] == fs[src]
            &&& !fs2.contains_key(dest)
            &&& !fs2.contains_key(stub_of(dest))
        }),
{
    let dd = dest.drop_last();
    let stub = stub_of(dest);
    lemma_marker_differs(dest);
    assert(dest.subrange(0, dd.len() as int) =~= dd);
    assert(stub.subrange(0, dd.len() as int) =~= dd);
    assert(dd.subrange(0, dd.len() as int) =~= dd);
    assert(src != dest && src != stub && src != dd);
    assert(dd != dest && dd != stub);
    let node = fs[src];
    // adding
    let c = seq![(OpV::CreateDirAll(dd), false)];
    let r = relocate(src, dest, kind, same_dev, privd);
    let m: Seq<(OpV, bool)> = if kind == ObjKind::Dir {
        seq![(OpV::CreateStub(stub), false)]
    } else {
        Seq::empty()
    };
    let l = seq![(OpV::Symlink(dest, src), privd)];
    assert(add_plan(src, dest, kind, same_dev, privd) =~= c + r + m + l);
    lemma_apply_concat(fs, c + r + m, l);
    lemma_apply_concat(fs, c + r, m);
    lemma_apply_concat(fs, c, r);
    lemma_apply_one(fs, c);
    let f1 = apply_op(fs, OpV::CreateDirAll(dd))->0;
    assert(f1[src] == node && !f1.contains_key(dest) && !f1.contains_key(stub) && f1.contains_key(src));
    if same_dev && !privd {
        lemma_apply_one(f1, r);
    } else {
        lemma_apply_two(f1, r);
    }
    let f2 = apply_steps(f1, r)->0;
    assert(f2.contains_key(dest) && f2[dest] == node && !f2.contains_key(src) && !f2.contains_key(stub));
    let f3 = apply_steps(f2, m)->0;
    if kind == ObjKind::Dir {
        lemma_apply_one(f2, m);
        assert(f3 == f2.insert(stub, Node::File(0)));
    } else {
        assert(f3 == f2);
    }
    assert(f3.contains_key(dest) && f3[dest] == node && !f3.contains_key(src));
    lemma_apply_one(f3, l);
    let f4 = f3.insert(src, Node::Link(dest));
    assert(apply_steps(fs, add_plan(src, dest, kind, same_dev, privd)) == Some(f4));
    assert(kind_in(f4, dest) == kind);
    // removing
    let a = seq![(OpV::RemoveFile(src), privd2)];
    let s: Seq<(OpV, bool)> = if kind == ObjKind::Dir {
        seq![(OpV::RemoveFile(stub), false)]
    } else {
        Seq::empty()
    };
    let b = restore(dest, src, kind, same_dev2, privd2);
    assert(remove_plan(src, dest, kind, same_dev2, privd2) =~= a + s + b);
    lemma_apply_concat(f4, a + s, b);
    lemma_apply_concat(f4, a, s);
    lemma_apply_one(f4, a);
    let g1 = f4.remove(src);
    let g2 = apply_steps(g1, s)->0;
    if kind == ObjKind::Dir {
        lemma_apply_one(g1, s);
        assert(g2 == g1.remove(stub));
    } else {
        assert(g2 == g1);
    }
    assert(g2.contains_key(dest) && g2[dest] == node && !g2.contains_key(src) && !g2.contains_key(stub));
    if same_dev2 && !privd2 {
        lemma_apply_one(g2, b);
    } else {
        lemma_apply_two(g2, b);
    }
}

/// Adding a directory creates one marker, beside it, and no other.
pub proof fn law_dir_add_one_marker(src: PathV, dest: PathV, same_dev: bool, privd: bool)
    ensures
        ({
            let steps = add_plan(src, dest, ObjKind::Dir, same_dev, privd);
            exists|j: int|
                0 <= j < steps.len() && steps[j].0 == OpV::CreateStub(stub_of(dest)) && forall|j2: int|
                    0 <= j2 < steps.len() && (#[trigger] steps[j2]).0 is CreateStub ==> j2 == j
        }),
{
    let steps = add_plan(src, dest, ObjKind::Dir, same_dev, privd);
    if same_dev && !privd {
        assert(steps[2].0 == OpV::CreateStub(stub_of(dest)));
    } else {
        assert(steps[3].0 == OpV::CreateStub(stub_of(dest)));
    }
}

/// In a listing with distinct names, a directory with its marker beside it
/// is one entry, and is not looked into.
pub proof fn law_marked_dir_single_key(dir: PathV, items: Seq<(Seq<char>, ObjKind)>, i: int)
    requires
        0 <= i < items.len(),
        items[i].1 == ObjKind::Dir,
        has_marker(items, items[i].0),
        forall|a: int, b: int|
            0 <= a < items.len() && 0 <= b < items.len() && a != b ==> (#[trigger] items[a]).0
                != (#[trigger] items[b]).0,
    ensures
        leaves(dir, items, items.len()).contains(dir.push(items[i].0)),
        !subdirs(dir, items, items.len()).contains(dir.push(items[i].0)),
{
    lemma_leaves_contains(dir, items, items.len(), i);
    lemma_subdirs_excludes(dir, items, items.len(), items[i].0);
}

proof fn lemma_leaves_contains(dir: PathV, items: Seq<(Seq<char>, ObjKind)>, n: nat, i: int)
    requires
        0 <= i < n <= items.len(),
        items[i].1 == ObjKind::Dir,
        has_marker(items, items[i].0),
    ensures
        leaves(dir, items, n).contains(dir.push(items[i].0)),
    decreases n,
{
    let prev = leaves(dir, items, (n - 1) as nat);
    if i == n - 1 {
        assert(leaves(dir, items, n) == prev.push(dir.push(items[i].0)));
        assert(leaves(dir, items, n)[prev.len() as int] == dir.push(items[i].0));
    } else {
        lemma_leaves_contains(dir, items, (n - 1) as nat, i);
        let t = choose|t: int| 0 <= t < prev.len() && prev[t] == dir.push(items[i].0);
        if crate::scan::is_leaf(items, items[n - 1]) {
            assert(leaves(dir, items, n)[t] == dir.push(items[i].0));
        }
    }
}

proof fn lemma_subdirs_excludes(dir: PathV, items: Seq<(Seq<char>, ObjKind)>, n: nat, name: Seq<char>)
    requires
        n <= items.len(),
        has_marker(items, name),
    ensures
        !subdirs(dir, items, n).contains(dir.push(name)),
    decreases n,
{
    if n > 0 {
        lemma_subdirs_excludes(dir, items, (n - 1) as nat, name);
        let prev = subdirs(dir, items, (n - 1) as nat);
        if crate::scan::is_subdir(items, items[n - 1]) {
            assert(items[n - 1].0 != name);
            assert(dir.push(items[n - 1].0).last() != dir.push(name).last());
            assert(subdirs(dir, items, n) == prev.push(dir.push(items[n - 1].0)));
            assert forall|t: int| 0 <= t < subdirs(dir, items, n).len() implies subdirs(dir, items, n)[t]
                != dir.push(name) by {
                if t < prev.len() {
                    assert(subdirs(dir, items, n)[t] == prev[t]);
                }
            }
        }
    }
}

/// Removing a module's links never removes a link that points elsewhere
/// than that module's copy: where the steps are built from what a look at
/// the model shows, a `src` that links to another copy is left alone.
pub proof fn law_unlink_keeps_other_links(
    fs: FsModel,
    srcs: Seq<PathV>,
    dests: Seq<PathV>,
    obs: Seq<(bool, bool)>,
    s: PathV,
    other: PathV,
)
    requires
        srcs.len() == obs.len(),
        dests.len() == obs.len(),
        forall|i: int|
            0 <= i < obs.len() ==> ((#[trigger] obs[i]).0 <==> observe(fs, srcs[i]) == Some(
                (dests[i], ObjKind::Symlink),
            )),
        fs.contains_key(s),
        fs[s] == Node::Link(other),
        forall|i: int| 0 <= i < srcs.len() && #[trigger] srcs[i] == s ==> dests[i] != other,
    ensures
        forall|j: int|
            0 <= j < unlink_steps(srcs, obs, obs.len()).len() ==> (#[trigger] unlink_steps(
                srcs,
                obs,
                obs.len(),
            )[j]).0 != OpV::RemoveFile(s),
{
    lemma_unlink_keeps(fs, srcs, dests, obs, s, other, obs.len());
}

proof fn lemma_unlink_keeps(
    fs: FsModel,
    srcs: Seq<PathV>,
    dests: Seq<PathV>,
    obs: Seq<(bool, bool)>,
    s: PathV,
    other: PathV,
    n: nat,
)
    requires
        n <= obs.len(),
        srcs.len() == obs.len(),
        dests.len() == obs.len(),
        forall|i: int|
            0 <= i < obs.len() ==> ((#[trigger] obs[i]).0 <==> observe(fs, srcs[i]) == Some(
                (dests[i], ObjKind::Symlink),
            )),
        fs.contains_key(s),
        fs[s] == Node::Link(other),
        forall|i: int| 0 <= i < srcs.len() && #[trigger] srcs[i] == s ==> dests[i] != other,
    ensures
        forall|j: int|
            0 <= j < unlink_steps(srcs, obs, n).len() ==> (#[trigger] unlink_steps(srcs, obs, n)[j]).0
                != OpV::RemoveFile(s),
    decreases n,
{
    if n > 0 {
        lemma_unlink_keeps(fs, srcs, dests, obs, s, other, (n - 1) as nat);
        let prev = unlink_steps(srcs, obs, (n - 1) as nat);
        let i = n - 1;
        if obs[i].0 {
            if srcs[i] == s {
                assert(observe(fs, s) == Some((other, ObjKind::Symlink)));
                assert(dests[i] != other);
            }
            assert forall|j: int| 0 <= j < unlink_steps(srcs, obs, n).len() implies (#[trigger] unlink_steps(
                srcs,
                obs,
                n,
            )[j]).0 != OpV::RemoveFile(s) by {
                if j < prev.len() {
                    assert(unlink_steps(srcs, obs, n)[j] == prev[j]);
                }
            }
        }
    }
}

/// The three ways to an entry agree: from its key, from its real-world path
/// and from its repository copy the same key comes back. This holds for a
/// module inside the repository and a key whose real-world path lies outside
/// it; a root-relative key must neither lie below the home directory nor
/// start with `home`, or it would read back as home-relative.
pub proof fn law_entry_constructions_agree(home: PathV, repo: PathV, module_dir: PathV, k: KeyV)
    requires
        k.1.len() > 0,
        prefix_of(repo, module_dir),
        !prefix_of(repo, real_path(home, k)),
        !k.0 ==> !prefix_of(home, k.1) && k.1[0] != home_comp(),
    ensures
        key_of_src(home, repo, real_path(home, k)) == Ok::<KeyV, PathResolutionError>(k),
        key_of_dest(repo, module_dir, repo_path(module_dir, k)) == Ok::<KeyV, PathResolutionError>(k),
        key_of_path(home, repo, module_dir, real_path(home, k)) == Ok::<KeyV, PathResolutionError>(k),
        key_of_path(home, repo, module_dir, repo_path(module_dir, k)) == Ok::<KeyV, PathResolutionError>(k),
{
    let src = real_path(home, k);
    let dest = repo_path(module_dir, k);
    let rel = repo_rel(k);
    assert(dest.subrange(0, module_dir.len() as int) =~= module_dir);
    assert(dest.subrange(0, repo.len() as int) =~= module_dir.subrange(0, repo.len() as int));
    assert(dest.subrange(module_dir.len() as int, dest.len() as int) =~= rel);
    if k.0 {
        assert(src.subrange(0, home.len() as int) =~= home);
        assert(src.subrange(home.len() as int, src.len() as int) =~= k.1);
        assert(rel[0] == home_comp());
        assert(rel.drop_first() =~= k.1);
    }
    assert(!prefix_of(repo, src));
    assert(key_of_dest(repo, module_dir, src) == Err::<KeyV, PathResolutionError>(PathResolutionError::OutsideRepo));
}

} // verus!
