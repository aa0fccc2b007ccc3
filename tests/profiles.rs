use configma::config::{Config, Ctx, ModuleDesc, ProfileDesc};
use configma::entry::RelativePath;
use configma::error::Error;
use configma::module::{AddOutcome, Module, PathResolutionError};
use configma::ops::{FsOp, ObjKind, Step, TargetState};
use configma::path::FsPath;
use configma::profile::Profile;

fn p(s: &str) -> FsPath {
    FsPath::from_comps(
        s.split('/')
            .filter(|c| !c.is_empty())
            .map(|c| c.to_string())
            .collect(),
    )
}

fn ctx() -> Ctx {
    Ctx::new(p("/home/alice"), p("/home/alice/dots"), &p("/home/alice/.config/configma"), "42")
}

fn module(name: &str, home: &[&str], other: &[&str]) -> Module {
    Module::new(
        name.to_string(),
        p(&format!("/home/alice/dots/{}", name)),
        home.iter().map(|s| p(s)).collect(),
        other.iter().map(|s| p(s)).collect(),
    )
}

fn desc(name: &str, modules: &[&str]) -> ProfileDesc {
    ProfileDesc {
        name: name.to_string(),
        modules: modules.iter().map(|s| s.to_string()).collect(),
    }
}

fn profile(mods: Vec<Module>, active: &[&str], required: &[&str]) -> Profile {
    Profile::new(desc("main", active), desc("main", required), mods, &vec![]).unwrap()
}

fn plain(op: FsOp) -> Step {
    Step { op, privileged: false }
}

#[test]
fn module_index_holds_each_key_once() {
    let m = module("shell", &[".bashrc", ".bashrc", ".profile"], &["etc/hosts"]);
    assert_eq!(m.home_entries.len(), 2);
    assert_eq!(m.non_home_entries.len(), 1);
    let c = ctx();
    let e = m.entry_from_src(&p("/home/alice/.profile"), &c).unwrap();
    assert!(m.contains(&e));
    let e = m.entry_from_src(&p("/home/alice/.zshrc"), &c).unwrap();
    assert!(!m.contains(&e));
    assert!(m.contains_key(&RelativePath::NonHome(p("etc/hosts"))));
    assert!(!m.contains_key(&RelativePath::Home(p("etc/hosts"))));
    assert_eq!(m.entries(&c).len(), 3);
}

#[test]
fn module_add_records_one_key() {
    let mut m = module("shell", &[], &[]);
    let r = m.add(&p("/home/alice/.config/nvim"), &ctx(), ObjKind::Dir, true, false);
    match r {
        Ok(AddOutcome::Added(steps)) => {
            let stubs: Vec<&Step> = steps
                .iter()
                .filter(|s| matches!(s.op, FsOp::CreateStub(_)))
                .collect();
            assert_eq!(stubs.len(), 1);
        }
        other => panic!("unexpected {:?}", other),
    }
    assert_eq!(m.home_entries, vec![p(".config/nvim")]);
    let again = m.add(&p("/home/alice/.config/nvim"), &ctx(), ObjKind::Dir, true, false);
    assert!(matches!(again, Ok(AddOutcome::AlreadyManaged)));
    let inside = m.add(&p("/home/alice/.config/nvim/init.lua"), &ctx(), ObjKind::File, true, false);
    assert_eq!(inside, Err(Error::InsideManagedDir(p("/home/alice/.config/nvim/init.lua"))));
    let in_repo = m.add(&p("/home/alice/dots/shell/home/x"), &ctx(), ObjKind::File, true, false);
    assert!(matches!(in_repo, Ok(AddOutcome::InRepo)));
    let empty = m.add(&p("/home/alice"), &ctx(), ObjKind::Dir, true, false);
    assert_eq!(empty, Err(Error::PathResolution(PathResolutionError::EmptyKey)));
}

#[test]
fn module_remove_prunes_and_forgets() {
    let mut m = module("shell", &[".config/fish/config.fish"], &[]);
    let (e, steps) = m
        .remove(&p("/home/alice/.config/fish/config.fish"), &ctx(), ObjKind::File, true, false)
        .unwrap();
    assert_eq!(e.dest, p("/home/alice/dots/shell/home/.config/fish/config.fish"));
    assert_eq!(
        steps.last().unwrap(),
        &plain(FsOp::PruneEmptyDirs(vec![
            p("/home/alice/dots/shell/home/.config/fish"),
            p("/home/alice/dots/shell/home/.config"),
            p("/home/alice/dots/shell/home"),
        ]))
    );
    assert!(m.home_entries.is_empty());
    let again = m.remove(&p("/home/alice/.config/fish/config.fish"), &ctx(), ObjKind::File, true, false);
    assert_eq!(again, Err(Error::NotManaged(p("/home/alice/.config/fish/config.fish"))));
}

#[test]
fn unlink_all_only_removes_own_links() {
    let m = module("old", &[".bashrc", ".vimrc"], &[]);
    let c = ctx();
    let steps = m.unlink_all(false, &c, &vec![(true, false), (true, false)]).unwrap();
    assert_eq!(
        steps,
        vec![
            plain(FsOp::RemoveFile(p("/home/alice/.bashrc"))),
            plain(FsOp::RemoveFile(p("/home/alice/.vimrc"))),
        ]
    );
    let skipped = m.unlink_all(true, &c, &vec![(false, false), (true, true)]).unwrap();
    assert_eq!(
        skipped,
        vec![Step { op: FsOp::RemoveFile(p("/home/alice/.vimrc")), privileged: true }]
    );
    let refused = m.unlink_all(false, &c, &vec![(true, false), (false, false)]);
    assert_eq!(refused, Err(Error::Conflict(p("/home/alice/.vimrc"))));
}

#[test]
fn profile_needs_known_modules() {
    let mods = vec![module("shell", &[], &[])];
    let r = Profile::new(desc("main", &["shell"]), desc("main", &["shell", "work"]), mods, &vec![]);
    assert_eq!(r, Err(Error::ModuleNotFound("work".to_string())));
    let declared = vec![ModuleDesc { name: "gone".to_string(), path: None }];
    let mods = vec![module("shell", &[], &[])];
    let r = Profile::new(desc("main", &[]), desc("main", &[]), mods, &declared);
    assert_eq!(r, Err(Error::ModuleNotFound("gone".to_string())));
}

#[test]
fn profile_later_module_of_same_name_wins() {
    let first = module("shell", &[".a"], &[]);
    let mut second = module("shell", &[".b"], &[]);
    second.module_dir = p("/srv/shared/shell");
    let pr = profile(vec![first, second], &["shell"], &["shell"]);
    assert_eq!(pr.modules.len(), 1);
    assert_eq!(pr.modules[0].module_dir, p("/srv/shared/shell"));
}

#[test]
fn validate_finds_overlap() {
    let a = module("a", &[".config/nvim"], &[]);
    let b = module("b", &[".config/nvim/init.lua"], &[]);
    let pr = profile(vec![a, b], &["a", "b"], &["a", "b"]);
    match pr.validate() {
        Err(Error::Overlap { outer_module, outer, inner_module, inner }) => {
            assert_eq!(outer_module, "a");
            assert_eq!(outer, p(".config/nvim"));
            assert_eq!(inner_module, "b");
            assert_eq!(inner, p(".config/nvim/init.lua"));
        }
        other => panic!("unexpected {:?}", other),
    }
    let a = module("a", &[".config/nvim"], &["etc/nvim"]);
    let b = module("b", &[".config/nvim", "etc/nvim/x"], &[]);
    let pr = profile(vec![a, b], &["a", "b"], &["a", "b"]);
    assert_eq!(pr.validate(), Ok(()));
}

#[test]
fn sync_targets_take_highest_precedence() {
    let a = module("a", &[".bashrc", ".vimrc"], &[]);
    let b = module("b", &[".bashrc"], &[]);
    let pr = profile(vec![a, b], &[], &["a", "b"]);
    let t = pr.sync_targets(&ctx());
    assert_eq!(t.len(), 2);
    let bash = t.iter().find(|(_, e)| e.src == p("/home/alice/.bashrc")).unwrap();
    assert_eq!(bash.0, 1);
    assert_eq!(bash.1.dest, p("/home/alice/dots/b/home/.bashrc"));
    let vim = t.iter().find(|(_, e)| e.src == p("/home/alice/.vimrc")).unwrap();
    assert_eq!(vim.0, 0);
    assert_eq!(vim.1.dest, p("/home/alice/dots/a/home/.vimrc"));
}

#[test]
fn retired_modules() {
    let mods = vec![module("a", &[], &[]), module("b", &[], &[]), module("c", &[], &[])];
    let pr = profile(mods, &["a", "b", "a"], &["b", "c"]);
    assert_eq!(pr.retired(), vec!["a".to_string()]);
}

#[test]
fn sync_entry_links_missing_path() {
    let pr = profile(vec![module("shell", &[".bashrc"], &[])], &[], &["shell"]);
    let c = ctx();
    let e = pr.modules[0].entry_from_src(&p("/home/alice/.bashrc"), &c).unwrap();
    let steps = pr.sync_entry(&e, false, &TargetState::Absent, true, false, &c).unwrap();
    assert_eq!(
        steps,
        vec![
            plain(FsOp::CreateDirAll(p("/home/alice"))),
            plain(FsOp::Symlink {
                target: p("/home/alice/dots/shell/home/.bashrc"),
                at: p("/home/alice/.bashrc"),
            }),
        ]
    );
}

#[test]
fn sync_twice_changes_nothing() {
    let pr = profile(vec![module("shell", &[".bashrc"], &[])], &[], &["shell"]);
    let c = ctx();
    let e = pr.modules[0].entry_from_src(&p("/home/alice/.bashrc"), &c).unwrap();
    let linked = TargetState::Present { canonical: e.dest.clone(), kind: ObjKind::Symlink };
    assert_eq!(pr.sync_entry(&e, false, &linked, true, false, &c), Ok(vec![]));
    assert_eq!(pr.sync_entry(&e, true, &linked, false, true, &c), Ok(vec![]));
}

#[test]
fn sync_conflict_without_force() {
    let pr = profile(vec![module("shell", &[".bashrc"], &[])], &[], &["shell"]);
    let c = ctx();
    let e = pr.modules[0].entry_from_src(&p("/home/alice/.bashrc"), &c).unwrap();
    let file = TargetState::Present { canonical: e.src.clone(), kind: ObjKind::File };
    assert_eq!(
        pr.sync_entry(&e, false, &file, true, false, &c),
        Err(Error::Conflict(p("/home/alice/.bashrc")))
    );
}

#[test]
fn sync_forced_dumps_conflict() {
    let pr = profile(vec![module("shell", &[".bashrc"], &[])], &[], &["shell"]);
    let c = ctx();
    let e = pr.modules[0].entry_from_src(&p("/home/alice/.bashrc"), &c).unwrap();
    let file = TargetState::Present { canonical: e.src.clone(), kind: ObjKind::File };
    let steps = pr.sync_entry(&e, true, &file, true, false, &c).unwrap();
    assert_eq!(
        steps,
        vec![
            plain(FsOp::CreateDirAll(p("/home/alice/.config/configma/dumps/42/home"))),
            plain(FsOp::Rename {
                from: p("/home/alice/.bashrc"),
                to: p("/home/alice/.config/configma/dumps/42/home/.bashrc"),
            }),
            plain(FsOp::Symlink {
                target: p("/home/alice/dots/shell/home/.bashrc"),
                at: p("/home/alice/.bashrc"),
            }),
        ]
    );
    let odd = TargetState::Present { canonical: e.src.clone(), kind: ObjKind::Other };
    assert_eq!(
        pr.sync_entry(&e, true, &odd, true, false, &c),
        Err(Error::UnsupportedObjectType(p("/home/alice/.bashrc")))
    );
}

#[test]
fn profile_add_checks_precedence() {
    let a = module("a", &[], &[]);
    let b = module("b", &[".bashrc"], &[]);
    let mut pr = profile(vec![a, b], &["a", "b"], &["a", "b"]);
    let c = ctx();
    let r = pr.add(&p("/home/alice/.bashrc"), &c, "a", ObjKind::File, true, false);
    assert_eq!(r, Err(Error::PrecedenceShadow("b".to_string())));
    let r = pr.add(&p("/home/alice/.bashrc"), &c, "zzz", ObjKind::File, true, false);
    assert_eq!(r, Err(Error::ModuleNotActive("zzz".to_string())));
    let r = pr.add(&p("/home/alice/.vimrc"), &c, "a", ObjKind::File, true, false);
    assert!(matches!(r, Ok(AddOutcome::Added(_))));
    assert_eq!(pr.modules.iter().find(|m| m.name == "a").unwrap().home_entries, vec![p(".vimrc")]);
}

#[test]
fn profile_remove_relinks_next_owner() {
    let a = module("a", &[".bashrc"], &[]);
    let b = module("b", &[".bashrc"], &[]);
    let mut pr = profile(vec![a, b], &["a", "b"], &["a", "b"]);
    let c = ctx();
    let (e, _steps, relink) = pr
        .remove(&p("/home/alice/.bashrc"), &c, "b", ObjKind::File, true, false)
        .unwrap();
    assert_eq!(e.dest, p("/home/alice/dots/b/home/.bashrc"));
    let (pos, next) = relink.unwrap();
    assert_eq!(pos, 0);
    assert_eq!(next.dest, p("/home/alice/dots/a/home/.bashrc"));
    let r = pr.remove(&p("/home/alice/.bashrc"), &c, "c", ObjKind::File, true, false);
    assert_eq!(r, Err(Error::ModuleNotActive("c".to_string())));
}

#[test]
fn remove_from_active_takes_highest() {
    let a = module("a", &[".bashrc"], &[]);
    let b = module("b", &[".bashrc"], &[]);
    let mut pr = profile(vec![a, b], &["a", "b"], &["a", "b"]);
    let c = ctx();
    assert_eq!(pr.active_owner(&p("/home/alice/.bashrc"), &c), Some(1));
    let (e, _steps, relink) = pr
        .remove_from_active(&p("/home/alice/.bashrc"), &c, ObjKind::File, true, false)
        .unwrap();
    assert_eq!(e.dest, p("/home/alice/dots/b/home/.bashrc"));
    assert_eq!(relink.unwrap().1.dest, p("/home/alice/dots/a/home/.bashrc"));
    let (e2, _s, relink2) = pr
        .remove_from_active(&p("/home/alice/.bashrc"), &c, ObjKind::File, true, false)
        .unwrap();
    assert_eq!(e2.dest, p("/home/alice/dots/a/home/.bashrc"));
    assert!(relink2.is_none());
    let r = pr.remove_from_active(&p("/home/alice/.bashrc"), &c, ObjKind::File, true, false);
    assert_eq!(r, Err(Error::NoActiveModuleContains(p("/home/alice/.bashrc"))));
}

#[test]
fn config_lookups() {
    let conf = Config {
        repo: "~/dots".to_string(),
        default_module: Some("shell".to_string()),
        profiles: vec![desc("main", &["shell"]), desc("work", &["work"])],
        modules: vec![],
    };
    assert_eq!(conf.find_profile("work"), Ok(desc("work", &["work"])));
    assert_eq!(conf.find_profile("nope"), Err(Error::ProfileNotFound("nope".to_string())));
    assert_eq!(conf.check_default_module(&vec!["shell".to_string()]), Ok(()));
    assert_eq!(
        conf.check_default_module(&vec!["work".to_string()]),
        Err(Error::DefaultModuleNotInProfile("shell".to_string()))
    );
}

#[test]
fn bashrc_scenario() {
    let mut pr = profile(vec![module("shell", &[], &[])], &["shell"], &["shell"]);
    let c = ctx();
    let added = pr
        .add(&c_path(&c, "~/.bashrc"), &c, "shell", ObjKind::File, true, false)
        .unwrap();
    let repo_copy = p("/home/alice/dots/shell/home/.bashrc");
    match added {
        AddOutcome::Added(steps) => {
            assert_eq!(
                steps[1],
                plain(FsOp::Rename { from: p("/home/alice/.bashrc"), to: repo_copy.clone() })
            );
            assert_eq!(
                steps[2],
                plain(FsOp::Symlink { target: repo_copy.clone(), at: p("/home/alice/.bashrc") })
            );
        }
        other => panic!("unexpected {:?}", other),
    }
    let (_e, steps, relink) = pr
        .remove(&c_path(&c, "~/.bashrc"), &c, "shell", ObjKind::File, true, false)
        .unwrap();
    assert_eq!(steps[0], plain(FsOp::RemoveFile(p("/home/alice/.bashrc"))));
    assert_eq!(
        steps[1],
        plain(FsOp::Rename { from: repo_copy.clone(), to: p("/home/alice/.bashrc") })
    );
    assert!(relink.is_none());
    assert!(pr.modules[0].home_entries.is_empty());
}

fn c_path(c: &Ctx, s: &str) -> FsPath {
    p(&c.expand_home(s))
}
