use configma::config::{Convenience, Ctx};
use configma::entry::{marker_for, stub_path, Entry, RelativePath};
use configma::error::Error;
use configma::module::{Module, PathResolutionError};
use configma::ops::{FsOp, ObjKind, Step};
use configma::path::FsPath;

fn p(s: &str) -> FsPath {
    FsPath::from_comps(
        s.split('/')
            .filter(|c| !c.is_empty())
            .map(|c| c.to_string())
            .collect(),
    )
}

fn ctx() -> Ctx {
    Ctx::new(
        p("/home/alice"),
        p("/home/alice/dots"),
        &p("/home/alice/.config/configma"),
        "1700000000000",
    )
}

fn module(name: &str) -> Module {
    Module::new(
        name.to_string(),
        p(&format!("/home/alice/dots/{}", name)),
        vec![],
        vec![],
    )
}

fn plain(op: FsOp) -> Step {
    Step { op, privileged: false }
}

#[test]
fn path_join_and_prefix() {
    let a = p("/home/alice");
    let b = p(".config/nvim");
    let j = a.join(&b);
    assert_eq!(j, p("/home/alice/.config/nvim"));
    assert!(j.starts_with(&a));
    assert!(!a.starts_with(&j));
    assert!(!p("/home/alicia/x").starts_with(&a));
    assert_eq!(j.parent(), p("/home/alice/.config"));
    assert_eq!(j.last(), "nvim");
    assert_eq!(j.skip(2), b);
    assert_eq!(j.take(2), a);
    assert!(j.same(&p("/home/alice/.config/nvim")));
    assert_eq!(j.to_path_string(), "/home/alice/.config/nvim");
    assert_eq!(FsPath::new().to_path_string(), "/");
    assert_eq!(j.name(), "nvim");
}

#[test]
fn context_layout() {
    let c = ctx();
    assert_eq!(c.dump_dir, p("/home/alice/.config/configma/dumps/1700000000000"));
    assert_eq!(c.profile_file, p("/home/alice/.config/configma/profile.active.toml"));
    assert_eq!(c.canon_repo, p("/home/alice/dots"));
}

#[test]
fn tilde_expands_to_home() {
    let c = ctx();
    assert_eq!(c.expand_home("~/.bashrc"), "/home/alice/.bashrc");
    assert_eq!(c.expand_home("~"), "/home/alice");
    assert_eq!(c.expand_home("~bob/.bashrc"), "~bob/.bashrc");
    assert_eq!(c.expand_home("/etc/hosts"), "/etc/hosts");
    assert_eq!(c.expand_home("a/~/b"), "a/~/b");
}

#[test]
fn relative_key_paths() {
    let h = RelativePath::Home(p(".bashrc"));
    assert_eq!(h.path(), &p(".bashrc"));
    assert!(h.is_home());
    assert_eq!(h.relative(), p("home/.bashrc"));
    let n = RelativePath::NonHome(p("etc/hosts"));
    assert!(!n.is_home());
    assert_eq!(n.relative(), p("etc/hosts"));
}

#[test]
fn entry_from_home_source() {
    let m = module("shell");
    let e = m.entry_from_src(&p("/home/alice/.bashrc"), &ctx()).unwrap();
    assert_eq!(e.relative, RelativePath::Home(p(".bashrc")));
    assert_eq!(e.src, p("/home/alice/.bashrc"));
    assert_eq!(e.dest, p("/home/alice/dots/shell/home/.bashrc"));
}

#[test]
fn entry_from_root_source() {
    let m = module("sys");
    let e = m.entry_from_src(&p("/etc/hosts"), &ctx()).unwrap();
    assert_eq!(e.relative, RelativePath::NonHome(p("etc/hosts")));
    assert_eq!(e.dest, p("/home/alice/dots/sys/etc/hosts"));
}

#[test]
fn entry_from_source_in_repo_is_refused() {
    let m = module("shell");
    let r = m.entry_from_src(&p("/home/alice/dots/shell/home/.bashrc"), &ctx());
    assert_eq!(r, Err(PathResolutionError::InRepo));
    assert_eq!(
        m.entry_from_src(&p("/home/alice"), &ctx()),
        Err(PathResolutionError::EmptyKey)
    );
    assert_eq!(m.entry_from_src(&p("/"), &ctx()), Err(PathResolutionError::EmptyKey));
}

#[test]
fn entry_from_repository_copy() {
    let m = module("shell");
    let e = m
        .entry_from_dest(&p("/home/alice/dots/shell/home/.config/fish"), &ctx())
        .unwrap();
    assert_eq!(e.relative, RelativePath::Home(p(".config/fish")));
    assert_eq!(e.src, p("/home/alice/.config/fish"));
    let e = m
        .entry_from_dest(&p("/home/alice/dots/shell/etc/profile"), &ctx())
        .unwrap();
    assert_eq!(e.relative, RelativePath::NonHome(p("etc/profile")));
    assert_eq!(e.src, p("/etc/profile"));
    assert_eq!(
        m.entry_from_dest(&p("/etc/profile"), &ctx()),
        Err(PathResolutionError::OutsideRepo)
    );
    assert_eq!(
        m.entry_from_dest(&p("/home/alice/dots/other/home/x"), &ctx()),
        Err(PathResolutionError::OutsideModule)
    );
    assert_eq!(
        m.entry_from_dest(&p("/home/alice/dots/shell/home"), &ctx()),
        Err(PathResolutionError::EmptyKey)
    );
}

#[test]
fn three_constructions_agree() {
    let m = module("shell");
    let c = ctx();
    let k = RelativePath::Home(p(".gitconfig"));
    let a = m.entry_from_relative(&k, &c);
    let b = m.entry_from_src(&a.src, &c).unwrap();
    let d = m.entry_from_dest(&a.dest, &c).unwrap();
    assert_eq!(a, b);
    assert_eq!(a, d);
    assert_eq!(m.entry(&a.src, &c).unwrap(), a);
    assert_eq!(m.entry(&a.dest, &c).unwrap(), a);
}

#[test]
fn privilege_need() {
    let m = module("sys");
    let c = ctx();
    let e = m.entry_from_src(&p("/etc/hosts"), &c).unwrap();
    assert_eq!(e.needs_priv(Some(0)), Ok(true));
    assert_eq!(e.needs_priv(Some(1000)), Ok(false));
    assert_eq!(e.needs_priv(None), Err(Error::NoExistingAncestor(p("/etc/hosts"))));
    let h = m.entry_from_src(&p("/home/alice/.bashrc"), &c).unwrap();
    assert_eq!(h.needs_priv(Some(0)), Ok(false));
    assert_eq!(h.needs_priv(None), Ok(false));
}

#[test]
fn add_file_same_device_renames() {
    let m = module("shell");
    let e = m.entry_from_src(&p("/home/alice/.bashrc"), &ctx()).unwrap();
    let steps = e.add(ObjKind::File, true, false).unwrap();
    assert_eq!(
        steps,
        vec![
            plain(FsOp::CreateDirAll(p("/home/alice/dots/shell/home"))),
            plain(FsOp::Rename {
                from: p("/home/alice/.bashrc"),
                to: p("/home/alice/dots/shell/home/.bashrc"),
            }),
            plain(FsOp::Symlink {
                target: p("/home/alice/dots/shell/home/.bashrc"),
                at: p("/home/alice/.bashrc"),
            }),
        ]
    );
}

#[test]
fn add_root_owned_dir_copies_with_privilege() {
    let m = module("sys");
    let e = m.entry_from_src(&p("/etc/nginx"), &ctx()).unwrap();
    let steps = e.add(ObjKind::Dir, true, true).unwrap();
    assert_eq!(
        steps,
        vec![
            plain(FsOp::CreateDirAll(p("/home/alice/dots/sys/etc"))),
            plain(FsOp::CopyDir {
                from: p("/etc/nginx"),
                to: p("/home/alice/dots/sys/etc/nginx"),
            }),
            Step { op: FsOp::RemoveDirAll(p("/etc/nginx")), privileged: true },
            plain(FsOp::CreateStub(p("/home/alice/dots/sys/etc/.nginx.configma.stub"))),
            Step {
                op: FsOp::Symlink {
                    target: p("/home/alice/dots/sys/etc/nginx"),
                    at: p("/etc/nginx"),
                },
                privileged: true,
            },
        ]
    );
}

#[test]
fn add_symlink_keeps_the_link() {
    let m = module("shell");
    let e = m.entry_from_src(&p("/home/alice/.vimrc"), &ctx()).unwrap();
    let steps = e.add(ObjKind::Symlink, true, false).unwrap();
    assert_eq!(
        steps[1],
        plain(FsOp::CopyLink {
            from: p("/home/alice/.vimrc"),
            to: p("/home/alice/dots/shell/home/.vimrc"),
        })
    );
    assert_eq!(steps[2], plain(FsOp::RemoveFile(p("/home/alice/.vimrc"))));
    assert_eq!(steps.len(), 4);
}

#[test]
fn add_unsupported_object() {
    let m = module("shell");
    let e = m.entry_from_src(&p("/home/alice/fifo"), &ctx()).unwrap();
    assert_eq!(
        e.add(ObjKind::Other, true, false),
        Err(Error::UnsupportedObjectType(p("/home/alice/fifo")))
    );
    assert_eq!(
        e.remove(ObjKind::Other, true, false),
        Err(Error::UnsupportedObjectType(p("/home/alice/fifo")))
    );
}

#[test]
fn remove_dir_restores_and_drops_marker() {
    let m = module("shell");
    let e = m.entry_from_src(&p("/home/alice/.config/nvim"), &ctx()).unwrap();
    let steps = e.remove(ObjKind::Dir, false, false).unwrap();
    assert_eq!(
        steps,
        vec![
            plain(FsOp::RemoveFile(p("/home/alice/.config/nvim"))),
            plain(FsOp::RemoveFile(p(
                "/home/alice/dots/shell/home/.config/.nvim.configma.stub"
            ))),
            plain(FsOp::CopyDir {
                from: p("/home/alice/dots/shell/home/.config/nvim"),
                to: p("/home/alice/.config/nvim"),
            }),
            plain(FsOp::RemoveDirAll(p("/home/alice/dots/shell/home/.config/nvim"))),
        ]
    );
}

#[test]
fn dump_moves_aside_then_links() {
    let m = module("shell");
    let c = ctx();
    let e = m.entry_from_src(&p("/home/alice/.bashrc"), &c).unwrap();
    assert_eq!(
        e.dump_target(&c.dump_dir),
        p("/home/alice/.config/configma/dumps/1700000000000/home/.bashrc")
    );
    let steps = e.dump(&c.dump_dir, ObjKind::File, false, false).unwrap();
    assert_eq!(
        steps[1],
        plain(FsOp::CopyFile {
            from: p("/home/alice/.bashrc"),
            to: p("/home/alice/.config/configma/dumps/1700000000000/home/.bashrc"),
        })
    );
    assert_eq!(steps[2], plain(FsOp::RemoveFile(p("/home/alice/.bashrc"))));
    assert_eq!(steps.len(), 4);
}

#[test]
fn single_steps() {
    let m = module("shell");
    let e: Entry = m.entry_from_src(&p("/home/alice/.bashrc"), &ctx()).unwrap();
    assert_eq!(
        e.rm_src_file(true),
        Step { op: FsOp::RemoveFile(p("/home/alice/.bashrc")), privileged: true }
    );
    assert_eq!(
        e.symlink_to_src(false),
        plain(FsOp::Symlink {
            target: p("/home/alice/dots/shell/home/.bashrc"),
            at: p("/home/alice/.bashrc"),
        })
    );
}

#[test]
fn marker_names() {
    assert_eq!(marker_for("nvim"), ".nvim.configma.stub");
    assert_eq!(stub_path(&p("/r/m/home/.config/nvim")), p("/r/m/home/.config/.nvim.configma.stub"));
}
