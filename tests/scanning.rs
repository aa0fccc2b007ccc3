use configma::ops::ObjKind;
use configma::path::FsPath;
use configma::scan::{classify, is_marker, without_home, DirItem, Scanner};

fn p(s: &str) -> FsPath {
    FsPath::from_comps(
        s.split('/')
            .filter(|c| !c.is_empty())
            .map(|c| c.to_string())
            .collect(),
    )
}

fn item(name: &str, kind: ObjKind) -> DirItem {
    DirItem { name: name.to_string(), kind }
}

#[test]
fn marker_shape() {
    assert!(is_marker(".nvim.configma.stub"));
    assert!(!is_marker(".configma.stub"));
    assert!(!is_marker("nvim.configma.stub"));
    assert!(!is_marker(".nvim.configma.stubs"));
    assert!(!is_marker(".bashrc"));
}

#[test]
fn marked_directory_is_one_entry() {
    let listing = vec![
        item("nvim", ObjKind::Dir),
        item(".nvim.configma.stub", ObjKind::File),
        item("fish", ObjKind::Dir),
        item("starship.toml", ObjKind::File),
        item("old", ObjKind::Symlink),
    ];
    let (found, todo) = classify(&p(".config"), &listing);
    assert_eq!(found, vec![p(".config/nvim"), p(".config/starship.toml")]);
    assert_eq!(todo, vec![p(".config/fish")]);
}

#[test]
fn scanner_walks_without_recursion() {
    let mut s = Scanner::new();
    let root = s.next_dir().unwrap();
    assert_eq!(root, FsPath::new());
    s.visit(&root, &vec![item(".bashrc", ObjKind::File), item(".config", ObjKind::Dir)]);
    let d = s.next_dir().unwrap();
    assert_eq!(d, p(".config"));
    s.visit(&d, &vec![item("git", ObjKind::Dir)]);
    let d = s.next_dir().unwrap();
    s.visit(&d, &vec![item("config", ObjKind::File)]);
    assert!(s.next_dir().is_none());
    assert_eq!(s.found, vec![p(".bashrc"), p(".config/git/config")]);
}

#[test]
fn module_root_listing_skips_home() {
    let listing = vec![
        item("home", ObjKind::Dir),
        item("etc", ObjKind::Dir),
        item("home", ObjKind::File),
    ];
    let kept = without_home(&listing);
    assert_eq!(kept.len(), 2);
    assert_eq!(kept[0].name, "etc");
    assert_eq!(kept[1].kind, ObjKind::File);
}
