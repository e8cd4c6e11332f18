use shellcanvas_drive_bridge::error::FsErrorKind;
use shellcanvas_drive_bridge::path::MountPath;

fn path(parts: &[&str]) -> MountPath {
    parts
        .iter()
        .fold(MountPath::root(), |p, c| p.child(c).unwrap())
}

#[test]
fn mount_paths_cannot_escape_or_inject_native_namespaces() {
    for name in [
        "",
        ".",
        "..",
        "../outside",
        "a/b",
        "a\\b",
        "C:",
        "file:stream",
        "nul\0",
    ] {
        assert!(MountPath::root().child(name).is_err(), "{name:?}");
    }
    let path = MountPath::root()
        .child("資料")
        .unwrap()
        .child("hello world.txt")
        .unwrap();
    assert_eq!(path.components(), &["資料", "hello world.txt"]);
    assert_eq!(path.parent().unwrap().parent().unwrap(), MountPath::root());
    assert!(MountPath::root().parent().is_none());
}

#[test]
fn invalid_names_say_why() {
    let error = MountPath::root().child("..").unwrap_err();
    assert_eq!(error.kind, FsErrorKind::InvalidInput);
    assert_eq!(error.display(), "Invalid mounted filename");
}

#[test]
fn names_that_only_look_odd_are_kept() {
    for name in ["...", " ", "-", "a.b.c", "..a", "a..", "é"] {
        let path = MountPath::root().child(name).unwrap();
        assert_eq!(path.components(), &[name]);
        assert_eq!(path.depth(), 1);
    }
}

#[test]
fn paths_are_built_from_names_or_not_at_all() {
    let names: Vec<String> = vec!["a".to_owned(), "b".to_owned()];
    let built = MountPath::try_from(names.clone()).unwrap();
    assert_eq!(built, path(&["a", "b"]));
    assert_eq!(built.into_components(), names);
    assert!(MountPath::try_from(vec!["..".to_owned(), "etc".to_owned()]).is_err());
    assert!(MountPath::try_from(vec!["etc".to_owned(), "..".to_owned()]).is_err());
    assert_eq!(MountPath::try_from(Vec::new()).unwrap(), MountPath::root());
    assert_eq!(MountPath::default(), MountPath::root());
}

#[test]
fn a_rename_moves_descendants_and_comes_back() {
    let file = path(&["old", "nested", "file"]);
    let moved = file.rebase(&path(&["old"]), &path(&["new", "place"])).unwrap();
    assert_eq!(moved, path(&["new", "place", "nested", "file"]));
    assert_eq!(moved.rebase(&path(&["new", "place"]), &path(&["old"])).unwrap(), file);
    assert!(path(&["older", "file"]).rebase(&path(&["old"]), &path(&["new"])).is_none());
    assert!(file.is_within(&path(&["old", "nested"])));
    assert!(!path(&["old"]).is_within(&file));
    assert!(file.same(&path(&["old", "nested", "file"])));
    assert!(!file.same(&path(&["old", "nested"])));
}
