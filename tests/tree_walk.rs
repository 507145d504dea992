use eacopy::{
    Completed, Config, CopyRun, DirChild, completion, EACopy, EntryAction, EntryKind, Error, FsPath, PathInfo, PathKind,
    TreeWalker, WalkStep,
};

fn rel(parts: &[&str]) -> FsPath {
    FsPath::relative(parts.iter().map(|s| s.to_string()).collect())
}

fn abs(parts: &[&str]) -> FsPath {
    FsPath::absolute(parts.iter().map(|s| s.to_string()).collect())
}

fn child(name: &str, kind: EntryKind, target: Option<EntryKind>, size: u64) -> DirChild {
    DirChild { name: name.to_string(), kind, target, size, attributes: 0, mtime: 0, ctime: 0 }
}

#[test]
fn parents_come_before_children() {
    let mut w = TreeWalker::new(false);
    let mut order = Vec::new();
    loop {
        match w.step() {
            WalkStep::NeedListing(dir) => {
                let listing = if dir == rel(&[]) {
                    vec![child("a", EntryKind::Directory, None, 0)]
                } else if dir == rel(&["a"]) {
                    vec![child("b", EntryKind::Directory, None, 0)]
                } else if dir == rel(&["a", "b"]) {
                    vec![child("c.txt", EntryKind::File, None, 3)]
                } else {
                    panic!("unexpected listing request {:?}", dir)
                };
                w.supply_listing(listing);
            }
            WalkStep::Entry(e) => order.push(e.relative_path.render()),
            WalkStep::Done => break,
        }
    }
    assert_eq!(order, vec!["a", "a/b", "a/b/c.txt"]);
}

#[test]
fn siblings_keep_listing_order_and_bad_subtree_is_skipped() {
    let mut w = TreeWalker::new(false);
    assert_eq!(w.step(), WalkStep::NeedListing(rel(&[])));
    w.supply_listing(vec![
        child("locked", EntryKind::Directory, None, 0),
        child("x", EntryKind::File, None, 1),
        child("y", EntryKind::File, None, 2),
    ]);
    match w.step() {
        WalkStep::Entry(e) => assert_eq!(e.relative_path, rel(&["locked"])),
        other => panic!("unexpected {:?}", other),
    }
    assert_eq!(w.step(), WalkStep::NeedListing(rel(&["locked"])));
    assert_eq!(w.supply_error(), Some(rel(&["locked"])));
    let mut rest = Vec::new();
    loop {
        match w.step() {
            WalkStep::Entry(e) => rest.push(e.relative_path.render()),
            WalkStep::Done => break,
            WalkStep::NeedListing(d) => panic!("unexpected listing of {:?}", d),
        }
    }
    assert_eq!(rest, vec!["x", "y"]);
}

#[test]
fn links_are_not_traversed_unless_followed() {
    let mut w = TreeWalker::new(false);
    w.step();
    w.supply_listing(vec![child("link", EntryKind::Symlink, Some(EntryKind::Directory), 0)]);
    match w.step() {
        WalkStep::Entry(e) => {
            assert_eq!(e.kind, EntryKind::Symlink);
            assert!(!e.dangling);
        }
        other => panic!("unexpected {:?}", other),
    }
    assert_eq!(w.step(), WalkStep::Done);

    let mut f = TreeWalker::new(true);
    f.step();
    f.supply_listing(vec![child("link", EntryKind::Symlink, Some(EntryKind::Directory), 0)]);
    match f.step() {
        WalkStep::Entry(e) => assert_eq!(e.kind, EntryKind::Directory),
        other => panic!("unexpected {:?}", other),
    }
    assert_eq!(f.step(), WalkStep::NeedListing(rel(&["link"])));
}

#[test]
fn dangling_link_is_omitted_when_ignored() {
    let engine = EACopy::new();
    let src = PathInfo { path: abs(&["src"]), kind: PathKind::Directory, size: 0 };
    let dst = PathInfo { path: abs(&["dst"]), kind: PathKind::Missing, size: 0 };
    let mut tree = engine.copytree(&src, &dst, true, true, false).unwrap();
    let mut run = CopyRun::new(engine.config);
    loop {
        match tree.walker.step() {
            WalkStep::NeedListing(_) => tree.walker.supply_listing(vec![
                child("broken", EntryKind::Symlink, None, 0),
                child("ok.txt", EntryKind::File, None, 5),
            ]),
            WalkStep::Entry(e) => match tree.plan_entry(&e) {
                Ok(a @ EntryAction::Skip) => run.on_success(completion(&a, 0)),
                Ok(a @ EntryAction::CopyFile(_)) => {
                    let size = match &a {
                        EntryAction::CopyFile(p) => p.transfer.size,
                        _ => 0,
                    };
                    assert_eq!(completion(&a, size), Completed::File(5));
                    run.on_success(completion(&a, size))
                }
                other => panic!("unexpected {:?}", other),
            },
            WalkStep::Done => break,
        }
    }
    let r = run.finish();
    assert_eq!(r.files_copied, 1);
    assert_eq!(r.bytes_transferred, 5);
    assert!(r.errors.is_empty());
}

#[test]
fn dangling_link_fails_when_followed_and_not_ignored() {
    let engine = EACopy::new();
    let src = PathInfo { path: abs(&["src"]), kind: PathKind::Directory, size: 0 };
    let dst = PathInfo { path: abs(&["dst"]), kind: PathKind::Missing, size: 0 };
    let mut tree = engine.copytree(&src, &dst, true, false, false).unwrap();
    tree.walker.step();
    tree.walker.supply_listing(vec![child("broken", EntryKind::Symlink, None, 0)]);
    match tree.walker.step() {
        WalkStep::Entry(e) => assert_eq!(tree.plan_entry(&e), Err(Error::FileNotFound(abs(&["src", "broken"])))),
        other => panic!("unexpected {:?}", other),
    }
}

#[test]
fn repeated_tree_copy_plans_the_same() {
    let engine = EACopy::new();
    let src = PathInfo { path: abs(&["src"]), kind: PathKind::Directory, size: 0 };
    let before = PathInfo { path: abs(&["dst"]), kind: PathKind::Missing, size: 0 };
    let after = PathInfo { path: abs(&["dst"]), kind: PathKind::Directory, size: 0 };
    let mut totals = Vec::new();
    let mut plans = Vec::new();
    for dst in [&before, &after] {
        let mut tree = engine.copytree(&src, dst, false, false, true).unwrap();
        let mut run = CopyRun::new(engine.config);
        loop {
            match tree.walker.step() {
                WalkStep::NeedListing(d) => {
                    if d == rel(&[]) {
                        tree.walker.supply_listing(vec![
                            child("sub", EntryKind::Directory, None, 0),
                            child("top.bin", EntryKind::File, None, 100),
                        ]);
                    } else {
                        tree.walker.supply_listing(vec![child("inner.bin", EntryKind::File, None, 23)]);
                    }
                }
                WalkStep::Entry(e) => {
                    let action = tree.plan_entry(&e).unwrap();
                    match &action {
                        EntryAction::CreateDirectory(_) => run.on_success(Completed::Directory),
                        EntryAction::CopyFile(p) => run.on_success(Completed::File(p.transfer.size)),
                        other => panic!("unexpected {:?}", other),
                    }
                    plans.push(action);
                }
                WalkStep::Done => break,
            }
        }
        totals.push(run.finish().bytes_transferred);
    }
    assert_eq!(totals, vec![123, 123]);
    assert_eq!(plans[0..3], plans[3..6]);
    assert_eq!(plans[0], EntryAction::CreateDirectory(abs(&["dst", "sub"])));
}

#[test]
fn existing_destination_is_refused_without_dirs_exist_ok() {
    let engine = EACopy::new();
    let src = PathInfo { path: abs(&["src"]), kind: PathKind::Directory, size: 0 };
    let dst = PathInfo { path: abs(&["dst"]), kind: PathKind::Directory, size: 0 };
    assert!(matches!(engine.copytree(&src, &dst, false, false, false), Err(Error::DestinationExists(_))));
    let not_dir = PathInfo { path: abs(&["file"]), kind: PathKind::File, size: 1 };
    assert!(matches!(engine.copytree(&not_dir, &dst, false, false, true), Err(Error::InvalidArgument(_))));
    let gone = PathInfo { path: abs(&["gone"]), kind: PathKind::Missing, size: 0 };
    assert_eq!(
        engine.copytree(&gone, &dst, false, false, true).err(),
        Some(Error::DirectoryNotFound(abs(&["gone"])))
    );
}
