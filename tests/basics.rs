use eacopy::{
    Config, EACopy, Error, ErrorStrategy, FsPath, GlobalConfig, LogLevel, PathInfo, PathKind, batch_copy, copy,
    copy2, copyfile, delta_copy, file_name, from_error_code, global_config, is_absolute, join_paths, parent_dir,
    path_to_wide_string, to_wide_string, reset_global_config, set_global_config, batch_copytree,
};

fn rel(parts: &[&str]) -> FsPath {
    FsPath::relative(parts.iter().map(|s| s.to_string()).collect())
}

fn abs(parts: &[&str]) -> FsPath {
    FsPath::absolute(parts.iter().map(|s| s.to_string()).collect())
}

#[test]
fn error_codes_map_to_kinds() {
    let p = abs(&["data", "f.txt"]);
    assert_eq!(from_error_code(2, Some(&p)), Error::FileNotFound(p.clone()));
    assert_eq!(from_error_code(3, Some(&p)), Error::DirectoryNotFound(p.clone()));
    assert_eq!(from_error_code(5, Some(&p)), Error::PermissionDenied(p.clone()));
    assert_eq!(from_error_code(112, Some(&p)), Error::DiskFull(p.clone(), 0, 0));
    assert_eq!(from_error_code(1392, Some(&p)), Error::FileTooLarge(p.clone(), 0));
    assert_eq!(from_error_code(13, Some(&p)), Error::InvalidArgument("Invalid data for /data/f.txt".to_string()));
    assert_eq!(
        from_error_code(32, Some(&p)),
        Error::Interrupted("Operation on /data/f.txt was interrupted".to_string())
    );
    assert_eq!(from_error_code(10060, None), Error::Timeout("Connection timed out for <unknown>".to_string()));
    assert_eq!(from_error_code(0x1003, None), Error::DeltaCopy("Delta copy error for <unknown>".to_string()));
    assert_eq!(from_error_code(999, None), Error::Unknown("Unknown error code 999 for <unknown>".to_string()));
    assert_eq!(from_error_code(-45, Some(&rel(&["x"]))), Error::Unknown("Unknown error code -45 for x".to_string()));
    assert_eq!(
        from_error_code(i32::MIN, None),
        Error::Unknown("Unknown error code -2147483648 for <unknown>".to_string())
    );
}

#[test]
fn path_operations() {
    let base = abs(&["home", "u"]);
    assert!(is_absolute(&base));
    assert!(!is_absolute(&rel(&["a"])));
    assert_eq!(join_paths(&base, &rel(&["a", "b"])), abs(&["home", "u", "a", "b"]));
    assert_eq!(join_paths(&base, &abs(&["etc"])), abs(&["etc"]));
    assert_eq!(parent_dir(&base), Some(abs(&["home"])));
    assert_eq!(parent_dir(&abs(&[])), None);
    assert_eq!(file_name(&base), Some("u".to_string()));
    assert_eq!(file_name(&rel(&[])), None);
    assert_eq!(base.render(), "/home/u");
    assert_eq!(rel(&[]).render(), "");
}

#[test]
fn wide_strings_end_in_zero() {
    assert_eq!(path_to_wide_string(&rel(&["a", "é"])), vec![97, 47, 233, 0]);
    assert_eq!(path_to_wide_string(&abs(&["\u{1F600}"])), vec![47, 0xD83D, 0xDE00, 0]);
    assert_eq!(path_to_wide_string(&rel(&[])), vec![0]);
    assert_eq!(to_wide_string("A\u{10000}"), vec![65, 0xD800, 0xDC00, 0]);
}

#[test]
fn default_config_values() {
    let c = Config::new();
    assert!(c.thread_count >= 1);
    assert_eq!(c.compression_level, 0);
    assert_eq!(c.buffer_size, 8 * 1024 * 1024);
    assert_eq!(c.error_strategy, ErrorStrategy::Raise);
    assert_eq!(c.retry_count, 3);
    assert_eq!(c.retry_delay_ms, 1000);
    assert_eq!(c.log_level, LogLevel::Error);
    assert!(c.preserve_metadata && !c.follow_symlinks && !c.dirs_exist_ok);
    assert_eq!(ErrorStrategy::default(), ErrorStrategy::Raise);
    assert_eq!(LogLevel::default(), LogLevel::Error);
    assert!(c.validate().is_ok());
}

#[test]
fn builders_and_validation() {
    let c = Config::new()
        .with_thread_count(4)
        .with_compression_level(9)
        .with_log_level(LogLevel::Debug)
        .with_preserve_metadata(false)
        .with_follow_symlinks(true)
        .with_dirs_exist_ok(true);
    assert_eq!((c.thread_count, c.compression_level), (4, 9));
    assert!(!c.preserve_metadata && c.follow_symlinks && c.dirs_exist_ok);
    assert!(matches!(c.with_compression_level(10).validate(), Err(Error::Configuration(_))));
    assert!(matches!(c.with_thread_count(0).validate(), Err(Error::Configuration(_))));
    assert!(matches!(c.with_buffer_size(0).validate(), Err(Error::Configuration(_))));
    assert!(matches!(EACopy::with_config(c.with_compression_level(12)), Err(Error::Configuration(_))));
    let mut e = EACopy::with_config(c).unwrap();
    assert!(e.set_config(c.with_thread_count(0)).is_err());
    assert_eq!(e.get_config(), c);
}

#[test]
fn global_config_snapshots() {
    let mut g = GlobalConfig::new();
    let snapshot = global_config(&g);
    set_global_config(&mut g, snapshot.with_retry_count(9));
    assert_eq!(snapshot.retry_count, 3);
    assert_eq!(global_config(&g).retry_count, 9);
    reset_global_config(&mut g);
    assert_eq!(global_config(&g).retry_count, 3);
    set_global_config(&mut g, snapshot.with_compression_level(11));
    let src = PathInfo { path: abs(&["a"]), kind: PathKind::File, size: 1 };
    assert!(matches!(copy(&g, &src, &src), Err(Error::Configuration(_))));
}

#[test]
fn file_copy_checks() {
    let g = GlobalConfig::new();
    let src = PathInfo { path: abs(&["in", "f.txt"]), kind: PathKind::File, size: 20 };
    let dir = PathInfo { path: abs(&["out"]), kind: PathKind::Directory, size: 0 };
    let target = PathInfo { path: abs(&["out", "g.txt"]), kind: PathKind::Missing, size: 0 };
    let gone = PathInfo { path: abs(&["gone"]), kind: PathKind::Missing, size: 0 };

    let p = copy(&g, &src, &dir).unwrap();
    assert_eq!(p.destination, abs(&["out", "f.txt"]));
    assert!(!p.preserve_metadata);
    assert_eq!(p.transfer.size, 20);
    assert_eq!(p.transfer.buffer_size, 64 * 1024);
    let p2 = copy2(&g, &src, &target).unwrap();
    assert_eq!(p2.destination, abs(&["out", "g.txt"]));
    assert!(p2.preserve_metadata);
    assert_eq!(copy(&g, &gone, &dir).unwrap_err(), Error::FileNotFound(abs(&["gone"])));
    assert!(matches!(copy(&g, &dir, &target), Err(Error::InvalidArgument(_))));
    assert!(matches!(copyfile(&g, &dir, &abs(&["x"])), Err(Error::InvalidArgument(_))));
    assert_eq!(copyfile(&g, &src, &abs(&["x"])).unwrap().destination, abs(&["x"]));
    let pairs = vec![(src.clone(), dir.clone()), (gone.clone(), dir.clone())];
    assert_eq!(batch_copy(&g, &pairs).unwrap_err(), Error::FileNotFound(abs(&["gone"])));
    let tree_pairs = vec![(dir.clone(), target.clone()), (src.clone(), target.clone())];
    assert!(matches!(batch_copytree(&g, &tree_pairs, false, false, false), Err(Error::InvalidArgument(_))));
    let mut lenient = GlobalConfig::new();
    set_global_config(&mut lenient, Config::new().with_error_strategy(ErrorStrategy::Ignore));
    let batch = batch_copy(&lenient, &pairs).unwrap();
    assert!(batch[0].is_ok() && batch[1].is_err());
    let trees = batch_copytree(&lenient, &tree_pairs, false, false, false).unwrap();
    assert!(trees[0].is_ok() && matches!(trees[1], Err(Error::InvalidArgument(_))));
}

#[test]
fn delta_copy_checks() {
    let g = GlobalConfig::new();
    let src = PathInfo { path: abs(&["new"]), kind: PathKind::File, size: 3 };
    let reference = PathInfo { path: abs(&["old"]), kind: PathKind::File, size: 3 };
    let gone = PathInfo { path: abs(&["gone"]), kind: PathKind::Missing, size: 0 };
    let dir = PathInfo { path: abs(&["d"]), kind: PathKind::Directory, size: 0 };
    let d = delta_copy(&g, &src, &abs(&["out"]), &reference).unwrap();
    assert_eq!(d.copy.destination, abs(&["out"]));
    assert_eq!(d.reference, Some(abs(&["old"])));
    let fallback = delta_copy(&g, &src, &abs(&["out"]), &gone).unwrap();
    assert_eq!(fallback.reference, None);
    assert_eq!(fallback.copy.transfer.size, 3);
    assert!(matches!(delta_copy(&g, &dir, &abs(&["out"]), &reference), Err(Error::InvalidArgument(_))));
    assert_eq!(delta_copy(&g, &gone, &abs(&["out"]), &reference).unwrap_err(), Error::FileNotFound(abs(&["gone"])));
    assert!(matches!(delta_copy(&g, &src, &abs(&["out"]), &dir), Err(Error::InvalidArgument(_))));
}
