use eacopy::{
    Completed, Config, CopyRun, Decision, EACopy, Error, ErrorStrategy, FsPath, PathInfo, PathKind,
    buffer_size_for, buffer_tier, BufferTier, FileTransfer,
};

fn abs(parts: &[&str]) -> FsPath {
    FsPath::absolute(parts.iter().map(|s| s.to_string()).collect())
}

fn file(parts: &[&str], size: u64) -> PathInfo {
    PathInfo { path: abs(parts), kind: PathKind::File, size }
}

fn missing(parts: &[&str]) -> PathInfo {
    PathInfo { path: abs(parts), kind: PathKind::Missing, size: 0 }
}

#[test]
fn ignore_isolates_one_failed_pair() {
    let config = Config::default().with_error_strategy(ErrorStrategy::Ignore);
    let engine = EACopy::with_config(config).unwrap();
    let mut pairs = Vec::new();
    for i in 1..=5u64 {
        let name = format!("f{}", i);
        let src = if i == 3 { missing(&["src", &name]) } else { file(&["src", &name], 10 * i) };
        pairs.push((src, missing(&["dst", &name])));
    }
    let plans = engine.batch_copy(&pairs).unwrap();
    let mut run = CopyRun::new(config);
    for (i, plan) in plans.into_iter().enumerate() {
        match plan {
            Ok(p) => run.on_success(Completed::File(p.transfer.size)),
            Err(e) => {
                let d = run.on_failure(pairs[i].0.path.clone(), e);
                assert_eq!(d, Decision::Continue);
            }
        }
    }
    let result = run.finish();
    assert_eq!(result.files_copied, 4);
    assert_eq!(result.bytes_transferred, 10 + 20 + 40 + 50);
    assert_eq!(result.errors.len(), 1);
    assert_eq!(result.errors[0].item, 2);
    assert_eq!(result.errors[0].error, Error::FileNotFound(abs(&["src", "f3"])));
}

#[test]
fn retry_two_gives_three_attempts() {
    let config = Config::default().with_error_strategy(ErrorStrategy::Retry).with_retry_count(2).with_retry_delay(5);
    let mut run = CopyRun::new(config);
    let mut attempts = 0;
    loop {
        attempts += 1;
        match run.on_failure(abs(&["gone"]), Error::Io("read failed".to_string())) {
            Decision::RetryAfter(ms) => assert_eq!(ms, 5),
            Decision::Abort(e) => {
                assert_eq!(e, Error::Io("read failed".to_string()));
                break;
            }
            Decision::Continue => panic!("retry never continues past a failure"),
        }
    }
    assert_eq!(attempts, 3);
    assert!(run.aborted);
}

#[test]
fn raise_aborts_on_first_failure() {
    let mut run = CopyRun::new(Config::default());
    let d = run.on_failure(abs(&["x"]), Error::Timeout("slow".to_string()));
    assert_eq!(d, Decision::Abort(Error::Timeout("slow".to_string())));
    assert!(run.aborted);
    assert!(run.result.errors.is_empty());
}

#[test]
fn retry_then_success_counts_bytes_once() {
    let config = Config::default().with_error_strategy(ErrorStrategy::Retry).with_retry_count(3);
    let mut run = CopyRun::new(config);
    assert!(matches!(run.on_failure(abs(&["f"]), Error::Io("x".to_string())), Decision::RetryAfter(1000)));
    run.on_success(Completed::File(7));
    run.on_success(Completed::Directory);
    let r = run.finish();
    assert_eq!(r.bytes_transferred, 7);
    assert_eq!(r.files_copied, 1);
    assert_eq!(r.dirs_created, 1);
}

#[test]
fn ten_megabyte_file_uses_large_tier() {
    let config = Config::default();
    let size: u64 = 10_485_760;
    assert_eq!(buffer_tier(size, &config), BufferTier::Large);
    assert_eq!(buffer_size_for(size, &config), 8 * 1024 * 1024);
    let mut t = FileTransfer::new(size, &config);
    let mut chunks = 0;
    let mut reports = 0;
    while !t.is_complete() {
        let n = t.next_chunk();
        chunks += 1;
        if t.advance(n as u64) {
            reports += 1;
        }
    }
    assert_eq!(chunks, 2);
    assert_eq!(reports, 2);
    let mut run = CopyRun::new(config);
    run.on_success(Completed::File(t.done));
    assert_eq!(run.finish().bytes_transferred, 10_485_760);
}

#[test]
fn buffer_tiers_follow_limits() {
    let c = Config::default();
    assert_eq!(buffer_tier(0, &c), BufferTier::Small);
    assert_eq!(buffer_size_for(1024 * 1024 - 1, &c), 64 * 1024);
    assert_eq!(buffer_tier(1024 * 1024, &c), BufferTier::Medium);
    assert_eq!(buffer_size_for(5 * 1024 * 1024, &c), 1024 * 1024);
    assert_eq!(buffer_tier(8 * 1024 * 1024, &c), BufferTier::Large);
}

#[test]
fn progress_is_reported_per_interval() {
    let c = Config::default().with_progress_interval(100).with_buffer_size(30).with_file_size_limits(0, 0);
    let mut t = FileTransfer::new(250, &c);
    assert_eq!(t.buffer_size, 30);
    let mut reports = Vec::new();
    while !t.is_complete() {
        let n = t.next_chunk();
        if t.advance(n as u64) {
            reports.push(t.done);
        }
    }
    assert_eq!(reports, vec![120, 240, 250]);
}

#[test]
fn cancel_keeps_completed_work() {
    let mut run = CopyRun::new(Config::default());
    run.on_success(Completed::File(11));
    let e = run.cancel();
    assert!(matches!(e, Error::Interrupted(_)));
    assert!(run.aborted);
    assert_eq!(run.finish().bytes_transferred, 11);
}

#[test]
fn raise_stops_a_batch_at_the_first_refused_pair() {
    let engine = EACopy::new();
    let pairs = vec![
        (file(&["src", "a"], 1), missing(&["dst", "a"])),
        (missing(&["src", "b"]), missing(&["dst", "b"])),
        (missing(&["src", "c"]), missing(&["dst", "c"])),
    ];
    assert_eq!(engine.batch_copy(&pairs).unwrap_err(), Error::FileNotFound(abs(&["src", "b"])));
    let retry = EACopy::with_config(Config::default().with_error_strategy(ErrorStrategy::Retry)).unwrap();
    assert_eq!(retry.batch_copy2(&pairs).unwrap_err(), Error::FileNotFound(abs(&["src", "b"])));
    let good = vec![(file(&["src", "a"], 1), missing(&["dst", "a"]))];
    let plans = engine.batch_copy(&good).unwrap();
    assert_eq!(plans.len(), 1);
    assert!(plans[0].is_ok());
    assert!(engine.batch_copy(&Vec::new()).unwrap().is_empty());
}
