use eacopy::{
    ClientAction, ClientSession, Command, EACopy, EntryKind, ListedEntry, decode_listing, encode_listing, EACopyServer, Error, FsPath, PathInfo, PathKind, RemoteCopy,
    Response, ServerAction, SessionState, create_server, decode_command, decode_response, dispatch,
    encode_command, encode_response,
};

fn abs(parts: &[&str]) -> FsPath {
    FsPath::absolute(parts.iter().map(|s| s.to_string()).collect())
}

fn session(retries: u32, level: u32) -> ClientSession {
    let cmd = Command::ReadFile { path: b"/data/f".to_vec(), attributes: 0, expected_size: 9 };
    ClientSession::new(cmd, abs(&["data", "f"]), "host".to_string(), 18888, level, retries, 250)
}

#[test]
fn busy_then_success_reports_second_count() {
    let mut s = session(3, 0);
    assert_eq!(s.start(), ClientAction::Connect { delay_ms: 0 });
    assert_eq!(s.on_connected(), ClientAction::Send { delay_ms: 0, compressed: false });
    assert_eq!(s.on_response(Response::Busy), ClientAction::Send { delay_ms: 250, compressed: false });
    assert_eq!(s.on_response(Response::Success { bytes: 4096 }), ClientAction::Finish(Ok(4096)));
    assert_eq!(s.state, SessionState::Closed);
}

#[test]
fn busy_beyond_retries_fails() {
    let mut s = session(1, 0);
    s.start();
    s.on_connected();
    assert!(matches!(s.on_response(Response::Busy), ClientAction::Send { .. }));
    assert!(matches!(s.on_response(Response::Busy), ClientAction::Finish(Err(Error::Server(_)))));
}

#[test]
fn connect_failures_are_retried_then_surface() {
    let mut s = session(2, 0);
    s.start();
    let refused = Error::Network("refused".to_string());
    assert_eq!(s.on_connect_failed(refused.clone()), ClientAction::Connect { delay_ms: 250 });
    assert_eq!(s.on_connect_failed(refused.clone()), ClientAction::Connect { delay_ms: 250 });
    assert_eq!(s.on_connect_failed(refused.clone()), ClientAction::Finish(Err(refused)));
}

#[test]
fn decompression_failure_resends_uncompressed_once() {
    let mut s = session(0, 6);
    s.start();
    assert_eq!(s.on_connected(), ClientAction::Send { delay_ms: 0, compressed: true });
    assert_eq!(s.on_response(Response::DecompressionFailed), ClientAction::Send { delay_ms: 0, compressed: false });
    assert!(matches!(s.on_response(Response::DecompressionFailed), ClientAction::Finish(Err(_))));
}

#[test]
fn failure_code_maps_to_error() {
    let mut s = session(0, 0);
    s.start();
    s.on_connected();
    assert_eq!(
        s.on_response(Response::Failure { code: 2 }),
        ClientAction::Finish(Err(Error::FileNotFound(abs(&["data", "f"]))))
    );
}

#[test]
fn protocol_error_is_never_retried() {
    let mut s = session(5, 0);
    s.start();
    s.on_connected();
    let bad = decode_response(&[9, 9]).unwrap_err();
    assert!(matches!(bad, Error::Protocol(_)));
    assert!(matches!(s.on_transport_error(bad), ClientAction::Finish(Err(Error::Protocol(_)))));
}

#[test]
fn commands_survive_framing() {
    let cmds = vec![
        Command::Enumerate { path: b"/a".to_vec() },
        Command::CreateDirectory { path: Vec::new() },
        Command::ReadFile { path: b"/a/b".to_vec(), attributes: 0x20, expected_size: 1 << 40 },
        Command::WriteFile { path: "/ü".as_bytes().to_vec(), attributes: 7, size: 12345, compression_level: 9 },
    ];
    for c in cmds {
        let bytes = encode_command(&c).unwrap();
        assert_eq!(decode_command(&bytes).unwrap(), c);
    }
}

#[test]
fn command_frame_layout() {
    let bytes = encode_command(&Command::ReadFile { path: b"ab".to_vec(), attributes: 1, expected_size: 258 }).unwrap();
    assert_eq!(bytes, vec![1, 3, 2, 0, 0, 0, b'a', b'b', 1, 0, 0, 0, 2, 1, 0, 0, 0, 0, 0, 0]);
    let mut longer = bytes.clone();
    longer.push(0xEE);
    assert!(decode_command(&longer).is_ok());
    assert!(matches!(decode_command(&bytes[..bytes.len() - 1]), Err(Error::Protocol(_))));
    let mut other_version = bytes.clone();
    other_version[0] = 2;
    assert!(matches!(decode_command(&other_version), Err(Error::Protocol(_))));
    let mut unknown = bytes;
    unknown[1] = 77;
    assert!(matches!(decode_command(&unknown), Err(Error::Protocol(_))));
}

#[test]
fn responses_survive_framing() {
    for r in [Response::Success { bytes: 258 }, Response::Busy, Response::Failure { code: 87 }, Response::DecompressionFailed] {
        assert_eq!(decode_response(&encode_response(r)).unwrap(), r);
    }
    assert_eq!(encode_response(Response::Success { bytes: 258 }), vec![1, 0x81, 2, 1, 0, 0, 0, 0, 0, 0]);
    assert!(matches!(decode_response(&[1, 0x81, 0]), Err(Error::Protocol(_))));
}

#[test]
fn server_lifecycle_and_admission() {
    assert!(matches!(EACopyServer::new(18888, 0), Err(Error::Configuration(_))));
    let mut s = create_server(18888, 1).unwrap();
    assert_eq!(s.get_port(), 18888);
    assert_eq!(s.get_thread_count(), 1);
    assert!(!s.is_running());
    assert!(matches!(s.stop(), Err(Error::Server(_))));
    assert_eq!(s.accept(), Some(Response::Failure { code: 87 }));
    s.start().unwrap();
    assert!(matches!(s.start(), Err(Error::Server(_))));
    assert_eq!(s.accept(), None);
    assert_eq!(s.accept(), Some(Response::Busy));
    assert_eq!(s.on_file_sent(100), Response::Success { bytes: 100 });
    assert_eq!(s.on_file_received(40), Response::Success { bytes: 40 });
    s.on_disconnect();
    assert_eq!(s.accept(), None);
    let st = s.get_stats();
    assert_eq!((st.connections, st.active_connections), (2, 1));
    assert_eq!((st.bytes_sent, st.files_sent, st.bytes_received, st.files_received), (100, 1, 40, 1));
    s.stop().unwrap();
    assert_eq!(s.get_stats().active_connections, 0);
}

#[test]
fn server_checks_commands_before_acting() {
    let read = Command::ReadFile { path: b"/x".to_vec(), attributes: 0, expected_size: 0 };
    assert_eq!(dispatch(&read, PathKind::File), ServerAction::SendFile);
    assert_eq!(dispatch(&read, PathKind::Missing), ServerAction::Reply(Response::Failure { code: 2 }));
    assert_eq!(dispatch(&read, PathKind::Directory), ServerAction::Reply(Response::Failure { code: 87 }));
    let list = Command::Enumerate { path: b"/x".to_vec() };
    assert_eq!(dispatch(&list, PathKind::Directory), ServerAction::ListDirectory);
    assert_eq!(dispatch(&list, PathKind::Missing), ServerAction::Reply(Response::Failure { code: 3 }));
    let mk = Command::CreateDirectory { path: b"/x".to_vec() };
    assert_eq!(dispatch(&mk, PathKind::Directory), ServerAction::CreateDirectory);
    assert_eq!(dispatch(&mk, PathKind::File), ServerAction::Reply(Response::Failure { code: 80 }));
    let write = Command::WriteFile { path: b"/x".to_vec(), attributes: 0, size: 1, compression_level: 10 };
    assert_eq!(dispatch(&write, PathKind::Missing), ServerAction::Reply(Response::Failure { code: 87 }));
    let write_ok = Command::WriteFile { path: b"/x".to_vec(), attributes: 0, size: 1, compression_level: 3 };
    assert_eq!(dispatch(&write_ok, PathKind::File), ServerAction::ReceiveFile);
}

#[test]
fn copy_with_server_builds_a_fetch_session() {
    let engine = EACopy::new();
    let src = PathInfo { path: abs(&["data", "f"]), kind: PathKind::File, size: 9 };
    let dst = PathInfo { path: abs(&["out"]), kind: PathKind::Directory, size: 0 };
    match engine.copy_with_server(&src, &dst, &"host".to_string(), 18888, 4).unwrap() {
        RemoteCopy::File { plan, session: s } => {
            assert_eq!(plan.destination, abs(&["out", "f"]));
            assert_eq!(s.command, Command::ReadFile { path: b"/data/f".to_vec(), attributes: 0, expected_size: 9 });
            assert_eq!(s.port, 18888);
            assert!(s.compressed);
        }
        RemoteCopy::Tree(_) => panic!("a file goes through one session"),
    }
    assert!(matches!(engine.copy_with_server(&src, &dst, &"host".to_string(), 18888, 10), Err(Error::Configuration(_))));
    assert!(matches!(engine.copy_with_server(&src, &dst, &"host".to_string(), 0, 1), Err(Error::InvalidArgument(_))));
    let gone = PathInfo { path: abs(&["gone"]), kind: PathKind::Missing, size: 0 };
    assert!(matches!(engine.copy_with_server(&gone, &dst, &"host".to_string(), 1, 1), Err(Error::FileNotFound(_))));
    let dir = PathInfo { path: abs(&["tree"]), kind: PathKind::Directory, size: 0 };
    assert!(matches!(engine.copy_with_server(&dir, &dst, &"host".to_string(), 1, 1), Ok(RemoteCopy::Tree(_))));
    assert_eq!(engine.create_server(7).unwrap().get_thread_count(), engine.config.thread_count);
}

#[test]
fn listings_survive_framing() {
    let entries = vec![
        ListedEntry { name: b"a.txt".to_vec(), kind: EntryKind::File, size: 300 },
        ListedEntry { name: b"sub".to_vec(), kind: EntryKind::Directory, size: 0 },
        ListedEntry { name: Vec::new(), kind: EntryKind::Symlink, size: 1 },
    ];
    let bytes = encode_listing(&entries).unwrap();
    assert_eq!(&bytes[..6], &[1, 0x85, 3, 0, 0, 0]);
    assert_eq!(&bytes[6..19], &[0, 44, 1, 0, 0, 0, 0, 0, 0, 5, 0, 0, 0]);
    assert_eq!(decode_listing(&bytes).unwrap(), entries);
    assert_eq!(decode_listing(&encode_listing(&Vec::new()).unwrap()).unwrap(), Vec::new());
    assert!(matches!(decode_listing(&bytes[..bytes.len() - 1]), Err(Error::Protocol(_))));
    let mut bad_kind = bytes.clone();
    bad_kind[6] = 9;
    assert!(matches!(decode_listing(&bad_kind), Err(Error::Protocol(_))));
    assert!(matches!(decode_listing(&encode_response(Response::Busy)), Err(Error::Protocol(_))));
}

#[test]
fn listing_session_names_the_directory() {
    let engine = EACopy::new();
    let s = engine.remote_listing(&abs(&["srv", "dir"]), &"host".to_string(), 9);
    assert_eq!(s.command, Command::Enumerate { path: b"/srv/dir".to_vec() });
    assert_eq!(s.state, SessionState::Disconnected);
}
