use p2p_client::collection::{Collection, CollectionEntry, ContentId};
use p2p_client::export::{ExportError, ExportEvent, ExportSession};
use p2p_client::send::{
    content_disposition, download_request_id, download_url, handle_download_request,
    http_request_path, http_staging_dir_name, p2p_staging_dir_name, single_entry,
    DownloadDecision, SendError, SendPhase, SendReporter,
};
use p2p_client::status::{CleanupStep, ReceiveStatus, SendHandle, SendStatus};

fn id_of(byte: u8) -> ContentId {
    ContentId::from_bytes(vec![byte; 32]).unwrap()
}

#[test]
fn test_staging_dir_names_hex_suffix() {
    let suffix = vec![0xde, 0xad, 0xbe, 0xef];
    assert_eq!(p2p_staging_dir_name(&suffix), "p2p-client-p2p-deadbeef");
    assert_eq!(http_staging_dir_name(&suffix), "p2p-client-http-deadbeef");
    assert_eq!(p2p_staging_dir_name(&Vec::new()), "p2p-client-p2p-");
}

#[test]
fn test_single_entry_rule() {
    let one = Collection::from_entries(vec![CollectionEntry {
        name: String::from("a.txt"),
        id: id_of(1),
    }]);
    let e = single_entry(&one).unwrap();
    assert_eq!(e.name, "a.txt");

    let two = Collection::from_entries(vec![
        CollectionEntry { name: String::from("a"), id: id_of(1) },
        CollectionEntry { name: String::from("b"), id: id_of(2) },
    ]);
    assert!(matches!(single_entry(&two), Err(SendError::NotSingleFile)));
    let none = Collection::from_entries(Vec::new());
    assert!(single_entry(&none).is_err());
}

#[test]
fn test_download_url_shape() {
    let id = id_of(0xab);
    let url = download_url("https://tunnel.example", &id);
    assert_eq!(
        url,
        format!("https://tunnel.example/download/{}", "ab".repeat(32))
    );
}

#[test]
fn test_content_disposition_header() {
    assert_eq!(
        content_disposition("report.pdf"),
        "attachment; filename=\"report.pdf\""
    );
}

#[test]
fn test_download_request_id_parsing() {
    assert_eq!(
        download_request_id("/download/abc123").unwrap(),
        "abc123"
    );
    assert_eq!(download_request_id("/download/").unwrap(), "");
    assert!(download_request_id("/upload/abc").is_none());
    assert!(download_request_id("/down").is_none());
}

#[test]
fn test_http_request_path_parsing() {
    assert_eq!(
        http_request_path("GET /download/abc HTTP/1.1").unwrap(),
        "/download/abc"
    );
    assert_eq!(http_request_path("GET /x").unwrap(), "/x");
    assert!(http_request_path("POST /x HTTP/1.1").is_none());
    assert!(http_request_path("GE").is_none());
}

#[test]
fn test_download_served_only_for_staged_id() {
    let staged = id_of(0x5a);
    let good = "5a".repeat(32);
    let other = "11".repeat(32);
    assert_eq!(
        handle_download_request(&good, &staged),
        DownloadDecision::Serve
    );
    assert_eq!(
        handle_download_request(&other, &staged),
        DownloadDecision::NotFound
    );
}

#[test]
fn test_download_rejects_malformed_ids() {
    let staged = id_of(0x5a);
    // wrong length
    assert_eq!(
        handle_download_request("5a5a", &staged),
        DownloadDecision::BadRequest
    );
    // uppercase is not the published form
    assert_eq!(
        handle_download_request(&"5A".repeat(32), &staged),
        DownloadDecision::BadRequest
    );
    // a non-hex character
    let mut bad = "5a".repeat(31);
    bad.push_str("zz");
    assert_eq!(
        handle_download_request(&bad, &staged),
        DownloadDecision::BadRequest
    );
    assert_eq!(
        handle_download_request("", &staged),
        DownloadDecision::BadRequest
    );
}

#[test]
fn test_cleanup_steps_ordered_and_complete() {
    let full = SendHandle::new(String::from("dir-a"), true, true);
    assert_eq!(
        full.cleanup_steps(),
        vec![
            CleanupStep::SignalShutdown,
            CleanupStep::CloseTunnel,
            CleanupStep::RemoveDir
        ]
    );
    let p2p = SendHandle::new(String::from("dir-b"), true, false);
    assert_eq!(
        p2p.cleanup_steps(),
        vec![CleanupStep::SignalShutdown, CleanupStep::RemoveDir]
    );
    let bare = SendHandle::new(String::from("dir-c"), false, false);
    assert_eq!(bare.cleanup_steps(), vec![CleanupStep::RemoveDir]);
    assert_eq!(bare.data_dir, "dir-c");
}

#[test]
fn test_send_reporter_event_order() {
    let mut r = SendReporter::new();
    assert!(matches!(r.begin(), SendStatus::Connecting));
    let t = p2p_client::import::ImportTracker::new(1, 10);
    match r.importing(&t) {
        SendStatus::Importing { total_files, done_files, total_size, done_size } => {
            assert_eq!((total_files, done_files, total_size, done_size), (1, 0, 10, 0));
        }
        _ => panic!("expected an importing event"),
    }
    match r.ready(String::from("ticket-xyz")) {
        SendStatus::ReadyToSend { ticket } => assert_eq!(ticket, "ticket-xyz"),
        _ => panic!("expected a ready event"),
    }
    assert!(matches!(r.finish(), SendStatus::Done));
    assert_eq!(r.phase, SendPhase::Ended);
}

#[test]
fn test_send_reporter_error_is_terminal() {
    let mut r = SendReporter::new();
    let _ = r.begin();
    match r.fail(String::from("boom")) {
        SendStatus::Error(m) => assert_eq!(m, "boom"),
        _ => panic!("expected an error event"),
    }
    assert_eq!(r.phase, SendPhase::Ended);
}

#[test]
fn test_export_session_targets_and_overwrite_guard() {
    let c = Collection::from_entries(vec![
        CollectionEntry { name: String::from("x.txt"), id: id_of(1) },
        CollectionEntry { name: String::from("sub/y.txt"), id: id_of(2) },
    ]);
    let mut s = ExportSession::new(String::from("/out"), c);
    assert!(!s.finished());
    match s.exporting_status() {
        ReceiveStatus::Exporting { total_files, done_files } => {
            assert_eq!((total_files, done_files), (2, 0));
        }
        _ => panic!("expected an exporting event"),
    }
    let target = s.current_target().unwrap();
    assert_eq!(target, "/out/sub/y.txt");
    assert_eq!(s.current_id().bytes, vec![2u8; 32]);
    // an existing destination fails the whole export
    let r = s.check_destination(&target, true);
    assert!(
        matches!(r, Err(ExportError::DestinationExists { target: t }) if t == "/out/sub/y.txt")
    );
    assert!(s.check_destination(&target, false).is_ok());
    assert!(s.on_event(ExportEvent::Other).is_ok());
    s.entry_done();
    assert_eq!(s.current_target().unwrap(), "/out/x.txt");
    s.entry_done();
    assert!(s.finished());
    assert!(matches!(s.done_status(), ReceiveStatus::Done));
}

#[test]
fn test_export_session_store_error_is_fatal() {
    let c = Collection::from_entries(vec![CollectionEntry {
        name: String::from("x.txt"),
        id: id_of(1),
    }]);
    let s = ExportSession::new(String::from("/out"), c);
    let r = s.on_event(ExportEvent::Error(String::from("no space")));
    assert!(
        matches!(r, Err(ExportError::Materialize { name, cause }) if name == "x.txt" && cause == "no space")
    );
}

#[test]
fn test_export_session_rejects_traversal_names() {
    let c = Collection::from_entries(vec![CollectionEntry {
        name: String::from("../../etc/passwd"),
        id: id_of(1),
    }]);
    let s = ExportSession::new(String::from("/out"), c);
    let r = s.current_target();
    assert!(matches!(r, Err(ExportError::InvalidName { name }) if name == "../../etc/passwd"));
}

#[test]
fn test_import_export_name_round_trip() {
    // Import names, then export targets: every canonical relative path
    // lands at exactly root/path.
    let rel = vec![String::from("d/x.txt"), String::from("d/sub/y.txt")];
    let names = p2p_client::import::plan_names(&rel).unwrap();
    let staged: Vec<_> = names
        .iter()
        .enumerate()
        .map(|(i, n)| p2p_client::import::StagedFile {
            name: n.clone(),
            id: id_of(i as u8),
            size: 1,
        })
        .collect();
    let (c, _) = p2p_client::import::assemble_collection(staged);
    let mut s = ExportSession::new(String::from("/dest"), c);
    let mut targets = Vec::new();
    while !s.finished() {
        targets.push(s.current_target().unwrap());
        s.entry_done();
    }
    targets.sort();
    assert_eq!(targets, vec!["/dest/d/sub/y.txt", "/dest/d/x.txt"]);
}
