use p2p_client::receive::{
    receive_preflight, receive_totals, ReceiveError, ReceivePhase, ReceiveReporter,
};
use p2p_client::status::ReceiveStatus;

#[test]
fn test_preflight_rejects_garbage_ticket() {
    // An unparsable ticket fails at once; no directory name is ever chosen.
    let r = receive_preflight("definitely not a ticket");
    assert!(matches!(r, Err(ReceiveError::InvalidTicket)));
    assert!(receive_preflight("").is_err());
}

#[test]
fn test_preflight_names_directory_from_ticket_hash() {
    // A real ticket built offline: the directory is keyed by the ticket's
    // content identifier, so retries with the same ticket share progress.
    let secret = iroh::SecretKey::from_bytes(&[7u8; 32]);
    let addr = iroh::EndpointAddr::new(secret.public());
    let hash = iroh_blobs::Hash::new(b"hello world");
    let ticket = iroh_blobs::ticket::BlobTicket::new(addr, hash, iroh_blobs::BlobFormat::HashSeq);
    let dir = receive_preflight(&ticket.to_string()).unwrap();
    assert_eq!(dir, format!(".p2p-client-recv-{}", hash.to_hex()));
}

#[test]
fn test_receive_totals() {
    // First size is the manifest blob; the payload excludes it.
    let sizes = vec![10u64, 1, 2];
    assert_eq!(receive_totals(&sizes), (13, 3, 2));
    assert_eq!(receive_totals(&Vec::new()), (0, 0, 0));
    assert_eq!(receive_totals(&vec![5u64]), (5, 0, 0));
}

#[test]
fn test_receive_totals_saturate() {
    let sizes = vec![u64::MAX, 10, 20];
    let (total, payload, files) = receive_totals(&sizes);
    assert_eq!(total, u64::MAX);
    assert_eq!(payload, 30);
    assert_eq!(files, 2);
}

#[test]
fn test_receive_reporter_event_order() {
    let mut r = ReceiveReporter::new();
    assert!(matches!(r.begin(), ReceiveStatus::Connecting));
    match r.connected(2, 30) {
        ReceiveStatus::Connected { total_files, total_size } => {
            assert_eq!((total_files, total_size), (2, 30));
        }
        _ => panic!("expected a connected event"),
    }
    match r.downloading(10, 5, 30) {
        ReceiveStatus::Downloading { downloaded, total } => {
            assert_eq!((downloaded, total), (15, 30));
        }
        _ => panic!("expected a downloading event"),
    }
    let st = r.exporting(ReceiveStatus::Exporting { total_files: 2, done_files: 0 });
    assert!(matches!(st, ReceiveStatus::Exporting { .. }));
    assert!(matches!(r.finish(), ReceiveStatus::Done));
    assert_eq!(r.phase, ReceivePhase::Ended);
}

#[test]
fn test_downloading_clamps_instead_of_overflowing() {
    let mut r = ReceiveReporter::new();
    let _ = r.begin();
    let _ = r.connected(1, u64::MAX);
    match r.downloading(u64::MAX, 5, u64::MAX) {
        ReceiveStatus::Downloading { downloaded, .. } => assert_eq!(downloaded, u64::MAX),
        _ => panic!("expected a downloading event"),
    }
}

#[test]
fn test_receive_reporter_error_is_terminal() {
    let mut r = ReceiveReporter::new();
    let _ = r.begin();
    match r.fail(String::from("peer went away")) {
        ReceiveStatus::Error(m) => assert_eq!(m, "peer went away"),
        _ => panic!("expected an error event"),
    }
    assert_eq!(r.phase, ReceivePhase::Ended);
}
