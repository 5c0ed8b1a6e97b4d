use iroh_blobs::api::blobs::{
    AddPathOptions, AddProgressItem, ExportMode, ExportOptions, ExportProgressItem, ImportMode,
};
use iroh_blobs::store::fs::FsStore;
use iroh_blobs::BlobFormat;
use n0_future::StreamExt;
use p2p_client::collection::ContentId;
use p2p_client::export::{ExportEvent, ExportSession};
use p2p_client::import::{assemble_collection, plan_names, AddEvent, AddTracker, StagedFile};
use std::path::PathBuf;

fn unique_tmp(tag: &str) -> PathBuf {
    let nanos = std::time::SystemTime::now()
        .duration_since(std::time::UNIX_EPOCH)
        .unwrap()
        .as_nanos();
    PathBuf::from(format!("/tmp/{}-{}", tag, nanos))
}

async fn stage_tree(
    db: &FsStore,
    import_path: &PathBuf,
) -> (p2p_client::collection::Collection, u64, Vec<iroh_blobs::api::TempTag>) {
    let canon = import_path.canonicalize().unwrap();
    let root = canon.parent().unwrap().to_path_buf();
    let mut rel_paths = Vec::new();
    let mut paths = Vec::new();
    for entry in walkdir::WalkDir::new(&canon)
        .into_iter()
        .filter_map(Result::ok)
    {
        if entry.file_type().is_file() {
            let p = entry.into_path();
            rel_paths.push(p.strip_prefix(&root).unwrap().to_str().unwrap().to_string());
            paths.push(p);
        }
    }
    let names = plan_names(&rel_paths).unwrap();
    let mut staged = Vec::new();
    let mut tags = Vec::new();
    for (name, p) in names.into_iter().zip(paths.into_iter()) {
        let add = db.blobs().add_path_with_opts(AddPathOptions {
            path: p,
            mode: ImportMode::Copy,
            format: BlobFormat::Raw,
        });
        let mut stream = add.stream().await;
        let mut tracker = AddTracker::new();
        let mut tag = None;
        while tag.is_none() {
            let item = stream.next().await.unwrap();
            let event = match item {
                AddProgressItem::Size(n) => AddEvent::Size(n),
                AddProgressItem::Done(tt) => {
                    tag = Some(tt);
                    AddEvent::Done
                }
                AddProgressItem::Error(e) => AddEvent::Error(e.to_string()),
                _ => AddEvent::Other,
            };
            tracker.on_event(&name, event).unwrap();
        }
        let size = tracker.into_size(&name).unwrap();
        let tag = tag.unwrap();
        staged.push(StagedFile {
            name,
            id: ContentId::from_bytes(tag.hash().as_bytes().to_vec()).unwrap(),
            size,
        });
        tags.push(tag);
    }
    let (collection, total) = assemble_collection(staged);
    (collection, total, tags)
}

async fn export_all(
    db: &FsStore,
    collection: p2p_client::collection::Collection,
    out_root: &PathBuf,
) -> Result<(), String> {
    let mut session = ExportSession::new(out_root.to_str().unwrap().to_string(), collection);
    while !session.finished() {
        let target = session
            .current_target()
            .map_err(|e| format!("{:?}", e))?;
        let target_path = PathBuf::from(&target);
        let exists = tokio::fs::try_exists(&target_path).await.unwrap_or(false);
        session
            .check_destination(&target, exists)
            .map_err(|e| format!("{:?}", e))?;
        if let Some(parent) = target_path.parent() {
            tokio::fs::create_dir_all(parent).await.unwrap();
        }
        let bytes: [u8; 32] = session.current_id().bytes.as_slice().try_into().unwrap();
        let mut stream = db
            .blobs()
            .export_with_opts(ExportOptions {
                hash: iroh_blobs::Hash::from_bytes(bytes),
                target: target_path,
                mode: ExportMode::Copy,
            })
            .stream()
            .await;
        while let Some(item) = stream.next().await {
            let event = match item {
                ExportProgressItem::Error(e) => ExportEvent::Error(e.to_string()),
                _ => ExportEvent::Other,
            };
            session.on_event(event).map_err(|e| format!("{:?}", e))?;
        }
        session.entry_done();
    }
    Ok(())
}

#[test]
fn test_import_then_export_reproduces_files() {
    let rt = tokio::runtime::Runtime::new().unwrap();
    rt.block_on(async {
        let src_root = unique_tmp("roundtrip-src");
        tokio::fs::create_dir_all(src_root.join("d/sub")).await.unwrap();
        tokio::fs::write(src_root.join("d/x.txt"), b"hello x").await.unwrap();
        tokio::fs::write(src_root.join("d/sub/y.txt"), b"YY").await.unwrap();
        tokio::fs::write(src_root.join("d/empty.bin"), b"").await.unwrap();

        let store_dir = unique_tmp("roundtrip-store");
        let db = FsStore::load(&store_dir).await.unwrap();
        let (collection, total, tags) = stage_tree(&db, &src_root.join("d")).await;
        assert_eq!(collection.len(), 3);
        assert_eq!(total, 9);
        assert_eq!(collection.entry(0).name, "d/empty.bin");
        assert_eq!(collection.entry(1).name, "d/sub/y.txt");
        assert_eq!(collection.entry(2).name, "d/x.txt");

        let out_root = unique_tmp("roundtrip-out");
        tokio::fs::create_dir_all(&out_root).await.unwrap();
        export_all(&db, collection, &out_root).await.unwrap();

        assert_eq!(
            tokio::fs::read(out_root.join("d/x.txt")).await.unwrap(),
            b"hello x"
        );
        assert_eq!(
            tokio::fs::read(out_root.join("d/sub/y.txt")).await.unwrap(),
            b"YY"
        );
        assert_eq!(
            tokio::fs::read(out_root.join("d/empty.bin")).await.unwrap(),
            b""
        );

        drop(tags);
        db.shutdown().await.ok();
        tokio::fs::remove_dir_all(&src_root).await.ok();
        tokio::fs::remove_dir_all(&store_dir).await.ok();
        tokio::fs::remove_dir_all(&out_root).await.ok();
    });
}

#[test]
fn test_export_never_touches_an_existing_destination() {
    let rt = tokio::runtime::Runtime::new().unwrap();
    rt.block_on(async {
        let src_root = unique_tmp("noclobber-src");
        tokio::fs::create_dir_all(src_root.join("d")).await.unwrap();
        tokio::fs::write(src_root.join("d/x.txt"), b"new contents").await.unwrap();

        let store_dir = unique_tmp("noclobber-store");
        let db = FsStore::load(&store_dir).await.unwrap();
        let (collection, _, tags) = stage_tree(&db, &src_root.join("d")).await;

        let out_root = unique_tmp("noclobber-out");
        tokio::fs::create_dir_all(out_root.join("d")).await.unwrap();
        tokio::fs::write(out_root.join("d/x.txt"), b"precious").await.unwrap();

        let err = export_all(&db, collection, &out_root).await.unwrap_err();
        assert!(err.contains("DestinationExists"));
        // The existing file was neither overwritten nor partially written.
        assert_eq!(
            tokio::fs::read(out_root.join("d/x.txt")).await.unwrap(),
            b"precious"
        );

        drop(tags);
        db.shutdown().await.ok();
        tokio::fs::remove_dir_all(&src_root).await.ok();
        tokio::fs::remove_dir_all(&store_dir).await.ok();
        tokio::fs::remove_dir_all(&out_root).await.ok();
    });
}
