use anipler::storage::{FinalizeArtifactError, StorageManager, StorageManagerError, TaskStatus};
use anipler::task::{TorrentStatus, TorrentTaskInfo};

fn item(hash: &str, status: TorrentStatus, name: &str, path: &str) -> TorrentTaskInfo {
    TorrentTaskInfo {
        hash: hash.to_string(),
        status,
        content_path: path.to_string(),
        name: name.to_string(),
    }
}

fn relay_path(hash: &str) -> String {
    std::path::Path::new("relay")
        .join("artifacts")
        .join(hash)
        .to_string_lossy()
        .into_owned()
}

#[test]
fn status_ordinals_follow_the_lifecycle() {
    assert_eq!(TaskStatus::Tracking.ordinal(), 0);
    assert_eq!(TaskStatus::TorrentReady.ordinal(), 1);
    assert_eq!(TaskStatus::ArtifactReady.ordinal(), 2);
    assert_eq!(TaskStatus::Archived.ordinal(), 3);
}

#[test]
fn status_is_read_back_from_its_ordinal() {
    assert_eq!(TaskStatus::from_ordinal(0), Some(TaskStatus::Tracking));
    assert_eq!(TaskStatus::from_ordinal(1), Some(TaskStatus::TorrentReady));
    assert_eq!(TaskStatus::from_ordinal(2), Some(TaskStatus::ArtifactReady));
    assert_eq!(TaskStatus::from_ordinal(3), Some(TaskStatus::Archived));
    assert_eq!(TaskStatus::from_ordinal(4), None);
    assert_eq!(TaskStatus::from_ordinal(-1), None);
    assert_eq!(TaskStatus::from_ordinal(i64::MAX), None);
    assert_eq!(TaskStatus::from_ordinal(i64::MIN), None);
}

#[test]
fn status_order_is_strict() {
    assert!(TaskStatus::Tracking.precedes(TaskStatus::TorrentReady));
    assert!(TaskStatus::TorrentReady.precedes(TaskStatus::ArtifactReady));
    assert!(TaskStatus::ArtifactReady.precedes(TaskStatus::Archived));
    assert!(TaskStatus::Tracking.precedes(TaskStatus::Archived));
    assert!(!TaskStatus::Archived.precedes(TaskStatus::Archived));
    assert!(!TaskStatus::TorrentReady.precedes(TaskStatus::Tracking));
}

#[test]
fn discovered_status_follows_progress() {
    assert_eq!(TaskStatus::discovered(TorrentStatus::Downloading), TaskStatus::Tracking);
    assert_eq!(TaskStatus::discovered(TorrentStatus::Seeding), TaskStatus::TorrentReady);
}

#[test]
fn new_store_is_empty() {
    let store = StorageManager::new("relay".to_string());
    assert_eq!(store.task_count(), 0);
    assert_eq!(store.status_of("H1"), None);
    assert!(store.list_ready_torrents().is_empty());
    assert!(store.list_ready_artifacts().is_empty());
}

#[test]
fn update_inserts_new_hashes() {
    let mut store = StorageManager::new("relay".to_string());
    store.update_torrent_info(&[
        item("H1", TorrentStatus::Downloading, "one", "p/1"),
        item("H2", TorrentStatus::Seeding, "two", "p/2"),
    ]);
    assert_eq!(store.task_count(), 2);
    assert_eq!(store.status_of("H1"), Some(TaskStatus::Tracking));
    assert_eq!(store.status_of("H2"), Some(TaskStatus::TorrentReady));
}

#[test]
fn update_with_higher_status_overwrites_name_and_path() {
    let mut store = StorageManager::new("relay".to_string());
    store.update_torrent_info(&[item("H1", TorrentStatus::Downloading, "old", "p/old")]);
    store.update_torrent_info(&[item("H1", TorrentStatus::Seeding, "new", "p/new")]);
    let ready = store.list_ready_torrents();
    assert_eq!(ready.len(), 1);
    assert_eq!(ready[0].hash, "H1");
    assert_eq!(ready[0].name, "new");
    assert_eq!(ready[0].content_path, "p/new");
    assert_eq!(ready[0].status, TorrentStatus::Seeding);
}

#[test]
fn update_with_lower_status_is_passed_over() {
    let mut store = StorageManager::new("relay".to_string());
    store.update_torrent_info(&[item("H1", TorrentStatus::Seeding, "kept", "p/kept")]);
    store.update_torrent_info(&[item("H1", TorrentStatus::Downloading, "stale", "p/stale")]);
    assert_eq!(store.status_of("H1"), Some(TaskStatus::TorrentReady));
    let ready = store.list_ready_torrents();
    assert_eq!(ready[0].name, "kept");
    assert_eq!(ready[0].content_path, "p/kept");
}

#[test]
fn update_with_equal_status_is_passed_over() {
    let mut store = StorageManager::new("relay".to_string());
    store.update_torrent_info(&[item("H1", TorrentStatus::Seeding, "first", "p/first")]);
    store.update_torrent_info(&[item("H1", TorrentStatus::Seeding, "second", "p/second")]);
    let ready = store.list_ready_torrents();
    assert_eq!(ready.len(), 1);
    assert_eq!(ready[0].name, "first");
    assert_eq!(ready[0].content_path, "p/first");
}

#[test]
fn stored_status_is_the_highest_offered_in_any_order() {
    let offers = [
        (TorrentStatus::Downloading, TorrentStatus::Seeding, TorrentStatus::Downloading),
        (TorrentStatus::Seeding, TorrentStatus::Downloading, TorrentStatus::Downloading),
        (TorrentStatus::Downloading, TorrentStatus::Downloading, TorrentStatus::Seeding),
    ];
    for (a, b, c) in offers {
        let mut store = StorageManager::new("relay".to_string());
        store.update_torrent_info(&[item("H1", a, "n", "p")]);
        store.update_torrent_info(&[item("H1", b, "n", "p"), item("H1", c, "n", "p")]);
        assert_eq!(store.status_of("H1"), Some(TaskStatus::TorrentReady));
        assert_eq!(store.task_count(), 1);
    }
    let mut store = StorageManager::new("relay".to_string());
    store.update_torrent_info(&[
        item("H1", TorrentStatus::Downloading, "n", "p"),
        item("H1", TorrentStatus::Downloading, "n", "p"),
    ]);
    assert_eq!(store.status_of("H1"), Some(TaskStatus::Tracking));
}

#[test]
fn update_twice_is_update_once() {
    let items = [
        item("H1", TorrentStatus::Downloading, "a", "p/a"),
        item("H2", TorrentStatus::Seeding, "b", "p/b"),
        item("H1", TorrentStatus::Seeding, "c", "p/c"),
    ];
    let mut store = StorageManager::new("relay".to_string());
    store.update_torrent_info(&items);
    let once: Vec<(String, String, String)> = store
        .list_ready_torrents()
        .into_iter()
        .map(|t| (t.hash, t.name, t.content_path))
        .collect();
    store.update_torrent_info(&items);
    let twice: Vec<(String, String, String)> = store
        .list_ready_torrents()
        .into_iter()
        .map(|t| (t.hash, t.name, t.content_path))
        .collect();
    assert_eq!(once, twice);
    assert_eq!(
        once,
        vec![
            ("H1".to_string(), "c".to_string(), "p/c".to_string()),
            ("H2".to_string(), "b".to_string(), "p/b".to_string()),
        ]
    );
    assert_eq!(store.task_count(), 2);
}

#[test]
fn update_never_lowers_a_later_status() {
    let mut store = StorageManager::new("relay".to_string());
    store.update_torrent_info(&[item("H1", TorrentStatus::Seeding, "n", "p")]);
    store.mark_artifact_ready("H1");
    store.update_torrent_info(&[item("H1", TorrentStatus::Seeding, "again", "q")]);
    assert_eq!(store.status_of("H1"), Some(TaskStatus::ArtifactReady));
    assert!(store.finalize_artifact("H1").is_ok());
    store.update_torrent_info(&[item("H1", TorrentStatus::Seeding, "again", "q")]);
    store.update_torrent_info(&[item("H1", TorrentStatus::Downloading, "again", "q")]);
    assert_eq!(store.status_of("H1"), Some(TaskStatus::Archived));
    assert_eq!(store.task_count(), 1);
}

#[test]
fn mark_artifact_ready_moves_only_ready_torrents() {
    let mut store = StorageManager::new("relay".to_string());
    store.update_torrent_info(&[
        item("H1", TorrentStatus::Downloading, "one", "p/1"),
        item("H2", TorrentStatus::Seeding, "two", "p/2"),
    ]);
    store.mark_artifact_ready("H1");
    store.mark_artifact_ready("H2");
    store.mark_artifact_ready("H3");
    assert_eq!(store.status_of("H1"), Some(TaskStatus::Tracking));
    assert_eq!(store.status_of("H2"), Some(TaskStatus::ArtifactReady));
    assert_eq!(store.status_of("H3"), None);
    store.mark_artifact_ready("H2");
    assert_eq!(store.status_of("H2"), Some(TaskStatus::ArtifactReady));
}

#[test]
fn artifact_storage_path_is_below_the_artifacts_directory() {
    let store = StorageManager::new("relay".to_string());
    assert_eq!(store.artifact_storage_path("H1"), relay_path("H1"));
    assert_ne!(store.artifact_storage_path("H1"), "H1");
    assert_ne!(store.artifact_storage_path("H1"), "relay");
    assert!(store.artifact_storage_path("H1").ends_with("H1"));
    assert!(store.artifact_storage_path("H1").starts_with("relay"));
    assert!(store.artifact_storage_path("H1").contains("artifacts"));
}

#[test]
fn list_ready_artifacts_gives_hash_name_and_path() {
    let mut store = StorageManager::new("relay".to_string());
    store.update_torrent_info(&[
        item("H1", TorrentStatus::Seeding, "one", "p/1"),
        item("H2", TorrentStatus::Seeding, "two", "p/2"),
        item("H3", TorrentStatus::Downloading, "three", "p/3"),
    ]);
    store.mark_artifact_ready("H2");
    let artifacts = store.list_ready_artifacts();
    assert_eq!(artifacts.len(), 1);
    assert_eq!(artifacts[0].hash, "H2");
    assert_eq!(artifacts[0].name, "two");
    assert_eq!(artifacts[0].path, relay_path("H2"));
    let torrents = store.list_ready_torrents();
    assert_eq!(torrents.len(), 1);
    assert_eq!(torrents[0].hash, "H1");
}

#[test]
fn finalize_archives_and_names_the_directory() {
    let mut store = StorageManager::new("relay".to_string());
    store.update_torrent_info(&[item("H1", TorrentStatus::Seeding, "one", "p/1")]);
    store.mark_artifact_ready("H1");
    match store.finalize_artifact("H1") {
        Ok(path) => assert_eq!(path, relay_path("H1")),
        Err(error) => panic!("unexpected error: {:?}", error),
    }
    assert_eq!(store.status_of("H1"), Some(TaskStatus::Archived));
    assert!(store.list_ready_artifacts().is_empty());
}

#[test]
fn finalize_twice_reports_already_archived() {
    let mut store = StorageManager::new("relay".to_string());
    store.update_torrent_info(&[item("H1", TorrentStatus::Seeding, "one", "p/1")]);
    store.mark_artifact_ready("H1");
    assert!(store.finalize_artifact("H1").is_ok());
    assert!(matches!(
        store.finalize_artifact("H1"),
        Err(FinalizeArtifactError::AlreadyArchived)
    ));
    assert!(matches!(
        store.finalize_artifact("H1"),
        Err(FinalizeArtifactError::AlreadyArchived)
    ));
    assert_eq!(store.status_of("H1"), Some(TaskStatus::Archived));
}

#[test]
fn finalize_unknown_reports_not_found_and_changes_nothing() {
    let mut store = StorageManager::new("relay".to_string());
    store.update_torrent_info(&[item("H1", TorrentStatus::Seeding, "one", "p/1")]);
    store.mark_artifact_ready("H1");
    assert!(matches!(
        store.finalize_artifact("unknown"),
        Err(FinalizeArtifactError::NotFound)
    ));
    assert_eq!(store.task_count(), 1);
    assert_eq!(store.status_of("unknown"), None);
    assert_eq!(store.status_of("H1"), Some(TaskStatus::ArtifactReady));
}

#[test]
fn finalize_before_the_relay_reports_not_found() {
    let mut store = StorageManager::new("relay".to_string());
    store.update_torrent_info(&[
        item("H1", TorrentStatus::Downloading, "one", "p/1"),
        item("H2", TorrentStatus::Seeding, "two", "p/2"),
    ]);
    assert!(matches!(store.finalize_artifact("H1"), Err(FinalizeArtifactError::NotFound)));
    assert!(matches!(store.finalize_artifact("H2"), Err(FinalizeArtifactError::NotFound)));
    assert_eq!(store.status_of("H1"), Some(TaskStatus::Tracking));
    assert_eq!(store.status_of("H2"), Some(TaskStatus::TorrentReady));
}

#[test]
fn earliest_import_date_is_set_once() {
    let mut store = StorageManager::new("relay".to_string());
    assert_eq!(store.earliest_import_date(1_700_000_000), 1_700_000_000);
    assert_eq!(store.earliest_import_date(1_800_000_000), 1_700_000_000);
    assert_eq!(store.earliest_import_date(0), 1_700_000_000);
}

#[test]
fn restored_watermark_is_kept() {
    let mut store = StorageManager::new("relay".to_string());
    store.restore_watermark(42);
    assert_eq!(store.earliest_import_date(1_700_000_000), 42);
}

#[test]
fn restore_task_takes_valid_rows_only() {
    let mut store = StorageManager::new("relay".to_string());
    assert!(store.restore_task("H1".into(), "one".into(), 2, "p/1".into()));
    assert!(!store.restore_task("H1".into(), "dup".into(), 3, "p/x".into()));
    assert!(!store.restore_task("H2".into(), "bad".into(), 4, "p/2".into()));
    assert!(!store.restore_task("H3".into(), "bad".into(), -1, "p/3".into()));
    assert!(store.restore_task("H4".into(), "four".into(), 3, "p/4".into()));
    assert_eq!(store.task_count(), 2);
    assert_eq!(store.status_of("H1"), Some(TaskStatus::ArtifactReady));
    assert_eq!(store.status_of("H4"), Some(TaskStatus::Archived));
    let artifacts = store.list_ready_artifacts();
    assert_eq!(artifacts.len(), 1);
    assert_eq!(artifacts[0].name, "one");
}

#[test]
fn storage_error_messages() {
    assert_eq!(StorageManagerError::Io("disk".into()).message(), "I/O error: disk");
    assert_eq!(StorageManagerError::Sqlx("locked".into()).message(), "Database error: locked");
    assert_eq!(StorageManagerError::Chrono("bad".into()).message(), "Parsing error: bad");
    assert_eq!(FinalizeArtifactError::NotFound.message(), "Artifact not found");
    assert_eq!(FinalizeArtifactError::AlreadyArchived.message(), "Artifact already archived");
    assert_eq!(
        FinalizeArtifactError::Storage("gone".into()).message(),
        "Storage error: gone"
    );
}

#[test]
fn watermark_is_stored_as_rfc3339() {
    assert_eq!(
        anipler::watermark::encode_watermark(0),
        Some("1970-01-01T00:00:00+00:00".to_string())
    );
    assert_eq!(
        anipler::watermark::encode_watermark(1_700_000_000),
        Some("2023-11-14T22:13:20+00:00".to_string())
    );
    assert_eq!(anipler::watermark::encode_watermark(i64::MAX), None);
    assert_eq!(anipler::watermark::encode_watermark(i64::MIN), None);
}

#[test]
fn stored_watermark_is_read_in_whole_seconds() {
    let decode = anipler::watermark::decode_watermark;
    assert_eq!(decode("1970-01-01T00:00:00+00:00").unwrap(), 0);
    assert_eq!(decode("2023-11-14T22:13:20+00:00").unwrap(), 1_700_000_000);
    assert_eq!(decode("2023-11-14T22:13:20.987654321+00:00").unwrap(), 1_700_000_000);
    assert_eq!(decode("2023-11-15T00:13:20+02:00").unwrap(), 1_700_000_000);
    assert_eq!(decode("2023-11-14T22:13:20Z").unwrap(), 1_700_000_000);
    assert_eq!(decode("1969-12-31T23:59:59Z").unwrap(), -1);
}

#[test]
fn unreadable_watermark_is_a_parsing_error() {
    for value in ["", "yesterday", "2023-11-14", "2023-11-14T22:13:20", "1700000000"] {
        match anipler::watermark::decode_watermark(value) {
            Err(StorageManagerError::Chrono(text)) => assert!(!text.is_empty()),
            other => panic!("unexpected result for {:?}: {:?}", value, other),
        }
    }
}

#[test]
fn watermark_survives_storing() {
    for date in [0, 1, -1, 1_700_000_000, 253_402_300_799] {
        let stored = anipler::watermark::encode_watermark(date).unwrap();
        assert_eq!(anipler::watermark::decode_watermark(&stored).unwrap(), date);
    }
}

#[test]
fn task_gives_the_stored_record() {
    let mut store = StorageManager::new("relay".to_string());
    assert_eq!(store.watermark(), None);
    assert_eq!(store.storage_path(), "relay");
    store.update_torrent_info(&[item("H1", TorrentStatus::Seeding, "one", "p/1")]);
    store.earliest_import_date(9);
    assert_eq!(store.watermark(), Some(9));
    let entry = store.task("H1").unwrap();
    assert_eq!(entry.hash, "H1");
    assert_eq!(entry.name, "one");
    assert_eq!(entry.status, TaskStatus::TorrentReady);
    assert_eq!(entry.content_path, "p/1");
    assert!(store.task("H2").is_none());
}

#[test]
fn tasks_are_listed_by_status() {
    let mut store = StorageManager::new("relay".to_string());
    store.update_torrent_info(&[
        item("H1", TorrentStatus::Downloading, "one", "p/1"),
        item("H2", TorrentStatus::Seeding, "two", "p/2"),
        item("H3", TorrentStatus::Seeding, "three", "p/3"),
        item("H4", TorrentStatus::Seeding, "four", "p/4"),
    ]);
    store.mark_artifact_ready("H3");
    store.mark_artifact_ready("H4");
    store.finalize_artifact("H4").unwrap();
    let names = |status| -> Vec<(String, String, String)> {
        let mut listed: Vec<(String, String, String)> = store
            .list_tasks_with_status(status)
            .into_iter()
            .map(|task| {
                assert_eq!(task.status, status);
                (task.hash, task.name, task.content_path)
            })
            .collect();
        listed.sort();
        listed
    };
    assert_eq!(names(TaskStatus::Tracking), vec![("H1".into(), "one".into(), "p/1".into())]);
    assert_eq!(names(TaskStatus::TorrentReady), vec![("H2".into(), "two".into(), "p/2".into())]);
    assert_eq!(
        names(TaskStatus::ArtifactReady),
        vec![("H3".into(), "three".into(), "p/3".into())]
    );
    assert_eq!(names(TaskStatus::Archived), vec![("H4".into(), "four".into(), "p/4".into())]);
}
