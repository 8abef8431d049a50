use encircled::models::TelemetryPayload;
use encircled::store::{
    clear_all_queued_uploads, clear_telemetry_history, delete_queued_upload,
    enqueue_offline_upload, get_pending_queued_uploads, get_recent_telemetry_history,
    increment_queued_upload_retry, prune_exhausted_uploads, record_telemetry_event, HistoryRow,
    next_row_id, LocalStore, NewOfflineUpload, QueueRow, QueuedUpload,
};

#[test]
fn test_telemetry_history_pagination_and_clear() {
    let mut store = LocalStore::new();
    let _ = clear_telemetry_history(&mut store);

    let session = "test-session-pagination";
    for i in 1..=10 {
        record_telemetry_event(
            &mut store,
            session,
            &TelemetryPayload {
                file_name: format!("save_{}.hoi4", i),
                file_hash: format!("hash_{}", i),
                status: "UPLOADED".to_string(),
                verified: true,
                has_debug_flag: false,
                timestamp: format!("170000000{}", i),
            },
        );
    }

    // Page 1: limit 4, offset 0
    let page1 = get_recent_telemetry_history(&store, 4, 0);
    assert_eq!(page1.len(), 4);
    assert_eq!(page1[0].file_name, "save_10.hoi4"); // latest first

    // Page 2: limit 4, offset 4
    let page2 = get_recent_telemetry_history(&store, 4, 4);
    assert_eq!(page2.len(), 4);
    assert_eq!(page2[0].file_name, "save_6.hoi4");

    // Page 3: limit 4, offset 8
    let page3 = get_recent_telemetry_history(&store, 4, 8);
    assert_eq!(page3.len(), 2);
    assert_eq!(page3[0].file_name, "save_2.hoi4");

    // Clear history
    let cleared = clear_telemetry_history(&mut store);
    assert!(cleared.is_ok());

    let empty = get_recent_telemetry_history(&store, 10, 0);
    assert_eq!(empty.len(), 0);
}

fn event(i: usize) -> TelemetryPayload {
    TelemetryPayload {
        file_name: format!("save_{}.hoi4", i),
        file_hash: format!("hash_{}", i),
        status: "UPLOADED".to_string(),
        verified: false,
        has_debug_flag: false,
        timestamp: i.to_string(),
    }
}

#[test]
fn history_keeps_latest_hundred() {
    let mut store = LocalStore::new();
    for i in 1..=105 {
        assert_eq!(record_telemetry_event(&mut store, "s", &event(i)), Some(i as i64));
    }
    let all = get_recent_telemetry_history(&store, 1000, 0);
    assert_eq!(all.len(), 100);
    assert_eq!(all[0].file_name, "save_105.hoi4");
    assert_eq!(all[99].file_name, "save_6.hoi4");
    assert_eq!(clear_telemetry_history(&mut store), Ok(100));
}

#[test]
fn history_paging_edges() {
    let mut store = LocalStore::new();
    for i in 1..=3 {
        record_telemetry_event(&mut store, "s", &event(i));
    }
    assert_eq!(get_recent_telemetry_history(&store, 0, 0).len(), 0);
    assert_eq!(get_recent_telemetry_history(&store, 5, 3).len(), 0);
    assert_eq!(get_recent_telemetry_history(&store, usize::MAX, 1).len(), 2);
    // An offset past i64::MAX turns negative in SQL and counts as zero.
    let page = get_recent_telemetry_history(&store, 1, usize::MAX);
    assert_eq!(page.len(), 1);
    assert_eq!(page[0].file_name, "save_3.hoi4");
}

fn upload<'a>(session: &'a str, hash: &'a str) -> NewOfflineUpload<'a> {
    NewOfflineUpload {
        session_id: session,
        file_path: "/saves/autosave.hoi4",
        file_hash: hash,
        file_name: "autosave.hoi4",
        timestamp: "1700000000",
        api_key: Some("key"),
        sequence_index: 3,
        has_debug_flag: true,
    }
}

#[test]
fn queue_ignores_duplicates() {
    let mut store = LocalStore::new();
    assert_eq!(enqueue_offline_upload(&mut store, &upload("s1", "h1")), Some(1));
    assert_eq!(enqueue_offline_upload(&mut store, &upload("s1", "h1")), None);
    assert_eq!(enqueue_offline_upload(&mut store, &upload("s1", "h2")), Some(2));
    assert_eq!(enqueue_offline_upload(&mut store, &upload("s2", "h1")), Some(3));
    let pending = get_pending_queued_uploads(&store);
    let ids: Vec<i64> = pending.iter().map(|u| u.id).collect();
    assert_eq!(ids, vec![3, 2, 1]); // newest first
    assert_eq!(pending[2].session_id, "s1");
    assert_eq!(pending[2].file_hash, "h1");
    assert_eq!(pending[2].api_key.as_deref(), Some("key"));
    assert_eq!(pending[2].sequence_index, 3);
    assert!(pending[2].has_debug_flag);
}

#[test]
fn queue_retry_limit_delete_and_clear() {
    let mut store = LocalStore::new();
    enqueue_offline_upload(&mut store, &upload("s", "a"));
    enqueue_offline_upload(&mut store, &upload("s", "b"));
    for _ in 0..9 {
        increment_queued_upload_retry(&mut store, 1);
    }
    assert_eq!(get_pending_queued_uploads(&store).len(), 2);
    increment_queued_upload_retry(&mut store, 1);
    let pending = get_pending_queued_uploads(&store);
    assert_eq!(pending.len(), 1);
    assert_eq!(pending[0].id, 2);
    // Pruning leaves the pending uploads as they were.
    prune_exhausted_uploads(&mut store);
    assert_eq!(get_pending_queued_uploads(&store).len(), 1);
    // The pruned key can be queued again, with a new id.
    assert_eq!(enqueue_offline_upload(&mut store, &upload("s", "a")), Some(3));
    delete_queued_upload(&mut store, 2);
    delete_queued_upload(&mut store, 42);
    let pending = get_pending_queued_uploads(&store);
    assert_eq!(pending.len(), 1);
    assert_eq!(pending[0].id, 3);
    assert_eq!(clear_all_queued_uploads(&mut store), Ok(1));
    assert!(get_pending_queued_uploads(&store).is_empty());
    assert_eq!(enqueue_offline_upload(&mut store, &upload("s", "c")), Some(4));
}

fn row(id: i64, session: &str, hash: &str, retry: i64) -> QueueRow {
    QueueRow {
        upload: QueuedUpload {
            id,
            session_id: session.into(),
            file_path: "/p".into(),
            file_hash: hash.into(),
            file_name: "f.hoi4".into(),
            timestamp: "1".into(),
            sequence_index: 1,
            has_debug_flag: false,
            api_key: None,
        },
        retry_count: retry,
    }
}

#[test]
fn loading_rows_checks_their_rules() {
    let ok = LocalStore::from_rows(vec![row(1, "s", "a", 0), row(4, "s", "b", 12)], 5, vec![], 1);
    let store = ok.expect("well-formed rows");
    let pending = get_pending_queued_uploads(&store);
    assert_eq!(pending.len(), 1);
    assert_eq!(pending[0].id, 1);

    assert!(LocalStore::from_rows(vec![row(2, "s", "a", 0), row(1, "s", "b", 0)], 5, vec![], 1).is_none());
    assert!(LocalStore::from_rows(vec![row(1, "s", "a", 0), row(2, "s", "a", 0)], 5, vec![], 1).is_none());
    assert!(LocalStore::from_rows(vec![row(5, "s", "a", 0)], 5, vec![], 1).is_none());
    let h = HistoryRow { id: 3, session_id: "s".into(), payload: event(1) };
    assert!(LocalStore::from_rows(vec![], 1, vec![h], 3).is_none());
}

#[test]
fn next_row_id_rule() {
    assert_eq!(next_row_id(0, 0), 1);
    assert_eq!(next_row_id(7, 3), 8);
    assert_eq!(next_row_id(3, 9), 10);
    assert_eq!(next_row_id(-5, -2), 1);
    assert_eq!(next_row_id(i64::MAX - 1, 0), i64::MAX);
    assert_eq!(next_row_id(i64::MAX, 4), i64::MAX);
}
