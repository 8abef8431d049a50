use encircled::hash::{to_hex_lower, FileHasher};
use encircled::store::{get_pending_queued_uploads, get_recent_telemetry_history, enqueue_offline_upload, LocalStore, NewOfflineUpload};
use encircled::upload::{
    count_synced,
    exceeds_size_cap, notification_body, oversize_rejection_event, preflight_decision,
    preflight_rejection_event, retry_plan, retry_synced_event, server_verified_event,
    settle_retry, settle_upload, upload_event, upload_outcome, PreflightNext, PreflightReply,
    RetryPlan, UploadAction, UploadContext, UploadEvent, UploadOutcome, UploadReply, UploadRun,
    UploadStage, MAX_SAVE_FILE_SIZE,
};

fn ctx() -> UploadContext {
    UploadContext {
        file_name: "autosave.hoi4".into(),
        file_hash: "abc".into(),
        sequence_index: 12,
        has_debug_flag: true,
        timestamp: "1700000000".into(),
    }
}

#[test]
fn size_cap() {
    assert_eq!(MAX_SAVE_FILE_SIZE, 262_144_000);
    assert!(!exceeds_size_cap(262_144_000));
    assert!(exceeds_size_cap(262_144_001));
    let e = oversize_rejection_event("big.hoi4", "REJECTED: too big", false, "5");
    assert_eq!(e.file_hash, "OVERSIZED");
    assert!(!e.verified);
}

#[test]
fn preflight_answers() {
    assert!(matches!(preflight_decision(&PreflightReply::Unreachable), PreflightNext::Upload { verified: false }));
    assert!(matches!(
        preflight_decision(&PreflightReply::Accepted { should_upload: None }),
        PreflightNext::Upload { verified: true }
    ));
    assert!(matches!(
        preflight_decision(&PreflightReply::Accepted { should_upload: Some(true) }),
        PreflightNext::Upload { verified: true }
    ));
    assert!(matches!(
        preflight_decision(&PreflightReply::Accepted { should_upload: Some(false) }),
        PreflightNext::ReportVerified
    ));
    for code in [400u16, 409, 422] {
        assert!(matches!(preflight_decision(&PreflightReply::Refused { code }), PreflightNext::RecordRejection));
    }
    assert!(matches!(
        preflight_decision(&PreflightReply::Refused { code: 500 }),
        PreflightNext::Upload { verified: false }
    ));
}

#[test]
fn upload_answers_and_events() {
    assert!(matches!(upload_outcome(&UploadReply::Succeeded), UploadOutcome::Uploaded));
    assert!(matches!(upload_outcome(&UploadReply::Refused { code: 409 }), UploadOutcome::IntegrityRejected));
    assert!(matches!(upload_outcome(&UploadReply::Refused { code: 422 }), UploadOutcome::IntegrityRejected));
    assert!(matches!(upload_outcome(&UploadReply::Refused { code: 400 }), UploadOutcome::Queued));
    assert!(matches!(upload_outcome(&UploadReply::NetworkError), UploadOutcome::Queued));

    let c = ctx();
    let e = upload_event(&c, &UploadOutcome::Uploaded, true, "");
    assert_eq!(e.status, "Autosave autosave.hoi4 (Seq #12) uploaded & verified");
    assert!(e.verified && e.has_debug_flag);
    let e = upload_event(&c, &UploadOutcome::Uploaded, false, "");
    assert!(!e.verified);
    let e = upload_event(&c, &UploadOutcome::IntegrityRejected, true, "hash mismatch");
    assert_eq!(e.status, "INTEGRITY REJECTED: hash mismatch");
    assert!(!e.verified);
    let e = upload_event(&c, &UploadOutcome::Queued, true, "");
    assert_eq!(e.status, "Offline - Queued in SQLite");
    let e = server_verified_event(&c);
    assert_eq!(e.status, "Autosave autosave.hoi4 (Seq #12) verified on server");
    assert!(e.verified);
    let e = preflight_rejection_event(&c, "409 Conflict");
    assert_eq!(e.status, "REJECTED: Preflight validation failure (409 Conflict)");
    assert_eq!(
        notification_body("Autosave x (Seq #1) uploaded & verified", false),
        "Autosave x (Seq #1) uploaded & verified (Debug Flag: false)"
    );
    let mut c0 = ctx();
    c0.sequence_index = 0;
    assert_eq!(upload_event(&c0, &UploadOutcome::Uploaded, true, "").status, "Autosave autosave.hoi4 (Seq #0) uploaded & verified");
    c0.sequence_index = u32::MAX;
    assert_eq!(upload_event(&c0, &UploadOutcome::Uploaded, true, "").status, "Autosave autosave.hoi4 (Seq #4294967295) uploaded & verified");
}

#[test]
fn settling_uploads() {
    let mut store = LocalStore::new();
    let c = ctx();
    let s = settle_upload(&mut store, "sess", "/saves/autosave.hoi4", Some("k"), &c, &UploadOutcome::Queued, false, "");
    assert_eq!(s.queued_id, Some(1));
    assert_eq!(s.event_id, Some(1));
    assert!(!s.notify);
    let pending = get_pending_queued_uploads(&store);
    assert_eq!(pending.len(), 1);
    assert_eq!(pending[0].file_path, "/saves/autosave.hoi4");
    assert_eq!(pending[0].api_key.as_deref(), Some("k"));
    // The same save again is not queued twice, but is recorded again.
    let s = settle_upload(&mut store, "sess", "/saves/autosave.hoi4", Some("k"), &c, &UploadOutcome::Queued, false, "");
    assert_eq!(s.queued_id, None);
    assert_eq!(s.event_id, Some(2));
    let s = settle_upload(&mut store, "sess", "/p", None, &c, &UploadOutcome::Uploaded, true, "");
    assert!(s.notify && s.queued_id.is_none());
    assert_eq!(get_recent_telemetry_history(&store, 10, 0).len(), 3);
}

#[test]
fn retry_plans() {
    assert!(matches!(retry_plan(false, None, "h", None), RetryPlan::Prune));
    assert!(matches!(retry_plan(true, None, "h", Some(1)), RetryPlan::Skip));
    assert!(matches!(retry_plan(true, Some("x"), "h", Some(1)), RetryPlan::Prune));
    assert!(matches!(retry_plan(true, Some("h"), "h", None), RetryPlan::Skip));
    assert!(matches!(retry_plan(true, Some("h"), "h", Some(MAX_SAVE_FILE_SIZE + 1)), RetryPlan::Prune));
    assert!(matches!(retry_plan(true, Some("h"), "h", Some(MAX_SAVE_FILE_SIZE)), RetryPlan::Send));
}

#[test]
fn settling_retries() {
    let mut store = LocalStore::new();
    let u = NewOfflineUpload {
        session_id: "sess",
        file_path: "/p",
        file_hash: "h",
        file_name: "autosave.hoi4",
        timestamp: "7",
        api_key: None,
        sequence_index: 4,
        has_debug_flag: false,
    };
    enqueue_offline_upload(&mut store, &u);
    let item = get_pending_queued_uploads(&store).remove(0);
    let failed = settle_retry(&mut store, &item, false);
    assert!(failed.event.is_none());
    assert_eq!(get_pending_queued_uploads(&store).len(), 1);
    let r = settle_retry(&mut store, &item, true);
    let round = vec![failed, settle_retry(&mut LocalStore::new(), &item, true)];
    assert_eq!(count_synced(&round), 1);
    assert_eq!(count_synced(&Vec::new()), 0);
    let e = r.event.unwrap();
    assert_eq!(e.status, "Queued autosave autosave.hoi4 (Seq #4) synced & verified");
    assert!(e.verified);
    assert_eq!(r.event_id, Some(1));
    assert!(get_pending_queued_uploads(&store).is_empty());
    assert_eq!(retry_synced_event(&item).timestamp, "7");
}

#[test]
fn sha256_of_known_inputs() {
    let h = FileHasher::new();
    assert_eq!(h.finish_hex(), "e3b0c44298fc1c149afbf4c8996fb92427ae41e4649b934ca495991b7852b855");
    let mut h = FileHasher::new();
    h.update(b"a");
    h.update(b"bc");
    assert_eq!(h.finish_hex(), "ba7816bf8f01cfea414140de5dae2223b00361a396177a9cb410ff61f20015ad");
    assert_eq!(to_hex_lower(&[0x00, 0x0f, 0xa0, 0xff]), "000fa0ff");
}

#[test]
fn upload_run_full_path() {
    let mut run = UploadRun::new();
    assert!(matches!(run.step(UploadEvent::Measured { file_len: 1000 }), UploadAction::ComputeHash));
    assert!(matches!(run.step(UploadEvent::Hashed), UploadAction::SendPreflight));
    let reply = PreflightReply::Accepted { should_upload: Some(true) };
    assert!(matches!(run.step(UploadEvent::PreflightAnswered { reply }), UploadAction::SendUpload));
    assert!(matches!(run.stage, UploadStage::Uploading { verified: true }));
    let a = run.step(UploadEvent::UploadAnswered { reply: UploadReply::Refused { code: 503 } });
    assert!(matches!(a, UploadAction::Settle { outcome: UploadOutcome::Queued, verified: true }));
    assert!(matches!(run.stage, UploadStage::Finished));
    assert!(matches!(run.step(UploadEvent::Hashed), UploadAction::Ignore));
}

#[test]
fn upload_run_stops_early() {
    let mut run = UploadRun::new();
    let a = run.step(UploadEvent::Measured { file_len: MAX_SAVE_FILE_SIZE + 1 });
    assert!(matches!(a, UploadAction::RecordOversize));
    assert!(matches!(run.step(UploadEvent::Hashed), UploadAction::Ignore));

    let mut run = UploadRun::new();
    assert!(matches!(run.step(UploadEvent::Measured { file_len: MAX_SAVE_FILE_SIZE }), UploadAction::ComputeHash));
    // An event out of order changes nothing.
    assert!(matches!(
        run.step(UploadEvent::UploadAnswered { reply: UploadReply::Succeeded }),
        UploadAction::Ignore
    ));
    assert!(matches!(run.step(UploadEvent::Hashed), UploadAction::SendPreflight));
    let reply = PreflightReply::Refused { code: 409 };
    assert!(matches!(run.step(UploadEvent::PreflightAnswered { reply }), UploadAction::RecordRejection));

    let mut run = UploadRun { stage: UploadStage::Preflight };
    let reply = PreflightReply::Accepted { should_upload: Some(false) };
    assert!(matches!(run.step(UploadEvent::PreflightAnswered { reply }), UploadAction::ReportVerified));
    assert!(matches!(run.step(UploadEvent::UploadAnswered { reply: UploadReply::Succeeded }), UploadAction::Ignore));
}
