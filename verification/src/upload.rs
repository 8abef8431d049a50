//! The decisions of an upload: the size cap, reading the server's answers to
//! the preflight check and to the upload, the telemetry they produce, and what
//! happens to a queued upload on a retry.
use vstd::prelude::*;
use crate::models::TelemetryPayload;
use crate::store::{
    delete_queued_upload, enqueue_offline_upload, increment_queued_upload_retry,
    queue_after_retry, queue_without, record_telemetry_event, store_after_enqueue,
    store_after_record, LocalStore, NewOfflineUpload, NewUploadRecord, QueuedUpload, StoreView,
};
use crate::text::{append_bool, append_decimal, append_str, bool_text, decimal_seq, opt_str_view, string_of};

verus! {

/// Save files larger than 250 MB are not uploaded.
pub const MAX_SAVE_FILE_SIZE: u64 = 250 * 1024 * 1024;

pub fn exceeds_size_cap(file_len: u64) -> (r: bool)
    ensures
        r == (file_len > MAX_SAVE_FILE_SIZE),
{
    file_len > MAX_SAVE_FILE_SIZE
}

/// What is known of a save while it is processed.
pub struct UploadContext {
    pub file_name: String,
    pub file_hash: String,
    pub sequence_index: u32,
    pub has_debug_flag: bool,
    pub timestamp: String,
}

/// The server's answer to the preflight hash check.
pub enum PreflightReply {
    /// No answer (the request failed).
    Unreachable,
    /// A 2xx answer, with its `should_upload` field where the body had one.
    Accepted { should_upload: Option<bool> },
    /// Any other status.
    Refused { code: u16 },
}

/// What follows the preflight check.
pub enum PreflightNext {
    /// Upload the file; `verified` tells whether the server confirmed the hash.
    Upload { verified: bool },
    /// The server refused the save (400, 409 or 422): record the rejection and stop.
    RecordRejection,
    /// The server already holds this save: report it as verified, no upload.
    ReportVerified,
}

pub open spec fn preflight_next(reply: PreflightReply) -> PreflightNext {
    match reply {
        PreflightReply::Unreachable => PreflightNext::Upload { verified: false },
        PreflightReply::Accepted { should_upload } => match should_upload {
            Some(false) => PreflightNext::ReportVerified,
            _ => PreflightNext::Upload { verified: true },
        },
        PreflightReply::Refused { code } => if code == 409 || code == 422 || code == 400 {
            PreflightNext::RecordRejection
        } else {
            PreflightNext::Upload { verified: false }
        },
    }
}

pub fn preflight_decision(reply: &PreflightReply) -> (r: PreflightNext)
    ensures
        r == preflight_next(*reply),
{
    match reply {
        PreflightReply::Unreachable => PreflightNext::Upload { verified: false },
        PreflightReply::Accepted { should_upload } => match should_upload {
            Some(false) => PreflightNext::ReportVerified,
            _ => PreflightNext::Upload { verified: true },
        },
        PreflightReply::Refused { code } => if *code == 409 || *code == 422 || *code == 400 {
            PreflightNext::RecordRejection
        } else {
            PreflightNext::Upload { verified: false }
        },
    }
}

/// The server's answer to the upload.
pub enum UploadReply {
    NetworkError,
    Succeeded,
    Refused { code: u16 },
}

/// What became of an upload.
pub enum UploadOutcome {
    Uploaded,
    /// Refused by the anti-fraud checks (409 or 422): never queued for retry.
    IntegrityRejected,
    /// Kept in the offline queue for a later attempt.
    Queued,
}

pub open spec fn upload_outcome_of(reply: UploadReply) -> UploadOutcome {
    match reply {
        UploadReply::Succeeded => UploadOutcome::Uploaded,
        UploadReply::Refused { code } => if code == 409 || code == 422 {
            UploadOutcome::IntegrityRejected
        } else {
            UploadOutcome::Queued
        },
        UploadReply::NetworkError => UploadOutcome::Queued,
    }
}

pub fn upload_outcome(reply: &UploadReply) -> (r: UploadOutcome)
    ensures
        r == upload_outcome_of(*reply),
{
    match reply {
        UploadReply::Succeeded => UploadOutcome::Uploaded,
        UploadReply::Refused { code } => if *code == 409 || *code == 422 {
            UploadOutcome::IntegrityRejected
        } else {
            UploadOutcome::Queued
        },
        UploadReply::NetworkError => UploadOutcome::Queued,
    }
}

/// `"Autosave {name} (Seq #{seq}) " + tail`.
pub open spec fn autosave_text(file_name: Seq<char>, seq: u32, tail: Seq<char>) -> Seq<char> {
    "Autosave "@ + file_name + " (Seq #"@ + decimal_seq(seq as nat) + ") "@ + tail
}

fn autosave_message(file_name: &String, seq: u32, tail: &str) -> (r: String)
    ensures
        r@ == autosave_text(file_name@, seq, tail@),
{
    let mut s = string_of("Autosave ");
    append_str(&mut s, file_name.as_str());
    append_str(&mut s, " (Seq #");
    append_decimal(&mut s, seq as u64);
    append_str(&mut s, ") ");
    append_str(&mut s, tail);
    s
}

/// The status text of an upload's outcome.
pub open spec fn upload_status_text(
    ctx_name: Seq<char>,
    seq: u32,
    outcome: UploadOutcome,
    server_text: Seq<char>,
) -> Seq<char> {
    match outcome {
        UploadOutcome::Uploaded => autosave_text(ctx_name, seq, "uploaded & verified"@),
        UploadOutcome::IntegrityRejected => "INTEGRITY REJECTED: "@ + server_text,
        UploadOutcome::Queued => "Offline - Queued in SQLite"@,
    }
}

/// The telemetry entry for an upload's outcome. `verified` is the preflight's
/// verdict, reported for a successful upload; `server_text` is the body of a
/// refusal.
pub fn upload_event(ctx: &UploadContext, outcome: &UploadOutcome, verified: bool, server_text: &str) -> (r:
    TelemetryPayload)
    ensures
        r@.file_name == ctx.file_name@,
        r@.file_hash == ctx.file_hash@,
        r@.status == upload_status_text(ctx.file_name@, ctx.sequence_index, *outcome, server_text@),
        r.verified == (outcome is Uploaded && verified),
        r.has_debug_flag == ctx.has_debug_flag,
        r@.timestamp == ctx.timestamp@,
{
    let status = match outcome {
        UploadOutcome::Uploaded => autosave_message(
            &ctx.file_name,
            ctx.sequence_index,
            "uploaded & verified",
        ),
        UploadOutcome::IntegrityRejected => {
            let mut s = string_of("INTEGRITY REJECTED: ");
            append_str(&mut s, server_text);
            s
        },
        UploadOutcome::Queued => string_of("Offline - Queued in SQLite"),
    };
    let v = match outcome {
        UploadOutcome::Uploaded => verified,
        _ => false,
    };
    TelemetryPayload {
        file_name: ctx.file_name.clone(),
        file_hash: ctx.file_hash.clone(),
        status,
        verified: v,
        has_debug_flag: ctx.has_debug_flag,
        timestamp: ctx.timestamp.clone(),
    }
}

/// The entry recorded when the server already holds the save.
pub fn server_verified_event(ctx: &UploadContext) -> (r: TelemetryPayload)
    ensures
        r@.file_name == ctx.file_name@,
        r@.file_hash == ctx.file_hash@,
        r@.status == autosave_text(ctx.file_name@, ctx.sequence_index, "verified on server"@),
        r.verified,
        r.has_debug_flag == ctx.has_debug_flag,
        r@.timestamp == ctx.timestamp@,
{
    TelemetryPayload {
        file_name: ctx.file_name.clone(),
        file_hash: ctx.file_hash.clone(),
        status: autosave_message(&ctx.file_name, ctx.sequence_index, "verified on server"),
        verified: true,
        has_debug_flag: ctx.has_debug_flag,
        timestamp: ctx.timestamp.clone(),
    }
}

/// The entry recorded when the preflight check refuses the save;
/// `status_text` is the refusal's status as the HTTP client prints it.
pub fn preflight_rejection_event(ctx: &UploadContext, status_text: &str) -> (r: TelemetryPayload)
    ensures
        r@.file_name == ctx.file_name@,
        r@.file_hash == ctx.file_hash@,
        r@.status == "REJECTED: Preflight validation failure ("@ + status_text@ + ")"@,
        !r.verified,
        r.has_debug_flag == ctx.has_debug_flag,
        r@.timestamp == ctx.timestamp@,
{
    let mut status = string_of("REJECTED: Preflight validation failure (");
    append_str(&mut status, status_text);
    append_str(&mut status, ")");
    TelemetryPayload {
        file_name: ctx.file_name.clone(),
        file_hash: ctx.file_hash.clone(),
        status,
        verified: false,
        has_debug_flag: ctx.has_debug_flag,
        timestamp: ctx.timestamp.clone(),
    }
}

/// The entry recorded for a save over the size cap; `status_text` carries the
/// size as the app prints it.
pub fn oversize_rejection_event(file_name: &str, status_text: &str, has_debug_flag: bool, timestamp: &str) -> (r:
    TelemetryPayload)
    ensures
        r@.file_name == file_name@,
        r@.file_hash == "OVERSIZED"@,
        r@.status == status_text@,
        !r.verified,
        r.has_debug_flag == has_debug_flag,
        r@.timestamp == timestamp@,
{
    TelemetryPayload {
        file_name: string_of(file_name),
        file_hash: string_of("OVERSIZED"),
        status: string_of(status_text),
        verified: false,
        has_debug_flag,
        timestamp: string_of(timestamp),
    }
}

/// The body of the desktop notification: the status, then the debug flag.
pub fn notification_body(status: &str, has_debug_flag: bool) -> (r: String)
    ensures
        r@ == status@ + " (Debug Flag: "@ + bool_text(has_debug_flag) + ")"@,
{
    let mut s = string_of(status);
    append_str(&mut s, " (Debug Flag: ");
    append_bool(&mut s, has_debug_flag);
    append_str(&mut s, ")");
    s
}

/// What settling an upload changed: the id the queued upload got, the id of
/// the recorded event, the event, and whether to show a notification.
pub struct Settled {
    pub queued_id: Option<i64>,
    pub event_id: Option<i64>,
    pub event: TelemetryPayload,
    pub notify: bool,
}

/// The queue entry for a save whose upload must be retried.
pub open spec fn retry_record(
    session_id: Seq<char>,
    file_path: Seq<char>,
    api_key: Option<Seq<char>>,
    ctx_name: Seq<char>,
    ctx_hash: Seq<char>,
    ctx_ts: Seq<char>,
    seq: u32,
    debug: bool,
) -> NewUploadRecord {
    NewUploadRecord {
        session_id,
        file_path,
        file_hash: ctx_hash,
        file_name: ctx_name,
        timestamp: ctx_ts,
        api_key,
        sequence_index: seq,
        has_debug_flag: debug,
    }
}

/// Records an upload's outcome: a save to retry is queued first, then the
/// outcome's event is added to the history; a successful upload is announced.
pub fn settle_upload(
    store: &mut LocalStore,
    session_id: &str,
    file_path: &str,
    api_key: Option<&str>,
    ctx: &UploadContext,
    outcome: &UploadOutcome,
    verified: bool,
    server_text: &str,
) -> (r: Settled)
    requires
        old(store).wf(),
    ensures
        final(store).wf(),
        r.event@.file_name == ctx.file_name@,
        r.event@.file_hash == ctx.file_hash@,
        r.event@.status == upload_status_text(
            ctx.file_name@,
            ctx.sequence_index,
            *outcome,
            server_text@,
        ),
        r.event.verified == (outcome is Uploaded && verified),
        r.event.has_debug_flag == ctx.has_debug_flag,
        r.event@.timestamp == ctx.timestamp@,
        r.notify == outcome is Uploaded,
        outcome is Queued ==> {
            let (s1, qid) = store_after_enqueue(
                old(store)@,
                retry_record(
                    session_id@,
                    file_path@,
                    opt_str_view(api_key),
                    ctx.file_name@,
                    ctx.file_hash@,
                    ctx.timestamp@,
                    ctx.sequence_index,
                    ctx.has_debug_flag,
                ),
            );
            r.queued_id == qid && (final(store)@, r.event_id) == store_after_record(
                s1,
                session_id@,
                r.event@,
            )
        },
        !(outcome is Queued) ==> r.queued_id is None && (final(store)@, r.event_id)
            == store_after_record(old(store)@, session_id@, r.event@),
{
    let event = upload_event(ctx, outcome, verified, server_text);
    let queued_id = match outcome {
        UploadOutcome::Queued => {
            let u = NewOfflineUpload {
                session_id,
                file_path,
                file_hash: ctx.file_hash.as_str(),
                file_name: ctx.file_name.as_str(),
                timestamp: ctx.timestamp.as_str(),
                api_key,
                sequence_index: ctx.sequence_index,
                has_debug_flag: ctx.has_debug_flag,
            };
            enqueue_offline_upload(store, &u)
        },
        _ => None,
    };
    let event_id = record_telemetry_event(store, session_id, &event);
    let notify = match outcome {
        UploadOutcome::Uploaded => true,
        _ => false,
    };
    Settled { queued_id, event_id, event, notify }
}

/// What to do with a queued upload on a retry.
pub enum RetryPlan {
    /// Drop it from the queue: the file is gone, was overwritten since, or is
    /// over the size cap.
    Prune,
    /// Leave it for the next round: its file could not be hashed or measured.
    Skip,
    /// Upload it again.
    Send,
}

/// The checks of a retry, in their order: the file must still exist, hash to
/// what was queued, and be within the size cap. `current_hash` is `None` where
/// hashing failed, `file_len` where reading the size failed; an argument that
/// an earlier check settles is not looked at.
pub open spec fn retry_plan_of(
    file_exists: bool,
    current_hash: Option<Seq<char>>,
    queued_hash: Seq<char>,
    file_len: Option<u64>,
) -> RetryPlan {
    if !file_exists {
        RetryPlan::Prune
    } else {
        match current_hash {
            None => RetryPlan::Skip,
            Some(h) => if h != queued_hash {
                RetryPlan::Prune
            } else {
                match file_len {
                    None => RetryPlan::Skip,
                    Some(n) => if n > MAX_SAVE_FILE_SIZE {
                        RetryPlan::Prune
                    } else {
                        RetryPlan::Send
                    },
                }
            },
        }
    }
}

pub fn retry_plan(
    file_exists: bool,
    current_hash: Option<&str>,
    queued_hash: &str,
    file_len: Option<u64>,
) -> (r: RetryPlan)
    ensures
        r == retry_plan_of(file_exists, opt_str_view(current_hash), queued_hash@, file_len),
{
    if !file_exists {
        return RetryPlan::Prune;
    }
    match current_hash {
        None => RetryPlan::Skip,
        Some(h) => {
            let a = string_of(h);
            let b = string_of(queued_hash);
            if a != b {
                RetryPlan::Prune
            } else {
                match file_len {
                    None => RetryPlan::Skip,
                    Some(n) => if n > MAX_SAVE_FILE_SIZE {
                        RetryPlan::Prune
                    } else {
                        RetryPlan::Send
                    },
                }
            }
        },
    }
}

/// The entry recorded when a queued upload finally goes through.
pub fn retry_synced_event(item: &QueuedUpload) -> (r: TelemetryPayload)
    ensures
        r@ == retry_synced_event_spec(item),
        r@.file_name == item.file_name@,
        r@.file_hash == item.file_hash@,
        r.has_debug_flag == item.has_debug_flag,
        r@.timestamp == item.timestamp@,
        r.verified,
{
    let mut status = string_of("Queued autosave ");
    append_str(&mut status, item.file_name.as_str());
    append_str(&mut status, " (Seq #");
    append_decimal(&mut status, item.sequence_index as u64);
    append_str(&mut status, ") synced & verified");
    TelemetryPayload {
        file_name: item.file_name.clone(),
        file_hash: item.file_hash.clone(),
        status,
        verified: true,
        has_debug_flag: item.has_debug_flag,
        timestamp: item.timestamp.clone(),
    }
}

/// What settling a retry changed: the event recorded (and its id) where the
/// upload went through.
pub struct RetrySettled {
    pub event: Option<TelemetryPayload>,
    pub event_id: Option<i64>,
}

/// Settles a retry: a successful upload leaves the queue and is recorded as
/// synced; a failed one counts one more failed attempt.
pub fn settle_retry(store: &mut LocalStore, item: &QueuedUpload, sent_ok: bool) -> (r: RetrySettled)
    requires
        old(store).wf(),
    ensures
        final(store).wf(),
        sent_ok ==> (r.event matches Some(e) && e@ == retry_synced_event_spec(item) && (
        final(store)@, r.event_id) == store_after_record(
            (StoreView { queue: queue_without(old(store)@.queue, item.id), ..old(store)@ }),
            item.session_id@,
            e@,
        )),
        !sent_ok ==> r.event is None && r.event_id is None && final(store)@ == (StoreView {
            queue: queue_after_retry(old(store)@.queue, item.id),
            ..old(store)@
        }),
{
    if sent_ok {
        delete_queued_upload(store, item.id);
        let e = retry_synced_event(item);
        let id = record_telemetry_event(store, item.session_id.as_str(), &e);
        RetrySettled { event: Some(e), event_id: id }
    } else {
        increment_queued_upload_retry(store, item.id);
        RetrySettled { event: None, event_id: None }
    }
}

/// How many settled retries of a round recorded a synced upload.
pub open spec fn synced_count(settled: Seq<RetrySettled>) -> nat
    decreases settled.len(),
{
    if settled.len() == 0 {
        0
    } else {
        synced_count(settled.drop_last()) + if settled.last().event is Some {
            1nat
        } else {
            0nat
        }
    }
}

/// How many uploads of a round were sent: the flags handed to `settle_retry`.
pub open spec fn sent_count(sent: Seq<bool>) -> nat
    decreases sent.len(),
{
    if sent.len() == 0 {
        0
    } else {
        sent_count(sent.drop_last()) + if sent.last() {
            1nat
        } else {
            0nat
        }
    }
}

proof fn lemma_synced_count_bound(settled: Seq<RetrySettled>)
    ensures
        synced_count(settled) <= settled.len(),
    decreases settled.len(),
{
    if settled.len() > 0 {
        lemma_synced_count_bound(settled.drop_last());
    }
}

/// The answer of a retry round: how many of its settled retries went through.
pub fn count_synced(settled: &Vec<RetrySettled>) -> (n: usize)
    ensures
        n == synced_count(settled@),
{
    let len = settled.len();
    let mut n: usize = 0;
    let mut i: usize = 0;
    while i < len
        invariant
            i <= len,
            len == settled@.len(),
            n == synced_count(settled@.subrange(0, i as int)),
        decreases len - i,
    {
        proof {
            let pre = settled@.subrange(0, i + 1);
            assert(pre.drop_last() =~= settled@.subrange(0, i as int));
            lemma_synced_count_bound(settled@.subrange(0, i as int));
        }
        if settled[i].event.is_some() {
            n = n + 1;
        }
        i = i + 1;
    }
    assert(settled@.subrange(0, len as int) =~= settled@);
    n
}

/// Law: where each settled retry came from `settle_retry` with the matching
/// flag (a synced event exactly where the upload was sent), a round's answer
/// is the number of uploads that were sent.
pub proof fn law_round_counts_sent_uploads(settled: Seq<RetrySettled>, sent: Seq<bool>)
    requires
        settled.len() == sent.len(),
        forall|k: int| 0 <= k < sent.len() ==> (#[trigger] settled[k].event is Some) == sent[k],
    ensures
        synced_count(settled) == sent_count(sent),
    decreases sent.len(),
{
    if sent.len() > 0 {
        let s1 = settled.drop_last();
        let t1 = sent.drop_last();
        assert forall|k: int| 0 <= k < t1.len() implies (#[trigger] s1[k].event is Some) == t1[k] by {
            assert(s1[k] == settled[k]);
            assert(settled[k].event is Some == sent[k]);
        }
        law_round_counts_sent_uploads(s1, t1);
        assert(settled.last() == settled[settled.len() - 1]);
        assert(settled[settled.len() - 1].event is Some == sent[sent.len() - 1]);
    }
}

pub open spec fn retry_synced_event_spec(item: &QueuedUpload) -> crate::models::TelemetryRecord {
    crate::models::TelemetryRecord {
        file_name: item.file_name@,
        file_hash: item.file_hash@,
        status: "Queued autosave "@ + item.file_name@ + " (Seq #"@ + decimal_seq(
            item.sequence_index as nat,
        ) + ") synced & verified"@,
        verified: true,
        has_debug_flag: item.has_debug_flag,
        timestamp: item.timestamp@,
    }
}

} // verus!

verus! {

/// How far the handling of one save has got.
pub enum UploadStage {
    /// Waiting for the file's size.
    Measuring,
    /// Waiting for the file's hash.
    Hashing,
    /// Waiting for the server's answer to the preflight check.
    Preflight,
    /// Waiting for the server's answer to the upload; `verified` is the
    /// preflight's verdict.
    Uploading { verified: bool },
    /// Nothing more to do.
    Finished,
}

/// What the app reports back to the step function.
pub enum UploadEvent {
    /// The file's size was read.
    Measured { file_len: u64 },
    /// The file was hashed.
    Hashed,
    /// The preflight check was answered (or could not be sent).
    PreflightAnswered { reply: PreflightReply },
    /// The upload was answered (or could not be sent).
    UploadAnswered { reply: UploadReply },
}

/// What the app does next.
pub enum UploadAction {
    /// Record that the save is over the size cap; the handling ends.
    RecordOversize,
    /// Hash the file.
    ComputeHash,
    /// Send the preflight check.
    SendPreflight,
    /// Send the file.
    SendUpload,
    /// Record the preflight's refusal; the handling ends.
    RecordRejection,
    /// Record that the server already holds the save; the handling ends.
    ReportVerified,
    /// Settle the upload's outcome in the store; the handling ends.
    Settle { outcome: UploadOutcome, verified: bool },
    /// The event does not belong to this stage: nothing to do.
    Ignore,
}

/// One step of handling a save: the size is read first, and an oversized
/// save ends there; then the hash, then the preflight check, whose refusal or
/// "already held" ends the handling; only then is the file sent, and its
/// answer settled. An event that does not fit the stage changes nothing.
pub open spec fn upload_step(stage: UploadStage, event: UploadEvent) -> (UploadStage, UploadAction) {
    match (stage, event) {
        (UploadStage::Measuring, UploadEvent::Measured { file_len }) => if file_len
            > MAX_SAVE_FILE_SIZE {
            (UploadStage::Finished, UploadAction::RecordOversize)
        } else {
            (UploadStage::Hashing, UploadAction::ComputeHash)
        },
        (UploadStage::Hashing, UploadEvent::Hashed) => (
            UploadStage::Preflight,
            UploadAction::SendPreflight,
        ),
        (UploadStage::Preflight, UploadEvent::PreflightAnswered { reply }) => match preflight_next(
            reply,
        ) {
            PreflightNext::Upload { verified } => (
                UploadStage::Uploading { verified },
                UploadAction::SendUpload,
            ),
            PreflightNext::RecordRejection => (UploadStage::Finished, UploadAction::RecordRejection),
            PreflightNext::ReportVerified => (UploadStage::Finished, UploadAction::ReportVerified),
        },
        (UploadStage::Uploading { verified }, UploadEvent::UploadAnswered { reply }) => (
            UploadStage::Finished,
            UploadAction::Settle { outcome: upload_outcome_of(reply), verified },
        ),
        (stage, _) => (stage, UploadAction::Ignore),
    }
}

/// The handling of one save, step by step.
pub struct UploadRun {
    pub stage: UploadStage,
}

impl UploadRun {
    /// A save whose size is still to be read.
    pub fn new() -> (r: Self)
        ensures
            r.stage is Measuring,
    {
        UploadRun { stage: UploadStage::Measuring }
    }

    /// Takes the next event and answers what to do.
    pub fn step(&mut self, event: UploadEvent) -> (a: UploadAction)
        ensures
            (final(self).stage, a) == upload_step(old(self).stage, event),
    {
        let mut stage = UploadStage::Finished;
        std::mem::swap(&mut stage, &mut self.stage);
        let (next, action) = match (stage, event) {
            (UploadStage::Measuring, UploadEvent::Measured { file_len }) => if exceeds_size_cap(
                file_len,
            ) {
                (UploadStage::Finished, UploadAction::RecordOversize)
            } else {
                (UploadStage::Hashing, UploadAction::ComputeHash)
            },
            (UploadStage::Hashing, UploadEvent::Hashed) => (
                UploadStage::Preflight,
                UploadAction::SendPreflight,
            ),
            (UploadStage::Preflight, UploadEvent::PreflightAnswered { reply }) => match preflight_decision(&reply) {
                PreflightNext::Upload { verified } => (
                    UploadStage::Uploading { verified },
                    UploadAction::SendUpload,
                ),
                PreflightNext::RecordRejection => (
                    UploadStage::Finished,
                    UploadAction::RecordRejection,
                ),
                PreflightNext::ReportVerified => (
                    UploadStage::Finished,
                    UploadAction::ReportVerified,
                ),
            },
            (UploadStage::Uploading { verified }, UploadEvent::UploadAnswered { reply }) => (
                UploadStage::Finished,
                UploadAction::Settle { outcome: upload_outcome(&reply), verified },
            ),
            (stage, _) => (stage, UploadAction::Ignore),
        };
        self.stage = next;
        action
    }
}

/// The actions a run of events leads to, one per event.
pub open spec fn upload_run(stage: UploadStage, events: Seq<UploadEvent>) -> Seq<UploadAction>
    decreases events.len(),
{
    if events.len() == 0 {
        Seq::empty()
    } else {
        let (next, a) = upload_step(stage, events[0]);
        seq![a] + upload_run(next, events.drop_first())
    }
}

/// The actions that touch the file's contents or the network.
pub open spec fn reads_or_sends(a: UploadAction) -> bool {
    a is ComputeHash || a is SendPreflight || a is SendUpload
}

/// Law: once the handling of a save is finished, no event makes it do
/// anything more.
pub proof fn law_finished_upload_does_nothing(events: Seq<UploadEvent>)
    ensures
        upload_run(UploadStage::Finished, events).len() == events.len(),
        forall|k: int|
            0 <= k < events.len() ==> #[trigger] upload_run(UploadStage::Finished, events)[k]
                is Ignore,
    decreases events.len(),
{
    if events.len() > 0 {
        law_finished_upload_does_nothing(events.drop_first());
        let r = upload_run(UploadStage::Finished, events);
        let r1 = upload_run(UploadStage::Finished, events.drop_first());
        assert forall|k: int| 0 <= k < events.len() implies #[trigger] r[k] is Ignore by {
            if k > 0 {
                assert(r[k] == r1[k - 1]);
            }
        }
    }
}

/// Law: a save over the size cap is never hashed, checked or sent, whatever
/// follows its measurement.
pub proof fn law_oversize_never_hashed_or_sent(file_len: u64, rest: Seq<UploadEvent>)
    requires
        file_len > MAX_SAVE_FILE_SIZE,
    ensures
        forall|k: int|
            0 <= k < rest.len() + 1 ==> !reads_or_sends(
                #[trigger] upload_run(
                    UploadStage::Measuring,
                    seq![UploadEvent::Measured { file_len }] + rest,
                )[k],
            ),
{
    let events = seq![UploadEvent::Measured { file_len }] + rest;
    assert(events.drop_first() =~= rest);
    law_finished_upload_does_nothing(rest);
    let r = upload_run(UploadStage::Measuring, events);
    assert forall|k: int| 0 <= k < rest.len() + 1 implies !reads_or_sends(#[trigger] r[k]) by {
        if k > 0 {
            assert(r[k] == upload_run(UploadStage::Finished, rest)[k - 1]);
        }
    }
}

/// Law: when the preflight check refuses the save, or the server already
/// holds it, the file is never sent, whatever follows.
pub proof fn law_no_upload_after_refusal_or_held(reply: PreflightReply, rest: Seq<UploadEvent>)
    requires
        !(preflight_next(reply) is Upload),
    ensures
        forall|k: int|
            0 <= k < rest.len() + 1 ==> !reads_or_sends(
                #[trigger] upload_run(
                    UploadStage::Preflight,
                    seq![UploadEvent::PreflightAnswered { reply }] + rest,
                )[k],
            ),
{
    let events = seq![UploadEvent::PreflightAnswered { reply }] + rest;
    assert(events.drop_first() =~= rest);
    law_finished_upload_does_nothing(rest);
    let r = upload_run(UploadStage::Preflight, events);
    assert forall|k: int| 0 <= k < rest.len() + 1 implies !reads_or_sends(#[trigger] r[k]) by {
        if k > 0 {
            assert(r[k] == upload_run(UploadStage::Finished, rest)[k - 1]);
        }
    }
}

/// Law: the file is sent only as the answer to a preflight check that let it
/// through.
pub proof fn law_upload_only_after_preflight(stage: UploadStage, event: UploadEvent)
    requires
        upload_step(stage, event).1 is SendUpload,
    ensures
        stage is Preflight,
        event matches UploadEvent::PreflightAnswered { reply } && preflight_next(reply) is Upload,
{
}

} // verus!

verus! {

/// Law: the preflight's answer decides the next step as follows, for every
/// answer. A 2xx answer lets the upload go ahead as verified, unless its body
/// says `should_upload: false`, in which case the server already holds the
/// save. A refusal stops the upload exactly when its code is 400, 409 or 422;
/// any other refusal, and an unreachable server, let the upload go ahead
/// unverified.
pub proof fn law_preflight_answer_decides(reply: PreflightReply)
    ensures
        reply is Unreachable ==> preflight_next(reply) == (PreflightNext::Upload { verified: false }),
        (reply matches PreflightReply::Accepted { should_upload } && should_upload != Some(false))
            ==> preflight_next(reply) == (PreflightNext::Upload { verified: true }),
        reply == (PreflightReply::Accepted { should_upload: Some(false) }) ==> preflight_next(reply)
            is ReportVerified,
        (reply matches PreflightReply::Refused { code } && (code == 400 || code == 409 || code
            == 422)) ==> preflight_next(reply) is RecordRejection,
        (reply matches PreflightReply::Refused { code } && code != 400 && code != 409 && code
            != 422) ==> preflight_next(reply) == (PreflightNext::Upload { verified: false }),
        preflight_next(reply) matches PreflightNext::Upload { verified } ==> (verified <==> reply
            is Accepted),
{
}

/// Law: an upload's answer decides its outcome as follows, for every answer: a
/// 2xx is uploaded; a refusal is an integrity rejection exactly when its code
/// is 409 or 422, and is queued for a retry otherwise; a network error is
/// queued.
pub proof fn law_upload_answer_decides(reply: UploadReply)
    ensures
        reply is Succeeded ==> upload_outcome_of(reply) is Uploaded,
        reply is NetworkError ==> upload_outcome_of(reply) is Queued,
        (reply matches UploadReply::Refused { code } && (code == 409 || code == 422))
            ==> upload_outcome_of(reply) is IntegrityRejected,
        (reply matches UploadReply::Refused { code } && code != 409 && code != 422)
            ==> upload_outcome_of(reply) is Queued,
        upload_outcome_of(reply) is IntegrityRejected ==> !(reply is NetworkError),
{
}

/// Law: a save is uploaded as verified exactly when the preflight check was
/// answered with a 2xx: from the preflight stage, an answer that lets the
/// upload go ahead leads to an upload stage whose verdict is `true` exactly
/// for an `Accepted` answer, and the upload's answer is settled with that
/// verdict.
pub proof fn law_upload_verified_only_after_accepted_preflight(
    reply: PreflightReply,
    answer: UploadReply,
)
    ensures
        upload_step(UploadStage::Preflight, UploadEvent::PreflightAnswered { reply }).1
            is SendUpload ==> (upload_step(
            UploadStage::Preflight,
            UploadEvent::PreflightAnswered { reply },
        ).0 == (UploadStage::Uploading { verified: reply is Accepted })),
        reply is Unreachable ==> upload_step(
            UploadStage::Preflight,
            UploadEvent::PreflightAnswered { reply },
        ).0 == (UploadStage::Uploading { verified: false }),
        (reply matches PreflightReply::Refused { code } && code != 400 && code != 409 && code
            != 422) ==> upload_step(
            UploadStage::Preflight,
            UploadEvent::PreflightAnswered { reply },
        ).0 == (UploadStage::Uploading { verified: false }),
        forall|verified: bool|
            #![trigger upload_step(UploadStage::Uploading { verified }, UploadEvent::UploadAnswered { reply: answer })]
            upload_step(
                UploadStage::Uploading { verified },
                UploadEvent::UploadAnswered { reply: answer },
            ).1 matches UploadAction::Settle { outcome, verified: v } && v == verified
                && outcome == upload_outcome_of(answer),
{
}

/// Law: the event recorded for a queued upload that finally went through
/// carries that upload's own file name, hash, debug flag and timestamp, and
/// is marked verified.
pub proof fn law_synced_event_keeps_the_upload(item: &QueuedUpload)
    ensures
        retry_synced_event_spec(item).file_name == item.file_name@,
        retry_synced_event_spec(item).file_hash == item.file_hash@,
        retry_synced_event_spec(item).has_debug_flag == item.has_debug_flag,
        retry_synced_event_spec(item).timestamp == item.timestamp@,
        retry_synced_event_spec(item).verified,
{
}

/// Law: the size cap is 250 MiB (262,144,000 bytes); `exceeds_size_cap` holds
/// of a save exactly when it has more bytes than that.
pub proof fn law_size_cap()
    ensures
        MAX_SAVE_FILE_SIZE == 262_144_000,
{
}

/// Law: a queued upload is sent again only when its file still exists,
/// hashes to what was queued and is within the size cap; a missing file, a
/// changed hash or an oversized file drop it from the queue; a failed read
/// leaves it for the next round.
pub proof fn law_retry_plan(
    file_exists: bool,
    current_hash: Option<Seq<char>>,
    queued_hash: Seq<char>,
    file_len: Option<u64>,
)
    ensures
        retry_plan_of(file_exists, current_hash, queued_hash, file_len) is Send <==> (file_exists
            && current_hash == Some(queued_hash) && file_len is Some && file_len->0
            <= 262_144_000),
        !file_exists ==> retry_plan_of(file_exists, current_hash, queued_hash, file_len) is Prune,
        (file_exists && current_hash is Some && current_hash->0 != queued_hash) ==> retry_plan_of(
            file_exists,
            current_hash,
            queued_hash,
            file_len,
        ) is Prune,
        (file_exists && current_hash == Some(queued_hash) && file_len is Some
            && file_len->0 > 262_144_000) ==> retry_plan_of(file_exists, current_hash, queued_hash, file_len)
            is Prune,
        (file_exists && current_hash is None) ==> retry_plan_of(
            file_exists,
            current_hash,
            queued_hash,
            file_len,
        ) is Skip,
        (file_exists && current_hash == Some(queued_hash) && file_len is None) ==> retry_plan_of(
            file_exists,
            current_hash,
            queued_hash,
            file_len,
        ) is Skip,
{
}

/// Law: recording an event never touches the upload queue, so an upload that
/// was not queued for a retry (uploaded, or refused by the integrity checks)
/// leaves the queue as it was.
pub proof fn law_recording_keeps_queue(s: StoreView, session_id: Seq<char>, p: crate::models::TelemetryRecord)
    ensures
        store_after_record(s, session_id, p).0.queue == s.queue,
        store_after_record(s, session_id, p).0.next_upload_id == s.next_upload_id,
{
}

} // verus!
