//! The app's local records: the queue of uploads that wait for the network,
//! and the history of upload events. The rows and the rules that the SQL
//! statements apply to them (ignoring duplicate uploads, the retry limit,
//! newest-first order, keeping the latest hundred events, paging) live here;
//! the database file only keeps a copy.
use vstd::prelude::*;
use crate::models::{copy_telemetry, TelemetryPayload, TelemetryRecord};
use crate::text::opt_str_view;

verus! {

/// A save to queue for a later upload.
pub struct NewOfflineUpload<'a> {
    pub session_id: &'a str,
    pub file_path: &'a str,
    pub file_hash: &'a str,
    pub file_name: &'a str,
    pub timestamp: &'a str,
    pub api_key: Option<&'a str>,
    pub sequence_index: u32,
    pub has_debug_flag: bool,
}

/// A save to queue, as values.
pub struct NewUploadRecord {
    pub session_id: Seq<char>,
    pub file_path: Seq<char>,
    pub file_hash: Seq<char>,
    pub file_name: Seq<char>,
    pub timestamp: Seq<char>,
    pub api_key: Option<Seq<char>>,
    pub sequence_index: u32,
    pub has_debug_flag: bool,
}

impl<'a> View for NewOfflineUpload<'a> {
    type V = NewUploadRecord;

    open spec fn view(&self) -> NewUploadRecord {
        NewUploadRecord {
            session_id: self.session_id@,
            file_path: self.file_path@,
            file_hash: self.file_hash@,
            file_name: self.file_name@,
            timestamp: self.timestamp@,
            api_key: opt_str_view(self.api_key),
            sequence_index: self.sequence_index,
            has_debug_flag: self.has_debug_flag,
        }
    }
}

/// A queued upload, as the retry workers and the player see it.
pub struct QueuedUpload {
    pub id: i64,
    pub session_id: String,
    pub file_path: String,
    pub file_hash: String,
    pub file_name: String,
    pub timestamp: String,
    pub sequence_index: u32,
    pub has_debug_flag: bool,
    pub api_key: Option<String>,
}

/// A queued upload as values.
pub struct QueuedUploadRecord {
    pub id: i64,
    pub session_id: Seq<char>,
    pub file_path: Seq<char>,
    pub file_hash: Seq<char>,
    pub file_name: Seq<char>,
    pub timestamp: Seq<char>,
    pub sequence_index: u32,
    pub has_debug_flag: bool,
    pub api_key: Option<Seq<char>>,
}

pub open spec fn opt_string_view(o: Option<String>) -> Option<Seq<char>> {
    match o {
        Some(s) => Some(s@),
        None => None,
    }
}

impl View for QueuedUpload {
    type V = QueuedUploadRecord;

    open spec fn view(&self) -> QueuedUploadRecord {
        QueuedUploadRecord {
            id: self.id,
            session_id: self.session_id@,
            file_path: self.file_path@,
            file_hash: self.file_hash@,
            file_name: self.file_name@,
            timestamp: self.timestamp@,
            sequence_index: self.sequence_index,
            has_debug_flag: self.has_debug_flag,
            api_key: opt_string_view(self.api_key),
        }
    }
}

/// A row of the upload queue: the upload and how often sending it failed.
pub struct QueueRow {
    pub upload: QueuedUpload,
    pub retry_count: i64,
}

pub struct QueueEntry {
    pub upload: QueuedUploadRecord,
    pub retry_count: i64,
}

impl View for QueueRow {
    type V = QueueEntry;

    open spec fn view(&self) -> QueueEntry {
        QueueEntry { upload: self.upload@, retry_count: self.retry_count }
    }
}

/// A row of the event history: its id, the session it belongs to, the event.
pub struct HistoryRow {
    pub id: i64,
    pub session_id: String,
    pub payload: TelemetryPayload,
}

pub struct HistoryEntry {
    pub id: i64,
    pub session_id: Seq<char>,
    pub payload: TelemetryRecord,
}

impl View for HistoryRow {
    type V = HistoryEntry;

    open spec fn view(&self) -> HistoryEntry {
        HistoryEntry { id: self.id, session_id: self.session_id@, payload: self.payload@ }
    }
}

/// Both tables, each with the id that its next row will get.
pub struct LocalStore {
    queue: Vec<QueueRow>,
    next_upload_id: i64,
    history: Vec<HistoryRow>,
    next_event_id: i64,
}

pub struct StoreView {
    pub queue: Seq<QueueEntry>,
    pub next_upload_id: i64,
    pub history: Seq<HistoryEntry>,
    pub next_event_id: i64,
}

pub open spec fn queue_view(rows: Seq<QueueRow>) -> Seq<QueueEntry> {
    rows.map_values(|r: QueueRow| r@)
}

pub open spec fn history_view(rows: Seq<HistoryRow>) -> Seq<HistoryEntry> {
    rows.map_values(|r: HistoryRow| r@)
}

impl View for LocalStore {
    type V = StoreView;

    closed spec fn view(&self) -> StoreView {
        StoreView {
            queue: queue_view(self.queue@),
            next_upload_id: self.next_upload_id,
            history: history_view(self.history@),
            next_event_id: self.next_event_id,
        }
    }
}

/// The number of failed attempts after which a queued upload is given up.
pub open spec fn retry_limit() -> i64 {
    10
}

/// The number of events the history keeps.
pub open spec fn history_capacity() -> int {
    100
}

/// Queue ids increase along the queue and stay below the next id.
pub open spec fn queue_ids_ordered(q: Seq<QueueEntry>, next_id: i64) -> bool {
    &&& forall|i: int, j: int|
        #![trigger q[i], q[j]]
        0 <= i < j < q.len() ==> q[i].upload.id < q[j].upload.id
    &&& forall|i: int| 0 <= i < q.len() ==> #[trigger] q[i].upload.id < next_id
}

pub open spec fn same_upload_key(a: QueuedUploadRecord, b: QueuedUploadRecord) -> bool {
    a.session_id == b.session_id && a.file_hash == b.file_hash
}

/// No two queued uploads share a session and a file hash.
pub open spec fn queue_keys_unique(q: Seq<QueueEntry>) -> bool {
    forall|i: int, j: int|
        #![trigger q[i], q[j]]
        0 <= i < j < q.len() ==> !same_upload_key(q[i].upload, q[j].upload)
}

pub open spec fn history_ids_ordered(h: Seq<HistoryEntry>, next_id: i64) -> bool {
    &&& forall|i: int, j: int| #![trigger h[i], h[j]] 0 <= i < j < h.len() ==> h[i].id < h[j].id
    &&& forall|i: int| 0 <= i < h.len() ==> #[trigger] h[i].id < next_id
}

pub open spec fn store_wf(s: StoreView) -> bool {
    &&& queue_ids_ordered(s.queue, s.next_upload_id)
    &&& queue_keys_unique(s.queue)
    &&& history_ids_ordered(s.history, s.next_event_id)
}

impl LocalStore {
    pub open spec fn wf(&self) -> bool {
        store_wf(self@)
    }
}

// ---------------------------------------------------------------- specs

pub open spec fn record_of_new(u: NewUploadRecord, id: i64) -> QueuedUploadRecord {
    QueuedUploadRecord {
        id,
        session_id: u.session_id,
        file_path: u.file_path,
        file_hash: u.file_hash,
        file_name: u.file_name,
        timestamp: u.timestamp,
        sequence_index: u.sequence_index,
        has_debug_flag: u.has_debug_flag,
        api_key: u.api_key,
    }
}

pub open spec fn queue_has_key(q: Seq<QueueEntry>, session_id: Seq<char>, file_hash: Seq<char>) -> bool {
    exists|i: int|
        0 <= i < q.len() && (#[trigger] q[i]).upload.session_id == session_id
            && q[i].upload.file_hash == file_hash
}

/// `INSERT OR IGNORE` into the queue: an upload of the same session and file
/// hash is ignored, as is any upload once the ids are used up; otherwise the
/// upload is appended with the next id and no failed attempts.
pub open spec fn store_after_enqueue(s: StoreView, u: NewUploadRecord) -> (StoreView, Option<i64>) {
    if queue_has_key(s.queue, u.session_id, u.file_hash) || s.next_upload_id == i64::MAX {
        (s, None)
    } else {
        let e = QueueEntry { upload: record_of_new(u, s.next_upload_id), retry_count: 0 };
        (
            StoreView {
                queue: s.queue.push(e),
                next_upload_id: (s.next_upload_id + 1) as i64,
                ..s
            },
            Some(s.next_upload_id),
        )
    }
}

/// The queued uploads that have failed fewer than ten times, newest first.
pub open spec fn pending_uploads(q: Seq<QueueEntry>) -> Seq<QueuedUploadRecord>
    decreases q.len(),
{
    if q.len() == 0 {
        Seq::empty()
    } else {
        let rest = pending_uploads(q.drop_first());
        if q[0].retry_count < retry_limit() {
            rest.push(q[0].upload)
        } else {
            rest
        }
    }
}

pub open spec fn queue_index_of(q: Seq<QueueEntry>, id: i64) -> int {
    choose|i: int| 0 <= i < q.len() && (#[trigger] q[i]).upload.id == id
}

pub open spec fn queue_has_id(q: Seq<QueueEntry>, id: i64) -> bool {
    exists|i: int| 0 <= i < q.len() && (#[trigger] q[i]).upload.id == id
}

/// `DELETE ... WHERE id = ?`.
pub open spec fn queue_without(q: Seq<QueueEntry>, id: i64) -> Seq<QueueEntry> {
    if queue_has_id(q, id) {
        q.remove(queue_index_of(q, id))
    } else {
        q
    }
}

/// `UPDATE ... SET retry_count = retry_count + 1 WHERE id = ?` (a count at the
/// largest `i64` stays where it is).
pub open spec fn queue_after_retry(q: Seq<QueueEntry>, id: i64) -> Seq<QueueEntry> {
    if queue_has_id(q, id) {
        let i = queue_index_of(q, id);
        let e = q[i];
        if e.retry_count < i64::MAX {
            q.update(i, QueueEntry { retry_count: (e.retry_count + 1) as i64, ..e })
        } else {
            q
        }
    } else {
        q
    }
}

/// `DELETE ... WHERE retry_count >= 10`.
pub open spec fn live_entries(q: Seq<QueueEntry>) -> Seq<QueueEntry>
    decreases q.len(),
{
    if q.len() == 0 {
        q
    } else {
        let rest = live_entries(q.drop_last());
        if q.last().retry_count < retry_limit() {
            rest.push(q.last())
        } else {
            rest
        }
    }
}

/// The latest hundred rows of the history.
pub open spec fn latest_events(h: Seq<HistoryEntry>) -> Seq<HistoryEntry> {
    if h.len() > history_capacity() {
        h.subrange(h.len() - history_capacity(), h.len() as int)
    } else {
        h
    }
}

/// Appends an event with the next id (unless the ids are used up), then keeps
/// the latest hundred.
pub open spec fn store_after_record(s: StoreView, session_id: Seq<char>, p: TelemetryRecord) -> (
    StoreView,
    Option<i64>,
) {
    if s.next_event_id == i64::MAX {
        (StoreView { history: latest_events(s.history), ..s }, None)
    } else {
        let e = HistoryEntry { id: s.next_event_id, session_id, payload: p };
        (
            StoreView {
                history: latest_events(s.history.push(e)),
                next_event_id: (s.next_event_id + 1) as i64,
                ..s
            },
            Some(s.next_event_id),
        )
    }
}

/// All events, newest first.
pub open spec fn events_newest_first(h: Seq<HistoryEntry>) -> Seq<TelemetryRecord> {
    Seq::new(h.len(), |k: int| h[h.len() - 1 - k].payload)
}

/// The offset that SQLite applies for `OFFSET ?` bound to `offset as i64`: an
/// offset past `i64::MAX` turns negative and counts as zero.
pub open spec fn effective_offset(offset: usize) -> int {
    if offset > i64::MAX {
        0
    } else {
        offset as int
    }
}

pub open spec fn min_int(a: int, b: int) -> int {
    if a < b {
        a
    } else {
        b
    }
}

/// `ORDER BY id DESC LIMIT ? OFFSET ?`.
pub open spec fn events_page(h: Seq<HistoryEntry>, limit: usize, offset: usize) -> Seq<TelemetryRecord> {
    let all = events_newest_first(h);
    let lo = min_int(effective_offset(offset), all.len() as int);
    let hi = min_int(lo + limit, all.len() as int);
    all.subrange(lo, hi)
}

pub open spec fn uploads_view(v: Seq<QueuedUpload>) -> Seq<QueuedUploadRecord> {
    v.map_values(|u: QueuedUpload| u@)
}

pub open spec fn payloads_view(v: Seq<TelemetryPayload>) -> Seq<TelemetryRecord> {
    v.map_values(|p: TelemetryPayload| p@)
}

// ---------------------------------------------------------------- code

fn copy_opt_string(o: &Option<String>) -> (r: Option<String>)
    ensures
        opt_string_view(r) == opt_string_view(*o),
{
    match o {
        Some(s) => Some(s.clone()),
        None => None,
    }
}

/// A copy of a queued upload.
fn copy_upload(u: &QueuedUpload) -> (r: QueuedUpload)
    ensures
        r@ == u@,
{
    QueuedUpload {
        id: u.id,
        session_id: u.session_id.clone(),
        file_path: u.file_path.clone(),
        file_hash: u.file_hash.clone(),
        file_name: u.file_name.clone(),
        timestamp: u.timestamp.clone(),
        sequence_index: u.sequence_index,
        has_debug_flag: u.has_debug_flag,
        api_key: copy_opt_string(&u.api_key),
    }
}

fn string_eq(a: &String, b: &str) -> (r: bool)
    ensures
        r == (a@ == b@),
{
    let b2 = crate::text::string_of(b);
    *a == b2
}

impl LocalStore {
    /// Empty tables whose first rows get id 1.
    pub fn new() -> (s: Self)
        ensures
            s.wf(),
            s@.queue.len() == 0,
            s@.history.len() == 0,
            s@.next_upload_id == 1,
            s@.next_event_id == 1,
    {
        let s = LocalStore {
            queue: Vec::new(),
            next_upload_id: 1,
            history: Vec::new(),
            next_event_id: 1,
        };
        assert(s@.queue =~= Seq::<QueueEntry>::empty());
        assert(s@.history =~= Seq::<HistoryEntry>::empty());
        s
    }
}

fn copy_opt_str(o: Option<&str>) -> (r: Option<String>)
    ensures
        opt_string_view(r) == opt_str_view(o),
{
    match o {
        Some(s) => Some(crate::text::string_of(s)),
        None => None,
    }
}

/// Queues an upload for a later attempt, unless the queue already holds one of
/// the same session and file hash. Returns the id the upload got, or `None`
/// where it was ignored.
pub fn enqueue_offline_upload(store: &mut LocalStore, upload: &NewOfflineUpload) -> (r: Option<i64>)
    requires
        old(store).wf(),
    ensures
        final(store).wf(),
        (final(store)@, r) == store_after_enqueue(old(store)@, upload@),
{
    let ghost old_q = store@.queue;
    let n = store.queue.len();
    let mut i: usize = 0;
    while i < n
        invariant
            i <= n,
            n == store.queue@.len(),
            old_q == store@.queue,
            store@ == old(store)@,
            store.wf(),
            forall|k: int|
                0 <= k < i ==> !((#[trigger] old_q[k]).upload.session_id == upload.session_id@
                    && old_q[k].upload.file_hash == upload.file_hash@),
        decreases n - i,
    {
        let row = &store.queue[i];
        assert(old_q[i as int] == row@);
        if string_eq(&row.upload.session_id, upload.session_id) && string_eq(
            &row.upload.file_hash,
            upload.file_hash,
        ) {
            assert(queue_has_key(old_q, upload@.session_id, upload@.file_hash));
            return None;
        }
        i = i + 1;
    }
    if store.next_upload_id == i64::MAX {
        return None;
    }
    let id = store.next_upload_id;
    let row = QueueRow {
        upload: QueuedUpload {
            id,
            session_id: crate::text::string_of(upload.session_id),
            file_path: crate::text::string_of(upload.file_path),
            file_hash: crate::text::string_of(upload.file_hash),
            file_name: crate::text::string_of(upload.file_name),
            timestamp: crate::text::string_of(upload.timestamp),
            sequence_index: upload.sequence_index,
            has_debug_flag: upload.has_debug_flag,
            api_key: copy_opt_str(upload.api_key),
        },
        retry_count: 0,
    };
    store.queue.push(row);
    store.next_upload_id = id + 1;
    proof {
        let e = QueueEntry { upload: record_of_new(upload@, id), retry_count: 0 };
        assert(store@.queue =~= old_q.push(e));
    }
    Some(id)
}

/// The uploads still to retry (fewer than ten failed attempts), newest first.
pub fn get_pending_queued_uploads(store: &LocalStore) -> (r: Vec<QueuedUpload>)
    ensures
        uploads_view(r@) == pending_uploads(store@.queue),
{
    let ghost q = store@.queue;
    let n = store.queue.len();
    let mut out: Vec<QueuedUpload> = Vec::new();
    let mut i: usize = n;
    while i > 0
        invariant
            i <= n,
            n == q.len(),
            q == queue_view(store.queue@),
            uploads_view(out@) == pending_uploads(q.subrange(i as int, n as int)),
        decreases i,
    {
        let row = &store.queue[i - 1];
        proof {
            assert(q[i - 1] == row@);
            assert(q.subrange(i - 1, n as int).drop_first() =~= q.subrange(i as int, n as int));
            assert(q.subrange(i - 1, n as int)[0] == q[i - 1]);
        }
        if row.retry_count < 10 {
            let u = copy_upload(&row.upload);
            out.push(u);
            assert(uploads_view(out@) =~= pending_uploads(q.subrange(i as int, n as int)).push(
                u@,
            ));
        }
        i = i - 1;
    }
    assert(q.subrange(0, n as int) =~= q);
    out
}

proof fn lemma_unique_id_index(q: Seq<QueueEntry>, next: i64, id: i64, k: int)
    requires
        queue_ids_ordered(q, next),
        0 <= k < q.len(),
        q[k].upload.id == id,
    ensures
        queue_has_id(q, id),
        queue_index_of(q, id) == k,
{
    assert(queue_has_id(q, id));
    let j = queue_index_of(q, id);
    if j < k {
        assert(q[j].upload.id < q[k].upload.id);
    }
    if k < j {
        assert(q[k].upload.id < q[j].upload.id);
    }
}

fn find_queue_index(store: &LocalStore, id: i64) -> (r: Option<usize>)
    requires
        store.wf(),
    ensures
        r matches Some(k) ==> k < store@.queue.len() && queue_has_id(store@.queue, id)
            && queue_index_of(store@.queue, id) == k,
        r is None ==> !queue_has_id(store@.queue, id),
{
    let ghost q = store@.queue;
    let n = store.queue.len();
    let mut i: usize = 0;
    while i < n
        invariant
            i <= n,
            n == q.len(),
            q == queue_view(store.queue@),
            q == store@.queue,
            store.wf(),
            forall|k: int| 0 <= k < i ==> (#[trigger] q[k]).upload.id != id,
        decreases n - i,
    {
        if store.queue[i].upload.id == id {
            proof {
                assert(q[i as int] == store.queue@[i as int]@);
                lemma_unique_id_index(q, store@.next_upload_id, id, i as int);
            }
            return Some(i);
        }
        assert(q[i as int] == store.queue@[i as int]@);
        i = i + 1;
    }
    None
}

/// Removes the queued upload with id `id`, if there is one.
pub fn delete_queued_upload(store: &mut LocalStore, id: i64)
    requires
        old(store).wf(),
    ensures
        final(store).wf(),
        final(store)@ == (StoreView { queue: queue_without(old(store)@.queue, id), ..old(store)@ }),
{
    match find_queue_index(store, id) {
        Some(k) => {
            let ghost q = store@.queue;
            let _removed = store.queue.remove(k);
            proof {
                assert(store@.queue =~= q.remove(k as int));
                let q2 = store@.queue;
                assert forall|a: int, b: int| 0 <= a < b < q2.len() implies q2[a].upload.id
                    < q2[b].upload.id && !same_upload_key(q2[a].upload, q2[b].upload) by {
                    let a0 = if a < k { a } else { a + 1 };
                    let b0 = if b < k { b } else { b + 1 };
                    assert(q2[a] == q[a0]);
                    assert(q2[b] == q[b0]);
                    assert(q[a0] == q[a0] && q[b0] == q[b0]);
                }
                assert forall|a: int| 0 <= a < q2.len() implies #[trigger] q2[a].upload.id
                    < store@.next_upload_id by {
                    let a0 = if a < k { a } else { a + 1 };
                    assert(q2[a] == q[a0]);
                }
            }
        },
        None => {},
    }
}

/// Empties the queue; answers how many uploads it held.
pub fn clear_all_queued_uploads(store: &mut LocalStore) -> (r: Result<usize, String>)
    requires
        old(store).wf(),
    ensures
        final(store).wf(),
        r == Ok::<usize, String>(old(store)@.queue.len() as usize),
        final(store)@ == (StoreView { queue: Seq::empty(), ..old(store)@ }),
{
    let n = store.queue.len();
    store.queue.clear();
    assert(store@.queue =~= Seq::<QueueEntry>::empty());
    Ok(n)
}

/// Counts one more failed attempt for the queued upload with id `id`.
pub fn increment_queued_upload_retry(store: &mut LocalStore, id: i64)
    requires
        old(store).wf(),
    ensures
        final(store).wf(),
        final(store)@ == (StoreView { queue: queue_after_retry(old(store)@.queue, id), ..old(store)@ }),
{
    match find_queue_index(store, id) {
        Some(k) => {
            let ghost q = store@.queue;
            if store.queue[k].retry_count < i64::MAX {
                let mut row = store.queue.remove(k);
                row.retry_count = row.retry_count + 1;
                store.queue.insert(k, row);
                proof {
                    let e = q[k as int];
                    assert(store@.queue =~= q.update(
                        k as int,
                        QueueEntry { retry_count: (e.retry_count + 1) as i64, ..e },
                    ));
                    let q2 = store@.queue;
                    assert forall|a: int, b: int|
                        #![trigger q2[a], q2[b]]
                        0 <= a < b < q2.len() implies q2[a].upload.id < q2[b].upload.id
                            && !same_upload_key(q2[a].upload, q2[b].upload) by {
                        assert(q2[a].upload == q[a].upload);
                        assert(q2[b].upload == q[b].upload);
                        assert(q[a] == q[a] && q[b] == q[b]);
                    }
                    assert forall|a: int| 0 <= a < q2.len() implies #[trigger] q2[a].upload.id
                        < store@.next_upload_id by {
                        assert(q2[a].upload == q[a].upload);
                    }
                }
            }
        },
        None => {},
    }
}

proof fn lemma_live_entries_from(q: Seq<QueueEntry>)
    ensures
        forall|a: int|
            0 <= a < live_entries(q).len() ==> exists|i: int|
                0 <= i < q.len() && #[trigger] live_entries(q)[a] == q[i],
    decreases q.len(),
{
    if q.len() > 0 {
        let q1 = q.drop_last();
        lemma_live_entries_from(q1);
        let r1 = live_entries(q1);
        assert forall|a: int| 0 <= a < live_entries(q).len() implies exists|i: int|
            0 <= i < q.len() && #[trigger] live_entries(q)[a] == q[i] by {
            if a < r1.len() {
                let i = choose|i: int| 0 <= i < q1.len() && #[trigger] r1[a] == q1[i];
                assert(live_entries(q)[a] == r1[a]);
                assert(q1[i] == q[i]);
            } else {
                assert(live_entries(q)[a] == q[q.len() - 1]);
            }
        }
    }
}

proof fn lemma_live_entries_wf(q: Seq<QueueEntry>, next: i64)
    requires
        queue_ids_ordered(q, next),
        queue_keys_unique(q),
    ensures
        queue_ids_ordered(live_entries(q), next),
        queue_keys_unique(live_entries(q)),
    decreases q.len(),
{
    if q.len() > 0 {
        let q1 = q.drop_last();
        assert forall|i: int, j: int| #![trigger q1[i], q1[j]] 0 <= i < j < q1.len() implies q1[i].upload.id
            < q1[j].upload.id && !same_upload_key(q1[i].upload, q1[j].upload) by {
            assert(q1[i] == q[i] && q1[j] == q[j]);
            assert(q[i] == q[i] && q[j] == q[j]);
        }
        assert forall|i: int| 0 <= i < q1.len() implies #[trigger] q1[i].upload.id < next by {
            assert(q1[i] == q[i]);
        }
        lemma_live_entries_wf(q1, next);
        lemma_live_entries_from(q1);
        let r1 = live_entries(q1);
        let r = live_entries(q);
        if q.last().retry_count < retry_limit() {
            let last = q.len() - 1;
            assert(q.last() == q[last]);
            assert forall|a: int, b: int| #![trigger r[a], r[b]] 0 <= a < b < r.len() implies r[a].upload.id
                < r[b].upload.id && !same_upload_key(r[a].upload, r[b].upload) by {
                if b < r1.len() {
                    assert(r[a] == r1[a] && r[b] == r1[b]);
                    assert(r1[a] == r1[a] && r1[b] == r1[b]);
                } else {
                    assert(r[b] == q[last]);
                    assert(r[a] == r1[a]);
                    let i = choose|i: int| 0 <= i < q1.len() && #[trigger] r1[a] == q1[i];
                    assert(q1[i] == q[i]);
                    assert(q[i] == q[i] && q[last] == q[last]);
                }
            }
            assert forall|a: int| 0 <= a < r.len() implies #[trigger] r[a].upload.id < next by {
                if a < r1.len() {
                    assert(r[a] == r1[a]);
                } else {
                    assert(r[a] == q[last]);
                }
            }
        }
    }
}

/// Drops every queued upload that has failed ten times or more.
pub fn prune_exhausted_uploads(store: &mut LocalStore)
    requires
        old(store).wf(),
    ensures
        final(store).wf(),
        final(store)@ == (StoreView { queue: live_entries(old(store)@.queue), ..old(store)@ }),
{
    let ghost q = store@.queue;
    let n = store.queue.len();
    let mut kept: Vec<QueueRow> = Vec::new();
    let mut i: usize = 0;
    while i < n
        invariant
            i <= n,
            n == q.len(),
            n == store.queue@.len(),
            q == queue_view(store.queue@),
            queue_view(kept@) == live_entries(q.subrange(0, i as int)),
        decreases n - i,
    {
        assert(q.subrange(0, i + 1).drop_last() =~= q.subrange(0, i as int));
        assert(q.subrange(0, i + 1).last() == q[i as int]);
        if store.queue[i].retry_count < 10 {
            let row = QueueRow { upload: copy_upload(&store.queue[i].upload), retry_count: store.queue[i].retry_count };
            assert(row@ == q[i as int]);
            kept.push(row);
            assert(queue_view(kept@) =~= live_entries(q.subrange(0, i as int)).push(q[i as int]));
        }
        i = i + 1;
    }
    assert(q.subrange(0, n as int) =~= q);
    store.queue = kept;
    proof {
        lemma_live_entries_wf(q, store@.next_upload_id);
    }
}

fn copy_history_row(r: &HistoryRow) -> (c: HistoryRow)
    ensures
        c@ == r@,
{
    HistoryRow { id: r.id, session_id: r.session_id.clone(), payload: copy_telemetry(&r.payload) }
}

/// Adds an event to the history (with the next id) and keeps the latest
/// hundred. Returns the id the event got, or `None` where the ids are used up.
pub fn record_telemetry_event(store: &mut LocalStore, session_id: &str, payload: &TelemetryPayload) -> (r:
    Option<i64>)
    requires
        old(store).wf(),
    ensures
        final(store).wf(),
        (final(store)@, r) == store_after_record(old(store)@, session_id@, payload@),
{
    let ghost h0 = store@.history;
    let mut r: Option<i64> = None;
    if store.next_event_id < i64::MAX {
        let id = store.next_event_id;
        let row = HistoryRow {
            id,
            session_id: crate::text::string_of(session_id),
            payload: copy_telemetry(payload),
        };
        store.history.push(row);
        store.next_event_id = id + 1;
        r = Some(id);
        proof {
            assert(store@.history =~= h0.push(HistoryEntry { id, session_id: session_id@, payload: payload@ }));
        }
    }
    let ghost h1 = store@.history;
    let n = store.history.len();
    if n > 100 {
        let start = n - 100;
        let mut kept: Vec<HistoryRow> = Vec::new();
        let mut i: usize = start;
        while i < n
            invariant
                start <= i <= n,
                n == store.history@.len(),
                h1 == history_view(store.history@),
                history_view(kept@) == h1.subrange(start as int, i as int),
            decreases n - i,
        {
            let c = copy_history_row(&store.history[i]);
            assert(c@ == h1[i as int]);
            let ghost prev = kept@;
            kept.push(c);
            assert(history_view(kept@) =~= history_view(prev).push(c@));
            assert(h1.subrange(start as int, i + 1) =~= h1.subrange(start as int, i as int).push(h1[i as int]));
            i = i + 1;
        }
        store.history = kept;
    }
    proof {
        let h2 = store@.history;
        assert(h2 =~= latest_events(h1));
        let next = store@.next_event_id;
        assert forall|a: int, b: int| #![trigger h2[a], h2[b]] 0 <= a < b < h2.len() implies h2[a].id < h2[b].id by {
            let off = h1.len() - h2.len();
            assert(h2[a] == h1[a + off] && h2[b] == h1[b + off]);
            assert(h1[a + off] == h1[a + off] && h1[b + off] == h1[b + off]);
            if a + off < h0.len() && b + off < h0.len() {
                assert(h1[a + off] == h0[a + off] && h1[b + off] == h0[b + off]);
                assert(h0[a + off] == h0[a + off] && h0[b + off] == h0[b + off]);
            } else if a + off < h0.len() {
                assert(h1[a + off] == h0[a + off]);
            }
        }
        assert forall|a: int| 0 <= a < h2.len() implies #[trigger] h2[a].id < next by {
            let off = h1.len() - h2.len();
            assert(h2[a] == h1[a + off]);
            if a + off < h0.len() {
                assert(h1[a + off] == h0[a + off]);
            }
        }
    }
    r
}

/// Empties the history; answers how many events it held.
pub fn clear_telemetry_history(store: &mut LocalStore) -> (r: Result<usize, String>)
    requires
        old(store).wf(),
    ensures
        final(store).wf(),
        r == Ok::<usize, String>(old(store)@.history.len() as usize),
        final(store)@ == (StoreView { history: Seq::empty(), ..old(store)@ }),
{
    let n = store.history.len();
    store.history.clear();
    assert(store@.history =~= Seq::<HistoryEntry>::empty());
    Ok(n)
}

/// A page of the history, newest first: at most `limit` events after skipping
/// `offset`, as `ORDER BY id DESC LIMIT ? OFFSET ?` gives them.
pub fn get_recent_telemetry_history(store: &LocalStore, limit: usize, offset: usize) -> (r: Vec<
    TelemetryPayload,
>)
    ensures
        payloads_view(r@) == events_page(store@.history, limit, offset),
{
    let ghost h = store@.history;
    let n = store.history.len();
    let off: usize = if (offset as u128) > (i64::MAX as u128) { 0 } else { offset };
    let lo: usize = if off < n { off } else { n };
    let hi: usize = if limit < n - lo { lo + limit } else { n };
    let mut out: Vec<TelemetryPayload> = Vec::new();
    let mut k: usize = lo;
    while k < hi
        invariant
            lo <= k <= hi <= n,
            n == h.len(),
            h == history_view(store.history@),
            payloads_view(out@) == events_newest_first(h).subrange(lo as int, k as int),
        decreases hi - k,
    {
        let row = &store.history[n - 1 - k];
        assert(row@ == h[n - 1 - k]);
        let p = copy_telemetry(&row.payload);
        assert(p@ == events_newest_first(h)[k as int]);
        let ghost prev = out@;
        out.push(p);
        assert(payloads_view(out@) =~= payloads_view(prev).push(p@));
        assert(events_newest_first(h).subrange(lo as int, k + 1) =~= events_newest_first(h).subrange(lo as int, k as int).push(events_newest_first(h)[k as int]));
        k = k + 1;
    }
    assert(events_page(h, limit, offset) =~= events_newest_first(h).subrange(lo as int, hi as int));
    out
}

fn queue_rows_ordered(rows: &Vec<QueueRow>, next_id: i64) -> (r: bool)
    ensures
        r == queue_ids_ordered(queue_view(rows@), next_id),
{
    let ghost q = queue_view(rows@);
    let n = rows.len();
    let mut i: usize = 0;
    while i < n
        invariant
            i <= n,
            n == q.len(),
            q == queue_view(rows@),
            forall|a: int, b: int| #![trigger q[a], q[b]] 0 <= a < b < i ==> q[a].upload.id < q[b].upload.id,
            forall|a: int| 0 <= a < i ==> #[trigger] q[a].upload.id < next_id,
        decreases n - i,
    {
        assert(q[i as int] == rows@[i as int]@);
        if rows[i].upload.id >= next_id {
            return false;
        }
        if i > 0 {
            assert(q[i - 1] == rows@[i - 1]@);
            if rows[i - 1].upload.id >= rows[i].upload.id {
                assert(q[i - 1] == q[i - 1] && q[i as int] == q[i as int]);
                return false;
            }
            assert forall|a: int| 0 <= a < i implies #[trigger] q[a].upload.id < q[i as int].upload.id by {
                if a < i - 1 {
                    assert(q[a] == q[a] && q[i - 1] == q[i - 1]);
                }
            }
        }
        i = i + 1;
    }
    true
}

fn queue_rows_unique(rows: &Vec<QueueRow>) -> (r: bool)
    ensures
        r == queue_keys_unique(queue_view(rows@)),
{
    let ghost q = queue_view(rows@);
    let n = rows.len();
    let mut j: usize = 0;
    while j < n
        invariant
            j <= n,
            n == q.len(),
            q == queue_view(rows@),
            forall|a: int, b: int| #![trigger q[a], q[b]] 0 <= a < b < j ==> !same_upload_key(q[a].upload, q[b].upload),
        decreases n - j,
    {
        let mut i: usize = 0;
        assert(q[j as int] == rows@[j as int]@);
        while i < j
            invariant
                i <= j < n,
                n == q.len(),
                q == queue_view(rows@),
                forall|a: int, b: int| #![trigger q[a], q[b]] 0 <= a < b < j ==> !same_upload_key(q[a].upload, q[b].upload),
                forall|a: int| 0 <= a < i ==> !same_upload_key(#[trigger] q[a].upload, q[j as int].upload),
            decreases j - i,
        {
            assert(q[i as int] == rows@[i as int]@);
            if rows[i].upload.session_id == rows[j].upload.session_id && rows[i].upload.file_hash
                == rows[j].upload.file_hash {
                assert(q[i as int] == q[i as int] && q[j as int] == q[j as int]);
                return false;
            }
            i = i + 1;
        }
        assert forall|a: int, b: int| #![trigger q[a], q[b]] 0 <= a < b < j + 1 implies !same_upload_key(
            q[a].upload,
            q[b].upload,
        ) by {
            if b == j {
                assert(!same_upload_key(q[a].upload, q[j as int].upload));
            }
        }
        j = j + 1;
    }
    true
}

fn history_rows_ordered(rows: &Vec<HistoryRow>, next_id: i64) -> (r: bool)
    ensures
        r == history_ids_ordered(history_view(rows@), next_id),
{
    let ghost h = history_view(rows@);
    let n = rows.len();
    let mut i: usize = 0;
    while i < n
        invariant
            i <= n,
            n == h.len(),
            h == history_view(rows@),
            forall|a: int, b: int| #![trigger h[a], h[b]] 0 <= a < b < i ==> h[a].id < h[b].id,
            forall|a: int| 0 <= a < i ==> #[trigger] h[a].id < next_id,
        decreases n - i,
    {
        assert(h[i as int] == rows@[i as int]@);
        if rows[i].id >= next_id {
            assert(h[i as int].id >= next_id);
            return false;
        }
        if i > 0 {
            assert(h[i - 1] == rows@[i - 1]@);
            if rows[i - 1].id >= rows[i].id {
                assert(h[i - 1] == h[i - 1] && h[i as int] == h[i as int]);
                return false;
            }
            assert forall|a: int| 0 <= a < i implies #[trigger] h[a].id < h[i as int].id by {
                if a < i - 1 {
                    assert(h[a] == h[a] && h[i - 1] == h[i - 1]);
                }
            }
        }
        i = i + 1;
    }
    true
}

/// The id that an AUTOINCREMENT table hands out next: one past the larger of
/// the largest id it ever handed out (`sequence`, 0 where it never did) and
/// the largest id it holds (`max_id`, 0 where it is empty), and at least 1.
/// Once `i64::MAX` is reached it stays there: the ids are used up.
pub open spec fn next_row_id_of(sequence: i64, max_id: i64) -> i64 {
    let m = if sequence >= max_id {
        sequence
    } else {
        max_id
    };
    if m == i64::MAX {
        i64::MAX
    } else if m < 1 {
        1
    } else {
        (m + 1) as i64
    }
}

pub fn next_row_id(sequence: i64, max_id: i64) -> (r: i64)
    ensures
        r == next_row_id_of(sequence, max_id),
{
    let m = if sequence >= max_id {
        sequence
    } else {
        max_id
    };
    if m == i64::MAX {
        i64::MAX
    } else if m < 1 {
        1
    } else {
        m + 1
    }
}

impl LocalStore {
    /// The tables as read back from the database file. Refused (`None`) where
    /// the rows break the rules the tables keep: ids must increase along each
    /// table and stay below its next id, and no two queued uploads may share a
    /// session and a file hash.
    pub fn from_rows(
        queue: Vec<QueueRow>,
        next_upload_id: i64,
        history: Vec<HistoryRow>,
        next_event_id: i64,
    ) -> (r: Option<LocalStore>)
        ensures
            r is Some <==> store_wf(
                StoreView {
                    queue: queue_view(queue@),
                    next_upload_id,
                    history: history_view(history@),
                    next_event_id,
                },
            ),
            r matches Some(s) ==> s.wf() && s@ == (StoreView {
                queue: queue_view(queue@),
                next_upload_id,
                history: history_view(history@),
                next_event_id,
            }),
    {
        if queue_rows_ordered(&queue, next_upload_id) && queue_rows_unique(&queue)
            && history_rows_ordered(&history, next_event_id) {
            Some(LocalStore { queue, next_upload_id, history, next_event_id })
        } else {
            None
        }
    }
}

// ---------------------------------------------------------------- laws

/// Law: every pending upload is a queued upload with fewer than ten failed
/// attempts, and every such upload is pending.
pub proof fn law_pending_are_live_uploads(q: Seq<QueueEntry>)
    ensures
        forall|j: int|
            0 <= j < pending_uploads(q).len() ==> exists|k: int|
                0 <= k < q.len() && q[k].retry_count < retry_limit() && (#[trigger] pending_uploads(
                    q,
                )[j]) == q[k].upload,
        forall|k: int|
            0 <= k < q.len() && (#[trigger] q[k]).retry_count < retry_limit() ==> exists|j: int|
                0 <= j < pending_uploads(q).len() && pending_uploads(q)[j] == q[k].upload,
    decreases q.len(),
{
    if q.len() > 0 {
        let q1 = q.drop_first();
        law_pending_are_live_uploads(q1);
        let p1 = pending_uploads(q1);
        let p = pending_uploads(q);
        assert forall|j: int| 0 <= j < p.len() implies exists|k: int|
            0 <= k < q.len() && q[k].retry_count < retry_limit() && (#[trigger] p[j]) == q[k].upload by {
            if j < p1.len() {
                assert(p[j] == p1[j]);
                let k1 = choose|k1: int|
                    0 <= k1 < q1.len() && q1[k1].retry_count < retry_limit() && (#[trigger] p1[j])
                        == q1[k1].upload;
                assert(q1[k1] == q[k1 + 1]);
            } else {
                assert(p[j] == q[0].upload);
            }
        }
        assert forall|k: int| 0 <= k < q.len() && (#[trigger] q[k]).retry_count < retry_limit() implies exists|j: int|
            0 <= j < p.len() && p[j] == q[k].upload by {
            if k == 0 {
                assert(p[p1.len() as int] == q[0].upload);
            } else {
                assert(q1[k - 1] == q[k]);
                let j1 = choose|j1: int| 0 <= j1 < p1.len() && p1[j1] == q1[k - 1].upload;
                assert(p[j1] == p1[j1]);
            }
        }
    }
}

/// Law: the pending uploads come newest first: their ids strictly decrease.
pub proof fn law_pending_newest_first(s: StoreView)
    requires
        store_wf(s),
    ensures
        forall|a: int, b: int|
            #![trigger pending_uploads(s.queue)[a], pending_uploads(s.queue)[b]]
            0 <= a < b < pending_uploads(s.queue).len() ==> pending_uploads(s.queue)[a].id
                > pending_uploads(s.queue)[b].id,
{
    lemma_pending_descending(s.queue, s.next_upload_id);
}

proof fn lemma_pending_descending(q: Seq<QueueEntry>, next: i64)
    requires
        queue_ids_ordered(q, next),
    ensures
        forall|a: int, b: int|
            #![trigger pending_uploads(q)[a], pending_uploads(q)[b]]
            0 <= a < b < pending_uploads(q).len() ==> pending_uploads(q)[a].id
                > pending_uploads(q)[b].id,
    decreases q.len(),
{
    if q.len() > 0 {
        let q1 = q.drop_first();
        assert forall|i: int, j: int| #![trigger q1[i], q1[j]] 0 <= i < j < q1.len() implies q1[i].upload.id
            < q1[j].upload.id by {
            assert(q1[i] == q[i + 1] && q1[j] == q[j + 1]);
            assert(q[i + 1] == q[i + 1] && q[j + 1] == q[j + 1]);
        }
        assert forall|i: int| 0 <= i < q1.len() implies #[trigger] q1[i].upload.id < next by {
            assert(q1[i] == q[i + 1]);
        }
        lemma_pending_descending(q1, next);
        law_pending_are_live_uploads(q1);
        let p1 = pending_uploads(q1);
        let p = pending_uploads(q);
        if q[0].retry_count < retry_limit() {
            assert forall|a: int, b: int| #![trigger p[a], p[b]] 0 <= a < b < p.len() implies p[a].id
                > p[b].id by {
                if b < p1.len() {
                    assert(p[a] == p1[a] && p[b] == p1[b]);
                    assert(p1[a] == p1[a] && p1[b] == p1[b]);
                } else {
                    assert(p[b] == q[0].upload);
                    assert(p[a] == p1[a]);
                    let k = choose|k: int|
                        0 <= k < q1.len() && q1[k].retry_count < retry_limit() && (#[trigger] p1[a])
                            == q1[k].upload;
                    assert(q1[k] == q[k + 1]);
                    assert(q[0] == q[0] && q[k + 1] == q[k + 1]);
                }
            }
        }
    }
}

/// Law: queuing the same upload twice is the same as queuing it once; the
/// second attempt is ignored.
pub proof fn law_enqueue_idempotent(s: StoreView, u: NewUploadRecord)
    ensures
        store_after_enqueue(store_after_enqueue(s, u).0, u).0 == store_after_enqueue(s, u).0,
        store_after_enqueue(store_after_enqueue(s, u).0, u).1 is None,
{
    let s1 = store_after_enqueue(s, u).0;
    if !queue_has_key(s.queue, u.session_id, u.file_hash) && s.next_upload_id != i64::MAX {
        let last = s1.queue.len() - 1;
        assert(s1.queue[last].upload.session_id == u.session_id);
        assert(queue_has_key(s1.queue, u.session_id, u.file_hash));
    }
}

/// Law: queuing an upload never removes or changes what was queued, and the
/// queue then holds an upload of that session and file hash (unless the ids
/// are used up).
pub proof fn law_enqueue_keeps_and_holds(s: StoreView, u: NewUploadRecord)
    ensures
        store_after_enqueue(s, u).0.queue.subrange(0, s.queue.len() as int) == s.queue,
        s.next_upload_id != i64::MAX ==> queue_has_key(
            store_after_enqueue(s, u).0.queue,
            u.session_id,
            u.file_hash,
        ),
{
    let s1 = store_after_enqueue(s, u).0;
    assert(s1.queue.subrange(0, s.queue.len() as int) =~= s.queue);
    if s.next_upload_id != i64::MAX && !queue_has_key(s.queue, u.session_id, u.file_hash) {
        let last = s1.queue.len() - 1;
        assert(s1.queue[last].upload.session_id == u.session_id);
    }
    if queue_has_key(s.queue, u.session_id, u.file_hash) {
        let k = choose|k: int|
            0 <= k < s.queue.len() && (#[trigger] s.queue[k]).upload.session_id == u.session_id
                && s.queue[k].upload.file_hash == u.file_hash;
        assert(s1.queue[k] == s.queue[k]);
    }
}

proof fn lemma_without_lacks_id(q: Seq<QueueEntry>, next: i64, id: i64)
    requires
        queue_ids_ordered(q, next),
    ensures
        forall|m: int| 0 <= m < queue_without(q, id).len() ==> (#[trigger] queue_without(q, id)[m]).upload.id != id,
{
    let q2 = queue_without(q, id);
    if queue_has_id(q, id) {
        let k = queue_index_of(q, id);
        assert forall|m: int| 0 <= m < q2.len() implies (#[trigger] q2[m]).upload.id != id by {
            let m0 = if m < k { m } else { m + 1 };
            assert(q2[m] == q[m0]);
            if m0 < k {
                assert(q[m0] == q[m0] && q[k] == q[k]);
            } else {
                assert(q[k] == q[k] && q[m0] == q[m0]);
            }
        }
    } else {
        assert forall|m: int| 0 <= m < q2.len() implies (#[trigger] q2[m]).upload.id != id by {
            assert(q2[m] == q[m]);
        }
    }
}

/// Law: a deleted upload is no longer pending.
pub proof fn law_deleted_not_pending(s: StoreView, id: i64)
    requires
        store_wf(s),
    ensures
        forall|j: int|
            0 <= j < pending_uploads(queue_without(s.queue, id)).len() ==> (#[trigger] pending_uploads(
                queue_without(s.queue, id),
            )[j]).id != id,
{
    let q2 = queue_without(s.queue, id);
    lemma_without_lacks_id(s.queue, s.next_upload_id, id);
    law_pending_are_live_uploads(q2);
    assert forall|j: int| 0 <= j < pending_uploads(q2).len() implies (
    #[trigger] pending_uploads(q2)[j]).id != id by {
        let m = choose|m: int|
            0 <= m < q2.len() && q2[m].retry_count < retry_limit() && (
            #[trigger] pending_uploads(q2)[j]) == q2[m].upload;
        assert(q2[m].upload.id != id);
    }
}

/// Law: an upload that has failed its tenth attempt is no longer pending.
pub proof fn law_retry_limit_ends_retries(s: StoreView, id: i64, k: int)
    requires
        store_wf(s),
        0 <= k < s.queue.len(),
        s.queue[k].upload.id == id,
        s.queue[k].retry_count >= retry_limit() - 1,
    ensures
        forall|j: int|
            0 <= j < pending_uploads(queue_after_retry(s.queue, id)).len() ==> (
            #[trigger] pending_uploads(queue_after_retry(s.queue, id))[j]).id != id,
{
    let q = s.queue;
    lemma_unique_id_index(q, s.next_upload_id, id, k);
    let q2 = queue_after_retry(q, id);
    assert(q2.len() == q.len());
    assert(q2[k].retry_count >= retry_limit());
    law_pending_are_live_uploads(q2);
    assert forall|j: int| 0 <= j < pending_uploads(q2).len() implies (
    #[trigger] pending_uploads(q2)[j]).id != id by {
        let m = choose|m: int|
            0 <= m < q2.len() && q2[m].retry_count < retry_limit() && (#[trigger] pending_uploads(
                q2,
            )[j]) == q2[m].upload;
        assert(m != k);
        assert(q2[m].upload == q[m].upload);
        if m < k {
            assert(q[m] == q[m] && q[k] == q[k]);
        } else {
            assert(q[k] == q[k] && q[m] == q[m]);
        }
    }
}

/// Law: pruning exhausted uploads leaves the pending uploads as they were.
pub proof fn law_prune_keeps_pending(q: Seq<QueueEntry>)
    ensures
        pending_uploads(live_entries(q)) == pending_uploads(q),
    decreases q.len(),
{
    lemma_pending_of_live(q);
}

proof fn lemma_pending_push(q: Seq<QueueEntry>, e: QueueEntry)
    ensures
        pending_uploads(q.push(e)) == (if e.retry_count < retry_limit() {
            seq![e.upload] + pending_uploads(q)
        } else {
            pending_uploads(q)
        }),
    decreases q.len(),
{
    if q.len() == 0 {
        assert(q.push(e).drop_first() =~= q);
        assert(pending_uploads(q) =~= Seq::<QueuedUploadRecord>::empty());
        if e.retry_count < retry_limit() {
            assert(pending_uploads(q.push(e)) =~= seq![e.upload]);
        }
    } else {
        let q1 = q.drop_first();
        assert(q.push(e).drop_first() =~= q1.push(e));
        lemma_pending_push(q1, e);
        assert(q.push(e)[0] == q[0]);
        if e.retry_count < retry_limit() {
            if q[0].retry_count < retry_limit() {
                assert(pending_uploads(q.push(e)) =~= seq![e.upload] + pending_uploads(q));
            } else {
                assert(pending_uploads(q.push(e)) =~= seq![e.upload] + pending_uploads(q));
            }
        }
    }
}

proof fn lemma_pending_of_live(q: Seq<QueueEntry>)
    ensures
        pending_uploads(live_entries(q)) == pending_uploads(q),
    decreases q.len(),
{
    if q.len() > 0 {
        let q1 = q.drop_last();
        lemma_pending_of_live(q1);
        assert(q1.push(q.last()) =~= q);
        lemma_pending_push(q1, q.last());
        if q.last().retry_count < retry_limit() {
            lemma_pending_push(live_entries(q1), q.last());
        }
    }
}

/// Law: after pruning, no upload in the queue has reached the retry limit.
pub proof fn law_prune_leaves_live(q: Seq<QueueEntry>)
    ensures
        forall|a: int|
            0 <= a < live_entries(q).len() ==> (#[trigger] live_entries(q)[a]).retry_count
                < retry_limit(),
    decreases q.len(),
{
    if q.len() > 0 {
        law_prune_leaves_live(q.drop_last());
    }
}

/// Law: the history never keeps more than a hundred events, and an event just
/// recorded is the newest.
pub proof fn law_record_keeps_latest(s: StoreView, session_id: Seq<char>, p: TelemetryRecord)
    ensures
        store_after_record(s, session_id, p).0.history.len() <= history_capacity(),
        s.next_event_id != i64::MAX ==> events_newest_first(
            store_after_record(s, session_id, p).0.history,
        )[0] == p,
{
}

/// Law: two adjacent pages make up the page that spans both.
pub proof fn law_pages_adjoin(h: Seq<HistoryEntry>, limit1: usize, limit2: usize, offset: usize)
    requires
        offset + limit1 <= i64::MAX,
        offset + limit1 <= usize::MAX,
        limit1 + limit2 <= usize::MAX,
    ensures
        events_page(h, limit1, offset) + events_page(h, limit2, (offset + limit1) as usize)
            == events_page(h, (limit1 + limit2) as usize, offset),
{
    let all = events_newest_first(h);
    let n = all.len() as int;
    let lo = min_int(offset as int, n);
    let mid = min_int(offset + limit1, n);
    let hi = min_int(offset + limit1 + limit2, n);
    assert(effective_offset(offset) == offset);
    assert(effective_offset((offset + limit1) as usize) == offset + limit1);
    assert(events_page(h, limit1, offset) == all.subrange(lo, mid));
    assert(events_page(h, limit2, (offset + limit1) as usize) == all.subrange(mid, hi));
    assert(events_page(h, (limit1 + limit2) as usize, offset) == all.subrange(lo, hi));
    assert(all.subrange(lo, mid) + all.subrange(mid, hi) =~= all.subrange(lo, hi));
}

/// Law: emptying the queue leaves nothing pending, and emptying the history
/// leaves every page empty.
pub proof fn law_cleared_is_empty(limit: usize, offset: usize)
    ensures
        pending_uploads(Seq::<QueueEntry>::empty()).len() == 0,
        events_page(Seq::<HistoryEntry>::empty(), limit, offset).len() == 0,
{
}

/// Law: once a retried upload is settled as sent, it is no longer pending:
/// recording its event leaves the queue as the deletion left it.
pub proof fn law_synced_upload_leaves_queue(s: StoreView, id: i64, session_id: Seq<char>, p: TelemetryRecord)
    requires
        store_wf(s),
    ensures
        forall|j: int|
            0 <= j < pending_uploads(
                store_after_record(
                    (StoreView { queue: queue_without(s.queue, id), ..s }),
                    session_id,
                    p,
                ).0.queue,
            ).len() ==> (#[trigger] pending_uploads(
                store_after_record(
                    (StoreView { queue: queue_without(s.queue, id), ..s }),
                    session_id,
                    p,
                ).0.queue,
            )[j]).id != id,
{
    law_deleted_not_pending(s, id);
}

} // verus!
