//! The intel ingest queue and what one ingest pass decides about a row.
use vstd::prelude::*;
use tokio::sync::mpsc::Sender;
use crate::text::{trim, trim_str, i64_to_string, int_decimal};

verus! {

/// A row handed to the ingest worker: its kind, its id within the kind, and
/// the raw content to title, summarize and embed.
#[derive(Debug, Clone)]
pub struct IngestRequest {
    pub kind: String,
    pub intel_id: i64,
    pub content: String,
}

#[verifier::external_type_specification]
#[verifier::external_body]
#[verifier::reject_recursive_types(T)]
pub struct ExSender<T>(Sender<T>);

/// What became of an enqueue.
#[derive(Debug, Clone, Copy, PartialEq, Eq, Structural)]
pub enum EnqueueOutcome {
    /// The request is in the channel.
    Queued,
    /// The channel is at capacity; the request was dropped.
    Full,
    /// The worker has gone; the request was dropped.
    Closed,
    /// The worker has not been started; the request was dropped.
    NotReady,
}

/// The producer end of the ingest worker's channel, with the requests the
/// channel has taken through it, in order.
pub struct IngestChannel {
    tx: Sender<IngestRequest>,
    sent: Ghost<Seq<IngestRequest>>,
}

impl IngestChannel {
    /// The requests this end has handed to the worker's channel, in order.
    pub closed spec fn sent(&self) -> Seq<IngestRequest> {
        self.sent@
    }

    /// The producer end over `tx`, before anything was sent through it.
    pub fn new(tx: Sender<IngestRequest>) -> (c: Self)
        ensures
            c.sent() == Seq::<IngestRequest>::empty(),
    {
        IngestChannel { tx, sent: Ghost(Seq::empty()) }
    }
}

/// `tokio::sync::mpsc::Sender::try_send`: `Queued` when the channel took the
/// message, which then follows the earlier ones; `Full` or `Closed` for the
/// two refusals, which leave the channel as it was.  Which outcome comes back
/// depends on the receiving task and is not stated.
#[verifier::external_body]
fn try_send_request(ch: &mut IngestChannel, req: IngestRequest) -> (r: EnqueueOutcome)
    ensures
        r != EnqueueOutcome::NotReady,
        r == EnqueueOutcome::Queued ==> final(ch).sent() == old(ch).sent().push(req),
        r != EnqueueOutcome::Queued ==> final(ch).sent() == old(ch).sent(),
{
    match ch.tx.try_send(req) {
        Ok(()) => EnqueueOutcome::Queued,
        Err(tokio::sync::mpsc::error::TrySendError::Full(_)) => EnqueueOutcome::Full,
        Err(tokio::sync::mpsc::error::TrySendError::Closed(_)) => EnqueueOutcome::Closed,
    }
}

/// What a slot has handed to the worker (nothing without a worker).
pub open spec fn sent_log(slot: Option<IngestChannel>) -> Seq<IngestRequest> {
    match slot {
        Some(c) => c.sent(),
        None => Seq::empty(),
    }
}

/// Hands `req` to the ingest worker without waiting.  Without a worker
/// (`slot` empty) nothing is sent; otherwise the request is sent on the
/// worker's channel, and when the channel takes it, it is the last request
/// the worker has been handed.
pub fn enqueue_intel(slot: &mut Option<IngestChannel>, req: IngestRequest) -> (r: EnqueueOutcome)
    ensures
        (*old(slot)) is None <==> r == EnqueueOutcome::NotReady,
        (*final(slot)) is Some <==> (*old(slot)) is Some,
        r == EnqueueOutcome::Queued ==> sent_log(*final(slot)) == sent_log(*old(slot)).push(req),
        r != EnqueueOutcome::Queued ==> sent_log(*final(slot)) == sent_log(*old(slot)),
{
    match slot {
        Some(ch) => try_send_request(ch, req),
        None => EnqueueOutcome::NotReady,
    }
}

/// Whether a request is worth processing: its content is not blank.
pub fn ingest_needed(req: &IngestRequest) -> (b: bool)
    ensures
        b == (trim(req.content@).len() > 0),
{
    let t = trim_str(req.content.as_str());
    !t.as_str().is_empty()
}

/// A stored intel row; times are Unix seconds.
#[derive(Debug, Clone)]
pub struct IntelRow {
    /// 0 for a row not yet inserted.
    pub id: i64,
    pub created_at: Option<i64>,
    pub updated_at: Option<i64>,
    pub title: String,
    pub summary: String,
    pub datetime: i64,
    /// The embedding as a pgvector literal, when one was computed.
    pub embedding: Option<String>,
    pub kind: String,
    pub kind_id: i64,
}

/// Whether `r` is the row written for `req` at `now`: the existing row of
/// the same kind and id updated in place, or a new row (id 0 until inserted).
pub open spec fn upserted_row(
    r: IntelRow,
    existing: Option<IntelRow>,
    req: IngestRequest,
    title: Seq<char>,
    summary: Seq<char>,
    embedding: Option<String>,
    now: i64,
) -> bool {
    &&& r.title@ == title
    &&& r.summary@ == summary
    &&& r.datetime == now
    &&& r.updated_at == Some(now)
    &&& r.embedding == embedding
    &&& existing matches Some(e) ==> r.id == e.id && r.created_at == e.created_at && r.kind@
        == e.kind@ && r.kind_id == e.kind_id
    &&& existing is None ==> r.id == 0 && r.created_at == Some(now) && r.kind@ == req.kind@
        && r.kind_id == req.intel_id
}

/// The row written for `req` at `now`: the existing row of the same kind and
/// id updated in place, or a new row.
pub fn upsert_intel_row(
    existing: Option<IntelRow>,
    req: &IngestRequest,
    title: String,
    summary: String,
    embedding: Option<String>,
    now: i64,
) -> (r: IntelRow)
    ensures
        upserted_row(r, existing, *req, title@, summary@, embedding, now),
{
    match existing {
        Some(e) => IntelRow {
            id: e.id,
            created_at: e.created_at,
            updated_at: Some(now),
            title,
            summary,
            datetime: now,
            embedding,
            kind: e.kind,
            kind_id: e.kind_id,
        },
        None => IntelRow {
            id: 0,
            created_at: Some(now),
            updated_at: Some(now),
            title,
            summary,
            datetime: now,
            embedding,
            kind: req.kind.clone(),
            kind_id: req.intel_id,
        },
    }
}

/// What one ingest pass writes for a request: the row, and whether it is
/// inserted (no row of the request's kind and id was stored) or updates the
/// stored one.
#[derive(Debug, Clone)]
pub struct IngestPlan {
    pub row: IntelRow,
    pub insert: bool,
}

pub open spec fn embedding_kept(embedding: Result<String, String>) -> Option<String> {
    match embedding {
        Ok(l) => Some(l),
        Err(_) => None,
    }
}

pub open spec fn is_ingest_plan(
    p: IngestPlan,
    existing: Option<IntelRow>,
    req: IngestRequest,
    title: Seq<char>,
    summary: Seq<char>,
    embedding: Result<String, String>,
    now: i64,
) -> bool {
    &&& p.insert == (existing is None)
    &&& upserted_row(p.row, existing, req, title, summary, embedding_kept(embedding), now)
}

/// The write of one ingest pass at `now`: `existing` is the stored row of the
/// request's kind and id, if any; `embedding` is the embedding literal, or why
/// none could be computed (the row is then written without one).
pub fn plan_ingest(
    existing: Option<IntelRow>,
    req: &IngestRequest,
    title: String,
    summary: String,
    embedding: Result<String, String>,
    now: i64,
) -> (p: IngestPlan)
    ensures
        is_ingest_plan(p, existing, *req, title@, summary@, embedding, now),
{
    let insert = existing.is_none();
    let kept = match embedding {
        Ok(l) => Some(l),
        Err(_) => None,
    };
    let row = upsert_intel_row(existing, req, title, summary, kept, now);
    IngestPlan { row, insert }
}

pub open spec fn event_wanted_spec(has_event: bool) -> bool {
    !has_event
}

/// Whether the pass extracts and stores an event for the row: only when the
/// row has none yet.
pub fn event_wanted(has_event: bool) -> (b: bool)
    ensures
        b == event_wanted_spec(has_event),
{
    !has_event
}

/// Whether a row belongs to the request's kind and id.
pub open spec fn row_has_key(r: IntelRow, kind: Seq<char>, kind_id: i64) -> bool {
    r.kind@ == kind && r.kind_id == kind_id
}

/// No two rows share a kind and id, and no two share a row id.
pub open spec fn table_ok(rows: Seq<IntelRow>) -> bool {
    &&& forall|i: int, j: int|
        0 <= i < j < rows.len() ==> !(#[trigger] rows[i].kind@ == #[trigger] rows[j].kind@
            && rows[i].kind_id == rows[j].kind_id)
    &&& forall|i: int, j: int| 0 <= i < j < rows.len() ==> rows[i].id != rows[j].id
}

/// `existing` is what looking up the request's kind and id in `rows` gives.
pub open spec fn looked_up(rows: Seq<IntelRow>, kind: Seq<char>, kind_id: i64, existing: Option<IntelRow>) -> bool {
    match existing {
        None => forall|i: int| 0 <= i < rows.len() ==> !row_has_key(#[trigger] rows[i], kind, kind_id),
        Some(e) => row_has_key(e, kind, kind_id) && exists|k: int| 0 <= k < rows.len() && #[trigger] rows[k] == e,
    }
}

/// The table after writing plan `p`; an inserted row gets the id `new_id`.
pub open spec fn table_after(rows: Seq<IntelRow>, p: IngestPlan, new_id: i64) -> Seq<IntelRow> {
    if p.insert {
        rows.push(IntelRow { id: new_id, ..p.row })
    } else {
        rows.map_values(|r: IntelRow| if r.id == p.row.id { p.row } else { r })
    }
}

/// Row ids are distinct (the table's primary key).
pub open spec fn ids_unique(rows: Seq<IntelRow>) -> bool {
    forall|i: int, j: int| 0 <= i < j < rows.len() ==> rows[i].id != rows[j].id
}

/// At most one row has kind `kind` and id `kind_id`.
pub open spec fn key_at_most_once(rows: Seq<IntelRow>, kind: Seq<char>, kind_id: i64) -> bool {
    forall|i: int, j: int|
        0 <= i < rows.len() && 0 <= j < rows.len() && row_has_key(#[trigger] rows[i], kind, kind_id)
            && row_has_key(#[trigger] rows[j], kind, kind_id) ==> i == j
}

/// One row per kind and id: when at most one row has the request's kind and
/// id, then after an ingest pass writes its plan exactly one row has them
/// (the stored one updated in place, or the one inserted); a table in which no
/// two rows share a kind and id stays so.
pub proof fn lemma_one_row_per_intel(
    rows: Seq<IntelRow>,
    existing: Option<IntelRow>,
    req: IngestRequest,
    title: Seq<char>,
    summary: Seq<char>,
    embedding: Result<String, String>,
    now: i64,
    p: IngestPlan,
    new_id: i64,
)
    requires
        ids_unique(rows),
        key_at_most_once(rows, req.kind@, req.intel_id),
        looked_up(rows, req.kind@, req.intel_id, existing),
        is_ingest_plan(p, existing, req, title, summary, embedding, now),
        forall|i: int| 0 <= i < rows.len() ==> (#[trigger] rows[i]).id != new_id,
    ensures
        table_ok(rows) ==> table_ok(table_after(rows, p, new_id)),
        ids_unique(table_after(rows, p, new_id)),
        exists|k: int|
            0 <= k < table_after(rows, p, new_id).len() && row_has_key(
                #[trigger] table_after(rows, p, new_id)[k],
                req.kind@,
                req.intel_id,
            ),
        key_at_most_once(table_after(rows, p, new_id), req.kind@, req.intel_id),
{
    let t = table_after(rows, p, new_id);
    match existing {
        None => {
            let n = rows.len() as int;
            assert(t[n] == IntelRow { id: new_id, ..p.row });
            assert(row_has_key(t[n], req.kind@, req.intel_id));
            assert forall|i: int, j: int| 0 <= i < j < t.len() implies t[i].id != t[j].id by {
                assert(t[i] == rows[i]);
                if j < n {
                    assert(t[j] == rows[j]);
                }
            }
            if table_ok(rows) {
                assert forall|i: int, j: int| 0 <= i < j < t.len() implies !(#[trigger] t[i].kind@ == #[trigger] t[j].kind@
                    && t[i].kind_id == t[j].kind_id) by {
                    if j == n {
                        assert(!row_has_key(rows[i], req.kind@, req.intel_id));
                        assert(t[i] == rows[i]);
                    } else {
                        assert(t[i] == rows[i] && t[j] == rows[j]);
                    }
                }
            }
            assert forall|i: int, j: int|
                0 <= i < t.len() && 0 <= j < t.len() && row_has_key(#[trigger] t[i], req.kind@, req.intel_id)
                    && row_has_key(#[trigger] t[j], req.kind@, req.intel_id) implies i == j by {
                if i < n {
                    assert(t[i] == rows[i]);
                }
                if j < n {
                    assert(t[j] == rows[j]);
                }
            }
        },
        Some(e) => {
            let k = choose|k: int| 0 <= k < rows.len() && #[trigger] rows[k] == e;
            assert(t.len() == rows.len());
            assert forall|i: int| 0 <= i < t.len() implies (#[trigger] t[i]) == (if i == k { p.row } else { rows[i] }) by {
                if i != k {
                    assert(rows[i].id != rows[k].id) by {
                        if i < k {
                        } else {
                        }
                    }
                }
            }
            assert(row_has_key(t[k], req.kind@, req.intel_id));
            assert forall|i: int, j: int| 0 <= i < j < t.len() implies t[i].id != t[j].id by {
                assert(t[i] == (if i == k { p.row } else { rows[i] }));
                assert(t[j] == (if j == k { p.row } else { rows[j] }));
            }
            if table_ok(rows) {
                assert forall|i: int, j: int| 0 <= i < j < t.len() implies !(#[trigger] t[i].kind@ == #[trigger] t[j].kind@
                    && t[i].kind_id == t[j].kind_id) by {
                    assert(t[i] == (if i == k { p.row } else { rows[i] }));
                    assert(t[j] == (if j == k { p.row } else { rows[j] }));
                }
            }
            assert forall|i: int, j: int|
                0 <= i < t.len() && 0 <= j < t.len() && row_has_key(#[trigger] t[i], req.kind@, req.intel_id)
                    && row_has_key(#[trigger] t[j], req.kind@, req.intel_id) implies i == j by {
                assert(t[i] == (if i == k { p.row } else { rows[i] }));
                assert(t[j] == (if j == k { p.row } else { rows[j] }));
                if i != k {
                    assert(row_has_key(rows[i], req.kind@, req.intel_id));
                    assert(row_has_key(rows[k], req.kind@, req.intel_id));
                }
                if j != k {
                    assert(row_has_key(rows[j], req.kind@, req.intel_id));
                    assert(row_has_key(rows[k], req.kind@, req.intel_id));
                }
            }
        },
    }
}

/// At most one event per intel row: `events` lists the intel ids that have an
/// event; a pass adds one for `intel_id` only when `event_wanted` says so,
/// and the list keeps each id at most once.
pub proof fn lemma_at_most_one_event(events: Seq<i64>, intel_id: i64)
    requires
        events.no_duplicates(),
    ensures
        ({
            let seen = events.contains(intel_id);
            let after = if event_wanted_spec(seen) { events.push(intel_id) } else { events };
            after.no_duplicates() && after.contains(intel_id)
        }),
{
    if !events.contains(intel_id) {
        let after = events.push(intel_id);
        assert(after[events.len() as int] == intel_id);
        assert forall|i: int, j: int| 0 <= i < after.len() && 0 <= j < after.len() && i != j implies after[i] != after[j] by {
            if i < events.len() && j < events.len() {
                assert(after[i] == events[i] && after[j] == events[j]);
            } else if i < events.len() {
                assert(after[i] == events[i]);
                assert(events.contains(events[i]));
            } else {
                assert(after[j] == events[j]);
                assert(events.contains(events[j]));
            }
        }
    }
}

/// How an intel row's origin is shown: `kind#id`.
pub fn intel_kind_label(kind: &str, kind_id: i64) -> (r: String)
    ensures
        r@ == kind@ + seq!['#'] + int_decimal(kind_id as int),
{
    let mut s = String::from_str(kind);
    s.push('#');
    let n = i64_to_string(kind_id);
    s.append(n.as_str());
    s
}

/// Whether an extracted address is looked up: only when it is not empty.
pub fn geocode_wanted(address: &str) -> (b: bool)
    ensures
        b == (address@.len() > 0),
{
    !address.is_empty()
}

/// The computed embedding is stored with the row, whether the row is new or
/// updated: a written row carries exactly the embedding it was given, and an
/// ingest plan's row carries `l` whenever the embedding came out as `Ok(l)`
/// (and none when it failed).
pub proof fn lemma_embedding_is_stored(
    r: IntelRow,
    existing: Option<IntelRow>,
    req: IngestRequest,
    title: Seq<char>,
    summary: Seq<char>,
    embedding: Option<String>,
    now: i64,
    p: IngestPlan,
    computed: Result<String, String>,
)
    requires
        upserted_row(r, existing, req, title, summary, embedding, now),
        is_ingest_plan(p, existing, req, title, summary, computed, now),
    ensures
        r.embedding == embedding,
        r.title@ == title && r.summary@ == summary && r.datetime == now && r.updated_at == Some(now),
        existing matches Some(e) ==> r.id == e.id && r.created_at == e.created_at,
        existing is None ==> r.created_at == Some(now),
        row_has_key(r, req.kind@, req.intel_id) || (existing matches Some(e) && r.kind@ == e.kind@
            && r.kind_id == e.kind_id),
        p.insert <==> existing is None,
        computed matches Ok(l) ==> p.row.embedding == Some(l),
        computed is Err ==> p.row.embedding is None,
{
}

} // verus!
