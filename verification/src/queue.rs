//! The queue's rules: what a submission, a claim, an outcome and a restart
//! do to the rows of the store. [`QueueStore`] holds the rows in memory and
//! is the reference for any store that keeps them elsewhere.

use crate::error::{EngineError, ErrorKind, ErrorView};
use crate::seq_facts::{lemma_filter_of_none, lemma_filters_agree};
use vstd::prelude::*;

verus! {

/// From this many failed attempts on, a record is not retried.
pub const RETRY_CAP: u32 = 10;

/// How long a failed record rests before it is retried, in seconds.
pub const COOLDOWN_SECS: i64 = 300;

/// Where a record stands.
#[derive(Clone, Copy, Debug, PartialEq, Eq, Structural)]
pub enum Status {
    Queued,
    Processing,
    Sent,
    Failed,
}

/// The number that stands for a status in the store.
pub open spec fn status_code(status: Status) -> u8 {
    match status {
        Status::Queued => 0,
        Status::Processing => 1,
        Status::Sent => 2,
        Status::Failed => 3,
    }
}

impl Status {
    /// The number that stands for this status in the store.
    pub fn code(self) -> (code: u8)
        ensures
            code == status_code(self),
    {
        match self {
            Status::Queued => 0,
            Status::Processing => 1,
            Status::Sent => 2,
            Status::Failed => 3,
        }
    }

    /// The status that a number of the store stands for, if any.
    pub fn from_code(code: i64) -> (status: Option<Status>)
        ensures
            match status {
                Some(s) => status_code(s) == code,
                None => code < 0 || code > 3,
            },
    {
        if code == 0 {
            Some(Status::Queued)
        } else if code == 1 {
            Some(Status::Processing)
        } else if code == 2 {
            Some(Status::Sent)
        } else if code == 3 {
            Some(Status::Failed)
        } else {
            None
        }
    }
}

/// What became of a submission.
#[derive(Clone, Copy, Debug, PartialEq, Eq, Structural)]
pub enum SubmitOutcome {
    /// A row was added.
    Queued,
    /// A row for the same recipient and text is still under way.
    DuplicateIgnored,
}

/// The word by which an outcome is reported.
pub open spec fn outcome_word(outcome: SubmitOutcome) -> Seq<char> {
    match outcome {
        SubmitOutcome::Queued => "QUEUED"@,
        SubmitOutcome::DuplicateIgnored => "DUPLICATE_IGNORED"@,
    }
}

impl SubmitOutcome {
    /// The outcome of a conditional insert that changed `rows_affected`
    /// rows: none means that a duplicate stood in the way.
    pub fn from_rows_affected(rows_affected: u64) -> (outcome: SubmitOutcome)
        ensures
            outcome == if rows_affected == 0 {
                SubmitOutcome::DuplicateIgnored
            } else {
                SubmitOutcome::Queued
            },
    {
        if rows_affected == 0 {
            SubmitOutcome::DuplicateIgnored
        } else {
            SubmitOutcome::Queued
        }
    }

    /// The word by which this outcome is reported.
    pub fn as_str(self) -> (word: &'static str)
        ensures
            word@ == outcome_word(self),
    {
        match self {
            SubmitOutcome::Queued => "QUEUED",
            SubmitOutcome::DuplicateIgnored => "DUPLICATE_IGNORED",
        }
    }
}

/// A row of the queue.
#[derive(Debug, PartialEq, Eq)]
pub struct SmsRecord {
    pub id: i64,
    pub phone_number: String,
    pub message: String,
    pub status: Status,
    /// How many attempts have failed.
    pub retries: u32,
    /// When the record was last claimed, in seconds.
    pub last_attempt_at: Option<i64>,
    /// Why the last attempt failed.
    pub last_error: Option<String>,
    /// When the record was submitted, in seconds.
    pub created_at: i64,
}

/// An [`SmsRecord`] as a mathematical value.
pub struct RecordView {
    pub id: i64,
    pub phone_number: Seq<char>,
    pub message: Seq<char>,
    pub status: Status,
    pub retries: u32,
    pub last_attempt_at: Option<i64>,
    pub last_error: Option<Seq<char>>,
    pub created_at: i64,
}

impl View for SmsRecord {
    type V = RecordView;

    open spec fn view(&self) -> RecordView {
        RecordView {
            id: self.id,
            phone_number: self.phone_number@,
            message: self.message@,
            status: self.status,
            retries: self.retries,
            last_attempt_at: self.last_attempt_at,
            last_error: match self.last_error {
                Some(error) => Some(error@),
                None => None,
            },
            created_at: self.created_at,
        }
    }
}

/// What a claim hands to the worker.
#[derive(Debug, PartialEq, Eq)]
pub struct ClaimedSms {
    pub id: i64,
    pub phone_number: String,
    pub message: String,
    /// How many attempts had failed when the record was claimed.
    pub retries: u32,
}

/// A [`ClaimedSms`] as a mathematical value.
pub struct ClaimView {
    pub id: i64,
    pub phone_number: Seq<char>,
    pub message: Seq<char>,
    pub retries: u32,
}

impl View for ClaimedSms {
    type V = ClaimView;

    open spec fn view(&self) -> ClaimView {
        ClaimView {
            id: self.id,
            phone_number: self.phone_number@,
            message: self.message@,
            retries: self.retries,
        }
    }
}

/// The views of a run of records.
pub open spec fn record_views(rows: Seq<SmsRecord>) -> Seq<RecordView> {
    rows.map_values(|r: SmsRecord| r@)
}

/// A store as a mathematical value: its rows in the order in which they
/// were added, and the identity that the next row will get.
pub struct StoreView {
    pub rows: Seq<RecordView>,
    pub next_id: i64,
}

/// What holds of every row: a queued record was never attempted, and a sent
/// record carries no error.
pub open spec fn record_wf(row: RecordView) -> bool {
    &&& row.status == Status::Sent ==> row.last_error is None
    &&& row.status == Status::Queued ==> row.retries == 0 && row.last_attempt_at is None
        && row.last_error is None
}

/// What holds of every store: identities are positive, were handed out in
/// ascending order and are never used twice, and each row is well formed.
pub open spec fn store_wf(store: StoreView) -> bool {
    &&& store.next_id >= 1
    &&& forall|i: int|
        0 <= i < store.rows.len() ==> 1 <= (#[trigger] store.rows[i]).id < store.next_id
    &&& forall|i: int, j: int|
        0 <= i < j < store.rows.len() ==> (#[trigger] store.rows[i]).id < (
        #[trigger] store.rows[j]).id
    &&& forall|i: int| 0 <= i < store.rows.len() ==> record_wf(#[trigger] store.rows[i])
}

/// A record in this status stands in the way of a submission with the same
/// recipient and text.
pub open spec fn is_active(status: Status) -> bool {
    status != Status::Sent
}

/// The row stands in the way of a submission of `message` to `phone`.
pub open spec fn blocks(row: RecordView, phone: Seq<char>, message: Seq<char>) -> bool {
    row.phone_number == phone && row.message == message && is_active(row.status)
}

/// Some row stands in the way of a submission of `message` to `phone`.
pub open spec fn has_active(rows: Seq<RecordView>, phone: Seq<char>, message: Seq<char>) -> bool {
    exists|i: int| 0 <= i < rows.len() && blocks(#[trigger] rows[i], phone, message)
}

/// The row that a submission adds.
pub open spec fn fresh_record(
    id: i64,
    phone: Seq<char>,
    message: Seq<char>,
    now: i64,
) -> RecordView {
    RecordView {
        id,
        phone_number: phone,
        message,
        status: Status::Queued,
        retries: 0,
        last_attempt_at: None,
        last_error: None,
        created_at: now,
    }
}

/// The failure when the store has no identity left for a new row.
pub open spec fn store_full_error() -> ErrorView {
    ErrorView { kind: ErrorKind::StoreRuntime, message: "sms_queue: no row identity is left"@ }
}

/// The failure when a record's count of failed attempts cannot grow.
pub open spec fn retries_full_error() -> ErrorView {
    ErrorView {
        kind: ErrorKind::StoreRuntime,
        message: "sms_queue: the count of retries cannot grow"@,
    }
}

/// The store after a submission of `message` to `phone` at the time `now`,
/// and what became of the submission: it is ignored while a row for the
/// same recipient and text is queued, in process or failed; otherwise it
/// adds a queued row.
pub open spec fn submitted(store: StoreView, phone: Seq<char>, message: Seq<char>, now: i64) -> (
    StoreView,
    Result<SubmitOutcome, ErrorView>,
) {
    if has_active(store.rows, phone, message) {
        (store, Ok(SubmitOutcome::DuplicateIgnored))
    } else if store.next_id == i64::MAX {
        (store, Err(store_full_error()))
    } else {
        (
            StoreView {
                rows: store.rows.push(fresh_record(store.next_id, phone, message, now)),
                next_id: (store.next_id + 1) as i64,
            },
            Ok(SubmitOutcome::Queued),
        )
    }
}

/// The record failed and may still be retried.
pub open spec fn is_retryable(row: RecordView) -> bool {
    row.status == Status::Failed && row.retries < RETRY_CAP
}

/// How many records that may be retried are newer than the record `id`,
/// that is, have a higher identity.
pub open spec fn newer_retryable(rows: Seq<RecordView>, id: i64) -> nat {
    rows.filter(|r: RecordView| is_retryable(r) && r.id > id).len()
}

/// The record is among the `retry_limit` newest that may be retried. With a
/// limit of zero or less no record is.
pub open spec fn in_retry_pool(rows: Seq<RecordView>, row: RecordView, retry_limit: i32) -> bool {
    is_retryable(row) && newer_retryable(rows, row.id) < retry_limit
}

/// The record has rested: it was never attempted, or its last attempt is
/// more than the cool-down before `now`.
pub open spec fn is_cool(row: RecordView, now: i64) -> bool {
    match row.last_attempt_at {
        None => true,
        Some(at) => at + COOLDOWN_SECS < now,
    }
}

/// The record can be claimed: it is queued, or it is in the retry pool and
/// has rested.
pub open spec fn is_claimable(
    rows: Seq<RecordView>,
    row: RecordView,
    retry_limit: i32,
    now: i64,
) -> bool {
    row.status == Status::Queued || (in_retry_pool(rows, row, retry_limit) && is_cool(row, now))
}

/// `a` is claimed no later than `b`: it is older, or as old and has the
/// lower identity.
pub open spec fn comes_before(a: RecordView, b: RecordView) -> bool {
    a.created_at < b.created_at || (a.created_at == b.created_at && a.id <= b.id)
}

/// The row at `at` is the one to claim: it can be claimed, and it comes
/// before every other row that can.
pub open spec fn is_next(rows: Seq<RecordView>, at: int, retry_limit: i32, now: i64) -> bool {
    &&& 0 <= at < rows.len()
    &&& is_claimable(rows, rows[at], retry_limit, now)
    &&& forall|j: int|
        0 <= j < rows.len() && is_claimable(rows, #[trigger] rows[j], retry_limit, now)
            ==> comes_before(rows[at], rows[j])
}

/// The position of the row to claim, if any row can be claimed.
pub open spec fn next_claim(rows: Seq<RecordView>, retry_limit: i32, now: i64) -> Option<int> {
    if exists|at: int| is_next(rows, at, retry_limit, now) {
        Some(choose|at: int| is_next(rows, at, retry_limit, now))
    } else {
        None
    }
}

/// A record once it is claimed at the time `now`.
pub open spec fn taken(row: RecordView, now: i64) -> RecordView {
    RecordView { status: Status::Processing, last_attempt_at: Some(now), ..row }
}

/// What a claim hands out of a record.
pub open spec fn claim_of(row: RecordView) -> ClaimView {
    ClaimView {
        id: row.id,
        phone_number: row.phone_number,
        message: row.message,
        retries: row.retries,
    }
}

/// The store after a claim at the time `now`, and what was claimed: the
/// oldest row among the queued ones and, with a positive `retry_limit`,
/// those of the `retry_limit` newest retryable rows that have rested. The
/// row goes into process; without such a row nothing changes.
pub open spec fn claimed(store: StoreView, retry_limit: i32, now: i64) -> (
    StoreView,
    Option<ClaimView>,
) {
    match next_claim(store.rows, retry_limit, now) {
        Some(at) => (
            StoreView { rows: store.rows.update(at, taken(store.rows[at], now)), ..store },
            Some(claim_of(store.rows[at])),
        ),
        None => (store, None),
    }
}

/// A record once it is marked as sent.
pub open spec fn sent(row: RecordView) -> RecordView {
    RecordView { status: Status::Sent, last_error: None, ..row }
}

/// The store after the record `id` is marked as sent. Without such a record
/// nothing changes.
pub open spec fn marked_sent(store: StoreView, id: i64) -> StoreView {
    StoreView {
        rows: store.rows.map_values(
            |r: RecordView|
                if r.id == id {
                    sent(r)
                } else {
                    r
                },
        ),
        ..store
    }
}

/// A record once it is marked as failed with `error`.
pub open spec fn failed(row: RecordView, error: Seq<char>) -> RecordView {
    RecordView {
        status: Status::Failed,
        retries: (row.retries + 1) as u32,
        last_error: Some(error),
        ..row
    }
}

/// Some record `id` has failed as often as can be counted.
pub open spec fn retries_exhausted(rows: Seq<RecordView>, id: i64) -> bool {
    exists|i: int|
        0 <= i < rows.len() && (#[trigger] rows[i]).id == id && rows[i].retries == u32::MAX
}

/// The store after the record `id` is marked as failed with `error`: one
/// more failed attempt is counted. Without such a record nothing changes.
pub open spec fn marked_failed(store: StoreView, id: i64, error: Seq<char>) -> (
    StoreView,
    Result<(), ErrorView>,
) {
    if retries_exhausted(store.rows, id) {
        (store, Err(retries_full_error()))
    } else {
        (
            StoreView {
                rows: store.rows.map_values(
                    |r: RecordView|
                        if r.id == id {
                            failed(r, error)
                        } else {
                            r
                        },
                ),
                ..store
            },
            Ok(()),
        )
    }
}

/// The error that a record carries after a restart found it in process.
pub open spec fn interrupted_text() -> Seq<char> {
    "Interrupted by system restart"@
}

/// A record after a restart: one that was in process has failed, without an
/// attempt being counted against it.
pub open spec fn recovered(row: RecordView) -> RecordView {
    if row.status == Status::Processing {
        RecordView {
            status: Status::Failed,
            last_attempt_at: None,
            last_error: Some(interrupted_text()),
            ..row
        }
    } else {
        row
    }
}

/// The store after a restart.
pub open spec fn reset(store: StoreView) -> StoreView {
    StoreView { rows: store.rows.map_values(|r: RecordView| recovered(r)), ..store }
}

/// The view of what a store operation returns.
pub open spec fn result_view<T>(result: Result<T, EngineError>) -> Result<T, ErrorView> {
    match result {
        Ok(value) => Ok(value),
        Err(error) => Err(error@),
    }
}

/// The view of what a claim returns.
pub open spec fn claim_view(claim: Option<ClaimedSms>) -> Option<ClaimView> {
    match claim {
        Some(c) => Some(c@),
        None => None,
    }
}

proof fn lemma_newer_retryable_follow(rows: Seq<RecordView>, at: int)
    requires
        0 <= at < rows.len(),
        forall|i: int, j: int|
            0 <= i < j < rows.len() ==> (#[trigger] rows[i]).id < (#[trigger] rows[j]).id,
    ensures
        newer_retryable(rows, rows[at].id) == rows.skip(at + 1).filter(
            |r: RecordView| is_retryable(r),
        ).len(),
{
    let id = rows[at].id;
    let newer = |r: RecordView| is_retryable(r) && r.id > id;
    let any = |r: RecordView| is_retryable(r);
    let head = rows.take(at + 1);
    let tail = rows.skip(at + 1);
    assert(head + tail =~= rows);
    Seq::filter_distributes_over_add(head, tail, newer);
    assert forall|i: int| 0 <= i < head.len() implies !newer(#[trigger] head[i]) by {
        assert(head[i] == rows[i]);
    }
    lemma_filter_of_none(head, newer);
    assert forall|i: int| 0 <= i < tail.len() implies newer(#[trigger] tail[i]) == any(tail[i]) by {
        assert(tail[i] == rows[at + 1 + i]);
    }
    lemma_filters_agree(tail, newer, any);
    assert(Seq::<RecordView>::empty() + tail.filter(any) =~= tail.filter(any));
}

proof fn lemma_retryable_count_step(rows: Seq<RecordView>, at: int)
    requires
        0 <= at < rows.len(),
    ensures
        rows.skip(at).filter(|r: RecordView| is_retryable(r)).len() == rows.skip(at + 1).filter(
            |r: RecordView| is_retryable(r),
        ).len() + if is_retryable(rows[at]) {
            1int
        } else {
            0int
        },
        rows.skip(at + 1).filter(|r: RecordView| is_retryable(r)).len() <= rows.len() - at - 1,
{
    let any = |r: RecordView| is_retryable(r);
    let tail = rows.skip(at + 1);
    assert(seq![rows[at]] + tail =~= rows.skip(at));
    tail.lemma_filter_prepend(rows[at], any);
    tail.lemma_filter_len(any);
}

/// At most one row is the one to claim.
pub proof fn lemma_next_is_unique(
    rows: Seq<RecordView>,
    a: int,
    b: int,
    retry_limit: i32,
    now: i64,
)
    requires
        forall|i: int, j: int|
            0 <= i < j < rows.len() ==> (#[trigger] rows[i]).id < (#[trigger] rows[j]).id,
        is_next(rows, a, retry_limit, now),
        is_next(rows, b, retry_limit, now),
    ensures
        a == b,
{
    assert(comes_before(rows[a], rows[b]));
    assert(comes_before(rows[b], rows[a]));
    if a < b {
        assert(rows[a].id < rows[b].id);
    } else if b < a {
        assert(rows[b].id < rows[a].id);
    }
}

/// The rows of a queue, held in memory. Every store that [`QueueStore::new`]
/// and the operations below give is well formed ([`store_wf`]).
#[derive(Debug)]
pub struct QueueStore {
    rows: Vec<SmsRecord>,
    next_id: i64,
}

impl View for QueueStore {
    type V = StoreView;

    closed spec fn view(&self) -> StoreView {
        StoreView { rows: record_views(self.rows@), next_id: self.next_id }
    }
}

impl QueueStore {
    /// An empty store.
    pub fn new() -> (store: QueueStore)
        ensures
            store@ == (StoreView { rows: Seq::empty(), next_id: 1 }),
            store_wf(store@),
    {
        let store = QueueStore { rows: Vec::new(), next_id: 1 };
        assert(store@.rows =~= Seq::empty());
        store
    }

    /// The rows, in the order in which they were added.
    pub fn rows(&self) -> (rows: &Vec<SmsRecord>)
        ensures
            record_views(rows@) == self@.rows,
    {
        &self.rows
    }

    fn find_active(&self, phone: &String, message: &String) -> (found: bool)
        ensures
            found == has_active(self@.rows, phone@, message@),
    {
        let mut i: usize = 0;
        while i < self.rows.len()
            invariant
                i <= self.rows.len(),
                forall|k: int| 0 <= k < i ==> !blocks(#[trigger] self@.rows[k], phone@, message@),
            decreases self.rows.len() - i,
        {
            let row = &self.rows[i];
            assert(self@.rows[i as int] == row@);
            if row.status != Status::Sent && row.phone_number == *phone && row.message == *message {
                return true;
            }
            i += 1;
        }
        false
    }

    /// Submits `message` for `phone` at the time `now`. The submission is
    /// ignored while a row for the same recipient and text is queued, in
    /// process or failed; a sent one does not stand in the way. Otherwise a
    /// queued row is added. The store fails only when no identity is left.
    pub fn submit(&mut self, phone: &str, message: &str, now: i64) -> (outcome: Result<
        SubmitOutcome,
        EngineError,
    >)
        requires
            store_wf(old(self)@),
        ensures
            (final(self)@, result_view(outcome)) == submitted(old(self)@, phone@, message@, now),
            store_wf(final(self)@),
    {
        let phone_number = String::from_str(phone);
        let text = String::from_str(message);
        if self.find_active(&phone_number, &text) {
            Ok(SubmitOutcome::DuplicateIgnored)
        } else if self.next_id == i64::MAX {
            Err(EngineError::new(ErrorKind::StoreRuntime, "sms_queue: no row identity is left"))
        } else {
            let ghost before = self.rows@;
            let record = SmsRecord {
                id: self.next_id,
                phone_number,
                message: text,
                status: Status::Queued,
                retries: 0,
                last_attempt_at: None,
                last_error: None,
                created_at: now,
            };
            proof {
                before.lemma_push_map_commute(|r: SmsRecord| r@, record);
            }
            self.rows.push(record);
            self.next_id = self.next_id + 1;
            Ok(SubmitOutcome::Queued)
        }
    }

    /// The number of rows.
    pub fn len(&self) -> (count: usize)
        ensures
            count == self@.rows.len(),
    {
        self.rows.len()
    }

    fn position_of(&self, id: i64) -> (found: Option<usize>)
        ensures
            match found {
                Some(at) => at < self@.rows.len() && self@.rows[at as int].id == id,
                None => forall|k: int|
                    0 <= k < self@.rows.len() ==> (#[trigger] self@.rows[k]).id != id,
            },
    {
        let mut i: usize = 0;
        while i < self.rows.len()
            invariant
                i <= self.rows.len(),
                forall|k: int| 0 <= k < i ==> (#[trigger] self@.rows[k]).id != id,
            decreases self.rows.len() - i,
        {
            assert(self@.rows[i as int] == self.rows@[i as int]@);
            if self.rows[i].id == id {
                return Some(i);
            }
            i += 1;
        }
        None
    }

    fn find_next(&self, retry_limit: i32, now: i64) -> (found: Option<usize>)
        requires
            store_wf(self@),
        ensures
            match found {
                Some(at) => is_next(self@.rows, at as int, retry_limit, now),
                None => forall|k: int|
                    0 <= k < self@.rows.len() ==> !is_claimable(
                        self@.rows,
                        #[trigger] self@.rows[k],
                        retry_limit,
                        now,
                    ),
            },
    {
        let ghost rows = self@.rows;
        let mut i: usize = self.rows.len();
        let mut seen: usize = 0;
        let mut best: Option<usize> = None;
        assert(rows.skip(i as int) =~= Seq::<RecordView>::empty());
        proof {
            lemma_filter_of_none(rows.skip(i as int), |r: RecordView| is_retryable(r));
        }
        while i > 0
            invariant
                rows == self@.rows,
                store_wf(self@),
                i <= self.rows.len(),
                seen <= self.rows.len() - i,
                seen == rows.skip(i as int).filter(|r: RecordView| is_retryable(r)).len(),
                match best {
                    Some(at) => {
                        &&& i <= at < rows.len()
                        &&& is_claimable(rows, rows[at as int], retry_limit, now)
                        &&& forall|j: int|
                            i <= j < rows.len() && is_claimable(
                                rows,
                                #[trigger] rows[j],
                                retry_limit,
                                now,
                            ) ==> comes_before(rows[at as int], rows[j])
                    },
                    None => forall|j: int|
                        i <= j < rows.len() ==> !is_claimable(
                            rows,
                            #[trigger] rows[j],
                            retry_limit,
                            now,
                        ),
                },
            decreases i,
        {
            i -= 1;
            let row = &self.rows[i];
            assert(rows[i as int] == row@);
            proof {
                lemma_newer_retryable_follow(rows, i as int);
                lemma_retryable_count_step(rows, i as int);
            }
            let retryable = row.status == Status::Failed && row.retries < RETRY_CAP;
            let in_pool = retryable && retry_limit > 0 && (seen as u64) < (retry_limit as u64);
            let cool = match row.last_attempt_at {
                None => true,
                Some(at) => (at as i128) + (COOLDOWN_SECS as i128) < (now as i128),
            };
            let claimable = row.status == Status::Queued || (in_pool && cool);
            assert(claimable == is_claimable(rows, rows[i as int], retry_limit, now));
            if claimable {
                let better = match best {
                    Some(at) => row.created_at <= self.rows[at].created_at,
                    None => true,
                };
                if better {
                    proof {
                        if let Some(at) = best {
                            assert(rows[at as int] == self.rows@[at as int]@);
                            assert forall|j: int|
                                i <= j < rows.len() && is_claimable(
                                    rows,
                                    #[trigger] rows[j],
                                    retry_limit,
                                    now,
                                ) implies comes_before(rows[i as int], rows[j]) by {
                                if j > i {
                                    assert(comes_before(rows[at as int], rows[j]));
                                    assert(rows[i as int].id < rows[j].id);
                                }
                            }
                        }
                    }
                    best = Some(i);
                } else {
                    proof {
                        let at = best->0;
                        assert(rows[at as int] == self.rows@[at as int]@);
                        assert(comes_before(rows[at as int], rows[i as int]));
                    }
                }
            }
            if retryable {
                seen += 1;
            }
        }
        best
    }

    /// Claims the next record at the time `now`: the oldest among the queued
    /// records and, where `retry_limit` is positive, those of the
    /// `retry_limit` newest retryable records that have rested for the
    /// cool-down. The record goes into process with `now` as the time of
    /// its last attempt. Where no record can be claimed nothing changes.
    pub fn claim_next(&mut self, retry_limit: i32, now: i64) -> (claim: Option<ClaimedSms>)
        requires
            store_wf(old(self)@),
        ensures
            (final(self)@, claim_view(claim)) == claimed(old(self)@, retry_limit, now),
            store_wf(final(self)@),
    {
        let ghost rows = self@.rows;
        match self.find_next(retry_limit, now) {
            Some(at) => {
                proof {
                    let chosen = choose|k: int| is_next(rows, k, retry_limit, now);
                    lemma_next_is_unique(rows, at as int, chosen, retry_limit, now);
                }
                assert(rows[at as int] == self.rows@[at as int]@);
                let claim = ClaimedSms {
                    id: self.rows[at].id,
                    phone_number: self.rows[at].phone_number.clone(),
                    message: self.rows[at].message.clone(),
                    retries: self.rows[at].retries,
                };
                self.rows[at].status = Status::Processing;
                self.rows[at].last_attempt_at = Some(now);
                assert(self@.rows =~= rows.update(at as int, taken(rows[at as int], now)));
                Some(claim)
            },
            None => {
                assert(!exists|k: int| is_next(rows, k, retry_limit, now));
                None
            },
        }
    }

    /// Marks the record `id` as sent and clears its error. Without such a
    /// record nothing changes.
    pub fn mark_sent(&mut self, id: i64)
        requires
            store_wf(old(self)@),
        ensures
            final(self)@ == marked_sent(old(self)@, id),
            store_wf(final(self)@),
    {
        let ghost rows = self@.rows;
        match self.position_of(id) {
            Some(at) => {
                assert(rows[at as int] == self.rows@[at as int]@);
                self.rows[at].last_error = None;
                self.rows[at].status = Status::Sent;
                assert(self@.rows =~= marked_sent(old(self)@, id).rows);
            },
            None => {
                assert(self@.rows =~= marked_sent(old(self)@, id).rows);
            },
        }
    }

    /// Marks the record `id` as failed with `error` and counts one more
    /// failed attempt. Without such a record nothing changes. The store
    /// fails only when the count cannot grow.
    pub fn mark_failed(&mut self, id: i64, error: &str) -> (done: Result<(), EngineError>)
        requires
            store_wf(old(self)@),
        ensures
            (final(self)@, result_view(done)) == marked_failed(old(self)@, id, error@),
            store_wf(final(self)@),
    {
        let ghost rows = self@.rows;
        match self.position_of(id) {
            Some(at) => {
                assert(rows[at as int] == self.rows@[at as int]@);
                if self.rows[at].retries == u32::MAX {
                    return Err(
                        EngineError::new(
                            ErrorKind::StoreRuntime,
                            "sms_queue: the count of retries cannot grow",
                        ),
                    );
                }
                assert(!retries_exhausted(rows, id));
                self.rows[at].status = Status::Failed;
                self.rows[at].retries = self.rows[at].retries + 1;
                self.rows[at].last_error = Some(String::from_str(error));
                assert(self@.rows =~= marked_failed(old(self)@, id, error@).0.rows);
                Ok(())
            },
            None => {
                assert(self@.rows =~= marked_failed(old(self)@, id, error@).0.rows);
                Ok(())
            },
        }
    }

    /// Records how the delivery of the record `id` ended: sent where it
    /// succeeded, failed with the failure's message where it did not.
    pub fn record_outcome(&mut self, id: i64, delivery: &Result<String, EngineError>) -> (done:
        Result<(), EngineError>)
        requires
            store_wf(old(self)@),
        ensures
            (final(self)@, result_view(done)) == match *delivery {
                Ok(_) => (marked_sent(old(self)@, id), Ok(())),
                Err(error) => marked_failed(old(self)@, id, error.message@),
            },
            store_wf(final(self)@),
    {
        match delivery {
            Ok(_) => {
                self.mark_sent(id);
                Ok(())
            },
            Err(error) => self.mark_failed(id, error.message.as_str()),
        }
    }

    /// Recovers from a restart: every record that was in process has failed,
    /// with the error "Interrupted by system restart" and no time of a last
    /// attempt. No attempt is counted against it.
    pub fn reset_stuck(&mut self)
        requires
            store_wf(old(self)@),
        ensures
            final(self)@ == reset(old(self)@),
            store_wf(final(self)@),
            forall|i: int|
                0 <= i < final(self)@.rows.len() ==> (#[trigger] final(self)@.rows[i]).status
                    != Status::Processing,
    {
        let ghost rows = self@.rows;
        let mut i: usize = 0;
        while i < self.rows.len()
            invariant
                i <= self.rows.len(),
                self.rows.len() == rows.len(),
                self.next_id == old(self).next_id,
                forall|k: int| 0 <= k < i ==> (#[trigger] self@.rows[k]) == recovered(rows[k]),
                forall|k: int| i <= k < rows.len() ==> (#[trigger] self@.rows[k]) == rows[k],
            decreases self.rows.len() - i,
        {
            let ghost before = self@.rows;
            assert(before[i as int] == self.rows@[i as int]@);
            if self.rows[i].status == Status::Processing {
                self.rows[i].status = Status::Failed;
                self.rows[i].last_attempt_at = None;
                self.rows[i].last_error = Some(String::from_str("Interrupted by system restart"));
            }
            assert(self@.rows =~= before.update(i as int, recovered(before[i as int])));
            i += 1;
        }
        assert(self@.rows =~= reset(old(self)@).rows);
    }
}

} // verus!
