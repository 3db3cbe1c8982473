//! What holds of the queue whatever is done to it, proved from the rules
//! in [`crate::queue`].

use crate::error::ErrorView;
use crate::queue::{
    blocks, claimed, comes_before, fresh_record, has_active, interrupted_text, is_active,
    is_claimable, is_next, marked_failed, marked_sent, next_claim, reset, retries_exhausted,
    store_wf, submitted, RecordView, Status, StoreView, SubmitOutcome,
};
use crate::seq_facts::lemma_filter_of_none;
use vstd::prelude::*;

verus! {

/// Every operation leaves a well-formed store well formed.
pub proof fn lemma_operations_keep_well_formed(
    store: StoreView,
    phone: Seq<char>,
    message: Seq<char>,
    id: i64,
    error: Seq<char>,
    retry_limit: i32,
    now: i64,
)
    requires
        store_wf(store),
    ensures
        store_wf(submitted(store, phone, message, now).0),
        store_wf(claimed(store, retry_limit, now).0),
        store_wf(marked_sent(store, id)),
        store_wf(marked_failed(store, id, error).0),
        store_wf(reset(store)),
{
}

/// While a row for a recipient and a text is queued, in process or failed,
/// a submission of the same text to the same recipient is ignored and
/// leaves the store as it is.
pub proof fn lemma_duplicate_is_ignored(
    store: StoreView,
    phone: Seq<char>,
    message: Seq<char>,
    now: i64,
)
    requires
        has_active(store.rows, phone, message),
    ensures
        submitted(store, phone, message, now) == (
            store,
            Ok::<SubmitOutcome, ErrorView>(SubmitOutcome::DuplicateIgnored),
        ),
{
}

/// The rows that stand in the way of a submission of `message` to `phone`.
pub open spec fn active_rows(rows: Seq<RecordView>, phone: Seq<char>, message: Seq<char>) -> Seq<
    RecordView,
> {
    rows.filter(|r: RecordView| blocks(r, phone, message))
}

/// Of two submissions of one text to one recipient, the second is ignored:
/// it changes nothing, and where the first added a row, that row is the
/// only one under way for the pair.
pub proof fn lemma_second_submission_is_ignored(
    store: StoreView,
    phone: Seq<char>,
    message: Seq<char>,
    first_at: i64,
    second_at: i64,
)
    ensures
        ({
            let (after_first, first) = submitted(store, phone, message, first_at);
            let (after_second, second) = submitted(after_first, phone, message, second_at);
            first is Ok ==> {
                &&& second == Ok::<SubmitOutcome, ErrorView>(
                    SubmitOutcome::DuplicateIgnored,
                )
                &&& after_second == after_first
                &&& first == Ok::<SubmitOutcome, ErrorView>(SubmitOutcome::Queued)
                    ==> active_rows(after_first.rows, phone, message).len() == 1
            }
        }),
{
    let (after_first, first) = submitted(store, phone, message, first_at);
    if first == Ok::<SubmitOutcome, ErrorView>(SubmitOutcome::Queued) {
        let added = fresh_record(store.next_id, phone, message, first_at);
        let pred = |r: RecordView| blocks(r, phone, message);
        assert(after_first.rows == store.rows.push(added));
        assert(after_first.rows[store.rows.len() as int] == added);
        assert(blocks(added, phone, message));
        store.rows.lemma_filter_push(added, pred);
        assert forall|i: int| 0 <= i < store.rows.len() implies !pred(#[trigger] store.rows[i]) by {
        }
        lemma_filter_of_none(store.rows, pred);
    }
}

/// No two rows that are under way share a recipient and a text.
pub open spec fn pairs_unique(rows: Seq<RecordView>) -> bool {
    forall|i: int, j: int|
        0 <= i < j < rows.len() && is_active((#[trigger] rows[i]).status) && is_active(
            (#[trigger] rows[j]).status,
        ) ==> !(rows[i].phone_number == rows[j].phone_number && rows[i].message
            == rows[j].message)
}

/// The record `id` is not among the sent ones.
pub open spec fn is_not_sent(rows: Seq<RecordView>, id: i64) -> bool {
    forall|i: int|
        0 <= i < rows.len() && (#[trigger] rows[i]).id == id ==> rows[i].status != Status::Sent
}

/// Once no two rows under way share a recipient and a text, it stays so:
/// under submissions, claims, restarts and sent marks, and under failed
/// marks of records that are not sent, as are those that a claim handed
/// out.
pub proof fn lemma_pairs_stay_unique(
    store: StoreView,
    phone: Seq<char>,
    message: Seq<char>,
    id: i64,
    error: Seq<char>,
    retry_limit: i32,
    now: i64,
)
    requires
        store_wf(store),
        pairs_unique(store.rows),
    ensures
        pairs_unique(submitted(store, phone, message, now).0.rows),
        pairs_unique(claimed(store, retry_limit, now).0.rows),
        pairs_unique(marked_sent(store, id).rows),
        pairs_unique(reset(store).rows),
        is_not_sent(store.rows, id) ==> pairs_unique(marked_failed(store, id, error).0.rows),
{
    let after = submitted(store, phone, message, now).0.rows;
    assert forall|i: int, j: int|
        0 <= i < j < after.len() && is_active((#[trigger] after[i]).status) && is_active(
            (#[trigger] after[j]).status,
        ) implies !(after[i].phone_number == after[j].phone_number && after[i].message
        == after[j].message) by {
        if after.len() > store.rows.len() {
            if j == store.rows.len() {
                assert(after[i] == store.rows[i]);
                assert(!blocks(store.rows[i], phone, message));
            } else {
                assert(after[i] == store.rows[i]);
                assert(after[j] == store.rows[j]);
            }
        }
    }
}

/// A claim hands out a record that was queued or failed and puts it into
/// process; and of two claims in a row, the second hands out another
/// record: no record is handed out twice before its outcome is recorded.
pub proof fn lemma_claims_differ(
    store: StoreView,
    first_limit: i32,
    first_now: i64,
    second_limit: i32,
    second_now: i64,
)
    requires
        store_wf(store),
    ensures
        ({
            let (after_first, first) = claimed(store, first_limit, first_now);
            let (after_second, second) = claimed(after_first, second_limit, second_now);
            first matches Some(one) ==> {
                &&& exists|i: int|
                    0 <= i < store.rows.len() && (#[trigger] store.rows[i]).id == one.id && (
                    store.rows[i].status == Status::Queued || store.rows[i].status
                        == Status::Failed) && after_first.rows[i].status == Status::Processing
                &&& second matches Some(two) ==> one.id != two.id
            }
        }),
{
    let (after_first, first) = claimed(store, first_limit, first_now);
    let (after_second, second) = claimed(after_first, second_limit, second_now);
    if let Some(one) = first {
        let a = next_claim(store.rows, first_limit, first_now)->0;
        assert(is_next(store.rows, a, first_limit, first_now));
        assert(store.rows[a].id == one.id);
        assert(after_first.rows[a].status == Status::Processing);
        if let Some(two) = second {
            let b = next_claim(after_first.rows, second_limit, second_now)->0;
            assert(is_next(after_first.rows, b, second_limit, second_now));
            assert(a != b);
            assert(after_first.rows[b].id == two.id);
            if a < b {
                assert(after_first.rows[a].id < after_first.rows[b].id);
            } else {
                assert(after_first.rows[b].id < after_first.rows[a].id);
            }
        }
    }
}

proof fn lemma_first_of(rows: Seq<RecordView>, retry_limit: i32, now: i64, upto: int) -> (at: int)
    requires
        0 <= upto <= rows.len(),
        exists|i: int| 0 <= i < upto && is_claimable(rows, #[trigger] rows[i], retry_limit, now),
    ensures
        0 <= at < upto,
        is_claimable(rows, rows[at], retry_limit, now),
        forall|j: int|
            0 <= j < upto && is_claimable(rows, #[trigger] rows[j], retry_limit, now)
                ==> comes_before(rows[at], rows[j]),
    decreases upto,
{
    let last = upto - 1;
    if exists|i: int| 0 <= i < last && is_claimable(rows, #[trigger] rows[i], retry_limit, now) {
        let best = lemma_first_of(rows, retry_limit, now, last);
        if is_claimable(rows, rows[last], retry_limit, now) && !comes_before(
            rows[best],
            rows[last],
        ) {
            assert forall|j: int|
                0 <= j < upto && is_claimable(
                    rows,
                    #[trigger] rows[j],
                    retry_limit,
                    now,
                ) implies comes_before(rows[last], rows[j]) by {
                if j < last {
                    assert(comes_before(rows[best], rows[j]));
                }
            }
            last
        } else {
            best
        }
    } else {
        last
    }
}

/// A claim hands out a record exactly when some record can be claimed.
pub proof fn lemma_claim_finds_what_can_be_claimed(store: StoreView, retry_limit: i32, now: i64)
    ensures
        claimed(store, retry_limit, now).1 is Some <==> exists|i: int|
            0 <= i < store.rows.len() && is_claimable(
                store.rows,
                #[trigger] store.rows[i],
                retry_limit,
                now,
            ),
{
    let rows = store.rows;
    if exists|i: int|
        0 <= i < rows.len() && is_claimable(rows, #[trigger] rows[i], retry_limit, now) {
        let at = lemma_first_of(rows, retry_limit, now, rows.len() as int);
        assert(is_next(rows, at, retry_limit, now));
    }
    if claimed(store, retry_limit, now).1 is Some {
        let at = next_claim(rows, retry_limit, now)->0;
        assert(is_next(rows, at, retry_limit, now));
    }
}

/// A record that was sent carries no error.
pub proof fn lemma_sent_carries_no_error(store: StoreView, at: int)
    requires
        store_wf(store),
        0 <= at < store.rows.len(),
        store.rows[at].status == Status::Sent,
    ensures
        store.rows[at].last_error is None,
{
}

/// Marking a record as sent leaves it sent and without an error.
pub proof fn lemma_mark_sent_clears_error(store: StoreView, at: int)
    requires
        0 <= at < store.rows.len(),
    ensures
        marked_sent(store, store.rows[at].id).rows[at].status == Status::Sent,
        marked_sent(store, store.rows[at].id).rows[at].last_error is None,
{
}

/// Each mark as failed counts one more failed attempt against the record
/// and leaves it failed, with the error that was given.
pub proof fn lemma_failure_is_counted(store: StoreView, at: int, error: Seq<char>)
    requires
        0 <= at < store.rows.len(),
        !retries_exhausted(store.rows, store.rows[at].id),
    ensures
        ({
            let after = marked_failed(store, store.rows[at].id, error).0;
            &&& after.rows[at].status == Status::Failed
            &&& after.rows[at].retries == store.rows[at].retries + 1
            &&& after.rows[at].last_error == Some(error)
        }),
{
    assert(store.rows[at].retries != u32::MAX);
}

/// The rows of `before` are all in `after`, at their place and under their
/// identity, and none has fewer failed attempts counted against it.
pub open spec fn retries_kept(before: Seq<RecordView>, after: Seq<RecordView>) -> bool {
    &&& before.len() <= after.len()
    &&& forall|i: int|
        0 <= i < before.len() ==> (#[trigger] after[i]).id == before[i].id && after[i].retries
            >= before[i].retries
}

/// No operation removes a record or takes a failed attempt off its count.
pub proof fn lemma_retries_never_decrease(
    store: StoreView,
    phone: Seq<char>,
    message: Seq<char>,
    id: i64,
    error: Seq<char>,
    retry_limit: i32,
    now: i64,
)
    ensures
        retries_kept(store.rows, submitted(store, phone, message, now).0.rows),
        retries_kept(store.rows, claimed(store, retry_limit, now).0.rows),
        retries_kept(store.rows, marked_sent(store, id).rows),
        retries_kept(store.rows, marked_failed(store, id, error).0.rows),
        retries_kept(store.rows, reset(store).rows),
{
    let after = marked_failed(store, id, error).0.rows;
    assert forall|i: int| 0 <= i < store.rows.len() implies (#[trigger] after[i]).id
        == store.rows[i].id && after[i].retries >= store.rows[i].retries by {
        if !retries_exhausted(store.rows, id) && store.rows[i].id == id {
            assert(store.rows[i].retries != u32::MAX);
        }
    }
}

/// After a restart no record is in process, and what was in process has
/// failed with the restart as its error.
pub proof fn lemma_reset_leaves_none_in_process(store: StoreView, at: int)
    requires
        0 <= at < store.rows.len(),
    ensures
        reset(store).rows.len() == store.rows.len(),
        reset(store).rows[at].status != Status::Processing,
        store.rows[at].status == Status::Processing ==> reset(store).rows[at].status
            == Status::Failed && reset(store).rows[at].last_error == Some(interrupted_text())
            && reset(store).rows[at].last_attempt_at is None,
        store.rows[at].status != Status::Processing ==> reset(store).rows[at] == store.rows[at],
{
}

/// With a retry limit of zero or less only queued records are claimed.
pub proof fn lemma_no_retries_without_limit(store: StoreView, retry_limit: i32, now: i64)
    requires
        retry_limit <= 0,
    ensures
        claimed(store, retry_limit, now).1 is Some ==> {
            let at = next_claim(store.rows, retry_limit, now)->0;
            0 <= at < store.rows.len() && store.rows[at].status == Status::Queued
        },
{
    if claimed(store, retry_limit, now).1 is Some {
        let at = next_claim(store.rows, retry_limit, now)->0;
        assert(is_next(store.rows, at, retry_limit, now));
    }
}

} // verus!
