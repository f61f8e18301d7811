use vstd::prelude::*;
use crate::models::EmailResult;

verus! {

/// Whether `log` already holds a result for request `id` with status `status`.
pub open spec fn has_result(log: Seq<EmailResult>, id: u128, status: Seq<char>) -> bool {
    exists|i: int| 0 <= i < log.len() && (#[trigger] log[i]).request_id == id && log[i].status@ == status
}

/// (request id, status) is the key of the result log.
pub open spec fn result_keys_unique(log: Seq<EmailResult>) -> bool {
    forall|i: int, j: int|
        #![trigger log[i], log[j]]
        0 <= i < log.len() && 0 <= j < log.len() && i != j ==> !(log[i].request_id == log[j].request_id
            && log[i].status@ == log[j].status@)
}

/// What appending `result` does: a result whose key is already present is
/// dropped silently; otherwise it is added at the end.
pub open spec fn append_outcome(
    before: Seq<EmailResult>,
    after: Seq<EmailResult>,
    result: EmailResult,
    inserted: bool,
) -> bool {
    &&& inserted == !has_result(before, result.request_id, result.status@)
    &&& inserted ==> after == before.push(result)
    &&& !inserted ==> after == before
}

/// Appends `result` to the log unless a result with the same request id and
/// status is already there; returns whether it was added.
///
/// This is the result log held in memory. The embedding process relies on
/// the store's unique key on (request id, status) with `ON CONFLICT DO
/// NOTHING`; this function states and proves what that insert must do.
pub fn append_result(log: &mut Vec<EmailResult>, result: EmailResult) -> (inserted: bool)
    ensures
        append_outcome(old(log)@, final(log)@, result, inserted),
        result_keys_unique(old(log)@) ==> result_keys_unique(final(log)@),
{
    let mut i: usize = 0;
    while i < log.len()
        invariant
            i <= log@.len(),
            forall|j: int|
                0 <= j < i ==> !((#[trigger] log@[j]).request_id == result.request_id && log@[j].status@
                    == result.status@),
        decreases log@.len() - i,
    {
        if log[i].request_id == result.request_id && log[i].status == result.status {
            return false;
        }
        i = i + 1;
    }
    log.push(result);
    true
}

/// Delivering the same (request id, status) again leaves the log unchanged:
/// however many times a result is re-delivered, the log holds it once.
pub proof fn lemma_redelivery_is_idempotent(
    l0: Seq<EmailResult>,
    l1: Seq<EmailResult>,
    l2: Seq<EmailResult>,
    first: EmailResult,
    again: EmailResult,
    inserted_first: bool,
    inserted_again: bool,
)
    requires
        append_outcome(l0, l1, first, inserted_first),
        append_outcome(l1, l2, again, inserted_again),
        again.request_id == first.request_id,
        again.status@ == first.status@,
    ensures
        has_result(l1, first.request_id, first.status@),
        !inserted_again,
        l2 == l1,
{
    if inserted_first {
        assert(l1[l0.len() as int] == first);
    }
}

/// Appending keeps the log's key unique.
pub proof fn lemma_append_keeps_keys_unique(
    before: Seq<EmailResult>,
    after: Seq<EmailResult>,
    result: EmailResult,
    inserted: bool,
)
    requires
        result_keys_unique(before),
        append_outcome(before, after, result, inserted),
    ensures
        result_keys_unique(after),
{
    if inserted {
        assert forall|i: int, j: int|
            #![trigger after[i], after[j]]
            0 <= i < after.len() && 0 <= j < after.len() && i != j implies !(after[i].request_id
            == after[j].request_id && after[i].status@ == after[j].status@) by {
            if i < before.len() && j < before.len() {
                assert(after[i] == before[i] && after[j] == before[j]);
            } else if i < before.len() {
                assert(after[i] == before[i]);
            } else if j < before.len() {
                assert(after[j] == before[j]);
            }
        }
    }
}

/// A run of deliveries: each log is the one before with the next delivery
/// appended.
pub open spec fn delivery_run(logs: Seq<Seq<EmailResult>>, deliveries: Seq<EmailResult>, inserted: Seq<bool>) -> bool {
    &&& logs.len() == deliveries.len() + 1
    &&& inserted.len() == deliveries.len()
    &&& forall|i: int|
        0 <= i < deliveries.len() ==> append_outcome(#[trigger] logs[i], logs[i + 1], deliveries[i], inserted[i])
}

/// Delivering one (request id, status) any number n >= 1 of times, to a log
/// whose key is unique: only the first delivery can add a row, every later
/// log equals the log after the first, and the final log holds exactly one
/// row with that key.
pub proof fn lemma_repeated_delivery_stores_once(
    logs: Seq<Seq<EmailResult>>,
    deliveries: Seq<EmailResult>,
    inserted: Seq<bool>,
    id: u128,
    status: Seq<char>,
)
    requires
        delivery_run(logs, deliveries, inserted),
        deliveries.len() >= 1,
        result_keys_unique(logs[0]),
        forall|i: int|
            0 <= i < deliveries.len() ==> (#[trigger] deliveries[i]).request_id == id && deliveries[i].status@
                == status,
    ensures
        forall|i: int| 1 <= i < logs.len() ==> #[trigger] logs[i] == logs[1],
        forall|i: int| 1 <= i < inserted.len() ==> !(#[trigger] inserted[i]),
        ({
            let last = logs[logs.len() - 1];
            exists|j: int|
                #![trigger last[j]]
                0 <= j < last.len() && last[j].request_id == id && last[j].status@ == status && forall|k: int|
                    0 <= k < last.len() && k != j ==> !((#[trigger] last[k]).request_id == id && last[k].status@
                        == status)
        }),
    decreases deliveries.len(),
{
    let n = deliveries.len() as int;
    assert(append_outcome(logs[0], logs[1], deliveries[0], inserted[0]));
    lemma_append_keeps_keys_unique(logs[0], logs[1], deliveries[0], inserted[0]);
    if inserted[0] {
        assert(logs[1][logs[0].len() as int] == deliveries[0]);
    }
    assert(has_result(logs[1], id, status));
    if n > 1 {
        let logs_p = logs.drop_last();
        let del_p = deliveries.drop_last();
        let ins_p = inserted.drop_last();
        assert forall|i: int| 0 <= i < del_p.len() implies append_outcome(
            #[trigger] logs_p[i],
            logs_p[i + 1],
            del_p[i],
            ins_p[i],
        ) by {
            assert(append_outcome(logs[i], logs[i + 1], deliveries[i], inserted[i]));
        }
        lemma_repeated_delivery_stores_once(logs_p, del_p, ins_p, id, status);
        assert(logs[n - 1] == logs_p[n - 1]);
        assert(logs[n - 1] == logs[1]);
        assert(append_outcome(logs[n - 1], logs[n], deliveries[n - 1], inserted[n - 1]));
        assert forall|i: int| 1 <= i < logs.len() implies #[trigger] logs[i] == logs[1] by {
            if i < n {
                assert(logs[i] == logs_p[i]);
            }
        }
        assert forall|i: int| 1 <= i < inserted.len() implies !(#[trigger] inserted[i]) by {
            if i < n - 1 {
                assert(inserted[i] == ins_p[i]);
            }
        }
    }
    let last = logs[logs.len() - 1];
    assert(last == logs[1]);
    let j = choose|j: int| 0 <= j < last.len() && (#[trigger] last[j]).request_id == id && last[j].status@ == status;
    assert(last[j].request_id == id);
}

} // verus!
