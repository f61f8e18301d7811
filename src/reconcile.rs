use vstd::prelude::*;
use crate::claim::{claim_outcome, claimed_row};
use crate::models::EmailRequest;
use crate::status::{permitted_transition, terminal};
use crate::status::EmailStatus;
use crate::time::Timestamp;

verus! {

/// What publishing one request produced: the broker's stream sequence on
/// acknowledgement, or the reason it failed.
#[derive(Clone, Debug)]
pub enum PublishOutcome {
    Published(u64),
    PublishFailed(String),
}

/// The status and error that an outcome settles a request in.
pub open spec fn settled_status(outcome: PublishOutcome) -> EmailStatus {
    match outcome {
        PublishOutcome::Published(_) => EmailStatus::Sent,
        PublishOutcome::PublishFailed(_) => EmailStatus::Failed,
    }
}

pub open spec fn settled_error(outcome: PublishOutcome) -> Option<String> {
    match outcome {
        PublishOutcome::Published(_) => None,
        PublishOutcome::PublishFailed(reason) => Some(reason),
    }
}

/// The row as the Reconciler leaves it after `outcome`.
pub open spec fn reconciled_row(r: EmailRequest, outcome: PublishOutcome, now: Timestamp) -> EmailRequest {
    EmailRequest { status: settled_status(outcome), error: settled_error(outcome), updated_at: now, ..r }
}

/// Request ids are the table's key.
pub open spec fn ids_unique(rows: Seq<EmailRequest>) -> bool {
    forall|i: int, j: int|
        0 <= i < rows.len() && 0 <= j < rows.len() && i != j ==> #[trigger] rows[i].id != #[trigger] rows[j].id
}

/// `k` is the first outcome in `outcomes` that names request `id`.
pub open spec fn first_outcome_for(outcomes: Seq<(u128, PublishOutcome)>, k: int, id: u128) -> bool {
    &&& 0 <= k < outcomes.len()
    &&& outcomes[k].0 == id
    &&& forall|m: int| 0 <= m < k ==> (#[trigger] outcomes[m]).0 != id
}

/// What reconciling `outcomes` at `now` does to a table: each row in
/// Processing that an outcome names is settled by the first outcome naming
/// it; every other row is left as it was.
pub open spec fn reconcile_outcome(
    before: Seq<EmailRequest>,
    after: Seq<EmailRequest>,
    outcomes: Seq<(u128, PublishOutcome)>,
    now: Timestamp,
) -> bool {
    &&& after.len() == before.len()
    &&& forall|i: int|
        #![trigger after[i]]
        0 <= i < before.len() ==> {
            ||| after[i] == before[i]
            ||| exists|k: int|
                first_outcome_for(outcomes, k, before[i].id) && before[i].status is Processing
                    && after[i] == reconciled_row(before[i], outcomes[k].1, now)
        }
    &&& forall|i: int, k: int|
        #![trigger after[i], outcomes[k]]
        0 <= i < before.len() && first_outcome_for(outcomes, k, before[i].id)
            && before[i].status is Processing ==> after[i] == reconciled_row(
            before[i],
            outcomes[k].1,
            now,
        )
}

/// The status update that `outcome` calls for.
pub fn settle(outcome: &PublishOutcome) -> (r: (EmailStatus, Option<String>))
    ensures
        r.0 == settled_status(*outcome),
        r.1 == settled_error(*outcome),
{
    match outcome {
        PublishOutcome::Published(_) => (EmailStatus::Sent, None),
        PublishOutcome::PublishFailed(reason) => (EmailStatus::Failed, Some(reason.clone())),
    }
}

/// The position of the row with request id `id`, if any.
pub fn find_request(rows: &Vec<EmailRequest>, id: u128) -> (r: Option<usize>)
    ensures
        r matches Some(i) ==> i < rows@.len() && rows@[i as int].id == id,
        r is None ==> forall|i: int| 0 <= i < rows@.len() ==> (#[trigger] rows@[i]).id != id,
{
    let mut j: usize = 0;
    while j < rows.len()
        invariant
            j <= rows@.len(),
            forall|i: int| 0 <= i < j ==> (#[trigger] rows@[i]).id != id,
        decreases rows@.len() - j,
    {
        if rows[j].id == id {
            return Some(j);
        }
        j = j + 1;
    }
    None
}

/// Applies publish outcomes to the table at `now`: a request in Processing
/// becomes Sent (error cleared) or Failed (error set to the reason). A request
/// that is missing, or no longer in Processing, is skipped.
///
/// This is reconciliation over a table held in memory. The embedding process
/// runs the same updates as SQL in one transaction; this function states and
/// proves what those updates must do.
pub fn reconcile(rows: &mut Vec<EmailRequest>, outcomes: &Vec<(u128, PublishOutcome)>, now: Timestamp)
    requires
        ids_unique(old(rows)@),
    ensures
        reconcile_outcome(old(rows)@, final(rows)@, outcomes@, now),
{
    let ghost orig = rows@;
    let mut n: usize = 0;
    while n < outcomes.len()
        invariant
            n <= outcomes@.len(),
            rows@.len() == orig.len(),
            ids_unique(orig),
            forall|i: int|
                #![trigger rows@[i]]
                0 <= i < orig.len() ==> {
                    ||| rows@[i] == orig[i]
                    ||| exists|k: int|
                        first_outcome_for(outcomes@, k, orig[i].id) && k < n && orig[i].status is Processing
                            && rows@[i] == reconciled_row(orig[i], outcomes@[k].1, now)
                },
            forall|i: int|
                #![trigger rows@[i]]
                0 <= i < orig.len() && rows@[i] == orig[i] ==> forall|m: int|
                    0 <= m < n ==> (#[trigger] outcomes@[m]).0 != orig[i].id || !(orig[i].status is Processing),
            forall|i: int, k: int|
                #![trigger rows@[i], outcomes@[k]]
                0 <= i < orig.len() && k < n && first_outcome_for(outcomes@, k, orig[i].id)
                    && orig[i].status is Processing ==> rows@[i] == reconciled_row(
                    orig[i],
                    outcomes@[k].1,
                    now,
                ),
        decreases outcomes@.len() - n,
    {
        let id = outcomes[n].0;
        match find_request(rows, id) {
            None => {},
            Some(i) => {
                if rows[i].status == EmailStatus::Processing {
                    let (status, error) = settle(&outcomes[n].1);
                    proof {
                        assert(rows@[i as int] == orig[i as int]) by {
                            if rows@[i as int] != orig[i as int] {
                                assert(rows@[i as int].status != EmailStatus::Processing);
                            }
                        }
                        assert(first_outcome_for(outcomes@, n as int, orig[i as int].id));
                    }
                    rows[i].status = status;
                    rows[i].error = error;
                    rows[i].updated_at = now;
                    proof {
                        assert(rows@[i as int] == reconciled_row(orig[i as int], outcomes@[n as int].1, now));
                    }
                }
            },
        }
        n = n + 1;
    }
}

/// Each row either keeps its status or takes one permitted transition.
pub open spec fn steps_permitted(before: Seq<EmailRequest>, after: Seq<EmailRequest>) -> bool {
    forall|i: int|
        0 <= i < before.len() && i < after.len() ==> #[trigger] after[i].status == before[i].status
            || permitted_transition(before[i].status, after[i].status)
}

/// A claim leaves every row as it was or moves it from Created to Processing.
pub proof fn lemma_claim_step_permitted(
    t0: Seq<EmailRequest>,
    t1: Seq<EmailRequest>,
    claimed: Seq<usize>,
    batch_size: usize,
    now: Timestamp,
)
    requires
        t0.len() <= usize::MAX,
        claim_outcome(t0, t1, claimed, batch_size, now),
    ensures
        steps_permitted(t0, t1),
{
    assert forall|i: int| 0 <= i < t0.len() && i < t1.len() implies #[trigger] t1[i].status
        == t0[i].status || permitted_transition(t0[i].status, t1[i].status) by {
        if claimed.contains(i as usize) {
            let k = choose|k: int| 0 <= k < claimed.len() && claimed[k] == i as usize;
            assert(crate::claim::is_due(t0[claimed[k] as int], now));
            assert(t1[i] == claimed_row(t0[i], now));
        }
    }
}

/// A reconciliation leaves every row as it was or moves it from Processing
/// to Sent or Failed.
pub proof fn lemma_reconcile_step_permitted(
    t1: Seq<EmailRequest>,
    t2: Seq<EmailRequest>,
    outcomes: Seq<(u128, PublishOutcome)>,
    now: Timestamp,
)
    requires
        reconcile_outcome(t1, t2, outcomes, now),
    ensures
        steps_permitted(t1, t2),
{
    assert forall|i: int| 0 <= i < t1.len() && i < t2.len() implies #[trigger] t2[i].status
        == t1[i].status || permitted_transition(t1[i].status, t2[i].status) by {
        if t2[i] != t1[i] {
            let k = choose|k: int|
                first_outcome_for(outcomes, k, t1[i].id) && t1[i].status is Processing && t2[i]
                    == reconciled_row(t1[i], outcomes[k].1, now);
            assert(t2[i].status == settled_status(outcomes[k].1));
        }
    }
}

/// Over a claim followed by a reconciliation, every row's status history is
/// a path through the permitted transitions: Created to Processing on claim,
/// Processing to Sent or Failed on reconciliation, and nothing else.
pub proof fn lemma_cycle_follows_state_machine(
    t0: Seq<EmailRequest>,
    t1: Seq<EmailRequest>,
    t2: Seq<EmailRequest>,
    claimed: Seq<usize>,
    batch_size: usize,
    claim_now: Timestamp,
    outcomes: Seq<(u128, PublishOutcome)>,
    reconcile_now: Timestamp,
)
    requires
        t0.len() <= usize::MAX,
        claim_outcome(t0, t1, claimed, batch_size, claim_now),
        reconcile_outcome(t1, t2, outcomes, reconcile_now),
    ensures
        steps_permitted(t0, t1),
        steps_permitted(t1, t2),
{
    lemma_claim_step_permitted(t0, t1, claimed, batch_size, claim_now);
    lemma_reconcile_step_permitted(t1, t2, outcomes, reconcile_now);
}

/// One step of the pipeline on the table: a claim or a reconciliation, by
/// any process, in any order.
#[verifier::opaque]
pub open spec fn pipeline_step(before: Seq<EmailRequest>, after: Seq<EmailRequest>) -> bool {
    ||| exists|c: Seq<usize>, b: usize, now: Timestamp| claim_outcome(before, after, c, b, now)
    ||| exists|o: Seq<(u128, PublishOutcome)>, now: Timestamp| reconcile_outcome(before, after, o, now)
}

/// A step keeps the table's rows and takes only permitted transitions.
pub proof fn lemma_step_permitted(before: Seq<EmailRequest>, after: Seq<EmailRequest>)
    requires
        before.len() <= usize::MAX,
        pipeline_step(before, after),
    ensures
        after.len() == before.len(),
        steps_permitted(before, after),
{
    reveal(pipeline_step);
    if exists|c: Seq<usize>, b: usize, now: Timestamp| claim_outcome(before, after, c, b, now) {
        let (c, b, now) = choose|c: Seq<usize>, b: usize, now: Timestamp| claim_outcome(before, after, c, b, now);
        lemma_claim_step_permitted(before, after, c, b, now);
    } else {
        let (o, now) = choose|o: Seq<(u128, PublishOutcome)>, now: Timestamp| reconcile_outcome(before, after, o, now);
        lemma_reconcile_step_permitted(before, after, o, now);
    }
}

/// A run of the pipeline: each table follows from the one before by a step.
pub open spec fn pipeline_run(tables: Seq<Seq<EmailRequest>>) -> bool {
    &&& tables.len() >= 1
    &&& tables[0].len() <= usize::MAX
    &&& forall|i: int| 0 <= i < tables.len() - 1 ==> pipeline_step(#[trigger] tables[i], tables[i + 1])
}

/// Over any run of claims and reconciliations, the table keeps its rows and
/// every row's status history is a path through the permitted transitions:
/// each step keeps a status or takes one permitted transition, a terminal
/// status never changes again, and no row returns to Created once it left.
pub proof fn lemma_run_follows_state_machine(tables: Seq<Seq<EmailRequest>>)
    requires
        pipeline_run(tables),
    ensures
        forall|i: int| 0 <= i < tables.len() ==> (#[trigger] tables[i]).len() == tables[0].len(),
        forall|i: int| 0 <= i < tables.len() - 1 ==> steps_permitted(#[trigger] tables[i], tables[i + 1]),
        forall|i: int, j: int, p: int|
            #![trigger tables[i][p], tables[j][p]]
            0 <= i <= j < tables.len() && 0 <= p < tables[0].len() ==> {
                &&& terminal(tables[i][p].status) ==> tables[j][p].status == tables[i][p].status
                &&& !(tables[i][p].status is Created) ==> !(tables[j][p].status is Created)
            },
    decreases tables.len(),
{
    if tables.len() == 1 {
        return;
    }
    let prefix = tables.drop_last();
    assert forall|i: int| 0 <= i < prefix.len() - 1 implies pipeline_step(#[trigger] prefix[i], prefix[i + 1]) by {
        assert(pipeline_step(tables[i], tables[i + 1]));
    }
    lemma_run_follows_state_machine(prefix);
    let n = tables.len() - 1;
    assert(pipeline_step(tables[n - 1], tables[n]));
    assert(tables[n - 1] == prefix[n - 1]);
    lemma_step_permitted(tables[n - 1], tables[n]);
    assert forall|i: int| 0 <= i < tables.len() implies (#[trigger] tables[i]).len() == tables[0].len() by {
        if i < n {
            assert(tables[i] == prefix[i]);
        }
    }
    assert forall|i: int| 0 <= i < tables.len() - 1 implies steps_permitted(#[trigger] tables[i], tables[i + 1]) by {
        if i < n - 1 {
            assert(tables[i] == prefix[i] && tables[i + 1] == prefix[i + 1]);
        }
    }
    assert forall|i: int, j: int, p: int|
        #![trigger tables[i][p], tables[j][p]]
        0 <= i <= j < tables.len() && 0 <= p < tables[0].len() implies {
            &&& terminal(tables[i][p].status) ==> tables[j][p].status == tables[i][p].status
            &&& !(tables[i][p].status is Created) ==> !(tables[j][p].status is Created)
        } by {
        if j < n {
            assert(tables[i] == prefix[i] && tables[j] == prefix[j]);
            assert(prefix[i][p] == tables[i][p] && prefix[j][p] == tables[j][p]);
        } else if i < n {
            assert(tables[i] == prefix[i] && tables[n - 1] == prefix[n - 1]);
            assert(prefix[i][p] == tables[i][p] && prefix[n - 1][p] == tables[n - 1][p]);
            assert(steps_permitted(tables[n - 1], tables[n]));
            assert(tables[n][p].status == tables[n - 1][p].status || permitted_transition(
                tables[n - 1][p].status,
                tables[n][p].status,
            ));
        }
    }
}

} // verus!
