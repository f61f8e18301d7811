use vstd::prelude::*;
use crate::models::{due, EmailRequest};
use crate::status::EmailStatus;
use crate::time::Timestamp;

verus! {

/// Whether request `r` may be claimed at `now`.
pub open spec fn is_due(r: EmailRequest, now: Timestamp) -> bool {
    due(r.status, r.scheduled_at, now)
}

/// Requests without a scheduled time form the first group.
pub open spec fn schedule_rank(r: EmailRequest) -> int {
    if r.scheduled_at is None { 0 } else { 1 }
}

pub open spec fn schedule_key(r: EmailRequest) -> int {
    match r.scheduled_at {
        None => 0,
        Some(t) => t.ord_key(),
    }
}

/// Claim order: unscheduled requests first, then by scheduled time, then by
/// creation time, then by id. `claim_precedes(a, b)` holds when `a` comes no
/// later than `b`.
pub open spec fn claim_precedes(a: EmailRequest, b: EmailRequest) -> bool {
    let (ra, rb) = (schedule_rank(a), schedule_rank(b));
    let (sa, sb) = (schedule_key(a), schedule_key(b));
    let (ca, cb) = (a.created_at.ord_key(), b.created_at.ord_key());
    ||| ra < rb
    ||| ra == rb && sa < sb
    ||| ra == rb && sa == sb && ca < cb
    ||| ra == rb && sa == sb && ca == cb && a.id <= b.id
}

/// The row as the Claimer leaves it: Processing, stamped at `now`.
pub open spec fn claimed_row(r: EmailRequest, now: Timestamp) -> EmailRequest {
    EmailRequest { status: EmailStatus::Processing, updated_at: now, ..r }
}

/// What a claim of at most `batch_size` rows at `now` does to a table: it
/// takes the due rows first in claim order, marks exactly those Processing,
/// and returns their positions in that order.
pub open spec fn claim_outcome(
    before: Seq<EmailRequest>,
    after: Seq<EmailRequest>,
    claimed: Seq<usize>,
    batch_size: usize,
    now: Timestamp,
) -> bool {
    &&& after.len() == before.len()
    &&& claimed.len() <= batch_size
    &&& claimed.no_duplicates()
    &&& forall|k: int| 0 <= k < claimed.len() ==> claimed[k] < before.len()
    &&& forall|k: int| 0 <= k < claimed.len() ==> is_due(#[trigger] before[claimed[k] as int], now)
    &&& forall|i: int|
        0 <= i < before.len() ==> {
            if claimed.contains(i as usize) {
                after[i] == claimed_row(before[i], now)
            } else {
                after[i] == before[i]
            }
        }
    &&& forall|k1: int, k2: int|
        #![trigger claimed[k1], claimed[k2]]
        0 <= k1 < k2 < claimed.len() ==> claim_precedes(
            before[claimed[k1] as int],
            before[claimed[k2] as int],
        )
    &&& forall|i: int|
        0 <= i < before.len() && !claimed.contains(i as usize) && is_due(#[trigger] before[i], now)
            ==> claimed.len() == batch_size && forall|k: int|
            0 <= k < claimed.len() ==> claim_precedes(before[claimed[k] as int], before[i])
}

/// Whether `a` comes no later than `b` in claim order.
pub fn claims_no_later_than(a: &EmailRequest, b: &EmailRequest) -> (r: bool)
    ensures
        r == claim_precedes(*a, *b),
{
    match (&a.scheduled_at, &b.scheduled_at) {
        (None, Some(_)) => { return true; },
        (Some(_), None) => { return false; },
        (Some(x), Some(y)) => {
            if x.is_before(y) {
                return true;
            }
            if y.is_before(x) {
                return false;
            }
        },
        (None, None) => {},
    }
    if a.created_at.is_before(&b.created_at) {
        true
    } else if b.created_at.is_before(&a.created_at) {
        false
    } else {
        a.id <= b.id
    }
}

/// Claim order is total.
pub proof fn lemma_claim_order_total(a: EmailRequest, b: EmailRequest)
    ensures
        claim_precedes(a, b) || claim_precedes(b, a),
{
}

/// Claim order is transitive.
pub proof fn lemma_claim_order_transitive(a: EmailRequest, b: EmailRequest, c: EmailRequest)
    requires
        claim_precedes(a, b),
        claim_precedes(b, c),
    ensures
        claim_precedes(a, c),
{
}

/// Claims up to `batch_size` due rows of `rows` at `now`: the due rows are
/// taken in claim order, each is marked Processing with update time `now`,
/// and their positions are returned in claim order.
///
/// This is the claim protocol over a table held in memory. The embedding
/// process performs the same select-lock-update as one SQL statement
/// against the store; this function states and proves what that statement
/// must do.
pub fn claim_due(rows: &mut Vec<EmailRequest>, batch_size: usize, now: Timestamp) -> (claimed: Vec<
    usize,
>)
    ensures
        claim_outcome(old(rows)@, final(rows)@, claimed@, batch_size, now),
{
    let ghost orig = rows@;
    let mut claimed: Vec<usize> = Vec::new();
    while claimed.len() < batch_size
        invariant_except_break
            claimed.len() <= batch_size,
        invariant
            claimed.len() <= batch_size,
            rows@.len() == orig.len(),
            claimed@.no_duplicates(),
            forall|k: int| 0 <= k < claimed@.len() ==> claimed@[k] < orig.len(),
            forall|k: int| 0 <= k < claimed@.len() ==> is_due(#[trigger] orig[claimed@[k] as int], now),
            forall|i: int|
                0 <= i < orig.len() ==> {
                    if claimed@.contains(i as usize) {
                        rows@[i] == claimed_row(orig[i], now)
                    } else {
                        rows@[i] == orig[i]
                    }
                },
            forall|k1: int, k2: int|
                #![trigger claimed@[k1], claimed@[k2]]
                0 <= k1 < k2 < claimed@.len() ==> claim_precedes(
                    orig[claimed@[k1] as int],
                    orig[claimed@[k2] as int],
                ),
            forall|k: int, i: int|
                0 <= k < claimed@.len() && 0 <= i < orig.len() && !claimed@.contains(i as usize)
                    && is_due(#[trigger] orig[i], now) ==> claim_precedes(
                    #[trigger] orig[claimed@[k] as int],
                    orig[i],
                ),
        ensures
            claimed.len() < batch_size ==> forall|i: int|
                0 <= i < orig.len() && !claimed@.contains(i as usize) ==> !is_due(
                    #[trigger] orig[i],
                    now,
                ),
        decreases batch_size - claimed.len(),
    {
        let mut best: Option<usize> = None;
        let mut j: usize = 0;
        while j < rows.len()
            invariant
                j <= rows@.len(),
                rows@.len() == orig.len(),
                forall|i: int|
                    0 <= i < orig.len() ==> {
                        if claimed@.contains(i as usize) {
                            rows@[i] == claimed_row(orig[i], now)
                        } else {
                            rows@[i] == orig[i]
                        }
                    },
                best matches Some(b) ==> {
                    &&& b < j
                    &&& !claimed@.contains(b)
                    &&& is_due(orig[b as int], now)
                    &&& forall|i: int|
                        0 <= i < j && !claimed@.contains(i as usize) && is_due(
                            #[trigger] orig[i],
                            now,
                        ) ==> claim_precedes(orig[b as int], orig[i])
                },
                best is None ==> forall|i: int|
                    0 <= i < j && !claimed@.contains(i as usize) ==> !is_due(#[trigger] orig[i], now),
            decreases rows@.len() - j,
        {
            let ready = rows[j].is_ready_to_send(now);
            proof {
                if claimed@.contains(j) {
                    assert(rows@[j as int] == claimed_row(orig[j as int], now));
                }
            }
            if ready {
                match best {
                    None => {
                        best = Some(j);
                    },
                    Some(b) => {
                        if !claims_no_later_than(&rows[b], &rows[j]) {
                            proof {
                                lemma_claim_order_total(orig[b as int], orig[j as int]);
                                assert forall|i: int|
                                    0 <= i < j + 1 && !claimed@.contains(i as usize) && is_due(
                                        #[trigger] orig[i],
                                        now,
                                    ) implies claim_precedes(orig[j as int], orig[i]) by {
                                    if i < j {
                                        lemma_claim_order_transitive(
                                            orig[j as int],
                                            orig[b as int],
                                            orig[i],
                                        );
                                    }
                                }
                            }
                            best = Some(j);
                        }
                    },
                }
            }
            j = j + 1;
        }
        match best {
            None => {
                break;
            },
            Some(b) => {
                rows[b].status = EmailStatus::Processing;
                rows[b].updated_at = now;
                let ghost prev = claimed@;
                claimed.push(b);
                proof {
                    assert(rows@[b as int] == claimed_row(orig[b as int], now));
                    assert forall|i: int| 0 <= i < orig.len() implies (#[trigger] claimed@.contains(
                        i as usize,
                    ) <==> (prev.contains(i as usize) || i == b)) by {
                        if i == b {
                            assert(claimed@[claimed@.len() - 1] == b);
                        }
                        if prev.contains(i as usize) {
                            let k = choose|k: int| 0 <= k < prev.len() && prev[k] == i as usize;
                            assert(claimed@[k] == i as usize);
                        }
                    }
                }
            },
        }
    }
    claimed
}

/// The positions of the rows in Created.
pub open spec fn created_positions(t: Seq<EmailRequest>) -> Seq<usize> {
    Seq::new(t.len(), |i: int| i as usize).filter(|u: usize| t[u as int].status is Created)
}

/// Two claims against the same table (contending claimers are serialized by
/// the row locks) never return the same row, never return the same request
/// id when ids are the table's key, and together return no more rows than
/// were in Created to begin with.
pub proof fn lemma_claims_are_exclusive(
    t0: Seq<EmailRequest>,
    t1: Seq<EmailRequest>,
    t2: Seq<EmailRequest>,
    c1: Seq<usize>,
    c2: Seq<usize>,
    b1: usize,
    b2: usize,
    now1: Timestamp,
    now2: Timestamp,
)
    requires
        t0.len() <= usize::MAX,
        claim_outcome(t0, t1, c1, b1, now1),
        claim_outcome(t1, t2, c2, b2, now2),
    ensures
        forall|k1: int, k2: int|
            0 <= k1 < c1.len() && 0 <= k2 < c2.len() ==> #[trigger] c1[k1] != #[trigger] c2[k2],
        (forall|i: int, j: int|
            0 <= i < t0.len() && 0 <= j < t0.len() && i != j ==> #[trigger] t0[i].id != #[trigger] t0[j].id)
            ==> forall|k1: int, k2: int|
            0 <= k1 < c1.len() && 0 <= k2 < c2.len() ==> #[trigger] t0[c1[k1] as int].id
                != #[trigger] t0[c2[k2] as int].id,
        c1.len() + c2.len() <= created_positions(t0).len(),
{
    assert forall|k1: int, k2: int|
        0 <= k1 < c1.len() && 0 <= k2 < c2.len() implies #[trigger] c1[k1] != #[trigger] c2[k2] by {
        let p = c2[k2];
        assert(is_due(t1[p as int], now2));
        if c1[k1] == p {
            assert(c1.contains(p));
            assert(t1[p as int] == claimed_row(t0[p as int], now1));
        }
    }
    let both = c1 + c2;
    vstd::seq_lib::lemma_no_dup_in_concat(c1, c2);
    both.unique_seq_to_set();
    let created = created_positions(t0);
    let pred = |u: usize| t0[u as int].status is Created;
    let all = Seq::new(t0.len(), |i: int| i as usize);
    assert forall|u: usize| both.to_set().contains(u) implies created.to_set().contains(u) by {
        assert(both.contains(u));
        let k = choose|k: int| 0 <= k < both.len() && both[k] == u;
        if k < c1.len() {
            assert(c1[k] == u);
            assert(is_due(t0[u as int], now1));
        } else {
            assert(c2[k - c1.len()] == u);
            assert(is_due(t1[u as int], now2));
            if c1.contains(u) {
                let k1 = choose|k1: int| 0 <= k1 < c1.len() && c1[k1] == u;
                assert(c1[k1] != c2[k - c1.len()]);
            }
            assert(t1[u as int] == t0[u as int]);
        }
        assert((u as int) < t0.len());
        assert(all[u as int] == u);
        assert(pred(all[u as int]));
        assert(created.contains(u));
    }
    vstd::seq_lib::seq_to_set_is_finite(created);
    vstd::set_lib::lemma_len_subset(both.to_set(), created.to_set());
    created.lemma_cardinality_of_set();
}

/// The positions of the rows in Created, as a set.
pub open spec fn created_set(t: Seq<EmailRequest>) -> Set<usize> {
    created_positions(t).to_set()
}

proof fn lemma_created_member(t: Seq<EmailRequest>, p: usize)
    requires
        t.len() <= usize::MAX,
    ensures
        created_set(t).contains(p) <==> ((p as int) < t.len() && t[p as int].status is Created),
{
    let all = Seq::new(t.len(), |i: int| i as usize);
    let pred = |u: usize| t[u as int].status is Created;
    let created = created_positions(t);
    if (p as int) < t.len() && t[p as int].status is Created {
        assert(all[p as int] == p);
        assert(pred(all[p as int]));
        assert(created.contains(p));
    }
    if created.contains(p) {
        let k = choose|k: int| 0 <= k < created.len() && created[k] == p;
        Seq::new(t.len(), |i: int| i as usize).lemma_filter_contains_rev(
            |u: usize| t[u as int].status is Created,
            p,
        );
        assert(all.contains(p));
        let i = choose|i: int| 0 <= i < all.len() && all[i] == p;
        assert(all[i] == i as usize);
    }
}

/// A run of claims against one table: each table follows from the one
/// before by a claim. Contending claimers are serialized by the row locks,
/// so any interleaving of k claimers is such a run.
#[verifier::opaque]
pub open spec fn claim_run(
    tables: Seq<Seq<EmailRequest>>,
    claims: Seq<Seq<usize>>,
    sizes: Seq<usize>,
    nows: Seq<Timestamp>,
) -> bool {
    &&& tables.len() == claims.len() + 1
    &&& sizes.len() == claims.len()
    &&& nows.len() == claims.len()
    &&& tables[0].len() <= usize::MAX
    &&& forall|i: int|
        0 <= i < claims.len() ==> claim_outcome(#[trigger] tables[i], tables[i + 1], claims[i], sizes[i], nows[i])
}

proof fn lemma_run_step(
    tables: Seq<Seq<EmailRequest>>,
    claims: Seq<Seq<usize>>,
    sizes: Seq<usize>,
    nows: Seq<Timestamp>,
    i: int,
)
    requires
        claim_run(tables, claims, sizes, nows),
        0 <= i < claims.len(),
    ensures
        claim_outcome(tables[i], tables[i + 1], claims[i], sizes[i], nows[i]),
        tables.len() == claims.len() + 1,
{
    reveal(claim_run);
}

proof fn lemma_run_prefix(
    tables: Seq<Seq<EmailRequest>>,
    claims: Seq<Seq<usize>>,
    sizes: Seq<usize>,
    nows: Seq<Timestamp>,
    j: int,
)
    requires
        claim_run(tables, claims, sizes, nows),
        0 <= j <= claims.len(),
    ensures
        claim_run(tables.take(j + 1), claims.take(j), sizes.take(j), nows.take(j)),
{
    reveal(claim_run);
    let t = tables.take(j + 1);
    let c = claims.take(j);
    assert forall|i: int| 0 <= i < c.len() implies claim_outcome(
        #[trigger] t[i],
        t[i + 1],
        c[i],
        sizes.take(j)[i],
        nows.take(j)[i],
    ) by {
        assert(claim_outcome(tables[i], tables[i + 1], claims[i], sizes[i], nows[i]));
    }
}

/// All positions taken by a sequence of claims.
pub open spec fn claimed_set(claims: Seq<Seq<usize>>) -> Set<usize>
    decreases claims.len(),
{
    if claims.len() == 0 {
        Set::empty()
    } else {
        claimed_set(claims.drop_last()) + claims.last().to_set()
    }
}

/// How many positions a sequence of claims returned, in all.
pub open spec fn total_claimed(claims: Seq<Seq<usize>>) -> nat
    decreases claims.len(),
{
    if claims.len() == 0 {
        0
    } else {
        total_claimed(claims.drop_last()) + claims.last().len()
    }
}

proof fn lemma_claimed_set_covers(claims: Seq<Seq<usize>>, i: int, k: int)
    requires
        0 <= i < claims.len(),
        0 <= k < claims[i].len(),
    ensures
        claimed_set(claims).contains(claims[i][k]),
    decreases claims.len(),
{
    if i < claims.len() - 1 {
        lemma_claimed_set_covers(claims.drop_last(), i, k);
    } else {
        assert(claims.last().contains(claims[i][k]));
    }
}

proof fn lemma_claim_run_sets(
    tables: Seq<Seq<EmailRequest>>,
    claims: Seq<Seq<usize>>,
    sizes: Seq<usize>,
    nows: Seq<Timestamp>,
)
    requires
        claim_run(tables, claims, sizes, nows),
    ensures
        tables.len() == claims.len() + 1,
        tables[claims.len() as int].len() == tables[0].len(),
        tables[0].len() <= usize::MAX,
        claimed_set(claims).finite(),
        claimed_set(claims).len() == total_claimed(claims),
        claimed_set(claims).disjoint(created_set(tables[claims.len() as int])),
        claimed_set(claims).subset_of(created_set(tables[0])),
        created_set(tables[claims.len() as int]).subset_of(created_set(tables[0])),
        forall|p: usize|
            #[trigger] created_set(tables[claims.len() as int]).contains(p) ==> tables[claims.len() as int][p as int]
                == tables[0][p as int],
    decreases claims.len(),
{
    reveal(claim_run);
    let n = claims.len() as int;
    if n == 0 {
        return;
    }
    lemma_run_prefix(tables, claims, sizes, nows, n - 1);
    let tp = tables.take(n);
    let cp = claims.take(n - 1);
    lemma_claim_run_sets(tp, cp, sizes.take(n - 1), nows.take(n - 1));
    assert(cp == claims.drop_last());
    assert(tp[n - 1] == tables[n - 1]);
    assert(tp[0] == tables[0]);
    let before = tables[n - 1];
    let after = tables[n];
    let cl = claims[n - 1];
    lemma_run_step(tables, claims, sizes, nows, n - 1);
    let c_before = created_set(before);
    let c_after = created_set(after);
    let u_before = claimed_set(cp);
    assert forall|p: usize| cl.to_set().contains(p) implies c_before.contains(p) by {
        let k = choose|k: int| 0 <= k < cl.len() && cl[k] == p;
        assert(is_due(before[cl[k] as int], nows[n - 1]));
        lemma_created_member(before, p);
    }
    assert(c_after =~= c_before.difference(cl.to_set())) by {
        assert forall|p: usize| c_after.contains(p) <==> c_before.difference(cl.to_set()).contains(p) by {
            lemma_created_member(before, p);
            lemma_created_member(after, p);
            if (p as int) < before.len() {
                if cl.contains(p) {
                    assert(after[p as int] == claimed_row(before[p as int], nows[n - 1]));
                } else {
                    assert(after[p as int] == before[p as int]);
                }
            }
        }
    }
    cl.unique_seq_to_set();
    vstd::seq_lib::seq_to_set_is_finite(cl);
    assert(u_before.disjoint(cl.to_set()));
    vstd::set_lib::lemma_set_disjoint_lens(u_before, cl.to_set());
    assert(claimed_set(claims) == u_before + cl.to_set());
    assert forall|p: usize| #[trigger] c_after.contains(p) implies after[p as int] == tables[0][p as int] by {
        lemma_created_member(before, p);
        assert(c_before.contains(p));
        assert(tp[n - 1] == before);
        assert(!cl.contains(p));
        assert(after[p as int] == before[p as int]);
    }
}

/// Over any run of claims against one table (k claimers, serialized by the
/// row locks): no position is returned twice, within a claim or across
/// claims; with ids as the table's key, no request id is returned twice;
/// every claimed row was in Created and due when claimed; and all claims
/// together return no more rows than were in Created at the start.
pub proof fn lemma_claim_run_exclusive(
    tables: Seq<Seq<EmailRequest>>,
    claims: Seq<Seq<usize>>,
    sizes: Seq<usize>,
    nows: Seq<Timestamp>,
)
    requires
        claim_run(tables, claims, sizes, nows),
    ensures
        forall|i: int, j: int, k1: int, k2: int|
            0 <= i < j < claims.len() && 0 <= k1 < claims[i].len() && 0 <= k2 < claims[j].len()
                ==> #[trigger] claims[i][k1] != #[trigger] claims[j][k2],
        forall|i: int| 0 <= i < claims.len() ==> (#[trigger] claims[i]).no_duplicates(),
        (forall|a: int, b: int|
            0 <= a < tables[0].len() && 0 <= b < tables[0].len() && a != b ==> #[trigger] tables[0][a].id
                != #[trigger] tables[0][b].id) ==> forall|i: int, j: int, k1: int, k2: int|
            0 <= i < claims.len() && 0 <= j < claims.len() && 0 <= k1 < claims[i].len() && 0 <= k2
                < claims[j].len() && (i != j || k1 != k2) ==> #[trigger] tables[0][claims[i][k1] as int].id
                != #[trigger] tables[0][claims[j][k2] as int].id,
        forall|i: int, k: int|
            0 <= i < claims.len() && 0 <= k < claims[i].len() ==> tables[0][#[trigger] claims[i][k] as int].status is Created
                && is_due(tables[i][claims[i][k] as int], nows[i]),
        total_claimed(claims) <= created_positions(tables[0]).len(),
{
    lemma_claim_run_sets(tables, claims, sizes, nows);
    let c0 = created_set(tables[0]);
    vstd::seq_lib::seq_to_set_is_finite(created_positions(tables[0]));
    vstd::set_lib::lemma_len_subset(claimed_set(claims), c0);
    created_positions(tables[0]).lemma_cardinality_of_set();
    assert forall|i: int| 0 <= i < claims.len() implies (#[trigger] claims[i]).no_duplicates() by {
        lemma_run_step(tables, claims, sizes, nows, i);
    }
    assert forall|i: int, k: int| 0 <= i < claims.len() && 0 <= k < claims[i].len() implies tables[0][
        #[trigger] claims[i][k] as int].status is Created && is_due(tables[i][claims[i][k] as int], nows[i]) by {
        let p = claims[i][k];
        lemma_run_step(tables, claims, sizes, nows, i);
        assert(is_due(tables[i][claims[i][k] as int], nows[i]));
        lemma_run_prefix(tables, claims, sizes, nows, i);
        lemma_claim_run_sets(tables.take(i + 1), claims.take(i), sizes.take(i), nows.take(i));
        assert(tables.take(i + 1)[i] == tables[i]);
        assert(tables.take(i + 1)[0] == tables[0]);
        lemma_created_member(tables[i], p);
        lemma_created_member(tables[0], p);
    }
    assert forall|i: int, j: int, k1: int, k2: int|
        0 <= i < j < claims.len() && 0 <= k1 < claims[i].len() && 0 <= k2 < claims[j].len() implies #[trigger] claims[i][k1]
        != #[trigger] claims[j][k2] by {
        lemma_run_prefix(tables, claims, sizes, nows, j);
        lemma_claim_run_sets(tables.take(j + 1), claims.take(j), sizes.take(j), nows.take(j));
        assert(claims.take(j)[i] == claims[i]);
        lemma_claimed_set_covers(claims.take(j), i, k1);
        lemma_run_step(tables, claims, sizes, nows, j);
        let p = claims[j][k2];
        assert(is_due(tables[j][p as int], nows[j]));
        assert(tables.take(j + 1)[j] == tables[j]);
        assert(tables.take(j + 1)[0] == tables[0]);
        lemma_created_member(tables[j], p);
    }
    if forall|a: int, b: int|
        0 <= a < tables[0].len() && 0 <= b < tables[0].len() && a != b ==> #[trigger] tables[0][a].id
            != #[trigger] tables[0][b].id {
        assert forall|i: int, j: int, k1: int, k2: int|
            0 <= i < claims.len() && 0 <= j < claims.len() && 0 <= k1 < claims[i].len() && 0 <= k2
                < claims[j].len() && (i != j || k1 != k2) implies #[trigger] tables[0][claims[i][k1] as int].id
            != #[trigger] tables[0][claims[j][k2] as int].id by {
            lemma_run_step(tables, claims, sizes, nows, i);
            lemma_run_step(tables, claims, sizes, nows, j);
            if i == j {
                assert(claims[i].no_duplicates());
            } else if i < j {
                assert(claims[i][k1] != claims[j][k2]);
            } else {
                assert(claims[j][k2] != claims[i][k1]);
            }
            lemma_run_prefix(tables, claims, sizes, nows, i);
            lemma_claim_run_sets(tables.take(i + 1), claims.take(i), sizes.take(i), nows.take(i));
            assert(tables.take(i + 1)[i] == tables[i]);
            assert(tables.take(i + 1)[0] == tables[0]);
            assert(tables[i].len() == tables[0].len());
            lemma_run_prefix(tables, claims, sizes, nows, j);
            lemma_claim_run_sets(tables.take(j + 1), claims.take(j), sizes.take(j), nows.take(j));
            assert(tables.take(j + 1)[j] == tables[j]);
            assert(tables.take(j + 1)[0] == tables[0]);
            assert(tables[j].len() == tables[0].len());
        }
    }
}

/// Within a run of claims, a row in Created at a later claim was in Created
/// at every earlier one.
proof fn lemma_created_persists_back(
    tables: Seq<Seq<EmailRequest>>,
    claims: Seq<Seq<usize>>,
    sizes: Seq<usize>,
    nows: Seq<Timestamp>,
    i: int,
    j: int,
    p: usize,
)
    requires
        claim_run(tables, claims, sizes, nows),
        0 <= i <= j <= claims.len(),
        (p as int) < tables[j].len(),
        tables[j][p as int].status is Created,
    ensures
        (p as int) < tables[i].len(),
        tables[i][p as int].status is Created,
    decreases j - i,
{
    if i < j {
        lemma_run_step(tables, claims, sizes, nows, j - 1);
        let before = tables[j - 1];
        let after = tables[j];
        if claims[j - 1].contains(p) {
            assert(after[p as int] == claimed_row(before[p as int], nows[j - 1]));
        }
        lemma_created_persists_back(tables, claims, sizes, nows, i, j - 1, p);
    }
}

/// In a run of claims where every row in Created at the start is due at
/// every claim (scheduled at or before each claim's time, or unscheduled),
/// the rows are claimed in claim order across the whole run: each claimed
/// row precedes every row claimed after it, in the same batch or a later
/// one.
pub proof fn lemma_claim_run_ordered(
    tables: Seq<Seq<EmailRequest>>,
    claims: Seq<Seq<usize>>,
    sizes: Seq<usize>,
    nows: Seq<Timestamp>,
)
    requires
        claim_run(tables, claims, sizes, nows),
        forall|i: int, p: int|
            0 <= i < claims.len() && 0 <= p < tables[0].len() && tables[0][p].status is Created ==> is_due(
                #[trigger] tables[0][p],
                #[trigger] nows[i],
            ),
    ensures
        forall|i: int, j: int, k1: int, k2: int|
            0 <= i <= j < claims.len() && 0 <= k1 < claims[i].len() && 0 <= k2 < claims[j].len() && (i < j
                || k1 < k2) ==> claim_precedes(
                tables[0][#[trigger] claims[i][k1] as int],
                tables[0][#[trigger] claims[j][k2] as int],
            ),
{
    assert forall|i: int, j: int, k1: int, k2: int|
        0 <= i <= j < claims.len() && 0 <= k1 < claims[i].len() && 0 <= k2 < claims[j].len() && (i < j
            || k1 < k2) implies claim_precedes(
        tables[0][#[trigger] claims[i][k1] as int],
        tables[0][#[trigger] claims[j][k2] as int],
    ) by {
        let p = claims[i][k1];
        let q = claims[j][k2];
        lemma_run_step(tables, claims, sizes, nows, i);
        lemma_run_step(tables, claims, sizes, nows, j);
        lemma_run_prefix(tables, claims, sizes, nows, i);
        lemma_claim_run_sets(tables.take(i + 1), claims.take(i), sizes.take(i), nows.take(i));
        assert(tables.take(i + 1)[i] == tables[i]);
        assert(tables.take(i + 1)[0] == tables[0]);
        assert(is_due(tables[i][p as int], nows[i]));
        lemma_created_member(tables[i], p);
        assert(tables[i][p as int] == tables[0][p as int]);
        if i == j {
            assert(is_due(tables[i][q as int], nows[i]));
            lemma_created_member(tables[i], q);
            assert(tables[i][q as int] == tables[0][q as int]);
        } else {
            lemma_run_step(tables, claims, sizes, nows, j);
            assert(is_due(tables[j][q as int], nows[j]));
            lemma_created_persists_back(tables, claims, sizes, nows, i + 1, j, q);
            lemma_created_persists_back(tables, claims, sizes, nows, i, j, q);
            lemma_created_member(tables[i], q);
            assert(tables[i][q as int] == tables[0][q as int]);
            assert(is_due(tables[0][q as int], nows[i]));
            if claims[i].contains(q) {
                assert(tables[i + 1][q as int] == claimed_row(tables[i][q as int], nows[i]));
            }
            assert(!claims[i].contains(q));
            assert(is_due(tables[i][q as int], nows[i]));
        }
    }
}

} // verus!
