use vstd::prelude::*;
use crate::ledger::{
    attempt_spec, entry_of, failure_spec, has_id, keys_unique, lemma_attempt_rows,
    lemma_outcome_rows, success_spec, Ledger, LedgerEntry, LedgerError,
};

verus! {

/// The ledger after the outcome of a publish of `id`: its new id on success,
/// one more retry on failure.
pub open spec fn outcome_spec(s: Seq<LedgerEntry>, id: i64, outcome: Option<i64>, now: i64) -> Seq<
    LedgerEntry,
> {
    match outcome {
        Some(n) => success_spec(s, id, n, now),
        None => failure_spec(s, id, now),
    }
}

/// Records the outcome of a publish of `id`, which must have been attempted.
pub fn record_outcome(ledger: &mut Ledger, id: i64, outcome: Option<i64>, now: i64) -> (r: Result<
    (),
    LedgerError,
>)
    requires
        old(ledger).wf(),
    ensures
        final(ledger).wf(),
        r is Err <==> !has_id(old(ledger)@, id),
        r is Ok ==> final(ledger)@ == outcome_spec(old(ledger)@, id, outcome, now),
        r is Err ==> final(ledger)@ == old(ledger)@,
{
    match outcome {
        Some(n) => ledger.record_success(id, n, now),
        None => ledger.record_failure(id, now),
    }
}

/// Records an attempt on `id` and its outcome, both at time `now`.
pub fn record_id_log(ledger: &mut Ledger, id: i64, outcome: Option<i64>, now: i64)
    requires
        old(ledger).wf(),
    ensures
        final(ledger).wf(),
        final(ledger)@ == outcome_spec(attempt_spec(old(ledger)@, id, now), id, outcome, now),
{
    ledger.record_attempt(id, now);
    proof {
        lemma_attempt_rows(old(ledger)@, id, now);
        assert(entry_of(ledger@, id) is Some);
    }
    let _ = record_outcome(ledger, id, outcome, now);
}

/// A message published as `new_id` after an attempt resolves to `new_id`
/// from then on, so a reply to it is sent as a reply to `new_id`.
pub proof fn lemma_reply_round_trip(s: Seq<LedgerEntry>, id: i64, new_id: i64, t1: i64, t2: i64)
    requires
        keys_unique(s),
        !(entry_of(s, id) matches Some(e) && e.new_id is Some),
    ensures
        entry_of(success_spec(attempt_spec(s, id, t1), id, new_id, t2), id) matches Some(e)
            && e.new_id == Some(new_id),
{
    lemma_attempt_rows(s, id, t1);
    let s1 = attempt_spec(s, id, t1);
    assert(entry_of(s1, id) is Some);
    lemma_outcome_rows(s1, id, new_id, t2);
}

} // verus!
