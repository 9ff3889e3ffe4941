use vstd::prelude::*;
use crate::ledger::{
    entry_of, has_id, is_next_pending, is_pending, keys_unique, lemma_index_of, no_pending,
    Ledger, LedgerEntry,
};

verus! {

/// The retry ceiling used when none is configured.
pub const DEFAULT_RETRY_CEILING: u64 = 4;

/// What the selector needs of an archived message: its id, the time it was
/// posted, and whether it is a service record with no user content.
#[derive(Clone, Copy, Debug, PartialEq, Eq, Structural)]
pub struct ArchiveEntry {
    pub id: i64,
    pub date: i64,
    pub service: bool,
}

/// A message that was never attempted and carries user content.
pub open spec fn is_vacant(a: ArchiveEntry, s: Seq<LedgerEntry>) -> bool {
    !a.service && !has_id(s, a.id)
}

pub open spec fn no_vacant(arch: Seq<ArchiveEntry>, s: Seq<LedgerEntry>) -> bool {
    forall|i: int| 0 <= i < arch.len() ==> !is_vacant(#[trigger] arch[i], s)
}

/// `id` is the id of a vacant message that no other vacant one predates.
pub open spec fn is_oldest_vacant(arch: Seq<ArchiveEntry>, s: Seq<LedgerEntry>, id: i64) -> bool {
    exists|i: int|
        0 <= i < arch.len() && arch[i].id == id && is_vacant(arch[i], s) && forall|j: int|
            0 <= j < arch.len() && is_vacant(#[trigger] arch[j], s) ==> arch[i].date
                <= arch[j].date
}

/// The oldest archived message that the ledger has never seen.
pub fn vacant_message_id(ledger: &Ledger, archive: &Vec<ArchiveEntry>) -> (r: Option<i64>)
    requires
        ledger.wf(),
    ensures
        r is None <==> no_vacant(archive@, ledger@),
        r matches Some(id) ==> is_oldest_vacant(archive@, ledger@, id),
{
    let n = archive.len();
    let mut best: Option<usize> = None;
    let mut i: usize = 0;
    while i < n
        invariant
            ledger.wf(),
            n == archive@.len(),
            i <= n,
            match best {
                Some(b) => b < i && is_vacant(archive@[b as int], ledger@) && forall|j: int|
                    0 <= j < i && is_vacant(#[trigger] archive@[j], ledger@) ==> archive@[b as int].date
                        <= archive@[j].date,
                None => forall|j: int| 0 <= j < i ==> !is_vacant(#[trigger] archive@[j], ledger@),
            },
        decreases n - i,
    {
        let a = archive[i];
        if !a.service && ledger.entry(a.id).is_none() {
            match best {
                None => {
                    best = Some(i);
                },
                Some(b) => {
                    if a.date < archive[b].date {
                        best = Some(i);
                    }
                },
            }
        }
        i = i + 1;
    }
    match best {
        Some(b) => Some(archive[b].id),
        None => None,
    }
}

/// The next message to attempt: a pending retry first, else the oldest vacant
/// message; `None` when both are exhausted.
pub fn next_message_id(ledger: &Ledger, archive: &Vec<ArchiveEntry>, ceiling: u64) -> (r: Option<
    i64,
>)
    requires
        ledger.wf(),
    ensures
        r is None <==> no_pending(ledger@, ceiling) && no_vacant(archive@, ledger@),
        r matches Some(id) ==> if no_pending(ledger@, ceiling) {
            is_oldest_vacant(archive@, ledger@, id)
        } else {
            is_next_pending(ledger@, ceiling, id)
        },
{
    match ledger.next_pending_id(ceiling) {
        Some(id) => Some(id),
        None => vacant_message_id(ledger, archive),
    }
}

/// When every content message of the archive has been published and the
/// ledger holds rows for archive messages only, nothing is left to select.
pub proof fn lemma_selector_exhausted(s: Seq<LedgerEntry>, arch: Seq<ArchiveEntry>, ceiling: u64)
    requires
        keys_unique(s),
        forall|i: int|
            0 <= i < arch.len() && !arch[i].service ==> (entry_of(s, #[trigger] arch[i].id) matches Some(
                e,
            ) && e.new_id is Some),
        forall|k: int|
            0 <= k < s.len() ==> exists|i: int|
                0 <= i < arch.len() && !arch[i].service && arch[i].id == #[trigger] s[k].old_id,
    ensures
        no_pending(s, ceiling),
        no_vacant(arch, s),
{
    assert forall|k: int| 0 <= k < s.len() implies !is_pending(#[trigger] s[k], ceiling) by {
        let i = choose|i: int| 0 <= i < arch.len() && !arch[i].service && arch[i].id == s[k].old_id;
        lemma_index_of(s, s[k].old_id, k);
        assert(entry_of(s, arch[i].id) matches Some(e) && e.new_id is Some);
    }
    assert forall|i: int| 0 <= i < arch.len() implies !is_vacant(#[trigger] arch[i], s) by {
        if !arch[i].service {
            assert(entry_of(s, arch[i].id) is Some);
        }
    }
}

} // verus!
