use vstd::prelude::*;

verus! {

/// One row of the migration ledger: the fate of one archived message.
#[derive(Clone, Copy, Debug)]
pub struct LedgerEntry {
    pub old_id: i64,
    pub new_id: Option<i64>,
    pub retries: u64,
    pub updated_at: i64,
}

/// Errors of the ledger's write operations.
#[derive(Clone, Copy, Debug, PartialEq, Eq, Structural)]
pub enum LedgerError {
    /// The id was never attempted, so it has no row.
    NotFound,
}

/// The persistent mapping from archived ids to published ids, with retry
/// bookkeeping. Rows are kept in the order in which they were created.
pub struct Ledger {
    entries: Vec<LedgerEntry>,
}

pub open spec fn has_id(s: Seq<LedgerEntry>, id: i64) -> bool {
    exists|i: int| 0 <= i < s.len() && s[i].old_id == id
}

/// Row keys are unique.
pub open spec fn keys_unique(s: Seq<LedgerEntry>) -> bool {
    forall|i: int, j: int|
        0 <= i < s.len() && 0 <= j < s.len() && s[i].old_id == s[j].old_id ==> i == j
}

/// The position of the row of `id` (meaningful when `has_id(s, id)`).
pub open spec fn index_of(s: Seq<LedgerEntry>, id: i64) -> int {
    choose|i: int| 0 <= i < s.len() && s[i].old_id == id
}

/// The row of `id`, if there is one.
pub open spec fn entry_of(s: Seq<LedgerEntry>, id: i64) -> Option<LedgerEntry> {
    if has_id(s, id) {
        Some(s[index_of(s, id)])
    } else {
        None
    }
}

/// The ledger after an attempt on `id` at time `now`: a fresh row, or the
/// existing row with only its timestamp advanced.
pub open spec fn attempt_spec(s: Seq<LedgerEntry>, id: i64, now: i64) -> Seq<LedgerEntry> {
    if has_id(s, id) {
        let i = index_of(s, id);
        s.update(i, LedgerEntry { updated_at: now, ..s[i] })
    } else {
        s.push(LedgerEntry { old_id: id, new_id: None, retries: 0, updated_at: now })
    }
}

/// The ledger after a successful publish of `id` as `new_id`; a row whose
/// new id is already set keeps it.
pub open spec fn success_spec(s: Seq<LedgerEntry>, id: i64, new_id: i64, now: i64) -> Seq<
    LedgerEntry,
> {
    let i = index_of(s, id);
    let e = s[i];
    s.update(
        i,
        LedgerEntry {
            new_id: if e.new_id is Some {
                e.new_id
            } else {
                Some(new_id)
            },
            updated_at: now,
            ..e
        },
    )
}

/// One more retry, stopping at the largest count that the type holds.
pub open spec fn bump(r: u64) -> u64 {
    if r == u64::MAX {
        r
    } else {
        (r + 1) as u64
    }
}

/// The ledger after a failed publish of `id`.
pub open spec fn failure_spec(s: Seq<LedgerEntry>, id: i64, now: i64) -> Seq<LedgerEntry> {
    let i = index_of(s, id);
    let e = s[i];
    s.update(i, LedgerEntry { retries: bump(e.retries), updated_at: now, ..e })
}

/// A row that still waits for a publish and is under the retry ceiling.
pub open spec fn is_pending(e: LedgerEntry, ceiling: u64) -> bool {
    e.new_id is None && e.retries <= ceiling
}

/// `a` comes no later than `b`: older first, then fewer retries.
pub open spec fn pending_le(a: LedgerEntry, b: LedgerEntry) -> bool {
    a.updated_at < b.updated_at || (a.updated_at == b.updated_at && a.retries <= b.retries)
}

pub open spec fn no_pending(s: Seq<LedgerEntry>, ceiling: u64) -> bool {
    forall|i: int| 0 <= i < s.len() ==> !is_pending(#[trigger] s[i], ceiling)
}

/// `id` is the id of a pending row that no other pending row precedes.
pub open spec fn is_next_pending(s: Seq<LedgerEntry>, ceiling: u64, id: i64) -> bool {
    exists|i: int|
        0 <= i < s.len() && s[i].old_id == id && is_pending(s[i], ceiling) && forall|j: int|
            0 <= j < s.len() && is_pending(#[trigger] s[j], ceiling) ==> pending_le(s[i], s[j])
}

pub proof fn lemma_index_of(s: Seq<LedgerEntry>, id: i64, i: int)
    requires
        keys_unique(s),
        0 <= i < s.len(),
        s[i].old_id == id,
    ensures
        has_id(s, id),
        index_of(s, id) == i,
        entry_of(s, id) == Some(s[i]),
{
    assert(has_id(s, id));
}

proof fn lemma_entry_of_update(s: Seq<LedgerEntry>, i: int, e: LedgerEntry)
    requires
        keys_unique(s),
        0 <= i < s.len(),
        e.old_id == s[i].old_id,
    ensures
        keys_unique(s.update(i, e)),
        forall|x: i64|
            #[trigger] entry_of(s.update(i, e), x) == if x == e.old_id {
                Some(e)
            } else {
                entry_of(s, x)
            },
{
    let t = s.update(i, e);
    assert(keys_unique(t));
    assert forall|x: i64|
        #[trigger] entry_of(t, x) == if x == e.old_id {
            Some(e)
        } else {
            entry_of(s, x)
        } by {
        if x == e.old_id {
            lemma_index_of(t, x, i);
        } else if has_id(s, x) {
            let k = index_of(s, x);
            lemma_index_of(s, x, k);
            lemma_index_of(t, x, k);
        } else {
            if has_id(t, x) {
                let k = index_of(t, x);
                assert(s[k].old_id == x);
            }
        }
    }
}

proof fn lemma_entry_of_push(s: Seq<LedgerEntry>, e: LedgerEntry)
    requires
        keys_unique(s),
        !has_id(s, e.old_id),
    ensures
        keys_unique(s.push(e)),
        forall|x: i64|
            #[trigger] entry_of(s.push(e), x) == if x == e.old_id {
                Some(e)
            } else {
                entry_of(s, x)
            },
{
    let t = s.push(e);
    assert forall|a: int, b: int|
        0 <= a < t.len() && 0 <= b < t.len() && t[a].old_id == t[b].old_id implies a == b by {
        if a < s.len() && b == s.len() {
            assert(s[a].old_id == e.old_id);
        } else if b < s.len() && a == s.len() {
            assert(s[b].old_id == e.old_id);
        }
    }
    assert forall|x: i64|
        #[trigger] entry_of(t, x) == if x == e.old_id {
            Some(e)
        } else {
            entry_of(s, x)
        } by {
        if x == e.old_id {
            lemma_index_of(t, x, s.len() as int);
        } else if has_id(s, x) {
            let k = index_of(s, x);
            lemma_index_of(s, x, k);
            lemma_index_of(t, x, k);
        } else {
            if has_id(t, x) {
                let k = index_of(t, x);
                assert(s[k].old_id == x);
            }
        }
    }
}

/// What an attempt does to each row: the row of `id` exists afterwards, with
/// its earlier new id and retries, and no other row changes.
pub proof fn lemma_attempt_rows(s: Seq<LedgerEntry>, id: i64, now: i64)
    requires
        keys_unique(s),
    ensures
        keys_unique(attempt_spec(s, id, now)),
        attempt_spec(s, id, now).len() == s.len() + if has_id(s, id) { 0int } else { 1int },
        forall|x: i64|
            #[trigger] entry_of(attempt_spec(s, id, now), x) == if x == id {
                Some(
                    match entry_of(s, id) {
                        Some(e) => LedgerEntry { updated_at: now, ..e },
                        None => LedgerEntry { old_id: id, new_id: None, retries: 0, updated_at: now },
                    },
                )
            } else {
                entry_of(s, x)
            },
{
    if has_id(s, id) {
        let i = index_of(s, id);
        lemma_entry_of_update(s, i, LedgerEntry { updated_at: now, ..s[i] });
    } else {
        lemma_entry_of_push(s, LedgerEntry { old_id: id, new_id: None, retries: 0, updated_at: now });
    }
}

/// Recording an attempt twice for one id leaves exactly one row for it: the
/// second call adds no row, and keys stay unique.
pub proof fn lemma_attempt_idempotent(s: Seq<LedgerEntry>, id: i64, t1: i64, t2: i64)
    requires
        keys_unique(s),
    ensures
        keys_unique(attempt_spec(attempt_spec(s, id, t1), id, t2)),
        attempt_spec(attempt_spec(s, id, t1), id, t2).len() == attempt_spec(s, id, t1).len(),
        has_id(attempt_spec(attempt_spec(s, id, t1), id, t2), id),
{
    let s1 = attempt_spec(s, id, t1);
    lemma_attempt_rows(s, id, t1);
    assert(entry_of(s1, id) is Some);
    lemma_attempt_rows(s1, id, t2);
    assert(entry_of(attempt_spec(s1, id, t2), id) is Some);
}

/// What a success or a failure does to each row: only the row of `id` changes.
pub proof fn lemma_outcome_rows(s: Seq<LedgerEntry>, id: i64, new_id: i64, now: i64)
    requires
        keys_unique(s),
        has_id(s, id),
    ensures
        keys_unique(success_spec(s, id, new_id, now)),
        keys_unique(failure_spec(s, id, now)),
        forall|x: i64|
            #[trigger] entry_of(success_spec(s, id, new_id, now), x) == if x == id {
                Some(
                    LedgerEntry {
                        new_id: if entry_of(s, id)->0.new_id is Some {
                            entry_of(s, id)->0.new_id
                        } else {
                            Some(new_id)
                        },
                        updated_at: now,
                        ..entry_of(s, id)->0
                    },
                )
            } else {
                entry_of(s, x)
            },
        forall|x: i64|
            #[trigger] entry_of(failure_spec(s, id, now), x) == if x == id {
                Some(
                    LedgerEntry {
                        retries: bump(entry_of(s, id)->0.retries),
                        updated_at: now,
                        ..entry_of(s, id)->0
                    },
                )
            } else {
                entry_of(s, x)
            },
{
    let i = index_of(s, id);
    lemma_index_of(s, id, i);
    let e = s[i];
    lemma_entry_of_update(
        s,
        i,
        LedgerEntry {
            new_id: if e.new_id is Some {
                e.new_id
            } else {
                Some(new_id)
            },
            updated_at: now,
            ..e
        },
    );
    lemma_entry_of_update(s, i, LedgerEntry { retries: bump(e.retries), updated_at: now, ..e });
}

/// Once a row has a new id, no attempt, success or failure changes it.
pub proof fn lemma_new_id_stable(
    s: Seq<LedgerEntry>,
    x: i64,
    id: i64,
    new_id: i64,
    now: i64,
)
    requires
        keys_unique(s),
        entry_of(s, x) matches Some(e) && e.new_id is Some,
    ensures
        entry_of(attempt_spec(s, id, now), x)->0.new_id == entry_of(s, x)->0.new_id,
        has_id(s, id) ==> entry_of(success_spec(s, id, new_id, now), x)->0.new_id == entry_of(
            s,
            x,
        )->0.new_id,
        has_id(s, id) ==> entry_of(failure_spec(s, id, now), x)->0.new_id == entry_of(
            s,
            x,
        )->0.new_id,
{
    lemma_attempt_rows(s, id, now);
    assert(entry_of(attempt_spec(s, id, now), x) is Some);
    if has_id(s, id) {
        lemma_outcome_rows(s, id, new_id, now);
        assert(entry_of(success_spec(s, id, new_id, now), x) is Some);
        assert(entry_of(failure_spec(s, id, now), x) is Some);
    }
}

/// Retries never go down: no attempt, success or failure lowers a row's
/// count, a failure raises its own row's count by one (below the largest
/// count the type holds), and a success leaves every count as it was.
pub proof fn lemma_retries_monotone(
    s: Seq<LedgerEntry>,
    x: i64,
    id: i64,
    new_id: i64,
    now: i64,
)
    requires
        keys_unique(s),
        has_id(s, x),
    ensures
        entry_of(attempt_spec(s, id, now), x)->0.retries >= entry_of(s, x)->0.retries,
        has_id(s, id) ==> entry_of(failure_spec(s, id, now), x)->0.retries >= entry_of(
            s,
            x,
        )->0.retries,
        has_id(s, id) ==> entry_of(success_spec(s, id, new_id, now), x)->0.retries == entry_of(
            s,
            x,
        )->0.retries,
        x == id && entry_of(s, x)->0.retries < u64::MAX ==> entry_of(failure_spec(s, id, now), x)->0.retries
            == entry_of(s, x)->0.retries + 1,
{
    lemma_attempt_rows(s, id, now);
    assert(entry_of(attempt_spec(s, id, now), x) is Some);
    if has_id(s, id) {
        lemma_outcome_rows(s, id, new_id, now);
        assert(entry_of(success_spec(s, id, new_id, now), x) is Some);
        assert(entry_of(failure_spec(s, id, now), x) is Some);
    }
}

/// The id chosen for a retry never belongs to a row over the ceiling, nor to
/// one already published.
pub proof fn lemma_next_pending_under_ceiling(s: Seq<LedgerEntry>, ceiling: u64, id: i64)
    requires
        keys_unique(s),
        is_next_pending(s, ceiling, id),
    ensures
        entry_of(s, id) matches Some(e) && e.retries <= ceiling && e.new_id is None,
{
    let i = choose|i: int|
        0 <= i < s.len() && s[i].old_id == id && is_pending(s[i], ceiling) && forall|j: int|
            0 <= j < s.len() && is_pending(#[trigger] s[j], ceiling) ==> pending_le(s[i], s[j]);
    lemma_index_of(s, id, i);
}

impl Ledger {
    pub closed spec fn view(&self) -> Seq<LedgerEntry> {
        self.entries@
    }

    pub open spec fn wf(&self) -> bool {
        keys_unique(self@)
    }

    /// An empty ledger.
    pub fn new() -> (r: Ledger)
        ensures
            r.wf(),
            r@ == Seq::<LedgerEntry>::empty(),
    {
        Ledger { entries: Vec::new() }
    }

    /// Rebuilds a ledger from stored rows; `None` when two rows share a key.
    pub fn from_entries(rows: Vec<LedgerEntry>) -> (r: Option<Ledger>)
        ensures
            match r {
                Some(l) => l.wf() && l@ == rows@,
                None => !keys_unique(rows@),
            },
    {
        let n = rows.len();
        let mut i: usize = 0;
        while i < n
            invariant
                n == rows@.len(),
                i <= n,
                forall|a: int, b: int|
                    0 <= a < i && 0 <= b < n && rows@[a].old_id == rows@[b].old_id ==> a == b,
            decreases n - i,
        {
            let mut j: usize = 0;
            while j < n
                invariant
                    n == rows@.len(),
                    i < n,
                    j <= n,
                    forall|a: int, b: int|
                        0 <= a < i && 0 <= b < n && rows@[a].old_id == rows@[b].old_id ==> a
                            == b,
                    forall|b: int| 0 <= b < j && rows@[i as int].old_id == rows@[b].old_id ==> b == i,
                decreases n - j,
            {
                if j != i && rows[i].old_id == rows[j].old_id {
                    return None;
                }
                j = j + 1;
            }
            i = i + 1;
        }
        Some(Ledger { entries: rows })
    }

    /// The rows, in creation order.
    pub fn entries(&self) -> (r: &Vec<LedgerEntry>)
        ensures
            r@ == self@,
    {
        &self.entries
    }

    fn position(&self, id: i64) -> (r: Option<usize>)
        requires
            self.wf(),
        ensures
            match r {
                Some(i) => i < self@.len() && self@[i as int].old_id == id && index_of(self@, id)
                    == i && has_id(self@, id),
                None => !has_id(self@, id),
            },
    {
        let n = self.entries.len();
        let mut i: usize = 0;
        while i < n
            invariant
                self.wf(),
                n == self@.len(),
                i <= n,
                forall|j: int| 0 <= j < i ==> self@[j].old_id != id,
            decreases n - i,
        {
            if self.entries[i].old_id == id {
                proof {
                    lemma_index_of(self@, id, i as int);
                }
                return Some(i);
            }
            i = i + 1;
        }
        None
    }

    /// The row of `id`, if it was ever attempted.
    pub fn entry(&self, id: i64) -> (r: Option<LedgerEntry>)
        requires
            self.wf(),
        ensures
            r == entry_of(self@, id),
    {
        match self.position(id) {
            Some(i) => Some(self.entries[i]),
            None => None,
        }
    }

    /// Makes sure `id` has a row, created with no new id and no retries, and
    /// stamps it with `now`.
    pub fn record_attempt(&mut self, id: i64, now: i64)
        requires
            old(self).wf(),
        ensures
            final(self).wf(),
            final(self)@ == attempt_spec(old(self)@, id, now),
            forall|x: i64|
                #[trigger] entry_of(final(self)@, x) == if x == id {
                    Some(
                        match entry_of(old(self)@, id) {
                            Some(e) => LedgerEntry { updated_at: now, ..e },
                            None => LedgerEntry {
                                old_id: id,
                                new_id: None,
                                retries: 0,
                                updated_at: now,
                            },
                        },
                    )
                } else {
                    entry_of(old(self)@, x)
                },
    {
        proof {
            lemma_attempt_rows(old(self)@, id, now);
        }
        match self.position(id) {
            Some(i) => {
                let e = self.entries[i];
                self.entries.set(i, LedgerEntry { updated_at: now, ..e });
            },
            None => {
                self.entries.push(
                    LedgerEntry { old_id: id, new_id: None, retries: 0, updated_at: now },
                );
            },
        }
    }

    /// Records that `id` was published as `new_id`. A row whose new id is
    /// already set keeps it. Fails when `id` has no row.
    pub fn record_success(&mut self, id: i64, new_id: i64, now: i64) -> (r: Result<(), LedgerError>)
        requires
            old(self).wf(),
        ensures
            final(self).wf(),
            r is Err <==> !has_id(old(self)@, id),
            r is Ok ==> final(self)@ == success_spec(old(self)@, id, new_id, now),
            r is Ok ==> forall|x: i64|
                #[trigger] entry_of(final(self)@, x) == if x == id {
                    Some(
                        LedgerEntry {
                            new_id: if entry_of(old(self)@, id)->0.new_id is Some {
                                entry_of(old(self)@, id)->0.new_id
                            } else {
                                Some(new_id)
                            },
                            updated_at: now,
                            ..entry_of(old(self)@, id)->0
                        },
                    )
                } else {
                    entry_of(old(self)@, x)
                },
            r is Err ==> final(self)@ == old(self)@,
    {
        proof {
            if has_id(old(self)@, id) {
                lemma_outcome_rows(old(self)@, id, new_id, now);
            }
        }
        match self.position(id) {
            Some(i) => {
                let e = self.entries[i];
                let n = match e.new_id {
                    Some(x) => Some(x),
                    None => Some(new_id),
                };
                self.entries.set(i, LedgerEntry { new_id: n, updated_at: now, ..e });
                Ok(())
            },
            None => Err(LedgerError::NotFound),
        }
    }

    /// Records a failed publish of `id`: one more retry, stamped `now`.
    /// Fails when `id` has no row.
    pub fn record_failure(&mut self, id: i64, now: i64) -> (r: Result<(), LedgerError>)
        requires
            old(self).wf(),
        ensures
            final(self).wf(),
            r is Err <==> !has_id(old(self)@, id),
            r is Ok ==> final(self)@ == failure_spec(old(self)@, id, now),
            r is Ok ==> forall|x: i64|
                #[trigger] entry_of(final(self)@, x) == if x == id {
                    Some(
                        LedgerEntry {
                            retries: bump(entry_of(old(self)@, id)->0.retries),
                            updated_at: now,
                            ..entry_of(old(self)@, id)->0
                        },
                    )
                } else {
                    entry_of(old(self)@, x)
                },
            r is Err ==> final(self)@ == old(self)@,
    {
        proof {
            if has_id(old(self)@, id) {
                lemma_outcome_rows(old(self)@, id, 0, now);
            }
        }
        match self.position(id) {
            Some(i) => {
                let e = self.entries[i];
                let k = if e.retries == u64::MAX {
                    e.retries
                } else {
                    e.retries + 1
                };
                self.entries.set(i, LedgerEntry { retries: k, updated_at: now, ..e });
                Ok(())
            },
            None => Err(LedgerError::NotFound),
        }
    }

    /// The new id that `id` was published as, if any.
    pub fn resolve_new_id(&self, id: i64) -> (r: Option<i64>)
        requires
            self.wf(),
        ensures
            r == (match entry_of(self@, id) {
                Some(e) => e.new_id,
                None => None,
            }),
    {
        match self.position(id) {
            Some(i) => self.entries[i].new_id,
            None => None,
        }
    }

    /// The pending row to retry next: the oldest by update time, then the one
    /// with fewest retries, among rows with no new id and at most `ceiling`
    /// retries.
    pub fn next_pending_id(&self, ceiling: u64) -> (r: Option<i64>)
        ensures
            r is None <==> no_pending(self@, ceiling),
            r matches Some(id) ==> is_next_pending(self@, ceiling, id),
    {
        let s = Ghost(self@);
        let n = self.entries.len();
        let mut best: Option<usize> = None;
        let mut i: usize = 0;
        while i < n
            invariant
                n == s@.len(),
                s@ == self@,
                i <= n,
                match best {
                    Some(b) => b < i && is_pending(s@[b as int], ceiling) && forall|j: int|
                        0 <= j < i && is_pending(#[trigger] s@[j], ceiling) ==> pending_le(
                            s@[b as int],
                            s@[j],
                        ),
                    None => forall|j: int| 0 <= j < i ==> !is_pending(#[trigger] s@[j], ceiling),
                },
            decreases n - i,
        {
            let e = self.entries[i];
            if e.new_id.is_none() && e.retries <= ceiling {
                match best {
                    None => {
                        best = Some(i);
                    },
                    Some(b) => {
                        let c = self.entries[b];
                        if e.updated_at < c.updated_at || (e.updated_at == c.updated_at
                            && e.retries < c.retries) {
                            best = Some(i);
                        }
                    },
                }
            }
            i = i + 1;
        }
        match best {
            Some(b) => {
                proof {
                    assert(s@[b as int].old_id == self.entries[b as int].old_id);
                }
                Some(self.entries[b].old_id)
            },
            None => None,
        }
    }
}

} // verus!
