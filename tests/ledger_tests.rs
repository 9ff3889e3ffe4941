use undelete::engine::{record_id_log, record_outcome};
use undelete::ledger::{Ledger, LedgerEntry, LedgerError};
use undelete::selector::{next_message_id, vacant_message_id, ArchiveEntry};

fn entry(old_id: i64, new_id: Option<i64>, retries: u64, updated_at: i64) -> LedgerEntry {
    LedgerEntry { old_id, new_id, retries, updated_at }
}

#[test]
fn attempt_twice_keeps_one_row() {
    let mut l = Ledger::new();
    l.record_attempt(7, 100);
    l.record_attempt(7, 200);
    assert_eq!(l.entries().len(), 1);
    let e = l.entry(7).unwrap();
    assert_eq!(e.retries, 0);
    assert_eq!(e.new_id, None);
    assert_eq!(e.updated_at, 200);
}

#[test]
fn new_id_is_kept_after_later_calls() {
    let mut l = Ledger::new();
    l.record_attempt(1, 10);
    assert_eq!(l.record_success(1, 501, 11), Ok(()));
    l.record_attempt(1, 12);
    assert_eq!(l.record_failure(1, 13), Ok(()));
    assert_eq!(l.record_success(1, 999, 14), Ok(()));
    assert_eq!(l.entry(1).unwrap().new_id, Some(501));
    assert_eq!(l.resolve_new_id(1), Some(501));
}

#[test]
fn success_keeps_retries() {
    let mut l = Ledger::new();
    l.record_attempt(3, 1);
    assert_eq!(l.record_failure(3, 2), Ok(()));
    assert_eq!(l.record_failure(3, 3), Ok(()));
    assert_eq!(l.entry(3).unwrap().retries, 2);
    assert_eq!(l.record_success(3, 40, 4), Ok(()));
    assert_eq!(l.entry(3).unwrap().retries, 2);
    assert_eq!(l.entry(3).unwrap().updated_at, 4);
}

#[test]
fn outcome_without_attempt_is_not_found() {
    let mut l = Ledger::new();
    assert_eq!(l.record_success(5, 6, 1), Err(LedgerError::NotFound));
    assert_eq!(l.record_failure(5, 1), Err(LedgerError::NotFound));
    assert_eq!(record_outcome(&mut l, 5, Some(6), 1), Err(LedgerError::NotFound));
    assert_eq!(l.entries().len(), 0);
    assert_eq!(l.resolve_new_id(5), None);
}

#[test]
fn pending_order_is_oldest_then_fewest_retries() {
    let l = Ledger::from_entries(vec![
        entry(1, None, 2, 50),
        entry(2, None, 1, 50),
        entry(3, Some(9), 0, 10),
        entry(4, None, 0, 60),
    ])
    .unwrap();
    assert_eq!(l.next_pending_id(4), Some(2));
}

#[test]
fn pending_skips_rows_over_ceiling() {
    let l = Ledger::from_entries(vec![entry(1, None, 5, 1), entry(2, None, 4, 2)]).unwrap();
    assert_eq!(l.next_pending_id(4), Some(2));
    assert_eq!(l.next_pending_id(3), None);
}

#[test]
fn duplicate_rows_are_refused() {
    assert!(Ledger::from_entries(vec![entry(1, None, 0, 1), entry(1, None, 0, 2)]).is_none());
}

#[test]
fn five_failures_with_ceiling_four_exclude_the_id() {
    let archive = vec![ArchiveEntry { id: 42, date: 1, service: false }];
    let mut l = Ledger::new();
    for t in 0..5 {
        let id = next_message_id(&l, &archive, 4);
        assert_eq!(id, Some(42));
        l.record_attempt(42, t);
        assert_eq!(record_outcome(&mut l, 42, None, t), Ok(()));
    }
    let e = l.entry(42).unwrap();
    assert_eq!(e.new_id, None);
    assert_eq!(e.retries, 5);
    assert_eq!(l.next_pending_id(4), None);
    assert_eq!(next_message_id(&l, &archive, 4), None);
}

#[test]
fn vacant_is_oldest_unseen_content_message() {
    let archive = vec![
        ArchiveEntry { id: 1, date: 30, service: false },
        ArchiveEntry { id: 2, date: 10, service: true },
        ArchiveEntry { id: 3, date: 20, service: false },
        ArchiveEntry { id: 4, date: 5, service: false },
    ];
    let mut l = Ledger::new();
    assert_eq!(vacant_message_id(&l, &archive), Some(4));
    record_id_log(&mut l, 4, Some(100), 1);
    assert_eq!(vacant_message_id(&l, &archive), Some(3));
}

#[test]
fn pending_work_comes_before_vacant_work() {
    let archive = vec![
        ArchiveEntry { id: 1, date: 1, service: false },
        ArchiveEntry { id: 2, date: 2, service: false },
    ];
    let mut l = Ledger::new();
    record_id_log(&mut l, 2, None, 7);
    assert_eq!(next_message_id(&l, &archive, 4), Some(2));
}

#[test]
fn selector_is_exhausted_when_all_published() {
    let archive = vec![
        ArchiveEntry { id: 1, date: 1, service: false },
        ArchiveEntry { id: 2, date: 2, service: false },
        ArchiveEntry { id: 3, date: 3, service: true },
    ];
    let mut l = Ledger::new();
    let mut next_new: i64 = 500;
    while let Some(id) = next_message_id(&l, &archive, 4) {
        record_id_log(&mut l, id, Some(next_new), next_new);
        next_new += 1;
    }
    assert_eq!(l.resolve_new_id(1), Some(500));
    assert_eq!(l.resolve_new_id(2), Some(501));
    assert_eq!(l.resolve_new_id(3), None);
    assert_eq!(next_message_id(&l, &archive, 4), None);
}

#[test]
fn record_id_log_counts_failures() {
    let mut l = Ledger::new();
    record_id_log(&mut l, 8, None, 1);
    record_id_log(&mut l, 8, None, 2);
    assert_eq!(l.entry(8).unwrap().retries, 2);
    assert_eq!(l.entries().len(), 1);
}
