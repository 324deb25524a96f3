use iota_funds::aggregate::{spendable_total, Balances, Bucket, CumulativeRow};
use iota_funds::error::FlowError;
use iota_funds::output::{OutputRecord, UnlockCondition};

fn unlocked(amount: u64, booked_at: u32) -> OutputRecord {
    OutputRecord { amount, spent: false, booked_at, conditions: vec![UnlockCondition::Address] }
}

fn locked(amount: u64, booked_at: u32, until: u32) -> OutputRecord {
    OutputRecord {
        amount,
        spent: false,
        booked_at,
        conditions: vec![UnlockCondition::Address, UnlockCondition::TimeLock(until)],
    }
}

#[test]
fn one_unlocked_output_consolidates_whole_amount() {
    let outputs = vec![unlocked(5_000_000, 1_690_000_000)];
    assert_eq!(spendable_total(&outputs, 1_695_000_000), Some(5_000_000));
}

#[test]
fn no_outputs_consolidate_to_zero() {
    assert_eq!(spendable_total(&vec![], 1_695_000_000), Some(0));
    let spent = OutputRecord { amount: 4, spent: true, booked_at: 1, conditions: vec![] };
    let future = locked(3, 1, 2_000);
    assert_eq!(spendable_total(&vec![spent, future], 1_000), Some(0));
}

#[test]
fn consolidation_skips_locked_expired_and_deposit_outputs() {
    let outputs = vec![
        unlocked(10, 1),
        locked(20, 1, 5_000),
        locked(40, 1, 1_000),
        OutputRecord { amount: 80, spent: false, booked_at: 1, conditions: vec![UnlockCondition::Expiration(1_000)] },
        OutputRecord { amount: 160, spent: false, booked_at: 1, conditions: vec![UnlockCondition::Expiration(1_001)] },
        OutputRecord { amount: 320, spent: false, booked_at: 1, conditions: vec![UnlockCondition::StorageDepositReturn] },
    ];
    assert_eq!(spendable_total(&outputs, 1_000), Some(10 + 40 + 160));
}

#[test]
fn consolidation_total_overflow_is_reported() {
    let outputs = vec![unlocked(u64::MAX, 1), unlocked(1, 1)];
    assert_eq!(spendable_total(&outputs, 10), None);
    let outputs = vec![unlocked(u64::MAX - 1, 1), unlocked(1, 1)];
    assert_eq!(spendable_total(&outputs, 10), Some(u64::MAX));
}

#[test]
fn buckets_by_lock_or_booking_time() {
    let outputs = vec![locked(2_000_000, 1_680_000_000, 1_700_000_000), unlocked(3_000_000, 1_690_000_000)];
    let b = Balances::from_outputs(&outputs).unwrap();
    assert_eq!(
        b.buckets().clone(),
        vec![
            Bucket { unlock_at: 1_690_000_000, amount: 3_000_000 },
            Bucket { unlock_at: 1_700_000_000, amount: 2_000_000 },
        ]
    );
    assert_eq!(b.total_amount(), 5_000_000);
    assert_eq!(
        b.with_cumulative(),
        vec![
            CumulativeRow { unlock_at: 1_690_000_000, amount: 3_000_000, cumulative: 3_000_000 },
            CumulativeRow { unlock_at: 1_700_000_000, amount: 2_000_000, cumulative: 5_000_000 },
        ]
    );
}

#[test]
fn equal_times_merge_across_keys() {
    let mut b = Balances::new();
    b.add_outputs(&vec![unlocked(5, 100), locked(7, 1, 300)]).unwrap();
    b.add_outputs(&vec![unlocked(11, 100), unlocked(0, 200)]).unwrap();
    assert_eq!(
        b.buckets().clone(),
        vec![Bucket { unlock_at: 100, amount: 16 }, Bucket { unlock_at: 300, amount: 7 }]
    );
    assert_eq!(b.total_amount(), 23);
}

#[test]
fn order_of_outputs_does_not_matter() {
    let a = vec![unlocked(5, 100), locked(7, 1, 300), unlocked(11, 100), locked(13, 2, 50)];
    let r = vec![a[3].clone(), a[2].clone(), a[0].clone(), a[1].clone()];
    let b1 = Balances::from_outputs(&a).unwrap();
    let b2 = Balances::from_outputs(&r).unwrap();
    assert_eq!(b1.buckets().clone(), b2.buckets().clone());
    assert_eq!(spendable_total(&a, 200), spendable_total(&r, 200));
    assert_eq!(spendable_total(&a, 200), Some(5 + 11 + 13));
}

#[test]
fn cumulative_is_non_decreasing_and_ends_at_total() {
    let mut b = Balances::new();
    for (ts, amount) in [(40u32, 4u64), (10, 1), (30, 3), (20, 2), (10, 5)] {
        b.add(ts, amount).unwrap();
    }
    let rows = b.with_cumulative();
    let cumulative: Vec<u64> = rows.iter().map(|r| r.cumulative).collect();
    assert_eq!(cumulative, vec![6, 8, 11, 15]);
    assert_eq!(*cumulative.last().unwrap(), b.total_amount());
}

#[test]
fn empty_balances_have_no_rows() {
    let b = Balances::new();
    assert!(b.with_cumulative().is_empty());
    assert_eq!(b.total_amount(), 0);
}

#[test]
fn zero_amount_adds_no_bucket() {
    let mut b = Balances::new();
    assert_eq!(b.add(5, 0), Ok(()));
    assert!(b.buckets().is_empty());
}

#[test]
fn bucket_total_overflow_leaves_balances_unchanged() {
    let mut b = Balances::new();
    b.add(1, u64::MAX - 1).unwrap();
    assert_eq!(b.add(2, 2), Err(FlowError::AmountOverflow));
    assert_eq!(b.buckets().clone(), vec![Bucket { unlock_at: 1, amount: u64::MAX - 1 }]);
    assert_eq!(b.add(2, 1), Ok(()));
    assert_eq!(b.total_amount(), u64::MAX);
    let big = vec![unlocked(u64::MAX, 1), unlocked(1, 2)];
    assert_eq!(Balances::from_outputs(&big).err(), Some(FlowError::AmountOverflow));
}
