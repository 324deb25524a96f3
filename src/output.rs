use vstd::prelude::*;

verus! {

/// A rule that restricts who may spend an output, and when.
/// Timestamps are whole seconds since the Unix epoch.
#[derive(Clone, Copy, Debug, PartialEq, Eq, Structural)]
pub enum UnlockCondition {
    /// The owning address may unlock the output.
    Address,
    /// The owner may not spend the output before this time.
    TimeLock(u32),
    /// From this time on, spend rights pass to a fallback address.
    Expiration(u32),
    /// Part of the amount must go back to a depositor when the output is spent.
    StorageDepositReturn,
}

/// A basic output as the ledger reports it, with its metadata.
#[derive(Clone, Debug)]
pub struct OutputRecord {
    /// Value in base units.
    pub amount: u64,
    /// Whether the output has already been consumed.
    pub spent: bool,
    /// The ledger time at which the output was booked.
    pub booked_at: u32,
    pub conditions: Vec<UnlockCondition>,
}

/// The timestamp of the first time-lock condition, if any.
pub open spec fn time_lock_of(c: Seq<UnlockCondition>) -> Option<u32>
    decreases c.len(),
{
    if c.len() == 0 {
        None
    } else {
        match c[0] {
            UnlockCondition::TimeLock(t) => Some(t),
            _ => time_lock_of(c.drop_first()),
        }
    }
}

/// The timestamp of the first expiration condition, if any.
pub open spec fn expiration_of(c: Seq<UnlockCondition>) -> Option<u32>
    decreases c.len(),
{
    if c.len() == 0 {
        None
    } else {
        match c[0] {
            UnlockCondition::Expiration(t) => Some(t),
            _ => expiration_of(c.drop_first()),
        }
    }
}

/// Locked while the lock's time lies strictly after `now`.
pub open spec fn time_locked_at(c: Seq<UnlockCondition>, now: u32) -> bool {
    match time_lock_of(c) {
        Some(t) => t > now,
        None => false,
    }
}

/// Expired once the expiration time has been reached.
pub open spec fn expired_at(c: Seq<UnlockCondition>, now: u32) -> bool {
    match expiration_of(c) {
        Some(t) => t <= now,
        None => false,
    }
}

pub open spec fn has_deposit_return(c: Seq<UnlockCondition>) -> bool {
    exists|i: int| 0 <= i < c.len() && c[i] is StorageDepositReturn
}

/// The owner can spend the output right now.
pub open spec fn spendable_at(o: OutputRecord, now: u32) -> bool {
    !o.spent && !time_locked_at(o.conditions@, now) && !expired_at(o.conditions@, now)
}

/// The output takes part in consolidation: spendable now, and with no
/// value owed back to a depositor.
pub open spec fn consolidates_at(o: OutputRecord, now: u32) -> bool {
    spendable_at(o, now) && !has_deposit_return(o.conditions@)
}

/// The unlock time under which the balance report files the output:
/// none for an output that is spent, owes a deposit back or is empty;
/// else its time lock, or its booking time where it has none.
pub open spec fn report_bucket_of(o: OutputRecord) -> Option<u32> {
    if o.spent || has_deposit_return(o.conditions@) || o.amount == 0 {
        None
    } else {
        match time_lock_of(o.conditions@) {
            Some(t) => Some(t),
            None => Some(o.booked_at),
        }
    }
}

/// The time of the first time-lock condition.
pub fn time_lock(conditions: &Vec<UnlockCondition>) -> (r: Option<u32>)
    ensures
        r == time_lock_of(conditions@),
{
    let mut i: usize = 0;
    assert(conditions@.skip(0) =~= conditions@);
    while i < conditions.len()
        invariant
            0 <= i <= conditions@.len(),
            time_lock_of(conditions@) == time_lock_of(conditions@.skip(i as int)),
        decreases conditions@.len() - i,
    {
        assert(conditions@.skip(i as int).drop_first() =~= conditions@.skip(i + 1));
        match conditions[i] {
            UnlockCondition::TimeLock(t) => {
                return Some(t);
            },
            _ => {},
        }
        i = i + 1;
    }
    None
}

/// The time of the first expiration condition.
pub fn expiration(conditions: &Vec<UnlockCondition>) -> (r: Option<u32>)
    ensures
        r == expiration_of(conditions@),
{
    let mut i: usize = 0;
    assert(conditions@.skip(0) =~= conditions@);
    while i < conditions.len()
        invariant
            0 <= i <= conditions@.len(),
            expiration_of(conditions@) == expiration_of(conditions@.skip(i as int)),
        decreases conditions@.len() - i,
    {
        assert(conditions@.skip(i as int).drop_first() =~= conditions@.skip(i + 1));
        match conditions[i] {
            UnlockCondition::Expiration(t) => {
                return Some(t);
            },
            _ => {},
        }
        i = i + 1;
    }
    None
}

/// Whether a time lock still holds at `now` (its time is strictly later).
pub fn is_time_locked(conditions: &Vec<UnlockCondition>, now: u32) -> (r: bool)
    ensures
        r == time_locked_at(conditions@, now),
{
    match time_lock(conditions) {
        Some(t) => t > now,
        None => false,
    }
}

/// Whether an expiration has been reached at `now`.
pub fn is_expired(conditions: &Vec<UnlockCondition>, now: u32) -> (r: bool)
    ensures
        r == expired_at(conditions@, now),
{
    match expiration(conditions) {
        Some(t) => t <= now,
        None => false,
    }
}

/// Whether some condition asks for a deposit to be returned.
pub fn has_storage_deposit_return(conditions: &Vec<UnlockCondition>) -> (r: bool)
    ensures
        r == has_deposit_return(conditions@),
{
    let mut i: usize = 0;
    while i < conditions.len()
        invariant
            0 <= i <= conditions@.len(),
            forall|j: int| 0 <= j < i ==> !(conditions@[j] is StorageDepositReturn),
        decreases conditions@.len() - i,
    {
        match conditions[i] {
            UnlockCondition::StorageDepositReturn => {
                return true;
            },
            _ => {},
        }
        i = i + 1;
    }
    false
}

/// Whether the owner can spend the output at `now`: unspent, not time
/// locked and not expired.
pub fn is_spendable(output: &OutputRecord, now: u32) -> (r: bool)
    ensures
        r == spendable_at(*output, now),
{
    !output.spent && !is_time_locked(&output.conditions, now) && !is_expired(
        &output.conditions,
        now,
    )
}

/// Whether the output is counted when consolidating at `now`.
pub fn counts_for_consolidation(output: &OutputRecord, now: u32) -> (r: bool)
    ensures
        r == consolidates_at(*output, now),
{
    is_spendable(output, now) && !has_storage_deposit_return(&output.conditions)
}

/// The unlock time under which the balance report files the output, or
/// `None` where the report leaves it out.
pub fn report_bucket(output: &OutputRecord) -> (r: Option<u32>)
    ensures
        r == report_bucket_of(*output),
{
    if output.spent || output.amount == 0 || has_storage_deposit_return(&output.conditions) {
        None
    } else {
        match time_lock(&output.conditions) {
            Some(t) => Some(t),
            None => Some(output.booked_at),
        }
    }
}

/// An output whose time lock lies strictly after `now` is not spendable,
/// and the report files it under that lock's time.
pub proof fn lemma_future_lock_not_spendable(o: OutputRecord, now: u32)
    requires
        time_lock_of(o.conditions@) matches Some(t) && t > now,
    ensures
        !spendable_at(o, now),
        !consolidates_at(o, now),
        report_bucket_of(o) is Some ==> report_bucket_of(o) == time_lock_of(o.conditions@),
{
}

/// An unspent output with neither a time lock nor an expiration is spendable.
pub proof fn lemma_unconditioned_spendable(o: OutputRecord, now: u32)
    requires
        !o.spent,
        time_lock_of(o.conditions@) is None,
        expiration_of(o.conditions@) is None,
    ensures
        spendable_at(o, now),
{
}

} // verus!
