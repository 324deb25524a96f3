use vstd::prelude::*;

use crate::error::FlowError;
use crate::output::{
    consolidates_at, counts_for_consolidation, has_deposit_return, report_bucket, report_bucket_of, OutputRecord,
};
use crate::sums::{
    lemma_sum_of_insert, lemma_sum_of_permutation, lemma_sum_of_prefix, lemma_sum_of_update,
    sum_of,
};

verus! {

/// What an output adds to a consolidation at `now`.
pub open spec fn consolidation_share(now: u32) -> spec_fn(OutputRecord) -> nat {
    |o: OutputRecord| if consolidates_at(o, now) { o.amount as nat } else { 0 }
}

/// The value that consolidating `s` at `now` moves.
pub open spec fn consolidation_total(s: Seq<OutputRecord>, now: u32) -> nat {
    sum_of(s, consolidation_share(now))
}

/// What an output adds to the report's bucket for time `ts`.
pub open spec fn bucket_share(ts: u32) -> spec_fn(OutputRecord) -> nat {
    |o: OutputRecord| if report_bucket_of(o) == Some(ts) { o.amount as nat } else { 0 }
}

/// The value that the report files under time `ts`.
pub open spec fn bucket_total(s: Seq<OutputRecord>, ts: u32) -> nat {
    sum_of(s, bucket_share(ts))
}

pub open spec fn report_share() -> spec_fn(OutputRecord) -> nat {
    |o: OutputRecord| if report_bucket_of(o) is Some { o.amount as nat } else { 0 }
}

/// The value that the report files under any time.
pub open spec fn report_total(s: Seq<OutputRecord>) -> nat {
    sum_of(s, report_share())
}

/// The sum of the amounts of the outputs that consolidation counts at `now`,
/// or `None` where that sum does not fit in 64 bits.
pub fn spendable_total(outputs: &Vec<OutputRecord>, now: u32) -> (r: Option<u64>)
    ensures
        match r {
            Some(t) => t == consolidation_total(outputs@, now),
            None => consolidation_total(outputs@, now) > u64::MAX,
        },
{
    let mut total: u64 = 0;
    let mut i: usize = 0;
    while i < outputs.len()
        invariant
            0 <= i <= outputs@.len(),
            total == sum_of(outputs@.take(i as int), consolidation_share(now)),
        decreases outputs@.len() - i,
    {
        proof {
            lemma_sum_of_prefix(outputs@, i as int, consolidation_share(now));
        }
        let o = &outputs[i];
        if counts_for_consolidation(o, now) {
            match total.checked_add(o.amount) {
                Some(t) => {
                    total = t;
                },
                None => {
                    proof {
                        lemma_sum_of_prefix(outputs@, i + 1, consolidation_share(now));
                    }
                    return None;
                },
            }
        }
        i = i + 1;
    }
    assert(outputs@.take(i as int) =~= outputs@);
    Some(total)
}

/// One row of the balance table: the value that unlocks at a time.
#[derive(Clone, Copy, Debug, PartialEq, Eq, Structural)]
pub struct Bucket {
    pub unlock_at: u32,
    pub amount: u64,
}

/// A bucket together with the running total up to and including it.
#[derive(Clone, Copy, Debug, PartialEq, Eq, Structural)]
pub struct CumulativeRow {
    pub unlock_at: u32,
    pub amount: u64,
    pub cumulative: u64,
}

pub open spec fn amount_share(ts: u32) -> spec_fn(Bucket) -> nat {
    |b: Bucket| if b.unlock_at == ts { b.amount as nat } else { 0 }
}

pub open spec fn value_share() -> spec_fn(Bucket) -> nat {
    |b: Bucket| b.amount as nat
}

/// Balances by unlock time: buckets in strictly increasing order of time,
/// none of them empty, with a total that fits in 64 bits.
#[derive(Clone, Debug)]
pub struct Balances {
    buckets: Vec<Bucket>,
    sum: u64,
}

/// Times strictly increasing, and no bucket empty.
pub open spec fn ordered_buckets(s: Seq<Bucket>) -> bool {
    &&& forall|i: int, j: int| 0 <= i < j < s.len() ==> s[i].unlock_at < s[j].unlock_at
    &&& forall|i: int| 0 <= i < s.len() ==> s[i].amount > 0
}

impl View for Balances {
    type V = Seq<Bucket>;

    closed spec fn view(&self) -> Seq<Bucket> {
        self.buckets@
    }
}

impl Balances {
    pub closed spec fn wf(&self) -> bool {
        &&& ordered_buckets(self@)
        &&& self.sum == self.total()
    }

    /// The value held under time `ts` (zero where there is no bucket).
    pub open spec fn amount_at(&self, ts: u32) -> nat {
        sum_of(self@, amount_share(ts))
    }

    /// The value held under all times.
    pub open spec fn total(&self) -> nat {
        sum_of(self@, value_share())
    }

    /// No balances.
    pub fn new() -> (r: Balances)
        ensures
            r.wf(),
            r@.len() == 0,
            r.total() == 0,
            forall|ts: u32| r.amount_at(ts) == 0,
    {
        Balances { buckets: Vec::new(), sum: 0 }
    }

    /// The buckets, in increasing order of time.
    pub fn buckets(&self) -> (r: &Vec<Bucket>)
        requires
            self.wf(),
        ensures
            r@ == self@,
            ordered_buckets(r@),
            self.total() <= u64::MAX,
    {
        &self.buckets
    }

    /// Adds `amount` to the bucket for `ts`, creating it where absent.
    /// Fails, changing nothing, where the total would not fit in 64 bits.
    /// An amount of zero changes nothing.
    pub fn add(&mut self, ts: u32, amount: u64) -> (r: Result<(), FlowError>)
        requires
            old(self).wf(),
        ensures
            final(self).wf(),
            r is Err <==> old(self).total() + amount > u64::MAX,
            r is Err ==> r == Err::<(), FlowError>(FlowError::AmountOverflow),
            r is Err ==> *final(self) == *old(self),
            r is Ok ==> final(self).total() == old(self).total() + amount,
            r is Ok ==> forall|u: u32|
                #[trigger] final(self).amount_at(u) == old(self).amount_at(u) + (if u == ts {
                    amount as nat
                } else {
                    0
                }),
    {
        let ghost before = self@;
        if self.sum > u64::MAX - amount {
            return Err(FlowError::AmountOverflow);
        }
        if amount == 0 {
            return Ok(());
        }
        self.sum = self.sum + amount;
        let mut i: usize = 0;
        while i < self.buckets.len() && self.buckets[i].unlock_at < ts
            invariant
                0 <= i <= self@.len(),
                self@ == before,
                forall|j: int| 0 <= j < i ==> self@[j].unlock_at < ts,
            decreases self@.len() - i,
        {
            i = i + 1;
        }
        if i < self.buckets.len() && self.buckets[i].unlock_at == ts {
            let b = self.buckets[i];
            proof {
                lemma_sum_of_update(before, i as int, b, value_share());
            }
            let nb = Bucket { unlock_at: ts, amount: b.amount + amount };
            self.buckets.set(i, nb);
            proof {
                lemma_sum_of_update(before, i as int, nb, value_share());
                assert forall|u: u32|
                    #[trigger] self.amount_at(u) == sum_of(before, amount_share(u)) + (if u
                        == ts {
                        amount as nat
                    } else {
                        0
                    }) by {
                    lemma_sum_of_update(before, i as int, nb, amount_share(u));
                }
            }
        } else {
            let nb = Bucket { unlock_at: ts, amount };
            self.buckets.insert(i, nb);
            proof {
                lemma_sum_of_insert(before, i as int, nb, value_share());
                assert forall|u: u32|
                    #[trigger] self.amount_at(u) == sum_of(before, amount_share(u)) + (if u
                        == ts {
                        amount as nat
                    } else {
                        0
                    }) by {
                    lemma_sum_of_insert(before, i as int, nb, amount_share(u));
                }
            }
        }
        Ok(())
    }

    /// The value held under all times.
    pub fn total_amount(&self) -> (r: u64)
        requires
            self.wf(),
        ensures
            r == self.total(),
    {
        self.sum
    }

    /// Files each output that the report counts under its unlock time.
    /// Fails where the total would not fit in 64 bits; the balances are then
    /// well formed but hold only part of the outputs.
    pub fn add_outputs(&mut self, outputs: &Vec<OutputRecord>) -> (r: Result<(), FlowError>)
        requires
            old(self).wf(),
        ensures
            final(self).wf(),
            r is Err <==> old(self).total() + report_total(outputs@) > u64::MAX,
            r is Err ==> r == Err::<(), FlowError>(FlowError::AmountOverflow),
            r is Ok ==> final(self).total() == old(self).total() + report_total(outputs@),
            r is Ok ==> forall|u: u32|
                #[trigger] final(self).amount_at(u) == old(self).amount_at(u) + bucket_total(
                    outputs@,
                    u,
                ),
    {
        let mut i: usize = 0;
        while i < outputs.len()
            invariant
                0 <= i <= outputs@.len(),
                self.wf(),
                self.total() == old(self).total() + sum_of(outputs@.take(i as int), report_share()),
                forall|u: u32|
                    #[trigger] self.amount_at(u) == old(self).amount_at(u) + sum_of(
                        outputs@.take(i as int),
                        bucket_share(u),
                    ),
            decreases outputs@.len() - i,
        {
            let o = &outputs[i];
            proof {
                lemma_sum_of_prefix(outputs@, i as int, report_share());
                lemma_sum_of_prefix(outputs@, i + 1, report_share());
                assert forall|u: u32|
                    sum_of(outputs@.take(i + 1), #[trigger] bucket_share(u)) == sum_of(
                        outputs@.take(i as int),
                        bucket_share(u),
                    ) + bucket_share(u)(outputs@[i as int]) by {
                    lemma_sum_of_prefix(outputs@, i as int, bucket_share(u));
                }
            }
            match report_bucket(o) {
                Some(ts) => {
                    match self.add(ts, o.amount) {
                        Ok(()) => {},
                        Err(e) => {
                            assert(report_share()(outputs@[i as int]) == o.amount);
                            return Err(e);
                        },
                    }
                },
                None => {},
            }
            i = i + 1;
        }
        assert(outputs@.take(i as int) =~= outputs@);
        Ok(())
    }

    /// The balances of `outputs`, by unlock time.
    pub fn from_outputs(outputs: &Vec<OutputRecord>) -> (r: Result<Balances, FlowError>)
        ensures
            r is Err <==> report_total(outputs@) > u64::MAX,
            r is Err ==> r == Err::<Balances, FlowError>(FlowError::AmountOverflow),
            r matches Ok(b) ==> b.wf() && b.total() == report_total(outputs@) && forall|u: u32|
                #[trigger] b.amount_at(u) == bucket_total(outputs@, u),
    {
        let mut b = Balances::new();
        match b.add_outputs(outputs) {
            Ok(()) => Ok(b),
            Err(e) => Err(e),
        }
    }

    /// The buckets in increasing order of time, each with the running total
    /// of the buckets up to and including it.
    pub fn with_cumulative(&self) -> (rows: Vec<CumulativeRow>)
        requires
            self.wf(),
        ensures
            rows@.len() == self@.len(),
            forall|i: int|
                0 <= i < rows@.len() ==> {
                    &&& (#[trigger] rows@[i]).unlock_at == self@[i].unlock_at
                    &&& rows@[i].amount == self@[i].amount
                    &&& rows@[i].cumulative == sum_of(self@.take(i + 1), value_share())
                },
            forall|i: int, j: int|
                0 <= i <= j < rows@.len() ==> rows@[i].cumulative <= rows@[j].cumulative,
            rows@.len() > 0 ==> rows@.last().cumulative == self.total(),
    {
        let mut rows: Vec<CumulativeRow> = Vec::new();
        let mut running: u64 = 0;
        let mut i: usize = 0;
        while i < self.buckets.len()
            invariant
                self.wf(),
                0 <= i <= self@.len(),
                rows@.len() == i,
                running == sum_of(self@.take(i as int), value_share()),
                forall|k: int|
                    0 <= k < i ==> {
                        &&& (#[trigger] rows@[k]).unlock_at == self@[k].unlock_at
                        &&& rows@[k].amount == self@[k].amount
                        &&& rows@[k].cumulative == sum_of(self@.take(k + 1), value_share())
                    },
                forall|k: int, j: int|
                    0 <= k <= j < i ==> rows@[k].cumulative <= rows@[j].cumulative,
                i > 0 ==> rows@[i - 1].cumulative == running,
            decreases self@.len() - i,
        {
            proof {
                lemma_sum_of_prefix(self@, i as int, value_share());
                lemma_sum_of_prefix(self@, i + 1, value_share());
            }
            let b = self.buckets[i];
            running = running + b.amount;
            rows.push(CumulativeRow { unlock_at: b.unlock_at, amount: b.amount, cumulative: running });
            i = i + 1;
        }
        assert(self@.take(i as int) =~= self@);
        rows
    }
}

} // verus!

verus! {

/// The order of the outputs changes neither the consolidation total nor any
/// bucket of the report, nor the report's total.
pub proof fn lemma_aggregation_order_independent(
    s1: Seq<OutputRecord>,
    s2: Seq<OutputRecord>,
    now: u32,
)
    requires
        s1.to_multiset() == s2.to_multiset(),
    ensures
        consolidation_total(s1, now) == consolidation_total(s2, now),
        report_total(s1) == report_total(s2),
        forall|ts: u32| #[trigger] bucket_total(s1, ts) == bucket_total(s2, ts),
{
    lemma_sum_of_permutation(s1, s2, consolidation_share(now));
    lemma_sum_of_permutation(s1, s2, report_share());
    assert forall|ts: u32| #[trigger] bucket_total(s1, ts) == bucket_total(s2, ts) by {
        lemma_sum_of_permutation(s1, s2, bucket_share(ts));
    }
}

/// An output that owes a deposit back adds nothing to either flow,
/// wherever it stands among the others.
pub proof fn lemma_deposit_return_excluded(
    s: Seq<OutputRecord>,
    i: int,
    o: OutputRecord,
    now: u32,
)
    requires
        0 <= i <= s.len(),
        has_deposit_return(o.conditions@),
    ensures
        !consolidates_at(o, now),
        report_bucket_of(o) is None,
        consolidation_total(s.insert(i, o), now) == consolidation_total(s, now),
        report_total(s.insert(i, o)) == report_total(s),
        forall|ts: u32| #[trigger] bucket_total(s.insert(i, o), ts) == bucket_total(s, ts),
{
    lemma_sum_of_insert(s, i, o, consolidation_share(now));
    lemma_sum_of_insert(s, i, o, report_share());
    assert forall|ts: u32| #[trigger] bucket_total(s.insert(i, o), ts) == bucket_total(s, ts) by {
        lemma_sum_of_insert(s, i, o, bucket_share(ts));
    }
}

/// In ordered buckets, the value held under `u` is that of the bucket for
/// `u`, or zero where there is none.
proof fn lemma_amount_at_ordered(s: Seq<Bucket>, u: u32)
    requires
        ordered_buckets(s),
    ensures
        forall|k: int|
            0 <= k < s.len() && s[k].unlock_at == u ==> sum_of(s, amount_share(u))
                == s[k].amount,
        (forall|k: int| 0 <= k < s.len() ==> s[k].unlock_at != u) ==> sum_of(s, amount_share(u))
            == 0,
    decreases s.len(),
{
    if s.len() > 0 {
        let r = s.drop_last();
        assert(ordered_buckets(r));
        lemma_amount_at_ordered(r, u);
        assert forall|k: int|
            0 <= k < s.len() && s[k].unlock_at == u implies sum_of(s, amount_share(u))
                == s[k].amount by {
            if k < s.len() - 1 {
                assert(r[k] == s[k]);
            } else {
                assert forall|j: int| 0 <= j < r.len() implies r[j].unlock_at != u by {
                    assert(r[j] == s[j]);
                }
            }
        }
        if forall|k: int| 0 <= k < s.len() ==> s[k].unlock_at != u {
            assert forall|j: int| 0 <= j < r.len() implies r[j].unlock_at != u by {
                assert(r[j] == s[j]);
            }
        }
    }
}

/// Ordered buckets are determined by the value they hold under each time.
pub proof fn lemma_buckets_determined(s1: Seq<Bucket>, s2: Seq<Bucket>)
    requires
        ordered_buckets(s1),
        ordered_buckets(s2),
        forall|u: u32| #[trigger] sum_of(s1, amount_share(u)) == sum_of(s2, amount_share(u)),
    ensures
        s1 == s2,
    decreases s1.len() + s2.len(),
{
    if s1.len() == 0 && s2.len() == 0 {
        assert(s1 =~= s2);
    } else if s1.len() == 0 {
        let u = s2[0].unlock_at;
        lemma_amount_at_ordered(s1, u);
        lemma_amount_at_ordered(s2, u);
    } else if s2.len() == 0 {
        let u = s1[0].unlock_at;
        lemma_amount_at_ordered(s1, u);
        lemma_amount_at_ordered(s2, u);
    } else {
        let m1 = s1.last().unlock_at;
        let m2 = s2.last().unlock_at;
        lemma_amount_at_ordered(s1, m1);
        lemma_amount_at_ordered(s2, m1);
        lemma_amount_at_ordered(s1, m2);
        lemma_amount_at_ordered(s2, m2);
        if m1 < m2 {
            assert(sum_of(s2, amount_share(m2)) == sum_of(s1, amount_share(m2)));
            assert(forall|k: int| 0 <= k < s1.len() ==> s1[k].unlock_at <= m1);
        } else if m2 < m1 {
            assert(sum_of(s2, amount_share(m1)) == sum_of(s1, amount_share(m1)));
            assert(forall|k: int| 0 <= k < s2.len() ==> s2[k].unlock_at <= m2);
        }
        assert(m1 == m2);
        assert(sum_of(s1, amount_share(m1)) == sum_of(s2, amount_share(m1)));
        assert(s1.last() == s2.last());
        let r1 = s1.drop_last();
        let r2 = s2.drop_last();
        assert(ordered_buckets(r1));
        assert(ordered_buckets(r2));
        assert forall|u: u32| #[trigger] sum_of(r1, amount_share(u)) == sum_of(r2, amount_share(u)) by {
            assert(sum_of(s1, amount_share(u)) == sum_of(s2, amount_share(u)));
            if u == m1 {
                lemma_amount_at_ordered(r1, u);
                lemma_amount_at_ordered(r2, u);
                assert forall|j: int| 0 <= j < r1.len() implies r1[j].unlock_at != u by {
                    assert(r1[j] == s1[j]);
                }
                assert forall|j: int| 0 <= j < r2.len() implies r2[j].unlock_at != u by {
                    assert(r2[j] == s2[j]);
                }
            }
        }
        lemma_buckets_determined(r1, r2);
        assert(s1 =~= r1.push(s1.last()));
        assert(s2 =~= r2.push(s2.last()));
    }
}

/// Balances built from the same outputs in any order hold the same buckets.
pub proof fn lemma_balances_order_independent(
    b1: Balances,
    b2: Balances,
    s1: Seq<OutputRecord>,
    s2: Seq<OutputRecord>,
)
    requires
        s1.to_multiset() == s2.to_multiset(),
        b1.wf(),
        b2.wf(),
        forall|u: u32| #[trigger] b1.amount_at(u) == bucket_total(s1, u),
        forall|u: u32| #[trigger] b2.amount_at(u) == bucket_total(s2, u),
    ensures
        b1@ == b2@,
{
    lemma_aggregation_order_independent(s1, s2, 0);
    assert forall|u: u32| #[trigger] sum_of(b1@, amount_share(u)) == sum_of(b2@, amount_share(u)) by {
        assert(b1.amount_at(u) == bucket_total(s1, u));
        assert(b2.amount_at(u) == bucket_total(s2, u));
    }
    lemma_buckets_determined(b1@, b2@);
}

} // verus!
