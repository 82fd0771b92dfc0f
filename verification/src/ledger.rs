//! The investment ledger and the balance oracle: an append-mostly store of
//! confirmed ownership grants, with a holder's balance derived on demand as
//! the sum of the confirmed grants for one (holder, property) pair.

use vstd::prelude::*;

use crate::seqtools::{lemma_filter_one_step, lemma_take_all, lemma_take_one_more};
use crate::types::{Investment, InvestmentStatus};

verus! {

/// Does the record count toward `investor`'s balance for `property_id`?
pub open spec fn counts_for(r: Investment, investor: u64, property_id: u64) -> bool {
    r.investor == investor && r.property_id == property_id && r.status
        == InvestmentStatus::Confirmed
}

/// The tokens one record contributes to a balance.
pub open spec fn contribution(r: Investment, investor: u64, property_id: u64) -> int {
    if counts_for(r, investor, property_id) {
        r.token_amount as int
    } else {
        0
    }
}

/// The sum of token amounts over the confirmed records of the pair.
pub open spec fn spec_balance(records: Seq<Investment>, investor: u64, property_id: u64) -> int
    decreases records.len(),
{
    if records.len() == 0 {
        0
    } else {
        spec_balance(records.drop_last(), investor, property_id) + contribution(
            records.last(),
            investor,
            property_id,
        )
    }
}

/// A balance is a sum of non-negative amounts.
pub proof fn lemma_balance_nonneg(records: Seq<Investment>, investor: u64, property_id: u64)
    ensures
        spec_balance(records, investor, property_id) >= 0,
    decreases records.len(),
{
    if records.len() > 0 {
        lemma_balance_nonneg(records.drop_last(), investor, property_id);
    }
}

/// Appending one record adds exactly its contribution, for every pair.
pub proof fn lemma_balance_push(
    records: Seq<Investment>,
    r: Investment,
    investor: u64,
    property_id: u64,
)
    ensures
        spec_balance(records.push(r), investor, property_id) == spec_balance(
            records,
            investor,
            property_id,
        ) + contribution(r, investor, property_id),
{
    assert(records.push(r).drop_last() =~= records);
    assert(records.push(r).last() == r);
}

/// Walking the prefix one record further adds that record's contribution.
pub proof fn lemma_balance_take_succ(
    records: Seq<Investment>,
    i: int,
    investor: u64,
    property_id: u64,
)
    requires
        0 <= i < records.len(),
    ensures
        spec_balance(records.take(i + 1), investor, property_id) == spec_balance(
            records.take(i),
            investor,
            property_id,
        ) + contribution(records[i], investor, property_id),
{
    lemma_take_one_more(records, i);
}

/// A prefix never sums to more than the whole ledger.
pub proof fn lemma_balance_prefix_le(
    records: Seq<Investment>,
    i: int,
    investor: u64,
    property_id: u64,
)
    requires
        0 <= i <= records.len(),
    ensures
        spec_balance(records.take(i), investor, property_id) <= spec_balance(
            records,
            investor,
            property_id,
        ),
    decreases records.len() - i,
{
    if i == records.len() {
        lemma_take_all(records);
    } else {
        lemma_balance_take_succ(records, i, investor, property_id);
        lemma_balance_prefix_le(records, i + 1, investor, property_id);
    }
}

/// The append-mostly store of ownership grants.
pub struct InvestmentLedger {
    pub records: Vec<Investment>,
}

impl InvestmentLedger {
    pub fn new() -> (l: Self)
        ensures
            l.records@ =~= Seq::<Investment>::empty(),
    {
        InvestmentLedger { records: Vec::new() }
    }

    /// Appends a grant; records are never merged, updated or deleted.
    pub fn append(&mut self, r: Investment)
        ensures
            final(self).records@ == old(self).records@.push(r),
    {
        self.records.push(r);
    }

    /// The balance oracle: recomputed from the ledger on every call, so it
    /// is consistent with the ledger at the instant of the call.
    pub fn balance_of(&self, investor: u64, property_id: u64) -> (r: u64)
        requires
            spec_balance(self.records@, investor, property_id) <= u64::MAX as int,
        ensures
            r as int == spec_balance(self.records@, investor, property_id),
    {
        let n: usize = self.records.len();
        let mut total: u64 = 0;
        let mut i: usize = 0;
        while i < n
            invariant
                0 <= i <= n,
                n == self.records@.len(),
                spec_balance(self.records@, investor, property_id) <= u64::MAX as int,
                total as int == spec_balance(self.records@.take(i as int), investor, property_id),
            decreases n - i,
        {
            let r = self.records[i];
            proof {
                lemma_balance_take_succ(self.records@, i as int, investor, property_id);
                lemma_balance_prefix_le(self.records@, i as int + 1, investor, property_id);
                lemma_balance_nonneg(self.records@.take(i as int + 1), investor, property_id);
            }
            if r.investor == investor && r.property_id == property_id && r.status
                == InvestmentStatus::Confirmed {
                total = total + r.token_amount;
            }
            i = i + 1;
        }
        proof {
            lemma_take_all(self.records@);
        }
        total
    }

    /// All grants of one investor, in ledger order.
    pub fn investments_of(&self, investor: u64) -> (out: Vec<Investment>)
        ensures
            out@ == self.records@.filter(|r: Investment| r.investor == investor),
    {
        let n: usize = self.records.len();
        let mut out: Vec<Investment> = Vec::new();
        let mut i: usize = 0;
        proof {
            reveal(Seq::filter);
        }
        while i < n
            invariant
                0 <= i <= n,
                n == self.records@.len(),
                out@ == self.records@.take(i as int).filter(|r: Investment| r.investor == investor),
            decreases n - i,
        {
            let r = self.records[i];
            proof {
                lemma_filter_one_step(
                    self.records@,
                    |rec: Investment| rec.investor == investor,
                    i as int,
                );
            }
            if r.investor == investor {
                out.push(r);
            }
            i = i + 1;
        }
        proof {
            lemma_take_all(self.records@);
        }
        out
    }
}

} // verus!
