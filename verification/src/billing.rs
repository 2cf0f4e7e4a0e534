//! The transaction ledger: the costs the engine reported, by consumer.

use vstd::prelude::*;

verus! {

/// Relies on the derived equality of uuid::Uuid: identifiers compare
/// equal exactly when they are the same value.
#[verifier::external_body]
fn uuid_eq(a: &uuid::Uuid, b: &uuid::Uuid) -> (r: bool)
    ensures
        r == (a == b),
{
    a == b
}

/// One granted allocation: who, which device, when, for how long, and the
/// recorded cost.
#[derive(Debug, Clone, Copy)]
pub struct Transaction {
    pub user_id: uuid::Uuid,
    pub gpu_id: u32,
    /// When the rental began, seconds since the epoch.
    pub start_time_secs: u64,
    pub duration_secs: u64,
    pub cost: u64,
}

/// The sum of the costs booked against `id`.
pub open spec fn balance_of(s: Seq<Transaction>, id: uuid::Uuid) -> int
    decreases s.len(),
{
    if s.len() == 0 {
        0
    } else {
        balance_of(s.drop_last(), id) + if s.last().user_id == id {
            s.last().cost as int
        } else {
            0int
        }
    }
}

/// The append-only transaction ledger.
#[derive(Debug)]
pub struct BillingSystem {
    pub transactions: Vec<Transaction>,
}

impl BillingSystem {
    /// An empty ledger.
    pub fn new() -> (r: BillingSystem)
        ensures
            r.transactions@.len() == 0,
    {
        BillingSystem { transactions: Vec::new() }
    }

    /// Books one transaction; nothing already booked changes.
    pub fn add_transaction(&mut self, transaction: Transaction)
        ensures
            final(self).transactions@ == old(self).transactions@.push(transaction),
    {
        self.transactions.push(transaction);
    }

    /// The total cost booked against `user_id`; a sum beyond the integer
    /// range saturates.
    pub fn get_user_balance(&self, user_id: uuid::Uuid) -> (r: u64)
        ensures
            r as int == (if balance_of(self.transactions@, user_id) <= u64::MAX {
                balance_of(self.transactions@, user_id)
            } else {
                u64::MAX as int
            }),
    {
        let ghost ts = self.transactions@;
        let n = self.transactions.len();
        let mut sum: u128 = 0;
        let mut i: usize = 0;
        while i < n
            invariant
                n == ts.len(),
                ts == self.transactions@,
                i <= n,
                sum == balance_of(ts.take(i as int), user_id),
                sum <= (i as int) * (u64::MAX as int),
            decreases n - i,
        {
            proof {
                assert(ts.take(i + 1).drop_last() =~= ts.take(i as int));
                assert(ts.take(i + 1).last() == ts[i as int]);
            }
            let matches_user = uuid_eq(&self.transactions[i].user_id, &user_id);
            if matches_user {
                sum = sum + self.transactions[i].cost as u128;
            }
            i = i + 1;
        }
        proof {
            assert(ts.take(n as int) =~= ts);
        }
        if sum > u64::MAX as u128 {
            u64::MAX
        } else {
            sum as u64
        }
    }
}

} // verus!
