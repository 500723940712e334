//! A fixed-point variant of the ledger: the index is a ratio scaled by
//! [`DEFAULT_INDEX`] (one whole), and deposits are booked as balances
//! divided by it.
use vstd::prelude::*;

verus! {

/// The index that stands for a ratio of one.
pub const DEFAULT_INDEX: u128 = 100_000_000_000;

/// A count of cycles.
#[derive(Clone, Copy, Debug, PartialEq, Eq, Structural)]
pub struct Balance(pub u128);

/// A ratio scaled by [`DEFAULT_INDEX`].
#[derive(Clone, Copy, Debug, PartialEq, Eq, Structural)]
pub struct Index(pub Balance);

impl Balance {
    /// The balance scaled by the ratio `idx`, rounded down.
    pub fn mul(&self, idx: Index) -> (r: Balance)
        requires
            self.0 * idx.0.0 <= u128::MAX,
        ensures
            r.0 == self.0 * idx.0.0 / DEFAULT_INDEX as int,
    {
        Balance(self.0 * idx.0.0 / DEFAULT_INDEX)
    }

    /// The balance divided by the ratio `idx`, rounded down.
    pub fn div(&self, idx: Index) -> (r: Balance)
        requires
            idx.0.0 > 0,
            self.0 * DEFAULT_INDEX <= u128::MAX,
        ensures
            r.0 == self.0 * DEFAULT_INDEX as int / idx.0.0 as int,
    {
        Balance(self.0 * DEFAULT_INDEX / idx.0.0)
    }
}

impl Default for Index {
    fn default() -> (r: Index)
        ensures
            r.0.0 == DEFAULT_INDEX,
    {
        Index(Balance(DEFAULT_INDEX))
    }
}

impl Index {
    pub fn as_balance(&self) -> (r: Balance)
        ensures
            r == self.0,
    {
        self.0
    }

    /// `b` scaled by this ratio, rounded down.
    pub fn mul(&self, b: Balance) -> (r: Balance)
        requires
            self.0.0 * b.0 <= u128::MAX,
        ensures
            r.0 == self.0.0 * b.0 / DEFAULT_INDEX as int,
    {
        Balance(self.0.0 * b.0 / DEFAULT_INDEX)
    }

    pub fn add(&self, n: u128) -> (r: Index)
        requires
            self.0.0 + n <= u128::MAX,
        ensures
            r.0.0 == self.0.0 + n,
    {
        Index(Balance(self.0.0 + n))
    }

    pub fn sub(&self, n: u128) -> (r: Index)
        requires
            n <= self.0.0,
        ensures
            r.0.0 == self.0.0 - n,
    {
        Index(Balance(self.0.0 - n))
    }

    /// The ratio `a / b` as an index, rounded down.
    pub fn percent(a: u128, b: u128) -> (r: Index)
        requires
            b > 0,
            a * DEFAULT_INDEX <= u128::MAX,
        ensures
            r.0.0 == a * DEFAULT_INDEX as int / b as int,
    {
        Index(Balance(a * DEFAULT_INDEX / b))
    }
}

/// The fixed-point ledger: its index and total balance.
#[derive(Debug)]
pub struct FixedPointLedger {
    index: Index,
    total_balance: u128,
}

#[derive(Clone, Copy, Debug, PartialEq, Eq, Structural)]
pub enum FixedPointError {
    /// The total balance is zero, so no ratio of it exists.
    EmptyBalance,
    /// The result would not fit in 128 bits or would fall below zero.
    OutOfRange,
}

impl FixedPointLedger {
    pub closed spec fn index_value(&self) -> nat {
        self.index.0.0 as nat
    }

    pub closed spec fn total_value(&self) -> nat {
        self.total_balance as nat
    }

    /// A ledger at a ratio of one, holding nothing.
    pub fn new() -> (r: FixedPointLedger)
        ensures
            r.index_value() == DEFAULT_INDEX,
            r.total_value() == 0,
    {
        FixedPointLedger { index: Index::default(), total_balance: 0 }
    }

    pub fn index(&self) -> (r: Index)
        ensures
            r.0.0 == self.index_value(),
    {
        self.index
    }

    pub fn total_balance(&self) -> (r: u128)
        ensures
            r == self.total_value(),
    {
        self.total_balance
    }

    /// Adds `value` to the total balance, or takes it away when `neg` holds.
    pub fn add_total_balance(&mut self, value: u128, neg: bool) -> (r: Result<(), FixedPointError>)
        ensures
            r is Ok <==> (if neg { value <= old(self).total_value() } else { old(self).total_value() + value <= u128::MAX }),
            r is Ok ==> final(self).total_value() == if neg {
                old(self).total_value() - value
            } else {
                old(self).total_value() + value
            },
            r is Err ==> final(self).total_value() == old(self).total_value(),
            final(self).index_value() == old(self).index_value(),
    {
        if neg {
            if value > self.total_balance {
                return Err(FixedPointError::OutOfRange);
            }
            self.total_balance = self.total_balance - value;
        } else {
            match self.total_balance.checked_add(value) {
                Some(x) => {
                    self.total_balance = x;
                },
                None => {
                    return Err(FixedPointError::OutOfRange);
                },
            }
        }
        Ok(())
    }

    /// Moves the index by the ratio of `delta` to the total balance: down
    /// when `neg` holds, up otherwise.
    pub fn add_index(&mut self, delta: u128, neg: bool) -> (r: Result<(), FixedPointError>)
        ensures
            old(self).total_value() == 0 ==> r == Err::<(), FixedPointError>(FixedPointError::EmptyBalance),
            r is Ok ==> ({
                let step = delta * DEFAULT_INDEX as int / old(self).total_value() as int;
                final(self).index_value() == if neg {
                    old(self).index_value() - step
                } else {
                    old(self).index_value() + step
                }
            }),
            r is Ok <==> (old(self).total_value() > 0 && delta * DEFAULT_INDEX <= u128::MAX && ({
                let step = delta * DEFAULT_INDEX as int / old(self).total_value() as int;
                if neg {
                    step <= old(self).index_value()
                } else {
                    old(self).index_value() + step <= u128::MAX
                }
            })),
            r is Err ==> final(self).index_value() == old(self).index_value(),
            final(self).total_value() == old(self).total_value(),
    {
        if self.total_balance == 0 {
            return Err(FixedPointError::EmptyBalance);
        }
        if delta > u128::MAX / DEFAULT_INDEX {
            return Err(FixedPointError::OutOfRange);
        }
        let step = Index::percent(delta, self.total_balance);
        if neg {
            if step.0.0 > self.index.0.0 {
                return Err(FixedPointError::OutOfRange);
            }
            self.index = self.index.sub(step.0.0);
        } else {
            if step.0.0 > u128::MAX - self.index.0.0 {
                return Err(FixedPointError::OutOfRange);
            }
            self.index = self.index.add(step.0.0);
        }
        Ok(())
    }
}

} // verus!
