//! The gas of a transaction, a call or a create, and what things cost.
use vstd::prelude::*;

verus! {

/// Whether gas is counted.
pub const USE_GAS: bool = true;

/// The price of a byte of code that a create deposits.
pub const CODEDEPOSIT: u64 = 200;

/// The price of a zero byte of transaction data.
pub const TRANSACTION_ZERO_DATA: u64 = 4;

/// The price of an address in the access list.
pub const ACCESS_LIST_ADDRESS: u64 = 2400;

/// The price of a slot in the access list.
pub const ACCESS_LIST_STORAGE_KEY: u64 = 1900;

/// Gas: a limit, what is spent of it, and what is to be refunded in the end.
#[derive(Clone, Copy, Debug)]
pub struct Gas {
    limit: u64,
    spent: u64,
    refunded: i64,
}

/// The value of a [`Gas`].
pub struct GasView {
    pub limit: nat,
    pub spent: nat,
    pub refunded: int,
}

impl View for Gas {
    type V = GasView;

    closed spec fn view(&self) -> GasView {
        GasView {
            limit: self.limit as nat,
            spent: self.spent as nat,
            refunded: self.refunded as int,
        }
    }
}

impl GasView {
    /// A limit of which nothing is spent.
    pub open spec fn fresh(limit: nat) -> GasView {
        GasView { limit, spent: 0, refunded: 0 }
    }

    /// What is left.
    pub open spec fn remaining(self) -> nat {
        (self.limit - self.spent) as nat
    }

    /// Whether `cost` is left.
    pub open spec fn affords(self, cost: nat) -> bool {
        self.spent + cost <= self.limit
    }

    /// After `cost` was spent; as before where it is not left.
    pub open spec fn charged(self, cost: nat) -> GasView {
        if self.affords(cost) {
            GasView { spent: self.spent + cost, ..self }
        } else {
            self
        }
    }

    /// After `returned` came back, as far as that much was spent.
    pub open spec fn erased(self, returned: nat) -> GasView {
        GasView {
            spent: if returned <= self.spent {
                (self.spent - returned) as nat
            } else {
                0
            },
            ..self
        }
    }

    /// No more is spent than the limit, and the numbers fit the machine's.
    pub open spec fn wf(self) -> bool {
        &&& self.spent <= self.limit <= u64::MAX
        &&& i64::MIN <= self.refunded <= i64::MAX
    }
}

impl Gas {
    #[verifier::type_invariant]
    spec fn within_limit(self) -> bool {
        self.spent <= self.limit
    }

    /// Gas of which nothing is spent.
    pub fn new(limit: u64) -> (r: Self)
        ensures
            r@ == GasView::fresh(limit as nat),
    {
        Gas { limit, spent: 0, refunded: 0 }
    }

    /// The gas of an execution under `limit` that spent `spent`, as far as the limit goes, and is
    /// to be refunded `refunded`.
    pub fn after(limit: u64, spent: u64, refunded: i64) -> (r: Self)
        ensures
            r@ == (GasView {
                limit: limit as nat,
                spent: if spent <= limit {
                    spent as nat
                } else {
                    limit as nat
                },
                refunded: refunded as int,
            }),
    {
        let spent: u64 = if spent <= limit {
            spent
        } else {
            limit
        };
        Gas { limit, spent, refunded }
    }

    /// The limit.
    pub fn limit(&self) -> (r: u64)
        ensures
            r == self@.limit,
            self@.wf(),
    {
        proof {
            use_type_invariant(self);
        }
        self.limit
    }

    /// What is spent.
    pub fn spend(&self) -> (r: u64)
        ensures
            r == self@.spent,
            self@.wf(),
    {
        proof {
            use_type_invariant(self);
        }
        self.spent
    }

    /// What is to be refunded.
    pub fn refunded(&self) -> (r: i64)
        ensures
            r == self@.refunded,
            self@.wf(),
    {
        proof {
            use_type_invariant(self);
        }
        self.refunded
    }

    /// What is left.
    pub fn remaining(&self) -> (r: u64)
        ensures
            r == self@.remaining(),
            self@.wf(),
    {
        proof {
            use_type_invariant(self);
        }
        self.limit - self.spent
    }

    /// Spends `cost`. Where it is not left nothing is spent, and `false` comes back.
    pub fn record_cost(&mut self, cost: u64) -> (r: bool)
        ensures
            r == old(self)@.affords(cost as nat),
            final(self)@ == old(self)@.charged(cost as nat),
    {
        proof {
            use_type_invariant(&*self);
        }
        if cost <= self.limit - self.spent {
            self.spent = self.spent + cost;
            true
        } else {
            false
        }
    }

    /// Gives back `returned` of what was spent.
    pub fn erase_cost(&mut self, returned: u64)
        ensures
            final(self)@ == old(self)@.erased(returned as nat),
    {
        proof {
            use_type_invariant(&*self);
        }
        if returned <= self.spent {
            self.spent = self.spent - returned;
        } else {
            self.spent = 0;
        }
    }

    /// Adds to what is to be refunded, as far as the number fits the machine's.
    pub fn record_refund(&mut self, refund: i64)
        ensures
            final(self)@ == (GasView {
                refunded: if old(self)@.refunded + refund > i64::MAX {
                    i64::MAX as int
                } else if old(self)@.refunded + refund < i64::MIN {
                    i64::MIN as int
                } else {
                    old(self)@.refunded + refund
                },
                ..old(self)@
            }),
    {
        proof {
            use_type_invariant(&*self);
        }
        if refund >= 0 {
            if self.refunded <= i64::MAX - refund {
                self.refunded = self.refunded + refund;
            } else {
                self.refunded = i64::MAX;
            }
        } else if self.refunded >= i64::MIN - refund {
            self.refunded = self.refunded + refund;
        } else {
            self.refunded = i64::MIN;
        }
    }
}

} // verus!
