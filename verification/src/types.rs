//! The records that the engine reads, keeps and gives out.

use crate::amount::{
    decimal_at_least, decimal_difference, decimal_sum, lemma_add_exact, lemma_sub_exact, pow10,
    Amount, MAX_SCALE,
};
use vstd::prelude::*;

verus! {

/// The five kinds of event.
#[derive(Debug, Clone, Copy, PartialEq, Eq, Structural)]
pub enum TransactionType {
    Deposit,
    Withdrawal,
    Dispute,
    Resolve,
    Chargeback,
}

/// One event of the input stream. A dispute, a resolve and a chargeback
/// carry no amount of their own: they name an earlier deposit by `tx`.
#[derive(Debug, Clone, Copy)]
pub struct TransactionRecord {
    pub kind: TransactionType,
    pub client: u16,
    pub tx: u32,
    pub amount: Option<Amount>,
}

/// What the engine keeps of a deposit, for the disputes that may follow.
#[derive(Debug, Clone, Copy)]
pub struct StoredTransaction {
    pub client: u16,
    pub amount: Amount,
    pub under_dispute: bool,
}

/// The balances of one client.
#[derive(Debug, Clone, Copy)]
pub struct ClientAccount {
    pub available: Amount,
    pub held: Amount,
    pub total: Amount,
    pub locked: bool,
}

/// One line of the final report.
#[derive(Debug, Clone, Copy)]
pub struct OutputRecord {
    pub client: u16,
    pub available: Amount,
    pub held: Amount,
    pub total: Amount,
    pub locked: bool,
}

impl ClientAccount {
    /// The three balances are valid amounts.
    pub open spec fn wf(self) -> bool {
        self.available.wf() && self.held.wf() && self.total.wf()
    }

    /// The available and the held funds add up to the total.
    pub open spec fn balanced(self) -> bool {
        self.available@ + self.held@ == self.total@
    }

    /// The account of a client that was never heard of: no funds, unlocked.
    pub open spec fn spec_new() -> ClientAccount {
        ClientAccount {
            available: Amount::spec_zero(),
            held: Amount::spec_zero(),
            total: Amount::spec_zero(),
            locked: false,
        }
    }

    /// An empty, unlocked account.
    pub fn new() -> (r: ClientAccount)
        ensures
            r == ClientAccount::spec_new(),
            r.wf(),
            r.balanced(),
    {
        ClientAccount {
            available: Amount::zero(),
            held: Amount::zero(),
            total: Amount::zero(),
            locked: false,
        }
    }
}

impl ClientAccount {
    /// Whether `amount` can be added to the available funds and to the
    /// total without rounding.
    pub open spec fn deposit_exact(self, amount: Amount) -> bool {
        self.available.sum_exact(amount) && self.total.sum_exact(amount)
    }

    /// The account after `amount` came in.
    pub open spec fn after_deposit(self, amount: Amount) -> ClientAccount {
        ClientAccount {
            available: self.available.spec_add(amount),
            total: self.total.spec_add(amount),
            ..self
        }
    }

    /// Whether the available funds pay for `amount`.
    pub open spec fn covers(self, amount: Amount) -> bool {
        self.available@ >= amount@
    }

    /// Whether `amount`, where the available funds pay for it, can be taken
    /// from them and from the total without rounding.
    pub open spec fn withdraw_exact(self, amount: Amount) -> bool {
        self.covers(amount) ==> self.available.diff_exact(amount) && self.total.diff_exact(
            amount,
        )
    }

    /// The account after a withdrawal of `amount` was asked for: unchanged
    /// where the available funds do not pay for it.
    pub open spec fn after_withdraw(self, amount: Amount) -> ClientAccount {
        if self.covers(amount) {
            ClientAccount {
                available: self.available.spec_sub(amount),
                total: self.total.spec_sub(amount),
                ..self
            }
        } else {
            self
        }
    }

    /// Whether `amount` can move from the available to the held funds
    /// without rounding.
    pub open spec fn hold_exact(self, amount: Amount) -> bool {
        self.available.diff_exact(amount) && self.held.sum_exact(amount)
    }

    /// The account after `amount` moved from the available to the held
    /// funds.
    pub open spec fn after_hold(self, amount: Amount) -> ClientAccount {
        ClientAccount {
            available: self.available.spec_sub(amount),
            held: self.held.spec_add(amount),
            ..self
        }
    }

    /// Whether `amount` can move from the held to the available funds
    /// without rounding.
    pub open spec fn release_exact(self, amount: Amount) -> bool {
        self.held.diff_exact(amount) && self.available.sum_exact(amount)
    }

    /// The account after `amount` moved back from the held to the available
    /// funds.
    pub open spec fn after_release(self, amount: Amount) -> ClientAccount {
        ClientAccount {
            held: self.held.spec_sub(amount),
            available: self.available.spec_add(amount),
            ..self
        }
    }

    /// Whether `amount` can be taken from the held funds and from the total
    /// without rounding.
    pub open spec fn chargeback_exact(self, amount: Amount) -> bool {
        self.held.diff_exact(amount) && self.total.diff_exact(amount)
    }

    /// The account after the held `amount` was taken away for good: locked.
    pub open spec fn after_chargeback(self, amount: Amount) -> ClientAccount {
        ClientAccount {
            held: self.held.spec_sub(amount),
            total: self.total.spec_sub(amount),
            locked: true,
            ..self
        }
    }

    /// Adds `amount` to the available funds and to the total.
    pub fn deposit(&mut self, amount: Amount)
        requires
            old(self).wf(),
            amount.wf(),
            old(self).deposit_exact(amount),
        ensures
            *final(self) == old(self).after_deposit(amount),
            final(self).wf(),
            final(self).available@ == old(self).available@ + amount@,
            final(self).total@ == old(self).total@ + amount@,
            old(self).balanced() ==> final(self).balanced(),
    {
        proof {
            lemma_add_exact(self.available, amount);
            lemma_add_exact(self.total, amount);
        }
        self.available = decimal_sum(self.available, amount);
        self.total = decimal_sum(self.total, amount);
    }

    /// Takes `amount` from the available funds and from the total where the
    /// available funds pay for it, and says whether they did. Otherwise the
    /// account stays as it is.
    pub fn withdraw(&mut self, amount: Amount) -> (done: bool)
        requires
            old(self).wf(),
            amount.wf(),
            old(self).withdraw_exact(amount),
        ensures
            done == old(self).covers(amount),
            *final(self) == old(self).after_withdraw(amount),
            final(self).wf(),
            done ==> final(self).available@ == old(self).available@ - amount@,
            done ==> final(self).total@ == old(self).total@ - amount@,
            old(self).balanced() ==> final(self).balanced(),
    {
        if decimal_at_least(self.available, amount) {
            proof {
                lemma_sub_exact(self.available, amount);
                lemma_sub_exact(self.total, amount);
            }
            self.available = decimal_difference(self.available, amount);
            self.total = decimal_difference(self.total, amount);
            true
        } else {
            false
        }
    }

    /// Moves `amount` from the available to the held funds.
    pub fn hold(&mut self, amount: Amount)
        requires
            old(self).wf(),
            amount.wf(),
            old(self).hold_exact(amount),
        ensures
            *final(self) == old(self).after_hold(amount),
            final(self).wf(),
            final(self).available@ == old(self).available@ - amount@,
            final(self).held@ == old(self).held@ + amount@,
            old(self).balanced() ==> final(self).balanced(),
    {
        proof {
            lemma_sub_exact(self.available, amount);
            lemma_add_exact(self.held, amount);
        }
        self.available = decimal_difference(self.available, amount);
        self.held = decimal_sum(self.held, amount);
    }

    /// Moves `amount` back from the held to the available funds.
    pub fn release(&mut self, amount: Amount)
        requires
            old(self).wf(),
            amount.wf(),
            old(self).release_exact(amount),
        ensures
            *final(self) == old(self).after_release(amount),
            final(self).wf(),
            final(self).held@ == old(self).held@ - amount@,
            final(self).available@ == old(self).available@ + amount@,
            old(self).balanced() ==> final(self).balanced(),
    {
        proof {
            lemma_sub_exact(self.held, amount);
            lemma_add_exact(self.available, amount);
        }
        self.held = decimal_difference(self.held, amount);
        self.available = decimal_sum(self.available, amount);
    }

    /// Takes `amount` from the held funds and from the total, and locks the
    /// account.
    pub fn chargeback(&mut self, amount: Amount)
        requires
            old(self).wf(),
            amount.wf(),
            old(self).chargeback_exact(amount),
        ensures
            *final(self) == old(self).after_chargeback(amount),
            final(self).wf(),
            final(self).held@ == old(self).held@ - amount@,
            final(self).total@ == old(self).total@ - amount@,
            final(self).locked,
            old(self).balanced() ==> final(self).balanced(),
    {
        proof {
            lemma_sub_exact(self.held, amount);
            lemma_sub_exact(self.total, amount);
        }
        self.held = decimal_difference(self.held, amount);
        self.total = decimal_difference(self.total, amount);
        self.locked = true;
    }
}

impl ClientAccount {
    /// The empty account is valid and balanced.
    pub proof fn lemma_new_is_balanced()
        ensures
            ClientAccount::spec_new().wf(),
            ClientAccount::spec_new().balanced(),
    {
        let z = Amount::spec_zero();
        assert(z@ == 0) by (nonlinear_arith)
            requires
                z@ == 0 * pow10((MAX_SCALE - 0) as nat),
        ;
    }

    /// An exact deposit leaves a valid account, and a balanced one balanced.
    pub proof fn lemma_deposit_keeps_balance(self, amount: Amount)
        requires
            self.wf(),
            amount.wf(),
            self.deposit_exact(amount),
        ensures
            self.after_deposit(amount).wf(),
            self.balanced() ==> self.after_deposit(amount).balanced(),
    {
        lemma_add_exact(self.available, amount);
        lemma_add_exact(self.total, amount);
    }

    /// An exact withdrawal leaves a valid account, and a balanced one
    /// balanced.
    pub proof fn lemma_withdraw_keeps_balance(self, amount: Amount)
        requires
            self.wf(),
            amount.wf(),
            self.withdraw_exact(amount),
        ensures
            self.after_withdraw(amount).wf(),
            self.balanced() ==> self.after_withdraw(amount).balanced(),
    {
        if self.covers(amount) {
            lemma_sub_exact(self.available, amount);
            lemma_sub_exact(self.total, amount);
        }
    }

    /// An exact hold leaves a valid account, and a balanced one balanced.
    pub proof fn lemma_hold_keeps_balance(self, amount: Amount)
        requires
            self.wf(),
            amount.wf(),
            self.hold_exact(amount),
        ensures
            self.after_hold(amount).wf(),
            self.balanced() ==> self.after_hold(amount).balanced(),
    {
        lemma_sub_exact(self.available, amount);
        lemma_add_exact(self.held, amount);
    }

    /// An exact release leaves a valid account, and a balanced one balanced.
    pub proof fn lemma_release_keeps_balance(self, amount: Amount)
        requires
            self.wf(),
            amount.wf(),
            self.release_exact(amount),
        ensures
            self.after_release(amount).wf(),
            self.balanced() ==> self.after_release(amount).balanced(),
    {
        lemma_sub_exact(self.held, amount);
        lemma_add_exact(self.available, amount);
    }

    /// An exact chargeback leaves a valid account, and a balanced one
    /// balanced.
    pub proof fn lemma_chargeback_keeps_balance(self, amount: Amount)
        requires
            self.wf(),
            amount.wf(),
            self.chargeback_exact(amount),
        ensures
            self.after_chargeback(amount).wf(),
            self.balanced() ==> self.after_chargeback(amount).balanced(),
    {
        lemma_sub_exact(self.held, amount);
        lemma_sub_exact(self.total, amount);
    }
}

impl ClientAccount {
    /// Tells whether a deposit of `amount` is exact.
    pub fn can_deposit(&self, amount: Amount) -> (r: bool)
        requires
            self.wf(),
            amount.wf(),
        ensures
            r == self.deposit_exact(amount),
    {
        self.available.sum_is_exact(amount) && self.total.sum_is_exact(amount)
    }

    /// Tells whether a withdrawal of `amount` is exact, or turned down for
    /// want of funds.
    pub fn can_withdraw(&self, amount: Amount) -> (r: bool)
        requires
            self.wf(),
            amount.wf(),
        ensures
            r == self.withdraw_exact(amount),
    {
        !decimal_at_least(self.available, amount) || (self.available.diff_is_exact(amount)
            && self.total.diff_is_exact(amount))
    }

    /// Tells whether a hold of `amount` is exact.
    pub fn can_hold(&self, amount: Amount) -> (r: bool)
        requires
            self.wf(),
            amount.wf(),
        ensures
            r == self.hold_exact(amount),
    {
        self.available.diff_is_exact(amount) && self.held.sum_is_exact(amount)
    }

    /// Tells whether a release of `amount` is exact.
    pub fn can_release(&self, amount: Amount) -> (r: bool)
        requires
            self.wf(),
            amount.wf(),
        ensures
            r == self.release_exact(amount),
    {
        self.held.diff_is_exact(amount) && self.available.sum_is_exact(amount)
    }

    /// Tells whether a chargeback of `amount` is exact.
    pub fn can_chargeback(&self, amount: Amount) -> (r: bool)
        requires
            self.wf(),
            amount.wf(),
        ensures
            r == self.chargeback_exact(amount),
    {
        self.held.diff_is_exact(amount) && self.total.diff_is_exact(amount)
    }
}

} // verus!
