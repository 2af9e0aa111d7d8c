//! The engine: the two maps, and the events applied to them one at a time.

use crate::state::{lemma_step_keeps_balance, EngineState};
use crate::types::{ClientAccount, OutputRecord, StoredTransaction, TransactionRecord, TransactionType};
use std::collections::HashMap;
use vstd::prelude::*;
use vstd::std_specs::iter::IteratorSpec;

verus! {

broadcast use vstd::std_specs::hash::group_hash_axioms;

/// The accounts of all clients, and the deposits that may yet be disputed.
pub struct PaymentsEngine {
    clients: HashMap<u16, ClientAccount>,
    transactions: HashMap<u32, StoredTransaction>,
}

impl View for PaymentsEngine {
    type V = EngineState;

    closed spec fn view(&self) -> EngineState {
        EngineState { accounts: self.clients@, ledger: self.transactions@ }
    }
}

impl PaymentsEngine {
    /// An engine that has seen no event.
    pub fn new() -> (r: PaymentsEngine)
        ensures
            r@ == EngineState::empty(),
            r@.wf(),
    {
        PaymentsEngine { clients: HashMap::new(), transactions: HashMap::new() }
    }

    /// The account of `client`, where an event has named that client.
    pub fn account(&self, client: u16) -> (r: Option<ClientAccount>)
        ensures
            r == if self@.accounts.contains_key(client) {
                Some(self@.accounts[client])
            } else {
                None
            },
    {
        match self.clients.get(&client) {
            Some(a) => Some(*a),
            None => None,
        }
    }

    fn handle_deposit(&mut self, record: TransactionRecord)
        requires
            record.kind == TransactionType::Deposit,
            old(self)@.wf(),
            old(self)@.admits(record),
        ensures
            final(self)@ == old(self)@.step(record),
            final(self)@.wf(),
    {
        proof {
            lemma_step_keeps_balance(self@, record);
        }
        if let Some(amount) = record.amount {
            let mut account = match self.clients.get(&record.client) {
                Some(a) => *a,
                None => ClientAccount::new(),
            };
            if account.locked {
                return ;
            }
            account.deposit(amount);
            self.clients.insert(record.client, account);
            self.transactions.insert(
                record.tx,
                StoredTransaction { client: record.client, amount, under_dispute: false },
            );
        }
    }

    fn handle_withdrawal(&mut self, record: TransactionRecord)
        requires
            record.kind == TransactionType::Withdrawal,
            old(self)@.wf(),
            old(self)@.admits(record),
        ensures
            final(self)@ == old(self)@.step(record),
            final(self)@.wf(),
    {
        proof {
            lemma_step_keeps_balance(self@, record);
        }
        if let Some(amount) = record.amount {
            let mut account = match self.clients.get(&record.client) {
                Some(a) => *a,
                None => ClientAccount::new(),
            };
            if account.locked {
                return ;
            }
            account.withdraw(amount);
            self.clients.insert(record.client, account);
        }
    }

    fn handle_dispute(&mut self, record: TransactionRecord)
        requires
            record.kind == TransactionType::Dispute,
            old(self)@.wf(),
            old(self)@.admits(record),
        ensures
            final(self)@ == old(self)@.step(record),
            final(self)@.wf(),
    {
        proof {
            lemma_step_keeps_balance(self@, record);
        }
        if let Some(found) = self.transactions.get(&record.tx) {
            let mut stored = *found;
            if stored.client != record.client {
                return ;
            }
            if stored.under_dispute {
                return ;
            }
            if let Some(owner) = self.clients.get(&record.client) {
                let mut account = *owner;
                if account.locked {
                    return ;
                }
                stored.under_dispute = true;
                account.hold(stored.amount);
                self.transactions.insert(record.tx, stored);
                self.clients.insert(record.client, account);
            }
        }
    }

    fn handle_resolve(&mut self, record: TransactionRecord)
        requires
            record.kind == TransactionType::Resolve,
            old(self)@.wf(),
            old(self)@.admits(record),
        ensures
            final(self)@ == old(self)@.step(record),
            final(self)@.wf(),
    {
        proof {
            lemma_step_keeps_balance(self@, record);
        }
        if let Some(found) = self.transactions.get(&record.tx) {
            let mut stored = *found;
            if stored.client != record.client {
                return ;
            }
            if !stored.under_dispute {
                return ;
            }
            if let Some(owner) = self.clients.get(&record.client) {
                let mut account = *owner;
                if account.locked {
                    return ;
                }
                stored.under_dispute = false;
                account.release(stored.amount);
                self.transactions.insert(record.tx, stored);
                self.clients.insert(record.client, account);
            }
        }
    }

    fn handle_chargeback(&mut self, record: TransactionRecord)
        requires
            record.kind == TransactionType::Chargeback,
            old(self)@.wf(),
            old(self)@.admits(record),
        ensures
            final(self)@ == old(self)@.step(record),
            final(self)@.wf(),
    {
        proof {
            lemma_step_keeps_balance(self@, record);
        }
        if let Some(found) = self.transactions.get(&record.tx) {
            let mut stored = *found;
            if stored.client != record.client {
                return ;
            }
            if !stored.under_dispute {
                return ;
            }
            if let Some(owner) = self.clients.get(&record.client) {
                let mut account = *owner;
                if account.locked {
                    return ;
                }
                stored.under_dispute = false;
                account.chargeback(stored.amount);
                self.transactions.insert(record.tx, stored);
                self.clients.insert(record.client, account);
            }
        }
    }

    /// Applies one event. An event that the rules turn down changes
    /// nothing, and nothing tells the caller so.
    pub fn process(&mut self, record: TransactionRecord)
        requires
            old(self)@.wf(),
            old(self)@.admits(record),
        ensures
            final(self)@ == old(self)@.step(record),
            final(self)@.wf(),
    {
        match record.kind {
            TransactionType::Deposit => self.handle_deposit(record),
            TransactionType::Withdrawal => self.handle_withdrawal(record),
            TransactionType::Dispute => self.handle_dispute(record),
            TransactionType::Resolve => self.handle_resolve(record),
            TransactionType::Chargeback => self.handle_chargeback(record),
        }
    }
}

impl PaymentsEngine {
    /// The entry kept for the deposit `tx`, where one went through.
    pub fn transaction(&self, tx: u32) -> (r: Option<StoredTransaction>)
        ensures
            r == if self@.ledger.contains_key(tx) {
                Some(self@.ledger[tx])
            } else {
                None
            },
    {
        match self.transactions.get(&tx) {
            Some(t) => Some(*t),
            None => None,
        }
    }

    /// The account that a deposit or a withdrawal of `client` works on.
    fn account_or_new(&self, client: u16) -> (r: ClientAccount)
        requires
            self@.wf(),
        ensures
            r == self@.account_of(client),
            r.wf(),
    {
        match self.clients.get(&client) {
            Some(a) => *a,
            None => ClientAccount::new(),
        }
    }

    /// The deposit that `record` names together with its owner's account,
    /// where the deposit is the client's own and the account is open to
    /// changes.
    fn referred(&self, record: &TransactionRecord) -> (r: Option<
        (StoredTransaction, ClientAccount),
    >)
        requires
            self@.wf(),
        ensures
            r == if self@.refers(record.client, record.tx) {
                Some((self@.ledger[record.tx], self@.accounts[record.client]))
            } else {
                None
            },
            r is Some ==> r->Some_0.0.amount.wf() && r->Some_0.1.wf(),
    {
        match self.transactions.get(&record.tx) {
            Some(stored) => {
                if stored.client != record.client {
                    return None;
                }
                match self.clients.get(&record.client) {
                    Some(account) => {
                        if account.locked {
                            None
                        } else {
                            Some((*stored, *account))
                        }
                    },
                    None => None,
                }
            },
            None => None,
        }
    }

    /// Tells whether `process` can apply the event with exact arithmetic.
    pub fn can_process(&self, record: &TransactionRecord) -> (r: bool)
        requires
            self@.wf(),
        ensures
            r == self@.admits(*record),
    {
        match record.kind {
            TransactionType::Deposit => match record.amount {
                Some(amount) => {
                    if !amount.is_valid() {
                        return false;
                    }
                    let account = self.account_or_new(record.client);
                    account.locked || account.can_deposit(amount)
                },
                None => true,
            },
            TransactionType::Withdrawal => match record.amount {
                Some(amount) => {
                    if !amount.is_valid() {
                        return false;
                    }
                    let account = self.account_or_new(record.client);
                    account.locked || account.can_withdraw(amount)
                },
                None => true,
            },
            TransactionType::Dispute => match self.referred(record) {
                Some((stored, account)) => stored.under_dispute || account.can_hold(stored.amount),
                None => true,
            },
            TransactionType::Resolve => match self.referred(record) {
                Some((stored, account)) => !stored.under_dispute || account.can_release(
                    stored.amount,
                ),
                None => true,
            },
            TransactionType::Chargeback => match self.referred(record) {
                Some((stored, account)) => !stored.under_dispute || account.can_chargeback(
                    stored.amount,
                ),
                None => true,
            },
        }
    }

    /// Applies one event where that can be done with exact arithmetic, and
    /// says whether it did. Otherwise the engine stays as it is.
    pub fn try_process(&mut self, record: TransactionRecord) -> (applied: bool)
        requires
            old(self)@.wf(),
        ensures
            applied == old(self)@.admits(record),
            applied ==> final(self)@ == old(self)@.step(record),
            !applied ==> final(self)@ == old(self)@,
            final(self)@.wf(),
    {
        if self.can_process(&record) {
            self.process(record);
            true
        } else {
            false
        }
    }
}

/// The report line of `client`, whose account is `account`.
pub open spec fn record_of(client: u16, account: ClientAccount) -> OutputRecord {
    OutputRecord {
        client,
        available: account.available,
        held: account.held,
        total: account.total,
        locked: account.locked,
    }
}

impl PaymentsEngine {
    /// The final report: one line for each client that an event named, in
    /// no particular order.
    pub fn output_records(&self) -> (r: Vec<OutputRecord>)
        ensures
            r@.len() == self@.accounts.dom().len(),
            forall|i: int|
                0 <= i < r@.len() ==> self@.accounts.contains_key(#[trigger] r@[i].client)
                    && r@[i] == record_of(r@[i].client, self@.accounts[r@[i].client]),
            forall|i: int, j: int|
                0 <= i < j < r@.len() ==> (#[trigger] r@[i]).client != (#[trigger] r@[j]).client,
            forall|c: u16|
                self@.accounts.contains_key(c) ==> exists|i: int|
                    0 <= i < r@.len() && (#[trigger] r@[i]).client == c,
    {
        let mut out: Vec<OutputRecord> = Vec::new();
        let ghost keys = self.clients.keys().remaining();
        for client in it: self.clients.keys()
            invariant
                out@.len() == it.index(),
                it.seq() == keys,
                it.seq().no_duplicates(),
                it.seq().unref().to_set() == self.clients@.dom(),
                it.seq().len() == self.clients@.dom().len(),
                forall|i: int|
                    0 <= i < out@.len() ==> (#[trigger] out@[i]).client == *it.seq()[i]
                        && self.clients@.contains_key(out@[i].client) && out@[i] == record_of(
                        out@[i].client,
                        self.clients@[out@[i].client],
                    ),
        {
            match self.clients.get(client) {
                Some(account) => {
                    out.push(
                        OutputRecord {
                            client: *client,
                            available: account.available,
                            held: account.held,
                            total: account.total,
                            locked: account.locked,
                        },
                    );
                },
                None => {},
            }
        }
        proof {
            assert forall|c: u16| self@.accounts.contains_key(c) implies exists|i: int|
                0 <= i < out@.len() && (#[trigger] out@[i]).client == c by {
                assert(keys.unref().to_set().contains(c));
                let i = choose|i: int| 0 <= i < keys.unref().len() && keys.unref()[i] == c;
                assert(out@[i].client == c);
            }
        }
        out
    }
}

} // verus!
