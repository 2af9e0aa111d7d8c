//! The mathematical model of the engine: two maps, and what each event
//! makes of them.

use crate::amount::Amount;
use crate::types::{ClientAccount, StoredTransaction, TransactionRecord, TransactionType};
use vstd::prelude::*;

verus! {

/// All that the engine knows: one account for each client that an event
/// named, and one entry for each deposit that went through.
pub ghost struct EngineState {
    pub accounts: Map<u16, ClientAccount>,
    pub ledger: Map<u32, StoredTransaction>,
}

impl EngineState {
    /// The state before any event.
    pub open spec fn empty() -> EngineState {
        EngineState { accounts: Map::empty(), ledger: Map::empty() }
    }

    /// Every amount kept is a valid one, and each account's available and
    /// held funds add up to its total.
    pub open spec fn wf(self) -> bool {
        &&& forall|c: u16| #[trigger]
            self.accounts.contains_key(c) ==> self.accounts[c].wf() && self.accounts[c].balanced()
        &&& forall|t: u32| #[trigger] self.ledger.contains_key(t) ==> self.ledger[t].amount.wf()
    }

    /// The account of `client`; an empty one where the client is new.
    pub open spec fn account_of(self, client: u16) -> ClientAccount {
        if self.accounts.contains_key(client) {
            self.accounts[client]
        } else {
            ClientAccount::spec_new()
        }
    }

    /// Whether `tx` names a deposit of `client`, whose account is open to
    /// changes.
    pub open spec fn refers(self, client: u16, tx: u32) -> bool {
        &&& self.ledger.contains_key(tx)
        &&& self.ledger[tx].client == client
        &&& self.accounts.contains_key(client)
        &&& !self.accounts[client].locked
    }

    /// Whether a dispute of `tx` by `client` takes effect.
    pub open spec fn disputable(self, client: u16, tx: u32) -> bool {
        self.refers(client, tx) && !self.ledger[tx].under_dispute
    }

    /// Whether a resolve or a chargeback of `tx` by `client` takes effect.
    pub open spec fn settleable(self, client: u16, tx: u32) -> bool {
        self.refers(client, tx) && self.ledger[tx].under_dispute
    }

    /// The state with the dispute flag of the entry `tx` set to `flag`.
    pub open spec fn flagged(self, tx: u32, flag: bool) -> Map<u32, StoredTransaction> {
        self.ledger.insert(tx, StoredTransaction { under_dispute: flag, ..self.ledger[tx] })
    }

    /// A deposit of `amount` for `client` under the identifier `tx`. It
    /// creates the account where there was none, adds the amount to it and
    /// records the deposit, in place of any earlier entry for `tx`. A
    /// locked account takes nothing.
    pub open spec fn deposit(self, client: u16, tx: u32, amount: Amount) -> EngineState {
        let account = self.account_of(client);
        if account.locked {
            self
        } else {
            EngineState {
                accounts: self.accounts.insert(client, account.after_deposit(amount)),
                ledger: self.ledger.insert(
                    tx,
                    StoredTransaction { client, amount, under_dispute: false },
                ),
            }
        }
    }

    /// A withdrawal of `amount` for `client`. It creates the account where
    /// there was none, and takes the amount where the available funds pay
    /// for it. A locked account gives nothing.
    pub open spec fn withdraw(self, client: u16, amount: Amount) -> EngineState {
        let account = self.account_of(client);
        if account.locked {
            self
        } else {
            EngineState {
                accounts: self.accounts.insert(client, account.after_withdraw(amount)),
                ledger: self.ledger,
            }
        }
    }

    /// A dispute of `tx` by `client`: the deposited amount moves to the
    /// held funds and the entry is marked.
    pub open spec fn dispute(self, client: u16, tx: u32) -> EngineState {
        if self.disputable(client, tx) {
            EngineState {
                accounts: self.accounts.insert(
                    client,
                    self.accounts[client].after_hold(self.ledger[tx].amount),
                ),
                ledger: self.flagged(tx, true),
            }
        } else {
            self
        }
    }

    /// A resolve of `tx` by `client`: the disputed amount moves back to the
    /// available funds and the mark is taken off.
    pub open spec fn resolve(self, client: u16, tx: u32) -> EngineState {
        if self.settleable(client, tx) {
            EngineState {
                accounts: self.accounts.insert(
                    client,
                    self.accounts[client].after_release(self.ledger[tx].amount),
                ),
                ledger: self.flagged(tx, false),
            }
        } else {
            self
        }
    }

    /// A chargeback of `tx` by `client`: the disputed amount leaves the
    /// account, which is locked, and the mark is taken off.
    pub open spec fn chargeback(self, client: u16, tx: u32) -> EngineState {
        if self.settleable(client, tx) {
            EngineState {
                accounts: self.accounts.insert(
                    client,
                    self.accounts[client].after_chargeback(self.ledger[tx].amount),
                ),
                ledger: self.flagged(tx, false),
            }
        } else {
            self
        }
    }

    /// The state after one event. A deposit or a withdrawal without an
    /// amount changes nothing; the other kinds never read the amount.
    pub open spec fn step(self, record: TransactionRecord) -> EngineState {
        match record.kind {
            TransactionType::Deposit => match record.amount {
                Some(amount) => self.deposit(record.client, record.tx, amount),
                None => self,
            },
            TransactionType::Withdrawal => match record.amount {
                Some(amount) => self.withdraw(record.client, amount),
                None => self,
            },
            TransactionType::Dispute => self.dispute(record.client, record.tx),
            TransactionType::Resolve => self.resolve(record.client, record.tx),
            TransactionType::Chargeback => self.chargeback(record.client, record.tx),
        }
    }

    /// Whether a deposit of `amount` for `client` is free of rounding.
    pub open spec fn admits_deposit(self, client: u16, amount: Amount) -> bool {
        amount.wf() && (self.account_of(client).locked || self.account_of(client).deposit_exact(
            amount,
        ))
    }

    /// Whether a withdrawal of `amount` for `client` is free of rounding.
    pub open spec fn admits_withdrawal(self, client: u16, amount: Amount) -> bool {
        amount.wf() && (self.account_of(client).locked || self.account_of(client).withdraw_exact(
            amount,
        ))
    }

    /// Whether a dispute of `tx` by `client` is free of rounding.
    pub open spec fn admits_dispute(self, client: u16, tx: u32) -> bool {
        self.disputable(client, tx) ==> self.accounts[client].hold_exact(self.ledger[tx].amount)
    }

    /// Whether a resolve of `tx` by `client` is free of rounding.
    pub open spec fn admits_resolve(self, client: u16, tx: u32) -> bool {
        self.settleable(client, tx) ==> self.accounts[client].release_exact(self.ledger[tx].amount)
    }

    /// Whether a chargeback of `tx` by `client` is free of rounding.
    pub open spec fn admits_chargeback(self, client: u16, tx: u32) -> bool {
        self.settleable(client, tx) ==> self.accounts[client].chargeback_exact(
            self.ledger[tx].amount,
        )
    }

    /// Whether the event can be applied with exact arithmetic: its amount,
    /// where it is read, is a valid one, and every sum and difference that
    /// the event asks for is one that a decimal holds without rounding.
    pub open spec fn admits(self, record: TransactionRecord) -> bool {
        match record.kind {
            TransactionType::Deposit => match record.amount {
                Some(amount) => self.admits_deposit(record.client, amount),
                None => true,
            },
            TransactionType::Withdrawal => match record.amount {
                Some(amount) => self.admits_withdrawal(record.client, amount),
                None => true,
            },
            TransactionType::Dispute => self.admits_dispute(record.client, record.tx),
            TransactionType::Resolve => self.admits_resolve(record.client, record.tx),
            TransactionType::Chargeback => self.admits_chargeback(record.client, record.tx),
        }
    }
}

/// Balance: where every account's available and held funds add up to its
/// total, they still do after any event that is applied with exact
/// arithmetic, and every amount kept is still a valid one.
pub proof fn lemma_step_keeps_balance(s: EngineState, record: TransactionRecord)
    requires
        s.wf(),
        s.admits(record),
    ensures
        s.step(record).wf(),
{
    let client = record.client;
    let tx = record.tx;
    let account = s.account_of(client);
    ClientAccount::lemma_new_is_balanced();
    match record.kind {
        TransactionType::Deposit => {
            if let Some(amount) = record.amount {
                if !account.locked {
                    account.lemma_deposit_keeps_balance(amount);
                }
            }
        },
        TransactionType::Withdrawal => {
            if let Some(amount) = record.amount {
                if !account.locked {
                    account.lemma_withdraw_keeps_balance(amount);
                }
            }
        },
        TransactionType::Dispute => {
            if s.disputable(client, tx) {
                account.lemma_hold_keeps_balance(s.ledger[tx].amount);
            }
        },
        TransactionType::Resolve => {
            if s.settleable(client, tx) {
                account.lemma_release_keeps_balance(s.ledger[tx].amount);
            }
        },
        TransactionType::Chargeback => {
            if s.settleable(client, tx) {
                account.lemma_chargeback_keeps_balance(s.ledger[tx].amount);
            }
        },
    }
}

impl TransactionRecord {
    /// Whether the event is a dispute, a resolve or a chargeback: one that
    /// names an earlier deposit.
    pub open spec fn names_a_deposit(self) -> bool {
        self.kind == TransactionType::Dispute || self.kind == TransactionType::Resolve
            || self.kind == TransactionType::Chargeback
    }
}

impl EngineState {
    /// Whether the event is a deposit that goes through and is recorded
    /// under the identifier `tx`, in place of what was recorded there.
    pub open spec fn records_under(self, record: TransactionRecord, tx: u32) -> bool {
        &&& record.kind == TransactionType::Deposit
        &&& record.amount is Some
        &&& record.tx == tx
        &&& !self.account_of(record.client).locked
    }
}

/// A locked account is frozen: no event changes its balances or its lock,
/// and none changes, adds or removes an entry that belongs to it. The one
/// way round it is a deposit that another client makes under the
/// identifier of such an entry, which takes the entry's place.
pub proof fn lemma_locked_account_is_frozen(s: EngineState, record: TransactionRecord, client: u16)
    requires
        s.accounts.contains_key(client),
        s.accounts[client].locked,
    ensures
        s.step(record).accounts.contains_key(client),
        s.step(record).accounts[client] == s.accounts[client],
        forall|t: u32|
            s.ledger.contains_key(t) && s.ledger[t].client == client && !s.records_under(record, t)
                ==> #[trigger] s.step(record).ledger.contains_key(t) && s.step(record).ledger[t]
                == s.ledger[t],
        forall|t: u32|
            #[trigger] s.step(record).ledger.contains_key(t) && s.step(record).ledger[t].client
                == client ==> s.ledger.contains_key(t) && s.ledger[t] == s.step(record).ledger[t],
{
}

/// A dispute of a deposit that is under dispute already changes nothing.
pub proof fn lemma_second_dispute_has_no_effect(s: EngineState, record: TransactionRecord)
    requires
        record.kind == TransactionType::Dispute,
        s.ledger.contains_key(record.tx),
        s.ledger[record.tx].under_dispute,
    ensures
        s.step(record) == s,
{
}

/// Disputing twice is disputing once, whatever the first dispute did.
pub proof fn lemma_dispute_is_idempotent(s: EngineState, record: TransactionRecord)
    requires
        record.kind == TransactionType::Dispute,
    ensures
        s.step(record).step(record) == s.step(record),
{
}

/// A resolve or a chargeback of a deposit that is not under dispute
/// changes nothing.
pub proof fn lemma_settling_the_undisputed_has_no_effect(s: EngineState, record: TransactionRecord)
    requires
        record.kind == TransactionType::Resolve || record.kind == TransactionType::Chargeback,
        !(s.ledger.contains_key(record.tx) && s.ledger[record.tx].under_dispute),
    ensures
        s.step(record) == s,
{
}

/// A dispute, a resolve or a chargeback that names another client's
/// deposit changes nothing.
pub proof fn lemma_foreign_deposit_has_no_effect(s: EngineState, record: TransactionRecord)
    requires
        record.names_a_deposit(),
        s.ledger.contains_key(record.tx),
        s.ledger[record.tx].client != record.client,
    ensures
        s.step(record) == s,
{
}

/// A dispute, a resolve or a chargeback that names no recorded deposit
/// changes nothing.
pub proof fn lemma_unknown_deposit_has_no_effect(s: EngineState, record: TransactionRecord)
    requires
        record.names_a_deposit(),
        !s.ledger.contains_key(record.tx),
    ensures
        s.step(record) == s,
{
}

/// A withdrawal of more than is available takes nothing: the account keeps
/// its balances, and a client that was new gets an empty account.
pub proof fn lemma_uncovered_withdrawal_has_no_effect(s: EngineState, record: TransactionRecord)
    requires
        record.kind == TransactionType::Withdrawal,
        record.amount is Some,
        record.amount->Some_0@ > s.account_of(record.client).available@,
    ensures
        s.step(record).ledger == s.ledger,
        s.step(record).accounts == s.accounts.insert(record.client, s.account_of(record.client)),
        s.accounts.contains_key(record.client) ==> s.step(record) == s,
{
    assert(s.accounts.contains_key(record.client) ==> s.accounts.insert(
        record.client,
        s.accounts[record.client],
    ) =~= s.accounts);
}

impl EngineState {
    /// The state after the events of `records`, applied in their order.
    pub open spec fn replay(self, records: Seq<TransactionRecord>) -> EngineState
        decreases records.len(),
    {
        if records.len() == 0 {
            self
        } else {
            self.replay(records.drop_last()).step(records.last())
        }
    }

    /// Whether each event of `records`, in its turn, can be applied with
    /// exact arithmetic.
    pub open spec fn admits_all(self, records: Seq<TransactionRecord>) -> bool
        decreases records.len(),
    {
        records.len() == 0 || (self.admits_all(records.drop_last()) && self.replay(
            records.drop_last(),
        ).admits(records.last()))
    }
}

/// Balance, along a whole stream: after any number of events, each applied
/// with exact arithmetic, every account's available and held funds add up
/// to its total.
pub proof fn lemma_replay_keeps_balance(s: EngineState, records: Seq<TransactionRecord>)
    requires
        s.wf(),
        s.admits_all(records),
    ensures
        s.replay(records).wf(),
    decreases records.len(),
{
    if records.len() > 0 {
        lemma_replay_keeps_balance(s, records.drop_last());
        lemma_step_keeps_balance(s.replay(records.drop_last()), records.last());
    }
}

/// A locked account stays as it is, whatever events follow.
pub proof fn lemma_locked_account_stays_frozen(
    s: EngineState,
    records: Seq<TransactionRecord>,
    client: u16,
)
    requires
        s.accounts.contains_key(client),
        s.accounts[client].locked,
    ensures
        s.replay(records).accounts.contains_key(client),
        s.replay(records).accounts[client] == s.accounts[client],
    decreases records.len(),
{
    if records.len() > 0 {
        lemma_locked_account_stays_frozen(s, records.drop_last(), client);
        lemma_locked_account_is_frozen(s.replay(records.drop_last()), records.last(), client);
    }
}

} // verus!
