use vstd::prelude::*;

use crate::store::{
    balance_in, lemma_balance_bounded, lemma_total_insert, lemma_two_balances_bounded, total_of,
    AccountId, LedgerStore,
};

verus! {

/// Notifications that the engine hands to the host's event log.
#[derive(Clone, Copy, Debug, PartialEq, Eq, Structural)]
pub enum Event {
    /// The supply was issued to this account.
    Initialized(AccountId),
    /// `(from, to, value)`: units moved between two accounts.
    Transfer(AccountId, AccountId, u64),
}

/// The failures that a caller of the engine can recover from.
#[derive(Clone, Copy, Debug, PartialEq, Eq, Structural)]
pub enum Error {
    /// The supply has already been issued.
    AlreadyInitialized,
    /// The sender holds less than the amount.
    InsufficientFunds,
}

/// The entries after `amount` moves from `from` to `to`: the sender's entry is written first,
/// then the recipient's, read after that write, so that a transfer to oneself changes nothing.
pub open spec fn transfer_map(
    m: Map<AccountId, u64>,
    from: AccountId,
    to: AccountId,
    amount: u64,
) -> Map<AccountId, u64> {
    let debited = m.insert(from, (balance_in(m, from) - amount) as u64);
    debited.insert(to, (balance_in(debited, to) + amount) as u64)
}

/// The balances sum to the total supply once it is issued, and to zero before.
pub open spec fn conserved(l: LedgerStore) -> bool {
    l.total_balance() == if l.initialized() {
        l.total_supply() as int
    } else {
        0
    }
}

/// Decides an issuance: the balance that the caller gets, or why there is none.
pub fn plan_init(initialized: bool, total_supply: u64) -> (r: Result<u64, Error>)
    ensures
        initialized ==> r == Err::<u64, Error>(Error::AlreadyInitialized),
        !initialized ==> r == Ok::<u64, Error>(total_supply),
{
    if initialized {
        Err(Error::AlreadyInitialized)
    } else {
        Ok(total_supply)
    }
}

/// Decides a transfer from the balances that the two accounts hold: the sender's new balance and
/// then the recipient's, as read after the sender's is written, or why the transfer fails.
pub fn plan_transfer(
    sender_balance: u64,
    recipient_balance: u64,
    same_account: bool,
    amount: u64,
) -> (r: Result<(u64, u64), Error>)
    requires
        same_account ==> recipient_balance == sender_balance,
        !same_account && amount <= sender_balance ==> recipient_balance + amount <= u64::MAX,
    ensures
        amount > sender_balance ==> r == Err::<(u64, u64), Error>(Error::InsufficientFunds),
        amount <= sender_balance && same_account ==> r == Ok::<(u64, u64), Error>(
            ((sender_balance - amount) as u64, sender_balance),
        ),
        amount <= sender_balance && !same_account ==> r == Ok::<(u64, u64), Error>(
            ((sender_balance - amount) as u64, (recipient_balance + amount) as u64),
        ),
{
    let new_sender = match sender_balance.checked_sub(amount) {
        None => {
            return Err(Error::InsufficientFunds);
        },
        Some(b) => b,
    };
    let credited_from = if same_account {
        new_sender
    } else {
        recipient_balance
    };
    Ok((new_sender, credited_from + amount))
}

/// The ledger with its event log: the engine that issues the supply and moves balances.
pub struct Pallet {
    store: LedgerStore,
    events: Vec<Event>,
}

impl Pallet {
    pub closed spec fn ledger(&self) -> LedgerStore {
        self.store
    }

    /// The events emitted so far, oldest first.
    pub closed spec fn event_log(&self) -> Seq<Event> {
        self.events@
    }

    /// Every state that the engine reaches keeps the balances conserved.
    pub open spec fn wf(&self) -> bool {
        conserved(self.ledger())
    }

    /// A pallet as at genesis: no balances, the default total supply, no events.
    pub fn new() -> (r: Self)
        ensures
            r.ledger().balances() == Map::<AccountId, u64>::empty(),
            r.ledger().total_supply() == crate::store::TOTAL_SUPPLY_DEFAULT,
            !r.ledger().initialized(),
            r.event_log() == Seq::<Event>::empty(),
            r.wf(),
    {
        let store = LedgerStore::new();
        assert(total_of(store.balances()) == 0) by {
            assert(store.balances().dom() =~= Set::<AccountId>::empty());
        }
        Pallet { store, events: Vec::new() }
    }

    pub fn get_balance(&self, account: AccountId) -> (r: u64)
        ensures
            r == self.ledger().balance_of(account),
    {
        self.store.get_balance(account)
    }

    pub fn get_total_supply(&self) -> (r: u64)
        ensures
            r == self.ledger().total_supply(),
    {
        self.store.get_total_supply()
    }

    pub fn get_initialized(&self) -> (r: bool)
        ensures
            r == self.ledger().initialized(),
    {
        self.store.get_initialized()
    }

    pub fn events(&self) -> (r: &Vec<Event>)
        ensures
            r@ == self.event_log(),
    {
        &self.events
    }

    /// Issues the whole supply to `caller`, once.
    pub fn init(&mut self, caller: AccountId) -> (r: Result<(), Error>)
        requires
            old(self).wf(),
        ensures
            final(self).wf(),
            final(self).ledger().total_supply() == old(self).ledger().total_supply(),
            old(self).ledger().initialized() ==> {
                &&& r == Err::<(), Error>(Error::AlreadyInitialized)
                &&& final(self).ledger() == old(self).ledger()
                &&& final(self).event_log() == old(self).event_log()
            },
            !old(self).ledger().initialized() ==> {
                &&& r == Ok::<(), Error>(())
                &&& final(self).ledger().initialized()
                &&& final(self).ledger().balances() == old(self).ledger().balances().insert(
                    caller,
                    old(self).ledger().total_supply(),
                )
                &&& final(self).event_log() == old(self).event_log().push(
                    Event::Initialized(caller),
                )
            },
    {
        let supply = match plan_init(self.store.get_initialized(), self.store.get_total_supply()) {
            Err(e) => {
                return Err(e);
            },
            Ok(s) => s,
        };
        proof {
            self.store.lemma_balances_finite();
            lemma_initialize_issues_supply(self.store.balances(), caller, supply);
        }
        self.store.set_balance(caller, supply);
        self.store.set_initialized(true);
        self.events.push(Event::Initialized(caller));
        Ok(())
    }

    /// Moves `amount` from `caller` to `to`.
    pub fn transfer(&mut self, caller: AccountId, to: AccountId, amount: u64) -> (r: Result<
        (),
        Error,
    >)
        requires
            old(self).wf(),
        ensures
            final(self).wf(),
            final(self).ledger().total_supply() == old(self).ledger().total_supply(),
            final(self).ledger().initialized() == old(self).ledger().initialized(),
            amount > old(self).ledger().balance_of(caller) ==> {
                &&& r == Err::<(), Error>(Error::InsufficientFunds)
                &&& final(self).ledger() == old(self).ledger()
                &&& final(self).event_log() == old(self).event_log()
            },
            amount <= old(self).ledger().balance_of(caller) ==> {
                &&& r == Ok::<(), Error>(())
                &&& final(self).ledger().balances() == transfer_map(
                    old(self).ledger().balances(),
                    caller,
                    to,
                    amount,
                )
                &&& final(self).event_log() == old(self).event_log().push(
                    Event::Transfer(caller, to, amount),
                )
            },
    {
        let sender_balance = self.store.get_balance(caller);
        let recipient_balance = self.store.get_balance(to);
        proof {
            self.store.lemma_balances_finite();
            if caller != to {
                lemma_two_balances_bounded(self.store.balances(), caller, to);
            }
        }
        let (new_sender, new_recipient) = match plan_transfer(
            sender_balance,
            recipient_balance,
            caller == to,
            amount,
        ) {
            Err(e) => {
                return Err(e);
            },
            Ok(p) => p,
        };
        proof {
            lemma_transfer_conserves(self.store.balances(), caller, to, amount);
        }
        self.store.set_balance(caller, new_sender);
        self.store.set_balance(to, new_recipient);
        self.events.push(Event::Transfer(caller, to, amount));
        Ok(())
    }
}

/// Issuing `supply` to one account of a ledger whose balances sum to zero makes them sum to
/// `supply`.
pub proof fn lemma_initialize_issues_supply(
    m: Map<AccountId, u64>,
    caller: AccountId,
    supply: u64,
)
    requires
        m.dom().finite(),
        total_of(m) == 0,
    ensures
        total_of(m.insert(caller, supply)) == supply,
{
    lemma_total_insert(m, caller, supply);
    lemma_balance_bounded(m, caller);
}

/// A successful transfer keeps the sum of all balances.
pub proof fn lemma_transfer_conserves(
    m: Map<AccountId, u64>,
    from: AccountId,
    to: AccountId,
    amount: u64,
)
    requires
        m.dom().finite(),
        amount <= balance_in(m, from),
        from != to ==> balance_in(m, to) + amount <= u64::MAX,
    ensures
        total_of(transfer_map(m, from, to, amount)) == total_of(m),
{
    let debited = m.insert(from, (balance_in(m, from) - amount) as u64);
    lemma_total_insert(m, from, (balance_in(m, from) - amount) as u64);
    lemma_total_insert(debited, to, (balance_in(debited, to) + amount) as u64);
}

/// The entries after the transfers `ts`, each `(from, to, amount)`, are applied in order.
pub open spec fn apply_transfers(
    m: Map<AccountId, u64>,
    ts: Seq<(AccountId, AccountId, u64)>,
) -> Map<AccountId, u64>
    decreases ts.len(),
{
    if ts.len() == 0 {
        m
    } else {
        apply_transfers(transfer_map(m, ts[0].0, ts[0].1, ts[0].2), ts.drop_first())
    }
}

/// Each of the transfers `ts`, applied in order, finds its sender holding at least the amount.
pub open spec fn transfers_succeed(
    m: Map<AccountId, u64>,
    ts: Seq<(AccountId, AccountId, u64)>,
) -> bool
    decreases ts.len(),
{
    ts.len() == 0 || (ts[0].2 <= balance_in(m, ts[0].0) && transfers_succeed(
        transfer_map(m, ts[0].0, ts[0].1, ts[0].2),
        ts.drop_first(),
    ))
}

/// Successful transfers keep the sum of all balances, as long as that sum fits in a balance.
pub proof fn lemma_transfers_conserve(
    m: Map<AccountId, u64>,
    ts: Seq<(AccountId, AccountId, u64)>,
)
    requires
        m.dom().finite(),
        total_of(m) <= u64::MAX,
        transfers_succeed(m, ts),
    ensures
        total_of(apply_transfers(m, ts)) == total_of(m),
    decreases ts.len(),
{
    if ts.len() > 0 {
        let (from, to, amount) = ts[0];
        if from != to {
            lemma_two_balances_bounded(m, from, to);
        }
        lemma_transfer_conserves(m, from, to, amount);
        lemma_transfers_conserve(transfer_map(m, from, to, amount), ts.drop_first());
    }
}

/// After one successful issuance of `supply` on a ledger whose balances sum to zero, every run of
/// successful transfers leaves the balances summing to `supply`.
pub proof fn lemma_conservation(
    m: Map<AccountId, u64>,
    caller: AccountId,
    supply: u64,
    ts: Seq<(AccountId, AccountId, u64)>,
)
    requires
        m.dom().finite(),
        total_of(m) == 0,
        transfers_succeed(m.insert(caller, supply), ts),
    ensures
        total_of(apply_transfers(m.insert(caller, supply), ts)) == supply,
{
    lemma_initialize_issues_supply(m, caller, supply);
    lemma_transfers_conserve(m.insert(caller, supply), ts);
}

/// A transfer from an account to itself that the account can cover leaves every balance as it
/// was.
pub proof fn lemma_self_transfer_no_op(m: Map<AccountId, u64>, account: AccountId, amount: u64)
    requires
        amount <= balance_in(m, account),
    ensures
        forall|x: AccountId|
            #[trigger] balance_in(transfer_map(m, account, account, amount), x) == balance_in(
                m,
                x,
            ),
{
}

/// A transfer of zero always leaves every balance as it was.
pub proof fn lemma_zero_transfer_no_op(m: Map<AccountId, u64>, from: AccountId, to: AccountId)
    ensures
        forall|x: AccountId|
            #[trigger] balance_in(transfer_map(m, from, to, 0), x) == balance_in(m, x),
{
}

} // verus!
