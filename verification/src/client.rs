//! One account and the state machine that transactions drive.
//!
//! [`ClientState`] is the mathematical account: three balances, a lock and
//! the history of recorded transactions, with one transition per kind of
//! transaction. [`Client`] is the account in memory; each of its methods is
//! proved to make exactly the transition of the same name.

use crate::amount::{units_in_range, Amount};
use crate::csv_ingestor::{CsvTransaction, TransactionType};
use crate::error::ApplicationError;
use std::collections::HashMap;
use vstd::prelude::*;
use vstd::std_specs::hash::*;

verus! {

broadcast use group_hash_axioms;

/// An account as a mathematical value. Balances are counts of
/// ten-thousandths.
pub struct ClientState {
    pub available: int,
    pub held: int,
    pub total: int,
    pub locked: bool,
    pub history: Map<u32, CsvTransaction>,
}

impl ClientState {
    /// The account before its first transaction: nothing on it, not locked,
    /// no history.
    pub open spec fn empty() -> ClientState {
        ClientState { available: 0, held: 0, total: 0, locked: false, history: Map::empty() }
    }

    /// The total is what is available plus what is held.
    pub open spec fn balanced(self) -> bool {
        self.total == self.available + self.held
    }

    /// The amount of the recorded transaction `tx_id`, if the history holds
    /// that transaction and it carries an amount.
    pub open spec fn recorded_amount(self, tx_id: u32) -> Option<int> {
        if self.history.contains_key(tx_id) {
            self.history[tx_id].units()
        } else {
            None
        }
    }

    /// The amount a withdrawal asks for: zero where the record carries none.
    pub open spec fn requested(tx: CsvTransaction) -> int {
        match tx.units() {
            Some(units) => units,
            None => 0,
        }
    }

    /// Whether the account has enough available for the withdrawal `tx`.
    pub open spec fn covers(self, tx: CsvTransaction) -> bool {
        self.available >= Self::requested(tx)
    }

    /// The account after the deposit `tx`: credited and recorded where the
    /// record carries an amount, unchanged where it carries none.
    pub open spec fn deposit(self, tx: CsvTransaction) -> ClientState {
        match tx.units() {
            Some(units) => ClientState {
                available: self.available + units,
                total: self.total + units,
                history: self.history.insert(tx.tx_id, tx),
                ..self
            },
            None => self,
        }
    }

    /// The account after the withdrawal `tx`: debited and recorded where
    /// enough is available, unchanged where not.
    pub open spec fn withdraw(self, tx: CsvTransaction) -> ClientState {
        if self.covers(tx) {
            ClientState {
                available: self.available - Self::requested(tx),
                total: self.total - Self::requested(tx),
                history: self.history.insert(tx.tx_id, tx),
                ..self
            }
        } else {
            self
        }
    }

    /// The account after a dispute of the transaction `tx_id`: its amount
    /// moves from available to held. Unchanged where the history holds no
    /// such transaction or it carries no amount.
    pub open spec fn dispute(self, tx_id: u32) -> ClientState {
        match self.recorded_amount(tx_id) {
            Some(units) => ClientState {
                available: self.available - units,
                held: self.held + units,
                ..self
            },
            None => self,
        }
    }

    /// The account after a resolve of the transaction `tx_id`: its amount
    /// moves from held back to available. Unchanged where the history holds
    /// no such transaction or it carries no amount.
    pub open spec fn resolve(self, tx_id: u32) -> ClientState {
        match self.recorded_amount(tx_id) {
            Some(units) => ClientState {
                held: self.held - units,
                available: self.available + units,
                ..self
            },
            None => self,
        }
    }

    /// The account after a chargeback of the transaction `tx_id`: its
    /// amount leaves held and total, and the account is locked. Unchanged
    /// where the history holds no such transaction or it carries no amount.
    pub open spec fn chargeback(self, tx_id: u32) -> ClientState {
        match self.recorded_amount(tx_id) {
            Some(units) => ClientState {
                held: self.held - units,
                total: self.total - units,
                locked: true,
                ..self
            },
            None => self,
        }
    }

    /// The account after the transaction `tx`, whatever its kind.
    pub open spec fn apply(self, tx: CsvTransaction) -> ClientState {
        match tx.tx_type {
            TransactionType::Deposit => self.deposit(tx),
            TransactionType::Withdrawal => self.withdraw(tx),
            TransactionType::Dispute => self.dispute(tx.tx_id),
            TransactionType::Resolve => self.resolve(tx.tx_id),
            TransactionType::Chargeback => self.chargeback(tx.tx_id),
        }
    }

    /// Whether every balance is one that an amount can hold.
    pub open spec fn in_range(self) -> bool {
        &&& units_in_range(self.available)
        &&& units_in_range(self.held)
        &&& units_in_range(self.total)
    }

    /// Whether the transaction `tx` leaves every balance within what an
    /// amount can hold.
    pub open spec fn admits(self, tx: CsvTransaction) -> bool {
        self.apply(tx).in_range()
    }
}

/// The three balances of an account, always with the total equal to what is
/// available plus what is held.
#[derive(Clone, Copy, Debug)]
struct Balances {
    available: Amount,
    held: Amount,
    total: Amount,
}

/// How a transaction changes one balance: up by its amount, down by it, or
/// not at all.
#[derive(Clone, Copy, Debug)]
enum Shift {
    Up,
    Keep,
    Down,
}

impl Shift {
    /// The factor by which the amount enters the balance.
    spec fn sign(self) -> int {
        match self {
            Shift::Up => 1,
            Shift::Keep => 0,
            Shift::Down => -1,
        }
    }

    /// `balance` changed by `amount` as this shift says, or `None` where
    /// the result would be more than an amount can hold.
    fn of(self, balance: Amount, amount: Amount) -> (shifted: Option<Amount>)
        ensures
            match shifted {
                Some(b) => b@ == balance@ + self.sign() * amount@ && units_in_range(b@),
                None => !units_in_range(balance@ + self.sign() * amount@),
            },
    {
        proof {
            use_type_invariant(balance);
        }
        match self {
            Shift::Up => balance.checked_add(amount),
            Shift::Keep => Some(balance),
            Shift::Down => balance.checked_sub(amount),
        }
    }
}

impl Balances {
    #[verifier::type_invariant]
    spec fn balanced(self) -> bool {
        self.total@ == self.available@ + self.held@
    }

    /// Whether these are the balances of `state`.
    spec fn shows(self, state: ClientState) -> bool {
        &&& self.available@ == state.available
        &&& self.held@ == state.held
        &&& self.total@ == state.total
    }

    /// Whether `balances` are those of `state` where they fit what amounts
    /// can hold, and absent where they do not.
    spec fn fitted(balances: Option<Balances>, state: ClientState) -> bool {
        match balances {
            Some(b) => state.in_range() && b.shows(state),
            None => !state.in_range(),
        }
    }

    /// Nothing available, nothing held.
    fn zero() -> (balances: Balances)
        ensures
            balances.available@ == 0,
            balances.held@ == 0,
            balances.total@ == 0,
    {
        Balances { available: Amount::zero(), held: Amount::zero(), total: Amount::zero() }
    }

    /// The balances with `available`, `held` and `total` changed by the
    /// given signed multiples of `amount`, or `None` where one of them
    /// would be more than an amount can hold. The changes keep the total
    /// equal to the sum of the other two.
    fn shifted(self, amount: Amount, available: Shift, held: Shift, total: Shift) -> (shifted:
        Option<Balances>)
        requires
            total.sign() == available.sign() + held.sign(),
        ensures
            match shifted {
                Some(b) => {
                    &&& b.available@ == self.available@ + available.sign() * amount@
                    &&& b.held@ == self.held@ + held.sign() * amount@
                    &&& b.total@ == self.total@ + total.sign() * amount@
                    &&& units_in_range(b.available@)
                    &&& units_in_range(b.held@)
                    &&& units_in_range(b.total@)
                },
                None => {
                    ||| !units_in_range(self.available@ + available.sign() * amount@)
                    ||| !units_in_range(self.held@ + held.sign() * amount@)
                    ||| !units_in_range(self.total@ + total.sign() * amount@)
                },
            },
    {
        proof {
            use_type_invariant(self);
            assert(total.sign() * amount@ == available.sign() * amount@ + held.sign() * amount@)
                by (nonlinear_arith)
                requires
                    total.sign() == available.sign() + held.sign(),
            ;
        }
        match (
            available.of(self.available, amount),
            held.of(self.held, amount),
            total.of(self.total, amount),
        ) {
            (Some(available), Some(held), Some(total)) => Some(Balances { available, held, total }),
            _ => None,
        }
    }
}

/// An account: its balances, its lock and the transactions recorded on it.
#[derive(Debug)]
pub struct Client {
    balances: Balances,
    locked: bool,
    tx_history: HashMap<u32, CsvTransaction>,
}

impl View for Client {
    type V = ClientState;

    /// The account as a mathematical value. The balances in memory always
    /// have their total equal to the available plus the held, and the view
    /// shows the total as that sum.
    closed spec fn view(&self) -> ClientState {
        ClientState {
            available: self.balances.available@,
            held: self.balances.held@,
            total: self.balances.available@ + self.balances.held@,
            locked: self.locked,
            history: self.tx_history@,
        }
    }
}

impl Default for Client {
    /// The account before its first transaction.
    fn default() -> (client: Client)
        ensures
            client@ == ClientState::empty(),
    {
        Client { balances: Balances::zero(), locked: false, tx_history: HashMap::new() }
    }
}

impl Client {
    /// What is available for withdrawal.
    pub fn available(&self) -> (available: Amount)
        ensures
            available@ == self@.available,
    {
        self.balances.available
    }

    /// What is held under dispute.
    pub fn held(&self) -> (held: Amount)
        ensures
            held@ == self@.held,
    {
        self.balances.held
    }

    /// What is on the account in all: the available and the held together.
    pub fn total(&self) -> (total: Amount)
        ensures
            total@ == self@.total,
            total@ == self@.available + self@.held,
    {
        proof {
            use_type_invariant(self.balances);
        }
        self.balances.total
    }

    /// Whether a chargeback has locked the account.
    pub fn locked(&self) -> (locked: bool)
        ensures
            locked == self@.locked,
    {
        self.locked
    }

    /// The amount of the recorded transaction `tx_id`, if the history holds
    /// that transaction and it carries an amount.
    fn recorded_amount(&self, tx_id: u32) -> (amount: Option<Amount>)
        ensures
            match amount {
                Some(a) => self@.recorded_amount(tx_id) == Some(a@),
                None => self@.recorded_amount(tx_id) is None,
            },
    {
        match self.tx_history.get(&tx_id) {
            Some(tx) => tx.amount,
            None => None,
        }
    }

    /// The balances as they are, which fit.
    fn unchanged(&self) -> (balances: Option<Balances>)
        ensures
            Balances::fitted(balances, self@),
    {
        proof {
            use_type_invariant(self.balances);
            use_type_invariant(self.balances.available);
            use_type_invariant(self.balances.held);
            use_type_invariant(self.balances.total);
        }
        Some(self.balances)
    }

    /// The balances after the deposit `tx`, if they fit.
    fn credited(&self, tx: &CsvTransaction) -> (balances: Option<Balances>)
        ensures
            Balances::fitted(balances, self@.deposit(*tx)),
    {
        proof {
            use_type_invariant(self.balances);
        }
        match tx.amount {
            Some(amount) => self.balances.shifted(amount, Shift::Up, Shift::Keep, Shift::Up),
            None => self.unchanged(),
        }
    }

    /// The balances after the withdrawal `tx`, if they fit.
    fn debited(&self, tx: &CsvTransaction) -> (balances: Option<Balances>)
        ensures
            Balances::fitted(balances, self@.withdraw(*tx)),
    {
        proof {
            use_type_invariant(self.balances);
        }
        let amount = match tx.amount {
            Some(amount) => amount,
            None => Amount::zero(),
        };
        if self.balances.available.at_least(amount) {
            self.balances.shifted(amount, Shift::Down, Shift::Keep, Shift::Down)
        } else {
            self.unchanged()
        }
    }

    /// The balances after a dispute of the transaction `tx_id`, if they fit.
    fn disputed(&self, tx_id: u32) -> (balances: Option<Balances>)
        ensures
            Balances::fitted(balances, self@.dispute(tx_id)),
    {
        proof {
            use_type_invariant(self.balances);
        }
        match self.recorded_amount(tx_id) {
            Some(amount) => self.balances.shifted(amount, Shift::Down, Shift::Up, Shift::Keep),
            None => self.unchanged(),
        }
    }

    /// The balances after a resolve of the transaction `tx_id`, if they fit.
    fn resolved(&self, tx_id: u32) -> (balances: Option<Balances>)
        ensures
            Balances::fitted(balances, self@.resolve(tx_id)),
    {
        proof {
            use_type_invariant(self.balances);
        }
        match self.recorded_amount(tx_id) {
            Some(amount) => self.balances.shifted(amount, Shift::Up, Shift::Down, Shift::Keep),
            None => self.unchanged(),
        }
    }

    /// The balances after a chargeback of the transaction `tx_id`, if they
    /// fit.
    fn charged_back(&self, tx_id: u32) -> (balances: Option<Balances>)
        ensures
            Balances::fitted(balances, self@.chargeback(tx_id)),
    {
        proof {
            use_type_invariant(self.balances);
        }
        match self.recorded_amount(tx_id) {
            Some(amount) => self.balances.shifted(amount, Shift::Keep, Shift::Down, Shift::Down),
            None => self.unchanged(),
        }
    }

    /// Whether the transaction `tx` leaves every balance within what an
    /// amount can hold. The methods that apply a transaction ask for this.
    pub fn admits(&self, tx: &CsvTransaction) -> (admitted: bool)
        ensures
            admitted == self@.admits(*tx),
    {
        let balances = match tx.tx_type {
            TransactionType::Deposit => self.credited(tx),
            TransactionType::Withdrawal => self.debited(tx),
            TransactionType::Dispute => self.disputed(tx.tx_id),
            TransactionType::Resolve => self.resolved(tx.tx_id),
            TransactionType::Chargeback => self.charged_back(tx.tx_id),
        };
        balances.is_some()
    }

    /// Applies the deposit `tx`: with an amount, the account is credited
    /// and the transaction recorded; without one, nothing happens.
    pub fn deposit(&mut self, tx: &CsvTransaction)
        requires
            old(self)@.deposit(*tx).in_range(),
        ensures
            final(self)@ == old(self)@.deposit(*tx),
            final(self)@.balanced(),
    {
        let credited = self.credited(tx);
        self.balances = credited.unwrap();
        if tx.amount.is_some() {
            self.tx_history.insert(tx.tx_id, *tx);
        }
    }

    /// Applies the withdrawal `tx`, for the amount of the record or for
    /// zero where it has none. Where enough is available the account is
    /// debited and the transaction recorded; where not, the account stays
    /// as it is and the withdrawal is refused.
    pub fn withdraw(&mut self, tx: &CsvTransaction) -> (outcome: Result<(), ApplicationError>)
        requires
            old(self)@.withdraw(*tx).in_range(),
        ensures
            final(self)@ == old(self)@.withdraw(*tx),
            final(self)@.balanced(),
            match outcome {
                Ok(_) => old(self)@.covers(*tx),
                Err(e) => !old(self)@.covers(*tx)
                    && e == ApplicationError::InsufficientAvailableBalanceForWithdrawal(
                    tx.client_id,
                    tx.tx_id,
                ),
            },
    {
        let amount = match tx.amount {
            Some(amount) => amount,
            None => Amount::zero(),
        };
        if self.balances.available.at_least(amount) {
            let debited = self.debited(tx);
            self.balances = debited.unwrap();
            self.tx_history.insert(tx.tx_id, *tx);
            Ok(())
        } else {
            Err(ApplicationError::InsufficientAvailableBalanceForWithdrawal(tx.client_id, tx.tx_id))
        }
    }

    /// Opens a dispute of the recorded transaction `tx_id`: its amount is
    /// no longer available but held, and the total stays. Nothing happens
    /// where the history holds no such transaction, or it has no amount.
    pub fn dispute(&mut self, tx_id: u32)
        requires
            old(self)@.dispute(tx_id).in_range(),
        ensures
            final(self)@ == old(self)@.dispute(tx_id),
            final(self)@.balanced(),
            !old(self)@.history.contains_key(tx_id) ==> final(self)@ == old(self)@,
    {
        let disputed = self.disputed(tx_id);
        self.balances = disputed.unwrap();
    }

    /// Resolves a dispute of the recorded transaction `tx_id`: its amount
    /// is no longer held but available again, and the total stays. Nothing
    /// happens where the history holds no such transaction, or it has no
    /// amount.
    pub fn resolve(&mut self, tx_id: u32)
        requires
            old(self)@.resolve(tx_id).in_range(),
        ensures
            final(self)@ == old(self)@.resolve(tx_id),
            final(self)@.balanced(),
            !old(self)@.history.contains_key(tx_id) ==> final(self)@ == old(self)@,
    {
        let resolved = self.resolved(tx_id);
        self.balances = resolved.unwrap();
    }

    /// Charges the recorded transaction `tx_id` back: its amount leaves
    /// what is held and the total, and the account is locked. Nothing
    /// happens where the history holds no such transaction, or it has no
    /// amount.
    pub fn chargeback(&mut self, tx_id: u32)
        requires
            old(self)@.chargeback(tx_id).in_range(),
        ensures
            final(self)@ == old(self)@.chargeback(tx_id),
            final(self)@.balanced(),
            !old(self)@.history.contains_key(tx_id) ==> final(self)@ == old(self)@,
    {
        let charged_back = self.charged_back(tx_id);
        self.balances = charged_back.unwrap();
        if self.recorded_amount(tx_id).is_some() {
            self.locked = true;
        }
    }
}

/// The account store: every account that a transaction has referred to, by
/// account id.
pub type GlobalClientsMap = HashMap<u16, Client>;

/// A store with no account in it.
pub fn new_clients_map() -> (clients: GlobalClientsMap)
    ensures
        clients@ == Map::<u16, Client>::empty(),
{
    HashMap::new()
}

/// On every account the total is what is available plus what is held.
pub proof fn lemma_account_is_balanced(client: Client)
    ensures
        client@.balanced(),
{
}

/// No transaction, of whatever kind, disturbs the balance of an account:
/// where the total was the available plus the held before, it is after.
pub proof fn lemma_transitions_keep_balance(state: ClientState, tx: CsvTransaction)
    requires
        state.balanced(),
    ensures
        state.deposit(tx).balanced(),
        state.withdraw(tx).balanced(),
        state.dispute(tx.tx_id).balanced(),
        state.resolve(tx.tx_id).balanced(),
        state.chargeback(tx.tx_id).balanced(),
        state.apply(tx).balanced(),
{
}

/// A dispute, resolve or chargeback that names a transaction the history
/// does not hold changes nothing: no balance, not the lock, not the
/// history.
pub proof fn lemma_unknown_reference_changes_nothing(state: ClientState, tx_id: u32)
    requires
        !state.history.contains_key(tx_id),
    ensures
        state.dispute(tx_id) == state,
        state.resolve(tx_id) == state,
        state.chargeback(tx_id) == state,
{
}

/// Only a chargeback locks an account, and nothing unlocks one.
pub proof fn lemma_only_chargeback_locks(state: ClientState, tx: CsvTransaction)
    ensures
        state.locked ==> state.apply(tx).locked,
        !state.locked && state.apply(tx).locked ==> tx.tx_type == TransactionType::Chargeback
            && state.recorded_amount(tx.tx_id) is Some,
{
}

} // verus!
