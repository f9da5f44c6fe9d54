//! The workers: how many there are, and what one of them does with the
//! transactions of its queue.
//!
//! A worker takes its transactions one at a time, in the order of the
//! queue, and applies each to the account it is for. A refused withdrawal
//! is skipped. A transaction for a locked account stops the worker for
//! good, and so does one whose amounts no balance can hold.

use crate::client::{
    lemma_account_is_balanced, lemma_transitions_keep_balance, Client, ClientState, GlobalClientsMap,
};
use crate::csv_ingestor::{CsvTransaction, TransactionType};
use crate::error::ApplicationError;
use vstd::prelude::*;
use vstd::std_specs::hash::*;

verus! {

broadcast use group_hash_axioms;

/// The store as a mathematical value: the state of each account in it.
pub open spec fn accounts(clients: Map<u16, Client>) -> Map<u16, ClientState> {
    clients.map_values(|client: Client| client@)
}

/// The account `client_id` of a store: as the store has it, or as an
/// account is before its first transaction where the store has none.
pub open spec fn account_of(accounts: Map<u16, ClientState>, client_id: u16) -> ClientState {
    if accounts.contains_key(client_id) {
        accounts[client_id]
    } else {
        ClientState::empty()
    }
}

/// What becomes of one transaction.
pub enum Verdict {
    /// The account took the transaction.
    Applied,
    /// A withdrawal of more than is available: skipped, the account as it
    /// was.
    Refused,
    /// The account is locked: the transaction is rejected and the worker
    /// stops.
    Frozen,
    /// A balance would be more than an amount can hold: the worker stops.
    Overflow,
}

/// What becomes of the transaction `tx` on `account`.
pub open spec fn verdict(account: ClientState, tx: CsvTransaction) -> Verdict {
    if account.locked {
        Verdict::Frozen
    } else if !account.admits(tx) {
        Verdict::Overflow
    } else if tx.tx_type == TransactionType::Withdrawal && !account.covers(tx) {
        Verdict::Refused
    } else {
        Verdict::Applied
    }
}

/// Whether the transaction `tx` on `account` stops the worker.
pub open spec fn halts(account: ClientState, tx: CsvTransaction) -> bool {
    verdict(account, tx) is Frozen || verdict(account, tx) is Overflow
}

/// The store after the transaction `tx`: its account is in the store,
/// created if need be, and has taken the transaction unless that stops the
/// worker. No other account changes.
pub open spec fn store_after(accounts: Map<u16, ClientState>, tx: CsvTransaction) -> Map<
    u16,
    ClientState,
> {
    let account = account_of(accounts, tx.client_id);
    accounts.insert(
        tx.client_id,
        if halts(account, tx) {
            account
        } else {
            account.apply(tx)
        },
    )
}

/// The store after a worker has gone through `queue`, and the transaction
/// at which it stopped, if it did not reach the end.
pub open spec fn run(accounts: Map<u16, ClientState>, queue: Seq<CsvTransaction>) -> (
    Map<u16, ClientState>,
    Option<CsvTransaction>,
)
    decreases queue.len(),
{
    if queue.len() == 0 {
        (accounts, None)
    } else if halts(account_of(accounts, queue.first().client_id), queue.first()) {
        (store_after(accounts, queue.first()), Some(queue.first()))
    } else {
        run(store_after(accounts, queue.first()), queue.drop_first())
    }
}

/// The number of logical processors, from `num_cpus::get`.
///
/// Trusted: the crate promises a count of at least one.
#[verifier::external_body]
fn available_cpus() -> (cpus: usize)
    ensures
        cpus >= 1,
{
    num_cpus::get()
}

/// Empty queues for `num_workers` workers.
pub fn worker_queues(num_workers: usize) -> (queues: Vec<Vec<CsvTransaction>>)
    ensures
        queues@.len() == num_workers,
        forall|worker: int| 0 <= worker < num_workers ==> (#[trigger] queues@[worker])@.len() == 0,
{
    let mut queues: Vec<Vec<CsvTransaction>> = Vec::new();
    let mut made: usize = 0;
    while made < num_workers
        invariant
            made <= num_workers,
            queues@.len() == made,
            forall|worker: int| 0 <= worker < made ==> (#[trigger] queues@[worker])@.len() == 0,
        decreases num_workers - made,
    {
        queues.push(Vec::new());
        made = made + 1;
    }
    queues
}

/// One empty queue for each logical processor of the machine: the pool of
/// workers, which is never empty.
pub fn spawn_workers() -> (queues: Vec<Vec<CsvTransaction>>)
    ensures
        queues@.len() >= 1,
        forall|worker: int| 0 <= worker < queues@.len() ==> (#[trigger] queues@[worker])@.len() == 0,
{
    worker_queues(available_cpus())
}

/// Applies one transaction to the store. The account it is for is created
/// if the store has none. A locked account rejects the transaction, and a
/// transaction that would take a balance out of range is not applied;
/// either stops the worker. A withdrawal of more than is available is
/// refused and changes nothing. Anything else the account takes.
pub fn apply_transaction(clients: &mut GlobalClientsMap, tx: &CsvTransaction) -> (outcome: Result<
    (),
    ApplicationError,
>)
    ensures
        accounts(final(clients)@) == store_after(accounts(old(clients)@), *tx),
        match outcome {
            Ok(_) => verdict(account_of(accounts(old(clients)@), tx.client_id), *tx) is Applied,
            Err(e) => match verdict(account_of(accounts(old(clients)@), tx.client_id), *tx) {
                Verdict::Applied => false,
                Verdict::Refused => e
                    == ApplicationError::InsufficientAvailableBalanceForWithdrawal(
                    tx.client_id,
                    tx.tx_id,
                ),
                Verdict::Frozen => e == ApplicationError::ClientAccountFrozen(
                    tx.client_id,
                    tx.tx_id,
                ),
                Verdict::Overflow => e is Other,
            },
        },
{
    let mut client = match clients.remove(&tx.client_id) {
        Some(client) => client,
        None => Client::default(),
    };
    let outcome = if client.locked() {
        Err(ApplicationError::ClientAccountFrozen(tx.client_id, tx.tx_id))
    } else if !client.admits(tx) {
        Err(ApplicationError::Other("Balance out of range".to_owned()))
    } else {
        match tx.tx_type {
            TransactionType::Deposit => {
                client.deposit(tx);
                Ok(())
            },
            TransactionType::Withdrawal => client.withdraw(tx),
            TransactionType::Dispute => {
                client.dispute(tx.tx_id);
                Ok(())
            },
            TransactionType::Resolve => {
                client.resolve(tx.tx_id);
                Ok(())
            },
            TransactionType::Chargeback => {
                client.chargeback(tx.tx_id);
                Ok(())
            },
        }
    };
    clients.insert(tx.client_id, client);
    outcome
}

/// Goes through the queue of one worker, oldest transaction first. Each
/// transaction is applied to the store as [`apply_transaction`] says. A
/// refused withdrawal is skipped and the worker goes on. The first
/// transaction that meets a locked account, or that would take a balance
/// out of range, ends the run with its error, and what follows it in the
/// queue is never applied.
pub fn process_transaction(
    worker_receiver: Vec<CsvTransaction>,
    clients: &mut GlobalClientsMap,
) -> (outcome: Result<(), ApplicationError>)
    ensures
        accounts(final(clients)@) == run(accounts(old(clients)@), worker_receiver@).0,
        match outcome {
            Ok(_) => run(accounts(old(clients)@), worker_receiver@).1 is None,
            Err(e) => {
                &&& run(accounts(old(clients)@), worker_receiver@).1 matches Some(tx)
                &&& if account_of(accounts(final(clients)@), tx.client_id).locked {
                    e == ApplicationError::ClientAccountFrozen(tx.client_id, tx.tx_id)
                } else {
                    e is Other
                }
            },
        },
{
    let ghost before = accounts(old(clients)@);
    let mut next: usize = 0;
    assert(worker_receiver@.skip(0) =~= worker_receiver@);
    while next < worker_receiver.len()
        invariant
            next <= worker_receiver@.len(),
            before == accounts(old(clients)@),
            run(before, worker_receiver@) == run(
                accounts(clients@),
                worker_receiver@.skip(next as int),
            ),
        decreases worker_receiver@.len() - next,
    {
        let csv_transaction = worker_receiver[next];
        let ghost rest = worker_receiver@.skip(next as int);
        assert(rest.drop_first() =~= worker_receiver@.skip(next + 1));
        match apply_transaction(clients, &csv_transaction) {
            Ok(_) => {},
            Err(ApplicationError::InsufficientAvailableBalanceForWithdrawal(_, _)) => {},
            Err(error) => {
                return Err(error);
            },
        }
        next = next + 1;
    }
    Ok(())
}

/// Whether on every account of the store the total is what is available
/// plus what is held.
pub open spec fn store_balanced(accounts: Map<u16, ClientState>) -> bool {
    forall|client_id: u16| #[trigger]
        accounts.contains_key(client_id) ==> accounts[client_id].balanced()
}

/// A locked account takes nothing: whatever the transaction, it is
/// rejected, and the store stays exactly as it was.
pub proof fn lemma_locked_account_rejects_everything(
    accounts: Map<u16, ClientState>,
    tx: CsvTransaction,
)
    requires
        account_of(accounts, tx.client_id).locked,
    ensures
        verdict(account_of(accounts, tx.client_id), tx) is Frozen,
        store_after(accounts, tx) == accounts,
{
}

/// A transaction reaches the account it is for and no other.
pub proof fn lemma_other_accounts_are_untouched(
    accounts: Map<u16, ClientState>,
    tx: CsvTransaction,
    other: u16,
)
    requires
        other != tx.client_id,
    ensures
        store_after(accounts, tx).contains_key(other) == accounts.contains_key(other),
        account_of(store_after(accounts, tx), other) == account_of(accounts, other),
{
}

/// Every store between two transactions is balanced: where each account
/// of the store has its total equal to the available plus the held, so has
/// each account of the store after one more transaction.
pub proof fn lemma_step_keeps_store_balanced(accounts: Map<u16, ClientState>, tx: CsvTransaction)
    requires
        store_balanced(accounts),
    ensures
        store_balanced(store_after(accounts, tx)),
{
    let account = account_of(accounts, tx.client_id);
    lemma_transitions_keep_balance(account, tx);
}

/// However far a worker gets through its queue, it leaves a balanced store
/// balanced.
pub proof fn lemma_run_keeps_store_balanced(
    accounts: Map<u16, ClientState>,
    queue: Seq<CsvTransaction>,
)
    requires
        store_balanced(accounts),
    ensures
        store_balanced(run(accounts, queue).0),
    decreases queue.len(),
{
    if queue.len() > 0 {
        lemma_step_keeps_store_balanced(accounts, queue.first());
        if !halts(account_of(accounts, queue.first().client_id), queue.first()) {
            lemma_run_keeps_store_balanced(
                store_after(accounts, queue.first()),
                queue.drop_first(),
            );
        }
    }
}

/// The store of accounts in memory is balanced, whatever it holds.
pub proof fn lemma_store_is_balanced(clients: Map<u16, Client>)
    ensures
        store_balanced(accounts(clients)),
{
    assert forall|client_id: u16| #[trigger]
        accounts(clients).contains_key(client_id) implies accounts(clients)[client_id].balanced() by {
        lemma_account_is_balanced(clients[client_id]);
    }
}

} // verus!
