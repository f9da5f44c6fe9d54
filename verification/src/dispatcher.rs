//! Routing of the transaction stream to the workers' queues.
//!
//! Every account belongs to exactly one worker, chosen from the account id
//! alone, so all transactions of one account reach one queue, in the order
//! in which they arrived.

use crate::csv_ingestor::CsvTransaction;
use vstd::prelude::*;

verus! {

/// The worker that owns the account `client_id` in a pool of `num_workers`.
pub open spec fn worker_of(client_id: u16, num_workers: nat) -> int {
    client_id as int % num_workers as int
}

/// The transactions of `incoming` that belong to `worker`, in their order.
pub open spec fn routed_to(incoming: Seq<CsvTransaction>, worker: int, num_workers: nat) -> Seq<
    CsvTransaction,
> {
    incoming.filter(|tx: CsvTransaction| worker_of(tx.client_id, num_workers) == worker)
}

/// The transactions of `stream` that are for the account `client_id`, in
/// their order.
pub open spec fn of_account(stream: Seq<CsvTransaction>, client_id: u16) -> Seq<CsvTransaction> {
    stream.filter(|tx: CsvTransaction| tx.client_id == client_id)
}

/// The queues of the workers, one for each, in the order of the workers.
pub open spec fn queue_views(queues: Seq<Vec<CsvTransaction>>) -> Seq<Seq<CsvTransaction>> {
    queues.map_values(|queue: Vec<CsvTransaction>| queue@)
}

/// Forwards each transaction to the queue of the worker that owns its
/// account.
pub struct Dispatcher {
    worker_senders: Vec<Vec<CsvTransaction>>,
}

impl View for Dispatcher {
    type V = Seq<Seq<CsvTransaction>>;

    /// What each worker's queue holds, oldest first.
    closed spec fn view(&self) -> Seq<Seq<CsvTransaction>> {
        queue_views(self.worker_senders@)
    }
}

impl Dispatcher {
    /// A dispatcher in front of the given queues, one for each worker.
    pub fn new(worker_senders: Vec<Vec<CsvTransaction>>) -> (dispatcher: Dispatcher)
        ensures
            dispatcher@ == queue_views(worker_senders@),
    {
        Dispatcher { worker_senders }
    }

    /// The number of workers.
    pub fn num_workers(&self) -> (count: usize)
        ensures
            count == self@.len(),
    {
        self.worker_senders.len()
    }

    /// The worker that owns the account `client_id`: the account id modulo
    /// the number of workers.
    pub fn assign_worker(&self, client_id: u16) -> (worker: usize)
        requires
            self@.len() > 0,
        ensures
            worker == worker_of(client_id, self@.len()),
            worker < self@.len(),
    {
        (client_id as usize) % self.worker_senders.len()
    }

    /// Forwards the transactions of `ingestion_receiver`, in their order,
    /// each to the queue of the worker that owns its account, and hands the
    /// queues back. Each queue then holds what it held before, followed by
    /// its share of the stream in arrival order.
    pub fn start(self, ingestion_receiver: Vec<CsvTransaction>) -> (queues: Vec<
        Vec<CsvTransaction>,
    >)
        requires
            ingestion_receiver@.len() > 0 ==> self@.len() > 0,
        ensures
            queues@.len() == self@.len(),
            forall|worker: int|
                0 <= worker < queues@.len() ==> #[trigger] queues@[worker]@ == self@[worker]
                    + routed_to(ingestion_receiver@, worker, self@.len()),
    {
        let mut dispatcher = self;
        let ghost before = dispatcher@;
        let ghost workers = before.len();
        let mut next: usize = 0;
        proof {
            assert forall|worker: int| 0 <= worker < workers implies #[trigger] dispatcher@[worker]
                == before[worker] + routed_to(ingestion_receiver@.take(0), worker, workers) by {
                reveal_with_fuel(Seq::filter, 1);
            }
        }
        while next < ingestion_receiver.len()
            invariant
                next <= ingestion_receiver@.len(),
                ingestion_receiver@.len() > 0 ==> workers > 0,
                workers == before.len(),
                dispatcher@.len() == workers,
                forall|worker: int|
                    0 <= worker < workers ==> #[trigger] dispatcher@[worker] == before[worker]
                        + routed_to(ingestion_receiver@.take(next as int), worker, workers),
            decreases ingestion_receiver@.len() - next,
        {
            let csv_transaction = ingestion_receiver[next];
            let ghost queued = dispatcher@;
            let worker_index: usize = dispatcher.assign_worker(csv_transaction.client_id);
            dispatcher.worker_senders[worker_index].push(csv_transaction);
            proof {
                let taken = ingestion_receiver@.take(next as int);
                let grown = ingestion_receiver@.take(next + 1);
                assert(grown.drop_last() =~= taken);
                assert forall|worker: int| 0 <= worker < workers implies #[trigger] dispatcher@[worker]
                    == before[worker] + routed_to(grown, worker, workers) by {
                    reveal_with_fuel(Seq::filter, 1);
                    if worker == worker_index {
                        assert(dispatcher@[worker] =~= queued[worker].push(csv_transaction));
                    } else {
                        assert(dispatcher@[worker] =~= queued[worker]);
                    }
                }
            }
            next = next + 1;
        }
        proof {
            assert(ingestion_receiver@.take(next as int) =~= ingestion_receiver@);
            assert forall|worker: int| 0 <= worker < workers implies #[trigger] dispatcher.worker_senders@[worker]@
                == before[worker] + routed_to(ingestion_receiver@, worker, workers) by {
                assert(dispatcher@[worker] == dispatcher.worker_senders@[worker]@);
            }
        }
        dispatcher.worker_senders
    }
}

/// Routing depends on the account id alone: in one pool, two transactions
/// of one account always go to the same worker, and that worker exists.
pub proof fn lemma_routing_is_deterministic(
    first: CsvTransaction,
    second: CsvTransaction,
    num_workers: nat,
)
    requires
        num_workers > 0,
        first.client_id == second.client_id,
    ensures
        worker_of(first.client_id, num_workers) == worker_of(second.client_id, num_workers),
        0 <= worker_of(first.client_id, num_workers) < num_workers,
{
}

/// Routing keeps the order of each account: the share of the worker that
/// owns an account holds the transactions of that account exactly as the
/// stream had them, and no other worker's share holds any of them.
pub proof fn lemma_account_order_is_kept(
    incoming: Seq<CsvTransaction>,
    client_id: u16,
    worker: int,
    num_workers: nat,
)
    requires
        num_workers > 0,
    ensures
        worker == worker_of(client_id, num_workers) ==> of_account(
            routed_to(incoming, worker, num_workers),
            client_id,
        ) == of_account(incoming, client_id),
        worker != worker_of(client_id, num_workers) ==> of_account(
            routed_to(incoming, worker, num_workers),
            client_id,
        ) == Seq::<CsvTransaction>::empty(),
    decreases incoming.len(),
{
    reveal_with_fuel(Seq::filter, 1);
    if incoming.len() > 0 {
        let earlier = incoming.drop_last();
        let last = incoming.last();
        lemma_account_order_is_kept(earlier, client_id, worker, num_workers);
        let share = routed_to(earlier, worker, num_workers);
        if worker_of(last.client_id, num_workers) == worker {
            assert(share.push(last).drop_last() =~= share);
        } else {
        }
    }
}

/// Every transaction of the stream is forwarded to the worker that owns
/// its account and to no other: a share holds a transaction exactly if the
/// stream holds it and its account belongs to that share's worker.
pub proof fn lemma_each_transaction_has_one_queue(
    incoming: Seq<CsvTransaction>,
    tx: CsvTransaction,
    worker: int,
    num_workers: nat,
)
    ensures
        routed_to(incoming, worker, num_workers).contains(tx) <==> incoming.contains(tx)
            && worker == worker_of(tx.client_id, num_workers),
    decreases incoming.len(),
{
    reveal_with_fuel(Seq::filter, 1);
    if incoming.len() > 0 {
        let earlier = incoming.drop_last();
        let last = incoming.last();
        let share = routed_to(earlier, worker, num_workers);
        lemma_each_transaction_has_one_queue(earlier, tx, worker, num_workers);
        assert(incoming =~= earlier.push(last));
        assert(incoming.contains(tx) <==> earlier.contains(tx) || last == tx) by {
            if incoming.contains(tx) {
                let i = choose|i: int| 0 <= i < incoming.len() && incoming[i] == tx;
                assert(i < earlier.len() ==> earlier[i] == tx);
            }
            if earlier.contains(tx) {
                let i = choose|i: int| 0 <= i < earlier.len() && earlier[i] == tx;
                assert(incoming[i] == tx);
            }
            assert(incoming[earlier.len() as int] == last);
        }
        if worker_of(last.client_id, num_workers) == worker {
            let grown = share.push(last);
            assert(grown.contains(tx) <==> share.contains(tx) || last == tx) by {
                if grown.contains(tx) {
                    let i = choose|i: int| 0 <= i < grown.len() && grown[i] == tx;
                    assert(i < share.len() ==> share[i] == tx);
                }
                if share.contains(tx) {
                    let i = choose|i: int| 0 <= i < share.len() && share[i] == tx;
                    assert(grown[i] == tx);
                }
                assert(grown[share.len() as int] == last);
            }
        }
    }
}

} // verus!
