//! The world of one scenario: the actors that were started for it, under
//! their names, and what the steps have noted down along the way.

use crate::error::HarnessError;
use crate::store::NamedStore;
use crate::text::{decimal, push_decimal, push_text};
use vstd::prelude::*;

verus! {

/// The three kinds of actor that a scenario can start.
#[derive(Clone, Copy, Debug, PartialEq, Eq, Structural)]
pub enum ActorKind {
    BaseNode,
    Wallet,
    Miner,
}

/// What is known of an actor beyond what all kinds share.
#[derive(Clone, Debug, PartialEq, Eq)]
pub enum ActorExtras {
    BaseNode { is_seed: bool, pruning_horizon: Option<u64> },
    Wallet { base_node: Option<String> },
    Miner { node_name: String, wallet_name: String },
}

/// A started actor: where to reach it, where it keeps its files, and which
/// peers it was told to start from.
#[derive(Clone, Debug, PartialEq, Eq)]
pub struct ActorHandle {
    pub name: String,
    pub rpc_port: u16,
    pub work_dir: String,
    pub seed_peers: Vec<String>,
    pub extras: ActorExtras,
}

impl ActorExtras {
    /// The kind of actor that these extras belong to.
    pub open spec fn spec_kind(&self) -> ActorKind {
        match self {
            ActorExtras::BaseNode { .. } => ActorKind::BaseNode,
            ActorExtras::Wallet { .. } => ActorKind::Wallet,
            ActorExtras::Miner { .. } => ActorKind::Miner,
        }
    }

    /// The kind of actor that these extras belong to.
    #[verifier::when_used_as_spec(spec_kind)]
    pub fn kind(&self) -> (k: ActorKind)
        ensures
            k == self.spec_kind(),
    {
        match self {
            ActorExtras::BaseNode { .. } => ActorKind::BaseNode,
            ActorExtras::Wallet { .. } => ActorKind::Wallet,
            ActorExtras::Miner { .. } => ActorKind::Miner,
        }
    }
}

impl ActorHandle {
    /// The kind of this actor.
    pub open spec fn spec_kind(&self) -> ActorKind {
        self.extras.kind()
    }

    /// The kind of this actor.
    #[verifier::when_used_as_spec(spec_kind)]
    pub fn kind(&self) -> (k: ActorKind)
        ensures
            k == self.spec_kind(),
    {
        self.extras.kind()
    }
}

/// A ledger transaction that a step has built, kept under a name until a
/// later step submits it or asks for its state.
#[derive(Clone, Debug, PartialEq, Eq)]
pub struct TransactionRecord {
    /// The excess signature of the first kernel, by which nodes find the transaction.
    pub excess_sig: Vec<u8>,
    /// The transaction as it goes over the wire.
    pub body: Vec<u8>,
}

/// An unspent output that a step can name as an input of a transaction.
#[derive(Clone, Debug, PartialEq, Eq)]
pub struct SpendableOutput {
    pub value: u64,
    /// The output as the transaction builder needs it.
    pub body: Vec<u8>,
}

/// What an atomic swap leaves behind for the step that claims or refunds it.
#[derive(Clone, Debug, PartialEq, Eq)]
pub struct PendingAtomicSwap {
    pub output_hash: String,
    pub pre_image: String,
}

/// The state of one scenario.
pub struct World {
    seed_nodes: Vec<String>,
    base_nodes: NamedStore<ActorHandle>,
    wallets: NamedStore<ActorHandle>,
    miners: NamedStore<ActorHandle>,
    transactions: NamedStore<TransactionRecord>,
    wallet_tx_ids: NamedStore<Vec<u64>>,
    utxos: NamedStore<SpendableOutput>,
    pending_swap: Option<PendingAtomicSwap>,
}

/// Whether each of `handles` is of kind `kind` and stands under its own name.
pub open spec fn filed_under(kind: ActorKind, names: Seq<Seq<char>>, handles: Seq<ActorHandle>) -> bool {
    &&& names.len() == handles.len()
    &&& forall|i: int|
        0 <= i < handles.len() ==> (#[trigger] handles[i]).name@ == names[i] && handles[i].kind()
            == kind
}

impl World {
    /// The names of the actors of kind `kind`, in the order of their registration.
    pub closed spec fn names(&self, kind: ActorKind) -> Seq<Seq<char>> {
        match kind {
            ActorKind::BaseNode => self.base_nodes.names(),
            ActorKind::Wallet => self.wallets.names(),
            ActorKind::Miner => self.miners.names(),
        }
    }

    /// The actors of kind `kind`, in the order of their registration.
    pub closed spec fn handles(&self, kind: ActorKind) -> Seq<ActorHandle> {
        match kind {
            ActorKind::BaseNode => self.base_nodes.values(),
            ActorKind::Wallet => self.wallets.values(),
            ActorKind::Miner => self.miners.values(),
        }
    }

    /// The names of the seed nodes, in the order in which they were started.
    pub closed spec fn seeds(&self) -> Seq<Seq<char>> {
        self.seed_nodes.deep_view()
    }

    /// The names under which transactions are kept.
    pub closed spec fn transaction_names(&self) -> Seq<Seq<char>> {
        self.transactions.names()
    }

    /// The transactions that are kept, each at the place of its name.
    pub closed spec fn transaction_records(&self) -> Seq<TransactionRecord> {
        self.transactions.values()
    }

    /// The names under which outputs are kept.
    pub closed spec fn output_names(&self) -> Seq<Seq<char>> {
        self.utxos.names()
    }

    /// The outputs that are kept, each at the place of its name.
    pub closed spec fn outputs(&self) -> Seq<SpendableOutput> {
        self.utxos.values()
    }

    /// The wallet addresses for which transaction identifiers are kept.
    pub closed spec fn tx_id_owners(&self) -> Seq<Seq<char>> {
        self.wallet_tx_ids.names()
    }

    /// The transaction identifiers that are kept, wallet by wallet.
    pub closed spec fn tx_id_lists(&self) -> Seq<Seq<u64>> {
        Seq::new(self.wallet_tx_ids.values().len(), |i: int| self.wallet_tx_ids.values()[i]@)
    }

    /// The swap that waits for its claim or refund.
    pub closed spec fn swap(&self) -> Option<PendingAtomicSwap> {
        self.pending_swap
    }

    /// The stores are sound, and every actor stands under its own name in the
    /// mapping of its own kind.
    pub closed spec fn wf(&self) -> bool {
        &&& self.base_nodes.wf()
        &&& self.wallets.wf()
        &&& self.miners.wf()
        &&& self.transactions.wf()
        &&& self.wallet_tx_ids.wf()
        &&& self.utxos.wf()
        &&& filed_under(ActorKind::BaseNode, self.base_nodes.names(), self.base_nodes.values())
        &&& filed_under(ActorKind::Wallet, self.wallets.names(), self.wallets.values())
        &&& filed_under(ActorKind::Miner, self.miners.names(), self.miners.values())
    }

    /// Whether nothing at all is held.
    pub open spec fn is_empty(&self) -> bool {
        &&& self.names(ActorKind::BaseNode).len() == 0
        &&& self.names(ActorKind::Wallet).len() == 0
        &&& self.names(ActorKind::Miner).len() == 0
        &&& self.handles(ActorKind::BaseNode).len() == 0
        &&& self.handles(ActorKind::Wallet).len() == 0
        &&& self.handles(ActorKind::Miner).len() == 0
        &&& self.seeds().len() == 0
        &&& self.transaction_names().len() == 0
        &&& self.transaction_records().len() == 0
        &&& self.output_names().len() == 0
        &&& self.outputs().len() == 0
        &&& self.tx_id_owners().len() == 0
        &&& self.tx_id_lists().len() == 0
        &&& self.swap() is None
    }

    /// Whether an actor of kind `kind` is registered under `name`.
    pub open spec fn has(&self, kind: ActorKind, name: Seq<char>) -> bool {
        self.names(kind).contains(name)
    }

    /// The actor of kind `kind` that is registered under `name`.
    pub open spec fn actor(&self, kind: ActorKind, name: Seq<char>) -> ActorHandle {
        self.handles(kind)[self.names(kind).index_of(name)]
    }

    /// The world of a scenario that has not started anything yet.
    pub fn new() -> (w: World)
        ensures
            w.wf(),
            w.is_empty(),
    {
        World {
            seed_nodes: Vec::new(),
            base_nodes: NamedStore::new(),
            wallets: NamedStore::new(),
            miners: NamedStore::new(),
            transactions: NamedStore::new(),
            wallet_tx_ids: NamedStore::new(),
            utxos: NamedStore::new(),
            pending_swap: None,
        }
    }

    /// Whether `other` holds the same actors and seed nodes as this world.
    pub open spec fn same_actors(&self, other: World) -> bool {
        &&& other.seeds() == self.seeds()
        &&& forall|kind: ActorKind| #[trigger] other.names(kind) == self.names(kind)
        &&& forall|kind: ActorKind| #[trigger] other.handles(kind) == self.handles(kind)
    }

    /// Whether `other` holds the same transactions, outputs, transaction
    /// identifiers and pending swap as this world.
    pub open spec fn same_notes(&self, other: World) -> bool {
        &&& other.transaction_names() == self.transaction_names()
        &&& other.transaction_records() == self.transaction_records()
        &&& other.output_names() == self.output_names()
        &&& other.outputs() == self.outputs()
        &&& other.tx_id_owners() == self.tx_id_owners()
        &&& other.tx_id_lists() == self.tx_id_lists()
        &&& other.swap() == self.swap()
    }

    /// Whether `handle` is a base node that was started as a seed.
    pub open spec fn is_seed(handle: ActorHandle) -> bool {
        handle.extras matches ActorExtras::BaseNode { is_seed, .. } && is_seed
    }

    /// Whether `after` is this world with `handle` registered: last of its
    /// kind, and last of the seeds if it is one; all else as it was.
    pub open spec fn with_actor(&self, handle: ActorHandle, after: World) -> bool {
        &&& after.names(handle.kind()) == self.names(handle.kind()).push(handle.name@)
        &&& after.handles(handle.kind()) == self.handles(handle.kind()).push(handle)
        &&& forall|kind: ActorKind|
            kind != handle.kind() ==> #[trigger] after.names(kind) == self.names(kind)
        &&& forall|kind: ActorKind|
            kind != handle.kind() ==> #[trigger] after.handles(kind) == self.handles(kind)
        &&& after.seeds() == if Self::is_seed(handle) {
            self.seeds().push(handle.name@)
        } else {
            self.seeds()
        }
        &&& self.same_notes(after)
    }

    /// What `register` does: `after` and `r` are what registering `handle`
    /// in this world leaves and returns.
    pub open spec fn registers(&self, handle: ActorHandle, after: World, r: Result<(), HarnessError>) -> bool {
        match r {
            Ok(()) => !self.has(handle.kind(), handle.name@) && self.with_actor(handle, after),
            Err(e) => {
                &&& self.has(handle.kind(), handle.name@)
                &&& e matches HarnessError::AlreadyRegistered { kind, name }
                &&& kind == handle.kind()
                &&& name@ == handle.name@
                &&& after == *self
            },
        }
    }

    /// What `lookup` does: `r` is what looking up `name` among the actors of
    /// kind `kind` returns.
    pub open spec fn finds(&self, kind: ActorKind, name: Seq<char>, r: Result<&ActorHandle, HarnessError>) -> bool {
        match r {
            Ok(handle) => {
                &&& self.has(kind, name)
                &&& *handle == self.actor(kind, name)
                &&& handle.name@ == name
                &&& handle.kind() == kind
            },
            Err(e) => {
                &&& !self.has(kind, name)
                &&& e matches HarnessError::ActorNotFound { kind: k, name: n }
                &&& k == kind
                &&& n@ == name
            },
        }
    }

    /// What `teardown` does: `after` is sound and empty, and `owned` are the
    /// actors this world held: base nodes, then wallets, then miners.
    pub open spec fn torn_down(&self, after: World, owned: Seq<ActorHandle>) -> bool {
        &&& after.wf()
        &&& after.is_empty()
        &&& owned == self.handles(ActorKind::BaseNode) + self.handles(ActorKind::Wallet)
            + self.handles(ActorKind::Miner)
    }

    /// Every registered actor stands under its own name and kind, and no name
    /// occurs twice within a kind.
    pub proof fn lemma_registry(&self, kind: ActorKind)
        requires
            self.wf(),
        ensures
            filed_under(kind, self.names(kind), self.handles(kind)),
            self.names(kind).no_duplicates(),
    {
        self.base_nodes.lemma_wf();
        self.wallets.lemma_wf();
        self.miners.lemma_wf();
    }

    /// Registers `handle` under its name, among the actors of its kind. A name
    /// that is taken within that kind is refused, and nothing changes.
    pub fn register(&mut self, handle: ActorHandle) -> (r: Result<(), HarnessError>)
        requires
            old(self).wf(),
        ensures
            final(self).wf(),
            old(self).registers(handle, *final(self), r),
    {
        let kind = handle.kind();
        let taken = match kind {
            ActorKind::BaseNode => self.base_nodes.find(handle.name.as_str()).is_some(),
            ActorKind::Wallet => self.wallets.find(handle.name.as_str()).is_some(),
            ActorKind::Miner => self.miners.find(handle.name.as_str()).is_some(),
        };
        if taken {
            return Err(HarnessError::AlreadyRegistered { kind, name: handle.name.clone() });
        }
        let name = handle.name.clone();
        let seed = match &handle.extras {
            ActorExtras::BaseNode { is_seed, .. } => *is_seed,
            _ => false,
        };
        let ghost seeds = self.seed_nodes.deep_view();
        if seed {
            self.seed_nodes.push(name.clone());
            assert(self.seed_nodes.deep_view() =~= seeds.push(name@));
        }
        match kind {
            ActorKind::BaseNode => {
                self.base_nodes.insert(name, handle);
            },
            ActorKind::Wallet => {
                self.wallets.insert(name, handle);
            },
            ActorKind::Miner => {
                self.miners.insert(name, handle);
            },
        }
        assert(self.tx_id_lists() =~= old(self).tx_id_lists());
        Ok(())
    }

    /// The actor of kind `kind` that is registered under `name`.
    pub fn lookup(&self, kind: ActorKind, name: &str) -> (r: Result<&ActorHandle, HarnessError>)
        requires
            self.wf(),
        ensures
            self.finds(kind, name@, r),
    {
        let found = match kind {
            ActorKind::BaseNode => self.base_nodes.get(name),
            ActorKind::Wallet => self.wallets.get(name),
            ActorKind::Miner => self.miners.get(name),
        };
        match found {
            Some(handle) => {
                proof {
                    self.lemma_registry(kind);
                    let i = self.names(kind).index_of(name@);
                    assert(self.names(kind)[i] == name@);
                    assert(self.handles(kind)[i].name@ == self.names(kind)[i]);
                }
                Ok(handle)
            },
            None => {
                Err(HarnessError::ActorNotFound { kind, name: name.to_owned() })
            },
        }
    }

    /// The names of the actors of kind `kind`, in the order of their registration.
    pub fn all_names(&self, kind: ActorKind) -> (out: Vec<String>)
        ensures
            out.deep_view() == self.names(kind),
    {
        match kind {
            ActorKind::BaseNode => self.base_nodes.name_list(),
            ActorKind::Wallet => self.wallets.name_list(),
            ActorKind::Miner => self.miners.name_list(),
        }
    }

    /// The names of the seed nodes, in the order in which they were started.
    pub fn all_seed_nodes(&self) -> (out: &Vec<String>)
        ensures
            out.deep_view() == self.seeds(),
    {
        &self.seed_nodes
    }

    /// Ends the scenario: forgets everything, and hands out the actors whose
    /// processes are to be terminated: base nodes, then wallets, then miners,
    /// each kind in the order of registration.
    pub fn teardown(&mut self) -> (owned: Vec<ActorHandle>)
        ensures
            old(self).torn_down(*final(self), owned@),
    {
        let mut owned = self.base_nodes.drain();
        let mut wallets = self.wallets.drain();
        let mut miners = self.miners.drain();
        owned.append(&mut wallets);
        owned.append(&mut miners);
        self.seed_nodes.clear();
        self.transactions.clear();
        self.wallet_tx_ids.clear();
        self.utxos.clear();
        self.pending_swap = None;
        owned
    }

    /// Keeps `record` under `name`. A name that is in use keeps its place and
    /// now stands for `record` alone.
    pub fn set_transaction(&mut self, name: String, record: TransactionRecord)
        requires
            old(self).wf(),
        ensures
            final(self).wf(),
            old(self).same_actors(*final(self)),
            final(self).output_names() == old(self).output_names(),
            final(self).outputs() == old(self).outputs(),
            final(self).tx_id_owners() == old(self).tx_id_owners(),
            final(self).tx_id_lists() == old(self).tx_id_lists(),
            final(self).swap() == old(self).swap(),
            if old(self).transaction_names().contains(name@) {
                &&& final(self).transaction_names() == old(self).transaction_names()
                &&& final(self).transaction_records() == old(self).transaction_records().update(
                    old(self).transaction_names().index_of(name@),
                    record,
                )
            } else {
                &&& final(self).transaction_names() == old(self).transaction_names().push(name@)
                &&& final(self).transaction_records() == old(self).transaction_records().push(
                    record,
                )
            },
    {
        self.transactions.insert(name, record);
        assert(self.tx_id_lists() =~= old(self).tx_id_lists());
    }

    /// The transaction that is kept under `name`.
    pub fn transaction(&self, name: &str) -> (r: Option<&TransactionRecord>)
        requires
            self.wf(),
        ensures
            match r {
                Some(record) => self.transaction_names().contains(name@) && *record
                    == self.transaction_records()[self.transaction_names().index_of(name@)],
                None => !self.transaction_names().contains(name@),
            },
    {
        self.transactions.get(name)
    }

    /// Keeps `output` under `name`. A name that is in use keeps its place and
    /// now stands for `output` alone.
    pub fn set_output(&mut self, name: String, output: SpendableOutput)
        requires
            old(self).wf(),
        ensures
            final(self).wf(),
            old(self).same_actors(*final(self)),
            final(self).transaction_names() == old(self).transaction_names(),
            final(self).transaction_records() == old(self).transaction_records(),
            final(self).tx_id_owners() == old(self).tx_id_owners(),
            final(self).tx_id_lists() == old(self).tx_id_lists(),
            final(self).swap() == old(self).swap(),
            if old(self).output_names().contains(name@) {
                &&& final(self).output_names() == old(self).output_names()
                &&& final(self).outputs() == old(self).outputs().update(
                    old(self).output_names().index_of(name@),
                    output,
                )
            } else {
                &&& final(self).output_names() == old(self).output_names().push(name@)
                &&& final(self).outputs() == old(self).outputs().push(output)
            },
    {
        self.utxos.insert(name, output);
        assert(self.tx_id_lists() =~= old(self).tx_id_lists());
    }

    /// The output that is kept under `name`.
    pub fn output(&self, name: &str) -> (r: Option<&SpendableOutput>)
        requires
            self.wf(),
        ensures
            match r {
                Some(output) => self.output_names().contains(name@) && *output
                    == self.outputs()[self.output_names().index_of(name@)],
                None => !self.output_names().contains(name@),
            },
    {
        self.utxos.get(name)
    }

    /// Whether `other` holds the same transactions, outputs and pending swap
    /// as this world.
    pub open spec fn same_records(&self, other: World) -> bool {
        &&& other.transaction_names() == self.transaction_names()
        &&& other.transaction_records() == self.transaction_records()
        &&& other.output_names() == self.output_names()
        &&& other.outputs() == self.outputs()
        &&& other.swap() == self.swap()
    }

    /// The wallets `owners` and their identifiers `lists` with `tx_id` as
    /// the last identifier of `wallet`, which comes last among the wallets if
    /// it had no identifier before.
    pub open spec fn noted(
        owners: Seq<Seq<char>>,
        lists: Seq<Seq<u64>>,
        wallet: Seq<char>,
        tx_id: u64,
    ) -> (Seq<Seq<char>>, Seq<Seq<u64>>) {
        if owners.contains(wallet) {
            let place = owners.index_of(wallet);
            (owners, lists.update(place, lists[place].push(tx_id)))
        } else {
            (owners.push(wallet), lists.push(seq![tx_id]))
        }
    }

    /// What `record_tx_id` does: `after` is this world with `tx_id` noted
    /// for the wallet with address `wallet`, and all else as it was.
    pub open spec fn notes_tx_id(&self, wallet: Seq<char>, tx_id: u64, after: World) -> bool {
        &&& self.same_actors(after)
        &&& self.same_records(after)
        &&& (after.tx_id_owners(), after.tx_id_lists()) == Self::noted(
            self.tx_id_owners(),
            self.tx_id_lists(),
            wallet,
            tx_id,
        )
    }

    /// Notes that the wallet with address `wallet` has sent or received the
    /// transaction `tx_id`: it becomes the last of that wallet's identifiers.
    pub fn record_tx_id(&mut self, wallet: String, tx_id: u64)
        requires
            old(self).wf(),
        ensures
            final(self).wf(),
            old(self).notes_tx_id(wallet@, tx_id, *final(self)),
    {
        proof {
            self.wallet_tx_ids.lemma_wf();
        }
        match self.wallet_tx_ids.find(wallet.as_str()) {
            Some(place) => {
                let mut ids = self.wallet_tx_ids.replace_at(place, Vec::new());
                ids.push(tx_id);
                self.wallet_tx_ids.replace_at(place, ids);
                assert(self.tx_id_lists() =~= old(self).tx_id_lists().update(
                    place as int,
                    old(self).tx_id_lists()[place as int].push(tx_id),
                ));
            },
            None => {
                let mut ids: Vec<u64> = Vec::new();
                ids.push(tx_id);
                self.wallet_tx_ids.insert(wallet, ids);
                assert(self.tx_id_lists() =~= old(self).tx_id_lists().push(seq![tx_id]));
            },
        }
    }

    /// The transaction identifiers noted for the wallet with address `wallet`.
    pub fn tx_ids(&self, wallet: &str) -> (r: Option<&Vec<u64>>)
        requires
            self.wf(),
        ensures
            match r {
                Some(ids) => self.tx_id_owners().contains(wallet@) && ids@
                    == self.tx_id_lists()[self.tx_id_owners().index_of(wallet@)],
                None => !self.tx_id_owners().contains(wallet@),
            },
    {
        proof {
            self.wallet_tx_ids.lemma_wf();
        }
        self.wallet_tx_ids.get(wallet)
    }

    /// Keeps what a later claim or refund of the swap needs; an earlier swap
    /// is forgotten.
    pub fn set_pending_swap(&mut self, swap: PendingAtomicSwap)
        requires
            old(self).wf(),
        ensures
            final(self).wf(),
            old(self).same_actors(*final(self)),
            final(self).transaction_names() == old(self).transaction_names(),
            final(self).transaction_records() == old(self).transaction_records(),
            final(self).output_names() == old(self).output_names(),
            final(self).outputs() == old(self).outputs(),
            final(self).tx_id_owners() == old(self).tx_id_owners(),
            final(self).tx_id_lists() == old(self).tx_id_lists(),
            final(self).swap() == Some(swap),
    {
        self.pending_swap = Some(swap);
        assert(self.tx_id_lists() =~= old(self).tx_id_lists());
    }

    /// The swap that waits for its claim or refund; an error if none does.
    pub fn pending_swap(&self) -> (r: Result<&PendingAtomicSwap, HarnessError>)
        ensures
            match r {
                Ok(swap) => self.swap() == Some(*swap),
                Err(e) => self.swap() is None && e == HarnessError::NoPendingSwap,
            },
    {
        match &self.pending_swap {
            Some(swap) => Ok(swap),
            None => Err(HarnessError::NoPendingSwap),
        }
    }
}

/// The line of the overview that tells where an actor listens and keeps its files.
pub open spec fn actor_line(label: Seq<char>, handle: ActorHandle) -> Seq<char> {
    label + " \""@ + handle.name@ + "\": grpc port \""@ + decimal(handle.rpc_port as nat)
        + "\", temp dir path \""@ + handle.work_dir@ + "\""@
}

/// The lines of the overview for the actors `handles`.
pub open spec fn actor_lines(label: Seq<char>, handles: Seq<ActorHandle>) -> Seq<Seq<char>> {
    Seq::new(handles.len(), |i: int| actor_line(label, handles[i]))
}

/// The overview of a world: its base nodes and its wallets, between rules.
pub open spec fn overview(world: World) -> Seq<Seq<char>> {
    seq![
        Seq::empty(),
        "======================================"@,
        "============= TEST NODES ============="@,
        "======================================"@,
        Seq::empty(),
    ] + actor_lines("Base node"@, world.handles(ActorKind::BaseNode)) + actor_lines(
        "Wallet"@,
        world.handles(ActorKind::Wallet),
    ) + seq![Seq::empty(), "======================================"@, Seq::empty()]
}

fn push_line(lines: &mut Vec<String>, line: &str)
    ensures
        final(lines).deep_view() == old(lines).deep_view().push(line@),
{
    lines.push(line.to_owned());
    assert(lines.deep_view() =~= old(lines).deep_view().push(line@));
}

fn push_actor_lines(lines: &mut Vec<String>, label: &str, store: &NamedStore<ActorHandle>)
    requires
        store.wf(),
    ensures
        final(lines).deep_view() == old(lines).deep_view() + actor_lines(label@, store.values()),
{
    let ghost head = lines.deep_view();
    let n = store.len();
    proof {
        store.lemma_wf();
    }
    let mut i: usize = 0;
    assert(lines.deep_view() =~= head + actor_lines(label@, store.values().take(0)));
    while i < n
        invariant
            i <= n,
            n == store.values().len(),
            n == store.names().len(),
            store.wf(),
            lines.deep_view() == head + actor_lines(label@, store.values().take(i as int)),
        decreases n - i,
    {
        let handle = store.value_at(i);
        let mut line = String::new();
        push_text(&mut line, label);
        push_text(&mut line, " \"");
        push_text(&mut line, handle.name.as_str());
        push_text(&mut line, "\": grpc port \"");
        push_decimal(&mut line, handle.rpc_port as u128);
        push_text(&mut line, "\", temp dir path \"");
        push_text(&mut line, handle.work_dir.as_str());
        push_text(&mut line, "\"");
        let ghost before = lines.deep_view();
        lines.push(line);
        assert(lines.deep_view() =~= before.push(line@));
        assert(actor_lines(label@, store.values().take(i + 1)) =~= actor_lines(
            label@,
            store.values().take(i as int),
        ).push(actor_line(label@, store.values()[i as int])));
        i += 1;
    }
    assert(store.values().take(n as int) =~= store.values());
}

impl World {
    /// The overview of this world, line by line.
    pub fn report(&self) -> (lines: Vec<String>)
        requires
            self.wf(),
        ensures
            lines.deep_view() == overview(*self),
    {
        let mut lines: Vec<String> = Vec::new();
        assert(lines.deep_view() =~= Seq::<Seq<char>>::empty());
        lines.push(String::new());
        assert(lines.deep_view() =~= seq![Seq::<char>::empty()]);
        push_line(&mut lines, "======================================");
        push_line(&mut lines, "============= TEST NODES =============");
        push_line(&mut lines, "======================================");
        let ghost rule = lines.deep_view();
        lines.push(String::new());
        assert(lines.deep_view() =~= rule.push(Seq::<char>::empty()));
        push_actor_lines(&mut lines, "Base node", &self.base_nodes);
        push_actor_lines(&mut lines, "Wallet", &self.wallets);
        let ghost actors = lines.deep_view();
        lines.push(String::new());
        assert(lines.deep_view() =~= actors.push(Seq::<char>::empty()));
        push_line(&mut lines, "======================================");
        let ghost tail = lines.deep_view();
        lines.push(String::new());
        assert(lines.deep_view() =~= tail.push(Seq::<char>::empty()));
        assert(lines.deep_view() =~= overview(*self));
        lines
    }

    /// The outputs that are kept under `names`, in the order of the names;
    /// or the place among `names` of the first for which none is kept.
    pub fn outputs_named(&self, names: &Vec<String>) -> (r: Result<Vec<&SpendableOutput>, usize>)
        requires
            self.wf(),
        ensures
            match r {
                Ok(found) => {
                    &&& found.len() == names.len()
                    &&& forall|i: int|
                        0 <= i < names.len() ==> self.output_names().contains(
                            #[trigger] names[i]@,
                        ) && *found[i] == self.outputs()[self.output_names().index_of(names[i]@)]
                },
                Err(missing) => {
                    &&& missing < names.len()
                    &&& !self.output_names().contains(names[missing as int]@)
                    &&& forall|i: int|
                        0 <= i < missing ==> self.output_names().contains(#[trigger] names[i]@)
                },
            },
    {
        let mut found: Vec<&SpendableOutput> = Vec::new();
        let mut i: usize = 0;
        while i < names.len()
            invariant
                i <= names.len(),
                self.wf(),
                found.len() == i,
                forall|k: int|
                    0 <= k < i ==> self.output_names().contains(#[trigger] names[k]@) && *found[k]
                        == self.outputs()[self.output_names().index_of(names[k]@)],
            decreases names.len() - i,
        {
            match self.output(names[i].as_str()) {
                Some(output) => {
                    found.push(output);
                },
                None => {
                    return Err(i);
                },
            }
            i += 1;
        }
        Ok(found)
    }
}

/// An actor that is registered under a name that was free within its kind is
/// found again under that name and kind, and it is the actor that was
/// registered.
pub proof fn law_registered_actor_is_found(
    before: World,
    handle: ActorHandle,
    after: World,
    registered: Result<(), HarnessError>,
    found: Result<&ActorHandle, HarnessError>,
)
    requires
        before.wf(),
        after.wf(),
        !before.has(handle.kind(), handle.name@),
        before.registers(handle, after, registered),
        after.finds(handle.kind(), handle.name@, found),
    ensures
        registered is Ok,
        found matches Ok(h) && *h == handle && h.name@ == handle.name@ && h.kind() == handle.kind(),
{
    let kind = handle.kind();
    let names = before.names(kind);
    before.lemma_registry(kind);
    after.lemma_registry(kind);
    let last = names.len() as int;
    assert(after.names(kind)[last] == handle.name@);
    assert(after.has(kind, handle.name@));
    let i = after.names(kind).index_of(handle.name@);
    assert(after.names(kind)[i] == handle.name@);
    assert(i == last);
}

/// Registering an actor under a name that is taken within its kind is
/// refused, and the world stays as it was.
pub proof fn law_second_registration_is_refused(
    before: World,
    first: ActorHandle,
    between: World,
    registered: Result<(), HarnessError>,
    second: ActorHandle,
    after: World,
    again: Result<(), HarnessError>,
)
    requires
        before.wf(),
        !before.has(first.kind(), first.name@),
        before.registers(first, between, registered),
        second.kind() == first.kind(),
        second.name@ == first.name@,
        between.registers(second, after, again),
    ensures
        again is Err,
        after == between,
{
    let kind = first.kind();
    let last = before.names(kind).len() as int;
    assert(between.names(kind)[last] == first.name@);
    assert(between.has(kind, second.name@));
}

/// Tearing down a world that holds nothing hands out no actor and leaves an
/// empty world; so does tearing down a second time.
pub proof fn law_teardown_is_idempotent(
    before: World,
    once: World,
    owned: Seq<ActorHandle>,
    twice: World,
    owned_again: Seq<ActorHandle>,
)
    requires
        before.torn_down(once, owned),
        once.torn_down(twice, owned_again),
    ensures
        once.is_empty(),
        twice.is_empty(),
        owned_again.len() == 0,
        before.is_empty() ==> owned.len() == 0,
        once.same_actors(twice),
{
    assert forall|kind: ActorKind| #[trigger] twice.names(kind) == once.names(kind) by {
        assert(twice.names(kind).len() == 0 && once.names(kind).len() == 0);
        assert(twice.names(kind) =~= once.names(kind));
    }
    assert forall|kind: ActorKind| #[trigger] twice.handles(kind) == once.handles(kind) by {
        assert(twice.handles(kind).len() == 0 && once.handles(kind).len() == 0);
        assert(twice.handles(kind) =~= once.handles(kind));
    }
    assert(twice.seeds() =~= once.seeds());
}

} // verus!
