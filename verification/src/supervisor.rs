//! Starting and stopping the processes of a scenario: which port and
//! directory a process gets, what command line it is started with, when its
//! start counts as failed, and how long its end is waited for.

use crate::error::HarnessError;
use crate::retry::{advance, Decision, Phase, RetryPoll};
use crate::text::{decimal, digit_value, lemma_decimal, number, push_decimal, push_text};
use crate::world::{ActorExtras, ActorHandle, ActorKind, World};
use vstd::prelude::*;

verus! {

/// The series of names that steps give to the actors they start by number.
#[derive(Clone, Copy, Debug, PartialEq, Eq, Structural)]
pub enum NameSeries {
    Node,
    SeedNode,
    Wallet,
    Miner,
}

/// What the names of a series begin with.
pub open spec fn series_prefix(series: NameSeries) -> Seq<char> {
    match series {
        NameSeries::Node => "Node_"@,
        NameSeries::SeedNode => "seed_node_"@,
        NameSeries::Wallet => "Wallet_"@,
        NameSeries::Miner => "Miner_"@,
    }
}

/// The name of the actor with number `number` in a series.
pub fn numbered_name(series: NameSeries, number: u64) -> (name: String)
    ensures
        name@ == series_prefix(series) + decimal(number as nat),
{
    let mut name = String::new();
    match series {
        NameSeries::Node => push_text(&mut name, "Node_"),
        NameSeries::SeedNode => push_text(&mut name, "seed_node_"),
        NameSeries::Wallet => push_text(&mut name, "Wallet_"),
        NameSeries::Miner => push_text(&mut name, "Miner_"),
    }
    push_decimal(&mut name, number as u128);
    name
}

/// What a step asks to be started.
#[derive(Clone, Debug)]
pub struct SpawnRequest {
    pub name: String,
    /// The base nodes, by name, that the new actor starts from.
    pub seed_peers: Vec<String>,
    pub extras: ActorExtras,
}

/// A process that is ready to be started: the handle under which it will be
/// registered, and its command line.
#[derive(Debug, PartialEq, Eq)]
pub struct SpawnPlan {
    pub handle: ActorHandle,
    pub args: Vec<String>,
}

/// The directory below the base directory in which the actors of a kind keep their files.
pub open spec fn kind_dir(kind: ActorKind) -> Seq<char> {
    match kind {
        ActorKind::BaseNode => "base_nodes"@,
        ActorKind::Wallet => "wallets"@,
        ActorKind::Miner => "miners"@,
    }
}

/// The working directory of an actor.
pub open spec fn work_dir_text(base_dir: Seq<char>, kind: ActorKind, name: Seq<char>, port: u16) -> Seq<
    char,
> {
    base_dir + "/"@ + kind_dir(kind) + "/"@ + name + "_grpc_port_"@ + decimal(port as nat)
}

/// The address at which the actor with RPC port `port` is reached.
pub open spec fn address_text(port: u16) -> Seq<char> {
    "127.0.0.1:"@ + decimal(port as nat)
}

/// The arguments that name the seed peers, one pair for each.
pub open spec fn seed_args(ports: Seq<u16>) -> Seq<Seq<char>>
    decreases ports.len(),
{
    if ports.len() == 0 {
        Seq::empty()
    } else {
        seed_args(ports.drop_last()) + seq!["--seed-peer"@, address_text(ports.last())]
    }
}

/// The arguments that depend on the kind of the actor: the pruning horizon of
/// a base node that has one, the base node of a wallet that has one, the base
/// node and the wallet of a miner. `node` and `wallet` are the ports of the
/// actors that the extras name.
pub open spec fn kind_args(extras: ActorExtras, node: u16, wallet: u16) -> Seq<Seq<char>> {
    match extras {
        ActorExtras::BaseNode { pruning_horizon: Some(horizon), .. } => seq![
            "--pruning-horizon"@,
            decimal(horizon as nat),
        ],
        ActorExtras::BaseNode { pruning_horizon: None, .. } => Seq::empty(),
        ActorExtras::Wallet { base_node: Some(_) } => seq!["--base-node"@, address_text(node)],
        ActorExtras::Wallet { base_node: None } => Seq::empty(),
        ActorExtras::Miner { .. } => seq![
            "--base-node"@,
            address_text(node),
            "--wallet"@,
            address_text(wallet),
        ],
    }
}

/// The command line of an actor.
pub open spec fn spawn_args(
    network: Seq<char>,
    port: u16,
    work_dir: Seq<char>,
    seeds: Seq<u16>,
    extras: ActorExtras,
    node: u16,
    wallet: u16,
) -> Seq<Seq<char>> {
    seq![
        "--network"@,
        network,
        "--grpc-port"@,
        decimal(port as nat),
        "--base-path"@,
        work_dir,
    ] + seed_args(seeds) + kind_args(extras, node, wallet)
}

/// The base node that the extras name, if they name one.
pub open spec fn named_node(extras: ActorExtras) -> Option<Seq<char>> {
    match extras {
        ActorExtras::BaseNode { .. } => None,
        ActorExtras::Wallet { base_node: Some(n) } => Some(n@),
        ActorExtras::Wallet { base_node: None } => None,
        ActorExtras::Miner { node_name, .. } => Some(node_name@),
    }
}

/// The wallet that the extras name, if they name one.
pub open spec fn named_wallet(extras: ActorExtras) -> Option<Seq<char>> {
    match extras {
        ActorExtras::Miner { wallet_name, .. } => Some(wallet_name@),
        _ => None,
    }
}

/// Where the first of `names` stands that is not a registered base node; the
/// length of `names` if all are.
pub open spec fn first_unknown_seed(world: World, names: Seq<Seq<char>>) -> int
    decreases names.len(),
{
    if names.len() == 0 {
        0
    } else {
        let before = first_unknown_seed(world, names.drop_last());
        if before < names.len() - 1 || !world.has(ActorKind::BaseNode, names.last()) {
            before
        } else {
            names.len() as int
        }
    }
}

/// The RPC ports of the base nodes `names`.
pub open spec fn seed_ports(world: World, names: Seq<Seq<char>>) -> Seq<u16> {
    Seq::new(names.len(), |i: int| world.actor(ActorKind::BaseNode, names[i]).rpc_port)
}

/// The first unknown seed is unknown, and all before it are known.
pub proof fn lemma_first_unknown_seed(world: World, names: Seq<Seq<char>>)
    ensures
        0 <= first_unknown_seed(world, names) <= names.len(),
        forall|j: int|
            0 <= j < first_unknown_seed(world, names) ==> world.has(
                ActorKind::BaseNode,
                #[trigger] names[j],
            ),
        first_unknown_seed(world, names) < names.len() ==> !world.has(
            ActorKind::BaseNode,
            names[first_unknown_seed(world, names)],
        ),
    decreases names.len(),
{
    if names.len() > 0 {
        lemma_first_unknown_seed(world, names.drop_last());
        let before = first_unknown_seed(world, names.drop_last());
        assert forall|j: int| 0 <= j < first_unknown_seed(world, names) implies world.has(
            ActorKind::BaseNode,
            #[trigger] names[j],
        ) by {
            if j < names.len() - 1 {
                assert(names.drop_last()[j] == names[j]);
            }
        }
        if before < names.len() - 1 {
            assert(names.drop_last()[before] == names[before]);
        }
    }
}

/// The RPC ports of the base nodes `names`, or the first of them that is not registered.
pub fn resolve_seeds(world: &World, names: &Vec<String>) -> (r: Result<Vec<u16>, HarnessError>)
    requires
        world.wf(),
    ensures
        match r {
            Ok(ports) => first_unknown_seed(*world, names.deep_view()) == names.len() && ports@
                == seed_ports(*world, names.deep_view()),
            Err(e) => {
                let i = first_unknown_seed(*world, names.deep_view());
                &&& i < names.len()
                &&& e matches HarnessError::ActorNotFound { kind, name }
                &&& kind == ActorKind::BaseNode
                &&& name@ == names[i]@
            },
        },
{
    let mut ports: Vec<u16> = Vec::new();
    let mut i: usize = 0;
    let ghost all = names.deep_view();
    assert(all.take(0) =~= Seq::<Seq<char>>::empty());
    while i < names.len()
        invariant
            i <= names.len(),
            world.wf(),
            all == names.deep_view(),
            first_unknown_seed(*world, all.take(i as int)) == i,
            ports@ == seed_ports(*world, all.take(i as int)),
        decreases names.len() - i,
    {
        proof {
            assert(all.take(i + 1).drop_last() =~= all.take(i as int));
            assert(all.take(i + 1).last() == names[i as int]@);
        }
        match world.lookup(ActorKind::BaseNode, names[i].as_str()) {
            Ok(handle) => {
                ports.push(handle.rpc_port);
                assert(ports@ =~= seed_ports(*world, all.take(i + 1)));
            },
            Err(e) => {
                proof {
                    lemma_unknown_seed_stays(*world, all, i as int);
                }
                return Err(e);
            },
        }
        i += 1;
    }
    assert(all.take(names.len() as int) =~= all);
    Ok(ports)
}

/// A seed that is the first unknown one among those up to it is the first
/// unknown one of the whole list.
pub proof fn lemma_unknown_seed_stays(world: World, names: Seq<Seq<char>>, i: int)
    requires
        0 <= i < names.len(),
        first_unknown_seed(world, names.take(i)) == i,
        !world.has(ActorKind::BaseNode, names[i]),
    ensures
        first_unknown_seed(world, names) == i,
    decreases names.len(),
{
    if names.len() - 1 == i {
        assert(names.drop_last() =~= names.take(i));
    } else {
        assert(names.drop_last().take(i) =~= names.take(i));
        lemma_unknown_seed_stays(world, names.drop_last(), i);
    }
}

/// What starts the processes of all scenarios: it knows the network they
/// join, the directory their files go below, and the ports it has given out.
pub struct Supervisor {
    network: String,
    base_dir: String,
    claimed: Vec<u16>,
}

/// What planning a start leads to, for the ports `node` and `wallet` of the
/// actors that the request names.
pub open spec fn planned(
    network: Seq<char>,
    base_dir: Seq<char>,
    world: World,
    request: SpawnRequest,
    port: u16,
    plan: SpawnPlan,
) -> bool {
    let kind = plan.handle.kind();
    let seeds = seed_ports(world, request.seed_peers.deep_view());
    let node = match named_node(request.extras) {
        Some(n) => world.actor(ActorKind::BaseNode, n).rpc_port,
        None => 0u16,
    };
    let wallet = match named_wallet(request.extras) {
        Some(w) => world.actor(ActorKind::Wallet, w).rpc_port,
        None => 0u16,
    };
    &&& plan.handle.name == request.name
    &&& plan.handle.rpc_port == port
    &&& plan.handle.seed_peers == request.seed_peers
    &&& plan.handle.extras == request.extras
    &&& plan.handle.work_dir@ == work_dir_text(base_dir, kind, request.name@, port)
    &&& plan.args.deep_view() == spawn_args(
        network,
        port,
        plan.handle.work_dir@,
        seeds,
        request.extras,
        node,
        wallet,
    )
}

/// Why a start is refused before any process is started.
pub enum Refusal {
    /// An actor of the kind is registered under the name already.
    Taken { kind: ActorKind, name: Seq<char> },
    /// No actor of the kind is registered under the name.
    Missing { kind: ActorKind, name: Seq<char> },
}

/// Why the start that `request` asks for is refused, if it is: the name is
/// taken, or a seed peer, the base node or the wallet that the request names
/// is not registered; the first of these that holds, in this order.
pub open spec fn refusal(world: World, request: SpawnRequest) -> Option<Refusal> {
    let kind = request.extras.kind();
    let names = request.seed_peers.deep_view();
    let unknown = first_unknown_seed(world, names);
    if world.has(kind, request.name@) {
        Some(Refusal::Taken { kind, name: request.name@ })
    } else if unknown < names.len() {
        Some(Refusal::Missing { kind: ActorKind::BaseNode, name: names[unknown] })
    } else if named_node(request.extras) matches Some(n) && !world.has(ActorKind::BaseNode, n) {
        Some(Refusal::Missing { kind: ActorKind::BaseNode, name: named_node(request.extras)->0 })
    } else if named_wallet(request.extras) matches Some(w) && !world.has(ActorKind::Wallet, w) {
        Some(Refusal::Missing { kind: ActorKind::Wallet, name: named_wallet(request.extras)->0 })
    } else {
        None
    }
}

/// Whether the error `e` tells of the refusal `refusal`.
pub open spec fn tells(e: HarnessError, refusal: Refusal) -> bool {
    match refusal {
        Refusal::Taken { kind, name } => e matches HarnessError::AlreadyRegistered {
            kind: k,
            name: n,
        } && k == kind && n@ == name,
        Refusal::Missing { kind, name } => e matches HarnessError::ActorNotFound {
            kind: k,
            name: n,
        } && k == kind && n@ == name,
    }
}

fn push_arg(args: &mut Vec<String>, arg: String)
    ensures
        final(args).deep_view() == old(args).deep_view().push(arg@),
{
    args.push(arg);
    assert(args.deep_view() =~= old(args).deep_view().push(arg@));
}

fn push_flag(args: &mut Vec<String>, flag: &str)
    ensures
        final(args).deep_view() == old(args).deep_view().push(flag@),
{
    push_arg(args, flag.to_owned());
}

fn address_of(port: u16) -> (out: String)
    ensures
        out@ == address_text(port),
{
    let mut out = String::new();
    push_text(&mut out, "127.0.0.1:");
    push_decimal(&mut out, port as u128);
    out
}

fn push_kind_dir(out: &mut String, kind: ActorKind)
    ensures
        final(out)@ == old(out)@ + kind_dir(kind),
{
    match kind {
        ActorKind::BaseNode => push_text(out, "base_nodes"),
        ActorKind::Wallet => push_text(out, "wallets"),
        ActorKind::Miner => push_text(out, "miners"),
    }
}

impl Supervisor {
    /// The network that the processes join.
    pub closed spec fn network(&self) -> Seq<char> {
        self.network@
    }

    /// The directory below which the processes keep their files.
    pub closed spec fn base_dir(&self) -> Seq<char> {
        self.base_dir@
    }

    /// The ports that have been given out, in the order in which they were.
    pub closed spec fn claimed(&self) -> Seq<u16> {
        self.claimed@
    }

    /// No port has been given out twice.
    pub closed spec fn wf(&self) -> bool {
        self.claimed@.no_duplicates()
    }

    /// A supervisor that has not given out any port.
    pub fn new(network: String, base_dir: String) -> (s: Supervisor)
        ensures
            s.wf(),
            s.network() == network@,
            s.base_dir() == base_dir@,
            s.claimed() == Seq::<u16>::empty(),
    {
        Supervisor { network, base_dir, claimed: Vec::new() }
    }

    /// Claims `port` for a new process. A port that has been given out
    /// before is refused, and nothing changes.
    pub fn claim_port(&mut self, port: u16) -> (granted: bool)
        requires
            old(self).wf(),
        ensures
            final(self).wf(),
            final(self).network() == old(self).network(),
            final(self).base_dir() == old(self).base_dir(),
            granted == !old(self).claimed().contains(port),
            final(self).claimed() == if granted {
                old(self).claimed().push(port)
            } else {
                old(self).claimed()
            },
    {
        let mut i: usize = 0;
        while i < self.claimed.len()
            invariant
                i <= self.claimed.len(),
                *self == *old(self),
                self.wf(),
                forall|j: int| 0 <= j < i ==> self.claimed[j] != port,
            decreases self.claimed.len() - i,
        {
            if self.claimed[i] == port {
                return false;
            }
            i += 1;
        }
        self.claimed.push(port);
        true
    }

    /// The working directory of the actor `name` of kind `kind` on port `port`.
    pub fn work_dir(&self, kind: ActorKind, name: &str, port: u16) -> (out: String)
        ensures
            out@ == work_dir_text(self.base_dir(), kind, name@, port),
    {
        let mut out = String::new();
        push_text(&mut out, self.base_dir.as_str());
        push_text(&mut out, "/");
        push_kind_dir(&mut out, kind);
        push_text(&mut out, "/");
        push_text(&mut out, name);
        push_text(&mut out, "_grpc_port_");
        push_decimal(&mut out, port as u128);
        out
    }

    /// Plans the start of what `request` asks for, on the port `port`: the
    /// handle and the command line of the process. The start is refused, and
    /// no process is to be started, where the name is taken or the request
    /// names an actor that is not registered.
    pub fn plan(&self, world: &World, request: SpawnRequest, port: u16) -> (r: Result<
        SpawnPlan,
        HarnessError,
    >)
        requires
            world.wf(),
        ensures
            match r {
                Ok(plan) => refusal(*world, request) is None && planned(
                    self.network(),
                    self.base_dir(),
                    *world,
                    request,
                    port,
                    plan,
                ),
                Err(e) => refusal(*world, request) matches Some(reason) && tells(e, reason),
            },
    {
        let kind = request.extras.kind();
        let ghost names = request.seed_peers.deep_view();
        proof {
            lemma_first_unknown_seed(*world, names);
        }
        match world.lookup(kind, request.name.as_str()) {
            Ok(_) => {
                return Err(
                    HarnessError::AlreadyRegistered { kind, name: request.name.clone() },
                );
            },
            Err(_) => {},
        }
        let seeds = match resolve_seeds(world, &request.seed_peers) {
            Ok(ports) => ports,
            Err(e) => {
                assert(names[first_unknown_seed(*world, names)] == request.seed_peers[first_unknown_seed(
                    *world,
                    names,
                )]@);
                return Err(e);
            },
        };
        let mut node: u16 = 0;
        let mut wallet: u16 = 0;
        match &request.extras {
            ActorExtras::BaseNode { .. } => {},
            ActorExtras::Wallet { base_node: Some(n) } => {
                match world.lookup(ActorKind::BaseNode, n.as_str()) {
                    Ok(handle) => {
                        node = handle.rpc_port;
                    },
                    Err(e) => {
                        return Err(e);
                    },
                }
            },
            ActorExtras::Wallet { base_node: None } => {},
            ActorExtras::Miner { node_name, wallet_name } => {
                match world.lookup(ActorKind::BaseNode, node_name.as_str()) {
                    Ok(handle) => {
                        node = handle.rpc_port;
                    },
                    Err(e) => {
                        return Err(e);
                    },
                }
                match world.lookup(ActorKind::Wallet, wallet_name.as_str()) {
                    Ok(handle) => {
                        wallet = handle.rpc_port;
                    },
                    Err(e) => {
                        return Err(e);
                    },
                }
            },
        }
        let work_dir = self.work_dir(kind, request.name.as_str(), port);
        let mut args: Vec<String> = Vec::new();
        assert(args.deep_view() =~= Seq::<Seq<char>>::empty());
        push_flag(&mut args, "--network");
        push_arg(&mut args, self.network.clone());
        push_flag(&mut args, "--grpc-port");
        push_arg(&mut args, crate::text::decimal_string(port as u128));
        push_flag(&mut args, "--base-path");
        push_arg(&mut args, work_dir.clone());
        let ghost head = args.deep_view();
        let mut i: usize = 0;
        assert(seeds@.take(0) =~= Seq::<u16>::empty());
        assert(args.deep_view() =~= head + seed_args(seeds@.take(0)));
        while i < seeds.len()
            invariant
                i <= seeds.len(),
                args.deep_view() == head + seed_args(seeds@.take(i as int)),
            decreases seeds.len() - i,
        {
            push_flag(&mut args, "--seed-peer");
            push_arg(&mut args, address_of(seeds[i]));
            proof {
                let next = seeds@.take(i + 1);
                assert(next.drop_last() =~= seeds@.take(i as int));
                assert(next.last() == seeds[i as int]);
                assert(args.deep_view() =~= head + seed_args(next));
            }
            i += 1;
        }
        assert(seeds@.take(seeds.len() as int) =~= seeds@);
        let ghost body = args.deep_view();
        match &request.extras {
            ActorExtras::BaseNode { pruning_horizon: Some(horizon), .. } => {
                push_flag(&mut args, "--pruning-horizon");
                push_arg(&mut args, crate::text::decimal_string(*horizon as u128));
            },
            ActorExtras::BaseNode { pruning_horizon: None, .. } => {},
            ActorExtras::Wallet { base_node: Some(_) } => {
                push_flag(&mut args, "--base-node");
                push_arg(&mut args, address_of(node));
            },
            ActorExtras::Wallet { base_node: None } => {},
            ActorExtras::Miner { .. } => {
                push_flag(&mut args, "--base-node");
                push_arg(&mut args, address_of(node));
                push_flag(&mut args, "--wallet");
                push_arg(&mut args, address_of(wallet));
            },
        }
        assert(args.deep_view() =~= body + kind_args(request.extras, node, wallet));
        let handle = ActorHandle {
            name: request.name,
            rpc_port: port,
            work_dir,
            seed_peers: request.seed_peers,
            extras: request.extras,
        };
        let plan = SpawnPlan { handle, args };
        proof {
            assert(refusal(*world, request) is None);
            assert(plan.handle.kind() == kind);
            assert(head =~= seq![
                "--network"@,
                self.network(),
                "--grpc-port"@,
                decimal(port as nat),
                "--base-path"@,
                plan.handle.work_dir@,
            ]);
            assert(seeds@ == seed_ports(*world, names));
            assert(plan.args.deep_view() =~= spawn_args(
                self.network(),
                port,
                plan.handle.work_dir@,
                seeds@,
                request.extras,
                node,
                wallet,
            ));
        }
        Ok(plan)
    }
}

/// A process that was started and cannot be kept: why, and the handle by
/// which the caller terminates it.
#[derive(Debug, PartialEq, Eq)]
pub struct StartFailure {
    pub error: HarnessError,
    pub orphan: ActorHandle,
}

/// The bounds of a wait that observes every `interval_ms` milliseconds and
/// sleeps for no more than `timeout_ms` milliseconds in all.
pub fn bounded_wait(timeout_ms: u64, interval_ms: u64) -> (policy: crate::retry::RetryPolicy)
    requires
        interval_ms > 0,
    ensures
        policy.interval_ms == interval_ms,
        policy.max_retries == timeout_ms / interval_ms,
        policy.max_retries * policy.interval_ms <= timeout_ms,
        timeout_ms < (policy.max_retries + 1) * policy.interval_ms,
{
    let max_retries = timeout_ms / interval_ms;
    assert(max_retries * interval_ms <= timeout_ms && timeout_ms < (max_retries + 1)
        * interval_ms) by (nonlinear_arith)
        requires
            interval_ms > 0,
            max_retries == timeout_ms / interval_ms,
    ;
    crate::retry::RetryPolicy { interval_ms, max_retries }
}

/// Settles a started process once the wait for its RPC endpoint is over: a
/// process that answered is registered; one that did not answer in time, or
/// whose name was taken in the meantime, is handed back to be terminated, and
/// the world stays as it was.
pub fn settle(world: &mut World, handle: ActorHandle, waited: Phase) -> (r: Result<(), StartFailure>)
    requires
        old(world).wf(),
    ensures
        final(world).wf(),
        match r {
            Ok(()) => waited == Phase::Satisfied && old(world).registers(
                handle,
                *final(world),
                Ok(()),
            ),
            Err(failure) => {
                &&& *final(world) == *old(world)
                &&& failure.orphan == handle
                &&& if waited == Phase::Satisfied {
                    &&& old(world).has(handle.kind(), handle.name@)
                    &&& failure.error matches HarnessError::AlreadyRegistered { kind, name }
                    &&& kind == handle.kind()
                    &&& name@ == handle.name@
                } else {
                    &&& failure.error matches HarnessError::ProcessStartupTimeout { kind, name }
                    &&& kind == handle.kind()
                    &&& name@ == handle.name@
                }
            },
        },
{
    let kind = handle.kind();
    if waited != Phase::Satisfied {
        let error = HarnessError::ProcessStartupTimeout { kind, name: handle.name.clone() };
        return Err(StartFailure { error, orphan: handle });
    }
    match world.lookup(kind, handle.name.as_str()) {
        Ok(_) => {
            let error = HarnessError::AlreadyRegistered { kind, name: handle.name.clone() };
            Err(StartFailure { error, orphan: handle })
        },
        Err(_) => {
            let r = world.register(handle);
            assert(r is Ok);
            Ok(())
        },
    }
}

/// What the caller does next to end a process.
#[derive(Clone, Copy, Debug, PartialEq, Eq, Structural)]
pub enum KillAction {
    /// The process has ended.
    Done,
    /// Sleep for `millis` milliseconds, then look again.
    Wait { millis: u64 },
    /// The grace period is over: end the process by force.
    Force,
}

/// What follows from a decision of the wait for the end of a process.
pub open spec fn kill_action(decision: Decision) -> KillAction {
    match decision {
        Decision::Succeed => KillAction::Done,
        Decision::SleepThenRetry { millis } => KillAction::Wait { millis },
        Decision::GiveUp => KillAction::Force,
    }
}

/// After the termination signal: takes note of whether the process has
/// ended, and says what comes next. `grace` is the wait that bounds the grace
/// period; once it is spent, the process is ended by force.
pub fn kill_step(grace: &mut RetryPoll, exited: bool) -> (action: KillAction)
    requires
        old(grace).wf(),
    ensures
        final(grace).wf(),
        final(grace)@ == advance(old(grace)@, exited).0,
        action == kill_action(advance(old(grace)@, exited).1),
{
    match grace.observe(exited) {
        Decision::Succeed => KillAction::Done,
        Decision::SleepThenRetry { millis } => KillAction::Wait { millis },
        Decision::GiveUp => KillAction::Force,
    }
}

impl Supervisor {
    /// Claims `port` and plans the start of what `request` asks for on it.
    /// `Ok(None)` says that the port has been given out before, and nothing
    /// has changed: the caller comes again with another port. Else the port
    /// is claimed, and the result is the plan, or the refusal of the start.
    pub fn spawn(&mut self, world: &World, request: SpawnRequest, port: u16) -> (r: Result<
        Option<SpawnPlan>,
        HarnessError,
    >)
        requires
            old(self).wf(),
            world.wf(),
        ensures
            final(self).wf(),
            final(self).network() == old(self).network(),
            final(self).base_dir() == old(self).base_dir(),
            final(self).claimed() == if old(self).claimed().contains(port) {
                old(self).claimed()
            } else {
                old(self).claimed().push(port)
            },
            match r {
                Ok(None) => old(self).claimed().contains(port),
                Ok(Some(plan)) => !old(self).claimed().contains(port) && refusal(*world, request)
                    is None && planned(
                    old(self).network(),
                    old(self).base_dir(),
                    *world,
                    request,
                    port,
                    plan,
                ),
                Err(e) => {
                    &&& !old(self).claimed().contains(port)
                    &&& refusal(*world, request) matches Some(reason)
                    &&& tells(e, reason)
                },
            },
    {
        if !self.claim_port(port) {
            return Ok(None);
        }
        match self.plan(world, request, port) {
            Ok(plan) => Ok(Some(plan)),
            Err(e) => Err(e),
        }
    }

    /// No two processes were given the same port: every port that was
    /// granted stands once among the claimed ones.
    pub proof fn law_ports_are_unique(&self)
        requires
            self.wf(),
        ensures
            self.claimed().no_duplicates(),
    {
    }
}

proof fn lemma_same_number(a1: Seq<char>, e1: Seq<char>, a2: Seq<char>, e2: Seq<char>)
    requires
        a1 + e1 == a2 + e2,
        a1.len() > 0 && a1.last() == '_',
        a2.len() > 0 && a2.last() == '_',
        forall|i: int| 0 <= i < e1.len() ==> digit_value(#[trigger] e1[i]) is Some,
        forall|i: int| 0 <= i < e2.len() ==> digit_value(#[trigger] e2[i]) is Some,
    ensures
        e1 == e2,
{
    let t = a1 + e1;
    assert(t.len() == a1.len() + e1.len() && t.len() == a2.len() + e2.len());
    if e1.len() < e2.len() {
        let i = a1.len() - 1;
        assert(t[i] == a1[i]);
        assert((a2 + e2)[i] == e2[i - a2.len()]);
    } else if e2.len() < e1.len() {
        let i = a2.len() - 1;
        assert((a2 + e2)[i] == a2[i]);
        assert(t[i] == e1[i - a1.len()]);
    } else {
        assert forall|j: int| 0 <= j < e1.len() implies e1[j] == e2[j] by {
            assert(t[a1.len() + j] == e1[j]);
            assert((a2 + e2)[a2.len() + j] == e2[j]);
        }
        assert(e1 =~= e2);
    }
}

/// No two processes share a working directory: directories on different
/// ports differ, whatever the kinds and the names of the actors.
pub proof fn law_work_dirs_are_unique(
    base_dir: Seq<char>,
    kind: ActorKind,
    name: Seq<char>,
    port: u16,
    other_kind: ActorKind,
    other_name: Seq<char>,
    other_port: u16,
)
    requires
        port != other_port,
    ensures
        work_dir_text(base_dir, kind, name, port) != work_dir_text(
            base_dir,
            other_kind,
            other_name,
            other_port,
        ),
{
    reveal_strlit("_grpc_port_");
    let a1 = base_dir + "/"@ + kind_dir(kind) + "/"@ + name + "_grpc_port_"@;
    let a2 = base_dir + "/"@ + kind_dir(other_kind) + "/"@ + other_name + "_grpc_port_"@;
    let e1 = decimal(port as nat);
    let e2 = decimal(other_port as nat);
    lemma_decimal(port as nat);
    lemma_decimal(other_port as nat);
    assert(a1.last() == "_grpc_port_"@[10]);
    assert(a2.last() == "_grpc_port_"@[10]);
    if a1 + e1 == a2 + e2 {
        lemma_same_number(a1, e1, a2, e2);
        assert(number(e1) == number(e2));
    }
}

} // verus!
