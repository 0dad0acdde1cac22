//! What the node does on startup, in order, for a given command line, and
//! what it stops, in order, when it shuts down.

use crate::options::{Options, OptionsView};
use vstd::prelude::*;
use vstd::string::*;

verus! {

/// Seconds the node waits before it starts the query API.
pub const API_START_DELAY_SECS: u64 = 1;

/// Seconds the node waits before it starts the initial block download.
pub const DOWNLOAD_DELAY_SECS: u64 = 1;

/// One step of the node's startup.
#[derive(Clone, Copy, Debug, PartialEq, Eq)]
pub enum StartupStep {
    /// Attach the runtime console.
    AttachConsole,
    /// Switch proof of work to its full-memory mode.
    UseFullMemory,
    /// Create the node, listen for peers and dial the seed peers.
    StartNode,
    /// Wait, then serve the query API on `port`.
    ServeApi { port: u16 },
    /// Build a genesis block, compute its proof of work and submit it.
    CreateGenesis,
    /// Wait, then download the chain from the seed peer at position `seed`.
    /// The node is syncing from this step until the download is over.
    Download { seed: usize },
    /// Start the watchdog that redials the first seed peer.
    StartWatchdog,
    /// Start peer discovery.
    StartAutoPeer,
    /// Run until the node stops, without a dashboard.
    RunHeadless,
    /// Run the dashboard until it is left.
    RunDashboard,
}

/// One step of the node's shutdown.
#[derive(Clone, Copy, Debug, PartialEq, Eq)]
pub enum ShutdownStep {
    /// Cancel peer discovery.
    StopAutoPeer,
    /// Cancel the watchdog.
    StopWatchdog,
    /// Cancel the listener for incoming peers.
    StopListener,
    /// Close the sessions of the connected peers.
    DrainPeers,
}

/// `steps` and then `step`, where `wanted` holds; else `steps`.
pub open spec fn then_if(steps: Seq<StartupStep>, wanted: bool, step: StartupStep) -> Seq<
    StartupStep,
> {
    if wanted {
        steps.push(step)
    } else {
        steps
    }
}

/// Whether startup downloads the chain: there is a seed peer that resolved,
/// and the download is not switched off.
pub open spec fn wants_download(options: OptionsView, resolved_peers: nat) -> bool {
    resolved_peers > 0 && !options.no_ibd
}

/// The startup of a node with the given options and `resolved_peers` seed
/// peers whose addresses resolved.
pub open spec fn plan(options: OptionsView, resolved_peers: nat) -> Seq<StartupStep> {
    let s = then_if(Seq::empty(), options.debug, StartupStep::AttachConsole);
    let s = then_if(s, options.full_memory, StartupStep::UseFullMemory);
    let s = s.push(StartupStep::StartNode);
    let s = then_if(s, options.start_api, StartupStep::ServeApi { port: options.api_port });
    let s = then_if(s, options.create_genesis, StartupStep::CreateGenesis);
    let s = then_if(
        s,
        wants_download(options, resolved_peers),
        StartupStep::Download { seed: 0 },
    );
    let s = then_if(s, resolved_peers > 0, StartupStep::StartWatchdog);
    let s = then_if(s, !options.no_auto_peer, StartupStep::StartAutoPeer);
    s.push(
        if options.headless {
            StartupStep::RunHeadless
        } else {
            StartupStep::RunDashboard
        },
    )
}

/// The text of the error for a seed peer whose address did not resolve.
pub open spec fn unresolved_text(seed: Seq<char>) -> Seq<char> {
    "Failed to resolve or parse seed peer: "@ + seed
}

/// Plans the startup of a node.
pub fn startup_plan(options: &Options, resolved_peers: usize) -> (steps: Vec<StartupStep>)
    ensures
        steps@ == plan(options@, resolved_peers as nat),
{
    let mut steps: Vec<StartupStep> = Vec::new();
    if options.debug {
        steps.push(StartupStep::AttachConsole);
    }
    if options.full_memory {
        steps.push(StartupStep::UseFullMemory);
    }
    steps.push(StartupStep::StartNode);
    if options.start_api {
        steps.push(StartupStep::ServeApi { port: options.api_port });
    }
    if options.create_genesis {
        steps.push(StartupStep::CreateGenesis);
    }
    if resolved_peers > 0 && !options.no_ibd {
        steps.push(StartupStep::Download { seed: 0 });
    }
    if resolved_peers > 0 {
        steps.push(StartupStep::StartWatchdog);
    }
    if !options.no_auto_peer {
        steps.push(StartupStep::StartAutoPeer);
    }
    if options.headless {
        steps.push(StartupStep::RunHeadless);
    } else {
        steps.push(StartupStep::RunDashboard);
    }
    assert(steps@ =~= plan(options@, resolved_peers as nat));
    steps
}

/// `steps` and then `step`, where `wanted` holds; else `steps`.
pub open spec fn then_stop(steps: Seq<ShutdownStep>, wanted: bool, step: ShutdownStep) -> Seq<
    ShutdownStep,
> {
    if wanted {
        steps.push(step)
    } else {
        steps
    }
}

/// Whether `step` is among the first `k` of `steps`.
pub open spec fn started_before(steps: Seq<StartupStep>, step: StartupStep, k: int) -> bool {
    exists|i: int| 0 <= i < k && i < steps.len() && #[trigger] steps[i] == step
}

/// The shutdown of a node that went through the startup steps `started`:
/// peer discovery, the watchdog and the listener are cancelled, in that
/// order and as far as they were started; then the peers are drained, where
/// the node was started at all.
pub open spec fn shutdown(started: Seq<StartupStep>) -> Seq<ShutdownStep> {
    let n = started.len() as int;
    let node = started_before(started, StartupStep::StartNode, n);
    let s = then_stop(
        Seq::empty(),
        started_before(started, StartupStep::StartAutoPeer, n),
        ShutdownStep::StopAutoPeer,
    );
    let s = then_stop(
        s,
        started_before(started, StartupStep::StartWatchdog, n),
        ShutdownStep::StopWatchdog,
    );
    let s = then_stop(s, node, ShutdownStep::StopListener);
    then_stop(s, node, ShutdownStep::DrainPeers)
}

/// Plans the shutdown of a node that went through the startup steps
/// `started`.
pub fn shutdown_plan(started: &Vec<StartupStep>) -> (steps: Vec<ShutdownStep>)
    ensures
        steps@ == shutdown(started@),
{
    let mut auto_peer = false;
    let mut watchdog = false;
    let mut node = false;
    let mut i: usize = 0;
    while i < started.len()
        invariant
            i <= started.len(),
            auto_peer == started_before(started@, StartupStep::StartAutoPeer, i as int),
            watchdog == started_before(started@, StartupStep::StartWatchdog, i as int),
            node == started_before(started@, StartupStep::StartNode, i as int),
        decreases started.len() - i,
    {
        match started[i] {
            StartupStep::StartAutoPeer => {
                auto_peer = true;
            },
            StartupStep::StartWatchdog => {
                watchdog = true;
            },
            StartupStep::StartNode => {
                node = true;
            },
            _ => {},
        }
        proof {
            lemma_started_step(started@, StartupStep::StartAutoPeer, i as int);
            lemma_started_step(started@, StartupStep::StartWatchdog, i as int);
            lemma_started_step(started@, StartupStep::StartNode, i as int);
        }
        i += 1;
    }
    let mut steps: Vec<ShutdownStep> = Vec::new();
    if auto_peer {
        steps.push(ShutdownStep::StopAutoPeer);
    }
    if watchdog {
        steps.push(ShutdownStep::StopWatchdog);
    }
    if node {
        steps.push(ShutdownStep::StopListener);
        steps.push(ShutdownStep::DrainPeers);
    }
    assert(steps@ =~= shutdown(started@));
    steps
}

proof fn lemma_started_step(steps: Seq<StartupStep>, step: StartupStep, i: int)
    requires
        0 <= i < steps.len(),
    ensures
        started_before(steps, step, i + 1) == (started_before(steps, step, i) || steps[i] == step),
{
    if started_before(steps, step, i + 1) {
        let j = choose|j: int| 0 <= j < i + 1 && j < steps.len() && #[trigger] steps[j] == step;
        if j < i {
            assert(started_before(steps, step, i));
        }
    }
    if started_before(steps, step, i) {
        let j = choose|j: int| 0 <= j < i && j < steps.len() && #[trigger] steps[j] == step;
        assert(0 <= j < i + 1 && steps[j] == step);
    }
    if steps[i] == step {
        assert(0 <= i < i + 1 && steps[i] == step);
    }
}

/// The error for a seed peer whose address did not resolve.
pub fn unresolved_seed(seed: &str) -> (r: String)
    ensures
        r@ == unresolved_text(seed@),
{
    let mut r = String::from_str("Failed to resolve or parse seed peer: ");
    r.append(seed);
    r
}

/// The plan downloads the chain exactly where a seed peer resolved and the
/// download is not switched off, and then from the first seed; a seed that
/// is downloaded from, or watched, is one of those that resolved.
pub proof fn lemma_plan_downloads(options: OptionsView, resolved_peers: nat)
    ensures
        plan(options, resolved_peers).contains(StartupStep::Download { seed: 0 })
            <==> wants_download(options, resolved_peers),
        forall|seed: usize| #[trigger]
            plan(options, resolved_peers).contains(StartupStep::Download { seed }) ==> seed
                < resolved_peers,
        plan(options, resolved_peers).contains(StartupStep::StartWatchdog) <==> resolved_peers > 0,
{
    let p = plan(options, resolved_peers);
    let s1 = then_if(Seq::empty(), options.debug, StartupStep::AttachConsole);
    let s2 = then_if(s1, options.full_memory, StartupStep::UseFullMemory);
    let s3 = s2.push(StartupStep::StartNode);
    let s4 = then_if(s3, options.start_api, StartupStep::ServeApi { port: options.api_port });
    let s5 = then_if(s4, options.create_genesis, StartupStep::CreateGenesis);
    let s6 = then_if(
        s5,
        wants_download(options, resolved_peers),
        StartupStep::Download { seed: 0 },
    );
    let s7 = then_if(s6, resolved_peers > 0, StartupStep::StartWatchdog);
    let s8 = then_if(s7, !options.no_auto_peer, StartupStep::StartAutoPeer);
    assert forall|step: StartupStep| s5.contains(step) implies !(step is Download) && !(step
        is StartWatchdog) by {
        let i = choose|i: int| 0 <= i < s5.len() && s5[i] == step;
        if i < s1.len() {
            assert(s5[i] == s1[i]);
        } else if i < s2.len() {
            assert(s5[i] == s2[i]);
        } else if i < s3.len() {
            assert(s5[i] == s3[i]);
        } else if i < s4.len() {
            assert(s5[i] == s4[i]);
        }
    }
    if wants_download(options, resolved_peers) {
        assert(p[s5.len() as int] == StartupStep::Download { seed: 0 });
    }
    if resolved_peers > 0 {
        assert(p[s6.len() as int] == StartupStep::StartWatchdog);
    }
    assert forall|step: StartupStep| p.contains(step) && (step is Download || step
        is StartWatchdog) implies (step == StartupStep::Download { seed: 0 } && wants_download(
        options,
        resolved_peers,
    )) || (step is StartWatchdog && resolved_peers > 0) by {
        let i = choose|i: int| 0 <= i < p.len() && p[i] == step;
        if i < s5.len() {
            assert(p[i] == s5[i]);
            assert(s5.contains(step));
        } else if i < s6.len() {
            assert(p[i] == s6[i]);
        } else if i < s7.len() {
            assert(p[i] == s7[i]);
        } else if i < s8.len() {
            assert(p[i] == s8[i]);
        }
    }
}

} // verus!
