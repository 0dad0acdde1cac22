//! Initial block download: the choices of the catch-up procedure that brings
//! the local chain up to a peer's.
//!
//! The download asks the peer for its height, then for the hashes of the
//! blocks the local chain lacks, then for each block in order, and hands
//! each block to the chain before it asks for the next. The caller sends the
//! requests and applies the blocks; this module decides what comes next.

use crate::hash::{base36, BlockHash};
use vstd::prelude::*;
use vstd::string::*;

verus! {

/// A request of the download to the peer.
#[derive(Clone, Copy, Debug, PartialEq, Eq)]
pub enum Request {
    Ping { height: u64 },
    GetBlockHashes { start: u64, end: u64 },
    GetBlock { block_hash: BlockHash },
}

/// The peer's answer to a request, reduced to what the download reads.
#[derive(Clone, Debug, PartialEq, Eq)]
pub enum Reply {
    Pong { height: u64 },
    BlockHashes { block_hashes: Vec<BlockHash> },
    /// A block reply: the hash of the block it carries, or `None` where the
    /// peer does not have the block.
    Block { block_hash: Option<BlockHash> },
    /// Any other command.
    Other,
}

/// Why a download stopped early.
#[derive(Clone, Debug, PartialEq, Eq)]
pub enum SyncError {
    /// The peer did not answer the ping with its height.
    NoPeerHeight,
    /// The peer did not answer with block hashes.
    NoBlockHashes,
    /// The peer did not deliver the block with this hash.
    NoBlock { block_hash: BlockHash },
    /// The peer delivered a block other than the one asked for.
    WrongBlock { requested: BlockHash, received: BlockHash },
    /// A request failed in transport.
    Transport { detail: String },
    /// The chain refused a block.
    Rejected { detail: String },
}

/// The request a download is waiting on, as contracts see it.
pub enum WaitingView {
    Pong { local_height: u64 },
    Hashes,
    Block { hashes: Seq<BlockHash>, index: int },
}

/// The block a download has handed to the chain, as contracts see it.
pub struct ApplyingView {
    pub hashes: Seq<BlockHash>,
    pub index: int,
}

/// The next move of a download, as contracts see it.
pub enum StepView {
    Ask { request: Request, waiting: WaitingView },
    Apply { block_hash: BlockHash, applying: ApplyingView },
    Done { outcome: Result<(), SyncError> },
}

enum Pending {
    Pong { local_height: u64 },
    Hashes,
    Block { hashes: Vec<BlockHash>, index: usize },
}

/// A download with a request outstanding.
pub struct Waiting {
    pending: Pending,
}

/// A download with a block handed to the chain.
pub struct Applying {
    hashes: Vec<BlockHash>,
    index: usize,
}

/// The next move of a download.
pub enum Step {
    /// Send `request` and answer `waiting` with what comes back.
    Ask { request: Request, waiting: Waiting },
    /// Add the block of the reply just answered, whose hash is `block_hash`,
    /// to the chain, and tell `applying` how that went.
    Apply { block_hash: BlockHash, applying: Applying },
    /// The download is over.
    Done { outcome: Result<(), SyncError> },
}

impl View for Waiting {
    type V = WaitingView;

    closed spec fn view(&self) -> WaitingView {
        match self.pending {
            Pending::Pong { local_height } => WaitingView::Pong { local_height },
            Pending::Hashes => WaitingView::Hashes,
            Pending::Block { hashes, index } => WaitingView::Block {
                hashes: hashes@,
                index: index as int,
            },
        }
    }
}

impl View for Applying {
    type V = ApplyingView;

    closed spec fn view(&self) -> ApplyingView {
        ApplyingView { hashes: self.hashes@, index: self.index as int }
    }
}

impl View for Step {
    type V = StepView;

    open spec fn view(&self) -> StepView {
        match *self {
            Step::Ask { request, waiting } => StepView::Ask { request, waiting: waiting@ },
            Step::Apply { block_hash, applying } => StepView::Apply {
                block_hash,
                applying: applying@,
            },
            Step::Done { outcome } => StepView::Done { outcome },
        }
    }
}

/// The move that fetches block `index` of `hashes`, or ends the download
/// once the list is exhausted.
pub open spec fn fetch(hashes: Seq<BlockHash>, index: int) -> StepView {
    if 0 <= index < hashes.len() {
        StepView::Ask {
            request: Request::GetBlock { block_hash: hashes[index] },
            waiting: WaitingView::Block { hashes, index },
        }
    } else {
        StepView::Done { outcome: Ok(()) }
    }
}

/// The first move of a download from `local_height`.
pub open spec fn first_step(local_height: u64) -> StepView {
    StepView::Ask {
        request: Request::Ping { height: local_height },
        waiting: WaitingView::Pong { local_height },
    }
}

/// The move that follows when the outstanding request ends in `outcome`:
/// the peer's reply, or the description of a transport failure.
pub open spec fn after_answer(waiting: WaitingView, outcome: Result<Reply, String>) -> StepView {
    match outcome {
        Err(detail) => StepView::Done { outcome: Err(SyncError::Transport { detail }) },
        Ok(reply) => match waiting {
            WaitingView::Pong { local_height } => match reply {
                Reply::Pong { height } => if height <= local_height {
                    StepView::Done { outcome: Ok(()) }
                } else {
                    StepView::Ask {
                        request: Request::GetBlockHashes { start: local_height, end: height },
                        waiting: WaitingView::Hashes,
                    }
                },
                _ => StepView::Done { outcome: Err(SyncError::NoPeerHeight) },
            },
            WaitingView::Hashes => match reply {
                Reply::BlockHashes { block_hashes } => fetch(block_hashes@, 0),
                _ => StepView::Done { outcome: Err(SyncError::NoBlockHashes) },
            },
            WaitingView::Block { hashes, index } => match reply {
                Reply::Block { block_hash: Some(received) } => if received == hashes[index] {
                    StepView::Apply {
                        block_hash: hashes[index],
                        applying: ApplyingView { hashes, index },
                    }
                } else {
                    StepView::Done {
                        outcome: Err(
                            SyncError::WrongBlock { requested: hashes[index], received },
                        ),
                    }
                },
                _ => StepView::Done {
                    outcome: Err(SyncError::NoBlock { block_hash: hashes[index] }),
                },
            },
        },
    }
}

/// The move that follows when the chain has answered for the block handed
/// to it: accepted, or refused with a description.
pub open spec fn after_applied(applying: ApplyingView, outcome: Result<(), String>) -> StepView {
    match outcome {
        Ok(()) => fetch(applying.hashes, applying.index + 1),
        Err(detail) => StepView::Done { outcome: Err(SyncError::Rejected { detail }) },
    }
}

fn fetch_block(hashes: Vec<BlockHash>, index: usize) -> (step: Step)
    ensures
        step@ == fetch(hashes@, index as int),
{
    if index < hashes.len() {
        let block_hash = hashes[index];
        Step::Ask {
            request: Request::GetBlock { block_hash },
            waiting: Waiting { pending: Pending::Block { hashes, index } },
        }
    } else {
        Step::Done { outcome: Ok(()) }
    }
}

/// Starts a download for a chain of `local_height` blocks.
pub fn start(local_height: u64) -> (step: Step)
    ensures
        step@ == first_step(local_height),
{
    Step::Ask {
        request: Request::Ping { height: local_height },
        waiting: Waiting { pending: Pending::Pong { local_height } },
    }
}

/// The text of an error, as it is logged.
pub open spec fn error_text(error: SyncError) -> Seq<char> {
    match error {
        SyncError::NoPeerHeight => "Could not fetch peer height to sync blockchain"@,
        SyncError::NoBlockHashes => "Could not fetch peer block hashes to sync blockchain"@,
        SyncError::NoBlock { block_hash } => "Could not fetch peer block "@ + base36(block_hash@),
        SyncError::WrongBlock { requested, received } => "Peer sent block "@ + base36(received@)
            + " in place of block "@ + base36(requested@),
        SyncError::Transport { detail } => detail@,
        SyncError::Rejected { detail } => detail@,
    }
}

impl SyncError {
    /// The text of the error, as it is logged.
    pub fn message(&self) -> (r: String)
        ensures
            r@ == error_text(*self),
    {
        match self {
            SyncError::NoPeerHeight => String::from_str(
                "Could not fetch peer height to sync blockchain",
            ),
            SyncError::NoBlockHashes => String::from_str(
                "Could not fetch peer block hashes to sync blockchain",
            ),
            SyncError::NoBlock { block_hash } => {
                let mut r = String::from_str("Could not fetch peer block ");
                r.append(block_hash.dump_base36().as_str());
                r
            },
            SyncError::WrongBlock { requested, received } => {
                let mut r = String::from_str("Peer sent block ");
                r.append(received.dump_base36().as_str());
                r.append(" in place of block ");
                r.append(requested.dump_base36().as_str());
                r
            },
            SyncError::Transport { detail } => detail.clone(),
            SyncError::Rejected { detail } => detail.clone(),
        }
    }
}

impl Waiting {
    #[verifier::type_invariant]
    spec fn inv(self) -> bool {
        self.pending matches Pending::Block { hashes, index } ==> index < hashes.len()
    }

    /// Takes the end of the outstanding request and decides the next move.
    pub fn answer(self, outcome: Result<Reply, String>) -> (step: Step)
        ensures
            step@ == after_answer(self@, outcome),
    {
        proof {
            use_type_invariant(&self);
        }
        let reply = match outcome {
            Ok(reply) => reply,
            Err(detail) => {
                return Step::Done { outcome: Err(SyncError::Transport { detail }) };
            },
        };
        match self.pending {
            Pending::Pong { local_height } => match reply {
                Reply::Pong { height } => {
                    if height <= local_height {
                        Step::Done { outcome: Ok(()) }
                    } else {
                        Step::Ask {
                            request: Request::GetBlockHashes { start: local_height, end: height },
                            waiting: Waiting { pending: Pending::Hashes },
                        }
                    }
                },
                _ => Step::Done { outcome: Err(SyncError::NoPeerHeight) },
            },
            Pending::Hashes => match reply {
                Reply::BlockHashes { block_hashes } => fetch_block(block_hashes, 0),
                _ => Step::Done { outcome: Err(SyncError::NoBlockHashes) },
            },
            Pending::Block { hashes, index } => {
                let requested = hashes[index];
                match reply {
                    Reply::Block { block_hash: Some(received) } => {
                        if received.same(&requested) {
                            Step::Apply {
                                block_hash: requested,
                                applying: Applying { hashes, index },
                            }
                        } else {
                            Step::Done {
                                outcome: Err(SyncError::WrongBlock { requested, received }),
                            }
                        }
                    },
                    _ => Step::Done { outcome: Err(SyncError::NoBlock { block_hash: requested }) },
                }
            },
        }
    }
}

impl Applying {
    #[verifier::type_invariant]
    spec fn inv(self) -> bool {
        self.index < self.hashes.len()
    }

    /// Takes the chain's verdict on the block handed to it and decides the
    /// next move.
    pub fn applied(self, outcome: Result<(), String>) -> (step: Step)
        ensures
            step@ == after_applied(self@, outcome),
    {
        proof {
            use_type_invariant(&self);
        }
        match outcome {
            Ok(()) => fetch_block(self.hashes, self.index + 1),
            Err(detail) => Step::Done { outcome: Err(SyncError::Rejected { detail }) },
        }
    }
}

/// What surrounds a download: how each request ends, by the number of
/// requests sent before it, and the chain's verdict on each block handed to
/// it, by the number of blocks it accepted before.
pub struct World {
    pub peer: spec_fn(int, Request) -> Result<Reply, String>,
    pub chain: spec_fn(int) -> Result<(), String>,
}

/// How far a download got: the hashes of the blocks the chain accepted, in
/// order, and the outcome once the download is over.
pub struct Run {
    pub applied: Seq<BlockHash>,
    pub outcome: Option<Result<(), SyncError>>,
}

/// The download from `step` on in `world`, after `asked` requests and with
/// `applied` accepted, followed for at most `fuel` moves.
pub open spec fn run(
    step: StepView,
    world: World,
    asked: int,
    applied: Seq<BlockHash>,
    fuel: nat,
) -> Run
    decreases fuel,
{
    match step {
        StepView::Done { outcome } => Run { applied, outcome: Some(outcome) },
        StepView::Ask { request, waiting } => if fuel == 0 {
            Run { applied, outcome: None }
        } else {
            run(
                after_answer(waiting, (world.peer)(asked, request)),
                world,
                asked + 1,
                applied,
                (fuel - 1) as nat,
            )
        },
        StepView::Apply { block_hash, applying } => if fuel == 0 {
            Run { applied, outcome: None }
        } else {
            let verdict = (world.chain)(applied.len() as int);
            let next = after_applied(applying, verdict);
            if verdict is Ok {
                run(next, world, asked, applied.push(block_hash), (fuel - 1) as nat)
            } else {
                run(next, world, asked, applied, (fuel - 1) as nat)
            }
        },
    }
}

/// A whole download from `local_height` in `world`, followed for at most
/// `fuel` moves.
pub open spec fn download(world: World, local_height: u64, fuel: nat) -> Run {
    run(first_step(local_height), world, 0, Seq::empty(), fuel)
}

/// The hashes the peer lists for a download from `local_height`: those of
/// its answer to the hash request, where it announced a greater height and
/// answered that request with hashes.
pub open spec fn listing(world: World, local_height: u64) -> Option<Seq<BlockHash>> {
    match (world.peer)(0, Request::Ping { height: local_height }) {
        Ok(Reply::Pong { height }) => if height > local_height {
            match (world.peer)(1, Request::GetBlockHashes { start: local_height, end: height }) {
                Ok(Reply::BlockHashes { block_hashes }) => Some(block_hashes@),
                _ => None,
            }
        } else {
            None
        },
        _ => None,
    }
}

/// The hashes the peer lists for a download from `local_height`; none where
/// it lists none.
pub open spec fn listed(world: World, local_height: u64) -> Seq<BlockHash> {
    match listing(world, local_height) {
        Some(hashes) => hashes,
        None => Seq::empty(),
    }
}

/// The peer delivered the block at position `k` of `hashes` under the hash
/// that was asked for, and the chain accepted it.
pub open spec fn delivered(world: World, hashes: Seq<BlockHash>, k: int) -> bool {
    &&& (world.peer)(2 + k, Request::GetBlock { block_hash: hashes[k] }) == Ok::<Reply, String>(
        Reply::Block { block_hash: Some(hashes[k]) },
    )
    &&& (world.chain)(k) is Ok
}

/// A peer that answers every request of a download from `local_height` as
/// the protocol asks, holding `remote_height` blocks of which those above
/// the local chain have the hashes `hashes`, beside a chain that accepts
/// them all.
pub open spec fn honest(
    world: World,
    local_height: u64,
    remote_height: u64,
    hashes: Seq<BlockHash>,
) -> bool {
    &&& (world.peer)(0, Request::Ping { height: local_height }) == Ok::<Reply, String>(
        Reply::Pong { height: remote_height },
    )
    &&& (world.peer)(1, Request::GetBlockHashes { start: local_height, end: remote_height })
        matches Ok(Reply::BlockHashes { block_hashes }) && block_hashes@ == hashes
    &&& forall|k: int| 0 <= k < hashes.len() ==> #[trigger] delivered(world, hashes, k)
}

proof fn lemma_fetch_run(world: World, hashes: Seq<BlockHash>, index: int, fuel: nat)
    requires
        0 <= index <= hashes.len(),
    ensures
        ({
            let r = run(fetch(hashes, index), world, 2 + index, hashes.take(index), fuel);
            &&& index <= r.applied.len() <= hashes.len()
            &&& r.applied == hashes.take(r.applied.len() as int)
            &&& r.outcome == Some(Ok::<(), SyncError>(())) ==> r.applied == hashes
            &&& forall|k: int| index <= k < r.applied.len() ==> #[trigger] delivered(world, hashes, k)
            &&& r.outcome is Some && r.outcome != Some(Ok::<(), SyncError>(())) ==> !delivered(
                world,
                hashes,
                r.applied.len() as int,
            )
            &&& fuel >= 2 * (hashes.len() - index) ==> r.outcome is Some
            &&& fuel >= 2 * (hashes.len() - index) && (forall|k: int|
                index <= k < hashes.len() ==> #[trigger] delivered(world, hashes, k)) ==> r.outcome
                == Some(Ok::<(), SyncError>(()))
        }),
    decreases fuel,
{
    let applied = hashes.take(index);
    let asked = 2 + index;
    if index == hashes.len() {
        assert(applied =~= hashes);
    } else if fuel == 0 {
    } else {
        let waiting = WaitingView::Block { hashes, index };
        let answer = (world.peer)(asked, Request::GetBlock { block_hash: hashes[index] });
        let second = after_answer(waiting, answer);
        let rest = (fuel - 1) as nat;
        assert(run(fetch(hashes, index), world, asked, applied, fuel) == run(
            second,
            world,
            asked + 1,
            applied,
            rest,
        ));
        match second {
            StepView::Apply { block_hash, applying } => {
                assert(answer == Ok::<Reply, String>(
                    Reply::Block { block_hash: Some(hashes[index]) },
                ));
                if rest > 0 {
                    let verdict = (world.chain)(index);
                    let third = after_applied(applying, verdict);
                    if verdict is Ok {
                        assert(third == fetch(hashes, index + 1));
                        assert(applied.push(hashes[index]) =~= hashes.take(index + 1));
                        assert(run(second, world, asked + 1, applied, rest) == run(
                            third,
                            world,
                            asked + 1,
                            hashes.take(index + 1),
                            (rest - 1) as nat,
                        ));
                        lemma_fetch_run(world, hashes, index + 1, (rest - 1) as nat);
                        assert(delivered(world, hashes, index));
                    } else {
                        assert(run(second, world, asked + 1, applied, rest) == run(
                            third,
                            world,
                            asked + 1,
                            applied,
                            (rest - 1) as nat,
                        ));
                        assert(!delivered(world, hashes, index));
                    }
                }
            },
            StepView::Done { outcome } => {
                assert(!delivered(world, hashes, index));
            },
            StepView::Ask { .. } => {},
        }
    }
}

proof fn lemma_download_unfolds(world: World, local_height: u64, fuel: nat)
    requires
        fuel >= 2,
    ensures
        ({
            let hashes = listed(world, local_height);
            let r = download(world, local_height, fuel);
            if listing(world, local_height) is Some {
                r == run(fetch(hashes, 0), world, 2, hashes.take(0), (fuel - 2) as nat)
            } else {
                hashes.len() == 0 && r.applied.len() == 0 && r.outcome is Some
            }
        }),
{
    let hashes = listed(world, local_height);
    let empty = Seq::<BlockHash>::empty();
    assert(empty =~= hashes.take(0));
    let pong = (world.peer)(0, Request::Ping { height: local_height });
    let second = after_answer(WaitingView::Pong { local_height }, pong);
    assert(download(world, local_height, fuel) == run(second, world, 1, empty, (fuel - 1) as nat));
    match second {
        StepView::Ask { request, waiting } => {
            let third = after_answer(waiting, (world.peer)(1, request));
            assert(run(second, world, 1, empty, (fuel - 1) as nat) == run(
                third,
                world,
                2,
                empty,
                (fuel - 2) as nat,
            ));
            if (world.peer)(1, request) matches Ok(Reply::BlockHashes { block_hashes }) {
                assert(third == fetch(hashes, 0));
            }
        },
        _ => {},
    }
}

/// Every download, whatever the peer and the chain do, applies the blocks
/// that the peer listed, in the listed order and without a gap: what was
/// applied is a prefix of the list; each applied block came back under the
/// hash that was asked for and was accepted; success means that the whole
/// list was applied; and a download that ended short of the list ended at
/// the first block that did not come back so or was refused. A failure thus
/// leaves the chain at the last block that was accepted before it.
pub proof fn lemma_download_applies_listed_prefix(world: World, local_height: u64, fuel: nat)
    ensures
        ({
            let hashes = listed(world, local_height);
            let r = download(world, local_height, fuel);
            &&& r.applied.len() <= hashes.len()
            &&& r.applied == hashes.take(r.applied.len() as int)
            &&& forall|k: int| 0 <= k < r.applied.len() ==> #[trigger] delivered(world, hashes, k)
            &&& r.outcome == Some(Ok::<(), SyncError>(())) ==> r.applied == hashes
            &&& r.outcome is Some && r.applied.len() < hashes.len() ==> !delivered(
                world,
                hashes,
                r.applied.len() as int,
            )
        }),
{
    let hashes = listed(world, local_height);
    let empty = Seq::<BlockHash>::empty();
    assert(empty =~= hashes.take(0));
    if fuel >= 2 {
        lemma_download_unfolds(world, local_height, fuel);
        lemma_fetch_run(world, hashes, 0, (fuel - 2) as nat);
        let r = download(world, local_height, fuel);
        if r.applied.len() == 0 && hashes.len() == 0 {
            assert(r.applied =~= hashes);
        }
    } else if fuel == 1 {
        let pong = (world.peer)(0, Request::Ping { height: local_height });
        let second = after_answer(WaitingView::Pong { local_height }, pong);
        assert(download(world, local_height, fuel) == run(second, world, 1, empty, 0));
        if second matches StepView::Done { outcome } {
            assert(hashes =~= empty);
        }
    }
}

/// A download ends: once the peer has listed its hashes, two moves per
/// listed block, and two before them, always reach an outcome.
pub proof fn lemma_download_ends(world: World, local_height: u64, fuel: nat)
    requires
        fuel >= 2 * listed(world, local_height).len() + 2,
    ensures
        download(world, local_height, fuel).outcome is Some,
{
    lemma_download_unfolds(world, local_height, fuel);
    lemma_fetch_run(world, listed(world, local_height), 0, (fuel - 2) as nat);
}

/// Against an honest peer that is ahead, beside a chain that accepts its
/// blocks, a download succeeds and applies exactly the peer's blocks above
/// the local height, in order.
pub proof fn lemma_download_catches_up(
    world: World,
    local_height: u64,
    remote_height: u64,
    hashes: Seq<BlockHash>,
    fuel: nat,
)
    requires
        remote_height > local_height,
        honest(world, local_height, remote_height, hashes),
        fuel >= 2 * hashes.len() + 2,
    ensures
        download(world, local_height, fuel) == (Run { applied: hashes, outcome: Some(Ok(())) }),
{
    assert(listed(world, local_height) == hashes);
    lemma_download_unfolds(world, local_height, fuel);
    lemma_fetch_run(world, hashes, 0, (fuel - 2) as nat);
}

/// A peer that is not ahead ends the download at once, with nothing asked
/// beyond the ping and nothing applied.
pub proof fn lemma_download_of_level_peer(world: World, local_height: u64, remote_height: u64)
    requires
        remote_height <= local_height,
        (world.peer)(0, Request::Ping { height: local_height }) == Ok::<Reply, String>(
            Reply::Pong { height: remote_height },
        ),
    ensures
        download(world, local_height, 1) == (Run { applied: Seq::empty(), outcome: Some(Ok(())) }),
{
    let second = after_answer(
        WaitingView::Pong { local_height },
        (world.peer)(0, Request::Ping { height: local_height }),
    );
    assert(download(world, local_height, 1) == run(second, world, 1, Seq::empty(), 0));
}

} // verus!
