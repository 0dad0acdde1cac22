//! The terminal dashboard's model: what the three panes show and what a key
//! press does. Drawing and reading the keyboard are left to the caller.

use crate::hash::{base36, BlockHash};
use crate::text::{bool_str, bool_text, decimal, push_decimal};
use vstd::prelude::*;
use vstd::string::*;

verus! {

/// Title of the pane that holds the status line.
pub const STATUS_TITLE: &'static str = "NODE STATUS";

/// Title of the pane that holds the peer list.
pub const PEERS_TITLE: &'static str = "PEERS";

/// Title of the pane that holds the log.
pub const LOG_TITLE: &'static str = "LOGS";

/// Rows of the status pane, border included.
pub const STATUS_ROWS: u16 = 3;

/// Rows of the peer pane, border included.
pub const PEERS_ROWS: u16 = 3;

/// Rows the log pane has at least; it takes what the other panes leave.
pub const LOG_MIN_ROWS: u16 = 1;

/// The log file is read again once more than this many milliseconds have
/// passed since the last read.
pub const LOG_REFRESH_MILLIS: u64 = 300;

/// How long one wait for a key press lasts, in milliseconds.
pub const INPUT_POLL_MILLIS: u64 = 50;

/// One connected peer, as the dashboard lists it.
#[derive(Clone, Debug, PartialEq, Eq)]
pub struct PeerSnapshot {
    /// The remote socket address, already formatted.
    pub address: String,
    /// Whether this node dialed the peer.
    pub is_client: bool,
}

/// A key press, reduced to what the dashboard tells apart.
#[derive(Clone, Copy, Debug, PartialEq, Eq)]
pub enum Key {
    Char(char),
    Up,
    Down,
    Other,
}

/// What the caller has to do after a key press.
#[derive(Clone, Copy, Debug, PartialEq, Eq)]
pub enum KeyOutcome {
    /// Keep running.
    Stay,
    /// Leave the dashboard.
    Quit,
    /// Empty the log file and note that it was cleared, then keep running.
    ClearLog,
}

/// The dashboard's own state between frames.
#[derive(Clone, Debug, PartialEq, Eq)]
pub struct Dashboard {
    /// Lines the log pane is scrolled down by.
    pub log_scroll: u16,
    /// The log text as last read.
    pub cached_log: String,
}

/// The height whose block is the tip of a chain of `height` blocks.
pub open spec fn tip_index(height: u64) -> u64 {
    if height == 0 {
        0
    } else {
        (height - 1) as u64
    }
}

/// The label of the last block: its base-36 hash, or a placeholder while
/// the chain is empty.
pub open spec fn block_label(last_block: Option<BlockHash>) -> Seq<char> {
    match last_block {
        Some(h) => base36(h@),
        None => "<no block>"@,
    }
}

/// The status line: port, height, last block and sync flag.
pub open spec fn status_text(
    node_port: u16,
    height: u64,
    last_block: Option<BlockHash>,
    syncing: bool,
) -> Seq<char> {
    "P: "@ + decimal(node_port as nat) + " | H: "@ + decimal(height as nat) + " | L: "@
        + block_label(last_block) + " | S: "@ + bool_text(syncing)
}

/// One entry of the peer line: the address, a star if this node dialed the
/// peer, and a space.
pub open spec fn peer_text(peer: PeerSnapshot) -> Seq<char> {
    if peer.is_client {
        peer.address@ + "* "@
    } else {
        peer.address@ + " "@
    }
}

/// The peer line: the entries of all peers, in order.
pub open spec fn peers_text(peers: Seq<PeerSnapshot>) -> Seq<char>
    decreases peers.len(),
{
    if peers.len() == 0 {
        Seq::empty()
    } else {
        peers_text(peers.drop_last()) + peer_text(peers.last())
    }
}

/// The height to ask the chain for when looking up the last block.
pub fn tip_height(height: u64) -> (r: u64)
    ensures
        r == tip_index(height),
{
    height.saturating_sub(1)
}

/// Whether the cached log is due for another read, `elapsed_nanos` after
/// the last one.
pub fn log_is_stale(elapsed_nanos: u128) -> (r: bool)
    ensures
        r == (elapsed_nanos > LOG_REFRESH_MILLIS as nat * 1_000_000),
{
    elapsed_nanos > 300_000_000
}

/// The text of the status pane.
pub fn status_line(node_port: u16, height: u64, last_block: Option<BlockHash>, syncing: bool) -> (r:
    String)
    ensures
        r@ == status_text(node_port, height, last_block, syncing),
{
    let mut r = String::new();
    r.append("P: ");
    push_decimal(&mut r, node_port as u64);
    r.append(" | H: ");
    push_decimal(&mut r, height);
    r.append(" | L: ");
    match last_block {
        Some(h) => {
            let label = h.dump_base36();
            r.append(label.as_str());
        },
        None => {
            r.append("<no block>");
        },
    }
    r.append(" | S: ");
    r.append(bool_str(syncing));
    assert(r@ =~= status_text(node_port, height, last_block, syncing));
    r
}

/// The text of the peer pane.
pub fn peers_line(peers: &Vec<PeerSnapshot>) -> (r: String)
    ensures
        r@ == peers_text(peers@),
{
    let mut r = String::new();
    let mut i: usize = 0;
    while i < peers.len()
        invariant
            i <= peers.len(),
            r@ == peers_text(peers@.take(i as int)),
        decreases peers.len() - i,
    {
        let ghost before = r@;
        r.append(peers[i].address.as_str());
        if peers[i].is_client {
            r.append("* ");
        } else {
            r.append(" ");
        }
        proof {
            assert(peers@.take(i + 1).drop_last() =~= peers@.take(i as int));
            assert(peers@.take(i + 1).last() == peers@[i as int]);
            assert(r@ =~= before + peer_text(peers@[i as int]));
        }
        i += 1;
    }
    assert(peers@.take(i as int) =~= peers@);
    r
}

impl Dashboard {
    /// A dashboard at the top of an empty log.
    pub fn new() -> (d: Dashboard)
        ensures
            d.log_scroll == 0,
            d.cached_log@ == Seq::<char>::empty(),
    {
        Dashboard { log_scroll: 0, cached_log: String::new() }
    }

    /// Replaces the cached log by a fresh read of the log file.
    pub fn refresh(&mut self, log: String)
        ensures
            final(self).cached_log == log,
            final(self).log_scroll == old(self).log_scroll,
    {
        self.cached_log = log;
    }

    /// The scroll offset of the log pane, as rows and columns.
    pub fn scroll(&self) -> (r: (u16, u16))
        ensures
            r == (self.log_scroll, 0u16),
    {
        (self.log_scroll, 0)
    }

    /// Applies a key press. `q` quits; the arrow keys scroll the log by one
    /// line, stopping at either end of the range; `c` clears the log and
    /// returns to its top; every other key does nothing.
    pub fn on_key(&mut self, key: Key) -> (outcome: KeyOutcome)
        ensures
            key == Key::Char('q') ==> outcome == KeyOutcome::Quit && *final(self) == *old(self),
            key == Key::Char('c') ==> outcome == KeyOutcome::ClearLog && final(self).log_scroll == 0
                && final(self).cached_log@ == Seq::<char>::empty(),
            key == Key::Up ==> outcome == KeyOutcome::Stay && final(self).cached_log == old(
                self,
            ).cached_log && final(self).log_scroll == if old(self).log_scroll == 0 {
                0
            } else {
                old(self).log_scroll - 1
            },
            key == Key::Down ==> outcome == KeyOutcome::Stay && final(self).cached_log == old(
                self,
            ).cached_log && final(self).log_scroll == if old(self).log_scroll == u16::MAX {
                u16::MAX as int
            } else {
                old(self).log_scroll + 1
            },
            key != Key::Char('q') && key != Key::Char('c') && key != Key::Up && key != Key::Down
                ==> outcome == KeyOutcome::Stay && *final(self) == *old(self),
    {
        match key {
            Key::Char(c) => {
                if c == 'q' {
                    KeyOutcome::Quit
                } else if c == 'c' {
                    self.cached_log = String::new();
                    self.log_scroll = 0;
                    KeyOutcome::ClearLog
                } else {
                    KeyOutcome::Stay
                }
            },
            Key::Up => {
                self.log_scroll = self.log_scroll.saturating_sub(1);
                KeyOutcome::Stay
            },
            Key::Down => {
                self.log_scroll = self.log_scroll.saturating_add(1);
                KeyOutcome::Stay
            },
            Key::Other => KeyOutcome::Stay,
        }
    }
}

} // verus!
