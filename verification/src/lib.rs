//! The decision core of a Snap Coin full node.
//!
//! The node binary talks to peers, to the terminal and to the clock; every
//! choice it makes in between is taken here, by functions from plain values
//! to plain values whose behaviour is stated in their contracts.

pub mod dashboard;
pub mod hash;
pub mod options;
pub mod startup;
pub mod sync;
pub mod syncing;
pub mod text;
pub mod watchdog;
