//! Batches of interdependent on-chain calls, run one call at a time.
//!
//! A batch is a queue of calls. Each call holds a message, as a tree, and the
//! actions that fill the message in just before it is dispatched: balances
//! that are fetched, fields of query responses, encodings. The batch is stored
//! between the steps; its presence is the lock that keeps a second batch out.
//! A step that fails is followed by a recovery that returns what the contract
//! holds to the batch's fallback address.
//!
//! The library decides; it does not reach outside. Where an entry point needs
//! something from the contract's surroundings, it names what it needs and
//! changes nothing; it is then run again with the answer added to the answers
//! given so far.
//!
//! - `value`, `pointer`: the message tree and how a pointer addresses a node.
//! - `msg`, `error`, `host`: what goes in and what comes out.
//! - `order`: the canonical order of a call's actions.
//! - `state`, `storage`: the batch and what is stored.
//! - `call`: the conversion of a call into the operation to dispatch.
//! - `commands`, `contract`, `queries`: the entry points.
//! - `ibc_tracking`: the ledger of transfers that await their acknowledgement.
//! - `text`: amounts and encodings as text.

pub mod call;
pub mod commands;
pub mod contract;
pub mod error;
pub mod host;
pub mod ibc_tracking;
pub mod msg;
pub mod order;
pub mod pointer;
pub mod queries;
pub mod state;
pub mod storage;
pub mod text;
pub mod value;
