//! A high-availability SMS engine for serial GSM modems: the rules of the
//! durable queue, the text codec, the AT session, the dispatch strategies
//! and the worker's decisions, each with a machine-checked contract.
//!
//! The library does no I/O. Whoever owns the store, the serial ports and the
//! clock drives it: [`session`], [`dispatch`], [`worker`] and [`engine`] say
//! what to do next and take in what happened; [`channel`] says when a
//! response is complete; [`queue`] states what each operation of the store
//! does to its rows, and holds them in memory for whoever wants to run the
//! rules without a database; [`statements`] holds the same operations as
//! SQLite statements.

pub mod channel;
pub mod codec;
pub mod dispatch;
pub mod engine;
pub mod error;
pub mod modem;
pub mod queue;
pub mod queue_laws;
pub mod seq_facts;
pub mod session;
pub mod session_laws;
pub mod statements;
pub mod text;
pub mod worker;
