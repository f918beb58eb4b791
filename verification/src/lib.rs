//! An Ethereum virtual machine: it executes transactions, with their calls and creates, on accounts
//! that come from a database.
//!
//! [`evm_impl::EVMImpl`] is the machine. It is a [`host::Host`] to the interpreter that runs the
//! code of contracts, and does a transaction by [`evm_impl::Transact`]. What it does is stated over
//! the mathematical objects of the `*_model` modules; what follows from that is in the `*_laws`
//! modules.
pub mod address;
pub mod address_laws;
pub mod answer_laws;
pub mod call_laws;
pub mod charge_laws;
pub mod create_laws;
pub mod data;
pub mod db;
pub mod determined_laws;
pub mod effect_laws;
pub mod evm_impl;
pub mod fork_laws;
pub mod frames_laws;
pub mod frames_model;
pub mod gas;
pub mod gas_laws;
pub mod hash;
pub mod host;
pub mod inspector;
pub mod interpreter;
pub mod intrinsic_laws;
pub mod journal_effect_laws;
pub mod journal_laws;
pub mod journal_model;
pub mod journaled_state;
pub mod models;
pub mod outcome_laws;
pub mod precompiles;
pub mod primitives;
pub mod record_laws;
pub mod run_laws;
pub mod run_model;
pub mod spec_id;
pub mod state;
pub mod transact_laws;
pub mod transact_model;
pub mod view_laws;
pub mod watch_laws;
pub mod world_laws;
