//! A verified core for the Vecno desktop wallet: input checks, balance and
//! history computation, mnemonic handling and the decisions of the user
//! interface, with contracts proved by Verus.
pub mod text;
pub mod models;
pub mod ledger;
pub mod mnemonic;
pub mod commands;
pub mod forms;
pub mod display;
pub mod screens;
pub mod qr;
