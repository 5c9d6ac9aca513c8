//! A verified core for a YubiHSM2-backed certificate authority manager.
use vstd::prelude::*;

pub mod cli;
pub mod command;
pub mod config;
pub mod error;
pub mod hsm;
pub mod pki;
pub mod signing;
pub mod sort;
pub mod store;
pub mod table;
pub mod text;
pub mod tls;
pub mod workflow;
pub mod wrapped;
pub mod x509;

verus! {
} // verus!
