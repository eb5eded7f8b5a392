//! A PROFINET RT IO-Device: codecs, state machines and rules of the device side of an
//! application relationship, each with a machine-checked contract.
//!
//! Everything on the wire is big-endian unless a DCE-RPC data representation says otherwise.

pub mod alarm;
pub mod api;
pub mod bytes;
pub mod capture;
pub mod config;
pub mod data;
pub mod dcp;
pub mod device;
pub mod diag;
pub mod eth;
pub mod gsdml;
pub mod im;
pub mod rpc;
pub mod rt;
pub mod text;
pub mod cm;
