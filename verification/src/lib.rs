//! Session-scoped transaction authorization for an account-abstraction wallet:
//! field elements, sessions and their allowlists, storage of session
//! credentials per origin, the controller's routing between session and owner
//! signing, outside executions and the relay proxy's request handling.

pub mod controller;
pub mod felt;
pub mod hex;
pub mod json;
pub mod outside_execution;
pub mod proxy;
pub mod session;
pub mod signers;
pub mod storage;
pub mod wire;
