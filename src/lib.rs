//! A local, single-process ledger for exercising on-chain programs: derived
//! program addresses, an account store, atomic transactions over it, and typed
//! reads of account data.

pub mod accessor;
pub mod account;
pub mod address;
pub mod executor;
pub mod instruction;
pub mod layout;
pub mod store;
pub mod system;
pub mod tip;
pub mod wallet;
