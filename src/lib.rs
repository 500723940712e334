//! Control-plane logic for provisioning, funding and scheduling a triplet of
//! worker programs: the vault's pooled share ledger and refueling decisions,
//! the proxy's indexing scheduler, the initializer's orchestration protocol,
//! and the RPC envelope used on the data plane.

pub mod deployment;
pub mod initializer;
pub mod ledger;
pub mod legacy;
pub mod principal;
pub mod proxy;
pub mod registry;
pub mod rpc;
pub mod vault;
