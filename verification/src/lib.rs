//! Pool discovery over a Yellowstone gRPC subscription: the decisions of the
//! streaming session, of the discovery batcher and of the subscription store,
//! each with its contract.

pub mod config;
pub mod discovery;
pub mod human_size;
pub mod logger;
pub mod session;
pub mod subscription;
pub mod wire;
