//! A gateway between a scheduled master/slave field bus and a virtual bus
//! carried over the network.
pub mod frame;
pub mod ldf;
pub mod masterslave;
pub mod noechoslave;
pub mod simulator;
pub mod text;
pub mod msg;
pub mod worker;
pub mod server;
pub mod kvaser_linux;
