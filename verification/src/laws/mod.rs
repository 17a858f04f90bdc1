//! What the operations are for, stated of all inputs: what a price is made of, what
//! reaches the network, what a boot, a fork or a build amounts to.

pub mod access;
pub mod boots;
pub mod builds;
pub mod changes;
pub mod details;
pub mod guests;
pub mod money;
pub mod network;
pub mod offices;
pub mod placing;
pub mod requests;
pub mod shapes;
pub mod siblings;
pub mod states;
pub mod upkeep;
pub mod wires;
pub mod words;
