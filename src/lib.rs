//! A block-synchronous audio graph engine: a graph of processing nodes,
//! a scheduler that orders them for one block, lazily bound ports,
//! module composition, and the control logic of the node library.
mod topology;
pub mod graph;
pub mod processor;
pub mod port;
pub mod clock;
pub mod switch;
pub mod modules;
pub mod bridge;
