//! A bartering network of boolean decision units.
//!
//! Nodes on an eight by eight grid hold a scarce balance of cookies. Each
//! buys two boolean signals, from the cheapest node one layer deeper or from
//! the tick's inputs and pulses, combines them with its two-input task and
//! reports the result upward. The engine runs one tick of that market for the
//! outer layer and keeps the rewards for the next tick.
//!
//! Beside the market stand the smaller controllers of the same simulation: a
//! chain of boolean operations over a data buffer, a steering system of
//! blocks scanned for the first that fires, and the integer rules of a pilot.

pub mod chain;
mod chance;
pub mod cookies;
pub mod engine;
pub mod network;
pub mod node;
pub mod pilot;
pub mod system;
pub mod task;

pub use chain::{Chain, DataBuffer, Mutation, Opperation};
pub use cookies::Cookies;
pub use engine::{pulses, Engine, EngineView};
pub use network::Network;
pub use node::Node;
pub use pilot::{input_count_for, survivor, Survivor};
pub use system::{Block, System};
pub use task::{Link, Signals, Task};
