//! The DiskStation half of Lookout: the records DSM replies are read into,
//! the rules that decide what to ask for and how to read the answer, and the
//! recorded history. Nothing here opens a socket or draws.

pub mod action;
pub mod model;
pub mod poll;
pub mod present;
pub mod config;
pub mod dsm;
pub mod json;
pub mod sorting;
pub mod text;
pub mod trend;

pub use action::{container_call, row_actions, ContainerAction};
pub use config::{connect_answer, Answer, Config};
pub use poll::{Plan, Slot, Snapshot};
pub use trend::{Range, Sample, Trends};
