//! Collaboration graphs of agents and the spectral readings that a terminal
//! dashboard shows of them.
//!
//! An [`AgentGraph`] is built by agent id and hands a [`GraphSnapshot`] of node
//! indices to the solvers it is given: the eigenvalue computation is theirs. A
//! [`SpectralDashboard`] asks them again every so many ticks and shows what they
//! measured. Numbers are carried as [`Binary64`] encodings.
//!
//! `model` says what each operation does to a graph, `effects` what is then found
//! in each node, edge, bit and solver call, and `laws` what holds of all of
//! them together.
pub mod binary64;
pub mod dashboard;
pub mod effects;
pub mod graph;
pub mod laws;
pub mod model;
pub mod readings;
pub mod ticks;

pub use binary64::Binary64;
pub use dashboard::SpectralDashboard;
pub use graph::{AgentGraph, AgentNode, CollabEdge, GraphSnapshot};
pub use readings::SpectralReadings;
pub use ticks::TickCounter;
