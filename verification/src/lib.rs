//! Orchestration engine for a network of independently running worker
//! services ("nodes"): node discovery and registration, graph validation,
//! topological execution ordering, step-by-step distributed execution with
//! inter-node data flow, and workspace persistence of graph definitions.

pub mod config;
pub mod discovery;
pub mod error;
pub mod graph;
pub mod orchestrator;
pub mod order;
pub mod registry;
pub mod strmap;
pub mod text;
pub mod value;
pub mod workspace;
