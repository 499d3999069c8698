//! Experiment graphs: structure, ordering, validation and translation.

pub mod topo;
pub mod structure;
pub mod nodes;
pub mod reach;
pub mod validation;
pub mod plan;
pub mod execution_state;
pub mod codegen;
pub mod depth;
pub mod adaptive;
pub mod viewer;
