//! Verified core of a data-acquisition suite: experiment-graph analysis and
//! translation, progress tracking, storage naming rules and panel logic.

pub mod clock;
pub mod daemon;
pub mod graph;
pub mod health;
pub mod panels;
pub mod run;
pub mod status;
pub mod storage;
pub mod text;
