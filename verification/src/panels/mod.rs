//! Panel logic: logging, DAQ hardware, instruments and the daemon connection.

pub mod logging;
pub mod log_events;
pub mod comedi;
pub mod instruments;
pub mod data_logger;
pub mod code_preview;
pub mod dio_monitor;
pub mod connection;
pub mod cheat_sheet;
