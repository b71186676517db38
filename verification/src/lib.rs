//! Verified core of `tabl`, a terminal spreadsheet for data files.

pub mod text;
pub mod value;
pub mod edit;
pub mod error;
pub mod column;
pub mod view;
pub mod frame;
pub mod sheet;
pub mod laws;
pub mod viewport;
pub mod format;
pub mod app;
pub mod event;
pub mod show;
pub mod table;
pub mod status;
pub mod purpose_laws;
