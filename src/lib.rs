//! Reconciliation of purchased reserved compute capacity against running
//! instances, with a priced utilisation and savings report.

pub mod errors;
pub mod output_format;
pub mod text;
pub mod money;
pub mod model;
pub mod json;
pub mod cache;
pub mod matcher;
pub mod cost;
pub mod matrix;
pub mod report;
pub mod inventory;
pub mod commands;
