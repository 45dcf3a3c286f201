//! Domain availability and registrar price comparison: the decisions
//! behind a terminal search tool, with their contracts.
pub mod app;
pub mod config;
pub mod order;
pub mod pricing;
pub mod search;
pub mod sorting;
pub mod table;
pub mod text;
pub mod ui;
