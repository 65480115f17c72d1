//! A schema-driven bulk-insert engine.
//!
//! A table is described by its name and its ordered, typed columns. The rows
//! to insert are either supplied with the description or synthesised from it.
//! The library validates the description, derives one parameterised `INSERT`
//! statement, binds every row to it under the discipline of the declared
//! column types, and decides, step by step, what a driver has to ask of a
//! transactional database so that either every row is persisted or none is.
pub mod calendar;
pub mod chance;
pub mod console;
pub mod db;
pub mod json;
pub mod ledger;
pub mod text;
