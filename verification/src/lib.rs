//! HAL documents for a service that reads orders: the resource document and
//! how it is written as JSON, the projector that turns a row of a query
//! result into the state of a document, and the mapper that turns an
//! application error into a status and an error document; beside them, the
//! document of an order and the settings with which the database is reached.
//!
//! The library does no floating-point arithmetic. A float is handed to it as
//! the decimal numeral that denotes it, and is written as that numeral, with
//! a fraction part in every case.

pub mod assoc;
pub mod config;
pub mod document;
pub mod error_map;
pub mod json;
pub mod laws;
pub mod link;
pub mod model;
pub mod number;
pub mod order;
pub mod projector;
pub mod resource;
pub mod text;
pub mod value;
