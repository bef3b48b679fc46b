//! A client library for the Kalshi exchange, without its network.
//!
//! - [`fixed_point`] reads and writes the venue's prices and counts,
//! - [`models`] gathers the records of the wire, read from and written to [`json`] values by the
//!   rules of [`decode`] and [`encode`]; [`fields`] says in plain words what a value says of a
//!   field, for the laws of the records,
//! - [`strategy_adapter`] turns a strategy's intent into an order,
//! - [`rest`] prepares the requests of the REST interface, and [`walk`] reads lists page by page.

pub mod decode;
pub mod encode;
pub mod error;
pub mod fields;
pub mod fixed_point;
pub mod json;
pub mod market;
pub mod models;
pub mod orders;
pub mod portfolio;
pub mod rest;
pub mod strategy_adapter;
pub mod text;
pub mod walk;
pub mod ws;
