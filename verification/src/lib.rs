//! A small commerce core: customers, products and sales over in-memory
//! stores, with a type-indexed dispatch layer in front of the use cases.
//!
//! The heart of the crate is the sale lifecycle: `commands` registers a
//! sale against live stock (all-or-nothing, stock never negative), and
//! `sales` reconstructs sales by joining the header, junction and entity
//! stores with batched lookups. `pagination` holds the shared offset math
//! and result envelope, `value_objects` the fail-closed validated wrappers,
//! and `dispatch` the mediator that binds each request type to its one
//! handler at compile time.
//!
//! Prices are integer minor currency units throughout, so monetary
//! arithmetic is exact. Timestamps are seconds since the Unix epoch, handed
//! in by the caller through a monotone clock — the commerce workflows never
//! read the time or do I/O themselves; only the log sink in `services`
//! reads the wall clock and writes to stdout, behind trusted wrappers.

pub mod commands;
pub mod dispatch;
pub mod dtos;
pub mod entities;
pub mod error;
pub mod pagination;
pub mod queries;
pub mod sales;
pub mod services;
pub mod store;
pub mod textfmt;
pub mod value_objects;

pub use error::SharedError;
