//! Owned capability adapters for bus devices and pixel surfaces.
//!
//! A resource that can run bus transactions (or take pixel writes) is paired
//! with an interception routine. The pair is owned by one value that offers the
//! same capability, and on each call lends the resource to the routine for that
//! call alone.

pub mod bus;
pub mod error;
pub mod display;
pub mod serial;
