//! A terminal browser for a relational database file, reduced to its
//! navigation engine: a stack of grid-addressed views, each a sparse grid of
//! text cells with a selection state machine, plus the layout algorithm that
//! turns a tabular result set into a grid of display cells.
//!
//! The terminal surface and the query engine are external collaborators: the
//! driver reads keys and runs queries, and hands this library plain values
//! (key codes, result sets). Everything here is verified.

pub mod result;
pub mod window;
pub mod screen;
pub mod navigator;
