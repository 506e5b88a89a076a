//! Shared, handle-indexed figure/plot store.
//!
//! A canvas owns a single `FigureStore`: a lock-protected mapping from figure
//! names to fixed-size grids of plots. External callers reach the data only
//! through handles (a name, or a name plus grid coordinates) that are
//! re-validated against the store on every access, so a handle never dangles:
//! it either finds its referent or reports a structured error.
//!
//! This crate holds the store, the grid and plot data model, and the layout
//! arithmetic. The windowing layer, the render thread and the lock that guards
//! the store live with the embedding application; every mutation it performs
//! goes through the verified operations defined here.

pub mod error;
pub mod figure;
pub mod plot;
pub mod store;
