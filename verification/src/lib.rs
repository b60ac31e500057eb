//! A retained-mode 2D scene engine.
//!
//! The engine owns a mutable store of drawable shapes, their fill
//! definitions, and a view/render state.  A host drives it one call at a
//! time through a cursor-based protocol: it selects a shape by identifier
//! (materializing an empty one if absent) and every shape-mutating call
//! applies to that selection, doing nothing when no shape is selected.
//!
//! All 32-bit scalar quantities that the host supplies (coordinates,
//! transform coefficients, rotation, opacity, zoom) are carried as the
//! host's IEEE-754 bit patterns and never interpreted arithmetically
//! here; the drawing backend that consumes the draw plan decodes them.
//!
//! The engine is single-threaded by design: one writer at a time, no
//! internal synchronization, not safe for concurrent entry.

pub mod blend;
pub mod fills;
pub mod ident;
pub mod math;
pub mod render;
pub mod shapes;
pub mod state;
pub mod view;
