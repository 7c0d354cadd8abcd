//! A schema-driven grid rendering engine for flat binary row buffers.
//!
//! The engine turns a column schema, a byte buffer of fixed-stride rows and a
//! pixel viewport into a list of drawing commands: background fills, crisp
//! gridlines, aligned cell text, recency highlights, sparkline segments and
//! cumulative-depth bars.  A host binds the command list to an actual drawing
//! surface; the engine itself never touches one, which keeps every layout and
//! decoding rule a verified function from plain values to plain values.

use vstd::prelude::*;

pub mod cell;
pub mod cmd;
pub mod codec;
pub mod ctrl;
pub mod dob;
pub mod ds;
pub mod renderer;
pub mod sparkline;
pub mod schema;

verus! {

/// A fatal rendering error: the frame is aborted before any drawing occurs.
#[derive(Debug, Clone, Copy, PartialEq, Eq, Structural)]
pub enum GridError {
    /// A column is malformed: a missing id or a size inconsistent with its type.
    MalformedSchema,
    /// The buffer length is not a multiple of the row stride.
    MisalignedBuffer,
    /// A computed cell index reaches past the end of the buffer.
    OutOfBounds,
}

} // verus!
