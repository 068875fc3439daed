//! A YAML encoding engine.
//!
//! The crate turns values into ordered streams of YAML events, and reads
//! typed values back from documents.
//!
//! - [`number`] is the model of numbers: integers and floats with one
//!   not-a-number, a total order and saturating conversions. Floats are held
//!   as bit patterns, which [`binary64`] and [`binary32`] examine and
//!   [`rounding`] rounds to; [`integer`] is the grammar of integers in text.
//! - [`scalar`] decides how a string must be written so that a reader takes
//!   it for a string; [`resolve`] is how a reader takes a plain scalar.
//! - [`event`] is the vocabulary of a stream. [`ser`] is the encoder: the
//!   state machine that answers the calls by which a value describes itself.
//!   [`value`] holds the trees of such values and [`encode`] the walk over
//!   them; [`stream`] tells directly what goes out for a value.
//! - [`with`] writes enums as maps of one entry instead of tags;
//!   [`document`] is the document that a value becomes under each
//!   convention, and [`de`] reads typed values back from documents, by the
//!   [`shape`] that the reader expects.
//! - [`tagged`] tells a tag from other text, [`text`] holds the helpers for
//!   text, and [`error`] the failures. [`utilities`] holds what helps
//!   around the engine: the components of a path that are shown.

pub mod binary32;
pub mod binary64;
pub mod de;
pub mod document;
pub mod encode;
pub mod error;
pub mod event;
pub mod integer;
pub mod number;
mod private;
pub mod resolve;
pub mod rounding;
pub mod scalar;
pub mod ser;
pub mod shape;
pub mod stream;
pub mod tagged;
pub mod text;
pub mod utilities;
pub mod value;
pub mod with;
