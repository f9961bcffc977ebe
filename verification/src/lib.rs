//! A verified codec for the line-oriented, section-delimited text format of
//! rhythm-game beatmaps and their storyboard animation scripts.
//!
//! The library decodes a document into a typed in-memory tree and encodes the
//! tree back to its canonical text form.  Every decoder and encoder carries a
//! contract relating its result to a specification-level grammar function, so
//! the accepted grammar and the emitted text are pinned down mathematically,
//! and round-trip lemmas prove that encoding a canonical record and decoding
//! it again gives the record back.

pub mod beatmap;
pub mod colour;
pub mod command;
pub mod decimal;
pub mod difficulty;
pub mod editor;
pub mod error;
pub mod events;
pub mod general;
pub mod hit_object;
pub mod kv;
pub mod metadata;
pub mod numeric;
pub mod sanitize;
pub mod storyboard;
pub mod text;
pub mod timing_point;
pub mod token;

pub use beatmap::Beatmap;
pub use colour::Color;
pub use colour::Colour;
pub use command::Command;
pub use decimal::Decimal;
pub use error::DecodeError;
pub use error::ParseErrorKind;
pub use hit_object::HitObject;
pub use sanitize::sanitize;
pub use storyboard::Storyboard;
pub use timing_point::TimingPoint;
pub use token::Section;
