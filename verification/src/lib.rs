//! Rendering of values as text into an append-only sink.
//!
//! A value that is [`Renderable`] announces the pieces of text it hands to a
//! [`Sink`], one write per piece, and stops at the first write the sink
//! refuses. Three kinds of value come with the crate: a list of integers
//! with the index in front of each item, a named point on the globe, and a
//! colour of three channels.

pub mod binary32;
pub mod color;
pub mod digits;
pub mod geo;
pub mod list;
pub mod render;
pub mod sink;

pub use color::RgbColor;
pub use digits::{append_decimal, append_signed};
pub use geo::{Coordinate, GeoPoint};
pub use list::IndexedList;
pub use render::{render_to_string, Renderable};
pub use sink::{LimitedSink, Sink, TextSink, WriteError};
