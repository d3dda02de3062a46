//! Decoder for one request of the "bussin" binary protocol: a fixed header,
//! a length-prefixed path, a counted list of tagged settings and a body that
//! runs to the end of the stream.

pub mod header;
pub mod request;
pub mod source;
pub mod text;
