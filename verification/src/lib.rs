//! QR-code generation behind an origin gate, with a capacity estimate that is
//! found by probing the encoder rather than read from a table.

pub mod encoder;
pub mod search;
pub mod service;
pub mod capacity;
pub mod origin;
pub mod render;
pub mod text;
