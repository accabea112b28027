//! Core of a streaming chat client: the request that one prompt becomes, the
//! decoding of streamed completion chunks, and the rendering of their text.

pub mod chunk;
pub mod client;
pub mod decode;
pub mod json;
pub mod laws;
pub mod render;
pub mod turn;
pub mod view;
