//! HLS / LL-HLS playlist attribute parsing, URI resolution and client actions.

pub mod client;
pub mod error;
pub mod master;
pub mod media;
pub mod model;
pub mod parser;
pub mod playlist;
pub mod session;
pub mod text;
pub mod variant;
