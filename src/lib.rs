//! A handle-based registry of parsed JavaScript source maps, resolving
//! generated positions back to original positions.

pub mod bridge;
pub mod laws;
pub mod outcome;
pub mod parser;
pub mod registry;

pub use bridge::{
    dispose, lookup_original_position, parse_source_map, register_decoded, resolve_token,
};
pub use outcome::{BridgeError, LookupResult};
pub use registry::Registry;
