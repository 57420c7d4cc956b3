//! rnmap-core: scanning primitives, target/port parsing, output formats.
//!
//! Everything that decides or computes lives here with a contract: port and
//! target specs, timing templates, packet construction and parsing, banner
//! classification, and the text renderers.
mod text;

pub mod addr;
pub mod checksum;
pub mod cli;
pub mod discovery;
pub mod error;
pub mod output;
pub mod ports;
pub mod result;
pub mod scan;
pub mod service;
pub mod target;
pub mod timing;

