//! A client library for a real-time event gateway reached over an upgraded
//! WebSocket connection, with a paginated history reader.
//!
//! The frame codec, message reassembly, handshake keys, session state
//! machine, history pagination, reaction rules and text chain are verified;
//! the code that performs I/O drives them from outside.
pub mod api;
pub mod chain;
pub mod gateway;
pub mod history;
pub mod mentions;
pub mod model;
pub mod text;
pub mod transport;
pub mod ws;
