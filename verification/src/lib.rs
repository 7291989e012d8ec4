//! Streams a raster image to a shared drawing room as monochrome dots.
//!
//! The pipeline is: [`raster`] (the decoded image) → [`sampler`] (spatial
//! subsampling) → [`threshold`] (on/off decision) → [`emitter`] (draw commands
//! and pacing), with [`codec`] giving the wire text of each message sent,
//! [`inbound`] reading the server's messages, [`handshake`] deciding when
//! streaming may begin and [`session`] standing for a joined room.

pub mod text;
pub mod error;
pub mod config;
pub mod raster;
pub mod threshold;
pub mod sampler;
pub mod room;
pub mod codec;
pub mod inbound;
pub mod handshake;
pub mod emitter;
pub mod preview;
pub mod session;
