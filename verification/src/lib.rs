//! Plays an audio file into whatever a microphone is linked to on a PipeWire server.
//!
//! The modules hold everything that is decided or computed on the way:
//!
//! - `session`: the course of a run, as a state machine over what has been done
//! - `audio`: how the decoded audio is described to the server
//! - `properties` and `graph`: the objects on the server, and what is looked for among them
//! - `metadata`: the names of the default devices
//! - `linking` and `plan`: which links carry the stream to where the microphone goes
//! - `ring`: the ring buffer between the decoder and the stream
pub mod audio;
pub mod cli_args;
pub mod graph;
pub mod linking;
pub mod metadata;
pub mod plan;
pub mod properties;
pub mod ring;
pub mod seq_facts;
pub mod session;
