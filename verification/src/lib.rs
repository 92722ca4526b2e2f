//! Demultiplexing core of a media transcoding pipeline.
//!
//! Given a byte source of unknown type, the crate detects metadata tag
//! envelopes around the media payload (`tags`), probes the payload against a
//! capability registry to select exactly one demultiplexing strategy
//! (`facade::DemuxerObject::create`), and exposes a uniform packet-iteration
//! interface over three structurally different backends: a structured
//! container demuxer, a raw container demuxer with per-stream packetisers,
//! and a single bare elementary-stream packetiser reading straight off the
//! byte source.
//!
//! The parsing internals of concrete container formats and codecs are
//! collaborators, reached through the interfaces in `backend`; the crate
//! itself owns the boundary detection, the probing order, and the
//! packet-assembly scheduling.

pub mod backend;
pub mod facade;
pub mod registry;
pub mod simple;
pub mod source;
pub mod tags;
pub mod types;
