//! Plain data carried between the byte source, the backends and the caller:
//! stream descriptors, packets, raw data units, time points, option values
//! and the error taxonomy.
use vstd::prelude::*;

verus! {

/// The media kind of one elementary stream.
#[derive(Clone, Copy, Debug, PartialEq, Eq, Structural)]
pub enum MediaType {
    Audio,
    Video,
    Data,
}

/// Codec-specific parameters of one elementary stream.
#[derive(Clone, Copy, Debug, PartialEq, Eq, Structural)]
pub enum CodecParams {
    Video { width: u32, height: u32 },
    Audio { sample_rate: u32, channels: u32 },
    Generic,
}

/// Identifies one elementary stream within a container: a numeric id, a
/// sequential index, a media-type tag, a codec name and codec parameters.
/// Immutable once published by a backend.
#[derive(Debug, PartialEq, Eq)]
pub struct StreamDesc {
    pub id: u32,
    pub index: usize,
    pub media_type: MediaType,
    pub codec_name: String,
    pub params: CodecParams,
}

impl StreamDesc {
    /// An owned copy equal to this descriptor.
    pub fn duplicate(&self) -> (r: StreamDesc)
        ensures
            r == *self,
    {
        StreamDesc {
            id: self.id,
            index: self.index,
            media_type: self.media_type,
            codec_name: self.codec_name.clone(),
            params: self.params,
        }
    }
}

/// One demultiplexed access unit: the owning stream, an optional
/// presentation timestamp (`None` means unknown), a key-frame flag and an
/// owned byte payload.
#[derive(Debug, PartialEq, Eq)]
pub struct Packet {
    pub stream: StreamDesc,
    pub pts: Option<u64>,
    pub keyframe: bool,
    pub payload: Vec<u8>,
}

/// One raw data unit pulled from a raw container: the id of the stream it
/// belongs to and its bytes, not yet segmented into access units.
#[derive(Debug, PartialEq, Eq)]
pub struct DataUnit {
    pub stream_id: u32,
    pub payload: Vec<u8>,
}

/// A seek target.
#[derive(Clone, Copy, Debug, PartialEq, Eq, Structural)]
pub enum TimePoint {
    Millis(u64),
    Pts(u64),
    NoTime,
}

/// Errors surfaced by demultiplexer construction and packet retrieval.
/// `Eof` is the explicit, non-error end-of-stream signal that a caller must
/// distinguish from failure.
#[derive(Clone, Copy, Debug, PartialEq, Eq, Structural)]
pub enum DemuxerError {
    Eof,
    InvalidData,
    NotImplemented,
    IoFault,
}

/// Errors reported by a packetiser. `ShortData` is the transient
/// pull-more-and-retry signal and is never surfaced to the caller; anything
/// else is fatal for the current input.
#[derive(Clone, Copy, Debug, PartialEq, Eq, Structural)]
pub enum PacketiserError {
    ShortData,
    InvalidData,
}

/// Describes one negotiable option of a backend.
#[derive(Debug, PartialEq, Eq)]
pub struct OptionDef {
    pub name: String,
    pub description: String,
}

/// The value of one backend option.
#[derive(Debug, PartialEq, Eq)]
pub enum OptionValue {
    Flag(bool),
    Int(i64),
    Text(String),
}

/// One named option value handed to a backend.
#[derive(Debug, PartialEq, Eq)]
pub struct OptionEntry {
    pub name: String,
    pub value: OptionValue,
}

/// The stream table of a demultiplexer: every stream it has published, in
/// index order.
#[derive(Debug, PartialEq, Eq)]
pub struct StreamTable {
    pub streams: Vec<StreamDesc>,
}

impl StreamTable {
    /// How many streams the table holds.
    pub fn len(&self) -> (n: usize)
        ensures
            n == self.streams@.len(),
    {
        self.streams.len()
    }

    /// The stream at `index`, if the table has one there.
    pub fn get(&self, index: usize) -> (r: Option<StreamDesc>)
        ensures
            match r {
                Some(s) => index < self.streams@.len() && s == self.streams@[index as int],
                None => index >= self.streams@.len(),
            },
    {
        if index < self.streams.len() {
            Some(self.streams[index].duplicate())
        } else {
            None
        }
    }
}

} // verus!
