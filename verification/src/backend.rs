//! The operation sets the core consumes from its collaborators: structured
//! container demuxers, raw container demuxers, elementary-stream
//! packetisers, and the engine that constructs them from registered names.
//!
//! The internal parsing logic of a concrete format lives with the
//! implementor; these interfaces state only what the scheduling and probing
//! logic relies on. A packetiser is modelled by the bytes it has been fed
//! and the number of access units it has handed out: what it produces is a
//! function of the fed bytes alone, never of how they were chunked across
//! calls.
use vstd::prelude::*;

use crate::source::ByteSource;
use crate::types::DataUnit;
use crate::types::DemuxerError;
use crate::types::OptionDef;
use crate::types::OptionEntry;
use crate::types::OptionValue;
use crate::types::Packet;
use crate::types::PacketiserError;
use crate::types::StreamDesc;
use crate::types::TimePoint;

verus! {

/// A fully structured container demuxer: it owns its byte source and yields
/// finished packets by itself.
pub trait StructuredBackend: Sized {
    /// The streams this demuxer has published; immutable once published.
    spec fn streams(&self) -> Seq<StreamDesc>;

    /// The duration this demuxer knows for its input, 0 when unknown.
    spec fn duration(&self) -> u64;

    /// The duration of the input, 0 when unknown.
    fn get_duration(&self) -> (r: u64)
        ensures
            r == self.duration(),
    ;

    /// How many streams were published.
    fn get_num_streams(&self) -> (n: usize)
        ensures
            n == self.streams().len(),
    ;

    /// The stream at `index`, if there is one.
    fn get_stream(&self, index: usize) -> (r: Option<StreamDesc>)
        ensures
            match r {
                Some(s) => index < self.streams().len() && s == self.streams()[index as int],
                None => index >= self.streams().len(),
            },
    ;

    /// One demultiplexed packet, end-of-stream, or a fatal error; the
    /// demuxer's internal state machine is its own responsibility.
    fn get_frame(&mut self) -> (r: Result<Packet, DemuxerError>)
        ensures
            final(self).streams() == old(self).streams(),
    ;

    /// Repositions to `time`.
    fn seek(&mut self, time: TimePoint) -> (r: Result<(), DemuxerError>)
        ensures
            final(self).streams() == old(self).streams(),
    ;

    /// The options this demuxer can negotiate.
    fn get_supported_options(&self) -> Vec<OptionDef>;

    /// Applies option values; unknown names are ignored.
    fn set_options(&mut self, options: &[OptionEntry])
        ensures
            final(self).streams() == old(self).streams(),
    ;

    /// The current value of the option called `name`.
    fn query_option_value(&self, name: &String) -> Option<OptionValue>;
}

/// A raw container demuxer: it splits the container into per-stream raw
/// data units but leaves access-unit segmentation to packetisers.
pub trait RawBackend: Sized {
    /// The streams this demuxer has published; immutable once published.
    spec fn streams(&self) -> Seq<StreamDesc>;

    /// The raw data units not yet pulled, in the order they will come. A
    /// container read off a finite source yields a fixed finite sequence.
    spec fn pending(&self) -> Seq<DataUnit>;

    /// The duration this demuxer knows for its input, 0 when unknown.
    spec fn duration(&self) -> u64;

    /// The duration of the input, 0 when unknown.
    fn get_duration(&self) -> (r: u64)
        ensures
            r == self.duration(),
    ;

    /// How many streams were published.
    fn get_num_streams(&self) -> (n: usize)
        ensures
            n == self.streams().len(),
    ;

    /// The stream at `index`, if there is one.
    fn get_stream(&self, index: usize) -> (r: Option<StreamDesc>)
        ensures
            match r {
                Some(s) => index < self.streams().len() && s == self.streams()[index as int],
                None => index >= self.streams().len(),
            },
    ;

    /// The next raw data unit. `Eof` means the container is exhausted; any
    /// failure leaves the pending units unchanged.
    fn get_data(&mut self) -> (r: Result<DataUnit, DemuxerError>)
        ensures
            final(self).streams() == old(self).streams(),
            match r {
                Ok(u) => {
                    &&& old(self).pending().len() > 0
                    &&& u == old(self).pending()[0]
                    &&& final(self).pending() == old(self).pending().skip(1)
                },
                Err(e) => {
                    &&& final(self).pending() == old(self).pending()
                    &&& (e == DemuxerError::Eof ==> old(self).pending().len() == 0)
                },
            },
    ;

    /// Repositions to `time`; the pending units change accordingly.
    fn seek(&mut self, time: TimePoint) -> (r: Result<(), DemuxerError>)
        ensures
            final(self).streams() == old(self).streams(),
    ;

    /// The options this demuxer can negotiate.
    fn get_supported_options(&self) -> Vec<OptionDef>;

    /// Applies option values; unknown names are ignored.
    fn set_options(&mut self, options: &[OptionEntry])
        ensures
            final(self).streams() == old(self).streams(),
    ;

    /// The current value of the option called `name`.
    fn query_option_value(&self, name: &String) -> Option<OptionValue>;
}

/// Segments one elementary byte stream into discrete access units.
///
/// A packetiser's observable state is the byte history it was fed since
/// construction or reset (`fed`) and how many access units it has already
/// handed out (`taken`). `frames` gives the payloads of the complete access
/// units contained in a byte history, and `good` whether a history is free
/// of fatal encoding errors; both are functions of the bytes alone, so what
/// a packetiser produces cannot depend on how its input was chunked.
pub trait Packetiser: Sized {
    /// The bytes accepted since construction or the last reset.
    spec fn fed(&self) -> Seq<u8>;

    /// How many access units were already handed out.
    spec fn taken(&self) -> nat;

    /// The payloads of the complete access units in a byte history, in
    /// stream order.
    spec fn frames(history: Seq<u8>) -> Seq<Seq<u8>>;

    /// Whether a byte history is free of fatal encoding errors.
    spec fn good(history: Seq<u8>) -> bool;

    /// Feeding more bytes never invalidates the access units already
    /// complete: it can only complete further ones.
    proof fn frames_grow(history: Seq<u8>, more: Seq<u8>)
        ensures
            Self::frames(history).is_prefix_of(Self::frames(history + more)),
    ;

    /// A prefix of a history free of fatal errors is itself free of them.
    proof fn good_prefix(history: Seq<u8>, more: Seq<u8>)
        requires
            Self::good(history + more),
        ensures
            Self::good(history),
    ;

    /// Buffers `data` behind the bytes fed so far, without parsing.
    fn add_data(&mut self, data: &[u8])
        ensures
            final(self).fed() == old(self).fed() + data@,
            final(self).taken() == old(self).taken(),
    ;

    /// Parses a stream description for stream `index` out of the buffered
    /// bytes; `ShortData` asks for more input. The buffered bytes and the
    /// units handed out are unaffected.
    fn parse_stream(&mut self, index: u32) -> (r: Result<StreamDesc, PacketiserError>)
        ensures
            final(self).fed() == old(self).fed(),
            final(self).taken() == old(self).taken(),
    ;

    /// Drops all buffered bytes and starts over.
    fn reset(&mut self)
        ensures
            final(self).fed() == Seq::<u8>::empty(),
            final(self).taken() == 0,
    ;

    /// The next access unit, bound to `stream`, when the bytes fed so far
    /// complete one; `Ok(None)` or `ShortData` ask for more input, and on
    /// an error-free history they come only once every complete unit was
    /// handed out. Any other error marks the history fatally damaged.
    fn get_packet(&mut self, stream: &StreamDesc) -> (r: Result<Option<Packet>, PacketiserError>)
        ensures
            final(self).fed() == old(self).fed(),
            match r {
                Ok(Some(p)) => {
                    &&& old(self).taken() < Self::frames(old(self).fed()).len()
                    &&& p.payload@ == Self::frames(old(self).fed())[old(self).taken() as int]
                    &&& p.stream == *stream
                    &&& final(self).taken() == old(self).taken() + 1
                },
                Ok(None) => {
                    &&& final(self).taken() == old(self).taken()
                    &&& (Self::good(old(self).fed()) ==> old(self).taken() >= Self::frames(
                        old(self).fed(),
                    ).len())
                },
                Err(e) => {
                    &&& final(self).taken() == old(self).taken()
                    &&& (e == PacketiserError::ShortData ==> (Self::good(old(self).fed())
                        ==> old(self).taken() >= Self::frames(old(self).fed()).len()))
                    &&& (e != PacketiserError::ShortData ==> !Self::good(old(self).fed()))
                },
            },
    ;
}

/// Constructs backends for registered capability names and runs content
/// sniffing. The registry holds the names; the engine holds what they stand
/// for.
pub trait Engine: Sized {
    type SD: StructuredBackend;

    type RD: RawBackend;

    type P: Packetiser;

    /// Best-effort signature detection: the name of the format whose
    /// signature matches the source's content best, without consuming the
    /// source. `hint` carries the caller's name for the input.
    fn detect(&mut self, hint: &String, src: &ByteSource) -> (r: Option<String>);

    /// Instantiates the structured demuxer registered under `name` over the
    /// byte source, which it takes over.
    fn make_structured(&mut self, name: &String, src: ByteSource) -> (r: Result<
        Self::SD,
        DemuxerError,
    >);

    /// Instantiates the raw demuxer registered under `name` over the byte
    /// source, which it takes over.
    fn make_raw(&mut self, name: &String, src: ByteSource) -> (r: Result<Self::RD, DemuxerError>);

    /// Cheap, non-destructive check whether the raw demuxer registered
    /// under `name` recognizes the source's content.
    fn check_raw_format(&mut self, name: &String, src: &ByteSource) -> (r: bool);

    /// A fresh packetiser for the format or codec called `name`: nothing
    /// fed, nothing handed out.
    fn make_packetiser(&mut self, name: &String) -> (r: Option<Self::P>)
        ensures
            match r {
                Some(p) => p.fed() == Seq::<u8>::empty() && p.taken() == 0,
                None => true,
            },
    ;
}

} // verus!
