//! Small in-memory implementations of the backend interfaces, verified end
//! to end: a packetiser for a length-prefixed framing, a structured demuxer
//! and a raw demuxer that replay prepared data, and an engine serving them.
//! They exercise the facade and the prober without any outside format in
//! play.
use vstd::prelude::*;

use crate::backend::Engine;
use crate::backend::Packetiser;
use crate::backend::RawBackend;
use crate::backend::StructuredBackend;
use crate::source::ByteSource;
use crate::types::CodecParams;
use crate::types::DataUnit;
use crate::types::DemuxerError;
use crate::types::MediaType;
use crate::types::OptionDef;
use crate::types::OptionEntry;
use crate::types::OptionValue;
use crate::types::Packet;
use crate::types::PacketiserError;
use crate::types::StreamDesc;
use crate::types::TimePoint;

verus! {

/// The complete access units in a length-prefixed byte history: each unit
/// is one length byte followed by that many payload bytes; a trailing
/// partial unit is not yet an access unit.
pub open spec fn frame_split(h: Seq<u8>) -> Seq<Seq<u8>>
    decreases h.len(),
{
    if h.len() == 0 {
        Seq::empty()
    } else {
        let n = h[0] as int;
        if 1 + n <= h.len() {
            seq![h.subrange(1, 1 + n)] + frame_split(h.skip(1 + n))
        } else {
            Seq::empty()
        }
    }
}

/// The offset just past the first `k` access units of `h`.
pub open spec fn frame_end(h: Seq<u8>, k: nat) -> int
    decreases k,
{
    if k == 0 || h.len() == 0 {
        0
    } else {
        let n = h[0] as int;
        if 1 + n <= h.len() {
            1 + n + frame_end(h.skip(1 + n), (k - 1) as nat)
        } else {
            0
        }
    }
}

/// The offset past `k` units lies inside the history.
proof fn lemma_frame_end_in_range(h: Seq<u8>, k: nat)
    ensures
        0 <= frame_end(h, k) <= h.len(),
    decreases k,
{
    if k == 0 || h.len() == 0 {
    } else {
        let n = h[0] as int;
        if 1 + n <= h.len() {
            lemma_frame_end_in_range(h.skip(1 + n), (k - 1) as nat);
        }
    }
}

/// At the offset past `k` units, with more units following, the next
/// complete unit starts: its bytes are unit `k`, and consuming it moves the
/// offset past it.
proof fn lemma_frame_at(h: Seq<u8>, k: nat)
    requires
        k < frame_split(h).len(),
    ensures
        0 <= frame_end(h, k),
        frame_end(h, k) + 1 <= h.len(),
        frame_end(h, k) + 1 + h[frame_end(h, k)] <= h.len(),
        frame_split(h)[k as int] == h.subrange(
            frame_end(h, k) + 1,
            frame_end(h, k) + 1 + h[frame_end(h, k)],
        ),
        frame_end(h, (k + 1) as nat) == frame_end(h, k) + 1 + h[frame_end(h, k)],
    decreases k,
{
    let n = h[0] as int;
    if k == 0 {
        assert(frame_split(h)[0] == h.subrange(1, 1 + n));
        assert(frame_end(h, 1) == 1 + n + frame_end(h.skip(1 + n), 0));
    } else {
        let t = h.skip(1 + n);
        lemma_frame_at(t, (k - 1) as nat);
        let p = frame_end(t, (k - 1) as nat);
        assert(frame_split(h)[k as int] == frame_split(t)[k as int - 1]);
        assert(frame_end(h, k) == 1 + n + p);
        assert(frame_end(h, (k + 1) as nat) == 1 + n + frame_end(t, k));
        assert(h[frame_end(h, k)] == t[p]);
        assert(t.subrange(p + 1, p + 1 + t[p]) =~= h.subrange(1 + n + p + 1, 1 + n + p + 1 + t[p]));
    }
}

/// A history whose offset past `k` units has no complete unit behind it
/// holds exactly `k` complete units.
proof fn lemma_frame_exhausted(h: Seq<u8>, k: nat)
    requires
        k <= frame_split(h).len(),
        frame_end(h, k) == h.len() || frame_end(h, k) + 1 + h[frame_end(h, k)] > h.len(),
    ensures
        k == frame_split(h).len(),
{
    if k < frame_split(h).len() {
        lemma_frame_at(h, k);
    }
}

/// No history holds more complete units than it has bytes.
proof fn lemma_frame_count(h: Seq<u8>)
    ensures
        frame_split(h).len() <= h.len(),
    decreases h.len(),
{
    if h.len() > 0 {
        let n = h[0] as int;
        if 1 + n <= h.len() {
            lemma_frame_count(h.skip(1 + n));
        }
    }
}

/// Feeding more bytes keeps every complete unit and the offsets past them.
proof fn lemma_frame_append(h: Seq<u8>, more: Seq<u8>, k: nat)
    requires
        k <= frame_split(h).len(),
    ensures
        k <= frame_split(h + more).len(),
        frame_end(h + more, k) == frame_end(h, k),
    decreases k,
{
    lemma_frame_split_grow(h, more);
    if k == 0 {
    } else {
        let n = h[0] as int;
        let t = h.skip(1 + n);
        assert((h + more).skip(1 + n) =~= t + more);
        lemma_frame_append(t, more, (k - 1) as nat);
    }
}

/// The complete units of a history stay, in place, when more bytes follow.
proof fn lemma_frame_split_grow(h: Seq<u8>, more: Seq<u8>)
    ensures
        frame_split(h).is_prefix_of(frame_split(h + more)),
    decreases h.len(),
{
    let g = h + more;
    if h.len() == 0 {
        assert(frame_split(h) =~= frame_split(g).subrange(0, 0));
    } else {
        let n = h[0] as int;
        if 1 + n <= h.len() {
            let t = h.skip(1 + n);
            assert(g[0] == h[0]);
            assert(g.skip(1 + n) =~= t + more);
            assert(g.subrange(1, 1 + n) =~= h.subrange(1, 1 + n));
            lemma_frame_split_grow(t, more);
            assert(frame_split(h) =~= frame_split(g).subrange(0, frame_split(h).len() as int));
        } else {
            assert(frame_split(h) =~= frame_split(g).subrange(0, 0));
        }
    }
}

/// A packetiser for a simple length-prefixed elementary framing: every
/// access unit is one length byte and that many payload bytes. It keeps the
/// whole fed history and a cursor past the units already handed out.
pub struct LenPrefixPacketiser {
    data: Vec<u8>,
    pos: usize,
    ntaken: usize,
}

impl LenPrefixPacketiser {
    /// The cursor sits exactly past the units already handed out.
    #[verifier::type_invariant]
    spec fn inv(&self) -> bool {
        &&& self.ntaken <= frame_split(self.data@).len()
        &&& self.pos == frame_end(self.data@, self.ntaken as nat)
    }

    /// A fresh packetiser: nothing fed, nothing handed out.
    pub fn new() -> (r: LenPrefixPacketiser)
        ensures
            r.fed() == Seq::<u8>::empty(),
            r.taken() == 0,
    {
        LenPrefixPacketiser { data: Vec::new(), pos: 0, ntaken: 0 }
    }

    /// The stream descriptor this packetiser synthesizes.
    fn describe_stream(&self) -> (r: StreamDesc)
        ensures
            r.id == 0,
            r.index == 0,
            r.media_type == MediaType::Data,
            r.codec_name@ == "lenpfx"@,
            r.params == CodecParams::Generic,
    {
        StreamDesc {
            id: 0,
            index: 0,
            media_type: MediaType::Data,
            codec_name: "lenpfx".to_owned(),
            params: CodecParams::Generic,
        }
    }
}

impl Packetiser for LenPrefixPacketiser {
    closed spec fn fed(&self) -> Seq<u8> {
        self.data@
    }

    closed spec fn taken(&self) -> nat {
        self.ntaken as nat
    }

    open spec fn frames(history: Seq<u8>) -> Seq<Seq<u8>> {
        frame_split(history)
    }

    open spec fn good(history: Seq<u8>) -> bool {
        true
    }

    proof fn frames_grow(history: Seq<u8>, more: Seq<u8>) {
        lemma_frame_split_grow(history, more);
    }

    proof fn good_prefix(history: Seq<u8>, more: Seq<u8>) {
    }

    fn add_data(&mut self, data: &[u8]) {
        proof {
            use_type_invariant(&*self);
        }
        let mut tmp = LenPrefixPacketiser { data: Vec::new(), pos: 0, ntaken: 0 };
        core::mem::swap(self, &mut tmp);
        let LenPrefixPacketiser { data: mut buf, pos, ntaken } = tmp;
        let ghost h = buf@;
        let mut i: usize = 0;
        while i < data.len()
            invariant
                i <= data@.len(),
                buf@ == h + data@.subrange(0, i as int),
            decreases data@.len() - i,
        {
            buf.push(data[i]);
            proof {
                assert(buf@ =~= h + data@.subrange(0, i + 1));
            }
            i = i + 1;
        }
        proof {
            assert(buf@ == h + data@);
            lemma_frame_append(h, data@, ntaken as nat);
        }
        *self = LenPrefixPacketiser { data: buf, pos, ntaken };
    }

    fn parse_stream(&mut self, index: u32) -> (r: Result<StreamDesc, PacketiserError>) {
        proof {
            use_type_invariant(&*self);
        }
        if index != 0 {
            return Err(PacketiserError::InvalidData);
        }
        if self.pos < self.data.len() && (self.data[self.pos] as usize) <= self.data.len() - self.pos
            - 1 {
            Ok(self.describe_stream())
        } else {
            Err(PacketiserError::ShortData)
        }
    }

    fn reset(&mut self) {
        *self = LenPrefixPacketiser { data: Vec::new(), pos: 0, ntaken: 0 };
    }

    #[verifier::loop_isolation(false)]
    fn get_packet(&mut self, stream: &StreamDesc) -> (r: Result<Option<Packet>, PacketiserError>) {
        proof {
            use_type_invariant(&*self);
        }
        let total = self.data.len();
        if self.pos < total && (self.data[self.pos] as usize) <= total - self.pos - 1 {
            let flen = self.data[self.pos] as usize;
            proof {
                lemma_frame_exhausted_contra(self.data@, self.ntaken as nat, self.pos as int);
            }
            proof {
                lemma_frame_count(self.data@);
            }
            let mut payload: Vec<u8> = Vec::new();
            let mut i: usize = 0;
            while i < flen
                invariant
                    i <= flen,
                    self.pos + 1 + flen <= self.data@.len(),
                    flen == self.data@[self.pos as int],
                    payload@ == self.data@.subrange(self.pos + 1, self.pos + 1 + i),
                decreases flen - i,
            {
                payload.push(self.data[self.pos + 1 + i]);
                proof {
                    assert(payload@ =~= self.data@.subrange(self.pos + 1, self.pos + 1 + i + 1));
                }
                i = i + 1;
            }
            let pkt = Packet {
                stream: stream.duplicate(),
                pts: None,
                keyframe: true,
                payload,
            };
            proof {
                lemma_frame_at(self.data@, self.ntaken as nat);
            }
            let mut tmp = LenPrefixPacketiser { data: Vec::new(), pos: 0, ntaken: 0 };
            core::mem::swap(self, &mut tmp);
            let LenPrefixPacketiser { data, pos, ntaken } = tmp;
            *self = LenPrefixPacketiser { data, pos: pos + 1 + flen, ntaken: ntaken + 1 };
            Ok(Some(pkt))
        } else {
            proof {
                lemma_frame_end_in_range(self.data@, self.ntaken as nat);
                lemma_frame_exhausted(self.data@, self.ntaken as nat);
            }
            Err(PacketiserError::ShortData)
        }
    }
}

/// Past the last complete unit no further unit is complete.
proof fn lemma_no_frame_past_end(h: Seq<u8>)
    ensures
        ({
            let p = frame_end(h, frame_split(h).len());
            p == h.len() || p + 1 + h[p] > h.len()
        }),
    decreases h.len(),
{
    if h.len() > 0 {
        let n = h[0] as int;
        if 1 + n <= h.len() {
            let t = h.skip(1 + n);
            lemma_no_frame_past_end(t);
            let kk = frame_split(t).len();
            let pp = frame_end(t, kk);
            lemma_frame_end_in_range(t, kk);
            assert(frame_end(h, frame_split(h).len()) == 1 + n + pp);
            if pp < t.len() {
                assert(h[1 + n + pp] == t[pp]);
            }
        }
    }
}

/// A packetiser that recognizes nothing: to it, every byte history is
/// fatally damaged. It stands in for a framing whose content check always
/// fails, and exercises the fatal-error path of the packet-assembly
/// scheduler.
pub struct RejectingPacketiser {
    hist: Ghost<Seq<u8>>,
}

impl RejectingPacketiser {
    /// A fresh instance with nothing fed.
    pub fn new() -> (r: RejectingPacketiser)
        ensures
            r.fed() == Seq::<u8>::empty(),
            r.taken() == 0,
    {
        RejectingPacketiser { hist: Ghost(Seq::empty()) }
    }
}

impl Packetiser for RejectingPacketiser {
    closed spec fn fed(&self) -> Seq<u8> {
        self.hist@
    }

    closed spec fn taken(&self) -> nat {
        0
    }

    open spec fn frames(history: Seq<u8>) -> Seq<Seq<u8>> {
        Seq::empty()
    }

    open spec fn good(history: Seq<u8>) -> bool {
        false
    }

    proof fn frames_grow(history: Seq<u8>, more: Seq<u8>) {
        assert(Seq::<Seq<u8>>::empty().is_prefix_of(Seq::empty()));
    }

    proof fn good_prefix(history: Seq<u8>, more: Seq<u8>) {
    }

    fn add_data(&mut self, data: &[u8]) {
        proof {
            self.hist@ = self.hist@ + data@;
        }
    }

    fn parse_stream(&mut self, index: u32) -> (r: Result<StreamDesc, PacketiserError>) {
        Err(PacketiserError::InvalidData)
    }

    fn reset(&mut self) {
        proof {
            self.hist@ = Seq::empty();
        }
    }

    fn get_packet(&mut self, stream: &StreamDesc) -> (r: Result<Option<Packet>, PacketiserError>) {
        Err(PacketiserError::InvalidData)
    }
}

/// A structured demuxer that replays prepared packets over a prepared
/// stream list, in order.
pub struct SimpleStructured {
    pub streams: Vec<StreamDesc>,
    pub packets: Vec<Packet>,
    pub duration: u64,
}

impl StructuredBackend for SimpleStructured {
    open spec fn streams(&self) -> Seq<StreamDesc> {
        self.streams@
    }

    open spec fn duration(&self) -> u64 {
        self.duration
    }

    fn get_duration(&self) -> (r: u64) {
        self.duration
    }

    fn get_num_streams(&self) -> (n: usize) {
        self.streams.len()
    }

    fn get_stream(&self, index: usize) -> (r: Option<StreamDesc>) {
        if index < self.streams.len() {
            Some(self.streams[index].duplicate())
        } else {
            None
        }
    }

    fn get_frame(&mut self) -> (r: Result<Packet, DemuxerError>) {
        if self.packets.len() > 0 {
            Ok(self.packets.remove(0))
        } else {
            Err(DemuxerError::Eof)
        }
    }

    fn seek(&mut self, time: TimePoint) -> (r: Result<(), DemuxerError>) {
        Ok(())
    }

    fn get_supported_options(&self) -> Vec<OptionDef> {
        Vec::new()
    }

    fn set_options(&mut self, options: &[OptionEntry]) {
    }

    fn query_option_value(&self, name: &String) -> Option<OptionValue> {
        None
    }
}

/// A raw demuxer that replays prepared raw data units over a prepared
/// stream list, in order.
pub struct SimpleRaw {
    pub streams: Vec<StreamDesc>,
    pub units: Vec<DataUnit>,
    pub duration: u64,
}

impl RawBackend for SimpleRaw {
    open spec fn streams(&self) -> Seq<StreamDesc> {
        self.streams@
    }

    open spec fn pending(&self) -> Seq<DataUnit> {
        self.units@
    }

    open spec fn duration(&self) -> u64 {
        self.duration
    }

    fn get_duration(&self) -> (r: u64) {
        self.duration
    }

    fn get_num_streams(&self) -> (n: usize) {
        self.streams.len()
    }

    fn get_stream(&self, index: usize) -> (r: Option<StreamDesc>) {
        if index < self.streams.len() {
            Some(self.streams[index].duplicate())
        } else {
            None
        }
    }

    fn get_data(&mut self) -> (r: Result<DataUnit, DemuxerError>) {
        if self.units.len() > 0 {
            let u = self.units.remove(0);
            proof {
                assert(self.units@ =~= old(self).units@.skip(1));
            }
            Ok(u)
        } else {
            Err(DemuxerError::Eof)
        }
    }

    fn seek(&mut self, time: TimePoint) -> (r: Result<(), DemuxerError>) {
        Err(DemuxerError::NotImplemented)
    }

    fn get_supported_options(&self) -> Vec<OptionDef> {
        Vec::new()
    }

    fn set_options(&mut self, options: &[OptionEntry]) {
    }

    fn query_option_value(&self, name: &String) -> Option<OptionValue> {
        None
    }
}

/// An engine over the in-memory backends: one prepared structured demuxer,
/// one prepared raw demuxer, a configurable detection answer, and the
/// length-prefixed packetiser under a configurable name.
pub struct SimpleEngine {
    pub detect_name: Option<String>,
    pub structured: Option<SimpleStructured>,
    pub raw: Option<SimpleRaw>,
    pub raw_signature: bool,
    pub packetiser_name: String,
}

impl Engine for SimpleEngine {
    type SD = SimpleStructured;

    type RD = SimpleRaw;

    type P = LenPrefixPacketiser;

    fn detect(&mut self, hint: &String, src: &ByteSource) -> (r: Option<String>) {
        match &self.detect_name {
            Some(n) => Some(n.clone()),
            None => None,
        }
    }

    fn make_structured(&mut self, name: &String, src: ByteSource) -> (r: Result<
        SimpleStructured,
        DemuxerError,
    >) {
        match self.structured.take() {
            Some(dmx) => Ok(dmx),
            None => Err(DemuxerError::InvalidData),
        }
    }

    fn make_raw(&mut self, name: &String, src: ByteSource) -> (r: Result<
        SimpleRaw,
        DemuxerError,
    >) {
        match self.raw.take() {
            Some(dmx) => Ok(dmx),
            None => Err(DemuxerError::InvalidData),
        }
    }

    fn check_raw_format(&mut self, name: &String, src: &ByteSource) -> (r: bool) {
        self.raw_signature && self.raw.is_some()
    }

    fn make_packetiser(&mut self, name: &String) -> (r: Option<LenPrefixPacketiser>) {
        if name.eq(&self.packetiser_name) {
            Some(LenPrefixPacketiser::new())
        } else {
            None
        }
    }
}

/// If the cursor past `k` units still has a complete unit behind it, more
/// than `k` units are complete.
proof fn lemma_frame_exhausted_contra(h: Seq<u8>, k: nat, pos: int)
    requires
        k <= frame_split(h).len(),
        pos == frame_end(h, k),
        pos < h.len(),
        pos + 1 + h[pos] <= h.len(),
    ensures
        k < frame_split(h).len(),
{
    if k == frame_split(h).len() {
        lemma_no_frame_past_end(h);
    }
}

} // verus!
