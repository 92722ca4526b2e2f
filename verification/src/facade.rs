//! The demultiplexer facade and the format prober.
//!
//! `DemuxerObject` unifies stream enumeration, duration and seek queries,
//! option negotiation and packet retrieval over four states: no usable
//! backend, a structured container demuxer, a raw container demuxer paired
//! with per-stream packetisers, and a single bare packetiser reading
//! straight off the byte source. `create` probes an input and selects
//! exactly one of them.
use vstd::prelude::*;

use crate::backend::Engine;
use crate::backend::Packetiser;
use crate::backend::RawBackend;
use crate::backend::StructuredBackend;
use crate::registry::FullRegister;
use crate::registry::has_name;
use crate::source::ByteSource;
use crate::types::DataUnit;
use crate::types::DemuxerError;
use crate::types::OptionDef;
use crate::types::OptionEntry;
use crate::types::OptionValue;
use crate::types::Packet;
use crate::types::PacketiserError;
use crate::types::StreamDesc;
use crate::types::StreamTable;
use crate::types::TimePoint;

verus! {

/// Which of the four facade states is live. Exactly one is, at any time.
#[derive(Clone, Copy, Debug, PartialEq, Eq, Structural)]
pub enum BackendKind {
    Empty,
    Structured,
    RawContainer,
    RawElementary,
}

/// The bytes of the raw data units in `units` that belong to stream `id`,
/// concatenated in the order the units were pulled.
pub open spec fn routed_bytes(units: Seq<DataUnit>, id: u32) -> Seq<u8>
    decreases units.len(),
{
    if units.len() == 0 {
        Seq::empty()
    } else {
        routed_bytes(units.drop_last(), id) + (if units.last().stream_id == id {
            units.last().payload@
        } else {
            Seq::<u8>::empty()
        })
    }
}

/// One more pulled unit extends a stream's routed bytes by its payload when
/// the ids match and by nothing otherwise.
proof fn lemma_routed_push(units: Seq<DataUnit>, u: DataUnit, id: u32)
    ensures
        u.stream_id == id ==> routed_bytes(units.push(u), id) == routed_bytes(units, id)
            + u.payload@,
        u.stream_id != id ==> routed_bytes(units.push(u), id) == routed_bytes(units, id),
{
    assert(units.push(u).drop_last() =~= units);
    assert(units.push(u).last() == u);
    if u.stream_id != id {
        assert(routed_bytes(units, id) + Seq::<u8>::empty() =~= routed_bytes(units, id));
    }
}

/// Whether stream `i` is the only one of `streams` with its id. Raw data
/// units are routed by stream id, so only a sole owner is certain to see
/// every byte of its stream.
pub open spec fn sole_owner(streams: Seq<StreamDesc>, i: int) -> bool {
    forall|j: int| 0 <= j < streams.len() && j != i ==> streams[j].id != streams[i].id
}

/// The raw-container backend: the raw demuxer, a snapshot of the streams it
/// published, an index-aligned list of optional per-stream packetisers, the
/// end-of-underlying-data flag, and the record of the raw data units pulled
/// so far.
pub struct RawContainerState<RD, P> {
    pub dmx: RD,
    pub streams: Vec<StreamDesc>,
    pub packetisers: Vec<Option<P>>,
    pub eof: bool,
    pub consumed: Ghost<Seq<DataUnit>>,
}

impl<RD: RawBackend, P: Packetiser> RawContainerState<RD, P> {
    /// The packetiser list is index-aligned with the stream snapshot, which
    /// reflects what the demuxer published; and every active packetiser of
    /// a stream that owns its id alone has been fed exactly the bytes of
    /// the units pulled for that id.
    pub open spec fn wf(&self) -> bool {
        &&& self.packetisers@.len() == self.streams@.len()
        &&& self.streams@ == self.dmx.streams()
        &&& forall|i: int|
            #![trigger self.packetisers@[i]]
            self.packetisers@[i] matches Some(pk) ==> ((0 <= i < self.streams@.len()
                && sole_owner(self.streams@, i)) ==> pk.fed() == routed_bytes(
                self.consumed@,
                self.streams@[i].id,
            ))
    }

    /// Every active packetiser has a history free of fatal errors.
    pub open spec fn all_active_good(&self) -> bool {
        forall|i: int|
            0 <= i < self.packetisers@.len() && (#[trigger] self.packetisers@[i]) is Some
                ==> P::good(self.packetisers@[i].unwrap().fed())
    }

    /// Some active packetiser holds a complete access unit not yet handed
    /// out.
    pub open spec fn some_packet_ready(&self) -> bool {
        exists|i: int|
            0 <= i < self.packetisers@.len() && (#[trigger] self.packetisers@[i]) is Some
                && self.packetisers@[i].unwrap().taken() < P::frames(
                self.packetisers@[i].unwrap().fed(),
            ).len()
    }

    /// A raw-container state over a raw demuxer, its stream snapshot and
    /// freshly constructed per-stream packetisers: nothing pulled, nothing
    /// fed, nothing handed out.
    pub fn new(dmx: RD, streams: Vec<StreamDesc>, packetisers: Vec<Option<P>>) -> (r:
        RawContainerState<RD, P>)
        requires
            packetisers@.len() == streams@.len(),
            streams@ == dmx.streams(),
            forall|i: int|
                #![trigger packetisers@[i]]
                packetisers@[i] matches Some(pk) ==> (0 <= i < packetisers@.len() ==> pk.fed()
                    == Seq::<u8>::empty() && pk.taken() == 0),
        ensures
            r.wf(),
            r.dmx == dmx,
            r.streams == streams,
            r.packetisers == packetisers,
            r.eof == false,
            r.consumed@ == Seq::<DataUnit>::empty(),
    {
        RawContainerState { dmx, streams, packetisers, eof: false, consumed: Ghost(Seq::empty()) }
    }
}

/// The bare elementary-stream backend: one packetiser, the synthesized
/// single-entry stream table, and the byte source it reads incrementally.
pub struct RawStreamCtx<P> {
    pub stream: StreamDesc,
    pub sm: StreamTable,
    pub packetiser: P,
    pub src: ByteSource,
}

impl<P: Packetiser> RawStreamCtx<P> {
    /// The packetiser has been fed exactly the bytes read off the source so
    /// far, and the stream table holds the one synthesized stream.
    pub open spec fn wf(&self) -> bool {
        &&& self.src.wf()
        &&& self.packetiser.fed() == self.src.view().take(self.src.cursor() as int)
        &&& self.sm.streams@.len() == 1
        &&& self.sm.streams@[0] == self.stream
    }

    /// Binds a fresh packetiser to a source positioned at its start,
    /// synthesizing the single-entry stream table.
    fn new(stream: StreamDesc, packetiser: P, src: ByteSource) -> (r: RawStreamCtx<P>)
        requires
            src.wf(),
            src.cursor() == 0,
            packetiser.fed() == Seq::<u8>::empty(),
            packetiser.taken() == 0,
        ensures
            r.wf(),
            r.stream == stream,
            r.packetiser == packetiser,
            r.src == src,
    {
        let mut table: Vec<StreamDesc> = Vec::new();
        table.push(stream.duplicate());
        let r = RawStreamCtx { stream, sm: StreamTable { streams: table }, packetiser, src };
        proof {
            assert(r.packetiser.fed() =~= r.src.view().take(0));
        }
        r
    }
}

/// The first `at` elements of `s` followed by the rest are `s` itself.
proof fn lemma_take_skip(s: Seq<u8>, at: int)
    requires
        0 <= at <= s.len(),
    ensures
        s.take(at) + s.skip(at) == s,
{
    assert(s.take(at) + s.skip(at) =~= s);
}

/// The polymorphic demultiplexing facade: exactly one of the four states is
/// live, and every operation handles all four, failing explicitly where a
/// state does not support it.
pub enum DemuxerObject<SD, RD, P> {
    Empty,
    Structured(SD),
    RawContainer(RawContainerState<RD, P>),
    RawElementary(RawStreamCtx<P>),
}

impl<SD: StructuredBackend, RD: RawBackend, P: Packetiser> DemuxerObject<SD, RD, P> {
    /// Which state is live.
    pub open spec fn kind(&self) -> BackendKind {
        match self {
            DemuxerObject::Empty => BackendKind::Empty,
            DemuxerObject::Structured(_) => BackendKind::Structured,
            DemuxerObject::RawContainer(_) => BackendKind::RawContainer,
            DemuxerObject::RawElementary(_) => BackendKind::RawElementary,
        }
    }

    /// The raw-container state, meaningful only in that state.
    pub open spec fn raw_state(&self) -> RawContainerState<RD, P>
        recommends
            self.kind() == BackendKind::RawContainer,
    {
        match self {
            DemuxerObject::RawContainer(st) => *st,
            _ => vstd::pervasive::arbitrary(),
        }
    }

    /// The bare elementary-stream state, meaningful only in that state.
    pub open spec fn elem_ctx(&self) -> RawStreamCtx<P>
        recommends
            self.kind() == BackendKind::RawElementary,
    {
        match self {
            DemuxerObject::RawElementary(ctx) => *ctx,
            _ => vstd::pervasive::arbitrary(),
        }
    }

    /// The duration the live backend knows; 0 where none can.
    pub open spec fn spec_duration(&self) -> u64 {
        match self {
            DemuxerObject::Empty => 0,
            DemuxerObject::Structured(d) => d.duration(),
            DemuxerObject::RawContainer(st) => st.dmx.duration(),
            DemuxerObject::RawElementary(_) => 0,
        }
    }

    /// The streams the live backend publishes.
    pub open spec fn spec_streams(&self) -> Seq<StreamDesc> {
        match self {
            DemuxerObject::Empty => Seq::empty(),
            DemuxerObject::Structured(d) => d.streams(),
            DemuxerObject::RawContainer(st) => st.streams@,
            DemuxerObject::RawElementary(ctx) => seq![ctx.stream],
        }
    }

    /// The live state is internally consistent.
    pub open spec fn wf(&self) -> bool {
        match self {
            DemuxerObject::Empty => true,
            DemuxerObject::Structured(_) => true,
            DemuxerObject::RawContainer(st) => st.wf(),
            DemuxerObject::RawElementary(ctx) => ctx.wf(),
        }
    }

    /// Probes `src` and selects exactly one backend, cheapest and most
    /// specific first. With a forced format name (`ifmt`), only a
    /// structured demuxer of that name is acceptable: there is no fallback
    /// to raw probing. Otherwise signature detection proposes a candidate,
    /// tried first as a structured demuxer, then as a raw demuxer; then
    /// every registered raw demuxer is asked whether it recognizes the
    /// content; and last — or at once when `is_raw` says the input is a
    /// bare elementary stream — every registered packetiser is tried
    /// against the first bytes of the source. When nothing matches, or a
    /// chosen backend fails to construct, the result is the empty facade:
    /// "no usable demultiplexer".
    #[verifier::loop_isolation(false)]
    pub fn create<E: Engine<SD = SD, RD = RD, P = P>>(
        eng: &mut E,
        reg: &FullRegister,
        name: &String,
        ifmt: &Option<String>,
        is_raw: bool,
        src: ByteSource,
    ) -> (r: DemuxerObject<SD, RD, P>)
        requires
            src.wf(),
        ensures
            r.wf(),
            is_raw ==> r.kind() == BackendKind::RawElementary || r.kind() == BackendKind::Empty,
            !is_raw && ifmt is Some ==> r.kind() == BackendKind::Structured || r.kind()
                == BackendKind::Empty,
            ifmt matches Some(n) ==> {
                &&& (!is_raw && !has_name(reg.dmx_reg@, n@)) ==> r.kind() == BackendKind::Empty
                &&& r.kind() == BackendKind::Structured ==> has_name(reg.dmx_reg@, n@)
            },
            r.kind() == BackendKind::Structured ==> !is_raw,
            reg.dmx_reg@.len() == 0 && reg.rdmx_reg@.len() == 0 && reg.pkt_reg@.len() == 0
                ==> r.kind() == BackendKind::Empty,
            is_raw && reg.pkt_reg@.len() == 0 ==> r.kind() == BackendKind::Empty,
            r.kind() == BackendKind::RawContainer ==> !is_raw && ifmt is None
                && r.raw_state().consumed@ == Seq::<DataUnit>::empty() && !r.raw_state().eof && (
            forall|i: int|
                0 <= i < r.raw_state().streams@.len() && r.raw_state().packetisers@[i] is Some
                    ==> has_name(reg.pkt_reg@, r.raw_state().streams@[i].codec_name@)),
            r.kind() == BackendKind::RawElementary ==> r.elem_ctx().packetiser.taken() == 0
                && r.elem_ctx().src.cursor() == 0 && r.elem_ctx().src.view() == src.view(),
    {
        let ghost s0 = src.view();
        let mut src = src;
        if !is_raw {
            let dmx_name: String = match ifmt {
                Some(dname) => dname.clone(),
                None => match eng.detect(name, &src) {
                    Some(detected) => detected,
                    None => String::new(),
                },
            };
            if !dmx_name.as_str().is_empty() {
                if reg.find_demuxer(&dmx_name) {
                    src.seek_start(0).unwrap();
                    match eng.make_structured(&dmx_name, src) {
                        Ok(dmx) => {
                            return DemuxerObject::Structured(dmx);
                        },
                        Err(_) => {
                            return DemuxerObject::Empty;
                        },
                    }
                }
            }
            if ifmt.is_some() {
                return DemuxerObject::Empty;
            }
            if !dmx_name.as_str().is_empty() {
                if reg.find_raw_demuxer(&dmx_name) {
                    src.seek_start(0).unwrap();
                    match eng.make_raw(&dmx_name, src) {
                        Ok(dmx) => {
                            return Self::assemble_raw_container(eng, reg, dmx);
                        },
                        Err(_) => {
                            return DemuxerObject::Empty;
                        },
                    }
                }
            }
            let mut k: usize = 0;
            while k < reg.rdmx_reg.len()
                invariant
                    src.wf(),
                    src.view() == s0,
                decreases reg.rdmx_reg@.len() - k,
            {
                if eng.check_raw_format(&reg.rdmx_reg[k], &src) {
                    src.seek_start(0).unwrap();
                    match eng.make_raw(&reg.rdmx_reg[k], src) {
                        Ok(dmx) => {
                            return Self::assemble_raw_container(eng, reg, dmx);
                        },
                        Err(_) => {
                            return DemuxerObject::Empty;
                        },
                    }
                }
                k = k + 1;
            }
        }
        src.seek_start(0).unwrap();
        let buf = src.peek(1048576);
        let total = reg.pkt_reg.len();
        let mut winner: usize = total;
        let mut k: usize = 0;
        while k < total && winner == total
            invariant
                winner <= total,
                total == reg.pkt_reg@.len(),
            decreases total - k,
        {
            match eng.make_packetiser(&reg.pkt_reg[k]) {
                Some(mut trial) => {
                    trial.add_data(buf.as_slice());
                    if trial.parse_stream(0).is_ok() {
                        winner = k;
                    }
                },
                None => {},
            }
            k = k + 1;
        }
        if winner < total {
            match eng.make_packetiser(&reg.pkt_reg[winner]) {
                Some(mut packetiser) => {
                    packetiser.add_data(buf.as_slice());
                    match packetiser.parse_stream(0) {
                        Ok(stream) => {
                            packetiser.reset();
                            DemuxerObject::RawElementary(
                                RawStreamCtx::new(stream, packetiser, src),
                            )
                        },
                        Err(_) => DemuxerObject::Empty,
                    }
                },
                None => DemuxerObject::Empty,
            }
        } else {
            DemuxerObject::Empty
        }
    }

    /// Wraps a freshly constructed raw demuxer in the raw-container state:
    /// a snapshot of its streams and, index-aligned with it, a packetiser
    /// for every stream whose codec has one registered.
    #[verifier::loop_isolation(false)]
    fn assemble_raw_container<E: Engine<SD = SD, RD = RD, P = P>>(
        eng: &mut E,
        reg: &FullRegister,
        dmx: RD,
    ) -> (r: DemuxerObject<SD, RD, P>)
        ensures
            r.wf(),
            r.kind() == BackendKind::RawContainer,
            r.raw_state().consumed@ == Seq::<DataUnit>::empty(),
            !r.raw_state().eof,
            forall|i: int|
                0 <= i < r.raw_state().streams@.len() && r.raw_state().packetisers@[i] is Some
                    ==> has_name(reg.pkt_reg@, r.raw_state().streams@[i].codec_name@),
    {
        let n = dmx.get_num_streams();
        let mut streams: Vec<StreamDesc> = Vec::new();
        let mut packetisers: Vec<Option<P>> = Vec::new();
        let mut i: usize = 0;
        while i < n
            invariant
                n == dmx.streams().len(),
                i <= n,
                streams@ == dmx.streams().take(i as int),
                packetisers@.len() == i,
                    forall|j: int|
                    0 <= j < i && packetisers@[j] is Some ==> has_name(
                        reg.pkt_reg@,
                        streams@[j].codec_name@,
                    ),
                forall|j: int|
                    #![trigger packetisers@[j]]
                    packetisers@[j] matches Some(pk) ==> (0 <= j < i ==> pk.fed()
                        == Seq::<u8>::empty() && pk.taken() == 0),
            decreases n - i,
        {
            let stream = dmx.get_stream(i).unwrap();
            let packetiser: Option<P> = if reg.find_packetiser(&stream.codec_name) {
                eng.make_packetiser(&stream.codec_name)
            } else {
                None
            };
            streams.push(stream);
            packetisers.push(packetiser);
            proof {
                assert(streams@ =~= dmx.streams().take(i + 1));
            }
            i = i + 1;
        }
        proof {
            assert(streams@ =~= dmx.streams());
        }
        DemuxerObject::RawContainer(RawContainerState::new(dmx, streams, packetisers))
    }

    /// True exactly when no usable backend was found.
    pub fn is_none(&self) -> (r: bool)
        ensures
            r == (self.kind() == BackendKind::Empty),
    {
        match self {
            DemuxerObject::Empty => true,
            _ => false,
        }
    }

    /// The input's duration; 0 when unknown, and always 0 for the states
    /// that cannot know one.
    pub fn get_duration(&self) -> (r: u64)
        ensures
            r == self.spec_duration(),
    {
        match self {
            DemuxerObject::Structured(dmx) => dmx.get_duration(),
            DemuxerObject::RawContainer(st) => st.dmx.get_duration(),
            _ => 0,
        }
    }

    /// How many streams the live backend publishes.
    pub fn get_num_streams(&self) -> (n: usize)
        ensures
            n == self.spec_streams().len(),
    {
        match self {
            DemuxerObject::Empty => 0,
            DemuxerObject::Structured(dmx) => dmx.get_num_streams(),
            DemuxerObject::RawContainer(st) => st.streams.len(),
            DemuxerObject::RawElementary(_) => 1,
        }
    }

    /// The stream at `idx`, if the live backend publishes one there.
    pub fn get_stream(&self, idx: usize) -> (r: Option<StreamDesc>)
        ensures
            match r {
                Some(s) => idx < self.spec_streams().len() && s == self.spec_streams()[idx as int],
                None => idx >= self.spec_streams().len(),
            },
    {
        match self {
            DemuxerObject::Structured(dmx) => dmx.get_stream(idx),
            DemuxerObject::RawContainer(st) => {
                if idx < st.streams.len() {
                    Some(st.streams[idx].duplicate())
                } else {
                    None
                }
            },
            DemuxerObject::RawElementary(ctx) => {
                if idx == 0 {
                    Some(ctx.stream.duplicate())
                } else {
                    None
                }
            },
            DemuxerObject::Empty => None,
        }
    }

    /// Every stream the live backend publishes, in index order. Calling
    /// this without a usable backend is a programming error.
    pub fn get_streams(&self) -> (r: Vec<StreamDesc>)
        requires
            self.kind() != BackendKind::Empty,
        ensures
            r@ == self.spec_streams(),
    {
        let n = self.get_num_streams();
        let mut out: Vec<StreamDesc> = Vec::new();
        let mut i: usize = 0;
        while i < n
            invariant
                i <= n,
                n == self.spec_streams().len(),
                out@ == self.spec_streams().take(i as int),
            decreases n - i,
        {
            let s = self.get_stream(i).unwrap();
            out.push(s);
            proof {
                assert(out@ =~= self.spec_streams().take(i + 1));
            }
            i = i + 1;
        }
        proof {
            assert(out@ =~= self.spec_streams());
        }
        out
    }

    /// The live backend's stream table. Calling this without a usable
    /// backend is a programming error.
    pub fn get_stream_manager(&self) -> (r: StreamTable)
        requires
            self.kind() != BackendKind::Empty,
        ensures
            r.streams@ == self.spec_streams(),
    {
        StreamTable { streams: self.get_streams() }
    }

    /// Repositions the live backend to `seek_time`; the states that cannot
    /// seek report `NotImplemented` rather than silently succeeding.
    pub fn seek(&mut self, seek_time: TimePoint) -> (r: Result<(), DemuxerError>)
        requires
            old(self).wf(),
        ensures
            final(self).wf(),
            final(self).kind() == old(self).kind(),
            final(self).spec_streams() == old(self).spec_streams(),
            (old(self).kind() == BackendKind::Empty || old(self).kind()
                == BackendKind::RawElementary) ==> (r == Result::<(), DemuxerError>::Err(
                DemuxerError::NotImplemented,
            ) && *final(self) == *old(self)),
    {
        match self {
            DemuxerObject::Structured(dmx) => dmx.seek(seek_time),
            DemuxerObject::RawContainer(st) => st.dmx.seek(seek_time),
            _ => Err(DemuxerError::NotImplemented),
        }
    }

    /// One demultiplexed packet from the live backend, end-of-stream, or a
    /// fatal error. Calling this without a usable backend is a programming
    /// error: callers check `is_none` first. "Short data" is absorbed
    /// internally by pulling more bytes; any other parse failure surfaces
    /// as `InvalidData`; exhaustion surfaces as the distinct `Eof` signal.
    ///
    /// In the raw-container state this is the packet-assembly scheduler:
    /// each pass asks every stream's packetiser, in index order, for a
    /// finished packet, so the lowest ready stream wins; a packetiser with
    /// nothing ready is retired for good once the container is exhausted;
    /// with no packetiser left the call — and every later call, the state
    /// being unchanged — reports end-of-stream; otherwise one more raw data
    /// unit is pulled and fed to the packetiser whose stream id matches.
    /// The raw data units move, in order, from the container's pending
    /// sequence into the consumed record, and — as the state's
    /// well-formedness says — a stream that owns its id alone has its
    /// packetiser fed exactly the bytes pulled for that id, so the packets
    /// handed out for it are the access units of those bytes, in order.
    ///
    /// In the bare elementary-stream state packets come in stream order:
    /// the call that hands out packet number `k` hands out exactly access
    /// unit `k` of the source's bytes, however the reads were chunked, and
    /// an error-free source that is fully drained ends in end-of-stream.
    #[verifier::loop_isolation(false)]
    pub fn get_frame(&mut self) -> (r: Result<Packet, DemuxerError>)
        requires
            old(self).wf(),
            old(self).kind() != BackendKind::Empty,
        ensures
            final(self).wf(),
            final(self).kind() == old(self).kind(),
            final(self).spec_streams() == old(self).spec_streams(),
            old(self).kind() == BackendKind::RawContainer ==> {
                let o = old(self).raw_state();
                let f = final(self).raw_state();
                &&& f.streams@ == o.streams@
                &&& f.packetisers@.len() == o.packetisers@.len()
                &&& (forall|i: int|
                    0 <= i < o.packetisers@.len() && o.packetisers@[i] is None
                        ==> f.packetisers@[i] is None)
                &&& (r == Result::<Packet, DemuxerError>::Err(DemuxerError::Eof) ==> forall|i: int|
                    0 <= i < f.packetisers@.len() ==> f.packetisers@[i] is None)
                &&& ((forall|i: int| 0 <= i < o.packetisers@.len() ==> o.packetisers@[i] is None)
                    ==> (r == Result::<Packet, DemuxerError>::Err(DemuxerError::Eof)
                        && f.packetisers@ == o.packetisers@ && f.eof == o.eof && f.dmx == o.dmx
                        && f.consumed@ == o.consumed@))
                &&& (r matches Ok(p) ==> exists|i: int|
                    {
                        &&& 0 <= i < o.streams@.len()
                        &&& #[trigger] o.packetisers@[i] is Some
                        &&& p.stream == o.streams@[i]
                        &&& (f.packetisers@[i] matches Some(pk) && pk.taken() > 0
                            && pk.taken() <= P::frames(pk.fed()).len()
                            && p.payload@ == P::frames(pk.fed())[pk.taken() - 1])
                    })
                &&& (r == Result::<Packet, DemuxerError>::Err(DemuxerError::InvalidData)
                    ==> exists|i: int|
                    {
                        &&& 0 <= i < f.packetisers@.len()
                        &&& (#[trigger] f.packetisers@[i] matches Some(pk) && !P::good(pk.fed()))
                    })
                &&& (o.all_active_good() && o.some_packet_ready() ==> r is Ok)
                &&& ((exists|i: int|
                    0 <= i < o.packetisers@.len() && #[trigger] o.packetisers@[i] is Some
                        && f.packetisers@[i] is None) ==> f.eof)
                &&& (o.eof ==> f.eof)
                &&& o.consumed@.is_prefix_of(f.consumed@)
                &&& o.dmx.pending() == f.consumed@.skip(o.consumed@.len() as int) + f.dmx.pending()
            },
            old(self).kind() == BackendKind::RawElementary ==> {
                let o = old(self).elem_ctx();
                let f = final(self).elem_ctx();
                let s = o.src.view();
                &&& f.stream == o.stream
                &&& f.src.view() == s
                &&& match r {
                    Ok(p) => {
                        &&& p.stream == o.stream
                        &&& o.packetiser.taken() < P::frames(s).len()
                        &&& p.payload@ == P::frames(s)[o.packetiser.taken() as int]
                        &&& f.packetiser.taken() == o.packetiser.taken() + 1
                    },
                    Err(DemuxerError::Eof) => {
                        &&& f.packetiser.taken() == o.packetiser.taken()
                        &&& (P::good(s) ==> o.packetiser.taken() >= P::frames(s).len())
                    },
                    Err(DemuxerError::InvalidData) => !P::good(s),
                    Err(_) => false,
                }
            },
    {
        match self {
            DemuxerObject::Structured(dmx) => dmx.get_frame(),
            DemuxerObject::RawContainer(st) => {
                let n = st.streams.len();
                proof {
                    let c0 = st.consumed@;
                    assert(c0.subrange(0, c0.len() as int) =~= c0);
                    assert(c0.skip(c0.len() as int) =~= Seq::<DataUnit>::empty());
                    assert(Seq::<DataUnit>::empty() + st.dmx.pending() =~= st.dmx.pending());
                }
                loop
                    invariant
                        st.wf(),
                        n == st.streams@.len(),
                        st.streams == old(self).raw_state().streams,
                        forall|j: int|
                            0 <= j < n && old(self).raw_state().packetisers@[j] is None
                                ==> st.packetisers@[j] is None,
                        (forall|j: int|
                            0 <= j < n ==> old(self).raw_state().packetisers@[j] is None) ==> (
                        st.packetisers@ == old(self).raw_state().packetisers@ && st.eof == old(
                            self,
                        ).raw_state().eof && st.dmx == old(self).raw_state().dmx && st.consumed@
                            == old(self).raw_state().consumed@),
                        (exists|j: int|
                            0 <= j < n && #[trigger] old(self).raw_state().packetisers@[j]
                                is Some && st.packetisers@[j] is None) ==> st.eof,
                        old(self).raw_state().eof ==> st.eof,
                        (old(self).raw_state().all_active_good() && old(
                            self,
                        ).raw_state().some_packet_ready()) ==> st.packetisers@ == old(
                            self,
                        ).raw_state().packetisers@,
                        old(self).raw_state().consumed@.is_prefix_of(st.consumed@),
                        old(self).raw_state().dmx.pending() == st.consumed@.skip(
                            old(self).raw_state().consumed@.len() as int,
                        ) + st.dmx.pending(),
                    decreases st.dmx.pending().len() + (if st.eof {
                        0int
                    } else {
                        1int
                    }),
                {
                    let ghost pass_pkts = st.packetisers@;
                    let ghost pass_eof = st.eof;
                    let ghost pass_dmx = st.dmx;
                    let ghost pass_con = st.consumed@;
                    let mut has_some = false;
                    let mut i: usize = 0;
                    while i < n
                        invariant
                            st.wf(),
                            i <= n,
                            st.packetisers@.len() == n,
                            st.streams == old(self).raw_state().streams,
                            st.eof == pass_eof,
                            st.dmx == pass_dmx,
                            st.consumed@ == pass_con,
                            forall|j: int| i <= j < n ==> st.packetisers@[j] == pass_pkts[j],
                            forall|j: int|
                                0 <= j < n && pass_pkts[j] is None ==> st.packetisers@[j]
                                    == pass_pkts[j],
                            forall|j: int|
                                0 <= j < n && old(self).raw_state().packetisers@[j] is None
                                    ==> st.packetisers@[j] is None,
                            (forall|j: int|
                                0 <= j < n ==> old(self).raw_state().packetisers@[j] is None)
                                ==> (st.packetisers@ == old(self).raw_state().packetisers@
                                && st.eof == old(self).raw_state().eof && st.dmx == old(
                                self,
                            ).raw_state().dmx && st.consumed@ == old(
                                self,
                            ).raw_state().consumed@),
                            (exists|j: int|
                                0 <= j < n && #[trigger] old(self).raw_state().packetisers@[j]
                                    is Some && st.packetisers@[j] is None) ==> st.eof,
                            old(self).raw_state().eof ==> st.eof,
                            (old(self).raw_state().all_active_good() && pass_pkts == old(
                                self,
                            ).raw_state().packetisers@) ==> forall|j: int|
                                0 <= j < i && (#[trigger] pass_pkts[j]) is Some ==> pass_pkts[
                                j].unwrap().taken() >= P::frames(
                                    pass_pkts[j].unwrap().fed(),
                                ).len(),
                            has_some == exists|j: int| 0 <= j < i && st.packetisers@[j] is Some,
                            pass_eof ==> forall|j: int|
                                0 <= j < i ==> st.packetisers@[j] is None,
                        decreases n - i,
                    {
                        if st.packetisers[i].is_some() {
                            let ghost before = st.packetisers@;
                            let mut pk = st.packetisers.remove(i).unwrap();
                            let res = pk.get_packet(&st.streams[i]);
                            match res {
                                Ok(Some(pkt)) => {
                                    st.packetisers.insert(i, Some(pk));
                                    proof {
                                        assert(st.packetisers@ =~= before.update(
                                            i as int,
                                            Some(pk),
                                        ));
                                        assert(old(self).raw_state().packetisers@[i as int]
                                            is Some);
                                        assert(st.packetisers@[i as int] matches Some(q)
                                            && q.taken() > 0 && q.taken() <= P::frames(
                                            q.fed(),
                                        ).len() && pkt.payload@ == P::frames(q.fed())[
                                            q.taken() - 1]);
                                    }
                                    return Ok(pkt);
                                },
                                Ok(None) | Err(PacketiserError::ShortData) => {
                                    if st.eof {
                                        st.packetisers.insert(i, None);
                                        proof {
                                            assert(st.packetisers@ =~= before.update(
                                                i as int,
                                                Option::<P>::None,
                                            ));
                                        }
                                    } else {
                                        st.packetisers.insert(i, Some(pk));
                                        has_some = true;
                                        proof {
                                            assert(st.packetisers@ =~= before.update(
                                                i as int,
                                                Some(pk),
                                            ));
                                            assert(st.packetisers@[i as int] is Some);
                                        }
                                    }
                                },
                                Err(_) => {
                                    st.packetisers.insert(i, Some(pk));
                                    proof {
                                        assert(st.packetisers@ =~= before.update(
                                            i as int,
                                            Some(pk),
                                        ));
                                        assert(old(self).raw_state().packetisers@[i as int]
                                            is Some);
                                        assert(st.packetisers@[i as int] matches Some(q)
                                            && !P::good(q.fed()));
                                        if old(self).raw_state().all_active_good() && old(
                                            self,
                                        ).raw_state().some_packet_ready() {
                                            assert(pass_pkts == old(
                                                self,
                                            ).raw_state().packetisers@);
                                            assert(before[i as int] == pass_pkts[i as int]);
                                            assert(P::good(pk.fed()));
                                            assert(false);
                                        }
                                    }
                                    return Err(DemuxerError::InvalidData);
                                },
                            }
                        }
                        i = i + 1;
                    }
                    proof {
                        if old(self).raw_state().all_active_good() && old(
                            self,
                        ).raw_state().some_packet_ready() {
                            assert(pass_pkts == old(self).raw_state().packetisers@);
                            let k = choose|i: int|
                                0 <= i < old(self).raw_state().packetisers@.len() && (
                                #[trigger] old(self).raw_state().packetisers@[i]) is Some && old(
                                    self,
                                ).raw_state().packetisers@[i].unwrap().taken() < P::frames(
                                    old(self).raw_state().packetisers@[i].unwrap().fed(),
                                ).len();
                            assert(pass_pkts[k] is Some);
                            assert(false);
                        }
                    }
                    if !has_some {
                        proof {
                            if forall|j: int|
                                0 <= j < n ==> old(self).raw_state().packetisers@[j] is None {
                                assert(st.packetisers@ =~= old(self).raw_state().packetisers@);
                            }
                        }
                        return Err(DemuxerError::Eof);
                    }
                    proof {
                        assert(!st.eof);
                    }
                    let ghost pen0 = st.dmx.pending();
                    let data_res = st.dmx.get_data();
                    match data_res {
                        Ok(unit) => {
                            let ghost route_pkts = st.packetisers@;
                            let ghost route_con = st.consumed@;
                            let ghost route_dmx = st.dmx;
                            proof {
                                assert(forall|k: int|
                                    0 <= k < st.streams@.len() && (#[trigger] route_pkts[k])
                                        is Some && sole_owner(st.streams@, k)
                                        ==> route_pkts[k].unwrap().fed() == routed_bytes(
                                        route_con,
                                        st.streams@[k].id,
                                    ));
                            }
                            let ghost mut fed_idx: int = 0;
                            let mut routed = false;
                            let mut j: usize = 0;
                            while j < n && !routed
                                invariant
                                    j <= n,
                                    st.packetisers@.len() == n,
                                    st.streams@ == st.dmx.streams(),
                                    st.streams == old(self).raw_state().streams,
                                    st.eof == pass_eof,
                                    st.dmx == route_dmx,
                                    st.consumed@ == route_con,
                                    forall|k: int|
                                        0 <= k < n && route_pkts[k] is None ==> st.packetisers@[k]
                                            == route_pkts[k],
                                    forall|k: int|
                                        0 <= k < n && old(self).raw_state().packetisers@[k]
                                            is None ==> st.packetisers@[k] is None,
                                    exists|k: int| 0 <= k < n && st.packetisers@[k] is Some,
                                    (exists|k: int|
                                        0 <= k < n && #[trigger] old(
                                            self,
                                        ).raw_state().packetisers@[k] is Some
                                            && st.packetisers@[k] is None) ==> st.eof,
                                    old(self).raw_state().eof ==> st.eof,
                                    !routed ==> st.packetisers@ == route_pkts,
                                    !routed ==> forall|k: int|
                                        0 <= k < j ==> st.streams@[k].id != unit.stream_id,
                                    routed ==> {
                                        &&& 0 <= fed_idx < n
                                        &&& st.streams@[fed_idx].id == unit.stream_id
                                        &&& (forall|k: int|
                                            0 <= k < n && k != fed_idx ==> st.packetisers@[k]
                                                == route_pkts[k])
                                        &&& (route_pkts[fed_idx] is None ==> st.packetisers@[
                                            fed_idx] == route_pkts[fed_idx])
                                        &&& (route_pkts[fed_idx] matches Some(pk0)
                                            ==> st.packetisers@[fed_idx] matches Some(pk1)
                                            && pk1.fed() == pk0.fed() + unit.payload@
                                            && pk1.taken() == pk0.taken())
                                    },
                                decreases n - j + (if routed {
                                    0int
                                } else {
                                    1int
                                }),
                            {
                                if st.streams[j].id == unit.stream_id {
                                    if st.packetisers[j].is_some() {
                                        let ghost before = st.packetisers@;
                                        let mut pk = st.packetisers.remove(j).unwrap();
                                        pk.add_data(unit.payload.as_slice());
                                        st.packetisers.insert(j, Some(pk));
                                        proof {
                                            assert(st.packetisers@ =~= before.update(
                                                j as int,
                                                Some(pk),
                                            ));
                                            assert(st.packetisers@[j as int] is Some);
                                        }
                                    }
                                    routed = true;
                                    proof {
                                        fed_idx = j as int;
                                    }
                                } else {
                                    j = j + 1;
                                }
                            }
                            proof {
                                st.consumed@ = route_con.push(unit);
                            }
                            proof {
                                assert forall|i2: int|
                                    0 <= i2 < st.streams@.len()
                                        && (#[trigger] st.packetisers@[i2]) is Some
                                        && sole_owner(st.streams@, i2) implies st.packetisers@[
                                        i2].unwrap().fed() == routed_bytes(
                                    st.consumed@,
                                    st.streams@[i2].id,
                                ) by {
                                    lemma_routed_push(route_con, unit, st.streams@[i2].id);
                                    let cur = st.packetisers@[i2];
                                    if routed && i2 == fed_idx {
                                        assert(route_pkts[fed_idx] is Some);
                                        let pk0 = route_pkts[fed_idx].unwrap();
                                        assert(pk0.fed() == routed_bytes(
                                            route_con,
                                            st.streams@[i2].id,
                                        ));
                                        assert(cur.unwrap().fed() == pk0.fed() + unit.payload@);
                                    } else {
                                        assert(st.packetisers@[i2] == route_pkts[i2]);
                                        if st.streams@[i2].id == unit.stream_id {
                                            if routed {
                                                assert(st.streams@[fed_idx].id == st.streams@[
                                                    i2].id);
                                                assert(false);
                                            } else {
                                                assert(j >= n);
                                                assert(false);
                                            }
                                        }
                                        assert(route_pkts[i2].unwrap().fed() == routed_bytes(
                                            route_con,
                                            st.streams@[i2].id,
                                        ));
                                    }
                                }
                                let n0 = old(self).raw_state().consumed@.len() as int;
                                assert(st.consumed@.skip(n0) =~= route_con.skip(n0).push(unit));
                                assert(route_con.skip(n0).push(unit) + st.dmx.pending()
                                    =~= route_con.skip(n0) + pen0);
                                assert(st.consumed@.subrange(0, n0) =~= route_con.subrange(
                                    0,
                                    n0,
                                ));
                            }
                        },
                        Err(_) => {
                            st.eof = true;
                        },
                    }
                }
            },
            DemuxerObject::RawElementary(ctx) => {
                let ghost s = ctx.src.view();
                let ghost taken0 = ctx.packetiser.taken();
                proof {
                    ctx.src.lemma_cursor_in_window();
                }
                loop
                    invariant
                        ctx.src.wf(),
                        ctx.src.cursor() <= s.len(),
                        ctx.src.view() == s,
                        ctx.packetiser.fed() == s.take(ctx.src.cursor() as int),
                        ctx.packetiser.taken() == taken0,
                        ctx.stream == old(self).elem_ctx().stream,
                        ctx.sm == old(self).elem_ctx().sm,
                    decreases s.len() - ctx.src.cursor(),
                {
                    let ghost fed = ctx.packetiser.fed();
                    let ghost rest = s.skip(ctx.src.cursor() as int);
                    let res = ctx.packetiser.get_packet(&ctx.stream);
                    match res {
                        Ok(Some(p)) => {
                            proof {
                                lemma_take_skip(s, ctx.src.cursor() as int);
                                P::frames_grow(fed, rest);
                                assert(P::frames(s)[taken0 as int] == P::frames(fed)[
                                    taken0 as int]);
                            }
                            return Ok(p);
                        },
                        Ok(None) => {},
                        Err(PacketiserError::ShortData) => {},
                        Err(_) => {
                            proof {
                                lemma_take_skip(s, ctx.src.cursor() as int);
                                if P::good(s) {
                                    P::good_prefix(fed, rest);
                                }
                            }
                            return Err(DemuxerError::InvalidData);
                        },
                    }
                    let chunk_res = ctx.src.read_chunk(65536);
                    match chunk_res {
                        Ok(chunk) => {
                            ctx.packetiser.add_data(chunk.as_slice());
                            proof {
                                assert(ctx.packetiser.fed() =~= s.take(ctx.src.cursor() as int));
                            }
                        },
                        Err(_) => {
                            proof {
                                assert(ctx.packetiser.fed() =~= s);
                            }
                            let res2 = ctx.packetiser.get_packet(&ctx.stream);
                            match res2 {
                                Ok(Some(p)) => {
                                    return Ok(p);
                                },
                                Ok(None) | Err(PacketiserError::ShortData) => {
                                    return Err(DemuxerError::Eof);
                                },
                                Err(_) => {
                                    return Err(DemuxerError::InvalidData);
                                },
                            }
                        },
                    }
                }
            },
            DemuxerObject::Empty => {
                proof {
                    assert(false);
                }
                Err(DemuxerError::InvalidData)
            },
        }
    }

    /// The options the live backend can negotiate; the states without
    /// options report an empty set.
    pub fn get_supported_options(&self) -> (r: Vec<OptionDef>)
        ensures
            (self.kind() == BackendKind::Empty || self.kind() == BackendKind::RawElementary)
                ==> r@.len() == 0,
    {
        match self {
            DemuxerObject::Structured(dmx) => dmx.get_supported_options(),
            DemuxerObject::RawContainer(st) => st.dmx.get_supported_options(),
            _ => Vec::new(),
        }
    }

    /// Hands option values to the live backend; a no-op for the states
    /// without options.
    pub fn set_options(&mut self, options: &[OptionEntry])
        requires
            old(self).wf(),
        ensures
            final(self).wf(),
            final(self).kind() == old(self).kind(),
            final(self).spec_streams() == old(self).spec_streams(),
            (old(self).kind() == BackendKind::Empty || old(self).kind()
                == BackendKind::RawElementary) ==> *final(self) == *old(self),
    {
        match self {
            DemuxerObject::Structured(dmx) => dmx.set_options(options),
            DemuxerObject::RawContainer(st) => st.dmx.set_options(options),
            _ => {},
        }
    }

    /// The live backend's value for the option called `name`; `None` for
    /// the states without options.
    pub fn query_option_value(&self, name: &String) -> (r: Option<OptionValue>)
        ensures
            (self.kind() == BackendKind::Empty || self.kind() == BackendKind::RawElementary)
                ==> r is None,
    {
        match self {
            DemuxerObject::Structured(dmx) => dmx.query_option_value(name),
            DemuxerObject::RawContainer(st) => st.dmx.query_option_value(name),
            _ => None,
        }
    }
}

} // verus!
