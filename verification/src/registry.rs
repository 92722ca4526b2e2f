//! The capability registry: six independent name lists, one per capability
//! kind (structured demuxer, raw demuxer, packetiser, decoder, encoder,
//! muxer). Keys are format/codec identifier strings, unique within each
//! list; insertion order is irrelevant. Built once at startup and read-only
//! afterwards. The constructors the names stand for live with the engine
//! that instantiates backends.
use vstd::prelude::*;

verus! {

/// Whether `names` holds an entry spelling `n`.
pub open spec fn has_name(names: Seq<String>, n: Seq<char>) -> bool {
    exists|i: int| 0 <= i < names.len() && names[i]@ == n
}

/// Whether no two entries of `names` spell the same identifier.
pub open spec fn distinct_names(names: Seq<String>) -> bool {
    forall|i: int, j: int| 0 <= i < j < names.len() ==> names[i]@ != names[j]@
}

/// Whether `names` holds an entry spelling `name`.
fn list_has(names: &Vec<String>, name: &String) -> (r: bool)
    ensures
        r == has_name(names@, name@),
{
    let mut i: usize = 0;
    while i < names.len()
        invariant
            i <= names@.len(),
            forall|j: int| 0 <= j < i ==> names@[j]@ != name@,
        decreases names@.len() - i,
    {
        if names[i].eq(name) {
            return true;
        }
        i = i + 1;
    }
    false
}

/// Adds `name` to `names` unless an entry already spells it, keeping the
/// entries distinct.
fn list_add(names: &mut Vec<String>, name: String)
    requires
        distinct_names(old(names)@),
    ensures
        distinct_names(final(names)@),
        has_name(final(names)@, name@),
        final(names)@ == if has_name(old(names)@, name@) {
            old(names)@
        } else {
            old(names)@.push(name)
        },
{
    if !list_has(names, &name) {
        let ghost n = names@.len();
        names.push(name);
        proof {
            assert(names@[n as int]@ == name@);
        }
    }
}

/// The capability registry: a name list per capability kind. The two no-op
/// fallbacks — an encoder and a muxer that accept everything and emit
/// nothing, used for measurement and dry-run paths — are always present
/// under the name "null".
pub struct FullRegister {
    pub dmx_reg: Vec<String>,
    pub rdmx_reg: Vec<String>,
    pub pkt_reg: Vec<String>,
    pub dec_reg: Vec<String>,
    pub enc_reg: Vec<String>,
    pub mux_reg: Vec<String>,
}

impl FullRegister {
    /// Every list keeps its keys unique.
    pub open spec fn wf(&self) -> bool {
        &&& distinct_names(self.dmx_reg@)
        &&& distinct_names(self.rdmx_reg@)
        &&& distinct_names(self.pkt_reg@)
        &&& distinct_names(self.dec_reg@)
        &&& distinct_names(self.enc_reg@)
        &&& distinct_names(self.mux_reg@)
    }

    /// A registry holding only the two always-present fallbacks: the no-op
    /// encoder and the no-op muxer.
    pub fn new() -> (r: FullRegister)
        ensures
            r.wf(),
            r.dmx_reg@.len() == 0,
            r.rdmx_reg@.len() == 0,
            r.pkt_reg@.len() == 0,
            r.dec_reg@.len() == 0,
            r.enc_reg@.len() == 1 && r.enc_reg@[0]@ == "null"@,
            r.mux_reg@.len() == 1 && r.mux_reg@[0]@ == "null"@,
    {
        let mut enc_reg: Vec<String> = Vec::new();
        enc_reg.push("null".to_owned());
        let mut mux_reg: Vec<String> = Vec::new();
        mux_reg.push("null".to_owned());
        FullRegister {
            dmx_reg: Vec::new(),
            rdmx_reg: Vec::new(),
            pkt_reg: Vec::new(),
            dec_reg: Vec::new(),
            enc_reg,
            mux_reg,
        }
    }

    /// Registers a structured-demuxer name.
    pub fn add_demuxer(&mut self, name: String)
        requires
            old(self).wf(),
        ensures
            final(self).wf(),
            has_name(final(self).dmx_reg@, name@),
            *final(self) == (FullRegister { dmx_reg: final(self).dmx_reg, ..*old(self) }),
            final(self).dmx_reg@ == if has_name(old(self).dmx_reg@, name@) {
                old(self).dmx_reg@
            } else {
                old(self).dmx_reg@.push(name)
            },
    {
        list_add(&mut self.dmx_reg, name);
    }

    /// Registers a raw-demuxer name.
    pub fn add_raw_demuxer(&mut self, name: String)
        requires
            old(self).wf(),
        ensures
            final(self).wf(),
            has_name(final(self).rdmx_reg@, name@),
            *final(self) == (FullRegister { rdmx_reg: final(self).rdmx_reg, ..*old(self) }),
            final(self).rdmx_reg@ == if has_name(old(self).rdmx_reg@, name@) {
                old(self).rdmx_reg@
            } else {
                old(self).rdmx_reg@.push(name)
            },
    {
        list_add(&mut self.rdmx_reg, name);
    }

    /// Registers a packetiser name.
    pub fn add_packetiser(&mut self, name: String)
        requires
            old(self).wf(),
        ensures
            final(self).wf(),
            has_name(final(self).pkt_reg@, name@),
            *final(self) == (FullRegister { pkt_reg: final(self).pkt_reg, ..*old(self) }),
            final(self).pkt_reg@ == if has_name(old(self).pkt_reg@, name@) {
                old(self).pkt_reg@
            } else {
                old(self).pkt_reg@.push(name)
            },
    {
        list_add(&mut self.pkt_reg, name);
    }

    /// Registers a decoder name.
    pub fn add_decoder(&mut self, name: String)
        requires
            old(self).wf(),
        ensures
            final(self).wf(),
            has_name(final(self).dec_reg@, name@),
            *final(self) == (FullRegister { dec_reg: final(self).dec_reg, ..*old(self) }),
            final(self).dec_reg@ == if has_name(old(self).dec_reg@, name@) {
                old(self).dec_reg@
            } else {
                old(self).dec_reg@.push(name)
            },
    {
        list_add(&mut self.dec_reg, name);
    }

    /// Registers an encoder name.
    pub fn add_encoder(&mut self, name: String)
        requires
            old(self).wf(),
        ensures
            final(self).wf(),
            has_name(final(self).enc_reg@, name@),
            *final(self) == (FullRegister { enc_reg: final(self).enc_reg, ..*old(self) }),
            final(self).enc_reg@ == if has_name(old(self).enc_reg@, name@) {
                old(self).enc_reg@
            } else {
                old(self).enc_reg@.push(name)
            },
    {
        list_add(&mut self.enc_reg, name);
    }

    /// Registers a muxer name.
    pub fn add_muxer(&mut self, name: String)
        requires
            old(self).wf(),
        ensures
            final(self).wf(),
            has_name(final(self).mux_reg@, name@),
            *final(self) == (FullRegister { mux_reg: final(self).mux_reg, ..*old(self) }),
            final(self).mux_reg@ == if has_name(old(self).mux_reg@, name@) {
                old(self).mux_reg@
            } else {
                old(self).mux_reg@.push(name)
            },
    {
        list_add(&mut self.mux_reg, name);
    }

    /// Whether a structured demuxer is registered under `name`.
    pub fn find_demuxer(&self, name: &String) -> (r: bool)
        ensures
            r == has_name(self.dmx_reg@, name@),
    {
        list_has(&self.dmx_reg, name)
    }

    /// Whether a raw demuxer is registered under `name`.
    pub fn find_raw_demuxer(&self, name: &String) -> (r: bool)
        ensures
            r == has_name(self.rdmx_reg@, name@),
    {
        list_has(&self.rdmx_reg, name)
    }

    /// Whether a packetiser is registered under `name`.
    pub fn find_packetiser(&self, name: &String) -> (r: bool)
        ensures
            r == has_name(self.pkt_reg@, name@),
    {
        list_has(&self.pkt_reg, name)
    }

    /// Whether a decoder is registered under `name`.
    pub fn find_decoder(&self, name: &String) -> (r: bool)
        ensures
            r == has_name(self.dec_reg@, name@),
    {
        list_has(&self.dec_reg, name)
    }

    /// Whether an encoder is registered under `name`.
    pub fn find_encoder(&self, name: &String) -> (r: bool)
        ensures
            r == has_name(self.enc_reg@, name@),
    {
        list_has(&self.enc_reg, name)
    }

    /// Whether a muxer is registered under `name`.
    pub fn find_muxer(&self, name: &String) -> (r: bool)
        ensures
            r == has_name(self.mux_reg@, name@),
    {
        list_has(&self.mux_reg, name)
    }
}

} // verus!
