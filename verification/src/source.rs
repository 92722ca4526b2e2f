//! An in-memory seekable byte source with an optional bounded view.
//!
//! The source owns its bytes and a cursor. A bounded view restricts the
//! visible window to `[start, end)` of the underlying bytes, translating all
//! operations into the window's coordinate space; reads past the configured
//! end behave as end-of-stream even when the underlying buffer has more
//! bytes.
use vstd::prelude::*;

use crate::types::DemuxerError;

verus! {

/// Little-endian 32-bit value made of the four bytes of `s` at `i`.
pub open spec fn u32le_at(s: Seq<u8>, i: int) -> u32
    recommends
        0 <= i,
        i + 4 <= s.len(),
{
    (s[i] + s[i + 1] * 0x100 + s[i + 2] * 0x1_0000 + s[i + 3] * 0x100_0000) as u32
}

/// Whether a bounded view with the given window over a source of `len`
/// bytes can be built at all: the start must lie inside the source and an
/// explicit end must not precede it.
pub open spec fn window_valid(len: nat, start: u64, end: Option<u64>) -> bool {
    &&& start <= len
    &&& match end {
        Some(e) => start <= e,
        None => true,
    }
}

/// The exclusive end offset a bounded view effectively uses: the configured
/// end, clipped to the true end of the source.
pub open spec fn effective_end(len: nat, end: Option<u64>) -> nat {
    match end {
        Some(e) => if e <= len {
            e as nat
        } else {
            len
        },
        None => len,
    }
}

/// A seekable, readable, in-memory byte source. All reads and seeks operate
/// on the visible window; `view` is the window's contents and `cursor` the
/// current position within it.
pub struct ByteSource {
    data: Vec<u8>,
    start: usize,
    end: usize,
    pos: usize,
}

impl ByteSource {
    /// The source is internally consistent: the window lies inside the
    /// underlying bytes and the cursor inside the window.
    pub closed spec fn wf(&self) -> bool {
        &&& self.start <= self.end <= self.data@.len()
        &&& self.pos <= self.end - self.start
    }

    /// The bytes visible through the window.
    pub closed spec fn view(&self) -> Seq<u8> {
        self.data@.subrange(self.start as int, self.end as int)
    }

    /// The cursor, relative to the window's start.
    pub closed spec fn cursor(&self) -> nat {
        self.pos as nat
    }

    /// A consistent source keeps its cursor inside the window.
    pub proof fn lemma_cursor_in_window(&self)
        requires
            self.wf(),
        ensures
            self.cursor() <= self.view().len(),
    {
    }

    /// A source exposing all of `data`, positioned at its start.
    pub fn new(data: Vec<u8>) -> (s: ByteSource)
        ensures
            s.wf(),
            s.view() == data@,
            s.cursor() == 0,
    {
        let end = data.len();
        let s = ByteSource { data, start: 0, end, pos: 0 };
        proof {
            assert(s.view() =~= s.data@);
        }
        s
    }

    /// A bounded view of `data` from `start` (inclusive) to `end`
    /// (exclusive; `None` extends to the true end). A window whose start
    /// lies beyond the true end of the source, or whose end precedes its
    /// start, cannot hold media payload and is rejected rather than built,
    /// so probing it is a plain construction failure instead of a crash.
    pub fn bounded(data: Vec<u8>, start: u64, end: Option<u64>) -> (r: Result<ByteSource, DemuxerError>)
        ensures
            match r {
                Ok(s) => {
                    &&& window_valid(data@.len(), start, end)
                    &&& s.wf()
                    &&& s.view() == data@.subrange(
                        start as int,
                        effective_end(data@.len(), end) as int,
                    )
                    &&& s.cursor() == 0
                },
                Err(e) => e == DemuxerError::InvalidData && !window_valid(data@.len(), start, end),
            },
    {
        let len = data.len();
        if start > len as u64 {
            return Err(DemuxerError::InvalidData);
        }
        let start_idx = start as usize;
        let end_idx = match end {
            Some(e) => {
                if e < start {
                    return Err(DemuxerError::InvalidData);
                }
                if e > len as u64 {
                    len
                } else {
                    e as usize
                }
            },
            None => len,
        };
        Ok(ByteSource { data, start: start_idx, end: end_idx, pos: 0 })
    }

    /// The number of bytes in the window.
    pub fn source_len(&self) -> (n: u64)
        requires
            self.wf(),
        ensures
            n == self.view().len(),
    {
        (self.end - self.start) as u64
    }

    /// The number of bytes between the cursor and the end of the window.
    pub fn remaining(&self) -> (n: usize)
        requires
            self.wf(),
        ensures
            n == self.view().len() - self.cursor(),
    {
        self.end - self.start - self.pos
    }

    /// The current position.
    pub fn tell(&self) -> (p: u64)
        requires
            self.wf(),
        ensures
            p == self.cursor(),
    {
        self.pos as u64
    }

    /// Moves the cursor to absolute position `p` in the window; a position
    /// past the end of the window is refused and the cursor is unchanged.
    pub fn seek_start(&mut self, p: u64) -> (r: Result<(), DemuxerError>)
        requires
            old(self).wf(),
        ensures
            final(self).wf(),
            final(self).view() == old(self).view(),
            match r {
                Ok(()) => p <= old(self).view().len() && final(self).cursor() == p,
                Err(e) => {
                    &&& e == DemuxerError::IoFault
                    &&& p > old(self).view().len()
                    &&& final(self).cursor() == old(self).cursor()
                },
            },
    {
        if p <= (self.end - self.start) as u64 {
            self.pos = p as usize;
            Ok(())
        } else {
            Err(DemuxerError::IoFault)
        }
    }

    /// Moves the cursor to `back` bytes before the end of the window; a
    /// distance larger than the window is refused and the cursor unchanged.
    pub fn seek_back_from_end(&mut self, back: u64) -> (r: Result<(), DemuxerError>)
        requires
            old(self).wf(),
        ensures
            final(self).wf(),
            final(self).view() == old(self).view(),
            match r {
                Ok(()) => {
                    &&& back <= old(self).view().len()
                    &&& final(self).cursor() == old(self).view().len() - back
                },
                Err(e) => {
                    &&& e == DemuxerError::IoFault
                    &&& back > old(self).view().len()
                    &&& final(self).cursor() == old(self).cursor()
                },
            },
    {
        let window = (self.end - self.start) as u64;
        if back <= window {
            self.pos = (window - back) as usize;
            Ok(())
        } else {
            Err(DemuxerError::IoFault)
        }
    }

    /// Reads up to `count` bytes at the cursor without advancing it; fewer
    /// come back when the window ends first.
    pub fn peek(&self, count: usize) -> (r: Vec<u8>)
        requires
            self.wf(),
        ensures
            r@.len() == if count <= self.view().len() - self.cursor() {
                count as int
            } else {
                self.view().len() - self.cursor()
            },
            r@ == self.view().subrange(self.cursor() as int, self.cursor() as int + r@.len()),
    {
        let avail = self.end - self.start - self.pos;
        let take = if count <= avail {
            count
        } else {
            avail
        };
        let mut out: Vec<u8> = Vec::new();
        let mut i: usize = 0;
        while i < take
            invariant
                self.wf(),
                i <= take,
                take <= self.view().len() - self.cursor(),
                out@ == self.view().subrange(self.cursor() as int, self.cursor() as int + i),
            decreases take - i,
        {
            out.push(self.data[self.start + self.pos + i]);
            i = i + 1;
            proof {
                assert(out@ =~= self.view().subrange(self.cursor() as int, self.cursor() as int + i));
            }
        }
        out
    }

    /// Reads the byte at the cursor and advances past it; at the end of the
    /// window nothing is read.
    pub fn read_byte(&mut self) -> (r: Result<u8, DemuxerError>)
        requires
            old(self).wf(),
        ensures
            final(self).wf(),
            final(self).view() == old(self).view(),
            match r {
                Ok(b) => {
                    &&& old(self).cursor() < old(self).view().len()
                    &&& b == old(self).view()[old(self).cursor() as int]
                    &&& final(self).cursor() == old(self).cursor() + 1
                },
                Err(e) => {
                    &&& e == DemuxerError::Eof
                    &&& old(self).cursor() == old(self).view().len()
                    &&& final(self).cursor() == old(self).cursor()
                },
            },
    {
        if self.pos < self.end - self.start {
            let b = self.data[self.start + self.pos];
            self.pos = self.pos + 1;
            Ok(b)
        } else {
            Err(DemuxerError::Eof)
        }
    }

    /// Advances the cursor by `n` bytes; past the end of the window nothing
    /// moves.
    pub fn read_skip(&mut self, n: usize) -> (r: Result<(), DemuxerError>)
        requires
            old(self).wf(),
        ensures
            final(self).wf(),
            final(self).view() == old(self).view(),
            match r {
                Ok(()) => {
                    &&& old(self).cursor() + n <= old(self).view().len()
                    &&& final(self).cursor() == old(self).cursor() + n
                },
                Err(e) => {
                    &&& e == DemuxerError::Eof
                    &&& old(self).cursor() + n > old(self).view().len()
                    &&& final(self).cursor() == old(self).cursor()
                },
            },
    {
        if n <= self.end - self.start - self.pos {
            self.pos = self.pos + n;
            Ok(())
        } else {
            Err(DemuxerError::Eof)
        }
    }

    /// Reads a little-endian 32-bit value at the cursor and advances past
    /// it; fails without moving when fewer than four bytes remain.
    pub fn read_u32le(&mut self) -> (r: Result<u32, DemuxerError>)
        requires
            old(self).wf(),
        ensures
            final(self).wf(),
            final(self).view() == old(self).view(),
            match r {
                Ok(v) => {
                    &&& old(self).cursor() + 4 <= old(self).view().len()
                    &&& v == u32le_at(old(self).view(), old(self).cursor() as int)
                    &&& final(self).cursor() == old(self).cursor() + 4
                },
                Err(e) => {
                    &&& e == DemuxerError::Eof
                    &&& old(self).cursor() + 4 > old(self).view().len()
                    &&& final(self).cursor() == old(self).cursor()
                },
            },
    {
        if 4 <= self.end - self.start - self.pos {
            let base = self.start + self.pos;
            let b0 = self.data[base] as u32;
            let b1 = self.data[base + 1] as u32;
            let b2 = self.data[base + 2] as u32;
            let b3 = self.data[base + 3] as u32;
            self.pos = self.pos + 4;
            Ok(b0 + b1 * 0x100 + b2 * 0x1_0000 + b3 * 0x100_0000)
        } else {
            Err(DemuxerError::Eof)
        }
    }

    /// Reads between one and `max` bytes at the cursor, advancing past
    /// them; fails only when the window is exhausted or `max` is zero.
    pub fn read_chunk(&mut self, max: usize) -> (r: Result<Vec<u8>, DemuxerError>)
        requires
            old(self).wf(),
        ensures
            final(self).wf(),
            final(self).view() == old(self).view(),
            match r {
                Ok(v) => {
                    &&& old(self).cursor() < old(self).view().len()
                    &&& max > 0
                    &&& v@.len() == if max <= old(self).view().len() - old(self).cursor() {
                        max as int
                    } else {
                        old(self).view().len() - old(self).cursor()
                    }
                    &&& v@ == old(self).view().subrange(
                        old(self).cursor() as int,
                        old(self).cursor() as int + v@.len(),
                    )
                    &&& final(self).cursor() == old(self).cursor() + v@.len()
                },
                Err(e) => {
                    &&& e == DemuxerError::Eof
                    &&& (old(self).cursor() == old(self).view().len() || max == 0)
                    &&& final(self).cursor() == old(self).cursor()
                },
            },
    {
        if max == 0 || self.pos >= self.end - self.start {
            return Err(DemuxerError::Eof);
        }
        let out = self.peek(max);
        let got = out.len();
        self.pos = self.pos + got;
        Ok(out)
    }

    /// The whole window as a slice, for non-destructive content sniffing.
    pub fn window(&self) -> (r: &[u8])
        requires
            self.wf(),
        ensures
            r@ == self.view(),
    {
        let s = self.data.as_slice();
        &s[self.start..self.end]
    }
}

} // verus!
