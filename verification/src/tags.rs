//! Metadata-tag boundary detection.
//!
//! A media file may carry a leading tag envelope and a trailing tag block
//! that are not part of the decodable payload. `detect_tags` inspects the
//! head and tail of a byte source for the known tag shapes and reports the
//! sub-range that is actual media payload, together with a hint that a
//! leading envelope conventionally surrounds a bare elementary stream.
//! Malformed tag structures are treated as absent, never as errors.
use vstd::prelude::*;

use crate::source::ByteSource;
use crate::source::u32le_at;

verus! {

/// Accumulates a tag envelope's declared payload size: each size byte
/// contributes its low seven bits; a byte with its top bit set is a corrupt
/// size, and accumulation stops there, keeping what was gathered so far.
pub open spec fn envelope_size_from(bytes: Seq<u8>, acc: nat) -> nat
    decreases bytes.len(),
{
    if bytes.len() == 0 {
        acc
    } else if bytes[0] & 0x80 != 0 {
        acc
    } else {
        envelope_size_from(bytes.skip(1), acc * 128 + (bytes[0] as nat))
    }
}

/// Whether the source opens with a complete leading tag envelope: the
/// three-byte magic, a version byte in `[1, 4]`, a zero flags byte, and
/// room for the four size bytes behind the six-byte header.
pub open spec fn has_lead_envelope(s: Seq<u8>) -> bool {
    &&& s.len() >= 10
    &&& s[0] == 0x49u8 && s[1] == 0x44u8 && s[2] == 0x33u8
    &&& 0 < s[3] < 5
    &&& s[4] == 0u8
}

/// Where the media payload starts when a leading tag envelope is present:
/// behind the ten header bytes plus the declared envelope size.
pub open spec fn lead_payload_start(s: Seq<u8>) -> u64
    recommends
        has_lead_envelope(s),
{
    (10 + envelope_size_from(s.subrange(6, 10), 0)) as u64
}

/// The offset of a legacy trailing tag, recognized by its three-byte magic
/// 128 bytes before the end of the source.
pub open spec fn legacy_tag_off(s: Seq<u8>) -> Option<u64> {
    if s.len() >= 128 && s[s.len() - 128] == 0x54u8 && s[s.len() - 127] == 0x41u8 && s[s.len()
        - 126] == 0x47u8 {
        Some((s.len() - 128) as u64)
    } else {
        None
    }
}

/// Where a trailing tag footer would sit: 32 bytes before the legacy tag
/// when one was found, otherwise 32 bytes before the end of the source.
/// `None` when the source is too short to hold one there.
pub open spec fn footer_probe_off(s: Seq<u8>) -> Option<int> {
    match legacy_tag_off(s) {
        Some(o) => if o >= 32 {
            Some(o - 32)
        } else {
            None
        },
        None => if s.len() >= 32 {
            Some(s.len() - 32)
        } else {
            None
        },
    }
}

/// Whether the eight-byte footer magic stands at offset `o`.
pub open spec fn footer_magic_at(s: Seq<u8>, o: int) -> bool
    recommends
        0 <= o,
        o + 8 <= s.len(),
{
    &&& s[o] == 0x41u8 && s[o + 1] == 0x50u8 && s[o + 2] == 0x45u8 && s[o + 3] == 0x54u8
    &&& s[o + 4] == 0x41u8 && s[o + 5] == 0x47u8 && s[o + 6] == 0x45u8 && s[o + 7] == 0x58u8
}

/// The payload end a footer at offset `o` declares. With version 1000, or
/// with the flags' top bit clear, the stated size includes the 32-byte
/// header, so the tag begins at `o + 32 - size`; otherwise the header is
/// excluded and it begins at `o - size`. A size that would place the
/// boundary before the start of the source is corrupt: `None`.
pub open spec fn footer_end(s: Seq<u8>, o: int) -> Option<u64>
    recommends
        0 <= o,
        o + 32 <= s.len(),
{
    let ver = u32le_at(s, o + 8);
    let size = u32le_at(s, o + 12) as int;
    let flags = u32le_at(s, o + 20);
    if ver == 1000 || flags < 0x8000_0000 {
        if size <= o + 32 {
            Some((o + 32 - size) as u64)
        } else {
            None
        }
    } else {
        if size <= o {
            Some((o - size) as u64)
        } else {
            None
        }
    }
}

/// The exclusive end of the media payload: the boundary a well-formed
/// trailing footer declares, else the legacy trailing tag's offset, else
/// `None` for "extends to the true end of the source".
pub open spec fn spec_tag_end(s: Seq<u8>) -> Option<u64> {
    let legacy = legacy_tag_off(s);
    match footer_probe_off(s) {
        Some(o) => if footer_magic_at(s, o) {
            match footer_end(s, o) {
                Some(e) => Some(e),
                None => legacy,
            }
        } else {
            legacy
        },
        None => legacy,
    }
}

/// What tag detection reports for source contents `s`: the raw-stream hint,
/// the payload start, and the optional payload end.
pub open spec fn spec_detect_tags(s: Seq<u8>) -> (bool, u64, Option<u64>) {
    if has_lead_envelope(s) {
        (true, lead_payload_start(s), spec_tag_end(s))
    } else {
        (false, 0u64, spec_tag_end(s))
    }
}

/// Inspects the head and tail of `src` for metadata tag envelopes and
/// reports `(is_raw_hint, start, end)`: the hint that the payload is likely
/// a bare elementary stream, the first payload byte, and the payload end
/// (`None` meaning the true end of the source). The source may be
/// positioned arbitrarily beforehand; its contents are left unchanged.
pub fn detect_tags(src: &mut ByteSource) -> (r: (bool, u64, Option<u64>))
    requires
        old(src).wf(),
    ensures
        final(src).wf(),
        final(src).view() == old(src).view(),
        r == spec_detect_tags(old(src).view()),
{
    let ghost s = src.view();
    let mut is_raw = false;
    let mut start: u64 = 0;
    let mut end: Option<u64> = None;

    // leading tag envelope
    src.seek_start(0).unwrap();
    let head = src.peek(5);
    if head.len() >= 5 && head[0] == 0x49 && head[1] == 0x44 && head[2] == 0x33 && head[3] > 0
        && head[3] < 5 && head[4] == 0 && src.source_len() >= 10 {
        src.read_skip(6).unwrap();
        let ghost sizebytes = s.subrange(6, 10);
        let mut size: u64 = 0;
        let mut reads: usize = 0;
        let mut corrupt = false;
        proof {
            assert(sizebytes.skip(0) =~= sizebytes);
        }
        while reads < 4 && !corrupt
            invariant
                src.wf(),
                src.view() == s,
                s.len() >= 10,
                reads <= 4,
                src.cursor() == 6 + reads + (if corrupt { 1int } else { 0int }),
                sizebytes == s.subrange(6, 10),
                reads == 0 ==> size == 0,
                reads == 1 ==> size <= 0x7f,
                reads == 2 ==> size <= 0x3fff,
                reads == 3 ==> size <= 0x1f_ffff,
                reads == 4 ==> size <= 0xfff_ffff,
                !corrupt ==> envelope_size_from(sizebytes, 0) == envelope_size_from(
                    sizebytes.skip(reads as int),
                    size as nat,
                ),
                corrupt ==> envelope_size_from(sizebytes, 0) == size,
            decreases 4 - reads + (if corrupt { 0int } else { 1int }),
        {
            let b = src.read_byte().unwrap();
            proof {
                assert(b == sizebytes[reads as int]);
                assert(sizebytes.skip(reads as int)[0] == sizebytes[reads as int]);
            }
            if b & 0x80 != 0 {
                corrupt = true;
            } else {
                proof {
                    assert(b < 0x80) by (bit_vector)
                        requires
                            b & 0x80 == 0,
                    ;
                    assert(sizebytes.skip(reads as int).skip(1) =~= sizebytes.skip(
                        reads as int + 1,
                    ));
                }
                size = size * 128 + (b as u64);
                reads = reads + 1;
            }
        }
        proof {
            if !corrupt {
                assert(sizebytes.skip(4) =~= Seq::<u8>::empty());
            }
        }
        start = 10 + size;
        is_raw = true;
    }

    // legacy trailing tag
    if src.source_len() >= 128 {
        src.seek_back_from_end(128).unwrap();
        let off = src.tell();
        let tail = src.peek(3);
        if tail.len() == 3 && tail[0] == 0x54 && tail[1] == 0x41 && tail[2] == 0x47 {
            end = Some(off);
        }
    }

    // trailing tag footer
    let foff: Option<u64> = match end {
        Some(o) => if o >= 32 {
            Some(o - 32)
        } else {
            None
        },
        None => if src.source_len() >= 32 {
            Some(src.source_len() - 32)
        } else {
            None
        },
    };
    if let Some(fo) = foff {
        src.seek_start(fo).unwrap();
        let off = src.tell();
        let magic = src.peek(8);
        if magic.len() == 8 && magic[0] == 0x41 && magic[1] == 0x50 && magic[2] == 0x45
            && magic[3] == 0x54 && magic[4] == 0x41 && magic[5] == 0x47 && magic[6] == 0x45
            && magic[7] == 0x58 {
            src.read_skip(8).unwrap();
            let ver = src.read_u32le().unwrap();
            let size = src.read_u32le().unwrap() as u64;
            let _items = src.read_u32le().unwrap();
            let flags = src.read_u32le().unwrap();
            if ver == 1000 || flags < 0x8000_0000 {
                if size <= off + 32 {
                    end = Some(off + 32 - size);
                }
            } else {
                if size <= off {
                    end = Some(off - size);
                }
            }
        }
    }

    (is_raw, start, end)
}

/// A leading envelope may declare a size that places the payload start
/// beyond the true end of the source. No window can be built there —
/// `ByteSource::bounded` refuses it — so probing such an input degenerates
/// to a plain construction failure instead of looping or crashing.
pub proof fn lemma_oversized_start_rejected(s: Seq<u8>, end: Option<u64>)
    requires
        spec_detect_tags(s).1 > s.len(),
    ensures
        !crate::source::window_valid(s.len(), spec_detect_tags(s).1, end),
{
}

/// Round trip of a legacy trailing tag: when its magic stands 128 bytes
/// before the end, no footer overrides it and no leading envelope moves the
/// start, the detected payload is exactly the bytes before the tag.
pub proof fn lemma_legacy_tag_bounds(s: Seq<u8>)
    requires
        s.len() <= u64::MAX,
        s.len() >= 128,
        s[s.len() - 128] == 0x54u8,
        s[s.len() - 127] == 0x41u8,
        s[s.len() - 126] == 0x47u8,
        s.len() >= 160 ==> !footer_magic_at(s, s.len() - 160),
        !has_lead_envelope(s),
    ensures
        spec_detect_tags(s) == (false, 0u64, Some((s.len() - 128) as u64)),
{
}

/// Round trip of a trailing footer whose version field is 1000: the stated
/// size includes the 32-byte header, so the payload ends `32 - size` bytes
/// after the footer offset.
pub proof fn lemma_footer_size_includes_header(s: Seq<u8>)
    requires
        s.len() <= u64::MAX,
        s.len() >= 32,
        legacy_tag_off(s) is None,
        footer_magic_at(s, s.len() - 32),
        u32le_at(s, s.len() - 32 + 8) == 1000,
        u32le_at(s, s.len() - 32 + 12) <= s.len(),
        !has_lead_envelope(s),
    ensures
        spec_detect_tags(s) == (
            false,
            0u64,
            Some((s.len() - 32 + 32 - u32le_at(s, s.len() - 32 + 12)) as u64),
        ),
{
}

/// Round trip of a trailing footer with a version other than 1000 and the
/// flags' top bit set: the stated size excludes the header, so the payload
/// ends `size` bytes before the footer offset.
pub proof fn lemma_footer_size_excludes_header(s: Seq<u8>)
    requires
        s.len() <= u64::MAX,
        s.len() >= 32,
        legacy_tag_off(s) is None,
        footer_magic_at(s, s.len() - 32),
        u32le_at(s, s.len() - 32 + 8) != 1000,
        u32le_at(s, s.len() - 32 + 20) >= 0x8000_0000,
        u32le_at(s, s.len() - 32 + 12) <= s.len() - 32,
        !has_lead_envelope(s),
    ensures
        spec_detect_tags(s) == (
            false,
            0u64,
            Some((s.len() - 32 - u32le_at(s, s.len() - 32 + 12)) as u64),
        ),
{
}

} // verus!
