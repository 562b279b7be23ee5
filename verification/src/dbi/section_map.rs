//! The Section Map substream of the DBI stream.
//!
//! The substream starts with a 4-byte header that gives the number of segment descriptors,
//! followed by that many 20-byte descriptors.

use crate::bytes::{read_u16_le, read_u32_le, spec_u16_le, spec_u32_le};
use crate::dbi::{DbiError, SubstreamKind};
use vstd::prelude::*;

verus! {

/// The length of the Section Map header.
pub const SECTION_MAP_HEADER_LEN: usize = 4;

/// The length of one Section Map entry.
pub const SECTION_MAP_ENTRY_LEN: usize = 20;

/// The header of the Section Map substream.
#[derive(Clone, Copy, Debug, PartialEq, Eq)]
pub struct SectionMapHeader {
    /// The number of segment descriptors that follow.
    pub num_segments: u16,
    /// The number of logical segment descriptors.
    pub num_logical_segments: u16,
}

/// One segment descriptor of the Section Map.
#[derive(Clone, Copy, Debug, PartialEq, Eq)]
pub struct SectionMapEntry {
    /// Descriptor flags (read, write, execute, 32-bit, selector, absolute, group).
    pub flags: u16,
    /// The logical overlay number.
    pub overlay: u16,
    /// The group index into the descriptor array.
    pub group: u16,
    /// The frame, or 1-based section number.
    pub frame: u16,
    /// The byte index of the segment or group name in the string table, or 0xFFFF.
    pub section_name: u16,
    /// The byte index of the class name in the string table, or 0xFFFF.
    pub class_name: u16,
    /// The byte offset of the logical segment within the physical segment.
    pub offset: u32,
    /// The length of the segment in bytes.
    pub section_length: u32,
}

/// The entry that is decoded from the 20 bytes of `b` at `pos`.
pub open spec fn spec_section_map_entry(b: Seq<u8>, pos: int) -> SectionMapEntry {
    SectionMapEntry {
        flags: spec_u16_le(b, pos) as u16,
        overlay: spec_u16_le(b, pos + 2) as u16,
        group: spec_u16_le(b, pos + 4) as u16,
        frame: spec_u16_le(b, pos + 6) as u16,
        section_name: spec_u16_le(b, pos + 8) as u16,
        class_name: spec_u16_le(b, pos + 10) as u16,
        offset: spec_u32_le(b, pos + 12) as u32,
        section_length: spec_u32_le(b, pos + 16) as u32,
    }
}

/// Decodes the entry at `pos`.
fn read_section_map_entry(b: &[u8], pos: usize) -> (r: SectionMapEntry)
    requires
        pos + SECTION_MAP_ENTRY_LEN <= b.len(),
    ensures
        r == spec_section_map_entry(b@, pos as int),
{
    SectionMapEntry {
        flags: read_u16_le(b, pos),
        overlay: read_u16_le(b, pos + 2),
        group: read_u16_le(b, pos + 4),
        frame: read_u16_le(b, pos + 6),
        section_name: read_u16_le(b, pos + 8),
        class_name: read_u16_le(b, pos + 10),
        offset: read_u32_le(b, pos + 12),
        section_length: read_u32_le(b, pos + 16),
    }
}

/// The first `n` entries of `b`, which follow the header.
pub open spec fn spec_section_map_entries(b: Seq<u8>, n: nat) -> Seq<SectionMapEntry> {
    Seq::new(n, |i: int| spec_section_map_entry(b, 4 + 20 * i))
}

/// What parsing the Section Map substream `b` gives: an empty map for an empty substream;
/// otherwise the header and as many entries as the header counts, which must all be present.
pub open spec fn spec_parse_section_map(b: Seq<u8>) -> Result<
    (SectionMapHeader, Seq<SectionMapEntry>),
    DbiError,
> {
    if b.len() == 0 {
        Ok((SectionMapHeader { num_segments: 0, num_logical_segments: 0 }, Seq::empty()))
    } else if b.len() < 4 || b.len() < 4 + 20 * spec_u16_le(b, 0) {
        Err(DbiError::SubstreamTruncated { substream: SubstreamKind::SectionMap })
    } else {
        Ok(
            (
                SectionMapHeader {
                    num_segments: spec_u16_le(b, 0) as u16,
                    num_logical_segments: spec_u16_le(b, 2) as u16,
                },
                spec_section_map_entries(b, spec_u16_le(b, 0) as nat),
            ),
        )
    }
}

/// The decoded Section Map substream.
#[derive(Debug)]
pub struct SectionMap {
    /// The header of the substream.
    pub header: SectionMapHeader,
    /// The segment descriptors.
    pub entries: Vec<SectionMapEntry>,
}

impl SectionMap {
    /// Parses the Section Map substream.
    pub fn parse(bytes: &[u8]) -> (r: Result<Self, DbiError>)
        ensures
            match spec_parse_section_map(bytes@) {
                Ok((h, es)) => r matches Ok(m) && m.header == h && m.entries@ == es,
                Err(e) => r == Err::<Self, DbiError>(e),
            },
    {
        if bytes.len() == 0 {
            return Ok(
                SectionMap {
                    header: SectionMapHeader { num_segments: 0, num_logical_segments: 0 },
                    entries: Vec::new(),
                },
            );
        }
        if bytes.len() < SECTION_MAP_HEADER_LEN {
            return Err(DbiError::SubstreamTruncated { substream: SubstreamKind::SectionMap });
        }
        let num_segments = read_u16_le(bytes, 0);
        let num_logical_segments = read_u16_le(bytes, 2);
        let n = num_segments as usize;
        if bytes.len() - SECTION_MAP_HEADER_LEN < n * SECTION_MAP_ENTRY_LEN {
            return Err(DbiError::SubstreamTruncated { substream: SubstreamKind::SectionMap });
        }
        let mut entries: Vec<SectionMapEntry> = Vec::new();
        let mut i: usize = 0;
        while i < n
            invariant
                n == spec_u16_le(bytes@, 0),
                4 + 20 * n <= bytes.len(),
                i <= n,
                entries@ == spec_section_map_entries(bytes@, n as nat).take(i as int),
            decreases n - i,
        {
            let e = read_section_map_entry(bytes, 4 + 20 * i);
            entries.push(e);
            i = i + 1;
            assert(entries@ =~= spec_section_map_entries(bytes@, n as nat).take(i as int));
        }
        assert(entries@ =~= spec_section_map_entries(bytes@, n as nat));
        Ok(SectionMap { header: SectionMapHeader { num_segments, num_logical_segments }, entries })
    }
}

} // verus!
