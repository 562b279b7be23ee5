//! The Section Contributions substream of the DBI stream.
//!
//! The substream starts with a 32-bit version, followed by an array of fixed-size records. Each
//! record describes a range of bytes of one section of the executable that one module
//! contributed.

use crate::bytes::{read_i32_le, read_u16_le, read_u32_le, spec_i32_le, spec_u16_le, spec_u32_le};
use crate::dbi::{DbiError, SubstreamKind};
use vstd::prelude::*;

verus! {

/// Version 6.0 of the Section Contributions substream. This is the only supported version.
pub const SECTION_CONTRIBUTIONS_SUBSTREAM_VER60: u32 = 0xF12E_BA2D;

/// The length of one section contribution record.
pub const SECTION_CONTRIB_ENTRY_LEN: usize = 28;

/// Describes a range of bytes of one section that one module contributed.
#[derive(Clone, Copy, Debug, PartialEq, Eq)]
pub struct SectionContribEntry {
    /// The 1-based index of the section.
    pub section: u16,
    pub padding1: u16,
    /// The offset within the section where the contribution starts.
    pub offset: i32,
    /// The length of the contribution.
    pub size: i32,
    /// The characteristics of the section (the COFF section flags).
    pub characteristics: u32,
    /// The 0-based index of the module that made the contribution.
    pub module_index: u16,
    pub padding2: u16,
    pub data_crc: u32,
    pub reloc_crc: u32,
}

/// The record that is decoded from the 28 bytes of `b` at `pos`.
pub open spec fn spec_section_contrib(b: Seq<u8>, pos: int) -> SectionContribEntry {
    SectionContribEntry {
        section: spec_u16_le(b, pos) as u16,
        padding1: spec_u16_le(b, pos + 2) as u16,
        offset: spec_i32_le(b, pos + 4) as i32,
        size: spec_i32_le(b, pos + 8) as i32,
        characteristics: spec_u32_le(b, pos + 12) as u32,
        module_index: spec_u16_le(b, pos + 16) as u16,
        padding2: spec_u16_le(b, pos + 18) as u16,
        data_crc: spec_u32_le(b, pos + 20) as u32,
        reloc_crc: spec_u32_le(b, pos + 24) as u32,
    }
}

/// Decodes the record at `pos`.
pub fn read_section_contrib(b: &[u8], pos: usize) -> (r: SectionContribEntry)
    requires
        pos + SECTION_CONTRIB_ENTRY_LEN <= b.len(),
    ensures
        r == spec_section_contrib(b@, pos as int),
{
    SectionContribEntry {
        section: read_u16_le(b, pos),
        padding1: read_u16_le(b, pos + 2),
        offset: read_i32_le(b, pos + 4),
        size: read_i32_le(b, pos + 8),
        characteristics: read_u32_le(b, pos + 12),
        module_index: read_u16_le(b, pos + 16),
        padding2: read_u16_le(b, pos + 18),
        data_crc: read_u32_le(b, pos + 20),
        reloc_crc: read_u32_le(b, pos + 24),
    }
}

/// The records of `b` that follow its 4-byte version.
pub open spec fn spec_contrib_records(b: Seq<u8>) -> Seq<SectionContribEntry> {
    Seq::new(
        ((b.len() - 4) / 28) as nat,
        |i: int| spec_section_contrib(b, 4 + 28 * i),
    )
}

/// What parsing the Section Contributions substream `b` gives: no records for an empty
/// substream; otherwise the version must be version 6.0 and the rest must be a whole number of
/// records.
pub open spec fn spec_parse_section_contributions(b: Seq<u8>) -> Result<
    Seq<SectionContribEntry>,
    DbiError,
> {
    if b.len() == 0 {
        Ok(Seq::empty())
    } else if b.len() < 4 {
        Err(DbiError::SubstreamTruncated { substream: SubstreamKind::SectionContributions })
    } else if spec_u32_le(b, 0) != SECTION_CONTRIBUTIONS_SUBSTREAM_VER60 {
        Err(DbiError::UnsupportedSectionContribsVersion { version: spec_u32_le(b, 0) as u32 })
    } else if (b.len() - 4) % 28 != 0 {
        Err(DbiError::BadSubstreamLength { substream: SubstreamKind::SectionContributions })
    } else {
        Ok(spec_contrib_records(b))
    }
}

/// The decoded Section Contributions substream.
#[derive(Debug)]
pub struct SectionContributionsSubstream {
    /// The section contribution records, in the order of the substream.
    pub contribs: Vec<SectionContribEntry>,
}

impl SectionContributionsSubstream {
    /// Parses the Section Contributions substream: checks its version and decodes its records.
    pub fn parse(bytes: &[u8]) -> (r: Result<Self, DbiError>)
        ensures
            match spec_parse_section_contributions(bytes@) {
                Ok(c) => r matches Ok(s) && s.contribs@ == c,
                Err(e) => r == Err::<Self, DbiError>(e),
            },
    {
        if bytes.len() == 0 {
            return Ok(SectionContributionsSubstream { contribs: Vec::new() });
        }
        if bytes.len() < 4 {
            return Err(DbiError::SubstreamTruncated { substream: SubstreamKind::SectionContributions });
        }
        let version = read_u32_le(bytes, 0);
        if version != SECTION_CONTRIBUTIONS_SUBSTREAM_VER60 {
            return Err(DbiError::UnsupportedSectionContribsVersion { version });
        }
        let n_bytes = bytes.len() - 4;
        if n_bytes % SECTION_CONTRIB_ENTRY_LEN != 0 {
            return Err(DbiError::BadSubstreamLength { substream: SubstreamKind::SectionContributions });
        }
        let count = n_bytes / SECTION_CONTRIB_ENTRY_LEN;
        let mut contribs: Vec<SectionContribEntry> = Vec::new();
        let mut i: usize = 0;
        while i < count
            invariant
                count == (bytes.len() - 4) / 28,
                (bytes@.len() - 4) % 28 == 0,
                bytes.len() >= 4,
                i <= count,
                contribs@ == spec_contrib_records(bytes@).take(i as int),
            decreases count - i,
        {
            assert(4 + 28 * i + 28 <= bytes.len()) by (nonlinear_arith)
                requires
                    i < count,
                    count == (bytes.len() - 4) / 28,
                    bytes.len() >= 4,
            ;
            let e = read_section_contrib(bytes, 4 + 28 * i);
            contribs.push(e);
            i = i + 1;
            assert(contribs@ =~= spec_contrib_records(bytes@).take(i as int));
        }
        assert(contribs@ =~= spec_contrib_records(bytes@));
        Ok(SectionContributionsSubstream { contribs })
    }
}

} // verus!
