//! The DBI Stream (Debug Information).
//!
//! The DBI stream starts with a fixed 64-byte header, followed by a fixed sequence of
//! substreams: Modules, Section Contributions, Section Map, Sources, Type Server Map,
//! Edit-and-Continue and the Optional Debug Header. The header gives the length of each
//! substream; the position of a substream is the sum of the lengths of the header and of all
//! the substreams before it.

use crate::bytes::{
    lemma_i32_read, lemma_u16_read, lemma_u32_read, push_i32_le, push_u16_le, push_u32_le, read_i32_le,
    read_u16_le, read_u32_le, spec_i32_le, spec_i32_le_bytes, spec_u16_le, spec_u16_le_bytes,
    spec_u32_le, spec_u32_le_bytes, spliced, write_bytes, lemma_splice_inside,
};
use crate::dbi::modules::{
    encode_module_fixed, lemma_module_fixed_roundtrip, lemma_record_fixed_within,
    module_views, read_modules, spec_module_fixed, spec_module_fixed_bytes, spec_modules_from,
    ModInfoSubstream, ModuleInfo, ModuleInfoFixed,
};
use crate::dbi::optional_dbg::{
    spec_optional_streams, spec_parse_optional_debug_header, OptionalDebugHeader,
};
use crate::dbi::section_contrib::{spec_parse_section_contributions, SectionContributionsSubstream};
use crate::dbi::section_map::{spec_parse_section_map, SectionMap};
use crate::dbi::sources::{spec_parse_sources, DbiSourcesSubstream};
use crate::stream_index::{StreamIndexIsNilError, StreamIndexU16};
use std::ops::Range;
use vstd::prelude::*;

pub mod modules;
pub mod optional_dbg;
pub mod section_contrib;
pub mod section_map;
pub mod sources;

verus! {

/// The size of the DBI stream header.
pub const DBI_STREAM_HEADER_LEN: usize = 64;

/// MSVC version 4.1
pub const DBI_STREAM_VERSION_VC41: u32 = 930803;

/// MSVC version 5.0
pub const DBI_STREAM_VERSION_V50: u32 = 19960307;

/// MSVC version 6.0
pub const DBI_STREAM_VERSION_V60: u32 = 19970606;

/// MSVC version 7.0
pub const DBI_STREAM_VERSION_V70: u32 = 19990903;

/// MSVC version 11.0
pub const DBI_STREAM_VERSION_V110: u32 = 20091201;

/// The header of the DBI (Debug Information) stream, decoded from its little-endian layout.
#[derive(Clone, Copy, Debug, PartialEq, Eq)]
pub struct DbiStreamHeader {
    /// Always -1
    pub signature: i32,
    /// One of the `DBI_STREAM_VERSION_*` values; typically, `DBI_STREAM_VERSION_V110`.
    pub version: u32,
    /// The number of times this PDB has been modified.
    pub age: u32,
    /// The index of the Global Symbol Index.
    pub global_symbol_index_stream: StreamIndexU16,
    pub build_number: u16,
    /// The index of the stream that contains the Public Symbol Index.
    pub public_symbol_index_stream: StreamIndexU16,
    /// The version of the MSPDB DLL which produced this DBI stream.
    pub pdb_dll_version: u16,
    /// The stream that contains the Global Symbol Stream.
    pub global_symbol_stream: StreamIndexU16,
    pub pdb_dll_rbld: u16,
    pub mod_info_size: i32,
    pub section_contribution_size: i32,
    pub section_map_size: i32,
    pub source_info_size: i32,
    pub type_server_map_size: i32,
    /// This field is _not_ a substream size.
    pub mfc_type_server_index: u32,
    pub optional_dbg_header_size: i32,
    pub edit_and_continue_size: i32,
    pub flags: u16,
    pub machine: u16,
    pub padding: u32,
}

/// The header that is decoded from the first 64 bytes of `b`.
pub open spec fn spec_dbi_header(b: Seq<u8>) -> DbiStreamHeader {
    DbiStreamHeader {
        signature: spec_i32_le(b, 0) as i32,
        version: spec_u32_le(b, 4) as u32,
        age: spec_u32_le(b, 8) as u32,
        global_symbol_index_stream: StreamIndexU16(spec_u16_le(b, 12) as u16),
        build_number: spec_u16_le(b, 14) as u16,
        public_symbol_index_stream: StreamIndexU16(spec_u16_le(b, 16) as u16),
        pdb_dll_version: spec_u16_le(b, 18) as u16,
        global_symbol_stream: StreamIndexU16(spec_u16_le(b, 20) as u16),
        pdb_dll_rbld: spec_u16_le(b, 22) as u16,
        mod_info_size: spec_i32_le(b, 24) as i32,
        section_contribution_size: spec_i32_le(b, 28) as i32,
        section_map_size: spec_i32_le(b, 32) as i32,
        source_info_size: spec_i32_le(b, 36) as i32,
        type_server_map_size: spec_i32_le(b, 40) as i32,
        mfc_type_server_index: spec_u32_le(b, 44) as u32,
        optional_dbg_header_size: spec_i32_le(b, 48) as i32,
        edit_and_continue_size: spec_i32_le(b, 52) as i32,
        flags: spec_u16_le(b, 56) as u16,
        machine: spec_u16_le(b, 58) as u16,
        padding: spec_u32_le(b, 60) as u32,
    }
}

/// The contents of the header of an empty DBI stream.
pub const EMPTY_DBI_STREAM_HEADER: [u8; 64] = [
    0xFF, 0xFF, 0xFF, 0xFF, // signature
    0x77, 0x09, 0x31, 0x01, // version
    0x01, 0x00, 0x00, 0x00, // age
    0xFF, 0xFF, // global_stream_index
    0x00, 0x00, // build_number
    0xFF, 0xFF, // public_stream_index
    0x00, 0x00, // pdb_dll_version
    0xFF, 0xFF, // sym_record_stream
    0x00, 0x00, // pdb_dll_rbld
    0x00, 0x00, 0x00, 0x00, // mod_info_size
    0x00, 0x00, 0x00, 0x00, // section_contribution_size
    0x00, 0x00, 0x00, 0x00, // section_map_size
    0x00, 0x00, 0x00, 0x00, // source_info_size
    0x00, 0x00, 0x00, 0x00, // type_server_map_size
    0x00, 0x00, 0x00, 0x00, // mfc_type_server_index
    0x00, 0x00, 0x00, 0x00, // optional_dbg_header_size
    0x00, 0x00, 0x00, 0x00, // edit_and_continue_size
    0x00, 0x00, // flags
    0x00, 0x00, // machine
    0x00, 0x00, 0x00, 0x00, // padding
];

/// Decodes the header from the first 64 bytes of `b`.
fn decode_dbi_header(b: &[u8]) -> (h: DbiStreamHeader)
    requires
        b@.len() >= DBI_STREAM_HEADER_LEN,
    ensures
        h == spec_dbi_header(b@),
{
    DbiStreamHeader {
        signature: read_i32_le(b, 0),
        version: read_u32_le(b, 4),
        age: read_u32_le(b, 8),
        global_symbol_index_stream: StreamIndexU16(read_u16_le(b, 12)),
        build_number: read_u16_le(b, 14),
        public_symbol_index_stream: StreamIndexU16(read_u16_le(b, 16)),
        pdb_dll_version: read_u16_le(b, 18),
        global_symbol_stream: StreamIndexU16(read_u16_le(b, 20)),
        pdb_dll_rbld: read_u16_le(b, 22),
        mod_info_size: read_i32_le(b, 24),
        section_contribution_size: read_i32_le(b, 28),
        section_map_size: read_i32_le(b, 32),
        source_info_size: read_i32_le(b, 36),
        type_server_map_size: read_i32_le(b, 40),
        mfc_type_server_index: read_u32_le(b, 44),
        optional_dbg_header_size: read_i32_le(b, 48),
        edit_and_continue_size: read_i32_le(b, 52),
        flags: read_u16_le(b, 56),
        machine: read_u16_le(b, 58),
        padding: read_u32_le(b, 60),
    }
}

/// The 64 bytes that encode a header, in its little-endian layout.
pub open spec fn spec_header_bytes(h: DbiStreamHeader) -> Seq<u8> {
    spec_i32_le_bytes(h.signature) + spec_u32_le_bytes(h.version) + spec_u32_le_bytes(h.age)
        + spec_u16_le_bytes(h.global_symbol_index_stream.0) + spec_u16_le_bytes(h.build_number)
        + spec_u16_le_bytes(h.public_symbol_index_stream.0) + spec_u16_le_bytes(h.pdb_dll_version)
        + spec_u16_le_bytes(h.global_symbol_stream.0) + spec_u16_le_bytes(h.pdb_dll_rbld)
        + spec_i32_le_bytes(h.mod_info_size) + spec_i32_le_bytes(h.section_contribution_size)
        + spec_i32_le_bytes(h.section_map_size) + spec_i32_le_bytes(h.source_info_size)
        + spec_i32_le_bytes(h.type_server_map_size) + spec_u32_le_bytes(h.mfc_type_server_index)
        + spec_i32_le_bytes(h.optional_dbg_header_size) + spec_i32_le_bytes(
        h.edit_and_continue_size,
    ) + spec_u16_le_bytes(h.flags) + spec_u16_le_bytes(h.machine) + spec_u32_le_bytes(h.padding)
}

/// Encodes a header in its little-endian layout.
fn encode_dbi_header(h: &DbiStreamHeader) -> (r: Vec<u8>)
    ensures
        r@ == spec_header_bytes(*h),
{
    let mut out: Vec<u8> = Vec::new();
    push_i32_le(&mut out, h.signature);
    push_u32_le(&mut out, h.version);
    push_u32_le(&mut out, h.age);
    push_u16_le(&mut out, h.global_symbol_index_stream.0);
    push_u16_le(&mut out, h.build_number);
    push_u16_le(&mut out, h.public_symbol_index_stream.0);
    push_u16_le(&mut out, h.pdb_dll_version);
    push_u16_le(&mut out, h.global_symbol_stream.0);
    push_u16_le(&mut out, h.pdb_dll_rbld);
    push_i32_le(&mut out, h.mod_info_size);
    push_i32_le(&mut out, h.section_contribution_size);
    push_i32_le(&mut out, h.section_map_size);
    push_i32_le(&mut out, h.source_info_size);
    push_i32_le(&mut out, h.type_server_map_size);
    push_u32_le(&mut out, h.mfc_type_server_index);
    push_i32_le(&mut out, h.optional_dbg_header_size);
    push_i32_le(&mut out, h.edit_and_continue_size);
    push_u16_le(&mut out, h.flags);
    push_u16_le(&mut out, h.machine);
    push_u32_le(&mut out, h.padding);
    out
}

/// Reading part 1 of the header's fields back from its encoding.
proof fn lemma_header_fields_1(h: DbiStreamHeader, s: Seq<u8>)
    requires
        s.len() >= DBI_STREAM_HEADER_LEN,
        s.subrange(0, 64) == spec_header_bytes(h),
    ensures
        spec_i32_le(s, 0) == h.signature,
        spec_u32_le(s, 4) == h.version,
        spec_u32_le(s, 8) == h.age,
        spec_u16_le(s, 12) == h.global_symbol_index_stream.0,
        spec_u16_le(s, 14) == h.build_number,
{
    let hb = spec_header_bytes(h);
    assert(s.subrange(0, 4) =~= hb.subrange(0, 4));
    assert(hb.subrange(0, 4) =~= spec_i32_le_bytes(h.signature));
    lemma_i32_read(s, 0, h.signature);
    assert(s.subrange(4, 8) =~= hb.subrange(4, 8));
    assert(hb.subrange(4, 8) =~= spec_u32_le_bytes(h.version));
    lemma_u32_read(s, 4, h.version);
    assert(s.subrange(8, 12) =~= hb.subrange(8, 12));
    assert(hb.subrange(8, 12) =~= spec_u32_le_bytes(h.age));
    lemma_u32_read(s, 8, h.age);
    assert(s.subrange(12, 14) =~= hb.subrange(12, 14));
    assert(hb.subrange(12, 14) =~= spec_u16_le_bytes(h.global_symbol_index_stream.0));
    lemma_u16_read(s, 12, h.global_symbol_index_stream.0);
    assert(s.subrange(14, 16) =~= hb.subrange(14, 16));
    assert(hb.subrange(14, 16) =~= spec_u16_le_bytes(h.build_number));
    lemma_u16_read(s, 14, h.build_number);
}

/// Reading part 2 of the header's fields back from its encoding.
proof fn lemma_header_fields_2(h: DbiStreamHeader, s: Seq<u8>)
    requires
        s.len() >= DBI_STREAM_HEADER_LEN,
        s.subrange(0, 64) == spec_header_bytes(h),
    ensures
        spec_u16_le(s, 16) == h.public_symbol_index_stream.0,
        spec_u16_le(s, 18) == h.pdb_dll_version,
        spec_u16_le(s, 20) == h.global_symbol_stream.0,
        spec_u16_le(s, 22) == h.pdb_dll_rbld,
        spec_i32_le(s, 24) == h.mod_info_size,
{
    let hb = spec_header_bytes(h);
    assert(s.subrange(16, 18) =~= hb.subrange(16, 18));
    assert(hb.subrange(16, 18) =~= spec_u16_le_bytes(h.public_symbol_index_stream.0));
    lemma_u16_read(s, 16, h.public_symbol_index_stream.0);
    assert(s.subrange(18, 20) =~= hb.subrange(18, 20));
    assert(hb.subrange(18, 20) =~= spec_u16_le_bytes(h.pdb_dll_version));
    lemma_u16_read(s, 18, h.pdb_dll_version);
    assert(s.subrange(20, 22) =~= hb.subrange(20, 22));
    assert(hb.subrange(20, 22) =~= spec_u16_le_bytes(h.global_symbol_stream.0));
    lemma_u16_read(s, 20, h.global_symbol_stream.0);
    assert(s.subrange(22, 24) =~= hb.subrange(22, 24));
    assert(hb.subrange(22, 24) =~= spec_u16_le_bytes(h.pdb_dll_rbld));
    lemma_u16_read(s, 22, h.pdb_dll_rbld);
    assert(s.subrange(24, 28) =~= hb.subrange(24, 28));
    assert(hb.subrange(24, 28) =~= spec_i32_le_bytes(h.mod_info_size));
    lemma_i32_read(s, 24, h.mod_info_size);
}

/// Reading part 3 of the header's fields back from its encoding.
proof fn lemma_header_fields_3(h: DbiStreamHeader, s: Seq<u8>)
    requires
        s.len() >= DBI_STREAM_HEADER_LEN,
        s.subrange(0, 64) == spec_header_bytes(h),
    ensures
        spec_i32_le(s, 28) == h.section_contribution_size,
        spec_i32_le(s, 32) == h.section_map_size,
        spec_i32_le(s, 36) == h.source_info_size,
        spec_i32_le(s, 40) == h.type_server_map_size,
        spec_u32_le(s, 44) == h.mfc_type_server_index,
{
    let hb = spec_header_bytes(h);
    assert(s.subrange(28, 32) =~= hb.subrange(28, 32));
    assert(hb.subrange(28, 32) =~= spec_i32_le_bytes(h.section_contribution_size));
    lemma_i32_read(s, 28, h.section_contribution_size);
    assert(s.subrange(32, 36) =~= hb.subrange(32, 36));
    assert(hb.subrange(32, 36) =~= spec_i32_le_bytes(h.section_map_size));
    lemma_i32_read(s, 32, h.section_map_size);
    assert(s.subrange(36, 40) =~= hb.subrange(36, 40));
    assert(hb.subrange(36, 40) =~= spec_i32_le_bytes(h.source_info_size));
    lemma_i32_read(s, 36, h.source_info_size);
    assert(s.subrange(40, 44) =~= hb.subrange(40, 44));
    assert(hb.subrange(40, 44) =~= spec_i32_le_bytes(h.type_server_map_size));
    lemma_i32_read(s, 40, h.type_server_map_size);
    assert(s.subrange(44, 48) =~= hb.subrange(44, 48));
    assert(hb.subrange(44, 48) =~= spec_u32_le_bytes(h.mfc_type_server_index));
    lemma_u32_read(s, 44, h.mfc_type_server_index);
}

/// Reading part 4 of the header's fields back from its encoding.
proof fn lemma_header_fields_4(h: DbiStreamHeader, s: Seq<u8>)
    requires
        s.len() >= DBI_STREAM_HEADER_LEN,
        s.subrange(0, 64) == spec_header_bytes(h),
    ensures
        spec_i32_le(s, 48) == h.optional_dbg_header_size,
        spec_i32_le(s, 52) == h.edit_and_continue_size,
        spec_u16_le(s, 56) == h.flags,
        spec_u16_le(s, 58) == h.machine,
        spec_u32_le(s, 60) == h.padding,
{
    let hb = spec_header_bytes(h);
    assert(s.subrange(48, 52) =~= hb.subrange(48, 52));
    assert(hb.subrange(48, 52) =~= spec_i32_le_bytes(h.optional_dbg_header_size));
    lemma_i32_read(s, 48, h.optional_dbg_header_size);
    assert(s.subrange(52, 56) =~= hb.subrange(52, 56));
    assert(hb.subrange(52, 56) =~= spec_i32_le_bytes(h.edit_and_continue_size));
    lemma_i32_read(s, 52, h.edit_and_continue_size);
    assert(s.subrange(56, 58) =~= hb.subrange(56, 58));
    assert(hb.subrange(56, 58) =~= spec_u16_le_bytes(h.flags));
    lemma_u16_read(s, 56, h.flags);
    assert(s.subrange(58, 60) =~= hb.subrange(58, 60));
    assert(hb.subrange(58, 60) =~= spec_u16_le_bytes(h.machine));
    lemma_u16_read(s, 58, h.machine);
    assert(s.subrange(60, 64) =~= hb.subrange(60, 64));
    assert(hb.subrange(60, 64) =~= spec_u32_le_bytes(h.padding));
    lemma_u32_read(s, 60, h.padding);
}

/// Reading the header back from bytes that start with its encoding gives the header.
pub proof fn lemma_header_roundtrip(h: DbiStreamHeader, rest: Seq<u8>)
    ensures
        spec_header_bytes(h).len() == DBI_STREAM_HEADER_LEN,
        spec_dbi_header(spec_header_bytes(h) + rest) == h,
{
    let s = spec_header_bytes(h) + rest;
    assert(s.subrange(0, 64) =~= spec_header_bytes(h));
    lemma_header_fields_1(h, s);
    lemma_header_fields_2(h, s);
    lemma_header_fields_3(h, s);
    lemma_header_fields_4(h, s);
}

/// Converts a substream length to `u32`; negative lengths have no such value.
fn size_to_u32(x: i32) -> (r: Option<u32>)
    ensures
        x >= 0 ==> r == Some(x as u32),
        x < 0 ==> r is None,
{
    if x < 0 {
        None
    } else {
        Some(x as u32)
    }
}

/// The sum of the lengths of all seven substreams.
pub open spec fn spec_substreams_sum(h: DbiStreamHeader) -> int {
    h.mod_info_size + h.section_contribution_size + h.section_map_size + h.source_info_size
        + h.type_server_map_size + h.optional_dbg_header_size + h.edit_and_continue_size
}

/// No substream length is negative.
pub open spec fn substream_sizes_nonneg(h: DbiStreamHeader) -> bool {
    &&& h.mod_info_size >= 0
    &&& h.section_contribution_size >= 0
    &&& h.section_map_size >= 0
    &&& h.source_info_size >= 0
    &&& h.type_server_map_size >= 0
    &&& h.optional_dbg_header_size >= 0
    &&& h.edit_and_continue_size >= 0
}

/// What `total_substreams_len` returns: the sum of all substream lengths, when no length is
/// negative and the sum fits in a `u32`.
pub open spec fn spec_total_substreams_len(h: DbiStreamHeader) -> Option<u32> {
    if substream_sizes_nonneg(h) && spec_substreams_sum(h) <= u32::MAX {
        Some(spec_substreams_sum(h) as u32)
    } else {
        None
    }
}

impl DbiStreamHeader {
    /// Reads a header from a buffer that holds exactly one header.
    pub fn read_from_bytes(bytes: &[u8]) -> (r: Result<DbiStreamHeader, DbiError>)
        ensures
            bytes@.len() == DBI_STREAM_HEADER_LEN ==> r == Ok::<DbiStreamHeader, DbiError>(
                spec_dbi_header(bytes@),
            ),
            bytes@.len() != DBI_STREAM_HEADER_LEN ==> r == Err::<DbiStreamHeader, DbiError>(
                DbiError::HeaderSizeMismatch { len: bytes@.len() as usize },
            ),
    {
        if bytes.len() != DBI_STREAM_HEADER_LEN {
            return Err(DbiError::HeaderSizeMismatch { len: bytes.len() });
        }
        Ok(decode_dbi_header(bytes))
    }

    /// Reads the header from the start of a buffer that holds at least one header.
    pub fn read_from_prefix(bytes: &[u8]) -> (r: Result<DbiStreamHeader, DbiError>)
        ensures
            bytes@.len() >= DBI_STREAM_HEADER_LEN ==> r == Ok::<DbiStreamHeader, DbiError>(
                spec_dbi_header(bytes@),
            ),
            bytes@.len() < DBI_STREAM_HEADER_LEN ==> r == Err::<DbiStreamHeader, DbiError>(
                DbiError::StreamTooShort { stream_len: bytes@.len() as usize },
            ),
    {
        if bytes.len() < DBI_STREAM_HEADER_LEN {
            return Err(DbiError::StreamTooShort { stream_len: bytes.len() });
        }
        Ok(decode_dbi_header(bytes))
    }

    /// Gets the stream index for the Global Symbol Stream.
    pub fn sym_record_stream(&self) -> (r: Result<u32, StreamIndexIsNilError>)
        ensures
            match r {
                Ok(v) => self.global_symbol_stream.spec_get() == Some(v),
                Err(_) => self.global_symbol_stream.spec_get() is None,
            },
    {
        self.global_symbol_stream.get_err()
    }

    /// Gets the stream index for the Public Symbol Index.
    pub fn public_stream_index(&self) -> (r: Result<u32, StreamIndexIsNilError>)
        ensures
            match r {
                Ok(v) => self.public_symbol_index_stream.spec_get() == Some(v),
                Err(_) => self.public_symbol_index_stream.spec_get() is None,
            },
    {
        self.public_symbol_index_stream.get_err()
    }

    /// Gets the stream index for the Global Symbol Index.
    pub fn global_stream_index(&self) -> (r: Result<u32, StreamIndexIsNilError>)
        ensures
            match r {
                Ok(v) => self.global_symbol_index_stream.spec_get() == Some(v),
                Err(_) => self.global_symbol_index_stream.spec_get() is None,
            },
    {
        self.global_symbol_index_stream.get_err()
    }

    /// Byte range of the Modules substream.
    pub fn modules_range(&self) -> (r: Result<Range<usize>, DbiError>)
        requires
            self.mod_info_size >= 0,
        ensures
            r == Ok::<Range<usize>, DbiError>(
                (Range {
                    start: DBI_STREAM_HEADER_LEN,
                    end: (DBI_STREAM_HEADER_LEN + self.mod_info_size) as usize,
                }),
            ),
    {
        let start = DBI_STREAM_HEADER_LEN;
        let size = self.mod_info_size as usize;
        Ok(Range { start, end: start + size })
    }

    /// Byte range of the Sources substream.
    pub fn sources_range(&self) -> (r: Result<Range<usize>, DbiError>)
        requires
            self.mod_info_size >= 0,
            self.section_contribution_size >= 0,
            self.section_map_size >= 0,
            self.source_info_size >= 0,
            DBI_STREAM_HEADER_LEN + self.mod_info_size + self.section_contribution_size
                + self.section_map_size + self.source_info_size <= usize::MAX,
        ensures
            r == Ok::<Range<usize>, DbiError>(
                (Range {
                    start: (DBI_STREAM_HEADER_LEN + self.mod_info_size
                        + self.section_contribution_size + self.section_map_size) as usize,
                    end: (DBI_STREAM_HEADER_LEN + self.mod_info_size
                        + self.section_contribution_size + self.section_map_size
                        + self.source_info_size) as usize,
                }),
            ),
    {
        let start = DBI_STREAM_HEADER_LEN + self.mod_info_size as usize
            + self.section_contribution_size as usize + self.section_map_size as usize;
        let size = self.source_info_size as usize;
        Ok(Range { start, end: start + size })
    }

    /// The total length of all substreams, or None if this value cannot be computed: when a
    /// length is negative, or when the sum does not fit in a `u32`.
    ///
    /// In a well-formed DBI stream, this value can be computed and the value is at most the
    /// size of the data that follows the DBI Stream Header.
    pub fn total_substreams_len(&self) -> (r: Option<u32>)
        ensures
            r == spec_total_substreams_len(*self),
    {
        let a = size_to_u32(self.mod_info_size)?;
        let b = size_to_u32(self.section_contribution_size)?;
        let c = size_to_u32(self.section_map_size)?;
        let d = size_to_u32(self.source_info_size)?;
        let e = size_to_u32(self.type_server_map_size)?;
        let f = size_to_u32(self.optional_dbg_header_size)?;
        let g = size_to_u32(self.edit_and_continue_size)?;
        a.checked_add(b)?.checked_add(c)?.checked_add(d)?.checked_add(e)?.checked_add(
            f,
        )?.checked_add(g)
    }
}

/// Names one of the substreams of the DBI stream, in the order in which they are stored.
#[derive(Clone, Copy, Debug, PartialEq, Eq)]
pub enum SubstreamKind {
    Modules,
    SectionContributions,
    SectionMap,
    SourceInfo,
    TypeServerMap,
    EditAndContinue,
    OptionalDebugHeader,
}

/// The position of a substream in the order of substreams.
pub open spec fn substream_kind(k: int) -> SubstreamKind {
    if k == 0 {
        SubstreamKind::Modules
    } else if k == 1 {
        SubstreamKind::SectionContributions
    } else if k == 2 {
        SubstreamKind::SectionMap
    } else if k == 3 {
        SubstreamKind::SourceInfo
    } else if k == 4 {
        SubstreamKind::TypeServerMap
    } else if k == 5 {
        SubstreamKind::EditAndContinue
    } else {
        SubstreamKind::OptionalDebugHeader
    }
}

/// Errors found while reading the DBI stream and its substreams.
#[derive(Clone, Copy, Debug, PartialEq, Eq)]
pub enum DbiError {
    /// A header was read from a buffer whose length is not the header's length.
    HeaderSizeMismatch { len: usize },
    /// The DBI stream is too short to contain the header.
    StreamTooShort { stream_len: usize },
    /// The length of a substream in the DBI header is negative.
    SubstreamNegative { substream: SubstreamKind },
    /// The length of a substream in the DBI header extends beyond the end of the stream.
    SubstreamTooLong { substream: SubstreamKind },
    /// A substream is too short for the structures that its own header says it holds.
    SubstreamTruncated { substream: SubstreamKind },
    /// The length of a substream is not a whole number of its records.
    BadSubstreamLength { substream: SubstreamKind },
    /// The Section Contributions substream has a version that is not supported.
    UnsupportedSectionContribsVersion { version: u32 },
    /// The Sources substream and the Modules substream disagree on the number of modules.
    ModuleCountMismatch { sources: usize, modules: usize },
    /// A module index is not below the number of modules.
    ModuleIndexOutOfRange { module_index: usize },
    /// The file name offsets of a module lie outside the table of file name offsets.
    FileNameOffsetsOutOfRange { module_index: usize },
    /// A file name offset lies beyond the end of the names buffer.
    FileNameOffsetOutOfRange { offset: u32 },
    /// A file name is not terminated by a NUL byte.
    FileNameNotTerminated { offset: u32 },
    /// An index is not below the number of entries of the Optional Debug Header.
    OptionalDebugHeaderIndexOutOfRange { index: usize },
}

/// The length that the header gives for the substream at position `k` (0 to 6).
pub open spec fn substream_size(h: DbiStreamHeader, k: int) -> int {
    if k == 0 {
        h.mod_info_size as int
    } else if k == 1 {
        h.section_contribution_size as int
    } else if k == 2 {
        h.section_map_size as int
    } else if k == 3 {
        h.source_info_size as int
    } else if k == 4 {
        h.type_server_map_size as int
    } else if k == 5 {
        h.edit_and_continue_size as int
    } else {
        h.optional_dbg_header_size as int
    }
}

/// The sum of the lengths of the first `k` substreams.
pub open spec fn substream_offset(h: DbiStreamHeader, k: nat) -> int
    decreases k,
{
    if k == 0 {
        0
    } else {
        substream_offset(h, (k - 1) as nat) + substream_size(h, k - 1)
    }
}

/// The substream at position `k` has a non-negative length and ends within a stream of
/// `stream_len` bytes.
pub open spec fn substream_fits(h: DbiStreamHeader, k: int, stream_len: int) -> bool {
    &&& substream_size(h, k) >= 0
    &&& DBI_STREAM_HEADER_LEN + substream_offset(h, (k + 1) as nat) <= stream_len
}

/// All substreams before position `n` fit.
pub open spec fn substreams_fit_before(h: DbiStreamHeader, stream_len: int, n: int) -> bool {
    forall|j: int| 0 <= j < n ==> #[trigger] substream_fits(h, j, stream_len)
}

/// The stream holds the header and every substream that the header describes.
pub open spec fn substreams_fit(h: DbiStreamHeader, stream_len: int) -> bool {
    &&& DBI_STREAM_HEADER_LEN <= stream_len
    &&& substreams_fit_before(h, stream_len, 7)
}

/// The first substream that does not fit.
pub open spec fn first_unfit_substream(h: DbiStreamHeader, stream_len: int) -> int {
    choose|k: int|
        0 <= k < 7 && !substream_fits(h, k, stream_len) && substreams_fit_before(
            h,
            stream_len,
            k,
        )
}

/// The byte range of the substream at position `k`.
pub open spec fn spec_substream_range(h: DbiStreamHeader, k: int) -> Range<usize> {
    Range {
        start: (DBI_STREAM_HEADER_LEN + substream_offset(h, k as nat)) as usize,
        end: (DBI_STREAM_HEADER_LEN + substream_offset(h, (k + 1) as nat)) as usize,
    }
}

/// The ranges of all the substreams that the header describes.
pub open spec fn spec_substream_ranges(h: DbiStreamHeader) -> DbiSubstreamRanges {
    DbiSubstreamRanges {
        modules_bytes: spec_substream_range(h, 0),
        section_contributions_bytes: spec_substream_range(h, 1),
        section_map_bytes: spec_substream_range(h, 2),
        source_info: spec_substream_range(h, 3),
        type_server_map: spec_substream_range(h, 4),
        edit_and_continue: spec_substream_range(h, 5),
        optional_debug_header_bytes: spec_substream_range(h, 6),
    }
}

/// What computing the substream ranges from a header gives for a stream of `stream_len` bytes.
pub open spec fn spec_from_sizes(h: DbiStreamHeader, stream_len: int) -> Result<
    DbiSubstreamRanges,
    DbiError,
> {
    if stream_len < DBI_STREAM_HEADER_LEN {
        Err(DbiError::StreamTooShort { stream_len: stream_len as usize })
    } else if substreams_fit(h, stream_len) {
        Ok(spec_substream_ranges(h))
    } else {
        let k = first_unfit_substream(h, stream_len);
        if substream_size(h, k) < 0 {
            Err(DbiError::SubstreamNegative { substream: substream_kind(k) })
        } else {
            Err(DbiError::SubstreamTooLong { substream: substream_kind(k) })
        }
    }
}

/// `r` lies within a buffer of `len` bytes.
pub open spec fn range_within(r: Range<usize>, len: int) -> bool {
    r.start <= r.end && r.end <= len
}

/// Contains the byte ranges of the substreams within the DBI stream.
#[derive(Debug)]
pub struct DbiSubstreamRanges {
    /// The range of the Modules substream.
    pub modules_bytes: Range<usize>,
    /// The range of the Section Contributions substream.
    pub section_contributions_bytes: Range<usize>,
    /// The range of the Section Map substream.
    pub section_map_bytes: Range<usize>,
    /// The range of the Sources substream.
    pub source_info: Range<usize>,
    /// The range of the Type Server Map substream.
    pub type_server_map: Range<usize>,
    /// The range of the Edit-and-Continue substream.
    pub edit_and_continue: Range<usize>,
    /// The range of the Optional Debug Header substream.
    pub optional_debug_header_bytes: Range<usize>,
}

/// The ranges of an empty DBI stream: every substream is empty and starts at 0.
pub open spec fn spec_empty_ranges() -> DbiSubstreamRanges {
    DbiSubstreamRanges {
        modules_bytes: Range { start: 0, end: 0 },
        section_contributions_bytes: Range { start: 0, end: 0 },
        section_map_bytes: Range { start: 0, end: 0 },
        source_info: Range { start: 0, end: 0 },
        type_server_map: Range { start: 0, end: 0 },
        edit_and_continue: Range { start: 0, end: 0 },
        optional_debug_header_bytes: Range { start: 0, end: 0 },
    }
}

fn copy_range(r: &Range<usize>) -> (out: Range<usize>)
    ensures
        out == *r,
{
    Range { start: r.start, end: r.end }
}

/// The range that the substream of length `size` takes up when it starts at `pos`.
fn substream_range(pos: usize, size: i32, stream_len: usize, kind: SubstreamKind) -> (r: Result<
    Range<usize>,
    DbiError,
>)
    requires
        pos <= stream_len,
    ensures
        size < 0 ==> r == Err::<Range<usize>, DbiError>(
            DbiError::SubstreamNegative { substream: kind },
        ),
        size >= 0 && pos + size > stream_len ==> r == Err::<Range<usize>, DbiError>(
            DbiError::SubstreamTooLong { substream: kind },
        ),
        size >= 0 && pos + size <= stream_len ==> r == Ok::<Range<usize>, DbiError>(
            (Range { start: pos, end: (pos + size) as usize }),
        ),
{
    if size < 0 {
        return Err(DbiError::SubstreamNegative { substream: kind });
    }
    let len = size as usize;
    let available = stream_len - pos;
    if len > available {
        return Err(DbiError::SubstreamTooLong { substream: kind });
    }
    Ok(Range { start: pos, end: pos + len })
}

impl DbiSubstreamRanges {
    /// Every range lies within a buffer of `len` bytes.
    pub open spec fn within(self, len: int) -> bool {
        &&& range_within(self.modules_bytes, len)
        &&& range_within(self.section_contributions_bytes, len)
        &&& range_within(self.section_map_bytes, len)
        &&& range_within(self.source_info, len)
        &&& range_within(self.type_server_map, len)
        &&& range_within(self.edit_and_continue, len)
        &&& range_within(self.optional_debug_header_bytes, len)
    }

    /// The ranges of an empty stream.
    pub fn empty() -> (r: Self)
        ensures
            r == spec_empty_ranges(),
    {
        DbiSubstreamRanges {
            modules_bytes: Range { start: 0, end: 0 },
            section_contributions_bytes: Range { start: 0, end: 0 },
            section_map_bytes: Range { start: 0, end: 0 },
            source_info: Range { start: 0, end: 0 },
            type_server_map: Range { start: 0, end: 0 },
            edit_and_continue: Range { start: 0, end: 0 },
            optional_debug_header_bytes: Range { start: 0, end: 0 },
        }
    }

    /// A copy of these ranges.
    pub fn copy(&self) -> (r: Self)
        ensures
            r == *self,
    {
        DbiSubstreamRanges {
            modules_bytes: copy_range(&self.modules_bytes),
            section_contributions_bytes: copy_range(&self.section_contributions_bytes),
            section_map_bytes: copy_range(&self.section_map_bytes),
            source_info: copy_range(&self.source_info),
            type_server_map: copy_range(&self.type_server_map),
            edit_and_continue: copy_range(&self.edit_and_continue),
            optional_debug_header_bytes: copy_range(&self.optional_debug_header_bytes),
        }
    }

    /// Computes the byte range of every substream from the lengths in the DBI header, for a
    /// stream of `stream_len` bytes. Each substream starts where the one before it ends; the
    /// first starts right after the header. Fails at the first substream whose length is
    /// negative or that would extend beyond the end of the stream.
    pub fn from_sizes(sizes: &DbiStreamHeader, stream_len: usize) -> (r: Result<Self, DbiError>)
        ensures
            r == spec_from_sizes(*sizes, stream_len as int),
    {
        let ghost h = *sizes;
        let ghost len = stream_len as int;
        proof {
            reveal_with_fuel(substream_offset, 8);
        }
        if stream_len < DBI_STREAM_HEADER_LEN {
            return Err(DbiError::StreamTooShort { stream_len });
        }
        let r0 = substream_range(
            DBI_STREAM_HEADER_LEN,
            sizes.mod_info_size,
            stream_len,
            SubstreamKind::Modules,
        );
        let modules_bytes = match r0 {
            Ok(r) => r,
            Err(e) => {
                proof {
                    lemma_first_unfit(h, len, 0);
                }
                return Err(e);
            },
        };
        assert(substream_fits(h, 0, len));
        let r1 = substream_range(
            modules_bytes.end,
            sizes.section_contribution_size,
            stream_len,
            SubstreamKind::SectionContributions,
        );
        let section_contributions_bytes = match r1 {
            Ok(r) => r,
            Err(e) => {
                proof {
                    lemma_first_unfit(h, len, 1);
                }
                return Err(e);
            },
        };
        assert(substream_fits(h, 1, len));
        let r2 = substream_range(
            section_contributions_bytes.end,
            sizes.section_map_size,
            stream_len,
            SubstreamKind::SectionMap,
        );
        let section_map_bytes = match r2 {
            Ok(r) => r,
            Err(e) => {
                proof {
                    lemma_first_unfit(h, len, 2);
                }
                return Err(e);
            },
        };
        assert(substream_fits(h, 2, len));
        let r3 = substream_range(
            section_map_bytes.end,
            sizes.source_info_size,
            stream_len,
            SubstreamKind::SourceInfo,
        );
        let source_info = match r3 {
            Ok(r) => r,
            Err(e) => {
                proof {
                    lemma_first_unfit(h, len, 3);
                }
                return Err(e);
            },
        };
        assert(substream_fits(h, 3, len));
        let r4 = substream_range(
            source_info.end,
            sizes.type_server_map_size,
            stream_len,
            SubstreamKind::TypeServerMap,
        );
        let type_server_map = match r4 {
            Ok(r) => r,
            Err(e) => {
                proof {
                    lemma_first_unfit(h, len, 4);
                }
                return Err(e);
            },
        };
        assert(substream_fits(h, 4, len));
        let r5 = substream_range(
            type_server_map.end,
            sizes.edit_and_continue_size,
            stream_len,
            SubstreamKind::EditAndContinue,
        );
        let edit_and_continue = match r5 {
            Ok(r) => r,
            Err(e) => {
                proof {
                    lemma_first_unfit(h, len, 5);
                }
                return Err(e);
            },
        };
        assert(substream_fits(h, 5, len));
        let r6 = substream_range(
            edit_and_continue.end,
            sizes.optional_dbg_header_size,
            stream_len,
            SubstreamKind::OptionalDebugHeader,
        );
        let optional_debug_header_bytes = match r6 {
            Ok(r) => r,
            Err(e) => {
                proof {
                    lemma_first_unfit(h, len, 6);
                }
                return Err(e);
            },
        };
        assert(substream_fits(h, 6, len));
        assert(substreams_fit(h, len));
        Ok(DbiSubstreamRanges {
            modules_bytes,
            section_contributions_bytes,
            section_map_bytes,
            source_info,
            type_server_map,
            edit_and_continue,
            optional_debug_header_bytes,
        })
    }
}

/// When every substream before `k` fits and `k` does not, `k` is the first substream that does
/// not fit.
proof fn lemma_first_unfit(h: DbiStreamHeader, len: int, k: int)
    requires
        0 <= k < 7,
        DBI_STREAM_HEADER_LEN <= len,
        substreams_fit_before(h, len, k),
        !substream_fits(h, k, len),
    ensures
        first_unfit_substream(h, len) == k,
        !substreams_fit(h, len),
{
    let c = first_unfit_substream(h, len);
    assert(0 <= c < 7 && !substream_fits(h, c, len) && substreams_fit_before(h, len, c));
    if c < k {
        assert(substream_fits(h, c, len));
    }
    if k < c {
        assert(substream_fits(h, k, len));
    }
}

} // verus!

verus! {

/// A buffer that holds the bytes of a stream, owned or borrowed.
pub trait StreamData {
    /// The bytes of the stream.
    spec fn bytes_view(&self) -> Seq<u8>;

    /// The bytes of the stream.
    fn as_bytes(&self) -> (r: &[u8])
        ensures
            r@ == self.bytes_view(),
    ;
}

impl StreamData for Vec<u8> {
    open spec fn bytes_view(&self) -> Seq<u8> {
        self@
    }

    fn as_bytes(&self) -> (r: &[u8]) {
        self.as_slice()
    }
}

impl<'a> StreamData for &'a [u8] {
    open spec fn bytes_view(&self) -> Seq<u8> {
        (*self)@
    }

    fn as_bytes(&self) -> (r: &[u8]) {
        *self
    }
}

/// Holds or refers to the DBI stream.
///
/// The `D` type parameter can be any buffer of bytes, owned (`Vec<u8>`) or borrowed (`&[u8]`).
///
/// This type contains (or refers to) the _entire_ DBI stream, not just the header.
#[derive(Debug)]
pub struct DbiStream<D: StreamData = Vec<u8>> {
    /// The contents of the stream.
    pub stream_data: D,
    /// The byte ranges of the substreams.
    pub substreams: DbiSubstreamRanges,
}

/// What parsing a DBI stream whose bytes are `b` gives for its substream ranges: empty ranges
/// for an empty stream, an error for a stream that is shorter than the header, and otherwise
/// the ranges computed from the header.
pub open spec fn spec_parse_ranges(b: Seq<u8>) -> Result<DbiSubstreamRanges, DbiError> {
    if b.len() == 0 {
        Ok(spec_empty_ranges())
    } else if b.len() < DBI_STREAM_HEADER_LEN {
        Err(DbiError::StreamTooShort { stream_len: b.len() as usize })
    } else {
        spec_from_sizes(spec_dbi_header(b), b.len() as int)
    }
}

impl<D: StreamData> DbiStream<D> {
    /// The substream ranges lie within the stream.
    pub open spec fn wf(&self) -> bool {
        self.substreams.within(self.stream_data.bytes_view().len() as int)
    }

    /// The bytes of the stream.
    pub open spec fn data(&self) -> Seq<u8> {
        self.stream_data.bytes_view()
    }

    /// Read the DBI Stream header and validate it: every substream that the header describes
    /// must lie within the stream. An empty stream is accepted and has empty substreams.
    pub fn parse(stream_data: D) -> (r: Result<Self, DbiError>)
        ensures
            match r {
                Ok(s) => spec_parse_ranges(stream_data.bytes_view()) == Ok::<
                    DbiSubstreamRanges,
                    DbiError,
                >(s.substreams) && s.stream_data == stream_data,
                Err(e) => spec_parse_ranges(stream_data.bytes_view()) == Err::<
                    DbiSubstreamRanges,
                    DbiError,
                >(e),
            },
            r matches Ok(s) ==> s.wf(),
    {
        let stream_bytes: &[u8] = stream_data.as_bytes();
        if stream_bytes.len() == 0 {
            return Ok(DbiStream { substreams: DbiSubstreamRanges::empty(), stream_data });
        }
        let dbi_header = DbiStreamHeader::read_from_prefix(stream_bytes)?;
        let substreams = DbiSubstreamRanges::from_sizes(&dbi_header, stream_bytes.len())?;
        proof {
            lemma_fitting_ranges_within(dbi_header, stream_bytes@.len() as int);
        }
        Ok(DbiStream { stream_data, substreams })
    }

    /// Returns the DBI stream header.
    pub fn header(&self) -> (r: Result<DbiStreamHeader, DbiError>)
        ensures
            self.data().len() >= DBI_STREAM_HEADER_LEN ==> r == Ok::<DbiStreamHeader, DbiError>(
                spec_dbi_header(self.data()),
            ),
            self.data().len() < DBI_STREAM_HEADER_LEN ==> r == Err::<DbiStreamHeader, DbiError>(
                DbiError::StreamTooShort { stream_len: self.data().len() as usize },
            ),
    {
        DbiStreamHeader::read_from_prefix(self.stream_data.as_bytes())
    }

    /// The bytes of the stream within `range`.
    fn substream_data(&self, range: &Range<usize>) -> (r: &[u8])
        requires
            range_within(*range, self.data().len() as int),
        ensures
            r@ == self.data().subrange(range.start as int, range.end as int),
    {
        vstd::slice::slice_subrange(self.stream_data.as_bytes(), range.start, range.end)
    }

    /// The unparsed contents of the Modules substream.
    pub fn modules_bytes(&self) -> (r: &[u8])
        requires
            self.wf(),
        ensures
            r@ == self.data().subrange(
                self.substreams.modules_bytes.start as int,
                self.substreams.modules_bytes.end as int,
            ),
    {
        self.substream_data(&self.substreams.modules_bytes)
    }

    /// The unparsed contents of the Section Contributions substream.
    pub fn section_contributions_bytes(&self) -> (r: &[u8])
        requires
            self.wf(),
        ensures
            r@ == self.data().subrange(
                self.substreams.section_contributions_bytes.start as int,
                self.substreams.section_contributions_bytes.end as int,
            ),
    {
        self.substream_data(&self.substreams.section_contributions_bytes)
    }

    /// The unparsed contents of the Section Map substream.
    pub fn section_map_bytes(&self) -> (r: &[u8])
        requires
            self.wf(),
        ensures
            r@ == self.data().subrange(
                self.substreams.section_map_bytes.start as int,
                self.substreams.section_map_bytes.end as int,
            ),
    {
        self.substream_data(&self.substreams.section_map_bytes)
    }

    /// The unparsed contents of the Sources substream.
    pub fn source_info(&self) -> (r: &[u8])
        requires
            self.wf(),
        ensures
            r@ == self.data().subrange(
                self.substreams.source_info.start as int,
                self.substreams.source_info.end as int,
            ),
    {
        self.substream_data(&self.substreams.source_info)
    }

    /// The unparsed contents of the Type Server Map substream.
    pub fn type_server_map(&self) -> (r: &[u8])
        requires
            self.wf(),
        ensures
            r@ == self.data().subrange(
                self.substreams.type_server_map.start as int,
                self.substreams.type_server_map.end as int,
            ),
    {
        self.substream_data(&self.substreams.type_server_map)
    }

    /// The unparsed contents of the Edit-and-Continue substream.
    pub fn edit_and_continue(&self) -> (r: &[u8])
        requires
            self.wf(),
        ensures
            r@ == self.data().subrange(
                self.substreams.edit_and_continue.start as int,
                self.substreams.edit_and_continue.end as int,
            ),
    {
        self.substream_data(&self.substreams.edit_and_continue)
    }

    /// The unparsed contents of the Optional Debug Header substream.
    pub fn optional_debug_header_bytes(&self) -> (r: &[u8])
        requires
            self.wf(),
        ensures
            r@ == self.data().subrange(
                self.substreams.optional_debug_header_bytes.start as int,
                self.substreams.optional_debug_header_bytes.end as int,
            ),
    {
        self.substream_data(&self.substreams.optional_debug_header_bytes)
    }

    /// Return a DbiStream over just a reference to the stream data.
    pub fn as_slice(&self) -> (r: DbiStream<&[u8]>)
        ensures
            r.data() == self.data(),
            r.substreams == self.substreams,
    {
        DbiStream { stream_data: self.stream_data.as_bytes(), substreams: self.substreams.copy() }
    }

    /// The bytes of the substream whose range is `r`.
    pub open spec fn substream_bytes(&self, r: Range<usize>) -> Seq<u8> {
        self.data().subrange(r.start as int, r.end as int)
    }

    /// Reads the Module Information substream.
    pub fn modules(&self) -> (r: ModInfoSubstream<&[u8]>)
        requires
            self.wf(),
        ensures
            r.substream_data@ == self.substream_bytes(self.substreams.modules_bytes),
    {
        ModInfoSubstream { substream_data: self.modules_bytes() }
    }

    /// The Module Info records of the Module Information substream, in order.
    pub fn iter_modules(&self) -> (r: Vec<ModuleInfo>)
        requires
            self.wf(),
        ensures
            module_views(r@) == spec_modules_from(
                self.substream_bytes(self.substreams.modules_bytes),
                0,
            ),
    {
        read_modules(self.modules_bytes())
    }

    /// Parses the Sources substream.
    pub fn sources(&self) -> (r: Result<DbiSourcesSubstream, DbiError>)
        requires
            self.wf(),
        ensures
            match spec_parse_sources(self.substream_bytes(self.substreams.source_info)) {
                Ok(v) => r matches Ok(s) && s@ == v,
                Err(e) => r == Err::<DbiSourcesSubstream, DbiError>(e),
            },
    {
        DbiSourcesSubstream::parse(self.source_info())
    }

    /// Parses the header of the Section Contributions substream and decodes its records.
    pub fn section_contributions(&self) -> (r: Result<SectionContributionsSubstream, DbiError>)
        requires
            self.wf(),
        ensures
            match spec_parse_section_contributions(
                self.substream_bytes(self.substreams.section_contributions_bytes),
            ) {
                Ok(c) => r matches Ok(s) && s.contribs@ == c,
                Err(e) => r == Err::<SectionContributionsSubstream, DbiError>(e),
            },
    {
        SectionContributionsSubstream::parse(self.section_contributions_bytes())
    }

    /// Parses the Section Map substream.
    pub fn section_map(&self) -> (r: Result<SectionMap, DbiError>)
        requires
            self.wf(),
        ensures
            match spec_parse_section_map(self.substream_bytes(self.substreams.section_map_bytes)) {
                Ok((h, es)) => r matches Ok(m) && m.header == h && m.entries@ == es,
                Err(e) => r == Err::<SectionMap, DbiError>(e),
            },
    {
        SectionMap::parse(self.section_map_bytes())
    }

    /// Parses the Optional Debug Header substream.
    pub fn optional_debug_header(&self) -> (r: Result<OptionalDebugHeader, DbiError>)
        requires
            self.wf(),
        ensures
            match spec_parse_optional_debug_header(
                self.substream_bytes(self.substreams.optional_debug_header_bytes),
            ) {
                Ok(v) => r matches Ok(h) && h.stream_indexes@ == v,
                Err(e) => r == Err::<OptionalDebugHeader, DbiError>(e),
            },
    {
        OptionalDebugHeader::parse(self.optional_debug_header_bytes())
    }
}

/// What validating the DBI stream `b` gives: the stream must parse, its Sources substream must
/// parse, and the Sources substream must describe as many modules as the Modules substream
/// holds records.
pub open spec fn spec_validate_dbi_stream(b: Seq<u8>) -> Result<(), DbiError> {
    match spec_parse_ranges(b) {
        Err(e) => Err(e),
        Ok(r) => {
            let num_modules = spec_modules_from(
                b.subrange(r.modules_bytes.start as int, r.modules_bytes.end as int),
                0,
            ).len();
            match spec_parse_sources(b.subrange(r.source_info.start as int, r.source_info.end as int)) {
                Err(e) => Err(e),
                Ok(v) => if v.module_file_starts.len() != num_modules {
                    Err(
                        DbiError::ModuleCountMismatch {
                            sources: v.module_file_starts.len() as usize,
                            modules: num_modules as usize,
                        },
                    )
                } else {
                    Ok(())
                },
            }
        },
    }
}

/// Reads the header of a DBI stream without validating it: an empty stream stands for the
/// header of an empty DBI stream, a stream shorter than a header cannot be read, and otherwise
/// the header is decoded from the first 64 bytes.
pub fn read_dbi_stream_header(stream: &[u8]) -> (r: Result<DbiStreamHeader, DbiError>)
    ensures
        stream@.len() == 0 ==> r == Ok::<DbiStreamHeader, DbiError>(
            spec_dbi_header(EMPTY_DBI_STREAM_HEADER@),
        ),
        0 < stream@.len() < DBI_STREAM_HEADER_LEN ==> r == Err::<DbiStreamHeader, DbiError>(
            DbiError::StreamTooShort { stream_len: stream@.len() as usize },
        ),
        stream@.len() >= DBI_STREAM_HEADER_LEN ==> r == Ok::<DbiStreamHeader, DbiError>(
            spec_dbi_header(stream@),
        ),
{
    if stream.len() == 0 {
        DbiStreamHeader::read_from_bytes(EMPTY_DBI_STREAM_HEADER.as_slice())
    } else {
        DbiStreamHeader::read_from_prefix(stream)
    }
}

impl DbiStream<Vec<u8>> {
    /// Writes `header` over the header of the stream, in its little-endian layout. The
    /// substream ranges stay as they were computed. A stream too short to hold a header is left
    /// alone, with an error.
    pub fn header_mut(&mut self, header: &DbiStreamHeader) -> (r: Result<(), DbiError>)
        ensures
            final(self).substreams == old(self).substreams,
            old(self).data().len() < DBI_STREAM_HEADER_LEN ==> r == Err::<(), DbiError>(
                DbiError::StreamTooShort { stream_len: old(self).data().len() as usize },
            ) && final(self).data() == old(self).data(),
            old(self).data().len() >= DBI_STREAM_HEADER_LEN ==> r is Ok && final(self).data()
                == spliced(old(self).data(), 0, spec_header_bytes(*header)),
            old(self).data().len() >= DBI_STREAM_HEADER_LEN ==> spec_dbi_header(final(self).data())
                == *header,
            final(self).data().len() == old(self).data().len(),
    {
        if self.stream_data.len() < DBI_STREAM_HEADER_LEN {
            return Err(DbiError::StreamTooShort { stream_len: self.stream_data.len() });
        }
        let bytes = encode_dbi_header(header);
        write_bytes(&mut self.stream_data, 0, bytes.as_slice());
        proof {
            let d = old(self).data();
            lemma_header_roundtrip(*header, d.subrange(64, d.len() as int));
            assert(spliced(d, 0, spec_header_bytes(*header)) =~= spec_header_bytes(*header)
                + d.subrange(64, d.len() as int));
        }
        Ok(())
    }

    /// Writes `header` over the fixed part of the Module Info record of module `module_index`,
    /// in its little-endian layout; the names and the other records stay as they are. An index
    /// past the records leaves the stream alone, with an error.
    pub fn iter_modules_mut(&mut self, module_index: usize, header: &ModuleInfoFixed) -> (r: Result<
        (),
        DbiError,
    >)
        requires
            old(self).wf(),
        ensures
            final(self).substreams == old(self).substreams,
            final(self).data().len() == old(self).data().len(),
            ({
                let range = old(self).substreams.modules_bytes;
                let mods = spec_modules_from(old(self).substream_bytes(range), 0);
                if module_index < mods.len() {
                    let at = mods[module_index as int].record_start;
                    &&& r is Ok
                    &&& final(self).data() == spliced(
                        old(self).data(),
                        range.start + at,
                        spec_module_fixed_bytes(*header),
                    )
                    &&& spec_module_fixed(final(self).substream_bytes(range), at) == *header
                } else {
                    r == Err::<(), DbiError>(DbiError::ModuleIndexOutOfRange { module_index })
                        && final(self).data() == old(self).data()
                }
            }),
    {
        let modules = self.iter_modules();
        if module_index >= modules.len() {
            return Err(DbiError::ModuleIndexOutOfRange { module_index });
        }
        let at = modules[module_index].record_start;
        let start = self.substreams.modules_bytes.start;
        let ghost range = old(self).substreams.modules_bytes;
        proof {
            let b = old(self).substream_bytes(range);
            assert(module_views(modules@)[module_index as int] == modules@[module_index as int]@);
            lemma_record_fixed_within(b, module_index as int);
        }
        let bytes = encode_module_fixed(header);
        write_bytes(&mut self.stream_data, start + at, bytes.as_slice());
        proof {
            let d = old(self).data();
            let e = spec_module_fixed_bytes(*header);
            lemma_splice_inside(d, range.start as int, range.end as int, at as int, e);
            let nb = self.substream_bytes(range);
            assert(nb.subrange(at as int, at + 64) =~= e);
            lemma_module_fixed_roundtrip(*header, nb, at as int);
        }
        Ok(())
    }

    /// Writes `value` over entry `index` of the Optional Debug Header, in its little-endian
    /// layout. A substream of odd length, or an index past its entries, leaves the stream alone,
    /// with an error.
    pub fn optional_debug_header_mut(&mut self, index: usize, value: u16) -> (r: Result<
        (),
        DbiError,
    >)
        requires
            old(self).wf(),
        ensures
            final(self).substreams == old(self).substreams,
            final(self).data().len() == old(self).data().len(),
            ({
                let range = old(self).substreams.optional_debug_header_bytes;
                let b = old(self).substream_bytes(range);
                if b.len() % 2 != 0 {
                    r == Err::<(), DbiError>(
                        DbiError::BadSubstreamLength { substream: SubstreamKind::OptionalDebugHeader },
                    ) && final(self).data() == old(self).data()
                } else if index >= b.len() / 2 {
                    r == Err::<(), DbiError>(
                        DbiError::OptionalDebugHeaderIndexOutOfRange { index },
                    ) && final(self).data() == old(self).data()
                } else {
                    &&& r is Ok
                    &&& final(self).data() == spliced(
                        old(self).data(),
                        range.start + 2 * index,
                        spec_u16_le_bytes(value),
                    )
                    &&& spec_parse_optional_debug_header(final(self).substream_bytes(range)) == Ok::<
                        Seq<StreamIndexU16>,
                        DbiError,
                    >(spec_optional_streams(b).update(index as int, StreamIndexU16(value)))
                }
            }),
    {
        let start = self.substreams.optional_debug_header_bytes.start;
        let len = self.substreams.optional_debug_header_bytes.end - start;
        if len % 2 != 0 {
            return Err(DbiError::BadSubstreamLength { substream: SubstreamKind::OptionalDebugHeader });
        }
        if index >= len / 2 {
            return Err(DbiError::OptionalDebugHeaderIndexOutOfRange { index });
        }
        let mut bytes: Vec<u8> = Vec::new();
        push_u16_le(&mut bytes, value);
        let pos = start + 2 * index;
        write_bytes(&mut self.stream_data, pos, bytes.as_slice());
        proof {
            let range = old(self).substreams.optional_debug_header_bytes;
            let b = old(self).substream_bytes(range);
            let nb = self.substream_bytes(range);
            let e = spec_u16_le_bytes(value);
            assert(nb =~= spliced(b, 2 * index as int, e));
            let want = spec_optional_streams(b).update(index as int, StreamIndexU16(value));
            assert forall|i: int| 0 <= i < want.len() implies spec_optional_streams(nb)[i] == want[i] by {
                if i == index {
                    assert(nb[2 * i] == e[0]);
                    assert(nb[2 * i + 1] == e[1]);
                } else {
                    assert(nb[2 * i] == b[2 * i]);
                    assert(nb[2 * i + 1] == b[2 * i + 1]);
                }
            }
            assert(spec_optional_streams(nb) =~= want);
        }
        Ok(())
    }
}

/// Reads fields of the DBI Stream and validates them for consistency with the specification:
/// for now, that the Sources substream describes as many modules as the Modules substream holds.
pub fn validate_dbi_stream(stream_data: &[u8]) -> (r: Result<(), DbiError>)
    ensures
        r == spec_validate_dbi_stream(stream_data@),
        r is Ok ==> validated_counts_agree(stream_data@),
{
    let dbi_stream = DbiStream::parse(stream_data)?;
    let num_modules: usize = dbi_stream.iter_modules().len();
    let sources = dbi_stream.sources()?;
    if sources.num_modules() != num_modules {
        return Err(
            DbiError::ModuleCountMismatch { sources: sources.num_modules(), modules: num_modules },
        );
    }
    proof {
        lemma_validation_checks_module_count(stream_data@);
    }
    Ok(())
}

/// The stream parses, its Sources substream parses, and the Sources substream describes exactly
/// as many modules as the Modules substream holds records.
pub open spec fn validated_counts_agree(b: Seq<u8>) -> bool {
    spec_parse_ranges(b) matches Ok(r) && spec_parse_sources(
        b.subrange(r.source_info.start as int, r.source_info.end as int),
    ) matches Ok(v) && v.module_file_starts.len() == spec_modules_from(
        b.subrange(r.modules_bytes.start as int, r.modules_bytes.end as int),
        0,
    ).len()
}

/// Validation accepts a stream exactly when it parses, its Sources substream parses and the two
/// substreams agree on the number of modules; when they disagree, in either direction, the
/// error gives both counts.
pub proof fn lemma_validation_checks_module_count(b: Seq<u8>)
    ensures
        spec_validate_dbi_stream(b) is Ok <==> validated_counts_agree(b),
        spec_parse_ranges(b) matches Ok(r) ==> (spec_parse_sources(
            b.subrange(r.source_info.start as int, r.source_info.end as int),
        ) matches Ok(v) ==> ({
            let n = spec_modules_from(
                b.subrange(r.modules_bytes.start as int, r.modules_bytes.end as int),
                0,
            ).len();
            (v.module_file_starts.len() < n || v.module_file_starts.len() > n)
                ==> spec_validate_dbi_stream(b) == Err::<(), DbiError>(
                DbiError::ModuleCountMismatch {
                    sources: v.module_file_starts.len() as usize,
                    modules: n as usize,
                },
            )
        })),
{
}

/// When every substream fits, the computed ranges lie within the stream.
proof fn lemma_fitting_ranges_within(h: DbiStreamHeader, len: int)
    requires
        substreams_fit(h, len),
        len <= usize::MAX,
    ensures
        spec_substream_ranges(h).within(len),
{
    reveal_with_fuel(substream_offset, 8);
    assert(substream_fits(h, 0, len));
    assert(substream_fits(h, 1, len));
    assert(substream_fits(h, 2, len));
    assert(substream_fits(h, 3, len));
    assert(substream_fits(h, 4, len));
    assert(substream_fits(h, 5, len));
    assert(substream_fits(h, 6, len));
}

} // verus!

verus! {

/// The substreams of a valid DBI stream tile it: the first starts right after the header, each
/// next one starts where the one before it ends, each is as long as its length in the header,
/// and the last ends within the stream. When the stream is at most 4 GiB past the header, the
/// sum of the lengths that `total_substreams_len` gives is the length of that tiling.
pub proof fn lemma_substreams_tile_stream(h: DbiStreamHeader, stream_len: int)
    requires
        stream_len <= usize::MAX,
        spec_from_sizes(h, stream_len) is Ok,
    ensures
        ({
            let r = spec_from_sizes(h, stream_len)->Ok_0;
            &&& r.modules_bytes.start == DBI_STREAM_HEADER_LEN
            &&& r.modules_bytes.end == r.section_contributions_bytes.start
            &&& r.section_contributions_bytes.end == r.section_map_bytes.start
            &&& r.section_map_bytes.end == r.source_info.start
            &&& r.source_info.end == r.type_server_map.start
            &&& r.type_server_map.end == r.edit_and_continue.start
            &&& r.edit_and_continue.end == r.optional_debug_header_bytes.start
            &&& r.optional_debug_header_bytes.end <= stream_len
            &&& r.modules_bytes.end - r.modules_bytes.start == h.mod_info_size
            &&& r.section_contributions_bytes.end - r.section_contributions_bytes.start
                == h.section_contribution_size
            &&& r.section_map_bytes.end - r.section_map_bytes.start == h.section_map_size
            &&& r.source_info.end - r.source_info.start == h.source_info_size
            &&& r.type_server_map.end - r.type_server_map.start == h.type_server_map_size
            &&& r.edit_and_continue.end - r.edit_and_continue.start == h.edit_and_continue_size
            &&& r.optional_debug_header_bytes.end - r.optional_debug_header_bytes.start
                == h.optional_dbg_header_size
            &&& stream_len - DBI_STREAM_HEADER_LEN <= u32::MAX ==> spec_total_substreams_len(h)
                == Some((r.optional_debug_header_bytes.end - DBI_STREAM_HEADER_LEN) as u32)
        }),
{
    reveal_with_fuel(substream_offset, 8);
    assert(substreams_fit(h, stream_len));
    assert(substream_fits(h, 0, stream_len));
    assert(substream_fits(h, 1, stream_len));
    assert(substream_fits(h, 2, stream_len));
    assert(substream_fits(h, 3, stream_len));
    assert(substream_fits(h, 4, stream_len));
    assert(substream_fits(h, 5, stream_len));
    assert(substream_fits(h, 6, stream_len));
}

/// For a valid DBI stream, the ranges that `modules_range` and `sources_range` compute from the
/// header alone are the ranges of the Modules and Sources substreams that parsing finds.
pub proof fn lemma_header_ranges_match_parse(h: DbiStreamHeader, stream_len: int)
    requires
        stream_len <= usize::MAX,
        spec_from_sizes(h, stream_len) is Ok,
    ensures
        h.mod_info_size >= 0,
        h.section_contribution_size >= 0,
        h.section_map_size >= 0,
        h.source_info_size >= 0,
        DBI_STREAM_HEADER_LEN + h.mod_info_size + h.section_contribution_size + h.section_map_size
            + h.source_info_size <= usize::MAX,
        spec_from_sizes(h, stream_len)->Ok_0.modules_bytes == (Range {
            start: DBI_STREAM_HEADER_LEN,
            end: (DBI_STREAM_HEADER_LEN + h.mod_info_size) as usize,
        }),
        spec_from_sizes(h, stream_len)->Ok_0.source_info == (Range {
            start: (DBI_STREAM_HEADER_LEN + h.mod_info_size + h.section_contribution_size
                + h.section_map_size) as usize,
            end: (DBI_STREAM_HEADER_LEN + h.mod_info_size + h.section_contribution_size
                + h.section_map_size + h.source_info_size) as usize,
        }),
{
    reveal_with_fuel(substream_offset, 8);
    assert(substreams_fit(h, stream_len));
    assert(substream_fits(h, 0, stream_len));
    assert(substream_fits(h, 1, stream_len));
    assert(substream_fits(h, 2, stream_len));
    assert(substream_fits(h, 3, stream_len));
    lemma_substreams_tile_stream(h, stream_len);
}

} // verus!
