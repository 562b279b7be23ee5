//! The Modules substream of the DBI stream.
//!
//! The substream is a sequence of Module Info records, one per module (compiland). Each record
//! is a fixed 64-byte part, followed by the NUL-terminated module name and the NUL-terminated
//! object file name; the next record starts at the next multiple of 4 bytes.

use crate::bytes::{
    find_nul, lemma_i32_read, lemma_nul_index_bounds, lemma_u16_read, lemma_u32_read, nul_index,
    push_i32_le, push_u16_le, push_u32_le, read_u16_le, read_u32_le, spec_i32_le,
    spec_i32_le_bytes, spec_u16_le, spec_u16_le_bytes, spec_u32_le, spec_u32_le_bytes,
};
use crate::dbi::section_contrib::{read_section_contrib, spec_section_contrib, SectionContribEntry};
use crate::dbi::StreamData;
use crate::stream_index::StreamIndexU16;
use vstd::prelude::*;

verus! {

/// The length of the fixed part of a Module Info record.
pub const MODULE_INFO_FIXED_LEN: usize = 64;

/// The fixed part of a Module Info record.
#[derive(Clone, Copy, Debug, PartialEq, Eq)]
pub struct ModuleInfoFixed {
    pub unused1: u32,
    /// The first section contribution of the module.
    pub section_contrib: SectionContribEntry,
    pub flags: u16,
    /// The stream that holds the symbols and line data of the module.
    pub stream: StreamIndexU16,
    /// The length of the symbol data in the module stream.
    pub sym_byte_size: u32,
    /// The length of the C11 line data in the module stream.
    pub c11_byte_size: u32,
    /// The length of the C13 line data in the module stream.
    pub c13_byte_size: u32,
    /// The number of source files of the module.
    pub source_file_count: u16,
    pub padding: u16,
    pub unused2: u32,
    pub source_file_name_index: u32,
    pub pdb_file_path_name_index: u32,
}

/// The fixed part that is decoded from the 64 bytes of `b` at `pos`.
pub open spec fn spec_module_fixed(b: Seq<u8>, pos: int) -> ModuleInfoFixed {
    ModuleInfoFixed {
        unused1: spec_u32_le(b, pos) as u32,
        section_contrib: spec_section_contrib(b, pos + 4),
        flags: spec_u16_le(b, pos + 32) as u16,
        stream: StreamIndexU16(spec_u16_le(b, pos + 34) as u16),
        sym_byte_size: spec_u32_le(b, pos + 36) as u32,
        c11_byte_size: spec_u32_le(b, pos + 40) as u32,
        c13_byte_size: spec_u32_le(b, pos + 44) as u32,
        source_file_count: spec_u16_le(b, pos + 48) as u16,
        padding: spec_u16_le(b, pos + 50) as u16,
        unused2: spec_u32_le(b, pos + 52) as u32,
        source_file_name_index: spec_u32_le(b, pos + 56) as u32,
        pdb_file_path_name_index: spec_u32_le(b, pos + 60) as u32,
    }
}

/// Decodes the fixed part at `pos`.
fn read_module_fixed(b: &[u8], pos: usize) -> (r: ModuleInfoFixed)
    requires
        pos + MODULE_INFO_FIXED_LEN <= b.len(),
    ensures
        r == spec_module_fixed(b@, pos as int),
{
    ModuleInfoFixed {
        unused1: read_u32_le(b, pos),
        section_contrib: read_section_contrib(b, pos + 4),
        flags: read_u16_le(b, pos + 32),
        stream: StreamIndexU16(read_u16_le(b, pos + 34)),
        sym_byte_size: read_u32_le(b, pos + 36),
        c11_byte_size: read_u32_le(b, pos + 40),
        c13_byte_size: read_u32_le(b, pos + 44),
        source_file_count: read_u16_le(b, pos + 48),
        padding: read_u16_le(b, pos + 50),
        unused2: read_u32_le(b, pos + 52),
        source_file_name_index: read_u32_le(b, pos + 56),
        pdb_file_path_name_index: read_u32_le(b, pos + 60),
    }
}

/// The 64 bytes that encode the fixed part of a Module Info record, in its little-endian layout.
pub open spec fn spec_module_fixed_bytes(m: ModuleInfoFixed) -> Seq<u8> {
    spec_u32_le_bytes(m.unused1)
        + spec_u16_le_bytes(m.section_contrib.section)
        + spec_u16_le_bytes(m.section_contrib.padding1)
        + spec_i32_le_bytes(m.section_contrib.offset)
        + spec_i32_le_bytes(m.section_contrib.size)
        + spec_u32_le_bytes(m.section_contrib.characteristics)
        + spec_u16_le_bytes(m.section_contrib.module_index)
        + spec_u16_le_bytes(m.section_contrib.padding2)
        + spec_u32_le_bytes(m.section_contrib.data_crc)
        + spec_u32_le_bytes(m.section_contrib.reloc_crc)
        + spec_u16_le_bytes(m.flags)
        + spec_u16_le_bytes(m.stream.0)
        + spec_u32_le_bytes(m.sym_byte_size)
        + spec_u32_le_bytes(m.c11_byte_size)
        + spec_u32_le_bytes(m.c13_byte_size)
        + spec_u16_le_bytes(m.source_file_count)
        + spec_u16_le_bytes(m.padding)
        + spec_u32_le_bytes(m.unused2)
        + spec_u32_le_bytes(m.source_file_name_index)
        + spec_u32_le_bytes(m.pdb_file_path_name_index)
}

/// Encodes the fixed part of a Module Info record.
pub(crate) fn encode_module_fixed(m: &ModuleInfoFixed) -> (r: Vec<u8>)
    ensures
        r@ == spec_module_fixed_bytes(*m),
{
    let mut out: Vec<u8> = Vec::new();
    push_u32_le(&mut out, m.unused1);
    push_u16_le(&mut out, m.section_contrib.section);
    push_u16_le(&mut out, m.section_contrib.padding1);
    push_i32_le(&mut out, m.section_contrib.offset);
    push_i32_le(&mut out, m.section_contrib.size);
    push_u32_le(&mut out, m.section_contrib.characteristics);
    push_u16_le(&mut out, m.section_contrib.module_index);
    push_u16_le(&mut out, m.section_contrib.padding2);
    push_u32_le(&mut out, m.section_contrib.data_crc);
    push_u32_le(&mut out, m.section_contrib.reloc_crc);
    push_u16_le(&mut out, m.flags);
    push_u16_le(&mut out, m.stream.0);
    push_u32_le(&mut out, m.sym_byte_size);
    push_u32_le(&mut out, m.c11_byte_size);
    push_u32_le(&mut out, m.c13_byte_size);
    push_u16_le(&mut out, m.source_file_count);
    push_u16_le(&mut out, m.padding);
    push_u32_le(&mut out, m.unused2);
    push_u32_le(&mut out, m.source_file_name_index);
    push_u32_le(&mut out, m.pdb_file_path_name_index);
    out
}

/// Reading part 1 of the fields of a fixed part back from its encoding.
proof fn lemma_module_fixed_fields_1(m: ModuleInfoFixed, s: Seq<u8>, pos: int)
    requires
        0 <= pos,
        pos + 64 <= s.len(),
        s.subrange(pos, pos + 64) == spec_module_fixed_bytes(m),
    ensures
        spec_u32_le(s, pos + 0) == m.unused1,
        spec_u16_le(s, pos + 4) == m.section_contrib.section,
        spec_u16_le(s, pos + 6) == m.section_contrib.padding1,
        spec_i32_le(s, pos + 8) == m.section_contrib.offset,
        spec_i32_le(s, pos + 12) == m.section_contrib.size,
{
    let mb = spec_module_fixed_bytes(m);
    assert(s.subrange(pos + 0, pos + 4) =~= mb.subrange(0, 4));
    assert(mb.subrange(0, 4) =~= spec_u32_le_bytes(m.unused1));
    lemma_u32_read(s, pos + 0, m.unused1);
    assert(s.subrange(pos + 4, pos + 6) =~= mb.subrange(4, 6));
    assert(mb.subrange(4, 6) =~= spec_u16_le_bytes(m.section_contrib.section));
    lemma_u16_read(s, pos + 4, m.section_contrib.section);
    assert(s.subrange(pos + 6, pos + 8) =~= mb.subrange(6, 8));
    assert(mb.subrange(6, 8) =~= spec_u16_le_bytes(m.section_contrib.padding1));
    lemma_u16_read(s, pos + 6, m.section_contrib.padding1);
    assert(s.subrange(pos + 8, pos + 12) =~= mb.subrange(8, 12));
    assert(mb.subrange(8, 12) =~= spec_i32_le_bytes(m.section_contrib.offset));
    lemma_i32_read(s, pos + 8, m.section_contrib.offset);
    assert(s.subrange(pos + 12, pos + 16) =~= mb.subrange(12, 16));
    assert(mb.subrange(12, 16) =~= spec_i32_le_bytes(m.section_contrib.size));
    lemma_i32_read(s, pos + 12, m.section_contrib.size);
}

/// Reading part 2 of the fields of a fixed part back from its encoding.
proof fn lemma_module_fixed_fields_2(m: ModuleInfoFixed, s: Seq<u8>, pos: int)
    requires
        0 <= pos,
        pos + 64 <= s.len(),
        s.subrange(pos, pos + 64) == spec_module_fixed_bytes(m),
    ensures
        spec_u32_le(s, pos + 16) == m.section_contrib.characteristics,
        spec_u16_le(s, pos + 20) == m.section_contrib.module_index,
        spec_u16_le(s, pos + 22) == m.section_contrib.padding2,
        spec_u32_le(s, pos + 24) == m.section_contrib.data_crc,
        spec_u32_le(s, pos + 28) == m.section_contrib.reloc_crc,
{
    let mb = spec_module_fixed_bytes(m);
    assert(s.subrange(pos + 16, pos + 20) =~= mb.subrange(16, 20));
    assert(mb.subrange(16, 20) =~= spec_u32_le_bytes(m.section_contrib.characteristics));
    lemma_u32_read(s, pos + 16, m.section_contrib.characteristics);
    assert(s.subrange(pos + 20, pos + 22) =~= mb.subrange(20, 22));
    assert(mb.subrange(20, 22) =~= spec_u16_le_bytes(m.section_contrib.module_index));
    lemma_u16_read(s, pos + 20, m.section_contrib.module_index);
    assert(s.subrange(pos + 22, pos + 24) =~= mb.subrange(22, 24));
    assert(mb.subrange(22, 24) =~= spec_u16_le_bytes(m.section_contrib.padding2));
    lemma_u16_read(s, pos + 22, m.section_contrib.padding2);
    assert(s.subrange(pos + 24, pos + 28) =~= mb.subrange(24, 28));
    assert(mb.subrange(24, 28) =~= spec_u32_le_bytes(m.section_contrib.data_crc));
    lemma_u32_read(s, pos + 24, m.section_contrib.data_crc);
    assert(s.subrange(pos + 28, pos + 32) =~= mb.subrange(28, 32));
    assert(mb.subrange(28, 32) =~= spec_u32_le_bytes(m.section_contrib.reloc_crc));
    lemma_u32_read(s, pos + 28, m.section_contrib.reloc_crc);
}

/// Reading part 3 of the fields of a fixed part back from its encoding.
proof fn lemma_module_fixed_fields_3(m: ModuleInfoFixed, s: Seq<u8>, pos: int)
    requires
        0 <= pos,
        pos + 64 <= s.len(),
        s.subrange(pos, pos + 64) == spec_module_fixed_bytes(m),
    ensures
        spec_u16_le(s, pos + 32) == m.flags,
        spec_u16_le(s, pos + 34) == m.stream.0,
        spec_u32_le(s, pos + 36) == m.sym_byte_size,
        spec_u32_le(s, pos + 40) == m.c11_byte_size,
        spec_u32_le(s, pos + 44) == m.c13_byte_size,
{
    let mb = spec_module_fixed_bytes(m);
    assert(s.subrange(pos + 32, pos + 34) =~= mb.subrange(32, 34));
    assert(mb.subrange(32, 34) =~= spec_u16_le_bytes(m.flags));
    lemma_u16_read(s, pos + 32, m.flags);
    assert(s.subrange(pos + 34, pos + 36) =~= mb.subrange(34, 36));
    assert(mb.subrange(34, 36) =~= spec_u16_le_bytes(m.stream.0));
    lemma_u16_read(s, pos + 34, m.stream.0);
    assert(s.subrange(pos + 36, pos + 40) =~= mb.subrange(36, 40));
    assert(mb.subrange(36, 40) =~= spec_u32_le_bytes(m.sym_byte_size));
    lemma_u32_read(s, pos + 36, m.sym_byte_size);
    assert(s.subrange(pos + 40, pos + 44) =~= mb.subrange(40, 44));
    assert(mb.subrange(40, 44) =~= spec_u32_le_bytes(m.c11_byte_size));
    lemma_u32_read(s, pos + 40, m.c11_byte_size);
    assert(s.subrange(pos + 44, pos + 48) =~= mb.subrange(44, 48));
    assert(mb.subrange(44, 48) =~= spec_u32_le_bytes(m.c13_byte_size));
    lemma_u32_read(s, pos + 44, m.c13_byte_size);
}

/// Reading part 4 of the fields of a fixed part back from its encoding.
proof fn lemma_module_fixed_fields_4(m: ModuleInfoFixed, s: Seq<u8>, pos: int)
    requires
        0 <= pos,
        pos + 64 <= s.len(),
        s.subrange(pos, pos + 64) == spec_module_fixed_bytes(m),
    ensures
        spec_u16_le(s, pos + 48) == m.source_file_count,
        spec_u16_le(s, pos + 50) == m.padding,
        spec_u32_le(s, pos + 52) == m.unused2,
        spec_u32_le(s, pos + 56) == m.source_file_name_index,
        spec_u32_le(s, pos + 60) == m.pdb_file_path_name_index,
{
    let mb = spec_module_fixed_bytes(m);
    assert(s.subrange(pos + 48, pos + 50) =~= mb.subrange(48, 50));
    assert(mb.subrange(48, 50) =~= spec_u16_le_bytes(m.source_file_count));
    lemma_u16_read(s, pos + 48, m.source_file_count);
    assert(s.subrange(pos + 50, pos + 52) =~= mb.subrange(50, 52));
    assert(mb.subrange(50, 52) =~= spec_u16_le_bytes(m.padding));
    lemma_u16_read(s, pos + 50, m.padding);
    assert(s.subrange(pos + 52, pos + 56) =~= mb.subrange(52, 56));
    assert(mb.subrange(52, 56) =~= spec_u32_le_bytes(m.unused2));
    lemma_u32_read(s, pos + 52, m.unused2);
    assert(s.subrange(pos + 56, pos + 60) =~= mb.subrange(56, 60));
    assert(mb.subrange(56, 60) =~= spec_u32_le_bytes(m.source_file_name_index));
    lemma_u32_read(s, pos + 56, m.source_file_name_index);
    assert(s.subrange(pos + 60, pos + 64) =~= mb.subrange(60, 64));
    assert(mb.subrange(60, 64) =~= spec_u32_le_bytes(m.pdb_file_path_name_index));
    lemma_u32_read(s, pos + 60, m.pdb_file_path_name_index);
}

/// Reading the fixed part of a record back from bytes that hold its encoding gives it back.
pub proof fn lemma_module_fixed_roundtrip(m: ModuleInfoFixed, s: Seq<u8>, pos: int)
    requires
        0 <= pos,
        pos + 64 <= s.len(),
        s.subrange(pos, pos + 64) == spec_module_fixed_bytes(m),
    ensures
        spec_module_fixed(s, pos) == m,
{
    lemma_module_fixed_fields_1(m, s, pos);
    lemma_module_fixed_fields_2(m, s, pos);
    lemma_module_fixed_fields_3(m, s, pos);
    lemma_module_fixed_fields_4(m, s, pos);
}

/// One decoded Module Info record, with the range of bytes of the substream that it takes,
/// padding included.
#[derive(Debug)]
pub struct ModuleInfo {
    /// The fixed part of the record.
    pub header: ModuleInfoFixed,
    /// The name of the module, without its NUL.
    pub module_name: Vec<u8>,
    /// The name of the object file, without its NUL.
    pub obj_file: Vec<u8>,
    /// The offset of the record in the substream.
    pub record_start: usize,
    /// The offset in the substream where the next record starts.
    pub record_end: usize,
}

/// A decoded Module Info record, with its names as sequences.
pub struct ModuleInfoView {
    pub header: ModuleInfoFixed,
    pub module_name: Seq<u8>,
    pub obj_file: Seq<u8>,
    pub record_start: int,
    pub record_end: int,
}

impl View for ModuleInfo {
    type V = ModuleInfoView;

    open spec fn view(&self) -> ModuleInfoView {
        ModuleInfoView {
            header: self.header,
            module_name: self.module_name@,
            obj_file: self.obj_file@,
            record_start: self.record_start as int,
            record_end: self.record_end as int,
        }
    }
}

/// The views of a sequence of records.
pub open spec fn module_views(s: Seq<ModuleInfo>) -> Seq<ModuleInfoView> {
    s.map_values(|m: ModuleInfo| m@)
}

/// `x` rounded up to a multiple of 4.
pub open spec fn align4(x: int) -> int {
    x + (4 - x % 4) % 4
}

/// Where the record after one whose names end at `end` starts: at the next multiple of 4, or
/// at the end of the substream when the padding would pass it.
pub open spec fn next_record_pos(len: int, end: int) -> int {
    if align4(end) > len {
        len
    } else {
        align4(end)
    }
}

/// The record that starts at `pos`, if the substream holds its fixed part and both of its
/// NUL-terminated names there.
pub open spec fn spec_module_at(b: Seq<u8>, pos: int) -> Option<ModuleInfoView> {
    if pos + 64 > b.len() {
        None
    } else {
        let name_end = nul_index(b, pos + 64);
        let obj_end = nul_index(b, name_end + 1);
        if name_end >= b.len() || obj_end >= b.len() {
            None
        } else {
            Some(
                ModuleInfoView {
                    header: spec_module_fixed(b, pos),
                    module_name: b.subrange(pos + 64, name_end),
                    obj_file: b.subrange(name_end + 1, obj_end),
                    record_start: pos,
                    record_end: next_record_pos(b.len() as int, obj_end + 1),
                },
            )
        }
    }
}

/// A record that can be read ends after it starts and within the substream.
pub proof fn lemma_module_at_bounds(b: Seq<u8>, pos: int)
    requires
        0 <= pos,
        spec_module_at(b, pos) is Some,
    ensures
        pos + 64 < spec_module_at(b, pos)->Some_0.record_end <= b.len(),
{
    lemma_nul_index_bounds(b, pos + 64);
    let name_end = nul_index(b, pos + 64);
    lemma_nul_index_bounds(b, name_end + 1);
}

/// The records of `b` from `pos` on: reading stops at the end of the substream or at the first
/// record that cannot be read.
pub open spec fn spec_modules_from(b: Seq<u8>, pos: int) -> Seq<ModuleInfoView>
    decreases b.len() - pos,
{
    if pos < 0 || pos >= b.len() || spec_module_at(b, pos) is None {
        Seq::empty()
    } else {
        let m = spec_module_at(b, pos)->Some_0;
        proof {
            lemma_module_at_bounds(b, pos);
        }
        seq![m] + spec_modules_from(b, m.record_end)
    }
}

/// The records that reading from `pos` gives follow one another without gaps: the first starts
/// at `pos`, each one starts where the one before it ends, each ends within the substream, and
/// no name holds a NUL byte.
pub proof fn lemma_module_records_consecutive(b: Seq<u8>, pos: int)
    requires
        0 <= pos,
    ensures
        ({
            let ms = spec_modules_from(b, pos);
            &&& ms.len() > 0 ==> ms[0].record_start == pos
            &&& forall|i: int|
                0 <= i < ms.len() - 1 ==> #[trigger] ms[i].record_end == ms[i + 1].record_start
            &&& forall|i: int|
                0 <= i < ms.len() ==> pos <= #[trigger] ms[i].record_start && ms[i].record_start
                    + 64 < ms[i].record_end <= b.len()
            &&& forall|i: int, j: int|
                0 <= i < ms.len() && 0 <= j < ms[i].module_name.len() ==> #[trigger] ms[i].module_name[j]
                    != 0
            &&& forall|i: int, j: int|
                0 <= i < ms.len() && 0 <= j < ms[i].obj_file.len() ==> #[trigger] ms[i].obj_file[j]
                    != 0
        }),
    decreases b.len() - pos,
{
    if !(pos < 0 || pos >= b.len() || spec_module_at(b, pos) is None) {
        let m = spec_module_at(b, pos)->Some_0;
        lemma_module_at_bounds(b, pos);
        lemma_module_records_consecutive(b, m.record_end);
        lemma_nul_index_bounds(b, pos + 64);
        let name_end = nul_index(b, pos + 64);
        lemma_nul_index_bounds(b, name_end + 1);
        let ms = spec_modules_from(b, pos);
        let rest = spec_modules_from(b, m.record_end);
        assert(ms == seq![m] + rest);
        assert forall|i: int| 0 <= i < ms.len() - 1 implies #[trigger] ms[i].record_end
            == ms[i + 1].record_start by {
            if i > 0 {
                assert(ms[i] == rest[i - 1]);
                assert(ms[i + 1] == rest[i]);
            }
        }
        assert forall|i: int| 0 <= i < ms.len() implies pos <= #[trigger] ms[i].record_start
            && ms[i].record_start + 64 < ms[i].record_end <= b.len() by {
            if i > 0 {
                assert(ms[i] == rest[i - 1]);
            }
        }
        assert forall|i: int, j: int|
            0 <= i < ms.len() && 0 <= j < ms[i].module_name.len() implies #[trigger] ms[i].module_name[j]
            != 0 by {
            if i > 0 {
                assert(ms[i] == rest[i - 1]);
            } else {
                assert(ms[i].module_name[j] == b[pos + 64 + j]);
            }
        }
        assert forall|i: int, j: int|
            0 <= i < ms.len() && 0 <= j < ms[i].obj_file.len() implies #[trigger] ms[i].obj_file[j]
            != 0 by {
            if i > 0 {
                assert(ms[i] == rest[i - 1]);
            } else {
                assert(ms[i].obj_file[j] == b[name_end + 1 + j]);
            }
        }
    }
}

/// The fixed part of every record that reading from the start gives lies within the substream.
pub proof fn lemma_record_fixed_within(b: Seq<u8>, i: int)
    requires
        0 <= i < spec_modules_from(b, 0).len(),
    ensures
        0 <= spec_modules_from(b, 0)[i].record_start,
        spec_modules_from(b, 0)[i].record_start + 64 <= b.len(),
{
    lemma_module_records_consecutive(b, 0);
}

/// Reads the record at `pos`.
fn read_module_at(b: &[u8], pos: usize) -> (r: Option<ModuleInfo>)
    requires
        pos <= b@.len(),
    ensures
        match spec_module_at(b@, pos as int) {
            Some(v) => r matches Some(m) && m@ == v,
            None => r is None,
        },
{
    if b.len() - pos < MODULE_INFO_FIXED_LEN {
        return None;
    }
    let name_end = find_nul(b, pos + MODULE_INFO_FIXED_LEN);
    proof {
        lemma_nul_index_bounds(b@, pos + 64);
    }
    if name_end >= b.len() {
        return None;
    }
    let obj_end = find_nul(b, name_end + 1);
    proof {
        lemma_nul_index_bounds(b@, name_end + 1);
    }
    if obj_end >= b.len() {
        return None;
    }
    let end = obj_end + 1;
    let pad = (4 - end % 4) % 4;
    let record_end = if b.len() - end < pad {
        b.len()
    } else {
        end + pad
    };
    let header = read_module_fixed(b, pos);
    let module_name = vstd::slice::slice_to_vec(
        vstd::slice::slice_subrange(b, pos + MODULE_INFO_FIXED_LEN, name_end),
    );
    let obj_file = vstd::slice::slice_to_vec(vstd::slice::slice_subrange(b, name_end + 1, obj_end));
    Some(ModuleInfo { header, module_name, obj_file, record_start: pos, record_end })
}

/// Reads every record of the Modules substream `b`, in order.
pub fn read_modules(b: &[u8]) -> (r: Vec<ModuleInfo>)
    ensures
        module_views(r@) == spec_modules_from(b@, 0),
{
    let mut out: Vec<ModuleInfo> = Vec::new();
    let mut pos: usize = 0;
    loop
        invariant
            pos <= b@.len(),
            module_views(out@) + spec_modules_from(b@, pos as int) == spec_modules_from(b@, 0),
        ensures
            module_views(out@) == spec_modules_from(b@, 0),
        decreases b@.len() - pos,
    {
        if pos >= b.len() {
            assert(module_views(out@) + Seq::<ModuleInfoView>::empty() =~= module_views(out@));
            break ;
        }
        match read_module_at(b, pos) {
            None => {
                assert(module_views(out@) + Seq::<ModuleInfoView>::empty() =~= module_views(
                    out@,
                ));
                break ;
            },
            Some(m) => {
                proof {
                    lemma_module_at_bounds(b@, pos as int);
                }
                let next = m.record_end;
                let ghost mv = m@;
                let ghost before = out@;
                out.push(m);
                proof {
                    assert(module_views(out@) =~= module_views(before) + seq![mv]);
                    assert(spec_modules_from(b@, pos as int) == seq![mv] + spec_modules_from(
                        b@,
                        next as int,
                    ));
                    assert(module_views(before) + (seq![mv] + spec_modules_from(b@, next as int))
                        =~= module_views(out@) + spec_modules_from(b@, next as int));
                }
                pos = next;
            },
        }
    }
    out
}

impl ModuleInfo {
    /// The fixed part of the record.
    pub fn header(&self) -> (r: &ModuleInfoFixed)
        ensures
            *r == self.header,
    {
        &self.header
    }

    /// The name of the module.
    pub fn module_name(&self) -> (r: &[u8])
        ensures
            r@ == self.module_name@,
    {
        self.module_name.as_slice()
    }

    /// The name of the object file.
    pub fn obj_file(&self) -> (r: &[u8])
        ensures
            r@ == self.obj_file@,
    {
        self.obj_file.as_slice()
    }

    /// The stream that holds the symbols of the module, if it has one.
    pub fn stream(&self) -> (r: Option<u32>)
        ensures
            r == self.header.stream.spec_get(),
    {
        self.header.stream.get()
    }
}

/// The Modules substream, owned or borrowed.
#[derive(Debug)]
pub struct ModInfoSubstream<D: StreamData> {
    /// The bytes of the substream.
    pub substream_data: D,
}

impl<D: StreamData> ModInfoSubstream<D> {
    /// The Module Info records of the substream, in order.
    pub fn iter(&self) -> (r: Vec<ModuleInfo>)
        ensures
            module_views(r@) == spec_modules_from(self.substream_data.bytes_view(), 0),
    {
        read_modules(self.substream_data.as_bytes())
    }
}

} // verus!
