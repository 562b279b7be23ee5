use pdb::dbi::modules::ModInfoSubstream;
use pdb::dbi::optional_dbg::{OptionalDebugHeader, OptionalDebugHeaderStream};
use pdb::dbi::section_contrib::{SectionContributionsSubstream, SECTION_CONTRIBUTIONS_SUBSTREAM_VER60};
use pdb::dbi::section_map::SectionMap;
use pdb::dbi::sources::DbiSourcesSubstream;
use pdb::dbi::{
    read_dbi_stream_header, validate_dbi_stream, DbiError, DbiStream, DbiStreamHeader, DbiSubstreamRanges, SubstreamKind,
    DBI_STREAM_HEADER_LEN, DBI_STREAM_VERSION_V70, EMPTY_DBI_STREAM_HEADER,
};

/// Offsets of the substream sizes in the header, in the order of the substreams.
const SIZE_OFFSETS: [usize; 7] = [24, 28, 32, 36, 40, 52, 48];

fn put_u16(v: &mut [u8], pos: usize, x: u16) {
    v[pos..pos + 2].copy_from_slice(&x.to_le_bytes());
}

fn put_u32(v: &mut [u8], pos: usize, x: u32) {
    v[pos..pos + 4].copy_from_slice(&x.to_le_bytes());
}

/// A header whose substreams, in stream order, have the given sizes.
fn header_with_sizes(sizes: [i32; 7]) -> Vec<u8> {
    let mut h = EMPTY_DBI_STREAM_HEADER.to_vec();
    for (k, s) in sizes.iter().enumerate() {
        put_u32(&mut h, SIZE_OFFSETS[k], *s as u32);
    }
    h
}

/// A DBI stream made of a header and the given substreams, in stream order.
fn dbi_stream(parts: [&[u8]; 7]) -> Vec<u8> {
    let sizes = parts.map(|p| p.len() as i32);
    let mut v = header_with_sizes(sizes);
    for p in parts {
        v.extend_from_slice(p);
    }
    v
}

fn module_record(stream: u16, sym: u32, name: &str, obj: &str) -> Vec<u8> {
    let mut r = vec![0u8; 64];
    put_u16(&mut r, 4, 1);
    put_u16(&mut r, 34, stream);
    put_u32(&mut r, 36, sym);
    put_u16(&mut r, 48, 2);
    r.extend_from_slice(name.as_bytes());
    r.push(0);
    r.extend_from_slice(obj.as_bytes());
    r.push(0);
    while r.len() % 4 != 0 {
        r.push(0);
    }
    r
}

fn sources_substream(counts: &[u16], names: &[&str]) -> Vec<u8> {
    let n = counts.len() as u16;
    let mut v = Vec::new();
    v.extend_from_slice(&n.to_le_bytes());
    v.extend_from_slice(&0u16.to_le_bytes());
    let mut start = 0u16;
    for c in counts {
        v.extend_from_slice(&start.to_le_bytes());
        start += c;
    }
    for c in counts {
        v.extend_from_slice(&c.to_le_bytes());
    }
    let mut name_bytes = Vec::new();
    let mut offsets = Vec::new();
    for name in names {
        offsets.push(name_bytes.len() as u32);
        name_bytes.extend_from_slice(name.as_bytes());
        name_bytes.push(0);
    }
    for i in 0..start as usize {
        v.extend_from_slice(&offsets[i % offsets.len()].to_le_bytes());
    }
    v.extend_from_slice(&name_bytes);
    v
}

#[test]
fn test_parse_empty_dbi_stream_header() {
    let h = DbiStreamHeader::read_from_bytes(EMPTY_DBI_STREAM_HEADER.as_slice()).unwrap();
    assert!(h.global_symbol_index_stream.get().is_none());
}

#[test]
fn empty_header_fields() {
    let h = DbiStreamHeader::read_from_bytes(EMPTY_DBI_STREAM_HEADER.as_slice()).unwrap();
    assert_eq!(h.signature, -1);
    assert_eq!(h.version, DBI_STREAM_VERSION_V70);
    assert_eq!(h.age, 1);
    assert!(h.sym_record_stream().is_err());
    assert!(h.public_stream_index().is_err());
    assert!(h.global_stream_index().is_err());
    assert_eq!(h.total_substreams_len(), Some(0));
    assert_eq!(h.modules_range().unwrap(), 64..64);
    assert_eq!(h.sources_range().unwrap(), 64..64);
}

#[test]
fn read_from_bytes_needs_exact_length() {
    let mut v = EMPTY_DBI_STREAM_HEADER.to_vec();
    v.push(0);
    assert_eq!(
        DbiStreamHeader::read_from_bytes(&v).unwrap_err(),
        DbiError::HeaderSizeMismatch { len: 65 }
    );
    assert!(DbiStreamHeader::read_from_prefix(&v).is_ok());
    assert_eq!(
        DbiStreamHeader::read_from_prefix(&v[..10]).unwrap_err(),
        DbiError::StreamTooShort { stream_len: 10 }
    );
}

#[test]
fn stream_indices_of_header() {
    let mut v = EMPTY_DBI_STREAM_HEADER.to_vec();
    put_u16(&mut v, 12, 7);
    put_u16(&mut v, 16, 8);
    put_u16(&mut v, 20, 9);
    let h = DbiStreamHeader::read_from_bytes(&v).unwrap();
    assert_eq!(h.global_stream_index(), Ok(7));
    assert_eq!(h.public_stream_index(), Ok(8));
    assert_eq!(h.sym_record_stream(), Ok(9));
}

#[test]
fn ranges_and_total_length() {
    let v = header_with_sizes([8, 4, 0, 12, 0, 0, 2]);
    let h = DbiStreamHeader::read_from_bytes(&v).unwrap();
    assert_eq!(h.total_substreams_len(), Some(26));
    assert_eq!(h.modules_range().unwrap(), 64..72);
    assert_eq!(h.sources_range().unwrap(), 76..88);
    let r = DbiSubstreamRanges::from_sizes(&h, 64 + 26).unwrap();
    assert_eq!(r.modules_bytes, 64..72);
    assert_eq!(r.section_contributions_bytes, 72..76);
    assert_eq!(r.section_map_bytes, 76..76);
    assert_eq!(r.source_info, 76..88);
    assert_eq!(r.type_server_map, 88..88);
    assert_eq!(r.edit_and_continue, 88..88);
    assert_eq!(r.optional_debug_header_bytes, 88..90);
}

#[test]
fn negative_size_is_refused() {
    let v = header_with_sizes([0, 0, -1, 0, 0, 0, 0]);
    let h = DbiStreamHeader::read_from_bytes(&v).unwrap();
    assert_eq!(h.total_substreams_len(), None);
    assert_eq!(
        DbiSubstreamRanges::from_sizes(&h, 100).unwrap_err(),
        DbiError::SubstreamNegative { substream: SubstreamKind::SectionMap }
    );
}

#[test]
fn too_long_substream_is_refused() {
    let v = header_with_sizes([0, 0, 0, 50, 0, 0, 0]);
    let h = DbiStreamHeader::read_from_bytes(&v).unwrap();
    assert_eq!(
        DbiSubstreamRanges::from_sizes(&h, 100).unwrap_err(),
        DbiError::SubstreamTooLong { substream: SubstreamKind::SourceInfo }
    );
    assert_eq!(
        DbiSubstreamRanges::from_sizes(&h, 10).unwrap_err(),
        DbiError::StreamTooShort { stream_len: 10 }
    );
}

#[test]
fn parse_empty_and_short_streams() {
    let s = DbiStream::parse(Vec::new()).unwrap();
    assert_eq!(s.substreams.modules_bytes, 0..0);
    assert_eq!(s.substreams.optional_debug_header_bytes, 0..0);
    assert_eq!(
        DbiStream::parse(vec![0u8; 5]).unwrap_err(),
        DbiError::StreamTooShort { stream_len: 5 }
    );
}

#[test]
fn substream_bytes_are_where_the_header_says() {
    let data = dbi_stream([b"MODS", b"SC", b"", b"SRC!", b"T", b"E", b"OD"]);
    let s = DbiStream::parse(data).unwrap();
    assert_eq!(s.header().unwrap().mod_info_size, 4);
    assert_eq!(s.modules_bytes(), b"MODS");
    assert_eq!(s.section_contributions_bytes(), b"SC");
    assert_eq!(s.section_map_bytes(), b"");
    assert_eq!(s.source_info(), b"SRC!");
    assert_eq!(s.type_server_map(), b"T");
    assert_eq!(s.edit_and_continue(), b"E");
    assert_eq!(s.optional_debug_header_bytes(), b"OD");
    let borrowed = s.as_slice();
    assert_eq!(borrowed.source_info(), b"SRC!");
}

#[test]
fn modules_are_read_in_order() {
    let mut mods = module_record(12, 100, "a.obj", "lib.lib");
    let second_start = mods.len();
    mods.extend(module_record(0xFFFF, 0, "b", "b.obj"));
    let data = dbi_stream([&mods, b"", b"", b"", b"", b"", b""]);
    let s = DbiStream::parse(data).unwrap();
    let ms = s.iter_modules();
    assert_eq!(ms.len(), 2);
    assert_eq!(ms[0].module_name(), b"a.obj");
    assert_eq!(ms[0].obj_file(), b"lib.lib");
    assert_eq!(ms[0].stream(), Some(12));
    assert_eq!(ms[0].header().sym_byte_size, 100);
    assert_eq!(ms[0].header().source_file_count, 2);
    assert_eq!(ms[0].header().section_contrib.section, 1);
    assert_eq!(ms[0].record_start, 0);
    assert_eq!(ms[0].record_end, second_start);
    assert_eq!(ms[1].record_start, second_start);
    assert_eq!(ms[1].record_end, mods.len());
    assert_eq!(ms[1].stream(), None);
    let sub = s.modules();
    assert_eq!(sub.iter().len(), 2);
}

#[test]
fn module_reading_stops_at_a_truncated_record() {
    let mut mods = module_record(1, 0, "x", "y");
    mods.extend_from_slice(&[0u8; 10]);
    let sub = ModInfoSubstream { substream_data: mods };
    let ms = sub.iter();
    assert_eq!(ms.len(), 1);
    let unterminated = ModInfoSubstream { substream_data: {
        let mut r = vec![0u8; 64];
        r.extend_from_slice(b"name");
        r
    } };
    assert_eq!(unterminated.iter().len(), 0);
}

#[test]
fn sources_substream_is_decoded() {
    let bytes = sources_substream(&[2, 1], &["a.c", "b.h"]);
    let s = DbiSourcesSubstream::parse(&bytes).unwrap();
    assert_eq!(s.num_modules(), 2);
    assert_eq!(s.file_name_offsets(), &[0, 4, 0]);
    assert_eq!(s.name_offsets_for_module(0).unwrap(), &[0, 4]);
    assert_eq!(s.name_offsets_for_module(1).unwrap(), &[0]);
    assert_eq!(
        s.name_offsets_for_module(2).unwrap_err(),
        DbiError::ModuleIndexOutOfRange { module_index: 2 }
    );
    assert_eq!(s.get_source_file_name_at(4).unwrap(), b"b.h");
    assert_eq!(s.get_source_file_name_at(1).unwrap(), b".c");
    assert_eq!(
        s.get_source_file_name_at(9).unwrap_err(),
        DbiError::FileNameOffsetOutOfRange { offset: 9 }
    );
    assert_eq!(
        s.get_source_file_name_at(8).unwrap_err(),
        DbiError::FileNameNotTerminated { offset: 8 }
    );
}

#[test]
fn sources_errors() {
    let empty = DbiSourcesSubstream::parse(&[]).unwrap();
    assert_eq!(empty.num_modules(), 0);
    let truncated = DbiError::SubstreamTruncated { substream: SubstreamKind::SourceInfo };
    assert_eq!(DbiSourcesSubstream::parse(&[1, 0]).unwrap_err(), truncated);
    assert_eq!(DbiSourcesSubstream::parse(&[2, 0, 0, 0, 0, 0]).unwrap_err(), truncated);
    let mut bytes = sources_substream(&[3], &["x"]);
    bytes.truncate(10);
    assert_eq!(DbiSourcesSubstream::parse(&bytes).unwrap_err(), truncated);
    let mut bad_start = sources_substream(&[1], &["x"]);
    put_u16(&mut bad_start, 4, 5);
    let s = DbiSourcesSubstream::parse(&bad_start).unwrap();
    assert_eq!(
        s.name_offsets_for_module(0).unwrap_err(),
        DbiError::FileNameOffsetsOutOfRange { module_index: 0 }
    );
}

#[test]
fn section_contributions_are_decoded() {
    let mut bytes = SECTION_CONTRIBUTIONS_SUBSTREAM_VER60.to_le_bytes().to_vec();
    let mut e = vec![0u8; 28];
    put_u16(&mut e, 0, 2);
    put_u32(&mut e, 4, 0x10);
    put_u32(&mut e, 8, (-5i32) as u32);
    put_u32(&mut e, 12, 0x6000_0020);
    put_u16(&mut e, 16, 3);
    bytes.extend_from_slice(&e);
    let s = SectionContributionsSubstream::parse(&bytes).unwrap();
    assert_eq!(s.contribs.len(), 1);
    assert_eq!(s.contribs[0].section, 2);
    assert_eq!(s.contribs[0].offset, 0x10);
    assert_eq!(s.contribs[0].size, -5);
    assert_eq!(s.contribs[0].characteristics, 0x6000_0020);
    assert_eq!(s.contribs[0].module_index, 3);
    assert_eq!(SectionContributionsSubstream::parse(&[]).unwrap().contribs.len(), 0);
}

#[test]
fn section_contribution_errors() {
    assert_eq!(
        SectionContributionsSubstream::parse(&[1, 2]).unwrap_err(),
        DbiError::SubstreamTruncated { substream: SubstreamKind::SectionContributions }
    );
    assert_eq!(
        SectionContributionsSubstream::parse(&[1, 0, 0, 0]).unwrap_err(),
        DbiError::UnsupportedSectionContribsVersion { version: 1 }
    );
    let mut bytes = SECTION_CONTRIBUTIONS_SUBSTREAM_VER60.to_le_bytes().to_vec();
    bytes.extend_from_slice(&[0u8; 27]);
    assert_eq!(
        SectionContributionsSubstream::parse(&bytes).unwrap_err(),
        DbiError::BadSubstreamLength { substream: SubstreamKind::SectionContributions }
    );
}

#[test]
fn section_map_is_decoded() {
    let mut bytes = vec![0u8; 4];
    put_u16(&mut bytes, 0, 2);
    put_u16(&mut bytes, 2, 2);
    for k in 0..2u16 {
        let mut e = vec![0u8; 20];
        put_u16(&mut e, 0, 0x10d);
        put_u16(&mut e, 6, k + 1);
        put_u16(&mut e, 8, 0xFFFF);
        put_u32(&mut e, 16, 0x1000 * (k as u32 + 1));
        bytes.extend_from_slice(&e);
    }
    let m = SectionMap::parse(&bytes).unwrap();
    assert_eq!(m.header.num_segments, 2);
    assert_eq!(m.entries.len(), 2);
    assert_eq!(m.entries[1].frame, 2);
    assert_eq!(m.entries[1].section_length, 0x2000);
    assert_eq!(m.entries[0].flags, 0x10d);
    assert_eq!(m.entries[0].section_name, 0xFFFF);
    bytes.truncate(30);
    assert_eq!(
        SectionMap::parse(&bytes).unwrap_err(),
        DbiError::SubstreamTruncated { substream: SubstreamKind::SectionMap }
    );
    assert_eq!(SectionMap::parse(&[]).unwrap().entries.len(), 0);
}

#[test]
fn optional_debug_header_streams() {
    let h = OptionalDebugHeader::parse(&[5, 0, 0xFF, 0xFF, 9, 0]).unwrap();
    assert_eq!(h.num_streams(), 3);
    assert_eq!(h.stream_by_index(0), Some(5));
    assert_eq!(h.stream_by_index(1), None);
    assert_eq!(h.stream_by_index(3), None);
    assert_eq!(h.stream(OptionalDebugHeaderStream::FixupData), Some(9));
    assert_eq!(h.stream(OptionalDebugHeaderStream::Pdata), None);
    assert_eq!(
        OptionalDebugHeaderStream::from_position(5),
        Some(OptionalDebugHeaderStream::SectionHeaderData)
    );
    assert_eq!(OptionalDebugHeaderStream::from_position(11), None);
    assert_eq!(OptionalDebugHeaderStream::Xdata.position(), 7);
    assert_eq!(
        OptionalDebugHeader::parse(&[1, 2, 3]).unwrap_err(),
        DbiError::BadSubstreamLength { substream: SubstreamKind::OptionalDebugHeader }
    );
}

#[test]
fn dbi_stream_parsers() {
    let mut sc = SECTION_CONTRIBUTIONS_SUBSTREAM_VER60.to_le_bytes().to_vec();
    sc.extend_from_slice(&[0u8; 28]);
    let data = dbi_stream([b"", &sc, b"", b"", b"", b"", &[3, 0]]);
    let s = DbiStream::parse(data).unwrap();
    assert_eq!(s.section_contributions().unwrap().contribs.len(), 1);
    assert_eq!(s.section_map().unwrap().entries.len(), 0);
    assert_eq!(s.optional_debug_header().unwrap().stream_by_index(0), Some(3));
    assert_eq!(s.sources().unwrap().num_modules(), 0);
}

#[test]
fn validate_counts_modules() {
    let mods = module_record(1, 0, "m", "m.obj");
    let good = dbi_stream([&mods, b"", b"", &sources_substream(&[1], &["m.c"]), b"", b"", b""]);
    assert_eq!(validate_dbi_stream(&good), Ok(()));
    let bad = dbi_stream([&mods, b"", b"", &sources_substream(&[1, 0], &["m.c"]), b"", b"", b""]);
    assert_eq!(
        validate_dbi_stream(&bad),
        Err(DbiError::ModuleCountMismatch { sources: 2, modules: 1 })
    );
    assert_eq!(validate_dbi_stream(&[]), Ok(()));
    assert_eq!(
        validate_dbi_stream(&[1, 2, 3]),
        Err(DbiError::StreamTooShort { stream_len: 3 })
    );
    assert_eq!(DBI_STREAM_HEADER_LEN, 64);
}

#[test]
fn optional_stream_positions_round_trip() {
    for i in 0..11usize {
        let kind = OptionalDebugHeaderStream::from_position(i).unwrap();
        assert_eq!(kind.position(), i);
    }
}

#[test]
fn reading_the_header_without_validation() {
    let empty = read_dbi_stream_header(&[]).unwrap();
    assert_eq!(empty, DbiStreamHeader::read_from_bytes(&EMPTY_DBI_STREAM_HEADER).unwrap());
    assert_eq!(
        read_dbi_stream_header(&[0u8; 63]),
        Err(DbiError::StreamTooShort { stream_len: 63 })
    );
    // The sizes are not checked against the stream.
    let mut v = header_with_sizes([1000, -5, 0, 0, 0, 0, 0]);
    v.extend_from_slice(&[1, 2, 3]);
    let h = read_dbi_stream_header(&v).unwrap();
    assert_eq!(h.mod_info_size, 1000);
    assert_eq!(h.section_contribution_size, -5);
}

#[test]
fn writing_the_header() {
    let data = dbi_stream([b"", b"", b"", b"", b"", b"", &[7, 0]]);
    let mut s = DbiStream::parse(data.clone()).unwrap();
    let mut h = s.header().unwrap();
    h.age = 0x01020304;
    h.build_number = 0xBEEF;
    h.machine = 0x8664;
    h.signature = -2;
    s.header_mut(&h).unwrap();
    assert_eq!(s.header().unwrap(), h);
    assert_eq!(&s.stream_data[8..12], &[4, 3, 2, 1]);
    assert_eq!(&s.stream_data[0..4], &[0xFE, 0xFF, 0xFF, 0xFF]);
    assert_eq!(&s.stream_data[64..], &data[64..]);
    let mut short = DbiStream { stream_data: vec![0u8; 10], substreams: DbiSubstreamRanges::empty() };
    assert_eq!(short.header_mut(&h), Err(DbiError::StreamTooShort { stream_len: 10 }));
    assert_eq!(short.stream_data, vec![0u8; 10]);
}

#[test]
fn writing_optional_debug_header_entries() {
    let data = dbi_stream([b"", b"", b"", b"", b"", b"", &[5, 0, 0xFF, 0xFF]]);
    let mut s = DbiStream::parse(data).unwrap();
    s.optional_debug_header_mut(1, 0x1234).unwrap();
    let h = s.optional_debug_header().unwrap();
    assert_eq!(h.stream_by_index(0), Some(5));
    assert_eq!(h.stream_by_index(1), Some(0x1234));
    assert_eq!(
        s.optional_debug_header_mut(2, 1),
        Err(DbiError::OptionalDebugHeaderIndexOutOfRange { index: 2 })
    );
    let odd = dbi_stream([b"", b"", b"", b"", b"", b"", &[5, 0, 1]]);
    let mut s = DbiStream::parse(odd.clone()).unwrap();
    assert_eq!(
        s.optional_debug_header_mut(0, 1),
        Err(DbiError::BadSubstreamLength { substream: SubstreamKind::OptionalDebugHeader })
    );
    assert_eq!(s.stream_data, odd);
}

#[test]
fn writing_module_records() {
    let mut mods = module_record(12, 100, "a.obj", "lib.lib");
    mods.extend(module_record(0xFFFF, 0, "b", "b.obj"));
    let data = dbi_stream([&mods, b"", b"", b"", b"", b"", b""]);
    let mut s = DbiStream::parse(data).unwrap();
    let mut h = *s.iter_modules()[1].header();
    h.sym_byte_size = 0x400;
    h.stream.0 = 30;
    h.section_contrib.offset = -16;
    h.source_file_count = 9;
    s.iter_modules_mut(1, &h).unwrap();
    let ms = s.iter_modules();
    assert_eq!(ms.len(), 2);
    assert_eq!(*ms[1].header(), h);
    assert_eq!(ms[1].stream(), Some(30));
    assert_eq!(ms[1].module_name(), b"b");
    assert_eq!(ms[1].obj_file(), b"b.obj");
    assert_eq!(ms[0].header().sym_byte_size, 100);
    assert_eq!(
        s.iter_modules_mut(2, &h),
        Err(DbiError::ModuleIndexOutOfRange { module_index: 2 })
    );
}
