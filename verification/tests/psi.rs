use pdb::globals::gss::{GlobalSymbolStream, OffsetSegment, SymbolError, S_PUB32};
use pdb::globals::psi::{build_psi, sort_address_records, PsiError, PublicSymbolIndex};

/// An `S_PUB32` record for `name` at `segment:offset`, padded to a multiple of 4 bytes.
fn pub32(segment: u16, offset: u32, name: &str) -> Vec<u8> {
    let mut body = Vec::new();
    body.extend_from_slice(&S_PUB32.to_le_bytes());
    body.extend_from_slice(&0u32.to_le_bytes());
    body.extend_from_slice(&offset.to_le_bytes());
    body.extend_from_slice(&segment.to_le_bytes());
    body.extend_from_slice(name.as_bytes());
    body.push(0);
    while (body.len() + 2) % 4 != 0 {
        body.push(0);
    }
    let mut rec = (body.len() as u16).to_le_bytes().to_vec();
    rec.extend_from_slice(&body);
    rec
}

/// A global symbol stream with the given records, and the offset of each.
fn gss(records: &[(u16, u32, &str)]) -> (GlobalSymbolStream, Vec<u32>) {
    let mut data = Vec::new();
    let mut offsets = Vec::new();
    for (seg, off, name) in records {
        offsets.push(data.len() as u32);
        data.extend(pub32(*seg, *off, name));
    }
    (GlobalSymbolStream { stream_data: data }, offsets)
}

#[test]
fn gss_reads_pub32() {
    let (g, offs) = gss(&[(1, 0x10, "main"), (2, 4, "data")]);
    let p = g.get_pub32_at(offs[1]).unwrap();
    assert_eq!(p.name, b"data".to_vec());
    assert_eq!(p.offset_segment(), OffsetSegment { offset: 4, segment: 2 });
    assert_eq!(
        g.get_pub32_at(1000).unwrap_err(),
        SymbolError::RecordOutOfRange { offset: 1000 }
    );
}

#[test]
fn empty_psi() {
    let psi = PublicSymbolIndex::empty();
    assert_eq!(psi.addr_map().len(), 0);
    assert_eq!(psi.names().table_bytes.len(), 0);
    let parsed = PublicSymbolIndex::parse(4096, Vec::new()).unwrap();
    assert_eq!(parsed.addr_map().len(), 0);
    assert_eq!(
        PublicSymbolIndex::parse(4096, vec![0u8; 5]).err(),
        Some(PsiError::HeaderTooShort { stream_len: 5 })
    );
}

#[test]
fn build_then_parse_gives_back_the_parts() {
    let (g, offs) = gss(&[(2, 8, "b"), (1, 0x20, "a"), (1, 4, "c")]);
    let mut map = vec![
        (offs[0], OffsetSegment { offset: 8, segment: 2 }),
        (offs[1], OffsetSegment { offset: 0x20, segment: 1 }),
        (offs[2], OffsetSegment { offset: 4, segment: 1 }),
    ];
    sort_address_records(&mut map);
    assert_eq!(map[0].1, OffsetSegment { offset: 4, segment: 1 });
    assert_eq!(map[1].1, OffsetSegment { offset: 0x20, segment: 1 });
    assert_eq!(map[2].1, OffsetSegment { offset: 8, segment: 2 });
    let names = vec![1u8, 2, 3, 4];
    let stream = build_psi(&names, &map);
    assert_eq!(stream.len(), 28 + 4 + 12);
    let psi = PublicSymbolIndex::parse(4096, stream).unwrap();
    assert_eq!(psi.names().table_bytes, names);
    assert_eq!(psi.names().num_buckets, 4096);
    assert_eq!(psi.addr_map(), &[offs[2], offs[1], offs[0]]);
    assert_eq!(psi.check_consistency(&g), Ok(()));
    let (found, dist) = psi.find_symbol_by_addr(&g, 1, 0x20).unwrap().unwrap();
    assert_eq!(found.name, b"a".to_vec());
    assert_eq!(dist, 0);
    assert!(psi.find_symbol_by_addr(&g, 1, 0x21).unwrap().is_none());
    assert!(psi.find_symbol_by_addr(&g, 3, 0).unwrap().is_none());
}

#[test]
fn unsorted_map_is_inconsistent() {
    let (g, offs) = gss(&[(2, 8, "b"), (1, 0x20, "a")]);
    let map = vec![
        (offs[0], OffsetSegment { offset: 8, segment: 2 }),
        (offs[1], OffsetSegment { offset: 0x20, segment: 1 }),
    ];
    let psi = PublicSymbolIndex::parse(1, build_psi(&[], &map)).unwrap();
    assert_eq!(psi.check_consistency(&g), Err(PsiError::OutOfOrder { count: 1 }));
}

#[test]
fn bad_record_offset_is_reported() {
    let (g, _) = gss(&[(1, 0, "a")]);
    let map = vec![(2, OffsetSegment { offset: 0, segment: 1 })];
    let psi = PublicSymbolIndex::parse(1, build_psi(&[], &map)).unwrap();
    assert!(matches!(psi.check_consistency(&g), Err(PsiError::Symbol(_))));
}

#[test]
fn sort_orders_equal_addresses_by_record_offset() {
    let mut map = vec![
        (40, OffsetSegment { offset: 1, segment: 1 }),
        (8, OffsetSegment { offset: 1, segment: 1 }),
        (0, OffsetSegment { offset: 0, segment: 2 }),
    ];
    sort_address_records(&mut map);
    assert_eq!(map.iter().map(|e| e.0).collect::<Vec<_>>(), vec![8, 40, 0]);
}

#[test]
fn name_table_out_of_range() {
    let mut stream = build_psi(&[0, 0, 0, 0], &[]);
    stream[0] = 200;
    assert_eq!(
        PublicSymbolIndex::parse(1, stream).err(),
        Some(PsiError::NameTableOutOfRange)
    );
}

#[test]
fn address_map_out_of_range() {
    let mut stream = build_psi(&[], &[]);
    stream[4] = 8;
    assert_eq!(
        PublicSymbolIndex::parse(1, stream).err(),
        Some(PsiError::AddrMapOutOfRange)
    );
}

#[test]
fn symbol_record_errors() {
    let not_pub = GlobalSymbolStream { stream_data: vec![6, 0, 0x0D, 0x11, 0, 0, 0, 0] };
    assert_eq!(
        not_pub.get_pub32_at(0).unwrap_err(),
        SymbolError::NotPub32 { offset: 0, kind: 0x110D }
    );
    let mut short = vec![6u8, 0];
    short.extend_from_slice(&S_PUB32.to_le_bytes());
    short.extend_from_slice(&[0, 0, 0, 0]);
    let short = GlobalSymbolStream { stream_data: short };
    assert_eq!(short.get_pub32_at(0).unwrap_err(), SymbolError::Pub32TooShort { offset: 0 });
    let mut unterminated = vec![14u8, 0];
    unterminated.extend_from_slice(&S_PUB32.to_le_bytes());
    unterminated.extend_from_slice(&[0u8; 10]);
    unterminated.extend_from_slice(b"ab");
    let unterminated = GlobalSymbolStream { stream_data: unterminated };
    assert_eq!(
        unterminated.get_pub32_at(0).unwrap_err(),
        SymbolError::NameNotTerminated { offset: 0 }
    );
}

#[test]
fn sorting_sorted_records_changes_nothing() {
    let mut map = vec![
        (16u32, OffsetSegment { offset: 8, segment: 1 }),
        (4u32, OffsetSegment { offset: 8, segment: 1 }),
        (0u32, OffsetSegment { offset: 0, segment: 2 }),
        (12u32, OffsetSegment { offset: 3, segment: 1 }),
    ];
    sort_address_records(&mut map);
    let once = map.clone();
    assert_eq!(once[0], (12, OffsetSegment { offset: 3, segment: 1 }));
    assert_eq!(once[1], (4, OffsetSegment { offset: 8, segment: 1 }));
    assert_eq!(once[2], (16, OffsetSegment { offset: 8, segment: 1 }));
    assert_eq!(once[3], (0, OffsetSegment { offset: 0, segment: 2 }));
    sort_address_records(&mut map);
    assert_eq!(map, once);
}
