use pdb::dbi::sources::DbiSourcesSubstream;
use pdb::dbi::{DbiStream, DbiStreamHeader, EMPTY_DBI_STREAM_HEADER};
use pdb::tui::content::{
    count_unique, pdb_file_format_version_name, DebugInfoHandler, ModuleHandler, ModulesHandler,
    NamesHandler, SourceFilesHandler, SymbolModulesHandler, SymbolsHandler,
};
use pdb::tui::content::{GlobalsHandler, TypeStreamSummary, TypesHandler};
use pdb::tui::content::{get_content_handler, ContentHandler};
use pdb::tui::navigation::TreeNodeId;
use pdb::tui::streams::{SingleStreamHandler, StreamUsage, StreamsHandler};

fn put_u16(v: &mut [u8], pos: usize, x: u16) {
    v[pos..pos + 2].copy_from_slice(&x.to_le_bytes());
}

fn put_u32(v: &mut [u8], pos: usize, x: u32) {
    v[pos..pos + 4].copy_from_slice(&x.to_le_bytes());
}

fn module_record(stream: u16, name: &str, obj: &str) -> Vec<u8> {
    let mut r = vec![0u8; 64];
    put_u16(&mut r, 34, stream);
    r.extend_from_slice(name.as_bytes());
    r.push(0);
    r.extend_from_slice(obj.as_bytes());
    r.push(0);
    while r.len() % 4 != 0 {
        r.push(0);
    }
    r
}

/// A DBI stream that names streams 7, 8 and 9 in its header, has two modules with streams 10
/// and 11, and an Optional Debug Header whose second entry is stream 12.
fn sample_dbi() -> DbiStream {
    let mut mods = module_record(10, "one.obj", "one.obj");
    mods.extend(module_record(11, "two.obj", "lib.lib"));
    let odh: Vec<u8> = vec![0xFF, 0xFF, 12, 0];
    let mut v = EMPTY_DBI_STREAM_HEADER.to_vec();
    put_u16(&mut v, 12, 7);
    put_u16(&mut v, 16, 8);
    put_u16(&mut v, 20, 9);
    put_u32(&mut v, 24, mods.len() as u32);
    put_u32(&mut v, 48, odh.len() as u32);
    v.extend_from_slice(&mods);
    v.extend_from_slice(&odh);
    DbiStream::parse(v).unwrap()
}

#[test]
fn version_names() {
    assert_eq!(pdb_file_format_version_name(20091201), "MSVC 11.0");
    assert_eq!(pdb_file_format_version_name(930803), "MSVC 4.1");
    assert_eq!(pdb_file_format_version_name(1), "Unknown");
}

#[test]
fn unique_counts() {
    assert_eq!(count_unique(&[]), 0);
    assert_eq!(count_unique(&[3, 1, 3, 3, 2, 1]), 3);
    assert_eq!(count_unique(&[5]), 1);
}

#[test]
fn debug_info_rows() {
    let h = DbiStreamHeader::read_from_bytes(EMPTY_DBI_STREAM_HEADER.as_slice()).unwrap();
    let mut src = vec![2u8, 0, 0, 0, 0, 0, 2, 0, 2, 0, 1, 0];
    for off in [0u32, 4, 0] {
        src.extend_from_slice(&off.to_le_bytes());
    }
    src.extend_from_slice(b"a.c\0b.c\0");
    let sources = DbiSourcesSubstream::parse(&src).unwrap();
    let rows = DebugInfoHandler.rows(
        &h,
        &sources,
        42,
        false,
        "MSF",
        "{01234567-89ab-cdef-0123-456789abcdef} 1",
    );
    let pairs: Vec<(String, String)> = rows.into_iter().map(|r| (r.label, r.value)).collect();
    let expected = vec![
        ("Container Type", "MSF"),
        ("Binding Key", "{01234567-89ab-cdef-0123-456789abcdef} 1"),
        ("PDB File Format Version", "MSVC 7.0 (19990903; 0x01310977)"),
        ("Build Number", "0 (0x00000000)"),
        ("PDB File Age (amount of times file was changed)", "1 (0x00000001)"),
        ("Version of MSPDB.DLL", "0"),
        ("PDB File Flags", "0x00000000"),
        ("Is Mini PDB (/FASTLINK)", "false"),
        ("Number of Streams", "42"),
        ("Number of Modules", "2"),
        ("Number of Sources (unique)", "2"),
        ("Number of Sources (not unique)", "3"),
    ];
    let expected: Vec<(String, String)> =
        expected.into_iter().map(|(a, b)| (a.to_string(), b.to_string())).collect();
    assert_eq!(pairs, expected);
}

#[test]
fn module_items() {
    let dbi = sample_dbi();
    let modules = dbi.iter_modules();
    assert_eq!(ModulesHandler.summary(modules.len()), "Modules (2 total)");
    let items = ModulesHandler.items(&modules);
    assert_eq!(items[1], "Module #1: two.obj\n╰─ Object: lib.lib");
}

#[test]
fn module_names_that_are_not_utf8() {
    let mut v = EMPTY_DBI_STREAM_HEADER.to_vec();
    let mut rec = vec![0u8; 64];
    rec.extend_from_slice(&[0x61, 0xFF, 0x62, 0, 0x63, 0]);
    rec.extend_from_slice(&[0, 0]);
    put_u32(&mut v, 24, rec.len() as u32);
    v.extend_from_slice(&rec);
    let dbi = DbiStream::parse(v).unwrap();
    let items = ModulesHandler.items(&dbi.iter_modules());
    assert_eq!(items[0], "Module #0: a\u{FFFD}b\n╰─ Object: c");
}

#[test]
fn stream_usages_follow_the_dbi_stream() {
    let dbi = sample_dbi();
    let named = vec![("/names".to_string(), 13u32), ("/LinkInfo".to_string(), 9u32)];
    let usages = StreamsHandler.stream_usages(15, Some(&dbi), Some((Some(5), None)), None, &named);
    assert_eq!(usages.len(), 15);
    assert!(matches!(usages[0], Some(StreamUsage::OldStreamDir)));
    assert!(matches!(usages[3], Some(StreamUsage::Dbi)));
    assert!(matches!(usages[5], Some(StreamUsage::TypeStreamHashStream { parent_stream: 2 })));
    assert!(usages[6].is_none());
    assert!(matches!(usages[7], Some(StreamUsage::GlobalSymbolIndex)));
    assert!(matches!(usages[8], Some(StreamUsage::PublicSymbolStream)));
    assert!(matches!(usages[9], Some(StreamUsage::Named { ref name }) if name == "/LinkInfo"));
    assert!(matches!(usages[10], Some(StreamUsage::ModuleInfo { ref module_name, .. }) if module_name == "one.obj"));
    assert!(matches!(usages[11], Some(StreamUsage::ModuleInfo { ref obj_name, .. }) if obj_name == "lib.lib"));
    assert!(matches!(usages[12], Some(StreamUsage::OptionalDebugHeader { which: 1, whichs: Some(_) })));
    assert!(matches!(usages[13], Some(StreamUsage::Named { .. })));
    assert!(usages[14].is_none());
    let valid = vec![true; 15];
    assert_eq!(
        StreamsHandler.summary(&valid, &usages),
        "PDB Streams (15 total)\n└─ 15 valid, 0 invalid, 2 unknown usage"
    );
    let mut some_invalid = valid.clone();
    some_invalid[14] = false;
    assert_eq!(
        StreamsHandler.summary(&some_invalid, &usages),
        "PDB Streams (15 total)\n└─ 14 valid, 1 invalid, 1 unknown usage"
    );
}

#[test]
fn stream_usage_text() {
    let dbi = sample_dbi();
    let named = vec![("/names".to_string(), 13u32)];
    let usage = |i: u32| SingleStreamHandler { stream_index: i }.determine_stream_usage(Some(&dbi), &named);
    assert_eq!(usage(0), "Old Stream Directory");
    assert_eq!(usage(3), "Debug Info (DBI)");
    assert_eq!(usage(7), "Global Symbol Index");
    assert_eq!(usage(9), "Global Symbol Stream");
    assert_eq!(usage(11), "Module #1 (two.obj)");
    assert_eq!(usage(13), "Named Stream (/names)");
    assert_eq!(usage(20), "Unknown Usage");
    let none = SingleStreamHandler { stream_index: 11 }.determine_stream_usage::<Vec<u8>>(None, &named);
    assert_eq!(none, "Unknown Usage");
}

#[test]
fn symbol_modules() {
    let dbi = sample_dbi();
    let modules = dbi.iter_modules();
    let counts = vec![3usize, 0];
    let items = SymbolModulesHandler.items(&modules, &counts);
    assert_eq!(items[0], "#  0 one.obj (3 symbols)\n     Object: one.obj");
    assert_eq!(items[1], "#  1 two.obj (0 symbols)\n     Object: lib.lib");
    assert_eq!(
        SymbolModulesHandler.summary(&counts),
        "Module Symbols Overview\n2 modules total, 1 with symbols\nTotal symbols across all modules: 3"
    );
    assert!(SymbolsHandler.overview().starts_with("Symbol Information Overview\n\n"));
}

#[test]
fn names_hash_slots() {
    let slots = vec![(0u32, 0u32), (5, 1), (6, 1), (7, 0), (0, 0), (8, 2)];
    let c = NamesHandler.count_hash_slots(&slots);
    assert_eq!((c.good, c.bad, c.unused), (2, 2, 2));
    assert_eq!(
        NamesHandler.hash_summary(&c, 4),
        "Hash slots: 4 used\n   - 2 good\n   - 2 bad\n   - 2 unused.\nNumber of hashes used is equal to total number of strings (good)."
    );
    assert_eq!(
        NamesHandler.hash_summary(&c, 3),
        "Hash slots: 4 used\n   - 2 good\n   - 2 bad\n   - 2 unused.\nError: Number of hashes used is 4, which is not equal to the total number of strings (3)."
    );
    assert_eq!(NamesHandler.summary(7, 4, 6), "Stream index: 7\nNames: 4 total, 6 hashes.");
}

#[test]
fn handlers_for_nodes() {
    assert_eq!(get_content_handler(&TreeNodeId::Modules), ContentHandler::Modules);
    assert_eq!(
        get_content_handler(&TreeNodeId::Stream { index: 4 }),
        ContentHandler::SingleStream { stream_index: 4 }
    );
    assert_eq!(
        get_content_handler(&TreeNodeId::Module { index: 1 }),
        ContentHandler::Module { module_index: 1 }
    );
    assert_eq!(get_content_handler(&TreeNodeId::SourceFiles), ContentHandler::SourceFiles);
    assert_eq!(get_content_handler(&TreeNodeId::SourceFile { index: 0 }), ContentHandler::Default);
}

#[test]
fn module_details() {
    let dbi = sample_dbi();
    let modules = dbi.iter_modules();
    assert_eq!(
        ModuleHandler { module_index: 1 }.details(&modules).unwrap(),
        "Module #1\nName: two.obj\nObject file: lib.lib\nStream: 11\nSymbols: 0 bytes\nC11 line data: 0 bytes\nC13 line data: 0 bytes\nSource files: 0"
    );
    assert_eq!(ModuleHandler { module_index: 2 }.details(&modules), None);
}

#[test]
fn module_details_without_stream() {
    let mut mods = module_record(0xFFFF, "m", "o");
    put_u32(&mut mods, 36, 100);
    put_u32(&mut mods, 44, 24);
    put_u16(&mut mods, 48, 3);
    let mut v = EMPTY_DBI_STREAM_HEADER.to_vec();
    put_u32(&mut v, 24, mods.len() as u32);
    v.extend_from_slice(&mods);
    let dbi = DbiStream::parse(v).unwrap();
    let text = ModuleHandler { module_index: 0 }.details(&dbi.iter_modules()).unwrap();
    assert_eq!(
        text,
        "Module #0\nName: m\nObject file: o\nStream: (none)\nSymbols: 100 bytes\nC11 line data: 0 bytes\nC13 line data: 24 bytes\nSource files: 3"
    );
}

#[test]
fn source_files_overview() {
    let mut src = vec![2u8, 0, 0, 0, 0, 0, 2, 0, 2, 0, 1, 0];
    for off in [0u32, 4, 0] {
        src.extend_from_slice(&off.to_le_bytes());
    }
    src.extend_from_slice(b"a.c\0b.c\0");
    let sources = DbiSourcesSubstream::parse(&src).unwrap();
    assert_eq!(
        SourceFilesHandler.overview(&sources),
        "Source Files Overview\n\nModules: 2\nFile references: 3\nUnique files: 2"
    );
    let empty = DbiSourcesSubstream::parse(&[]).unwrap();
    assert_eq!(
        SourceFilesHandler.overview(&empty),
        "Source Files Overview\n\nModules: 0\nFile references: 0\nUnique files: 0"
    );
}

#[test]
fn stream_list_items() {
    let dbi = sample_dbi();
    let named = vec![("/names\"x\"".to_string(), 13u32)];
    let usages = StreamsHandler.stream_usages(15, Some(&dbi), Some((Some(5), None)), None, &named);
    let mut valid = vec![true; 15];
    valid[14] = false;
    valid[6] = false;
    let mut sizes = vec![0u32; 15];
    sizes[3] = 1234;
    sizes[12] = 4_000_000_000;
    let items = StreamsHandler.items(&valid, &sizes, &usages);
    assert_eq!(items.len(), 15);
    assert_eq!(items[0], "✓ Stream #  0 │          0 bytes │ OldStreamDir");
    assert_eq!(items[1], "✓ Stream #  1 │          0 bytes │ PDB");
    assert_eq!(items[3], "✓ Stream #  3 │       1234 bytes │ DBI");
    assert_eq!(items[5], "✓ Stream #  5 │          0 bytes │ TypeStreamHashStream { parent_stream: 2 }");
    assert_eq!(items[6], "✗ Stream #  6 │          0 bytes │ nil");
    assert_eq!(items[7], "✓ Stream #  7 │          0 bytes │ GlobalSymbolIndex");
    assert_eq!(
        items[10],
        "✓ Stream # 10 │          0 bytes │ ModuleInfo { module_name: \"one.obj\", obj_name: \"one.obj\" }"
    );
    assert_eq!(
        items[12],
        "✓ Stream # 12 │ 4000000000 bytes │ OptionalDebugHeader { which: 1, whichs: Some(ExceptionData) }"
    );
    assert_eq!(items[13], "✓ Stream # 13 │          0 bytes │ Named { name: \"/names\\\"x\\\"\" }");
    assert_eq!(items[14], "✗ Stream # 14 │          0 bytes │ nil");
    let unknown: Vec<Option<StreamUsage>> = vec![None];
    assert_eq!(
        StreamsHandler.items(&vec![true], &vec![7], &unknown)[0],
        "✓ Stream #  0 │          7 bytes │ UNKNOWN USAGE"
    );
}

#[test]
fn stream_usage_names_are_escaped_as_debug_does() {
    for name in ["plain", "tab\there", "quote\"", "back\\slash", "nul\0", "bell\u{7}", "del\u{7f}", "it's", "é", "\u{301}", "\u{200b}", "ünï\r\n"] {
        let usages = vec![Some(StreamUsage::Named { name: name.to_string() })];
        let item = &StreamsHandler.items(&vec![true], &vec![0], &usages)[0];
        let expected = format!("✓ Stream #  0 │          0 bytes │ Named {{ name: {:?} }}", name);
        assert_eq!(item, &expected);
    }
}

#[test]
fn globals_captions() {
    assert_eq!(GlobalsHandler.shown(3), (3, false));
    assert_eq!(GlobalsHandler.shown(5000), (5000, false));
    assert_eq!(GlobalsHandler.shown(5001), (5000, true));
    assert_eq!(GlobalsHandler.item(0x1c, "S_PUB32 foo"), "[0000001c] S_PUB32 foo");
    assert_eq!(
        GlobalsHandler.more_symbols(),
        "... and more symbols (showing first 5000 - use CLI for complete output)"
    );
    assert_eq!(GlobalsHandler.summary(12, 4096), "Global Symbols (12 shown)\nStream size: 4096 bytes");
    assert_eq!(
        GlobalsHandler.unavailable("no stream"),
        "Global Symbol Stream not available\n\nError: no stream\n\nThis PDB may not contain global symbols or the stream may be corrupted."
    );
}

#[test]
fn types_captions() {
    let h = TypeStreamSummary {
        type_index_begin: 0x1000,
        type_index_end: 0x1234,
        num_types: 0x234,
        num_hash_buckets: 0x3ffff,
        hash_key_size: 4,
    };
    assert_eq!(
        TypesHandler.summary(&Some(h)),
        "Type Information (TPI Stream)\n\nType range: T#00001000 - T#00001234 (564 types)\nHash buckets: 262143, Hash key size: 4"
    );
    assert_eq!(
        TypesHandler.summary(&None),
        "Type Information (TPI Stream)\n\nType stream header not available"
    );
    assert_eq!(TypesHandler.shown(20000), (10000, true));
    assert_eq!(
        TypesHandler.more_types(20000, 10000),
        "... and 10000 more types (showing first 10000 - use CLI for complete output)"
    );
    assert_eq!(
        TypesHandler.hint(10000, 564),
        "Navigation: ↑/↓ navigate | PgUp/PgDn page | Tab switch panels | / search\nShowing 564 types (limit: 10000 - increase available on request)\nFor complete type details with field lists, use CLI: pdbtool dump <file.pdb> tpi"
    );
}

#[test]
fn single_stream_summaries() {
    let h = SingleStreamHandler { stream_index: 3 };
    assert_eq!(h.summary(false, 0, "DBI"), "Stream #3 is invalid (nil stream)");
    assert_eq!(h.summary(true, 900, "DBI"), "Stream #3 (900 bytes) - 900 bytes\n└─ Type: DBI");
    assert_eq!(h.summary(true, 1280, "DBI"), "Stream #3 (1.2 KB) - 1280 bytes\n└─ Type: DBI");
    assert_eq!(h.dump_extent(100), (100, None));
    assert_eq!(h.dump_extent(600), (600, Some(48)));
    assert_eq!(h.dump_extent(5000), (2048, Some(48)));
}

#[test]
fn empty_lists() {
    assert_eq!(
        GlobalsHandler.empty_list(0).as_deref(),
        Some("No global symbols found in this PDB file")
    );
    assert_eq!(GlobalsHandler.empty_list(1), None);
    assert_eq!(TypesHandler.empty_list(0).as_deref(), Some("No type records found in this PDB file"));
    assert_eq!(TypesHandler.empty_list(3), None);
}
