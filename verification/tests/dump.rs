use pdb::dbi::modules::ModuleInfoFixed;
use pdb::dbi::section_contrib::SectionContribEntry;
use pdb::dbi::{DbiStream, EMPTY_DBI_STREAM_HEADER};
use pdb::dump::{
    hex_dump_window, hex_out_of_range_message, hex_window, module_stream_layout,
    modules_matching, modules_to_dump, regex_is_match, str_to_u32, ModuleStreamLayout,
    ParseU32Error, HEX_DUMP_DEFAULT_LEN,
};
use pdb::stream_index::StreamIndexU16;

#[test]
fn numbers_in_decimal_and_hex() {
    assert_eq!(str_to_u32("0"), Ok(0));
    assert_eq!(str_to_u32("4294967295"), Ok(u32::MAX));
    assert_eq!(str_to_u32("+17"), Ok(17));
    assert_eq!(str_to_u32("0x1F"), Ok(31));
    assert_eq!(str_to_u32("0xffffffff"), Ok(u32::MAX));
    assert_eq!(str_to_u32("0x+a"), Ok(10));
    assert_eq!(str_to_u32("010"), Ok(10));
}

#[test]
fn number_errors() {
    assert_eq!(str_to_u32(""), Err(ParseU32Error::Empty));
    assert_eq!(str_to_u32("0x"), Err(ParseU32Error::Empty));
    assert_eq!(str_to_u32("+"), Err(ParseU32Error::InvalidDigit));
    assert_eq!(str_to_u32("-1"), Err(ParseU32Error::InvalidDigit));
    assert_eq!(str_to_u32("12a"), Err(ParseU32Error::InvalidDigit));
    assert_eq!(str_to_u32("0X10"), Err(ParseU32Error::InvalidDigit));
    assert_eq!(str_to_u32("4294967296"), Err(ParseU32Error::PosOverflow));
    assert_eq!(str_to_u32("0x100000000"), Err(ParseU32Error::PosOverflow));
    assert_eq!(str_to_u32("99999999999x"), Err(ParseU32Error::PosOverflow));
}

#[test]
fn the_parser_agrees_with_std() {
    for s in ["", "1", "+", "+5", "-5", "0x", "0xg", "65535", "4294967295", "4294967296", "1_0"] {
        let ours = str_to_u32(s);
        let theirs = if let Some(after) = s.strip_prefix("0x") {
            u32::from_str_radix(after, 16)
        } else {
            s.parse::<u32>()
        };
        assert_eq!(ours.is_ok(), theirs.is_ok(), "{s}");
        if let (Ok(a), Ok(b)) = (ours, theirs) {
            assert_eq!(a, b);
        }
    }
}

#[test]
fn hex_window_defaults() {
    assert_eq!(hex_dump_window(&None, &None), Ok((0, HEX_DUMP_DEFAULT_LEN)));
    assert_eq!(
        hex_dump_window(&Some("0x10".to_string()), &Some("32".to_string())),
        Ok((16, 32))
    );
    assert_eq!(
        hex_dump_window(&Some("x".to_string()), &Some("".to_string())),
        Err(ParseU32Error::InvalidDigit)
    );
    assert_eq!(hex_dump_window(&None, &Some("".to_string())), Err(ParseU32Error::Empty));
}

fn fixed(sym: u32, c11: u32, c13: u32) -> ModuleInfoFixed {
    ModuleInfoFixed {
        unused1: 0,
        section_contrib: SectionContribEntry {
            section: 0,
            padding1: 0,
            offset: 0,
            size: 0,
            characteristics: 0,
            module_index: 0,
            padding2: 0,
            data_crc: 0,
            reloc_crc: 0,
        },
        flags: 0,
        stream: StreamIndexU16(5),
        sym_byte_size: sym,
        c11_byte_size: c11,
        c13_byte_size: c13,
        source_file_count: 0,
        padding: 0,
        unused2: 0,
        source_file_name_index: 0,
        pdb_file_path_name_index: 0,
    }
}

#[test]
fn module_stream_parts() {
    assert_eq!(
        module_stream_layout(&fixed(100, 0, 40), 200),
        ModuleStreamLayout {
            symbols: (0, 100),
            c11_lines: None,
            c13_lines: Some((100, 140)),
            global_refs: Some((140, 200)),
        }
    );
    assert_eq!(
        module_stream_layout(&fixed(8, 4, 0), 0),
        ModuleStreamLayout {
            symbols: (0, 8),
            c11_lines: Some((8, 12)),
            c13_lines: None,
            global_refs: None,
        }
    );
}

#[test]
fn choosing_modules() {
    let all = vec![true, false, true, true];
    assert_eq!(modules_to_dump(None, &all), vec![0, 2, 3]);
    assert_eq!(modules_to_dump(Some(2), &all), vec![2]);
    assert_eq!(modules_to_dump(Some(1), &all), Vec::<usize>::new());
    assert_eq!(modules_to_dump(Some(9), &all), Vec::<usize>::new());
}

fn dbi_with_objects(objs: &[&str]) -> DbiStream {
    let mut mods = Vec::new();
    for (i, obj) in objs.iter().enumerate() {
        let mut r = vec![0u8; 64];
        r[34..36].copy_from_slice(&0xFFFFu16.to_le_bytes());
        r.extend_from_slice(format!("m{i}").as_bytes());
        r.push(0);
        r.extend_from_slice(obj.as_bytes());
        r.push(0);
        while r.len() % 4 != 0 {
            r.push(0);
        }
        mods.extend(r);
    }
    let mut v = EMPTY_DBI_STREAM_HEADER.to_vec();
    v[24..28].copy_from_slice(&(mods.len() as u32).to_le_bytes());
    v.extend_from_slice(&mods);
    DbiStream::parse(v).unwrap()
}

#[test]
fn regular_expressions() {
    assert_eq!(regex_is_match("a.c", b"xxabcxx"), Some(true));
    assert_eq!(regex_is_match("^a.c$", b"xxabcxx"), Some(false));
    assert_eq!(regex_is_match("foo(bar", b"foo(bar"), None);
}

#[test]
fn modules_filtered_by_object_file() {
    let dbi = dbi_with_objects(&["a.obj", "lib\\b.lib", "c.obj", "d.res"]);
    let modules = dbi.iter_modules();
    assert_eq!(modules_matching(&modules, None, None), Some(vec![0, 1, 2, 3]));
    assert_eq!(modules_matching(&modules, None, Some(r"\.obj$")), Some(vec![0, 2]));
    assert_eq!(modules_matching(&modules, Some(2), Some(r"\.obj$")), Some(vec![2]));
    assert_eq!(modules_matching(&modules, Some(1), Some(r"\.obj$")), Some(vec![]));
    assert_eq!(modules_matching(&modules, Some(3), None), Some(vec![3]));
    assert_eq!(modules_matching(&modules, None, Some("lib(")), None);
    assert_eq!(modules_matching(&Vec::new(), None, Some("lib(")), None);
    assert_eq!(modules_matching(&Vec::new(), None, Some("x")), Some(vec![]));
}

#[test]
fn hex_windows() {
    assert_eq!(hex_window(100, 0, 0x200, None), Some((0, 100)));
    assert_eq!(hex_window(100, 10, 20, None), Some((10, 30)));
    assert_eq!(hex_window(100, 100, 20, None), Some((100, 100)));
    assert_eq!(hex_window(100, 101, 20, None), None);
    assert_eq!(hex_window(100, 5, 50, Some((20, 30))), Some((25, 35)));
    assert_eq!(hex_window(100, 90, 50, Some((20, 30))), None);
}

#[test]
fn hex_offset_out_of_range() {
    assert_eq!(
        hex_out_of_range_message(300, 255),
        "Offset 0x12c (300) is out of range for the stream size.\nStream length: 0xff (255)."
    );
    assert_eq!(
        hex_out_of_range_message(1, 0),
        "Offset 0x1 (1) is out of range for the stream size.\nStream length: 0x0 (0)."
    );
}
