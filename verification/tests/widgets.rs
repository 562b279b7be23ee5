use pdb::tui::widgets::{bytes_per_line, create_hex_dump, create_hex_dump_with_width, error_text, list_title};

#[test]
fn bytes_per_line_follows_the_width() {
    assert_eq!(bytes_per_line(None), 24);
    assert_eq!(bytes_per_line(Some(80)), 11);
    assert_eq!(bytes_per_line(Some(10)), 8);
    assert_eq!(bytes_per_line(Some(200)), 32);
}

#[test]
fn short_dump_has_one_padded_line() {
    let d = create_hex_dump(b"AB\x00", 0x10, None);
    let expected = format!("00000010: 41 42 00 {} │AB.│\n", " ".repeat(64));
    assert_eq!(d.content, expected);
    assert_eq!(d.title, "Hex Dump (showing 3 bytes from offset 0x10)");
}

#[test]
fn limited_dump_tells_what_is_left() {
    let data: Vec<u8> = (0u8..30).collect();
    let d = create_hex_dump(&data, 0, Some(1));
    let mut line = String::from("00000000: ");
    for b in 0..24u8 {
        if b == 12 {
            line.push(' ');
        }
        line.push_str(&format!("{:02x} ", b));
    }
    line.push_str(" │");
    line.push_str(&".".repeat(24));
    line.push('│');
    let expected = format!("{line}\n\n... (6 more bytes not shown)");
    assert_eq!(d.content, expected);
    assert_eq!(d.title, "Hex Dump (showing 24 bytes from offset 0x0)");
}

#[test]
fn narrow_dump_uses_eight_bytes_and_wide_offsets() {
    let data = b"0123456789";
    let d = create_hex_dump_with_width(data, 0x1_0000_0000, Some(5), Some(20));
    let lines: Vec<&str> = d.content.split('\n').collect();
    assert_eq!(lines.len(), 3);
    assert_eq!(lines[2], "");
    assert_eq!(lines[0], "100000000: 30 31 32 33  34 35 36 37  │01234567│");
    assert_eq!(
        lines[1],
        format!("100000008: 38 39 {} │89│", " ".repeat(19))
    );
    assert_eq!(d.title, "Hex Dump (showing 10 bytes from offset 0x100000000)");
}

#[test]
fn empty_dump() {
    let d = create_hex_dump(&[], 0, None);
    assert_eq!(d.content, "");
    assert_eq!(d.title, "Hex Dump (showing 0 bytes from offset 0x0)");
}

#[test]
fn list_titles_and_errors() {
    assert_eq!(list_title(1), "Items");
    assert_eq!(list_title(3), "Items (3 total) - ↑/↓: navigate, PgUp/PgDn: page");
    assert_eq!(error_text("boom"), "Error: boom");
}
