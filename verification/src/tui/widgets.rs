//! The text of the widgets of the details panel: the hex dump of a stream, the title of a list
//! and the text of an error.

use crate::text::{
    count_hex_digits, decimal_chars, hex_chars, hex_digit_count, lemma_hex_digit_count_bound,
    padded_hex, push_char, push_decimal, push_hex, push_padded_hex,
};
use vstd::prelude::*;

verus! {

/// The number of bytes that each line of a hex dump shows, for an area `width` columns wide:
/// as many as fit after 20 columns of borders and padding and 15 of offset and separators, at
/// 4 columns a byte, but at least 8 and at most 32; 24 when the width is not known.
pub open spec fn spec_bytes_per_line(width: Option<u16>) -> nat {
    match width {
        Some(w) => {
            let usable: int = if w > 20 {
                w - 20
            } else {
                0
            };
            let max_bytes: int = if usable > 15 {
                (usable - 15) / 4
            } else {
                0
            };
            if max_bytes < 8 {
                8
            } else if max_bytes > 32 {
                32
            } else {
                max_bytes as nat
            }
        },
        None => 24,
    }
}

/// The number of bytes that each line of a hex dump shows.
pub fn bytes_per_line(width: Option<u16>) -> (r: usize)
    ensures
        r == spec_bytes_per_line(width),
        8 <= r <= 32,
{
    match width {
        Some(w) => {
            let usable = w.saturating_sub(20) as usize;
            let max_bytes = usable.saturating_sub(15) / 4;
            if max_bytes < 8 {
                8
            } else if max_bytes > 32 {
                32
            } else {
                max_bytes
            }
        },
        None => 24,
    }
}

/// The character that the ASCII column shows for a byte: printable ASCII and space as
/// themselves, everything else as a dot.
pub open spec fn display_char(b: u8) -> char {
    if 0x20 <= b <= 0x7E {
        b as char
    } else {
        '.'
    }
}

/// The hexadecimal column for the bytes of one line: each byte as two digits and a space, with
/// one more space before the byte in the middle of a full line.
pub open spec fn hex_bytes_part(chunk: Seq<u8>, bpl: nat) -> Seq<char>
    decreases chunk.len(),
{
    if chunk.len() == 0 {
        Seq::empty()
    } else {
        hex_bytes_part(chunk.drop_last(), bpl) + (if chunk.len() - 1 == bpl / 2 {
            " "@
        } else {
            Seq::empty()
        }) + hex_chars(chunk.last() as nat, 2) + " "@
    }
}

/// The blanks that stand for the missing bytes `from..bpl` of a short last line.
pub open spec fn pad_part(from: nat, bpl: nat) -> Seq<char>
    decreases bpl - from,
{
    if from >= bpl {
        Seq::empty()
    } else {
        (if from == bpl / 2 {
            " "@
        } else {
            Seq::empty()
        }) + "   "@ + pad_part(from + 1, bpl)
    }
}

/// The ASCII column for the bytes of one line.
pub open spec fn ascii_part(chunk: Seq<u8>) -> Seq<char> {
    chunk.map_values(|b: u8| display_char(b))
}

/// One line of the hex dump: the offset, the bytes in hexadecimal, and the bytes as text.
pub open spec fn hex_line(chunk: Seq<u8>, offset: nat, bpl: nat) -> Seq<char> {
    padded_hex(offset, 8) + ": "@ + hex_bytes_part(chunk, bpl) + pad_part(chunk.len(), bpl)
        + " │"@ + ascii_part(chunk) + "│"@
}

/// The lines for the bytes `d`, which start at `offset`, when `k` more lines may be shown:
/// a line per `bpl` bytes, each followed by a newline unless it is the last line of the data
/// and the last line allowed; then, if bytes are left when no line may be shown, a note that
/// says how many.
pub open spec fn hex_dump_body(d: Seq<u8>, offset: nat, bpl: nat, k: nat) -> Seq<char>
    decreases d.len(),
{
    if d.len() == 0 || bpl == 0 {
        Seq::empty()
    } else if k == 0 {
        "\n... ("@ + decimal_chars(d.len()) + " more bytes not shown)"@
    } else {
        let n = if d.len() < bpl {
            d.len()
        } else {
            bpl
        };
        hex_line(d.take(n as int), offset, bpl) + (if d.len() > bpl || k > 1 {
            "\n"@
        } else {
            Seq::empty()
        }) + hex_dump_body(d.skip(n as int), offset + bpl, bpl, (k - 1) as nat)
    }
}

/// One step of the dump: the first line of `d`, its newline, then the rest from the next
/// offset.
proof fn lemma_body_step(d: Seq<u8>, offset: nat, bpl: nat, k: nat)
    requires
        d.len() > 0,
        bpl > 0,
        k > 0,
    ensures
        ({
            let n = if d.len() < bpl {
                d.len()
            } else {
                bpl
            };
            hex_dump_body(d, offset, bpl, k) == hex_line(d.take(n as int), offset, bpl) + (if d.len()
                > bpl || k > 1 {
                "\n"@
            } else {
                Seq::<char>::empty()
            }) + hex_dump_body(d.skip(n as int), offset + n, bpl, (k - 1) as nat)
        }),
{
    let n = if d.len() < bpl {
        d.len()
    } else {
        bpl
    };
    if n < bpl {
        assert(d.skip(n as int).len() == 0);
        assert(hex_dump_body(d.skip(n as int), offset + n, bpl, (k - 1) as nat) =~= Seq::<
            char,
        >::empty());
        assert(hex_dump_body(d.skip(n as int), offset + bpl, bpl, (k - 1) as nat) =~= Seq::<
            char,
        >::empty());
    }
}

/// The title of the hex dump: how many bytes it shows, at most the limit of lines times the
/// bytes per line, and from which offset.
pub open spec fn hex_dump_title(len: nat, start_offset: nat, limit: nat, bpl: nat) -> Seq<char> {
    "Hex Dump (showing "@ + decimal_chars(if len < limit * bpl {
        len
    } else {
        limit * bpl
    }) + " bytes from offset 0x"@ + hex_chars(start_offset, hex_digit_count(start_offset)) + ")"@
}

/// The text of a hex dump widget.
#[derive(Debug)]
pub struct HexDumpText {
    /// The title of the widget.
    pub title: String,
    /// The lines of the dump.
    pub content: String,
}

/// Appends the hexadecimal column of the bytes `data[start..end]`.
fn push_hex_bytes(s: &mut String, data: &[u8], start: usize, end: usize, bpl: usize)
    requires
        start <= end <= data@.len(),
    ensures
        final(s)@ == old(s)@ + hex_bytes_part(data@.subrange(start as int, end as int), bpl as nat),
{
    let ghost chunk = data@.subrange(start as int, end as int);
    let mut j: usize = 0;
    let n = end - start;
    assert(chunk.take(0) =~= Seq::<u8>::empty());
    assert(old(s)@ + hex_bytes_part(chunk.take(0), bpl as nat) =~= old(s)@);
    while j < n
        invariant
            n == end - start,
            start <= end <= data@.len(),
            chunk == data@.subrange(start as int, end as int),
            j <= n,
            s@ == old(s)@ + hex_bytes_part(chunk.take(j as int), bpl as nat),
        decreases n - j,
    {
        let ghost before = s@;
        if j == bpl / 2 {
            push_char(s, ' ');
        }
        let ghost mid = s@;
        let b = data[start + j];
        push_hex(s, b as usize, 2);
        push_char(s, ' ');
        proof {
            assert(chunk.take(j as int + 1).drop_last() =~= chunk.take(j as int));
            assert(chunk.take(j as int + 1).last() == b);
            if j == bpl / 2 {
                assert(mid =~= before + " "@) by {
                    reveal_strlit(" ");
                }
            } else {
                assert(mid =~= before + Seq::<char>::empty());
            }
            reveal_strlit(" ");
            assert(s@ =~= old(s)@ + hex_bytes_part(chunk.take(j as int + 1), bpl as nat));
        }
        j = j + 1;
    }
    assert(chunk.take(n as int) =~= chunk);
}

/// Appends the blanks for the missing bytes `from..bpl` of a short line.
fn push_padding(s: &mut String, from: usize, bpl: usize)
    ensures
        final(s)@ == old(s)@ + pad_part(from as nat, bpl as nat),
{
    let mut j = from;
    while j < bpl
        invariant
            from <= j,
            j <= bpl || j == from,
            s@ + pad_part(j as nat, bpl as nat) == old(s)@ + pad_part(from as nat, bpl as nat),
        decreases bpl - j,
    {
        let ghost before = s@;
        if j == bpl / 2 {
            push_char(s, ' ');
        }
        s.append("   ");
        proof {
            reveal_strlit(" ");
            if j == bpl / 2 {
                assert(s@ =~= before + (" "@ + "   "@));
            } else {
                assert(s@ =~= before + (Seq::<char>::empty() + "   "@));
            }
            assert(s@ + pad_part((j + 1) as nat, bpl as nat) =~= before + pad_part(
                j as nat,
                bpl as nat,
            ));
        }
        j = j + 1;
    }
    assert(s@ + pad_part(j as nat, bpl as nat) =~= s@);
}

/// Appends the ASCII column of the bytes `data[start..end]`.
fn push_ascii(s: &mut String, data: &[u8], start: usize, end: usize)
    requires
        start <= end <= data@.len(),
    ensures
        final(s)@ == old(s)@ + ascii_part(data@.subrange(start as int, end as int)),
{
    let ghost chunk = data@.subrange(start as int, end as int);
    let mut j = start;
    while j < end
        invariant
            start <= j <= end <= data@.len(),
            chunk == data@.subrange(start as int, end as int),
            s@ == old(s)@ + ascii_part(chunk.take(j - start)),
        decreases end - j,
    {
        let b = data[j];
        let c = if 0x20 <= b && b <= 0x7E {
            b as char
        } else {
            '.'
        };
        push_char(s, c);
        proof {
            assert(ascii_part(chunk.take(j - start + 1)) =~= ascii_part(chunk.take(j - start)).push(
                display_char(b),
            ));
        }
        j = j + 1;
    }
    assert(chunk.take(end - start) =~= chunk);
}

/// Appends one line of the dump: the bytes `data[start..end]` at `offset`.
fn push_hex_line(s: &mut String, data: &[u8], start: usize, end: usize, offset: usize, bpl: usize)
    requires
        start <= end <= data@.len(),
        end - start <= bpl,
    ensures
        final(s)@ == old(s)@ + hex_line(
            data@.subrange(start as int, end as int),
            offset as nat,
            bpl as nat,
        ),
{
    push_padded_hex(s, offset, 8);
    s.append(": ");
    push_hex_bytes(s, data, start, end, bpl);
    push_padding(s, end - start, bpl);
    s.append(" │");
    push_ascii(s, data, start, end);
    s.append("│");
    assert(final(s)@ =~= old(s)@ + hex_line(
        data@.subrange(start as int, end as int),
        offset as nat,
        bpl as nat,
    ));
}

/// The text of a hex dump of `data`, whose first byte is at `start_offset`: at most
/// `max_lines` lines (50 when absent), as many bytes per line as an area `available_width`
/// columns wide holds.
pub fn create_hex_dump_with_width(
    data: &[u8],
    start_offset: usize,
    max_lines: Option<usize>,
    available_width: Option<u16>,
) -> (r: HexDumpText)
    requires
        start_offset + data@.len() <= usize::MAX,
        max_lines matches Some(l) ==> l * spec_bytes_per_line(available_width) <= usize::MAX,
    ensures
        ({
            let bpl = spec_bytes_per_line(available_width);
            let limit: nat = match max_lines {
                Some(l) => l as nat,
                None => 50,
            };
            &&& r.content@ == hex_dump_body(data@, start_offset as nat, bpl, limit)
            &&& r.title@ == hex_dump_title(data@.len(), start_offset as nat, limit, bpl)
        }),
{
    let bpl = bytes_per_line(available_width);
    let limit = match max_lines {
        Some(l) => l,
        None => 50,
    };
    let mut content = String::new();
    let mut pos: usize = 0;
    let mut offset = start_offset;
    let mut k = limit;
    let ghost target = hex_dump_body(data@, start_offset as nat, bpl as nat, limit as nat);
    assert(data@.skip(0) =~= data@);
    loop
        invariant_except_break
            content@ + hex_dump_body(data@.skip(pos as int), offset as nat, bpl as nat, k as nat)
                == target,
        invariant
            8 <= bpl <= 32,
            pos <= data@.len(),
            offset == start_offset + pos,
            start_offset + data@.len() <= usize::MAX,
        ensures
            content@ == target,
        decreases data@.len() - pos,
    {
        let ghost d = data@.skip(pos as int);
        if pos == data.len() {
            assert(content@ + Seq::<char>::empty() =~= content@);
            break ;
        }
        if k == 0 {
            let ghost before = content@;
            content.append("\n... (");
            push_decimal(&mut content, data.len() - pos);
            content.append(" more bytes not shown)");
            assert(content@ =~= before + hex_dump_body(d, offset as nat, bpl as nat, k as nat));
            break ;
        }
        let n = if data.len() - pos < bpl {
            data.len() - pos
        } else {
            bpl
        };
        let ghost before = content@;
        push_hex_line(&mut content, data, pos, pos + n, offset, bpl);
        let more = data.len() - pos > bpl || k > 1;
        if more {
            content.append("\n");
        }
        proof {
            lemma_body_step(d, offset as nat, bpl as nat, k as nat);
            assert(data@.subrange(pos as int, pos + n) =~= d.take(n as int));
            assert(d.skip(n as int) =~= data@.skip(pos + n));
            let nl = if more {
                "\n"@
            } else {
                Seq::<char>::empty()
            };
            assert(content@ =~= before + hex_line(d.take(n as int), offset as nat, bpl as nat) + nl);
        }
        pos = pos + n;
        offset = offset + n;
        k = k - 1;
    }
    let shown = if data.len() < limit * bpl {
        data.len()
    } else {
        limit * bpl
    };
    let mut title = String::from_str("Hex Dump (showing ");
    push_decimal(&mut title, shown);
    title.append(" bytes from offset 0x");
    proof {
        lemma_hex_digit_count_bound(start_offset as nat);
    }
    let digits = count_hex_digits(start_offset);
    push_hex(&mut title, start_offset, digits);
    title.append(")");
    HexDumpText { title, content }
}

/// The text of a hex dump of `data`, with 24 bytes per line.
pub fn create_hex_dump(data: &[u8], start_offset: usize, max_lines: Option<usize>) -> (r: HexDumpText)
    requires
        start_offset + data@.len() <= usize::MAX,
        max_lines matches Some(l) ==> l * 24 <= usize::MAX,
    ensures
        ({
            let limit: nat = match max_lines {
                Some(l) => l as nat,
                None => 50,
            };
            &&& r.content@ == hex_dump_body(data@, start_offset as nat, 24, limit)
            &&& r.title@ == hex_dump_title(data@.len(), start_offset as nat, limit, 24)
        }),
{
    create_hex_dump_with_width(data, start_offset, max_lines, None)
}

/// The title of a list of `item_count` items.
pub fn list_title(item_count: usize) -> (r: String)
    ensures
        r@ == (if item_count > 1 {
            "Items ("@ + decimal_chars(item_count as nat) + " total) - ↑/↓: navigate, PgUp/PgDn: page"@
        } else {
            "Items"@
        }),
{
    if item_count > 1 {
        let mut s = String::from_str("Items (");
        push_decimal(&mut s, item_count);
        s.append(" total) - ↑/↓: navigate, PgUp/PgDn: page");
        s
    } else {
        String::from_str("Items")
    }
}

/// The text of an error widget.
pub fn error_text(error: &str) -> (r: String)
    ensures
        r@ == "Error: "@ + error@,
{
    let mut s = String::from_str("Error: ");
    s.append(error);
    s
}

} // verus!
