//! The options of the `dump` command and the parsing of its numeric arguments.

use crate::dbi::modules::{ModuleInfo, ModuleInfoFixed, ModuleInfoView};
use crate::text::{chars_of, decimal_chars, padded_hex, push_decimal, push_padded_hex};
use vstd::prelude::*;

verus! {

/// Options of the `dump` command.
pub struct DumpOptions {
    /// The PDB file to read.
    pub pdb: String,
    /// Dump line data the way cvdump does.
    pub lines_like_cvdump: bool,
    /// What to dump.
    pub subcommand: Subcommand,
}

/// What the `dump` command shows.
pub enum Subcommand {
    /// The DBI stream header and the ranges of its substreams.
    Dbi,
    /// The Edit-and-Continue substream of the DBI stream.
    DbiEnc,
    /// The Type Server Map substream of the DBI stream.
    DbiTypeServerMap,
    /// The Module Info records.
    Modules(ModulesOptions),
    /// The Section Map substream.
    SectionMap,
    /// The Section Contributions substream.
    SectionContribs,
    /// A hex dump of part of a stream.
    Hex {
        /// The stream to dump.
        stream: String,
        /// The offset of the first byte, decimal or `0x` hexadecimal.
        offset: Option<String>,
        /// The number of bytes, decimal or `0x` hexadecimal.
        len: Option<String>,
    },
}

/// Options of the `dump modules` command.
pub struct ModulesOptions {
    /// Show only the modules whose object file name matches this regular expression.
    pub obj: Option<String>,
    /// Show only the module with this index.
    pub module: Option<u32>,
}

/// Why a string is not a `u32`, as the standard library's integer parsing reports it.
#[derive(Clone, Copy, Debug, PartialEq, Eq)]
pub enum ParseU32Error {
    /// The string is empty.
    Empty,
    /// The string holds a character that is not a digit of the radix.
    InvalidDigit,
    /// The value does not fit in a `u32`.
    PosOverflow,
}

/// The value of `c` as a digit in `radix` (10 or 16; letters in either case).
pub open spec fn digit_value(c: char, radix: int) -> Option<int> {
    if '0' <= c <= '9' && (c as int) - ('0' as int) < radix {
        Some((c as int) - ('0' as int))
    } else if radix == 16 && 'a' <= c <= 'f' {
        Some((c as int) - ('a' as int) + 10)
    } else if radix == 16 && 'A' <= c <= 'F' {
        Some((c as int) - ('A' as int) + 10)
    } else {
        None
    }
}

/// Reading the first `n` digits of `s` from the left: the value so far, or the first error,
/// which is either a character that is not a digit or a value that passes `u32::MAX`.
pub open spec fn digits_prefix(s: Seq<char>, radix: int, n: nat) -> Result<int, ParseU32Error>
    decreases n,
{
    if n == 0 {
        Ok(0)
    } else {
        match digits_prefix(s, radix, (n - 1) as nat) {
            Err(e) => Err(e),
            Ok(v) => match digit_value(s[n - 1], radix) {
                None => Err(ParseU32Error::InvalidDigit),
                Some(d) => if v * radix + d > u32::MAX {
                    Err(ParseU32Error::PosOverflow)
                } else {
                    Ok(v * radix + d)
                },
            },
        }
    }
}

/// What parsing `s` as an unsigned integer in `radix` gives: the empty string is an error of
/// its own; a leading `+` is allowed, but not alone; then every character must be a digit.
pub open spec fn spec_parse_u32(s: Seq<char>, radix: int) -> Result<u32, ParseU32Error> {
    if s.len() == 0 {
        Err(ParseU32Error::Empty)
    } else {
        let digits = if s[0] == '+' {
            s.drop_first()
        } else {
            s
        };
        if digits.len() == 0 {
            Err(ParseU32Error::InvalidDigit)
        } else {
            match digits_prefix(digits, radix, digits.len()) {
                Ok(v) => Ok(v as u32),
                Err(e) => Err(e),
            }
        }
    }
}

/// What `str_to_u32` gives: hexadecimal after a `0x` prefix, decimal otherwise.
pub open spec fn spec_str_to_u32(s: Seq<char>) -> Result<u32, ParseU32Error> {
    if s.len() >= 2 && s[0] == '0' && s[1] == 'x' {
        spec_parse_u32(s.subrange(2, s.len() as int), 16)
    } else {
        spec_parse_u32(s, 10)
    }
}

/// The value of `c` as a digit in `radix`.
fn char_digit(c: char, radix: u32) -> (r: Option<u32>)
    requires
        radix == 10 || radix == 16,
    ensures
        match digit_value(c, radix as int) {
            Some(d) => r == Some(d as u32),
            None => r is None,
        },
{
    if '0' <= c && c <= '9' && (c as u32) - ('0' as u32) < radix {
        Some((c as u32) - ('0' as u32))
    } else if radix == 16 && 'a' <= c && c <= 'f' {
        Some((c as u32) - ('a' as u32) + 10)
    } else if radix == 16 && 'A' <= c && c <= 'F' {
        Some((c as u32) - ('A' as u32) + 10)
    } else {
        None
    }
}

/// Parses the characters of `s` from `start` on as an unsigned integer in `radix`.
fn parse_u32_from(s: &Vec<char>, start: usize, radix: u32) -> (r: Result<u32, ParseU32Error>)
    requires
        start <= s@.len(),
        radix == 10 || radix == 16,
    ensures
        r == spec_parse_u32(s@.subrange(start as int, s@.len() as int), radix as int),
{
    let ghost t = s@.subrange(start as int, s@.len() as int);
    if start == s.len() {
        return Err(ParseU32Error::Empty);
    }
    let mut i = start;
    if s[i] == '+' {
        i = i + 1;
    }
    let ghost digits = s@.subrange(i as int, s@.len() as int);
    proof {
        if t[0] == '+' {
            assert(t.drop_first() =~= digits);
        } else {
            assert(t =~= digits);
        }
    }
    if i == s.len() {
        return Err(ParseU32Error::InvalidDigit);
    }
    let first = i;
    let mut value: u32 = 0;
    while i < s.len()
        invariant
            first <= i <= s@.len(),
            radix == 10 || radix == 16,
            digits == s@.subrange(first as int, s@.len() as int),
            t == s@.subrange(start as int, s@.len() as int),
            t.len() > 0,
            digits.len() > 0,
            digits == (if t[0] == '+' {
                t.drop_first()
            } else {
                t
            }),
            digits_prefix(digits, radix as int, (i - first) as nat) == Ok::<int, ParseU32Error>(
                value as int,
            ),
        decreases s@.len() - i,
    {
        let ghost n = (i - first + 1) as nat;
        assert(digits[n - 1] == s@[i as int]);
        match char_digit(s[i], radix) {
            None => {
                proof {
                    lemma_digits_prefix_error_stays(digits, radix as int, n, digits.len());
                }
                return Err(ParseU32Error::InvalidDigit);
            },
            Some(d) => {
                if value as u64 * radix as u64 + d as u64 > u32::MAX as u64 {
                    proof {
                        lemma_digits_prefix_error_stays(digits, radix as int, n, digits.len());
                    }
                    return Err(ParseU32Error::PosOverflow);
                }
                value = value * radix + d;
            },
        }
        i = i + 1;
    }
    Ok(value)
}

/// Once reading the digits has failed, it fails with the same error on every longer prefix.
proof fn lemma_digits_prefix_error_stays(s: Seq<char>, radix: int, n: nat, m: nat)
    requires
        n <= m,
        digits_prefix(s, radix, n) is Err,
    ensures
        digits_prefix(s, radix, m) == digits_prefix(s, radix, n),
    decreases m - n,
{
    if n < m {
        lemma_digits_prefix_error_stays(s, radix, n, (m - 1) as nat);
    }
}

/// Parses a number given on the command line: hexadecimal after a `0x` prefix, decimal
/// otherwise, as the standard library parses a `u32`.
pub fn str_to_u32(s: &str) -> (r: Result<u32, ParseU32Error>)
    ensures
        r == spec_str_to_u32(s@),
{
    let chars = chars_of(s);
    if chars.len() >= 2 && chars[0] == '0' && chars[1] == 'x' {
        parse_u32_from(&chars, 2, 16)
    } else {
        proof {
            assert(chars@.subrange(0, chars@.len() as int) =~= chars@);
        }
        parse_u32_from(&chars, 0, 10)
    }
}

/// The default number of bytes that `dump hex` shows.
pub const HEX_DUMP_DEFAULT_LEN: u32 = 0x200;

/// An optional argument: the number that it holds, or `default` when it is absent.
pub open spec fn spec_optional_arg(a: Option<String>, default: u32) -> Result<u32, ParseU32Error> {
    match a {
        Some(s) => spec_str_to_u32(s@),
        None => Ok(default),
    }
}

/// The offset and the length that `dump hex` uses: the parsed arguments, or 0 and 0x200 where
/// they are absent. The first argument that does not parse gives the error.
pub fn hex_dump_window(offset: &Option<String>, len: &Option<String>) -> (r: Result<
    (u32, u32),
    ParseU32Error,
>)
    ensures
        r == match (spec_optional_arg(*offset, 0), spec_optional_arg(*len, HEX_DUMP_DEFAULT_LEN)) {
            (Err(e), _) => Err(e),
            (Ok(_), Err(e)) => Err(e),
            (Ok(o), Ok(l)) => Ok((o, l)),
        },
{
    let o = match offset {
        Some(s) => str_to_u32(s.as_str())?,
        None => 0,
    };
    let l = match len {
        Some(s) => str_to_u32(s.as_str())?,
        None => HEX_DUMP_DEFAULT_LEN,
    };
    Ok((o, l))
}

/// The part of a stream of `stream_len` bytes that `dump hex` shows: from `offset` on, at most
/// `len` bytes. A named part of the stream, `range`, moves the offset to its start and caps the
/// length at its own. `None` where the offset lies past the end of the stream.
pub open spec fn spec_hex_window(stream_len: nat, offset: nat, len: nat, range: Option<(usize, usize)>) -> Option<
    (nat, nat),
> {
    let (o, l) = match range {
        Some((start, end)) => (
            (offset + start) as nat,
            if len <= end - start {
                len
            } else {
                (end - start) as nat
            },
        ),
        None => (offset, len),
    };
    if o <= stream_len {
        Some((o, if l <= stream_len - o { o + l } else { stream_len }))
    } else {
        None
    }
}

/// The start and end of the bytes that `dump hex` shows of a stream of `stream_len` bytes.
pub fn hex_window(stream_len: usize, offset: usize, len: usize, range: Option<(usize, usize)>) -> (r:
    Option<(usize, usize)>)
    requires
        range matches Some((start, end)) ==> start <= end && offset + start <= usize::MAX,
    ensures
        match spec_hex_window(stream_len as nat, offset as nat, len as nat, range) {
            Some((a, b)) => r == Some((a as usize, b as usize)),
            None => r is None,
        },
{
    let (o, l) = match range {
        Some((start, end)) => (offset + start, if len <= end - start {
            len
        } else {
            end - start
        }),
        None => (offset, len),
    };
    if o <= stream_len {
        Some((o, if l <= stream_len - o {
            o + l
        } else {
            stream_len
        }))
    } else {
        None
    }
}

/// What `dump hex` prints when the offset lies past the end of the stream.
pub open spec fn hex_out_of_range_text(offset: nat, stream_len: nat) -> Seq<char> {
    "Offset 0x"@ + padded_hex(offset, 1) + " ("@ + decimal_chars(offset)
        + ") is out of range for the stream size.\nStream length: 0x"@ + padded_hex(stream_len, 1)
        + " ("@ + decimal_chars(stream_len) + ")."@
}

/// The two lines that `dump hex` prints when the offset lies past the end of the stream.
pub fn hex_out_of_range_message(offset: usize, stream_len: usize) -> (r: String)
    ensures
        r@ == hex_out_of_range_text(offset as nat, stream_len as nat),
{
    let mut s = String::from_str("Offset 0x");
    push_padded_hex(&mut s, offset, 1);
    s.append(" (");
    push_decimal(&mut s, offset);
    s.append(") is out of range for the stream size.\nStream length: 0x");
    push_padded_hex(&mut s, stream_len, 1);
    s.append(" (");
    push_decimal(&mut s, stream_len);
    s.append(").");
    s
}

/// Where the parts of a module stream lie: the symbols, the C11 and C13 line data (when
/// there is some), and the global references that follow them (when the stream is longer).
#[derive(Clone, Copy, Debug, PartialEq, Eq)]
pub struct ModuleStreamLayout {
    /// The start and end of the symbols.
    pub symbols: (u32, u32),
    /// The start and end of the C11 line data.
    pub c11_lines: Option<(u32, u32)>,
    /// The start and end of the C13 line data.
    pub c13_lines: Option<(u32, u32)>,
    /// The start and end of the global references.
    pub global_refs: Option<(u32, u64)>,
}

/// The layout of the stream of a module whose fixed record is `h`, in a stream of
/// `stream_len` bytes. The global references are shown when the stream is longer than the
/// C13 line data alone.
pub open spec fn spec_module_stream_layout(h: ModuleInfoFixed, stream_len: u64) -> ModuleStreamLayout {
    let sym = h.sym_byte_size;
    let c11 = h.c11_byte_size;
    let c13 = h.c13_byte_size;
    ModuleStreamLayout {
        symbols: (0, sym),
        c11_lines: if c11 != 0 {
            Some((sym, (sym + c11) as u32))
        } else {
            None
        },
        c13_lines: if c13 != 0 {
            Some(((sym + c11) as u32, (sym + c11 + c13) as u32))
        } else {
            None
        },
        global_refs: if stream_len > c13 {
            Some(((sym + c11 + c13) as u32, stream_len))
        } else {
            None
        },
    }
}

/// The layout of the stream of a module.
pub fn module_stream_layout(h: &ModuleInfoFixed, stream_len: u64) -> (r: ModuleStreamLayout)
    requires
        h.sym_byte_size + h.c11_byte_size + h.c13_byte_size <= u32::MAX,
    ensures
        r == spec_module_stream_layout(*h, stream_len),
{
    let sym = h.sym_byte_size;
    let c11_end = sym + h.c11_byte_size;
    let c13_end = c11_end + h.c13_byte_size;
    ModuleStreamLayout {
        symbols: (0, sym),
        c11_lines: if h.c11_byte_size != 0 {
            Some((sym, c11_end))
        } else {
            None
        },
        c13_lines: if h.c13_byte_size != 0 {
            Some((c11_end, c13_end))
        } else {
            None
        },
        global_refs: if stream_len > h.c13_byte_size as u64 {
            Some((c13_end, stream_len))
        } else {
            None
        },
    }
}

/// The parts of a module stream tile it in order: the symbols start at 0 and are as long as the
/// record says; the C11 line data, when there is some, starts where the symbols end; the C13
/// line data, when there is some, starts where the parts before it end; the global references
/// start where the C13 line data (or the parts before) end and run to the end of the stream.
/// Each part is there exactly when its length is not zero, and the global references when the
/// stream is longer than the C13 line data.
pub proof fn lemma_module_stream_parts_tile(h: ModuleInfoFixed, stream_len: u64)
    requires
        h.sym_byte_size + h.c11_byte_size + h.c13_byte_size <= u32::MAX,
    ensures
        ({
            let l = spec_module_stream_layout(h, stream_len);
            let end_c11: int = match l.c11_lines {
                Some((_, b)) => b as int,
                None => l.symbols.1 as int,
            };
            let end_c13: int = match l.c13_lines {
                Some((_, b)) => b as int,
                None => end_c11,
            };
            &&& l.symbols.0 == 0 && l.symbols.1 == h.sym_byte_size
            &&& (l.c11_lines is Some <==> h.c11_byte_size != 0)
            &&& (l.c13_lines is Some <==> h.c13_byte_size != 0)
            &&& (l.global_refs is Some <==> stream_len > h.c13_byte_size)
            &&& l.c11_lines matches Some((a, b)) ==> a == l.symbols.1 && b - a == h.c11_byte_size
            &&& l.c13_lines matches Some((a, b)) ==> a == end_c11 && b - a == h.c13_byte_size
            &&& l.global_refs matches Some((g, e)) ==> g == end_c13 && e == stream_len
            &&& end_c13 == h.sym_byte_size + h.c11_byte_size + h.c13_byte_size
        }),
{
}

/// The module is chosen: it is the one asked for, if one is, and its object file matches the
/// filter.
pub open spec fn module_chosen(i: int, module: Option<u32>, obj_matches: Seq<bool>) -> bool {
    (module matches Some(m) ==> i == m) && obj_matches[i]
}

/// The indices of the modules that `dump modules` shows, in order, out of the first `n`.
pub open spec fn chosen_modules(n: int, module: Option<u32>, obj_matches: Seq<bool>) -> Seq<usize>
    decreases n,
{
    if n <= 0 {
        Seq::empty()
    } else if module_chosen(n - 1, module, obj_matches) {
        chosen_modules(n - 1, module, obj_matches).push((n - 1) as usize)
    } else {
        chosen_modules(n - 1, module, obj_matches)
    }
}

/// The indices of the modules to show: each module whose index is `module`, when one is asked
/// for, and whose object file matches the filter (`obj_matches` holds, for each module, whether
/// it does).
pub fn modules_to_dump(module: Option<u32>, obj_matches: &Vec<bool>) -> (r: Vec<usize>)
    ensures
        r@ == chosen_modules(obj_matches@.len() as int, module, obj_matches@),
{
    let mut out: Vec<usize> = Vec::new();
    let mut i: usize = 0;
    while i < obj_matches.len()
        invariant
            i <= obj_matches@.len(),
            out@ == chosen_modules(i as int, module, obj_matches@),
        decreases obj_matches@.len() - i,
    {
        let wanted = match module {
            Some(m) => i == m as usize,
            None => true,
        };
        if wanted && obj_matches[i] {
            out.push(i);
        }
        i = i + 1;
    }
    out
}

/// Whether the regular expression `pattern` compiles, as `regex::bytes::Regex::new` decides
/// it (its syntax, and the default size limit of the compiled program).
pub uninterp spec fn spec_regex_valid(pattern: Seq<char>) -> bool;

/// Whether the compiled `pattern` matches somewhere in `haystack`, as
/// `regex::bytes::Regex::is_match` finds it.
pub uninterp spec fn spec_regex_is_match(pattern: Seq<char>, haystack: Seq<u8>) -> bool;

/// Compiles `pattern` with `regex::bytes::Regex::new` and, when it compiles, asks
/// `Regex::is_match` whether it matches anywhere in `haystack`. `None` exactly when the pattern
/// does not compile; both outcomes depend on the pattern and the bytes alone.
#[verifier::external_body]
pub fn regex_is_match(pattern: &str, haystack: &[u8]) -> (r: Option<bool>)
    ensures
        r is Some <==> spec_regex_valid(pattern@),
        r matches Some(b) ==> b == spec_regex_is_match(pattern@, haystack@),
{
    match regex::bytes::Regex::new(pattern) {
        Ok(rx) => Some(rx.is_match(haystack)),
        Err(_) => None,
    }
}

/// For each module, whether its object file passes the filter: always without a pattern, else
/// where the pattern matches it.
pub open spec fn obj_filter_flags(modules: Seq<ModuleInfoView>, obj: Option<&str>) -> Seq<bool> {
    Seq::new(
        modules.len(),
        |i: int|
            match obj {
                Some(p) => spec_regex_is_match(p@, modules[i].obj_file),
                None => true,
            },
    )
}

/// The indices of the modules that `dump modules` shows: the module asked for, if one is, whose
/// object file the regular expression `obj` matches, if one is given. `None` where `obj` does
/// not compile.
pub fn modules_matching(modules: &Vec<ModuleInfo>, module: Option<u32>, obj: Option<&str>) -> (r:
    Option<Vec<usize>>)
    ensures
        r is None <==> (obj matches Some(p) && !spec_regex_valid(p@)),
        r matches Some(v) ==> v@ == chosen_modules(
            modules@.len() as int,
            module,
            obj_filter_flags(modules@.map_values(|m: ModuleInfo| m@), obj),
        ),
{
    let ghost flags = obj_filter_flags(modules@.map_values(|m: ModuleInfo| m@), obj);
    if let Some(p) = obj {
        let empty: [u8; 0] = [];
        if regex_is_match(p, empty.as_slice()).is_none() {
            return None;
        }
    }
    let mut matches: Vec<bool> = Vec::new();
    let mut i: usize = 0;
    while i < modules.len()
        invariant
            i <= modules@.len(),
            matches@ == flags.take(i as int),
            flags.len() == modules@.len(),
            flags == obj_filter_flags(modules@.map_values(|m: ModuleInfo| m@), obj),
            obj matches Some(p) ==> spec_regex_valid(p@),
        decreases modules@.len() - i,
    {
        let b = match obj {
            Some(p) => match regex_is_match(p, modules[i].obj_file.as_slice()) {
                Some(b) => b,
                None => false,
            },
            None => true,
        };
        matches.push(b);
        i = i + 1;
        assert(matches@ =~= flags.take(i as int));
    }
    assert(matches@ =~= flags);
    Some(modules_to_dump(module, &matches))
}

} // verus!
