//! The content of the details panel for the nodes of the tree: what each handler computes from
//! the PDB before the program lays it out in widgets.

use crate::dbi::modules::{ModuleInfo, ModuleInfoView};
use crate::dbi::sources::{DbiSourcesSubstream, SourcesView};
use crate::dbi::{
    DbiStreamHeader, DBI_STREAM_VERSION_V110, DBI_STREAM_VERSION_V50, DBI_STREAM_VERSION_V60,
    DBI_STREAM_VERSION_V70, DBI_STREAM_VERSION_VC41,
};
use crate::text::{decimal_chars, padded_hex, push_decimal, push_padded_hex};
use crate::tui::navigation::TreeNodeId;
use vstd::string::StrSliceExecFns;
use vstd::prelude::*;

verus! {

/// The text of `b`, each invalid UTF-8 sequence replaced by U+FFFD, as
/// `String::from_utf8_lossy` computes it.
pub uninterp spec fn spec_utf8_lossy(b: Seq<u8>) -> Seq<char>;

/// The characters of a sequence of ASCII bytes.
pub open spec fn ascii_chars(b: Seq<u8>) -> Seq<char> {
    b.map_values(|x: u8| x as char)
}

/// Calls `String::from_utf8_lossy`, which the standard library documents as decoding the bytes
/// as UTF-8 and replacing each invalid sequence with U+FFFD; so bytes that are all ASCII come
/// back as the same characters. Nothing more is stated of invalid sequences.
#[verifier::external_body]
pub(crate) fn utf8_lossy(b: &[u8]) -> (r: String)
    ensures
        r@ == spec_utf8_lossy(b@),
        (forall|i: int| 0 <= i < b@.len() ==> b@[i] < 128) ==> r@ == ascii_chars(b@),
{
    String::from_utf8_lossy(b).into_owned()
}

/// The name of the compiler version that wrote a DBI stream of version `v`.
pub open spec fn version_name(v: u32) -> Seq<char> {
    if v == DBI_STREAM_VERSION_VC41 {
        "MSVC 4.1"@
    } else if v == DBI_STREAM_VERSION_V50 {
        "MSVC 5.0"@
    } else if v == DBI_STREAM_VERSION_V60 {
        "MSVC 6.0"@
    } else if v == DBI_STREAM_VERSION_V70 {
        "MSVC 7.0"@
    } else if v == DBI_STREAM_VERSION_V110 {
        "MSVC 11.0"@
    } else {
        "Unknown"@
    }
}

/// The name of the compiler version that wrote a DBI stream of version `v`.
pub fn pdb_file_format_version_name(v: u32) -> (r: &'static str)
    ensures
        r@ == version_name(v),
{
    if v == DBI_STREAM_VERSION_VC41 {
        "MSVC 4.1"
    } else if v == DBI_STREAM_VERSION_V50 {
        "MSVC 5.0"
    } else if v == DBI_STREAM_VERSION_V60 {
        "MSVC 6.0"
    } else if v == DBI_STREAM_VERSION_V70 {
        "MSVC 7.0"
    } else if v == DBI_STREAM_VERSION_V110 {
        "MSVC 11.0"
    } else {
        "Unknown"
    }
}

/// The number of distinct values in `v`.
pub fn count_unique(v: &[u32]) -> (r: usize)
    ensures
        r == v@.to_set().len(),
{
    broadcast use vstd::set::axiom_set_insert_len, vstd::seq_lib::seq_to_set_is_finite;

    let mut count: usize = 0;
    let mut i: usize = 0;
    assert(v@.take(0).to_set() =~= Set::<u32>::empty());
    while i < v.len()
        invariant
            i <= v@.len(),
            count == v@.take(i as int).to_set().len(),
            count <= i,
        decreases v@.len() - i,
    {
        let mut seen = false;
        let mut j: usize = 0;
        while j < i
            invariant
                i < v@.len(),
                j <= i,
                seen == exists|k: int| 0 <= k < j && v@[k] == v@[i as int],
            decreases i - j,
        {
            if v[j] == v[i] {
                seen = true;
            }
            j = j + 1;
        }
        proof {
            let t = v@.take(i as int);
            assert(v@.take(i as int + 1) =~= t.push(v@[i as int]));
            t.lemma_push_to_set_commute(v@[i as int]);
            if seen {
                let k = choose|k: int| 0 <= k < i && v@[k] == v@[i as int];
                assert(t[k] == v@[i as int]);
                assert(t.to_set().contains(v@[i as int]));
            } else {
                assert forall|k: int| 0 <= k < t.len() implies t[k] != v@[i as int] by {}
                assert(!t.to_set().contains(v@[i as int]));
            }
        }
        if !seen {
            count = count + 1;
        }
        i = i + 1;
    }
    assert(v@.take(v@.len() as int) =~= v@);
    count
}

/// A row of a two-column table: a label and a value.
#[derive(Debug)]
pub struct TableRow {
    pub label: String,
    pub value: String,
}

/// The label and the value of a row.
pub open spec fn row_view(r: TableRow) -> (Seq<char>, Seq<char>) {
    (r.label@, r.value@)
}

/// `n` in decimal, then `n` in hexadecimal with at least 8 digits: `"n (0xhhhhhhhh)"`.
pub open spec fn decimal_and_hex(n: nat) -> Seq<char> {
    decimal_chars(n) + " (0x"@ + padded_hex(n, 8) + ")"@
}

/// `true` or `false`.
pub open spec fn bool_text(b: bool) -> Seq<char> {
    if b {
        "true"@
    } else {
        "false"@
    }
}

/// The rows of the Debug Info table: the container, the binding key, the DBI header fields, the number of
/// streams, modules and source files.
pub open spec fn debug_info_rows(
    h: DbiStreamHeader,
    sources: SourcesView,
    num_streams: nat,
    is_mini_pdb: bool,
    container: Seq<char>,
    binding_key: Seq<char>,
) -> Seq<(Seq<char>, Seq<char>)> {
    seq![
        ("Container Type"@, container),
        ("Binding Key"@, binding_key),
        (
            "PDB File Format Version"@,
            version_name(h.version) + " ("@ + decimal_chars(h.version as nat) + "; 0x"@
                + padded_hex(h.version as nat, 8) + ")"@,
        ),
        ("Build Number"@, decimal_and_hex(h.build_number as nat)),
        ("PDB File Age (amount of times file was changed)"@, decimal_and_hex(h.age as nat)),
        ("Version of MSPDB.DLL"@, decimal_chars(h.pdb_dll_version as nat)),
        ("PDB File Flags"@, "0x"@ + padded_hex(h.flags as nat, 8)),
        ("Is Mini PDB (/FASTLINK)"@, bool_text(is_mini_pdb)),
        ("Number of Streams"@, decimal_chars(num_streams)),
        ("Number of Modules"@, decimal_chars(sources.module_file_starts.len())),
        ("Number of Sources (unique)"@, decimal_chars(sources.file_name_offsets.to_set().len())),
        ("Number of Sources (not unique)"@, decimal_chars(sources.file_name_offsets.len())),
    ]
}

/// Appends `"n (0xhhhhhhhh)"`.
fn push_decimal_and_hex(s: &mut String, n: usize)
    ensures
        final(s)@ == old(s)@ + decimal_and_hex(n as nat),
{
    push_decimal(s, n);
    s.append(" (0x");
    push_padded_hex(s, n, 8);
    s.append(")");
    assert(final(s)@ =~= old(s)@ + decimal_and_hex(n as nat));
}

/// A row with the given label and value.
fn row(label: &str, value: String) -> (r: TableRow)
    ensures
        r.label@ == label@,
        r.value == value,
{
    TableRow { label: String::from_str(label), value }
}

/// A string that holds `n` in decimal.
fn decimal_string(n: usize) -> (r: String)
    ensures
        r@ == decimal_chars(n as nat),
{
    let mut s = String::new();
    push_decimal(&mut s, n);
    assert(s@ =~= decimal_chars(n as nat));
    s
}

/// The content of the Debug Info node.
pub struct DebugInfoHandler;

impl DebugInfoHandler {
    /// The rows of the Debug Info table, from the DBI header, the Sources substream, the
    /// number of streams, whether the PDB is a mini PDB, the kind of container and the text of
    /// the PDB's binding key.
    pub fn rows(
        &self,
        h: &DbiStreamHeader,
        sources: &DbiSourcesSubstream,
        num_streams: u32,
        is_mini_pdb: bool,
        container: &str,
        binding_key: &str,
    ) -> (r: Vec<TableRow>)
        ensures
            r@.map_values(|x: TableRow| row_view(x)) == debug_info_rows(
                *h,
                sources@,
                num_streams as nat,
                is_mini_pdb,
                container@,
                binding_key@,
            ),
    {
        let mut version = String::from_str(pdb_file_format_version_name(h.version));
        version.append(" (");
        push_decimal(&mut version, h.version as usize);
        version.append("; 0x");
        push_padded_hex(&mut version, h.version as usize, 8);
        version.append(")");
        let mut build = String::new();
        push_decimal_and_hex(&mut build, h.build_number as usize);
        let mut age = String::new();
        push_decimal_and_hex(&mut age, h.age as usize);
        let mut flags = String::from_str("0x");
        push_padded_hex(&mut flags, h.flags as usize, 8);
        let mini = String::from_str(
            if is_mini_pdb {
                "true"
            } else {
                "false"
            },
        );
        let unique = count_unique(sources.file_name_offsets());
        let rows = vec![
            row("Container Type", String::from_str(container)),
            row("Binding Key", String::from_str(binding_key)),
            row("PDB File Format Version", version),
            row("Build Number", build),
            row("PDB File Age (amount of times file was changed)", age),
            row("Version of MSPDB.DLL", decimal_string(h.pdb_dll_version as usize)),
            row("PDB File Flags", flags),
            row("Is Mini PDB (/FASTLINK)", mini),
            row("Number of Streams", decimal_string(num_streams as usize)),
            row("Number of Modules", decimal_string(sources.num_modules())),
            row("Number of Sources (unique)", decimal_string(unique)),
            row("Number of Sources (not unique)", decimal_string(sources.file_name_offsets().len())),
        ];
        assert(rows@.map_values(|x: TableRow| row_view(x)) =~= debug_info_rows(
            *h,
            sources@,
            num_streams as nat,
            is_mini_pdb,
            container@,
            binding_key@,
        ));
        rows
    }
}

/// The text of the item for module `i`: its name, then its object file on a second line.
pub open spec fn module_item_text(i: nat, name: Seq<u8>, obj: Seq<u8>) -> Seq<char> {
    "Module #"@ + decimal_chars(i) + ": "@ + spec_utf8_lossy(name) + "\n╰─ Object: "@
        + spec_utf8_lossy(obj)
}

/// The content of the Modules node.
pub struct ModulesHandler;

impl ModulesHandler {
    /// The summary line: the number of modules.
    pub fn summary(&self, num_modules: usize) -> (r: String)
        ensures
            r@ == "Modules ("@ + decimal_chars(num_modules as nat) + " total)"@,
    {
        let mut s = String::from_str("Modules (");
        push_decimal(&mut s, num_modules);
        s.append(" total)");
        s
    }

    /// The text of the list item for each module, in order.
    pub fn items(&self, modules: &Vec<ModuleInfo>) -> (r: Vec<String>)
        ensures
            r@.len() == modules@.len(),
            forall|i: int|
                0 <= i < r@.len() ==> #[trigger] r@[i]@ == module_item_text(
                    i as nat,
                    modules@[i].module_name@,
                    modules@[i].obj_file@,
                ),
    {
        let mut out: Vec<String> = Vec::new();
        let mut i: usize = 0;
        while i < modules.len()
            invariant
                i <= modules@.len(),
                out@.len() == i,
                forall|j: int|
                    0 <= j < i ==> #[trigger] out@[j]@ == module_item_text(
                        j as nat,
                        modules@[j].module_name@,
                        modules@[j].obj_file@,
                    ),
            decreases modules@.len() - i,
        {
            let m = &modules[i];
            let mut s = String::from_str("Module #");
            push_decimal(&mut s, i);
            s.append(": ");
            let name = utf8_lossy(m.module_name.as_slice());
            s.append(name.as_str());
            s.append("\n╰─ Object: ");
            let obj = utf8_lossy(m.obj_file.as_slice());
            s.append(obj.as_str());
            assert(s@ =~= module_item_text(i as nat, m.module_name@, m.obj_file@));
            out.push(s);
            i = i + 1;
        }
        out
    }
}

/// The most global symbols that the Globals node lists.
pub const MAX_SYMBOLS_TO_SHOW: usize = 5000;

/// The most type records that the Types node lists.
pub const MAX_TYPES_TO_SHOW: usize = 10000;

/// How many of `total` records a list shows when it shows at most `max`, and whether a line
/// that says that more follow closes it.
pub open spec fn spec_shown_count(total: nat, max: nat) -> (nat, bool) {
    if total > max {
        (max, true)
    } else {
        (total, false)
    }
}

/// How many of `total` records a list shows when it shows at most `max`, and whether a line
/// that says that more follow closes it.
fn shown_count(total: usize, max: usize) -> (r: (usize, bool))
    ensures
        (r.0 as nat, r.1) == spec_shown_count(total as nat, max as nat),
{
    if total > max {
        (max, true)
    } else {
        (total, false)
    }
}

/// The item of a record in a list: its byte offset in 8 hexadecimal digits, then its text.
pub open spec fn record_item_text(offset: nat, text: Seq<char>) -> Seq<char> {
    "["@ + padded_hex(offset, 8) + "] "@ + text
}

/// The item of a record in a list: its byte offset, then its text.
fn record_item(offset: usize, text: &str) -> (r: String)
    ensures
        r@ == record_item_text(offset as nat, text@),
{
    let mut s = String::from_str("[");
    push_padded_hex(&mut s, offset, 8);
    s.append("] ");
    s.append(text);
    s
}

/// The content of the Globals node: the records of the global symbol stream.
pub struct GlobalsHandler;

impl GlobalsHandler {
    /// What the node shows when the global symbol stream cannot be read.
    pub fn unavailable(&self, error: &str) -> (r: String)
        ensures
            r@ == "Global Symbol Stream not available\n\nError: "@ + error@
                + "\n\nThis PDB may not contain global symbols or the stream may be corrupted."@,
    {
        let mut s = String::from_str("Global Symbol Stream not available\n\nError: ");
        s.append(error);
        s.append("\n\nThis PDB may not contain global symbols or the stream may be corrupted.");
        s
    }

    /// How many of `total` symbols the list shows, and whether a line says that more follow.
    pub fn shown(&self, total: usize) -> (r: (usize, bool))
        ensures
            (r.0 as nat, r.1) == spec_shown_count(total as nat, MAX_SYMBOLS_TO_SHOW as nat),
    {
        shown_count(total, MAX_SYMBOLS_TO_SHOW)
    }

    /// The item of the symbol record at `offset` in the stream, with its text.
    pub fn item(&self, offset: usize, text: &str) -> (r: String)
        ensures
            r@ == record_item_text(offset as nat, text@),
    {
        record_item(offset, text)
    }

    /// The line that closes a list cut short.
    pub fn more_symbols(&self) -> (r: String)
        ensures
            r@ == "... and more symbols (showing first "@ + decimal_chars(MAX_SYMBOLS_TO_SHOW as nat)
                + " - use CLI for complete output)"@,
    {
        let mut s = String::from_str("... and more symbols (showing first ");
        push_decimal(&mut s, MAX_SYMBOLS_TO_SHOW);
        s.append(" - use CLI for complete output)");
        s
    }

    /// What the node shows in place of a list with `num_items` items: a note when it is empty.
    pub fn empty_list(&self, num_items: usize) -> (r: Option<String>)
        ensures
            r is Some <==> num_items == 0,
            r matches Some(t) ==> t@ == "No global symbols found in this PDB file"@,
    {
        if num_items == 0 {
            Some(String::from_str("No global symbols found in this PDB file"))
        } else {
            None
        }
    }

    /// The summary: how many symbols are shown, and the size of the stream.
    pub fn summary(&self, num_shown: usize, stream_size: usize) -> (r: String)
        ensures
            r@ == "Global Symbols ("@ + decimal_chars(num_shown as nat) + " shown)\nStream size: "@
                + decimal_chars(stream_size as nat) + " bytes"@,
    {
        let mut s = String::from_str("Global Symbols (");
        push_decimal(&mut s, num_shown);
        s.append(" shown)\nStream size: ");
        push_decimal(&mut s, stream_size);
        s.append(" bytes");
        s
    }
}

/// The header of the type stream, as the Types node shows it: the first and the end type index,
/// the number of types, the number of hash buckets and the size of a hash key.
pub struct TypeStreamSummary {
    pub type_index_begin: u32,
    pub type_index_end: u32,
    pub num_types: u32,
    pub num_hash_buckets: u32,
    pub hash_key_size: u32,
}

/// The summary of the Types node.
pub open spec fn types_summary_text(h: Option<TypeStreamSummary>) -> Seq<char> {
    "Type Information (TPI Stream)\n\n"@ + match h {
        Some(h) => "Type range: T#"@ + padded_hex(h.type_index_begin as nat, 8) + " - T#"@
            + padded_hex(h.type_index_end as nat, 8) + " ("@ + decimal_chars(h.num_types as nat)
            + " types)\nHash buckets: "@ + decimal_chars(h.num_hash_buckets as nat)
            + ", Hash key size: "@ + decimal_chars(h.hash_key_size as nat),
        None => "Type stream header not available"@,
    }
}

/// The content of the Types node: the records of the type stream.
pub struct TypesHandler;

impl TypesHandler {
    /// The summary: the type range and the hash parameters, when the header can be read.
    pub fn summary(&self, header: &Option<TypeStreamSummary>) -> (r: String)
        ensures
            r@ == types_summary_text(*header),
    {
        let mut s = String::from_str("Type Information (TPI Stream)\n\n");
        match header {
            Some(h) => {
                s.append("Type range: T#");
                push_padded_hex(&mut s, h.type_index_begin as usize, 8);
                s.append(" - T#");
                push_padded_hex(&mut s, h.type_index_end as usize, 8);
                s.append(" (");
                push_decimal(&mut s, h.num_types as usize);
                s.append(" types)\nHash buckets: ");
                push_decimal(&mut s, h.num_hash_buckets as usize);
                s.append(", Hash key size: ");
                push_decimal(&mut s, h.hash_key_size as usize);
            },
            None => s.append("Type stream header not available"),
        }
        s
    }

    /// What the node shows in place of a list with `num_items` items: a note when it is empty.
    pub fn empty_list(&self, num_items: usize) -> (r: Option<String>)
        ensures
            r is Some <==> num_items == 0,
            r matches Some(t) ==> t@ == "No type records found in this PDB file"@,
    {
        if num_items == 0 {
            Some(String::from_str("No type records found in this PDB file"))
        } else {
            None
        }
    }

    /// How many of `total` types the list shows, and whether a line says that more follow.
    pub fn shown(&self, total: usize) -> (r: (usize, bool))
        ensures
            (r.0 as nat, r.1) == spec_shown_count(total as nat, MAX_TYPES_TO_SHOW as nat),
    {
        shown_count(total, MAX_TYPES_TO_SHOW)
    }

    /// The line that closes a list cut short after `processed` of `num_types` types.
    pub fn more_types(&self, num_types: u32, processed: usize) -> (r: String)
        requires
            processed <= num_types,
        ensures
            r@ == "... and "@ + decimal_chars((num_types - processed) as nat) + " more types (showing first "@
                + decimal_chars(MAX_TYPES_TO_SHOW as nat) + " - use CLI for complete output)"@,
    {
        let mut s = String::from_str("... and ");
        push_decimal(&mut s, num_types as usize - processed);
        s.append(" more types (showing first ");
        push_decimal(&mut s, MAX_TYPES_TO_SHOW);
        s.append(" - use CLI for complete output)");
        s
    }

    /// The hint under the list: how many types it shows, and the limit.
    pub fn hint(&self, processed: usize, num_types: u32) -> (r: String)
        ensures
            r@ == "Navigation: ↑/↓ navigate | PgUp/PgDn page | Tab switch panels | / search\nShowing "@
                + decimal_chars(
                if processed <= num_types {
                    processed as nat
                } else {
                    num_types as nat
                },
            ) + " types (limit: "@ + decimal_chars(MAX_TYPES_TO_SHOW as nat)
                + " - increase available on request)\nFor complete type details with field lists, use CLI: pdbtool dump <file.pdb> tpi"@,
    {
        let shown = if processed <= num_types as usize {
            processed
        } else {
            num_types as usize
        };
        let mut s = String::from_str(
            "Navigation: ↑/↓ navigate | PgUp/PgDn page | Tab switch panels | / search\nShowing ",
        );
        push_decimal(&mut s, shown);
        s.append(" types (limit: ");
        push_decimal(&mut s, MAX_TYPES_TO_SHOW);
        s.append(
            " - increase available on request)\nFor complete type details with field lists, use CLI: pdbtool dump <file.pdb> tpi",
        );
        s
    }
}

/// The content of the Symbols node: an overview of the kinds of symbols.
pub struct SymbolsHandler;

impl SymbolsHandler {
    /// The overview text.
    pub fn overview(&self) -> (r: String)
        ensures
            r@ == "Symbol Information Overview\n\nThis PDB contains various types of symbols:\n\n• Global Symbols - Exported functions and variables\n• Public Symbols - Public interface symbols\n• Module Symbols - Per-module debug symbols\n\nNavigate to the subcategories below to explore symbols in detail.\n\nNote: Symbol counts will be displayed when you select specific categories."@,
    {
        String::from_str(
            "Symbol Information Overview\n\nThis PDB contains various types of symbols:\n\n• Global Symbols - Exported functions and variables\n• Public Symbols - Public interface symbols\n• Module Symbols - Per-module debug symbols\n\nNavigate to the subcategories below to explore symbols in detail.\n\nNote: Symbol counts will be displayed when you select specific categories.",
        )
    }
}

/// `s` right-aligned in a field of `width` characters.
pub open spec fn pad_left(s: Seq<char>, width: nat) -> Seq<char> {
    if s.len() >= width {
        s
    } else {
        Seq::new((width - s.len()) as nat, |i: int| ' ') + s
    }
}

/// The sum of the first `n` counts.
pub open spec fn sum_of(counts: Seq<usize>, n: nat) -> nat
    decreases n,
{
    if n == 0 {
        0
    } else {
        sum_of(counts, (n - 1) as nat) + counts[n - 1] as nat
    }
}

/// The number of the first `n` counts that are not zero.
pub open spec fn nonzero_count(counts: Seq<usize>, n: nat) -> nat
    decreases n,
{
    if n == 0 {
        0
    } else {
        nonzero_count(counts, (n - 1) as nat) + (if counts[n - 1] > 0 {
            1nat
        } else {
            0
        })
    }
}

/// The text of the item for module `i` with `count` symbols.
pub open spec fn symbol_module_item_text(i: nat, name: Seq<u8>, obj: Seq<u8>, count: nat) -> Seq<
    char,
> {
    "#"@ + pad_left(decimal_chars(i), 3) + " "@ + spec_utf8_lossy(name) + " ("@ + decimal_chars(count)
        + " symbols)\n     Object: "@ + spec_utf8_lossy(obj)
}

/// Appends `n` in decimal, right-aligned in a field of `width` characters.
pub(crate) fn push_decimal_padded(s: &mut String, n: usize, width: usize)
    ensures
        final(s)@ == old(s)@ + pad_left(decimal_chars(n as nat), width as nat),
{
    let digits = decimal_string(n);
    let len = digits.as_str().unicode_len();
    if len < width {
        let mut k: usize = 0;
        while k < width - len
            invariant
                len < width,
                k <= width - len,
                s@ == old(s)@ + Seq::new(k as nat, |i: int| ' '),
            decreases width - len - k,
        {
            crate::text::push_char(s, ' ');
            k = k + 1;
            assert(s@ =~= old(s)@ + Seq::new(k as nat, |i: int| ' '));
        }
    }
    s.append(digits.as_str());
    assert(final(s)@ =~= old(s)@ + pad_left(decimal_chars(n as nat), width as nat));
}

/// The content of the Module Symbols node: each module with the number of its symbols.
pub struct SymbolModulesHandler;

impl SymbolModulesHandler {
    /// The list item for each module, given the number of symbols of each module's stream.
    pub fn items(&self, modules: &Vec<ModuleInfo>, symbol_counts: &Vec<usize>) -> (r: Vec<String>)
        requires
            symbol_counts@.len() == modules@.len(),
        ensures
            r@.len() == modules@.len(),
            forall|i: int|
                0 <= i < r@.len() ==> #[trigger] r@[i]@ == symbol_module_item_text(
                    i as nat,
                    modules@[i].module_name@,
                    modules@[i].obj_file@,
                    symbol_counts@[i] as nat,
                ),
    {
        let mut out: Vec<String> = Vec::new();
        let mut i: usize = 0;
        while i < modules.len()
            invariant
                symbol_counts@.len() == modules@.len(),
                i <= modules@.len(),
                out@.len() == i,
                forall|j: int|
                    0 <= j < i ==> #[trigger] out@[j]@ == symbol_module_item_text(
                        j as nat,
                        modules@[j].module_name@,
                        modules@[j].obj_file@,
                        symbol_counts@[j] as nat,
                    ),
            decreases modules@.len() - i,
        {
            let m = &modules[i];
            let mut s = String::from_str("#");
            push_decimal_padded(&mut s, i, 3);
            s.append(" ");
            let name = utf8_lossy(m.module_name.as_slice());
            s.append(name.as_str());
            s.append(" (");
            push_decimal(&mut s, symbol_counts[i]);
            s.append(" symbols)\n     Object: ");
            let obj = utf8_lossy(m.obj_file.as_slice());
            s.append(obj.as_str());
            assert(s@ =~= symbol_module_item_text(
                i as nat,
                m.module_name@,
                m.obj_file@,
                symbol_counts@[i as int] as nat,
            ));
            out.push(s);
            i = i + 1;
        }
        out
    }

    /// The summary: how many modules there are, how many have symbols, and how many symbols
    /// they have in all.
    pub fn summary(&self, symbol_counts: &Vec<usize>) -> (r: String)
        requires
            sum_of(symbol_counts@, symbol_counts@.len()) <= usize::MAX,
        ensures
            r@ == "Module Symbols Overview\n"@ + decimal_chars(symbol_counts@.len()) + " modules total, "@
                + decimal_chars(nonzero_count(symbol_counts@, symbol_counts@.len()))
                + " with symbols\nTotal symbols across all modules: "@ + decimal_chars(
                sum_of(symbol_counts@, symbol_counts@.len()),
            ),
    {
        let mut total: usize = 0;
        let mut with: usize = 0;
        let mut i: usize = 0;
        while i < symbol_counts.len()
            invariant
                i <= symbol_counts@.len(),
                sum_of(symbol_counts@, symbol_counts@.len()) <= usize::MAX,
                total == sum_of(symbol_counts@, i as nat),
                with == nonzero_count(symbol_counts@, i as nat),
                with <= i,
            decreases symbol_counts@.len() - i,
        {
            proof {
                lemma_sum_of_monotone(symbol_counts@, (i + 1) as nat, symbol_counts@.len());
            }
            total = total + symbol_counts[i];
            if symbol_counts[i] > 0 {
                with = with + 1;
            }
            i = i + 1;
        }
        let mut s = String::from_str("Module Symbols Overview\n");
        push_decimal(&mut s, symbol_counts.len());
        s.append(" modules total, ");
        push_decimal(&mut s, with);
        s.append(" with symbols\nTotal symbols across all modules: ");
        push_decimal(&mut s, total);
        s
    }
}

/// A sum of fewer counts is not larger.
proof fn lemma_sum_of_monotone(counts: Seq<usize>, a: nat, b: nat)
    requires
        a <= b <= counts.len(),
    ensures
        sum_of(counts, a) <= sum_of(counts, b),
    decreases b - a,
{
    if a < b {
        lemma_sum_of_monotone(counts, a, (b - 1) as nat);
    }
}

/// The counts of the slots of a names hash table: good, bad and unused.
pub struct HashSlotCounts {
    /// Used slots whose name hashes to the slot, or to a slot of the run of used slots before
    /// it (where linear probing may have moved it).
    pub good: usize,
    /// Used slots whose name hashes elsewhere.
    pub bad: usize,
    /// Slots that hold no name.
    pub unused: usize,
}

/// Counting the first `n` slots: `(good, bad, unused, probing base)`. Each slot is the name
/// index it holds (0 for none) and the hash of that name. The probing base is the slot after
/// the last unused one.
pub open spec fn spec_slot_counts(slots: Seq<(u32, u32)>, n: nat) -> (nat, nat, nat, nat)
    decreases n,
{
    if n == 0 {
        (0, 0, 0, 0)
    } else {
        let (g, b, u, base) = spec_slot_counts(slots, (n - 1) as nat);
        let i = n - 1;
        let (ni, h) = slots[i];
        if ni == 0 {
            (g, b, u + 1, n)
        } else if h == i || (base <= h && h < i) {
            (g + 1, b, u, base)
        } else {
            (g, b + 1, u, base)
        }
    }
}

/// The content of the Names node.
pub struct NamesHandler;

impl NamesHandler {
    /// Counts the good, bad and unused slots of the hash table of the names stream. Each slot is
    /// the name index that it holds (0 for none) and the hash of that name modulo the number of
    /// slots.
    pub fn count_hash_slots(&self, slots: &Vec<(u32, u32)>) -> (r: HashSlotCounts)
        ensures
            ({
                let (g, b, u, _) = spec_slot_counts(slots@, slots@.len());
                r.good == g && r.bad == b && r.unused == u
            }),
            r.good + r.bad + r.unused == slots@.len(),
    {
        let mut good: usize = 0;
        let mut bad: usize = 0;
        let mut unused: usize = 0;
        let mut base: usize = 0;
        let mut i: usize = 0;
        while i < slots.len()
            invariant
                i <= slots@.len(),
                spec_slot_counts(slots@, i as nat) == (good as nat, bad as nat, unused as nat, base as nat),
                good + bad + unused == i,
                base <= i,
            decreases slots@.len() - i,
        {
            let (ni, h) = slots[i];
            if ni == 0 {
                unused = unused + 1;
                base = i + 1;
            } else if h as usize == i || (base <= h as usize && (h as usize) < i) {
                good = good + 1;
            } else {
                bad = bad + 1;
            }
            i = i + 1;
        }
        HashSlotCounts { good, bad, unused }
    }

    /// The summary of the names stream.
    pub fn summary(&self, stream_index: u32, num_strings: usize, num_hashes: usize) -> (r: String)
        ensures
            r@ == "Stream index: "@ + decimal_chars(stream_index as nat) + "\nNames: "@ + decimal_chars(
                num_strings as nat,
            ) + " total, "@ + decimal_chars(num_hashes as nat) + " hashes."@,
    {
        let mut s = String::from_str("Stream index: ");
        push_decimal(&mut s, stream_index as usize);
        s.append("\nNames: ");
        push_decimal(&mut s, num_strings);
        s.append(" total, ");
        push_decimal(&mut s, num_hashes);
        s.append(" hashes.");
        s
    }

    /// The summary of the hash table: how many slots are used, good, bad and unused, and whether
    /// the used slots are as many as the strings.
    pub fn hash_summary(&self, c: &HashSlotCounts, num_strings: usize) -> (r: String)
        requires
            c.good + c.bad <= usize::MAX,
        ensures
            r@ == "Hash slots: "@ + decimal_chars((c.good + c.bad) as nat) + " used\n   - "@
                + decimal_chars(c.good as nat) + " good\n   - "@ + decimal_chars(c.bad as nat)
                + " bad\n   - "@ + decimal_chars(c.unused as nat) + " unused.\n"@ + (if c.good + c.bad
                != num_strings {
                "Error: Number of hashes used is "@ + decimal_chars((c.good + c.bad) as nat)
                    + ", which is not equal to the total number of strings ("@ + decimal_chars(
                    num_strings as nat,
                ) + ")."@
            } else {
                "Number of hashes used is equal to total number of strings (good)."@
            }),
    {
        let used = c.good + c.bad;
        let mut s = String::from_str("Hash slots: ");
        push_decimal(&mut s, used);
        s.append(" used\n   - ");
        push_decimal(&mut s, c.good);
        s.append(" good\n   - ");
        push_decimal(&mut s, c.bad);
        s.append(" bad\n   - ");
        push_decimal(&mut s, c.unused);
        s.append(" unused.\n");
        if used != num_strings {
            s.append("Error: Number of hashes used is ");
            push_decimal(&mut s, used);
            s.append(", which is not equal to the total number of strings (");
            push_decimal(&mut s, num_strings);
            s.append(").");
        } else {
            s.append("Number of hashes used is equal to total number of strings (good).");
        }
        s
    }
}

/// How the details of a module name its stream: the stream's number, or `(none)`.
pub open spec fn stream_text(stream: Option<u32>) -> Seq<char> {
    match stream {
        Some(s) => decimal_chars(s as nat),
        None => "(none)"@,
    }
}

/// The details of module `i`: its name, its object file, its stream, the sizes of its symbol
/// and line data, and the number of its source files.
pub open spec fn module_details_text(i: nat, m: ModuleInfoView) -> Seq<char> {
    "Module #"@ + decimal_chars(i) + "\nName: "@ + spec_utf8_lossy(m.module_name) + "\nObject file: "@
        + spec_utf8_lossy(m.obj_file) + "\nStream: "@ + stream_text(m.header.stream.spec_get())
        + "\nSymbols: "@ + decimal_chars(m.header.sym_byte_size as nat) + " bytes\nC11 line data: "@
        + decimal_chars(m.header.c11_byte_size as nat) + " bytes\nC13 line data: "@ + decimal_chars(
        m.header.c13_byte_size as nat,
    ) + " bytes\nSource files: "@ + decimal_chars(m.header.source_file_count as nat)
}

/// The content of the node of one module.
pub struct ModuleHandler {
    pub module_index: usize,
}

impl ModuleHandler {
    /// The details of the module, or `None` where the PDB has no module at that index.
    pub fn details(&self, modules: &Vec<ModuleInfo>) -> (r: Option<String>)
        ensures
            self.module_index < modules@.len() <==> r is Some,
            r matches Some(t) ==> t@ == module_details_text(
                self.module_index as nat,
                modules@[self.module_index as int]@,
            ),
    {
        if self.module_index >= modules.len() {
            return None;
        }
        let m = &modules[self.module_index];
        let mut s = String::from_str("Module #");
        push_decimal(&mut s, self.module_index);
        s.append("\nName: ");
        let name = utf8_lossy(m.module_name.as_slice());
        s.append(name.as_str());
        s.append("\nObject file: ");
        let obj = utf8_lossy(m.obj_file.as_slice());
        s.append(obj.as_str());
        s.append("\nStream: ");
        match m.stream() {
            Some(st) => push_decimal(&mut s, st as usize),
            None => s.append("(none)"),
        }
        s.append("\nSymbols: ");
        push_decimal(&mut s, m.header.sym_byte_size as usize);
        s.append(" bytes\nC11 line data: ");
        push_decimal(&mut s, m.header.c11_byte_size as usize);
        s.append(" bytes\nC13 line data: ");
        push_decimal(&mut s, m.header.c13_byte_size as usize);
        s.append(" bytes\nSource files: ");
        push_decimal(&mut s, m.header.source_file_count as usize);
        assert(s@ =~= module_details_text(self.module_index as nat, m@));
        Some(s)
    }
}

/// The overview of the Sources substream: how many modules it describes, how many file
/// references it holds, and how many distinct files they name.
pub open spec fn source_files_overview(v: SourcesView) -> Seq<char> {
    "Source Files Overview\n\nModules: "@ + decimal_chars(v.module_file_starts.len())
        + "\nFile references: "@ + decimal_chars(v.file_name_offsets.len()) + "\nUnique files: "@
        + decimal_chars(v.file_name_offsets.to_set().len())
}

/// The content of the Source Files node.
pub struct SourceFilesHandler;

impl SourceFilesHandler {
    /// The overview of the source files that the Sources substream lists.
    pub fn overview(&self, sources: &DbiSourcesSubstream) -> (r: String)
        ensures
            r@ == source_files_overview(sources@),
    {
        let unique = count_unique(sources.file_name_offsets());
        let mut s = String::from_str("Source Files Overview\n\nModules: ");
        push_decimal(&mut s, sources.num_modules());
        s.append("\nFile references: ");
        push_decimal(&mut s, sources.file_name_offsets().len());
        s.append("\nUnique files: ");
        push_decimal(&mut s, unique);
        s
    }
}

/// The handler that shows the content of a node.
#[derive(Clone, Copy, Debug, PartialEq, Eq)]
pub enum ContentHandler {
    DebugInfo,
    Modules,
    Names,
    Globals,
    Types,
    Symbols,
    Streams,
    SingleStream { stream_index: u32 },
    Module { module_index: usize },
    SourceFiles,
    /// No content for this node.
    Default,
}

/// The handler for each kind of node: the node of a stream shows that stream, the node of a
/// module that module; a single source file has no content of its own.
pub open spec fn spec_content_handler(id: TreeNodeId) -> ContentHandler {
    match id {
        TreeNodeId::DebugInfo => ContentHandler::DebugInfo,
        TreeNodeId::Modules => ContentHandler::Modules,
        TreeNodeId::Names => ContentHandler::Names,
        TreeNodeId::Globals => ContentHandler::Globals,
        TreeNodeId::Types => ContentHandler::Types,
        TreeNodeId::Symbols => ContentHandler::Symbols,
        TreeNodeId::Streams => ContentHandler::Streams,
        TreeNodeId::Stream { index } => ContentHandler::SingleStream { stream_index: index },
        TreeNodeId::Module { index } => ContentHandler::Module { module_index: index },
        TreeNodeId::SourceFiles => ContentHandler::SourceFiles,
        _ => ContentHandler::Default,
    }
}

/// The node that a handler with content is for: its inverse on the nodes that have content.
pub open spec fn node_of_handler(h: ContentHandler) -> Option<TreeNodeId> {
    match h {
        ContentHandler::DebugInfo => Some(TreeNodeId::DebugInfo),
        ContentHandler::Modules => Some(TreeNodeId::Modules),
        ContentHandler::Names => Some(TreeNodeId::Names),
        ContentHandler::Globals => Some(TreeNodeId::Globals),
        ContentHandler::Types => Some(TreeNodeId::Types),
        ContentHandler::Symbols => Some(TreeNodeId::Symbols),
        ContentHandler::Streams => Some(TreeNodeId::Streams),
        ContentHandler::SingleStream { stream_index } => Some(TreeNodeId::Stream { index: stream_index }),
        ContentHandler::Module { module_index } => Some(TreeNodeId::Module { index: module_index }),
        ContentHandler::SourceFiles => Some(TreeNodeId::SourceFiles),
        ContentHandler::Default => None,
    }
}

/// Each node is shown by the handler of its own kind: every node but a single source file has
/// a handler with content, the handler names the node back, and so no two nodes share a
/// handler; the node of a stream or a module passes its index on.
pub proof fn lemma_each_node_has_its_own_handler(id: TreeNodeId, other: TreeNodeId)
    ensures
        !(id is SourceFile) ==> node_of_handler(spec_content_handler(id)) == Some(id),
        id is SourceFile ==> spec_content_handler(id) == ContentHandler::Default,
        spec_content_handler(id) != ContentHandler::Default && spec_content_handler(id)
            == spec_content_handler(other) ==> id == other,
        spec_content_handler(TreeNodeId::Globals) == ContentHandler::Globals,
        spec_content_handler(TreeNodeId::Symbols) == ContentHandler::Symbols,
        spec_content_handler(TreeNodeId::DebugInfo) == ContentHandler::DebugInfo,
        spec_content_handler(TreeNodeId::Names) == ContentHandler::Names,
        spec_content_handler(TreeNodeId::Types) == ContentHandler::Types,
        spec_content_handler(TreeNodeId::Streams) == ContentHandler::Streams,
        spec_content_handler(TreeNodeId::Modules) == ContentHandler::Modules,
{
}

/// The handler that shows the content of the node `node_id`.
pub fn get_content_handler(node_id: &TreeNodeId) -> (r: ContentHandler)
    ensures
        r == spec_content_handler(*node_id),
{
    match node_id {
        TreeNodeId::DebugInfo => ContentHandler::DebugInfo,
        TreeNodeId::Modules => ContentHandler::Modules,
        TreeNodeId::Names => ContentHandler::Names,
        TreeNodeId::Globals => ContentHandler::Globals,
        TreeNodeId::Types => ContentHandler::Types,
        TreeNodeId::Symbols => ContentHandler::Symbols,
        TreeNodeId::Streams => ContentHandler::Streams,
        TreeNodeId::Stream { index } => ContentHandler::SingleStream { stream_index: *index },
        TreeNodeId::Module { index } => ContentHandler::Module { module_index: *index },
        TreeNodeId::SourceFiles => ContentHandler::SourceFiles,
        _ => ContentHandler::Default,
    }
}

} // verus!
