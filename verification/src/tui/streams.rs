//! What each stream of a PDB is used for, as the Streams and Stream nodes of the browser show
//! it.
//!
//! The fixed streams come first; then the streams that the DBI header names, the streams of the
//! modules, the streams of the Optional Debug Header, the hash streams of the type streams, and
//! the named streams. When two of these name the same stream, the later one wins.

use crate::dbi::modules::{module_views, spec_modules_from, ModuleInfoView};
use crate::dbi::optional_dbg::{
    spec_optional_stream_at, spec_parse_optional_debug_header, OptionalDebugHeaderStream,
};
use crate::dbi::{spec_dbi_header, DbiStream, StreamData, DBI_STREAM_HEADER_LEN};
use crate::text::{debug_str, decimal_chars, push_debug_str, push_decimal};
use crate::tui::content::{pad_left, push_decimal_padded, spec_utf8_lossy, utf8_lossy};
use crate::tui::navigation::{push_size_text, size_text};
use vstd::prelude::*;

verus! {

/// The index of the stream of the PDB Information stream.
pub const PDB_STREAM: u32 = 1;

/// The index of the Type Information (TPI) stream.
pub const TPI_STREAM: u32 = 2;

/// The index of the Debug Information (DBI) stream.
pub const DBI_STREAM: u32 = 3;

/// The index of the Id Information (IPI) stream.
pub const IPI_STREAM: u32 = 4;

/// What a stream is used for.
#[derive(Debug)]
pub enum StreamUsage {
    OldStreamDir,
    Pdb,
    Tpi,
    Dbi,
    Ipi,
    ModuleInfo { module_name: String, obj_name: String },
    Named { name: String },
    GlobalSymbolStream,
    GlobalSymbolIndex,
    PublicSymbolStream,
    OptionalDebugHeader { which: usize, whichs: Option<OptionalDebugHeaderStream> },
    TypeStreamHashStream { parent_stream: u32 },
    TypeStreamAuxHashStream { parent_stream: u32 },
}

/// What a stream is used for, with its names as sequences.
pub enum UsageView {
    OldStreamDir,
    Pdb,
    Tpi,
    Dbi,
    Ipi,
    ModuleInfo { module_name: Seq<char>, obj_name: Seq<char> },
    Named { name: Seq<char> },
    GlobalSymbolStream,
    GlobalSymbolIndex,
    PublicSymbolStream,
    OptionalDebugHeader { which: nat, whichs: Option<OptionalDebugHeaderStream> },
    TypeStreamHashStream { parent_stream: u32 },
    TypeStreamAuxHashStream { parent_stream: u32 },
}

impl View for StreamUsage {
    type V = UsageView;

    open spec fn view(&self) -> UsageView {
        match self {
            StreamUsage::OldStreamDir => UsageView::OldStreamDir,
            StreamUsage::Pdb => UsageView::Pdb,
            StreamUsage::Tpi => UsageView::Tpi,
            StreamUsage::Dbi => UsageView::Dbi,
            StreamUsage::Ipi => UsageView::Ipi,
            StreamUsage::ModuleInfo { module_name, obj_name } => UsageView::ModuleInfo {
                module_name: module_name@,
                obj_name: obj_name@,
            },
            StreamUsage::Named { name } => UsageView::Named { name: name@ },
            StreamUsage::GlobalSymbolStream => UsageView::GlobalSymbolStream,
            StreamUsage::GlobalSymbolIndex => UsageView::GlobalSymbolIndex,
            StreamUsage::PublicSymbolStream => UsageView::PublicSymbolStream,
            StreamUsage::OptionalDebugHeader { which, whichs } => UsageView::OptionalDebugHeader {
                which: *which as nat,
                whichs: *whichs,
            },
            StreamUsage::TypeStreamHashStream { parent_stream } => UsageView::TypeStreamHashStream {
                parent_stream: *parent_stream,
            },
            StreamUsage::TypeStreamAuxHashStream { parent_stream } =>
                UsageView::TypeStreamAuxHashStream { parent_stream: *parent_stream },
        }
    }
}

/// A stream that a source of information names (or none), and the use it gives it.
pub type UsageAssignment = (Option<u32>, UsageView);

/// The views of a sequence of usages.
pub open spec fn usage_views(v: Seq<Option<StreamUsage>>) -> Seq<Option<UsageView>> {
    v.map_values(
        |u: Option<StreamUsage>|
            match u {
                Some(x) => Some(x@),
                None => None,
            },
    )
}

/// The fixed streams: the old stream directory, PDB, TPI, DBI and IPI.
pub open spec fn fixed_assignments() -> Seq<UsageAssignment> {
    seq![
        (Some(0u32), UsageView::OldStreamDir),
        (Some(PDB_STREAM), UsageView::Pdb),
        (Some(TPI_STREAM), UsageView::Tpi),
        (Some(DBI_STREAM), UsageView::Dbi),
        (Some(IPI_STREAM), UsageView::Ipi),
    ]
}

/// The streams that the DBI header names, when the stream holds a header.
pub open spec fn header_assignments(data: Seq<u8>) -> Seq<UsageAssignment> {
    if data.len() >= DBI_STREAM_HEADER_LEN {
        let h = spec_dbi_header(data);
        seq![
            (h.global_symbol_index_stream.spec_get(), UsageView::GlobalSymbolIndex),
            (h.global_symbol_stream.spec_get(), UsageView::GlobalSymbolStream),
            (h.public_symbol_index_stream.spec_get(), UsageView::PublicSymbolStream),
        ]
    } else {
        Seq::empty()
    }
}

/// The stream of each module, in order.
pub open spec fn module_assignments(mods: Seq<ModuleInfoView>) -> Seq<UsageAssignment> {
    Seq::new(
        mods.len(),
        |i: int|
            (
                mods[i].header.stream.spec_get(),
                UsageView::ModuleInfo {
                    module_name: spec_utf8_lossy(mods[i].module_name),
                    obj_name: spec_utf8_lossy(mods[i].obj_file),
                },
            ),
    )
}

/// The streams of the Optional Debug Header, by position, when it parses.
pub open spec fn optional_assignments(b: Seq<u8>) -> Seq<UsageAssignment> {
    match spec_parse_optional_debug_header(b) {
        Ok(v) => Seq::new(
            v.len(),
            |i: int|
                (
                    v[i].spec_get(),
                    UsageView::OptionalDebugHeader {
                        which: i as nat,
                        whichs: spec_optional_stream_at(i),
                    },
                ),
        ),
        Err(_) => Seq::empty(),
    }
}

/// The hash stream and the auxiliary hash stream of the type stream `parent`, when its header
/// was read.
pub open spec fn hash_assignments(h: Option<(Option<u32>, Option<u32>)>, parent: u32) -> Seq<
    UsageAssignment,
> {
    match h {
        Some((hash, aux)) => seq![
            (hash, UsageView::TypeStreamHashStream { parent_stream: parent }),
            (aux, UsageView::TypeStreamAuxHashStream { parent_stream: parent }),
        ],
        None => Seq::empty(),
    }
}

/// The named streams, in order.
pub open spec fn named_assignments(named: Seq<(String, u32)>) -> Seq<UsageAssignment> {
    Seq::new(
        named.len(),
        |i: int| (Some(named[i].1), UsageView::Named { name: named[i].0@ }),
    )
}

/// Every assignment, in the order in which they apply.
pub open spec fn all_assignments(
    dbi: Option<(Seq<u8>, Seq<u8>, Seq<u8>)>,
    tpi: Option<(Option<u32>, Option<u32>)>,
    ipi: Option<(Option<u32>, Option<u32>)>,
    named: Seq<(String, u32)>,
) -> Seq<UsageAssignment> {
    fixed_assignments() + (match dbi {
        Some((data, modules, optional)) => header_assignments(data) + module_assignments(
            spec_modules_from(modules, 0),
        ) + optional_assignments(optional),
        None => Seq::empty(),
    }) + hash_assignments(tpi, TPI_STREAM) + hash_assignments(ipi, IPI_STREAM)
        + named_assignments(named)
}

/// The usages after one assignment: if it names a stream within range, that stream gets its use.
pub open spec fn apply_one(u: Seq<Option<UsageView>>, x: UsageAssignment) -> Seq<Option<UsageView>> {
    match x.0 {
        Some(i) => if i < u.len() {
            u.update(i as int, Some(x.1))
        } else {
            u
        },
        None => u,
    }
}

/// The usages after the assignments `a`, applied in order to `init`.
pub open spec fn apply_assignments(init: Seq<Option<UsageView>>, a: Seq<UsageAssignment>) -> Seq<
    Option<UsageView>,
>
    decreases a.len(),
{
    if a.len() == 0 {
        init
    } else {
        apply_one(apply_assignments(init, a.drop_last()), a.last())
    }
}

/// Applying one more assignment applies it to what the others gave.
proof fn lemma_apply_push(init: Seq<Option<UsageView>>, a: Seq<UsageAssignment>, x: UsageAssignment)
    ensures
        apply_assignments(init, a.push(x)) == apply_one(apply_assignments(init, a), x),
{
    assert(a.push(x).drop_last() =~= a);
}

/// Applying assignments keeps the number of streams.
proof fn lemma_apply_len(init: Seq<Option<UsageView>>, a: Seq<UsageAssignment>)
    ensures
        apply_assignments(init, a).len() == init.len(),
    decreases a.len(),
{
    if a.len() > 0 {
        lemma_apply_len(init, a.drop_last());
    }
}

/// Assignments that do not name stream `s` leave its usage alone.
proof fn lemma_apply_skips(init: Seq<Option<UsageView>>, a: Seq<UsageAssignment>, b: Seq<UsageAssignment>, s: int)
    requires
        0 <= s < init.len(),
        forall|j: int| 0 <= j < b.len() ==> b[j].0 != Some(s as u32),
    ensures
        apply_assignments(init, a + b)[s] == apply_assignments(init, a)[s],
    decreases b.len(),
{
    if b.len() > 0 {
        assert((a + b).drop_last() =~= a + b.drop_last());
        lemma_apply_skips(init, a, b.drop_last(), s);
        lemma_apply_len(init, a + b.drop_last());
    } else {
        assert(a + b =~= a);
    }
}

/// A stream gets the use of the last assignment that names it: after an assignment of `u` to
/// stream `s`, assignments that name other streams leave `s` with `u`.
pub proof fn lemma_last_assignment_wins(
    init: Seq<Option<UsageView>>,
    a: Seq<UsageAssignment>,
    s: u32,
    u: UsageView,
    b: Seq<UsageAssignment>,
)
    requires
        s < init.len(),
        forall|j: int| 0 <= j < b.len() ==> b[j].0 != Some(s),
    ensures
        apply_assignments(init, a.push((Some(s), u)) + b)[s as int] == Some(u),
{
    lemma_apply_push(init, a, (Some(s), u));
    lemma_apply_len(init, a);
    lemma_apply_skips(init, a.push((Some(s), u)), b, s as int);
}

/// No assignment of `a` names stream `s`.
pub open spec fn names_none(a: Seq<UsageAssignment>, s: u32) -> bool {
    forall|j: int| 0 <= j < a.len() ==> #[trigger] a[j].0 != Some(s)
}

/// Two sequences of assignments that do not name `s` do not name it together.
proof fn lemma_names_none_concat(a: Seq<UsageAssignment>, b: Seq<UsageAssignment>, s: u32)
    requires
        names_none(a, s),
        names_none(b, s),
    ensures
        names_none(a + b, s),
{
    assert forall|j: int| 0 <= j < (a + b).len() implies #[trigger] (a + b)[j].0 != Some(s) by {
        if j >= a.len() {
            assert((a + b)[j] == b[j - a.len()]);
        } else {
            assert((a + b)[j] == a[j]);
        }
    }
}

/// The assignments that apply after those of the DBI header.
pub open spec fn later_assignments(
    parts: (Seq<u8>, Seq<u8>, Seq<u8>),
    tpi: Option<(Option<u32>, Option<u32>)>,
    ipi: Option<(Option<u32>, Option<u32>)>,
    named: Seq<(String, u32)>,
) -> Seq<UsageAssignment> {
    module_assignments(spec_modules_from(parts.1, 0)) + optional_assignments(parts.2)
        + hash_assignments(tpi, TPI_STREAM) + hash_assignments(ipi, IPI_STREAM)
        + named_assignments(named)
}

/// When no later source names `s`, no later assignment does.
proof fn lemma_later_names_none(
    parts: (Seq<u8>, Seq<u8>, Seq<u8>),
    tpi: Option<(Option<u32>, Option<u32>)>,
    ipi: Option<(Option<u32>, Option<u32>)>,
    named: Seq<(String, u32)>,
    s: u32,
)
    requires
        forall|i: int|
            0 <= i < spec_modules_from(parts.1, 0).len() ==> #[trigger] spec_modules_from(
                parts.1,
                0,
            )[i].header.stream.spec_get() != Some(s),
        spec_parse_optional_debug_header(parts.2) matches Ok(v) ==> forall|i: int|
            0 <= i < v.len() ==> #[trigger] v[i].spec_get() != Some(s),
        tpi matches Some((x, y)) ==> x != Some(s) && y != Some(s),
        ipi matches Some((x, y)) ==> x != Some(s) && y != Some(s),
        forall|i: int| 0 <= i < named.len() ==> #[trigger] named[i].1 != s,
    ensures
        names_none(later_assignments(parts, tpi, ipi, named), s),
{
    let m = module_assignments(spec_modules_from(parts.1, 0));
    let o = optional_assignments(parts.2);
    let t = hash_assignments(tpi, TPI_STREAM);
    let p = hash_assignments(ipi, IPI_STREAM);
    let n = named_assignments(named);
    assert(names_none(m, s)) by {
        assert forall|j: int| 0 <= j < m.len() implies #[trigger] m[j].0 != Some(s) by {
            assert(m[j].0 == spec_modules_from(parts.1, 0)[j].header.stream.spec_get());
        }
    }
    assert(names_none(o, s)) by {
        assert forall|j: int| 0 <= j < o.len() implies #[trigger] o[j].0 != Some(s) by {
            let v = spec_parse_optional_debug_header(parts.2)->Ok_0;
            assert(o[j].0 == v[j].spec_get());
        }
    }
    assert(names_none(t, s));
    assert(names_none(p, s));
    assert(names_none(n, s)) by {
        assert forall|j: int| 0 <= j < n.len() implies #[trigger] n[j].0 != Some(s) by {
            assert(n[j].0 == Some(named[j].1));
        }
    }
    lemma_names_none_concat(m, o, s);
    lemma_names_none_concat(m + o, t, s);
    lemma_names_none_concat(m + o + t, p, s);
    lemma_names_none_concat(m + o + t + p, n, s);
}

/// The streams that the DBI header names get their uses: the Global Symbol Index, the Global
/// Symbol Stream and the Public Symbol Index, each unless a later source of information names
/// the same stream (the header's later entries, a module, the Optional Debug Header, a hash
/// stream of the TPI or IPI stream, or a named stream).
pub proof fn lemma_header_streams_get_their_uses(
    num_streams: nat,
    parts: (Seq<u8>, Seq<u8>, Seq<u8>),
    tpi: Option<(Option<u32>, Option<u32>)>,
    ipi: Option<(Option<u32>, Option<u32>)>,
    named: Seq<(String, u32)>,
    s: u32,
)
    requires
        parts.0.len() >= DBI_STREAM_HEADER_LEN,
        s < num_streams,
        forall|i: int|
            0 <= i < spec_modules_from(parts.1, 0).len() ==> #[trigger] spec_modules_from(
                parts.1,
                0,
            )[i].header.stream.spec_get() != Some(s),
        spec_parse_optional_debug_header(parts.2) matches Ok(v) ==> forall|i: int|
            0 <= i < v.len() ==> #[trigger] v[i].spec_get() != Some(s),
        tpi matches Some((x, y)) ==> x != Some(s) && y != Some(s),
        ipi matches Some((x, y)) ==> x != Some(s) && y != Some(s),
        forall|i: int| 0 <= i < named.len() ==> #[trigger] named[i].1 != s,
    ensures
        ({
            let h = spec_dbi_header(parts.0);
            let u = apply_assignments(
                Seq::new(num_streams, |i: int| None::<UsageView>),
                all_assignments(Some(parts), tpi, ipi, named),
            );
            &&& h.global_symbol_index_stream.spec_get() == Some(s)
                && h.global_symbol_stream.spec_get() != Some(s)
                && h.public_symbol_index_stream.spec_get() != Some(s) ==> u[s as int] == Some(
                UsageView::GlobalSymbolIndex,
            )
            &&& h.global_symbol_stream.spec_get() == Some(s)
                && h.public_symbol_index_stream.spec_get() != Some(s) ==> u[s as int] == Some(
                UsageView::GlobalSymbolStream,
            )
            &&& h.public_symbol_index_stream.spec_get() == Some(s) ==> u[s as int] == Some(
                UsageView::PublicSymbolStream,
            )
        }),
{
    let h = spec_dbi_header(parts.0);
    let init = Seq::new(num_streams, |i: int| None::<UsageView>);
    let later = later_assignments(parts, tpi, ipi, named);
    lemma_later_names_none(parts, tpi, ipi, named, s);
    let all = all_assignments(Some(parts), tpi, ipi, named);
    let f = fixed_assignments();
    let gsi = (h.global_symbol_index_stream.spec_get(), UsageView::GlobalSymbolIndex);
    let gss = (h.global_symbol_stream.spec_get(), UsageView::GlobalSymbolStream);
    let psi = (h.public_symbol_index_stream.spec_get(), UsageView::PublicSymbolStream);
    assert(header_assignments(parts.0) == seq![gsi, gss, psi]);
    assert(all =~= f.push(gsi).push(gss).push(psi) + later);
    if h.global_symbol_index_stream.spec_get() == Some(s) && h.global_symbol_stream.spec_get()
        != Some(s) && h.public_symbol_index_stream.spec_get() != Some(s) {
        let b = seq![gss, psi] + later;
        assert(names_none(seq![gss, psi], s));
        lemma_names_none_concat(seq![gss, psi], later, s);
        assert(all =~= f.push((Some(s), UsageView::GlobalSymbolIndex)) + b);
        lemma_last_assignment_wins(init, f, s, UsageView::GlobalSymbolIndex, b);
    }
    if h.global_symbol_stream.spec_get() == Some(s) && h.public_symbol_index_stream.spec_get()
        != Some(s) {
        let b = seq![psi] + later;
        assert(names_none(seq![psi], s));
        lemma_names_none_concat(seq![psi], later, s);
        assert(all =~= f.push(gsi).push((Some(s), UsageView::GlobalSymbolStream)) + b);
        lemma_last_assignment_wins(init, f.push(gsi), s, UsageView::GlobalSymbolStream, b);
    }
    if h.public_symbol_index_stream.spec_get() == Some(s) {
        lemma_last_assignment_wins(init, f.push(gsi).push(gss), s, UsageView::PublicSymbolStream, later);
    }
}

/// The bytes of the DBI stream, of its Modules substream and of its Optional Debug Header
/// substream.
pub open spec fn dbi_parts<D: StreamData>(d: DbiStream<D>) -> (Seq<u8>, Seq<u8>, Seq<u8>) {
    (
        d.data(),
        d.substream_bytes(d.substreams.modules_bytes),
        d.substream_bytes(d.substreams.optional_debug_header_bytes),
    )
}

/// Gives `stream`, if it is within range, the use `usage`.
fn assign(usages: &mut Vec<Option<StreamUsage>>, stream: Option<u32>, usage: StreamUsage)
    ensures
        usage_views(final(usages)@) == apply_one(usage_views(old(usages)@), (stream, usage@)),
{
    if let Some(i) = stream {
        if (i as usize) < usages.len() {
            usages.set(i as usize, Some(usage));
        }
    }
    assert(usage_views(final(usages)@) =~= apply_one(usage_views(old(usages)@), (stream, usage@)));
}

/// Applies the assignments that the DBI stream gives: its header, its modules and its Optional
/// Debug Header.
fn assign_from_dbi<D: StreamData>(
    usages: &mut Vec<Option<StreamUsage>>,
    dbi: &DbiStream<D>,
    Ghost(init): Ghost<Seq<Option<UsageView>>>,
    Ghost(done): Ghost<Seq<UsageAssignment>>,
)
    requires
        dbi.wf(),
        usage_views(old(usages)@) == apply_assignments(init, done),
    ensures
        usage_views(final(usages)@) == apply_assignments(
            init,
            done + (header_assignments(dbi_parts(*dbi).0) + module_assignments(
                spec_modules_from(dbi_parts(*dbi).1, 0),
            ) + optional_assignments(dbi_parts(*dbi).2)),
        ),
{
    let ghost mut d = done;
    if let Ok(h) = dbi.header() {
        let x = h.global_symbol_index_stream.get();
        proof { lemma_apply_push(init, d, (x, UsageView::GlobalSymbolIndex)); d = d.push((x, UsageView::GlobalSymbolIndex)); }
        assign(usages, x, StreamUsage::GlobalSymbolIndex);
        let y = h.global_symbol_stream.get();
        proof { lemma_apply_push(init, d, (y, UsageView::GlobalSymbolStream)); d = d.push((y, UsageView::GlobalSymbolStream)); }
        assign(usages, y, StreamUsage::GlobalSymbolStream);
        let z = h.public_symbol_index_stream.get();
        proof { lemma_apply_push(init, d, (z, UsageView::PublicSymbolStream)); d = d.push((z, UsageView::PublicSymbolStream)); }
        assign(usages, z, StreamUsage::PublicSymbolStream);
    }
    let ghost hpart = header_assignments(dbi_parts(*dbi).0);
    assert(d =~= done + hpart);
    let modules = dbi.iter_modules();
    let ghost mods = spec_modules_from(dbi_parts(*dbi).1, 0);
    let ghost mpart = module_assignments(mods);
    let mut i: usize = 0;
    while i < modules.len()
        invariant
            i <= modules@.len(),
            module_views(modules@) == mods,
            mpart == module_assignments(mods),
            d == done + hpart + mpart.take(i as int),
            usage_views(usages@) == apply_assignments(init, d),
        decreases modules@.len() - i,
    {
        let m = &modules[i];
        let s = m.stream();
        let u = StreamUsage::ModuleInfo {
            module_name: utf8_lossy(m.module_name.as_slice()),
            obj_name: utf8_lossy(m.obj_file.as_slice()),
        };
        proof {
            assert(mpart[i as int] == (s, u@));
            lemma_apply_push(init, d, (s, u@));
            d = d.push((s, u@));
        }
        assign(usages, s, u);
        i = i + 1;
        assert(d =~= done + hpart + mpart.take(i as int));
    }
    assert(mpart.take(modules@.len() as int) =~= mpart);
    let ghost opart = optional_assignments(dbi_parts(*dbi).2);
    let ghost before_opt = d;
    if let Ok(odh) = dbi.optional_debug_header() {
        let mut j: usize = 0;
        while j < odh.stream_indexes.len()
            invariant
                j <= odh.stream_indexes@.len(),
                opart.len() == odh.stream_indexes@.len(),
                forall|k: int|
                    0 <= k < opart.len() ==> #[trigger] opart[k] == (
                        odh.stream_indexes@[k].spec_get(),
                        UsageView::OptionalDebugHeader {
                            which: k as nat,
                            whichs: spec_optional_stream_at(k),
                        },
                    ),
                d == before_opt + opart.take(j as int),
                usage_views(usages@) == apply_assignments(init, d),
            decreases odh.stream_indexes@.len() - j,
        {
            let s = odh.stream_indexes[j].get();
            let which = OptionalDebugHeaderStream::from_position(j);
            let u = StreamUsage::OptionalDebugHeader { which: j, whichs: which };
            proof {
                assert(opart[j as int] == (s, u@));
                lemma_apply_push(init, d, (s, u@));
                d = d.push((s, u@));
            }
            assign(usages, s, u);
            j = j + 1;
            assert(d =~= before_opt + opart.take(j as int));
        }
        assert(opart.take(j as int) =~= opart);
    } else {
        assert(opart =~= Seq::<UsageAssignment>::empty());
    }
    assert(d =~= done + (hpart + mpart + opart));
}

/// The content of the Streams node.
pub struct StreamsHandler;

impl StreamsHandler {
    /// What each of the `num_streams` streams is used for, from the DBI stream (if it could be
    /// read), the hash streams that the TPI and IPI headers name (if they could be read), and
    /// the named streams, in the order of the PDB Information stream. Streams that nothing
    /// names have no usage.
    pub fn stream_usages<D: StreamData>(
        &self,
        num_streams: u32,
        dbi: Option<&DbiStream<D>>,
        tpi_hash_streams: Option<(Option<u32>, Option<u32>)>,
        ipi_hash_streams: Option<(Option<u32>, Option<u32>)>,
        named_streams: &Vec<(String, u32)>,
    ) -> (r: Vec<Option<StreamUsage>>)
        requires
            num_streams > IPI_STREAM,
            dbi matches Some(d) ==> d.wf(),
        ensures
            usage_views(r@) == apply_assignments(
                Seq::new(num_streams as nat, |i: int| None::<UsageView>),
                all_assignments(
                    match dbi {
                        Some(d) => Some(dbi_parts(*d)),
                        None => None,
                    },
                    tpi_hash_streams,
                    ipi_hash_streams,
                    named_streams@,
                ),
            ),
    {
        let mut usages: Vec<Option<StreamUsage>> = Vec::new();
        let mut n: u32 = 0;
        while n < num_streams
            invariant
                n <= num_streams,
                usages@.len() == n,
                forall|i: int| 0 <= i < n ==> usages@[i] is None,
            decreases num_streams - n,
        {
            usages.push(None);
            n = n + 1;
        }
        let ghost init = Seq::new(num_streams as nat, |i: int| None::<UsageView>);
        assert(usage_views(usages@) =~= init);
        let ghost mut d: Seq<UsageAssignment> = Seq::empty();
        proof { lemma_apply_push(init, d, (Some(0u32), UsageView::OldStreamDir)); d = d.push((Some(0u32), UsageView::OldStreamDir)); }
        assign(&mut usages, Some(0), StreamUsage::OldStreamDir);
        proof { lemma_apply_push(init, d, (Some(PDB_STREAM), UsageView::Pdb)); d = d.push((Some(PDB_STREAM), UsageView::Pdb)); }
        assign(&mut usages, Some(PDB_STREAM), StreamUsage::Pdb);
        proof { lemma_apply_push(init, d, (Some(TPI_STREAM), UsageView::Tpi)); d = d.push((Some(TPI_STREAM), UsageView::Tpi)); }
        assign(&mut usages, Some(TPI_STREAM), StreamUsage::Tpi);
        proof { lemma_apply_push(init, d, (Some(DBI_STREAM), UsageView::Dbi)); d = d.push((Some(DBI_STREAM), UsageView::Dbi)); }
        assign(&mut usages, Some(DBI_STREAM), StreamUsage::Dbi);
        proof { lemma_apply_push(init, d, (Some(IPI_STREAM), UsageView::Ipi)); d = d.push((Some(IPI_STREAM), UsageView::Ipi)); }
        assign(&mut usages, Some(IPI_STREAM), StreamUsage::Ipi);
        assert(d =~= fixed_assignments());
        let ghost dbi_part: Seq<UsageAssignment> = match dbi {
            Some(x) => header_assignments(dbi_parts(*x).0) + module_assignments(
                spec_modules_from(dbi_parts(*x).1, 0),
            ) + optional_assignments(dbi_parts(*x).2),
            None => Seq::empty(),
        };
        match dbi {
            Some(x) => {
                assign_from_dbi(&mut usages, x, Ghost(init), Ghost(d));
            },
            None => {},
        }
        proof {
            if dbi is None {
                assert(d + dbi_part =~= d);
            }
            d = d + dbi_part;
        }
        let ghost before_hash = d;
        if let Some((hash, aux)) = tpi_hash_streams {
            let u = StreamUsage::TypeStreamHashStream { parent_stream: TPI_STREAM };
            proof { lemma_apply_push(init, d, (hash, u@)); d = d.push((hash, u@)); }
            assign(&mut usages, hash, u);
            let v = StreamUsage::TypeStreamAuxHashStream { parent_stream: TPI_STREAM };
            proof { lemma_apply_push(init, d, (aux, v@)); d = d.push((aux, v@)); }
            assign(&mut usages, aux, v);
        }
        assert(d =~= before_hash + hash_assignments(tpi_hash_streams, TPI_STREAM));
        let ghost before_ipi = d;
        if let Some((hash, aux)) = ipi_hash_streams {
            let u = StreamUsage::TypeStreamHashStream { parent_stream: IPI_STREAM };
            proof { lemma_apply_push(init, d, (hash, u@)); d = d.push((hash, u@)); }
            assign(&mut usages, hash, u);
            let v = StreamUsage::TypeStreamAuxHashStream { parent_stream: IPI_STREAM };
            proof { lemma_apply_push(init, d, (aux, v@)); d = d.push((aux, v@)); }
            assign(&mut usages, aux, v);
        }
        assert(d =~= before_ipi + hash_assignments(ipi_hash_streams, IPI_STREAM));
        let ghost before_named = d;
        let ghost npart = named_assignments(named_streams@);
        let mut k: usize = 0;
        while k < named_streams.len()
            invariant
                k <= named_streams@.len(),
                npart == named_assignments(named_streams@),
                d == before_named + npart.take(k as int),
                usage_views(usages@) == apply_assignments(init, d),
            decreases named_streams@.len() - k,
        {
            let name = String::from_str(named_streams[k].0.as_str());
            let s = Some(named_streams[k].1);
            let u = StreamUsage::Named { name };
            proof {
                assert(npart[k as int] == (s, u@));
                lemma_apply_push(init, d, (s, u@));
                d = d.push((s, u@));
            }
            assign(&mut usages, s, u);
            k = k + 1;
            assert(d =~= before_named + npart.take(k as int));
        }
        assert(npart.take(named_streams@.len() as int) =~= npart);
        assert(d =~= all_assignments(
            match dbi {
                Some(x) => Some(dbi_parts(*x)),
                None => None,
            },
            tpi_hash_streams,
            ipi_hash_streams,
            named_streams@,
        ));
        usages
    }
}

/// The number of the first `n` streams that are valid.
pub open spec fn count_valid(valid: Seq<bool>, n: nat) -> nat
    decreases n,
{
    if n == 0 {
        0
    } else {
        count_valid(valid, (n - 1) as nat) + (if valid[n - 1] {
            1nat
        } else {
            0
        })
    }
}

/// The number of the first `n` streams that are valid and that nothing names.
pub open spec fn count_unknown(valid: Seq<bool>, usages: Seq<Option<UsageView>>, n: nat) -> nat
    decreases n,
{
    if n == 0 {
        0
    } else {
        count_unknown(valid, usages, (n - 1) as nat) + (if valid[n - 1] && usages[n - 1] is None {
            1nat
        } else {
            0
        })
    }
}

impl StreamsHandler {
    /// The summary of the streams: how many there are, how many are valid and invalid, and how
    /// many valid ones nothing names.
    pub fn summary(&self, valid: &Vec<bool>, usages: &Vec<Option<StreamUsage>>) -> (r: String)
        requires
            valid@.len() == usages@.len(),
        ensures
            r@ == "PDB Streams ("@ + decimal_chars(valid@.len()) + " total)\n└─ "@ + decimal_chars(
                count_valid(valid@, valid@.len()),
            ) + " valid, "@ + decimal_chars(
                (valid@.len() - count_valid(valid@, valid@.len())) as nat,
            ) + " invalid, "@ + decimal_chars(
                count_unknown(valid@, usage_views(usages@), valid@.len()),
            ) + " unknown usage"@,
    {
        let mut num_valid: usize = 0;
        let mut num_invalid: usize = 0;
        let mut num_unknown: usize = 0;
        let mut i: usize = 0;
        while i < valid.len()
            invariant
                valid@.len() == usages@.len(),
                i <= valid@.len(),
                num_valid == count_valid(valid@, i as nat),
                num_invalid == i - count_valid(valid@, i as nat),
                num_unknown == count_unknown(valid@, usage_views(usages@), i as nat),
                num_unknown <= num_valid <= i,
            decreases valid@.len() - i,
        {
            if valid[i] {
                num_valid = num_valid + 1;
                if usages[i].is_none() {
                    num_unknown = num_unknown + 1;
                }
            } else {
                num_invalid = num_invalid + 1;
            }
            i = i + 1;
        }
        let mut s = String::from_str("PDB Streams (");
        push_decimal(&mut s, valid.len());
        s.append(" total)\n└─ ");
        push_decimal(&mut s, num_valid);
        s.append(" valid, ");
        push_decimal(&mut s, num_invalid);
        s.append(" invalid, ");
        push_decimal(&mut s, num_unknown);
        s.append(" unknown usage");
        s
    }
}

/// The name of a kind of Optional Debug Header stream.
pub open spec fn optional_stream_name(k: OptionalDebugHeaderStream) -> Seq<char> {
    match k {
        OptionalDebugHeaderStream::FpoData => "FpoData"@,
        OptionalDebugHeaderStream::ExceptionData => "ExceptionData"@,
        OptionalDebugHeaderStream::FixupData => "FixupData"@,
        OptionalDebugHeaderStream::OmapToSrcData => "OmapToSrcData"@,
        OptionalDebugHeaderStream::OmapFromSrcData => "OmapFromSrcData"@,
        OptionalDebugHeaderStream::SectionHeaderData => "SectionHeaderData"@,
        OptionalDebugHeaderStream::TokenToRecordIdMap => "TokenToRecordIdMap"@,
        OptionalDebugHeaderStream::Xdata => "Xdata"@,
        OptionalDebugHeaderStream::Pdata => "Pdata"@,
        OptionalDebugHeaderStream::NewFpoData => "NewFpoData"@,
        OptionalDebugHeaderStream::OriginalSectionHeaderData => "OriginalSectionHeaderData"@,
    }
}

/// The name of a kind of Optional Debug Header stream.
fn optional_stream_name_str(k: OptionalDebugHeaderStream) -> (r: &'static str)
    ensures
        r@ == optional_stream_name(k),
{
    match k {
        OptionalDebugHeaderStream::FpoData => "FpoData",
        OptionalDebugHeaderStream::ExceptionData => "ExceptionData",
        OptionalDebugHeaderStream::FixupData => "FixupData",
        OptionalDebugHeaderStream::OmapToSrcData => "OmapToSrcData",
        OptionalDebugHeaderStream::OmapFromSrcData => "OmapFromSrcData",
        OptionalDebugHeaderStream::SectionHeaderData => "SectionHeaderData",
        OptionalDebugHeaderStream::TokenToRecordIdMap => "TokenToRecordIdMap",
        OptionalDebugHeaderStream::Xdata => "Xdata",
        OptionalDebugHeaderStream::Pdata => "Pdata",
        OptionalDebugHeaderStream::NewFpoData => "NewFpoData",
        OptionalDebugHeaderStream::OriginalSectionHeaderData => "OriginalSectionHeaderData",
    }
}

/// The `Debug` form of a usage, as the Streams list shows it: the name of the use, then its
/// fields, strings quoted and escaped. A parent stream is shown by its number.
pub open spec fn usage_debug_text(u: UsageView) -> Seq<char> {
    match u {
        UsageView::OldStreamDir => "OldStreamDir"@,
        UsageView::Pdb => "PDB"@,
        UsageView::Tpi => "TPI"@,
        UsageView::Dbi => "DBI"@,
        UsageView::Ipi => "IPI"@,
        UsageView::ModuleInfo { module_name, obj_name } => "ModuleInfo { module_name: "@ + debug_str(
            module_name,
        ) + ", obj_name: "@ + debug_str(obj_name) + " }"@,
        UsageView::Named { name } => "Named { name: "@ + debug_str(name) + " }"@,
        UsageView::GlobalSymbolStream => "GlobalSymbolStream"@,
        UsageView::GlobalSymbolIndex => "GlobalSymbolIndex"@,
        UsageView::PublicSymbolStream => "PublicSymbolStream"@,
        UsageView::OptionalDebugHeader { which, whichs } => "OptionalDebugHeader { which: "@
            + decimal_chars(which) + ", whichs: "@ + match whichs {
            Some(k) => "Some("@ + optional_stream_name(k) + ")"@,
            None => "None"@,
        } + " }"@,
        UsageView::TypeStreamHashStream { parent_stream } => "TypeStreamHashStream { parent_stream: "@
            + decimal_chars(parent_stream as nat) + " }"@,
        UsageView::TypeStreamAuxHashStream { parent_stream } =>
            "TypeStreamAuxHashStream { parent_stream: "@ + decimal_chars(parent_stream as nat)
            + " }"@,
    }
}

/// Appends the `Debug` form of a usage.
fn push_usage_debug(s: &mut String, u: &StreamUsage)
    ensures
        final(s)@ == old(s)@ + usage_debug_text(u@),
{
    match u {
        StreamUsage::OldStreamDir => s.append("OldStreamDir"),
        StreamUsage::Pdb => s.append("PDB"),
        StreamUsage::Tpi => s.append("TPI"),
        StreamUsage::Dbi => s.append("DBI"),
        StreamUsage::Ipi => s.append("IPI"),
        StreamUsage::ModuleInfo { module_name, obj_name } => {
            s.append("ModuleInfo { module_name: ");
            push_debug_str(s, module_name.as_str());
            s.append(", obj_name: ");
            push_debug_str(s, obj_name.as_str());
            s.append(" }");
        },
        StreamUsage::Named { name } => {
            s.append("Named { name: ");
            push_debug_str(s, name.as_str());
            s.append(" }");
        },
        StreamUsage::GlobalSymbolStream => s.append("GlobalSymbolStream"),
        StreamUsage::GlobalSymbolIndex => s.append("GlobalSymbolIndex"),
        StreamUsage::PublicSymbolStream => s.append("PublicSymbolStream"),
        StreamUsage::OptionalDebugHeader { which, whichs } => {
            s.append("OptionalDebugHeader { which: ");
            push_decimal(s, *which);
            s.append(", whichs: ");
            match whichs {
                Some(k) => {
                    s.append("Some(");
                    s.append(optional_stream_name_str(*k));
                    s.append(")");
                },
                None => s.append("None"),
            }
            s.append(" }");
        },
        StreamUsage::TypeStreamHashStream { parent_stream } => {
            s.append("TypeStreamHashStream { parent_stream: ");
            push_decimal(s, *parent_stream as usize);
            s.append(" }");
        },
        StreamUsage::TypeStreamAuxHashStream { parent_stream } => {
            s.append("TypeStreamAuxHashStream { parent_stream: ");
            push_decimal(s, *parent_stream as usize);
            s.append(" }");
        },
    }
    assert(final(s)@ =~= old(s)@ + usage_debug_text(u@));
}

/// The text of the list item of stream `i`: a check mark for a valid stream and a cross for an
/// invalid one, the stream's number and size, and what it is used for.
pub open spec fn stream_item_text(i: nat, valid: bool, size: nat, usage: Option<UsageView>) -> Seq<
    char,
> {
    (if valid {
        "✓"@
    } else {
        "✗"@
    }) + " Stream #"@ + pad_left(decimal_chars(i), 3) + " │ "@ + pad_left(decimal_chars(size), 10)
        + " bytes │ "@ + match usage {
        Some(u) => usage_debug_text(u),
        None => if valid {
            "UNKNOWN USAGE"@
        } else {
            "nil"@
        },
    }
}

impl StreamsHandler {
    /// The list item of each stream, in order, from whether it is valid, its size and its usage.
    pub fn items(&self, valid: &Vec<bool>, sizes: &Vec<u32>, usages: &Vec<Option<StreamUsage>>) -> (r:
        Vec<String>)
        requires
            valid@.len() == usages@.len(),
            sizes@.len() == usages@.len(),
        ensures
            r@.len() == usages@.len(),
            forall|i: int|
                0 <= i < r@.len() ==> #[trigger] r@[i]@ == stream_item_text(
                    i as nat,
                    valid@[i],
                    sizes@[i] as nat,
                    usage_views(usages@)[i],
                ),
    {
        let mut out: Vec<String> = Vec::new();
        let mut i: usize = 0;
        while i < usages.len()
            invariant
                valid@.len() == usages@.len(),
                sizes@.len() == usages@.len(),
                i <= usages@.len(),
                out@.len() == i,
                forall|j: int|
                    0 <= j < i ==> #[trigger] out@[j]@ == stream_item_text(
                        j as nat,
                        valid@[j],
                        sizes@[j] as nat,
                        usage_views(usages@)[j],
                    ),
            decreases usages@.len() - i,
        {
            let mut s = String::from_str(
                if valid[i] {
                    "✓"
                } else {
                    "✗"
                },
            );
            s.append(" Stream #");
            push_decimal_padded(&mut s, i, 3);
            s.append(" │ ");
            push_decimal_padded(&mut s, sizes[i] as usize, 10);
            s.append(" bytes │ ");
            match &usages[i] {
                Some(u) => push_usage_debug(&mut s, u),
                None => {
                    if valid[i] {
                        s.append("UNKNOWN USAGE");
                    } else {
                        s.append("nil");
                    }
                },
            }
            assert(s@ =~= stream_item_text(
                i as nat,
                valid@[i as int],
                sizes@[i as int] as nat,
                usage_views(usages@)[i as int],
            ));
            out.push(s);
            i = i + 1;
        }
        out
    }
}

/// The position of the first module from `from` on whose stream is `idx`.
pub open spec fn first_module_with_stream(mods: Seq<ModuleInfoView>, idx: u32, from: int) -> Option<
    int,
>
    decreases mods.len() - from,
{
    if from < 0 || from >= mods.len() {
        None
    } else if mods[from].header.stream.spec_get() == Some(idx) {
        Some(from)
    } else {
        first_module_with_stream(mods, idx, from + 1)
    }
}

/// The position of the first named stream from `from` on whose stream is `idx`.
pub open spec fn first_named_stream(named: Seq<(String, u32)>, idx: u32, from: int) -> Option<int>
    decreases named.len() - from,
{
    if from < 0 || from >= named.len() {
        None
    } else if named[from].1 == idx {
        Some(from)
    } else {
        first_named_stream(named, idx, from + 1)
    }
}

/// What the DBI stream says stream `idx` is used for, if anything: one of the streams that the
/// header names, or the stream of the first module that has it.
pub open spec fn dbi_usage_text(idx: u32, data: Seq<u8>, modules: Seq<u8>) -> Option<Seq<char>> {
    let h = spec_dbi_header(data);
    if data.len() >= DBI_STREAM_HEADER_LEN && h.global_symbol_index_stream.spec_get() == Some(idx) {
        Some("Global Symbol Index"@)
    } else if data.len() >= DBI_STREAM_HEADER_LEN && h.global_symbol_stream.spec_get() == Some(idx) {
        Some("Global Symbol Stream"@)
    } else if data.len() >= DBI_STREAM_HEADER_LEN && h.public_symbol_index_stream.spec_get() == Some(
        idx,
    ) {
        Some("Public Symbol Stream"@)
    } else {
        let mods = spec_modules_from(modules, 0);
        match first_module_with_stream(mods, idx, 0) {
            Some(i) => Some(
                "Module #"@ + decimal_chars(i as nat) + " ("@ + spec_utf8_lossy(mods[i].module_name)
                    + ")"@,
            ),
            None => None,
        }
    }
}

/// What the Stream node says stream `idx` is used for: the fixed streams by name; otherwise
/// what the DBI stream says, if it was read; otherwise the first named stream that has it.
pub open spec fn stream_usage_text(
    idx: u32,
    dbi: Option<(Seq<u8>, Seq<u8>)>,
    named: Seq<(String, u32)>,
) -> Seq<char> {
    if idx == 0 {
        "Old Stream Directory"@
    } else if idx == PDB_STREAM {
        "PDB Info Stream"@
    } else if idx == TPI_STREAM {
        "Type Info (TPI)"@
    } else if idx == DBI_STREAM {
        "Debug Info (DBI)"@
    } else if idx == IPI_STREAM {
        "ID to Name Mapping (IPI)"@
    } else {
        let from_dbi = match dbi {
            Some((data, modules)) => dbi_usage_text(idx, data, modules),
            None => None,
        };
        match from_dbi {
            Some(t) => t,
            None => match first_named_stream(named, idx, 0) {
                Some(k) => "Named Stream ("@ + named[k].0@ + ")"@,
                None => "Unknown Usage"@,
            },
        }
    }
}

/// The content of the node of one stream.
pub struct SingleStreamHandler {
    /// The stream that the node shows.
    pub stream_index: u32,
}

/// The summary of a stream's node: that it is nil, or its size and what it is used for.
pub open spec fn single_stream_summary_text(i: nat, valid: bool, size: nat, usage: Seq<char>) -> Seq<
    char,
> {
    if !valid {
        "Stream #"@ + decimal_chars(i) + " is invalid (nil stream)"@
    } else {
        "Stream #"@ + decimal_chars(i) + " ("@ + size_text(size) + ") - "@ + decimal_chars(size)
            + " bytes\n└─ Type: "@ + usage
    }
}

/// How many bytes of a stream of `size` bytes its node dumps (at most 2 KB), and how many lines
/// the dump shows (all of them below 512 bytes, else 48).
pub open spec fn spec_dump_extent(size: nat) -> (nat, Option<nat>) {
    (
        if size < 2048 {
            size
        } else {
            2048
        },
        if size < 512 {
            None
        } else {
            Some(48)
        },
    )
}

impl SingleStreamHandler {
    /// The summary of the stream, from whether it is valid, its size and the text of its usage.
    pub fn summary(&self, valid: bool, size: u32, usage: &str) -> (r: String)
        ensures
            r@ == single_stream_summary_text(self.stream_index as nat, valid, size as nat, usage@),
    {
        let mut s = String::from_str("Stream #");
        push_decimal(&mut s, self.stream_index as usize);
        if !valid {
            s.append(" is invalid (nil stream)");
        } else {
            s.append(" (");
            push_size_text(&mut s, size);
            s.append(") - ");
            push_decimal(&mut s, size as usize);
            s.append(" bytes\n└─ Type: ");
            s.append(usage);
        }
        s
    }

    /// How many bytes of the stream the node dumps, and how many lines the dump shows.
    pub fn dump_extent(&self, size: u32) -> (r: (u32, Option<usize>))
        ensures
            r.0 == spec_dump_extent(size as nat).0,
            match spec_dump_extent(size as nat).1 {
                Some(l) => r.1 == Some(l as usize),
                None => r.1 is None,
            },
    {
        (
            if size < 2048 {
                size
            } else {
                2048
            },
            if size < 512 {
                None
            } else {
                Some(48)
            },
        )
    }

    /// The text that says what the stream is used for.
    pub fn determine_stream_usage<D: StreamData>(
        &self,
        dbi: Option<&DbiStream<D>>,
        named_streams: &Vec<(String, u32)>,
    ) -> (r: String)
        requires
            dbi matches Some(d) ==> d.wf(),
        ensures
            r@ == stream_usage_text(
                self.stream_index,
                match dbi {
                    Some(d) => Some((d.data(), d.substream_bytes(d.substreams.modules_bytes))),
                    None => None,
                },
                named_streams@,
            ),
    {
        let idx = self.stream_index;
        if idx == 0 {
            return String::from_str("Old Stream Directory");
        } else if idx == PDB_STREAM {
            return String::from_str("PDB Info Stream");
        } else if idx == TPI_STREAM {
            return String::from_str("Type Info (TPI)");
        } else if idx == DBI_STREAM {
            return String::from_str("Debug Info (DBI)");
        } else if idx == IPI_STREAM {
            return String::from_str("ID to Name Mapping (IPI)");
        }
        if let Some(d) = dbi {
            if let Ok(h) = d.header() {
                if h.global_symbol_index_stream.get() == Some(idx) {
                    return String::from_str("Global Symbol Index");
                }
                if h.global_symbol_stream.get() == Some(idx) {
                    return String::from_str("Global Symbol Stream");
                }
                if h.public_symbol_index_stream.get() == Some(idx) {
                    return String::from_str("Public Symbol Stream");
                }
            }
            let modules = d.iter_modules();
            let ghost mods = spec_modules_from(d.substream_bytes(d.substreams.modules_bytes), 0);
            let ghost hd = spec_dbi_header(d.data());
            let ghost header_miss = !(d.data().len() >= DBI_STREAM_HEADER_LEN && (
            hd.global_symbol_index_stream.spec_get() == Some(idx)
                || hd.global_symbol_stream.spec_get() == Some(idx)
                || hd.public_symbol_index_stream.spec_get() == Some(idx)));
            assert(header_miss);
            let mut i: usize = 0;
            while i < modules.len()
                invariant
                    header_miss,
                    header_miss == !(d.data().len() >= DBI_STREAM_HEADER_LEN && (
                    hd.global_symbol_index_stream.spec_get() == Some(idx)
                        || hd.global_symbol_stream.spec_get() == Some(idx)
                        || hd.public_symbol_index_stream.spec_get() == Some(idx))),
                    hd == spec_dbi_header(d.data()),
                    mods == spec_modules_from(d.substream_bytes(d.substreams.modules_bytes), 0),
                    dbi == Some(d),
                    idx == self.stream_index,
                    idx > IPI_STREAM,
                    i <= modules@.len(),
                    module_views(modules@) == mods,
                    first_module_with_stream(mods, idx, i as int) == first_module_with_stream(
                        mods,
                        idx,
                        0,
                    ),
                decreases modules@.len() - i,
            {
                if modules[i].stream() == Some(idx) {
                    let mut s = String::from_str("Module #");
                    push_decimal(&mut s, i);
                    s.append(" (");
                    let name = utf8_lossy(modules[i].module_name.as_slice());
                    s.append(name.as_str());
                    s.append(")");
                    assert(mods[i as int] == modules@[i as int]@);
                    return s;
                }
                i = i + 1;
            }
        }
        let ghost no_dbi_text = match dbi {
            Some(d) => dbi_usage_text(idx, d.data(), d.substream_bytes(d.substreams.modules_bytes))
                is None,
            None => true,
        };
        assert(no_dbi_text);
        let mut k: usize = 0;
        while k < named_streams.len()
            invariant
                no_dbi_text,
                no_dbi_text == match dbi {
                    Some(d) => dbi_usage_text(
                        idx,
                        d.data(),
                        d.substream_bytes(d.substreams.modules_bytes),
                    ) is None,
                    None => true,
                },
                idx == self.stream_index,
                idx > IPI_STREAM,
                k <= named_streams@.len(),
                first_named_stream(named_streams@, idx, k as int) == first_named_stream(
                    named_streams@,
                    idx,
                    0,
                ),
            decreases named_streams@.len() - k,
        {
            if named_streams[k].1 == idx {
                let mut s = String::from_str("Named Stream (");
                s.append(named_streams[k].0.as_str());
                s.append(")");
                return s;
            }
            k = k + 1;
        }
        String::from_str("Unknown Usage")
    }
}

} // verus!
