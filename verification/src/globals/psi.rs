//! Public Symbol Index
//!
//! The Public Symbol Index (PSI) provides several look-up tables that accelerate finding
//! information in the Global Symbol Stream. The PSI indexes only `S_PUB32` symbols in the GSS; all
//! other symbol kinds are indexed in the GSI.
//!
//! The PSI stream starts with a 28-byte header, followed by the name-to-symbol hash table and the
//! address map. The address map is an array of little-endian `u32` values, each of which is the
//! byte offset of one `S_PUB32` record in the GSS; the entries are sorted by the `(segment,
//! offset)` address of the records, which allows binary search.

use super::gss::{
    os_le, pub32_address, pub32_resolves, spec_pub32_at, GlobalSymbolStream, OffsetSegment, Pub,
    PubView, SymbolError,
};
use crate::bytes::{
    lemma_u32_le_prefix, lemma_u32_le_roundtrip, lemma_u32_le_suffix, push_u32_le, read_u16_le,
    read_u32_le, spec_u16_le, spec_u32_array, spec_u32_le, spec_u32_le_bytes,
};
use vstd::prelude::*;

verus! {

/// The size of the PSI stream header.
pub const PSI_STREAM_HEADER_LEN: usize = 28;

/// The header of the PSI stream.
#[derive(Clone, Copy, Debug, PartialEq, Eq)]
pub struct PsiStreamHeader {
    /// Length in bytes of the symbol hash table. This region immediately follows the header.
    pub name_table_size: u32,
    /// Length in bytes of the address map. This region immediately follows the symbol hash.
    pub addr_table_size: u32,
    /// The number of thunk records.
    pub num_thunks: u32,
    /// Size in bytes of each thunk record.
    pub thunk_size: u32,
    pub thunk_table_section: u16,
    pub padding: u16,
    pub thunk_table_offset: u32,
    pub num_sections: u32,
}

/// The header decoded from the first 28 bytes of `b`.
pub open spec fn spec_psi_header(b: Seq<u8>) -> PsiStreamHeader {
    PsiStreamHeader {
        name_table_size: spec_u32_le(b, 0) as u32,
        addr_table_size: spec_u32_le(b, 4) as u32,
        num_thunks: spec_u32_le(b, 8) as u32,
        thunk_size: spec_u32_le(b, 12) as u32,
        thunk_table_section: spec_u16_le(b, 16) as u16,
        padding: spec_u16_le(b, 18) as u16,
        thunk_table_offset: spec_u32_le(b, 20) as u32,
        num_sections: spec_u32_le(b, 24) as u32,
    }
}

fn decode_psi_header(b: &[u8]) -> (h: PsiStreamHeader)
    requires
        b@.len() >= PSI_STREAM_HEADER_LEN,
    ensures
        h == spec_psi_header(b@),
{
    PsiStreamHeader {
        name_table_size: read_u32_le(b, 0),
        addr_table_size: read_u32_le(b, 4),
        num_thunks: read_u32_le(b, 8),
        thunk_size: read_u32_le(b, 12),
        thunk_table_section: read_u16_le(b, 16),
        padding: read_u16_le(b, 18),
        thunk_table_offset: read_u32_le(b, 20),
        num_sections: read_u32_le(b, 24),
    }
}

/// Errors found while reading or checking the Public Symbol Index.
#[derive(Clone, Copy, Debug, PartialEq, Eq)]
pub enum PsiError {
    /// The stream is not empty but is shorter than the header.
    HeaderTooShort { stream_len: usize },
    /// The symbol hash table does not lie within the stream.
    NameTableOutOfRange,
    /// The address map does not lie within the stream.
    AddrMapOutOfRange,
    /// An address map entry does not point to a readable `S_PUB32` record.
    Symbol(SymbolError),
    /// This many address map entries are out of order.
    OutOfOrder { count: usize },
}

/// The name-to-symbol hash table of the index, held in its encoded form.
pub struct NameTable {
    /// The number of hash buckets, which the stream does not record.
    pub num_buckets: usize,
    /// The encoded table.
    pub table_bytes: Vec<u8>,
}

impl NameTable {
    /// A table with no names.
    pub fn empty() -> (r: NameTable)
        ensures
            r.num_buckets == 0,
            r.table_bytes@ == Seq::<u8>::empty(),
    {
        NameTable { num_buckets: 0, table_bytes: Vec::new() }
    }
}

/// What parsing a PSI stream gives: its name table bytes and its address map. An empty stream
/// gives an empty index. Bytes after the address map are not read; an address map whose length
/// is not a multiple of 4 loses its last, partial entry.
pub open spec fn spec_parse_psi(b: Seq<u8>) -> Result<(Seq<u8>, Seq<u32>), PsiError> {
    if b.len() == 0 {
        Ok((Seq::empty(), Seq::empty()))
    } else if b.len() < PSI_STREAM_HEADER_LEN {
        Err(PsiError::HeaderTooShort { stream_len: b.len() as usize })
    } else {
        let nts = spec_u32_le(b, 0);
        let ats = spec_u32_le(b, 4);
        if PSI_STREAM_HEADER_LEN + nts > b.len() {
            Err(PsiError::NameTableOutOfRange)
        } else if PSI_STREAM_HEADER_LEN + nts + ats > b.len() {
            Err(PsiError::AddrMapOutOfRange)
        } else {
            Ok(
                (
                    b.subrange(PSI_STREAM_HEADER_LEN as int, PSI_STREAM_HEADER_LEN + nts),
                    spec_u32_array(b, PSI_STREAM_HEADER_LEN + nts, ats / 4),
                ),
            )
        }
    }
}

/// Contains the Public Symbol Index
///
/// The Public Symbol Index (PSI) contains a name-to-symbol lookup table and an address-to-symbol
/// lookup table.
pub struct PublicSymbolIndex {
    /// Allows name-to-symbol look for `S_PUB32` symbols.
    name_table: NameTable,
    /// Each entry in this table is a byte offset of one `S_PUB32` symbol in the GSS.
    /// All of the values are sorted by `(segment, offset)`, which allows binary search.
    addr_map: Vec<u32>,
}

/// The search for `(segment, offset)` in the entries `lo..hi` of the address map: it looks at
/// the middle entry, stops there on an exact match, and otherwise continues in the half on the
/// side of the target. The result is the index of the entry found, or the error met reading a
/// record.
pub open spec fn spec_find_by_addr(
    data: Seq<u8>,
    map: Seq<u32>,
    lo: int,
    hi: int,
    segment: u16,
    offset: u32,
) -> Result<Option<int>, SymbolError>
    decreases hi - lo,
{
    if lo >= hi {
        Ok(None)
    } else {
        let mid = lo + (hi - lo) / 2;
        match spec_pub32_at(data, map[mid]) {
            Err(e) => Err(e),
            Ok(p) => {
                let os = p.fixed.offset_segment;
                if segment < os.segment {
                    spec_find_by_addr(data, map, lo, mid, segment, offset)
                } else if segment > os.segment {
                    spec_find_by_addr(data, map, mid + 1, hi, segment, offset)
                } else if offset < os.offset {
                    spec_find_by_addr(data, map, lo, mid, segment, offset)
                } else if offset == os.offset {
                    Ok(Some(mid))
                } else {
                    spec_find_by_addr(data, map, mid + 1, hi, segment, offset)
                }
            },
        }
    }
}

/// The position of the first entry from `i` on whose record cannot be read, or the length of
/// the map when every entry can be read.
pub open spec fn first_unresolved(data: Seq<u8>, map: Seq<u32>, i: int) -> int
    decreases map.len() - i,
{
    if i >= map.len() {
        map.len() as int
    } else if !pub32_resolves(data, map[i]) {
        i
    } else {
        first_unresolved(data, map, i + 1)
    }
}

/// The number of positions `k` in `1..n` at which the entry before `k` has a greater address
/// than the entry at `k`.
pub open spec fn count_descents(data: Seq<u8>, map: Seq<u32>, n: int) -> nat
    decreases n,
{
    if n <= 1 {
        0
    } else {
        count_descents(data, map, n - 1) + if os_le(
            pub32_address(data, map[n - 2]),
            pub32_address(data, map[n - 1]),
        ) {
            0nat
        } else {
            1nat
        }
    }
}

/// What checking the index against a GSS gives: the error of the first entry whose record
/// cannot be read; otherwise, when some entries are out of order, their number; otherwise
/// success.
pub open spec fn spec_check_consistency(data: Seq<u8>, map: Seq<u32>) -> Result<(), PsiError> {
    let f = first_unresolved(data, map, 0);
    if f < map.len() {
        Err(PsiError::Symbol(spec_pub32_at(data, map[f])->Err_0))
    } else if count_descents(data, map, map.len() as int) == 0 {
        Ok(())
    } else {
        Err(PsiError::OutOfOrder { count: count_descents(data, map, map.len() as int) as usize })
    }
}

/// Every entry of the address map points to a readable `S_PUB32` record.
pub open spec fn all_resolve(data: Seq<u8>, map: Seq<u32>) -> bool {
    forall|i: int| 0 <= i < map.len() ==> #[trigger] pub32_resolves(data, map[i])
}

/// The entries of the address map are sorted by the addresses of their records.
pub open spec fn addr_map_sorted(data: Seq<u8>, map: Seq<u32>) -> bool {
    forall|i: int, j: int|
        0 <= i <= j < map.len() ==> os_le(
            #[trigger] pub32_address(data, map[i]),
            #[trigger] pub32_address(data, map[j]),
        )
}

/// The record of entry `i` has the address `(segment, offset)`.
pub open spec fn entry_at_address(
    data: Seq<u8>,
    map: Seq<u32>,
    i: int,
    segment: u16,
    offset: u32,
) -> bool {
    &&& pub32_resolves(data, map[i])
    &&& pub32_address(data, map[i]) == (OffsetSegment { offset, segment })
}

impl PublicSymbolIndex {
    /// The address map.
    pub closed spec fn spec_addr_map(&self) -> Seq<u32> {
        self.addr_map@
    }

    /// The bytes of the name table.
    pub closed spec fn spec_name_table_bytes(&self) -> Seq<u8> {
        self.name_table.table_bytes@
    }

    /// The number of hash buckets of the name table.
    pub closed spec fn spec_num_buckets(&self) -> usize {
        self.name_table.num_buckets
    }

    /// Parses the PSI from stream data. The caller must specify `num_buckets` because that value
    /// is not stored within the stream. The name table is kept as the bytes that the header
    /// gives it and is not decoded or validated here: a malformed name table does not make
    /// parsing fail.
    pub fn parse(num_buckets: usize, public_stream_data: Vec<u8>) -> (r: Result<Self, PsiError>)
        ensures
            match r {
                Ok(psi) => spec_parse_psi(public_stream_data@) == Ok::<
                    (Seq<u8>, Seq<u32>),
                    PsiError,
                >((psi.spec_name_table_bytes(), psi.spec_addr_map())),
                Err(e) => spec_parse_psi(public_stream_data@) == Err::<
                    (Seq<u8>, Seq<u32>),
                    PsiError,
                >(e),
            },
            public_stream_data@.len() > 0 ==> (r matches Ok(psi) ==> psi.spec_num_buckets()
                == num_buckets),
            public_stream_data@.len() == 0 ==> (r matches Ok(psi) && psi.spec_num_buckets() == 0),
    {
        let data = public_stream_data.as_slice();
        if data.len() == 0 {
            return Ok(Self::empty());
        }
        if data.len() < PSI_STREAM_HEADER_LEN {
            return Err(PsiError::HeaderTooShort { stream_len: data.len() });
        }
        let psgsi_header = decode_psi_header(data);
        let sym_hash_size = psgsi_header.name_table_size as usize;
        let addr_map_size = psgsi_header.addr_table_size as usize;
        if sym_hash_size > data.len() - PSI_STREAM_HEADER_LEN {
            return Err(PsiError::NameTableOutOfRange);
        }
        let addr_start = PSI_STREAM_HEADER_LEN + sym_hash_size;
        if addr_map_size > data.len() - addr_start {
            return Err(PsiError::AddrMapOutOfRange);
        }
        let sym_hash_bytes = vstd::slice::slice_subrange(data, PSI_STREAM_HEADER_LEN, addr_start);
        let name_table = NameTable {
            num_buckets,
            table_bytes: vstd::slice::slice_to_vec(sym_hash_bytes),
        };
        let num_addrs = addr_map_size / 4;
        let mut addr_map: Vec<u32> = Vec::new();
        let mut i: usize = 0;
        let data_len = data.len();
        while i < num_addrs
            invariant
                data_len == data@.len(),
                num_addrs == addr_map_size / 4,
                addr_start + addr_map_size <= data@.len(),
                i <= num_addrs,
                addr_map@ == spec_u32_array(data@, addr_start as int, i as int),
            decreases num_addrs - i,
        {
            assert(4 * i + 4 <= addr_map_size) by (nonlinear_arith)
                requires
                    i < num_addrs,
                    num_addrs == addr_map_size / 4,
            ;
            let v = read_u32_le(data, addr_start + 4 * i);
            addr_map.push(v);
            i = i + 1;
            assert(addr_map@ =~= spec_u32_array(data@, addr_start as int, i as int));
        }
        assert(name_table.table_bytes@ =~= data@.subrange(
            PSI_STREAM_HEADER_LEN as int,
            addr_start as int,
        ));
        Ok(PublicSymbolIndex { name_table, addr_map })
    }

    /// Constructs an empty instance of the PSI.
    pub fn empty() -> (r: Self)
        ensures
            r.spec_addr_map() == Seq::<u32>::empty(),
            r.spec_name_table_bytes() == Seq::<u8>::empty(),
            r.spec_num_buckets() == 0,
    {
        Self { addr_map: Vec::new(), name_table: NameTable::empty() }
    }

    /// Gets direct access to the name-to-symbol table.
    pub fn names(&self) -> (r: &NameTable)
        ensures
            r.table_bytes@ == self.spec_name_table_bytes(),
            r.num_buckets == self.spec_num_buckets(),
    {
        &self.name_table
    }

    /// The address map: the byte offsets of the `S_PUB32` records, in address order.
    pub fn addr_map(&self) -> (r: &[u32])
        ensures
            r@ == self.spec_addr_map(),
    {
        self.addr_map.as_slice()
    }

    /// Check invariants for the PSI. This requires having access to the GSS, since the PSI
    /// points into the GSS: every entry of the address map must point to an `S_PUB32` record,
    /// and the addresses of the records must be in non-decreasing order.
    pub fn check_consistency(&self, gss: &GlobalSymbolStream) -> (r: Result<(), PsiError>)
        ensures
            r == spec_check_consistency(gss.stream_data@, self.spec_addr_map()),
    {
        let ghost data = gss.stream_data@;
        let ghost map = self.addr_map@;
        let mut prev: Option<OffsetSegment> = None;
        let mut num_bad_order: usize = 0;
        let mut i: usize = 0;
        while i < self.addr_map.len()
            invariant
                data == gss.stream_data@,
                map == self.addr_map@,
                i <= map.len(),
                forall|j: int| 0 <= j < i ==> #[trigger] pub32_resolves(data, map[j]),
                num_bad_order == count_descents(data, map, i as int),
                num_bad_order <= i,
                i == 0 ==> prev is None,
                i > 0 ==> prev == Some(pub32_address(data, map[i - 1])),
            decreases map.len() - i,
        {
            let offset = self.addr_map[i];
            let sym = match gss.get_pub32_at(offset) {
                Ok(sym) => sym,
                Err(e) => {
                    proof {
                        lemma_first_unresolved_is(data, map, i as int, 0);
                    }
                    return Err(PsiError::Symbol(e));
                },
            };
            let os = sym.offset_segment();
            if let Some(p) = prev {
                if p.segment > os.segment || (p.segment == os.segment && p.offset > os.offset) {
                    num_bad_order = num_bad_order + 1;
                }
            }
            prev = Some(os);
            i = i + 1;
        }
        proof {
            lemma_first_unresolved_is(data, map, map.len() as int, 0);
        }
        if num_bad_order != 0 {
            return Err(PsiError::OutOfOrder { count: num_bad_order });
        }
        Ok(())
    }

    /// Searches for an `S_PUB32` symbol by address. Returns the symbol and the distance of the
    /// address from it, which is always 0: only exact matches are found.
    pub fn find_symbol_by_addr(&self, gss: &GlobalSymbolStream, segment: u16, offset: u32) -> (r:
        Result<Option<(Pub, u32)>, PsiError>)
        ensures
            match (
                r,
                spec_find_by_addr(
                    gss.stream_data@,
                    self.spec_addr_map(),
                    0,
                    self.spec_addr_map().len() as int,
                    segment,
                    offset,
                ),
            ) {
                (Ok(Some((p, d))), Ok(Some(i))) => d == 0 && spec_pub32_at(
                    gss.stream_data@,
                    self.spec_addr_map()[i],
                ) == Ok::<PubView, SymbolError>(p@),
                (Ok(None), Ok(None)) => true,
                (Err(e), Err(e2)) => e == PsiError::Symbol(e2),
                _ => false,
            },
    {
        let ghost data = gss.stream_data@;
        let ghost map = self.addr_map@;
        let mut lo: usize = 0;
        let mut hi: usize = self.addr_map.len();
        while lo < hi
            invariant
                data == gss.stream_data@,
                map == self.addr_map@,
                lo <= hi <= map.len(),
                spec_find_by_addr(data, map, lo as int, hi as int, segment, offset)
                    == spec_find_by_addr(data, map, 0, map.len() as int, segment, offset),
            decreases hi - lo,
        {
            let mid = lo + (hi - lo) / 2;
            let mid_rec = match gss.get_pub32_at(self.addr_map[mid]) {
                Ok(p) => p,
                Err(e) => {
                    return Err(PsiError::Symbol(e));
                },
            };
            let mid_segment = mid_rec.fixed.offset_segment.segment;
            let mid_offset = mid_rec.fixed.offset_segment.offset;
            if segment < mid_segment {
                hi = mid;
                continue ;
            }
            if segment > mid_segment {
                lo = mid + 1;
                continue ;
            }
            if offset < mid_offset {
                hi = mid;
                continue ;
            }
            if offset == mid_offset {
                return Ok(Some((mid_rec, 0)));
            }
            lo = mid + 1;
        }
        Ok(None)
    }
}

/// When every entry before `i` can be read and entry `i` cannot (or `i` is the end of the map),
/// the search from any `k <= i` for the first unreadable entry finds `i`.
proof fn lemma_first_unresolved_is(data: Seq<u8>, map: Seq<u32>, i: int, k: int)
    requires
        0 <= k <= i <= map.len(),
        forall|j: int| 0 <= j < i ==> #[trigger] pub32_resolves(data, map[j]),
        i < map.len() ==> !pub32_resolves(data, map[i]),
    ensures
        first_unresolved(data, map, k) == i,
    decreases i - k,
{
    if k < i {
        assert(pub32_resolves(data, map[k]));
        lemma_first_unresolved_is(data, map, i, k + 1);
    }
}

} // verus!

verus! {

/// No descent among the first `n` entries means each of the first `n - 1` adjacent pairs is in
/// order.
proof fn lemma_no_descents_adjacent(data: Seq<u8>, map: Seq<u32>, n: int)
    requires
        0 <= n <= map.len(),
        count_descents(data, map, n) == 0,
    ensures
        forall|k: int|
            1 <= k < n ==> os_le(
                pub32_address(data, map[k - 1]),
                #[trigger] pub32_address(data, map[k]),
            ),
    decreases n,
{
    if n > 1 {
        lemma_no_descents_adjacent(data, map, n - 1);
    }
}

/// Adjacent pairs in order give every pair in order.
proof fn lemma_adjacent_to_sorted(data: Seq<u8>, map: Seq<u32>, i: int, j: int)
    requires
        0 <= i <= j < map.len(),
        forall|k: int|
            1 <= k < map.len() ==> os_le(
                pub32_address(data, map[k - 1]),
                #[trigger] pub32_address(data, map[k]),
            ),
    ensures
        os_le(pub32_address(data, map[i]), pub32_address(data, map[j])),
    decreases j - i,
{
    if i < j {
        lemma_adjacent_to_sorted(data, map, i, j - 1);
        assert(os_le(pub32_address(data, map[j - 1]), pub32_address(data, map[j])));
    }
}

/// An address map with no descents is sorted.
pub proof fn lemma_no_descents_sorted(data: Seq<u8>, map: Seq<u32>)
    requires
        count_descents(data, map, map.len() as int) == 0,
    ensures
        addr_map_sorted(data, map),
{
    lemma_no_descents_adjacent(data, map, map.len() as int);
    assert forall|i: int, j: int| 0 <= i <= j < map.len() implies os_le(
        #[trigger] pub32_address(data, map[i]),
        #[trigger] pub32_address(data, map[j]),
    ) by {
        lemma_adjacent_to_sorted(data, map, i, j);
    }
}

/// The search over `lo..hi` of a sorted address map whose records can all be read never fails;
/// it finds an entry at the address exactly when there is one in `lo..hi`.
proof fn lemma_find_range(
    data: Seq<u8>,
    map: Seq<u32>,
    lo: int,
    hi: int,
    segment: u16,
    offset: u32,
)
    requires
        0 <= lo <= hi <= map.len(),
        all_resolve(data, map),
        addr_map_sorted(data, map),
    ensures
        match spec_find_by_addr(data, map, lo, hi, segment, offset) {
            Err(_) => false,
            Ok(Some(i)) => lo <= i < hi && entry_at_address(data, map, i, segment, offset),
            Ok(None) => forall|j: int|
                lo <= j < hi ==> !#[trigger] entry_at_address(data, map, j, segment, offset),
        },
    decreases hi - lo,
{
    if lo < hi {
        let mid = lo + (hi - lo) / 2;
        assert(pub32_resolves(data, map[mid]));
        let k = pub32_address(data, map[mid]);
        if segment < k.segment || (segment == k.segment && offset < k.offset) {
            lemma_find_range(data, map, lo, mid, segment, offset);
            assert forall|j: int| mid <= j < hi implies !#[trigger] entry_at_address(
                data,
                map,
                j,
                segment,
                offset,
            ) by {
                assert(os_le(pub32_address(data, map[mid]), pub32_address(data, map[j])));
            }
        } else if segment > k.segment || (segment == k.segment && offset > k.offset) {
            lemma_find_range(data, map, mid + 1, hi, segment, offset);
            assert forall|j: int| lo <= j <= mid implies !#[trigger] entry_at_address(
                data,
                map,
                j,
                segment,
                offset,
            ) by {
                assert(os_le(pub32_address(data, map[j]), pub32_address(data, map[mid])));
            }
        }
    }
}

/// A match that the address search reports is a real one: the entry it names is in the map
/// and its record is at the address searched for. This holds whether or not the map is sorted.
pub proof fn lemma_find_by_addr_sound(
    data: Seq<u8>,
    map: Seq<u32>,
    lo: int,
    hi: int,
    segment: u16,
    offset: u32,
)
    requires
        0 <= lo <= hi <= map.len(),
    ensures
        spec_find_by_addr(data, map, lo, hi, segment, offset) matches Ok(Some(i)) ==> lo <= i < hi
            && entry_at_address(data, map, i, segment, offset),
    decreases hi - lo,
{
    if lo < hi {
        let mid = lo + (hi - lo) / 2;
        lemma_find_by_addr_sound(data, map, lo, mid, segment, offset);
        lemma_find_by_addr_sound(data, map, mid + 1, hi, segment, offset);
    }
}

/// An index that passes the consistency check against a GSS is searchable by address: the
/// search never fails, and it finds a symbol exactly when some entry of the address map points
/// to a symbol at that address.
pub proof fn lemma_consistent_index_finds_every_address(
    data: Seq<u8>,
    map: Seq<u32>,
    segment: u16,
    offset: u32,
)
    requires
        spec_check_consistency(data, map) is Ok,
    ensures
        spec_find_by_addr(data, map, 0, map.len() as int, segment, offset) is Ok,
        spec_find_by_addr(data, map, 0, map.len() as int, segment, offset) matches Ok(Some(i))
            ==> entry_at_address(data, map, i, segment, offset),
        (spec_find_by_addr(data, map, 0, map.len() as int, segment, offset) == Ok::<
            Option<int>,
            SymbolError,
        >(None)) <==> !(exists|j: int|
            0 <= j < map.len() && #[trigger] entry_at_address(data, map, j, segment, offset)),
{
    lemma_first_unresolved_all(data, map, 0);
    lemma_no_descents_sorted(data, map);
    lemma_find_range(data, map, 0, map.len() as int, segment, offset);
}

/// When the search for an unreadable entry from `k` reaches the end, every entry from `k` on can
/// be read.
proof fn lemma_first_unresolved_all(data: Seq<u8>, map: Seq<u32>, k: int)
    requires
        0 <= k <= map.len(),
        first_unresolved(data, map, k) >= map.len(),
    ensures
        forall|j: int| k <= j < map.len() ==> #[trigger] pub32_resolves(data, map[j]),
    decreases map.len() - k,
{
    if k < map.len() {
        lemma_first_unresolved_all(data, map, k + 1);
    }
}

} // verus!

verus! {

/// The key by which address records are sorted: the address (segment, then offset), then the
/// record's byte offset.
pub open spec fn spec_address_key(e: (u32, OffsetSegment)) -> (u16, u32, u32) {
    (e.1.segment, e.1.offset, e.0)
}

/// Keys are ordered lexicographically.
pub open spec fn key_le(a: (u16, u32, u32), b: (u16, u32, u32)) -> bool {
    a.0 < b.0 || (a.0 == b.0 && (a.1 < b.1 || (a.1 == b.1 && a.2 <= b.2)))
}

/// The records are sorted by their keys.
pub open spec fn address_records_sorted(s: Seq<(u32, OffsetSegment)>) -> bool {
    forall|i: int, j: int|
        0 <= i <= j < s.len() ==> key_le(
            #[trigger] spec_address_key(s[i]),
            #[trigger] spec_address_key(s[j]),
        )
}

fn address_sort_key(e: &(u32, OffsetSegment)) -> (r: (u16, u32, u32))
    ensures
        r == spec_address_key(*e),
{
    (e.1.segment, e.1.offset, e.0)
}

/// Sorts with `slice::sort_unstable_by_key` and `address_sort_key` as the key. As the standard
/// library documents, the result holds the same elements, ordered by the key; tuples of integers
/// are ordered lexicographically.
#[verifier::external_body]
fn sort_by_address_key(addr_map: &mut [(u32, OffsetSegment)])
    ensures
        final(addr_map)@.len() == old(addr_map)@.len(),
        final(addr_map)@.to_multiset() == old(addr_map)@.to_multiset(),
        address_records_sorted(final(addr_map)@),
{
    addr_map.sort_unstable_by_key(address_sort_key)
}

/// The key of a record holds all of it, so that no two different records tie.
proof fn lemma_address_key_injective(x: (u32, OffsetSegment), y: (u32, OffsetSegment))
    requires
        key_le(spec_address_key(x), spec_address_key(y)),
        key_le(spec_address_key(y), spec_address_key(x)),
    ensures
        x == y,
{
    assert(x.1 == y.1);
}

/// Records sorted by their keys are placed by what they hold alone: two sorted arrangements of
/// the same records are the same sequence.
pub proof fn lemma_sorted_records_unique(s: Seq<(u32, OffsetSegment)>, t: Seq<(u32, OffsetSegment)>)
    requires
        s.to_multiset() == t.to_multiset(),
        address_records_sorted(s),
        address_records_sorted(t),
    ensures
        s == t,
    decreases s.len(),
{
    broadcast use vstd::seq_lib::group_to_multiset_ensures;

    assert(s.len() == s.to_multiset().len());
    assert(t.len() == t.to_multiset().len());
    if s.len() == 0 {
        assert(s =~= t);
    } else {
        let x = s[0];
        let y = t[0];
        assert(s.to_multiset().count(x) > 0);
        assert(t.contains(x));
        let k = choose|k: int| 0 <= k < t.len() && t[k] == x;
        assert(key_le(spec_address_key(t[0]), spec_address_key(t[k])));
        assert(t.to_multiset().count(y) > 0);
        assert(s.contains(y));
        let m = choose|m: int| 0 <= m < s.len() && s[m] == y;
        assert(key_le(spec_address_key(s[0]), spec_address_key(s[m])));
        lemma_address_key_injective(x, y);
        assert(s.remove(0) =~= s.drop_first());
        assert(t.remove(0) =~= t.drop_first());
        assert(s.remove(0).to_multiset() == s.to_multiset().remove(x));
        assert(t.remove(0).to_multiset() == t.to_multiset().remove(y));
        let s1 = s.drop_first();
        let t1 = t.drop_first();
        assert forall|i: int, j: int| 0 <= i <= j < s1.len() implies key_le(
            #[trigger] spec_address_key(s1[i]),
            #[trigger] spec_address_key(s1[j]),
        ) by {
            assert(s1[i] == s[i + 1] && s1[j] == s[j + 1]);
        }
        assert forall|i: int, j: int| 0 <= i <= j < t1.len() implies key_le(
            #[trigger] spec_address_key(t1[i]),
            #[trigger] spec_address_key(t1[j]),
        ) by {
            assert(t1[i] == t[i + 1] && t1[j] == t[j + 1]);
        }
        lemma_sorted_records_unique(s1, t1);
        assert(s =~= t) by {
            assert forall|i: int| 0 <= i < s.len() implies s[i] == t[i] by {
                if i > 0 {
                    assert(s[i] == s1[i - 1]);
                    assert(t[i] == t1[i - 1]);
                }
            }
        }
    }
}

/// Sorts an address map slice by address (segment, then offset), and records at the same
/// address by their byte offset. Records that are sorted already stay as they are.
pub fn sort_address_records(addr_map: &mut [(u32, OffsetSegment)])
    ensures
        final(addr_map)@.len() == old(addr_map)@.len(),
        final(addr_map)@.to_multiset() == old(addr_map)@.to_multiset(),
        address_records_sorted(final(addr_map)@),
        address_records_sorted(old(addr_map)@) ==> final(addr_map)@ == old(addr_map)@,
{
    sort_by_address_key(addr_map);
    proof {
        if address_records_sorted(old(addr_map)@) {
            lemma_sorted_records_unique(final(addr_map)@, old(addr_map)@);
        }
    }
}

/// The address table: the little-endian record offset of each entry, in order.
pub open spec fn spec_addr_table_bytes(m: Seq<(u32, OffsetSegment)>) -> Seq<u8>
    decreases m.len(),
{
    if m.len() == 0 {
        Seq::empty()
    } else {
        spec_addr_table_bytes(m.drop_last()) + spec_u32_le_bytes(m.last().0)
    }
}

/// The header of a PSI stream whose name table and address table have the given sizes; the
/// other fields are zero.
pub open spec fn spec_psi_header_bytes(name_table_size: u32, addr_table_size: u32) -> Seq<u8> {
    spec_u32_le_bytes(name_table_size) + spec_u32_le_bytes(addr_table_size) + Seq::new(
        20,
        |i: int| 0u8,
    )
}

/// The PSI stream made of a header, the encoded name table and the address table.
pub open spec fn spec_build_psi(name_table: Seq<u8>, m: Seq<(u32, OffsetSegment)>) -> Seq<u8> {
    spec_psi_header_bytes(name_table.len() as u32, (4 * m.len()) as u32) + name_table
        + spec_addr_table_bytes(m)
}

/// Appends `n` zero bytes.
fn push_zeros(out: &mut Vec<u8>, n: usize)
    ensures
        final(out)@ == old(out)@ + Seq::new(n as nat, |i: int| 0u8),
{
    let ghost start = out@;
    let mut z: usize = 0;
    while z < n
        invariant
            z <= n,
            out@ == start + Seq::new(z as nat, |i: int| 0u8),
        decreases n - z,
    {
        out.push(0u8);
        z = z + 1;
        assert(out@ =~= start + Seq::new(z as nat, |i: int| 0u8));
    }
}

/// Appends the bytes of `bytes`.
fn push_bytes(out: &mut Vec<u8>, bytes: &[u8])
    ensures
        final(out)@ == old(out)@ + bytes@,
{
    let ghost start = out@;
    let mut k: usize = 0;
    while k < bytes.len()
        invariant
            k <= bytes@.len(),
            out@ == start + bytes@.subrange(0, k as int),
        decreases bytes@.len() - k,
    {
        out.push(bytes[k]);
        k = k + 1;
        assert(out@ =~= start + bytes@.subrange(0, k as int));
    }
    assert(bytes@.subrange(0, bytes@.len() as int) =~= bytes@);
}

/// Appends the address table of `m`.
fn push_addr_table(out: &mut Vec<u8>, m: &[(u32, OffsetSegment)])
    ensures
        final(out)@ == old(out)@ + spec_addr_table_bytes(m@),
{
    let ghost start = out@;
    let mut i: usize = 0;
    while i < m.len()
        invariant
            i <= m@.len(),
            out@ == start + spec_addr_table_bytes(m@.subrange(0, i as int)),
        decreases m@.len() - i,
    {
        let rec_offset = m[i].0;
        push_u32_le(out, rec_offset);
        proof {
            let s = m@.subrange(0, i + 1);
            assert(s.drop_last() =~= m@.subrange(0, i as int));
            assert(s.last() == m@[i as int]);
            assert(out@ =~= start + spec_addr_table_bytes(s));
        }
        i = i + 1;
    }
    assert(m@.subrange(0, m@.len() as int) =~= m@);
}

/// Builds the Public Symbol Index (PSI) stream from its encoded name-to-symbol table and its
/// address map, which should already be sorted (see [`sort_address_records`]). The address map
/// keeps only the byte offset of each symbol record.
pub fn build_psi(name_table_bytes: &[u8], sorted_addr_map: &[(u32, OffsetSegment)]) -> (r: Vec<
    u8,
>)
    requires
        name_table_bytes@.len() % 4 == 0,
        name_table_bytes@.len() <= u32::MAX,
        4 * sorted_addr_map@.len() <= u32::MAX,
    ensures
        r@ == spec_build_psi(name_table_bytes@, sorted_addr_map@),
        r@.len() % 4 == 0,
{
    let addr_map_size_bytes = sorted_addr_map.len() * 4;
    let mut stream_data: Vec<u8> = Vec::new();
    push_u32_le(&mut stream_data, name_table_bytes.len() as u32);
    push_u32_le(&mut stream_data, addr_map_size_bytes as u32);
    push_zeros(&mut stream_data, 20);
    let ghost header = stream_data@;
    assert(header =~= spec_psi_header_bytes(
        name_table_bytes@.len() as u32,
        (4 * sorted_addr_map@.len()) as u32,
    ));
    push_bytes(&mut stream_data, name_table_bytes);
    push_addr_table(&mut stream_data, sorted_addr_map);
    proof {
        lemma_addr_table_len(sorted_addr_map@);
        let nt = name_table_bytes@.len() as int;
        let n = sorted_addr_map@.len() as int;
        assert(stream_data@.len() == 28 + nt + 4 * n);
        assert((28 + nt + 4 * n) % 4 == 0) by (nonlinear_arith)
            requires
                nt % 4 == 0,
        ;
    }
    stream_data
}

/// The address table has 4 bytes per entry.
proof fn lemma_addr_table_len(m: Seq<(u32, OffsetSegment)>)
    ensures
        spec_addr_table_bytes(m).len() == 4 * m.len(),
    decreases m.len(),
{
    if m.len() > 0 {
        lemma_addr_table_len(m.drop_last());
    }
}

} // verus!

verus! {

/// Entry `i` of the address table decodes to the record offset of entry `i`.
proof fn lemma_addr_table_decode(m: Seq<(u32, OffsetSegment)>, i: int)
    requires
        0 <= i < m.len(),
    ensures
        spec_u32_le(spec_addr_table_bytes(m), 4 * i) == m[i].0,
    decreases m.len(),
{
    let prefix = spec_addr_table_bytes(m.drop_last());
    lemma_addr_table_len(m.drop_last());
    if i == m.len() - 1 {
        lemma_u32_le_suffix(prefix, spec_u32_le_bytes(m.last().0), 0);
        lemma_u32_le_roundtrip(m.last().0);
    } else {
        lemma_addr_table_decode(m.drop_last(), i);
        lemma_u32_le_prefix(prefix, spec_u32_le_bytes(m.last().0), 4 * i);
    }
}

/// Parsing a PSI stream built from a name table and an address map gives back the name table
/// and the record offsets of the address map, in order.
pub proof fn lemma_build_then_parse(nt: Seq<u8>, m: Seq<(u32, OffsetSegment)>)
    requires
        nt.len() <= u32::MAX,
        4 * m.len() <= u32::MAX,
    ensures
        spec_parse_psi(spec_build_psi(nt, m)) == Ok::<(Seq<u8>, Seq<u32>), PsiError>(
            (nt, m.map_values(|e: (u32, OffsetSegment)| e.0)),
        ),
{
    let nts = nt.len() as u32;
    let ats = (4 * m.len()) as u32;
    let e1 = spec_u32_le_bytes(nts);
    let e2 = spec_u32_le_bytes(ats);
    let z = Seq::new(20, |i: int| 0u8);
    let h = spec_psi_header_bytes(nts, ats);
    let a = spec_addr_table_bytes(m);
    let b = spec_build_psi(nt, m);
    lemma_addr_table_len(m);
    assert(h == e1 + e2 + z);
    assert(b == h + nt + a);
    assert(h.len() == 28);
    // The sizes in the header.
    lemma_u32_le_roundtrip(nts);
    lemma_u32_le_roundtrip(ats);
    lemma_u32_le_prefix(e1, e2, 0);
    lemma_u32_le_prefix(e1 + e2, z, 0);
    lemma_u32_le_suffix(e1, e2, 0);
    lemma_u32_le_prefix(e1 + e2, z, 4);
    lemma_u32_le_prefix(h, nt + a, 0);
    lemma_u32_le_prefix(h, nt + a, 4);
    assert(h + nt + a == h + (nt + a));
    assert(spec_u32_le(b, 0) == nts);
    assert(spec_u32_le(b, 4) == ats);
    // The name table.
    assert(b.subrange(28, 28 + nt.len() as int) =~= nt);
    // The address map.
    let decoded = spec_u32_array(b, 28 + nt.len() as int, (ats / 4) as int);
    let expected = m.map_values(|e: (u32, OffsetSegment)| e.0);
    assert forall|i: int| 0 <= i < m.len() implies #[trigger] decoded[i] == expected[i] by {
        lemma_addr_table_decode(m, i);
        lemma_u32_le_suffix(h + nt, a, 4 * i);
    }
    assert(decoded =~= expected);
}

/// Each address record points to a readable `S_PUB32` record at the address it claims.
pub open spec fn records_match_gss(data: Seq<u8>, m: Seq<(u32, OffsetSegment)>) -> bool {
    forall|i: int|
        0 <= i < m.len() ==> pub32_resolves(data, #[trigger] m[i].0) && pub32_address(data, m[i].0)
            == m[i].1
}

/// A sorted address map has no descents.
proof fn lemma_sorted_no_descents(data: Seq<u8>, m: Seq<(u32, OffsetSegment)>, n: int)
    requires
        0 <= n <= m.len(),
        address_records_sorted(m),
        records_match_gss(data, m),
    ensures
        count_descents(data, m.map_values(|e: (u32, OffsetSegment)| e.0), n) == 0,
    decreases n,
{
    let map = m.map_values(|e: (u32, OffsetSegment)| e.0);
    if n > 1 {
        lemma_sorted_no_descents(data, m, n - 1);
        assert(map[n - 2] == m[n - 2].0);
        assert(map[n - 1] == m[n - 1].0);
        assert(pub32_resolves(data, m[n - 2].0));
        assert(pub32_resolves(data, m[n - 1].0));
        assert(key_le(spec_address_key(m[n - 2]), spec_address_key(m[n - 1])));
    }
}

/// A Public Symbol Index built from address records that are sorted, and that each point to a
/// readable `S_PUB32` record at the address they claim, parses back and passes the consistency
/// check against that Global Symbol Stream.
pub proof fn lemma_sorted_build_is_consistent(
    data: Seq<u8>,
    nt: Seq<u8>,
    m: Seq<(u32, OffsetSegment)>,
)
    requires
        nt.len() <= u32::MAX,
        4 * m.len() <= u32::MAX,
        address_records_sorted(m),
        records_match_gss(data, m),
    ensures
        spec_parse_psi(spec_build_psi(nt, m)) matches Ok((_, map)) && spec_check_consistency(
            data,
            map,
        ) == Ok::<(), PsiError>(()),
{
    lemma_build_then_parse(nt, m);
    let map = m.map_values(|e: (u32, OffsetSegment)| e.0);
    assert forall|j: int| 0 <= j < map.len() implies #[trigger] pub32_resolves(data, map[j]) by {
        assert(map[j] == m[j].0);
        assert(pub32_resolves(data, m[j].0));
    }
    lemma_first_unresolved_is(data, map, map.len() as int, 0);
    lemma_sorted_no_descents(data, m, m.len() as int);
}

} // verus!
