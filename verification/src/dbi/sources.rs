//! The Sources substream of the DBI stream.
//!
//! The substream lists the source files of each module. Its layout is:
//!
//! * `u16` number of modules `n`, then a `u16` that once counted the source files (it
//!   overflows, so it is not used);
//! * `u16[n]`: for each module, the index of its first entry in the file name offsets;
//! * `u16[n]`: for each module, the number of its source files;
//! * `u32[sum of the counts]`: the file name offsets, each an offset into the names buffer;
//! * the names buffer: NUL-terminated file names.

use crate::bytes::{
    find_nul, lemma_nul_index_bounds, nul_index, read_u16_le, read_u32_le, spec_u16_array,
    spec_u16_le, spec_u32_array,
};
use crate::dbi::{DbiError, SubstreamKind};
use vstd::prelude::*;

verus! {

/// The sum of a sequence of counts.
pub open spec fn sum_counts(s: Seq<u16>) -> int
    decreases s.len(),
{
    if s.len() == 0 {
        0
    } else {
        sum_counts(s.drop_last()) + s.last()
    }
}

/// The sum of `k` counts is at most `k * 65535`.
proof fn lemma_sum_counts_bound(s: Seq<u16>)
    ensures
        0 <= sum_counts(s) <= 65535 * s.len(),
    decreases s.len(),
{
    if s.len() > 0 {
        lemma_sum_counts_bound(s.drop_last());
    }
}

/// The decoded parts of a Sources substream.
#[derive(Debug)]
pub struct DbiSourcesSubstream {
    /// For each module, the index of its first entry in `file_name_offsets`.
    pub module_file_starts: Vec<u16>,
    /// For each module, the number of its source files.
    pub module_file_counts: Vec<u16>,
    /// Offsets into `names`, one per source file of each module.
    pub file_name_offsets: Vec<u32>,
    /// The NUL-terminated file names.
    pub names: Vec<u8>,
}

/// The decoded parts of a Sources substream, as sequences.
pub struct SourcesView {
    pub module_file_starts: Seq<u16>,
    pub module_file_counts: Seq<u16>,
    pub file_name_offsets: Seq<u32>,
    pub names: Seq<u8>,
}

impl View for DbiSourcesSubstream {
    type V = SourcesView;

    open spec fn view(&self) -> SourcesView {
        SourcesView {
            module_file_starts: self.module_file_starts@,
            module_file_counts: self.module_file_counts@,
            file_name_offsets: self.file_name_offsets@,
            names: self.names@,
        }
    }
}

/// The error for a Sources substream that ends before its parts do.
pub open spec fn sources_truncated() -> DbiError {
    DbiError::SubstreamTruncated { substream: SubstreamKind::SourceInfo }
}

/// What parsing the Sources substream `b` gives. An empty substream has no modules. Otherwise
/// the module arrays and the file name offsets must all be present; the rest is the names
/// buffer.
pub open spec fn spec_parse_sources(b: Seq<u8>) -> Result<SourcesView, DbiError> {
    if b.len() == 0 {
        Ok(
            SourcesView {
                module_file_starts: Seq::empty(),
                module_file_counts: Seq::empty(),
                file_name_offsets: Seq::empty(),
                names: Seq::empty(),
            },
        )
    } else if b.len() < 4 {
        Err(sources_truncated())
    } else {
        let n = spec_u16_le(b, 0);
        let counts = spec_u16_array(b, 4 + 2 * n, n);
        let total = sum_counts(counts);
        let names_start = 4 + 4 * n + 4 * total;
        if b.len() < 4 + 4 * n || b.len() < names_start {
            Err(sources_truncated())
        } else {
            Ok(
                SourcesView {
                    module_file_starts: spec_u16_array(b, 4, n),
                    module_file_counts: counts,
                    file_name_offsets: spec_u32_array(b, 4 + 4 * n, total),
                    names: b.subrange(names_start, b.len() as int),
                },
            )
        }
    }
}

/// The offsets of the source files of module `i`: the entries of the offset table from the
/// module's start, as many as its count.
pub open spec fn spec_module_name_offsets(v: SourcesView, i: int) -> Result<Seq<u32>, DbiError> {
    if i >= v.module_file_starts.len() {
        Err(DbiError::ModuleIndexOutOfRange { module_index: i as usize })
    } else {
        let start = v.module_file_starts[i] as int;
        let end = start + v.module_file_counts[i] as int;
        if end > v.file_name_offsets.len() {
            Err(DbiError::FileNameOffsetsOutOfRange { module_index: i as usize })
        } else {
            Ok(v.file_name_offsets.subrange(start, end))
        }
    }
}

/// The file name at `offset` in the names buffer: the bytes up to the next NUL, which must
/// exist.
pub open spec fn spec_file_name_at(names: Seq<u8>, offset: int) -> Result<Seq<u8>, DbiError> {
    if offset > names.len() {
        Err(DbiError::FileNameOffsetOutOfRange { offset: offset as u32 })
    } else if nul_index(names, offset) == names.len() {
        Err(DbiError::FileNameNotTerminated { offset: offset as u32 })
    } else {
        Ok(names.subrange(offset, nul_index(names, offset)))
    }
}

/// Reads `count` little-endian `u16` values starting at `start`.
fn read_u16_array(b: &[u8], start: usize, count: usize) -> (r: Vec<u16>)
    requires
        start + 2 * count <= b.len(),
    ensures
        r@ == spec_u16_array(b@, start as int, count as int),
{
    let mut out: Vec<u16> = Vec::new();
    let mut i: usize = 0;
    while i < count
        invariant
            start + 2 * count <= b.len(),
            i <= count,
            out@ == spec_u16_array(b@, start as int, count as int).take(i as int),
        decreases count - i,
    {
        out.push(read_u16_le(b, start + 2 * i));
        i = i + 1;
        assert(out@ =~= spec_u16_array(b@, start as int, count as int).take(i as int));
    }
    assert(out@ =~= spec_u16_array(b@, start as int, count as int));
    out
}

/// Reads `count` little-endian `u32` values starting at `start`.
fn read_u32_array(b: &[u8], start: usize, count: usize) -> (r: Vec<u32>)
    requires
        start + 4 * count <= b.len(),
    ensures
        r@ == spec_u32_array(b@, start as int, count as int),
{
    let mut out: Vec<u32> = Vec::new();
    let mut i: usize = 0;
    while i < count
        invariant
            start + 4 * count <= b.len(),
            i <= count,
            out@ == spec_u32_array(b@, start as int, count as int).take(i as int),
        decreases count - i,
    {
        out.push(read_u32_le(b, start + 4 * i));
        i = i + 1;
        assert(out@ =~= spec_u32_array(b@, start as int, count as int).take(i as int));
    }
    assert(out@ =~= spec_u32_array(b@, start as int, count as int));
    out
}

/// The sum of the counts.
fn total_count(counts: &Vec<u16>) -> (r: u64)
    requires
        counts@.len() <= 65535,
    ensures
        r == sum_counts(counts@),
        r <= 65535 * counts@.len(),
{
    let mut total: u64 = 0;
    let mut i: usize = 0;
    while i < counts.len()
        invariant
            i <= counts@.len(),
            counts@.len() <= 65535,
            total == sum_counts(counts@.take(i as int)),
        decreases counts@.len() - i,
    {
        proof {
            lemma_sum_counts_bound(counts@.take(i as int));
            assert(counts@.take(i as int + 1).drop_last() =~= counts@.take(i as int));
        }
        total = total + counts[i] as u64;
        i = i + 1;
    }
    assert(counts@.take(counts@.len() as int) =~= counts@);
    proof {
        lemma_sum_counts_bound(counts@);
    }
    total
}

impl DbiSourcesSubstream {
    /// Parses the Sources substream. An empty substream gives no modules and no files.
    pub fn parse(bytes: &[u8]) -> (r: Result<Self, DbiError>)
        ensures
            match spec_parse_sources(bytes@) {
                Ok(v) => r matches Ok(s) && s@ == v,
                Err(e) => r == Err::<Self, DbiError>(e),
            },
    {
        if bytes.len() == 0 {
            return Ok(
                DbiSourcesSubstream {
                    module_file_starts: Vec::new(),
                    module_file_counts: Vec::new(),
                    file_name_offsets: Vec::new(),
                    names: Vec::new(),
                },
            );
        }
        if bytes.len() < 4 {
            return Err(DbiError::SubstreamTruncated { substream: SubstreamKind::SourceInfo });
        }
        let n = read_u16_le(bytes, 0) as usize;
        if (bytes.len() - 4) / 4 < n {
            return Err(DbiError::SubstreamTruncated { substream: SubstreamKind::SourceInfo });
        }
        let module_file_starts = read_u16_array(bytes, 4, n);
        let module_file_counts = read_u16_array(bytes, 4 + 2 * n, n);
        let total = total_count(&module_file_counts);
        let offsets_start = 4 + 4 * n;
        if ((bytes.len() - offsets_start) as u64) < 4 * total {
            return Err(DbiError::SubstreamTruncated { substream: SubstreamKind::SourceInfo });
        }
        proof {
            assert(total * 4 <= bytes@.len() - offsets_start);
        }
        let total = total as usize;
        let file_name_offsets = read_u32_array(bytes, offsets_start, total);
        let names_start = offsets_start + 4 * total;
        let names = vstd::slice::slice_to_vec(vstd::slice::slice_subrange(bytes, names_start, bytes.len()));
        Ok(DbiSourcesSubstream { module_file_starts, module_file_counts, file_name_offsets, names })
    }

    /// The number of modules that the substream describes.
    pub fn num_modules(&self) -> (r: usize)
        ensures
            r == self.module_file_starts@.len(),
    {
        self.module_file_starts.len()
    }

    /// The offsets into the names buffer of every source file of every module.
    pub fn file_name_offsets(&self) -> (r: &[u32])
        ensures
            r@ == self.file_name_offsets@,
    {
        self.file_name_offsets.as_slice()
    }

    /// The file name offsets of the source files of the module at `module_index`.
    pub fn name_offsets_for_module(&self, module_index: usize) -> (r: Result<&[u32], DbiError>)
        requires
            self.module_file_counts@.len() == self.module_file_starts@.len(),
        ensures
            match spec_module_name_offsets(self@, module_index as int) {
                Ok(o) => r matches Ok(s) && s@ == o,
                Err(e) => r == Err::<&[u32], DbiError>(e),
            },
    {
        if module_index >= self.module_file_starts.len() {
            return Err(DbiError::ModuleIndexOutOfRange { module_index });
        }
        let start = self.module_file_starts[module_index] as usize;
        let end = start + self.module_file_counts[module_index] as usize;
        if end > self.file_name_offsets.len() {
            return Err(DbiError::FileNameOffsetsOutOfRange { module_index });
        }
        Ok(vstd::slice::slice_subrange(self.file_name_offsets.as_slice(), start, end))
    }

    /// The NUL-terminated file name at `file_name_offset` in the names buffer, without its NUL.
    pub fn get_source_file_name_at(&self, file_name_offset: u32) -> (r: Result<&[u8], DbiError>)
        ensures
            match spec_file_name_at(self.names@, file_name_offset as int) {
                Ok(n) => r matches Ok(s) && s@ == n,
                Err(e) => r == Err::<&[u8], DbiError>(e),
            },
    {
        let offset = file_name_offset as usize;
        if offset > self.names.len() {
            return Err(DbiError::FileNameOffsetOutOfRange { offset: file_name_offset });
        }
        let end = find_nul(self.names.as_slice(), offset);
        proof {
            lemma_nul_index_bounds(self.names@, offset as int);
        }
        if end == self.names.len() {
            return Err(DbiError::FileNameNotTerminated { offset: file_name_offset });
        }
        Ok(vstd::slice::slice_subrange(self.names.as_slice(), offset, end))
    }
}

} // verus!
