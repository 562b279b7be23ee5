//! A PDB whose DBI stream has been read: the DBI header and the substream ranges are decoded
//! once, when the PDB is opened, and the Modules and Sources substreams are read on demand and
//! cached.
//!
//! Reading the streams out of the PDB's container file is left to the caller: `Pdb::open_dbi`
//! takes the bytes of the DBI stream (stream 3) as the container gave them.

use crate::dbi::modules::ModInfoSubstream;
use crate::dbi::sources::{spec_parse_sources, DbiSourcesSubstream};
use crate::dbi::{
    range_within, spec_dbi_header, spec_parse_ranges, DbiError, DbiStream, DbiStreamHeader,
    DbiSubstreamRanges, DBI_STREAM_HEADER_LEN, EMPTY_DBI_STREAM_HEADER,
};
use std::ops::Range;
use vstd::prelude::*;

verus! {

/// The DBI stream that a PDB uses when its container holds an empty DBI stream: the header of
/// an empty DBI stream.
pub open spec fn effective_dbi_bytes(b: Seq<u8>) -> Seq<u8> {
    if b.len() == 0 {
        EMPTY_DBI_STREAM_HEADER@
    } else {
        b
    }
}

/// A PDB, as far as its DBI stream goes.
pub struct Pdb {
    dbi_stream_data: Vec<u8>,
    dbi_header: DbiStreamHeader,
    dbi_substreams: DbiSubstreamRanges,
    dbi_modules_cell: Option<ModInfoSubstream<Vec<u8>>>,
    dbi_sources_cell: Option<Vec<u8>>,
}

impl Pdb {
    /// The bytes of the DBI stream.
    pub closed spec fn dbi_bytes(&self) -> Seq<u8> {
        self.dbi_stream_data@
    }

    /// The decoded DBI header.
    pub closed spec fn spec_dbi_header(&self) -> DbiStreamHeader {
        self.dbi_header
    }

    /// The ranges of the DBI substreams.
    pub closed spec fn spec_dbi_substreams(&self) -> DbiSubstreamRanges {
        self.dbi_substreams
    }

    /// The cached bytes of the Modules substream, if they have been read.
    pub closed spec fn cached_modules(&self) -> Option<Seq<u8>> {
        match self.dbi_modules_cell {
            Some(m) => Some(m.substream_data@),
            None => None,
        }
    }

    /// The cached bytes of the Sources substream, if they have been read.
    pub closed spec fn cached_sources(&self) -> Option<Seq<u8>> {
        match self.dbi_sources_cell {
            Some(s) => Some(s@),
            None => None,
        }
    }

    /// The bytes of the DBI stream within `r`.
    pub open spec fn dbi_range_bytes(&self, r: Range<usize>) -> Seq<u8> {
        self.dbi_bytes().subrange(r.start as int, r.end as int)
    }

    /// The header and the substream ranges are those of the DBI stream, and what is cached is
    /// the substream that it stands for.
    pub open spec fn wf(&self) -> bool {
        &&& self.dbi_bytes().len() >= DBI_STREAM_HEADER_LEN
        &&& spec_parse_ranges(self.dbi_bytes()) == Ok::<DbiSubstreamRanges, DbiError>(
            self.spec_dbi_substreams(),
        )
        &&& self.spec_dbi_substreams().within(self.dbi_bytes().len() as int)
        &&& self.spec_dbi_header() == spec_dbi_header(self.dbi_bytes())
        &&& self.cached_modules() matches Some(m) ==> m == self.dbi_range_bytes(
            self.spec_dbi_substreams().modules_bytes,
        )
        &&& self.cached_sources() matches Some(s) ==> s == self.dbi_range_bytes(
            self.spec_dbi_substreams().source_info,
        )
    }

    /// Opens the PDB whose DBI stream holds `dbi_stream`: decodes the header and computes the
    /// substream ranges. An empty stream stands for the header of an empty DBI stream. Nothing
    /// is cached yet.
    pub fn open_dbi(dbi_stream: Vec<u8>) -> (r: Result<Pdb, DbiError>)
        ensures
            match spec_parse_ranges(effective_dbi_bytes(dbi_stream@)) {
                Ok(ranges) => r matches Ok(p) && p.wf() && p.dbi_bytes() == effective_dbi_bytes(
                    dbi_stream@,
                ) && p.spec_dbi_substreams() == ranges && p.cached_modules() is None
                    && p.cached_sources() is None,
                Err(e) => r == Err::<Pdb, DbiError>(e),
            },
    {
        let data = if dbi_stream.len() == 0 {
            vstd::slice::slice_to_vec(EMPTY_DBI_STREAM_HEADER.as_slice())
        } else {
            dbi_stream
        };
        let parsed = DbiStream::parse(data)?;
        let dbi_header = parsed.header()?;
        Ok(
            Pdb {
                dbi_stream_data: parsed.stream_data,
                dbi_header,
                dbi_substreams: parsed.substreams,
                dbi_modules_cell: None,
                dbi_sources_cell: None,
            },
        )
    }

    /// The DBI stream header, which was read when the PDB was opened.
    pub fn dbi_header(&self) -> (r: &DbiStreamHeader)
        ensures
            *r == self.spec_dbi_header(),
    {
        &self.dbi_header
    }

    /// The ranges of the DBI substreams, which were computed when the PDB was opened.
    pub fn dbi_substreams(&self) -> (r: &DbiSubstreamRanges)
        ensures
            *r == self.spec_dbi_substreams(),
    {
        &self.dbi_substreams
    }

    /// Reads the header of the DBI stream.
    pub fn read_dbi_stream_header(&self) -> (r: DbiStreamHeader)
        requires
            self.wf(),
        ensures
            r == spec_dbi_header(self.dbi_bytes()),
    {
        self.dbi_header
    }

    /// Reads the entire DBI stream, validates the header, and returns an object that can be
    /// used for further queries of the DBI stream.
    pub fn read_dbi_stream(&self) -> (r: Result<DbiStream<Vec<u8>>, DbiError>)
        requires
            self.wf(),
        ensures
            r matches Ok(s) && s.data() == self.dbi_bytes() && s.substreams
                == self.spec_dbi_substreams() && s.wf(),
    {
        let data = vstd::slice::slice_to_vec(self.dbi_stream_data.as_slice());
        DbiStream::parse(data)
    }

    /// Reads the bytes of the DBI stream within `range`.
    fn read_dbi_substream(&self, range: &Range<usize>) -> (r: Result<Vec<u8>, DbiError>)
        ensures
            range_within(*range, self.dbi_bytes().len() as int) ==> (r matches Ok(v) && v@
                == self.dbi_range_bytes(*range)),
            !range_within(*range, self.dbi_bytes().len() as int) ==> r == Err::<Vec<u8>, DbiError>(
                DbiError::StreamTooShort { stream_len: self.dbi_bytes().len() as usize },
            ),
    {
        if range.start > range.end || range.end > self.dbi_stream_data.len() {
            return Err(DbiError::StreamTooShort { stream_len: self.dbi_stream_data.len() });
        }
        Ok(
            vstd::slice::slice_to_vec(
                vstd::slice::slice_subrange(self.dbi_stream_data.as_slice(), range.start, range.end),
            ),
        )
    }

    /// Reads the Modules substream from the DBI stream. This always reads the data; it does not
    /// cache it.
    pub fn read_modules(&self) -> (r: Result<ModInfoSubstream<Vec<u8>>, DbiError>)
        requires
            self.wf(),
        ensures
            r matches Ok(m) && m.substream_data@ == self.dbi_range_bytes(
                self.spec_dbi_substreams().modules_bytes,
            ),
    {
        let substream_data = self.read_dbi_substream(&self.dbi_substreams.modules_bytes)?;
        Ok(ModInfoSubstream { substream_data })
    }

    /// The Modules substream. It is read on the first call and cached.
    pub fn modules(&mut self) -> (r: Result<&ModInfoSubstream<Vec<u8>>, DbiError>)
        requires
            old(self).wf(),
        ensures
            final(self).wf(),
            final(self).dbi_bytes() == old(self).dbi_bytes(),
            final(self).spec_dbi_substreams() == old(self).spec_dbi_substreams(),
            final(self).spec_dbi_header() == old(self).spec_dbi_header(),
            final(self).cached_sources() == old(self).cached_sources(),
            final(self).cached_modules() == Some(
                old(self).dbi_range_bytes(old(self).spec_dbi_substreams().modules_bytes),
            ),
            r matches Ok(m) && m.substream_data@ == old(self).dbi_range_bytes(
                old(self).spec_dbi_substreams().modules_bytes,
            ),
    {
        if self.dbi_modules_cell.is_none() {
            let m = self.read_modules()?;
            self.dbi_modules_cell = Some(m);
        }
        match &self.dbi_modules_cell {
            Some(m) => Ok(m),
            None => Err(DbiError::StreamTooShort { stream_len: self.dbi_stream_data.len() }),
        }
    }

    /// Reads the Sources substream. This always reads the data; it does not cache it.
    pub fn read_sources_data(&self) -> (r: Result<Vec<u8>, DbiError>)
        requires
            self.wf(),
        ensures
            r matches Ok(v) && v@ == self.dbi_range_bytes(self.spec_dbi_substreams().source_info),
    {
        self.read_dbi_substream(&self.dbi_substreams.source_info)
    }

    /// The bytes of the Sources substream. They are read on the first call and cached.
    pub fn sources_data(&mut self) -> (r: Result<&[u8], DbiError>)
        requires
            old(self).wf(),
        ensures
            final(self).wf(),
            final(self).dbi_bytes() == old(self).dbi_bytes(),
            final(self).spec_dbi_substreams() == old(self).spec_dbi_substreams(),
            final(self).spec_dbi_header() == old(self).spec_dbi_header(),
            final(self).cached_modules() == old(self).cached_modules(),
            final(self).cached_sources() == Some(
                old(self).dbi_range_bytes(old(self).spec_dbi_substreams().source_info),
            ),
            r matches Ok(s) && s@ == old(self).dbi_range_bytes(
                old(self).spec_dbi_substreams().source_info,
            ),
    {
        if self.dbi_sources_cell.is_none() {
            let s = self.read_sources_data()?;
            self.dbi_sources_cell = Some(s);
        }
        match &self.dbi_sources_cell {
            Some(s) => Ok(s.as_slice()),
            None => Err(DbiError::StreamTooShort { stream_len: self.dbi_stream_data.len() }),
        }
    }

    /// Reads the Sources substream (through the cache) and parses it.
    pub fn sources(&mut self) -> (r: Result<DbiSourcesSubstream, DbiError>)
        requires
            old(self).wf(),
        ensures
            final(self).wf(),
            final(self).dbi_bytes() == old(self).dbi_bytes(),
            final(self).spec_dbi_substreams() == old(self).spec_dbi_substreams(),
            final(self).spec_dbi_header() == old(self).spec_dbi_header(),
            final(self).cached_modules() == old(self).cached_modules(),
            final(self).cached_sources() == Some(
                old(self).dbi_range_bytes(old(self).spec_dbi_substreams().source_info),
            ),
            match spec_parse_sources(
                old(self).dbi_range_bytes(old(self).spec_dbi_substreams().source_info),
            ) {
                Ok(v) => r matches Ok(s) && s@ == v,
                Err(e) => r == Err::<DbiSourcesSubstream, DbiError>(e),
            },
    {
        let sources_data = self.sources_data()?;
        DbiSourcesSubstream::parse(sources_data)
    }

    /// Drops the cached Sources substream, if any.
    pub fn drop_sources(&mut self)
        requires
            old(self).wf(),
        ensures
            final(self).wf(),
            final(self).dbi_bytes() == old(self).dbi_bytes(),
            final(self).spec_dbi_substreams() == old(self).spec_dbi_substreams(),
            final(self).spec_dbi_header() == old(self).spec_dbi_header(),
            final(self).cached_modules() == old(self).cached_modules(),
            final(self).cached_sources() is None,
    {
        self.dbi_sources_cell = None;
    }

    /// Reads the Section Contributions substream. This always reads the data; it does not
    /// cache it.
    pub fn read_section_contributions(&self) -> (r: Result<Vec<u8>, DbiError>)
        requires
            self.wf(),
        ensures
            r matches Ok(v) && v@ == self.dbi_range_bytes(
                self.spec_dbi_substreams().section_contributions_bytes,
            ),
    {
        self.read_dbi_substream(&self.dbi_substreams.section_contributions_bytes)
    }
}

} // verus!
