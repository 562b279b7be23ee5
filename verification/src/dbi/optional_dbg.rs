//! The Optional Debug Header substream of the DBI stream.
//!
//! The substream is an array of 16-bit stream indices. The position of each index says which
//! kind of debug data the stream holds; the value `0xFFFF` means that there is no such stream.

use crate::bytes::{read_u16_le, spec_u16_le};
use crate::dbi::{DbiError, SubstreamKind};
use crate::stream_index::StreamIndexU16;
use vstd::prelude::*;

verus! {

/// The kinds of debug data that the Optional Debug Header can point to, in the order of the
/// substream.
#[derive(Clone, Copy, Debug, PartialEq, Eq)]
pub enum OptionalDebugHeaderStream {
    FpoData,
    ExceptionData,
    FixupData,
    OmapToSrcData,
    OmapFromSrcData,
    SectionHeaderData,
    TokenToRecordIdMap,
    Xdata,
    Pdata,
    NewFpoData,
    OriginalSectionHeaderData,
}

/// The position in the Optional Debug Header of the stream of kind `s`.
pub open spec fn optional_stream_position(s: OptionalDebugHeaderStream) -> int {
    match s {
        OptionalDebugHeaderStream::FpoData => 0,
        OptionalDebugHeaderStream::ExceptionData => 1,
        OptionalDebugHeaderStream::FixupData => 2,
        OptionalDebugHeaderStream::OmapToSrcData => 3,
        OptionalDebugHeaderStream::OmapFromSrcData => 4,
        OptionalDebugHeaderStream::SectionHeaderData => 5,
        OptionalDebugHeaderStream::TokenToRecordIdMap => 6,
        OptionalDebugHeaderStream::Xdata => 7,
        OptionalDebugHeaderStream::Pdata => 8,
        OptionalDebugHeaderStream::NewFpoData => 9,
        OptionalDebugHeaderStream::OriginalSectionHeaderData => 10,
    }
}

/// The kind of stream at position `i`, if the format defines one there.
pub open spec fn spec_optional_stream_at(i: int) -> Option<OptionalDebugHeaderStream> {
    if i == 0 {
        Some(OptionalDebugHeaderStream::FpoData)
    } else if i == 1 {
        Some(OptionalDebugHeaderStream::ExceptionData)
    } else if i == 2 {
        Some(OptionalDebugHeaderStream::FixupData)
    } else if i == 3 {
        Some(OptionalDebugHeaderStream::OmapToSrcData)
    } else if i == 4 {
        Some(OptionalDebugHeaderStream::OmapFromSrcData)
    } else if i == 5 {
        Some(OptionalDebugHeaderStream::SectionHeaderData)
    } else if i == 6 {
        Some(OptionalDebugHeaderStream::TokenToRecordIdMap)
    } else if i == 7 {
        Some(OptionalDebugHeaderStream::Xdata)
    } else if i == 8 {
        Some(OptionalDebugHeaderStream::Pdata)
    } else if i == 9 {
        Some(OptionalDebugHeaderStream::NewFpoData)
    } else if i == 10 {
        Some(OptionalDebugHeaderStream::OriginalSectionHeaderData)
    } else {
        None
    }
}

/// Each kind of stream is at the position that the format gives it.
pub proof fn lemma_position_roundtrip(s: OptionalDebugHeaderStream)
    ensures
        spec_optional_stream_at(optional_stream_position(s)) == Some(s),
{
}

impl OptionalDebugHeaderStream {
    /// The position of this kind of stream in the Optional Debug Header.
    pub fn position(&self) -> (r: usize)
        ensures
            r == optional_stream_position(*self),
    {
        match self {
            OptionalDebugHeaderStream::FpoData => 0,
            OptionalDebugHeaderStream::ExceptionData => 1,
            OptionalDebugHeaderStream::FixupData => 2,
            OptionalDebugHeaderStream::OmapToSrcData => 3,
            OptionalDebugHeaderStream::OmapFromSrcData => 4,
            OptionalDebugHeaderStream::SectionHeaderData => 5,
            OptionalDebugHeaderStream::TokenToRecordIdMap => 6,
            OptionalDebugHeaderStream::Xdata => 7,
            OptionalDebugHeaderStream::Pdata => 8,
            OptionalDebugHeaderStream::NewFpoData => 9,
            OptionalDebugHeaderStream::OriginalSectionHeaderData => 10,
        }
    }

    /// The kind of stream at position `i`, if the format defines one there.
    pub fn from_position(i: usize) -> (r: Option<Self>)
        ensures
            r == spec_optional_stream_at(i as int),
    {
        if i == 0 {
            Some(OptionalDebugHeaderStream::FpoData)
        } else if i == 1 {
            Some(OptionalDebugHeaderStream::ExceptionData)
        } else if i == 2 {
            Some(OptionalDebugHeaderStream::FixupData)
        } else if i == 3 {
            Some(OptionalDebugHeaderStream::OmapToSrcData)
        } else if i == 4 {
            Some(OptionalDebugHeaderStream::OmapFromSrcData)
        } else if i == 5 {
            Some(OptionalDebugHeaderStream::SectionHeaderData)
        } else if i == 6 {
            Some(OptionalDebugHeaderStream::TokenToRecordIdMap)
        } else if i == 7 {
            Some(OptionalDebugHeaderStream::Xdata)
        } else if i == 8 {
            Some(OptionalDebugHeaderStream::Pdata)
        } else if i == 9 {
            Some(OptionalDebugHeaderStream::NewFpoData)
        } else if i == 10 {
            Some(OptionalDebugHeaderStream::OriginalSectionHeaderData)
        } else {
            None
        }
    }
}

/// The stream indices that are decoded from `b`, two bytes each.
pub open spec fn spec_optional_streams(b: Seq<u8>) -> Seq<StreamIndexU16> {
    Seq::new((b.len() / 2) as nat, |i: int| StreamIndexU16(spec_u16_le(b, 2 * i) as u16))
}

/// What parsing the Optional Debug Header substream `b` gives: its stream indices, or an error
/// when its length is odd.
pub open spec fn spec_parse_optional_debug_header(b: Seq<u8>) -> Result<
    Seq<StreamIndexU16>,
    DbiError,
> {
    if b.len() % 2 != 0 {
        Err(DbiError::BadSubstreamLength { substream: SubstreamKind::OptionalDebugHeader })
    } else {
        Ok(spec_optional_streams(b))
    }
}

/// The decoded Optional Debug Header substream.
#[derive(Debug)]
pub struct OptionalDebugHeader {
    /// The stream indices, by position.
    pub stream_indexes: Vec<StreamIndexU16>,
}

impl OptionalDebugHeader {
    /// Parses the Optional Debug Header substream.
    pub fn parse(bytes: &[u8]) -> (r: Result<Self, DbiError>)
        ensures
            match spec_parse_optional_debug_header(bytes@) {
                Ok(v) => r matches Ok(h) && h.stream_indexes@ == v,
                Err(e) => r == Err::<Self, DbiError>(e),
            },
    {
        if bytes.len() % 2 != 0 {
            return Err(DbiError::BadSubstreamLength { substream: SubstreamKind::OptionalDebugHeader });
        }
        let n = bytes.len() / 2;
        let mut stream_indexes: Vec<StreamIndexU16> = Vec::new();
        let mut i: usize = 0;
        while i < n
            invariant
                n == bytes.len() / 2,
                i <= n,
                stream_indexes@ == spec_optional_streams(bytes@).take(i as int),
            decreases n - i,
        {
            stream_indexes.push(StreamIndexU16(read_u16_le(bytes, 2 * i)));
            i = i + 1;
            assert(stream_indexes@ =~= spec_optional_streams(bytes@).take(i as int));
        }
        assert(stream_indexes@ =~= spec_optional_streams(bytes@));
        Ok(OptionalDebugHeader { stream_indexes })
    }

    /// The number of stream indices in the header.
    pub fn num_streams(&self) -> (r: usize)
        ensures
            r == self.stream_indexes@.len(),
    {
        self.stream_indexes.len()
    }

    /// The stream at position `i`, if the header has that position and it names a stream.
    pub fn stream_by_index(&self, i: usize) -> (r: Option<u32>)
        ensures
            i < self.stream_indexes@.len() ==> r == self.stream_indexes@[i as int].spec_get(),
            i >= self.stream_indexes@.len() ==> r is None,
    {
        if i < self.stream_indexes.len() {
            self.stream_indexes[i].get()
        } else {
            None
        }
    }

    /// The stream that holds the debug data of kind `s`, if there is one.
    pub fn stream(&self, s: OptionalDebugHeaderStream) -> (r: Option<u32>)
        ensures
            optional_stream_position(s) < self.stream_indexes@.len() ==> r
                == self.stream_indexes@[optional_stream_position(s)].spec_get(),
            optional_stream_position(s) >= self.stream_indexes@.len() ==> r is None,
    {
        self.stream_by_index(s.position())
    }
}

} // verus!
