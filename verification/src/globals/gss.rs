//! The Global Symbol Stream (GSS) and the `S_PUB32` records that the Public Symbol Index
//! points to.
//!
//! A symbol record starts with its length (`u16`, not counting the length field itself) and its
//! kind (`u16`). An `S_PUB32` record then holds its flags (`u32`), the offset (`u32`) and the
//! segment (`u16`) of the symbol's address, and its NUL-terminated name.

use crate::bytes::{find_nul, lemma_nul_index_bounds, nul_index, read_u16_le, read_u32_le, spec_u16_le, spec_u32_le};
use vstd::prelude::*;

verus! {

/// The kind of a public symbol record.
pub const S_PUB32: u16 = 0x110E;

/// A `segment:offset` address.
#[derive(Clone, Copy, Debug, PartialEq, Eq)]
pub struct OffsetSegment {
    pub offset: u32,
    pub segment: u16,
}

/// Addresses are ordered by segment, then by offset.
pub open spec fn os_le(a: OffsetSegment, b: OffsetSegment) -> bool {
    a.segment < b.segment || (a.segment == b.segment && a.offset <= b.offset)
}

/// The fixed-size part of an `S_PUB32` record.
#[derive(Clone, Copy, Debug, PartialEq, Eq)]
pub struct PubFixed {
    pub flags: u32,
    pub offset_segment: OffsetSegment,
}

/// An `S_PUB32` record.
#[derive(Debug)]
pub struct Pub {
    pub fixed: PubFixed,
    /// The name of the symbol, without its terminating NUL.
    pub name: Vec<u8>,
}

/// The contents of an `S_PUB32` record.
pub struct PubView {
    pub fixed: PubFixed,
    pub name: Seq<u8>,
}

impl View for Pub {
    type V = PubView;

    open spec fn view(&self) -> PubView {
        PubView { fixed: self.fixed, name: self.name@ }
    }
}

impl Pub {
    /// The address of the symbol.
    pub fn offset_segment(&self) -> (r: OffsetSegment)
        ensures
            r == self.fixed.offset_segment,
    {
        self.fixed.offset_segment
    }
}

/// Errors found while reading symbol records.
#[derive(Clone, Copy, Debug, PartialEq, Eq)]
pub enum SymbolError {
    /// The record at this offset does not lie within the stream.
    RecordOutOfRange { offset: u32 },
    /// The record at this offset is not an `S_PUB32` record.
    NotPub32 { offset: u32, kind: u16 },
    /// The record at this offset is too short for an `S_PUB32` record.
    Pub32TooShort { offset: u32 },
    /// The name of the record at this offset has no terminating NUL.
    NameNotTerminated { offset: u32 },
}

/// What reading the `S_PUB32` record at byte `offset` of the stream `data` gives.
pub open spec fn spec_pub32_at(data: Seq<u8>, offset: u32) -> Result<PubView, SymbolError> {
    let off = offset as int;
    if off + 4 > data.len() {
        Err(SymbolError::RecordOutOfRange { offset })
    } else {
        let reclen = spec_u16_le(data, off);
        let kind = spec_u16_le(data, off + 2);
        if reclen < 2 || off + 2 + reclen > data.len() {
            Err(SymbolError::RecordOutOfRange { offset })
        } else if kind != S_PUB32 {
            Err(SymbolError::NotPub32 { offset, kind: kind as u16 })
        } else {
            let rec = data.subrange(off + 4, off + 2 + reclen);
            if rec.len() < 10 {
                Err(SymbolError::Pub32TooShort { offset })
            } else if nul_index(rec, 10) >= rec.len() {
                Err(SymbolError::NameNotTerminated { offset })
            } else {
                Ok(
                    PubView {
                        fixed: PubFixed {
                            flags: spec_u32_le(rec, 0) as u32,
                            offset_segment: OffsetSegment {
                                offset: spec_u32_le(rec, 4) as u32,
                                segment: spec_u16_le(rec, 8) as u16,
                            },
                        },
                        name: rec.subrange(10, nul_index(rec, 10)),
                    },
                )
            }
        }
    }
}

/// The record at `offset` is an `S_PUB32` record that can be read.
pub open spec fn pub32_resolves(data: Seq<u8>, offset: u32) -> bool {
    spec_pub32_at(data, offset) is Ok
}

/// The address of the `S_PUB32` record at `offset`.
pub open spec fn pub32_address(data: Seq<u8>, offset: u32) -> OffsetSegment {
    spec_pub32_at(data, offset)->Ok_0.fixed.offset_segment
}

/// Contains the Global Symbol Stream, which holds the global symbol records.
pub struct GlobalSymbolStream {
    /// The contents of the stream.
    pub stream_data: Vec<u8>,
}

impl GlobalSymbolStream {
    /// Reads the `S_PUB32` record that starts at byte `offset` of the stream.
    pub fn get_pub32_at(&self, offset: u32) -> (r: Result<Pub, SymbolError>)
        ensures
            match r {
                Ok(p) => spec_pub32_at(self.stream_data@, offset) == Ok::<PubView, SymbolError>(
                    p@,
                ),
                Err(e) => spec_pub32_at(self.stream_data@, offset) == Err::<PubView, SymbolError>(
                    e,
                ),
            },
    {
        let data = self.stream_data.as_slice();
        let off = offset as usize;
        if off > data.len() || data.len() - off < 4 {
            return Err(SymbolError::RecordOutOfRange { offset });
        }
        let reclen = read_u16_le(data, off) as usize;
        let kind = read_u16_le(data, off + 2);
        if reclen < 2 || reclen > data.len() - off - 2 {
            return Err(SymbolError::RecordOutOfRange { offset });
        }
        if kind != S_PUB32 {
            return Err(SymbolError::NotPub32 { offset, kind });
        }
        let rec = vstd::slice::slice_subrange(data, off + 4, off + 2 + reclen);
        if rec.len() < 10 {
            return Err(SymbolError::Pub32TooShort { offset });
        }
        let n = find_nul(rec, 10);
        proof {
            lemma_nul_index_bounds(rec@, 10);
        }
        if n >= rec.len() {
            return Err(SymbolError::NameNotTerminated { offset });
        }
        let name = vstd::slice::slice_to_vec(vstd::slice::slice_subrange(rec, 10, n));
        Ok(
            Pub {
                fixed: PubFixed {
                    flags: read_u32_le(rec, 0),
                    offset_segment: OffsetSegment {
                        offset: read_u32_le(rec, 4),
                        segment: read_u16_le(rec, 8),
                    },
                },
                name,
            },
        )
    }
}

} // verus!
