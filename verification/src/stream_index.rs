//! Stream indices as they are stored in PDB structures.

use vstd::prelude::*;

verus! {

/// The 16-bit value that means "no stream".
pub const NIL_STREAM_INDEX: u16 = 0xFFFF;

/// The stream index was the nil value, so it does not name a stream.
#[derive(Clone, Copy, Debug, PartialEq, Eq)]
pub struct StreamIndexIsNilError;

/// A stream index stored in 16 bits. The value `0xFFFF` means that there is no stream.
#[derive(Clone, Copy, Debug, PartialEq, Eq)]
pub struct StreamIndexU16(pub u16);

impl StreamIndexU16 {
    /// The stream that this index names, if any.
    pub open spec fn spec_get(self) -> Option<u32> {
        if self.0 == NIL_STREAM_INDEX {
            None
        } else {
            Some(self.0 as u32)
        }
    }

    /// Returns the stream index, or `None` if it is the nil value.
    pub fn get(&self) -> (r: Option<u32>)
        ensures
            r == self.spec_get(),
    {
        if self.0 == NIL_STREAM_INDEX {
            None
        } else {
            Some(self.0 as u32)
        }
    }

    /// Returns the stream index, or an error if it is the nil value.
    pub fn get_err(&self) -> (r: Result<u32, StreamIndexIsNilError>)
        ensures
            match r {
                Ok(v) => self.spec_get() == Some(v),
                Err(_) => self.spec_get() is None,
            },
    {
        match self.get() {
            Some(v) => Ok(v),
            None => Err(StreamIndexIsNilError),
        }
    }
}

} // verus!
