//! Stream indexes of a PDB/MSF file.

use vstd::prelude::*;
use crate::text::{dec_chars, push_dec};

verus! {

/// A reserved stream index meaning "no stream at all", in `u16`.
pub const NIL_STREAM_INDEX: u16 = 0xffff;

/// Fixed stream index 0 is the Previous MSF Stream Directory.
pub const OLD_STREAM_DIR_INDEX: u16 = 0;
/// Index of the PDB Information Stream.
pub const PDB_STREAM_INDEX: u16 = 1;
/// Index of the Type Information Stream.
pub const TPI_STREAM_INDEX: u16 = 2;
/// Index of the Debug Information Stream (DBI).
pub const DBI_STREAM_INDEX: u16 = 3;
/// Index of the IPI stream.
pub const IPI_STREAM_INDEX: u16 = 4;

/// Identifies a stream in a PDB/MSF file.
///
/// The value stored in `Stream` is never the NIL value (0xFFFF).
#[derive(Copy, Clone, PartialEq, Eq, Structural, PartialOrd, Ord, Debug, Hash)]
pub struct Stream(u16);

impl Stream {
    #[verifier::type_invariant]
    spec fn not_nil(self) -> bool {
        self.0 != NIL_STREAM_INDEX
    }

    /// The stream index, as a spec value.
    pub closed spec fn spec_value(self) -> u16 {
        self.0
    }

    /// Validates that `index` is non-NIL and converts it to a `Stream` value.
    pub fn new(index: u16) -> (r: Option<Stream>)
        ensures
            r is None <==> index == NIL_STREAM_INDEX,
            r matches Some(s) ==> s.spec_value() == index,
    {
        if index == NIL_STREAM_INDEX {
            None
        } else {
            Some(Stream(index))
        }
    }

    /// Converts `index` to a `Stream`, or reports that it is NIL.
    pub fn try_from_u16(index: u16) -> (r: Result<Stream, StreamIndexIsNilError>)
        ensures
            r is Err <==> index == NIL_STREAM_INDEX,
            r matches Ok(s) ==> s.spec_value() == index,
    {
        if index != NIL_STREAM_INDEX {
            Ok(Stream(index))
        } else {
            Err(StreamIndexIsNilError)
        }
    }

    /// Returns the value of the stream index.
    pub fn value(self) -> (v: u16)
        ensures
            v == self.spec_value(),
            v != NIL_STREAM_INDEX,
    {
        proof {
            use_type_invariant(&self);
        }
        self.0
    }

    /// Returns the value of the stream index, as `usize`. Use this when indexing slices.
    pub fn index(self) -> (i: usize)
        ensures
            i == self.spec_value(),
            i < NIL_STREAM_INDEX,
    {
        proof {
            use_type_invariant(&self);
        }
        self.0 as usize
    }

    /// Returns the value of the stream index, as `u32`.
    pub fn to_u32(self) -> (v: u32)
        ensures
            v == self.spec_value(),
    {
        self.0 as u32
    }

    /// The stream index written in decimal.
    pub fn to_string(&self) -> (s: String)
        ensures
            s@ == dec_chars(self.spec_value() as nat),
    {
        let mut s = String::new();
        push_dec(&mut s, self.0 as u64);
        assert(s@ =~= dec_chars(self.spec_value() as nat));
        s
    }
}

/// Error type for conversions to `Stream`: the given index is NIL.
#[derive(Clone, Debug, PartialEq, Eq, Structural)]
pub struct StreamIndexIsNilError;

impl StreamIndexIsNilError {
    /// The text that describes this error.
    pub fn to_string(&self) -> (s: &'static str)
        ensures
            s@ == "The given stream index is NIL."@,
    {
        "The given stream index is NIL."
    }
}

/// Error type for conversions to `StreamIndexU16`: the value does not fit.
#[derive(Clone, Debug, PartialEq, Eq, Structural)]
pub struct StreamIndexOverflow;

impl StreamIndexOverflow {
    /// The text that describes this error.
    pub fn to_string(&self) -> (s: &'static str)
        ensures
            s@ == "The value is out of range for 16-bit stream indexes."@,
    {
        "The value is out of range for 16-bit stream indexes."
    }
}

/// A 16-bit stream index as it is stored in data structures; may be NIL.
#[derive(Copy, Clone, PartialEq, Eq, Structural, Debug)]
pub struct StreamIndexU16(pub u16);

impl StreamIndexU16 {
    /// The value of a nil stream index.
    pub fn nil() -> (r: Self)
        ensures
            r.0 == NIL_STREAM_INDEX,
    {
        StreamIndexU16(NIL_STREAM_INDEX)
    }

    /// The stream index, or `None` if this is a nil stream index.
    pub fn get(self) -> (r: Option<u32>)
        ensures
            r is None <==> self.0 == NIL_STREAM_INDEX,
            r matches Some(s) ==> s == self.0,
    {
        if self.0 != NIL_STREAM_INDEX {
            Some(self.0 as u32)
        } else {
            None
        }
    }

    /// The stream index, or an error if this is a nil stream index.
    pub fn get_err(self) -> (r: Result<u32, StreamIndexIsNilError>)
        ensures
            r is Err <==> self.0 == NIL_STREAM_INDEX,
            r matches Ok(s) ==> s == self.0,
    {
        if self.0 != NIL_STREAM_INDEX {
            Ok(self.0 as u32)
        } else {
            Err(StreamIndexIsNilError)
        }
    }

    /// Converts a stream number to a `StreamIndexU16`; fails if it does not fit below NIL.
    pub fn try_from_u32(s: u32) -> (r: Result<Self, StreamIndexOverflow>)
        ensures
            r is Ok <==> s < NIL_STREAM_INDEX,
            r matches Ok(v) ==> v.0 == s,
    {
        if s < NIL_STREAM_INDEX as u32 {
            Ok(StreamIndexU16(s as u16))
        } else {
            Err(StreamIndexOverflow)
        }
    }

    /// Converts an optional stream number; `None` becomes the nil stream index.
    pub fn try_from_opt_u32(s_opt: Option<u32>) -> (r: Result<Self, StreamIndexOverflow>)
        ensures
            r is Ok <==> (s_opt matches Some(s) ==> s < NIL_STREAM_INDEX),
            r matches Ok(v) ==> (match s_opt {
                Some(s) => v.0 == s,
                None => v.0 == NIL_STREAM_INDEX,
            }),
    {
        match s_opt {
            Some(s) => Self::try_from_u32(s),
            None => Ok(Self::nil()),
        }
    }
}

/// Reading a stream index back from its stored form gives the stream number that was stored.
pub proof fn lemma_stream_index_u16_roundtrip(s: u32)
    requires
        s < NIL_STREAM_INDEX,
    ensures
        StreamIndexU16(s as u16).0 == s && StreamIndexU16(s as u16).0 != NIL_STREAM_INDEX,
{
}

} // verus!
