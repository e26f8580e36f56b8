//! The DiscoveryConfiguration structure and its binary encoding.
use vstd::prelude::*;

verus! {

/// Numeric id of the DiscoveryConfiguration default binary encoding.
pub const DISCOVERY_CONFIGURATION_ENCODING_DEFAULT_BINARY: u32 = 12900;

/// A base type for discovery configuration information; it has no fields.
#[derive(Debug, Clone, Copy, PartialEq, Eq, Structural)]
pub struct DiscoveryConfiguration {}

/// Why a value could not be decoded.
#[derive(Debug, Clone, Copy, PartialEq, Eq, Structural)]
pub enum EncodingError {
    EndOfStream,
}

impl DiscoveryConfiguration {
    /// The id of the binary encoding of this type.
    pub fn object_id(&self) -> (r: u32)
        ensures
            r == DISCOVERY_CONFIGURATION_ENCODING_DEFAULT_BINARY,
    {
        DISCOVERY_CONFIGURATION_ENCODING_DEFAULT_BINARY
    }

    /// The length of the encoding: no fields, no bytes.
    pub fn byte_len(&self) -> (r: usize)
        ensures
            r == 0,
    {
        0
    }

    /// Appends the encoding to `stream` and returns the number of bytes written.
    pub fn encode(&self, stream: &mut Vec<u8>) -> (r: Result<usize, EncodingError>)
        ensures
            r == Ok::<usize, EncodingError>(0),
            final(stream)@ == old(stream)@,
    {
        Ok(0)
    }

    /// Reads the structure from `stream` starting at `*pos`, advancing `*pos` past it.
    pub fn decode(stream: &Vec<u8>, pos: &mut usize) -> (r: Result<DiscoveryConfiguration, EncodingError>)
        ensures
            r == Ok::<DiscoveryConfiguration, EncodingError>(DiscoveryConfiguration {}),
            *final(pos) == *old(pos),
    {
        Ok(DiscoveryConfiguration {})
    }
}

} // verus!
