use vstd::prelude::*;

verus! {

/// Everything that can end a run, mirroring the failure taxonomy of the
/// acquisition pipeline: key handling, playlist interpretation, per-segment
/// decryption and persistence, and the final remux step.
#[derive(Clone, Copy, Debug, PartialEq, Eq, Structural)]
pub enum HlsError {
    /// Key string length is none of 0, 16, 22 or 24 characters.
    InvalidKeyLength,
    /// Key string of base64 shape did not decode to exactly 16 bytes.
    InvalidKeyEncoding,
    /// Playlist document does not follow the grammar.
    MalformedPlaylist,
    /// A segment declares encryption while no key material was supplied.
    UnexpectedEncryptionTag,
    /// An encrypted segment has no explicit IV and none was seen before.
    MissingIV,
    /// An IV attribute is not a 0x-prefixed hex string of 16 bytes.
    InvalidIV,
    /// A network fetch failed; never retried.
    TransportFailure,
    /// Writing a decrypted segment or the rewritten playlist failed.
    PersistenceFailure,
    /// Decryption kept failing after the configured number of fresh fetches.
    DecryptExhausted,
    /// The external remuxer exited with a non-zero status.
    MuxFailure,
}

impl HlsError {
    /// Diagnostic text for the run's final report.
    pub fn message(&self) -> (r: &'static str)
        ensures
            r@.len() > 0,
    {
        let s: &'static str = match self {
            HlsError::InvalidKeyLength => "key's length must be either 0, 16, 22, 24",
            HlsError::InvalidKeyEncoding => "decoded length of base64 key is not 16",
            HlsError::MalformedPlaylist => "malformed playlist document",
            HlsError::UnexpectedEncryptionTag => "key attribute specified but no key supplied",
            HlsError::MissingIV => "invalid iv: none specified and none carried forward",
            HlsError::InvalidIV => "invalid iv: not a 0x-prefixed 16-byte hex string",
            HlsError::TransportFailure => "network fetch failed",
            HlsError::PersistenceFailure => "could not persist output",
            HlsError::DecryptExhausted => "decryption failed after repeated fresh fetches",
            HlsError::MuxFailure => "remuxer exited with a non-zero status",
        };
        proof {
            reveal_strlit("key's length must be either 0, 16, 22, 24");
            reveal_strlit("decoded length of base64 key is not 16");
            reveal_strlit("malformed playlist document");
            reveal_strlit("key attribute specified but no key supplied");
            reveal_strlit("invalid iv: none specified and none carried forward");
            reveal_strlit("invalid iv: not a 0x-prefixed 16-byte hex string");
            reveal_strlit("network fetch failed");
            reveal_strlit("could not persist output");
            reveal_strlit("decryption failed after repeated fresh fetches");
            reveal_strlit("remuxer exited with a non-zero status");
        }
        s
    }
}

} // verus!
