use vstd::prelude::*;
use crate::errors::HlsError;

verus! {

/// What `base64::decode` returns for this character string, `None` for a
/// decode error. The result depends on the characters alone.
pub uninterp spec fn base64_decoded(s: Seq<char>) -> Option<Seq<u8>>;

/// Relies on base64::decode (standard alphabet, base64 0.13): a pure
/// function of its input; `Err` exactly when the input is not valid base64.
#[verifier::external_body]
fn base64_decode(s: &Vec<char>) -> (r: Option<Vec<u8>>)
    ensures
        r is Some <==> base64_decoded(s@) is Some,
        r matches Some(v) ==> base64_decoded(s@) == Some(v@),
{
    let text: String = s.iter().collect();
    base64::decode(text.as_bytes()).ok()
}

/// One key byte: the character's ordinal value, reduced to a byte.
pub open spec fn key_byte(c: char) -> u8 {
    ((c as u32) % 256) as u8
}

/// The 16 raw key bytes of a 16-character key string.
pub open spec fn raw_key_bytes(s: Seq<char>) -> Seq<u8> {
    Seq::new(s.len(), |i: int| key_byte(s[i]))
}

/// How a user-supplied key string resolves:
/// empty means no encryption; 16 characters are taken verbatim; 22 or 24
/// characters are decoded as base64 and must yield exactly 16 bytes; any
/// other length is rejected outright.
pub open spec fn resolved_key(s: Seq<char>) -> Result<Option<Seq<u8>>, HlsError> {
    if s.len() == 0 {
        Ok(None)
    } else if s.len() == 16 {
        Ok(Some(raw_key_bytes(s)))
    } else if s.len() == 22 || s.len() == 24 {
        match base64_decoded(s) {
            Some(d) => if d.len() == 16 {
                Ok(Some(d))
            } else {
                Err(HlsError::InvalidKeyEncoding)
            },
            None => Err(HlsError::InvalidKeyEncoding),
        }
    } else {
        Err(HlsError::InvalidKeyLength)
    }
}

/// View of a resolver result with the key as a byte sequence.
pub open spec fn key_result_view(r: Result<Option<Vec<u8>>, HlsError>) -> Result<
    Option<Seq<u8>>,
    HlsError,
> {
    match r {
        Ok(Some(v)) => Ok(Some(v@)),
        Ok(None) => Ok(None),
        Err(e) => Err(e),
    }
}

/// Accepts a base64 decoding as key material exactly when it is 16 bytes.
pub fn key_from_decoded(d: Vec<u8>) -> (r: Result<Vec<u8>, HlsError>)
    ensures
        d@.len() == 16 ==> (r matches Ok(k) && k@ == d@),
        d@.len() != 16 ==> (r matches Err(e) && e == HlsError::InvalidKeyEncoding),
{
    if d.len() == 16 {
        Ok(d)
    } else {
        Err(HlsError::InvalidKeyEncoding)
    }
}

/// Turns the user-supplied key string into 16 bytes of key material, or
/// decides that the stream is unencrypted, exactly as `resolved_key` says.
pub fn resolve_key(key: &Vec<char>) -> (r: Result<Option<Vec<u8>>, HlsError>)
    ensures
        key_result_view(r) == resolved_key(key@),
        r matches Ok(Some(b)) ==> b@.len() == 16,
{
    let n = key.len();
    if n == 0 {
        Ok(None)
    } else if n == 16 {
        let mut k: Vec<u8> = Vec::new();
        let mut i: usize = 0;
        while i < 16
            invariant
                key@.len() == 16,
                i <= 16,
                k@.len() == i,
                forall|j: int| 0 <= j < i ==> k@[j] == key_byte(key@[j]),
            decreases 16 - i,
        {
            let c = key[i];
            k.push(((c as u32) % 256) as u8);
            i += 1;
        }
        proof {
            assert(k@ =~= raw_key_bytes(key@));
        }
        Ok(Some(k))
    } else if n == 22 || n == 24 {
        match base64_decode(key) {
            Some(d) => match key_from_decoded(d) {
                Ok(k) => Ok(Some(k)),
                Err(e) => Err(e),
            },
            None => Err(HlsError::InvalidKeyEncoding),
        }
    } else {
        Err(HlsError::InvalidKeyLength)
    }
}

/// Law: every 16-character key string yields a 16-byte key; every 22- or
/// 24-character string that decodes to 16 bytes of base64 yields exactly
/// those bytes; an empty string means no encryption; every other length is
/// rejected with InvalidKeyLength.
pub proof fn lemma_key_resolution(s: Seq<char>)
    ensures
        s.len() == 0 ==> resolved_key(s) == Ok::<Option<Seq<u8>>, HlsError>(None),
        s.len() == 16 ==> resolved_key(s) == Ok::<Option<Seq<u8>>, HlsError>(
            Some(raw_key_bytes(s)),
        ) && raw_key_bytes(s).len() == 16,
        (s.len() == 22 || s.len() == 24) ==> (match base64_decoded(s) {
            Some(d) => if d.len() == 16 {
                resolved_key(s) == Ok::<Option<Seq<u8>>, HlsError>(Some(d))
            } else {
                resolved_key(s) == Err::<Option<Seq<u8>>, HlsError>(HlsError::InvalidKeyEncoding)
            },
            None => resolved_key(s) == Err::<Option<Seq<u8>>, HlsError>(
                HlsError::InvalidKeyEncoding,
            ),
        }),
        !(s.len() == 0 || s.len() == 16 || s.len() == 22 || s.len() == 24) ==> resolved_key(s)
            == Err::<Option<Seq<u8>>, HlsError>(HlsError::InvalidKeyLength),
{
}

} // verus!
