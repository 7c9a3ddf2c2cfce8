use vstd::prelude::*;
use vstd::slice::slice_to_vec;
use vstd::slice::slice_subrange;
use block_modes::BlockMode;
use crate::errors::HlsError;
use crate::playlist::{SegmentKey, SegmentKeyModel};
use crate::util::{hex_decode, hex_decoded};

verus! {

// ---------------------------------------------------------------------------
// Decryption.
// ---------------------------------------------------------------------------

/// The AES-128-CBC/PKCS7 plaintext for (key, iv, ciphertext); `None` when
/// the ciphertext's length or padding is invalid. A pure function of its
/// arguments.
pub uninterp spec fn aes128_cbc_plain(key: Seq<u8>, iv: Seq<u8>, ct: Seq<u8>) -> Option<Seq<u8>>;

/// Relies on block_modes::Cbc::<aes::Aes128, Pkcs7>::new_from_slices, which
/// cannot fail for a 16-byte key and a 16-byte IV, and on
/// BlockMode::decrypt_vec, whose result depends on key, IV and ciphertext
/// alone and which fails exactly on a bad length or bad padding.
#[verifier::external_body]
fn aes128_cbc_decrypt(key: &Vec<u8>, iv: &Vec<u8>, ct: &Vec<u8>) -> (r: Option<Vec<u8>>)
    requires
        key@.len() == 16,
        iv@.len() == 16,
    ensures
        r is Some <==> aes128_cbc_plain(key@, iv@, ct@) is Some,
        r matches Some(p) ==> aes128_cbc_plain(key@, iv@, ct@) == Some(p@),
{
    let cipher: block_modes::Cbc<aes::Aes128, block_modes::block_padding::Pkcs7> =
        match block_modes::Cbc::new_from_slices(key.as_slice(), iv.as_slice()) {
            Ok(c) => c,
            Err(_) => return None,
        };
    cipher.decrypt_vec(ct.as_slice()).ok()
}

/// One step of decrypt-with-retry.
pub enum DecryptAttempt {
    /// The plaintext for this segment.
    Done(Vec<u8>),
    /// Decryption failed; fetch the segment again, this many attempts left.
    FetchAgain(u64),
    /// Decryption failed and the attempt budget is spent.
    Exhausted,
}

/// Judges one fetched ciphertext: the plaintext on success; otherwise a
/// fresh fetch while attempts remain, and exhaustion once they are spent.
pub fn decrypt_attempt(key: &Vec<u8>, iv: &Vec<u8>, fetched: Vec<u8>, attempts_left: u64) -> (r:
    DecryptAttempt)
    requires
        key@.len() == 16,
        iv@.len() == 16,
        attempts_left >= 1,
    ensures
        aes128_cbc_plain(key@, iv@, fetched@) is Some ==> (r matches DecryptAttempt::Done(d)
            && d@ == aes128_cbc_plain(key@, iv@, fetched@)->0),
        aes128_cbc_plain(key@, iv@, fetched@) is None && attempts_left > 1 ==> (r matches
            DecryptAttempt::FetchAgain(n) && n == attempts_left - 1),
        aes128_cbc_plain(key@, iv@, fetched@) is None && attempts_left == 1 ==> r is Exhausted,
{
    match aes128_cbc_decrypt(key, iv, &fetched) {
        Some(p) => DecryptAttempt::Done(p),
        None => {
            if attempts_left > 1 {
                DecryptAttempt::FetchAgain(attempts_left - 1)
            } else {
                DecryptAttempt::Exhausted
            }
        }
    }
}

/// The plaintext a segment yields: fetched bytes verbatim without key
/// material, the AES-128-CBC plaintext with it.
pub open spec fn expected_plain(key: Option<Vec<u8>>, iv: Option<Vec<u8>>, data: Seq<u8>) -> Option<
    Seq<u8>,
> {
    if key is Some && iv is Some {
        aes128_cbc_plain(key->0@, iv->0@, data)
    } else {
        Some(data)
    }
}

/// Judges one fetched segment body, encrypted or not. Without key material
/// (or without an IV to use) the bytes pass through verbatim and no
/// decryption is attempted.
pub fn segment_attempt(
    key: &Option<Vec<u8>>,
    iv: &Option<Vec<u8>>,
    fetched: Vec<u8>,
    attempts_left: u64,
) -> (r: DecryptAttempt)
    requires
        (*key) matches Some(k) ==> k@.len() == 16,
        (*iv) matches Some(v) ==> v@.len() == 16,
        attempts_left >= 1,
    ensures
        (*key) is None || (*iv) is None ==> (r matches DecryptAttempt::Done(d) && d@ == fetched@),
        expected_plain(*key, *iv, fetched@) is Some ==> (r matches DecryptAttempt::Done(d) && d@
            == expected_plain(*key, *iv, fetched@)->0),
        expected_plain(*key, *iv, fetched@) is None && attempts_left > 1 ==> (r matches
            DecryptAttempt::FetchAgain(n) && n == attempts_left - 1),
        expected_plain(*key, *iv, fetched@) is None && attempts_left == 1 ==> r is Exhausted,
{
    match key {
        Some(k) => match iv {
            Some(v) => decrypt_attempt(k, v, fetched, attempts_left),
            None => DecryptAttempt::Done(fetched),
        },
        None => DecryptAttempt::Done(fetched),
    }
}

/// What an unbounded retry loop would persist: the first fetch in the run
/// that decrypts, decrypted.
pub open spec fn retry_outcome(key: Seq<u8>, iv: Seq<u8>, fetches: Seq<Seq<u8>>) -> Option<Seq<u8>>
    decreases fetches.len(),
{
    if fetches.len() == 0 {
        None
    } else if aes128_cbc_plain(key, iv, fetches[0]) is Some {
        aes128_cbc_plain(key, iv, fetches[0])
    } else {
        retry_outcome(key, iv, fetches.skip(1))
    }
}

/// Law: decrypt-with-retry is idempotent on eventual success. When a first
/// fetch fails to decrypt and a second decrypts, the retry loop persists
/// exactly what decrypting the second fetch directly yields.
pub proof fn lemma_retry_idempotent(key: Seq<u8>, iv: Seq<u8>, first: Seq<u8>, second: Seq<u8>)
    requires
        aes128_cbc_plain(key, iv, first) is None,
        aes128_cbc_plain(key, iv, second) is Some,
    ensures
        retry_outcome(key, iv, seq![first, second]) == aes128_cbc_plain(key, iv, second),
{
    let fs = seq![first, second];
    assert(fs.skip(1) =~= seq![second]);
    assert(retry_outcome(key, iv, seq![second]) == aes128_cbc_plain(key, iv, second));
}

// ---------------------------------------------------------------------------
// IV resolution.
// ---------------------------------------------------------------------------

/// The 16 IV bytes encoded by an IV attribute value: a `0x`- or
/// `0X`-prefixed hex string of exactly 32 digits.
pub open spec fn iv_from_attr(raw: Seq<u8>) -> Option<Seq<u8>> {
    if raw.len() >= 2 && raw[0] == 48 && (raw[1] == 120 || raw[1] == 88) {
        match hex_decoded(raw.skip(2)) {
            Some(v) => if v.len() == 16 {
                Some(v)
            } else {
                None
            },
            None => None,
        }
    } else {
        None
    }
}

/// Reads an IV attribute value.
pub fn parse_iv(raw: &Vec<u8>) -> (r: Result<Vec<u8>, HlsError>)
    ensures
        (match r {
            Ok(v) => Some(v@),
            Err(_) => None,
        }) == iv_from_attr(raw@),
        r matches Err(e) ==> e == HlsError::InvalidIV,
        r matches Ok(v) ==> v@.len() == 16,
{
    if raw.len() >= 2 && raw[0] == 48 && (raw[1] == 120 || raw[1] == 88) {
        let rest = slice_subrange(raw.as_slice(), 2, raw.len());
        proof {
            assert(rest@ =~= raw@.skip(2));
        }
        match hex_decode(rest) {
            Some(v) => {
                if v.len() == 16 {
                    Ok(v)
                } else {
                    Err(HlsError::InvalidIV)
                }
            }
            None => Err(HlsError::InvalidIV),
        }
    } else {
        Err(HlsError::InvalidIV)
    }
}

/// How one segment's IV resolves from its encryption tag and the last
/// resolved IV. Without key material any tag is a fatal inconsistency; with
/// it, an explicit IV must be well-formed, and a segment without one reuses
/// the last IV or fails when none was ever seen.
pub open spec fn resolve_iv_spec(
    key_present: bool,
    seg_key: Option<SegmentKeyModel>,
    prev: Option<Seq<u8>>,
) -> Result<Option<Seq<u8>>, HlsError> {
    if !key_present {
        match seg_key {
            Some(_) => Err(HlsError::UnexpectedEncryptionTag),
            None => Ok(None),
        }
    } else {
        let declared = match seg_key {
            Some(k) => k.iv,
            None => None,
        };
        match declared {
            Some(raw) => match iv_from_attr(raw) {
                Some(v) => Ok(Some(v)),
                None => Err(HlsError::InvalidIV),
            },
            None => match prev {
                Some(p) => Ok(Some(p)),
                None => Err(HlsError::MissingIV),
            },
        }
    }
}

/// View of an IV resolution result.
pub open spec fn iv_result_view(r: Result<Option<Vec<u8>>, HlsError>) -> Result<
    Option<Seq<u8>>,
    HlsError,
> {
    match r {
        Ok(Some(v)) => Ok(Some(v@)),
        Ok(None) => Ok(None),
        Err(e) => Err(e),
    }
}

/// Resolves the IV one segment uses, exactly as `resolve_iv_spec` says.
pub fn resolve_iv(key_present: bool, seg_key: &Option<SegmentKey>, prev: &Option<Vec<u8>>) -> (r:
    Result<Option<Vec<u8>>, HlsError>)
    requires
        (*prev) matches Some(p) ==> p@.len() == 16,
    ensures
        iv_result_view(r) == resolve_iv_spec(key_present, seg_key.deep_view(), match *prev {
            Some(p) => Some(p@),
            None => None,
        }),
        r matches Ok(Some(v)) ==> v@.len() == 16,
{
    if !key_present {
        match seg_key {
            Some(_) => Err(HlsError::UnexpectedEncryptionTag),
            None => Ok(None),
        }
    } else {
        let declared: Option<&Vec<u8>> = match seg_key {
            Some(k) => match &k.iv {
                Some(v) => Some(v),
                None => None,
            },
            None => None,
        };
        match declared {
            Some(raw) => match parse_iv(raw) {
                Ok(v) => Ok(Some(v)),
                Err(e) => Err(e),
            },
            None => match prev {
                Some(p) => Ok(Some(slice_to_vec(p.as_slice()))),
                None => Err(HlsError::MissingIV),
            },
        }
    }
}

// ---------------------------------------------------------------------------
// Laws about whole runs.
// ---------------------------------------------------------------------------

/// The IV state after folding the first `i` segments' encryption tags,
/// starting from `prev`.
pub open spec fn iv_state_after(
    keys: Seq<Option<SegmentKeyModel>>,
    prev: Option<Seq<u8>>,
    i: int,
) -> Result<Option<Seq<u8>>, HlsError>
    decreases i,
{
    if i <= 0 {
        Ok(prev)
    } else {
        match iv_state_after(keys, prev, i - 1) {
            Ok(cur) => resolve_iv_spec(true, keys[i - 1], cur),
            Err(e) => Err(e),
        }
    }
}

/// A tag that brings no IV of its own.
pub open spec fn declares_no_iv(k: Option<SegmentKeyModel>) -> bool {
    match k {
        Some(key) => key.iv is None,
        None => true,
    }
}

/// Law: when the first segment declares an IV and every later segment omits
/// one, carry-forward resolves every segment of the run to that first IV.
pub proof fn lemma_iv_carry_forward(
    keys: Seq<Option<SegmentKeyModel>>,
    raw: Seq<u8>,
    v: Seq<u8>,
    i: int,
)
    requires
        keys.len() > 0,
        keys[0] matches Some(k) && k.iv == Some(raw),
        iv_from_attr(raw) == Some(v),
        forall|j: int| 1 <= j < keys.len() ==> declares_no_iv(#[trigger] keys[j]),
        1 <= i <= keys.len(),
    ensures
        iv_state_after(keys, None, i) == Ok::<Option<Seq<u8>>, HlsError>(Some(v)),
    decreases i,
{
    if i == 1 {
        assert(iv_state_after(keys, None, 0) == Ok::<Option<Seq<u8>>, HlsError>(None));
    } else {
        lemma_iv_carry_forward(keys, raw, v, i - 1);
        assert(declares_no_iv(keys[i - 1]));
    }
}

// ---------------------------------------------------------------------------
// URI resolution.
// ---------------------------------------------------------------------------

/// The absolute URL that `rel` names against base URL `base`, `None` when
/// either is not a well-formed URL. A pure function of its arguments.
pub uninterp spec fn resolved_uri(base: Seq<u8>, rel: Seq<u8>) -> Option<Seq<u8>>;

/// Relies on url::Url::parse and Url::join (via reqwest's re-export):
/// deterministic in the two strings; `None` exactly when parsing or joining
/// fails or the bytes are not UTF-8.
#[verifier::external_body]
fn resolve_uri(base: &Vec<u8>, rel: &Vec<u8>) -> (r: Option<Vec<u8>>)
    ensures
        r is Some <==> resolved_uri(base@, rel@) is Some,
        r matches Some(u) ==> resolved_uri(base@, rel@) == Some(u@),
{
    let base_str = core::str::from_utf8(base.as_slice()).ok()?;
    let rel_str = core::str::from_utf8(rel.as_slice()).ok()?;
    let joined = reqwest::Url::parse(base_str).ok()?.join(rel_str).ok()?;
    Some(joined.as_str().as_bytes().to_vec())
}

/// Absolute URL of a playlist or segment URI against the document's own
/// URL. A URI that does not resolve makes the playlist unusable, so that is
/// the malformed-playlist error.
pub fn absolute_url(base: &Vec<u8>, rel: &Vec<u8>) -> (r: Result<Vec<u8>, HlsError>)
    ensures
        (match r {
            Ok(u) => Some(u@),
            Err(_) => None,
        }) == resolved_uri(base@, rel@),
        r matches Err(e) ==> e == HlsError::MalformedPlaylist,
{
    match resolve_uri(base, rel) {
        Some(u) => Ok(u),
        None => Err(HlsError::MalformedPlaylist),
    }
}

} // verus!
