use vstd::prelude::*;

verus! {

/// True when `p` is a prefix of `s`.
pub open spec fn is_prefix_of(p: Seq<u8>, s: Seq<u8>) -> bool {
    p.len() <= s.len() && s.subrange(0, p.len() as int) == p
}

/// Byte-for-byte prefix test.
pub fn starts_with(s: &[u8], p: &[u8]) -> (r: bool)
    ensures
        r == is_prefix_of(p@, s@),
{
    if p.len() > s.len() {
        assert(!is_prefix_of(p@, s@));
        return false;
    }
    let mut i: usize = 0;
    while i < p.len()
        invariant
            i <= p.len() <= s.len(),
            forall|j: int| 0 <= j < i ==> s@[j] == p@[j],
        decreases p.len() - i,
    {
        if s[i] != p[i] {
            assert(s@.subrange(0, p@.len() as int)[i as int] != p@[i as int]);
            return false;
        }
        i += 1;
    }
    assert(s@.subrange(0, p@.len() as int) =~= p@);
    true
}

/// Position of the first occurrence of `b` in `s` at or after `i`.
pub open spec fn find_from(s: Seq<u8>, i: int, b: u8) -> Option<int>
    decreases s.len() - i,
{
    if i < 0 || i >= s.len() {
        None
    } else if s[i] == b {
        Some(i)
    } else {
        find_from(s, i + 1, b)
    }
}

/// First occurrence of `b` in `s` at or after `from`.
pub fn find_byte(s: &[u8], from: usize, b: u8) -> (r: Option<usize>)
    requires
        from <= s@.len(),
    ensures
        (match r {
            Some(j) => Some(j as int),
            None => None,
        }) == find_from(s@, from as int, b),
        r matches Some(j) ==> from <= j < s@.len(),
    decreases s@.len() - from,
{
    if from >= s.len() {
        None
    } else if s[from] == b {
        Some(from)
    } else {
        find_byte(s, from + 1, b)
    }
}

pub proof fn lemma_find_from_absent(s: Seq<u8>, b: u8, i: int)
    requires
        0 <= i <= s.len(),
        forall|j: int| i <= j < s.len() ==> s[j] != b,
    ensures
        find_from(s, i, b) is None,
    decreases s.len() - i,
{
    if i < s.len() {
        lemma_find_from_absent(s, b, i + 1);
    }
}

pub proof fn lemma_find_from_first(s: Seq<u8>, b: u8, i: int, k: int)
    requires
        0 <= i <= k < s.len(),
        s[k] == b,
        forall|j: int| i <= j < k ==> s[j] != b,
    ensures
        find_from(s, i, b) == Some(k),
    decreases k - i,
{
    if i < k {
        lemma_find_from_first(s, b, i + 1, k);
    }
}

/// ASCII decimal digit.
pub open spec fn is_digit(b: u8) -> bool {
    48 <= b <= 57
}

pub open spec fn all_digits(s: Seq<u8>) -> bool {
    forall|i: int| 0 <= i < s.len() ==> is_digit(#[trigger] s[i])
}

/// Value of a decimal digit string, most significant digit first.
pub open spec fn dec_value(s: Seq<u8>) -> int
    decreases s.len(),
{
    if s.len() == 0 {
        0
    } else {
        dec_value(s.drop_last()) * 10 + (s.last() - 48)
    }
}

pub proof fn lemma_dec_value_nonneg(s: Seq<u8>)
    requires
        all_digits(s),
    ensures
        dec_value(s) >= 0,
    decreases s.len(),
{
    if s.len() > 0 {
        lemma_dec_value_nonneg(s.drop_last());
    }
}

/// The value of a digit string never falls below the value of any prefix.
pub proof fn lemma_dec_value_prefix_le(s: Seq<u8>, i: int)
    requires
        all_digits(s),
        0 <= i <= s.len(),
    ensures
        dec_value(s.subrange(0, i)) <= dec_value(s),
    decreases s.len() - i,
{
    if i < s.len() {
        let a = s.subrange(0, i);
        let b = s.subrange(0, i + 1);
        assert(b.drop_last() =~= a);
        lemma_dec_value_nonneg(a);
        assert(dec_value(b) == dec_value(a) * 10 + (s[i] - 48));
        assert(dec_value(a) * 10 >= dec_value(a));
        lemma_dec_value_prefix_le(s, i + 1);
    } else {
        assert(s.subrange(0, i) =~= s);
    }
}

/// A non-empty all-digit string whose value fits in u64, read as a u64.
pub open spec fn parsed_u64(s: Seq<u8>) -> Option<u64> {
    if s.len() > 0 && all_digits(s) && dec_value(s) <= u64::MAX {
        Some(dec_value(s) as u64)
    } else {
        None
    }
}

/// Reads a decimal u64; `None` on an empty string, a non-digit, or overflow.
pub fn parse_u64(s: &[u8]) -> (r: Option<u64>)
    ensures
        r == parsed_u64(s@),
{
    if s.len() == 0 {
        return None;
    }
    let mut i: usize = 0;
    let mut acc: u64 = 0;
    while i < s.len()
        invariant
            i <= s@.len(),
            all_digits(s@.subrange(0, i as int)),
            acc == dec_value(s@.subrange(0, i as int)),
        decreases s@.len() - i,
    {
        let b = s[i];
        if b < 48 || b > 57 {
            assert(!is_digit(s@[i as int]));
            return None;
        }
        let d: u64 = (b - 48) as u64;
        let next = match acc.checked_mul(10) {
            Some(m) => m.checked_add(d),
            None => None,
        };
        proof {
            assert(s@.subrange(0, i + 1).drop_last() =~= s@.subrange(0, i as int));
            assert(dec_value(s@.subrange(0, i + 1)) == acc * 10 + d);
        }
        match next {
            Some(v) => {
                acc = v;
            }
            None => {
                proof {
                    if all_digits(s@) {
                        lemma_dec_value_prefix_le(s@, i + 1);
                    }
                }
                return None;
            }
        }
        i += 1;
    }
    proof {
        assert(s@.subrange(0, s@.len() as int) =~= s@);
    }
    Some(acc)
}

/// Decimal digit string of `n`, most significant digit first, no sign,
/// no leading zero except for the value 0 itself.
pub open spec fn dec_repr(n: int) -> Seq<u8>
    decreases n,
{
    if n < 0 {
        Seq::empty()
    } else if n < 10 {
        seq![(48 + n) as u8]
    } else {
        dec_repr(n / 10) + seq![(48 + n % 10) as u8]
    }
}

/// Writes `n` in decimal.
pub fn render_u64(n: u64) -> (r: Vec<u8>)
    ensures
        r@ == dec_repr(n as int),
    decreases n,
{
    if n < 10 {
        let v: Vec<u8> = vec![(48 + n as u8)];
        proof {
            assert(v@ =~= dec_repr(n as int));
        }
        v
    } else {
        let mut v = render_u64(n / 10);
        v.push(48 + (n % 10) as u8);
        proof {
            assert(v@ =~= dec_repr((n / 10) as int) + seq![(48 + n as int % 10) as u8]);
        }
        v
    }
}

pub proof fn lemma_dec_repr_digits(n: int)
    requires
        n >= 0,
    ensures
        all_digits(dec_repr(n)),
        dec_repr(n).len() > 0,
    decreases n,
{
    if n >= 10 {
        lemma_dec_repr_digits(n / 10);
        let s = dec_repr(n);
        assert(s == dec_repr(n / 10) + seq![(48 + n % 10) as u8]);
        assert forall|i: int| 0 <= i < s.len() implies is_digit(#[trigger] s[i]) by {
            if i < dec_repr(n / 10).len() {
                assert(s[i] == dec_repr(n / 10)[i]);
            } else {
                assert(s[i] == (48 + n % 10) as u8);
            }
        }
    }
}

pub proof fn lemma_dec_repr_value(n: int)
    requires
        n >= 0,
    ensures
        dec_value(dec_repr(n)) == n,
    decreases n,
{
    if n < 10 {
        let s = dec_repr(n);
        assert(s == seq![(48 + n) as u8]);
        assert(s.drop_last() =~= Seq::<u8>::empty());
        assert(dec_value(s) == dec_value(s.drop_last()) * 10 + (s.last() - 48));
        assert(dec_value(s.drop_last()) == 0);
        assert(s.last() == (48 + n) as u8);
    } else {
        lemma_dec_repr_value(n / 10);
        let s = dec_repr(n);
        assert(s == dec_repr(n / 10) + seq![(48 + n % 10) as u8]);
        assert(s.len() > 0);
        assert(s.drop_last() =~= dec_repr(n / 10));
        assert(s.last() == (48 + n % 10) as u8);
        assert(dec_value(s) == dec_value(s.drop_last()) * 10 + (s.last() - 48));
        assert((n / 10) * 10 + n % 10 == n);
    }
}

/// Law: a number written in decimal reads back as itself.
pub proof fn lemma_u64_round_trip(n: u64)
    ensures
        parsed_u64(dec_repr(n as int)) == Some(n),
{
    lemma_dec_repr_digits(n as int);
    lemma_dec_repr_value(n as int);
}

/// Appends all of `src` to `dst`.
pub fn push_all(dst: &mut Vec<u8>, src: &[u8])
    ensures
        final(dst)@ == old(dst)@ + src@,
{
    let mut i: usize = 0;
    while i < src.len()
        invariant
            i <= src@.len(),
            dst@ == old(dst)@ + src@.subrange(0, i as int),
        decreases src@.len() - i,
    {
        dst.push(src[i]);
        proof {
            assert(old(dst)@ + src@.subrange(0, i as int) + seq![src@[i as int]] =~= old(
                dst,
            )@ + src@.subrange(0, i + 1));
        }
        i += 1;
    }
    proof {
        assert(old(dst)@ + src@.subrange(0, src@.len() as int) =~= old(dst)@ + src@);
    }
}

/// Copy of the byte range `[from, to)` of `s`.
pub fn bytes_range(s: &[u8], from: usize, to: usize) -> (r: Vec<u8>)
    requires
        from <= to <= s@.len(),
    ensures
        r@ == s@.subrange(from as int, to as int),
{
    let mut v: Vec<u8> = Vec::new();
    let mut i: usize = from;
    while i < to
        invariant
            from <= i <= to <= s@.len(),
            v@ == s@.subrange(from as int, i as int),
        decreases to - i,
    {
        v.push(s[i]);
        proof {
            assert(s@.subrange(from as int, i as int) + seq![s@[i as int]] =~= s@.subrange(
                from as int,
                i + 1,
            ));
        }
        i += 1;
    }
    v
}

/// Byte-for-byte equality of two byte strings.
pub fn bytes_eq(a: &[u8], b: &[u8]) -> (r: bool)
    ensures
        r == (a@ == b@),
{
    if a.len() != b.len() {
        assert(a@ != b@);
        return false;
    }
    let r = starts_with(a, b);
    proof {
        assert(a@.subrange(0, b@.len() as int) =~= a@);
        if a@ == b@ {
            assert(is_prefix_of(b@, a@));
        }
    }
    r
}

/// Tests whether every byte is an ASCII decimal digit.
pub fn all_digits_check(s: &[u8]) -> (r: bool)
    ensures
        r == all_digits(s@),
{
    let mut i: usize = 0;
    while i < s.len()
        invariant
            i <= s@.len(),
            forall|j: int| 0 <= j < i ==> is_digit(#[trigger] s@[j]),
        decreases s@.len() - i,
    {
        let b = s[i];
        if b < 48 || b > 57 {
            assert(!is_digit(s@[i as int]));
            return false;
        }
        i += 1;
    }
    true
}

/// Hexadecimal digit.
pub open spec fn is_hex_digit(b: u8) -> bool {
    (48 <= b <= 57) || (65 <= b <= 70) || (97 <= b <= 102)
}

pub open spec fn hex_val(b: u8) -> u8 {
    if 48 <= b <= 57 {
        (b - 48) as u8
    } else if 65 <= b <= 70 {
        (b - 65 + 10) as u8
    } else if 97 <= b <= 102 {
        (b - 97 + 10) as u8
    } else {
        0
    }
}

/// Bytes read from a hex string: two digits each, `None` on an odd length or
/// a non-hex character.
pub open spec fn hex_decoded_from(s: Seq<u8>, i: int, acc: Seq<u8>) -> Option<Seq<u8>>
    decreases s.len() - i,
{
    if i < 0 || i >= s.len() {
        Some(acc)
    } else if i + 1 == s.len() {
        None
    } else if is_hex_digit(s[i]) && is_hex_digit(s[i + 1]) {
        hex_decoded_from(s, i + 2, acc.push((hex_val(s[i]) * 16 + hex_val(s[i + 1])) as u8))
    } else {
        None
    }
}

pub open spec fn hex_decoded(s: Seq<u8>) -> Option<Seq<u8>> {
    hex_decoded_from(s, 0, Seq::empty())
}

fn hex_decode_from(s: &[u8], i: usize, acc: Vec<u8>) -> (r: Option<Vec<u8>>)
    requires
        i <= s@.len(),
    ensures
        (match r {
            Some(v) => Some(v@),
            None => None,
        }) == hex_decoded_from(s@, i as int, acc@),
    decreases s@.len() - i,
{
    if i >= s.len() {
        Some(acc)
    } else if i + 1 == s.len() {
        None
    } else {
        let hi = s[i];
        let lo = s[i + 1];
        let hi_ok = (48 <= hi && hi <= 57) || (65 <= hi && hi <= 70) || (97 <= hi && hi <= 102);
        let lo_ok = (48 <= lo && lo <= 57) || (65 <= lo && lo <= 70) || (97 <= lo && lo <= 102);
        if hi_ok && lo_ok {
            let hv = if hi <= 57 {
                hi - 48
            } else if hi <= 70 {
                hi - 65 + 10
            } else {
                hi - 97 + 10
            };
            let lv = if lo <= 57 {
                lo - 48
            } else if lo <= 70 {
                lo - 65 + 10
            } else {
                lo - 97 + 10
            };
            let mut acc2 = acc;
            acc2.push(hv * 16 + lv);
            hex_decode_from(s, i + 2, acc2)
        } else {
            None
        }
    }
}

/// Reads a hex string into bytes.
pub fn hex_decode(s: &[u8]) -> (r: Option<Vec<u8>>)
    ensures
        (match r {
            Some(v) => Some(v@),
            None => None,
        }) == hex_decoded(s@),
{
    hex_decode_from(s, 0, Vec::new())
}

} // verus!
