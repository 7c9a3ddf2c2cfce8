use vstd::prelude::*;
use vstd::slice::{slice_subrange, slice_to_vec};
use crate::errors::HlsError;
use crate::tags::{
    attr_iv, attr_method, iv_attr, method_attr, tag_endlist, tag_extinf, tag_extm3u, tag_key,
    tag_stream_inf, tag_target_duration, tag_version, endlist_tag, extinf_tag, key_tag,
    stream_inf_tag, target_duration_tag, version_tag, extm3u,
};
use crate::util::{
    all_digits, all_digits_check, bytes_eq, dec_value, find_byte, find_from, is_digit,
    is_prefix_of, lemma_dec_value_nonneg, parse_u64, parsed_u64, starts_with,
};

verus! {

// ---------------------------------------------------------------------------
// Data model: playlists as the pipeline sees them, with ghost counterparts.
// ---------------------------------------------------------------------------

/// Encryption metadata of one segment: the `METHOD` attribute's value and,
/// when present, the raw (still hex-encoded) `IV` attribute value.
pub struct SegmentKey {
    pub method: Vec<u8>,
    pub iv: Option<Vec<u8>>,
}

pub ghost struct SegmentKeyModel {
    pub method: Seq<u8>,
    pub iv: Option<Seq<u8>>,
}

impl DeepView for SegmentKey {
    type V = SegmentKeyModel;

    open spec fn deep_view(&self) -> SegmentKeyModel {
        SegmentKeyModel {
            method: self.method@,
            iv: match self.iv {
                Some(v) => Some(v@),
                None => None,
            },
        }
    }
}

/// One media segment: its URI (relative to the playlist), its duration in
/// milliseconds, and the encryption tag that immediately preceded it, if any.
pub struct MediaSegment {
    pub uri: Vec<u8>,
    pub duration_ms: u64,
    pub key: Option<SegmentKey>,
}

pub ghost struct MediaSegmentModel {
    pub uri: Seq<u8>,
    pub duration_ms: u64,
    pub key: Option<SegmentKeyModel>,
}

impl DeepView for MediaSegment {
    type V = MediaSegmentModel;

    open spec fn deep_view(&self) -> MediaSegmentModel {
        MediaSegmentModel {
            uri: self.uri@,
            duration_ms: self.duration_ms,
            key: self.key.deep_view(),
        }
    }
}

/// A media playlist: version, target duration in seconds, end-of-list flag,
/// and the ordered segments.
pub struct MediaPlaylist {
    pub version: u64,
    pub target_duration: u64,
    pub end_list: bool,
    pub segments: Vec<MediaSegment>,
}

pub ghost struct MediaPlaylistModel {
    pub version: u64,
    pub target_duration: u64,
    pub end_list: bool,
    pub segments: Seq<MediaSegmentModel>,
}

impl DeepView for MediaPlaylist {
    type V = MediaPlaylistModel;

    open spec fn deep_view(&self) -> MediaPlaylistModel {
        MediaPlaylistModel {
            version: self.version,
            target_duration: self.target_duration,
            end_list: self.end_list,
            segments: self.segments.deep_view(),
        }
    }
}

/// A master playlist: the variant URIs, in the order listed.
pub struct MasterPlaylist {
    pub variants: Vec<Vec<u8>>,
}

pub ghost struct MasterPlaylistModel {
    pub variants: Seq<Seq<u8>>,
}

impl DeepView for MasterPlaylist {
    type V = MasterPlaylistModel;

    open spec fn deep_view(&self) -> MasterPlaylistModel {
        MasterPlaylistModel { variants: self.variants.deep_view() }
    }
}

/// A parsed playlist document is one or the other.
pub enum Playlist {
    Master(MasterPlaylist),
    Media(MediaPlaylist),
}

pub ghost enum PlaylistModel {
    Master(MasterPlaylistModel),
    Media(MediaPlaylistModel),
}

impl DeepView for Playlist {
    type V = PlaylistModel;

    open spec fn deep_view(&self) -> PlaylistModel {
        match self {
            Playlist::Master(m) => PlaylistModel::Master(m.deep_view()),
            Playlist::Media(m) => PlaylistModel::Media(m.deep_view()),
        }
    }
}

// ---------------------------------------------------------------------------
// Line splitting.
// ---------------------------------------------------------------------------

/// A line with a trailing carriage return removed.
pub open spec fn strip_cr(l: Seq<u8>) -> Seq<u8> {
    if l.len() > 0 && l.last() == 13 {
        l.drop_last()
    } else {
        l
    }
}

/// The document's lines: split at each newline, carriage returns stripped,
/// with no line for text after the last newline if it is empty.
pub open spec fn lines_from(s: Seq<u8>, i: int, cur: Seq<u8>, acc: Seq<Seq<u8>>) -> Seq<Seq<u8>>
    decreases s.len() - i,
{
    if i < 0 || i >= s.len() {
        if cur.len() > 0 {
            acc.push(strip_cr(cur))
        } else {
            acc
        }
    } else if s[i] == 10 {
        lines_from(s, i + 1, Seq::empty(), acc.push(strip_cr(cur)))
    } else {
        lines_from(s, i + 1, cur.push(s[i]), acc)
    }
}

pub open spec fn lines_of(s: Seq<u8>) -> Seq<Seq<u8>> {
    lines_from(s, 0, Seq::empty(), Seq::empty())
}

fn strip_cr_exec(l: Vec<u8>) -> (r: Vec<u8>)
    ensures
        r@ == strip_cr(l@),
{
    let mut l = l;
    if l.len() > 0 && l[l.len() - 1] == 13 {
        l.pop();
    }
    l
}

/// Splits a document into lines.
pub fn split_lines(s: &[u8]) -> (r: Vec<Vec<u8>>)
    ensures
        r.deep_view() == lines_of(s@),
{
    let mut acc: Vec<Vec<u8>> = Vec::new();
    let mut cur: Vec<u8> = Vec::new();
    let mut i: usize = 0;
    proof {
        assert(acc.deep_view() =~~= Seq::<Seq<u8>>::empty());
        assert(cur@ =~= Seq::<u8>::empty());
    }
    while i < s.len()
        invariant
            i <= s@.len(),
            lines_of(s@) == lines_from(s@, i as int, cur@, acc.deep_view()),
        decreases s@.len() - i,
    {
        if s[i] == 10 {
            let ghost acc_d = acc.deep_view();
            let ghost cur_v = cur@;
            let stripped = strip_cr_exec(cur);
            acc.push(stripped);
            cur = Vec::new();
            proof {
                assert(acc.deep_view() =~~= acc_d.push(strip_cr(cur_v)));
                assert(cur@ =~= Seq::<u8>::empty());
            }
        } else {
            cur.push(s[i]);
        }
        i += 1;
    }
    if cur.len() > 0 {
        let ghost acc_d = acc.deep_view();
        let ghost cur_v = cur@;
        let stripped = strip_cr_exec(cur);
        acc.push(stripped);
        proof {
            assert(acc.deep_view() =~~= acc_d.push(strip_cr(cur_v)));
        }
    }
    acc
}

// ---------------------------------------------------------------------------
// EXT-X-KEY attribute lists.
// ---------------------------------------------------------------------------

/// Splits an attribute list at commas, keeping quoted stretches whole;
/// `None` on an unterminated quote.
pub open spec fn attrs_from(s: Seq<u8>, i: int, q: bool, cur: Seq<u8>, acc: Seq<Seq<u8>>) -> Option<
    Seq<Seq<u8>>,
>
    decreases s.len() - i,
{
    if i < 0 || i >= s.len() {
        if q {
            None
        } else {
            Some(acc.push(cur))
        }
    } else if s[i] == 34 {
        attrs_from(s, i + 1, !q, cur.push(34), acc)
    } else if s[i] == 44 && !q {
        attrs_from(s, i + 1, false, Seq::empty(), acc.push(cur))
    } else {
        attrs_from(s, i + 1, q, cur.push(s[i]), acc)
    }
}

pub open spec fn split_attrs_spec(s: Seq<u8>) -> Option<Seq<Seq<u8>>> {
    attrs_from(s, 0, false, Seq::empty(), Seq::empty())
}

fn split_attrs(s: &[u8]) -> (r: Option<Vec<Vec<u8>>>)
    ensures
        (match r {
            Some(v) => Some(v.deep_view()),
            None => None,
        }) == split_attrs_spec(s@),
{
    let mut acc: Vec<Vec<u8>> = Vec::new();
    let mut cur: Vec<u8> = Vec::new();
    let mut q: bool = false;
    let mut i: usize = 0;
    proof {
        assert(acc.deep_view() =~~= Seq::<Seq<u8>>::empty());
        assert(cur@ =~= Seq::<u8>::empty());
    }
    while i < s.len()
        invariant
            i <= s@.len(),
            split_attrs_spec(s@) == attrs_from(s@, i as int, q, cur@, acc.deep_view()),
        decreases s@.len() - i,
    {
        let b = s[i];
        if b == 34 {
            cur.push(34);
            q = !q;
        } else if b == 44 && !q {
            let ghost acc_d = acc.deep_view();
            let ghost cur_v = cur@;
            acc.push(cur);
            cur = Vec::new();
            proof {
                assert(acc.deep_view() =~~= acc_d.push(cur_v));
                assert(cur@ =~= Seq::<u8>::empty());
            }
        } else {
            cur.push(b);
        }
        i += 1;
    }
    if q {
        None
    } else {
        let ghost acc_d = acc.deep_view();
        let ghost cur_v = cur@;
        acc.push(cur);
        proof {
            assert(acc.deep_view() =~~= acc_d.push(cur_v));
        }
        Some(acc)
    }
}

/// Name of an attribute: everything before the first `=`.
pub open spec fn attr_name(a: Seq<u8>) -> Seq<u8> {
    match find_from(a, 0, 61) {
        Some(j) => a.subrange(0, j),
        None => a,
    }
}

/// Value of an attribute: everything after the first `=`, empty if none.
pub open spec fn attr_val(a: Seq<u8>) -> Seq<u8> {
    match find_from(a, 0, 61) {
        Some(j) => a.subrange(j + 1, a.len() as int),
        None => Seq::empty(),
    }
}

/// A value with surrounding double quotes removed.
pub open spec fn unquoted(v: Seq<u8>) -> Seq<u8> {
    if v.len() >= 2 && v[0] == 34 && v.last() == 34 {
        v.subrange(1, v.len() - 1)
    } else {
        v
    }
}

/// The unquoted value of the first attribute with this name.
pub open spec fn attrs_lookup(attrs: Seq<Seq<u8>>, name: Seq<u8>) -> Option<Seq<u8>>
    decreases attrs.len(),
{
    if attrs.len() == 0 {
        None
    } else if attr_name(attrs[0]) == name {
        Some(unquoted(attr_val(attrs[0])))
    } else {
        attrs_lookup(attrs.skip(1), name)
    }
}

fn unquote(v: Vec<u8>) -> (r: Vec<u8>)
    ensures
        r@ == unquoted(v@),
{
    if v.len() >= 2 && v[0] == 34 && v[v.len() - 1] == 34 {
        let r = crate::util::bytes_range(v.as_slice(), 1, v.len() - 1);
        r
    } else {
        v
    }
}

fn lookup_attr(attrs: &Vec<Vec<u8>>, i: usize, name: &[u8]) -> (r: Option<Vec<u8>>)
    requires
        i <= attrs@.len(),
    ensures
        (match r {
            Some(v) => Some(v@),
            None => None,
        }) == attrs_lookup(attrs.deep_view().skip(i as int), name@),
    decreases attrs@.len() - i,
{
    let ghost tail = attrs.deep_view().skip(i as int);
    if i >= attrs.len() {
        proof {
            assert(tail =~~= Seq::<Seq<u8>>::empty());
        }
        None
    } else {
        proof {
            assert(tail[0] == attrs.deep_view()[i as int]);
            assert(attrs.deep_view()[i as int] == attrs@[i as int]@);
        }
        let a = &attrs[i];
        let alen = a.len();
        let aslice = a.as_slice();
        match find_byte(aslice, 0, 61) {
            Some(j) => {
                let n = slice_subrange(aslice, 0, j);
                if bytes_eq(n, name) {
                    proof {
                        assert(j < aslice@.len() && aslice@.len() == alen);
                    }
                    let raw = crate::util::bytes_range(aslice, j + 1, alen);
                    proof {
                        assert(raw@ =~= attr_val(tail[0]));
                        assert(attr_name(tail[0]) == name@);
                    }
                    Some(unquote(raw))
                } else {
                    proof {
                        assert(attr_name(tail[0]) != name@);
                        assert(tail.skip(1) =~~= attrs.deep_view().skip(i + 1));
                    }
                    lookup_attr(attrs, i + 1, name)
                }
            }
            None => {
                if bytes_eq(aslice, name) {
                    proof {
                        assert(attr_name(tail[0]) == name@);
                        assert(attr_val(tail[0]) =~= Seq::<u8>::empty());
                        assert(unquoted(attr_val(tail[0])) =~= Seq::<u8>::empty());
                    }
                    Some(Vec::new())
                } else {
                    proof {
                        assert(attr_name(tail[0]) != name@);
                        assert(tail.skip(1) =~~= attrs.deep_view().skip(i + 1));
                    }
                    lookup_attr(attrs, i + 1, name)
                }
            }
        }
    }
}

/// Encryption metadata read from an `#EXT-X-KEY:` attribute list.
pub open spec fn key_from_attrs(s: Seq<u8>) -> Option<SegmentKeyModel> {
    match split_attrs_spec(s) {
        Some(attrs) => Some(
            SegmentKeyModel {
                method: match attrs_lookup(attrs, attr_method()) {
                    Some(m) => m,
                    None => Seq::empty(),
                },
                iv: attrs_lookup(attrs, attr_iv()),
            },
        ),
        None => None,
    }
}

fn parse_key_line(rest: &[u8]) -> (r: Option<SegmentKey>)
    ensures
        (match r {
            Some(k) => Some(k.deep_view()),
            None => None,
        }) == key_from_attrs(rest@),
{
    match split_attrs(rest) {
        Some(attrs) => {
            let mname = method_attr();
            let iname = iv_attr();
            let method: Vec<u8> = match lookup_attr(&attrs, 0, mname.as_slice()) {
                Some(m) => m,
                None => Vec::new(),
            };
            let iv = lookup_attr(&attrs, 0, iname.as_slice());
            proof {
                assert(attrs.deep_view().skip(0) =~~= attrs.deep_view());
            }
            Some(SegmentKey { method, iv })
        }
        None => None,
    }
}

// ---------------------------------------------------------------------------
// EXTINF durations, in milliseconds.
// ---------------------------------------------------------------------------

/// Milliseconds contributed by a fraction digit string (first three digits).
pub open spec fn frac_ms(fp: Seq<u8>) -> int {
    if fp.len() >= 3 {
        dec_value(fp.subrange(0, 3))
    } else if fp.len() == 2 {
        dec_value(fp) * 10
    } else if fp.len() == 1 {
        dec_value(fp) * 100
    } else {
        0
    }
}

pub proof fn lemma_frac_ms_bounds(fp: Seq<u8>)
    requires
        all_digits(fp),
    ensures
        0 <= frac_ms(fp) <= 999,
{
    if fp.len() >= 3 {
        let f3 = fp.subrange(0, 3);
        assert(f3.drop_last() =~= fp.subrange(0, 2));
        assert(fp.subrange(0, 2).drop_last() =~= fp.subrange(0, 1));
        assert(fp.subrange(0, 1).drop_last() =~= fp.subrange(0, 0));
        assert(is_digit(fp[0]) && is_digit(fp[1]) && is_digit(fp[2]));
        assert(dec_value(fp.subrange(0, 0)) == 0);
        assert(dec_value(fp.subrange(0, 1)) == fp[0] - 48);
        assert(dec_value(fp.subrange(0, 2)) == dec_value(fp.subrange(0, 1)) * 10 + fp[1] - 48);
        assert(dec_value(f3) == dec_value(fp.subrange(0, 2)) * 10 + fp[2] - 48);
    } else if fp.len() == 2 {
        assert(fp.drop_last().drop_last() =~= fp.subrange(0, 0));
        assert(is_digit(fp[0]) && is_digit(fp[1]));
        assert(dec_value(fp.subrange(0, 0)) == 0);
        assert(dec_value(fp.drop_last()) == fp[0] - 48);
        assert(dec_value(fp) == dec_value(fp.drop_last()) * 10 + fp[1] - 48);
    } else if fp.len() == 1 {
        assert(fp.drop_last() =~= fp.subrange(0, 0));
        assert(is_digit(fp[0]));
        assert(dec_value(fp.subrange(0, 0)) == 0);
        assert(dec_value(fp) == fp[0] - 48);
    }
}

/// A duration as written after `#EXTINF:`: decimal seconds with an optional
/// fraction, read up to an optional comma, as whole milliseconds.
/// The fraction is truncated to three digits.
pub open spec fn parsed_duration_ms(s: Seq<u8>) -> Option<u64> {
    let body = match find_from(s, 0, 44) {
        Some(j) => s.subrange(0, j),
        None => s,
    };
    match find_from(body, 0, 46) {
        Some(j) => {
            let ip = body.subrange(0, j);
            let fp = body.subrange(j + 1, body.len() as int);
            if ip.len() > 0 && all_digits(ip) && all_digits(fp) && dec_value(ip) * 1000 + frac_ms(
                fp,
            ) <= u64::MAX {
                Some((dec_value(ip) * 1000 + frac_ms(fp)) as u64)
            } else {
                None
            }
        }
        None => {
            if body.len() > 0 && all_digits(body) && dec_value(body) * 1000 <= u64::MAX {
                Some((dec_value(body) * 1000) as u64)
            } else {
                None
            }
        }
    }
}

fn frac_value(fp: &[u8]) -> (r: u64)
    requires
        all_digits(fp@),
    ensures
        r == frac_ms(fp@),
        r <= 999,
{
    proof {
        lemma_frac_ms_bounds(fp@);
    }
    if fp.len() >= 3 {
        proof {
            let f3 = fp@.subrange(0, 3);
            assert(f3.drop_last() =~= fp@.subrange(0, 2));
            assert(fp@.subrange(0, 2).drop_last() =~= fp@.subrange(0, 1));
            assert(fp@.subrange(0, 1).drop_last() =~= fp@.subrange(0, 0));
            assert(is_digit(fp@[0]) && is_digit(fp@[1]) && is_digit(fp@[2]));
            assert(dec_value(fp@.subrange(0, 0)) == 0);
            assert(dec_value(fp@.subrange(0, 1)) == fp@[0] - 48);
            assert(dec_value(fp@.subrange(0, 2)) == dec_value(fp@.subrange(0, 1)) * 10 + fp@[1]
                - 48);
            assert(dec_value(f3) == dec_value(fp@.subrange(0, 2)) * 10 + fp@[2] - 48);
        }
        ((fp[0] - 48) as u64) * 100 + ((fp[1] - 48) as u64) * 10 + ((fp[2] - 48) as u64)
    } else if fp.len() == 2 {
        proof {
            assert(fp@.drop_last().drop_last() =~= fp@.subrange(0, 0));
            assert(is_digit(fp@[0]) && is_digit(fp@[1]));
            assert(dec_value(fp@.subrange(0, 0)) == 0);
            assert(dec_value(fp@.drop_last()) == fp@[0] - 48);
            assert(dec_value(fp@) == dec_value(fp@.drop_last()) * 10 + fp@[1] - 48);
        }
        (((fp[0] - 48) as u64) * 10 + ((fp[1] - 48) as u64)) * 10
    } else if fp.len() == 1 {
        proof {
            assert(fp@.drop_last() =~= fp@.subrange(0, 0));
            assert(is_digit(fp@[0]));
            assert(dec_value(fp@.subrange(0, 0)) == 0);
            assert(dec_value(fp@) == fp@[0] - 48);
        }
        ((fp[0] - 48) as u64) * 100
    } else {
        0
    }
}

fn parse_extinf_duration(s: &[u8]) -> (r: Option<u64>)
    ensures
        r == parsed_duration_ms(s@),
{
    let end = match find_byte(s, 0, 44) {
        Some(j) => j,
        None => s.len(),
    };
    let body = slice_subrange(s, 0, end);
    proof {
        assert(body@ =~= (match find_from(s@, 0, 44) {
            Some(j) => s@.subrange(0, j),
            None => s@,
        }));
    }
    match find_byte(body, 0, 46) {
        Some(j) => {
            let ip = slice_subrange(body, 0, j);
            let fp = slice_subrange(body, j + 1, body.len());
            proof {
                assert(ip@ =~= body@.subrange(0, j as int));
                assert(fp@ =~= body@.subrange(j + 1, body@.len() as int));
            }
            if !all_digits_check(fp) {
                return None;
            }
            let f = frac_value(fp);
            match parse_u64(ip) {
                Some(v) => {
                    proof {
                        assert(parsed_u64(ip@) == Some(v));
                        assert(ip@.len() > 0 && all_digits(ip@));
                        lemma_dec_value_nonneg(ip@);
                        assert(v == dec_value(ip@));
                        assert(f == frac_ms(fp@));
                    }
                    match v.checked_mul(1000) {
                        Some(m) => match m.checked_add(f) {
                            Some(t) => {
                                proof {
                                    assert(t == dec_value(ip@) * 1000 + frac_ms(fp@));
                                }
                                Some(t)
                            }
                            None => None,
                        },
                        None => {
                            proof {
                                lemma_frac_ms_bounds(fp@);
                            }
                            None
                        }
                    }
                }
                None => {
                    proof {
                        if ip@.len() > 0 && all_digits(ip@) {
                            lemma_dec_value_nonneg(ip@);
                            lemma_frac_ms_bounds(fp@);
                        }
                    }
                    None
                }
            }
        }
        None => {
            match parse_u64(body) {
                Some(v) => {
                    proof {
                        if body@.len() > 0 && all_digits(body@) {
                            lemma_dec_value_nonneg(body@);
                        }
                    }
                    match v.checked_mul(1000) {
                        Some(t) => Some(t),
                        None => None,
                    }
                }
                None => {
                    proof {
                        if body@.len() > 0 && all_digits(body@) {
                            lemma_dec_value_nonneg(body@);
                        }
                    }
                    None
                }
            }
        }
    }
}

// ---------------------------------------------------------------------------
// Media playlists.
// ---------------------------------------------------------------------------

/// The media-playlist grammar, one line at a time. Version and target
/// duration default to 0; an `#EXT-X-KEY` tag attaches to the next segment;
/// an `#EXTINF` duration must directly precede its URI line; unknown tags
/// are ignored; a URI line without a pending duration is malformed.
pub open spec fn media_from(
    lines: Seq<Seq<u8>>,
    i: int,
    version: u64,
    target: u64,
    endl: bool,
    pd: Option<u64>,
    pk: Option<SegmentKeyModel>,
    segs: Seq<MediaSegmentModel>,
) -> Option<MediaPlaylistModel>
    decreases lines.len() - i,
{
    if i < 0 || i >= lines.len() {
        Some(
            MediaPlaylistModel {
                version,
                target_duration: target,
                end_list: endl,
                segments: segs,
            },
        )
    } else {
        let l = lines[i];
        if l.len() == 0 {
            media_from(lines, i + 1, version, target, endl, pd, pk, segs)
        } else if is_prefix_of(tag_version(), l) {
            match parsed_u64(l.skip(tag_version().len() as int)) {
                Some(v) => media_from(lines, i + 1, v, target, endl, pd, pk, segs),
                None => None,
            }
        } else if is_prefix_of(tag_target_duration(), l) {
            match parsed_u64(l.skip(tag_target_duration().len() as int)) {
                Some(t) => media_from(lines, i + 1, version, t, endl, pd, pk, segs),
                None => None,
            }
        } else if is_prefix_of(tag_key(), l) {
            match key_from_attrs(l.skip(tag_key().len() as int)) {
                Some(k) => media_from(lines, i + 1, version, target, endl, pd, Some(k), segs),
                None => None,
            }
        } else if is_prefix_of(tag_extinf(), l) {
            match parsed_duration_ms(l.skip(tag_extinf().len() as int)) {
                Some(d) => media_from(lines, i + 1, version, target, endl, Some(d), pk, segs),
                None => None,
            }
        } else if l == tag_endlist() {
            media_from(lines, i + 1, version, target, true, pd, pk, segs)
        } else if l[0] == 35 {
            media_from(lines, i + 1, version, target, endl, pd, pk, segs)
        } else {
            match pd {
                Some(d) => media_from(
                    lines,
                    i + 1,
                    version,
                    target,
                    endl,
                    None,
                    None,
                    segs.push(MediaSegmentModel { uri: l, duration_ms: d, key: pk }),
                ),
                None => None,
            }
        }
    }
}

pub open spec fn parsed_media_lines(lines: Seq<Seq<u8>>) -> Option<MediaPlaylistModel> {
    media_from(lines, 0, 0, 0, false, None, None, Seq::empty())
}

/// Reads a media playlist from its lines.
pub fn parse_media_lines(lines: &Vec<Vec<u8>>) -> (r: Result<MediaPlaylist, HlsError>)
    ensures
        (match r {
            Ok(m) => Some(m.deep_view()),
            Err(_) => None,
        }) == parsed_media_lines(lines.deep_view()),
        r matches Err(e) ==> e == HlsError::MalformedPlaylist,
{
    let vt = version_tag();
    let tt = target_duration_tag();
    let kt = key_tag();
    let it = extinf_tag();
    let et = endlist_tag();
    let mut version: u64 = 0;
    let mut target: u64 = 0;
    let mut endl: bool = false;
    let mut pd: Option<u64> = None;
    let mut pk: Option<SegmentKey> = None;
    let mut segs: Vec<MediaSegment> = Vec::new();
    let mut i: usize = 0;
    proof {
        assert(segs.deep_view() =~~= Seq::<MediaSegmentModel>::empty());
    }
    while i < lines.len()
        invariant
            i <= lines@.len(),
            vt@ == tag_version(),
            tt@ == tag_target_duration(),
            kt@ == tag_key(),
            it@ == tag_extinf(),
            et@ == tag_endlist(),
            parsed_media_lines(lines.deep_view()) == media_from(
                lines.deep_view(),
                i as int,
                version,
                target,
                endl,
                pd,
                pk.deep_view(),
                segs.deep_view(),
            ),
        decreases lines@.len() - i,
    {
        proof {
            assert(lines.deep_view()[i as int] == lines@[i as int]@);
        }
        let l = &lines[i];
        let ls = l.as_slice();
        if l.len() == 0 {
            // blank line
        } else if starts_with(ls, vt.as_slice()) {
            let rest = slice_subrange(ls, vt.len(), l.len());
            proof {
                assert(rest@ =~= l@.skip(tag_version().len() as int));
            }
            match parse_u64(rest) {
                Some(v) => {
                    version = v;
                }
                None => {
                    return Err(HlsError::MalformedPlaylist);
                }
            }
        } else if starts_with(ls, tt.as_slice()) {
            let rest = slice_subrange(ls, tt.len(), l.len());
            proof {
                assert(rest@ =~= l@.skip(tag_target_duration().len() as int));
            }
            match parse_u64(rest) {
                Some(t) => {
                    target = t;
                }
                None => {
                    return Err(HlsError::MalformedPlaylist);
                }
            }
        } else if starts_with(ls, kt.as_slice()) {
            let rest = slice_subrange(ls, kt.len(), l.len());
            proof {
                assert(rest@ =~= l@.skip(tag_key().len() as int));
            }
            match parse_key_line(rest) {
                Some(k) => {
                    pk = Some(k);
                }
                None => {
                    return Err(HlsError::MalformedPlaylist);
                }
            }
        } else if starts_with(ls, it.as_slice()) {
            let rest = slice_subrange(ls, it.len(), l.len());
            proof {
                assert(rest@ =~= l@.skip(tag_extinf().len() as int));
            }
            match parse_extinf_duration(rest) {
                Some(d) => {
                    pd = Some(d);
                }
                None => {
                    return Err(HlsError::MalformedPlaylist);
                }
            }
        } else if bytes_eq(ls, et.as_slice()) {
            endl = true;
        } else if ls[0] == 35 {
            // unknown tag or comment
        } else {
            match pd {
                Some(d) => {
                    let ghost segs_d = segs.deep_view();
                    let ghost pk_d = pk.deep_view();
                    let uri = slice_to_vec(ls);
                    let seg = MediaSegment { uri, duration_ms: d, key: pk };
                    segs.push(seg);
                    pd = None;
                    pk = None;
                    proof {
                        assert(segs.deep_view() =~~= segs_d.push(
                            MediaSegmentModel {
                                uri: lines@[i as int]@,
                                duration_ms: d,
                                key: pk_d,
                            },
                        ));
                    }
                }
                None => {
                    return Err(HlsError::MalformedPlaylist);
                }
            }
        }
        i += 1;
    }
    Ok(MediaPlaylist { version, target_duration: target, end_list: endl, segments: segs })
}

// ---------------------------------------------------------------------------
// Master playlists.
// ---------------------------------------------------------------------------

/// The master-playlist grammar: each `#EXT-X-STREAM-INF:` line must be
/// directly followed by its variant's URI line.
pub open spec fn master_from(lines: Seq<Seq<u8>>, i: int, acc: Seq<Seq<u8>>) -> Option<
    MasterPlaylistModel,
>
    decreases lines.len() - i,
{
    if i < 0 || i >= lines.len() {
        Some(MasterPlaylistModel { variants: acc })
    } else if is_prefix_of(tag_stream_inf(), lines[i]) {
        if i + 1 < lines.len() && lines[i + 1].len() > 0 && lines[i + 1][0] != 35 {
            master_from(lines, i + 2, acc.push(lines[i + 1]))
        } else {
            None
        }
    } else {
        master_from(lines, i + 1, acc)
    }
}

pub open spec fn parsed_master_lines(lines: Seq<Seq<u8>>) -> Option<MasterPlaylistModel> {
    master_from(lines, 0, Seq::empty())
}

/// Whether any line carries a variant tag, which makes the document a
/// master playlist.
pub open spec fn has_stream_inf(lines: Seq<Seq<u8>>, i: int) -> bool
    decreases lines.len() - i,
{
    if i < 0 || i >= lines.len() {
        false
    } else {
        is_prefix_of(tag_stream_inf(), lines[i]) || has_stream_inf(lines, i + 1)
    }
}

fn any_stream_inf(lines: &Vec<Vec<u8>>) -> (r: bool)
    ensures
        r == has_stream_inf(lines.deep_view(), 0),
{
    let st = stream_inf_tag();
    let mut i: usize = 0;
    while i < lines.len()
        invariant
            i <= lines@.len(),
            st@ == tag_stream_inf(),
            has_stream_inf(lines.deep_view(), 0) == has_stream_inf(lines.deep_view(), i as int),
        decreases lines@.len() - i,
    {
        proof {
            assert(lines.deep_view()[i as int] == lines@[i as int]@);
        }
        if starts_with(lines[i].as_slice(), st.as_slice()) {
            return true;
        }
        i += 1;
    }
    false
}

/// Reads a master playlist from its lines.
pub fn parse_master_lines(lines: &Vec<Vec<u8>>) -> (r: Result<MasterPlaylist, HlsError>)
    ensures
        (match r {
            Ok(m) => Some(m.deep_view()),
            Err(_) => None,
        }) == parsed_master_lines(lines.deep_view()),
        r matches Err(e) ==> e == HlsError::MalformedPlaylist,
{
    let st = stream_inf_tag();
    let mut acc: Vec<Vec<u8>> = Vec::new();
    let mut i: usize = 0;
    proof {
        assert(acc.deep_view() =~~= Seq::<Seq<u8>>::empty());
    }
    while i < lines.len()
        invariant
            i <= lines@.len(),
            st@ == tag_stream_inf(),
            parsed_master_lines(lines.deep_view()) == master_from(
                lines.deep_view(),
                i as int,
                acc.deep_view(),
            ),
        decreases lines@.len() - i,
    {
        proof {
            assert(lines.deep_view()[i as int] == lines@[i as int]@);
        }
        if starts_with(lines[i].as_slice(), st.as_slice()) {
            if i + 1 < lines.len() && lines[i + 1].len() > 0 && lines[i + 1][0] != 35 {
                proof {
                    assert(lines.deep_view()[i + 1] == lines@[i + 1]@);
                }
                let ghost acc_d = acc.deep_view();
                let uri = slice_to_vec(lines[i + 1].as_slice());
                acc.push(uri);
                proof {
                    assert(acc.deep_view() =~~= acc_d.push(lines@[i + 1]@));
                }
                i += 2;
            } else {
                proof {
                    if i + 1 < lines@.len() {
                        assert(lines.deep_view()[i + 1] == lines@[i + 1]@);
                    }
                }
                return Err(HlsError::MalformedPlaylist);
            }
        } else {
            i += 1;
        }
    }
    Ok(MasterPlaylist { variants: acc })
}

// ---------------------------------------------------------------------------
// Whole documents.
// ---------------------------------------------------------------------------

/// How a playlist document reads: it must open with `#EXTM3U`; a document
/// with any variant tag is a master playlist, otherwise it is a media
/// playlist.
pub open spec fn parsed_playlist(doc: Seq<u8>) -> Option<PlaylistModel> {
    let lines = lines_of(doc);
    if lines.len() == 0 || lines[0] != tag_extm3u() {
        None
    } else if has_stream_inf(lines, 0) {
        match parsed_master_lines(lines) {
            Some(m) => Some(PlaylistModel::Master(m)),
            None => None,
        }
    } else {
        match parsed_media_lines(lines) {
            Some(m) => Some(PlaylistModel::Media(m)),
            None => None,
        }
    }
}

/// A media playlist document on its own (the re-fetched variant).
pub open spec fn parsed_media_playlist(doc: Seq<u8>) -> Option<MediaPlaylistModel> {
    let lines = lines_of(doc);
    if lines.len() == 0 || lines[0] != tag_extm3u() {
        None
    } else {
        parsed_media_lines(lines)
    }
}

fn check_header(lines: &Vec<Vec<u8>>) -> (r: bool)
    ensures
        r == (lines.deep_view().len() > 0 && lines.deep_view()[0] == tag_extm3u()),
{
    let hd = extm3u();
    if lines.len() == 0 {
        return false;
    }
    proof {
        assert(lines.deep_view()[0] == lines@[0]@);
    }
    bytes_eq(lines[0].as_slice(), hd.as_slice())
}

/// Reads and classifies a playlist document.
pub fn parse_playlist(doc: &[u8]) -> (r: Result<Playlist, HlsError>)
    ensures
        (match r {
            Ok(p) => Some(p.deep_view()),
            Err(_) => None,
        }) == parsed_playlist(doc@),
        r matches Err(e) ==> e == HlsError::MalformedPlaylist,
{
    let lines = split_lines(doc);
    if !check_header(&lines) {
        return Err(HlsError::MalformedPlaylist);
    }
    if any_stream_inf(&lines) {
        match parse_master_lines(&lines) {
            Ok(m) => Ok(Playlist::Master(m)),
            Err(e) => Err(e),
        }
    } else {
        match parse_media_lines(&lines) {
            Ok(m) => Ok(Playlist::Media(m)),
            Err(e) => Err(e),
        }
    }
}

/// Reads a document that must be a media playlist.
pub fn parse_media_playlist(doc: &[u8]) -> (r: Result<MediaPlaylist, HlsError>)
    ensures
        (match r {
            Ok(m) => Some(m.deep_view()),
            Err(_) => None,
        }) == parsed_media_playlist(doc@),
        r matches Err(e) ==> e == HlsError::MalformedPlaylist,
{
    let lines = split_lines(doc);
    if !check_header(&lines) {
        return Err(HlsError::MalformedPlaylist);
    }
    parse_media_lines(&lines)
}

/// The first listed variant's URI, chosen deterministically.
pub fn first_variant(m: &MasterPlaylist) -> (r: Result<&Vec<u8>, HlsError>)
    ensures
        m.deep_view().variants.len() > 0 ==> (r matches Ok(u) && u@ == m.deep_view().variants[0]),
        m.deep_view().variants.len() == 0 ==> (r matches Err(e) && e == HlsError::MalformedPlaylist),
{
    if m.variants.len() > 0 {
        proof {
            assert(m.deep_view().variants[0] == m.variants@[0]@);
        }
        Ok(&m.variants[0])
    } else {
        Err(HlsError::MalformedPlaylist)
    }
}

} // verus!
