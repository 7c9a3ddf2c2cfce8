use vstd::prelude::*;
use crate::playlist::{MediaPlaylist, MediaPlaylistModel, MediaSegment, MediaSegmentModel};
use crate::tags::{
    endlist_tag, extinf_tag, extm3u, tag_endlist, tag_extinf, tag_extm3u, tag_target_duration,
    tag_version, target_duration_tag, ts_suffix, ts_suffix_bytes, version_tag,
};
use crate::util::{dec_repr, dec_value, is_digit, push_all, render_u64};

verus! {

/// Local file name of the segment with this zero-based index.
pub open spec fn segment_file_name_spec(i: int) -> Seq<u8> {
    dec_repr(i) + ts_suffix()
}

pub fn segment_file_name(i: usize) -> (r: Vec<u8>)
    ensures
        r@ == segment_file_name_spec(i as int),
{
    let mut v = render_u64(i as u64);
    let suffix = ts_suffix_bytes();
    push_all(&mut v, suffix.as_slice());
    v
}

/// The rewritten playlist: same version and target duration as the source,
/// end-of-list set, and segment `i` pointing at the local file named by its
/// index, with its source duration and no encryption metadata.
pub open spec fn rewritten_model(m: MediaPlaylistModel) -> MediaPlaylistModel {
    MediaPlaylistModel {
        version: m.version,
        target_duration: m.target_duration,
        end_list: true,
        segments: Seq::new(
            m.segments.len(),
            |i: int|
                MediaSegmentModel {
                    uri: segment_file_name_spec(i),
                    duration_ms: m.segments[i].duration_ms,
                    key: None,
                },
        ),
    }
}

/// Builds the rewritten, fully local media playlist from the source one.
/// Count and order of segments are preserved exactly.
pub fn rewrite_playlist(src: &MediaPlaylist) -> (r: MediaPlaylist)
    ensures
        r.deep_view() == rewritten_model(src.deep_view()),
        r.deep_view().segments.len() == src.deep_view().segments.len(),
{
    let ghost model = rewritten_model(src.deep_view());
    let mut segs: Vec<MediaSegment> = Vec::new();
    let mut i: usize = 0;
    proof {
        assert(segs.deep_view() =~~= model.segments.subrange(0, 0));
    }
    while i < src.segments.len()
        invariant
            i <= src.segments@.len(),
            model == rewritten_model(src.deep_view()),
            segs.deep_view() == model.segments.subrange(0, i as int),
        decreases src.segments@.len() - i,
    {
        let name = segment_file_name(i);
        let d = src.segments[i].duration_ms;
        let seg = MediaSegment { uri: name, duration_ms: d, key: None };
        proof {
            assert(src.deep_view().segments[i as int] == src.segments@[i as int].deep_view());
            assert(seg.deep_view() == model.segments[i as int]);
        }
        let ghost segs_old = segs@;
        let ghost old_deep = segs.deep_view();
        segs.push(seg);
        proof {
            assert(segs@ == segs_old.push(seg));
            assert forall|k: int| 0 <= k < i + 1 implies segs.deep_view()[k]
                == model.segments.subrange(0, i + 1)[k] by {
                assert(segs.deep_view().len() == segs@.len());
                assert(old_deep.len() == segs_old.len());
                if k < i {
                    assert(segs_old.push(seg)[k] == segs_old[k]);
                    assert(segs.deep_view()[k] == segs@[k].deep_view());
                    assert(old_deep[k] == segs_old[k].deep_view());
                    assert(old_deep[k] == model.segments.subrange(0, i as int)[k]);
                } else {
                    assert(segs_old.push(seg)[k] == seg);
                    assert(segs.deep_view()[k] == segs@[k].deep_view());
                }
            }
            assert(model.segments.len() == src.segments@.len());
            assert(old_deep.len() == segs_old.len());
            assert(old_deep.len() == i);
            assert(segs.deep_view().len() == segs@.len());
            assert(segs@.len() == i + 1);
            assert(model.segments.subrange(0, i + 1).len() == i + 1);
            assert(segs.deep_view() =~= model.segments.subrange(0, i + 1));
        }
        i += 1;
    }
    proof {
        assert(model.segments.subrange(0, src.segments@.len() as int) =~= model.segments);
        assert(segs.deep_view() =~~= rewritten_model(src.deep_view()).segments);
    }
    let r = MediaPlaylist {
        version: src.version,
        target_duration: src.target_duration,
        end_list: true,
        segments: segs,
    };
    proof {
        assert(r.deep_view() == rewritten_model(src.deep_view()));
    }
    r
}

/// Law: for an unencrypted media playlist — no key material supplied and no
/// segment carrying an encryption tag — every segment resolves to "use the
/// bytes verbatim, decrypt nothing", and the rewritten playlist keeps the
/// source's segment count, order and durations, with end-of-list set.
pub proof fn lemma_unencrypted_run(m: MediaPlaylistModel)
    requires
        forall|j: int| 0 <= j < m.segments.len() ==> (#[trigger] m.segments[j].key) is None,
    ensures
        forall|j: int|
            0 <= j < m.segments.len() ==> crate::segments::resolve_iv_spec(
                false,
                (#[trigger] m.segments[j]).key,
                None,
            ) == Ok::<Option<Seq<u8>>, crate::errors::HlsError>(None),
        rewritten_model(m).segments.len() == m.segments.len(),
        rewritten_model(m).end_list,
        forall|j: int|
            0 <= j < m.segments.len() ==> (#[trigger] rewritten_model(m).segments[j]).duration_ms
                == m.segments[j].duration_ms,
{
}

/// A newline.
pub open spec fn line_break() -> Seq<u8> {
    seq![10u8]
}

/// Three zero-padded fraction digits of a millisecond remainder.
pub open spec fn frac3_repr(f: int) -> Seq<u8> {
    seq![(48 + f / 100) as u8, (48 + (f / 10) % 10) as u8, (48 + f % 10) as u8]
}

/// A duration in milliseconds written as seconds with three fraction
/// digits.
pub open spec fn duration_repr(ms: u64) -> Seq<u8> {
    dec_repr(ms as int / 1000) + seq![46u8] + frac3_repr(ms as int % 1000)
}

fn render_duration(ms: u64) -> (r: Vec<u8>)
    ensures
        r@ == duration_repr(ms),
{
    let mut v = render_u64(ms / 1000);
    v.push(46);
    let f = ms % 1000;
    v.push(48 + (f / 100) as u8);
    v.push(48 + ((f / 10) % 10) as u8);
    v.push(48 + (f % 10) as u8);
    proof {
        assert(v@ =~= duration_repr(ms));
    }
    v
}

/// Law: a rendered duration reads back as the same number of milliseconds.
pub proof fn lemma_duration_round_trip(ms: u64)
    ensures
        crate::playlist::parsed_duration_ms(duration_repr(ms)) == Some(ms),
{
    let s = duration_repr(ms);
    let ip = dec_repr(ms as int / 1000);
    let f = ms as int % 1000;
    let fp = frac3_repr(f);
    crate::util::lemma_dec_repr_digits(ms as int / 1000);
    crate::util::lemma_dec_repr_value(ms as int / 1000);
    assert(s =~= ip + seq![46u8] + fp);
    assert(fp.len() == 3);
    assert(0 <= f < 1000);
    assert(fp[0] == (48 + f / 100) as u8 && is_digit(fp[0]));
    assert(fp[1] == (48 + (f / 10) % 10) as u8 && is_digit(fp[1]));
    assert(fp[2] == (48 + f % 10) as u8 && is_digit(fp[2]));
    assert forall|j: int| 0 <= j < s.len() implies s[j] != 44 by {
        if j < ip.len() {
            assert(s[j] == ip[j] && is_digit(ip[j]));
        } else if j == ip.len() {
            assert(s[j] == 46);
        } else {
            assert(s[j] == fp[j - ip.len() - 1]);
        }
    }
    crate::util::lemma_find_from_absent(s, 44, 0);
    assert forall|j: int| 0 <= j < ip.len() implies s[j] != 46 by {
        assert(s[j] == ip[j] && is_digit(ip[j]));
    }
    assert(s[ip.len() as int] == 46);
    crate::util::lemma_find_from_first(s, 46, 0, ip.len() as int);
    let ip2 = s.subrange(0, ip.len() as int);
    let fp2 = s.subrange(ip.len() as int + 1, s.len() as int);
    assert(ip2 =~= ip);
    assert(fp2 =~= fp);
    // the three fraction digits read back as f
    assert(fp.subrange(0, 3) =~= fp);
    assert(fp.subrange(0, 2) =~= fp.drop_last());
    assert(fp.drop_last().drop_last() =~= fp.subrange(0, 1));
    assert(fp.subrange(0, 1).drop_last() =~= Seq::<u8>::empty());
    assert(dec_value(Seq::<u8>::empty()) == 0);
    assert(fp.subrange(0, 1).last() == fp[0]);
    assert(0 <= f / 100 <= 9);
    assert(dec_value(fp.subrange(0, 1)) == dec_value(fp.subrange(0, 1).drop_last()) * 10 + (
    fp.subrange(0, 1).last() - 48));
    assert(dec_value(fp.subrange(0, 1)) == f / 100);
    assert(dec_value(fp.subrange(0, 2)) == (f / 100) * 10 + (f / 10) % 10);
    assert(dec_value(fp) == dec_value(fp.subrange(0, 2)) * 10 + f % 10);
    vstd::arithmetic::div_mod::lemma_fundamental_div_mod(f, 10);
    vstd::arithmetic::div_mod::lemma_fundamental_div_mod(f / 10, 10);
    vstd::arithmetic::div_mod::lemma_div_denominator(f, 10, 10);
    assert(dec_value(fp) == f);
    assert(crate::playlist::frac_ms(fp) == f);
    // whole seconds and the fraction recombine into the original value
    vstd::arithmetic::div_mod::lemma_fundamental_div_mod(ms as int, 1000);
    assert(dec_value(ip) * 1000 + f == ms);
}

/// One segment's lines in the document.
pub open spec fn rendered_segment(s: MediaSegmentModel) -> Seq<u8> {
    tag_extinf() + duration_repr(s.duration_ms) + seq![44u8] + line_break() + s.uri + line_break()
}

/// All segments' lines, in order.
pub open spec fn rendered_segments(segs: Seq<MediaSegmentModel>) -> Seq<u8>
    decreases segs.len(),
{
    if segs.len() == 0 {
        Seq::empty()
    } else {
        rendered_segments(segs.drop_last()) + rendered_segment(segs.last())
    }
}

/// The whole document: header, version, target duration, the segments, and
/// the end-of-list marker when set. Encryption metadata is never written.
pub open spec fn rendered_media(m: MediaPlaylistModel) -> Seq<u8> {
    tag_extm3u() + line_break() + tag_version() + dec_repr(m.version as int) + line_break()
        + tag_target_duration() + dec_repr(m.target_duration as int) + line_break()
        + rendered_segments(m.segments) + (if m.end_list {
        tag_endlist() + line_break()
    } else {
        Seq::empty()
    })
}

/// Serializes a media playlist document.
pub fn render_media(m: &MediaPlaylist) -> (r: Vec<u8>)
    ensures
        r@ == rendered_media(m.deep_view()),
{
    let ghost header = tag_extm3u() + line_break() + tag_version() + dec_repr(
        m.deep_view().version as int,
    ) + line_break() + tag_target_duration() + dec_repr(m.deep_view().target_duration as int)
        + line_break();
    let mut out = extm3u();
    out.push(10);
    let vt = version_tag();
    push_all(&mut out, vt.as_slice());
    let vn = render_u64(m.version);
    push_all(&mut out, vn.as_slice());
    out.push(10);
    let tt = target_duration_tag();
    push_all(&mut out, tt.as_slice());
    let tn = render_u64(m.target_duration);
    push_all(&mut out, tn.as_slice());
    out.push(10);
    proof {
        assert(out@ =~= header);
    }
    let mut i: usize = 0;
    while i < m.segments.len()
        invariant
            i <= m.segments@.len(),
            out@ == header + rendered_segments(m.deep_view().segments.subrange(0, i as int)),
        decreases m.segments@.len() - i,
    {
        proof {
            assert(m.deep_view().segments[i as int] == m.segments@[i as int].deep_view());
        }
        let ghost before = out@;
        let ghost seg_model = m.deep_view().segments[i as int];
        let it = extinf_tag();
        push_all(&mut out, it.as_slice());
        let dur = render_duration(m.segments[i].duration_ms);
        push_all(&mut out, dur.as_slice());
        out.push(44);
        out.push(10);
        push_all(&mut out, m.segments[i].uri.as_slice());
        out.push(10);
        proof {
            assert(out@ =~= before + rendered_segment(seg_model));
            let pre = m.deep_view().segments.subrange(0, i as int);
            let post = m.deep_view().segments.subrange(0, i + 1);
            assert(post.drop_last() =~= pre);
            assert(post.last() == seg_model);
            assert(out@ =~= header + rendered_segments(post));
        }
        i += 1;
    }
    proof {
        assert(m.deep_view().segments.subrange(0, m.segments@.len() as int) =~= m.deep_view().segments);
    }
    if m.end_list {
        let et = endlist_tag();
        push_all(&mut out, et.as_slice());
        out.push(10);
        proof {
            assert(out@ =~= rendered_media(m.deep_view()));
        }
    } else {
        proof {
            assert(out@ =~= rendered_media(m.deep_view()));
        }
    }
    out
}

} // verus!
