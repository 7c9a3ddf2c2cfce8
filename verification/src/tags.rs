use vstd::prelude::*;

verus! {

// The playlist grammar's literal tokens, as ASCII byte strings.
// Spec and exec forms are kept side by side; the assertions tie them together.

/// `#EXTM3U`
pub open spec fn tag_extm3u() -> Seq<u8> {
    seq![35u8, 69u8, 88u8, 84u8, 77u8, 51u8, 85u8]
}

pub fn extm3u() -> (r: Vec<u8>)
    ensures
        r@ == tag_extm3u(),
{
    let v: Vec<u8> = vec![35u8, 69u8, 88u8, 84u8, 77u8, 51u8, 85u8];
    proof {
        assert(v@ =~= tag_extm3u());
    }
    v
}

/// `#EXT-X-VERSION:`
pub open spec fn tag_version() -> Seq<u8> {
    seq![35u8, 69u8, 88u8, 84u8, 45u8, 88u8, 45u8, 86u8, 69u8, 82u8, 83u8, 73u8, 79u8, 78u8, 58u8]
}

pub fn version_tag() -> (r: Vec<u8>)
    ensures
        r@ == tag_version(),
{
    let v: Vec<u8> = vec![
        35u8, 69u8, 88u8, 84u8, 45u8, 88u8, 45u8, 86u8, 69u8, 82u8, 83u8, 73u8, 79u8, 78u8, 58u8,
    ];
    proof {
        assert(v@ =~= tag_version());
    }
    v
}

/// `#EXT-X-TARGETDURATION:`
pub open spec fn tag_target_duration() -> Seq<u8> {
    seq![
        35u8, 69u8, 88u8, 84u8, 45u8, 88u8, 45u8, 84u8, 65u8, 82u8, 71u8, 69u8, 84u8, 68u8, 85u8,
        82u8, 65u8, 84u8, 73u8, 79u8, 78u8, 58u8,
    ]
}

pub fn target_duration_tag() -> (r: Vec<u8>)
    ensures
        r@ == tag_target_duration(),
{
    let v: Vec<u8> = vec![
        35u8, 69u8, 88u8, 84u8, 45u8, 88u8, 45u8, 84u8, 65u8, 82u8, 71u8, 69u8, 84u8, 68u8, 85u8,
        82u8, 65u8, 84u8, 73u8, 79u8, 78u8, 58u8,
    ];
    proof {
        assert(v@ =~= tag_target_duration());
    }
    v
}

/// `#EXT-X-KEY:`
pub open spec fn tag_key() -> Seq<u8> {
    seq![35u8, 69u8, 88u8, 84u8, 45u8, 88u8, 45u8, 75u8, 69u8, 89u8, 58u8]
}

pub fn key_tag() -> (r: Vec<u8>)
    ensures
        r@ == tag_key(),
{
    let v: Vec<u8> = vec![35u8, 69u8, 88u8, 84u8, 45u8, 88u8, 45u8, 75u8, 69u8, 89u8, 58u8];
    proof {
        assert(v@ =~= tag_key());
    }
    v
}

/// `#EXTINF:`
pub open spec fn tag_extinf() -> Seq<u8> {
    seq![35u8, 69u8, 88u8, 84u8, 73u8, 78u8, 70u8, 58u8]
}

pub fn extinf_tag() -> (r: Vec<u8>)
    ensures
        r@ == tag_extinf(),
{
    let v: Vec<u8> = vec![35u8, 69u8, 88u8, 84u8, 73u8, 78u8, 70u8, 58u8];
    proof {
        assert(v@ =~= tag_extinf());
    }
    v
}

/// `#EXT-X-ENDLIST`
pub open spec fn tag_endlist() -> Seq<u8> {
    seq![35u8, 69u8, 88u8, 84u8, 45u8, 88u8, 45u8, 69u8, 78u8, 68u8, 76u8, 73u8, 83u8, 84u8]
}

pub fn endlist_tag() -> (r: Vec<u8>)
    ensures
        r@ == tag_endlist(),
{
    let v: Vec<u8> = vec![
        35u8, 69u8, 88u8, 84u8, 45u8, 88u8, 45u8, 69u8, 78u8, 68u8, 76u8, 73u8, 83u8, 84u8,
    ];
    proof {
        assert(v@ =~= tag_endlist());
    }
    v
}

/// `#EXT-X-STREAM-INF:`
pub open spec fn tag_stream_inf() -> Seq<u8> {
    seq![
        35u8, 69u8, 88u8, 84u8, 45u8, 88u8, 45u8, 83u8, 84u8, 82u8, 69u8, 65u8, 77u8, 45u8, 73u8,
        78u8, 70u8, 58u8,
    ]
}

pub fn stream_inf_tag() -> (r: Vec<u8>)
    ensures
        r@ == tag_stream_inf(),
{
    let v: Vec<u8> = vec![
        35u8, 69u8, 88u8, 84u8, 45u8, 88u8, 45u8, 83u8, 84u8, 82u8, 69u8, 65u8, 77u8, 45u8, 73u8,
        78u8, 70u8, 58u8,
    ];
    proof {
        assert(v@ =~= tag_stream_inf());
    }
    v
}

/// `METHOD`
pub open spec fn attr_method() -> Seq<u8> {
    seq![77u8, 69u8, 84u8, 72u8, 79u8, 68u8]
}

pub fn method_attr() -> (r: Vec<u8>)
    ensures
        r@ == attr_method(),
{
    let v: Vec<u8> = vec![77u8, 69u8, 84u8, 72u8, 79u8, 68u8];
    proof {
        assert(v@ =~= attr_method());
    }
    v
}

/// `IV`
pub open spec fn attr_iv() -> Seq<u8> {
    seq![73u8, 86u8]
}

pub fn iv_attr() -> (r: Vec<u8>)
    ensures
        r@ == attr_iv(),
{
    let v: Vec<u8> = vec![73u8, 86u8];
    proof {
        assert(v@ =~= attr_iv());
    }
    v
}

/// `.ts`
pub open spec fn ts_suffix() -> Seq<u8> {
    seq![46u8, 116u8, 115u8]
}

pub fn ts_suffix_bytes() -> (r: Vec<u8>)
    ensures
        r@ == ts_suffix(),
{
    let v: Vec<u8> = vec![46u8, 116u8, 115u8];
    proof {
        assert(v@ =~= ts_suffix());
    }
    v
}

} // verus!
