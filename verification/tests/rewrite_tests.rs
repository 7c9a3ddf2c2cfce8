use hlsget::playlist::parse_media_playlist;
use hlsget::rewrite::{render_media, rewrite_playlist, segment_file_name};

#[test]
fn segment_file_names_use_the_index() {
    assert_eq!(segment_file_name(0), b"0.ts".to_vec());
    assert_eq!(segment_file_name(7), b"7.ts".to_vec());
    assert_eq!(segment_file_name(123), b"123.ts".to_vec());
}

#[test]
fn rewritten_playlist_points_at_local_files() {
    // three unencrypted segments of 6.0 seconds each
    let doc = b"#EXTM3U\n#EXT-X-VERSION:3\n#EXT-X-TARGETDURATION:6\n#EXTINF:6.0,\nseg0.ts\n#EXTINF:6.0,\nseg1.ts\n#EXTINF:6.0,\nseg2.ts\n#EXT-X-ENDLIST\n";
    let src = parse_media_playlist(doc).unwrap();
    let out = rewrite_playlist(&src);
    assert_eq!(out.version, 3);
    assert_eq!(out.target_duration, src.target_duration);
    assert!(out.end_list);
    assert_eq!(out.segments.len(), src.segments.len());
    assert_eq!(out.segments.len(), 3);
    assert_eq!(out.segments[0].uri, b"0.ts".to_vec());
    assert_eq!(out.segments[1].uri, b"1.ts".to_vec());
    assert_eq!(out.segments[2].uri, b"2.ts".to_vec());
    for s in &out.segments {
        assert_eq!(s.duration_ms, 6000);
        assert!(s.key.is_none());
    }
}

#[test]
fn rewrite_strips_encryption_metadata() {
    let doc = b"#EXTM3U\n#EXT-X-KEY:METHOD=AES-128,IV=0x000102030405060708090a0b0c0d0e0f\n#EXTINF:4.0,\na.ts\n#EXTINF:4.0,\nb.ts\n#EXT-X-ENDLIST\n";
    let src = parse_media_playlist(doc).unwrap();
    assert!(src.segments[0].key.is_some());
    let out = rewrite_playlist(&src);
    assert_eq!(out.segments.len(), 2);
    assert!(out.segments[0].key.is_none());
    assert!(out.segments[1].key.is_none());
}

#[test]
fn rendered_document_is_exact() {
    let doc = b"#EXTM3U\n#EXT-X-VERSION:3\n#EXT-X-TARGETDURATION:6\n#EXTINF:6.0,\nseg0.ts\n#EXTINF:6.0,\nseg1.ts\n#EXTINF:6.0,\nseg2.ts\n#EXT-X-ENDLIST\n";
    let src = parse_media_playlist(doc).unwrap();
    let out = rewrite_playlist(&src);
    let rendered = render_media(&out);
    let expected = b"#EXTM3U\n#EXT-X-VERSION:3\n#EXT-X-TARGETDURATION:6\n#EXTINF:6.000,\n0.ts\n#EXTINF:6.000,\n1.ts\n#EXTINF:6.000,\n2.ts\n#EXT-X-ENDLIST\n".to_vec();
    assert_eq!(rendered, expected);
}

#[test]
fn rendered_document_parses_back() {
    let doc = b"#EXTM3U\n#EXT-X-VERSION:4\n#EXT-X-TARGETDURATION:10\n#EXTINF:9.009,\nx.ts\n#EXTINF:1.5,\ny.ts\n";
    let src = parse_media_playlist(doc).unwrap();
    let out = rewrite_playlist(&src);
    let rendered = render_media(&out);
    let back = parse_media_playlist(&rendered).unwrap();
    assert_eq!(back.version, 4);
    assert_eq!(back.target_duration, 10);
    assert!(back.end_list);
    assert_eq!(back.segments.len(), 2);
    assert_eq!(back.segments[0].uri, b"0.ts".to_vec());
    assert_eq!(back.segments[0].duration_ms, 9009);
    assert_eq!(back.segments[1].duration_ms, 1500);
}
