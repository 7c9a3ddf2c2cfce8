use hlsget::errors::HlsError;
use hlsget::playlist::{first_variant, parse_media_playlist, parse_playlist, Playlist};

#[test]
fn media_playlist_with_three_segments() {
    let doc = b"#EXTM3U\n#EXT-X-VERSION:3\n#EXT-X-TARGETDURATION:6\n#EXTINF:6.0,\nseg0.ts\n#EXTINF:6.0,\nseg1.ts\n#EXTINF:6.0,\nseg2.ts\n#EXT-X-ENDLIST\n";
    let p = parse_playlist(doc).unwrap();
    match p {
        Playlist::Media(m) => {
            assert_eq!(m.version, 3);
            assert_eq!(m.target_duration, 6);
            assert!(m.end_list);
            assert_eq!(m.segments.len(), 3);
            assert_eq!(m.segments[0].uri, b"seg0.ts".to_vec());
            assert_eq!(m.segments[1].uri, b"seg1.ts".to_vec());
            assert_eq!(m.segments[2].uri, b"seg2.ts".to_vec());
            assert_eq!(m.segments[0].duration_ms, 6000);
            assert!(m.segments[0].key.is_none());
        }
        Playlist::Master(_) => panic!("expected a media playlist"),
    }
}

#[test]
fn crlf_lines_and_fraction_durations() {
    let doc = b"#EXTM3U\r\n#EXT-X-TARGETDURATION:10\r\n#EXTINF:9.009,title here\r\nfirst.ts\r\n";
    let m = parse_media_playlist(doc).unwrap();
    assert_eq!(m.target_duration, 10);
    assert!(!m.end_list);
    assert_eq!(m.segments.len(), 1);
    assert_eq!(m.segments[0].duration_ms, 9009);
    assert_eq!(m.segments[0].uri, b"first.ts".to_vec());
}

#[test]
fn integer_duration_without_fraction() {
    let doc = b"#EXTM3U\n#EXTINF:7,\nx.ts\n";
    let m = parse_media_playlist(doc).unwrap();
    assert_eq!(m.segments[0].duration_ms, 7000);
}

#[test]
fn key_tag_attaches_to_next_segment() {
    let doc = b"#EXTM3U\n#EXT-X-KEY:METHOD=AES-128,URI=\"https://ex.com/k?a=1,b=2\",IV=0x000102030405060708090a0b0c0d0e0f\n#EXTINF:4.0,\na.ts\n#EXTINF:4.0,\nb.ts\n";
    let m = parse_media_playlist(doc).unwrap();
    assert_eq!(m.segments.len(), 2);
    let k = m.segments[0].key.as_ref().unwrap();
    assert_eq!(k.method, b"AES-128".to_vec());
    assert_eq!(
        k.iv.as_ref().unwrap(),
        &b"0x000102030405060708090a0b0c0d0e0f".to_vec()
    );
    // the comma inside the quoted URI must not split the IV attribute
    assert!(m.segments[1].key.is_none());
}

#[test]
fn key_tag_without_iv() {
    let doc = b"#EXTM3U\n#EXT-X-KEY:METHOD=AES-128,URI=\"https://ex.com/k\"\n#EXTINF:4.0,\na.ts\n";
    let m = parse_media_playlist(doc).unwrap();
    let k = m.segments[0].key.as_ref().unwrap();
    assert_eq!(k.method, b"AES-128".to_vec());
    assert!(k.iv.is_none());
}

#[test]
fn master_playlist_lists_variants_in_order() {
    let doc = b"#EXTM3U\n#EXT-X-STREAM-INF:BANDWIDTH=1280000\nlow/index.m3u8\n#EXT-X-STREAM-INF:BANDWIDTH=2560000\nhigh/index.m3u8\n";
    let p = parse_playlist(doc).unwrap();
    match p {
        Playlist::Master(m) => {
            assert_eq!(m.variants.len(), 2);
            assert_eq!(m.variants[0], b"low/index.m3u8".to_vec());
            assert_eq!(m.variants[1], b"high/index.m3u8".to_vec());
            let first = first_variant(&m).unwrap();
            assert_eq!(first, &b"low/index.m3u8".to_vec());
        }
        Playlist::Media(_) => panic!("expected a master playlist"),
    }
}

#[test]
fn missing_header_is_malformed() {
    let doc = b"#EXT-X-VERSION:3\n#EXTINF:6.0,\nseg.ts\n";
    assert_eq!(parse_playlist(doc).err(), Some(HlsError::MalformedPlaylist));
}

#[test]
fn malformed_master_aborts_before_any_segment_work() {
    // a variant tag with no URI line after it
    let doc = b"#EXTM3U\n#EXT-X-STREAM-INF:BANDWIDTH=1280000\n#EXT-X-STREAM-INF:BANDWIDTH=2\n";
    let r = parse_playlist(doc);
    assert_eq!(r.err(), Some(HlsError::MalformedPlaylist));
}

#[test]
fn uri_without_duration_is_malformed() {
    let doc = b"#EXTM3U\nsegment.ts\n";
    assert_eq!(parse_media_playlist(doc).err(), Some(HlsError::MalformedPlaylist));
}

#[test]
fn bad_duration_is_malformed() {
    let doc = b"#EXTM3U\n#EXTINF:abc,\nsegment.ts\n";
    assert_eq!(parse_media_playlist(doc).err(), Some(HlsError::MalformedPlaylist));
}

#[test]
fn overlong_duration_is_malformed() {
    // 1000 times this many seconds cannot be held in 64 bits
    let doc = b"#EXTM3U\n#EXTINF:99999999999999999999,\nx.ts\n";
    assert_eq!(parse_media_playlist(doc).err(), Some(HlsError::MalformedPlaylist));
}

#[test]
fn leading_zeros_are_plain_decimal() {
    let doc = b"#EXTM3U\n#EXT-X-VERSION:007\n#EXT-X-TARGETDURATION:010\n#EXTINF:06.50,\nx.ts\n";
    let m = parse_media_playlist(doc).unwrap();
    assert_eq!(m.version, 7);
    assert_eq!(m.target_duration, 10);
    assert_eq!(m.segments[0].duration_ms, 6500);
}

#[test]
fn empty_document_is_malformed() {
    assert_eq!(parse_playlist(b"").err(), Some(HlsError::MalformedPlaylist));
}

#[test]
fn header_only_document_is_an_empty_media_playlist() {
    let m = parse_media_playlist(b"#EXTM3U\n").unwrap();
    assert_eq!(m.segments.len(), 0);
    assert!(!m.end_list);
    assert_eq!(m.version, 0);
}

#[test]
fn long_fraction_is_truncated_to_milliseconds() {
    let doc = b"#EXTM3U\n#EXTINF:1.23456,\nx.ts\n";
    let m = parse_media_playlist(doc).unwrap();
    assert_eq!(m.segments[0].duration_ms, 1234);
}

#[test]
fn unknown_tags_are_ignored() {
    let doc = b"#EXTM3U\n#EXT-X-MEDIA-SEQUENCE:0\n#EXT-X-PLAYLIST-TYPE:VOD\n#EXTINF:5.5,\nonly.ts\n#EXT-X-ENDLIST\n";
    let m = parse_media_playlist(doc).unwrap();
    assert_eq!(m.segments.len(), 1);
    assert_eq!(m.segments[0].duration_ms, 5500);
    assert!(m.end_list);
}
