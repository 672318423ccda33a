use flexhlssink::playlist::{
    signed_decimal_string, MediaPlaylist, PlaylistEntry, PlaylistRenderState, PLAYLIST_VERSION,
};
use flexhlssink::retention::retain;
use flexhlssink::seconds::{fraction_string, seconds_string};

const SECOND: u64 = 1_000_000_000;

fn entry(sequence: u64, seconds: u64) -> PlaylistEntry {
    PlaylistEntry {
        sequence,
        uri: format!("segment{:0>5}.ts", sequence),
        duration: seconds * SECOND,
    }
}

fn entry_of(sequence: u64, nanoseconds: u64) -> PlaylistEntry {
    PlaylistEntry {
        sequence,
        uri: format!("segment{:0>5}.ts", sequence),
        duration: nanoseconds,
    }
}

fn reference_playlist(target_duration: f32, media_sequence: i32) -> m3u8_rs::playlist::MediaPlaylist {
    m3u8_rs::playlist::MediaPlaylist {
        version: 3,
        target_duration,
        media_sequence,
        segments: Vec::new(),
        discontinuity_sequence: 0,
        end_list: false,
        playlist_type: Some(m3u8_rs::playlist::MediaPlaylistType::Vod),
        i_frames_only: false,
        start: None,
        independent_segments: false,
    }
}

fn reference_segment(sequence: u64, duration: f32) -> m3u8_rs::playlist::MediaSegment {
    let mut segment = m3u8_rs::playlist::MediaSegment::empty();
    segment.uri = format!("segment{:0>5}.ts", sequence);
    segment.duration = duration;
    segment
}

fn reference_text(reference: &m3u8_rs::playlist::MediaPlaylist) -> String {
    let mut bytes: Vec<u8> = Vec::new();
    reference.write_to(&mut bytes).unwrap();
    String::from_utf8(bytes).unwrap()
}

fn sequences(playlist: &MediaPlaylist) -> Vec<u64> {
    playlist.segments.iter().map(|e| e.sequence).collect()
}

#[test]
fn new_playlist_is_empty() {
    let playlist = MediaPlaylist::new(15);
    assert_eq!(playlist.version, 3);
    assert_eq!(PLAYLIST_VERSION, 3);
    assert_eq!(playlist.target_duration, 15);
    assert_eq!(playlist.media_sequence, 0);
    assert_eq!(playlist.entry_count(), 0);
    assert!(!playlist.end_list);
}

#[test]
fn render_state_compares() {
    assert!(PlaylistRenderState::Init == PlaylistRenderState::Init);
    assert!(PlaylistRenderState::Init != PlaylistRenderState::Started);
}

#[test]
fn append_keeps_insertion_order() {
    let mut playlist = MediaPlaylist::new(6);
    playlist.append(entry(0, 6));
    playlist.append(entry(1, 5));
    playlist.append(entry(2, 4));
    assert_eq!(sequences(&playlist), vec![0, 1, 2]);
    assert_eq!(playlist.segments[1].uri, "segment00001.ts");
    assert_eq!(playlist.segments[1].duration, 5 * SECOND);
    assert_eq!(playlist.entry_count(), 3);
}

#[test]
fn eviction_is_first_in_first_out() {
    let mut playlist = MediaPlaylist::new(6);
    let mut evicted: Vec<String> = Vec::new();
    for i in 0..6u64 {
        playlist.append(entry(i, 6));
        evicted.extend(playlist.trim(5));
    }
    assert_eq!(evicted, vec!["segment00000.ts".to_string()]);
    assert_eq!(sequences(&playlist), vec![1, 2, 3, 4, 5]);
    for i in 6..10u64 {
        playlist.append(entry(i, 6));
        evicted.extend(playlist.trim(5));
    }
    assert_eq!(
        evicted,
        vec![
            "segment00000.ts".to_string(),
            "segment00001.ts".to_string(),
            "segment00002.ts".to_string(),
            "segment00003.ts".to_string(),
            "segment00004.ts".to_string(),
        ]
    );
    assert_eq!(sequences(&playlist), vec![5, 6, 7, 8, 9]);
}

#[test]
fn trim_removes_several_at_once() {
    let mut playlist = MediaPlaylist::new(6);
    for i in 0..10u64 {
        playlist.append(entry(i, 6));
    }
    let evicted = playlist.trim(3);
    assert_eq!(evicted.len(), 7);
    assert_eq!(evicted[0], "segment00000.ts");
    assert_eq!(evicted[6], "segment00006.ts");
    assert_eq!(sequences(&playlist), vec![7, 8, 9]);
    assert!(playlist.trim(3).is_empty());
    assert_eq!(sequences(&playlist), vec![7, 8, 9]);
}

#[test]
fn window_of_zero_is_unbounded() {
    let mut playlist = MediaPlaylist::new(6);
    for i in 0..50u64 {
        playlist.append(entry(i, 6));
        assert!(playlist.trim(0).is_empty());
    }
    assert_eq!(playlist.entry_count(), 50);
    let text = playlist.render();
    assert_eq!(text.matches("#EXTINF:").count(), 50);
}

#[test]
fn media_sequence_is_next_less_count() {
    let mut playlist = MediaPlaylist::new(6);
    for i in 0..4u64 {
        playlist.append(entry(i + 3, 6));
    }
    playlist.recompute_media_sequence(7);
    assert_eq!(playlist.media_sequence, 3);
    playlist.recompute_media_sequence(4);
    assert_eq!(playlist.media_sequence, 0);
    assert_eq!(playlist.entry_count(), 4);
    playlist.recompute_media_sequence(1);
    assert_eq!(playlist.media_sequence, -3);
    playlist.recompute_media_sequence(i64::MAX as u64);
    assert_eq!(playlist.media_sequence, i64::MAX - 4);
}

#[test]
fn mark_ended_is_idempotent() {
    let mut playlist = MediaPlaylist::new(6);
    playlist.append(entry(0, 6));
    playlist.mark_ended();
    assert!(playlist.end_list);
    let once = playlist.render();
    playlist.mark_ended();
    assert!(playlist.end_list);
    assert_eq!(playlist.render(), once);
    assert_eq!(playlist.entry_count(), 1);
}

#[test]
fn render_of_an_empty_playlist() {
    let playlist = MediaPlaylist::new(15);
    assert_eq!(
        playlist.render(),
        "#EXTM3U\n#EXT-X-VERSION:3\n#EXT-X-TARGETDURATION:15\n#EXT-X-PLAYLIST-TYPE:VOD\n"
    );
}

#[test]
fn render_of_two_entries() {
    let mut playlist = MediaPlaylist::new(6);
    playlist.append(entry(0, 6));
    playlist.append(entry(1, 6));
    assert_eq!(
        playlist.render(),
        "#EXTM3U\n#EXT-X-VERSION:3\n#EXT-X-TARGETDURATION:6\n#EXT-X-PLAYLIST-TYPE:VOD\n\
         #EXTINF:6,\nsegment00000.ts\n#EXTINF:6,\nsegment00001.ts\n"
    );
}

#[test]
fn render_with_media_sequence_and_end_marker() {
    let mut playlist = MediaPlaylist::new(10);
    playlist.append(entry(12, 9));
    playlist.recompute_media_sequence(13);
    playlist.mark_ended();
    assert_eq!(
        playlist.render(),
        "#EXTM3U\n#EXT-X-VERSION:3\n#EXT-X-TARGETDURATION:10\n#EXT-X-MEDIA-SEQUENCE:12\n\
         #EXT-X-ENDLIST\n#EXT-X-PLAYLIST-TYPE:VOD\n#EXTINF:9,\nsegment00012.ts\n"
    );
}

#[test]
fn render_of_a_negative_media_sequence() {
    let mut playlist = MediaPlaylist::new(10);
    playlist.media_sequence = -4;
    assert_eq!(
        playlist.render(),
        "#EXTM3U\n#EXT-X-VERSION:3\n#EXT-X-TARGETDURATION:10\n#EXT-X-MEDIA-SEQUENCE:-4\n\
         #EXT-X-PLAYLIST-TYPE:VOD\n"
    );
}

#[test]
fn signed_decimal_of_both_signs() {
    assert_eq!(signed_decimal_string(0), "0");
    assert_eq!(signed_decimal_string(17), "17");
    assert_eq!(signed_decimal_string(-17), "-17");
    assert_eq!(signed_decimal_string(i64::MAX), "9223372036854775807");
    assert_eq!(signed_decimal_string(i64::MIN), "-9223372036854775808");
}

#[test]
fn serialize_gives_the_bytes_of_the_text() {
    let mut playlist = MediaPlaylist::new(6);
    playlist.append(PlaylistEntry {
        sequence: 0,
        uri: "vidéo00000.ts".to_string(),
        duration: 6 * SECOND,
    });
    assert_eq!(playlist.serialize(), playlist.render().into_bytes());
    assert!(playlist
        .serialize()
        .ends_with("#EXTINF:6,\nvidéo00000.ts\n".as_bytes()));
}

#[test]
fn entry_renders_duration_then_path() {
    let mut out = String::from("head\n");
    entry(3, 11).render_into(&mut out);
    assert_eq!(out, "head\n#EXTINF:11,\nsegment00003.ts\n");
}

#[test]
fn serialized_playlist_parses_back_to_the_same_entries() {
    let mut playlist = MediaPlaylist::new(6);
    playlist.append(entry(0, 6));
    playlist.append(entry(1, 6));
    let bytes = playlist.serialize();
    let parsed = match m3u8_rs::parse_media_playlist_res(&bytes) {
        Ok(parsed) => parsed,
        Err(_) => panic!("the playlist does not parse"),
    };
    assert_eq!(parsed.version, 3);
    assert_eq!(parsed.target_duration, 6.0);
    assert_eq!(parsed.media_sequence, 0);
    assert!(!parsed.end_list);
    assert_eq!(parsed.segments.len(), 2);
    assert_eq!(parsed.segments[0].uri, "segment00000.ts");
    assert_eq!(parsed.segments[0].duration, 6.0);
    assert_eq!(parsed.segments[1].uri, "segment00001.ts");
    assert_eq!(parsed.segments[1].duration, 6.0);
}

#[test]
fn serialized_playlist_is_what_the_reference_writer_gives() {
    let mut playlist = MediaPlaylist::new(15);
    for i in 4..9u64 {
        playlist.append(entry(i, i + 1));
    }
    playlist.recompute_media_sequence(9);
    playlist.mark_ended();

    let mut reference = m3u8_rs::playlist::MediaPlaylist {
        version: 3,
        target_duration: 15.0,
        media_sequence: 4,
        segments: Vec::new(),
        discontinuity_sequence: 0,
        end_list: true,
        playlist_type: Some(m3u8_rs::playlist::MediaPlaylistType::Vod),
        i_frames_only: false,
        start: None,
        independent_segments: false,
    };
    for i in 4..9u64 {
        let mut segment = m3u8_rs::playlist::MediaSegment::empty();
        segment.uri = format!("segment{:0>5}.ts", i);
        segment.duration = (i + 1) as f32;
        reference.segments.push(segment);
    }
    let mut expected: Vec<u8> = Vec::new();
    reference.write_to(&mut expected).unwrap();
    assert_eq!(playlist.serialize(), expected);
}

#[test]
fn retain_deletes_oldest_first() {
    let mut queue: Vec<String> = Vec::new();
    for i in 0..5u64 {
        let gone = retain(&mut queue, format!("f{}", i), 5);
        assert!(gone.is_empty());
    }
    let gone = retain(&mut queue, "f5".to_string(), 5);
    assert_eq!(gone, vec!["f0".to_string()]);
    assert_eq!(queue, vec!["f1", "f2", "f3", "f4", "f5"]);
    let gone = retain(&mut queue, "f6".to_string(), 2);
    assert_eq!(gone, vec!["f1", "f2", "f3", "f4"]);
    assert_eq!(queue, vec!["f5", "f6"]);
}

#[test]
fn retain_with_window_zero_keeps_everything() {
    let mut queue: Vec<String> = Vec::new();
    for i in 0..30u64 {
        assert!(retain(&mut queue, format!("f{}", i), 0).is_empty());
    }
    assert_eq!(queue.len(), 30);
    assert_eq!(queue[0], "f0");
    assert_eq!(queue[29], "f29");
}

#[test]
fn whole_second_durations_match_the_reference_writer() {
    let durations: Vec<u64> = (0..300u64)
        .chain([3599, 3600, 86400, 999_999, 1_000_000, 16_777_215, 16_777_216])
        .collect();
    let mut playlist = MediaPlaylist::new(3600);
    let mut reference = m3u8_rs::playlist::MediaPlaylist {
        version: 3,
        target_duration: 3600.0,
        media_sequence: 0,
        segments: Vec::new(),
        discontinuity_sequence: 0,
        end_list: false,
        playlist_type: Some(m3u8_rs::playlist::MediaPlaylistType::Vod),
        i_frames_only: false,
        start: None,
        independent_segments: false,
    };
    for (i, duration) in durations.iter().enumerate() {
        playlist.append(entry(i as u64, *duration));
        let mut segment = m3u8_rs::playlist::MediaSegment::empty();
        segment.uri = format!("segment{:0>5}.ts", i);
        segment.duration = *duration as f32;
        reference.segments.push(segment);
    }
    let mut expected: Vec<u8> = Vec::new();
    reference.write_to(&mut expected).unwrap();
    assert_eq!(playlist.serialize(), expected);
}

#[test]
fn sliding_playlist_parses_back_after_every_close() {
    let mut playlist = MediaPlaylist::new(6);
    for i in 0..12u64 {
        playlist.append(entry(i, 6 + i % 3));
        playlist.trim(4);
        playlist.recompute_media_sequence(i + 1);
        let bytes = playlist.serialize();
        let parsed = match m3u8_rs::parse_media_playlist_res(&bytes) {
            Ok(parsed) => parsed,
            Err(_) => panic!("the playlist does not parse"),
        };
        assert_eq!(parsed.media_sequence as i64, playlist.media_sequence);
        assert_eq!(parsed.segments.len(), playlist.entry_count());
        for (got, want) in parsed.segments.iter().zip(playlist.segments.iter()) {
            assert_eq!(got.uri, want.uri);
            assert_eq!(got.duration, (want.duration / SECOND) as f32);
        }
    }
    playlist.mark_ended();
    let bytes = playlist.serialize();
    let parsed = match m3u8_rs::parse_media_playlist_res(&bytes) {
        Ok(parsed) => parsed,
        Err(_) => panic!("the playlist does not parse"),
    };
    assert!(parsed.end_list);
    assert_eq!(parsed.segments.len(), 4);
    assert_eq!(parsed.segments[0].uri, "segment00008.ts");
}

#[test]
fn durations_are_written_with_their_fraction() {
    let cases: [(u64, &str); 12] = [
        (0, "0"),
        (1, "0.000000001"),
        (10, "0.00000001"),
        (500_000_000, "0.5"),
        (999_999_999, "0.999999999"),
        (SECOND, "1"),
        (6 * SECOND + 500_000_000, "6.5"),
        (6 * SECOND + 250_000_000, "6.25"),
        (6 * SECOND + 6_000_000, "6.006"),
        (10 * SECOND + 10, "10.00000001"),
        (5_999_999_999, "5.999999999"),
        (u64::MAX, "18446744073.709551615"),
    ];
    for (nanoseconds, expected) in cases {
        assert_eq!(seconds_string(nanoseconds), expected);
        let mut out = String::new();
        entry_of(4, nanoseconds).render_into(&mut out);
        assert_eq!(out, format!("#EXTINF:{},\nsegment00004.ts\n", expected));
    }
}

#[test]
fn fraction_digits_drop_the_zeros_at_the_end() {
    assert_eq!(fraction_string(500_000_000, 9), "5");
    assert_eq!(fraction_string(5, 9), "000000005");
    assert_eq!(fraction_string(120, 3), "12");
    assert_eq!(fraction_string(7, 1), "7");
    assert_eq!(fraction_string(123_456_789, 9), "123456789");
}

#[test]
fn fractional_durations_match_the_reference_writer() {
    let cases: [(u64, &str); 9] = [
        (6 * SECOND + 500_000_000, "6.5"),
        (250_000_000, "0.25"),
        (SECOND + 125_000_000, "1.125"),
        (100_000_000, "0.1"),
        (6 * SECOND + 6_000_000, "6.006"),
        (5 * SECOND + 994_000_000, "5.994"),
        (12 * SECOND + 345_600_000, "12.3456"),
        (1_000, "0.000001"),
        (123_456 * SECOND + 500_000_000, "123456.5"),
    ];
    let mut playlist = MediaPlaylist::new(6);
    let mut reference = reference_playlist(6.0, 0);
    for (i, (nanoseconds, seconds)) in cases.iter().enumerate() {
        playlist.append(entry_of(i as u64, *nanoseconds));
        let duration: f32 = seconds.parse().unwrap();
        reference.segments.push(reference_segment(i as u64, duration));
    }
    assert_eq!(playlist.render(), reference_text(&reference));
    let parsed = match m3u8_rs::parse_media_playlist_res(&playlist.serialize()) {
        Ok(parsed) => parsed,
        Err(_) => panic!("the playlist does not parse"),
    };
    assert_eq!(parsed.segments.len(), cases.len());
    assert_eq!(parsed.segments[0].duration, 6.5);
    assert_eq!(parsed.segments[2].duration, 1.125);
}

#[test]
fn numbers_beyond_32_bit_floats_are_written_exactly() {
    let mut playlist = MediaPlaylist::new(16_777_217);
    playlist.append(entry(0, 16_777_216));
    playlist.append(entry(1, 16_777_217));
    playlist.append(entry_of(2, 6 * SECOND + 123_456_789));
    assert_eq!(
        playlist.render(),
        "#EXTM3U\n#EXT-X-VERSION:3\n#EXT-X-TARGETDURATION:16777217\n#EXT-X-PLAYLIST-TYPE:VOD\n\
         #EXTINF:16777216,\nsegment00000.ts\n#EXTINF:16777217,\nsegment00001.ts\n\
         #EXTINF:6.123456789,\nsegment00002.ts\n"
    );

    let mut reference = reference_playlist(16_777_217u32 as f32, 0);
    reference.segments.push(reference_segment(0, 16_777_216u64 as f32));
    reference.segments.push(reference_segment(1, 16_777_217u64 as f32));
    reference.segments.push(reference_segment(2, "6.123456789".parse().unwrap()));
    let rounded = reference_text(&reference);
    assert!(rounded.starts_with(
        "#EXTM3U\n#EXT-X-VERSION:3\n#EXT-X-TARGETDURATION:16777216\n#EXT-X-PLAYLIST-TYPE:VOD\n\
         #EXTINF:16777216,\nsegment00000.ts\n#EXTINF:16777216,\nsegment00001.ts\n#EXTINF:6.1234"
    ));
    assert!(!rounded.contains("#EXTINF:6.123456789,"));
    assert_ne!(playlist.render(), rounded);
}

#[test]
fn media_sequence_beyond_32_bits_is_written_exactly() {
    let mut playlist = MediaPlaylist::new(6);
    playlist.append(entry(2_147_483_648, 6));
    playlist.recompute_media_sequence(2_147_483_649);
    assert_eq!(playlist.media_sequence, 2_147_483_648);
    assert!(playlist
        .render()
        .contains("#EXT-X-MEDIA-SEQUENCE:2147483648\n"));

    let mut within = MediaPlaylist::new(6);
    within.append(entry(2_147_483_647, 6));
    within.recompute_media_sequence(2_147_483_648);
    let mut reference = reference_playlist(6.0, i32::MAX);
    reference
        .segments
        .push(reference_segment(2_147_483_647, 6.0));
    assert_eq!(within.render(), reference_text(&reference));
}
