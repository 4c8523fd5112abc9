use cheetah_containers::hls::client::{action_uri, ActionKind};
use cheetah_containers::hls::error::HlsError;
use cheetah_containers::hls::model::{ByteRange, PreloadHintType, RenditionType};
use cheetah_containers::hls::parser::{
    clone_attr, parse_attributes, parse_byte_range_raw, parse_key, parse_media_rendition,
    parse_optional_u32, parse_optional_u64, parse_preload_hint, parse_resolution, parse_u32_attr,
    parse_u64_attr, parse_u64_raw, resolve_url, split_commas,
};

#[test]
fn resolve_absolute_uri() {
    assert_eq!(
        resolve_url("http://x/a/b.m3u8", "http://y/c.m3u8").unwrap(),
        "http://y/c.m3u8"
    );
}

#[test]
fn resolve_root_path() {
    assert_eq!(
        resolve_url("http://x/a/b.m3u8", "/c.m3u8").unwrap(),
        "http://x/c.m3u8"
    );
}

#[test]
fn resolve_relative_path() {
    assert_eq!(
        resolve_url("http://x/a/b.m3u8", "c.m3u8").unwrap(),
        "http://x/a/c.m3u8"
    );
}

#[test]
fn resolve_relative_no_path() {
    assert_eq!(
        resolve_url("http://example.com", "playlist.m3u8").unwrap(),
        "http://example.com/playlist.m3u8"
    );
    assert_eq!(
        resolve_url("http://example.com/", "playlist.m3u8").unwrap(),
        "http://example.com/playlist.m3u8"
    );
}

#[test]
fn resolve_edge_cases() {
    assert!(matches!(
        resolve_url("http://x/", ""),
        Err(HlsError::Malformed { line: 0, .. })
    ));
    assert_eq!(resolve_url("relative/dir/list.m3u8", "/root.ts").unwrap(), "/root.ts");
    assert_eq!(resolve_url("list.m3u8", "seg.ts").unwrap(), "list.m3u8seg.ts");
    assert_eq!(resolve_url("http://h", "/a.ts").unwrap(), "http://h/a.ts");
}

#[test]
fn attributes_quoted_unquoted_and_trimmed() {
    let attrs =
        parse_attributes("BANDWIDTH=1280000, CODECS=\"avc1.4d401f,mp4a.40.2\",NAME= x ,LAST=")
            .unwrap();
    assert_eq!(clone_attr(&attrs, "BANDWIDTH").unwrap(), "1280000");
    assert_eq!(clone_attr(&attrs, "CODECS").unwrap(), "avc1.4d401f,mp4a.40.2");
    assert_eq!(clone_attr(&attrs, "NAME").unwrap(), "x");
    assert_eq!(clone_attr(&attrs, "LAST").unwrap(), "");
    assert!(matches!(clone_attr(&attrs, "NOPE"), Err(HlsError::MissingTag { .. })));
    assert_eq!(parse_u32_attr(&attrs, "BANDWIDTH").unwrap(), 1_280_000);
    assert_eq!(parse_optional_u32(&attrs, "AVERAGE").unwrap(), None);
    assert!(parse_u32_attr(&attrs, "NAME").is_err());
    let dup = parse_attributes("A=1,A=2").unwrap();
    assert_eq!(clone_attr(&dup, "A").unwrap(), "2");
    assert!(matches!(parse_attributes("A"), Err(HlsError::Malformed { .. })));
    assert!(matches!(parse_attributes("A=\"x"), Err(HlsError::Malformed { .. })));
}

#[test]
fn numbers_follow_std_parsing() {
    assert_eq!(parse_u64_raw("+42").unwrap(), 42);
    assert_eq!(parse_u64_raw("18446744073709551615").unwrap(), u64::MAX);
    assert!(parse_u64_raw("18446744073709551616").is_err());
    assert!(parse_u64_raw("").is_err());
    assert!(parse_u64_raw("+").is_err());
    assert!(parse_u64_raw(" 1").is_err());
    let attrs = parse_attributes("BIG=4294967296,MSN=7").unwrap();
    assert!(parse_u32_attr(&attrs, "BIG").is_err());
    assert_eq!(parse_u64_attr(&attrs, "BIG").unwrap(), 4_294_967_296);
    assert_eq!(parse_optional_u64(&attrs, "MSN").unwrap(), Some(7));
    assert_eq!(parse_optional_u32(&attrs, "MSN").unwrap(), Some(7));
}

#[test]
fn byte_ranges_and_resolutions() {
    assert_eq!(
        parse_byte_range_raw("1000@200").unwrap(),
        ByteRange { length: 1000, offset: Some(200) }
    );
    assert_eq!(parse_byte_range_raw(" 5 ").unwrap(), ByteRange { length: 5, offset: None });
    assert_eq!(
        parse_byte_range_raw("1@2@3").unwrap(),
        ByteRange { length: 1, offset: Some(2) }
    );
    assert!(parse_byte_range_raw("x@1").is_err());
    assert!(parse_byte_range_raw("1@").is_err());
    let r = String::from("1280x720");
    assert_eq!(parse_resolution(Some(&r)).unwrap(), Some((1280, 720)));
    assert_eq!(parse_resolution(None).unwrap(), None);
    let bad = String::from("1280");
    assert!(parse_resolution(Some(&bad)).is_err());
    assert_eq!(split_commas(" a, b ,c"), vec!["a", "b", "c"]);
    assert_eq!(split_commas(""), vec![""]);
}

#[test]
fn keys_renditions_and_hints() {
    let attrs = parse_attributes("METHOD=AES-128,URI=\"k.bin\"").unwrap();
    let key = parse_key(&attrs).unwrap();
    assert_eq!(key.method, "AES-128");
    assert_eq!(key.uri.as_deref(), Some("k.bin"));
    assert_eq!(key.key_format, "identity");
    assert_eq!(key.key_format_versions, "1");
    assert!(parse_key(&parse_attributes("URI=x").unwrap()).is_err());

    let m = parse_attributes(
        "TYPE=AUDIO,GROUP-ID=\"aac\",NAME=\"English\",DEFAULT=yes,CHARACTERISTICS=\"a,b\"",
    )
    .unwrap();
    let rend = parse_media_rendition(&m).unwrap();
    assert_eq!(rend.kind, RenditionType::Audio);
    assert_eq!(rend.group_id, "aac");
    assert!(rend.default && !rend.forced);
    assert_eq!(rend.characteristics, vec!["a", "b"]);
    let bad = parse_attributes("TYPE=FOO,GROUP-ID=g,NAME=n").unwrap();
    assert!(matches!(
        parse_media_rendition(&bad),
        Err(HlsError::InvalidAttribute { .. })
    ));

    let h = parse_attributes("TYPE=PART,URI=\"p1.mp4\",BYTERANGE=\"100@0\"").unwrap();
    let hint = parse_preload_hint(&h, "http://x/a/list.m3u8").unwrap();
    assert_eq!(hint.kind, PreloadHintType::Part);
    assert_eq!(hint.uri, "http://x/a/p1.mp4");
    assert_eq!(hint.byte_range, Some(ByteRange { length: 100, offset: Some(0) }));
    let m2 = parse_attributes("TYPE=MAP,URI=init.mp4").unwrap();
    assert_eq!(parse_preload_hint(&m2, "http://x/").unwrap().kind, PreloadHintType::InitMap);
}

#[test]
fn action_uris() {
    let a = ActionKind::LoadSegment { uri: "s.ts".to_string(), byte_range: None, discontinuity: false };
    assert_eq!(action_uri(&a), Some("s.ts"));
    assert_eq!(action_uri(&ActionKind::Wait { duration_ms: 5 }), None);
}

use cheetah_containers::hls::master::Variant;
use cheetah_containers::hls::variant::{
    select_initial_variant, select_initial_variant_index, BandwidthSelector, VariantCapabilities,
    VariantSelector,
};

fn variant(bandwidth: u32, codecs: &[&str], resolution: Option<(u32, u32)>) -> Variant {
    let mut v = Variant::new(String::new(), bandwidth);
    v.codecs = codecs.iter().map(|c| c.to_string()).collect();
    v.resolution = resolution;
    v
}

#[test]
fn variant_selection_prefers_highest_under_cap() {
    let master = parse_master(MASTER, "http://x/").result.unwrap();
    let caps = VariantCapabilities {
        max_bandwidth: Some(3_000_000),
        required_codecs: vec!["avc1".to_string(), "mp4a".to_string()],
        ..Default::default()
    };
    let v = select_initial_variant(&master.variants, &caps).unwrap();
    assert_eq!(v.bandwidth, 1_000_000);
}

#[test]
fn variant_selection_fallback_to_lowest_when_all_exceed_cap() {
    let master = "#EXTM3U
#EXT-X-STREAM-INF:BANDWIDTH=1000000,CODECS=\"avc1.42e00a,mp4a.40.2\"
low.m3u8
#EXT-X-STREAM-INF:BANDWIDTH=5000000,CODECS=\"avc1.42e00a,mp4a.40.2\"
mid.m3u8
#EXT-X-STREAM-INF:BANDWIDTH=10000000,CODECS=\"avc1.42e00a,mp4a.40.2\"
high.m3u8
";
    let m = parse_master(master, "http://x/").result.unwrap();
    let caps = VariantCapabilities {
        max_bandwidth: Some(500_000),
        required_codecs: vec!["avc1".into()],
        ..VariantCapabilities::default()
    };
    let v = select_initial_variant(&m.variants, &caps).unwrap();
    assert_eq!(v.bandwidth, 1_000_000);
}

#[test]
fn variant_selection_edge_cases() {
    let caps = VariantCapabilities::default();
    assert!(matches!(
        select_initial_variant(&[], &caps),
        Err(HlsError::MissingTag { .. })
    ));
    let variants = vec![variant(100, &[], None), variant(300, &[], None), variant(300, &[], None)];
    assert_eq!(select_initial_variant_index(&variants, &caps).unwrap(), 2);
    assert!(std::ptr::eq(select_initial_variant(&variants, &caps).unwrap(), &variants[2]));
    assert!(std::ptr::eq(BandwidthSelector.select(&variants, &caps).unwrap(), &variants[2]));
    let picky = VariantCapabilities { required_codecs: vec!["hvc1".into()], ..Default::default() };
    assert!(matches!(
        select_initial_variant(&variants, &picky),
        Err(HlsError::Unsupported { .. })
    ));
    assert!(!picky.can_decode(&variants[0]));
    let sized = VariantCapabilities { max_width: Some(1280), ..Default::default() };
    let vs = vec![variant(9, &[], Some((1920, 1080))), variant(5, &[], Some((1280, 720)))];
    assert_eq!(select_initial_variant(&vs, &sized).unwrap().bandwidth, 5);
}

use cheetah_containers::hls::master::{parse_master, MasterParse};
use cheetah_containers::hls::media::{parse_media, MediaParse, ParseStop};
use cheetah_containers::hls::model::PlaylistType;
use cheetah_containers::hls::playlist::{parse, PlaylistParse};

const MASTER: &str = "#EXTM3U
#EXT-X-STREAM-INF:BANDWIDTH=1000000,CODECS=\"avc1.42e00a,mp4a.40.2\",RESOLUTION=640x360
playlist_1.m3u8
#EXT-X-STREAM-INF:BANDWIDTH=5000000,CODECS=\"avc1.64001f,mp4a.40.2\",RESOLUTION=1920x1080
playlist_2.m3u8
#EXT-X-STREAM-INF:BANDWIDTH=2500000
playlist_3.m3u8
";

const MEDIA: &str = "#EXTM3U
#EXT-X-TARGETDURATION:6
#EXT-X-MEDIA-SEQUENCE:0
#EXTINF:6.000,
seg0.ts
#EXTINF:6.000,
seg1.ts
#EXT-X-ENDLIST
";

fn decimal(text: &str) -> f64 {
    text.parse::<f64>().unwrap()
}

#[test]
fn parse_master_ok() {
    let MasterParse { result, .. } = parse_master(MASTER, "http://example.com/master.m3u8");
    let m = result.unwrap();
    assert_eq!(m.variants.len(), 3);
    assert_eq!(m.variants[0].bandwidth, 1_000_000);
    assert_eq!(m.variants[0].uri, "http://example.com/playlist_1.m3u8");
    assert_eq!(m.variants[0].resolution, Some((640, 360)));
    assert_eq!(m.variants[2].uri, "http://example.com/playlist_3.m3u8");
}

#[test]
fn parse_missing_extm3u_fails() {
    assert!(parse("not a playlist", "http://x").is_err());
}

#[test]
fn parse_media_ok() {
    let MediaParse { numbers, result } = parse_media(MEDIA, "http://example.com/playlist.m3u8");
    let media = result.unwrap();
    assert_eq!(media.target_duration.as_deref().map(decimal), Some(6.0));
    assert_eq!(numbers, vec!["6", "6.000", "6.000"]);
    assert_eq!(media.media_sequence, 0);
    assert_eq!(media.segments.len(), 2);
    assert_eq!(media.segments[0].uri, "http://example.com/seg0.ts");
    assert!(media.end_list);
}

#[test]
fn parse_llhls_parts() {
    let pl = "#EXTM3U
#EXT-X-TARGETDURATION:6
#EXT-X-PART-INF:PART-TARGET=0.5
#EXT-X-SERVER-CONTROL:CAN-BLOCK-RELOAD=YES,PART-HOLD-BACK=1.5
#EXT-X-MEDIA-SEQUENCE:10
#EXT-X-PART:DURATION=0.5,URI=\"part10_0.m4s\",INDEPENDENT=YES
#EXT-X-PART:DURATION=0.5,URI=\"part10_1.m4s\"
#EXTINF:1.0,
seg10.m4s
";
    let media = parse_media(pl, "http://x/").result.unwrap();
    assert_eq!(decimal(&media.part_inf.as_ref().unwrap().part_target), 0.5);
    assert!(media.server_control.as_ref().unwrap().can_block_reload);
    assert_eq!(media.segments.len(), 1);
    assert_eq!(media.segments[0].parts.len(), 2);
    assert!(media.segments[0].parts[0].independent);
    assert_eq!(media.segments[0].media_sequence, 10);
}

#[test]
fn parse_byte_range_map_and_preload_hint() {
    let pl = "#EXTM3U
#EXT-X-TARGETDURATION:6
#EXT-X-MAP:URI=\"init.mp4\",BYTERANGE=\"1234@0\"
#EXT-X-PRELOAD-HINT:TYPE=PART,URI=\"next0.m4s\",BYTERANGE=\"200@0\"
#EXTINF:6.0,
seg0.mp4
";
    let media = parse_media(pl, "http://x/").result.unwrap();
    let map = media.segments[0].map.as_ref().unwrap();
    assert_eq!(map.byte_range.as_ref().unwrap().length, 1234);
    assert_eq!(map.byte_range.as_ref().unwrap().offset, Some(0));
    let hint = media.preload_hint.as_ref().unwrap();
    assert_eq!(hint.kind, PreloadHintType::Part);
    assert_eq!(hint.byte_range.as_ref().unwrap().length, 200);
}

#[test]
fn master_variant_count_limit_rejected() {
    let mut master = String::from("#EXTM3U\n");
    for i in 0..=1000 {
        master.push_str(&format!("#EXT-X-STREAM-INF:BANDWIDTH={}\n", i + 1));
        master.push_str(&format!("v{}.m3u8\n", i));
    }
    assert!(parse_master(&master, "http://x/").result.is_err());
}

#[test]
fn resolve_absolute_path_no_double_slash() {
    let master = "#EXTM3U
#EXT-X-STREAM-INF:BANDWIDTH=1000000,CODECS=\"avc1.42e00a,mp4a.40.2\"
/live/playlist_1.m3u8
";
    let m = parse_master(master, "http://example.com").result.unwrap();
    assert_eq!(m.variants[0].uri, "http://example.com/live/playlist_1.m3u8");
    let m2 = parse_master(master, "http://example.com/").result.unwrap();
    assert_eq!(m2.variants[0].uri, "http://example.com/live/playlist_1.m3u8");
}

#[test]
fn parse_vod_computes_duration() {
    let MediaParse { result, .. } = parse_media(MEDIA, "http://example.com/playlist.m3u8");
    let media = result.unwrap();
    assert!(media.is_vod());
    let total: f64 = media
        .segments
        .iter()
        .map(|s| s.duration.as_deref().map(decimal).unwrap_or(0.0))
        .sum();
    assert!((total - 12.0).abs() < f64::EPSILON);
}

#[test]
fn parse_dispatches_on_playlist_kind() {
    match parse(MASTER, "http://x/m.m3u8").unwrap() {
        PlaylistParse::Master(m) => assert_eq!(m.result.unwrap().variants.len(), 3),
        PlaylistParse::Media(_) => panic!("expected a master playlist"),
    }
    match parse(MEDIA, "http://x/m.m3u8").unwrap() {
        PlaylistParse::Media(m) => assert_eq!(m.result.unwrap().segments.len(), 2),
        PlaylistParse::Master(_) => panic!("expected a media playlist"),
    }
    let both = "#EXTM3U\n#EXT-X-STREAM-INF:BANDWIDTH=1\nv.m3u8\n#EXTINF:1,\ns.ts\n";
    assert!(matches!(parse(both, "http://x/"), Err(HlsError::Malformed { line: 1, .. })));
    assert_eq!(parse("not a playlist", "http://x"), Err(HlsError::MissingExtM3u));
}

#[test]
fn media_numbers_keep_their_order_and_errors_stop_the_parse() {
    let pl = "#EXTM3U\r
#EXT-X-SERVER-CONTROL:HOLD-BACK=9,CAN-SKIP-UNTIL=12\r
#EXTINF:inf,title here\r
a.ts\r
#EXT-X-PLAYLIST-TYPE:LIVE\r
b.ts\r
";
    let MediaParse { numbers, result } = parse_media(pl, "http://x/p.m3u8");
    assert_eq!(numbers, vec!["9", "12", "inf"]);
    match result {
        Err(ParseStop::Error(HlsError::InvalidAttribute { tag, key, value })) => {
            assert_eq!((tag.as_str(), key.as_str(), value.as_str()), ("#EXT-X-PLAYLIST-TYPE", "value", "LIVE"));
        }
        other => panic!("unexpected {:?}", other),
    }
    let ok = parse_media("#EXTM3U\n#EXTINF:2,t\n#EXT-X-KEY:METHOD=NONE\n#EXT-X-GAP\nx.ts\ny.ts\n", "http://x/");
    let media = ok.result.unwrap();
    assert_eq!(media.segments[0].title.as_deref(), Some("t"));
    assert_eq!(media.segments[0].gaps, 1);
    assert_eq!(media.segments[1].duration, None);
    assert_eq!(media.segments[1].key.as_ref().unwrap().method, "NONE");
    assert_eq!(media.segments[1].media_sequence, 1);
    assert_eq!(media.playlist_type, None);
}

#[test]
fn master_tags_and_unsliceable_base() {
    let pl = "#EXTM3U
#EXT-X-START:TIME-OFFSET=-3.5,PRECISE=yes
#EXT-X-MEDIA:TYPE=AUDIO,GROUP-ID=\"a\",NAME=\"English\",DEFAULT=YES
#EXT-X-DEFINE:NAME=\"v\",VALUE=\"1\",QUOTES=\"'\"
#EXT-X-SESSION-DATA:DATA-ID=\"com.x\",VALUE=\"y\"
#EXT-X-STREAM-INF:BANDWIDTH=10,FRAME-RATE=29.97,AUDIO=\"a\"
v.m3u8
";
    let MasterParse { numbers, result } = parse_master(pl, "http://x/p.m3u8");
    let texts: Vec<(String, bool)> = numbers.into_iter().map(|d| (d.text, d.signed)).collect();
    assert_eq!(texts, vec![("-3.5".to_string(), true), ("29.97".to_string(), false)]);
    let m = result.unwrap();
    assert!(m.start.as_ref().unwrap().precise);
    assert_eq!(m.media_renditions[0].kind, RenditionType::Audio);
    assert_eq!(m.variables[0].quote, Some('\''));
    assert_eq!(m.session_data[0].value.as_deref(), Some("y"));
    assert_eq!(m.variants[0].audio_group.as_deref(), Some("a"));
    assert_eq!(m.variants[0].frame_rate.as_deref(), Some("29.97"));

    let empty = parse_master("#EXTM3U\n#EXT-X-INDEPENDENT-SEGMENTS\n", "http://x/");
    assert!(matches!(empty.result, Err(ParseStop::Error(HlsError::Malformed { line: 1, .. }))));

    let relative = "#EXTM3U\n#EXT-X-STREAM-INF:BANDWIDTH=1\nv.m3u8\n";
    let stopped = parse_master(relative, "http://x/\u{4f8b}/p");
    assert_eq!(stopped.result, Err(ParseStop::UnsliceableBase));
}

use cheetah_containers::hls::client::{
    find_part, find_segment, is_inflight, next_download, resume_position,
};

const LIVE_PARTS: &str = "#EXTM3U
#EXT-X-TARGETDURATION:2
#EXT-X-MEDIA-SEQUENCE:10
#EXT-X-PART:DURATION=0.5,URI=\"p10a.m4s\",INDEPENDENT=YES
#EXT-X-PART:DURATION=0.5,URI=\"p10b.m4s\"
#EXTINF:1.0,
s10.m4s
#EXT-X-PART:DURATION=0.5,URI=\"p11a.m4s\",INDEPENDENT=YES,GAP=YES
#EXT-X-PART:DURATION=0.5,URI=\"p11b.m4s\",INDEPENDENT=YES
#EXTINF:1.0,
s11.m4s
#EXTINF:1.0,
s12.m4s
";

fn live_parts() -> cheetah_containers::hls::media::MediaPlaylist {
    parse_media(LIVE_PARTS, "http://h/live/index.m3u8").result.unwrap()
}

#[test]
fn find_segment_and_part_by_uri() {
    let media = Some(live_parts());
    let (i, seg) = find_segment(&media, "http://h/live/s11.m4s").unwrap();
    assert_eq!((i, seg.media_sequence), (1, 11));
    assert!(find_segment(&media, "http://h/live/none.m4s").is_none());
    let (si, pi, part, seg) = find_part(&media, "http://h/live/p11b.m4s").unwrap();
    assert_eq!((si, pi, seg.media_sequence), (1, 1, 11));
    assert!(part.independent);
    assert!(find_part(&None, "http://h/live/p11b.m4s").is_none());
}

#[test]
fn resume_position_after_reload() {
    let media = live_parts();
    // After a loaded part whose segment is still listed: the next part.
    assert_eq!(resume_position(&media, None, Some(10), Some(0)), (0, 1));
    // Past the last part of that segment: the next segment.
    assert_eq!(resume_position(&media, None, Some(10), Some(1)), (1, 0));
    // Past the last part of the last segment: the end.
    assert_eq!(resume_position(&media, None, Some(12), None), (3, 0));
    // Otherwise after the last whole segment loaded.
    assert_eq!(resume_position(&media, Some(10), Some(99), None), (1, 0));
    assert_eq!(resume_position(&media, Some(12), None, None), (3, 0));
    assert_eq!(resume_position(&media, None, None, None), (0, 0));
}

#[test]
fn next_download_skips_dependent_gap_and_inflight() {
    let media = live_parts();
    let none: Vec<ActionKind> = Vec::new();
    // The first independent part of the first segment.
    let (k, s, p) = next_download(&media, 0, 0, &none);
    match k {
        Some(ActionKind::LoadPart { uri, .. }) => assert_eq!(uri, "http://h/live/p10a.m4s"),
        other => panic!("unexpected {:?}", other),
    }
    assert_eq!((s, p), (0, 1));
    // The dependent part is skipped; the segment itself comes next.
    let (k, s, p) = next_download(&media, 0, 1, &none);
    match k {
        Some(ActionKind::LoadSegment { uri, discontinuity, .. }) => {
            assert_eq!(uri, "http://h/live/s10.m4s");
            assert!(!discontinuity);
        }
        other => panic!("unexpected {:?}", other),
    }
    assert_eq!((s, p), (1, 0));
    // A gap part is skipped; a part in flight too; then the segment in
    // flight is passed over for the next one.
    let busy = vec![
        ActionKind::LoadPart { uri: "http://h/live/p11b.m4s".to_string(), byte_range: None },
        ActionKind::LoadSegment {
            uri: "http://h/live/s11.m4s".to_string(),
            byte_range: None,
            discontinuity: false,
        },
    ];
    assert!(is_inflight(&busy, "http://h/live/s11.m4s"));
    assert!(!is_inflight(&busy, "http://h/live/s12.m4s"));
    let (k, s, p) = next_download(&media, 1, 0, &busy);
    match k {
        Some(ActionKind::LoadSegment { uri, .. }) => assert_eq!(uri, "http://h/live/s12.m4s"),
        other => panic!("unexpected {:?}", other),
    }
    assert_eq!((s, p), (3, 0));
    // Nothing left.
    let (k, s, p) = next_download(&media, 3, 0, &none);
    assert!(k.is_none());
    assert_eq!((s, p), (3, 0));
}

use cheetah_containers::hls::client::HlsAction;
use cheetah_containers::hls::session::{ClientCore, PlaylistOutcome};

/// The URI the first loading action fetches, if any.
fn first_load(actions: &[HlsAction]) -> Option<String> {
    actions.iter().find_map(|a| action_uri(&a.kind).map(|u| u.to_string()))
}

/// The core after loading the master playlist and choosing its variant.
fn core_with_master() -> (ClientCore, Vec<HlsAction>) {
    let mut core = ClientCore::new("http://x/master.m3u8".to_string(), 3);
    let _ = core.start();
    let master = parse_master(MASTER, "http://x/master.m3u8").result.unwrap();
    let chosen = select_initial_variant(&master.variants, &VariantCapabilities::default())
        .map(|v| v.uri.clone());
    let actions = core.playlist_loaded("http://x/master.m3u8".to_string(), PlaylistOutcome::Master(chosen));
    (core, actions)
}

#[test]
fn client_start_loads_master() {
    let mut core = ClientCore::new("http://x/master.m3u8".to_string(), 3);
    let actions = core.start();
    assert_eq!(actions.len(), 1);
    match &actions[0].kind {
        ActionKind::LoadPlaylist { url, is_master, .. } => {
            assert_eq!(url, "http://x/master.m3u8");
            assert!(*is_master);
        }
        _ => panic!("expected LoadPlaylist"),
    }
}

#[test]
fn client_loads_media_then_segments() {
    let (mut core, actions) = core_with_master();
    let media_url = actions
        .iter()
        .find_map(|a| match &a.kind {
            ActionKind::LoadPlaylist { url, .. } => Some(url.clone()),
            _ => None,
        })
        .expect("expected media playlist load");
    let media = parse_media(MEDIA, &media_url).result.unwrap();
    let actions = core.playlist_loaded(media_url, PlaylistOutcome::Media(media));
    let uri = actions
        .iter()
        .find_map(|a| match &a.kind {
            ActionKind::LoadSegment { uri, .. } | ActionKind::LoadPart { uri, .. } => {
                Some(uri.clone())
            }
            _ => None,
        })
        .expect("expected LoadSegment or LoadPart");
    assert!(uri.contains("seg0.ts"));
}

#[test]
fn client_stops_cancels_requests() {
    let mut core = ClientCore::new("http://x/master.m3u8".to_string(), 3);
    let _ = core.start();
    core.stop();
    assert!(core.stopped());
    assert!(!core.reload_pending());
    assert!(core.start().is_empty());
}

#[test]
fn client_master_choice_cancels_the_master_epoch() {
    let (core, actions) = core_with_master();
    // The master load (epoch 1) was answered; a new epoch (2) starts and the
    // variant load is made in the one after.
    assert_eq!(actions.len(), 1);
    assert_eq!(actions[0].epoch, 3);
    assert_eq!(first_load(&actions).as_deref(), Some("http://x/playlist_2.m3u8"));
    assert_eq!(core.selected_variant(), Some("http://x/playlist_2.m3u8"));
    assert!(core.reload_pending());
}

#[test]
fn client_without_a_variant_stops_with_the_error() {
    let mut core = ClientCore::new("http://x/master.m3u8".to_string(), 3);
    let _ = core.start();
    let actions = core.playlist_loaded(
        "http://x/master.m3u8".to_string(),
        PlaylistOutcome::Master(Err(HlsError::Utf8Error)),
    );
    assert_eq!(actions.len(), 1);
    assert_eq!(actions[0].epoch, 0);
    assert!(matches!(actions[0].kind, ActionKind::ReportError { error: HlsError::Utf8Error }));
    assert!(core.stopped());
    // A stopped client does nothing more.
    assert!(core.resource_loaded("x", 1).is_empty());
}

#[test]
fn client_walks_segments_as_they_arrive() {
    let (mut core, actions) = core_with_master();
    let media_url = first_load(&actions).unwrap();
    let media = parse_media(MEDIA, &media_url).result.unwrap();
    let actions = core.playlist_loaded(media_url, PlaylistOutcome::Media(media));
    // A new media playlist starts an epoch: the playlist load is answered, nothing to cancel.
    let seg0 = actions.last().unwrap().clone();
    assert!(first_load(&[seg0.clone()]).unwrap().ends_with("seg0.ts"));
    let next = core.resource_loaded(&first_load(&[seg0.clone()]).unwrap(), seg0.epoch);
    assert_eq!(next.len(), 1);
    assert!(first_load(&next).unwrap().ends_with("seg1.ts"));
    assert_eq!(next[0].epoch, seg0.epoch + 1);
    // A download answered in a stale epoch changes nothing but asks for what is next.
    let again = core.resource_loaded("nothing", 999);
    assert!(again.is_empty() || first_load(&again).unwrap().ends_with("seg2.ts"));
}

#[test]
fn client_retries_until_the_count_is_used_up() {
    let mut core = ClientCore::new("http://x/master.m3u8".to_string(), 1);
    let start = core.start();
    let url = "http://x/master.m3u8".to_string();
    let retry = core.request_failed(url.clone(), true, start[0].epoch);
    assert_eq!(retry.len(), 1);
    assert_eq!(retry[0].epoch, start[0].epoch + 1);
    assert_eq!(first_load(&retry).as_deref(), Some("http://x/master.m3u8"));
    // A stale failure is ignored.
    assert!(core.request_failed(url.clone(), true, 77).is_empty());
    let stop = core.request_failed(url.clone(), true, retry[0].epoch);
    assert_eq!(stop.len(), 1);
    match &stop[0].kind {
        ActionKind::ReportError { error: HlsError::Unsupported { feature } } => {
            assert_eq!(feature, "retries exhausted for http://x/master.m3u8");
        }
        other => panic!("unexpected {:?}", other),
    }
    assert!(core.stopped());
}

#[test]
fn client_stops_on_a_non_retryable_failure() {
    let mut core = ClientCore::new("http://x/master.m3u8".to_string(), 3);
    let start = core.start();
    let stop = core.request_failed("http://x/master.m3u8".to_string(), false, start[0].epoch);
    match &stop[0].kind {
        ActionKind::ReportError { error: HlsError::Unsupported { feature } } => {
            assert_eq!(feature, "non-retryable request failed: http://x/master.m3u8");
        }
        other => panic!("unexpected {:?}", other),
    }
    assert!(core.stopped());
}
