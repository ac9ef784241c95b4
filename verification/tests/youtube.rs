use video_transcriber_mcp::youtube::{
    decode_html_entities, decode_numeric_reference, extract_player_response,
    extract_youtube_video_id, finish_caption_fetch, parse_caption_xml, plan_caption_fetch,
    read_player_response, select_caption_track, watch_url, CaptionError, CaptionTrack,
    PlayerResponse,
};

#[test]
fn video_id_from_watch_url() {
    assert_eq!(
        extract_youtube_video_id("https://www.youtube.com/watch?v=dQw4w9WgXcQ").as_deref(),
        Some("dQw4w9WgXcQ")
    );
}

#[test]
fn video_id_from_other_url_shapes() {
    for url in [
        "https://youtu.be/dQw4w9WgXcQ?t=10",
        "https://www.youtube.com/embed/dQw4w9WgXcQ",
        "https://www.youtube.com/v/dQw4w9WgXcQ",
        "https://www.youtube.com/shorts/dQw4w9WgXcQ",
        "https://www.youtube.com/watch?feature=share&v=dQw4w9WgXcQ",
    ] {
        assert_eq!(extract_youtube_video_id(url).as_deref(), Some("dQw4w9WgXcQ"), "{}", url);
    }
}

#[test]
fn video_id_absent_for_other_sites_and_short_ids() {
    assert_eq!(extract_youtube_video_id("https://vimeo.com/123456"), None);
    assert_eq!(extract_youtube_video_id("https://youtu.be/abc"), None);
    assert_eq!(extract_youtube_video_id(""), None);
}

#[test]
fn video_id_needs_a_youtube_host() {
    for url in [
        "https://notyoutube.com/watch?v=dQw4w9WgXcQ",
        "https://fakeyoutu.be/dQw4w9WgXcQ",
        "https://my-youtube.com/embed/dQw4w9WgXcQ",
    ] {
        assert_eq!(extract_youtube_video_id(url), None, "{}", url);
    }
    for url in [
        "youtube.com/watch?v=dQw4w9WgXcQ",
        "http://m.youtube.com/watch?v=dQw4w9WgXcQ",
        "https://music.youtube.com/watch?v=dQw4w9WgXcQ&list=x",
        "youtu.be/dQw4w9WgXcQ",
        "HTTPS://www.youtube.com/watch?v=dQw4w9WgXcQ",
        "  https://youtu.be/dQw4w9WgXcQ",
        "https://user@youtube.com/shorts/dQw4w9WgXcQ",
        "Watch this: https://youtu.be/dQw4w9WgXcQ",
    ] {
        assert_eq!(extract_youtube_video_id(url).as_deref(), Some("dQw4w9WgXcQ"), "{}", url);
    }
}

#[test]
fn numeric_reference_replacement() {
    assert_eq!(decode_numeric_reference("65", "&#65;"), "A");
    assert_eq!(decode_numeric_reference("55296", "&#55296;"), "&#55296;");
    assert_eq!(decode_numeric_reference("99999999999", "&#99999999999;"), "&#99999999999;");
}

#[test]
fn decode_named_and_numeric_entities() {
    assert_eq!(decode_html_entities("Tom &amp; Jerry"), "Tom & Jerry");
    assert_eq!(decode_html_entities("&lt;b&gt; &quot;x&quot; &#39;y&apos;"), "<b> \"x\" 'y'");
    assert_eq!(decode_html_entities("a&nbsp;b\nc"), "a b c");
    assert_eq!(decode_html_entities("&#72;&#105;"), "Hi");
    assert_eq!(decode_html_entities("&#55296;"), "&#55296;");
    // `&amp;` is decoded first, so an escaped entity is decoded twice.
    assert_eq!(decode_html_entities("&amp;lt;"), "<");
    assert_eq!(decode_html_entities("plain text"), "plain text");
    // References are taken left to right; a `&` that opens none stays.
    assert_eq!(decode_html_entities("&&#65;#66;&#;&#x41;"), "&A#66;&#;&#x41;");
    assert_eq!(decode_html_entities("&#0065;&#1114111;&#1114112;"), "A\u{10FFFF}&#1114112;");
    // Non-ASCII digits do not parse, so their reference stays as it is.
    assert_eq!(decode_html_entities("&#\u{0661}\u{0662};&#49;"), "&#\u{0661}\u{0662};1");
}

#[test]
fn caption_xml_to_transcript() {
    let xml = "<?xml version=\"1.0\"?><transcript><text start=\"0\" dur=\"1\">Hello &amp; welcome</text><text start=\"1\" dur=\"1\">   </text><text start=\"2\" dur=\"1\">to the\nshow</text></transcript>";
    assert_eq!(parse_caption_xml(xml), "Hello & welcome to the show");
    assert_eq!(parse_caption_xml("<transcript></transcript>"), "");
    assert_eq!(parse_caption_xml("<text a=\"1\">unterminated"), "");
}

#[test]
fn player_response_is_brace_matched() {
    let html = "<script>var ytInitialPlayerResponse = {\"a\": \"}{\", \"b\": {\"c\": 1}};var x = {};</script>";
    assert_eq!(
        extract_player_response(html).as_deref(),
        Some("{\"a\": \"}{\", \"b\": {\"c\": 1}}")
    );
    let escaped = "ytInitialPlayerResponse={\"q\": \"\\\"}\"} tail";
    assert_eq!(extract_player_response(escaped).as_deref(), Some("{\"q\": \"\\\"}\"}"));
}

#[test]
fn player_response_missing() {
    assert_eq!(extract_player_response("<html></html>"), None);
    assert_eq!(extract_player_response("ytInitialPlayerResponse = null"), None);
    assert_eq!(extract_player_response("ytInitialPlayerResponse = {\"a\": {}"), None);
}

fn track(url: Option<&str>, lang: Option<&str>, kind: Option<&str>) -> CaptionTrack {
    CaptionTrack {
        base_url: url.map(|s| s.to_string()),
        language_code: lang.map(|s| s.to_string()),
        kind: kind.map(|s| s.to_string()),
    }
}

#[test]
fn caption_track_priority() {
    let tracks = vec![
        track(Some("a"), Some("en"), Some("asr")),
        track(Some("b"), Some("fr"), None),
        track(Some("c"), Some("en"), None),
        track(None, Some("en"), None),
    ];
    assert_eq!(
        select_caption_track(&tracks, "en"),
        Some(("c".to_string(), "en".to_string(), false))
    );
    assert_eq!(
        select_caption_track(&tracks, "de"),
        Some(("b".to_string(), "fr".to_string(), false))
    );
    let asr_only = vec![track(Some("a"), Some("en"), Some("asr"))];
    assert_eq!(
        select_caption_track(&asr_only, "de"),
        Some(("a".to_string(), "en".to_string(), true))
    );
    assert_eq!(
        select_caption_track(&asr_only, "en"),
        Some(("a".to_string(), "en".to_string(), true))
    );
    let unusable = vec![track(None, Some("en"), None)];
    assert_eq!(select_caption_track(&unusable, "en"), None);
}

#[test]
fn caption_track_last_match_wins() {
    let tracks = vec![
        track(Some("first"), Some("en"), None),
        track(Some("second"), Some("en"), None),
    ];
    assert_eq!(
        select_caption_track(&tracks, "en"),
        Some(("second".to_string(), "en".to_string(), false))
    );
}

fn response(tracks: Option<Vec<CaptionTrack>>) -> PlayerResponse {
    PlayerResponse {
        title: Some("Never".to_string()),
        author: None,
        length_seconds: Some("212".to_string()),
        publish_date: Some("2009-10-25".to_string()),
        caption_tracks: tracks,
    }
}

#[test]
fn plan_caption_fetch_reads_metadata() {
    let r = plan_caption_fetch(
        "dQw4w9WgXcQ",
        None,
        response(Some(vec![track(Some("u"), Some("en"), None)])),
    )
    .unwrap();
    assert_eq!(r.track_url, "u");
    assert_eq!(r.language, "en");
    assert!(!r.is_auto_generated);
    assert_eq!(r.metadata.video_id, "dQw4w9WgXcQ");
    assert_eq!(r.metadata.title, "Never");
    assert_eq!(r.metadata.channel, "Unknown");
    assert_eq!(r.metadata.duration, 212);
    assert_eq!(r.metadata.upload_date, "2009-10-25");
    assert_eq!(r.metadata.platform, "YouTube");
    assert_eq!(r.metadata.url, "https://www.youtube.com/watch?v=dQw4w9WgXcQ");
}

#[test]
fn plan_caption_fetch_errors() {
    assert_eq!(
        plan_caption_fetch("x", None, response(None)).unwrap_err(),
        CaptionError::NoCaptionTracks
    );
    assert_eq!(
        plan_caption_fetch("x", None, response(Some(vec![]))).unwrap_err(),
        CaptionError::NoCaptionTracks
    );
    assert_eq!(
        plan_caption_fetch("x", Some("en"), response(Some(vec![track(None, None, None)])))
            .unwrap_err(),
        CaptionError::NoSuitableTrack
    );
    assert_eq!(
        CaptionError::NoSuitableTrack.message(),
        "No suitable caption track found"
    );
}

#[test]
fn duration_parsing_defaults_to_zero() {
    let mut resp = response(Some(vec![track(Some("u"), None, None)]));
    resp.length_seconds = Some("abc".to_string());
    let r = plan_caption_fetch("x", None, resp).unwrap();
    assert_eq!(r.metadata.duration, 0);
    assert_eq!(r.language, "");
}

#[test]
fn finish_caption_fetch_outcomes() {
    let req = plan_caption_fetch("x", None, response(Some(vec![track(Some("u"), Some("en"), Some("asr"))])))
        .unwrap();
    let ok = finish_caption_fetch(req, "<text start=\"0\">Hi there</text>").unwrap();
    assert_eq!(ok.transcript, "Hi there");
    assert!(ok.is_auto_generated);
    let req2 = plan_caption_fetch("x", None, response(Some(vec![track(Some("u"), None, None)])))
        .unwrap();
    assert_eq!(
        finish_caption_fetch(req2, "<transcript/>").unwrap_err(),
        CaptionError::EmptyTranscript
    );
}

#[test]
fn watch_url_of_id() {
    assert_eq!(watch_url("abc"), "https://www.youtube.com/watch?v=abc");
}

#[test]
fn player_response_read_from_page() {
    let page = r#"<script>var ytInitialPlayerResponse = {"videoDetails":{"title":"A \"quoted\" {title}","author":"Chan","lengthSeconds":"42"},"microformat":{"playerMicroformatRenderer":{"publishDate":"2024-01-02"}},"captions":{"playerCaptionsTracklistRenderer":{"captionTracks":[{"baseUrl":"https://c/1","languageCode":"en","kind":"asr"},{"baseUrl":"https://c/2","languageCode":"de"},{"languageCode":7}]}}};</script>"#;
    let p = read_player_response(page).unwrap();
    assert_eq!(p.title.as_deref(), Some("A \"quoted\" {title}"));
    assert_eq!(p.author.as_deref(), Some("Chan"));
    assert_eq!(p.length_seconds.as_deref(), Some("42"));
    assert_eq!(p.publish_date.as_deref(), Some("2024-01-02"));
    let tracks = p.caption_tracks.unwrap();
    assert_eq!(tracks.len(), 3);
    assert_eq!(tracks[0].base_url.as_deref(), Some("https://c/1"));
    assert_eq!(tracks[0].kind.as_deref(), Some("asr"));
    assert_eq!(tracks[1].language_code.as_deref(), Some("de"));
    assert_eq!(tracks[1].kind, None);
    assert_eq!(tracks[2].base_url, None);
    assert_eq!(tracks[2].language_code, None);
}

#[test]
fn player_response_fields_of_the_wrong_type_are_absent() {
    let page = r#"ytInitialPlayerResponse = {"videoDetails":{"title":5,"lengthSeconds":42},"captions":{"playerCaptionsTracklistRenderer":{"captionTracks":{}}}};"#;
    let p = read_player_response(page).unwrap();
    assert_eq!(p.title, None);
    assert_eq!(p.author, None);
    assert_eq!(p.length_seconds, None);
    assert_eq!(p.publish_date, None);
    assert!(p.caption_tracks.is_none());
}

#[test]
fn player_response_missing_or_not_json() {
    assert_eq!(read_player_response("<html>no data</html>").err(), Some(CaptionError::NoPlayerResponse));
    assert_eq!(read_player_response("ytInitialPlayerResponse = 1;").err(), Some(CaptionError::NoPlayerResponse));
    assert_eq!(read_player_response("ytInitialPlayerResponse = {\"a\": 1").err(), Some(CaptionError::NoPlayerResponse));
    assert_eq!(read_player_response("ytInitialPlayerResponse = {not json};").err(), Some(CaptionError::NoPlayerResponse));
}
