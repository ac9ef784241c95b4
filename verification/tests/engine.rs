use video_transcriber_mcp::engine::{
    caption_transcription_result, classify_media_source, engine_label, file_stem,
    get_local_metadata, join_path, markdown_document, output_files,
    whisper_transcription_result, MediaSource,
};
use video_transcriber_mcp::preview::{make_preview, sanitize_filename};
use video_transcriber_mcp::text::word_count;
use video_transcriber_mcp::types::{
    OutputFiles, TranscriptionSource, VideoMetadata, WhisperModel,
};
use video_transcriber_mcp::youtube::YouTubeTranscriptResult;

#[test]
fn test_make_preview_short_text() {
    let text = "Hello world";
    assert_eq!(make_preview(text), "Hello world");
}

#[test]
fn test_make_preview_truncates_long_text() {
    let text = "a".repeat(600);
    let preview = make_preview(&text);
    assert!(preview.ends_with("..."));
    // 501 chars of 'a' + "..."
    assert!(preview.len() <= 504);
}

#[test]
fn test_make_preview_safe_on_multibyte() {
    // 'é' is 2 bytes in UTF-8
    let text = "é".repeat(300); // 600 bytes, 300 chars
    let preview = make_preview(&text);
    assert!(preview.ends_with("..."));
}

#[test]
fn test_sanitize_filename_replaces_special_chars() {
    assert_eq!(sanitize_filename("a/b\\c:d"), "a-b-c-d");
}

#[test]
fn test_sanitize_filename_truncates_long_names() {
    let long_name = "a".repeat(200);
    assert_eq!(sanitize_filename(&long_name).len(), 150);
}

#[test]
fn preview_keeps_exactly_500_bytes() {
    let text = "b".repeat(500);
    assert_eq!(make_preview(&text), text);
}

#[test]
fn preview_cuts_after_501_ascii_chars() {
    let text = "a".repeat(600);
    let expected = format!("{}...", "a".repeat(501));
    assert_eq!(make_preview(&text), expected);
}

#[test]
fn preview_of_two_byte_chars_ends_on_boundary() {
    // Characters start at offsets 0, 2, ..., 500: 251 of them are kept.
    let text = "é".repeat(300);
    let expected = format!("{}...", "é".repeat(251));
    assert_eq!(make_preview(&text), expected);
}

#[test]
fn preview_of_four_byte_chars() {
    // Offsets 0, 4, ..., 500: 126 characters, 504 bytes.
    let text = "😀".repeat(200);
    let preview = make_preview(&text);
    assert_eq!(preview, format!("{}...", "😀".repeat(126)));
    assert_eq!(preview.len(), 507);
}

#[test]
fn sanitize_replaces_every_forbidden_char() {
    assert_eq!(sanitize_filename("a*b?c\"d<e>f|g"), "a-b-c-d-e-f-g");
    assert_eq!(sanitize_filename("plain name"), "plain name");
}

#[test]
fn sanitize_is_idempotent() {
    let once = sanitize_filename("x/y:z");
    assert_eq!(sanitize_filename(&once), once);
}

#[test]
fn sanitize_counts_characters_not_bytes() {
    let long_name = "é".repeat(200);
    let s = sanitize_filename(&long_name);
    assert_eq!(s.chars().count(), 150);
}

#[test]
fn word_count_splits_on_unicode_white_space() {
    assert_eq!(word_count("  hello   world\tfoo\n"), 3);
    assert_eq!(word_count(""), 0);
    assert_eq!(word_count("a\u{3000}b\u{a0}c"), 3);
}

#[test]
fn classify_local_youtube_and_other() {
    assert!(matches!(classify_media_source("/tmp/video.mp4"), MediaSource::LocalFile));
    assert!(matches!(
        classify_media_source("youtu.be/dQw4w9WgXcQ"),
        MediaSource::LocalFile
    ));
    match classify_media_source("https://youtu.be/dQw4w9WgXcQ") {
        MediaSource::YouTube { video_id } => assert_eq!(video_id, "dQw4w9WgXcQ"),
        _ => panic!("expected a YouTube source"),
    }
    assert!(matches!(
        classify_media_source("https://vimeo.com/12345"),
        MediaSource::OtherUrl
    ));
}

#[test]
fn file_stem_cases() {
    assert_eq!(file_stem("/a/b/video.mp4").as_deref(), Some("video"));
    assert_eq!(file_stem("movie").as_deref(), Some("movie"));
    assert_eq!(file_stem(".hidden").as_deref(), Some(".hidden"));
    assert_eq!(file_stem("a.tar.gz").as_deref(), Some("a.tar"));
    assert_eq!(file_stem("foo.").as_deref(), Some("foo"));
    assert_eq!(file_stem("dir/").as_deref(), Some("dir"));
    assert_eq!(file_stem("dir/clip.mov/.").as_deref(), Some("clip"));
    assert_eq!(file_stem("/"), None);
    assert_eq!(file_stem("x/.."), None);
    assert_eq!(file_stem("."), None);
    assert_eq!(file_stem(""), None);
}

#[test]
fn local_metadata_from_path() {
    let md = get_local_metadata("/videos/talk.mp4");
    assert_eq!(md.video_id, "talk");
    assert_eq!(md.title, "talk");
    assert_eq!(md.channel, "Local File");
    assert_eq!(md.platform, "Local File");
    assert_eq!(md.duration, 0);
    assert_eq!(md.upload_date, "");
    assert_eq!(md.url, "/videos/talk.mp4");
    assert_eq!(get_local_metadata("/").title, "unknown");
}

#[test]
fn join_path_cases() {
    assert_eq!(join_path("out", "a.txt"), "out/a.txt");
    assert_eq!(join_path("out/", "a.txt"), "out/a.txt");
    assert_eq!(join_path("", "a.txt"), "a.txt");
    assert_eq!(join_path("out", "/abs"), "/abs");
}

fn sample_metadata() -> VideoMetadata {
    VideoMetadata {
        video_id: "abc".to_string(),
        title: "My: Talk".to_string(),
        channel: "Chan".to_string(),
        duration: 212,
        upload_date: "2024-05-01".to_string(),
        platform: "YouTube".to_string(),
        url: "https://www.youtube.com/watch?v=abc".to_string(),
    }
}

#[test]
fn output_files_share_a_sanitised_stem() {
    let files = output_files("out", &sample_metadata());
    assert_eq!(files.txt, "out/abc-My- Talk.txt");
    assert_eq!(files.json, "out/abc-My- Talk.json");
    assert_eq!(files.md, "out/abc-My- Talk.md");
}

#[test]
fn engine_labels() {
    assert_eq!(
        engine_label(TranscriptionSource::YouTubeCaptions, None),
        "YouTube Captions (direct fetch)"
    );
    assert_eq!(
        engine_label(TranscriptionSource::WhisperTranscription, Some(WhisperModel::Base)),
        "whisper.cpp (Rust) - Model: base"
    );
    assert_eq!(
        engine_label(TranscriptionSource::WhisperTranscription, None),
        "whisper.cpp (Rust) - Model: unknown"
    );
}

#[test]
fn markdown_document_layout() {
    let md = markdown_document(
        &sample_metadata(),
        "Hello there",
        Some(WhisperModel::Small),
        TranscriptionSource::WhisperTranscription,
    );
    let expected = "# My: Talk\n\n**Video:** https://www.youtube.com/watch?v=abc\n**Platform:** YouTube\n**Channel:** Chan\n**Video ID:** abc\n**Duration:** 212s\n**Published:** 2024-05-01\n\n---\n\n## Transcript\n\nHello there\n\n---\n\n*Transcribed using whisper.cpp (Rust) - Model: small*\n";
    assert_eq!(md, expected);
}

fn sample_files() -> OutputFiles {
    OutputFiles { txt: "t".to_string(), json: "j".to_string(), md: "m".to_string() }
}

#[test]
fn caption_result_has_no_model() {
    let yt = YouTubeTranscriptResult {
        transcript: "one two three".to_string(),
        metadata: sample_metadata(),
        language: "en".to_string(),
        is_auto_generated: false,
    };
    let r = caption_transcription_result(yt, sample_files());
    assert!(r.success);
    assert_eq!(r.word_count, 3);
    assert_eq!(r.transcript_preview, "one two three");
    assert!(r.model_used.is_none());
    assert_eq!(r.source, TranscriptionSource::YouTubeCaptions);
}

#[test]
fn whisper_result_records_model() {
    let r = whisper_transcription_result(
        sample_metadata(),
        "a b".to_string(),
        sample_files(),
        WhisperModel::Medium,
    );
    assert_eq!(r.word_count, 2);
    assert_eq!(r.model_used, Some(WhisperModel::Medium));
    assert_eq!(r.source, TranscriptionSource::WhisperTranscription);
}
