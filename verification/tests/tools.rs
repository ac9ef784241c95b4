use video_transcriber_mcp::tools::{is_blank_line, RpcFailure};
use video_transcriber_mcp::tools::{
    dependency_check_failed_text, dependency_check_text, read_failed_text,
    transcription_failed_text,
};
use video_transcriber_mcp::tools::{
    model_choices, parameter_description, tool_description, tool_parameters, ParamKind,
};
use video_transcriber_mcp::media::{audio_file_name, extract_audio_args, pcm_args};
use video_transcriber_mcp::text::{parse_u32, parse_u64, trim, chars_of};
use video_transcriber_mcp::tools::{
    dependency_status, is_legacy_tool, is_resource_file, legacy_transcription_report,
    method_from_name, mime_type, prefixed, resource_uri, strip_file_scheme, tool_from_name,
    tool_name, transcription_options, transcription_report, ArgumentError, McpMethod, Tool,
};
use video_transcriber_mcp::types::{
    OutputFiles, TranscriptionResult, TranscriptionSource, VideoMetadata, WhisperModel,
};
use video_transcriber_mcp::whisper::{join_segments, language_setting, WhisperTranscriber};

#[test]
fn tool_names_round_trip() {
    for t in [
        Tool::TranscribeVideo,
        Tool::CheckDependencies,
        Tool::ListSupportedSites,
        Tool::ListTranscripts,
        Tool::GetLatestTranscript,
        Tool::DeleteTranscript,
        Tool::CleanupOldTranscripts,
        Tool::DeleteAllTranscripts,
    ] {
        assert_eq!(tool_from_name(tool_name(t)), Some(t));
    }
    assert_eq!(tool_from_name("nope"), None);
    assert!(is_legacy_tool(Tool::ListTranscripts));
    assert!(!is_legacy_tool(Tool::DeleteTranscript));
}

#[test]
fn transcription_options_defaults() {
    let o = transcription_options(Some("u"), None, "/d", Some("LARGE"), None).unwrap();
    assert_eq!(o.url, "u");
    assert_eq!(o.output_dir, "/d");
    assert_eq!(o.model, WhisperModel::Large);
    assert_eq!(o.language, None);
    let o2 = transcription_options(Some("u"), Some("/x"), "/d", Some("bogus"), Some("fr")).unwrap();
    assert_eq!(o2.output_dir, "/x");
    assert_eq!(o2.model, WhisperModel::Base);
    assert_eq!(o2.language.as_deref(), Some("fr"));
    assert_eq!(
        transcription_options(None, None, "/d", None, None).unwrap_err(),
        ArgumentError::MissingUrl
    );
    assert_eq!(ArgumentError::MissingUrl.message(), "Missing 'url' parameter");
}

fn sample_result(model: Option<WhisperModel>, source: TranscriptionSource) -> TranscriptionResult {
    TranscriptionResult {
        success: true,
        files: OutputFiles { txt: "a.txt".to_string(), json: "a.json".to_string(), md: "a.md".to_string() },
        metadata: VideoMetadata {
            video_id: "id".to_string(),
            title: "T".to_string(),
            channel: "C".to_string(),
            duration: 5,
            upload_date: String::new(),
            platform: "P".to_string(),
            url: "u".to_string(),
        },
        transcript: "x y".to_string(),
        transcript_preview: "x y".to_string(),
        word_count: 2,
        model_used: model,
        source,
    }
}

#[test]
fn transcription_reports() {
    let r = sample_result(Some(WhisperModel::Base), TranscriptionSource::WhisperTranscription);
    let expected = "✅ Video transcribed successfully!\n\n**Video Details:**\n- Title: T\n- Platform: P\n- Duration: 5s\n\n**Transcription Settings:**\n- Source: whisper.cpp (Rust)\n- Model: Some(Base)\n\n**Output Files:**\n- Text: a.txt\n- JSON: a.json\n- Markdown: a.md\n\n**Transcript Preview:**\nx y\n\n**Full transcript has 2 words.**";
    assert_eq!(transcription_report(&r), expected);
    let c = sample_result(None, TranscriptionSource::YouTubeCaptions);
    assert!(transcription_report(&c).contains("- Source: YouTube Captions (direct fetch)\n- Model: None\n"));
    assert!(legacy_transcription_report(&c).contains("- Model: N/A (captions)\n"));
    assert!(legacy_transcription_report(&r).contains("- Model: Base\n"));
}

#[test]
fn dependency_and_prefix_texts() {
    assert_eq!(
        dependency_status(true, false, "M"),
        "✅ yt-dlp: installed\n❌ ffmpeg: NOT installed\nM"
    );
    assert_eq!(prefixed("Unknown tool: ", "x"), "Unknown tool: x");
}

#[test]
fn methods_and_resources() {
    assert_eq!(method_from_name("tools/call"), Some(McpMethod::ToolsCall));
    assert_eq!(method_from_name("initialize"), Some(McpMethod::Initialize));
    assert_eq!(method_from_name("other"), None);
    assert!(is_resource_file("a.json"));
    assert!(!is_resource_file("a.mp3"));
    assert_eq!(mime_type("a.json"), "application/json");
    assert_eq!(mime_type("a.md"), "text/markdown");
    assert_eq!(mime_type("a.txt"), "text/plain");
    assert_eq!(strip_file_scheme("file:///x/y.txt"), "/x/y.txt");
    assert_eq!(strip_file_scheme("/x"), "/x");
    assert_eq!(resource_uri("/x"), "file:///x");
}

#[test]
fn unsigned_parsing() {
    assert_eq!(parse_u64("212"), Some(212));
    assert_eq!(parse_u64("+5"), Some(5));
    assert_eq!(parse_u64("007"), Some(7));
    assert_eq!(parse_u64(""), None);
    assert_eq!(parse_u64("+"), None);
    assert_eq!(parse_u64("-1"), None);
    assert_eq!(parse_u64("1a"), None);
    assert_eq!(parse_u64("18446744073709551615"), Some(u64::MAX));
    assert_eq!(parse_u64("18446744073709551616"), None);
    assert_eq!(parse_u32("4294967295"), Some(u32::MAX));
    assert_eq!(parse_u32("4294967296"), None);
}

#[test]
fn trimming() {
    assert_eq!(trim(&chars_of("  a b \n")), chars_of("a b"));
    assert_eq!(trim(&chars_of("   ")), Vec::<char>::new());
    let once = trim(&chars_of("\u{3000} x y\t"));
    assert_eq!(trim(&once), once);
    let joined = join_segments(&vec![" a ".to_string(), "b\n".to_string()]);
    assert_eq!(joined.trim(), joined);
}

#[test]
fn whisper_model_names() {
    assert_eq!(WhisperModel::parse("BASE"), Some(WhisperModel::Base));
    assert_eq!(WhisperModel::parse("Tiny"), Some(WhisperModel::Tiny));
    assert_eq!(WhisperModel::parse("huge"), None);
    assert_eq!("medium".parse::<WhisperModel>().unwrap(), WhisperModel::Medium);
    assert!("xl".parse::<WhisperModel>().is_err());
    assert_eq!("LARGE".parse::<WhisperModel>().unwrap(), WhisperModel::Large);
    assert_eq!("xl".parse::<WhisperModel>().unwrap_err().message(), "Invalid whisper model: xl");
    assert_eq!(
        "Tiny!".parse::<WhisperModel>().unwrap_err().message(),
        "Invalid whisper model: Tiny!"
    );
    assert_eq!(WhisperModel::Large.as_str(), "large");
    assert_eq!(WhisperModel::Medium.model_filename(), "ggml-medium.bin");
    assert_eq!(TranscriptionSource::YouTubeCaptions.label(), "YouTube Captions (direct fetch)");
}

#[test]
fn whisper_paths_and_messages() {
    let w = WhisperTranscriber::with_models_dir("/models".to_string());
    assert_eq!(w.model_path(WhisperModel::Base), "/models/ggml-base.bin");
    assert_eq!(w.get_model_path(WhisperModel::Base, true).unwrap(), "/models/ggml-base.bin");
    assert_eq!(
        w.get_model_path(WhisperModel::Base, false).unwrap_err(),
        "Whisper model not found: /models/ggml-base.bin\n\nPlease download it using:\nbash scripts/download-models.sh base\n\nOr download manually from:\nhttps://huggingface.co/ggerganov/whisper.cpp/resolve/main/ggml-base.bin"
    );
}

#[test]
fn whisper_language_and_segments() {
    assert_eq!(language_setting(Some("auto")), None);
    assert_eq!(language_setting(Some("en")), Some("en"));
    assert_eq!(language_setting(None), None);
    assert_eq!(
        join_segments(&vec![" Hello".to_string(), " world ".to_string()]),
        "Hello  world"
    );
    assert_eq!(join_segments(&vec![]), "");
}

#[test]
fn models_status_report() {
    let w = WhisperTranscriber::with_models_dir("/m".to_string());
    let sizes = vec![None, Some("147.9 MB".to_string()), None, None, None];
    assert_eq!(
        w.check_models_status(&sizes),
        "📦 Whisper Models:\n  ❌ Tiny: not installed\n  ✅ Base: /m/ggml-base.bin (147.9 MB)\n  ❌ Small: not installed\n  ❌ Medium: not installed\n  ❌ Large: not installed\n"
    );
}

#[test]
fn media_commands() {
    assert_eq!(audio_file_name(1234567890123456789012345u128), "audio_1234567890123456789012345.mp3");
    assert_eq!(audio_file_name(0), "audio_0.mp3");
    assert_eq!(
        extract_audio_args("in.mp4", "/t/a.mp3"),
        vec!["-i", "in.mp4", "-vn", "-acodec", "libmp3lame", "-q:a", "2", "-y", "/t/a.mp3"]
    );
    assert_eq!(
        pcm_args("a.mp3"),
        vec!["-i", "a.mp3", "-ar", "16000", "-ac", "1", "-f", "f32le", "-"]
    );
}

#[test]
fn supported_sites_lists_platforms() {
    let t = video_transcriber_mcp::tools::supported_sites_text();
    assert!(t.starts_with("📺 Supported Video Platforms (1000+ total)\n\n**Popular platforms include:**\n- YouTube\n"));
    assert!(t.ends_with("You can transcribe videos from any of these platforms!"));
}

#[test]
fn tool_parameter_lists() {
    let p = tool_parameters(Tool::ListTranscripts, false);
    assert_eq!(p, vec![("output_dir", ParamKind::Text, false), ("limit", ParamKind::Number, false)]);
    assert_eq!(tool_parameters(Tool::ListTranscripts, true).len(), 1);
    assert_eq!(
        tool_parameters(Tool::DeleteAllTranscripts, false),
        vec![("output_dir", ParamKind::Text, false), ("confirm", ParamKind::Flag, true)]
    );
    assert!(tool_parameters(Tool::CheckDependencies, false).is_empty());
    assert_eq!(model_choices(), vec!["tiny", "base", "small", "medium", "large"]);
    assert_eq!(
        parameter_description("output_dir", "/home/u/Downloads/video-transcripts"),
        "Optional output directory path. Defaults to /home/u/Downloads/video-transcripts"
    );
    assert_eq!(parameter_description("bogus", "/d"), "");
    assert_eq!(
        tool_description(Tool::ListTranscripts, true),
        "List all available transcripts in the output directory"
    );
    assert!(tool_description(Tool::ListTranscripts, false).ends_with("(newest first)"));
}

#[test]
fn model_names_round_trip() {
    for m in [
        WhisperModel::Tiny,
        WhisperModel::Base,
        WhisperModel::Small,
        WhisperModel::Medium,
        WhisperModel::Large,
    ] {
        assert_eq!(WhisperModel::parse(m.as_str()), Some(m));
        assert_eq!(WhisperModel::parse(&m.as_str().to_uppercase()), Some(m));
        assert_eq!(m.as_str().parse::<WhisperModel>().unwrap(), m);
        assert_eq!(m.as_str().to_uppercase().parse::<WhisperModel>().unwrap(), m);
    }
}

#[test]
fn audio_names_differ_between_runs() {
    assert_ne!(audio_file_name(1), audio_file_name(10));
    assert_ne!(audio_file_name(12), audio_file_name(21));
}

#[test]
fn line_server_failures() {
    assert_eq!(RpcFailure::Internal.code(), -32603);
    assert_eq!(RpcFailure::MethodNotFound.code(), -32601);
    assert_eq!(RpcFailure::UnknownTool.code(), -32602);
    assert_eq!(RpcFailure::Internal.message("bad json"), "Internal error: bad json");
    assert_eq!(RpcFailure::MethodNotFound.message("ping"), "Method not found: ping");
    assert_eq!(RpcFailure::UnknownTool.message("x"), "Unknown tool: x");
    assert!(is_blank_line(""));
    assert!(is_blank_line(" \t\u{3000}"));
    assert!(!is_blank_line("  {}"));
}

#[test]
fn tool_failure_texts() {
    assert_eq!(transcription_failed_text("no audio"), "Transcription failed: no audio");
    assert_eq!(dependency_check_text("ok"), "✅ Dependency Check:\n\nok");
    assert_eq!(dependency_check_failed_text("boom"), "Dependency check failed: boom");
    assert_eq!(read_failed_text("gone"), "Failed to read file: gone");
}
