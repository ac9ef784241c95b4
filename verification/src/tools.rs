//! The tool server's decisions: which tool or method a request names, how
//! tool arguments become transcription options, and what each reply says.

use vstd::prelude::*;
use crate::text::{chars_of, decimal, decimal_chars, ends_with, ends_with_chars, matches_at,
    push_all, push_str, slice_chars, starts_with, string_from_chars};
use crate::types::{
    chars_equal, model_from_name, model_name, source_label_spec, TranscriptionOptions, TranscriptionResult,
    WhisperModel,
};
use crate::whisper::model_debug_name;

verus! {

/// The tools the server offers.
#[derive(Clone, Copy, Debug, PartialEq, Eq, Structural)]
pub enum Tool {
    TranscribeVideo,
    CheckDependencies,
    ListSupportedSites,
    ListTranscripts,
    GetLatestTranscript,
    DeleteTranscript,
    CleanupOldTranscripts,
    DeleteAllTranscripts,
}

/// The name under which a tool is called.
pub open spec fn tool_name_spec(t: Tool) -> Seq<char> {
    match t {
        Tool::TranscribeVideo => "transcribe_video"@,
        Tool::CheckDependencies => "check_dependencies"@,
        Tool::ListSupportedSites => "list_supported_sites"@,
        Tool::ListTranscripts => "list_transcripts"@,
        Tool::GetLatestTranscript => "get_latest_transcript"@,
        Tool::DeleteTranscript => "delete_transcript"@,
        Tool::CleanupOldTranscripts => "cleanup_old_transcripts"@,
        Tool::DeleteAllTranscripts => "delete_all_transcripts"@,
    }
}

/// The name under which a tool is called.
pub fn tool_name(t: Tool) -> (r: &'static str)
    ensures
        r@ == tool_name_spec(t),
{
    match t {
        Tool::TranscribeVideo => "transcribe_video",
        Tool::CheckDependencies => "check_dependencies",
        Tool::ListSupportedSites => "list_supported_sites",
        Tool::ListTranscripts => "list_transcripts",
        Tool::GetLatestTranscript => "get_latest_transcript",
        Tool::DeleteTranscript => "delete_transcript",
        Tool::CleanupOldTranscripts => "cleanup_old_transcripts",
        Tool::DeleteAllTranscripts => "delete_all_transcripts",
    }
}

/// The tools in the order `tools/list` lists them.
pub open spec fn all_tools() -> Seq<Tool> {
    seq![
        Tool::TranscribeVideo,
        Tool::CheckDependencies,
        Tool::ListSupportedSites,
        Tool::ListTranscripts,
        Tool::GetLatestTranscript,
        Tool::DeleteTranscript,
        Tool::CleanupOldTranscripts,
        Tool::DeleteAllTranscripts,
    ]
}

/// The tools in the order `tools/list` lists them.
pub fn all_tools_list() -> (r: Vec<Tool>)
    ensures
        r@ == all_tools(),
{
    let r = vec![
        Tool::TranscribeVideo,
        Tool::CheckDependencies,
        Tool::ListSupportedSites,
        Tool::ListTranscripts,
        Tool::GetLatestTranscript,
        Tool::DeleteTranscript,
        Tool::CleanupOldTranscripts,
        Tool::DeleteAllTranscripts,
    ];
    assert(r@ =~= all_tools());
    r
}

/// The tool that a request names, if the server has it.
pub fn tool_from_name(name: &str) -> (r: Option<Tool>)
    ensures
        match r {
            Some(t) => tool_name_spec(t) == name@,
            None => forall|t: Tool| tool_name_spec(t) != name@,
        },
{
    let n = chars_of(name);
    let tools = all_tools_list();
    let mut i: usize = 0;
    while i < tools.len()
        invariant
            i <= tools.len(),
            n@ == name@,
            tools@ == all_tools(),
            forall|j: int| 0 <= j < i ==> tool_name_spec(#[trigger] all_tools()[j]) != name@,
        decreases tools.len() - i,
    {
        let t = tools[i];
        let tn = chars_of(tool_name(t));
        if chars_equal(&tn, &n) {
            return Some(t);
        }
        i = i + 1;
    }
    assert forall|t: Tool| tool_name_spec(t) != name@ by {
        let k: int = match t {
            Tool::TranscribeVideo => 0,
            Tool::CheckDependencies => 1,
            Tool::ListSupportedSites => 2,
            Tool::ListTranscripts => 3,
            Tool::GetLatestTranscript => 4,
            Tool::DeleteTranscript => 5,
            Tool::CleanupOldTranscripts => 6,
            Tool::DeleteAllTranscripts => 7,
        };
        assert(all_tools()[k] == t);
    }
    None
}

/// The tools that the line-based JSON-RPC server also offers: the first
/// four.
pub open spec fn is_legacy_tool_spec(t: Tool) -> bool {
    t == Tool::TranscribeVideo || t == Tool::CheckDependencies || t == Tool::ListSupportedSites
        || t == Tool::ListTranscripts
}

/// Whether the line-based JSON-RPC server offers the tool.
pub fn is_legacy_tool(t: Tool) -> (b: bool)
    ensures
        b == is_legacy_tool_spec(t),
{
    match t {
        Tool::TranscribeVideo | Tool::CheckDependencies | Tool::ListSupportedSites
        | Tool::ListTranscripts => true,
        _ => false,
    }
}

/// Why a request cannot be served as asked.
#[derive(Clone, Copy, Debug, PartialEq, Eq, Structural)]
pub enum ArgumentError {
    /// The tool call carries no arguments.
    MissingArguments,
    /// `transcribe_video` has no `url` string.
    MissingUrl,
    /// `delete_transcript` has no `video_id` string.
    MissingVideoId,
    /// `cleanup_old_transcripts` has no non-negative integer `days`.
    InvalidDays,
}

/// The text that reports an argument error.
pub open spec fn argument_error_message(e: ArgumentError) -> Seq<char> {
    match e {
        ArgumentError::MissingArguments => "Missing arguments"@,
        ArgumentError::MissingUrl => "Missing 'url' parameter"@,
        ArgumentError::MissingVideoId => "Missing 'video_id' parameter"@,
        ArgumentError::InvalidDays => "Missing or invalid 'days' parameter"@,
    }
}

impl ArgumentError {
    /// The text that reports this error.
    pub fn message(&self) -> (r: &'static str)
        ensures
            r@ == argument_error_message(*self),
    {
        match self {
            ArgumentError::MissingArguments => "Missing arguments",
            ArgumentError::MissingUrl => "Missing 'url' parameter",
            ArgumentError::MissingVideoId => "Missing 'video_id' parameter",
            ArgumentError::InvalidDays => "Missing or invalid 'days' parameter",
        }
    }
}

/// The model a request asks for: the one it names, or `base` when it names
/// none or an unknown one.
pub open spec fn requested_model_spec(model: Option<Seq<char>>) -> WhisperModel {
    match model {
        Some(m) => match model_from_name(m) {
            Some(x) => x,
            None => WhisperModel::Base,
        },
        None => WhisperModel::Base,
    }
}

/// A request that names no model gets the documented default, the same
/// model as one that names `base` and as one that names an unknown model;
/// a request that names a model, in any ASCII case, gets that model.
pub proof fn law_default_model_is_base(name: Seq<char>, m: WhisperModel)
    ensures
        requested_model_spec(None) == WhisperModel::Base,
        requested_model_spec(None) == requested_model_spec(Some(model_name(WhisperModel::Base))),
        model_from_name(name) is None ==> requested_model_spec(Some(name)) == requested_model_spec(
            None,
        ),
        requested_model_spec(Some(model_name(m))) == m,
{
    crate::types::law_model_name_round_trip(WhisperModel::Base);
    crate::types::law_model_name_round_trip(m);
}

/// An optional string argument as plain text.
pub open spec fn opt_view(o: Option<&str>) -> Option<Seq<char>> {
    match o {
        Some(s) => Some(s@),
        None => None,
    }
}

/// The options of a `transcribe_video` call, from its string arguments (each
/// present when given as a string). The output directory defaults to
/// `default_output_dir` and the model to `base`.
pub fn transcription_options(
    url: Option<&str>,
    output_dir: Option<&str>,
    default_output_dir: &str,
    model: Option<&str>,
    language: Option<&str>,
) -> (r: Result<TranscriptionOptions, ArgumentError>)
    ensures
        url is None ==> r == Err::<TranscriptionOptions, ArgumentError>(ArgumentError::MissingUrl),
        url matches Some(u) ==> (r matches Ok(o) && o.url@ == u@ && o.output_dir@ == (
        match output_dir {
            Some(d) => d@,
            None => default_output_dir@,
        }) && o.model == requested_model_spec(opt_view(model)) && (model is None ==> o.model
            == WhisperModel::Base) && (match o.language {
            Some(l) => language matches Some(x) && l@ == x@,
            None => language is None,
        })),
{
    let u = match url {
        Some(u) => u,
        None => return Err(ArgumentError::MissingUrl),
    };
    let dir = match output_dir {
        Some(d) => d.to_owned(),
        None => default_output_dir.to_owned(),
    };
    let m = match model {
        Some(name) => match WhisperModel::parse(name) {
            Some(x) => x,
            None => WhisperModel::Base,
        },
        None => WhisperModel::Base,
    };
    let lang = match language {
        Some(l) => Some(l.to_owned()),
        None => None,
    };
    Ok(TranscriptionOptions { url: u.to_owned(), output_dir: dir, model: m, language: lang })
}

/// The model line of a report as `{:?}` prints an optional model.
pub open spec fn debug_option_model(m: Option<WhisperModel>) -> Seq<char> {
    match m {
        Some(x) => "Some("@ + model_debug_name(x) + ")"@,
        None => "None"@,
    }
}

/// The model line of the older server's report: the model, or a note that
/// captions were used.
pub open spec fn legacy_model_text(m: Option<WhisperModel>) -> Seq<char> {
    match m {
        Some(x) => model_debug_name(x),
        None => "N/A (captions)"@,
    }
}

/// The report of a finished transcription, with `model_text` on the model
/// line.
pub open spec fn transcription_report_spec(r: TranscriptionResult, model_text: Seq<char>) -> Seq<
    char,
> {
    "✅ Video transcribed successfully!\n\n**Video Details:**\n- Title: "@ + r.metadata.title@
        + "\n- Platform: "@ + r.metadata.platform@ + "\n- Duration: "@ + decimal(
        r.metadata.duration as nat,
    ) + "s\n\n**Transcription Settings:**\n- Source: "@ + source_label_spec(r.source)
        + "\n- Model: "@ + model_text + "\n\n**Output Files:**\n- Text: "@ + r.files.txt@
        + "\n- JSON: "@ + r.files.json@ + "\n- Markdown: "@ + r.files.md@
        + "\n\n**Transcript Preview:**\n"@ + r.transcript_preview@
        + "\n\n**Full transcript has "@ + decimal(r.word_count as nat) + " words.**"@
}

fn report_with_model_text(r: &TranscriptionResult, model_text: &Vec<char>) -> (s: String)
    ensures
        s@ == transcription_report_spec(*r, model_text@),
{
    let mut v = chars_of("✅ Video transcribed successfully!\n\n**Video Details:**\n- Title: ");
    push_str(&mut v, r.metadata.title.as_str());
    push_str(&mut v, "\n- Platform: ");
    push_str(&mut v, r.metadata.platform.as_str());
    push_str(&mut v, "\n- Duration: ");
    push_all(&mut v, &decimal_chars(r.metadata.duration));
    push_str(&mut v, "s\n\n**Transcription Settings:**\n- Source: ");
    push_str(&mut v, r.source.label());
    push_str(&mut v, "\n- Model: ");
    push_all(&mut v, model_text);
    push_str(&mut v, "\n\n**Output Files:**\n- Text: ");
    push_str(&mut v, r.files.txt.as_str());
    push_str(&mut v, "\n- JSON: ");
    push_str(&mut v, r.files.json.as_str());
    push_str(&mut v, "\n- Markdown: ");
    push_str(&mut v, r.files.md.as_str());
    push_str(&mut v, "\n\n**Transcript Preview:**\n");
    push_str(&mut v, r.transcript_preview.as_str());
    push_str(&mut v, "\n\n**Full transcript has ");
    push_all(&mut v, &decimal_chars(r.word_count as u64));
    push_str(&mut v, " words.**");
    string_from_chars(&v)
}

/// The report of a finished transcription, its model line as `{:?}` prints
/// the optional model.
pub fn transcription_report(r: &TranscriptionResult) -> (s: String)
    ensures
        s@ == transcription_report_spec(*r, debug_option_model(r.model_used)),
{
    let model_text = match r.model_used {
        Some(m) => {
            let mut v = chars_of("Some(");
            push_str(&mut v, crate::whisper::model_debug_text(m));
            push_str(&mut v, ")");
            v
        },
        None => chars_of("None"),
    };
    report_with_model_text(r, &model_text)
}

/// The older server's report of a finished transcription.
pub fn legacy_transcription_report(r: &TranscriptionResult) -> (s: String)
    ensures
        s@ == transcription_report_spec(*r, legacy_model_text(r.model_used)),
{
    let model_text = match r.model_used {
        Some(m) => chars_of(crate::whisper::model_debug_text(m)),
        None => chars_of("N/A (captions)"),
    };
    report_with_model_text(r, &model_text)
}

/// `prefix` followed by `detail`.
pub fn prefixed(prefix: &str, detail: &str) -> (r: String)
    ensures
        r@ == prefix@ + detail@,
{
    let mut v = chars_of(prefix);
    push_str(&mut v, detail);
    string_from_chars(&v)
}

/// The error text of a transcription that failed with `detail`.
pub fn transcription_failed_text(detail: &str) -> (r: String)
    ensures
        r@ == "Transcription failed: "@ + detail@,
{
    prefixed("Transcription failed: ", detail)
}

/// The reply of `check_dependencies`: its heading, then `status`.
pub fn dependency_check_text(status: &str) -> (r: String)
    ensures
        r@ == "✅ Dependency Check:\n\n"@ + status@,
{
    prefixed("✅ Dependency Check:\n\n", status)
}

/// The error text of a dependency check that failed with `detail`.
pub fn dependency_check_failed_text(detail: &str) -> (r: String)
    ensures
        r@ == "Dependency check failed: "@ + detail@,
{
    prefixed("Dependency check failed: ", detail)
}

/// The error text of a resource file that could not be read.
pub fn read_failed_text(detail: &str) -> (r: String)
    ensures
        r@ == "Failed to read file: "@ + detail@,
{
    prefixed("Failed to read file: ", detail)
}

/// A failed JSON-RPC request of the line-based server.
#[derive(Clone, Copy, Debug, PartialEq, Eq, Structural)]
pub enum RpcFailure {
    /// The request could not be read or handled.
    Internal,
    /// The request names no known method.
    MethodNotFound,
    /// The tool call names no known tool.
    UnknownTool,
}

/// The JSON-RPC error code of a failure.
pub open spec fn rpc_code_spec(f: RpcFailure) -> int {
    match f {
        RpcFailure::Internal => -32603,
        RpcFailure::MethodNotFound => -32601,
        RpcFailure::UnknownTool => -32602,
    }
}

/// The words that open the error message of a failure.
pub open spec fn rpc_prefix_spec(f: RpcFailure) -> Seq<char> {
    match f {
        RpcFailure::Internal => "Internal error: "@,
        RpcFailure::MethodNotFound => "Method not found: "@,
        RpcFailure::UnknownTool => "Unknown tool: "@,
    }
}

impl RpcFailure {
    /// The JSON-RPC error code of the failure.
    pub fn code(&self) -> (r: i64)
        ensures
            r == rpc_code_spec(*self),
    {
        match self {
            RpcFailure::Internal => -32603,
            RpcFailure::MethodNotFound => -32601,
            RpcFailure::UnknownTool => -32602,
        }
    }

    /// The error message of the failure, `detail` after its opening words.
    pub fn message(&self, detail: &str) -> (r: String)
        ensures
            r@ == rpc_prefix_spec(*self) + detail@,
    {
        let prefix = match self {
            RpcFailure::Internal => "Internal error: ",
            RpcFailure::MethodNotFound => "Method not found: ",
            RpcFailure::UnknownTool => "Unknown tool: ",
        };
        prefixed(prefix, detail)
    }
}

/// A line of the line-based server that holds no request: empty or white
/// space only. Such lines are skipped.
pub fn is_blank_line(line: &str) -> (b: bool)
    ensures
        b == (crate::text::trim_spec(line@).len() == 0),
{
    let v = chars_of(line);
    let t = crate::text::trim(&v);
    t.len() == 0
}

/// The dependency report: yt-dlp, ffmpeg, then the models.
pub open spec fn dependency_status_spec(ytdlp: bool, ffmpeg: bool, models: Seq<char>) -> Seq<char> {
    (if ytdlp {
        "✅ yt-dlp: installed\n"@
    } else {
        "❌ yt-dlp: NOT installed\n"@
    }) + (if ffmpeg {
        "✅ ffmpeg: installed\n"@
    } else {
        "❌ ffmpeg: NOT installed\n"@
    }) + models
}

/// The dependency report, given whether yt-dlp and ffmpeg could be run and
/// the report of the models.
pub fn dependency_status(ytdlp: bool, ffmpeg: bool, models: &str) -> (r: String)
    ensures
        r@ == dependency_status_spec(ytdlp, ffmpeg, models@),
{
    let mut v = if ytdlp {
        chars_of("✅ yt-dlp: installed\n")
    } else {
        chars_of("❌ yt-dlp: NOT installed\n")
    };
    if ffmpeg {
        push_str(&mut v, "✅ ffmpeg: installed\n");
    } else {
        push_str(&mut v, "❌ ffmpeg: NOT installed\n");
    }
    push_str(&mut v, models);
    string_from_chars(&v)
}

/// The list of supported platforms.
pub open spec fn supported_sites_spec() -> Seq<char> {
    "📺 Supported Video Platforms (1000+ total)\n\n**Popular platforms include:**\n- YouTube\n- Vimeo\n- TikTok\n- Twitter/X\n- Facebook\n- Instagram\n- Twitch\n- Dailymotion\n- Reddit\n- LinkedIn\n- Many educational and conference platforms\n\n**Total: 1000+ supported extractors**\n\nYou can transcribe videos from any of these platforms!"@
}

/// The list of supported platforms.
pub fn supported_sites_text() -> (r: &'static str)
    ensures
        r@ == supported_sites_spec(),
{
    "📺 Supported Video Platforms (1000+ total)\n\n**Popular platforms include:**\n- YouTube\n- Vimeo\n- TikTok\n- Twitter/X\n- Facebook\n- Instagram\n- Twitch\n- Dailymotion\n- Reddit\n- LinkedIn\n- Many educational and conference platforms\n\n**Total: 1000+ supported extractors**\n\nYou can transcribe videos from any of these platforms!"
}

/// The methods of the line-based JSON-RPC server.
#[derive(Clone, Copy, Debug, PartialEq, Eq, Structural)]
pub enum McpMethod {
    Initialize,
    ToolsList,
    ToolsCall,
    ResourcesList,
    ResourcesRead,
}

/// The method a JSON-RPC method name calls, if any.
pub open spec fn method_from_name_spec(name: Seq<char>) -> Option<McpMethod> {
    if name == "initialize"@ {
        Some(McpMethod::Initialize)
    } else if name == "tools/list"@ {
        Some(McpMethod::ToolsList)
    } else if name == "tools/call"@ {
        Some(McpMethod::ToolsCall)
    } else if name == "resources/list"@ {
        Some(McpMethod::ResourcesList)
    } else if name == "resources/read"@ {
        Some(McpMethod::ResourcesRead)
    } else {
        None
    }
}

/// The method a JSON-RPC method name calls, if any.
pub fn method_from_name(name: &str) -> (r: Option<McpMethod>)
    ensures
        r == method_from_name_spec(name@),
{
    let n = chars_of(name);
    if chars_equal(&n, &chars_of("initialize")) {
        Some(McpMethod::Initialize)
    } else if chars_equal(&n, &chars_of("tools/list")) {
        Some(McpMethod::ToolsList)
    } else if chars_equal(&n, &chars_of("tools/call")) {
        Some(McpMethod::ToolsCall)
    } else if chars_equal(&n, &chars_of("resources/list")) {
        Some(McpMethod::ResourcesList)
    } else if chars_equal(&n, &chars_of("resources/read")) {
        Some(McpMethod::ResourcesRead)
    } else {
        None
    }
}

/// A file that the older server offers as a resource.
pub open spec fn is_resource_file_spec(name: Seq<char>) -> bool {
    ends_with(name, ".txt"@) || ends_with(name, ".md"@) || ends_with(name, ".json"@)
}

/// Whether the older server offers the file as a resource.
pub fn is_resource_file(name: &str) -> (b: bool)
    ensures
        b == is_resource_file_spec(name@),
{
    let n = chars_of(name);
    ends_with_chars(&n, &chars_of(".txt")) || ends_with_chars(&n, &chars_of(".md"))
        || ends_with_chars(&n, &chars_of(".json"))
}

/// The MIME type of a transcript file.
pub open spec fn mime_type_spec(path: Seq<char>) -> Seq<char> {
    if ends_with(path, ".json"@) {
        "application/json"@
    } else if ends_with(path, ".md"@) {
        "text/markdown"@
    } else {
        "text/plain"@
    }
}

/// The MIME type of a transcript file.
pub fn mime_type(path: &str) -> (r: &'static str)
    ensures
        r@ == mime_type_spec(path@),
{
    let p = chars_of(path);
    if ends_with_chars(&p, &chars_of(".json")) {
        "application/json"
    } else if ends_with_chars(&p, &chars_of(".md")) {
        "text/markdown"
    } else {
        "text/plain"
    }
}

/// A resource URI without its `file://` scheme (unchanged when it has none).
pub open spec fn strip_file_scheme_spec(uri: Seq<char>) -> Seq<char> {
    if starts_with(uri, "file://"@) {
        uri.skip(7)
    } else {
        uri
    }
}

/// The path a resource URI names.
pub fn strip_file_scheme(uri: &str) -> (r: String)
    ensures
        r@ == strip_file_scheme_spec(uri@),
{
    let u = chars_of(uri);
    let scheme = chars_of("file://");
    proof {
        reveal_strlit("file://");
    }
    if matches_at(&u, 0, &scheme) {
        let n = u.len();
        let rest = slice_chars(&u, 7, n);
        assert(rest@ =~= u@.skip(7));
        string_from_chars(&rest)
    } else {
        string_from_chars(&u)
    }
}

/// The URI of a resource file.
pub fn resource_uri(path: &str) -> (r: String)
    ensures
        r@ == "file://"@ + path@,
{
    prefixed("file://", path)
}


/// What a tool does, as `tools/list` describes it; the line-based server
/// describes `list_transcripts` without its ordering.
pub open spec fn tool_description_spec(t: Tool, legacy: bool) -> Seq<char> {
    match t {
        Tool::TranscribeVideo => "Transcribe videos from 1000+ platforms (YouTube, Vimeo, TikTok, Twitter, etc.) or local video files using whisper.cpp (4-10x faster than Python whisper!). Downloads/extracts audio and generates transcript in TXT, JSON, and Markdown formats."@,
        Tool::CheckDependencies => "Check if all required dependencies (yt-dlp, ffmpeg, whisper models) are installed"@,
        Tool::ListSupportedSites => "List all video platforms supported by yt-dlp (1000+ sites including YouTube, Vimeo, TikTok, Twitter, Facebook, Instagram, educational platforms, and more)"@,
        Tool::ListTranscripts => if legacy {
            "List all available transcripts in the output directory"@
        } else {
            "List all available transcripts in the output directory, sorted by modification time (newest first)"@
        },
        Tool::GetLatestTranscript => "Get the path and details of the most recently created/modified transcript. Useful to avoid accidentally reading old transcripts."@,
        Tool::DeleteTranscript => "Delete a specific transcript by video ID. This removes all associated files (txt, json, md)."@,
        Tool::CleanupOldTranscripts => "Delete transcripts older than a specified number of days. Helps manage disk space."@,
        Tool::DeleteAllTranscripts => "Delete ALL transcripts in the output directory. Use with caution - this cannot be undone!"@,
    }
}

/// What a tool does, as `tools/list` describes it.
pub fn tool_description(t: Tool, legacy: bool) -> (r: &'static str)
    ensures
        r@ == tool_description_spec(t, legacy),
{
    match t {
        Tool::TranscribeVideo => "Transcribe videos from 1000+ platforms (YouTube, Vimeo, TikTok, Twitter, etc.) or local video files using whisper.cpp (4-10x faster than Python whisper!). Downloads/extracts audio and generates transcript in TXT, JSON, and Markdown formats.",
        Tool::CheckDependencies => "Check if all required dependencies (yt-dlp, ffmpeg, whisper models) are installed",
        Tool::ListSupportedSites => "List all video platforms supported by yt-dlp (1000+ sites including YouTube, Vimeo, TikTok, Twitter, Facebook, Instagram, educational platforms, and more)",
        Tool::ListTranscripts => if legacy {
            "List all available transcripts in the output directory"
        } else {
            "List all available transcripts in the output directory, sorted by modification time (newest first)"
        },
        Tool::GetLatestTranscript => "Get the path and details of the most recently created/modified transcript. Useful to avoid accidentally reading old transcripts.",
        Tool::DeleteTranscript => "Delete a specific transcript by video ID. This removes all associated files (txt, json, md).",
        Tool::CleanupOldTranscripts => "Delete transcripts older than a specified number of days. Helps manage disk space.",
        Tool::DeleteAllTranscripts => "Delete ALL transcripts in the output directory. Use with caution - this cannot be undone!",
    }
}

/// The JSON type of a tool parameter.
#[derive(Clone, Copy, Debug, PartialEq, Eq, Structural)]
pub enum ParamKind {
    Text,
    Number,
    Flag,
}

/// The parameters a tool takes: name, type and whether it is required, in
/// the order the schema lists them. The line-based server's
/// `list_transcripts` has no `limit`.
pub open spec fn tool_parameters_spec(t: Tool, legacy: bool) -> Seq<(Seq<char>, ParamKind, bool)> {
    match t {
        Tool::TranscribeVideo => seq![
            ("url"@, ParamKind::Text, true),
            ("output_dir"@, ParamKind::Text, false),
            ("model"@, ParamKind::Text, false),
            ("language"@, ParamKind::Text, false),
        ],
        Tool::CheckDependencies => seq![],
        Tool::ListSupportedSites => seq![],
        Tool::ListTranscripts => if legacy {
            seq![("output_dir"@, ParamKind::Text, false)]
        } else {
            seq![("output_dir"@, ParamKind::Text, false), ("limit"@, ParamKind::Number, false)]
        },
        Tool::GetLatestTranscript => seq![("output_dir"@, ParamKind::Text, false)],
        Tool::DeleteTranscript => seq![
            ("video_id"@, ParamKind::Text, true),
            ("output_dir"@, ParamKind::Text, false),
        ],
        Tool::CleanupOldTranscripts => seq![
            ("days"@, ParamKind::Number, true),
            ("output_dir"@, ParamKind::Text, false),
        ],
        Tool::DeleteAllTranscripts => seq![
            ("output_dir"@, ParamKind::Text, false),
            ("confirm"@, ParamKind::Flag, true),
        ],
    }
}

/// The parameters a tool takes.
pub fn tool_parameters(t: Tool, legacy: bool) -> (r: Vec<(&'static str, ParamKind, bool)>)
    ensures
        r@.map_values(|p: (&'static str, ParamKind, bool)| (p.0@, p.1, p.2))
            == tool_parameters_spec(t, legacy),
{
    let r: Vec<(&'static str, ParamKind, bool)> = match t {
        Tool::TranscribeVideo => vec![
            ("url", ParamKind::Text, true),
            ("output_dir", ParamKind::Text, false),
            ("model", ParamKind::Text, false),
            ("language", ParamKind::Text, false),
        ],
        Tool::CheckDependencies => vec![],
        Tool::ListSupportedSites => vec![],
        Tool::ListTranscripts => if legacy {
            vec![("output_dir", ParamKind::Text, false)]
        } else {
            vec![("output_dir", ParamKind::Text, false), ("limit", ParamKind::Number, false)]
        },
        Tool::GetLatestTranscript => vec![("output_dir", ParamKind::Text, false)],
        Tool::DeleteTranscript => vec![
            ("video_id", ParamKind::Text, true),
            ("output_dir", ParamKind::Text, false),
        ],
        Tool::CleanupOldTranscripts => vec![
            ("days", ParamKind::Number, true),
            ("output_dir", ParamKind::Text, false),
        ],
        Tool::DeleteAllTranscripts => vec![
            ("output_dir", ParamKind::Text, false),
            ("confirm", ParamKind::Flag, true),
        ],
    };
    assert(r@.map_values(|p: (&'static str, ParamKind, bool)| (p.0@, p.1, p.2))
        =~= tool_parameters_spec(t, legacy));
    r
}

/// What a parameter means, as the schema describes it; `default_dir` is the
/// default output directory that the `output_dir` text names.
pub open spec fn parameter_description_spec(name: Seq<char>, default_dir: Seq<char>) -> Seq<char> {
    if name == "url"@ {
        "Video URL from any supported platform OR absolute/relative path to a local video file (mp4, avi, mov, mkv, etc.)"@
    } else if name == "output_dir"@ {
        "Optional output directory path. Defaults to "@ + default_dir
    } else if name == "model"@ {
        "Whisper model to use. Larger models are more accurate but slower. Default: 'base'"@
    } else if name == "language"@ {
        "Language code (ISO 639-1: en, es, fr, de, etc.) or 'auto' for automatic detection. Default: 'auto'"@
    } else if name == "limit"@ {
        "Optional limit on number of transcripts to return (newest first). If not specified, returns all transcripts."@
    } else if name == "video_id"@ {
        "The video ID of the transcript to delete (e.g., 'dQw4w9WgXcQ')"@
    } else if name == "days"@ {
        "Delete transcripts older than this many days (e.g., 30 for month-old transcripts)"@
    } else if name == "confirm"@ {
        "Must be set to true to confirm deletion of all transcripts"@
    } else {
        Seq::empty()
    }
}

/// What a parameter means, as the schema describes it.
pub fn parameter_description(name: &str, default_dir: &str) -> (r: String)
    ensures
        r@ == parameter_description_spec(name@, default_dir@),
{
    let n = chars_of(name);
    if chars_equal(&n, &chars_of("url")) {
        "Video URL from any supported platform OR absolute/relative path to a local video file (mp4, avi, mov, mkv, etc.)".to_owned()
    } else if chars_equal(&n, &chars_of("output_dir")) {
        prefixed("Optional output directory path. Defaults to ", default_dir)
    } else if chars_equal(&n, &chars_of("model")) {
        "Whisper model to use. Larger models are more accurate but slower. Default: 'base'".to_owned()
    } else if chars_equal(&n, &chars_of("language")) {
        "Language code (ISO 639-1: en, es, fr, de, etc.) or 'auto' for automatic detection. Default: 'auto'".to_owned()
    } else if chars_equal(&n, &chars_of("limit")) {
        "Optional limit on number of transcripts to return (newest first). If not specified, returns all transcripts.".to_owned()
    } else if chars_equal(&n, &chars_of("video_id")) {
        "The video ID of the transcript to delete (e.g., 'dQw4w9WgXcQ')".to_owned()
    } else if chars_equal(&n, &chars_of("days")) {
        "Delete transcripts older than this many days (e.g., 30 for month-old transcripts)".to_owned()
    } else if chars_equal(&n, &chars_of("confirm")) {
        "Must be set to true to confirm deletion of all transcripts".to_owned()
    } else {
        String::new()
    }
}

/// The names the `model` parameter accepts, in schema order.
pub fn model_choices() -> (r: Vec<&'static str>)
    ensures
        r@.len() == 5,
        forall|i: int| 0 <= i < 5 ==> (#[trigger] r@[i])@ == crate::types::model_name(
            crate::whisper::all_models()[i],
        ),
{
    let models = crate::whisper::all_models_list();
    let mut r: Vec<&'static str> = Vec::new();
    let mut i: usize = 0;
    while i < 5
        invariant
            i <= 5,
            models@ == crate::whisper::all_models(),
            r@.len() == i,
            forall|j: int| 0 <= j < i ==> (#[trigger] r@[j])@ == crate::types::model_name(
                crate::whisper::all_models()[j],
            ),
        decreases 5 - i,
    {
        r.push(models[i].as_str());
        i = i + 1;
    }
    r
}

} // verus!
