//! The decisions of a transcription run: where the media comes from, what
//! the output files are called and hold, and what the result reports.

use vstd::prelude::*;
use crate::preview::{make_preview, preview_spec, sanitize_filename, sanitize_spec};
use crate::text::{
    chars_of, decimal, decimal_chars, push_all, push_str, starts_with,
    string_from_chars, word_count, word_count_spec, matches_at,
};
use crate::types::{
    model_name, OutputFiles, TranscriptionResult, TranscriptionSource, VideoMetadata,
    WhisperModel,
};
use crate::youtube::{extract_youtube_video_id, youtube_video_id_spec, YouTubeTranscriptResult};

verus! {

/// Where the media of a transcription comes from.
#[derive(Debug)]
pub enum MediaSource {
    /// A path on this machine: anything not starting with `http://` or
    /// `https://`.
    LocalFile,
    /// A YouTube video: its captions are tried first, and when they cannot
    /// be had the video is downloaded like any other URL.
    YouTube { video_id: String },
    /// Another URL, downloaded.
    OtherUrl,
}

/// `url` names a file on this machine rather than something to download.
pub open spec fn is_local_spec(url: Seq<char>) -> bool {
    !starts_with(url, "http://"@) && !starts_with(url, "https://"@)
}

/// A text that opens with `http://` or `https://` is a URL to download and
/// never a local path; any other text is a local path.
pub proof fn law_web_urls_are_downloaded(url: Seq<char>)
    ensures
        starts_with(url, "http://"@) ==> !is_local_spec(url),
        starts_with(url, "https://"@) ==> !is_local_spec(url),
        !starts_with(url, "http://"@) && !starts_with(url, "https://"@) ==> is_local_spec(url),
{
}

/// Tells whether a transcription reads a local file, a YouTube video or
/// another URL.
pub fn classify_media_source(url: &str) -> (r: MediaSource)
    ensures
        is_local_spec(url@) ==> r is LocalFile,
        (starts_with(url@, "http://"@) || starts_with(url@, "https://"@)) <==> !(r is LocalFile),
        !is_local_spec(url@) ==> match youtube_video_id_spec(url@) {
            Some(id) => r matches MediaSource::YouTube { video_id } && video_id@ == id,
            None => r is OtherUrl,
        },
{
    let u = chars_of(url);
    let http = chars_of("http://");
    let https = chars_of("https://");
    let is_local = !matches_at(&u, 0, &http) && !matches_at(&u, 0, &https);
    if is_local {
        return MediaSource::LocalFile;
    }
    match extract_youtube_video_id(url) {
        Some(video_id) => MediaSource::YouTube { video_id },
        None => MediaSource::OtherUrl,
    }
}

/// The result of a transcription taken from YouTube captions.
pub fn caption_transcription_result(captions: YouTubeTranscriptResult, files: OutputFiles) -> (r:
    TranscriptionResult)
    ensures
        r.success,
        r.files == files,
        r.metadata == captions.metadata,
        r.transcript == captions.transcript,
        r.transcript_preview@ == preview_spec(captions.transcript@),
        r.word_count == word_count_spec(captions.transcript@),
        r.model_used is None,
        r.source == TranscriptionSource::YouTubeCaptions,
{
    let YouTubeTranscriptResult { transcript, metadata, language: _, is_auto_generated: _ } =
        captions;
    let word_count = word_count(transcript.as_str());
    let transcript_preview = make_preview(transcript.as_str());
    TranscriptionResult {
        success: true,
        files,
        metadata,
        transcript,
        transcript_preview,
        word_count,
        model_used: None,
        source: TranscriptionSource::YouTubeCaptions,
    }
}

/// The result of a transcription made by Whisper with `model`.
pub fn whisper_transcription_result(
    metadata: VideoMetadata,
    transcript: String,
    files: OutputFiles,
    model: WhisperModel,
) -> (r: TranscriptionResult)
    ensures
        r.success,
        r.files == files,
        r.metadata == metadata,
        r.transcript == transcript,
        r.transcript_preview@ == preview_spec(transcript@),
        r.word_count == word_count_spec(transcript@),
        r.model_used == Some(model),
        r.source == TranscriptionSource::WhisperTranscription,
{
    let word_count = word_count(transcript.as_str());
    let transcript_preview = make_preview(transcript.as_str());
    TranscriptionResult {
        success: true,
        files,
        metadata,
        transcript,
        transcript_preview,
        word_count,
        model_used: Some(model),
        source: TranscriptionSource::WhisperTranscription,
    }
}

/// `p` with trailing separators and `.` components removed.
pub open spec fn strip_path_tail(p: Seq<char>) -> Seq<char>
    decreases p.len(),
{
    if p.len() > 0 && (p.last() == '/' || (p.last() == '.' && (p.len() == 1 || p[p.len() - 2]
        == '/'))) {
        strip_path_tail(p.drop_last())
    } else {
        p
    }
}

/// What follows the last `/` of `p` (all of `p` when it has none).
pub open spec fn last_segment(p: Seq<char>) -> Seq<char>
    decreases p.len(),
{
    if p.len() == 0 {
        p
    } else if p.last() == '/' {
        Seq::empty()
    } else {
        last_segment(p.drop_last()).push(p.last())
    }
}

/// The final component of a Unix path (std `Path::file_name`): none for an
/// empty path, the root, `.` or `..`.
pub open spec fn file_name_spec(p: Seq<char>) -> Option<Seq<char>> {
    let n = last_segment(strip_path_tail(p));
    if n.len() == 0 || n == seq!['.', '.'] {
        None
    } else {
        Some(n)
    }
}

/// The position of the last `.` of `n`.
pub open spec fn last_dot(n: Seq<char>) -> Option<int>
    decreases n.len(),
{
    if n.len() == 0 {
        None
    } else if n.last() == '.' {
        Some(n.len() - 1)
    } else {
        last_dot(n.drop_last())
    }
}

/// A file name without its extension (std `Path::file_stem`): the part
/// before the last `.`, unless the name has no `.` or only a leading one.
pub open spec fn stem_of(n: Seq<char>) -> Seq<char> {
    match last_dot(n) {
        Some(i) => if i > 0 {
            n.take(i)
        } else {
            n
        },
        None => n,
    }
}

/// The file stem of a path, if it has a file name.
pub open spec fn file_stem_spec(p: Seq<char>) -> Option<Seq<char>> {
    match file_name_spec(p) {
        Some(n) => Some(stem_of(n)),
        None => None,
    }
}

fn stripped_end(p: &Vec<char>) -> (end: usize)
    ensures
        end <= p.len(),
        strip_path_tail(p@) == p@.take(end as int),
{
    let mut end: usize = p.len();
    assert(p@.take(end as int) =~= p@);
    while end > 0 && (p[end - 1] == '/' || (p[end - 1] == '.' && (end == 1 || p[end - 2]
        == '/')))
        invariant
            end <= p.len(),
            strip_path_tail(p@) == strip_path_tail(p@.take(end as int)),
        decreases end,
    {
        assert(p@.take(end as int).drop_last() =~= p@.take(end - 1));
        end = end - 1;
    }
    end
}

fn segment_start(p: &Vec<char>, end: usize) -> (start: usize)
    requires
        end <= p.len(),
    ensures
        start <= end,
        last_segment(p@.take(end as int)) == p@.subrange(start as int, end as int),
{
    let ghost t = p@.take(end as int);
    let mut start: usize = end;
    assert(p@.subrange(end as int, end as int) =~= Seq::<char>::empty());
    assert(t =~= p@.take(end as int));
    while start > 0 && p[start - 1] != '/'
        invariant
            start <= end <= p.len(),
            t == p@.take(end as int),
            last_segment(t) == last_segment(p@.take(start as int)) + p@.subrange(
                start as int,
                end as int,
            ),
        decreases start,
    {
        let ghost q = p@.take(start as int);
        assert(q.drop_last() =~= p@.take(start - 1));
        assert(p@.subrange(start - 1, end as int) =~= seq![p@[start - 1]] + p@.subrange(
            start as int,
            end as int,
        ));
        assert(last_segment(q) == last_segment(p@.take(start - 1)).push(p@[start - 1]));
        assert(last_segment(p@.take(start - 1)).push(p@[start - 1]) + p@.subrange(
            start as int,
            end as int,
        ) =~= last_segment(p@.take(start - 1)) + p@.subrange(start - 1, end as int));
        start = start - 1;
    }
    assert(last_segment(p@.take(start as int)) =~= Seq::<char>::empty()) by {
        if start > 0 {
            assert(p@.take(start as int).last() == '/');
        }
    }
    assert(last_segment(t) =~= p@.subrange(start as int, end as int));
    start
}

pub(crate) fn last_dot_end(p: &Vec<char>, start: usize, end: usize) -> (k: usize)
    requires
        start <= end <= p.len(),
    ensures
        start <= k <= end,
        k > start ==> last_dot(p@.subrange(start as int, end as int)) == Some(k - 1 - start),
        k == start ==> last_dot(p@.subrange(start as int, end as int)) is None,
{
    let mut k: usize = end;
    while k > start && p[k - 1] != '.'
        invariant
            start <= k <= end <= p.len(),
            last_dot(p@.subrange(start as int, end as int)) == last_dot(
                p@.subrange(start as int, k as int),
            ),
        decreases k,
    {
        assert(p@.subrange(start as int, k as int).drop_last() =~= p@.subrange(
            start as int,
            k - 1,
        ));
        k = k - 1;
    }
    if k == start {
        assert(p@.subrange(start as int, k as int) =~= Seq::<char>::empty());
    }
    k
}

/// The file stem of a path, if it has a file name.
pub fn file_stem(path: &str) -> (r: Option<String>)
    ensures
        match r {
            Some(s) => file_stem_spec(path@) == Some(s@),
            None => file_stem_spec(path@) is None,
        },
{
    let p = chars_of(path);
    let end = stripped_end(&p);
    let start = segment_start(&p, end);
    let ghost n = p@.subrange(start as int, end as int);
    if start == end || (end - start == 2 && p[start] == '.' && p[start + 1] == '.') {
        proof {
            if start != end {
                assert(n =~= seq!['.', '.']);
            }
        }
        return None;
    }
    assert(n != seq!['.', '.']) by {
        if n.len() == 2 {
            assert(n[0] != '.' || n[1] != '.');
        }
    }
    let k = last_dot_end(&p, start, end);
    let stem_end = if k > start + 1 {
        k - 1
    } else {
        end
    };
    proof {
        if k > start + 1 {
            assert(n.take(k - 1 - start) =~= p@.subrange(start as int, k - 1));
        }
    }
    let s = crate::text::slice_chars(&p, start, stem_end);
    Some(string_from_chars(&s))
}

/// The metadata of a local media file: the file stem (or `unknown`) as ID and
/// title, `Local File` as channel and platform, the path as URL.
pub open spec fn local_metadata_spec(md: VideoMetadata, path: Seq<char>) -> bool {
    let name = match file_stem_spec(path) {
        Some(s) => s,
        None => "unknown"@,
    };
    &&& md.video_id@ == name
    &&& md.title@ == name
    &&& md.channel@ == "Local File"@
    &&& md.duration == 0
    &&& md.upload_date@ == Seq::<char>::empty()
    &&& md.platform@ == "Local File"@
    &&& md.url@ == path
}

/// The metadata of a local media file.
pub fn get_local_metadata(path: &str) -> (md: VideoMetadata)
    ensures
        local_metadata_spec(md, path@),
{
    let name = match file_stem(path) {
        Some(s) => s,
        None => "unknown".to_owned(),
    };
    VideoMetadata {
        video_id: name.clone(),
        title: name,
        channel: "Local File".to_owned(),
        duration: 0,
        upload_date: String::new(),
        platform: "Local File".to_owned(),
        url: path.to_owned(),
    }
}

/// `dir` joined with `name` as std `Path::join` does on Unix: an absolute
/// `name` replaces `dir`; otherwise a `/` goes between them unless `dir` is
/// empty or already ends with one.
pub open spec fn join_path_spec(dir: Seq<char>, name: Seq<char>) -> Seq<char> {
    if name.len() > 0 && name[0] == '/' {
        name
    } else if dir.len() > 0 && dir.last() != '/' {
        dir + seq!['/'] + name
    } else {
        dir + name
    }
}

/// Joins a directory and a file name.
pub fn join_path(dir: &str, name: &str) -> (r: String)
    ensures
        r@ == join_path_spec(dir@, name@),
{
    let d = chars_of(dir);
    let n = chars_of(name);
    if n.len() > 0 && n[0] == '/' {
        return string_from_chars(&n);
    }
    let mut out = d;
    if out.len() > 0 && out[out.len() - 1] != '/' {
        out.push('/');
    }
    push_all(&mut out, &n);
    string_from_chars(&out)
}

/// The sanitised base name of a video's output files: `<id>-<title>`.
pub open spec fn output_stem_spec(md: VideoMetadata) -> Seq<char> {
    sanitize_spec(md.video_id@ + seq!['-'] + md.title@)
}

/// The paths of a video's three output files in `output_dir`.
pub open spec fn output_files_spec(output_dir: Seq<char>, md: VideoMetadata) -> (
    Seq<char>,
    Seq<char>,
    Seq<char>,
) {
    let stem = output_stem_spec(md);
    (
        join_path_spec(output_dir, stem + seq!['.', 't', 'x', 't']),
        join_path_spec(output_dir, stem + seq!['.', 'j', 's', 'o', 'n']),
        join_path_spec(output_dir, stem + seq!['.', 'm', 'd']),
    )
}

fn with_extension(stem: &Vec<char>, ext: &Vec<char>) -> (r: String)
    ensures
        r@ == stem@ + ext@,
{
    let mut v: Vec<char> = Vec::new();
    push_all(&mut v, stem);
    push_all(&mut v, ext);
    string_from_chars(&v)
}

/// Names the text, JSON and Markdown files that a transcription of the video
/// writes into `output_dir`.
pub fn output_files(output_dir: &str, metadata: &VideoMetadata) -> (r: OutputFiles)
    ensures
        (r.txt@, r.json@, r.md@) == output_files_spec(output_dir@, *metadata),
{
    let mut base = chars_of(metadata.video_id.as_str());
    base.push('-');
    push_str(&mut base, metadata.title.as_str());
    let base_s = string_from_chars(&base);
    let stem_s = sanitize_filename(base_s.as_str());
    let stem = chars_of(stem_s.as_str());
    let txt_ext = vec!['.', 't', 'x', 't'];
    let json_ext = vec!['.', 'j', 's', 'o', 'n'];
    let md_ext = vec!['.', 'm', 'd'];
    assert(txt_ext@ =~= seq!['.', 't', 'x', 't']);
    assert(json_ext@ =~= seq!['.', 'j', 's', 'o', 'n']);
    assert(md_ext@ =~= seq!['.', 'm', 'd']);
    let txt_name = with_extension(&stem, &txt_ext);
    let json_name = with_extension(&stem, &json_ext);
    let md_name = with_extension(&stem, &md_ext);
    OutputFiles {
        txt: join_path(output_dir, txt_name.as_str()),
        json: join_path(output_dir, json_name.as_str()),
        md: join_path(output_dir, md_name.as_str()),
    }
}

/// The text naming the engine at the foot of the Markdown file.
pub open spec fn engine_label_spec(source: TranscriptionSource, model: Option<WhisperModel>) -> Seq<
    char,
> {
    match source {
        TranscriptionSource::YouTubeCaptions => "YouTube Captions (direct fetch)"@,
        TranscriptionSource::WhisperTranscription => "whisper.cpp (Rust) - Model: "@ + match model {
            Some(m) => model_name(m),
            None => "unknown"@,
        },
    }
}

/// The text naming the engine at the foot of the Markdown file.
pub fn engine_label(source: TranscriptionSource, model: Option<WhisperModel>) -> (r: String)
    ensures
        r@ == engine_label_spec(source, model),
{
    match source {
        TranscriptionSource::YouTubeCaptions => "YouTube Captions (direct fetch)".to_owned(),
        TranscriptionSource::WhisperTranscription => {
            let mut v = chars_of("whisper.cpp (Rust) - Model: ");
            match model {
                Some(m) => push_str(&mut v, m.as_str()),
                None => push_str(&mut v, "unknown"),
            }
            string_from_chars(&v)
        },
    }
}

/// The Markdown file of a transcript: a title, the video's details, the
/// transcript and the engine that made it.
pub open spec fn markdown_spec(
    md: VideoMetadata,
    transcript: Seq<char>,
    model: Option<WhisperModel>,
    source: TranscriptionSource,
) -> Seq<char> {
    "# "@ + md.title@ + "\n\n**Video:** "@ + md.url@ + "\n**Platform:** "@ + md.platform@
        + "\n**Channel:** "@ + md.channel@ + "\n**Video ID:** "@ + md.video_id@
        + "\n**Duration:** "@ + decimal(md.duration as nat) + "s\n**Published:** "@
        + md.upload_date@ + "\n\n---\n\n## Transcript\n\n"@ + transcript
        + "\n\n---\n\n*Transcribed using "@ + engine_label_spec(source, model) + "*\n"@
}

/// Writes the Markdown file of a transcript.
pub fn markdown_document(
    metadata: &VideoMetadata,
    transcript: &str,
    model: Option<WhisperModel>,
    source: TranscriptionSource,
) -> (r: String)
    ensures
        r@ == markdown_spec(*metadata, transcript@, model, source),
{
    let mut v = chars_of("# ");
    push_str(&mut v, metadata.title.as_str());
    push_str(&mut v, "\n\n**Video:** ");
    push_str(&mut v, metadata.url.as_str());
    push_str(&mut v, "\n**Platform:** ");
    push_str(&mut v, metadata.platform.as_str());
    push_str(&mut v, "\n**Channel:** ");
    push_str(&mut v, metadata.channel.as_str());
    push_str(&mut v, "\n**Video ID:** ");
    push_str(&mut v, metadata.video_id.as_str());
    push_str(&mut v, "\n**Duration:** ");
    let d = decimal_chars(metadata.duration);
    push_all(&mut v, &d);
    push_str(&mut v, "s\n**Published:** ");
    push_str(&mut v, metadata.upload_date.as_str());
    push_str(&mut v, "\n\n---\n\n## Transcript\n\n");
    push_str(&mut v, transcript);
    push_str(&mut v, "\n\n---\n\n*Transcribed using ");
    let label = engine_label(source, model);
    push_str(&mut v, label.as_str());
    push_str(&mut v, "*\n");
    string_from_chars(&v)
}

} // verus!
