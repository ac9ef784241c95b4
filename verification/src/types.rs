//! The data that flows through a transcription: options, models, metadata
//! and results.

use vstd::prelude::*;

verus! {

/// Where a transcript came from.
#[derive(Clone, Copy, Debug, PartialEq, Eq, Structural)]
pub enum TranscriptionSource {
    YouTubeCaptions,
    WhisperTranscription,
}

/// The text that names a transcript source in reports.
pub open spec fn source_label_spec(s: TranscriptionSource) -> Seq<char> {
    match s {
        TranscriptionSource::YouTubeCaptions => "YouTube Captions (direct fetch)"@,
        TranscriptionSource::WhisperTranscription => "whisper.cpp (Rust)"@,
    }
}

impl TranscriptionSource {
    /// The text that names this source in reports.
    pub fn label(&self) -> (r: &'static str)
        ensures
            r@ == source_label_spec(*self),
    {
        match self {
            TranscriptionSource::YouTubeCaptions => "YouTube Captions (direct fetch)",
            TranscriptionSource::WhisperTranscription => "whisper.cpp (Rust)",
        }
    }
}

/// The sizes of Whisper model.
#[derive(Clone, Copy, Debug, PartialEq, Eq, Structural)]
pub enum WhisperModel {
    Tiny,
    Base,
    Small,
    Medium,
    Large,
}

/// The lower-case name of a model.
pub open spec fn model_name(m: WhisperModel) -> Seq<char> {
    match m {
        WhisperModel::Tiny => seq!['t', 'i', 'n', 'y'],
        WhisperModel::Base => seq!['b', 'a', 's', 'e'],
        WhisperModel::Small => seq!['s', 'm', 'a', 'l', 'l'],
        WhisperModel::Medium => seq!['m', 'e', 'd', 'i', 'u', 'm'],
        WhisperModel::Large => seq!['l', 'a', 'r', 'g', 'e'],
    }
}

/// `c` with ASCII upper-case letters made lower-case.
pub open spec fn ascii_lower(c: char) -> char {
    if 'A' <= c <= 'Z' {
        ((c as u32 + 32) as u8) as char
    } else {
        c
    }
}

/// `s` with ASCII upper-case letters made lower-case.
pub open spec fn ascii_lower_seq(s: Seq<char>) -> Seq<char> {
    s.map_values(|c: char| ascii_lower(c))
}

/// The model that a name denotes, ignoring case. (The model names are
/// ASCII, and no other character lower-cases to a string that could complete
/// one, so comparing after ASCII lower-casing decides the same as comparing
/// after `str::to_lowercase`.)
pub open spec fn model_from_name(s: Seq<char>) -> Option<WhisperModel> {
    let l = ascii_lower_seq(s);
    if l == model_name(WhisperModel::Tiny) {
        Some(WhisperModel::Tiny)
    } else if l == model_name(WhisperModel::Base) {
        Some(WhisperModel::Base)
    } else if l == model_name(WhisperModel::Small) {
        Some(WhisperModel::Small)
    } else if l == model_name(WhisperModel::Medium) {
        Some(WhisperModel::Medium)
    } else if l == model_name(WhisperModel::Large) {
        Some(WhisperModel::Large)
    } else {
        None
    }
}

/// The file that holds a model's weights: `ggml-<name>.bin`.
pub open spec fn model_filename_spec(m: WhisperModel) -> Seq<char> {
    seq!['g', 'g', 'm', 'l', '-'] + model_name(m) + seq!['.', 'b', 'i', 'n']
}

/// A model name that is not one of the five.
#[derive(Clone, Debug)]
pub struct InvalidModelName {
    pub name: String,
}

impl WhisperModel {
    /// The lower-case name of the model.
    pub fn as_str(&self) -> (r: &'static str)
        ensures
            r@ == model_name(*self),
    {
        match self {
            WhisperModel::Tiny => {
                proof {
                    reveal_strlit("tiny");
                }
                "tiny"
            },
            WhisperModel::Base => {
                proof {
                    reveal_strlit("base");
                }
                "base"
            },
            WhisperModel::Small => {
                proof {
                    reveal_strlit("small");
                }
                "small"
            },
            WhisperModel::Medium => {
                proof {
                    reveal_strlit("medium");
                }
                "medium"
            },
            WhisperModel::Large => {
                proof {
                    reveal_strlit("large");
                }
                "large"
            },
        }
    }

    /// The file name of the model's weights.
    pub fn model_filename(&self) -> (r: String)
        ensures
            r@ == model_filename_spec(*self),
    {
        let mut v: Vec<char> = vec!['g', 'g', 'm', 'l', '-'];
        crate::text::push_str(&mut v, self.as_str());
        v.push('.');
        v.push('b');
        v.push('i');
        v.push('n');
        assert(v@ =~= model_filename_spec(*self));
        crate::text::string_from_chars(&v)
    }

    /// The model that `s` names, ignoring case.
    pub fn parse(s: &str) -> (r: Option<WhisperModel>)
        ensures
            r == model_from_name(s@),
    {
        let v = crate::text::chars_of(s);
        let mut l: Vec<char> = Vec::new();
        let mut i: usize = 0;
        while i < v.len()
            invariant
                i <= v.len(),
                l@ == ascii_lower_seq(v@.take(i as int)),
            decreases v.len() - i,
        {
            let c = v[i];
            let d = if 'A' <= c && c <= 'Z' {
                ((c as u32 + 32) as u8) as char
            } else {
                c
            };
            l.push(d);
            i = i + 1;
            assert(l@ =~= ascii_lower_seq(v@.take(i as int)));
        }
        assert(v@.take(i as int) =~= v@);
        let tiny = vec!['t', 'i', 'n', 'y'];
        let base = vec!['b', 'a', 's', 'e'];
        let small = vec!['s', 'm', 'a', 'l', 'l'];
        let medium = vec!['m', 'e', 'd', 'i', 'u', 'm'];
        let large = vec!['l', 'a', 'r', 'g', 'e'];
        if chars_equal(&l, &tiny) {
            Some(WhisperModel::Tiny)
        } else if chars_equal(&l, &base) {
            Some(WhisperModel::Base)
        } else if chars_equal(&l, &small) {
            Some(WhisperModel::Small)
        } else if chars_equal(&l, &medium) {
            Some(WhisperModel::Medium)
        } else if chars_equal(&l, &large) {
            Some(WhisperModel::Large)
        } else {
            None
        }
    }
}

impl InvalidModelName {
    /// The text that reports the name: `Invalid whisper model: <name>`.
    pub fn message(&self) -> (r: String)
        ensures
            r@ == "Invalid whisper model: "@ + self.name@,
    {
        let mut v = crate::text::chars_of("Invalid whisper model: ");
        crate::text::push_str(&mut v, self.name.as_str());
        crate::text::string_from_chars(&v)
    }
}

impl std::str::FromStr for WhisperModel {
    type Err = InvalidModelName;

    fn from_str(s: &str) -> (r: Result<WhisperModel, InvalidModelName>)
        ensures
            match r {
                Ok(m) => model_from_name(s@) == Some(m),
                Err(e) => model_from_name(s@) is None && e.name@ == s@,
            },
    {
        match WhisperModel::parse(s) {
            Some(m) => Ok(m),
            None => Err(InvalidModelName { name: s.to_owned() }),
        }
    }
}

/// Tests two character sequences for equality.
pub fn chars_equal(a: &Vec<char>, b: &Vec<char>) -> (r: bool)
    ensures
        r == (a@ == b@),
{
    if a.len() != b.len() {
        return false;
    }
    let mut i: usize = 0;
    while i < a.len()
        invariant
            a.len() == b.len(),
            i <= a.len(),
            forall|j: int| 0 <= j < i ==> a@[j] == b@[j],
        decreases a.len() - i,
    {
        if a[i] != b[i] {
            return false;
        }
        i = i + 1;
    }
    assert(a@ =~= b@);
    true
}

/// A model's name parses back to the model, and the five names are distinct.
pub proof fn law_model_name_round_trip(m: WhisperModel)
    ensures
        model_from_name(model_name(m)) == Some(m),
{
    let n = model_name(m);
    assert(ascii_lower_seq(n) =~= n);
    assert(model_name(WhisperModel::Tiny) != model_name(WhisperModel::Base));
    assert(model_name(WhisperModel::Small)[0] != model_name(WhisperModel::Tiny)[0]);
    assert(model_name(WhisperModel::Small)[0] != model_name(WhisperModel::Base)[0]);
    assert(model_name(WhisperModel::Medium)[0] != model_name(WhisperModel::Tiny)[0]);
    assert(model_name(WhisperModel::Medium)[0] != model_name(WhisperModel::Base)[0]);
    assert(model_name(WhisperModel::Medium)[0] != model_name(WhisperModel::Small)[0]);
    assert(model_name(WhisperModel::Large)[0] != model_name(WhisperModel::Tiny)[0]);
    assert(model_name(WhisperModel::Large)[0] != model_name(WhisperModel::Base)[0]);
    assert(model_name(WhisperModel::Large)[0] != model_name(WhisperModel::Small)[0]);
    assert(model_name(WhisperModel::Large)[0] != model_name(WhisperModel::Medium)[0]);
}

/// `c` with ASCII lower-case letters made upper-case.
pub open spec fn ascii_upper(c: char) -> char {
    if 'a' <= c <= 'z' {
        ((c as u32 - 32) as u8) as char
    } else {
        c
    }
}

/// `s` with ASCII lower-case letters made upper-case.
pub open spec fn ascii_upper_seq(s: Seq<char>) -> Seq<char> {
    s.map_values(|c: char| ascii_upper(c))
}

/// A model's name written in upper case also parses back to the model.
pub proof fn law_model_name_upper_round_trip(m: WhisperModel)
    ensures
        model_from_name(ascii_upper_seq(model_name(m))) == Some(m),
{
    let n = model_name(m);
    assert(ascii_lower_seq(ascii_upper_seq(n)) =~= n);
    law_model_name_round_trip(m);
}

/// Model names are read without regard to ASCII case: a name and its
/// lower-case form denote the same model.
pub proof fn law_model_name_ignores_case(s: Seq<char>)
    ensures
        model_from_name(s) == model_from_name(ascii_lower_seq(s)),
{
    assert(ascii_lower_seq(ascii_lower_seq(s)) =~= ascii_lower_seq(s));
}

/// What a transcription was asked to do.
#[derive(Clone, Debug)]
pub struct TranscriptionOptions {
    pub url: String,
    pub output_dir: String,
    pub model: WhisperModel,
    pub language: Option<String>,
}

/// What is known of a video.
#[derive(Clone, Debug)]
pub struct VideoMetadata {
    pub video_id: String,
    pub title: String,
    pub channel: String,
    pub duration: u64,
    pub upload_date: String,
    pub platform: String,
    pub url: String,
}

/// The paths of the three files a transcription writes.
#[derive(Clone, Debug)]
pub struct OutputFiles {
    pub txt: String,
    pub json: String,
    pub md: String,
}

/// The outcome of a transcription.
#[derive(Clone, Debug)]
pub struct TranscriptionResult {
    pub success: bool,
    pub files: OutputFiles,
    pub metadata: VideoMetadata,
    pub transcript: String,
    pub transcript_preview: String,
    pub word_count: usize,
    pub model_used: Option<WhisperModel>,
    pub source: TranscriptionSource,
}

} // verus!
