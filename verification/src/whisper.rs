//! The Whisper side of transcription that does not touch the model itself:
//! where models live, which language to ask for, how segments become a
//! transcript and how the installed models are reported.

use vstd::prelude::*;
use crate::engine::{join_path, join_path_spec};
use crate::text::{chars_of, push_str, string_from_chars, trim, trim_spec};
use crate::types::{model_filename_spec, model_name, WhisperModel};

verus! {

/// Knows the directory that holds the Whisper models.
#[derive(Debug)]
pub struct WhisperTranscriber {
    pub models_dir: String,
}

/// The five models in the order they are reported.
pub open spec fn all_models() -> Seq<WhisperModel> {
    seq![
        WhisperModel::Tiny,
        WhisperModel::Base,
        WhisperModel::Small,
        WhisperModel::Medium,
        WhisperModel::Large,
    ]
}

/// The name of a model as `{:?}` prints it.
pub open spec fn model_debug_name(m: WhisperModel) -> Seq<char> {
    match m {
        WhisperModel::Tiny => "Tiny"@,
        WhisperModel::Base => "Base"@,
        WhisperModel::Small => "Small"@,
        WhisperModel::Medium => "Medium"@,
        WhisperModel::Large => "Large"@,
    }
}

/// The name of a model as `{:?}` prints it.
pub fn model_debug_text(m: WhisperModel) -> (r: &'static str)
    ensures
        r@ == model_debug_name(m),
{
    match m {
        WhisperModel::Tiny => "Tiny",
        WhisperModel::Base => "Base",
        WhisperModel::Small => "Small",
        WhisperModel::Medium => "Medium",
        WhisperModel::Large => "Large",
    }
}

/// The models in the order they are reported.
pub fn all_models_list() -> (r: Vec<WhisperModel>)
    ensures
        r@ == all_models(),
{
    let r = vec![
        WhisperModel::Tiny,
        WhisperModel::Base,
        WhisperModel::Small,
        WhisperModel::Medium,
        WhisperModel::Large,
    ];
    assert(r@ =~= all_models());
    r
}

/// The message for a model whose file is missing: where it was looked for
/// and how to get it.
pub open spec fn missing_model_message(path: Seq<char>, m: WhisperModel) -> Seq<char> {
    "Whisper model not found: "@ + path + "\n\nPlease download it using:\nbash scripts/download-models.sh "@
        + model_name(m) + "\n\nOr download manually from:\nhttps://huggingface.co/ggerganov/whisper.cpp/resolve/main/"@
        + model_filename_spec(m)
}

/// The language to hand to Whisper: the one asked for, unless it is `auto`
/// (or none), in which case Whisper detects it.
pub open spec fn language_setting_spec(language: Option<Seq<char>>) -> Option<Seq<char>> {
    match language {
        Some(l) => if l == "auto"@ {
            None
        } else {
            Some(l)
        },
        None => None,
    }
}

/// The language to hand to Whisper.
pub fn language_setting(language: Option<&str>) -> (r: Option<&str>)
    ensures
        match r {
            Some(l) => language_setting_spec(
                match language {
                    Some(x) => Some(x@),
                    None => None,
                },
            ) == Some(l@),
            None => language_setting_spec(
                match language {
                    Some(x) => Some(x@),
                    None => None,
                },
            ) is None,
        },
{
    match language {
        Some(l) => {
            let lc = chars_of(l);
            let auto = chars_of("auto");
            if crate::types::chars_equal(&lc, &auto) {
                None
            } else {
                Some(l)
            }
        },
        None => None,
    }
}

/// Each segment followed by a space, all concatenated.
pub open spec fn spaced_concat(segments: Seq<Seq<char>>) -> Seq<char>
    decreases segments.len(),
{
    if segments.len() == 0 {
        Seq::empty()
    } else {
        spaced_concat(segments.drop_last()) + segments.last() + seq![' ']
    }
}

/// The transcript made of Whisper's segments: each followed by a space, the
/// whole trimmed.
pub fn join_segments(segments: &Vec<String>) -> (r: String)
    ensures
        r@ == trim_spec(spaced_concat(segments@.map_values(|s: String| s@))),
        trim_spec(r@) == r@,
{
    let ghost ss = segments@.map_values(|s: String| s@);
    let mut v: Vec<char> = Vec::new();
    let mut i: usize = 0;
    while i < segments.len()
        invariant
            i <= segments.len(),
            ss == segments@.map_values(|s: String| s@),
            v@ == spaced_concat(ss.take(i as int)),
        decreases segments.len() - i,
    {
        assert(ss.take(i + 1).drop_last() =~= ss.take(i as int));
        push_str(&mut v, segments[i].as_str());
        v.push(' ');
        i = i + 1;
    }
    assert(ss.take(i as int) =~= ss);
    let t = trim(&v);
    proof {
        crate::text::law_trim_idempotent(v@);
    }
    string_from_chars(&t)
}

/// The line of the model report for one model: its path and size when
/// installed, `not installed` otherwise.
pub open spec fn model_status_line(m: WhisperModel, path: Seq<char>, size: Option<Seq<char>>) -> Seq<
    char,
> {
    match size {
        Some(s) => "  ✅ "@ + model_debug_name(m) + ": "@ + path + " ("@ + s + ")\n"@,
        None => "  ❌ "@ + model_debug_name(m) + ": not installed\n"@,
    }
}

/// The report lines of the first `n` models.
pub open spec fn model_status_lines(dir: Seq<char>, sizes: Seq<Option<Seq<char>>>, n: int) -> Seq<
    char,
>
    decreases n,
{
    if n <= 0 {
        Seq::empty()
    } else {
        model_status_lines(dir, sizes, n - 1) + model_status_line(
            all_models()[n - 1],
            join_path_spec(dir, model_filename_spec(all_models()[n - 1])),
            sizes[n - 1],
        )
    }
}

impl WhisperTranscriber {
    /// A transcriber that looks for models in `models_dir`.
    pub fn with_models_dir(models_dir: String) -> (r: WhisperTranscriber)
        ensures
            r.models_dir == models_dir,
    {
        WhisperTranscriber { models_dir }
    }

    /// Where the file of `model` is looked for.
    pub fn model_path(&self, model: WhisperModel) -> (r: String)
        ensures
            r@ == join_path_spec(self.models_dir@, model_filename_spec(model)),
    {
        let name = model.model_filename();
        join_path(self.models_dir.as_str(), name.as_str())
    }

    /// The path of the model's file, or, when the file does not exist, the
    /// message that says how to get it.
    pub fn get_model_path(&self, model: WhisperModel, file_exists: bool) -> (r: Result<
        String,
        String,
    >)
        ensures
            file_exists ==> (r matches Ok(p) && p@ == join_path_spec(
                self.models_dir@,
                model_filename_spec(model),
            )),
            !file_exists ==> (r matches Err(msg) && msg@ == missing_model_message(
                join_path_spec(self.models_dir@, model_filename_spec(model)),
                model,
            )),
    {
        let path = self.model_path(model);
        if file_exists {
            return Ok(path);
        }
        let mut v = chars_of("Whisper model not found: ");
        push_str(&mut v, path.as_str());
        push_str(&mut v, "\n\nPlease download it using:\nbash scripts/download-models.sh ");
        push_str(&mut v, model.as_str());
        push_str(&mut v, "\n\nOr download manually from:\nhttps://huggingface.co/ggerganov/whisper.cpp/resolve/main/");
        let f = model.model_filename();
        push_str(&mut v, f.as_str());
        Err(string_from_chars(&v))
    }

    /// The report of installed models; `sizes[i]` is the size text of the
    /// `i`-th model (in the order tiny, base, small, medium, large) when its
    /// file exists.
    pub fn check_models_status(&self, sizes: &Vec<Option<String>>) -> (r: String)
        requires
            sizes@.len() == 5,
        ensures
            r@ == "📦 Whisper Models:\n"@ + model_status_lines(
                self.models_dir@,
                sizes@.map_values(
                    |o: Option<String>|
                        match o {
                            Some(s) => Some(s@),
                            None => None,
                        },
                ),
                5,
            ),
    {
        let ghost ss = sizes@.map_values(
            |o: Option<String>|
                match o {
                    Some(s) => Some(s@),
                    None => None,
                },
        );
        let models = all_models_list();
        let mut v = chars_of("📦 Whisper Models:\n");
        let ghost head = v@;
        let mut i: usize = 0;
        while i < 5
            invariant
                i <= 5,
                sizes@.len() == 5,
                models@ == all_models(),
                ss == sizes@.map_values(
                    |o: Option<String>|
                        match o {
                            Some(s) => Some(s@),
                            None => None,
                        },
                ),
                v@ == head + model_status_lines(self.models_dir@, ss, i as int),
            decreases 5 - i,
        {
            let m = models[i];
            let path = self.model_path(m);
            match &sizes[i] {
                Some(size) => {
                    push_str(&mut v, "  ✅ ");
                    push_str(&mut v, model_debug_text(m));
                    push_str(&mut v, ": ");
                    push_str(&mut v, path.as_str());
                    push_str(&mut v, " (");
                    push_str(&mut v, size.as_str());
                    push_str(&mut v, ")\n");
                },
                None => {
                    push_str(&mut v, "  ❌ ");
                    push_str(&mut v, model_debug_text(m));
                    push_str(&mut v, ": not installed\n");
                },
            }
            i = i + 1;
        }
        string_from_chars(&v)
    }
}

} // verus!
