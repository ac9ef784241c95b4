//! The commands that turn media into audio: their arguments and the names
//! of the files they write.

use vstd::prelude::*;
use crate::text::{chars_of, decimal, decimal_chars_u128, push_all, push_str, string_from_chars};

verus! {

/// The name of the audio file extracted for one run: `audio_<id>.mp3`,
/// where the id is the run's start time in nanoseconds, so that runs do not
/// overwrite each other.
pub open spec fn audio_file_name_spec(unique_id: u128) -> Seq<char> {
    "audio_"@ + decimal(unique_id as nat) + ".mp3"@
}

/// The name of the audio file extracted for one run.
pub fn audio_file_name(unique_id: u128) -> (r: String)
    ensures
        r@ == audio_file_name_spec(unique_id),
{
    let mut v = chars_of("audio_");
    push_all(&mut v, &decimal_chars_u128(unique_id));
    push_str(&mut v, ".mp3");
    string_from_chars(&v)
}

proof fn lemma_decimal_len(n: nat)
    ensures
        decimal(n).len() >= 1,
        (decimal(n).len() == 1) <==> n < 10,
    decreases n,
{
    if n >= 10 {
        lemma_decimal_len(n / 10);
    }
}

proof fn lemma_digit_char_code(d: nat)
    requires
        d < 10,
    ensures
        crate::text::digit_char(d) as u32 == d + 48,
{
}

/// Distinct numbers have distinct decimal texts.
proof fn lemma_decimal_injective(a: nat, b: nat)
    requires
        decimal(a) == decimal(b),
    ensures
        a == b,
    decreases a,
{
    lemma_decimal_len(a);
    lemma_decimal_len(b);
    let da = decimal(a);
    let db = decimal(b);
    lemma_digit_char_code(a % 10);
    lemma_digit_char_code(b % 10);
    if a >= 10 && b >= 10 {
        assert(da.drop_last() =~= decimal(a / 10));
        assert(db.drop_last() =~= decimal(b / 10));
        lemma_decimal_injective(a / 10, b / 10);
        assert(da.last() == db.last());
    } else if a < 10 && b < 10 {
        assert(da[0] == db[0]);
    }
}

/// Runs with different ids write different audio files, so that processing
/// several videos one after another never mixes their audio.
pub proof fn law_audio_names_distinct(a: u128, b: u128)
    requires
        a != b,
    ensures
        audio_file_name_spec(a) != audio_file_name_spec(b),
{
    let na = audio_file_name_spec(a);
    let nb = audio_file_name_spec(b);
    if na == nb {
        let pre = "audio_"@;
        let suf = ".mp3"@;
        let da = decimal(a as nat);
        let db = decimal(b as nat);
        assert(na.len() == nb.len());
        assert(da.len() == db.len());
        assert forall|i: int| 0 <= i < da.len() implies da[i] == db[i] by {
            assert(na[pre.len() + i] == da[i]);
            assert(nb[pre.len() + i] == db[i]);
        }
        assert(da =~= db);
        lemma_decimal_injective(a as nat, b as nat);
    }
}

fn strings_of(parts: &Vec<&str>) -> (r: Vec<String>)
    ensures
        r@.len() == parts@.len(),
        forall|i: int| 0 <= i < parts@.len() ==> (#[trigger] r@[i])@ == parts@[i]@,
{
    let mut r: Vec<String> = Vec::new();
    let mut i: usize = 0;
    while i < parts.len()
        invariant
            i <= parts.len(),
            r@.len() == i,
            forall|j: int| 0 <= j < i ==> (#[trigger] r@[j])@ == parts@[j]@,
        decreases parts.len() - i,
    {
        r.push(parts[i].to_owned());
        i = i + 1;
    }
    r
}

/// The `ffmpeg` arguments that extract the audio of `video_path` as a
/// high-quality MP3 at `output_path`, overwriting it.
pub open spec fn extract_audio_args_spec(video_path: Seq<char>, output_path: Seq<char>) -> Seq<
    Seq<char>,
> {
    seq![
        "-i"@,
        video_path,
        "-vn"@,
        "-acodec"@,
        "libmp3lame"@,
        "-q:a"@,
        "2"@,
        "-y"@,
        output_path,
    ]
}

/// The `ffmpeg` arguments that extract the audio of a video.
pub fn extract_audio_args(video_path: &str, output_path: &str) -> (r: Vec<String>)
    ensures
        r@.map_values(|s: String| s@) == extract_audio_args_spec(video_path@, output_path@),
{
    let parts = vec!["-i", video_path, "-vn", "-acodec", "libmp3lame", "-q:a", "2", "-y", output_path];
    let r = strings_of(&parts);
    assert(r@.map_values(|s: String| s@) =~= extract_audio_args_spec(video_path@, output_path@));
    r
}

/// The `ffmpeg` arguments that decode `audio_path` to 16 kHz mono 32-bit
/// little-endian float PCM on standard output, as Whisper expects.
pub open spec fn pcm_args_spec(audio_path: Seq<char>) -> Seq<Seq<char>> {
    seq!["-i"@, audio_path, "-ar"@, "16000"@, "-ac"@, "1"@, "-f"@, "f32le"@, "-"@]
}

/// The `ffmpeg` arguments that decode audio to Whisper's PCM format.
pub fn pcm_args(audio_path: &str) -> (r: Vec<String>)
    ensures
        r@.map_values(|s: String| s@) == pcm_args_spec(audio_path@),
{
    let parts = vec!["-i", audio_path, "-ar", "16000", "-ac", "1", "-f", "f32le", "-"];
    let r = strings_of(&parts);
    assert(r@.map_values(|s: String| s@) =~= pcm_args_spec(audio_path@));
    r
}

} // verus!
