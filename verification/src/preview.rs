//! Transcript previews and file-name sanitising.

use vstd::prelude::*;
use crate::text::{chars_of, string_from_chars};

verus! {

/// The number of bytes of the UTF-8 encoding of `c`.
pub open spec fn utf8_width(c: char) -> nat {
    let u = c as u32;
    if u < 0x80 {
        1
    } else if u < 0x800 {
        2
    } else if u < 0x10000 {
        3
    } else {
        4
    }
}

/// The number of bytes of the UTF-8 encoding of `s` (std `str::len`).
pub open spec fn byte_len(s: Seq<char>) -> nat
    decreases s.len(),
{
    if s.len() == 0 {
        0
    } else {
        utf8_width(s[0]) + byte_len(s.drop_first())
    }
}

/// The most bytes a transcript may have and still be shown whole.
pub const PREVIEW_BYTES: u64 = 500;

/// How many leading characters of `s` start at a byte offset of at most
/// `budget`.
pub open spec fn chars_starting_within(s: Seq<char>, budget: int) -> nat
    decreases s.len(),
{
    if s.len() == 0 || budget < 0 {
        0
    } else {
        1 + chars_starting_within(s.drop_first(), budget - utf8_width(s[0]))
    }
}

/// The preview of a transcript: the transcript itself when its UTF-8
/// encoding has at most 500 bytes; otherwise every character that starts at
/// a byte offset of at most 500, followed by `...`.
pub open spec fn preview_spec(s: Seq<char>) -> Seq<char> {
    if byte_len(s) <= 500 {
        s
    } else {
        s.take(chars_starting_within(s, 500) as int) + seq!['.', '.', '.']
    }
}

/// The UTF-8 width of `c`.
pub fn utf8_width_of(c: char) -> (w: u64)
    ensures
        w == utf8_width(c),
{
    let u = c as u32;
    if u < 0x80 {
        1
    } else if u < 0x800 {
        2
    } else if u < 0x10000 {
        3
    } else {
        4
    }
}

proof fn lemma_byte_len_push(s: Seq<char>, c: char)
    ensures
        byte_len(s.push(c)) == byte_len(s) + utf8_width(c),
    decreases s.len(),
{
    if s.len() > 0 {
        assert(s.push(c).drop_first() =~= s.drop_first().push(c));
        assert(s.push(c)[0] == s[0]);
        lemma_byte_len_push(s.drop_first(), c);
    } else {
        assert(s.push(c).drop_first() =~= Seq::<char>::empty());
        assert(s.push(c)[0] == c);
        assert(byte_len(Seq::<char>::empty()) == 0);
        assert(byte_len(s) == 0);
    }
}

proof fn lemma_byte_len_take_mono(s: Seq<char>, i: int, j: int)
    requires
        0 <= i <= j <= s.len(),
    ensures
        byte_len(s.take(i)) <= byte_len(s.take(j)),
    decreases j - i,
{
    if i < j {
        lemma_byte_len_take_mono(s, i, j - 1);
        assert(s.take(j) =~= s.take(j - 1).push(s[j - 1]));
        lemma_byte_len_push(s.take(j - 1), s[j - 1]);
    }
}

/// `chars_starting_within` counts exactly the characters whose start offset
/// is within the budget.
proof fn lemma_chars_starting_within(s: Seq<char>, budget: int, k: int)
    requires
        0 <= k <= s.len(),
    ensures
        (k < chars_starting_within(s, budget)) <==> (k < s.len() && byte_len(s.take(k)) <= budget),
        chars_starting_within(s, budget) <= s.len(),
    decreases s.len(),
{
    if s.len() == 0 || budget < 0 {
        if k < s.len() && budget < 0 {
            assert(byte_len(s.take(k)) >= 0);
        }
    } else {
        let t = s.drop_first();
        let b2 = budget - utf8_width(s[0]);
        if k > 0 {
            lemma_chars_starting_within(t, b2, k - 1);
            assert(s.take(k).drop_first() =~= t.take(k - 1));
            assert(s.take(k)[0] == s[0]);
        } else {
            lemma_chars_starting_within(t, b2, 0);
            assert(s.take(0) =~= Seq::<char>::empty());
        }
    }
}

/// A short preview of a transcript (at most about 500 bytes).
pub fn make_preview(transcript: &str) -> (r: String)
    ensures
        r@ == preview_spec(transcript@),
{
    let v = chars_of(transcript);
    // Count bytes until the limit is passed.
    let mut total: u64 = 0;
    let mut i: usize = 0;
    while i < v.len() && total <= PREVIEW_BYTES
        invariant
            i <= v.len(),
            total == byte_len(v@.take(i as int)),
            total <= PREVIEW_BYTES + 4,
        decreases v.len() - i,
    {
        proof {
            assert(v@.take(i + 1) =~= v@.take(i as int).push(v@[i as int]));
            lemma_byte_len_push(v@.take(i as int), v@[i as int]);
        }
        total = total + utf8_width_of(v[i]);
        i = i + 1;
    }
    proof {
        if total <= PREVIEW_BYTES {
            assert(v@.take(i as int) =~= v@);
        } else {
            lemma_byte_len_take_mono_total(v@, i as int);
        }
    }
    if total <= PREVIEW_BYTES {
        return string_from_chars(&v);
    }
    // Keep the characters that start at a byte offset of at most 500.
    let mut out: Vec<char> = Vec::new();
    let mut offset: u64 = 0;
    let mut k: usize = 0;
    while k < v.len() && offset <= PREVIEW_BYTES
        invariant
            k <= v.len(),
            offset == byte_len(v@.take(k as int)),
            out@ == v@.take(k as int),
            k > 0 ==> byte_len(v@.take(k - 1)) <= 500,
            offset <= PREVIEW_BYTES + 4,
        decreases v.len() - k,
    {
        proof {
            assert(v@.take(k + 1) =~= v@.take(k as int).push(v@[k as int]));
            lemma_byte_len_push(v@.take(k as int), v@[k as int]);
        }
        out.push(v[k]);
        offset = offset + utf8_width_of(v[k]);
        k = k + 1;
    }
    proof {
        let n = chars_starting_within(v@, 500);
        lemma_chars_starting_within(v@, 500, k as int);
        if k > 0 {
            lemma_chars_starting_within(v@, 500, (k - 1) as int);
        }
        assert(n == k);
    }
    out.push('.');
    out.push('.');
    out.push('.');
    string_from_chars(&out)
}

proof fn lemma_byte_len_take_mono_total(s: Seq<char>, i: int)
    requires
        0 <= i <= s.len(),
    ensures
        byte_len(s.take(i)) <= byte_len(s),
{
    lemma_byte_len_take_mono(s, i, s.len() as int);
    assert(s.take(s.len() as int) =~= s);
}

/// The characters that `sanitize_filename` replaces by `-`.
pub open spec fn is_forbidden_in_filename(c: char) -> bool {
    c == '/' || c == '\\' || c == ':' || c == '*' || c == '?' || c == '"' || c == '<' || c
        == '>' || c == '|'
}

/// `c`, or `-` where `c` may not stand in a file name.
pub open spec fn sanitize_char(c: char) -> char {
    if is_forbidden_in_filename(c) {
        '-'
    } else {
        c
    }
}

/// The longest file name, in characters, that `sanitize_filename` returns.
pub const MAX_FILENAME_CHARS: usize = 150;

/// `name` with each forbidden character replaced by `-`, cut to its first
/// 150 characters.
pub open spec fn sanitize_spec(name: Seq<char>) -> Seq<char> {
    let m = name.map_values(|c: char| sanitize_char(c));
    if m.len() <= 150 {
        m
    } else {
        m.take(150)
    }
}

/// Makes `name` usable as a file name.
pub fn sanitize_filename(name: &str) -> (r: String)
    ensures
        r@ == sanitize_spec(name@),
{
    let v = chars_of(name);
    let mut out: Vec<char> = Vec::new();
    let mut i: usize = 0;
    while i < v.len() && i < MAX_FILENAME_CHARS
        invariant
            i <= v.len(),
            i <= MAX_FILENAME_CHARS,
            out@ == v@.take(i as int).map_values(|c: char| sanitize_char(c)),
        decreases v.len() - i,
    {
        let c = v[i];
        let d = if c == '/' || c == '\\' || c == ':' || c == '*' || c == '?' || c == '"' || c
            == '<' || c == '>' || c == '|' {
            '-'
        } else {
            c
        };
        out.push(d);
        i = i + 1;
        assert(out@ =~= v@.take(i as int).map_values(|c: char| sanitize_char(c)));
    }
    let ghost m = v@.map_values(|c: char| sanitize_char(c));
    if v.len() <= MAX_FILENAME_CHARS {
        assert(out@ =~= m);
    } else {
        assert(out@ =~= m.take(150));
    }
    string_from_chars(&out)
}

/// A sanitised name holds no forbidden character and at most 150
/// characters, and sanitising it again leaves it unchanged.
pub proof fn law_sanitize_is_clean_and_idempotent(name: Seq<char>)
    ensures
        forall|i: int|
            0 <= i < sanitize_spec(name).len() ==> !is_forbidden_in_filename(
                #[trigger] sanitize_spec(name)[i],
            ),
        sanitize_spec(name).len() <= 150,
        sanitize_spec(name).len() == if name.len() <= 150 {
            name.len()
        } else {
            150
        },
        sanitize_spec(sanitize_spec(name)) == sanitize_spec(name),
{
    let r = sanitize_spec(name);
    assert(sanitize_spec(r) =~= r);
}

/// A preview is the whole transcript when the transcript has at most 500
/// bytes; otherwise it is a prefix of the transcript, cut on a character
/// boundary, of more than 500 and at most 504 bytes, followed by `...`.
pub proof fn law_preview_bounds(s: Seq<char>)
    ensures
        byte_len(s) <= 500 ==> preview_spec(s) == s,
        byte_len(s) > 500 ==> {
            let k = chars_starting_within(s, 500);
            &&& k <= s.len()
            &&& preview_spec(s) == s.take(k as int) + seq!['.', '.', '.']
            &&& 500 < byte_len(s.take(k as int)) <= 504
        },
{
    if byte_len(s) > 500 {
        let k = chars_starting_within(s, 500) as int;
        lemma_chars_starting_within(s, 500, 0);
        assert(s.take(0) =~= Seq::<char>::empty());
        lemma_chars_starting_within(s, 500, k - 1);
        lemma_chars_starting_within(s, 500, k);
        assert(s.take(k) =~= s.take(k - 1).push(s[k - 1]));
        lemma_byte_len_push(s.take(k - 1), s[k - 1]);
        if k < s.len() {
            assert(byte_len(s.take(k)) > 500);
        } else {
            assert(s.take(k) =~= s);
        }
    }
}

} // verus!
