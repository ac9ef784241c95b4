//! YouTube captions: recognising video URLs, locating the player response in
//! a watch page, choosing a caption track and decoding caption XML.

use vstd::prelude::*;
use vstd::utf8::is_scalar;
use crate::types::{chars_equal, VideoMetadata};
use crate::text::{
    chars_of, find_from, find_spec, join_chars, join_spec, lemma_find_from,
    lemma_find_skip, occurs_at, replace_all, replace_spec, slice_chars, split_spec, starts_with,
    string_from_chars, trim, trim_spec, parse_u32, parse_u32_spec, parse_u64, parse_u64_spec,
    push_str,
};

verus! {

/// The pattern that finds the video ID in a YouTube URL. `youtube.com/` or
/// `youtu.be/` must begin a host name: stand at the start of the text or
/// after a character that cannot stand in a host label (such as `/`, `.`
/// or `@`), so that a URL on another host (such as `notyoutube.com`) names
/// no video, while any scheme, its case, a user name or leading text are
/// accepted as before.
pub const VIDEO_ID_PATTERN: &'static str =
    r"(?:^|[^a-zA-Z0-9-])(?:youtube\.com/(?:watch\?.*v=|embed/|v/|shorts/)|youtu\.be/)([a-zA-Z0-9_-]{11})";

/// The pattern of a decimal numeric character reference such as `&#39;`.
pub const NUMERIC_REF_PATTERN: &'static str = r"&#(\d+);";

/// A character that may stand in a YouTube video ID.
pub open spec fn is_video_id_char(c: char) -> bool {
    ('a' <= c <= 'z') || ('A' <= c <= 'Z') || ('0' <= c <= '9') || c == '_' || c == '-'
}

/// A character of a host label: an ASCII letter, digit or `-`.
pub open spec fn is_label_char(c: char) -> bool {
    ('a' <= c <= 'z') || ('A' <= c <= 'Z') || ('0' <= c <= '9') || c == '-'
}

/// `youtube.com/` or `youtu.be/` begins a host name at position `k` of
/// `url`: at its start or after a character that is no host-label character.
pub open spec fn youtube_host_at(url: Seq<char>, k: int) -> bool {
    &&& 0 <= k <= url.len()
    &&& (k == 0 || !is_label_char(url[k - 1]))
    &&& (starts_with(url.skip(k), "youtube.com/"@) || starts_with(url.skip(k), "youtu.be/"@))
}

/// `url` names the host `youtube.com` or `youtu.be` (or a subdomain of
/// them): one of them begins a host name somewhere in it.
pub open spec fn names_youtube_host(url: Seq<char>) -> bool {
    exists|k: int| #[trigger] youtube_host_at(url, k)
}

/// What `regex::Regex::new(pattern)` followed by `captures(text)` gives as
/// the text of capture group `group` of the leftmost-first match: `None`
/// when the pattern does not compile, nothing matches, or the group takes
/// no part in the match.
pub uninterp spec fn regex_capture_text(pattern: Seq<char>, text: Seq<char>, group: int) -> Option<
    Seq<char>,
>;

/// Calls `regex::Regex::new(pattern)` and `Regex::captures(text)`, and returns
/// the text of capture group `group`. The contract says that the result is
/// the named `regex_capture_text`, that a captured text is a piece of
/// `text`, and, for the video-ID pattern, that group 1 is 11 characters of
/// the ID alphabet, as the pattern's last group prescribes, and that a
/// match needs a YouTube host, as the pattern's head prescribes.
/// Which match the regex engine picks is not stated beyond the name.
#[verifier::external_body]
fn regex_capture(pattern: &str, text: &str, group: usize) -> (r: Option<String>)
    ensures
        match r {
            Some(c) => regex_capture_text(pattern@, text@, group as int) == Some(c@),
            None => regex_capture_text(pattern@, text@, group as int) is None,
        },
        r matches Some(c) ==> exists|i: int| occurs_at(text@, i, c@),
        r matches Some(c) ==> (pattern@ == VIDEO_ID_PATTERN@ && group == 1) ==> (c@.len() == 11
            && forall|i: int| 0 <= i < c@.len() ==> is_video_id_char(#[trigger] c@[i])),
        r matches Some(c) ==> (pattern@ == VIDEO_ID_PATTERN@ && group == 1) ==> names_youtube_host(
            text@,
        ),
{
    match regex::Regex::new(pattern) {
        Ok(re) => re.captures(text).and_then(|caps| caps.get(group)).map(
            |m| m.as_str().to_string(),
        ),
        Err(_) => None,
    }
}

/// The video ID that a YouTube URL names, if it is one.
pub open spec fn youtube_video_id_spec(url: Seq<char>) -> Option<Seq<char>> {
    regex_capture_text(VIDEO_ID_PATTERN@, url, 1)
}

/// Extracts the video ID from a YouTube URL (`youtube.com/watch?...v=`,
/// `youtube.com/embed/`, `youtube.com/v/`, `youtube.com/shorts/` or
/// `youtu.be/`). Returns `None` for other URLs, and for hosts that only end
/// in those names (such as `notyoutube.com`).
pub fn extract_youtube_video_id(url: &str) -> (r: Option<String>)
    ensures
        match r {
            Some(id) => youtube_video_id_spec(url@) == Some(id@),
            None => youtube_video_id_spec(url@) is None,
        },
        r matches Some(id) ==> id@.len() == 11 && (forall|i: int|
            0 <= i < id@.len() ==> is_video_id_char(#[trigger] id@[i])) && exists|i: int|
            occurs_at(url@, i, id@),
        r matches Some(id) ==> names_youtube_host(url@),
        r matches Some(id) ==> (exists|i: int| occurs_at(url@, i, "youtube.com/"@)) || (exists|
            i: int,
        | occurs_at(url@, i, "youtu.be/"@)),
{
    let r = regex_capture(VIDEO_ID_PATTERN, url, 1);
    proof {
        if r is Some {
            lemma_host_occurs(url@);
        }
    }
    r
}

/// A URL with a YouTube host holds `youtube.com/` or `youtu.be/`.
proof fn lemma_host_occurs(url: Seq<char>)
    requires
        names_youtube_host(url),
    ensures
        (exists|i: int| occurs_at(url, i, "youtube.com/"@)) || (exists|i: int|
            occurs_at(url, i, "youtu.be/"@)),
{
    let k = choose|k: int| #[trigger] youtube_host_at(url, k);
    let a = "youtube.com/"@;
    let b = "youtu.be/"@;
    if starts_with(url.skip(k), a) {
        assert(url.subrange(k, k + a.len()) =~= url.skip(k).subrange(0, a.len() as int));
        assert(occurs_at(url, k, a));
    } else {
        assert(url.subrange(k, k + b.len()) =~= url.skip(k).subrange(0, b.len() as int));
        assert(occurs_at(url, k, b));
    }
}

/// The character a decimal reference denotes, or the reference itself when
/// its digits do not name a Unicode scalar value.
pub open spec fn numeric_reference_spec(digits: Seq<char>, whole: Seq<char>) -> Seq<char> {
    match parse_u32_spec(digits) {
        Some(v) => if is_scalar(v) {
            seq![v as char]
        } else {
            whole
        },
        None => whole,
    }
}

/// `char::from_u32`: the character with code `v`, if `v` is a Unicode
/// scalar value.
#[verifier::external_body]
fn char_from_u32(v: u32) -> (r: Option<char>)
    ensures
        r is Some <==> is_scalar(v),
        r matches Some(c) ==> c as u32 == v,
{
    char::from_u32(v)
}

/// The replacement for one decimal character reference: `digits` are the
/// digits between `&#` and `;`, `whole` is the reference.
pub fn decode_numeric_reference(digits: &str, whole: &str) -> (r: String)
    ensures
        r@ == numeric_reference_spec(digits@, whole@),
{
    match parse_u32(digits) {
        Some(v) => match char_from_u32(v) {
            Some(c) => {
                let mut s = String::new();
                crate::text::push_char(&mut s, c);
                proof {
                    vstd::utf8::char_u32_cast(c, v);
                }
                assert(s@ =~= seq![v as char]);
                s
            },
            None => whole.to_owned(),
        },
        None => whole.to_owned(),
    }
}

/// The number of ASCII digits that `s` starts with.
pub open spec fn leading_digits(s: Seq<char>) -> nat
    decreases s.len(),
{
    if s.len() > 0 && crate::text::is_digit(s[0]) {
        1 + leading_digits(s.drop_first())
    } else {
        0
    }
}

/// The length of the decimal character reference (`&#`, ASCII digits, `;`)
/// that `s` starts with, if it starts with one.
pub open spec fn reference_len(s: Seq<char>) -> Option<int> {
    if s.len() >= 2 && s[0] == '&' && s[1] == '#' {
        let d: int = leading_digits(s.skip(2)) as int;
        if d > 0 && 2 + d < s.len() && s[2 + d] == ';' {
            Some(3 + d)
        } else {
            None
        }
    } else {
        None
    }
}

/// `s` with each decimal character reference, taken from left to right
/// without overlap, replaced by `numeric_reference_spec` of its digits and
/// of itself.
pub open spec fn numeric_refs_decoded(s: Seq<char>) -> Seq<char>
    decreases s.len(),
{
    if s.len() == 0 {
        s
    } else {
        match reference_len(s) {
            Some(n) => numeric_reference_spec(s.subrange(2, n - 1), s.take(n))
                + numeric_refs_decoded(s.skip(n)),
            None => seq![s[0]] + numeric_refs_decoded(s.drop_first()),
        }
    }
}

/// Calls `regex::Regex::new(pattern)` (here `&#(\d+);`) and
/// `Regex::replace_all(text, ..)`, with a replacement that hands the digits
/// and the whole match to `decode_numeric_reference`. `replace_all` replaces
/// the leftmost-first non-overlapping matches from left to right and leaves
/// the rest of the text as it is. The pattern's `\d` also matches non-ASCII
/// decimal digits, but digits that are not all ASCII do not parse as a
/// `u32`, so such a match is replaced by itself; and since a match holds
/// no `&` but at its start, the text comes out as when only references with
/// ASCII digits are replaced, which is what the contract states.
#[verifier::external_body]
fn regex_replace_numeric_references(pattern: &str, text: &str) -> (r: String)
    requires
        pattern@ == NUMERIC_REF_PATTERN@,
    ensures
        r@ == numeric_refs_decoded(text@),
{
    match regex::Regex::new(pattern) {
        Ok(re) => re.replace_all(
            text,
            |caps: &regex::Captures| decode_numeric_reference(&caps[1], &caps[0]),
        ).to_string(),
        Err(_) => text.to_owned(),
    }
}

/// Text without `&` holds no character reference.
proof fn lemma_numeric_refs_plain(s: Seq<char>)
    requires
        !s.contains('&'),
    ensures
        numeric_refs_decoded(s) == s,
    decreases s.len(),
{
    if s.len() > 0 {
        assert(s[0] != '&');
        assert(!s.drop_first().contains('&')) by {
            if s.drop_first().contains('&') {
                let k = choose|k: int| 0 <= k < s.drop_first().len() && s.drop_first()[k] == '&';
                assert(s[k + 1] == '&');
            }
        }
        lemma_numeric_refs_plain(s.drop_first());
        assert(seq![s[0]] + s.drop_first() =~= s);
    }
}

/// The named entities that caption XML uses, each with its replacement, in
/// the order they are replaced; a line break becomes a space.
pub open spec fn entity_chain(s: Seq<char>) -> Seq<char> {
    let s1 = replace_spec(s, seq!['&', 'a', 'm', 'p', ';'], seq!['&']);
    let s2 = replace_spec(s1, seq!['&', 'l', 't', ';'], seq!['<']);
    let s3 = replace_spec(s2, seq!['&', 'g', 't', ';'], seq!['>']);
    let s4 = replace_spec(s3, seq!['&', 'q', 'u', 'o', 't', ';'], seq!['"']);
    let s5 = replace_spec(s4, seq!['&', '#', '3', '9', ';'], seq!['\'']);
    let s6 = replace_spec(s5, seq!['&', 'a', 'p', 'o', 's', ';'], seq!['\'']);
    let s7 = replace_spec(s6, seq!['&', 'n', 'b', 's', 'p', ';'], seq![' ']);
    replace_spec(s7, seq!['\n'], seq![' '])
}

/// Caption text with its HTML entities decoded.
pub open spec fn decode_entities_spec(s: Seq<char>) -> Seq<char> {
    numeric_refs_decoded(entity_chain(s))
}

fn decode_entities_chars(s: &Vec<char>) -> (r: Vec<char>)
    ensures
        r@ == decode_entities_spec(s@),
        !s@.contains('&') && !s@.contains('\n') ==> r@ == s@,
{
    proof {
        if !s@.contains('&') && !s@.contains('\n') {
            lemma_entity_chain_plain(s@);
            lemma_numeric_refs_plain(s@);
        }
    }
    let p1 = vec!['&', 'a', 'm', 'p', ';'];
    let r1 = vec!['&'];
    let p2 = vec!['&', 'l', 't', ';'];
    let r2 = vec!['<'];
    let p3 = vec!['&', 'g', 't', ';'];
    let r3 = vec!['>'];
    let p4 = vec!['&', 'q', 'u', 'o', 't', ';'];
    let r4 = vec!['"'];
    let p5 = vec!['&', '#', '3', '9', ';'];
    let r5 = vec!['\''];
    let p6 = vec!['&', 'a', 'p', 'o', 's', ';'];
    let r6 = vec!['\''];
    let p7 = vec!['&', 'n', 'b', 's', 'p', ';'];
    let r7 = vec![' '];
    let p8 = vec!['\n'];
    let r8 = vec![' '];
    assert(p1@ =~= seq!['&', 'a', 'm', 'p', ';'] && r1@ =~= seq!['&']);
    assert(p2@ =~= seq!['&', 'l', 't', ';'] && r2@ =~= seq!['<']);
    assert(p3@ =~= seq!['&', 'g', 't', ';'] && r3@ =~= seq!['>']);
    assert(p4@ =~= seq!['&', 'q', 'u', 'o', 't', ';'] && r4@ =~= seq!['"']);
    assert(p5@ =~= seq!['&', '#', '3', '9', ';'] && r5@ =~= seq!['\'']);
    assert(p6@ =~= seq!['&', 'a', 'p', 'o', 's', ';'] && r6@ =~= seq!['\'']);
    assert(p7@ =~= seq!['&', 'n', 'b', 's', 'p', ';'] && r7@ =~= seq![' ']);
    assert(p8@ =~= seq!['\n'] && r8@ =~= seq![' ']);
    let s1 = replace_all(s, &p1, &r1);
    let s2 = replace_all(&s1, &p2, &r2);
    let s3 = replace_all(&s2, &p3, &r3);
    let s4 = replace_all(&s3, &p4, &r4);
    let s5 = replace_all(&s4, &p5, &r5);
    let s6 = replace_all(&s5, &p6, &r6);
    let s7 = replace_all(&s6, &p7, &r7);
    let s8 = replace_all(&s7, &p8, &r8);
    let text = string_from_chars(&s8);
    let out = regex_replace_numeric_references(NUMERIC_REF_PATTERN, text.as_str());
    chars_of(out.as_str())
}

/// Decodes the HTML entities found in YouTube caption XML.
pub fn decode_html_entities(s: &str) -> (r: String)
    ensures
        r@ == decode_entities_spec(s@),
        !s@.contains('&') && !s@.contains('\n') ==> r@ == s@,
{
    let v = chars_of(s);
    let d = decode_entities_chars(&v);
    string_from_chars(&d)
}

/// The text of one piece of caption XML that followed a `<text ` tag: what
/// lies between the first `>` and the next `</text>`, decoded and trimmed;
/// `None` when either is missing or the text is blank.
pub open spec fn caption_segment(piece: Seq<char>) -> Option<Seq<char>> {
    match find_spec(piece, seq!['>']) {
        Some(g) => {
            let content = piece.skip(g + 1);
            match find_spec(content, seq!['<', '/', 't', 'e', 'x', 't', '>']) {
                Some(e) => {
                    let t = trim_spec(decode_entities_spec(content.take(e)));
                    if t.len() > 0 {
                        Some(t)
                    } else {
                        None
                    }
                },
                None => None,
            }
        },
        None => None,
    }
}

/// The segments of the pieces that have one, in order.
pub open spec fn caption_segments(pieces: Seq<Seq<char>>) -> Seq<Seq<char>>
    decreases pieces.len(),
{
    if pieces.len() == 0 {
        Seq::empty()
    } else {
        match caption_segment(pieces[0]) {
            Some(t) => seq![t] + caption_segments(pieces.drop_first()),
            None => caption_segments(pieces.drop_first()),
        }
    }
}

/// The transcript in caption XML: the text of each `<text ...>...</text>`
/// element, decoded and trimmed, blank ones left out, joined by spaces.
pub open spec fn caption_text_spec(xml: Seq<char>) -> Seq<char> {
    join_spec(caption_segments(split_spec(xml, seq!['<', 't', 'e', 'x', 't', ' '])), seq![' '])
}

fn caption_segment_of(piece: &Vec<char>) -> (r: Option<Vec<char>>)
    ensures
        match r {
            Some(t) => caption_segment(piece@) == Some(t@),
            None => caption_segment(piece@) is None,
        },
{
    let n = piece.len();
    let gt = vec!['>'];
    assert(gt@ =~= seq!['>']);
    match find_from(piece, &gt, 0) {
        Some(g) => {
            proof {
                lemma_find_from(piece@, gt@, 0);
                assert(occurs_at(piece@, g as int, gt@));
                assert(gt@.len() == 1);
                assert(g + 1 <= n);
            }
            let content = slice_chars(piece, g + 1, n);
            assert(content@ =~= piece@.skip(g + 1));
            let close = vec!['<', '/', 't', 'e', 'x', 't', '>'];
            assert(close@ =~= seq!['<', '/', 't', 'e', 'x', 't', '>']);
            match find_from(&content, &close, 0) {
                Some(e) => {
                    proof {
                        lemma_find_from(content@, close@, 0);
                    }
                    let inner = slice_chars(&content, 0, e);
                    assert(inner@ =~= content@.take(e as int));
                    let decoded = decode_entities_chars(&inner);
                    let t = trim(&decoded);
                    if t.len() > 0 {
                        Some(t)
                    } else {
                        None
                    }
                },
                None => None,
            }
        },
        None => None,
    }
}

/// The transcript held in YouTube caption XML: the text of each `<text>`
/// element, decoded and trimmed, blank ones left out, joined by spaces.
pub fn parse_caption_xml(xml: &str) -> (r: String)
    ensures
        r@ == caption_text_spec(xml@),
{
    let v = chars_of(xml);
    let sep = vec!['<', 't', 'e', 'x', 't', ' '];
    assert(sep@ =~= seq!['<', 't', 'e', 'x', 't', ' ']);
    let ghost whole = caption_segments(split_spec(v@, sep@));
    let mut segs: Vec<Vec<char>> = Vec::new();
    let mut pos: usize = 0;
    assert(v@.skip(0) =~= v@);
    loop
        invariant_except_break
            pos <= v.len(),
            sep@ == seq!['<', 't', 'e', 'x', 't', ' '],
            whole == caption_segments(split_spec(v@, sep@)),
            whole == segs@.map_values(|p: Vec<char>| p@) + caption_segments(
                split_spec(v@.skip(pos as int), sep@),
            ),
        ensures
            whole == segs@.map_values(|p: Vec<char>| p@),
        decreases v.len() - pos,
    {
        let ghost rest = v@.skip(pos as int);
        let found = find_from(&v, &sep, pos);
        proof {
            lemma_find_skip(v@, sep@, pos as int, 0);
        }
        match found {
            Some(i) => {
                proof {
                    lemma_find_from(v@, sep@, pos as int);
                }
                let piece = slice_chars(&v, pos, i);
                let ghost k = i - pos;
                assert(piece@ =~= rest.take(k));
                assert(rest.skip(k + sep@.len()) =~= v@.skip(i + sep@.len()));
                assert(split_spec(rest, sep@) == seq![rest.take(k)] + split_spec(
                    rest.skip(k + sep@.len()),
                    sep@,
                ));
                let ghost tail = split_spec(v@.skip(i + sep@.len()), sep@);
                assert((seq![piece@] + tail).drop_first() =~= tail);
                let seg = caption_segment_of(&piece);
                let ghost before = segs@.map_values(|p: Vec<char>| p@);
                match seg {
                    Some(t) => {
                        segs.push(t);
                        assert(segs@.map_values(|p: Vec<char>| p@) =~= before.push(t@));
                    },
                    None => {},
                }
                pos = i + sep.len();
            },
            None => {
                let piece = slice_chars(&v, pos, v.len());
                assert(piece@ =~= rest);
                assert(split_spec(rest, sep@) == seq![rest]);
                assert(seq![rest].drop_first() =~= Seq::<Seq<char>>::empty());
                assert(caption_segments(Seq::<Seq<char>>::empty()) =~= Seq::<Seq<char>>::empty());
                let seg = caption_segment_of(&piece);
                let ghost before = segs@.map_values(|p: Vec<char>| p@);
                match seg {
                    Some(t) => {
                        segs.push(t);
                        assert(segs@.map_values(|p: Vec<char>| p@) =~= before.push(t@));
                    },
                    None => {},
                }
                assert(segs@.map_values(|p: Vec<char>| p@) =~= whole);
                break ;
            },
        }
    }
    let space = vec![' '];
    assert(space@ =~= seq![' ']);
    let joined = join_chars(&segs, &space);
    string_from_chars(&joined)
}


/// The brace-matching state after reading a prefix: nesting depth, inside a
/// string literal, and whether the next character is escaped.
pub open spec fn scan_step(st: (int, bool, bool), c: char) -> (int, bool, bool) {
    let (depth, in_string, escape) = st;
    if escape {
        (depth, in_string, false)
    } else if c == '\\' && in_string {
        (depth, in_string, true)
    } else if c == '"' {
        (depth, !in_string, false)
    } else if c == '{' && !in_string {
        (depth + 1, in_string, false)
    } else if c == '}' && !in_string {
        (depth - 1, in_string, false)
    } else {
        st
    }
}

/// The brace-matching state after reading all of `s`.
pub open spec fn scan_state(s: Seq<char>) -> (int, bool, bool)
    decreases s.len(),
{
    if s.len() == 0 {
        (0, false, false)
    } else {
        scan_step(scan_state(s.drop_last()), s.last())
    }
}

/// Position `j` of `s` holds the `}` that closes the outermost object:
/// it is not escaped, not inside a string, and the depth before it is 1.
pub open spec fn closes_at(s: Seq<char>, j: int) -> bool {
    let st = scan_state(s.take(j));
    0 <= j < s.len() && !st.2 && !st.1 && s[j] == '}' && st.0 == 1
}

/// The first position at or after `j` that closes the outermost object.
pub open spec fn first_close_from(s: Seq<char>, j: int) -> Option<int>
    decreases s.len() - j,
{
    if j < 0 || j >= s.len() {
        None
    } else if closes_at(s, j) {
        Some(j)
    } else {
        first_close_from(s, j + 1)
    }
}

/// The JSON text of `ytInitialPlayerResponse` in a watch page: from the
/// first `{` after the first occurrence of the name up to the `}` that
/// closes it, strings and escapes taken into account.
pub open spec fn player_response_text_spec(html: Seq<char>) -> Option<Seq<char>> {
    let marker = "ytInitialPlayerResponse"@;
    match find_spec(html, marker) {
        Some(m) => {
            let after = html.skip(m + marker.len());
            match find_spec(after, seq!['{']) {
                Some(b) => {
                    let js = after.skip(b);
                    match first_close_from(js, 0) {
                        Some(j) => Some(js.take(j + 1)),
                        None => None,
                    }
                },
                None => None,
            }
        },
        None => None,
    }
}

/// Finds the JSON text of `ytInitialPlayerResponse` in a YouTube watch page.
/// Parsing that text is left to the caller.
pub fn extract_player_response(html: &str) -> (r: Option<String>)
    ensures
        match r {
            Some(t) => player_response_text_spec(html@) == Some(t@),
            None => player_response_text_spec(html@) is None,
        },
{
    let h = chars_of(html);
    let marker = chars_of("ytInitialPlayerResponse");
    let m = match find_from(&h, &marker, 0) {
        Some(m) => m,
        None => return None,
    };
    proof {
        lemma_find_from(h@, marker@, 0);
    }
    let hn = h.len();
    assert(m + marker@.len() <= hn);
    assert(find_spec(h@, marker@) == Some(m as int));
    let after = slice_chars(&h, m + marker.len(), hn);
    assert(after@ =~= h@.skip(m + marker@.len()));
    let brace = vec!['{'];
    assert(brace@ =~= seq!['{']);
    let b = match find_from(&after, &brace, 0) {
        Some(b) => b,
        None => return None,
    };
    proof {
        lemma_find_from(after@, brace@, 0);
    }
    assert(find_spec(after@, seq!['{']) == Some(b as int));
    let an = after.len();
    let js = slice_chars(&after, b, an);
    assert(js@ =~= after@.skip(b as int));
    assert(js@[0] == '{');
    let mut depth: usize = 0;
    let mut in_string = false;
    let mut escape = false;
    let mut i: usize = 0;
    assert(js@.take(0) =~= Seq::<char>::empty());
    while i < js.len()
        invariant
            i <= js.len(),
            js@.len() > 0,
            js@[0] == '{',
            scan_state(js@.take(i as int)) == (depth as int, in_string, escape),
            i > 0 ==> depth >= 1,
            depth <= i,
            first_close_from(js@, 0) == first_close_from(js@, i as int),
            marker@ == "ytInitialPlayerResponse"@,
            h@ == html@,
            find_spec(h@, marker@) == Some(m as int),
            after@ == h@.skip(m + marker@.len()),
            find_spec(after@, seq!['{']) == Some(b as int),
            js@ == after@.skip(b as int),
        decreases js.len() - i,
    {
        let c = js[i];
        assert(js@.take(i + 1).drop_last() =~= js@.take(i as int));
        assert(js@.take(i + 1).last() == c);
        if escape {
            escape = false;
        } else if c == '\\' && in_string {
            escape = true;
        } else if c == '"' {
            in_string = !in_string;
        } else if c == '{' && !in_string {
            depth = depth + 1;
        } else if c == '}' && !in_string {
            if depth == 1 {
                assert(closes_at(js@, i as int));
                assert(first_close_from(js@, i as int) == Some(i as int));
                let text = slice_chars(&js, 0, i + 1);
                assert(text@ =~= js@.take(i + 1));
                assert(marker@ == "ytInitialPlayerResponse"@);
                assert(find_spec(h@, marker@) == Some(m as int));
                assert(find_spec(after@, seq!['{']) == Some(b as int));
                return Some(string_from_chars(&text));
            }
            depth = depth - 1;
        }
        i = i + 1;
    }
    None
}

/// The number of `"` characters in `m`.
pub open spec fn quote_count(m: Seq<char>) -> nat
    decreases m.len(),
{
    if m.len() == 0 {
        0
    } else {
        quote_count(m.drop_last()) + if m.last() == '"' {
            1nat
        } else {
            0nat
        }
    }
}

/// `m` can stand between the braces of a flat JSON object: it holds no
/// brace and no backslash, and its `"` characters pair up into strings.
/// Any other character, such as an apostrophe, may stand in it, inside a
/// string or outside.
pub open spec fn is_flat_object_body(m: Seq<char>) -> bool {
    &&& forall|i: int| 0 <= i < m.len() ==> (#[trigger] m[i]) != '{' && m[i] != '}' && m[i] != '\\'
    &&& quote_count(m) % 2 == 0
}

proof fn lemma_flat_scan(m: Seq<char>, k: int)
    requires
        0 <= k <= m.len(),
        forall|i: int| 0 <= i < m.len() ==> (#[trigger] m[i]) != '{' && m[i] != '}' && m[i] != '\\',
    ensures
        scan_state(seq!['{'] + m.take(k)) == (1int, quote_count(m.take(k)) % 2 == 1, false),
    decreases k,
{
    if k == 0 {
        assert(seq!['{'] + m.take(0) =~= seq!['{']);
        assert(seq!['{'].drop_last() =~= Seq::<char>::empty());
        assert(scan_state(Seq::<char>::empty()) == (0int, false, false));
        assert(scan_state(seq!['{']) == (1int, false, false));
        assert(m.take(0) =~= Seq::<char>::empty());
        assert(quote_count(m.take(0)) == 0);
    } else {
        lemma_flat_scan(m, k - 1);
        let t = seq!['{'] + m.take(k);
        let c = m[k - 1];
        assert(t.drop_last() =~= seq!['{'] + m.take(k - 1));
        assert(t.last() == c);
        assert(m.take(k).drop_last() =~= m.take(k - 1));
        assert(m.take(k).last() == c);
        let q = quote_count(m.take(k - 1));
        assert(c != '{' && c != '}' && c != '\\');
        if c == '"' {
            assert(quote_count(m.take(k)) == q + 1);
            assert(((q + 1) % 2 == 1) == !(q % 2 == 1));
        } else {
            assert(quote_count(m.take(k)) == q);
        }
    }
}

proof fn lemma_first_close_at(s: Seq<char>, i: int, j: int)
    requires
        0 <= i <= j,
        closes_at(s, j),
        forall|k: int| i <= k < j ==> !(#[trigger] closes_at(s, k)),
    ensures
        first_close_from(s, i) == Some(j),
    decreases j - i,
{
    if i < j {
        assert(!closes_at(s, i));
        lemma_first_close_at(s, i + 1, j);
    }
}

/// Only `"` opens and closes strings when the braces are matched: after the
/// marker and any text without `{`, a flat object (no braces or backslashes
/// inside, its quotes paired, apostrophes anywhere) is found whole, whatever
/// follows it.
pub proof fn law_flat_object_found(p: Seq<char>, m: Seq<char>, rest: Seq<char>)
    requires
        forall|i: int| 0 <= i < p.len() ==> #[trigger] p[i] != '{',
        is_flat_object_body(m),
    ensures
        player_response_text_spec("ytInitialPlayerResponse"@ + p + (seq!['{'] + m + seq!['}'])
            + rest) == Some(seq!['{'] + m + seq!['}']),
{
    let marker = "ytInitialPlayerResponse"@;
    let o = seq!['{'] + m + seq!['}'];
    let html = marker + p + o + rest;
    assert(html.subrange(0, marker.len() as int) =~= marker);
    assert(find_spec(html, marker) == Some(0int));
    let after = html.skip(marker.len() as int);
    assert(after =~= p + o + rest);
    let brace = seq!['{'];
    assert(after.subrange(p.len() as int, p.len() + 1int) =~= brace);
    assert(occurs_at(after, p.len() as int, brace));
    lemma_find_from(after, brace, 0);
    match crate::text::find_from_spec(after, brace, 0) {
        Some(k) => {
            if k < p.len() {
                assert(after.subrange(k, k + 1)[0] == after[k]);
                assert(after[k] == p[k]);
            }
            assert(k == p.len());
        },
        None => {},
    }
    assert(find_spec(after, brace) == Some(p.len() as int));
    let js = after.skip(p.len() as int);
    assert(js =~= o + rest);
    let j: int = m.len() as int + 1;
    lemma_flat_scan(m, m.len() as int);
    assert(m.take(m.len() as int) =~= m);
    assert(js.take(j) =~= seq!['{'] + m);
    assert(js[j] == '}');
    assert(closes_at(js, j));
    assert forall|k: int| 0 <= k < j implies !(#[trigger] closes_at(js, k)) by {
        if k > 0 {
            assert(js[k] == m[k - 1]);
        }
    }
    lemma_first_close_at(js, 0, j);
    assert(js.take(j + 1) =~= o);
}

/// A caption track as the player response lists it.
#[derive(Debug)]
pub struct CaptionTrack {
    /// `baseUrl`, when it is a string.
    pub base_url: Option<String>,
    /// `languageCode`, when it is a string.
    pub language_code: Option<String>,
    /// `kind`, when it is a string (`asr` for automatic captions).
    pub kind: Option<String>,
}

/// The fields of the player response that transcription reads, each present
/// when it is there and of the right JSON type.
#[derive(Debug)]
pub struct PlayerResponse {
    /// `videoDetails.title`.
    pub title: Option<String>,
    /// `videoDetails.author`.
    pub author: Option<String>,
    /// `videoDetails.lengthSeconds`.
    pub length_seconds: Option<String>,
    /// `microformat.playerMicroformatRenderer.publishDate`.
    pub publish_date: Option<String>,
    /// `captions.playerCaptionsTracklistRenderer.captionTracks`, when it is an
    /// array.
    pub caption_tracks: Option<Vec<CaptionTrack>>,
}

/// Whether `serde_json::from_str::<serde_json::Value>` accepts `text`:
/// valid JSON within serde_json's nesting limit.
pub uninterp spec fn json_is_valid(text: Seq<char>) -> bool;

/// The string found in the JSON value `text` by following the object keys
/// of `path` (serde_json's `value[key]` at each step, `as_str` at the end):
/// `None` when some key is missing or the value there is not a string.
pub uninterp spec fn json_text_at(text: Seq<char>, path: Seq<Seq<char>>) -> Option<Seq<char>>;

/// For the array found in the JSON value `text` by following `path`: for
/// each element, in order, the string under each key of `fields` (`None`
/// where it is missing or not a string). `None` when no array is there.
pub uninterp spec fn json_string_rows_at(
    text: Seq<char>,
    path: Seq<Seq<char>>,
    fields: Seq<Seq<char>>,
) -> Option<Seq<Seq<Option<Seq<char>>>>>;

/// The text of an optional string.
pub open spec fn opt_text(o: Option<String>) -> Option<Seq<char>> {
    match o {
        Some(s) => Some(s@),
        None => None,
    }
}

/// The texts of a list of `&str`.
pub open spec fn str_texts(v: Seq<&str>) -> Seq<Seq<char>> {
    v.map_values(|s: &str| s@)
}

/// The texts of rows of optional strings.
pub open spec fn rows_text(rows: Seq<Vec<Option<String>>>) -> Seq<Seq<Option<Seq<char>>>> {
    rows.map_values(|r: Vec<Option<String>>| r@.map_values(|o: Option<String>| opt_text(o)))
}

/// Parses `text` with `serde_json::from_str::<serde_json::Value>` and, when
/// that succeeds, reads the string at each path of `paths` and the rows of
/// the array at `array_path` (for each element the strings under `fields`).
/// The contract says when the parse succeeds and names what is read; each
/// row has one entry per field, as the body collects them.
#[verifier::external_body]
fn parse_json_fields(
    text: &str,
    paths: &Vec<Vec<&str>>,
    array_path: &Vec<&str>,
    fields: &Vec<&str>,
) -> (r: Option<(Vec<Option<String>>, Option<Vec<Vec<Option<String>>>>)>)
    ensures
        r is Some <==> json_is_valid(text@),
        r matches Some((strs, rows)) ==> strs@.len() == paths@.len() && forall|i: int|
            0 <= i < paths@.len() ==> opt_text(#[trigger] strs@[i]) == json_text_at(
                text@,
                str_texts(paths@[i]@),
            ),
        r matches Some((strs, rows)) ==> match rows {
            Some(rs) => json_string_rows_at(text@, str_texts(array_path@), str_texts(fields@))
                == Some(rows_text(rs@)) && forall|j: int|
                0 <= j < rs@.len() ==> (#[trigger] rs@[j])@.len() == fields@.len(),
            None => json_string_rows_at(text@, str_texts(array_path@), str_texts(fields@)) is None,
        },
{
    let v: serde_json::Value = serde_json::from_str(text).ok()?;
    let at = |p: &Vec<&str>| p.iter().fold(&v, |x, k| &x[*k]);
    let strs = paths.iter().map(|p| at(p).as_str().map(String::from)).collect();
    let rows = at(array_path).as_array().map(
        |ts| ts.iter().map(|t| fields.iter().map(|f| t[*f].as_str().map(String::from)).collect()).collect(),
    );
    Some((strs, rows))
}

/// The key paths of the player response's fields that transcription reads.
pub open spec fn title_path() -> Seq<Seq<char>> {
    seq!["videoDetails"@, "title"@]
}

/// The key path of the channel name.
pub open spec fn author_path() -> Seq<Seq<char>> {
    seq!["videoDetails"@, "author"@]
}

/// The key path of the length in seconds.
pub open spec fn length_path() -> Seq<Seq<char>> {
    seq!["videoDetails"@, "lengthSeconds"@]
}

/// The key path of the publication date.
pub open spec fn publish_date_path() -> Seq<Seq<char>> {
    seq!["microformat"@, "playerMicroformatRenderer"@, "publishDate"@]
}

/// The key path of the caption track list.
pub open spec fn tracks_path() -> Seq<Seq<char>> {
    seq!["captions"@, "playerCaptionsTracklistRenderer"@, "captionTracks"@]
}

/// The keys read of each caption track.
pub open spec fn track_fields() -> Seq<Seq<char>> {
    seq!["baseUrl"@, "languageCode"@, "kind"@]
}

/// A track as the strings under its three keys.
pub open spec fn track_row(t: CaptionTrack) -> Seq<Option<Seq<char>>> {
    seq![opt_text(t.base_url), opt_text(t.language_code), opt_text(t.kind)]
}

/// `p` holds what the player response JSON `text` gives for each field.
pub open spec fn player_response_read_from(p: PlayerResponse, text: Seq<char>) -> bool {
    &&& opt_text(p.title) == json_text_at(text, title_path())
    &&& opt_text(p.author) == json_text_at(text, author_path())
    &&& opt_text(p.length_seconds) == json_text_at(text, length_path())
    &&& opt_text(p.publish_date) == json_text_at(text, publish_date_path())
    &&& match p.caption_tracks {
        Some(ts) => json_string_rows_at(text, tracks_path(), track_fields()) == Some(
            ts@.map_values(|t: CaptionTrack| track_row(t)),
        ),
        None => json_string_rows_at(text, tracks_path(), track_fields()) is None,
    }
}

fn clone_opt(o: &Option<String>) -> (r: Option<String>)
    ensures
        opt_text(r) == opt_text(*o),
{
    match o {
        Some(s) => Some(s.clone()),
        None => None,
    }
}

fn tracks_of_rows(rows: &Vec<Vec<Option<String>>>) -> (r: Vec<CaptionTrack>)
    requires
        forall|j: int| 0 <= j < rows@.len() ==> (#[trigger] rows@[j])@.len() == 3,
    ensures
        r@.map_values(|t: CaptionTrack| track_row(t)) == rows_text(rows@),
{
    let mut out: Vec<CaptionTrack> = Vec::new();
    let mut j: usize = 0;
    while j < rows.len()
        invariant
            j <= rows.len(),
            forall|k: int| 0 <= k < rows@.len() ==> (#[trigger] rows@[k])@.len() == 3,
            out@.len() == j,
            forall|k: int| 0 <= k < j ==> track_row(#[trigger] out@[k]) == rows_text(rows@)[k],
        decreases rows.len() - j,
    {
        let row = &rows[j];
        let t = CaptionTrack {
            base_url: clone_opt(&row[0]),
            language_code: clone_opt(&row[1]),
            kind: clone_opt(&row[2]),
        };
        assert(track_row(t) =~= rows_text(rows@)[j as int]);
        out.push(t);
        j = j + 1;
    }
    assert(out@.map_values(|t: CaptionTrack| track_row(t)) =~= rows_text(rows@));
    out
}

/// Reads the player response of a YouTube watch page: finds its JSON text
/// and parses it. Fails with `NoPlayerResponse` exactly when the page holds
/// no brace-matched `ytInitialPlayerResponse` or that text is not JSON.
pub fn read_player_response(html: &str) -> (r: Result<PlayerResponse, CaptionError>)
    ensures
        match player_response_text_spec(html@) {
            None => r == Err::<PlayerResponse, CaptionError>(CaptionError::NoPlayerResponse),
            Some(t) => if json_is_valid(t) {
                r matches Ok(p) && player_response_read_from(p, t)
            } else {
                r == Err::<PlayerResponse, CaptionError>(CaptionError::NoPlayerResponse)
            },
        },
{
    let text = match extract_player_response(html) {
        Some(t) => t,
        None => return Err(CaptionError::NoPlayerResponse),
    };
    let paths: Vec<Vec<&str>> = vec![
        vec!["videoDetails", "title"],
        vec!["videoDetails", "author"],
        vec!["videoDetails", "lengthSeconds"],
        vec!["microformat", "playerMicroformatRenderer", "publishDate"],
    ];
    let array_path: Vec<&str> = vec!["captions", "playerCaptionsTracklistRenderer", "captionTracks"];
    let fields: Vec<&str> = vec!["baseUrl", "languageCode", "kind"];
    assert(str_texts(paths@[0]@) =~= title_path());
    assert(str_texts(paths@[1]@) =~= author_path());
    assert(str_texts(paths@[2]@) =~= length_path());
    assert(str_texts(paths@[3]@) =~= publish_date_path());
    assert(str_texts(array_path@) =~= tracks_path());
    assert(str_texts(fields@) =~= track_fields());
    let (strs, rows) = match parse_json_fields(text.as_str(), &paths, &array_path, &fields) {
        Some(x) => x,
        None => return Err(CaptionError::NoPlayerResponse),
    };
    let caption_tracks = match &rows {
        Some(rs) => Some(tracks_of_rows(rs)),
        None => None,
    };
    let p = PlayerResponse {
        title: clone_opt(&strs[0]),
        author: clone_opt(&strs[1]),
        length_seconds: clone_opt(&strs[2]),
        publish_date: clone_opt(&strs[3]),
        caption_tracks,
    };
    Ok(p)
}

/// A track can be fetched: it has a base URL.
pub open spec fn track_usable(t: CaptionTrack) -> bool {
    t.base_url is Some
}

/// The language code of a track, empty when missing.
pub open spec fn track_lang(t: CaptionTrack) -> Seq<char> {
    match t.language_code {
        Some(l) => l@,
        None => Seq::empty(),
    }
}

/// A track holds automatic speech recognition captions.
pub open spec fn track_is_asr(t: CaptionTrack) -> bool {
    match t.kind {
        Some(k) => k@ == seq!['a', 's', 'r'],
        None => false,
    }
}

/// The last usable track among the first `n` whose kind is `asr` and whose
/// language is `lang`.
pub open spec fn last_matching(ts: Seq<CaptionTrack>, lang: Seq<char>, asr: bool, n: int) -> Option<
    int,
>
    decreases n,
{
    if n <= 0 {
        None
    } else if track_usable(ts[n - 1]) && track_is_asr(ts[n - 1]) == asr && track_lang(ts[n - 1])
        == lang {
        Some(n - 1)
    } else {
        last_matching(ts, lang, asr, n - 1)
    }
}

/// The first usable track among the first `n` whose kind is `asr`.
pub open spec fn first_of_kind(ts: Seq<CaptionTrack>, asr: bool, n: int) -> Option<int>
    decreases n,
{
    if n <= 0 {
        None
    } else {
        match first_of_kind(ts, asr, n - 1) {
            Some(k) => Some(k),
            None => if track_usable(ts[n - 1]) && track_is_asr(ts[n - 1]) == asr {
                Some(n - 1)
            } else {
                None
            },
        }
    }
}

/// The track to fetch: a manual track in the preferred language, else an
/// automatic one in it (the last such in each case), else the first manual
/// track, else the first automatic one.
pub open spec fn chosen_track(ts: Seq<CaptionTrack>, lang: Seq<char>) -> Option<int> {
    let n = ts.len() as int;
    match last_matching(ts, lang, false, n) {
        Some(i) => Some(i),
        None => match last_matching(ts, lang, true, n) {
            Some(i) => Some(i),
            None => match first_of_kind(ts, false, n) {
                Some(i) => Some(i),
                None => first_of_kind(ts, true, n),
            },
        },
    }
}

/// The URL, language code and kind of the track to fetch.
pub open spec fn selected_track_spec(ts: Seq<CaptionTrack>, lang: Seq<char>) -> Option<
    (Seq<char>, Seq<char>, bool),
> {
    match chosen_track(ts, lang) {
        Some(i) => Some(
            (
                match ts[i].base_url {
                    Some(u) => u@,
                    None => Seq::empty(),
                },
                track_lang(ts[i]),
                track_is_asr(ts[i]),
            ),
        ),
        None => None,
    }
}

proof fn lemma_last_matching_bounds(ts: Seq<CaptionTrack>, lang: Seq<char>, asr: bool, n: int)
    requires
        0 <= n <= ts.len(),
    ensures
        last_matching(ts, lang, asr, n) matches Some(i) ==> 0 <= i < n && track_usable(ts[i])
            && track_is_asr(ts[i]) == asr && track_lang(ts[i]) == lang,
    decreases n,
{
    if n > 0 {
        lemma_last_matching_bounds(ts, lang, asr, n - 1);
    }
}

proof fn lemma_first_of_kind_bounds(ts: Seq<CaptionTrack>, asr: bool, n: int)
    requires
        0 <= n <= ts.len(),
    ensures
        first_of_kind(ts, asr, n) matches Some(i) ==> 0 <= i < n && track_usable(ts[i])
            && track_is_asr(ts[i]) == asr,
    decreases n,
{
    if n > 0 {
        lemma_first_of_kind_bounds(ts, asr, n - 1);
    }
}

fn str_opt_chars(s: &Option<String>) -> (r: Vec<char>)
    ensures
        r@ == (match s {
            Some(x) => x@,
            None => Seq::<char>::empty(),
        }),
{
    match s {
        Some(x) => chars_of(x.as_str()),
        None => Vec::new(),
    }
}

/// Chooses the caption track to fetch and returns its URL, its language code
/// and whether it holds automatic captions.
pub fn select_caption_track(tracks: &Vec<CaptionTrack>, preferred_lang: &str) -> (r: Option<
    (String, String, bool),
>)
    ensures
        match r {
            Some((url, lang, asr)) => selected_track_spec(tracks@, preferred_lang@) == Some(
                (url@, lang@, asr),
            ),
            None => selected_track_spec(tracks@, preferred_lang@) is None,
        },
{
    let pref = chars_of(preferred_lang);
    let asr_word = vec!['a', 's', 'r'];
    assert(asr_word@ =~= seq!['a', 's', 'r']);
    let mut manual_match: Option<usize> = None;
    let mut asr_match: Option<usize> = None;
    let mut first_manual: Option<usize> = None;
    let mut first_asr: Option<usize> = None;
    let mut i: usize = 0;
    while i < tracks.len()
        invariant
            i <= tracks.len(),
            pref@ == preferred_lang@,
            asr_word@ == seq!['a', 's', 'r'],
            manual_match == match last_matching(tracks@, pref@, false, i as int) {
                Some(k) => Some(k as usize),
                None => None::<usize>,
            },
            asr_match == match last_matching(tracks@, pref@, true, i as int) {
                Some(k) => Some(k as usize),
                None => None::<usize>,
            },
            first_manual == match first_of_kind(tracks@, false, i as int) {
                Some(k) => Some(k as usize),
                None => None::<usize>,
            },
            first_asr == match first_of_kind(tracks@, true, i as int) {
                Some(k) => Some(k as usize),
                None => None::<usize>,
            },
        decreases tracks.len() - i,
    {
        proof {
            lemma_last_matching_bounds(tracks@, pref@, false, i as int);
            lemma_last_matching_bounds(tracks@, pref@, true, i as int);
            lemma_first_of_kind_bounds(tracks@, false, i as int);
            lemma_first_of_kind_bounds(tracks@, true, i as int);
        }
        let t = &tracks[i];
        if t.base_url.is_some() {
            let lang = str_opt_chars(&t.language_code);
            let kind = str_opt_chars(&t.kind);
            let is_asr = t.kind.is_some() && chars_equal(&kind, &asr_word);
            let same_lang = chars_equal(&lang, &pref);
            if same_lang {
                if is_asr {
                    asr_match = Some(i);
                } else {
                    manual_match = Some(i);
                }
            }
            if !is_asr && first_manual.is_none() {
                first_manual = Some(i);
            }
            if is_asr && first_asr.is_none() {
                first_asr = Some(i);
            }
        }
        i = i + 1;
    }
    proof {
        let n = tracks@.len() as int;
        lemma_last_matching_bounds(tracks@, pref@, false, n);
        lemma_last_matching_bounds(tracks@, pref@, true, n);
        lemma_first_of_kind_bounds(tracks@, false, n);
        lemma_first_of_kind_bounds(tracks@, true, n);
    }
    let pick = match manual_match {
        Some(k) => Some(k),
        None => match asr_match {
            Some(k) => Some(k),
            None => match first_manual {
                Some(k) => Some(k),
                None => first_asr,
            },
        },
    };
    match pick {
        Some(k) => {
            let t = &tracks[k];
            let url = match &t.base_url {
                Some(u) => u.clone(),
                None => String::new(),
            };
            let lang = match &t.language_code {
                Some(l) => l.clone(),
                None => String::new(),
            };
            let kind = str_opt_chars(&t.kind);
            let is_asr = t.kind.is_some() && chars_equal(&kind, &asr_word);
            Some((url, lang, is_asr))
        },
        None => None,
    }
}


/// The text of an optional string field, or `default` when it is missing.
pub open spec fn text_or(o: Option<String>, default: Seq<char>) -> Seq<char> {
    match o {
        Some(s) => s@,
        None => default,
    }
}

/// The watch-page URL of a video.
pub open spec fn watch_url_spec(video_id: Seq<char>) -> Seq<char> {
    "https://www.youtube.com/watch?v="@ + video_id
}

/// The length of a video in seconds: `lengthSeconds` read as a `u64`, or 0
/// when it is missing or not a number.
pub open spec fn duration_spec(o: Option<String>) -> u64 {
    match o {
        Some(s) => match parse_u64_spec(s@) {
            Some(v) => v,
            None => 0,
        },
        None => 0,
    }
}

/// `md` is the metadata that the player response gives of the video.
pub open spec fn youtube_metadata_spec(
    md: VideoMetadata,
    video_id: Seq<char>,
    response: PlayerResponse,
) -> bool {
    &&& md.video_id@ == video_id
    &&& md.title@ == text_or(response.title, "Unknown"@)
    &&& md.channel@ == text_or(response.author, "Unknown"@)
    &&& md.duration == duration_spec(response.length_seconds)
    &&& md.upload_date@ == text_or(response.publish_date, Seq::empty())
    &&& md.platform@ == "YouTube"@
    &&& md.url@ == watch_url_spec(video_id)
}

fn text_or_default(o: Option<String>, default: &str) -> (r: String)
    ensures
        r@ == text_or(o, default@),
{
    match o {
        Some(s) => s,
        None => default.to_owned(),
    }
}

/// The URL of a video's watch page.
pub fn watch_url(video_id: &str) -> (r: String)
    ensures
        r@ == watch_url_spec(video_id@),
{
    let mut v = chars_of("https://www.youtube.com/watch?v=");
    push_str(&mut v, video_id);
    string_from_chars(&v)
}

/// Reads the video's metadata out of the player response.
fn youtube_metadata(
    video_id: &str,
    title: Option<String>,
    author: Option<String>,
    length_seconds: Option<String>,
    publish_date: Option<String>,
) -> (md: VideoMetadata)
    ensures
        md.video_id@ == video_id@,
        md.title@ == text_or(title, "Unknown"@),
        md.channel@ == text_or(author, "Unknown"@),
        md.duration == duration_spec(length_seconds),
        md.upload_date@ == text_or(publish_date, Seq::empty()),
        md.platform@ == "YouTube"@,
        md.url@ == watch_url_spec(video_id@),
{
    let duration = match &length_seconds {
        Some(s) => match parse_u64(s.as_str()) {
            Some(v) => v,
            None => 0,
        },
        None => 0,
    };
    VideoMetadata {
        video_id: video_id.to_owned(),
        title: text_or_default(title, "Unknown"),
        channel: text_or_default(author, "Unknown"),
        duration,
        upload_date: match publish_date {
            Some(d) => d,
            None => String::new(),
        },
        platform: "YouTube".to_owned(),
        url: watch_url(video_id),
    }
}

/// Why captions could not be had for a video.
#[derive(Clone, Copy, Debug, PartialEq, Eq, Structural)]
pub enum CaptionError {
    /// The watch page holds no readable `ytInitialPlayerResponse`.
    NoPlayerResponse,
    /// The player response lists no caption track.
    NoCaptionTracks,
    /// No listed track has a URL.
    NoSuitableTrack,
    /// The chosen track holds no text.
    EmptyTranscript,
}

impl CaptionError {
    /// The text that reports this error.
    pub fn message(&self) -> (r: &'static str)
        ensures
            r@ == caption_error_message(*self),
    {
        match self {
            CaptionError::NoPlayerResponse => "Could not find ytInitialPlayerResponse in page",
            CaptionError::NoCaptionTracks => "No caption tracks available for this video",
            CaptionError::NoSuitableTrack => "No suitable caption track found",
            CaptionError::EmptyTranscript => "Caption track returned empty transcript",
        }
    }
}

/// The text that reports a caption error.
pub open spec fn caption_error_message(e: CaptionError) -> Seq<char> {
    match e {
        CaptionError::NoPlayerResponse => "Could not find ytInitialPlayerResponse in page"@,
        CaptionError::NoCaptionTracks => "No caption tracks available for this video"@,
        CaptionError::NoSuitableTrack => "No suitable caption track found"@,
        CaptionError::EmptyTranscript => "Caption track returned empty transcript"@,
    }
}

/// The caption track to fetch for a video, with the video's metadata.
#[derive(Debug)]
pub struct CaptionRequest {
    pub metadata: VideoMetadata,
    pub track_url: String,
    pub language: String,
    pub is_auto_generated: bool,
}

/// Captions fetched from YouTube.
#[derive(Debug)]
pub struct YouTubeTranscriptResult {
    pub transcript: String,
    pub metadata: VideoMetadata,
    pub language: String,
    pub is_auto_generated: bool,
}

/// The caption tracks a player response lists; none when it has no array.
pub open spec fn listed_tracks(response: PlayerResponse) -> Seq<CaptionTrack> {
    match response.caption_tracks {
        Some(ts) => ts@,
        None => Seq::empty(),
    }
}

/// The language asked for, English when none is.
pub open spec fn preferred_language_spec(preferred: Option<&str>) -> Seq<char> {
    match preferred {
        Some(l) => l@,
        None => seq!['e', 'n'],
    }
}

/// A request that names no language is planned as one for English: it
/// prefers the same tracks as a request that names `en`.
pub proof fn law_no_language_means_english()
    ensures
        preferred_language_spec(None) == preferred_language_spec(Some("en")),
        preferred_language_spec(None) == seq!['e', 'n'],
{
    reveal_strlit("en");
}

/// Decides, from a video's player response, which caption track to fetch.
/// Fails with `NoCaptionTracks` when the response lists none, and with
/// `NoSuitableTrack` when no listed track has a URL.
pub fn plan_caption_fetch(
    video_id: &str,
    preferred_language: Option<&str>,
    response: PlayerResponse,
) -> (r: Result<CaptionRequest, CaptionError>)
    ensures
        listed_tracks(response).len() == 0 ==> r == Err::<CaptionRequest, CaptionError>(
            CaptionError::NoCaptionTracks,
        ),
        listed_tracks(response).len() > 0 ==> match selected_track_spec(
            listed_tracks(response),
            preferred_language_spec(preferred_language),
        ) {
            None => r == Err::<CaptionRequest, CaptionError>(CaptionError::NoSuitableTrack),
            Some((url, lang, asr)) => (r matches Ok(req) && req.track_url@ == url
                && req.language@ == lang && req.is_auto_generated == asr
                && youtube_metadata_spec(req.metadata, video_id@, response)),
        },
        preferred_language is None && listed_tracks(response).len() > 0 ==> match selected_track_spec(
            listed_tracks(response),
            seq!['e', 'n'],
        ) {
            None => r == Err::<CaptionRequest, CaptionError>(CaptionError::NoSuitableTrack),
            Some((url, lang, asr)) => (r matches Ok(req) && req.track_url@ == url
                && req.language@ == lang && req.is_auto_generated == asr),
        },
{
    let PlayerResponse { title, author, length_seconds, publish_date, caption_tracks } = response;
    let ghost resp = response;
    let metadata = youtube_metadata(video_id, title, author, length_seconds, publish_date);
    let tracks = match caption_tracks {
        Some(ts) => ts,
        None => return Err(CaptionError::NoCaptionTracks),
    };
    if tracks.len() == 0 {
        return Err(CaptionError::NoCaptionTracks);
    }
    let lang: &str = match preferred_language {
        Some(l) => l,
        None => {
            proof {
                reveal_strlit("en");
            }
            "en"
        },
    };
    assert(lang@ == preferred_language_spec(preferred_language));
    match select_caption_track(&tracks, lang) {
        Some((track_url, language, is_auto_generated)) => Ok(
            CaptionRequest { metadata, track_url, language, is_auto_generated },
        ),
        None => Err(CaptionError::NoSuitableTrack),
    }
}

/// Turns the fetched caption XML into the captions result; fails with
/// `EmptyTranscript` when the XML holds no text.
pub fn finish_caption_fetch(request: CaptionRequest, caption_xml: &str) -> (r: Result<
    YouTubeTranscriptResult,
    CaptionError,
>)
    ensures
        caption_text_spec(caption_xml@).len() == 0 ==> r == Err::<
            YouTubeTranscriptResult,
            CaptionError,
        >(CaptionError::EmptyTranscript),
        caption_text_spec(caption_xml@).len() > 0 ==> (r matches Ok(res) && res.transcript@
            == caption_text_spec(caption_xml@) && res.metadata == request.metadata
            && res.language == request.language && res.is_auto_generated
            == request.is_auto_generated),
{
    let transcript = parse_caption_xml(caption_xml);
    if transcript.as_str().is_empty() {
        return Err(CaptionError::EmptyTranscript);
    }
    let CaptionRequest { metadata, track_url: _, language, is_auto_generated } = request;
    Ok(YouTubeTranscriptResult { transcript, metadata, language, is_auto_generated })
}


proof fn lemma_last_matching_complete(ts: Seq<CaptionTrack>, lang: Seq<char>, asr: bool, n: int)
    requires
        0 <= n <= ts.len(),
    ensures
        last_matching(ts, lang, asr, n) is None ==> forall|k: int|
            0 <= k < n ==> !(track_usable(#[trigger] ts[k]) && track_is_asr(ts[k]) == asr
                && track_lang(ts[k]) == lang),
    decreases n,
{
    if n > 0 {
        lemma_last_matching_complete(ts, lang, asr, n - 1);
    }
}

proof fn lemma_first_of_kind_complete(ts: Seq<CaptionTrack>, asr: bool, n: int)
    requires
        0 <= n <= ts.len(),
    ensures
        first_of_kind(ts, asr, n) is None ==> forall|k: int|
            0 <= k < n ==> !(track_usable(#[trigger] ts[k]) && track_is_asr(ts[k]) == asr),
    decreases n,
{
    if n > 0 {
        lemma_first_of_kind_complete(ts, asr, n - 1);
    }
}

/// The caption track priority: a track is chosen exactly when some track
/// has a URL; the chosen track has one; and when a manual track in the
/// preferred language exists, a manual track in that language is chosen,
/// else, when an automatic one in that language exists, such a track is
/// chosen.
pub proof fn law_caption_track_priority(ts: Seq<CaptionTrack>, lang: Seq<char>)
    ensures
        chosen_track(ts, lang) is None <==> forall|k: int|
            0 <= k < ts.len() ==> !track_usable(#[trigger] ts[k]),
        chosen_track(ts, lang) matches Some(i) ==> 0 <= i < ts.len() && track_usable(ts[i]),
        (exists|k: int|
            0 <= k < ts.len() && track_usable(#[trigger] ts[k]) && !track_is_asr(ts[k])
                && track_lang(ts[k]) == lang) ==> (chosen_track(ts, lang) matches Some(i)
            && !track_is_asr(ts[i]) && track_lang(ts[i]) == lang),
        (exists|k: int|
            0 <= k < ts.len() && track_usable(#[trigger] ts[k]) && track_lang(ts[k]) == lang)
            ==> (chosen_track(ts, lang) matches Some(i) && track_lang(ts[i]) == lang),
{
    let n = ts.len() as int;
    lemma_last_matching_bounds(ts, lang, false, n);
    lemma_last_matching_bounds(ts, lang, true, n);
    lemma_first_of_kind_bounds(ts, false, n);
    lemma_first_of_kind_bounds(ts, true, n);
    lemma_last_matching_complete(ts, lang, false, n);
    lemma_last_matching_complete(ts, lang, true, n);
    lemma_first_of_kind_complete(ts, false, n);
    lemma_first_of_kind_complete(ts, true, n);
    if chosen_track(ts, lang) is None {
        assert forall|k: int| 0 <= k < ts.len() implies !track_usable(#[trigger] ts[k]) by {
            if track_usable(ts[k]) {
                if track_is_asr(ts[k]) {
                    assert(!(track_usable(ts[k]) && track_is_asr(ts[k]) == true));
                } else {
                    assert(!(track_usable(ts[k]) && track_is_asr(ts[k]) == false));
                }
            }
        }
    }
}

/// The pieces of `s`, each character `c` written as `f(c)`, concatenated.
pub open spec fn flat_map_chars(s: Seq<char>, f: spec_fn(char) -> Seq<char>) -> Seq<char>
    decreases s.len(),
{
    if s.len() == 0 {
        Seq::empty()
    } else {
        f(s[0]) + flat_map_chars(s.drop_first(), f)
    }
}

/// `c` as XML writes it in caption text: `"`, `<`, `>` and `'` escaped.
pub open spec fn xml_escaped(c: char) -> Seq<char> {
    if c == '"' {
        seq!['&', 'q', 'u', 'o', 't', ';']
    } else if c == '<' {
        seq!['&', 'l', 't', ';']
    } else if c == '>' {
        seq!['&', 'g', 't', ';']
    } else if c == '\'' {
        seq!['&', '#', '3', '9', ';']
    } else {
        seq![c]
    }
}

/// `c` escaped twice, as YouTube's caption XML often carries it: the `&` of
/// each escape written again as `&amp;`.
pub open spec fn double_escaped(c: char) -> Seq<char> {
    let e = xml_escaped(c);
    if e.len() > 1 {
        seq!['&', 'a', 'm', 'p', ';'] + e.drop_first()
    } else {
        e
    }
}

/// Replacing `p` by `r` in `x` followed by anything turns `x` into `y`:
/// `x` starts with `p` (then `y` is `r` and the rest of `x`) or differs from
/// it in its first or second character (then `y` is `x`), and `p`'s first
/// character stands nowhere else in `x`.
pub open spec fn piece_ok(x: Seq<char>, p: Seq<char>, r: Seq<char>, y: Seq<char>) -> bool {
    &&& x.len() > 0
    &&& forall|k: int| 1 <= k < x.len() ==> #[trigger] x[k] != p[0]
    &&& {
        ||| p.len() <= x.len() && x.take(p.len() as int) == p && y == r + x.skip(p.len() as int)
        ||| (x[0] != p[0] || (x.len() >= 2 && p.len() >= 2 && x[1] != p[1])) && y == x
    }
}

proof fn lemma_replace_plain_prefix(t: Seq<char>, q: Seq<char>, p: Seq<char>, r: Seq<char>)
    requires
        p.len() > 0,
        forall|k: int| 0 <= k < t.len() ==> #[trigger] t[k] != p[0],
    ensures
        replace_spec(t + q, p, r) == t + replace_spec(q, p, r),
    decreases t.len(),
{
    if t.len() == 0 {
        assert(t + q =~= q);
        assert(t + replace_spec(q, p, r) =~= replace_spec(q, p, r));
    } else {
        let s = t + q;
        assert(s[0] == t[0]);
        if starts_with(s, p) {
            assert(s.subrange(0, p.len() as int)[0] == s[0]);
        }
        assert(s.drop_first() =~= t.drop_first() + q);
        lemma_replace_plain_prefix(t.drop_first(), q, p, r);
        assert(seq![t[0]] + (t.drop_first() + replace_spec(q, p, r)) =~= t + replace_spec(q, p, r));
    }
}

proof fn lemma_replace_piece(x: Seq<char>, q: Seq<char>, p: Seq<char>, r: Seq<char>, y: Seq<char>)
    requires
        p.len() > 0,
        piece_ok(x, p, r, y),
    ensures
        replace_spec(x + q, p, r) == y + replace_spec(q, p, r),
{
    let s = x + q;
    if p.len() <= x.len() && x.take(p.len() as int) == p && y == r + x.skip(p.len() as int) {
        assert(s.subrange(0, p.len() as int) =~= x.take(p.len() as int));
        assert(starts_with(s, p));
        assert(s.skip(p.len() as int) =~= x.skip(p.len() as int) + q);
        lemma_replace_plain_prefix(x.skip(p.len() as int), q, p, r);
        assert(r + (x.skip(p.len() as int) + replace_spec(q, p, r)) =~= y + replace_spec(q, p, r));
    } else {
        if starts_with(s, p) {
            assert(s.subrange(0, p.len() as int)[0] == s[0]);
            if p.len() >= 2 && x.len() >= 2 {
                assert(s.subrange(0, p.len() as int)[1] == s[1]);
            }
        }
        assert(!starts_with(s, p));
        assert(s.drop_first() =~= x.drop_first() + q);
        lemma_replace_plain_prefix(x.drop_first(), q, p, r);
        assert(seq![x[0]] + (x.drop_first() + replace_spec(q, p, r)) =~= y + replace_spec(q, p, r));
    }
}

/// One replacement pass over text made of pieces turns each piece `f(c)`
/// into `g(c)` when every piece meets `piece_ok`.
proof fn lemma_replace_pass(
    s: Seq<char>,
    f: spec_fn(char) -> Seq<char>,
    g: spec_fn(char) -> Seq<char>,
    p: Seq<char>,
    r: Seq<char>,
)
    requires
        p.len() > 0,
        forall|i: int| 0 <= i < s.len() ==> piece_ok(f(#[trigger] s[i]), p, r, g(s[i])),
    ensures
        replace_spec(flat_map_chars(s, f), p, r) == flat_map_chars(s, g),
    decreases s.len(),
{
    if s.len() > 0 {
        assert(piece_ok(f(s[0]), p, r, g(s[0])));
        assert forall|i: int| 0 <= i < s.drop_first().len() implies piece_ok(
            f(#[trigger] s.drop_first()[i]),
            p,
            r,
            g(s.drop_first()[i]),
        ) by {
            assert(s.drop_first()[i] == s[i + 1]);
        }
        lemma_replace_pass(s.drop_first(), f, g, p, r);
        lemma_replace_piece(f(s[0]), flat_map_chars(s.drop_first(), f), p, r, g(s[0]));
    }
}

proof fn lemma_flat_map_single(s: Seq<char>)
    ensures
        flat_map_chars(s, |c: char| seq![c]) == s,
    decreases s.len(),
{
    if s.len() > 0 {
        lemma_flat_map_single(s.drop_first());
        assert(seq![s[0]] + s.drop_first() =~= s);
    }
}

/// `c` after `&lt;` is decoded.
pub open spec fn decoded_lt(c: char) -> Seq<char> {
    if c == '<' {
        seq![c]
    } else {
        xml_escaped(c)
    }
}

/// `c` after `&gt;` is decoded too.
pub open spec fn decoded_gt(c: char) -> Seq<char> {
    if c == '<' || c == '>' {
        seq![c]
    } else {
        xml_escaped(c)
    }
}

/// `c` after `&quot;` is decoded too.
pub open spec fn decoded_quot(c: char) -> Seq<char> {
    if c == '<' || c == '>' || c == '"' {
        seq![c]
    } else {
        xml_escaped(c)
    }
}

proof fn lemma_plain_piece(c: char, p: Seq<char>, r: Seq<char>)
    requires
        p.len() > 0,
        c != p[0],
    ensures
        piece_ok(seq![c], p, r, seq![c]),
{
}

proof fn lemma_escape_piece(x: Seq<char>, p: Seq<char>, r: Seq<char>)
    requires
        p.len() >= 2,
        x.len() >= 2,
        x[0] == '&',
        p[0] == '&',
        x[1] != p[1],
        forall|k: int| 1 <= k < x.len() ==> #[trigger] x[k] != '&',
    ensures
        piece_ok(x, p, r, x),
{
}

proof fn lemma_amp_char(c: char, double: bool)
    requires
        c != '&',
    ensures
        piece_ok(
            if double {
                double_escaped(c)
            } else {
                xml_escaped(c)
            },
            seq!['&', 'a', 'm', 'p', ';'],
            seq!['&'],
            xml_escaped(c),
        ),
{
    let p = seq!['&', 'a', 'm', 'p', ';'];
    let e = xml_escaped(c);
    if c == '"' || c == '<' || c == '>' || c == '\'' {
        assert(e.len() > 1 && e[0] == '&');
        assert(forall|k: int| 1 <= k < e.len() ==> #[trigger] e[k] != '&');
        if double {
            let x = double_escaped(c);
            assert(x =~= p + e.drop_first());
            assert(x.take(5) =~= p);
            assert(seq!['&'] + x.skip(5) =~= e);
            assert forall|k: int| 1 <= k < x.len() implies #[trigger] x[k] != p[0] by {
                if k >= 5 {
                    assert(x[k] == e[k - 4]);
                }
            }
        } else {
            lemma_escape_piece(e, p, seq!['&']);
        }
    } else {
        lemma_plain_piece(c, p, seq!['&']);
    }
}

proof fn lemma_lt_char(c: char)
    requires
        c != '&',
    ensures
        piece_ok(xml_escaped(c), seq!['&', 'l', 't', ';'], seq!['<'], decoded_lt(c)),
{
    let p = seq!['&', 'l', 't', ';'];
    let e = xml_escaped(c);
    if c == '<' {
        assert(e.take(4) =~= p);
        assert(seq!['<'] + e.skip(4) =~= seq!['<']);
    } else if c == '"' || c == '>' || c == '\'' {
        lemma_escape_piece(e, p, seq!['<']);
    } else {
        lemma_plain_piece(c, p, seq!['<']);
    }
}

proof fn lemma_gt_char(c: char)
    requires
        c != '&',
    ensures
        piece_ok(decoded_lt(c), seq!['&', 'g', 't', ';'], seq!['>'], decoded_gt(c)),
{
    let p = seq!['&', 'g', 't', ';'];
    let e = decoded_lt(c);
    if c == '>' {
        assert(e.take(4) =~= p);
        assert(seq!['>'] + e.skip(4) =~= seq!['>']);
    } else if c == '"' || c == '\'' {
        lemma_escape_piece(e, p, seq!['>']);
    } else {
        lemma_plain_piece(c, p, seq!['>']);
    }
}

proof fn lemma_quot_char(c: char)
    requires
        c != '&',
    ensures
        piece_ok(
            decoded_gt(c),
            seq!['&', 'q', 'u', 'o', 't', ';'],
            seq!['"'],
            decoded_quot(c),
        ),
{
    let p = seq!['&', 'q', 'u', 'o', 't', ';'];
    let e = decoded_gt(c);
    if c == '"' {
        assert(e.take(6) =~= p);
        assert(seq!['"'] + e.skip(6) =~= seq!['"']);
    } else if c == '\'' {
        lemma_escape_piece(e, p, seq!['"']);
    } else {
        lemma_plain_piece(c, p, seq!['"']);
    }
}

proof fn lemma_apos_char(c: char)
    requires
        c != '&',
    ensures
        piece_ok(decoded_quot(c), seq!['&', '#', '3', '9', ';'], seq!['\''], seq![c]),
{
    let p = seq!['&', '#', '3', '9', ';'];
    let e = decoded_quot(c);
    if c == '\'' {
        assert(e.take(5) =~= p);
        assert(seq!['\''] + e.skip(5) =~= seq!['\'']);
    } else {
        lemma_plain_piece(c, p, seq!['\'']);
    }
}

/// Text escaped for XML, once or twice (as YouTube's caption XML carries
/// quotes: `&amp;quot;`), decodes back to the text itself, as long as the
/// text holds no `&` and no line break: `&amp;` is decoded before the other
/// entities, so a doubly escaped entity is decoded fully.
pub proof fn law_escaped_text_decodes(s: Seq<char>)
    requires
        !s.contains('&'),
        !s.contains('\n'),
    ensures
        decode_entities_spec(flat_map_chars(s, |c: char| xml_escaped(c))) == s,
        decode_entities_spec(flat_map_chars(s, |c: char| double_escaped(c))) == s,
{
    assert forall|i: int| 0 <= i < s.len() implies #[trigger] s[i] != '&' && s[i] != '\n' by {
        if s[i] == '&' {
            assert(s.contains('&'));
        }
        if s[i] == '\n' {
            assert(s.contains('\n'));
        }
    }
    let esc = |c: char| xml_escaped(c);
    let dbl = |c: char| double_escaped(c);
    let lt = |c: char| decoded_lt(c);
    let gt = |c: char| decoded_gt(c);
    let qt = |c: char| decoded_quot(c);
    let one = |c: char| seq![c];
    let amp_p = seq!['&', 'a', 'm', 'p', ';'];
    assert forall|i: int| 0 <= i < s.len() implies piece_ok(
        dbl(#[trigger] s[i]),
        amp_p,
        seq!['&'],
        esc(s[i]),
    ) by {
        lemma_amp_char(s[i], true);
    }
    assert forall|i: int| 0 <= i < s.len() implies piece_ok(
        esc(#[trigger] s[i]),
        amp_p,
        seq!['&'],
        esc(s[i]),
    ) by {
        lemma_amp_char(s[i], false);
    }
    lemma_replace_pass(s, dbl, esc, amp_p, seq!['&']);
    lemma_replace_pass(s, esc, esc, amp_p, seq!['&']);
    let e1 = flat_map_chars(s, esc);
    assert forall|i: int| 0 <= i < s.len() implies piece_ok(
        esc(#[trigger] s[i]),
        seq!['&', 'l', 't', ';'],
        seq!['<'],
        lt(s[i]),
    ) by {
        lemma_lt_char(s[i]);
    }
    lemma_replace_pass(s, esc, lt, seq!['&', 'l', 't', ';'], seq!['<']);
    assert forall|i: int| 0 <= i < s.len() implies piece_ok(
        lt(#[trigger] s[i]),
        seq!['&', 'g', 't', ';'],
        seq!['>'],
        gt(s[i]),
    ) by {
        lemma_gt_char(s[i]);
    }
    lemma_replace_pass(s, lt, gt, seq!['&', 'g', 't', ';'], seq!['>']);
    assert forall|i: int| 0 <= i < s.len() implies piece_ok(
        gt(#[trigger] s[i]),
        seq!['&', 'q', 'u', 'o', 't', ';'],
        seq!['"'],
        qt(s[i]),
    ) by {
        lemma_quot_char(s[i]);
    }
    lemma_replace_pass(s, gt, qt, seq!['&', 'q', 'u', 'o', 't', ';'], seq!['"']);
    assert forall|i: int| 0 <= i < s.len() implies piece_ok(
        qt(#[trigger] s[i]),
        seq!['&', '#', '3', '9', ';'],
        seq!['\''],
        one(s[i]),
    ) by {
        lemma_apos_char(s[i]);
    }
    lemma_replace_pass(s, qt, one, seq!['&', '#', '3', '9', ';'], seq!['\'']);
    lemma_flat_map_single(s);
    assert(flat_map_chars(s, one) == s);
    lemma_replace_absent(s, seq!['&', 'a', 'p', 'o', 's', ';'], seq!['\'']);
    lemma_replace_absent(s, seq!['&', 'n', 'b', 's', 'p', ';'], seq![' ']);
    lemma_replace_absent(s, seq!['\n'], seq![' ']);
    lemma_numeric_refs_plain(s);
    assert(entity_chain(e1) == s);
    assert(entity_chain(flat_map_chars(s, dbl)) == s);
}

proof fn lemma_replace_absent(s: Seq<char>, p: Seq<char>, r: Seq<char>)
    requires
        p.len() > 0,
        !s.contains(p[0]),
    ensures
        replace_spec(s, p, r) == s,
    decreases s.len(),
{
    if s.len() > 0 {
        assert(!crate::text::starts_with(s, p));
        assert(!s.drop_first().contains(p[0])) by {
            if s.drop_first().contains(p[0]) {
                let k = choose|k: int| 0 <= k < s.drop_first().len() && s.drop_first()[k] == p[0];
                assert(s[k + 1] == p[0]);
            }
        }
        lemma_replace_absent(s.drop_first(), p, r);
        assert(seq![s[0]] + s.drop_first() =~= s);
    }
}

/// Text without `&` and without line breaks holds no named entity.
proof fn lemma_entity_chain_plain(s: Seq<char>)
    requires
        !s.contains('&'),
        !s.contains('\n'),
    ensures
        entity_chain(s) == s,
{
    lemma_replace_absent(s, seq!['&', 'a', 'm', 'p', ';'], seq!['&']);
    lemma_replace_absent(s, seq!['&', 'l', 't', ';'], seq!['<']);
    lemma_replace_absent(s, seq!['&', 'g', 't', ';'], seq!['>']);
    lemma_replace_absent(s, seq!['&', 'q', 'u', 'o', 't', ';'], seq!['"']);
    lemma_replace_absent(s, seq!['&', '#', '3', '9', ';'], seq!['\'']);
    lemma_replace_absent(s, seq!['&', 'a', 'p', 'o', 's', ';'], seq!['\'']);
    lemma_replace_absent(s, seq!['&', 'n', 'b', 's', 'p', ';'], seq![' ']);
    lemma_replace_absent(s, seq!['\n'], seq![' ']);
}

proof fn lemma_first_close(s: Seq<char>, j: int)
    requires
        0 <= j,
    ensures
        first_close_from(s, j) matches Some(k) ==> j <= k < s.len() && closes_at(s, k),
    decreases s.len() - j,
{
    if j < s.len() && !closes_at(s, j) {
        lemma_first_close(s, j + 1);
    }
}

/// The text found for the player response is a brace-delimited object: it
/// opens with `{`, closes with `}`, and holds at least both.
pub proof fn law_player_response_is_braced(html: Seq<char>)
    ensures
        player_response_text_spec(html) matches Some(t) ==> t.len() >= 2 && t[0] == '{'
            && t.last() == '}',
{
    let marker = "ytInitialPlayerResponse"@;
    match find_spec(html, marker) {
        Some(m) => {
            lemma_find_from(html, marker, 0);
            let after = html.skip(m + marker.len());
            match find_spec(after, seq!['{']) {
                Some(b) => {
                    lemma_find_from(after, seq!['{'], 0);
                    let js = after.skip(b);
                    assert(after.subrange(b, b + 1) =~= seq!['{']);
                    assert(js[0] == '{');
                    lemma_first_close(js, 0);
                    match first_close_from(js, 0) {
                        Some(j) => {
                            if j == 0 {
                                assert(js.take(0) =~= Seq::<char>::empty());
                                assert(scan_state(js.take(0)).0 == 0);
                            }
                        },
                        None => {},
                    }
                },
                None => {},
            }
        },
        None => {},
    }
}

} // verus!
