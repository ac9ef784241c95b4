//! The transcripts in an output directory: how their files are grouped by
//! video, ordered, titled, chosen and removed, and how they are reported.

use vstd::prelude::*;
use crate::engine::last_dot;
use crate::text::{
    chars_of, decimal, decimal_chars, ends_with, ends_with_chars, find_from, find_spec,
    join_spec, lemma_find_from, matches_at, push_all, push_str, replace_all, replace_spec,
    slice_chars, starts_with, string_from_chars,
};

verus! {

/// A file that `list_transcripts` shows: a `.txt` or `.md` file.
pub open spec fn is_listed_spec(f: Seq<char>) -> bool {
    ends_with(f, ".txt"@) || ends_with(f, ".md"@)
}

/// The video ID that a transcript file belongs to: its name up to the first
/// `-` (all of it when it has none).
pub open spec fn video_id_of_spec(f: Seq<char>) -> Seq<char> {
    match find_spec(f, seq!['-']) {
        Some(i) => f.take(i),
        None => f,
    }
}

/// Whether `list_transcripts` shows the file.
pub fn is_listed_transcript(filename: &str) -> (b: bool)
    ensures
        b == is_listed_spec(filename@),
{
    let f = chars_of(filename);
    let txt = chars_of(".txt");
    let md = chars_of(".md");
    ends_with_chars(&f, &txt) || ends_with_chars(&f, &md)
}

/// The video ID that a transcript file belongs to.
pub fn transcript_video_id(filename: &str) -> (r: String)
    ensures
        r@ == video_id_of_spec(filename@),
{
    let f = chars_of(filename);
    let dash = vec!['-'];
    assert(dash@ =~= seq!['-']);
    match find_from(&f, &dash, 0) {
        Some(i) => {
            proof {
                lemma_find_from(f@, dash@, 0);
            }
            let p = slice_chars(&f, 0, i);
            assert(p@ =~= f@.take(i as int));
            string_from_chars(&p)
        },
        None => string_from_chars(&f),
    }
}

/// The files of one video.
#[derive(Debug)]
pub struct TranscriptGroup {
    pub video_id: String,
    pub files: Vec<String>,
}

/// A group as plain values.
pub open spec fn group_view(g: TranscriptGroup) -> (Seq<char>, Seq<Seq<char>>) {
    (g.video_id@, g.files@.map_values(|f: String| f@))
}

/// The position of the group of video `id`, if there is one.
pub open spec fn group_index(gs: Seq<(Seq<char>, Seq<Seq<char>>)>, id: Seq<char>) -> Option<int>
    decreases gs.len(),
{
    if gs.len() == 0 {
        None
    } else {
        match group_index(gs.drop_last(), id) {
            Some(k) => Some(k),
            None => if gs.last().0 == id {
                Some(gs.len() - 1)
            } else {
                None
            },
        }
    }
}

/// The listed files of `fs` grouped by video ID: groups in the order their
/// first file appears, files in the order they appear.
pub open spec fn groups_spec(fs: Seq<Seq<char>>) -> Seq<(Seq<char>, Seq<Seq<char>>)>
    decreases fs.len(),
{
    if fs.len() == 0 {
        Seq::empty()
    } else {
        let gs = groups_spec(fs.drop_last());
        let f = fs.last();
        if !is_listed_spec(f) {
            gs
        } else {
            let id = video_id_of_spec(f);
            match group_index(gs, id) {
                Some(k) => gs.update(k, (id, gs[k].1.push(f))),
                None => gs.push((id, seq![f])),
            }
        }
    }
}

proof fn lemma_group_index(gs: Seq<(Seq<char>, Seq<Seq<char>>)>, id: Seq<char>)
    ensures
        group_index(gs, id) matches Some(k) ==> 0 <= k < gs.len() && gs[k].0 == id,
        group_index(gs, id) is None ==> forall|k: int| 0 <= k < gs.len() ==> gs[k].0 != id,
    decreases gs.len(),
{
    if gs.len() > 0 {
        lemma_group_index(gs.drop_last(), id);
        assert forall|k: int| 0 <= k < gs.len() - 1 implies gs.drop_last()[k] == gs[k] by {}
    }
}

fn find_group(groups: &Vec<TranscriptGroup>, id: &Vec<char>) -> (r: Option<usize>)
    ensures
        match r {
            Some(k) => group_index(groups@.map_values(|g: TranscriptGroup| group_view(g)), id@)
                == Some(k as int),
            None => group_index(groups@.map_values(|g: TranscriptGroup| group_view(g)), id@)
                is None,
        },
{
    let ghost gv = groups@.map_values(|g: TranscriptGroup| group_view(g));
    let mut k: usize = 0;
    while k < groups.len()
        invariant
            k <= groups.len(),
            gv == groups@.map_values(|g: TranscriptGroup| group_view(g)),
            group_index(gv.take(k as int), id@) is None,
        decreases groups.len() - k,
    {
        assert(gv.take(k + 1).drop_last() =~= gv.take(k as int));
        let gid = chars_of(groups[k].video_id.as_str());
        if crate::types::chars_equal(&gid, id) {
            proof {
                lemma_group_index_prefix(gv, id@, k + 1);
            }
            return Some(k);
        }
        k = k + 1;
    }
    assert(gv.take(k as int) =~= gv);
    None
}

/// A group found in a prefix is found at the same place in the whole.
proof fn lemma_group_index_prefix(gs: Seq<(Seq<char>, Seq<Seq<char>>)>, id: Seq<char>, n: int)
    requires
        0 <= n <= gs.len(),
        group_index(gs.take(n), id) is Some,
    ensures
        group_index(gs, id) == group_index(gs.take(n), id),
    decreases gs.len() - n,
{
    if n < gs.len() {
        assert(gs.take(n + 1).drop_last() =~= gs.take(n));
        lemma_group_index_prefix(gs, id, n + 1);
    } else {
        assert(gs.take(n) =~= gs);
    }
}

/// Groups the listed transcript files by video.
pub fn group_transcripts(filenames: &Vec<String>) -> (r: Vec<TranscriptGroup>)
    ensures
        r@.map_values(|g: TranscriptGroup| group_view(g)) == groups_spec(
            filenames@.map_values(|f: String| f@),
        ),
{
    let ghost fs = filenames@.map_values(|f: String| f@);
    let mut groups: Vec<TranscriptGroup> = Vec::new();
    let mut i: usize = 0;
    while i < filenames.len()
        invariant
            i <= filenames.len(),
            fs == filenames@.map_values(|f: String| f@),
            groups@.map_values(|g: TranscriptGroup| group_view(g)) == groups_spec(
                fs.take(i as int),
            ),
        decreases filenames.len() - i,
    {
        assert(fs.take(i + 1).drop_last() =~= fs.take(i as int));
        let name = &filenames[i];
        if is_listed_transcript(name.as_str()) {
            let id_s = transcript_video_id(name.as_str());
            let id = chars_of(id_s.as_str());
            let ghost before = groups@.map_values(|g: TranscriptGroup| group_view(g));
            match find_group(&groups, &id) {
                Some(k) => {
                    proof {
                        lemma_group_index(before, id@);
                    }
                    let ghost old_groups = groups@;
                    let mut g = groups.remove(k);
                    let ghost old_files = g.files@;
                    g.files.push(name.clone());
                    let ghost gnew = g;
                    assert(gnew.files@.map_values(|f: String| f@) =~= old_files.map_values(
                        |f: String| f@,
                    ).push(name@));
                    assert(group_view(gnew) == (id@, before[k as int].1.push(name@)));
                    groups.insert(k, g);
                    assert(groups@ =~= old_groups.update(k as int, gnew));
                    assert(groups@.map_values(|g: TranscriptGroup| group_view(g)) =~= before.update(
                        k as int,
                        (id@, before[k as int].1.push(name@)),
                    ));
                },
                None => {
                    let mut files: Vec<String> = Vec::new();
                    files.push(name.clone());
                    assert(files@.map_values(|f: String| f@) =~= seq![name@]);
                    let ng = TranscriptGroup { video_id: id_s, files };
                    assert(group_view(ng) == (id@, seq![name@]));
                    groups.push(ng);
                    assert(groups@.map_values(|g: TranscriptGroup| group_view(g)) =~= before.push(
                        (id@, seq![name@]),
                    ));
                },
            }
        }
        i = i + 1;
    }
    assert(fs.take(i as int) =~= fs);
    groups
}

/// The grouping is sound: IDs are distinct, no group is empty, and every
/// file of a group is a listed file whose video ID is the group's.
pub proof fn law_groups_well_formed(fs: Seq<Seq<char>>)
    ensures
        forall|i: int, j: int|
            0 <= i < j < groups_spec(fs).len() ==> groups_spec(fs)[i].0 != groups_spec(fs)[j].0,
        forall|i: int| 0 <= i < groups_spec(fs).len() ==> groups_spec(fs)[i].1.len() > 0,
        forall|i: int, k: int|
            0 <= i < groups_spec(fs).len() && 0 <= k < groups_spec(fs)[i].1.len() ==> {
                &&& is_listed_spec(#[trigger] groups_spec(fs)[i].1[k])
                &&& video_id_of_spec(groups_spec(fs)[i].1[k]) == groups_spec(fs)[i].0
            },
    decreases fs.len(),
{
    if fs.len() > 0 {
        law_groups_well_formed(fs.drop_last());
        let gs = groups_spec(fs.drop_last());
        let f = fs.last();
        if is_listed_spec(f) {
            let id = video_id_of_spec(f);
            lemma_group_index(gs, id);
        }
    }
}


/// The position of the first `.txt` file.
pub open spec fn first_txt(fs: Seq<Seq<char>>, n: int) -> Option<int>
    decreases n,
{
    if n <= 0 {
        None
    } else {
        match first_txt(fs, n - 1) {
            Some(k) => Some(k),
            None => if ends_with(fs[n - 1], ".txt"@) {
                Some(n - 1)
            } else {
                None
            },
        }
    }
}

/// The file that stands for a video: its first `.txt` file, else its first
/// file.
pub open spec fn main_file_spec(fs: Seq<Seq<char>>) -> Seq<char> {
    match first_txt(fs, fs.len() as int) {
        Some(k) => fs[k],
        None => fs[0],
    }
}

proof fn lemma_first_txt(fs: Seq<Seq<char>>, n: int)
    requires
        0 <= n <= fs.len(),
    ensures
        first_txt(fs, n) matches Some(k) ==> 0 <= k < n,
    decreases n,
{
    if n > 0 {
        lemma_first_txt(fs, n - 1);
    }
}

/// The file that stands for a video.
pub fn main_file(files: &Vec<String>) -> (r: String)
    requires
        files@.len() > 0,
    ensures
        r@ == main_file_spec(files@.map_values(|f: String| f@)),
{
    let ghost fs = files@.map_values(|f: String| f@);
    let txt = chars_of(".txt");
    let mut i: usize = 0;
    while i < files.len()
        invariant
            i <= files.len(),
            fs == files@.map_values(|f: String| f@),
            txt@ == ".txt"@,
            first_txt(fs, i as int) is None,
        decreases files.len() - i,
    {
        let f = chars_of(files[i].as_str());
        if ends_with_chars(&f, &txt) {
            proof {
                lemma_first_txt_rest(fs, i as int + 1);
            }
            return files[i].clone();
        }
        i = i + 1;
    }
    files[0].clone()
}

proof fn lemma_first_txt_rest(fs: Seq<Seq<char>>, n: int)
    requires
        1 <= n <= fs.len(),
        first_txt(fs, n) is Some,
    ensures
        first_txt(fs, fs.len() as int) == first_txt(fs, n),
    decreases fs.len() - n,
{
    if n < fs.len() {
        lemma_first_txt_rest(fs, n + 1);
    }
}

/// The title shown for a transcript: its main file's name without the
/// `<id>-` prefix and the `.txt`, `.md` and `.json` extensions, with `-`
/// read as a space.
pub open spec fn display_title_spec(main_file: Seq<char>, video_id: Seq<char>) -> Seq<char> {
    let e: Seq<char> = Seq::empty();
    let t1 = replace_spec(main_file, video_id + seq!['-'], e);
    let t2 = replace_spec(t1, ".txt"@, e);
    let t3 = replace_spec(t2, ".md"@, e);
    let t4 = replace_spec(t3, ".json"@, e);
    replace_spec(t4, seq!['-'], seq![' '])
}

/// The title shown for a transcript.
pub fn display_title(main_file: &str, video_id: &str) -> (r: String)
    ensures
        r@ == display_title_spec(main_file@, video_id@),
{
    let f = chars_of(main_file);
    let mut prefix = chars_of(video_id);
    prefix.push('-');
    assert(prefix@ =~= video_id@ + seq!['-']);
    let e: Vec<char> = Vec::new();
    assert(e@ =~= Seq::<char>::empty());
    let txt = chars_of(".txt");
    let md = chars_of(".md");
    let json = chars_of(".json");
    let dash = vec!['-'];
    let space = vec![' '];
    assert(dash@ =~= seq!['-'] && space@ =~= seq![' ']);
    proof {
        reveal_strlit(".txt");
        reveal_strlit(".md");
        reveal_strlit(".json");
    }
    let t1 = replace_all(&f, &prefix, &e);
    let t2 = replace_all(&t1, &txt, &e);
    let t3 = replace_all(&t2, &md, &e);
    let t4 = replace_all(&t3, &json, &e);
    let t5 = replace_all(&t4, &dash, &space);
    string_from_chars(&t5)
}

/// The extension of a file: what follows its last `.` (all of it when it
/// has none).
pub open spec fn extension_spec(f: Seq<char>) -> Seq<char> {
    match last_dot(f) {
        Some(i) => f.skip(i + 1),
        None => f,
    }
}

/// The extension of a file.
pub fn file_extension(filename: &str) -> (r: String)
    ensures
        r@ == extension_spec(filename@),
{
    let f = chars_of(filename);
    let n = f.len();
    let k = crate::engine::last_dot_end(&f, 0, n);
    assert(f@.subrange(0, n as int) =~= f@);
    if k == 0 {
        return string_from_chars(&f);
    }
    let e = slice_chars(&f, k, n);
    assert(e@ =~= f@.skip(k as int));
    string_from_chars(&e)
}

/// The extensions of a video's files, joined by `, `.
pub open spec fn extensions_text_spec(fs: Seq<Seq<char>>) -> Seq<char> {
    join_spec(fs.map_values(|f: Seq<char>| extension_spec(f)), ", "@)
}

/// The extensions of a video's files, joined by `, `.
pub fn extensions_text(files: &Vec<String>) -> (r: String)
    ensures
        r@ == extensions_text_spec(files@.map_values(|f: String| f@)),
{
    let mut exts: Vec<Vec<char>> = Vec::new();
    let mut i: usize = 0;
    while i < files.len()
        invariant
            i <= files.len(),
            exts@.len() == i,
            forall|j: int| 0 <= j < i ==> (#[trigger] exts@[j])@ == extension_spec(files@[j]@),
        decreases files.len() - i,
    {
        let e = file_extension(files[i].as_str());
        exts.push(chars_of(e.as_str()));
        i = i + 1;
    }
    let sep = chars_of(", ");
    let joined = crate::text::join_chars(&exts, &sep);
    assert(exts@.map_values(|e: Vec<char>| e@) =~= files@.map_values(|f: String| f@).map_values(
        |f: Seq<char>| extension_spec(f),
    ));
    string_from_chars(&joined)
}

/// `order` lists each position below `n` exactly once.
pub open spec fn is_permutation_of_range(order: Seq<usize>, n: nat) -> bool {
    &&& order.len() == n
    &&& forall|i: int| 0 <= i < order.len() ==> order[i] < n
    &&& forall|i: int, j: int| 0 <= i < j < order.len() ==> order[i] != order[j]
}

/// `order` visits `times` from the newest (largest) to the oldest, keeping
/// equal times in their input order.
pub open spec fn newest_first_spec(times: Seq<u64>, order: Seq<usize>) -> bool {
    &&& is_permutation_of_range(order, times.len())
    &&& forall|i: int, j: int|
        0 <= i < j < order.len() ==> times[order[i] as int] >= times[order[j] as int]
    &&& forall|i: int, j: int|
        0 <= i < j < order.len() && times[order[i] as int] == times[order[j] as int]
            ==> order[i] < order[j]
}

/// The order in which to show transcripts: newest modification first, ties
/// in their input order (a stable sort by time, descending).
pub fn newest_first_order(times: &Vec<u64>) -> (order: Vec<usize>)
    ensures
        newest_first_spec(times@, order@),
{
    let mut order: Vec<usize> = Vec::new();
    let mut n: usize = 0;
    while n < times.len()
        invariant
            n <= times.len(),
            order@.len() == n,
            forall|i: int| 0 <= i < order@.len() ==> order@[i] < n,
            forall|i: int, j: int| 0 <= i < j < order@.len() ==> order@[i] != order@[j],
            forall|i: int, j: int|
                0 <= i < j < order@.len() ==> times@[order@[i] as int] >= times@[order@[j] as int],
            forall|i: int, j: int|
                0 <= i < j < order@.len() && times@[order@[i] as int] == times@[order@[j] as int]
                    ==> order@[i] < order@[j],
        decreases times.len() - n,
    {
        // Insert n after every entry at least as new as it.
        let t = times[n];
        let mut p: usize = 0;
        while p < order.len() && times[order[p]] >= t
            invariant
                p <= order@.len(),
                n < times.len(),
                t == times@[n as int],
                forall|i: int| 0 <= i < order@.len() ==> order@[i] < n,
                forall|i: int| 0 <= i < p ==> times@[order@[i] as int] >= t,
            decreases order@.len() - p,
        {
            p = p + 1;
        }
        let ghost old_order = order@;
        order.insert(p, n);
        assert(order@ =~= old_order.insert(p as int, n));
        assert forall|i: int, j: int| 0 <= i < j < order@.len() implies times@[order@[i] as int]
            >= times@[order@[j] as int] by {
            if j < p {
            } else if j == p {
            } else if i == p {
                assert(order@[j] == old_order[j - 1]);
                if p < old_order.len() {
                    assert(times@[old_order[p as int] as int] < t);
                    assert(times@[old_order[p as int] as int] >= times@[old_order[j - 1] as int]
                        || j - 1 == p);
                }
            } else if i < p {
            } else {
            }
        }
        assert forall|i: int, j: int|
            0 <= i < j < order@.len() && times@[order@[i] as int] == times@[order@[j] as int]
                implies order@[i] < order@[j] by {
            if i == p {
                assert(order@[j] == old_order[j - 1]);
                if p < old_order.len() {
                    assert(times@[old_order[p as int] as int] < t);
                    assert(times@[old_order[p as int] as int] >= times@[old_order[j - 1] as int]
                        || j - 1 == p);
                }
            }
        }
        n = n + 1;
    }
    order
}

/// How many transcripts are shown: all, or at most `limit` of them.
pub open spec fn shown_count_spec(total: nat, limit: Option<u64>) -> nat {
    match limit {
        Some(l) => if l < total {
            l as nat
        } else {
            total
        },
        None => total,
    }
}

/// How many transcripts are shown.
pub fn shown_count(total: usize, limit: Option<u64>) -> (r: usize)
    ensures
        r == shown_count_spec(total as nat, limit),
{
    match limit {
        Some(l) => if l < total as u64 {
            l as usize
        } else {
            total
        },
        None => total,
    }
}

/// The count line of a listing: `showing S most recent out of T total` when
/// some are left out, `T videos` otherwise.
pub open spec fn listing_summary_spec(shown: nat, total: nat) -> Seq<char> {
    if shown < total {
        "showing "@ + decimal(shown) + " most recent out of "@ + decimal(total) + " total"@
    } else {
        decimal(total) + " videos"@
    }
}

/// The count line of a listing.
pub fn listing_summary(shown: usize, total: usize) -> (r: String)
    ensures
        r@ == listing_summary_spec(shown as nat, total as nat),
{
    if shown < total {
        let mut v = chars_of("showing ");
        push_all(&mut v, &decimal_chars(shown as u64));
        push_str(&mut v, " most recent out of ");
        push_all(&mut v, &decimal_chars(total as u64));
        push_str(&mut v, " total");
        string_from_chars(&v)
    } else {
        let mut v = decimal_chars(total as u64);
        push_str(&mut v, " videos");
        string_from_chars(&v)
    }
}


/// The positions of the transcripts to show, newest first, at most `limit`
/// of them.
pub fn shown_order(times: &Vec<u64>, limit: Option<u64>) -> (r: Vec<usize>)
    ensures
        exists|order: Seq<usize>|
            newest_first_spec(times@, order) && r@ == order.take(
                shown_count_spec(times@.len(), limit) as int,
            ),
{
    let order = newest_first_order(times);
    let k = shown_count(order.len(), limit);
    let mut r: Vec<usize> = Vec::new();
    let mut i: usize = 0;
    while i < k
        invariant
            i <= k <= order@.len(),
            r@ == order@.take(i as int),
        decreases k - i,
    {
        r.push(order[i]);
        i = i + 1;
        assert(r@ =~= order@.take(i as int));
    }
    r
}

/// One entry of a transcript listing.
pub open spec fn entry_spec(
    number: nat,
    title: Seq<char>,
    video_id: Seq<char>,
    file_count: nat,
    extensions: Seq<char>,
    size_kb: Seq<char>,
    modified: Seq<char>,
    path: Seq<char>,
) -> Seq<char> {
    decimal(number) + ". **"@ + title + "**\n   Video ID: "@ + video_id + "\n   Files: "@ + decimal(
        file_count,
    ) + " ("@ + extensions + ")\n   Size: "@ + size_kb + " KB\n   Modified: "@ + modified
        + "\n   Path: "@ + path
}

/// One entry of a transcript listing; `index` counts from 0 and is shown
/// from 1.
pub fn transcript_entry(
    index: usize,
    title: &str,
    video_id: &str,
    file_count: usize,
    extensions: &str,
    size_kb: &str,
    modified: &str,
    path: &str,
) -> (r: String)
    requires
        index < usize::MAX,
    ensures
        r@ == entry_spec(
            (index + 1) as nat,
            title@,
            video_id@,
            file_count as nat,
            extensions@,
            size_kb@,
            modified@,
            path@,
        ),
{
    let mut v = decimal_chars((index + 1) as u64);
    push_str(&mut v, ". **");
    push_str(&mut v, title);
    push_str(&mut v, "**\n   Video ID: ");
    push_str(&mut v, video_id);
    push_str(&mut v, "\n   Files: ");
    push_all(&mut v, &decimal_chars(file_count as u64));
    push_str(&mut v, " (");
    push_str(&mut v, extensions);
    push_str(&mut v, ")\n   Size: ");
    push_str(&mut v, size_kb);
    push_str(&mut v, " KB\n   Modified: ");
    push_str(&mut v, modified);
    push_str(&mut v, "\n   Path: ");
    push_str(&mut v, path);
    string_from_chars(&v)
}

fn join_strings(items: &Vec<String>, sep: &str) -> (r: Vec<char>)
    ensures
        r@ == join_spec(items@.map_values(|s: String| s@), sep@),
{
    let mut parts: Vec<Vec<char>> = Vec::new();
    let mut i: usize = 0;
    while i < items.len()
        invariant
            i <= items.len(),
            parts@.len() == i,
            forall|j: int| 0 <= j < i ==> (#[trigger] parts@[j])@ == items@[j]@,
        decreases items.len() - i,
    {
        parts.push(chars_of(items[i].as_str()));
        i = i + 1;
    }
    let s = chars_of(sep);
    assert(parts@.map_values(|p: Vec<char>| p@) =~= items@.map_values(|s: String| s@));
    crate::text::join_chars(&parts, &s)
}

/// The listing of transcripts: a count line, the entries separated by blank
/// lines, and a tip.
pub open spec fn listing_text_spec(summary: Seq<char>, items: Seq<Seq<char>>) -> Seq<char> {
    "📚 Available transcripts ("@ + summary + "):\n\n"@ + join_spec(items, "\n\n"@)
        + "\n\n💡 Tip: You can read any transcript by asking me to read the file path shown above."@
}

/// The listing of transcripts.
pub fn listing_text(summary: &str, items: &Vec<String>) -> (r: String)
    ensures
        r@ == listing_text_spec(summary@, items@.map_values(|s: String| s@)),
{
    let mut v = chars_of("📚 Available transcripts (");
    push_str(&mut v, summary);
    push_str(&mut v, "):\n\n");
    let joined = join_strings(items, "\n\n");
    push_all(&mut v, &joined);
    push_str(
        &mut v,
        "\n\n💡 Tip: You can read any transcript by asking me to read the file path shown above.",
    );
    string_from_chars(&v)
}

/// The first position of the largest time among the first `n`.
pub open spec fn latest_in(times: Seq<u64>, n: int) -> Option<int>
    decreases n,
{
    if n <= 0 {
        None
    } else {
        match latest_in(times, n - 1) {
            Some(k) => if times[n - 1] > times[k] {
                Some(n - 1)
            } else {
                Some(k)
            },
            None => Some(n - 1),
        }
    }
}

proof fn lemma_latest_in(times: Seq<u64>, n: int)
    requires
        0 <= n <= times.len(),
    ensures
        n > 0 ==> (latest_in(times, n) matches Some(k) && 0 <= k < n && (forall|j: int|
            0 <= j < n ==> times[j] <= times[k]) && (forall|j: int|
            0 <= j < k ==> times[j] < times[k])),
        n == 0 ==> latest_in(times, n) is None,
    decreases n,
{
    if n > 0 {
        lemma_latest_in(times, n - 1);
    }
}

/// The newest transcript: the first one with the latest modification time.
pub fn latest_index(times: &Vec<u64>) -> (r: Option<usize>)
    ensures
        match r {
            Some(k) => latest_in(times@, times@.len() as int) == Some(k as int),
            None => latest_in(times@, times@.len() as int) is None,
        },
        r matches Some(k) ==> (k < times@.len() && (forall|j: int|
            0 <= j < times@.len() ==> times@[j] <= times@[k as int]) && (forall|j: int|
            0 <= j < k ==> times@[j] < times@[k as int])),
{
    let mut best: Option<usize> = None;
    let mut i: usize = 0;
    while i < times.len()
        invariant
            i <= times.len(),
            best == match latest_in(times@, i as int) {
                Some(k) => Some(k as usize),
                None => None::<usize>,
            },
        decreases times.len() - i,
    {
        proof {
            lemma_latest_in(times@, i as int);
        }
        match best {
            Some(k) => {
                if times[i] > times[k] {
                    best = Some(i);
                }
            },
            None => {
                best = Some(i);
            },
        }
        i = i + 1;
    }
    proof {
        lemma_latest_in(times@, times@.len() as int);
    }
    best
}

/// The position of the first file that ends with `ext`.
pub open spec fn first_with_suffix(fs: Seq<Seq<char>>, ext: Seq<char>, n: int) -> Option<int>
    decreases n,
{
    if n <= 0 {
        None
    } else {
        match first_with_suffix(fs, ext, n - 1) {
            Some(k) => Some(k),
            None => if ends_with(fs[n - 1], ext) {
                Some(n - 1)
            } else {
                None
            },
        }
    }
}

proof fn lemma_first_with_suffix(fs: Seq<Seq<char>>, ext: Seq<char>, n: int)
    requires
        0 <= n <= fs.len(),
    ensures
        first_with_suffix(fs, ext, n) matches Some(k) ==> 0 <= k < n,
    decreases n,
{
    if n > 0 {
        lemma_first_with_suffix(fs, ext, n - 1);
    }
}

fn find_with_suffix(files: &Vec<String>, ext: &Vec<char>) -> (r: Option<usize>)
    ensures
        match r {
            Some(k) => first_with_suffix(files@.map_values(|f: String| f@), ext@, files@.len() as int)
                == Some(k as int) && k < files@.len(),
            None => first_with_suffix(files@.map_values(|f: String| f@), ext@, files@.len() as int)
                is None,
        },
{
    let ghost fs = files@.map_values(|f: String| f@);
    let mut i: usize = 0;
    while i < files.len()
        invariant
            i <= files.len(),
            fs == files@.map_values(|f: String| f@),
            first_with_suffix(fs, ext@, i as int) is None,
        decreases files.len() - i,
    {
        let f = chars_of(files[i].as_str());
        if ends_with_chars(&f, ext) {
            proof {
                lemma_first_with_suffix_rest(fs, ext@, i + 1);
            }
            return Some(i);
        }
        i = i + 1;
    }
    None
}

proof fn lemma_first_with_suffix_rest(fs: Seq<Seq<char>>, ext: Seq<char>, n: int)
    requires
        1 <= n <= fs.len(),
        first_with_suffix(fs, ext, n) is Some,
    ensures
        first_with_suffix(fs, ext, fs.len() as int) == first_with_suffix(fs, ext, n),
    decreases fs.len() - n,
{
    if n < fs.len() {
        lemma_first_with_suffix_rest(fs, ext, n + 1);
    }
}

/// The file lines of the latest transcript: its text file (or first file),
/// then its Markdown and JSON files when it has them.
pub open spec fn latest_file_paths_spec(dir: Seq<char>, fs: Seq<Seq<char>>) -> Seq<char> {
    let n = fs.len() as int;
    let txt = match first_with_suffix(fs, ".txt"@, n) {
        Some(k) => fs[k],
        None => fs[0],
    };
    let md_line = match first_with_suffix(fs, ".md"@, n) {
        Some(k) => "\n- Markdown: "@ + crate::engine::join_path_spec(dir, fs[k]),
        None => Seq::empty(),
    };
    let json_line = match first_with_suffix(fs, ".json"@, n) {
        Some(k) => "\n- JSON: "@ + crate::engine::join_path_spec(dir, fs[k]),
        None => Seq::empty(),
    };
    "- Text: "@ + crate::engine::join_path_spec(dir, txt) + md_line + json_line
}

/// The file lines of the latest transcript.
pub fn latest_file_paths(output_dir: &str, files: &Vec<String>) -> (r: String)
    requires
        files@.len() > 0,
    ensures
        r@ == latest_file_paths_spec(output_dir@, files@.map_values(|f: String| f@)),
{
    let txt_ext = chars_of(".txt");
    let md_ext = chars_of(".md");
    let json_ext = chars_of(".json");
    let txt_k = match find_with_suffix(files, &txt_ext) {
        Some(k) => k,
        None => 0,
    };
    let mut v = chars_of("- Text: ");
    let p = crate::engine::join_path(output_dir, files[txt_k].as_str());
    push_str(&mut v, p.as_str());
    match find_with_suffix(files, &md_ext) {
        Some(k) => {
            push_str(&mut v, "\n- Markdown: ");
            let p = crate::engine::join_path(output_dir, files[k].as_str());
            push_str(&mut v, p.as_str());
        },
        None => {},
    }
    match find_with_suffix(files, &json_ext) {
        Some(k) => {
            push_str(&mut v, "\n- JSON: ");
            let p = crate::engine::join_path(output_dir, files[k].as_str());
            push_str(&mut v, p.as_str());
        },
        None => {},
    }
    let ghost fs = files@.map_values(|f: String| f@);
    assert(v@ =~= latest_file_paths_spec(output_dir@, fs));
    string_from_chars(&v)
}

/// The report of the latest transcript.
pub open spec fn latest_text_spec(
    title: Seq<char>,
    video_id: Seq<char>,
    modified: Seq<char>,
    size_kb: Seq<char>,
    file_count: nat,
    extensions: Seq<char>,
    file_paths: Seq<char>,
) -> Seq<char> {
    "📄 **Latest Transcript:**\n\n**Title:** "@ + title + "\n**Video ID:** "@ + video_id
        + "\n**Modified:** "@ + modified + "\n**Size:** "@ + size_kb + " KB\n**Files:** "@
        + decimal(file_count) + " ("@ + extensions + ")\n\n**File Paths:**\n"@ + file_paths
        + "\n\n💡 Tip: Use the text file path above to read or summarize this transcript."@
}

/// The report of the latest transcript.
pub fn latest_text(
    title: &str,
    video_id: &str,
    modified: &str,
    size_kb: &str,
    file_count: usize,
    extensions: &str,
    file_paths: &str,
) -> (r: String)
    ensures
        r@ == latest_text_spec(
            title@,
            video_id@,
            modified@,
            size_kb@,
            file_count as nat,
            extensions@,
            file_paths@,
        ),
{
    let mut v = chars_of("📄 **Latest Transcript:**\n\n**Title:** ");
    push_str(&mut v, title);
    push_str(&mut v, "\n**Video ID:** ");
    push_str(&mut v, video_id);
    push_str(&mut v, "\n**Modified:** ");
    push_str(&mut v, modified);
    push_str(&mut v, "\n**Size:** ");
    push_str(&mut v, size_kb);
    push_str(&mut v, " KB\n**Files:** ");
    push_all(&mut v, &decimal_chars(file_count as u64));
    push_str(&mut v, " (");
    push_str(&mut v, extensions);
    push_str(&mut v, ")\n\n**File Paths:**\n");
    push_str(&mut v, file_paths);
    push_str(
        &mut v,
        "\n\n💡 Tip: Use the text file path above to read or summarize this transcript.",
    );
    string_from_chars(&v)
}


/// A file belongs to a video's transcript when its name starts with the
/// video ID and a `-`.
pub open spec fn belongs_to_video_spec(filename: Seq<char>, video_id: Seq<char>) -> bool {
    starts_with(filename, video_id + seq!['-'])
}

/// Whether `delete_transcript` removes the file.
pub fn belongs_to_video(filename: &str, video_id: &str) -> (b: bool)
    ensures
        b == belongs_to_video_spec(filename@, video_id@),
{
    let f = chars_of(filename);
    let mut p = chars_of(video_id);
    p.push('-');
    assert(p@ =~= video_id@ + seq!['-']);
    matches_at(&f, 0, &p)
}

/// The list of removed files, one `- <path>` line each.
pub open spec fn removed_list_spec(paths: Seq<Seq<char>>) -> Seq<char> {
    join_spec(paths.map_values(|p: Seq<char>| "- "@ + p), "\n"@)
}

fn removed_list(paths: &Vec<String>) -> (r: Vec<char>)
    ensures
        r@ == removed_list_spec(paths@.map_values(|p: String| p@)),
{
    let mut parts: Vec<Vec<char>> = Vec::new();
    let mut i: usize = 0;
    while i < paths.len()
        invariant
            i <= paths.len(),
            parts@.len() == i,
            forall|j: int| 0 <= j < i ==> (#[trigger] parts@[j])@ == "- "@ + paths@[j]@,
        decreases paths.len() - i,
    {
        let mut line = chars_of("- ");
        push_str(&mut line, paths[i].as_str());
        parts.push(line);
        i = i + 1;
    }
    let nl = chars_of("\n");
    assert(parts@.map_values(|p: Vec<char>| p@) =~= paths@.map_values(|p: String| p@).map_values(
        |p: Seq<char>| "- "@ + p,
    ));
    crate::text::join_chars(&parts, &nl)
}

/// What `delete_transcript` reports.
pub open spec fn deletion_report_spec(video_id: Seq<char>, deleted: Seq<Seq<char>>) -> Seq<char> {
    if deleted.len() == 0 {
        "⚠️ No transcripts found for video ID: "@ + video_id
    } else {
        "🗑️ Deleted "@ + decimal(deleted.len()) + " file(s) for video ID '"@ + video_id
            + "':\n\n"@ + removed_list_spec(deleted)
    }
}

/// What `delete_transcript` reports.
pub fn deletion_report(video_id: &str, deleted: &Vec<String>) -> (r: String)
    ensures
        r@ == deletion_report_spec(video_id@, deleted@.map_values(|p: String| p@)),
{
    if deleted.len() == 0 {
        let mut v = chars_of("⚠️ No transcripts found for video ID: ");
        push_str(&mut v, video_id);
        return string_from_chars(&v);
    }
    let mut v = chars_of("🗑️ Deleted ");
    push_all(&mut v, &decimal_chars(deleted.len() as u64));
    push_str(&mut v, " file(s) for video ID '");
    push_str(&mut v, video_id);
    push_str(&mut v, "':\n\n");
    push_all(&mut v, &removed_list(deleted));
    string_from_chars(&v)
}

/// The number of seconds in `days` days.
pub open spec fn days_in_seconds(days: u64) -> int {
    days * 86400
}

/// A file whose age is `age_secs` seconds and `age_nanos` nanoseconds is
/// older than `days` days: its modification time lies before the cut-off.
pub open spec fn is_older_than_spec(age_secs: u64, age_nanos: u32, days: u64) -> bool {
    age_secs > days_in_seconds(days) || (age_secs == days_in_seconds(days) && age_nanos > 0)
}

/// Whether `cleanup_old_transcripts` removes a file of the given age (the
/// time from its modification to now). `days` must be small enough for its
/// seconds to fit in a `u64`.
pub fn is_older_than(age_secs: u64, age_nanos: u32, days: u64) -> (b: bool)
    requires
        days_in_seconds(days) <= u64::MAX,
    ensures
        b == is_older_than_spec(age_secs, age_nanos, days),
{
    let limit = days * 86400;
    age_secs > limit || (age_secs == limit && age_nanos > 0)
}

/// What `cleanup_old_transcripts` reports.
pub open spec fn cleanup_report_spec(days: u64, deleted: Seq<Seq<char>>) -> Seq<char> {
    if deleted.len() == 0 {
        "✅ No transcripts older than "@ + decimal(days as nat) + " days found."@
    } else {
        "🗑️ Deleted "@ + decimal(deleted.len()) + " file(s) older than "@ + decimal(days as nat)
            + " days:\n\n"@ + removed_list_spec(deleted)
    }
}

/// What `cleanup_old_transcripts` reports.
pub fn cleanup_report(days: u64, deleted: &Vec<String>) -> (r: String)
    ensures
        r@ == cleanup_report_spec(days, deleted@.map_values(|p: String| p@)),
{
    if deleted.len() == 0 {
        let mut v = chars_of("✅ No transcripts older than ");
        push_all(&mut v, &decimal_chars(days));
        push_str(&mut v, " days found.");
        return string_from_chars(&v);
    }
    let mut v = chars_of("🗑️ Deleted ");
    push_all(&mut v, &decimal_chars(deleted.len() as u64));
    push_str(&mut v, " file(s) older than ");
    push_all(&mut v, &decimal_chars(days));
    push_str(&mut v, " days:\n\n");
    push_all(&mut v, &removed_list(deleted));
    string_from_chars(&v)
}

/// What `delete_all_transcripts` reports after removing `count` files.
pub open spec fn delete_all_report_spec(count: nat, dir: Seq<char>) -> Seq<char> {
    if count == 0 {
        "📂 No transcripts found to delete."@
    } else {
        "🗑️ Deleted ALL transcripts: "@ + decimal(count) + " file(s) removed from "@ + dir
    }
}

/// What `delete_all_transcripts` reports after removing `count` files.
pub fn delete_all_report(count: usize, dir: &str) -> (r: String)
    ensures
        r@ == delete_all_report_spec(count as nat, dir@),
{
    if count == 0 {
        return "📂 No transcripts found to delete.".to_owned();
    }
    let mut v = chars_of("🗑️ Deleted ALL transcripts: ");
    push_all(&mut v, &decimal_chars(count as u64));
    push_str(&mut v, " file(s) removed from ");
    push_str(&mut v, dir);
    string_from_chars(&v)
}

/// Whether `delete_all_transcripts` may proceed: only when `confirm` is
/// given as `true`.
pub fn is_confirmed(confirm: Option<bool>) -> (b: bool)
    ensures
        b == (confirm == Some(true)),
{
    match confirm {
        Some(c) => c,
        None => false,
    }
}

/// The reply when `delete_all_transcripts` is not confirmed.
pub fn deletion_not_confirmed_text() -> (r: &'static str)
    ensures
        r@ == "⚠️ Deletion not confirmed. Set 'confirm' to true to delete all transcripts."@,
{
    "⚠️ Deletion not confirmed. Set 'confirm' to true to delete all transcripts."
}

/// The reply of the deletion tools when the output directory does not exist.
pub fn no_directory_short_text() -> (r: &'static str)
    ensures
        r@ == "📂 No transcripts directory found."@,
{
    "📂 No transcripts directory found."
}

/// The reply of `get_latest_transcript` when no transcript's file can be
/// read.
pub fn no_latest_transcript_text() -> (r: &'static str)
    ensures
        r@ == "📂 No transcripts found."@,
{
    "📂 No transcripts found."
}

/// The error of `get_latest_transcript` when the latest transcript's file
/// can no longer be read.
pub fn latest_metadata_error_text() -> (r: &'static str)
    ensures
        r@ == "Failed to read latest transcript metadata"@,
{
    "Failed to read latest transcript metadata"
}

/// The reply when the output directory does not exist, for the listings.
pub open spec fn no_directory_text_spec(dir: Seq<char>) -> Seq<char> {
    "📂 No transcripts directory found at: "@ + dir + "\n\nTranscribe your first video to create it!"@
}

/// The reply when the output directory does not exist, for the listings.
pub fn no_directory_text(dir: &str) -> (r: String)
    ensures
        r@ == no_directory_text_spec(dir@),
{
    let mut v = chars_of("📂 No transcripts directory found at: ");
    push_str(&mut v, dir);
    push_str(&mut v, "\n\nTranscribe your first video to create it!");
    string_from_chars(&v)
}

/// The reply when the output directory holds no transcript.
pub open spec fn no_transcripts_text_spec(dir: Seq<char>) -> Seq<char> {
    "📂 No transcripts found in "@ + dir + "\n\nTranscribe a video to get started!"@
}

/// The reply when the output directory holds no transcript.
pub fn no_transcripts_text(dir: &str) -> (r: String)
    ensures
        r@ == no_transcripts_text_spec(dir@),
{
    let mut v = chars_of("📂 No transcripts found in ");
    push_str(&mut v, dir);
    push_str(&mut v, "\n\nTranscribe a video to get started!");
    string_from_chars(&v)
}


/// The name of a video's output file with extension `ext`.
pub open spec fn output_file_name(md: crate::types::VideoMetadata, ext: Seq<char>) -> Seq<char> {
    crate::engine::output_stem_spec(md) + ext
}

proof fn lemma_stem_prefix(md: crate::types::VideoMetadata)
    requires
        forall|i: int|
            0 <= i < md.video_id@.len() ==> !crate::preview::is_forbidden_in_filename(
                #[trigger] md.video_id@[i],
            ),
        md.video_id@.len() < 150,
    ensures
        starts_with(crate::engine::output_stem_spec(md), md.video_id@ + seq!['-']),
{
    let id = md.video_id@;
    let raw = id + seq!['-'] + md.title@;
    let m = raw.map_values(|c: char| crate::preview::sanitize_char(c));
    let stem = crate::engine::output_stem_spec(md);
    let p = id + seq!['-'];
    assert forall|i: int| 0 <= i < p.len() implies stem[i] == p[i] by {
        assert(raw[i] == p[i]);
        if i < id.len() {
            assert(!crate::preview::is_forbidden_in_filename(id[i]));
        }
    }
    assert(stem.subrange(0, p.len() as int) =~= p);
}

/// Deleting a video's transcript removes all three of its output files: when
/// the video ID holds no character that file names forbid and is shorter
/// than the 150-character name limit, the `.txt`, `.json` and `.md` files
/// that a transcription writes all belong to the video; and when the ID also
/// holds no `-`, listings group those files under that ID.
pub proof fn law_deletion_covers_output_files(md: crate::types::VideoMetadata)
    requires
        forall|i: int|
            0 <= i < md.video_id@.len() ==> !crate::preview::is_forbidden_in_filename(
                #[trigger] md.video_id@[i],
            ),
        md.video_id@.len() < 150,
    ensures
        belongs_to_video_spec(output_file_name(md, ".txt"@), md.video_id@),
        belongs_to_video_spec(output_file_name(md, ".json"@), md.video_id@),
        belongs_to_video_spec(output_file_name(md, ".md"@), md.video_id@),
        !md.video_id@.contains('-') ==> video_id_of_spec(output_file_name(md, ".txt"@))
            == md.video_id@,
        !md.video_id@.contains('-') ==> video_id_of_spec(output_file_name(md, ".md"@))
            == md.video_id@,
{
    lemma_stem_prefix(md);
    let id = md.video_id@;
    let p = id + seq!['-'];
    let stem = crate::engine::output_stem_spec(md);
    assert forall|ext: Seq<char>| #![trigger output_file_name(md, ext)]
        starts_with(output_file_name(md, ext), p) by {
        let f = output_file_name(md, ext);
        assert(f.subrange(0, p.len() as int) =~= stem.subrange(0, p.len() as int));
    }
    if !id.contains('-') {
        assert forall|ext: Seq<char>| #![trigger output_file_name(md, ext)]
            video_id_of_spec(output_file_name(md, ext)) == id by {
            let f = output_file_name(md, ext);
            assert(f.subrange(0, p.len() as int) =~= p);
            assert(f[id.len() as int] == '-');
            lemma_find_from(f, seq!['-'], 0);
            assert(f.subrange(id.len() as int, id.len() + 1 as int) =~= seq!['-']);
            assert(crate::text::occurs_at(f, id.len() as int, seq!['-']));
            assert forall|j: int| 0 <= j < id.len() implies !crate::text::occurs_at(
                f,
                j,
                seq!['-'],
            ) by {
                assert(f[j] == id[j]);
                if crate::text::occurs_at(f, j, seq!['-']) {
                    assert(f.subrange(j, j + 1)[0] == '-');
                }
            }
            assert(f.take(id.len() as int) =~= id);
        }
    }
}

} // verus!
