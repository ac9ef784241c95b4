use video_transcriber_mcp::catalog::{
    latest_metadata_error_text, no_directory_short_text, no_latest_transcript_text,
};
use video_transcriber_mcp::catalog::{
    belongs_to_video, cleanup_report, delete_all_report, deletion_not_confirmed_text,
    deletion_report, display_title, extensions_text, file_extension, group_transcripts,
    is_confirmed, is_listed_transcript, is_older_than, latest_file_paths, latest_index,
    latest_text, listing_summary, listing_text, main_file, newest_first_order,
    no_directory_text, no_transcripts_text, shown_count, shown_order, transcript_entry,
    transcript_video_id,
};
use video_transcriber_mcp::timefmt::{format_timestamp, timestamp_is_representable, MAX_TIMESTAMP};

fn strings(v: &[&str]) -> Vec<String> {
    v.iter().map(|s| s.to_string()).collect()
}

#[test]
fn listed_files_and_video_ids() {
    assert!(is_listed_transcript("a.txt"));
    assert!(is_listed_transcript("a.md"));
    assert!(!is_listed_transcript("a.json"));
    assert_eq!(transcript_video_id("dQw4w9WgXcQ-Title.txt"), "dQw4w9WgXcQ");
    assert_eq!(transcript_video_id("noDash.txt"), "noDash.txt");
}

#[test]
fn grouping_by_video() {
    let groups = group_transcripts(&strings(&[
        "abc-Title.txt",
        "abc-Title.md",
        "abc-Title.json",
        "xyz-Other.md",
        "notes",
    ]));
    assert_eq!(groups.len(), 2);
    assert_eq!(groups[0].video_id, "abc");
    assert_eq!(groups[0].files, strings(&["abc-Title.txt", "abc-Title.md"]));
    assert_eq!(groups[1].video_id, "xyz");
    assert_eq!(groups[1].files, strings(&["xyz-Other.md"]));
}

#[test]
fn main_file_prefers_text() {
    assert_eq!(main_file(&strings(&["a.md", "a.txt"])), "a.txt");
    assert_eq!(main_file(&strings(&["a.md"])), "a.md");
}

#[test]
fn titles_and_extensions() {
    assert_eq!(display_title("abc-My-Talk.txt", "abc"), "My Talk");
    assert_eq!(file_extension("a.b.txt"), "txt");
    assert_eq!(file_extension("README"), "README");
    assert_eq!(extensions_text(&strings(&["x.txt", "x.md"])), "txt, md");
}

#[test]
fn newest_first_is_stable() {
    assert_eq!(newest_first_order(&vec![5, 9, 5, 1]), vec![1, 0, 2, 3]);
    assert_eq!(newest_first_order(&vec![]), Vec::<usize>::new());
    assert_eq!(shown_order(&vec![5, 9, 5, 1], Some(2)), vec![1, 0]);
    assert_eq!(shown_order(&vec![5, 9], None), vec![1, 0]);
    assert_eq!(shown_count(4, Some(10)), 4);
    assert_eq!(shown_count(4, Some(0)), 0);
}

#[test]
fn listing_texts() {
    assert_eq!(listing_summary(2, 4), "showing 2 most recent out of 4 total");
    assert_eq!(listing_summary(4, 4), "4 videos");
    let entry = transcript_entry(0, "T", "id", 2, "txt, md", "1.50", "2024-01-01", "/p");
    assert_eq!(
        entry,
        "1. **T**\n   Video ID: id\n   Files: 2 (txt, md)\n   Size: 1.50 KB\n   Modified: 2024-01-01\n   Path: /p"
    );
    assert_eq!(
        listing_text("1 videos", &strings(&["A", "B"])),
        "📚 Available transcripts (1 videos):\n\nA\n\nB\n\n💡 Tip: You can read any transcript by asking me to read the file path shown above."
    );
    assert_eq!(
        no_directory_text("/o"),
        "📂 No transcripts directory found at: /o\n\nTranscribe your first video to create it!"
    );
    assert_eq!(
        no_transcripts_text("/o"),
        "📂 No transcripts found in /o\n\nTranscribe a video to get started!"
    );
}

#[test]
fn latest_transcript_choice() {
    assert_eq!(latest_index(&vec![3, 7, 7, 2]), Some(1));
    assert_eq!(latest_index(&vec![]), None);
    assert_eq!(
        latest_file_paths("out", &strings(&["a.md", "a.txt"])),
        "- Text: out/a.txt\n- Markdown: out/a.md"
    );
    assert_eq!(latest_file_paths("out", &strings(&["a.md"])), "- Text: out/a.md\n- Markdown: out/a.md");
    let text = latest_text("T", "id", "2024-01-01", "1.00", 1, "txt", "- Text: x");
    assert!(text.starts_with("📄 **Latest Transcript:**\n\n**Title:** T\n**Video ID:** id\n"));
    assert!(text.contains("**Files:** 1 (txt)\n\n**File Paths:**\n- Text: x\n\n"));
}

#[test]
fn deletion_matching_and_reports() {
    assert!(belongs_to_video("abc-x.txt", "abc"));
    assert!(!belongs_to_video("abcd-x.txt", "abc"));
    assert!(!belongs_to_video("abc.txt", "abc"));
    assert_eq!(deletion_report("abc", &vec![]), "⚠️ No transcripts found for video ID: abc");
    assert_eq!(
        deletion_report("abc", &strings(&["/o/a", "/o/b"])),
        "🗑️ Deleted 2 file(s) for video ID 'abc':\n\n- /o/a\n- /o/b"
    );
}

#[test]
fn cleanup_age_rule() {
    assert!(!is_older_than(86400, 0, 1));
    assert!(is_older_than(86400, 1, 1));
    assert!(is_older_than(90000, 0, 1));
    assert!(!is_older_than(0, 0, 0));
    assert!(is_older_than(0, 5, 0));
    assert_eq!(cleanup_report(30, &vec![]), "✅ No transcripts older than 30 days found.");
    assert_eq!(
        cleanup_report(7, &strings(&["/o/a"])),
        "🗑️ Deleted 1 file(s) older than 7 days:\n\n- /o/a"
    );
}

#[test]
fn delete_all_replies() {
    assert!(is_confirmed(Some(true)));
    assert!(!is_confirmed(Some(false)));
    assert!(!is_confirmed(None));
    assert_eq!(delete_all_report(0, "/o"), "📂 No transcripts found to delete.");
    assert_eq!(delete_all_report(3, "/o"), "🗑️ Deleted ALL transcripts: 3 file(s) removed from /o");
    assert!(deletion_not_confirmed_text().starts_with("⚠️ Deletion not confirmed."));
}

#[test]
fn dates_of_timestamps() {
    assert_eq!(format_timestamp(0), "1970-01-01");
    assert_eq!(format_timestamp(86399), "1970-01-01");
    assert_eq!(format_timestamp(86400), "1970-01-02");
    assert_eq!(format_timestamp(1_700_000_000), "2023-11-14");
    // u64::MAX reads as -1 second.
    assert_eq!(format_timestamp(u64::MAX), "1969-12-31");
}

#[test]
fn timestamp_range_edges() {
    let max = MAX_TIMESTAMP as u64;
    assert!(timestamp_is_representable(max));
    assert!(!timestamp_is_representable(max + 1));
    assert_eq!(format_timestamp(max), "+262142-12-31");
    assert!(timestamp_is_representable(18446735739108322816u64));
    assert!(!timestamp_is_representable(18446735739108322815u64));
    assert_eq!(format_timestamp(18446735739108322816u64), "-262143-01-01");
}

#[test]
fn dates_across_the_calendar() {
    // A leap day, the day after it, and the turn of a century year.
    assert_eq!(format_timestamp(951_782_400), "2000-02-29");
    assert_eq!(format_timestamp(951_868_800), "2000-03-01");
    assert_eq!(format_timestamp(4_107_542_400), "2100-03-01");
    // The last four-digit year and the first five-digit one.
    assert_eq!(format_timestamp(253_402_300_799), "9999-12-31");
    assert_eq!(format_timestamp(253_402_300_800), "+10000-01-01");
    // Year 0 and the year before it, read from negative timestamps.
    assert_eq!(format_timestamp((-62_167_219_200i64) as u64), "0000-01-01");
    assert_eq!(format_timestamp((-62_167_219_201i64) as u64), "-0001-12-31");
    assert_eq!(format_timestamp((-2_208_988_800i64) as u64), "1900-01-01");
}

#[test]
fn deletion_covers_all_output_files() {
    let md = video_transcriber_mcp::types::VideoMetadata {
        video_id: "dQw4w9WgXcQ".to_string(),
        title: "A/B: test".to_string(),
        channel: String::new(),
        duration: 0,
        upload_date: String::new(),
        platform: String::new(),
        url: String::new(),
    };
    let files = video_transcriber_mcp::engine::output_files("", &md);
    for name in [&files.txt, &files.json, &files.md] {
        assert!(belongs_to_video(name, "dQw4w9WgXcQ"), "{}", name);
    }
    assert_eq!(transcript_video_id(&files.txt), "dQw4w9WgXcQ");
    assert_eq!(transcript_video_id(&files.md), "dQw4w9WgXcQ");
}

#[test]
fn short_replies() {
    assert_eq!(no_directory_short_text(), "📂 No transcripts directory found.");
    assert_eq!(no_latest_transcript_text(), "📂 No transcripts found.");
    assert_eq!(latest_metadata_error_text(), "Failed to read latest transcript metadata");
}
