use md5::Digest;

use cmdk::session::{
    add_to_prompt_history, append_to_session, cleanup_stale_session, count_occurrences,
    get_history_file, get_last_result, get_recent_prompts, get_result_file, get_session_file,
    get_session_history, get_session_turn_count,
};

#[test]
fn test_session_file_hash() {
    // The hash should be deterministic
    let file1 = get_session_file("/home/u/.command-k", "/tmp/project");
    let file2 = get_session_file("/home/u/.command-k", "/tmp/project");
    assert_eq!(file1, file2);
}

#[test]
fn session_file_uses_the_md5_prefix_of_the_directory() {
    // md5("abc") = 900150983cd24fb0d6963f7d28e17f72
    assert_eq!(get_session_file("d", "abc"), "d/cli-session-90015098.md");
    let mut hasher = md5::Md5::new();
    hasher.update("/tmp/project".as_bytes());
    let expected = format!("d/cli-session-{}.md", &format!("{:x}", hasher.finalize())[..8]);
    assert_eq!(get_session_file("d", "/tmp/project"), expected);
}

#[test]
fn transcript_round_trip_adds_exactly_one_turn() {
    let c1 = append_to_session("", "list files", "ls -la");
    assert!(c1.contains("list files"));
    assert!(c1.contains("ls -la"));
    assert_eq!(get_session_turn_count(Some(&c1)), 1);
    let c2 = append_to_session(&c1, "disk use", "du -sh .");
    assert!(c2.contains("disk use"));
    assert!(c2.contains("du -sh ."));
    assert_eq!(get_session_turn_count(Some(&c2)), 2);
    assert_eq!(get_session_turn_count(None), 0);
}

#[test]
fn turn_blocks_have_the_transcript_layout() {
    let c = append_to_session("", "q", "a");
    assert_eq!(c, "## User: q\n\n## Assistant:\na\n\n");
    assert_eq!(count_occurrences(&c, "## User:"), 1);
}

#[test]
fn stale_transcripts_are_treated_as_absent() {
    let content = "## User: hi\n\n## Assistant:\nhello\n\n";
    assert!(get_session_history(Some(content), 3601).is_none());
    let kept = get_session_history(Some(content), 3600).unwrap();
    assert_eq!(kept, content);
    assert!(get_session_history(Some("  \n"), 0).is_none());
    assert!(get_session_history(None, 0).is_none());
}

#[test]
fn stale_transcripts_are_removed_by_cleanup() {
    assert!(cleanup_stale_session(true, 3601));
    assert!(!cleanup_stale_session(true, 3600));
    assert!(!cleanup_stale_session(false, 100000));
}

#[test]
fn recent_prompts_deduplicate_newest_first() {
    let content = "ls -la\ngit status\nls -la\n";
    let prompts = get_recent_prompts(content, 10);
    assert_eq!(prompts, vec!["ls -la".to_string(), "git status".to_string()]);
}

#[test]
fn recent_prompts_skip_blanks_and_honor_the_cap() {
    let content = "one\n\n  \ntwo\nthree\n";
    assert_eq!(
        get_recent_prompts(content, 2),
        vec!["three".to_string(), "two".to_string()]
    );
    assert_eq!(get_recent_prompts("", 5), Vec::<String>::new());
    assert_eq!(get_recent_prompts("solo\n", 0), Vec::<String>::new());
}

#[test]
fn prompt_history_appends_one_line() {
    let h = add_to_prompt_history("ls\n", "git log");
    assert_eq!(h, "ls\ngit log\n");
}

#[test]
fn last_result_is_none_when_blank() {
    assert_eq!(get_last_result(Some("  \n")), None);
    assert_eq!(get_last_result(Some("ls -la\n")).unwrap(), "ls -la\n");
    assert_eq!(get_last_result(None), None);
}

#[test]
fn session_paths_live_under_the_given_dir() {
    assert_eq!(get_result_file("/x"), "/x/last-result.txt");
    assert_eq!(get_history_file("/x"), "/x/prompt_history");
}
