use std::path::PathBuf;

use zap::diff_state::{DiffStateModel, GitFileStatus};

#[test]
fn test_parse_range_with_comma() {
    let (start, count) = DiffStateModel::parse_range("10,5")
        .expect("parse_range should succeed for range with count");
    assert_eq!(start, 10);
    assert_eq!(count, 5);
}

#[test]
fn test_parse_range_without_comma() {
    let (start, count) = DiffStateModel::parse_range("10")
        .expect("parse_range should succeed for range without count");
    assert_eq!(start, 10);
    assert_eq!(count, 1);
}

#[test]
fn parse_range_rejects_non_numbers() {
    assert!(DiffStateModel::parse_range("").is_err());
    assert!(DiffStateModel::parse_range("a,1").is_err());
    assert!(DiffStateModel::parse_range("1,").is_err());
    assert_eq!(DiffStateModel::parse_range("+3,+4").unwrap(), (3, 4));
}

#[test]
fn test_parse_unified_diff_header_basic() {
    let header = "@@ -10,5 +12,7 @@";
    let parsed = DiffStateModel::parse_unified_diff_header(header)
        .expect("parse_unified_diff_header should succeed for basic header");
    assert_eq!(parsed.old_start_line, 10);
    assert_eq!(parsed.old_line_count, 5);
    assert_eq!(parsed.new_start_line, 12);
    assert_eq!(parsed.new_line_count, 7);
}

#[test]
fn test_parse_unified_diff_header_with_context() {
    let header = "@@ -4978,33 +4978,43 @@ impl TerminalView {";
    let parsed = DiffStateModel::parse_unified_diff_header(header)
        .expect("parse_unified_diff_header should succeed for header with context");
    assert_eq!(parsed.old_start_line, 4978);
    assert_eq!(parsed.old_line_count, 33);
    assert_eq!(parsed.new_start_line, 4978);
    assert_eq!(parsed.new_line_count, 43);
}

#[test]
fn test_parse_unified_diff_header_single_line() {
    let header = "@@ -10 +12,3 @@";
    let parsed = DiffStateModel::parse_unified_diff_header(header)
        .expect("parse_unified_diff_header should succeed for single line header");
    assert_eq!(parsed.old_start_line, 10);
    assert_eq!(parsed.old_line_count, 1);
    assert_eq!(parsed.new_start_line, 12);
    assert_eq!(parsed.new_line_count, 3);
}

#[test]
fn test_sort_branches_main_first_empty() {
    let branches: Vec<(String, bool)> = vec![];
    let result: Vec<_> = DiffStateModel::sort_branches_main_first(&branches).collect();
    assert!(result.is_empty());
}

#[test]
fn test_sort_branches_main_first_no_main() {
    let branches = vec![
        ("feature-a".to_string(), false),
        ("feature-b".to_string(), false),
        ("feature-c".to_string(), false),
    ];
    let result: Vec<_> = DiffStateModel::sort_branches_main_first(&branches).collect();
    assert_eq!(result, branches.iter().collect::<Vec<_>>());
}

#[test]
fn test_sort_branches_main_first_promotes_main() {
    let branches = vec![
        ("feature-a".to_string(), false),
        ("main".to_string(), true),
        ("feature-b".to_string(), false),
    ];
    let result: Vec<_> = DiffStateModel::sort_branches_main_first(&branches)
        .map(|(name, _)| name.as_str())
        .collect();
    assert_eq!(result, vec!["main", "feature-a", "feature-b"]);
}

#[test]
fn test_sort_branches_main_first_main_already_first() {
    let branches = vec![
        ("main".to_string(), true),
        ("feature-a".to_string(), false),
        ("feature-b".to_string(), false),
    ];
    let result: Vec<_> = DiffStateModel::sort_branches_main_first(&branches)
        .map(|(name, _)| name.as_str())
        .collect();
    assert_eq!(result, vec!["main", "feature-a", "feature-b"]);
}

#[test]
fn test_sort_branches_main_first_preserves_recency_order_for_non_main() {
    let branches = vec![
        ("recent-feature".to_string(), false),
        ("main".to_string(), true),
        ("older-feature".to_string(), false),
        ("oldest-feature".to_string(), false),
    ];
    let result: Vec<_> = DiffStateModel::sort_branches_main_first(&branches)
        .map(|(name, _)| name.as_str())
        .collect();
    assert_eq!(
        result,
        vec!["main", "recent-feature", "older-feature", "oldest-feature"]
    );
}

#[test]
fn test_sort_branches_main_first_multiple_main_flags() {
    let branches = vec![
        ("feature".to_string(), false),
        ("main".to_string(), true),
        ("master".to_string(), true),
    ];
    let result: Vec<_> = DiffStateModel::sort_branches_main_first(&branches)
        .map(|(name, _)| name.as_str())
        .collect();
    assert_eq!(result, vec!["main", "master", "feature"]);
}

#[test]
fn test_parse_unified_diff_header_malformed() {
    let header = "not a diff header";
    let result = DiffStateModel::parse_unified_diff_header(header);
    assert!(result.is_err());

    let header2 = "@@ incomplete";
    let result2 = DiffStateModel::parse_unified_diff_header(header2);
    assert!(result2.is_err());
}

#[test]
fn test_parse_git_status_modified_file_with_spaces() {
    let status_output = "1 .M N... 100644 100644 100644 abc1234 def5678 test file.txt";
    let result = DiffStateModel::parse_git_status(status_output).unwrap();
    assert_eq!(result.len(), 1);
    assert_eq!(PathBuf::from(&result[0].0), PathBuf::from("test file.txt"));
    assert_eq!(result[0].1, GitFileStatus::Modified);
}

#[test]
fn test_parse_git_status_modified_file_with_multiple_spaces() {
    let status_output = "1 .M N... 100644 100644 100644 abc1234 def5678 path to/my test file.txt";
    let result = DiffStateModel::parse_git_status(status_output).unwrap();
    assert_eq!(result.len(), 1);
    assert_eq!(
        PathBuf::from(&result[0].0),
        PathBuf::from("path to/my test file.txt")
    );
    assert_eq!(result[0].1, GitFileStatus::Modified);
}

#[test]
fn test_parse_git_status_new_file_with_spaces() {
    let status_output = "1 A. N... 000000 100644 100644 0000000 abc1234 new file name.rs";
    let result = DiffStateModel::parse_git_status(status_output).unwrap();
    assert_eq!(result.len(), 1);
    assert_eq!(PathBuf::from(&result[0].0), PathBuf::from("new file name.rs"));
    assert_eq!(result[0].1, GitFileStatus::New);
}

#[test]
fn test_parse_git_status_renamed_file_with_spaces() {
    let status_output =
        "2 R. N... 100644 100644 100644 abc1234 def5678 R100 new name.txt\0old name.txt";
    let result = DiffStateModel::parse_git_status(status_output).unwrap();
    assert_eq!(result.len(), 1);
    assert_eq!(PathBuf::from(&result[0].0), PathBuf::from("new name.txt"));
    assert!(matches!(
        &result[0].1,
        GitFileStatus::Renamed { old_path } if old_path == "old name.txt"
    ));
}

#[test]
fn test_parse_git_status_untracked_file_with_spaces() {
    let status_output = "? my untracked file.txt";
    let result = DiffStateModel::parse_git_status(status_output).unwrap();
    assert_eq!(result.len(), 1);
    assert_eq!(
        PathBuf::from(&result[0].0),
        PathBuf::from("my untracked file.txt")
    );
    assert_eq!(result[0].1, GitFileStatus::Untracked);
}

#[test]
fn test_parse_git_status_unmerged_file_with_spaces() {
    let status_output =
        "u UU N... 100644 100644 100644 100644 abc1234 def5678 ghi9012 conflict file.txt";
    let result = DiffStateModel::parse_git_status(status_output).unwrap();
    assert_eq!(result.len(), 1);
    assert_eq!(PathBuf::from(&result[0].0), PathBuf::from("conflict file.txt"));
    assert_eq!(result[0].1, GitFileStatus::Conflicted);
}

#[test]
fn test_parse_git_status_mixed_entries_with_spaces() {
    let status_output = "1 .M N... 100644 100644 100644 abc1234 def5678 test file.txt\0\
         1 .M N... 100644 100644 100644 abc1234 def5678 normal.txt\0\
         ? another file with spaces.rs";
    let result = DiffStateModel::parse_git_status(status_output).unwrap();
    assert_eq!(result.len(), 3);
    assert_eq!(PathBuf::from(&result[0].0), PathBuf::from("test file.txt"));
    assert_eq!(PathBuf::from(&result[1].0), PathBuf::from("normal.txt"));
    assert_eq!(
        PathBuf::from(&result[2].0),
        PathBuf::from("another file with spaces.rs")
    );
}

#[test]
fn test_parse_git_status_file_without_spaces_still_works() {
    let status_output = "1 .M N... 100644 100644 100644 abc1234 def5678 simple.txt";
    let result = DiffStateModel::parse_git_status(status_output).unwrap();
    assert_eq!(result.len(), 1);
    assert_eq!(PathBuf::from(&result[0].0), PathBuf::from("simple.txt"));
    assert_eq!(result[0].1, GitFileStatus::Modified);
}

#[test]
fn parse_git_status_reports_deleted_and_rejects_truncated_entries() {
    let result =
        DiffStateModel::parse_git_status("1 .D N... 100644 100644 000000 abc1234 def5678 gone.txt")
            .unwrap();
    assert_eq!(result, vec![("gone.txt".to_string(), GitFileStatus::Deleted)]);
    assert!(DiffStateModel::parse_git_status("1 .M N... 100644").is_err());
    assert!(DiffStateModel::parse_git_status(
        "2 R. N... 100644 100644 100644 abc1234 def5678 R100 new name.txt"
    )
    .is_err());
}

#[test]
fn is_binary_file_content_matches_git_window() {
    assert!(!DiffStateModel::is_binary_content(b"hello\n"));
    assert!(!DiffStateModel::is_binary_content(b""));

    let mut late = vec![b'a'; 5000];
    late.push(0);
    assert!(DiffStateModel::is_binary_content(&late));

    let mut far = vec![b'a'; 9000];
    far.push(0);
    assert!(!DiffStateModel::is_binary_content(&far));
}

#[test]
fn parse_cat_file_batch_output_handles_missing_tree_and_empty_blob() {
    let output = b"abc123 blob 5\nhello\nHEAD:gone missing\ndef456 tree 3\nxyz\nghi789 blob 0\n\n";
    let parsed = DiffStateModel::parse_cat_file_batch_output(output, 4);
    assert_eq!(
        parsed,
        vec![Some("hello".to_string()), None, None, Some(String::new())]
    );
}

#[test]
fn parse_cat_file_batch_output_tolerates_truncated_stream() {
    let output = b"abc123 blob 99\nhel";
    let parsed = DiffStateModel::parse_cat_file_batch_output(output, 2);
    assert_eq!(parsed, vec![None, None]);
}

#[test]
fn parse_cat_file_batch_output_pads_and_decodes_lossily() {
    let output = b"a1 blob 2\n\xff!\n";
    let parsed = DiffStateModel::parse_cat_file_batch_output(output, 3);
    assert_eq!(parsed, vec![Some("\u{fffd}!".to_string()), None, None]);
    assert!(DiffStateModel::parse_cat_file_batch_output(b"", 0).is_empty());
    assert_eq!(
        DiffStateModel::parse_cat_file_batch_output(b"no header line", 1),
        vec![None]
    );
    assert_eq!(
        DiffStateModel::parse_cat_file_batch_output(b"a1 blob x\nabc\n", 1),
        vec![None]
    );
}
