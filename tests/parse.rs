use diff_explore::commit::{Commit, Decoration};
use diff_explore::diff::{text_lines, DiffLine, DiffLineNrs, FileDiff, GitDiffOpts};
use diff_explore::refs::{DiffAction, Target};
use diff_explore::stat::Stat;
use diff_explore::text::{decimal, match_starts, parse_u64, split_str, splitn_str, str_starts_with};

fn strings(v: &[String]) -> Vec<&str> {
    v.iter().map(|s| s.as_str()).collect()
}

#[test]
fn stat_line_with_counts_and_path() {
    let s = Stat::new("10\t2\tsrc/main.rs").unwrap();
    assert_eq!(s.adds, 10);
    assert_eq!(s.deletes, 2);
    assert_eq!(s.path, "src/main.rs");
    assert_eq!(s.old_path, "");
}

#[test]
fn stat_line_with_rename() {
    let s = Stat::new("1\t0\told.rs => new.rs").unwrap();
    assert_eq!(s.path, "old.rs");
    assert_eq!(s.old_path, "new.rs");
}

#[test]
fn stat_line_that_is_not_numbers() {
    assert!(Stat::new("-\t-\timage.png").is_none());
    assert!(Stat::new("no tabs here").is_none());
    assert!(Stat::new("99999999999\t1\tbig").is_none());
}

#[test]
fn file_diff_numbers_the_lines_of_a_hunk() {
    let text = "diff --git a/f b/f\nindex 1..2 100644\n--- a/f\n+++ b/f\n@@ -1,3 +1,4 @@\n a\n-b\n+c\n+d\n e\n";
    let action = DiffAction::show(Target::Staged);
    let d = FileDiff::new(text, &action);
    assert_eq!(d.lines.len(), 10);
    assert_eq!(d.path, "b/f");
    assert_eq!(d.old_path, "a/f");
    assert_eq!(
        d.line_meta,
        vec![
            DiffLine::Start,
            DiffLine::Other,
            DiffLine::Other,
            DiffLine::Other,
            DiffLine::Hunk,
            DiffLine::Same(DiffLineNrs { old: 1, new: 1 }),
            DiffLine::Del(DiffLineNrs { old: 2, new: 2 }),
            DiffLine::Add(DiffLineNrs { old: 3, new: 2 }),
            DiffLine::Add(DiffLineNrs { old: 3, new: 3 }),
            DiffLine::Same(DiffLineNrs { old: 3, new: 4 }),
        ]
    );
    assert!(d.action.is_show());
}

#[test]
fn file_diff_hunk_header_without_counts() {
    let text = "@@ -7 +9 @@\n x\n";
    let d = FileDiff::new(text, &DiffAction::unstaged());
    assert_eq!(
        d.line_meta,
        vec![DiffLine::Hunk, DiffLine::Same(DiffLineNrs { old: 7, new: 9 })]
    );
    let bad = FileDiff::new("@@ nonsense\n x\n", &DiffAction::unstaged());
    assert_eq!(bad.line_meta, vec![DiffLine::Hunk, DiffLine::Other]);
}

#[test]
fn diff_line_kinds() {
    assert_eq!(DiffLine::new_line("+x", 1, 2), DiffLine::Add(DiffLineNrs { old: 1, new: 2 }));
    assert_eq!(DiffLine::new_line("-x", 1, 2), DiffLine::Del(DiffLineNrs { old: 1, new: 2 }));
    assert_eq!(DiffLine::new_line("", 1, 2), DiffLine::Same(DiffLineNrs { old: 1, new: 2 }));
    assert_eq!(DiffLine::new_meta("diff"), DiffLine::Start);
    assert_eq!(DiffLine::new_meta("@@"), DiffLine::Hunk);
    assert_eq!(DiffLine::new_meta(""), DiffLine::Other);
}

#[test]
fn diff_options_default_keeps_whitespace() {
    let o: GitDiffOpts = Default::default();
    assert!(!o.ignore_whitespace);
}

#[test]
fn log_line_is_read_into_a_commit() {
    let line = "abc123|pa pb| (HEAD -> main, tag: v1.0, origin/main, dev)|Ann|ann@example.org|1700000000|feat: add";
    let c = Commit::from_log_line(line).unwrap();
    assert_eq!(c.commit_ref.as_string(), "abc123");
    let parents: Vec<String> = c.parent_refs.iter().map(|p| p.as_string()).collect();
    assert_eq!(parents, vec!["pa".to_string(), "pb".to_string()]);
    assert_eq!(c.decoration.head, Some("main".to_string()));
    assert_eq!(strings(&c.decoration.tags), vec!["v1.0"]);
    assert_eq!(strings(&c.decoration.refs), vec!["origin/main"]);
    assert_eq!(strings(&c.decoration.branches), vec!["dev"]);
    assert_eq!(c.author_name, "Ann");
    assert_eq!(c.author_email, "ann@example.org");
    assert_eq!(c.timestamp, Some(1700000000));
    assert_eq!(c.subject, "feat: add");
}

#[test]
fn log_line_subject_keeps_its_bars() {
    let c = Commit::from_log_line("h||||e|5|a|b|c").unwrap();
    assert_eq!(c.subject, "a|b|c");
    assert!(c.parent_refs.is_empty());
}

#[test]
fn log_line_that_cannot_be_read() {
    assert!(Commit::from_log_line("abc|p|d|a|e|notanumber|s").is_none());
    assert!(Commit::from_log_line("too|few").is_none());
    assert!(Commit::from_log_line("a|b|c|d|e||s").is_none());
}

#[test]
fn decoration_is_trimmed_first() {
    let d = Decoration::new("   (main)  ");
    assert_eq!(strings(&d.branches), vec!["main"]);
    let e = Decoration::new("");
    assert!(e.branches.is_empty() && e.tags.is_empty() && e.refs.is_empty());
    assert_eq!(e.head, None);
    let f = Decoration::from_trimmed(" (main)");
    assert!(f.branches.is_empty());
}

#[test]
fn splitting_text() {
    assert_eq!(strings(&split_str("a,b,,c", ",")), vec!["a", "b", "", "c"]);
    assert_eq!(strings(&split_str("", ",")), vec![""]);
    assert_eq!(strings(&split_str("a => b", " => ")), vec!["a", "b"]);
    assert_eq!(strings(&splitn_str("a|b|c", 2, "|")), vec!["a", "b|c"]);
    assert!(str_starts_with("diff --git", "diff "));
    assert!(!str_starts_with("dif", "diff "));
}

#[test]
fn lines_of_text() {
    assert_eq!(strings(&text_lines("a\r\nb\n")), vec!["a", "b"]);
    assert_eq!(strings(&text_lines("a\n\nb")), vec!["a", "", "b"]);
    assert!(text_lines("").is_empty());
}

#[test]
fn numbers_are_read_and_written() {
    assert_eq!(parse_u64("+12", 100), Some(12));
    assert_eq!(parse_u64("007", 100), Some(7));
    assert_eq!(parse_u64("", 100), None);
    assert_eq!(parse_u64("101", 100), None);
    assert_eq!(parse_u64("1a", 100), None);
    assert_eq!(parse_u64("18446744073709551615", u64::MAX), Some(u64::MAX));
    assert_eq!(decimal(0), "0");
    assert_eq!(decimal(1234), "1234");
}

#[test]
fn matches_are_found_left_to_right_without_overlap() {
    assert_eq!(match_starts("aaaa", "aa"), vec![0, 2]);
    assert_eq!(match_starts("abcabc", "bc"), vec![1, 4]);
    assert_eq!(match_starts("abc", "x"), Vec::<usize>::new());
    assert_eq!(match_starts("abc", ""), Vec::<usize>::new());
    assert_eq!(match_starts("\u{e9}t\u{e9}", "\u{e9}"), vec![0, 2]);
}
