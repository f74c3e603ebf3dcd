use diff_explore::commit::Commit;
use diff_explore::console::{line_count, Console, Message};
use diff_explore::events::Key;
use diff_explore::list::{ListInfo, ListScroll};
use diff_explore::refs::{str_contains, DiffAction, GitRef, Target};
use diff_explore::statusline::{search_status, Location, StatusLine, StatusLineView};
use diff_explore::subject::{split_subject, split_subject_when};
use diff_explore::time::{relative_time, DateTimeParts, RelativeTime};
use diff_explore::util::{CommitRange, Dimensions, Ellipses};

#[test]
fn sentinel_refs() {
    assert_eq!(GitRef::unstaged(3).as_string(), "000");
    assert_eq!(GitRef::staged(2).as_string(), "SS");
    assert!(GitRef::staged(4).is_staged());
    assert!(!GitRef::new("abc").is_staged());
    assert!(GitRef::unstaged(5).is_unstaged());
    assert!(GitRef::new("").is_unstaged());
    assert!(!GitRef::new("0a").is_unstaged());
}

#[test]
fn ref_length_and_search() {
    assert_eq!(GitRef::new("abc").len(), 3);
    assert_eq!(GitRef::new("\u{e9}").len(), 2);
    assert!(GitRef::new("abcdef").contains("cde"));
    assert!(!GitRef::new("abcdef").contains("ce"));
    assert!(GitRef::new("").contains(""));
    assert!(str_contains("a -> b", " -> "));
    assert_eq!(GitRef::new("x"), GitRef::new("x"));
    assert_ne!(GitRef::new("x"), GitRef::new("y"));
    let v = GitRef::from_strs(&["a", "b"]);
    assert_eq!(v, vec![GitRef::new("a"), GitRef::new("b")]);
}

#[test]
fn diff_actions() {
    let a = DiffAction::diff(Target::Ref(GitRef::new("a")), Some(GitRef::new("a")));
    assert!(a.is_show());
    let b = DiffAction::diff(Target::Ref(GitRef::new("a")), Some(GitRef::new("b")));
    assert!(!b.is_show());
    assert_eq!(b.to_string(), "b");
    assert!(DiffAction::show(Target::Unstaged).is_show());
    assert!(DiffAction::staged().has_staged());
    assert!(!DiffAction::unstaged().has_staged());
    assert_eq!(DiffAction::unstaged().to_string(), "UNSTAGED");
    assert_eq!(DiffAction::staged().to_string(), "STAGED");
    assert_eq!(Target::Ref(GitRef::new("h")).to_string(), "h");
    assert_eq!(*DiffAction::staged().target(), Target::Staged);
    assert_eq!(*b.anchor(), Some(GitRef::new("b")));
}

#[test]
fn console_follows_the_end_until_scrolled() {
    let mut c = Console::new();
    assert_eq!(c.list_pos(), 0);
    c.set_num_lines(10);
    c.set_height(3);
    assert_eq!(c.list_count(), 10);
    assert_eq!(c.list_pos(), 7);
    c.scroll_up();
    assert_eq!(c.list_pos(), 6);
    c.scroll_down();
    assert_eq!(c.list_pos(), 7);
    c.scroll_down();
    assert_eq!(c.list_pos(), 7);
    c.page_up();
    assert_eq!(c.list_pos(), 5);
    c.page_down();
    assert_eq!(c.list_pos(), 7);
    c.scroll_top();
    assert_eq!(c.list_pos(), 0);
    c.scroll_up();
    assert_eq!(c.list_pos(), 0);
    c.scroll_bottom();
    assert_eq!(c.list_pos(), 7);
    c.scroll_to(2);
    assert_eq!(c.list_pos(), 2);
    c.set_num_lines(20);
    assert_eq!(c.list_pos(), 2);
    c.auto_scroll();
    assert_eq!(c.list_pos(), 17);
    assert_eq!(c.height(), 3);
}

#[test]
fn messages_keep_their_text() {
    let m = Message::new("hello");
    assert_eq!(m.content(), "hello");
    assert_eq!(m.clone().content(), "hello");
    assert_eq!(line_count("a\nb\n"), 2);
    assert_eq!(line_count(""), 0);
}

#[test]
fn status_line_and_location() {
    let mut s = StatusLine::new("start".to_string(), None);
    s.set_status("abc".to_string());
    s.set_location(3, 120);
    assert_eq!(s.status, "abc");
    let loc = s.location.unwrap();
    assert_eq!(loc, Location { pos: 3, total: 120 });
    assert_eq!(loc.to_string(), "3/120");
    assert_eq!(loc.max_width(), 7);
    let v = StatusLineView::new(&s);
    assert_eq!(v.statusline.status, "abc");
    assert_eq!(search_status("needle".to_string()), "/needle");
}

#[test]
fn commit_ranges_and_sizes() {
    let r = CommitRange { start: "a".to_string(), end: Some("b".to_string()) };
    assert_eq!(r.to_string(), "a..b");
    let s = CommitRange { start: "a".to_string(), end: None };
    assert_eq!(s.to_string(), "a");
    assert_eq!(Dimensions::new(80, 24), Dimensions { width: 80, height: 24 });
    assert_eq!(Ellipses::ellipses(&"abcdefgh".to_string(), 6), "abc...");
    assert_eq!(Ellipses::ellipses(&"abc".to_string(), 6), "abc");
}

#[test]
fn keys_have_names() {
    assert_eq!(Key::Ctrl('c').to_string(), "Key(Ctrl+c)");
    assert_eq!(Key::Char('x').to_string(), "Key(x)");
    assert_eq!(Key::Enter.to_string(), "Key(Enter)");
    assert_eq!(Key::Unknown.to_string(), "Key(unknown)");
}

fn parts(year: i32, month: u32, day: u32, hour: u32, minute: u32, second: u32) -> DateTimeParts {
    DateTimeParts { year, month, day, hour, minute, second }
}

#[test]
fn relative_times_use_the_largest_unit_that_differs() {
    assert_eq!(relative_time(&parts(2020, 5, 1, 0, 0, 0), &parts(2023, 1, 1, 0, 0, 0)), "3Y");
    assert_eq!(relative_time(&parts(2023, 2, 1, 0, 0, 0), &parts(2023, 5, 1, 0, 0, 0)), "3M");
    assert_eq!(relative_time(&parts(2023, 5, 1, 9, 0, 0), &parts(2023, 5, 3, 1, 0, 0)), "2D");
    assert_eq!(relative_time(&parts(2023, 5, 1, 9, 0, 0), &parts(2023, 5, 1, 12, 0, 0)), "3h");
    assert_eq!(relative_time(&parts(2023, 5, 1, 9, 5, 0), &parts(2023, 5, 1, 9, 15, 0)), "10m");
    assert_eq!(relative_time(&parts(2023, 5, 1, 9, 5, 0), &parts(2023, 5, 1, 9, 5, 7)), "7s");
    assert_eq!(relative_time(&parts(2024, 5, 1, 9, 5, 0), &parts(2023, 5, 1, 9, 5, 7)), "-1Y");
}

#[test]
fn commit_relative_time_from_unix_seconds() {
    let mut c = Commit::new(GitRef::new("a"), vec![], "", String::new(), String::new(), Some(1700000000), String::new());
    assert_eq!(c.relative_time(1700000030), "30s");
    assert_eq!(c.relative_time(1700000000 + 2 * 86400), "2D");
    c.timestamp = Some(0);
    assert_eq!(c.relative_time(86400 * 366 * 3), "3Y");
    c.timestamp = None;
    assert_eq!(c.relative_time(1700000000), "");
}

#[test]
fn conventional_subjects_are_split_after_the_colon() {
    let (t, m) = split_subject("feat(ui)!: add thing");
    assert_eq!(t, "feat(ui)!:");
    assert_eq!(m, Some(" add thing".to_string()));
    let (t, m) = split_subject("Merge branch 'x': y");
    assert_eq!(t, "Merge branch 'x': y");
    assert_eq!(m, None);
    let (t, m) = split_subject("fix:");
    assert_eq!(t, "fix:");
    assert_eq!(m, None);
    let (t, m) = split_subject_when("a:b:c", true);
    assert_eq!((t.as_str(), m.as_deref()), ("a:", Some("b:c")));
}
