use diff_explore::commit::Commit;
use diff_explore::diff::FileDiff;
use diff_explore::events::Key;
use diff_explore::input::{Action, InputState, ViewKind};
use diff_explore::list::{ListCursor, ListInfo, ListScroll};
use diff_explore::refs::{DiffAction, GitRef, Target};
use diff_explore::search::Search;
use diff_explore::stat::Stat;
use diff_explore::views::{CommitFields, CommitLog, Diff, Stats};

fn commit(r: &str, parents: &[&str], subject: &str) -> Commit {
    Commit::new(
        GitRef::new(r),
        GitRef::from_strs(parents),
        "(HEAD -> main, tag: v1)",
        "Ann".to_string(),
        String::new(),
        None,
        subject.to_string(),
    )
}

fn log() -> CommitLog {
    CommitLog::new(
        vec![
            commit("c3", &["c2"], "fix: third"),
            commit("c2", &["c1"], "feat: second"),
            commit("c1", &[], "fix: first"),
        ],
        0,
    )
}

#[test]
fn commit_log_cursor_moves_within_the_list() {
    let mut l = log();
    assert_eq!(l.graph.graph.len(), 3);
    assert_eq!(l.list_count(), 3);
    assert_eq!(l.cursor(), 0);
    l.cursor_up();
    assert_eq!(l.cursor(), 0);
    l.cursor_down();
    assert_eq!(l.cursor(), 1);
    l.cursor_to_bottom();
    assert_eq!(l.cursor(), 2);
    l.cursor_down();
    assert_eq!(l.cursor(), 2);
    l.cursor_to(7);
    assert_eq!(l.cursor(), 2);
    l.cursor_to_top();
    assert_eq!(l.cursor(), 0);
    l.list.height = 2;
    l.cursor_page_down();
    assert_eq!(l.cursor(), 1);
    l.cursor_page_down();
    assert_eq!(l.cursor(), 2);
    l.cursor_page_up();
    assert_eq!(l.cursor(), 1);
}

#[test]
fn commit_log_mark_and_status() {
    let mut l = log();
    assert_eq!(l.status(), "c3");
    l.cursor_mark();
    assert_eq!(l.mark, Some(0));
    l.cursor_down();
    assert_eq!(l.get_marked(), Some(GitRef::new("c3")));
    assert_eq!(l.get_selected(), Target::Ref(GitRef::new("c2")));
    assert_eq!(l.status(), "c3..c2");
    l.cursor_mark();
    assert_eq!(l.mark, None);
    l.toggle_show_details();
    assert!(l.show_details);
}

#[test]
fn commit_log_selects_the_sentinels() {
    let l = CommitLog::new(
        vec![
            commit(&GitRef::staged(4).as_string(), &["c1"], "Staged changes"),
            commit(&GitRef::unstaged(4).as_string(), &["c1"], "Unstaged changes"),
        ],
        0,
    );
    assert_eq!(l.get_selected(), Target::Staged);
    let mut l = l;
    l.cursor_down();
    assert_eq!(l.get_selected(), Target::Unstaged);
    assert_eq!(l.status(), "UNSTAGED");
}

#[test]
fn commit_log_search_moves_between_matches() {
    let mut l = log();
    l.set_search(Some("fix".to_string()));
    assert!(l.is_match(0));
    assert!(!l.is_match(1));
    l.search_next();
    assert_eq!(l.cursor(), 2);
    l.search_next();
    assert_eq!(l.cursor(), 2);
    l.search_prev();
    assert_eq!(l.cursor(), 0);
    l.set_search(Some("[main]".to_string()));
    assert!(l.is_match(1));
    l.set_search(Some("<v1>".to_string()));
    assert!(l.is_match(2));
    l.set_search(None);
    assert!(!l.is_match(0));
    assert_eq!(l.get_search(), None);
}

#[test]
fn commit_fields_are_decorated() {
    let c = commit("abc", &[], "subject");
    let f = CommitFields::new(&c, 0);
    assert_eq!(f.head, Some("[main]".to_string()));
    assert_eq!(f.tags, vec!["<v1>".to_string()]);
    assert!(f.contains(&"abc".to_string()));
    assert!(!f.contains(&"xyz".to_string()));
}

fn stat(line: &str) -> Stat {
    Stat::new(line).unwrap()
}

#[test]
fn stats_view_cursor_and_search() {
    let mut s = Stats::new(
        DiffAction::show(Target::Ref(GitRef::new("h"))),
        vec![stat("3\t1\ta.rs"), stat("12\t0\tb.rs"), stat("0\t7\tc.txt")],
    );
    assert_eq!(s.status(), "h");
    assert_eq!(s.current_stat().path, "a.rs");
    s.cursor_down();
    assert_eq!(s.current_stat().path, "b.rs");
    assert!(s.commits().is_show());
    s.set_search(Some("7".to_string()));
    s.search_next();
    assert_eq!(s.list_pos(), 2);
    s.set_search(Some("12".to_string()));
    s.search_prev();
    assert_eq!(s.list_pos(), 1);
    assert!(s.is_match(1));
    assert!(!s.is_match(0));
}

#[test]
fn diff_view_scrolls_and_searches() {
    let action = DiffAction::diff(Target::Ref(GitRef::new("b")), Some(GitRef::new("a")));
    let text = "@@ -1,2 +1,2 @@\n-one\n+two\n three\n four\n five\n";
    let mut d = Diff::new(stat("1\t1\tf.txt"), action.clone(), FileDiff::new(text, &action));
    assert_eq!(d.status(), "a: f.txt");
    assert_eq!(d.list_count(), 6);
    d.height = 3;
    d.scroll_down();
    assert_eq!(d.list_pos(), 1);
    d.page_down();
    assert_eq!(d.list_pos(), 3);
    d.scroll_down();
    assert_eq!(d.list_pos(), 3);
    d.scroll_top();
    d.set_search(Some("four".to_string()));
    d.search_next();
    assert_eq!(d.list_pos(), 4);
    d.toggle_show_line_numbers();
    assert!(d.show_line_numbers);
    d.refresh(FileDiff::new("x\n", &action));
    assert_eq!(d.list_count(), 1);
}

#[test]
fn typing_a_search() {
    let mut s = InputState::new();
    assert_eq!(s.do_action(ViewKind::CommitLog, Key::Char('/'), false), Action::Nothing);
    assert!(s.typing_search);
    s.do_action(ViewKind::CommitLog, Key::Char('a'), false);
    s.do_action(ViewKind::CommitLog, Key::Char('b'), false);
    assert_eq!(s.entering_search(), Some("ab".to_string()));
    s.do_action(ViewKind::CommitLog, Key::Backspace, false);
    assert_eq!(s.search, Some("a".to_string()));
    assert_eq!(s.do_action(ViewKind::CommitLog, Key::Ctrl('p'), false), Action::SearchPrev);
    assert_eq!(s.do_action(ViewKind::CommitLog, Key::Enter, false), Action::SearchNext);
    assert!(!s.typing_search);
    assert_eq!(s.entering_search(), None);
    assert_eq!(s.do_action(ViewKind::Stats, Key::Char('N'), false), Action::SearchNext);
    assert_eq!(s.do_action(ViewKind::Diff, Key::Char('n'), false), Action::SearchNext);
    assert_eq!(s.do_action(ViewKind::Diff, Key::Escape, false), Action::Nothing);
    assert_eq!(s.search, None);
    assert_eq!(s.do_action(ViewKind::Diff, Key::Char('n'), false), Action::ToggleLineNumbers);
}

#[test]
fn keys_that_wait_for_a_second_key() {
    let mut s = InputState::new();
    assert_eq!(s.do_action(ViewKind::Stats, Key::Char('1'), false), Action::Nothing);
    assert_eq!(s.do_action(ViewKind::Stats, Key::Char('G'), false), Action::ToTop);
    assert!(s.pending_keys.is_empty());
    s.do_action(ViewKind::Stats, Key::Char('1'), false);
    assert_eq!(s.do_action(ViewKind::Stats, Key::Char('G'), true), Action::ToBottom);
    s.do_action(ViewKind::Stats, Key::Char('1'), false);
    assert_eq!(s.do_action(ViewKind::Stats, Key::Char('x'), false), Action::Nothing);
    assert!(s.pending_keys.is_empty());
}

#[test]
fn keys_on_each_view() {
    let mut s = InputState::new();
    assert_eq!(s.do_action(ViewKind::CommitLog, Key::Char('q'), false), Action::Quit);
    assert_eq!(s.do_action(ViewKind::Stats, Key::Char('q'), false), Action::CloseView);
    assert_eq!(s.do_action(ViewKind::Diff, Key::Ctrl('c'), false), Action::Quit);
    assert_eq!(s.do_action(ViewKind::CommitLog, Key::Char(' '), false), Action::Mark);
    assert_eq!(s.do_action(ViewKind::Diff, Key::Char(' '), false), Action::PageDown);
    assert_eq!(s.do_action(ViewKind::CommitLog, Key::Char('d'), false), Action::OpenDiff);
    assert_eq!(s.do_action(ViewKind::Stats, Key::Enter, false), Action::OpenSelected);
    assert_eq!(s.do_action(ViewKind::Diff, Key::Char('k'), false), Action::Up);
    assert_eq!(s.do_action(ViewKind::Diff, Key::Down, false), Action::Down);
    assert_eq!(s.do_action(ViewKind::Stats, Key::Ctrl('u'), false), Action::PageUp);
    assert_eq!(s.do_action(ViewKind::CommitLog, Key::Char('l'), false), Action::ToggleDetails);
    assert_eq!(s.do_action(ViewKind::CommitLog, Key::Char('z'), false), Action::Unhandled(Key::Char('z')));
    assert_eq!(s.do_action(ViewKind::Empty, Key::Up, false), Action::Nothing);
}
