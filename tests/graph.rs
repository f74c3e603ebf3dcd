use diff_explore::commit::Commit;
use diff_explore::graph::{CommitCell, CommitGraph, Track};
use diff_explore::refs::GitRef;
use diff_explore::render::{draw_graph, ColorMap, Glyph, Symbol};

fn commit(r: &str, parents: &[&str]) -> Commit {
    Commit::new(
        GitRef::new(r),
        GitRef::from_strs(parents),
        "",
        String::new(),
        String::new(),
        None,
        String::new(),
    )
}

fn tracks(g: &CommitGraph, row: usize) -> Vec<Track> {
    g.graph[row].tracks.iter().map(|c| c.track).collect()
}

fn parent(c: &CommitCell) -> Option<String> {
    c.parent.as_ref().map(|p| p.as_string())
}

fn count(g: &CommitGraph, row: usize, t: Track) -> usize {
    g.graph[row].tracks.iter().filter(|c| c.track == t).count()
}

fn symbols(glyphs: &[Glyph]) -> Vec<Symbol> {
    glyphs.iter().map(|g| g.symbol).collect()
}

#[test]
fn linear_history_rows_are_single_nodes() {
    let commits = vec![commit("C3", &["C2"]), commit("C2", &["C1"]), commit("C1", &[])];
    let g = CommitGraph::new(&commits);
    assert_eq!(g.graph.len(), 3);
    for row in 0..3 {
        assert_eq!(tracks(&g, row), vec![Track::Node]);
    }
    assert_eq!(parent(&g.graph[0].tracks[0]), Some("C2".to_string()));
    assert_eq!(parent(&g.graph[1].tracks[0]), Some("C1".to_string()));
    assert_eq!(parent(&g.graph[2].tracks[0]), None);
    assert_eq!(g.graph[2].tracks[0].related.as_string(), "C1");
}

#[test]
fn merge_then_convergence() {
    let commits = vec![
        commit("M", &["B", "A"]),
        commit("B", &["R"]),
        commit("A", &["R"]),
        commit("R", &[]),
    ];
    let g = CommitGraph::new(&commits);
    assert_eq!(g.graph.len(), 4);
    assert_eq!(tracks(&g, 0), vec![Track::Node, Track::Merge]);
    assert_eq!(parent(&g.graph[0].tracks[1]), Some("A".to_string()));
    assert_eq!(tracks(&g, 1), vec![Track::Node, Track::Continue]);
    assert_eq!(parent(&g.graph[1].tracks[1]), Some("A".to_string()));
    assert_eq!(tracks(&g, 2), vec![Track::Continue, Track::Node]);
    assert_eq!(tracks(&g, 3), vec![Track::Node, Track::Branch]);
    assert_eq!(g.graph[3].tracks[1].related.as_string(), "R");
    assert_eq!(parent(&g.graph[3].tracks[1]), None);
}

#[test]
fn two_parent_merge_opens_one_column() {
    let commits = vec![commit("M", &["B", "A"]), commit("B", &["R"])];
    let g = CommitGraph::new(&commits);
    assert_eq!(count(&g, 0, Track::Node), 1);
    assert_eq!(count(&g, 0, Track::Merge), 1);
    assert!(g.graph[1].tracks.iter().any(|c| parent(c) == Some("A".to_string())));
}

#[test]
fn octopus_merge_has_two_merge_cells() {
    let commits = vec![commit("M", &["A", "B", "C"])];
    let g = CommitGraph::new(&commits);
    assert_eq!(tracks(&g, 0), vec![Track::Node, Track::Merge, Track::Merge]);
    let mut colors = ColorMap::new();
    let glyphs = draw_graph(&g.graph[0], &mut colors);
    assert_eq!(
        symbols(&glyphs),
        vec![
            Symbol::BigBullet,
            Symbol::HalfHLine,
            Symbol::RightDown,
            Symbol::HLine,
            Symbol::RightDown
        ]
    );
}

#[test]
fn octopus_merge_with_repeated_parent_draws_tee_then_corner() {
    let commits = vec![commit("M", &["A", "B", "B"])];
    let g = CommitGraph::new(&commits);
    assert_eq!(count(&g, 0, Track::Node), 1);
    assert_eq!(count(&g, 0, Track::Merge), 2);
    let mut colors = ColorMap::new();
    let glyphs = draw_graph(&g.graph[0], &mut colors);
    let s = symbols(&glyphs);
    assert_eq!(s.iter().filter(|x| **x == Symbol::TeeDown).count(), 1);
    assert_eq!(s.iter().filter(|x| **x == Symbol::RightDown).count(), 1);
}

#[test]
fn convergence_row_draws_one_up_corner() {
    let commits = vec![
        commit("M", &["B", "A"]),
        commit("B", &["R"]),
        commit("A", &["R"]),
        commit("R", &[]),
    ];
    let g = CommitGraph::new(&commits);
    assert_eq!(count(&g, 3, Track::Node), 1);
    assert!(count(&g, 3, Track::Branch) >= 1);
    let mut colors = ColorMap::new();
    let glyphs = draw_graph(&g.graph[3], &mut colors);
    assert_eq!(
        symbols(&glyphs),
        vec![Symbol::Bullet, Symbol::HalfHLine, Symbol::RightUp]
    );
}

#[test]
fn column_moving_left_draws_a_run() {
    let commits = vec![
        commit("X", &["A"]),
        commit("Y", &["B"]),
        commit("A", &[]),
        commit("B", &[]),
    ];
    let g = CommitGraph::new(&commits);
    assert_eq!(tracks(&g, 1), vec![Track::Continue, Track::Node]);
    assert_eq!(tracks(&g, 2), vec![Track::Node, Track::Continue]);
    assert_eq!(tracks(&g, 3), vec![Track::Node, Track::ContinueUp]);
    let mut colors = ColorMap::new();
    let glyphs = draw_graph(&g.graph[3], &mut colors);
    assert_eq!(
        symbols(&glyphs),
        vec![Symbol::Bullet, Symbol::HalfHLine, Symbol::RightUp]
    );
}

#[test]
fn branch_mark_moves_to_end_of_run() {
    let commits = vec![
        commit("Q1", &["C"]),
        commit("Q", &["R"]),
        commit("Q2", &["C"]),
        commit("R", &[]),
        commit("C", &[]),
    ];
    let g = CommitGraph::new(&commits);
    assert_eq!(
        tracks(&g, 3),
        vec![Track::Continue, Track::Node, Track::Continue]
    );
    assert_eq!(
        tracks(&g, 4),
        vec![Track::Node, Track::ContinueRight, Track::Branch]
    );
    let mut colors = ColorMap::new();
    let glyphs = draw_graph(&g.graph[4], &mut colors);
    assert_eq!(
        symbols(&glyphs),
        vec![
            Symbol::Bullet,
            Symbol::HLine,
            Symbol::HLine,
            Symbol::HLine,
            Symbol::RightUp
        ]
    );
    assert!(glyphs[1..].iter().all(|g| g.color == Some(1)));
}

#[test]
fn every_row_has_one_node() {
    let commits = vec![
        commit("H1", &["M"]),
        commit("H2", &["X"]),
        commit("M", &["B", "A", "X"]),
        commit("B", &["R"]),
        commit("A", &["R"]),
        commit("X", &["R"]),
        commit("R", &[]),
        commit("Z", &[]),
    ];
    let g = CommitGraph::new(&commits);
    assert_eq!(g.graph.len(), commits.len());
    for row in 0..commits.len() {
        assert_eq!(count(&g, row, Track::Node), 1, "row {}", row);
    }
}

#[test]
fn empty_history_has_no_rows() {
    let g = CommitGraph::new(&[]);
    assert_eq!(g.graph.len(), 0);
}

#[test]
fn layout_is_deterministic() {
    let commits = vec![
        commit("M", &["B", "A"]),
        commit("B", &["R"]),
        commit("A", &["R"]),
        commit("R", &[]),
    ];
    let a = CommitGraph::new(&commits);
    let b = CommitGraph::new(&commits);
    assert_eq!(a.graph.len(), b.graph.len());
    for (ra, rb) in a.graph.iter().zip(b.graph.iter()) {
        assert_eq!(ra.tracks.len(), rb.tracks.len());
        for (ca, cb) in ra.tracks.iter().zip(rb.tracks.iter()) {
            assert_eq!(parent(ca), parent(cb));
            assert_eq!(ca.related, cb.related);
            assert_eq!(ca.track, cb.track);
        }
    }
}

#[test]
fn colors_stay_with_their_commit() {
    let commits = vec![
        commit("M", &["B", "A"]),
        commit("B", &["R"]),
        commit("A", &["R"]),
        commit("R", &[]),
    ];
    let g = CommitGraph::new(&commits);
    let mut colors = ColorMap::new();
    let rows: Vec<Vec<Glyph>> = g.graph.iter().map(|r| draw_graph(r, &mut colors)).collect();
    assert_eq!(
        rows[0],
        vec![
            Glyph { symbol: Symbol::BigBullet, color: None },
            Glyph { symbol: Symbol::HalfHLine, color: Some(1) },
            Glyph { symbol: Symbol::RightDown, color: Some(1) },
        ]
    );
    assert_eq!(
        rows[1],
        vec![
            Glyph { symbol: Symbol::Bullet, color: None },
            Glyph { symbol: Symbol::Space, color: None },
            Glyph { symbol: Symbol::VLine, color: Some(1) },
        ]
    );
    assert_eq!(
        rows[2],
        vec![
            Glyph { symbol: Symbol::VLine, color: Some(2) },
            Glyph { symbol: Symbol::Space, color: None },
            Glyph { symbol: Symbol::Bullet, color: None },
        ]
    );
    assert_eq!(
        rows[3],
        vec![
            Glyph { symbol: Symbol::Bullet, color: None },
            Glyph { symbol: Symbol::HalfHLine, color: Some(2) },
            Glyph { symbol: Symbol::RightUp, color: Some(2) },
        ]
    );
    assert_eq!(colors.len(), 2);
}

#[test]
fn palette_cycles_after_six_commits() {
    let mut colors = ColorMap::new();
    let mut seen = vec![];
    for i in 0..8 {
        let r = GitRef::new(&format!("c{}", i));
        seen.push(diff_explore::render::get_commit_color(&r, &mut colors));
    }
    assert_eq!(seen, vec![1, 2, 3, 4, 5, 6, 1, 2]);
    let again = diff_explore::render::get_commit_color(&GitRef::new("c3"), &mut colors);
    assert_eq!(again, 4);
    assert_eq!(colors.len(), 8);
}

#[test]
fn symbols_have_their_characters() {
    assert_eq!(Symbol::Bullet.as_char(), '\u{2022}');
    assert_eq!(Symbol::BigBullet.as_char(), '\u{25cf}');
    assert_eq!(Symbol::RightUp.as_char(), '\u{256f}');
    assert_eq!(Symbol::VLine.as_char(), '\u{2502}');
    assert_eq!(Symbol::Space.as_char(), ' ');
}

#[test]
fn sentinel_commits_act_as_ordinary_nodes() {
    let unstaged = GitRef::unstaged(6);
    let staged = GitRef::staged(6);
    let commits = vec![
        Commit::new(unstaged.clone(), vec![GitRef::new("abc123")], "", String::new(), String::new(), None, String::new()),
        Commit::new(staged.clone(), vec![GitRef::new("abc123")], "", String::new(), String::new(), None, String::new()),
        commit("abc123", &[]),
    ];
    let g = CommitGraph::new(&commits);
    assert_eq!(tracks(&g, 0), vec![Track::Node]);
    assert_eq!(tracks(&g, 1), vec![Track::Continue, Track::Node]);
    assert_eq!(tracks(&g, 2), vec![Track::Node, Track::Branch]);
}
