//! A browser for the history of a git repository, as a library.
//!
//! The heart of it is the commit-graph layout: `graph` turns a list of
//! commits, newest first and each before its parents, into rows of columns,
//! and `render` turns each row into glyphs with a colour per line of
//! descent. `graph_laws` and `render_laws` state and prove what every such
//! graph and drawing satisfies.
//!
//! Around it stand the parsers of what `git` prints (`commit`, `stat`,
//! `diff`, `text`), the identifiers and diff selections (`refs`), the state
//! of the views and of keyboard input (`views`, `list`, `search`, `input`,
//! `console`, `statusline`, `events`), and small helpers (`time`, `subject`,
//! `util`).
pub mod commit;
pub mod console;
pub mod diff;
pub mod events;
pub mod graph;
pub mod graph_laws;
pub mod input;
pub mod list;
pub mod refs;
pub mod render;
pub mod render_laws;
pub mod search;
pub mod stat;
pub mod statusline;
pub mod subject;
pub mod text;
pub mod time;
pub mod util;
pub mod views;
