//! What a key press does: the search being typed, keys that wait for a
//! second key, and the action that the view on top of the stack performs.
use vstd::prelude::*;
use vstd::string::*;
use crate::events::{char_string, Key};

verus! {

/// The kind of view on top of the view stack.
#[derive(Debug, Clone, Copy, PartialEq, Eq, Structural)]
pub enum ViewKind {
    CommitLog,
    Stats,
    Diff,
    Empty,
}

/// What the view on top of the stack is asked to do.
#[derive(Debug, Clone, Copy, PartialEq, Eq, Structural)]
pub enum Action {
    Nothing,
    Quit,
    SearchNext,
    SearchPrev,
    ToTop,
    ToBottom,
    ToggleDetails,
    CloseView,
    ToggleLineNumbers,
    Mark,
    Up,
    Down,
    PageUp,
    PageDown,
    OpenDiff,
    OpenSelected,
    Unhandled(Key),
}

/// The state of the keyboard input: the search query, whether it is being
/// typed, and the keys that wait for a second key.
#[derive(Debug)]
pub struct InputState {
    pub search: Option<String>,
    pub typing_search: bool,
    pub pending_keys: Vec<Key>,
}

/// The input state as values.
pub struct InputView {
    pub search: Option<Seq<char>>,
    pub typing: bool,
    pub pending: Seq<Key>,
}

impl View for InputState {
    type V = InputView;

    open spec fn view(&self) -> InputView {
        InputView {
            search: match self.search {
                Some(s) => Some(s@),
                None => None,
            },
            typing: self.typing_search,
            pending: self.pending_keys@,
        }
    }
}

/// The action of a key on a view, when no search is typed and no key waits.
pub open spec fn plain_action(view: ViewKind, key: Key, searching: bool) -> Action {
    match key {
        Key::Char('l') => if view == ViewKind::CommitLog {
            Action::ToggleDetails
        } else {
            Action::Nothing
        },
        Key::Char('q') => match view {
            ViewKind::CommitLog => Action::Quit,
            ViewKind::Stats | ViewKind::Diff => Action::CloseView,
            ViewKind::Empty => Action::Nothing,
        },
        Key::Char('G') => if view == ViewKind::Empty {
            Action::Nothing
        } else {
            Action::ToBottom
        },
        Key::Char('n') => if searching && view != ViewKind::Empty {
            Action::SearchNext
        } else if !searching && view == ViewKind::Diff {
            Action::ToggleLineNumbers
        } else {
            Action::Nothing
        },
        Key::Char('N') => if !searching {
            Action::Nothing
        } else {
            match view {
                ViewKind::CommitLog | ViewKind::Diff => Action::SearchPrev,
                ViewKind::Stats => Action::SearchNext,
                ViewKind::Empty => Action::Nothing,
            }
        },
        Key::Char(' ') => match view {
            ViewKind::CommitLog => Action::Mark,
            ViewKind::Diff => Action::PageDown,
            _ => Action::Nothing,
        },
        Key::Up | Key::Char('k') => if view == ViewKind::Empty {
            Action::Nothing
        } else {
            Action::Up
        },
        Key::Down | Key::Char('j') => if view == ViewKind::Empty {
            Action::Nothing
        } else {
            Action::Down
        },
        Key::Ctrl('u') => if view == ViewKind::Empty {
            Action::Nothing
        } else {
            Action::PageUp
        },
        Key::Ctrl('f') => if view == ViewKind::Empty {
            Action::Nothing
        } else {
            Action::PageDown
        },
        Key::Char('d') => if view == ViewKind::CommitLog {
            Action::OpenDiff
        } else {
            Action::Nothing
        },
        Key::Enter => match view {
            ViewKind::CommitLog | ViewKind::Stats => Action::OpenSelected,
            _ => Action::Nothing,
        },
        _ => Action::Unhandled(key),
    }
}

/// The new input state and the action after `key`, on top of `view`, where
/// `expired` says that the keys waiting for a second key have waited too
/// long.
pub open spec fn next_input(st: InputView, view: ViewKind, key: Key, expired: bool) -> (
    InputView,
    Action,
) {
    let st = if expired {
        InputView { pending: Seq::empty(), ..st }
    } else {
        st
    };
    if key == Key::Ctrl('c') {
        (st, Action::Quit)
    } else if st.typing {
        match key {
            Key::Enter => (
                InputView { typing: false, ..st },
                if view == ViewKind::Empty {
                    Action::Nothing
                } else {
                    Action::SearchNext
                },
            ),
            Key::Char(c) => {
                let q = match st.search {
                    Some(q) => q,
                    None => Seq::empty(),
                };
                (InputView { search: Some(q.push(c)), ..st }, Action::Nothing)
            },
            Key::Backspace => match st.search {
                Some(q) => if q.len() > 0 {
                    (InputView { search: Some(q.drop_last()), ..st }, Action::Nothing)
                } else {
                    (st, Action::Nothing)
                },
                None => (st, Action::Nothing),
            },
            Key::Escape => (InputView { search: None, typing: false, ..st }, Action::Nothing),
            Key::Ctrl('n') => (
                st,
                if view == ViewKind::Empty {
                    Action::Nothing
                } else {
                    Action::SearchNext
                },
            ),
            Key::Ctrl('p') => (
                st,
                if view == ViewKind::Empty {
                    Action::Nothing
                } else {
                    Action::SearchPrev
                },
            ),
            _ => (st, Action::Nothing),
        }
    } else if st.pending.len() > 0 {
        (
            InputView { pending: Seq::empty(), ..st },
            if key == Key::Char('G') && st.pending.last() == Key::Char('1') && view
                != ViewKind::Empty {
                Action::ToTop
            } else {
                Action::Nothing
            },
        )
    } else {
        match key {
            Key::Escape => (InputView { search: None, ..st }, Action::Nothing),
            Key::Char('1') => (InputView { pending: st.pending.push(key), ..st }, Action::Nothing),
            Key::Char('/') => (
                InputView { search: Some(Seq::empty()), typing: true, ..st },
                Action::Nothing,
            ),
            _ => (st, plain_action(view, key, st.search is Some)),
        }
    }
}

fn plain_action_of(view: ViewKind, key: Key, searching: bool) -> (a: Action)
    ensures
        a == plain_action(view, key, searching),
{
    match key {
        Key::Char('l') => if view == ViewKind::CommitLog {
            Action::ToggleDetails
        } else {
            Action::Nothing
        },
        Key::Char('q') => match view {
            ViewKind::CommitLog => Action::Quit,
            ViewKind::Stats | ViewKind::Diff => Action::CloseView,
            ViewKind::Empty => Action::Nothing,
        },
        Key::Char('G') => if view == ViewKind::Empty {
            Action::Nothing
        } else {
            Action::ToBottom
        },
        Key::Char('n') => if searching && view != ViewKind::Empty {
            Action::SearchNext
        } else if !searching && view == ViewKind::Diff {
            Action::ToggleLineNumbers
        } else {
            Action::Nothing
        },
        Key::Char('N') => if !searching {
            Action::Nothing
        } else {
            match view {
                ViewKind::CommitLog | ViewKind::Diff => Action::SearchPrev,
                ViewKind::Stats => Action::SearchNext,
                ViewKind::Empty => Action::Nothing,
            }
        },
        Key::Char(' ') => match view {
            ViewKind::CommitLog => Action::Mark,
            ViewKind::Diff => Action::PageDown,
            _ => Action::Nothing,
        },
        Key::Up | Key::Char('k') => if view == ViewKind::Empty {
            Action::Nothing
        } else {
            Action::Up
        },
        Key::Down | Key::Char('j') => if view == ViewKind::Empty {
            Action::Nothing
        } else {
            Action::Down
        },
        Key::Ctrl('u') => if view == ViewKind::Empty {
            Action::Nothing
        } else {
            Action::PageUp
        },
        Key::Ctrl('f') => if view == ViewKind::Empty {
            Action::Nothing
        } else {
            Action::PageDown
        },
        Key::Char('d') => if view == ViewKind::CommitLog {
            Action::OpenDiff
        } else {
            Action::Nothing
        },
        Key::Enter => match view {
            ViewKind::CommitLog | ViewKind::Stats => Action::OpenSelected,
            _ => Action::Nothing,
        },
        _ => Action::Unhandled(key),
    }
}

fn or_nothing(view: ViewKind, a: Action) -> (r: Action)
    ensures
        r == (if view == ViewKind::Empty {
            Action::Nothing
        } else {
            a
        }),
{
    if view == ViewKind::Empty {
        Action::Nothing
    } else {
        a
    }
}

impl InputState {
    /// No search, and no key waiting.
    pub fn new() -> (r: InputState)
        ensures
            r@.search is None,
            !r@.typing,
            r@.pending.len() == 0,
    {
        InputState { search: None, typing_search: false, pending_keys: Vec::new() }
    }

    /// The query while it is being typed.
    pub fn entering_search(&self) -> (r: Option<String>)
        ensures
            match r {
                Some(q) => self@.typing && self@.search == Some(q@),
                None => !self@.typing || self@.search is None,
            },
    {
        if self.typing_search {
            match &self.search {
                Some(q) => Some(q.clone()),
                None => None,
            }
        } else {
            None
        }
    }

    /// Takes `key` on top of `view`; `expired` says that the keys waiting
    /// for a second key have waited too long. Returns what the view is to do.
    pub fn do_action(&mut self, view: ViewKind, key: Key, expired: bool) -> (a: Action)
        ensures
            (final(self)@, a) == next_input(old(self)@, view, key, expired),
    {
        if expired {
            self.pending_keys = Vec::new();
        }
        let ghost st = self@;
        assert(st.pending == (if expired {
            Seq::<Key>::empty()
        } else {
            old(self)@.pending
        }));
        if key == Key::Ctrl('c') {
            return Action::Quit;
        }
        if self.typing_search {
            match key {
                Key::Enter => {
                    self.typing_search = false;
                    or_nothing(view, Action::SearchNext)
                },
                Key::Char(c) => {
                    let q = match &self.search {
                        Some(q) => q.clone(),
                        None => String::new(),
                    };
                    let s = char_string(c);
                    let longer = q.concat(s.as_str());
                    assert(longer@ =~= q@.push(c));
                    self.search = Some(longer);
                    Action::Nothing
                },
                Key::Backspace => {
                    match &self.search {
                        Some(q) => {
                            let n = q.as_str().unicode_len();
                            if n > 0 {
                                let shorter = q.as_str().substring_char(0, n - 1).to_owned();
                                assert(shorter@ =~= q@.drop_last());
                                self.search = Some(shorter);
                            }
                        },
                        None => {},
                    }
                    Action::Nothing
                },
                Key::Escape => {
                    self.search = None;
                    self.typing_search = false;
                    Action::Nothing
                },
                Key::Ctrl('n') => or_nothing(view, Action::SearchNext),
                Key::Ctrl('p') => or_nothing(view, Action::SearchPrev),
                _ => Action::Nothing,
            }
        } else if self.pending_keys.len() > 0 {
            let last = self.pending_keys[self.pending_keys.len() - 1];
            self.pending_keys = Vec::new();
            assert(self@.pending =~= Seq::<Key>::empty());
            if key == Key::Char('G') && last == Key::Char('1') && view != ViewKind::Empty {
                Action::ToTop
            } else {
                Action::Nothing
            }
        } else {
            match key {
                Key::Escape => {
                    self.search = None;
                    Action::Nothing
                },
                Key::Char('1') => {
                    self.pending_keys.push(key);
                    Action::Nothing
                },
                Key::Char('/') => {
                    self.search = Some(String::new());
                    self.typing_search = true;
                    Action::Nothing
                },
                _ => plain_action_of(view, key, self.search.is_some()),
            }
        }
    }
}

} // verus!
