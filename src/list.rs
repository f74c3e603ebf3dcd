//! Scrolling through a list that shows `height` lines at a time.
use vstd::prelude::*;

verus! {

/// A list with a current position.
pub trait ListInfo {
    /// The number of items.
    spec fn count_of(&self) -> nat;

    /// The current position.
    spec fn pos_of(&self) -> nat;

    /// The position after asking to move to `pos`.
    spec fn moved_to(&self, pos: nat) -> nat;

    /// Return the number of list items
    fn list_count(&self) -> (n: usize)
        ensures
            n == self.count_of(),
    ;

    /// Return the current position in the list
    fn list_pos(&self) -> (p: usize)
        ensures
            p == self.pos_of(),
    ;

    /// Update the position in the list
    fn set_list_pos(&mut self, pos: usize)
        ensures
            final(self).pos_of() == old(self).moved_to(pos as nat),
            final(self).count_of() == old(self).count_of(),
    ;
}

/// A list that scrolls by lines and by pages.
pub trait ListScroll: ListInfo {
    /// The number of visible lines.
    spec fn height_of(&self) -> nat;

    /// Return the visible height of the list
    fn height(&self) -> (h: usize)
        ensures
            h == self.height_of(),
    ;

    /// Scroll one line up
    fn scroll_up(&mut self)
        ensures
            final(self).pos_of() == old(self).moved_to(
                if old(self).pos_of() > 0 {
                    (old(self).pos_of() - 1) as nat
                } else {
                    0
                },
            ),
    {
        let offset = self.list_pos();
        let delta: usize = if offset > 0 {
            1
        } else {
            0
        };
        self.set_list_pos(offset - delta);
    }

    /// Scroll one visible page up
    fn page_up(&mut self)
        requires
            old(self).height_of() >= 1,
        ensures
            final(self).pos_of() == old(self).moved_to(
                if old(self).pos_of() > old(self).height_of() - 1 {
                    (old(self).pos_of() - (old(self).height_of() - 1)) as nat
                } else {
                    0
                },
            ),
    {
        let offset = self.list_pos();
        let page = self.height() - 1;
        let delta = if page < offset {
            page
        } else {
            offset
        };
        self.set_list_pos(offset - delta);
    }

    /// Scroll one line down, unless the last line is in view
    fn scroll_down(&mut self)
        requires
            old(self).pos_of() <= old(self).count_of(),
        ensures
            old(self).count_of() - old(self).pos_of() > old(self).height_of() ==> final(self).pos_of()
                == old(self).moved_to(old(self).pos_of() + 1),
            old(self).count_of() - old(self).pos_of() <= old(self).height_of() ==> final(self).pos_of()
                == old(self).pos_of(),
    {
        let count = self.list_count();
        let offset = self.list_pos();
        let height = self.height();
        if count - offset > height {
            self.set_list_pos(offset + 1);
        }
    }

    /// Scroll one visible page down, unless the last line is in view
    fn page_down(&mut self)
        requires
            old(self).pos_of() <= old(self).count_of(),
            old(self).height_of() >= 1,
        ensures
            old(self).count_of() - old(self).pos_of() > old(self).height_of() ==> final(self).pos_of()
                == old(self).moved_to(
                old(self).pos_of() + if old(self).count_of() - old(self).pos_of()
                    - old(self).height_of() < old(self).height_of() - 1 {
                    (old(self).count_of() - old(self).pos_of() - old(self).height_of()) as nat
                } else {
                    (old(self).height_of() - 1) as nat
                },
            ),
            old(self).count_of() - old(self).pos_of() <= old(self).height_of() ==> final(self).pos_of()
                == old(self).pos_of(),
    {
        let offset = self.list_pos();
        let height = self.height();
        let count = self.list_count();
        if count - offset > height {
            let limit = count - offset - height;
            let delta = if limit < height - 1 {
                limit
            } else {
                height - 1
            };
            self.set_list_pos(offset + delta);
        }
    }

    /// Scroll to a specific line
    fn scroll_to(&mut self, line: usize)
        ensures
            final(self).pos_of() == old(self).moved_to(line as nat),
    {
        self.set_list_pos(line);
    }

    /// Scroll to the first line in the list
    fn scroll_top(&mut self)
        ensures
            final(self).pos_of() == old(self).moved_to(0),
    {
        self.set_list_pos(0);
    }

    /// Scroll to the last line in the list
    fn scroll_bottom(&mut self)
        requires
            old(self).count_of() >= old(self).height_of(),
        ensures
            final(self).pos_of() == old(self).moved_to(
                (old(self).count_of() - old(self).height_of()) as nat,
            ),
    {
        let count = self.list_count();
        let height = self.height();
        self.set_list_pos(count - height);
    }
}

/// The list state of a view: the selected line, if any, and the number of
/// visible lines.
#[derive(Debug, Clone, Copy, PartialEq, Eq, Structural)]
pub struct ListData {
    pub selected: Option<usize>,
    pub height: usize,
}

impl ListData {
    /// The first line selected, nothing visible yet.
    pub fn new() -> (r: ListData)
        ensures
            r == (ListData { selected: Some(0), height: 0 }),
    {
        ListData { selected: Some(0), height: 0 }
    }
}

/// The line a selection stands on: the selected line, or the first.
pub open spec fn cursor_at(selected: Option<usize>) -> nat {
    match selected {
        Some(c) => c as nat,
        None => 0,
    }
}

/// A list with a visible cursor.
pub trait ListCursor: ListInfo + ListScroll {
    /// The selected line.
    spec fn selected_of(&self) -> Option<usize>;

    /// The selected line.
    fn selected(&self) -> (s: Option<usize>)
        ensures
            s == self.selected_of(),
    ;

    /// Selects `line`.
    fn select(&mut self, line: Option<usize>)
        ensures
            final(self).selected_of() == line,
            final(self).count_of() == old(self).count_of(),
            final(self).height_of() == old(self).height_of(),
    ;

    /// The line of the cursor.
    fn cursor(&self) -> (c: usize)
        ensures
            c == cursor_at(self.selected_of()),
    {
        match self.selected() {
            Some(c) => c,
            None => 0,
        }
    }

    /// Moves the cursor one line down, unless it is on the last line.
    fn cursor_down(&mut self)
        ensures
            old(self).count_of() == 0 ==> final(self).selected_of() == old(self).selected_of(),
            old(self).count_of() > 0 ==> final(self).selected_of() == Some(
                (if cursor_at(old(self).selected_of()) < old(self).count_of() - 1 {
                    (cursor_at(old(self).selected_of()) + 1) as int
                } else {
                    old(self).count_of() - 1
                }) as usize,
            ),
    {
        let count = self.list_count();
        if count == 0 {
            return ;
        }
        let cursor = self.cursor();
        let next = if cursor < count - 1 {
            cursor + 1
        } else {
            count - 1
        };
        self.select(Some(next));
    }

    /// Moves the cursor one page down, at most to the last line.
    fn cursor_page_down(&mut self)
        requires
            old(self).height_of() >= 1,
        ensures
            old(self).count_of() == 0 ==> final(self).selected_of() == old(self).selected_of(),
            old(self).count_of() > 0 ==> final(self).selected_of() == Some(
                (if cursor_at(old(self).selected_of()) + old(self).height_of() - 1
                    < old(self).count_of() - 1 {
                    (cursor_at(old(self).selected_of()) + old(self).height_of() - 1) as int
                } else {
                    old(self).count_of() - 1
                }) as usize,
            ),
    {
        let count = self.list_count();
        if count == 0 {
            return ;
        }
        let cursor = self.cursor();
        let page = self.height() - 1;
        let next = if cursor < count - 1 && page < count - 1 - cursor {
            cursor + page
        } else {
            count - 1
        };
        self.select(Some(next));
    }

    /// Moves the cursor one line up, unless it is on the first line.
    fn cursor_up(&mut self)
        ensures
            old(self).count_of() == 0 ==> final(self).selected_of() == old(self).selected_of(),
            old(self).count_of() > 0 ==> final(self).selected_of() == Some(
                (if cursor_at(old(self).selected_of()) > 0 {
                    cursor_at(old(self).selected_of()) - 1
                } else {
                    0int
                }) as usize,
            ),
    {
        if self.list_count() == 0 {
            return ;
        }
        let cursor = self.cursor();
        let next = if cursor > 0 {
            cursor - 1
        } else {
            0
        };
        self.select(Some(next));
    }

    /// Moves the cursor one page up, at most to the first line.
    fn cursor_page_up(&mut self)
        requires
            old(self).height_of() >= 1,
        ensures
            old(self).count_of() == 0 ==> final(self).selected_of() == old(self).selected_of(),
            old(self).count_of() > 0 ==> final(self).selected_of() == Some(
                (if cursor_at(old(self).selected_of()) > old(self).height_of() - 1 {
                    cursor_at(old(self).selected_of()) - (old(self).height_of() - 1)
                } else {
                    0int
                }) as usize,
            ),
    {
        if self.list_count() == 0 {
            return ;
        }
        let cursor = self.cursor();
        let page = self.height() - 1;
        let next = if cursor > page {
            cursor - page
        } else {
            0
        };
        self.select(Some(next));
    }

    /// Moves the cursor to the last line.
    fn cursor_to_bottom(&mut self)
        requires
            old(self).count_of() >= 1,
        ensures
            final(self).selected_of() == Some((old(self).count_of() - 1) as usize),
    {
        let count = self.list_count();
        self.select(Some(count - 1));
    }

    /// Moves the cursor to the first line.
    fn cursor_to_top(&mut self)
        ensures
            final(self).selected_of() == Some(0usize),
    {
        self.select(Some(0));
    }

    /// Moves the cursor to `line`, when the list has such a line.
    fn cursor_to(&mut self, line: usize)
        ensures
            line < old(self).count_of() ==> final(self).selected_of() == Some(line),
            line >= old(self).count_of() ==> final(self).selected_of() == old(self).selected_of(),
    {
        if line < self.list_count() {
            self.select(Some(line));
        }
    }
}

} // verus!
