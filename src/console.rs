//! Log messages and the console view that scrolls through them.
use vstd::prelude::*;
use std::time::SystemTime;
use crate::list::{ListInfo, ListScroll};
use crate::diff::text_lines_count;
use crate::text::lines_of;

verus! {

#[verifier::external_type_specification]
#[verifier::external_body]
pub struct ExSystemTime(SystemTime);

/// Relies on `SystemTime::now`: the current time of the system clock, of
/// which nothing is promised.
pub assume_specification[ SystemTime::now ]() -> SystemTime;

/// A message of the log, with the time it was made.
#[derive(Debug, PartialEq, Eq, PartialOrd, Ord)]
pub struct Message {
    time: SystemTime,
    content: String,
}

impl Message {
    /// A message with the given text, made now.
    pub fn new(content: &str) -> (r: Message)
        ensures
            r.content_of() == content@,
    {
        Message { time: SystemTime::now(), content: content.to_owned() }
    }

    /// The text of the message.
    pub closed spec fn content_of(&self) -> Seq<char> {
        self.content@
    }

    /// The text of the message.
    pub fn content(&self) -> (s: String)
        ensures
            s@ == self.content_of(),
    {
        self.content.clone()
    }

    /// The time the message was made.
    pub fn time(&self) -> SystemTime {
        self.time
    }
}

impl Clone for Message {
    fn clone(&self) -> (r: Message)
        ensures
            r.content_of() == self.content_of(),
    {
        Message { time: self.time, content: self.content.clone() }
    }
}

/// The number of lines of a message, as `str::lines` counts them.
pub fn line_count(message: &str) -> (n: usize)
    ensures
        n == lines_of(message@).len(),
{
    text_lines_count(message)
}

/// The console view: a window of `height` lines on the log, which follows
/// the end of the log unless it has been scrolled.
#[derive(Debug)]
pub struct Console {
    offset: Option<usize>,
    height: usize,
    num_lines: usize,
}

impl Console {
    /// A console that follows the end of an empty log.
    pub fn new() -> (r: Console)
        ensures
            r.pos_of() == 0,
            r.count_of() == 0,
            r.height_of() == 0,
            r.follows(),
    {
        Console { offset: None, height: 0, num_lines: 0 }
    }

    /// Whether the console follows the end of the log.
    pub closed spec fn follows(&self) -> bool {
        self.offset is None
    }

    /// Follow the end of the log again.
    pub fn auto_scroll(&mut self)
        ensures
            final(self).follows(),
            final(self).count_of() == old(self).count_of(),
            final(self).height_of() == old(self).height_of(),
            final(self).pos_of() == if old(self).count_of() > old(self).height_of() {
                (old(self).count_of() - old(self).height_of()) as nat
            } else {
                0
            },
    {
        self.offset = None;
    }

    /// Sets the number of visible lines.
    pub fn set_height(&mut self, height: usize)
        ensures
            final(self).height_of() == height,
            final(self).count_of() == old(self).count_of(),
            final(self).follows() == old(self).follows(),
            !old(self).follows() ==> final(self).pos_of() == old(self).pos_of(),
    {
        self.height = height;
    }

    /// Sets the number of lines of the log.
    pub fn set_num_lines(&mut self, num_lines: usize)
        ensures
            final(self).count_of() == num_lines,
            final(self).height_of() == old(self).height_of(),
            final(self).follows() == old(self).follows(),
            !old(self).follows() ==> final(self).pos_of() == old(self).pos_of(),
    {
        self.num_lines = num_lines;
    }
}

impl ListInfo for Console {
    closed spec fn count_of(&self) -> nat {
        self.num_lines as nat
    }

    closed spec fn pos_of(&self) -> nat {
        match self.offset {
            Some(o) => o as nat,
            None => if self.num_lines > self.height {
                (self.num_lines - self.height) as nat
            } else {
                0
            },
        }
    }

    closed spec fn moved_to(&self, pos: nat) -> nat {
        pos
    }

    fn list_count(&self) -> (n: usize) {
        self.num_lines
    }

    fn list_pos(&self) -> (p: usize) {
        match self.offset {
            Some(o) => o,
            None => if self.num_lines > self.height {
                self.num_lines - self.height
            } else {
                0
            },
        }
    }

    fn set_list_pos(&mut self, pos: usize) {
        self.offset = Some(pos);
    }
}

impl ListScroll for Console {
    closed spec fn height_of(&self) -> nat {
        self.height as nat
    }

    fn height(&self) -> (h: usize) {
        self.height
    }
}

} // verus!
