//! A to-do task: a position, a text, and a done flag, with its
//! tab-separated storage line format.

use vstd::prelude::*;
use vstd::string::StringExecFns;

use crate::http_app::HandlerError;
use crate::text::spec_find;
use crate::text::split_once_char;
use crate::text::str_eq;

verus! {

/// What a task denotes.
pub struct TaskView {
    pub index: nat,
    pub text: Seq<char>,
    pub done: bool,
}

/// A to-do task.
#[derive(Debug)]
pub struct Task {
    pub index: usize,
    pub text: String,
    pub done: bool,
}

impl View for Task {
    type V = TaskView;

    open spec fn view(&self) -> TaskView {
        TaskView { index: self.index as nat, text: self.text@, done: self.done }
    }
}

impl DeepView for Task {
    type V = TaskView;

    open spec fn deep_view(&self) -> TaskView {
        self.view()
    }
}

/// The storage line of a task: its text, a tab, then `true` or
/// `false`. The index is not stored; it is the line's position.
pub open spec fn spec_task_line(t: TaskView) -> Seq<char> {
    t.text + seq!['\t'] + (if t.done {
        "true"@
    } else {
        "false"@
    })
}

/// The task a storage line denotes, at index zero: the text before the
/// first tab, and a done flag that must read exactly `true` or
/// `false`. `None` when there is no tab or the flag reads otherwise.
pub open spec fn spec_parse_task(s: Seq<char>) -> Option<TaskView> {
    match spec_find(s, '\t') {
        None => None,
        Some(i) => {
            let text = s.subrange(0, i);
            let done_tok = s.subrange(i + 1, s.len() as int);
            if done_tok == "true"@ {
                Some(TaskView { index: 0, text, done: true })
            } else if done_tok == "false"@ {
                Some(TaskView { index: 0, text, done: false })
            } else {
                None
            }
        },
    }
}

/// A task's storage line parses back to the task, at index zero: the
/// line format round-trips for any text free of tabs.
pub proof fn lemma_task_line_round_trip(t: TaskView)
    requires
        forall|j: int| 0 <= j < t.text.len() ==> t.text[j] != '\t',
    ensures
        spec_parse_task(spec_task_line(t)) == Some(TaskView { index: 0, text: t.text, done: t.done }),
{
    let line = spec_task_line(t);
    let n = t.text.len() as int;
    assert(line[n] == '\t');
    assert forall|j: int| 0 <= j < n implies line[j] != '\t' by {
        assert(line[j] == t.text[j]);
    }
    crate::text::lemma_spec_find_at(line, '\t', n);
    assert(line.subrange(0, n) =~= t.text);
    reveal_strlit("true");
    reveal_strlit("false");
    if t.done {
        assert(line.subrange(n + 1, line.len() as int) =~= "true"@);
    } else {
        assert(line.subrange(n + 1, line.len() as int) =~= "false"@);
        assert("false"@.len() != "true"@.len());
    }
}

impl Task {
    /// A fresh task at index zero.
    pub fn new(text: &str, done: bool) -> (r: Self)
        ensures
            r@ == (TaskView { index: 0, text: text@, done }),
    {
        Task { index: 0, text: text.to_owned(), done }
    }

    /// Setter for the index.
    pub fn set_index(&mut self, index: usize)
        ensures
            final(self)@ == (TaskView { index: index as nat, ..old(self)@ }),
    {
        self.index = index;
    }

    /// Getter for the index.
    pub fn get_index(&self) -> (r: &usize)
        ensures
            *r == self.index,
    {
        &self.index
    }

    /// Getter for the text.
    pub fn get_text(&self) -> (r: &String)
        ensures
            r@ == self.text@,
    {
        &self.text
    }

    /// Marks the task done.
    pub fn check(&mut self)
        ensures
            final(self)@ == (TaskView { done: true, ..old(self)@ }),
    {
        self.done = true;
    }

    /// Marks the task not done.
    pub fn uncheck(&mut self)
        ensures
            final(self)@ == (TaskView { done: false, ..old(self)@ }),
    {
        self.done = false;
    }

    /// Whether the task is done.
    pub fn is_done(&self) -> (r: bool)
        ensures
            r == self.done,
    {
        self.done
    }

    /// Parses a storage line; fails on a line `spec_parse_task`
    /// rejects.
    pub fn from_string(string: &str) -> (r: Result<Self, HandlerError>)
        ensures
            match r {
                Ok(t) => spec_parse_task(string@) == Some(t@),
                Err(e) => spec_parse_task(string@) is None && e == HandlerError::InvalidTaskData,
            },
    {
        match split_once_char(string, '\t') {
            Some((text, done_tok)) => {
                let is_true = str_eq(done_tok.as_str(), "true");
                let is_false = str_eq(done_tok.as_str(), "false");
                if !is_true && !is_false {
                    return Err(HandlerError::InvalidTaskData);
                }
                Ok(Task { index: 0, text, done: is_true })
            },
            None => Err(HandlerError::InvalidTaskData),
        }
    }

    /// Renders the task's storage line.
    pub fn to_string(&self) -> (r: String)
        ensures
            r@ == spec_task_line(self@),
    {
        let mut s = self.text.clone();
        s.append("\t");
        if self.done {
            s.append("true");
        } else {
            s.append("false");
        }
        proof {
            reveal_strlit("\t");
            assert("\t"@ =~= seq!['\t']);
            assert(s@ =~= spec_task_line(self@));
        }
        s
    }
}

} // verus!
