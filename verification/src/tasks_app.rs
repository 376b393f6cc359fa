//! The task manager's decisions and data, free of input/output: which
//! requests it claims, how the stored task file is read and written,
//! and how the add and update queries change the task list. The
//! surrounding process reads and writes the file and renders the page.

use vstd::prelude::*;
use vstd::string::StringExecFns;

use crate::http_app::HandlerError;
use crate::http_request::HttpRequest;
use crate::query::capture_digit_param;
use crate::query::capture_text_param;
use crate::query::digit_cont;
use crate::query::digit_first;
use crate::query::lemma_capture_chars;
use crate::query::lemma_digits_val_leading;
use crate::query::parse_usize;
use crate::query::spec_capture;
use crate::query::spec_digits_val;
use crate::query::text_class;
use crate::task::Task;
use crate::task::TaskView;
use crate::task::spec_parse_task;
use crate::task::spec_task_line;
use crate::text::spec_split;
use crate::text::spec_starts_with;
use crate::text::split_char;
use crate::text::starts_with;
use crate::text::str_eq;

verus! {

/// Where the task manager sends a request: its index page, the add
/// query, the update query, or not its own.
#[derive(Clone, Copy, Debug, PartialEq, Eq, Structural)]
pub enum TaskRoute {
    /// A GET of the root path: show the task list.
    Index,
    /// A GET under the add prefix: add a task.
    Add,
    /// A GET under the update prefix: check, uncheck or remove one.
    Update,
    /// Anything else: the request is declined.
    Decline,
}

/// The route a method and target fall under.
pub open spec fn spec_route(verb: Seq<char>, target: Seq<char>) -> TaskRoute {
    if verb == "GET"@ && target == "/"@ {
        TaskRoute::Index
    } else if verb == "GET"@ && spec_starts_with(target, "/add?"@) {
        TaskRoute::Add
    } else if verb == "GET"@ && spec_starts_with(target, "/update?"@) {
        TaskRoute::Update
    } else {
        TaskRoute::Decline
    }
}

/// The task list and the first error, after reading stored lines from
/// line number `lineno` on: an empty line is skipped, any other line
/// must parse as a task and takes its line number as index; reading
/// stops at the first bad line, keeping the tasks before it.
pub open spec fn spec_load(lines: Seq<Seq<char>>, lineno: nat) -> (Seq<TaskView>, Option<
    HandlerError,
>)
    decreases lines.len(),
{
    if lines.len() == 0 {
        (Seq::empty(), None)
    } else if lines[0].len() == 0 {
        spec_load(lines.drop_first(), lineno + 1)
    } else {
        match spec_parse_task(lines[0]) {
            None => (Seq::empty(), Some(HandlerError::InvalidTaskData)),
            Some(t) => {
                let rest = spec_load(lines.drop_first(), lineno + 1);
                (seq![TaskView { index: lineno, text: t.text, done: t.done }] + rest.0, rest.1)
            },
        }
    }
}

/// The stored text of a task list: one line per task, a line feed
/// between lines and none at the end.
pub open spec fn spec_tasks_text_from(ts: Seq<TaskView>, i: int) -> Seq<char>
    decreases ts.len() - i,
{
    if 0 <= i < ts.len() {
        if i == ts.len() - 1 {
            spec_task_line(ts[i])
        } else {
            spec_task_line(ts[i]) + seq!['\n'] + spec_tasks_text_from(ts, i + 1)
        }
    } else {
        Seq::empty()
    }
}

/// The three indexed operations of the update route.
#[derive(Clone, Copy, Debug, PartialEq, Eq, Structural)]
pub enum TaskOp {
    /// Mark the task done.
    Check,
    /// Mark the task not done.
    Uncheck,
    /// Remove the task from the list.
    Remove,
}

/// One operation applied at position `i`.
pub open spec fn spec_apply_op(ts: Seq<TaskView>, i: int, op: TaskOp) -> Seq<TaskView> {
    match op {
        TaskOp::Check => ts.update(i, (TaskView { done: true, ..ts[i] })),
        TaskOp::Uncheck => ts.update(i, (TaskView { done: false, ..ts[i] })),
        TaskOp::Remove => ts.remove(i),
    }
}

/// The outcome of one `name=<number>` operation on the task list: no
/// match in the query is an invalid query; a number naming no task
/// (tasks count from one) is an invalid index; otherwise the
/// operation applies at that position.
pub open spec fn spec_indexed_op(
    ts: Seq<TaskView>,
    q: Seq<char>,
    name: Seq<char>,
    op: TaskOp,
) -> (Seq<TaskView>, Result<(), HandlerError>) {
    match spec_capture(q, name, digit_first(), digit_cont()) {
        None => (ts, Err(HandlerError::InvalidQuery)),
        Some(ds) => {
            let v = spec_digits_val(ds);
            if v < 1 || v - 1 >= ts.len() {
                (ts, Err(HandlerError::InvalidTaskIndex))
            } else {
                (spec_apply_op(ts, v - 1, op), Ok(()))
            }
        },
    }
}

/// The outcome of the update route for query `q`: the first matching
/// prefix decides the operation; a query with none of the three
/// prefixes changes nothing and succeeds.
pub open spec fn spec_update_outcome(ts: Seq<TaskView>, q: Seq<char>) -> (Seq<TaskView>, Result<
    (),
    HandlerError,
>) {
    if spec_starts_with(q, "check"@) {
        spec_indexed_op(ts, q, "check="@, TaskOp::Check)
    } else if spec_starts_with(q, "uncheck"@) {
        spec_indexed_op(ts, q, "uncheck="@, TaskOp::Uncheck)
    } else if spec_starts_with(q, "remove"@) {
        spec_indexed_op(ts, q, "remove="@, TaskOp::Remove)
    } else {
        (ts, Ok(()))
    }
}

/// The outcome of the add route for query `q`: the text parameter's
/// capture becomes a fresh task at the end of the list, not done.
pub open spec fn spec_add_outcome(ts: Seq<TaskView>, q: Seq<char>) -> (Seq<TaskView>, Result<
    (),
    HandlerError,
>) {
    match spec_capture(q, "text="@, text_class(), text_class()) {
        None => (ts, Err(HandlerError::InvalidQuery)),
        Some(text) => (ts.push(TaskView { index: 0, text, done: false }), Ok(())),
    }
}

/// The task manager: an in-memory task list.
pub struct TasksApp {
    pub tasks: Vec<Task>,
}

impl TasksApp {
    /// A fresh manager with no tasks.
    pub fn new() -> (r: Self)
        ensures
            r.tasks@.len() == 0,
    {
        TasksApp { tasks: Vec::new() }
    }

    /// Getter for the task list.
    pub fn get_tasks(&self) -> (r: &Vec<Task>)
        ensures
            *r == self.tasks,
    {
        &self.tasks
    }

    /// Which route a request falls under.
    pub fn route(&self, req: &HttpRequest) -> (r: TaskRoute)
        ensures
            r == spec_route(req.method.verb@, req.target@),
    {
        let verb_is_get = str_eq(req.get_method().get_verb().as_str(), "GET");
        if verb_is_get && str_eq(req.get_target().as_str(), "/") {
            TaskRoute::Index
        } else if verb_is_get && starts_with(req.get_target().as_str(), "/add?") {
            TaskRoute::Add
        } else if verb_is_get && starts_with(req.get_target().as_str(), "/update?") {
            TaskRoute::Update
        } else {
            TaskRoute::Decline
        }
    }

    /// Reads the tasks of `lines[i ..]`, line number `i + 1` first.
    fn load_lines(lines: &Vec<String>, i: usize) -> (r: (Vec<Task>, Option<HandlerError>))
        requires
            i <= lines@.len(),
        ensures
            ({
                let out = spec_load(
                    lines.deep_view().subrange(i as int, lines@.len() as int),
                    (i + 1) as nat,
                );
                r.0.deep_view() == out.0 && r.1 == out.1
            }),
        decreases lines@.len() - i,
    {
        let ghost suffix = lines.deep_view().subrange(i as int, lines@.len() as int);
        if i == lines.len() {
            proof {
                assert(suffix.len() == 0);
            }
            return (Vec::new(), None);
        }
        proof {
            assert(lines.deep_view()[i as int] == lines@[i as int]@);
            assert(suffix[0] == lines@[i as int]@);
            assert(suffix.drop_first() =~= lines.deep_view().subrange(
                i + 1,
                lines@.len() as int,
            ));
        }
        let line = &lines[i];
        if line.as_str().unicode_len() == 0 {
            let r = Self::load_lines(lines, i + 1);
            proof {
                assert(spec_load(suffix, (i + 1) as nat) == spec_load(
                    suffix.drop_first(),
                    (i + 2) as nat,
                ));
            }
            r
        } else {
            match Task::from_string(line.as_str()) {
                Err(e) => (Vec::new(), Some(e)),
                Ok(mut t) => {
                    t.set_index(i + 1);
                    let (mut rest, err) = Self::load_lines(lines, i + 1);
                    rest.insert(0, t);
                    proof {
                        let out = spec_load(suffix, (i + 1) as nat);
                        assert(rest.deep_view() =~= out.0);
                    }
                    (rest, err)
                },
            }
        }
    }

    /// Replaces the task list with what `data`'s lines hold, split on
    /// line feeds; on a bad line the tasks before it are kept and the
    /// error returned.
    pub fn load_data(&mut self, data: &str) -> (r: Result<(), HandlerError>)
        ensures
            ({
                let out = spec_load(spec_split(data@, '\n'), 1);
                final(self).tasks.deep_view() == out.0 && (match r {
                    Ok(()) => out.1 is None,
                    Err(e) => out.1 == Some(e),
                })
            }),
    {
        let lines = split_char(data, '\n');
        let (tasks, err) = Self::load_lines(&lines, 0);
        self.tasks = tasks;
        proof {
            assert(lines.deep_view().subrange(0, lines@.len() as int) =~= lines.deep_view());
        }
        match err {
            None => Ok(()),
            Some(e) => Err(e),
        }
    }

    /// Renders the task list as its stored text.
    pub fn data_string(&self) -> (r: String)
        ensures
            r@ == spec_tasks_text_from(self.tasks.deep_view(), 0),
    {
        let ghost ts = self.tasks.deep_view();
        let mut s = String::new();
        let n = self.tasks.len();
        let mut i: usize = 0;
        while i < n
            invariant
                n == ts.len(),
                ts == self.tasks.deep_view(),
                i <= n,
                s@ + spec_tasks_text_from(ts, i as int) == spec_tasks_text_from(ts, 0),
            decreases n - i,
        {
            proof {
                assert(ts[i as int] == self.tasks@[i as int]@);
            }
            let ghost s_before = s@;
            let line = self.tasks[i].to_string();
            s.append(line.as_str());
            if i < n - 1 {
                s.append("\n");
                proof {
                    reveal_strlit("\n");
                    assert("\n"@ =~= seq!['\n']);
                    assert(spec_tasks_text_from(ts, i as int) == spec_task_line(ts[i as int])
                        + seq!['\n'] + spec_tasks_text_from(ts, i + 1));
                    assert(s@ =~= s_before + spec_task_line(ts[i as int]) + seq!['\n']);
                    assert(s@ + spec_tasks_text_from(ts, i + 1) =~= s_before
                        + spec_tasks_text_from(ts, i as int));
                }
            } else {
                proof {
                    assert(i == n - 1);
                    assert(spec_tasks_text_from(ts, i as int) == spec_task_line(ts[i as int]));
                    assert(spec_tasks_text_from(ts, i + 1) == Seq::<char>::empty());
                    assert(s@ + spec_tasks_text_from(ts, i + 1) =~= s_before
                        + spec_tasks_text_from(ts, i as int));
                }
            }
            i += 1;
        }
        proof {
            assert(spec_tasks_text_from(ts, n as int) == Seq::<char>::empty());
            assert(s@ =~= s@ + Seq::<char>::empty());
        }
        s
    }

    /// One `name=<number>` operation on the task list.
    fn indexed_op(&mut self, q: &str, name: &str, op: TaskOp) -> (r: Result<(), HandlerError>)
        ensures
            ({
                let out = spec_indexed_op(old(self).tasks.deep_view(), q@, name@, op);
                final(self).tasks.deep_view() == out.0 && r == out.1
            }),
    {
        let len = self.tasks.len();
        match capture_digit_param(q, name) {
            None => Err(HandlerError::InvalidQuery),
            Some(ds) => {
                proof {
                    assert forall|c: char| #[trigger] digit_first()(c) implies digit_cont()(
                        c,
                    ) by {
                    }
                    lemma_capture_chars(q@, name@, digit_first(), digit_cont());
                    assert(forall|k: int|
                        0 <= k < ds@.len() ==> crate::query::spec_is_digit(#[trigger] ds@[k]));
                    assert(crate::query::spec_is_nonzero_digit(ds@[0]));
                    lemma_digits_val_leading(ds@);
                }
                match parse_usize(ds.as_str()) {
                    None => {
                        proof {
                            assert(spec_digits_val(ds@) > usize::MAX);
                            assert(old(self).tasks.deep_view().len() == len);
                        }
                        Err(HandlerError::InvalidTaskIndex)
                    },
                    Some(v) => {
                        let index = v - 1;
                        if index >= len {
                            Err(HandlerError::InvalidTaskIndex)
                        } else {
                            let ghost before = self.tasks.deep_view();
                            match op {
                                TaskOp::Check => {
                                    self.tasks[index].check();
                                },
                                TaskOp::Uncheck => {
                                    self.tasks[index].uncheck();
                                },
                                TaskOp::Remove => {
                                    let _ = self.tasks.remove(index);
                                },
                            }
                            proof {
                                assert(self.tasks.deep_view() =~= spec_apply_op(
                                    before,
                                    index as int,
                                    op,
                                ));
                            }
                            Ok(())
                        }
                    },
                }
            },
        }
    }

    /// The update route: the first of the prefixes `check`, `uncheck`
    /// and `remove` in the query after `/update?` names the
    /// operation; its first `<name>=<number>` match names the task by
    /// its one-based position.
    pub fn serve_update(&mut self, target: &str) -> (r: Result<(), HandlerError>)
        requires
            spec_starts_with(target@, "/update?"@),
        ensures
            ({
                let q = target@.subrange("/update?"@.len() as int, target@.len() as int);
                let out = spec_update_outcome(old(self).tasks.deep_view(), q);
                final(self).tasks.deep_view() == out.0 && r == out.1
            }),
    {
        proof {
            reveal_strlit("/update?");
        }
        let n = target.unicode_len();
        let q = target.substring_char(8, n);
        if starts_with(q, "check") {
            self.indexed_op(q, "check=", TaskOp::Check)
        } else if starts_with(q, "uncheck") {
            self.indexed_op(q, "uncheck=", TaskOp::Uncheck)
        } else if starts_with(q, "remove") {
            self.indexed_op(q, "remove=", TaskOp::Remove)
        } else {
            Ok(())
        }
    }

    /// The add route: the text parameter's capture after `/add?`
    /// becomes a fresh task at the end of the list, not done.
    pub fn serve_add(&mut self, target: &str) -> (r: Result<(), HandlerError>)
        requires
            spec_starts_with(target@, "/add?"@),
        ensures
            ({
                let q = target@.subrange("/add?"@.len() as int, target@.len() as int);
                let out = spec_add_outcome(old(self).tasks.deep_view(), q);
                final(self).tasks.deep_view() == out.0 && r == out.1
            }),
    {
        proof {
            reveal_strlit("/add?");
        }
        let n = target.unicode_len();
        let q = target.substring_char(5, n);
        match capture_text_param(q, "text=") {
            None => Err(HandlerError::InvalidQuery),
            Some(text) => {
                self.tasks.push(Task::new(text.as_str(), false));
                proof {
                    assert(self.tasks.deep_view() =~= old(self).tasks.deep_view().push(
                        TaskView { index: 0, text: text@, done: false },
                    ));
                }
                Ok(())
            },
        }
    }
}

} // verus!
