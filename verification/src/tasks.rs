//! Task tracking: one record per task the assistant works on, with tool-use
//! and token counters, and the handle that names the current task.

use vstd::prelude::*;
use crate::outside::fresh_id;
use crate::text::str_eq;

verus! {

/// How a task ended, if it has.
#[derive(Clone, Copy, PartialEq, Eq, Structural, Debug)]
pub enum TaskStatus {
    InProgress,
    Completed,
    Failed,
}

/// One tracked task.
#[derive(Debug)]
pub struct Task {
    pub id: String,
    pub description: String,
    pub tool_count: u32,
    pub input_tokens: u32,
    pub total_tokens: u32,
    pub status: TaskStatus,
    pub error: Option<String>,
}

impl Task {
    /// A fresh in-progress task.
    pub fn new(id: String, description: String) -> (t: Task)
        ensures
            t.id == id,
            t.description == description,
            t.tool_count == 0,
            t.input_tokens == 0,
            t.total_tokens == 0,
            t.status == TaskStatus::InProgress,
            t.error is None,
    {
        Task {
            id,
            description,
            tool_count: 0,
            input_tokens: 0,
            total_tokens: 0,
            status: TaskStatus::InProgress,
            error: None,
        }
    }

    /// Count one more tool use, stopping at the counter's cap.
    pub fn add_tool_use(&mut self)
        ensures
            *final(self) == (Task {
                tool_count: if old(self).tool_count < u32::MAX {
                    (old(self).tool_count + 1) as u32
                } else {
                    u32::MAX
                },
                ..*old(self)
            }),
    {
        self.tool_count = if self.tool_count < u32::MAX {
            self.tool_count + 1
        } else {
            u32::MAX
        };
    }

    /// Count `tokens` more input tokens, stopping at the counter's cap.
    pub fn add_input_tokens(&mut self, tokens: u32)
        ensures
            *final(self) == (Task {
                input_tokens: if old(self).input_tokens + tokens <= u32::MAX {
                    (old(self).input_tokens + tokens) as u32
                } else {
                    u32::MAX
                },
                ..*old(self)
            }),
    {
        self.input_tokens = if tokens <= u32::MAX - self.input_tokens {
            self.input_tokens + tokens
        } else {
            u32::MAX
        };
    }

    /// Mark the task completed, with its total token use.
    pub fn complete(&mut self, tokens: u32)
        ensures
            *final(self) == (Task {
                status: TaskStatus::Completed,
                total_tokens: tokens,
                ..*old(self)
            }),
    {
        self.status = TaskStatus::Completed;
        self.total_tokens = tokens;
    }

    /// Mark the task failed, carrying the error text.
    pub fn fail(&mut self, error: &str)
        ensures
            final(self).status == TaskStatus::Failed,
            final(self).error matches Some(e) && e@ == error@,
            final(self).id == old(self).id,
            final(self).description == old(self).description,
            final(self).tool_count == old(self).tool_count,
            final(self).input_tokens == old(self).input_tokens,
            final(self).total_tokens == old(self).total_tokens,
    {
        self.status = TaskStatus::Failed;
        self.error = Some(error.to_owned());
    }
}

/// The first index of a task with the given id, or `-1`.
pub open spec fn spec_find_task(tasks: Seq<Task>, id: Seq<char>) -> int
    decreases tasks.len(),
{
    if tasks.len() == 0 {
        -1
    } else if tasks[0].id@ == id {
        0
    } else {
        let r = spec_find_task(tasks.skip(1), id);
        if r == -1 {
            -1
        } else {
            1 + r
        }
    }
}

/// A position that matches first pins what the search finds.
proof fn lemma_find_task_at(tasks: Seq<Task>, id: Seq<char>, i: int)
    requires
        0 <= i < tasks.len(),
        tasks[i].id@ == id,
        forall|j: int| 0 <= j < i ==> (#[trigger] tasks[j].id)@ != id,
    ensures
        spec_find_task(tasks, id) == i,
    decreases i,
{
    if i == 0 {
    } else {
        assert(forall|j: int| 0 <= j < i - 1 ==> (#[trigger] tasks.skip(1)[j].id)@ != id);
        lemma_find_task_at(tasks.skip(1), id, i - 1);
    }
}

/// No match anywhere means the search finds nothing.
proof fn lemma_find_task_none(tasks: Seq<Task>, id: Seq<char>)
    requires
        forall|j: int| 0 <= j < tasks.len() ==> (#[trigger] tasks[j].id)@ != id,
    ensures
        spec_find_task(tasks, id) == -1,
    decreases tasks.len(),
{
    if tasks.len() > 0 {
        assert(forall|j: int|
            0 <= j < tasks.skip(1).len() ==> (#[trigger] tasks.skip(1)[j].id)@ != id);
        lemma_find_task_none(tasks.skip(1), id);
    }
}

/// The task-tracking state: every task so far, and the id of the current
/// one while a task runs.
#[derive(Debug)]
pub struct App {
    pub tasks: Vec<Task>,
    pub current_task_id: Option<String>,
}

impl App {
    /// The index of the current task, or `-1` when none is current or the
    /// id names no task.
    pub open spec fn spec_current_index(&self) -> int {
        match self.current_task_id {
            Some(id) => spec_find_task(self.tasks@, id@),
            None => -1,
        }
    }

    /// A tracker with no tasks.
    pub fn new() -> (r: App)
        ensures
            r.tasks@.len() == 0,
            r.current_task_id is None,
    {
        App { tasks: Vec::new(), current_task_id: None }
    }

    /// Create a new task and set it as current; its fresh id is returned.
    pub fn create_task(&mut self, description: &str) -> (r: String)
        ensures
            final(self).tasks@ == old(self).tasks@ + seq![final(self).tasks@.last()],
            final(self).tasks@.last().description@ == description@,
            final(self).tasks@.last().status == TaskStatus::InProgress,
            final(self).tasks@.last().id@ == r@,
            final(self).current_task_id matches Some(id) && id@ == r@,
    {
        let id = fresh_id();
        let task = Task::new(id.clone(), description.to_owned());
        self.tasks.push(task);
        self.current_task_id = Some(id.clone());
        proof {
            assert(self.tasks@ =~= old(self).tasks@ + seq![self.tasks@.last()]);
        }
        id
    }

    /// The index of the current task in `tasks`, found by its id. (A
    /// borrow of the task itself cannot be returned mutably, so the index
    /// stands in for it; the mutating methods go through it.)
    pub fn current_task_mut(&mut self) -> (r: Option<usize>)
        ensures
            *final(self) == *old(self),
            match r {
                Some(i) => i == old(self).spec_current_index() && i < old(self).tasks@.len(),
                None => old(self).spec_current_index() == -1,
            },
    {
        let id = match &self.current_task_id {
            Some(id) => id.clone(),
            None => {
                return None;
            },
        };
        let n = self.tasks.len();
        let mut i: usize = 0;
        while i < n
            invariant
                n == self.tasks@.len(),
                i <= n,
                *self == *old(self),
                self.current_task_id matches Some(cid) && cid@ == id@,
                forall|j: int| 0 <= j < i ==> (#[trigger] self.tasks@[j].id)@ != id@,
            decreases n - i,
        {
            if str_eq(self.tasks[i].id.as_str(), id.as_str()) {
                proof {
                    lemma_find_task_at(self.tasks@, id@, i as int);
                }
                return Some(i);
            }
            i += 1;
        }
        proof {
            lemma_find_task_none(self.tasks@, id@);
        }
        None
    }

    /// The current task, if one is current and its id names a task.
    pub fn current_task(&self) -> (r: Option<&Task>)
        ensures
            match r {
                Some(t) => self.spec_current_index() >= 0 && *t == self.tasks@[
                    self.spec_current_index()],
                None => self.spec_current_index() == -1,
            },
    {
        let id = match &self.current_task_id {
            Some(id) => id,
            None => {
                return None;
            },
        };
        let n = self.tasks.len();
        let mut i: usize = 0;
        while i < n
            invariant
                n == self.tasks@.len(),
                i <= n,
                self.current_task_id matches Some(cid) && cid@ == id@,
                forall|j: int| 0 <= j < i ==> (#[trigger] self.tasks@[j].id)@ != id@,
            decreases n - i,
        {
            if str_eq(self.tasks[i].id.as_str(), id.as_str()) {
                proof {
                    lemma_find_task_at(self.tasks@, id@, i as int);
                }
                return Some(&self.tasks[i]);
            }
            i += 1;
        }
        proof {
            lemma_find_task_none(self.tasks@, id@);
        }
        None
    }

    /// Count a tool use on the current task, if any.
    pub fn add_tool_use(&mut self)
        ensures
            final(self).current_task_id == old(self).current_task_id,
            old(self).spec_current_index() == -1 ==> *final(self) == *old(self),
            old(self).spec_current_index() >= 0 ==> ({
                let i = old(self).spec_current_index();
                let t = old(self).tasks@[i];
                final(self).tasks@ == old(self).tasks@.update(
                    i,
                    Task {
                        tool_count: if t.tool_count < u32::MAX {
                            (t.tool_count + 1) as u32
                        } else {
                            u32::MAX
                        },
                        ..t
                    },
                )
            }),
    {
        match self.current_task_mut() {
            Some(i) => {
                let task = &mut self.tasks[i];
                task.add_tool_use();
            },
            None => {},
        }
    }

    /// Count input tokens on the current task, if any.
    pub fn add_input_tokens(&mut self, tokens: u32)
        ensures
            final(self).current_task_id == old(self).current_task_id,
            old(self).spec_current_index() == -1 ==> *final(self) == *old(self),
            old(self).spec_current_index() >= 0 ==> ({
                let i = old(self).spec_current_index();
                let t = old(self).tasks@[i];
                final(self).tasks@ == old(self).tasks@.update(
                    i,
                    Task {
                        input_tokens: if t.input_tokens + tokens <= u32::MAX {
                            (t.input_tokens + tokens) as u32
                        } else {
                            u32::MAX
                        },
                        ..t
                    },
                )
            }),
    {
        match self.current_task_mut() {
            Some(i) => {
                let task = &mut self.tasks[i];
                task.add_input_tokens(tokens);
            },
            None => {},
        }
    }

    /// Mark the current task completed with its token total, and clear the
    /// current-task handle.
    pub fn complete_current_task(&mut self, tokens: u32)
        ensures
            final(self).current_task_id is None,
            old(self).spec_current_index() == -1 ==> final(self).tasks@ == old(self).tasks@,
            old(self).spec_current_index() >= 0 ==> ({
                let i = old(self).spec_current_index();
                let t = old(self).tasks@[i];
                final(self).tasks@ == old(self).tasks@.update(
                    i,
                    Task { status: TaskStatus::Completed, total_tokens: tokens, ..t },
                )
            }),
    {
        match self.current_task_mut() {
            Some(i) => {
                let task = &mut self.tasks[i];
                task.complete(tokens);
            },
            None => {},
        }
        self.current_task_id = None;
    }

    /// Mark the current task failed with the error text, and clear the
    /// current-task handle.
    pub fn fail_current_task(&mut self, error: &str)
        ensures
            final(self).current_task_id is None,
            old(self).spec_current_index() == -1 ==> final(self).tasks@ == old(self).tasks@,
            old(self).spec_current_index() >= 0 ==> ({
                let i = old(self).spec_current_index();
                let t = old(self).tasks@[i];
                &&& final(self).tasks@.len() == old(self).tasks@.len()
                &&& final(self).tasks@ == old(self).tasks@.update(i, final(self).tasks@[i])
                &&& final(self).tasks@[i].status == TaskStatus::Failed
                &&& final(self).tasks@[i].error matches Some(e) && e@ == error@
                &&& final(self).tasks@[i].id == t.id
                &&& final(self).tasks@[i].tool_count == t.tool_count
            }),
    {
        match self.current_task_mut() {
            Some(i) => {
                let task = &mut self.tasks[i];
                task.fail(error);
            },
            None => {},
        }
        self.current_task_id = None;
    }
}

} // verus!
