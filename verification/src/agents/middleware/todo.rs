//! Todo/planning middleware: task tracking for agent workflows.
//!
//! Keeps a todo list that the agent maintains during execution, renders it
//! into the system prompt, and reports parallel tool calls and progress.

use vstd::prelude::*;
use vstd::string::*;
use crate::agents::middleware::types::AgentState;
use crate::json::{lookup, JsonValue};
use crate::keyed::{unique_keys, value_at};
use crate::messages::{Message, MessageType};
use crate::text::{decimal, push_string, replace_all, replaced, str_eq, usize_to_string};

verus! {

/// Status of a todo item.
#[derive(Debug, Clone, Copy, PartialEq, Eq, Structural)]
pub enum TodoStatus {
    /// The task has not been started.
    Pending,
    /// The task is currently being worked on.
    InProgress,
    /// The task has been completed.
    Completed,
}

impl Default for TodoStatus {
    fn default() -> (r: Self)
        ensures
            r == TodoStatus::Pending,
    {
        TodoStatus::Pending
    }
}

/// A single todo item.
#[derive(Debug, Clone)]
pub struct Todo {
    /// Description of the task.
    pub content: String,
    /// Current status of the task.
    pub status: TodoStatus,
}

impl Todo {
    /// A pending task.
    pub fn new(content: &str) -> (r: Self)
        ensures
            r.content@ == content@,
            r.status == TodoStatus::Pending,
    {
        Todo { content: String::from_str(content), status: TodoStatus::Pending }
    }

    /// The same task with another status.
    pub fn with_status(self, status: TodoStatus) -> (r: Self)
        ensures
            r.content == self.content,
            r.status == status,
    {
        Todo { status, ..self }
    }

    /// Mark this todo as in progress.
    pub fn start(&mut self)
        ensures
            final(self).content == old(self).content,
            final(self).status == TodoStatus::InProgress,
    {
        self.status = TodoStatus::InProgress;
    }

    /// Mark this todo as completed.
    pub fn complete(&mut self)
        ensures
            final(self).content == old(self).content,
            final(self).status == TodoStatus::Completed,
    {
        self.status = TodoStatus::Completed;
    }

    /// Check if this todo is completed.
    pub fn is_completed(&self) -> (r: bool)
        ensures
            r == (self.status == TodoStatus::Completed),
    {
        self.status == TodoStatus::Completed
    }
}

/// Middleware that maintains a todo list and injects planning context.
///
/// Injects a system prompt with the current todo list before model calls,
/// and checks the model's response for parallel tool calls that might
/// indicate task planning behavior.
pub struct TodoListMiddleware {
    /// System prompt template for injecting the todo list.
    /// Use `{todos}` as a placeholder for the formatted todo list.
    pub system_prompt: String,
    /// The key in the agent state where the todo list is stored.
    pub state_key: String,
}

/// How far a todo list has come.
#[derive(Debug, Clone, Copy, PartialEq, Eq, Structural)]
pub struct TodoProgress {
    /// Tasks completed.
    pub completed: usize,
    /// Tasks in the list.
    pub total: usize,
    /// Whether every task is completed.
    pub all_done: bool,
}

/// The system prompt a new middleware starts with.
pub open spec fn default_todo_prompt() -> Seq<char> {
    "You are working through a task list. Here is the current status of your tasks:\n\n{todos}\n\nInstructions for task management:\n- Work through tasks in order, marking them as in_progress when you start and completed when done.\n- If you discover sub-tasks, add them to the list.\n- If a task is blocked, note the reason and move on to the next available task.\n- Provide a brief status update when completing each task.\n- Use parallel tool calls when tasks are independent and can be done simultaneously."@
}

/// The marker of a status in the rendered list.
pub open spec fn status_icon(s: TodoStatus) -> Seq<char> {
    match s {
        TodoStatus::Pending => "[ ]"@,
        TodoStatus::InProgress => "[~]"@,
        TodoStatus::Completed => "[x]"@,
    }
}

/// Line `i` (from 0) of the rendered list: number, marker and task.
pub open spec fn todo_line(i: nat, t: Todo) -> Seq<char> {
    decimal(i + 1) + ". "@ + status_icon(t.status) + " "@ + t.content@
}

/// The first `n` todos rendered one per line.
pub open spec fn todo_lines(todos: Seq<Todo>, n: nat) -> Seq<char>
    decreases n,
{
    if n == 0 {
        Seq::<char>::empty()
    } else if n == 1 {
        todo_line(0, todos[0])
    } else {
        todo_lines(todos, (n - 1) as nat) + "\n"@ + todo_line((n - 1) as nat, todos[n - 1])
    }
}

/// The todo list as it appears in the prompt.
pub open spec fn formatted_todos(todos: Seq<Todo>) -> Seq<char> {
    if todos.len() == 0 {
        "No tasks in the todo list."@
    } else {
        todo_lines(todos, todos.len())
    }
}

/// The number of completed tasks among the first `n`.
pub open spec fn completed_count(todos: Seq<Todo>, n: nat) -> nat
    decreases n,
{
    if n == 0 {
        0
    } else {
        completed_count(todos, (n - 1) as nat) + if todos[n - 1].status == TodoStatus::Completed {
            1nat
        } else {
            0nat
        }
    }
}

proof fn lemma_completed_count_le(todos: Seq<Todo>, n: nat)
    ensures
        completed_count(todos, n) <= n,
    decreases n,
{
    if n > 0 {
        lemma_completed_count_le(todos, (n - 1) as nat);
    }
}

/// Whether a task's status is `Completed`.
pub open spec fn is_completed_task() -> spec_fn(Todo) -> bool {
    |t: Todo| t.status == TodoStatus::Completed
}

/// Whether a stored task's status is `Completed`.
pub open spec fn is_completed_entry() -> spec_fn((Seq<char>, TodoStatus)) -> bool {
    |p: (Seq<char>, TodoStatus)| p.1 == TodoStatus::Completed
}

proof fn lemma_count_by_filter(todos: Seq<Todo>, n: nat)
    requires
        n <= todos.len(),
    ensures
        completed_count(todos, n) == todos.take(n as int).filter(is_completed_task()).len(),
        completed_count(todos, n) == n <==> forall|i: int|
            0 <= i < n ==> #[trigger] todos[i].status == TodoStatus::Completed,
    decreases n,
{
    if n > 0 {
        lemma_count_by_filter(todos, (n - 1) as nat);
        lemma_completed_count_le(todos, (n - 1) as nat);
        let t = todos.take(n as int);
        assert(t.drop_last() =~= todos.take(n - 1));
        assert(t.last() == todos[n - 1]);
        reveal(Seq::filter);
        assert(t.filter(is_completed_task()) == if is_completed_task()(t.last()) {
            t.drop_last().filter(is_completed_task()).push(t.last())
        } else {
            t.drop_last().filter(is_completed_task())
        });
    } else {
        reveal(Seq::filter);
        assert(todos.take(0) =~= Seq::<Todo>::empty());
    }
}

/// The progress of a todo list counts exactly the tasks whose status is
/// `Completed` (tasks in progress or pending do not count), and the list is
/// all done exactly when every task is completed.
pub proof fn law_progress_counts_completed(todos: Seq<Todo>)
    ensures
        completed_count(todos, todos.len()) == todos.filter(is_completed_task()).len(),
        completed_count(todos, todos.len()) == todos.len() <==> forall|i: int|
            0 <= i < todos.len() ==> #[trigger] todos[i].status == TodoStatus::Completed,
{
    lemma_count_by_filter(todos, todos.len());
    assert(todos.take(todos.len() as int) =~= todos);
}

/// The marker of a status.
fn icon(s: TodoStatus) -> (r: &'static str)
    ensures
        r@ == status_icon(s),
{
    match s {
        TodoStatus::Pending => "[ ]",
        TodoStatus::InProgress => "[~]",
        TodoStatus::Completed => "[x]",
    }
}

impl Default for TodoListMiddleware {
    fn default() -> (r: Self)
        ensures
            r.system_prompt@ == default_todo_prompt(),
            r.state_key@ == "todo_list"@,
    {
        TodoListMiddleware {
            system_prompt: String::from_str(
                "You are working through a task list. Here is the current status of your tasks:\n\n{todos}\n\nInstructions for task management:\n- Work through tasks in order, marking them as in_progress when you start and completed when done.\n- If you discover sub-tasks, add them to the list.\n- If a task is blocked, note the reason and move on to the next available task.\n- Provide a brief status update when completing each task.\n- Use parallel tool calls when tasks are independent and can be done simultaneously.",
            ),
            state_key: String::from_str("todo_list"),
        }
    }
}

impl TodoListMiddleware {
    /// A middleware with the default prompt, storing its list under `todo_list`.
    pub fn new() -> (r: Self)
        ensures
            r.system_prompt@ == default_todo_prompt(),
            r.state_key@ == "todo_list"@,
    {
        Self::default()
    }

    /// Sets the prompt template; `{todos}` marks where the list goes.
    pub fn with_system_prompt(self, prompt: &str) -> (r: Self)
        ensures
            r.system_prompt@ == prompt@,
            r.state_key == self.state_key,
    {
        TodoListMiddleware { system_prompt: String::from_str(prompt), ..self }
    }

    /// Sets the state key the list is stored under.
    pub fn with_state_key(self, key: &str) -> (r: Self)
        ensures
            r.state_key@ == key@,
            r.system_prompt == self.system_prompt,
    {
        TodoListMiddleware { state_key: String::from_str(key), ..self }
    }

    /// The middleware's name.
    pub fn name(&self) -> (r: &'static str)
        ensures
            r@ == "TodoListMiddleware"@,
    {
        "TodoListMiddleware"
    }

    /// Format the todo list for inclusion in a system prompt.
    pub fn format_todos(&self, todos: &[Todo]) -> (r: String)
        ensures
            r@ == formatted_todos(todos@),
    {
        if todos.len() == 0 {
            return String::from_str("No tasks in the todo list.");
        }
        let mut out = String::new();
        let mut i: usize = 0;
        while i < todos.len()
            invariant
                i <= todos@.len(),
                todos@.len() > 0,
                out@ == todo_lines(todos@, i as nat),
            decreases todos.len() - i,
        {
            if i > 0 {
                out.append("\n");
            }
            let num = usize_to_string(i + 1);
            push_string(&mut out, &num);
            out.append(". ");
            out.append(icon(todos[i].status));
            out.append(" ");
            push_string(&mut out, &todos[i].content);
            proof {
                if i == 0 {
                    assert(out@ =~= todo_line(0, todos@[0]));
                } else {
                    assert(out@ =~= todo_lines(todos@, i as nat) + "\n"@ + todo_line(
                        i as nat,
                        todos@[i as int],
                    ));
                }
            }
            i = i + 1;
        }
        out
    }

    /// Build the system prompt with the current todo list injected.
    pub fn build_system_prompt(&self, todos: &[Todo]) -> (r: String)
        ensures
            r@ == replaced(self.system_prompt@, "{todos}"@, formatted_todos(todos@)),
    {
        let formatted = self.format_todos(todos);
        proof {
            reveal_strlit("{todos}");
        }
        replace_all(self.system_prompt.as_str(), "{todos}", formatted.as_str())
    }

    /// The system message sent with a model call: the existing system text,
    /// if any, a blank line, then the prompt with the todo list.
    pub fn system_message_text(&self, existing: Option<&str>, todos: &[Todo]) -> (r: String)
        ensures
            r@ == match existing {
                Some(e) => e@ + "\n\n"@ + replaced(
                    self.system_prompt@,
                    "{todos}"@,
                    formatted_todos(todos@),
                ),
                None => replaced(self.system_prompt@, "{todos}"@, formatted_todos(todos@)),
            },
    {
        let prompt = self.build_system_prompt(todos);
        match existing {
            Some(e) => {
                let mut out = String::from_str(e);
                out.append("\n\n");
                push_string(&mut out, &prompt);
                out
            },
            None => prompt,
        }
    }

    /// Check the model response for signs of parallel tool calls,
    /// which might indicate the model is planning multiple tasks.
    ///
    /// Answers the number of tool calls of the last message when it is an AI
    /// message with more than one.
    pub fn check_parallel_calls(&self, messages: &[Message]) -> (r: Option<usize>)
        ensures
            r == (if messages@.len() > 0 && messages@.last().message_type == MessageType::Ai
                && messages@.last().tool_calls@.len() > 1 {
                Some(messages@.last().tool_calls@.len() as usize)
            } else {
                None::<usize>
            }),
            r matches Some(k) ==> k == messages@.last().tool_calls@.len(),
    {
        if messages.len() == 0 {
            return None;
        }
        let last = &messages[messages.len() - 1];
        if last.message_type == MessageType::Ai && last.tool_calls.len() > 1 {
            Some(last.tool_calls.len())
        } else {
            None
        }
    }

    /// The completion status of a todo list, or `None` for an empty list.
    pub fn progress(&self, todos: &[Todo]) -> (r: Option<TodoProgress>)
        ensures
            todos@.len() == 0 ==> r is None,
            todos@.len() > 0 ==> r == Some(
                TodoProgress {
                    completed: completed_count(todos@, todos@.len()) as usize,
                    total: todos@.len() as usize,
                    all_done: completed_count(todos@, todos@.len()) == todos@.len(),
                },
            ),
    {
        if todos.len() == 0 {
            return None;
        }
        let mut completed: usize = 0;
        let mut i: usize = 0;
        while i < todos.len()
            invariant
                i <= todos@.len(),
                completed == completed_count(todos@, i as nat),
            decreases todos.len() - i,
        {
            proof {
                lemma_completed_count_le(todos@, i as nat);
            }
            if todos[i].is_completed() {
                completed = completed + 1;
            }
            i = i + 1;
        }
        Some(TodoProgress { completed, total: todos.len(), all_done: completed == todos.len() })
    }
}

// ---------------------------------------------------------------------------
// Reading a todo list out of the agent state
// ---------------------------------------------------------------------------

/// The status a JSON value names: `"pending"`, `"in_progress"` or
/// `"completed"`.
pub open spec fn status_of(v: JsonValue) -> Option<TodoStatus> {
    match v {
        JsonValue::Str(s) => if s@ == "pending"@ {
            Some(TodoStatus::Pending)
        } else if s@ == "in_progress"@ {
            Some(TodoStatus::InProgress)
        } else if s@ == "completed"@ {
            Some(TodoStatus::Completed)
        } else {
            None
        },
        _ => None,
    }
}

/// The task a JSON value describes, as its content and status: an object
/// with a string `content` and a `status` (other members ignored), or a
/// two-element array of the same.
pub open spec fn todo_of(v: JsonValue) -> Option<(Seq<char>, TodoStatus)> {
    match v {
        JsonValue::Object(ms) => match (lookup(ms@, "content"@), lookup(ms@, "status"@)) {
            (Some(JsonValue::Str(c)), Some(st)) => match status_of(st) {
                Some(x) => Some((c@, x)),
                None => None,
            },
            _ => None,
        },
        JsonValue::Array(items) => if items@.len() == 2 {
            match (items@[0], status_of(items@[1])) {
                (JsonValue::Str(c), Some(x)) => Some((c@, x)),
                _ => None,
            }
        } else {
            None
        },
        _ => None,
    }
}

/// The todo list a JSON value holds: an array whose every item is a task;
/// anything else holds none.
pub open spec fn todos_of(v: JsonValue) -> Seq<(Seq<char>, TodoStatus)> {
    match v {
        JsonValue::Array(items) => if forall|i: int|
            0 <= i < items@.len() ==> (#[trigger] todo_of(items@[i])) is Some {
            Seq::new(items@.len(), |i: int| todo_of(items@[i])->0)
        } else {
            Seq::empty()
        },
        _ => Seq::empty(),
    }
}

/// The content and status of each task of a list.
pub open spec fn todo_views(todos: Seq<Todo>) -> Seq<(Seq<char>, TodoStatus)> {
    todos.map_values(|t: Todo| (t.content@, t.status))
}

/// Reads a status.
fn status_from(v: &JsonValue) -> (r: Option<TodoStatus>)
    ensures
        r == status_of(*v),
{
    match v {
        JsonValue::Str(s) => {
            if str_eq(s.as_str(), "pending") {
                Some(TodoStatus::Pending)
            } else if str_eq(s.as_str(), "in_progress") {
                Some(TodoStatus::InProgress)
            } else if str_eq(s.as_str(), "completed") {
                Some(TodoStatus::Completed)
            } else {
                None
            }
        },
        _ => None,
    }
}

/// Reads a task.
pub fn todo_from_json(v: &JsonValue) -> (r: Option<Todo>)
    ensures
        match todo_of(*v) {
            Some(t) => r matches Some(x) && x.content@ == t.0 && x.status == t.1,
            None => r is None,
        },
{
    match v {
        JsonValue::Object(_) => {
            let content = match v.get("content") {
                Some(JsonValue::Str(c)) => c,
                _ => {
                    return None;
                },
            };
            let status = match v.get("status") {
                Some(st) => status_from(st),
                None => None,
            };
            match status {
                Some(x) => Some(Todo { content: content.clone(), status: x }),
                None => None,
            }
        },
        JsonValue::Array(items) => {
            if items.len() != 2 {
                return None;
            }
            match (&items[0], status_from(&items[1])) {
                (JsonValue::Str(c), Some(x)) => Some(Todo { content: c.clone(), status: x }),
                _ => None,
            }
        },
        _ => None,
    }
}

/// Reads a todo list: every item of an array must be a task, else the list
/// is empty.
pub fn todos_from_json(v: &JsonValue) -> (r: Vec<Todo>)
    ensures
        todo_views(r@) == todos_of(*v),
{
    match v {
        JsonValue::Array(items) => {
            let mut out: Vec<Todo> = Vec::new();
            let mut i: usize = 0;
            while i < items.len()
                invariant
                    i <= items@.len(),
                    *v == JsonValue::Array(*items),
                    out@.len() == i,
                    forall|k: int|
                        0 <= k < i ==> (#[trigger] todo_of(items@[k])) is Some && out@[k].content@
                            == todo_of(items@[k]).unwrap().0 && out@[k].status == todo_of(items@[k]).unwrap().1,
                decreases items.len() - i,
            {
                match todo_from_json(&items[i]) {
                    Some(t) => out.push(t),
                    None => {
                        return Vec::new();
                    },
                }
                i = i + 1;
            }
            assert(todo_views(out@) =~= todos_of(*v));
            out
        },
        _ => Vec::new(),
    }
}

impl TodoListMiddleware {
    /// The todo list stored in the agent state under the middleware's key;
    /// empty when there is none or it does not read as one.
    pub fn get_todos(&self, state: &AgentState) -> (r: Vec<Todo>)
        requires
            unique_keys(state.extra@),
        ensures
            todo_views(r@) == match value_at(state.extra@, self.state_key@) {
                Some(v) => todos_of(v),
                None => Seq::empty(),
            },
    {
        match state.get_extra(self.state_key.as_str()) {
            Some(v) => todos_from_json(v),
            None => {
                let r: Vec<Todo> = Vec::new();
                assert(todo_views(r@) =~= Seq::empty());
                r
            },
        }
    }
}

/// The tasks stored in `state` under `key`.
pub open spec fn stored_todos(state: AgentState, key: Seq<char>) -> Seq<(Seq<char>, TodoStatus)> {
    match value_at(state.extra@, key) {
        Some(v) => todos_of(v),
        None => Seq::empty(),
    }
}

/// The number of completed tasks among the first `n`.
pub open spec fn done_count(ts: Seq<(Seq<char>, TodoStatus)>, n: nat) -> nat
    decreases n,
{
    if n == 0 || n > ts.len() {
        0
    } else {
        done_count(ts, (n - 1) as nat) + if ts[n - 1].1 == TodoStatus::Completed {
            1nat
        } else {
            0nat
        }
    }
}

/// Whether `v` is the object `{"all_done": .., "completed": .., "total": ..}`
/// (keys in sorted order) for `done` of `total` tasks.
pub open spec fn progress_object(v: JsonValue, done: nat, total: nat) -> bool {
    match v {
        JsonValue::Object(ms) => {
            &&& ms@.len() == 3
            &&& ms@[0].0@ == "all_done"@
            &&& ms@[0].1 == JsonValue::Bool(done == total)
            &&& ms@[1].0@ == "completed"@
            &&& crate::json::json_text(ms@[1].1) == decimal(done)
            &&& ms@[2].0@ == "total"@
            &&& crate::json::json_text(ms@[2].1) == decimal(total)
        },
        _ => false,
    }
}

proof fn lemma_done_by_filter(ts: Seq<(Seq<char>, TodoStatus)>, n: nat)
    requires
        n <= ts.len(),
    ensures
        done_count(ts, n) == ts.take(n as int).filter(is_completed_entry()).len(),
        done_count(ts, n) == n <==> forall|i: int| 0 <= i < n ==> #[trigger] ts[i].1 == TodoStatus::Completed,
    decreases n,
{
    if n > 0 {
        lemma_done_by_filter(ts, (n - 1) as nat);
        let t = ts.take(n as int);
        assert(t.drop_last() =~= ts.take(n - 1));
        assert(t.last() == ts[n - 1]);
        reveal(Seq::filter);
        assert(t.filter(is_completed_entry()) == if is_completed_entry()(t.last()) {
            t.drop_last().filter(is_completed_entry()).push(t.last())
        } else {
            t.drop_last().filter(is_completed_entry())
        });
        assert(done_count(ts, (n - 1) as nat) <= n - 1) by {
            lemma_done_count_le(ts, (n - 1) as nat);
        }
    } else {
        reveal(Seq::filter);
        assert(ts.take(0) =~= Seq::<(Seq<char>, TodoStatus)>::empty());
    }
}

proof fn lemma_done_count_le(ts: Seq<(Seq<char>, TodoStatus)>, n: nat)
    ensures
        done_count(ts, n) <= n,
    decreases n,
{
    if n > 0 {
        lemma_done_count_le(ts, (n - 1) as nat);
    }
}

/// The progress stored after a model call counts exactly the stored tasks
/// whose status is `Completed`, and reports all done exactly when every
/// stored task is completed.
pub proof fn law_stored_progress_counts_completed(ts: Seq<(Seq<char>, TodoStatus)>)
    ensures
        done_count(ts, ts.len()) == ts.filter(is_completed_entry()).len(),
        done_count(ts, ts.len()) == ts.len() <==> forall|i: int|
            0 <= i < ts.len() ==> #[trigger] ts[i].1 == TodoStatus::Completed,
{
    lemma_done_by_filter(ts, ts.len());
    assert(ts.take(ts.len() as int) =~= ts);
}

proof fn lemma_done_count(todos: Seq<Todo>, n: nat)
    requires
        n <= todos.len(),
    ensures
        completed_count(todos, n) == done_count(todo_views(todos), n),
    decreases n,
{
    if n > 0 {
        lemma_done_count(todos, (n - 1) as nat);
    }
}

impl TodoListMiddleware {
    /// The state updates after a model call: first the number of tool calls
    /// of the last message, under `parallel_tool_calls`, when it is an AI
    /// message with several; then the progress of the stored todo list,
    /// under `todo_progress`, when the list has tasks. `None` when there is
    /// neither.
    pub fn after_model(&self, state: &AgentState) -> (r: Option<Vec<(String, JsonValue)>>)
        requires
            unique_keys(state.extra@),
        ensures
            ({
                let m = state.messages@;
                let par = m.len() > 0 && m.last().message_type == MessageType::Ai
                    && m.last().tool_calls@.len() > 1;
                let ts = stored_todos(*state, self.state_key@);
                &&& (!par && ts.len() == 0) <==> r is None
                &&& r matches Some(u) ==> {
                    &&& u@.len() == (if par { 1int } else { 0int }) + (if ts.len() > 0 { 1int } else { 0int })
                    &&& par ==> u@[0].0@ == "parallel_tool_calls"@ && crate::json::json_text(u@[0].1)
                        == decimal(m.last().tool_calls@.len())
                    &&& ts.len() > 0 ==> u@.last().0@ == "todo_progress"@ && progress_object(
                        u@.last().1,
                        done_count(ts, ts.len()),
                        ts.len(),
                    )
                }
            }),
    {
        let mut updates: Vec<(String, JsonValue)> = Vec::new();
        let msgs = state.messages.as_slice();
        assert(msgs@ == state.messages@);
        match self.check_parallel_calls(msgs) {
            Some(n) => {
                updates.push((String::from_str("parallel_tool_calls"), JsonValue::Number(usize_to_string(n))));
            },
            None => {},
        }
        let todos = self.get_todos(state);
        let ghost ts = stored_todos(*state, self.state_key@);
        assert(todo_views(todos@).len() == todos@.len());
        assert(ts.len() == todos@.len());
        let count = todos.len();
        let sl = todos.as_slice();
        assert(sl@ == todos@);
        match self.progress(sl) {
            Some(p) => {
                proof {
                    lemma_done_count(todos@, todos@.len());
                    lemma_completed_count_le(todos@, todos@.len());
                    assert(todo_views(todos@) == ts);
                }
                let mut members: Vec<(String, JsonValue)> = Vec::new();
                members.push((String::from_str("all_done"), JsonValue::Bool(p.all_done)));
                members.push((String::from_str("completed"), JsonValue::Number(usize_to_string(p.completed))));
                members.push((String::from_str("total"), JsonValue::Number(usize_to_string(p.total))));
                let item = JsonValue::Object(members);
                assert(progress_object(item, done_count(ts, ts.len()), ts.len()));
                updates.push((String::from_str("todo_progress"), item));
                assert(updates@.last().1 == item);
            },
            None => {},
        }
        if updates.len() == 0 {
            None
        } else {
            Some(updates)
        }
    }
}

} // verus!
