use rustchain::agents::middleware::todo::{Todo, TodoListMiddleware, TodoProgress, TodoStatus};
use rustchain::agents::middleware::todo::{todo_from_json, todos_from_json};
use rustchain::agents::middleware::types::AgentState;
use rustchain::json::JsonValue;
use rustchain::messages::{Message, ToolCall};

#[test]
fn test_todo_new() {
    let todo = Todo::new("Write tests");
    assert_eq!(todo.content, "Write tests");
    assert_eq!(todo.status, TodoStatus::Pending);
    assert!(!todo.is_completed());
}

#[test]
fn test_todo_lifecycle() {
    let mut todo = Todo::new("Implement feature");
    assert_eq!(todo.status, TodoStatus::Pending);
    todo.start();
    assert_eq!(todo.status, TodoStatus::InProgress);
    todo.complete();
    assert_eq!(todo.status, TodoStatus::Completed);
    assert!(todo.is_completed());
}

#[test]
fn test_format_todos_empty() {
    let mw = TodoListMiddleware::new();
    let formatted = mw.format_todos(&[]);
    assert_eq!(formatted, "No tasks in the todo list.");
}

#[test]
fn test_format_todos_with_items() {
    let mw = TodoListMiddleware::new();
    let todos = vec![
        Todo::new("Task 1"),
        Todo::new("Task 2").with_status(TodoStatus::InProgress),
        Todo::new("Task 3").with_status(TodoStatus::Completed),
    ];
    let formatted = mw.format_todos(&todos);
    assert!(formatted.contains("[ ] Task 1"));
    assert!(formatted.contains("[~] Task 2"));
    assert!(formatted.contains("[x] Task 3"));
    assert_eq!(formatted, "1. [ ] Task 1\n2. [~] Task 2\n3. [x] Task 3");
}

#[test]
fn test_build_system_prompt() {
    let mw = TodoListMiddleware::new();
    let todos = vec![Todo::new("Do something")];
    let prompt = mw.build_system_prompt(&todos);
    assert!(prompt.contains("[ ] Do something"));
    assert!(prompt.contains("working through a task list"));
}

#[test]
fn todo_test_middleware_name() {
    let mw = TodoListMiddleware::new();
    assert_eq!(mw.name(), "TodoListMiddleware");
}

#[test]
fn test_middleware_builder() {
    let mw = TodoListMiddleware::new().with_system_prompt("Custom: {todos}").with_state_key("my_todos");
    assert_eq!(mw.system_prompt, "Custom: {todos}");
    assert_eq!(mw.state_key, "my_todos");
}

#[test]
fn test_defaults() {
    let mw = TodoListMiddleware::new();
    assert_eq!(mw.state_key, "todo_list");
    assert_eq!(TodoStatus::default(), TodoStatus::Pending);
}

#[test]
fn test_system_message_text() {
    let mw = TodoListMiddleware::new().with_system_prompt("Tasks: {todos} / {todos}");
    let todos = vec![Todo::new("A")];
    assert_eq!(mw.system_message_text(None, &todos), "Tasks: 1. [ ] A / 1. [ ] A");
    assert_eq!(mw.system_message_text(Some("Be nice."), &todos), "Be nice.\n\nTasks: 1. [ ] A / 1. [ ] A");
}

#[test]
fn test_check_parallel_calls() {
    let mw = TodoListMiddleware::new();
    let mut ai = Message::ai("");
    ai.tool_calls = vec![
        ToolCall { name: "a".into(), args: "{}".into(), id: None },
        ToolCall { name: "b".into(), args: "{}".into(), id: None },
    ];
    assert_eq!(mw.check_parallel_calls(&[Message::human("hi"), ai]), Some(2));
    let mut single = Message::ai("");
    single.tool_calls = vec![ToolCall { name: "a".into(), args: "{}".into(), id: None }];
    assert_eq!(mw.check_parallel_calls(&[single]), None);
    assert_eq!(mw.check_parallel_calls(&[]), None);
    assert_eq!(mw.check_parallel_calls(&[Message::human("x")]), None);
}

#[test]
fn test_progress() {
    let mw = TodoListMiddleware::new();
    assert_eq!(mw.progress(&[]), None);
    let todos = vec![Todo::new("A").with_status(TodoStatus::Completed), Todo::new("B")];
    assert_eq!(mw.progress(&todos), Some(TodoProgress { completed: 1, total: 2, all_done: false }));
    let done = vec![Todo::new("A").with_status(TodoStatus::Completed)];
    assert_eq!(mw.progress(&done), Some(TodoProgress { completed: 1, total: 1, all_done: true }));
}

fn todo_json(content: &str, status: &str) -> JsonValue {
    JsonValue::Object(vec![
        ("content".to_string(), JsonValue::Str(content.to_string())),
        ("status".to_string(), JsonValue::Str(status.to_string())),
    ])
}

#[test]
fn test_get_todos_from_state() {
    let mw = TodoListMiddleware::new();
    let mut state = AgentState::default();
    state.set_extra("todo_list", JsonValue::Array(vec![todo_json("A", "pending"), todo_json("B", "pending")]));
    let retrieved = mw.get_todos(&state);
    assert_eq!(retrieved.len(), 2);
    assert_eq!(retrieved[0].content, "A");
}

#[test]
fn test_get_todos_empty_state() {
    let mw = TodoListMiddleware::new();
    let state = AgentState::default();
    let todos = mw.get_todos(&state);
    assert!(todos.is_empty());
}

#[test]
fn todos_read_from_json_forms() {
    let t = todo_from_json(&todo_json("x", "in_progress")).unwrap();
    assert_eq!(t.status, TodoStatus::InProgress);
    let pair = JsonValue::Array(vec![JsonValue::Str("y".into()), JsonValue::Str("completed".into())]);
    let t = todo_from_json(&pair).unwrap();
    assert_eq!(t.content, "y");
    assert_eq!(t.status, TodoStatus::Completed);
    assert!(todo_from_json(&todo_json("x", "done")).is_none());
    assert!(todo_from_json(&JsonValue::Str("x".into())).is_none());
    let bad = JsonValue::Array(vec![todo_json("a", "pending"), todo_json("b", "nope")]);
    assert!(todos_from_json(&bad).is_empty());
    assert!(todos_from_json(&JsonValue::Null).is_empty());
}

#[test]
fn todo_after_model_updates() {
    let mw = TodoListMiddleware::new();
    let mut ai = Message::ai("");
    ai.tool_calls = vec![
        ToolCall { name: "a".into(), args: "{}".into(), id: None },
        ToolCall { name: "b".into(), args: "{}".into(), id: None },
    ];
    let mut state = AgentState::new(vec![ai]);
    state.set_extra(
        "todo_list",
        JsonValue::Array(vec![todo_json("A", "completed"), todo_json("B", "pending")]),
    );
    let updates = mw.after_model(&state).unwrap();
    assert_eq!(updates.len(), 2);
    assert_eq!(updates[0].0, "parallel_tool_calls");
    assert_eq!(updates[0].1.to_json_text(), "2");
    assert_eq!(updates[1].0, "todo_progress");
    assert_eq!(updates[1].1.to_json_text(), "{\"all_done\":false,\"completed\":1,\"total\":2}");
    assert!(mw.after_model(&AgentState::default()).is_none());
}
