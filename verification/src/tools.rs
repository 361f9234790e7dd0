//! Tool-side components: the shell-command executor's pure logic, the file
//! editing helpers, and the dispatcher that routes a tool invocation to one
//! concrete action. Carrying an action out — touching files, the todo
//! store, or a child process — is the caller's side and stays outside the
//! library.

pub mod executor;
pub mod files;

use vstd::prelude::*;
use vstd::string::StrSliceExecFns;
use vstd::string::StringExecFns;

use crate::json::{
    json_bool_at, json_str_at, json_u64_at, spec_json_bool_at, spec_json_str_at, spec_json_u64_at,
};
use crate::strutil::str_equal;

verus! {

/// One tool invocation, resolved to the values its performer needs.
#[derive(Debug)]
pub enum ToolAction {
    WriteFile { path: String, content: String },
    ReadFile { path: String, show_line_numbers: Option<bool>, line_start: Option<u64>, line_count: Option<u64> },
    AddTodoTask { name: String, task: String },
    CompleteTodoTask { name: String, task: String },
    DeleteTodoTask { name: String, task: String },
    GetTodoLists,
    GetTodoTasks { name: String },
    Execute { command: String },
}

/// Mathematical image of a `ToolAction`.
pub ghost enum ToolActionV {
    WriteFile { path: Seq<char>, content: Seq<char> },
    ReadFile {
        path: Seq<char>,
        show_line_numbers: Option<bool>,
        line_start: Option<u64>,
        line_count: Option<u64>,
    },
    AddTodoTask { name: Seq<char>, task: Seq<char> },
    CompleteTodoTask { name: Seq<char>, task: Seq<char> },
    DeleteTodoTask { name: Seq<char>, task: Seq<char> },
    GetTodoLists,
    GetTodoTasks { name: Seq<char> },
    Execute { command: Seq<char> },
}

impl View for ToolAction {
    type V = ToolActionV;

    open spec fn view(&self) -> ToolActionV {
        match self {
            ToolAction::WriteFile { path, content } => ToolActionV::WriteFile {
                path: path@,
                content: content@,
            },
            ToolAction::ReadFile { path, show_line_numbers, line_start, line_count } => {
                ToolActionV::ReadFile {
                    path: path@,
                    show_line_numbers: *show_line_numbers,
                    line_start: *line_start,
                    line_count: *line_count,
                }
            },
            ToolAction::AddTodoTask { name, task } => ToolActionV::AddTodoTask {
                name: name@,
                task: task@,
            },
            ToolAction::CompleteTodoTask { name, task } => ToolActionV::CompleteTodoTask {
                name: name@,
                task: task@,
            },
            ToolAction::DeleteTodoTask { name, task } => ToolActionV::DeleteTodoTask {
                name: name@,
                task: task@,
            },
            ToolAction::GetTodoLists => ToolActionV::GetTodoLists,
            ToolAction::GetTodoTasks { name } => ToolActionV::GetTodoTasks { name: name@ },
            ToolAction::Execute { command } => ToolActionV::Execute { command: command@ },
        }
    }
}

/// The message refusing a call whose arguments lack a required field.
pub open spec fn spec_missing(field: Seq<char>, function_name: Seq<char>) -> Seq<char> {
    "Missing '"@ + field + "' for "@ + function_name
}

/// The name-and-task pair the todo tools need, or the error text for the
/// first missing one.
pub open spec fn spec_todo_pair(args: Seq<char>, function_name: Seq<char>) -> Result<
    (Seq<char>, Seq<char>),
    Seq<char>,
> {
    match spec_json_str_at(args, "/name"@) {
        None => Err(spec_missing("name"@, function_name)),
        Some(name) => match spec_json_str_at(args, "/task"@) {
            None => Err(spec_missing("task"@, function_name)),
            Some(task) => Ok((name, task)),
        },
    }
}

/// What a tool invocation resolves to: the routed action with its argument
/// fields, or the error string the caller reports.
pub open spec fn spec_plan(function_name: Seq<char>, args: Seq<char>) -> Result<
    ToolActionV,
    Seq<char>,
> {
    if function_name == "write"@ {
        match spec_json_str_at(args, "/path"@) {
            None => Err(spec_missing("path"@, function_name)),
            Some(path) => match spec_json_str_at(args, "/content"@) {
                None => Err(spec_missing("content"@, function_name)),
                Some(content) => Ok(ToolActionV::WriteFile { path, content }),
            },
        }
    } else if function_name == "read"@ {
        match spec_json_str_at(args, "/path"@) {
            None => Err(spec_missing("path"@, function_name)),
            Some(path) => Ok(
                ToolActionV::ReadFile {
                    path,
                    show_line_numbers: spec_json_bool_at(args, "/show_line_numbers"@),
                    line_start: spec_json_u64_at(args, "/line_start"@),
                    line_count: spec_json_u64_at(args, "/line_count"@),
                },
            ),
        }
    } else if function_name == "add_todo_task"@ {
        match spec_todo_pair(args, function_name) {
            Err(e) => Err(e),
            Ok((name, task)) => Ok(ToolActionV::AddTodoTask { name, task }),
        }
    } else if function_name == "complete_todo_task"@ {
        match spec_todo_pair(args, function_name) {
            Err(e) => Err(e),
            Ok((name, task)) => Ok(ToolActionV::CompleteTodoTask { name, task }),
        }
    } else if function_name == "delete_todo_task"@ {
        match spec_todo_pair(args, function_name) {
            Err(e) => Err(e),
            Ok((name, task)) => Ok(ToolActionV::DeleteTodoTask { name, task }),
        }
    } else if function_name == "get_todo_lists"@ {
        Ok(ToolActionV::GetTodoLists)
    } else if function_name == "get_todo_tasks"@ {
        match spec_json_str_at(args, "/name"@) {
            None => Err(spec_missing("name"@, function_name)),
            Some(name) => Ok(ToolActionV::GetTodoTasks { name }),
        }
    } else if function_name == "execute"@ {
        match spec_json_str_at(args, "/command"@) {
            None => Err(spec_missing("command"@, function_name)),
            Some(command) => Ok(ToolActionV::Execute { command }),
        }
    } else {
        Err("Unknown function: "@ + function_name)
    }
}

/// Routes a tool name and its JSON argument payload to one action.
pub struct Dispatcher {}

fn missing(field: &str, function_name: &str) -> (r: String)
    ensures
        r@ == spec_missing(field@, function_name@),
{
    let mut s = String::new();
    s.append("Missing '");
    s.append(field);
    s.append("' for ");
    s.append(function_name);
    s
}

fn todo_pair(args: &str, function_name: &str) -> (r: Result<(String, String), String>)
    ensures
        match spec_todo_pair(args@, function_name@) {
            Ok((name, task)) => r matches Ok(p) && p.0@ == name && p.1@ == task,
            Err(e) => r matches Err(msg) && msg@ == e,
        },
{
    let name = match json_str_at(args, "/name") {
        Some(v) => v,
        None => {
            return Err(missing("name", function_name));
        },
    };
    let task = match json_str_at(args, "/task") {
        Some(v) => v,
        None => {
            return Err(missing("task", function_name));
        },
    };
    Ok((name, task))
}

impl Dispatcher {
    /// Resolves one tool invocation: which tool runs, with which argument
    /// values, or the error string for an unknown name or missing field.
    pub fn plan(function_name: &str, arguments: &str) -> (r: Result<ToolAction, String>)
        ensures
            match spec_plan(function_name@, arguments@) {
                Ok(a) => r matches Ok(act) && act@ == a,
                Err(e) => r matches Err(msg) && msg@ == e,
            },
    {
        if str_equal(function_name, "write") {
            let path = match json_str_at(arguments, "/path") {
                Some(v) => v,
                None => {
                    return Err(missing("path", function_name));
                },
            };
            let content = match json_str_at(arguments, "/content") {
                Some(v) => v,
                None => {
                    return Err(missing("content", function_name));
                },
            };
            Ok(ToolAction::WriteFile { path, content })
        } else if str_equal(function_name, "read") {
            let path = match json_str_at(arguments, "/path") {
                Some(v) => v,
                None => {
                    return Err(missing("path", function_name));
                },
            };
            Ok(
                ToolAction::ReadFile {
                    path,
                    show_line_numbers: json_bool_at(arguments, "/show_line_numbers"),
                    line_start: json_u64_at(arguments, "/line_start"),
                    line_count: json_u64_at(arguments, "/line_count"),
                },
            )
        } else if str_equal(function_name, "add_todo_task") {
            match todo_pair(arguments, function_name) {
                Ok((name, task)) => Ok(ToolAction::AddTodoTask { name, task }),
                Err(e) => Err(e),
            }
        } else if str_equal(function_name, "complete_todo_task") {
            match todo_pair(arguments, function_name) {
                Ok((name, task)) => Ok(ToolAction::CompleteTodoTask { name, task }),
                Err(e) => Err(e),
            }
        } else if str_equal(function_name, "delete_todo_task") {
            match todo_pair(arguments, function_name) {
                Ok((name, task)) => Ok(ToolAction::DeleteTodoTask { name, task }),
                Err(e) => Err(e),
            }
        } else if str_equal(function_name, "get_todo_lists") {
            Ok(ToolAction::GetTodoLists)
        } else if str_equal(function_name, "get_todo_tasks") {
            match json_str_at(arguments, "/name") {
                Some(name) => Ok(ToolAction::GetTodoTasks { name }),
                None => Err(missing("name", function_name)),
            }
        } else if str_equal(function_name, "execute") {
            match json_str_at(arguments, "/command") {
                Some(command) => Ok(ToolAction::Execute { command }),
                None => Err(missing("command", function_name)),
            }
        } else {
            let mut e = String::new();
            e.append("Unknown function: ");
            e.append(function_name);
            Err(e)
        }
    }
}

} // verus!
