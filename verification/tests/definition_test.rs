use thunder_agent::daemon::ask_user::{ask_user_definition, Json};
use thunder_agent::tools::builtin::{BashTool, FindTool, GrepTool, ListDirTool, ReadFileTool, WriteFileTool};
use thunder_agent::tools::schema::ToolDefinition;

fn value(j: &Json) -> serde_json::Value {
    match j {
        Json::Null => serde_json::Value::Null,
        Json::Bool(b) => serde_json::Value::Bool(*b),
        Json::Number(n) => serde_json::from_str(n).unwrap(),
        Json::Str(s) => serde_json::Value::String(s.clone()),
        Json::Array(items) => serde_json::Value::Array(items.iter().map(value).collect()),
        Json::Object(entries) => {
            let mut m = serde_json::Map::new();
            for (k, v) in entries {
                m.insert(k.clone(), value(v));
            }
            serde_json::Value::Object(m)
        }
    }
}

fn check(d: &ToolDefinition, name: &str, params: &str) {
    assert_eq!(d.tool_type, "function");
    assert_eq!(d.function.name, name);
    assert!(d.function.strict.is_none());
    let expected: serde_json::Value = serde_json::from_str(params).unwrap();
    assert_eq!(value(&d.function.parameters), expected);
}

#[test]
fn grep_definition_schema() {
    let d = GrepTool::new().definition();
    check(
        &d,
        "grep",
        r#"{"type":"object","properties":{
            "pattern":{"type":"string","description":"Search pattern (regex or literal string)"},
            "path":{"type":"string","description":"Directory or file to search (default: current directory)"},
            "glob":{"type":"string","description":"Filter files by glob pattern, e.g. '*.ts' or '**/*.spec.ts'"},
            "ignoreCase":{"type":"boolean","description":"Case-insensitive search (default: false)"},
            "literal":{"type":"boolean","description":"Treat pattern as literal string instead of regex (default: false)"},
            "context":{"type":"integer","description":"Number of lines to show before and after each match (default: 0)"},
            "limit":{"type":"integer","description":"Maximum number of matches to return (default: 100)"}
        },"required":["pattern"]}"#,
    );
    assert!(d.function.description.starts_with("Search file contents for a pattern."));
}

#[test]
fn file_tool_definitions() {
    check(
        &ReadFileTool::new().definition(),
        "read_file",
        r#"{"type":"object","properties":{
            "path":{"type":"string","description":"Path to the file to read."},
            "offset":{"type":"integer","description":"Line number to start reading from (1-indexed)."},
            "limit":{"type":"integer","description":"Maximum number of lines to read."}
        },"required":["path"]}"#,
    );
    check(
        &WriteFileTool::new().definition(),
        "write_file",
        r#"{"type":"object","properties":{
            "path":{"type":"string","description":"File path."},
            "content":{"type":"string","description":"File content string."}
        },"required":["path","content"]}"#,
    );
    check(
        &ListDirTool::new().definition(),
        "ls",
        r#"{"type":"object","properties":{
            "path":{"type":"string","description":"Directory to list (default: current directory)"}
        },"required":[]}"#,
    );
    check(
        &FindTool::new().definition(),
        "find",
        r#"{"type":"object","properties":{
            "pattern":{"type":"string","description":"Glob pattern to match files, e.g. '*.ts', '**/*.json', or 'src/**/*.spec.ts'"},
            "path":{"type":"string","description":"Directory to search in (default: current directory)"},
            "limit":{"type":"integer","description":"Maximum number of results (default: 1000)"}
        },"required":["pattern"]}"#,
    );
    let bash = BashTool::new(1024).definition();
    check(
        &bash,
        "bash",
        r#"{"type":"object","properties":{
            "command":{"type":"string","description":"The shell command to execute."}
        },"required":["command"]}"#,
    );
    assert_eq!(
        bash.function.description,
        "Execute a bash shell command and capture standard output and standard error."
    );
}

#[test]
fn ask_user_definition_schema() {
    let d = ask_user_definition();
    check(
        &d,
        "ask_user_question",
        r#"{"type":"object","properties":{"questions":{
            "type":"array","description":"Questions to present to the user.",
            "items":{"type":"object","properties":{
                "question":{"type":"string","description":"The question text."},
                "header":{"type":"string","description":"Short label."},
                "multiSelect":{"type":"boolean","description":"Allow multiple selections."},
                "options":{"type":"array","description":"Selectable options. Omit for free-form answers.",
                    "items":{"type":"object","properties":{
                        "label":{"type":"string"},"description":{"type":"string"}
                    },"required":["label"]}}
            },"required":["question"]}
        }},"required":["questions"]}"#,
    );
    assert_eq!(
        d.function.description,
        "Ask the user one or more clarifying questions and wait for their answer. Use this instead of guessing when a decision materially changes the outcome."
    );
}
