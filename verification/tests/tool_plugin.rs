use mochiclaw::fs_lambda::{
    error_output, get_string_arg, lambda_function, parse_fs_tool_call, tool_output, workspace_or_default,
    write_reply, write_status, ArgValue, FsLambdaRoute, FsToolCall,
};
use mochiclaw::sdk::Action;
use mochiclaw::strmap::StrMap;

fn args(pairs: Vec<(&str, ArgValue)>) -> StrMap<ArgValue> {
    let mut m = StrMap::new();
    for (k, v) in pairs {
        m.insert(k.to_string(), v);
    }
    m
}

#[test]
fn test_parse_read_with_defaults() {
    let a = args(vec![("path", ArgValue::Text("notes.md".to_string()))]);
    match parse_fs_tool_call("read_file", &a) {
        Ok(FsToolCall::Read { path, offset, limit }) => {
            assert_eq!(path, "notes.md");
            assert_eq!(offset, 1);
            assert_eq!(limit, 2000);
        }
        _ => panic!("expected a read"),
    }
    let b = args(vec![
        ("path", ArgValue::Text("d".to_string())),
        ("recursive", ArgValue::Flag(true)),
        ("max_entries", ArgValue::Unsigned(5)),
    ]);
    match parse_fs_tool_call("list_dir", &b) {
        Ok(FsToolCall::List { path, recursive, max_entries }) => {
            assert_eq!(path, "d");
            assert!(recursive);
            assert_eq!(max_entries, 5);
        }
        _ => panic!("expected a listing"),
    }
}

#[test]
fn test_parse_errors() {
    let a = args(vec![("path", ArgValue::Unsigned(3))]);
    assert!(matches!(parse_fs_tool_call("read_file", &a), Err(e) if e == "Missing or invalid argument: path"));
    let w = args(vec![("path", ArgValue::Text("f".to_string()))]);
    assert!(matches!(parse_fs_tool_call("write_file", &w), Err(e) if e == "Missing or invalid argument: content"));
    assert!(matches!(parse_fs_tool_call("edit_file", &w), Err(e) if e == "Missing or invalid argument: old_text"));
    assert!(matches!(
        parse_fs_tool_call("shell", &w),
        Err(e) if e == "Unknown tool: 'shell'. Available tools: read_file, write_file, edit_file, list_dir"
    ));
    assert_eq!(get_string_arg(&w, "path"), Ok("f".to_string()));
}

#[test]
fn test_write_status_and_replies() {
    assert_eq!(write_status(0), Ok(true));
    assert_eq!(write_status(-1), Err("Write failed".to_string()));
    assert_eq!(write_status(1), Err("Unexpected return code: 1".to_string()));
    assert_eq!(write_status(-7), Err("Unexpected return code: -7".to_string()));
    assert_eq!(write_reply(Ok(true)), Ok("File written successfully".to_string()));
    assert_eq!(write_reply(Ok(false)), Err("Write failed".to_string()));
    let e = error_output("boom".to_string());
    assert_eq!(e.result, "");
    assert_eq!(e.error, Some("boom".to_string()));
    let ok = tool_output(Ok("done".to_string()));
    assert_eq!(ok.result, "done");
    assert_eq!(ok.error, None);
    assert_eq!(workspace_or_default(None), ".");
    assert_eq!(workspace_or_default(Some("/w".to_string())), "/w");
}

#[test]
fn test_lambda_function_routes() {
    assert!(matches!(lambda_function(Action::GetTools), FsLambdaRoute::ListTools));
    assert!(matches!(lambda_function(Action::ExecuteTool), FsLambdaRoute::RunTool));
    match lambda_function(Action::Chat) {
        FsLambdaRoute::Unsupported(r) => {
            assert_eq!(r.error, Some("fs lambda only supports GetTools and ExecuteTool".to_string()))
        }
        _ => panic!("expected a refusal"),
    }
}
