use ventouse::lang::cpp::compdb::{CompileEntry, extract, flags_from_entries, flags_from_json, shell_split};

#[test]
fn shell_split_handles_quotes_and_escapes() {
    // an adjacent quote concatenates into one token (shell semantics): `-D"X=1 2"` → `-DX=1 2`.
    assert_eq!(shell_split(r#"c++ -I/a b -D"X=1 2""#), ["c++", "-I/a", "b", "-DX=1 2"]);
    assert_eq!(shell_split(r"-I/with\ space x"), ["-I/with space", "x"]);
}

#[test]
fn extract_takes_resolution_flags_and_resolves_relative_dirs() {
    let dir = "/proj/build";
    let args: Vec<String> = [
        "c++", "-c", "-I/abs", "-Irel", "-isystem", "/sys", "-DA=1", "-D", "B", "-std=c++20", "-o", "out.o", "-Wall",
        "main.cpp",
    ]
    .iter()
    .map(|s| s.to_string())
    .collect();
    let mut out = Vec::new();
    extract(&args, dir, &mut out);
    // -I joined, -I relative (→ resolved against dir), -isystem (→ -I), -D joined, -D separated, -std;
    // driver noise (-c, -o out.o, -Wall, main.cpp) dropped.
    assert_eq!(out, ["-I/abs", "-I/proj/build/rel", "-I/sys", "-DA=1", "-DB", "-std=c++20"]);
}

#[test]
fn shell_split_edge_cases() {
    assert!(shell_split("").is_empty());
    assert!(shell_split("   ").is_empty());
    // an empty quoted token is still a token
    assert_eq!(shell_split("a '' b"), ["a", "", "b"]);
    // a trailing backslash is dropped
    assert_eq!(shell_split("a\\"), ["a"]);
    // a quote of the other kind is literal inside quotes
    assert_eq!(shell_split("\"it's\""), ["it's"]);
}

#[test]
fn extract_joins_relative_dirs_without_doubling_slashes() {
    let mut out = Vec::new();
    extract(&["-Iinc".to_string()], "/proj/", &mut out);
    extract(&["-Iinc".to_string()], "", &mut out);
    extract(&["-iquote".to_string(), "q".to_string()], "/d", &mut out);
    // a dangling `-I` / `-D` with no argument is dropped
    extract(&["-I".to_string()], "/d", &mut out);
    extract(&["-D".to_string()], "/d", &mut out);
    assert_eq!(out, ["-I/proj/inc", "-Iinc", "-I/d/q"]);
}

#[test]
fn flags_are_aggregated_across_entries_without_repeats() {
    let entries = vec![
        CompileEntry {
            directory: "/p".to_string(),
            arguments: Some(vec!["c++".to_string(), "-Iinc".to_string(), "-DX".to_string()]),
            command: None,
        },
        CompileEntry { directory: "/p".to_string(), arguments: None, command: Some("c++ -Iinc -DY".to_string()) },
        CompileEntry { directory: "/p".to_string(), arguments: None, command: None },
    ];
    assert_eq!(flags_from_entries(&entries), Some(vec!["-I/p/inc".to_string(), "-DX".to_string(), "-DY".to_string()]));
    let none = vec![CompileEntry { directory: String::new(), arguments: Some(vec!["c++".to_string()]), command: None }];
    assert_eq!(flags_from_entries(&none), None);
}

#[test]
fn database_text_is_read_entry_by_entry() {
    // an `arguments` array (a number in it is skipped), then a `command` string; an entry with
    // neither is skipped; repeats are dropped.
    let text = r#"[
        {"directory": "/proj/build", "arguments": ["c++", "-Irel", 3, "-DA=1"], "file": "a.cpp"},
        {"directory": "/other", "command": "c++ -I/abs -DA=1 -std=c++17", "file": "b.cpp"},
        {"directory": "/x", "file": "c.cpp"}
    ]"#;
    assert_eq!(flags_from_json(text).unwrap(), ["-I/proj/build/rel", "-DA=1", "-I/abs", "-std=c++17"]);
}

#[test]
fn database_without_directory_resolves_against_nothing() {
    let text = r#"[{"arguments": ["-Irel"]}]"#;
    assert_eq!(flags_from_json(text).unwrap(), ["-Irel"]);
}

#[test]
fn database_that_is_not_an_array_or_not_json_gives_none() {
    assert!(flags_from_json(r#"{"directory": "/b"}"#).is_none());
    assert!(flags_from_json("not json").is_none());
    assert!(flags_from_json("[]").is_none());
    assert!(flags_from_json(r#"[{"directory": "/b", "arguments": ["c++", "-c"]}]"#).is_none());
}
