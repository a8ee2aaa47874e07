//! The Python frontend's edges: a module that did not parse is one finding, and a module's
//! name and `<module>` entity come from its file and first statement.

use ventouse::engine::finding::Category;
use ventouse::lang::python::syntax::{Module, Params, Stmt};
use ventouse::lang::python::{analyze_source, extract, scope_of, warnings_of};

fn def(name: &str, line: u32, body: Vec<Stmt>) -> Stmt {
    Stmt::FunctionDef {
        name: name.to_string(),
        line,
        decorators: vec![],
        params: Params { plain: vec![], vararg: None, kwarg: None },
        body,
    }
}

#[test]
fn python_parse_error_is_one_finding() {
    let r = analyze_source(Err("invalid syntax".to_string()), "bad.py", &Default::default()).unwrap();
    assert_eq!(r.len(), 1);
    assert!(r[0].category == Category::ParseError);
    assert_eq!(r[0].file, "bad.py");
    assert_eq!(scope_of(Err("x".to_string())), Some(0));
    assert_eq!(warnings_of(Err("x".to_string())), Some(0));
}

#[test]
fn python_module_name_and_module_entity() {
    // the `<module>` entity sits at the first statement's line; `./pkg/a.py` is module `pkg.a`
    let m = Module { body: vec![def("f", 3, vec![Stmt::Return(None)])], first_line: Some(3) };
    let raw = extract(&m, "./pkg/a.py").unwrap();
    assert_eq!(raw.module, "pkg.a");
    assert_eq!(raw.file, "./pkg/a.py");
    let last = raw.entities.last().unwrap();
    assert_eq!(last.qualname, "<module>");
    assert_eq!(last.line, 3);
    let empty = extract(&Module { body: vec![], first_line: None }, "e.py").unwrap();
    assert_eq!(empty.entities.last().unwrap().line, 1);
}
