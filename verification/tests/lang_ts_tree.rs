//! The TypeScript/JavaScript frontend from a syntax tree built by hand (the source it stands for
//! is in the comment above each test): its scope debt or its declare-before-use warnings.

use ventouse::engine::{Category, Finding, Reason};
use ventouse::lang::ts::syntax::{
    Arrow, Class, ClassElement, Decl, Declarator, Expr, Function, JsxAttr, JsxChild, JsxElement, JsxExpr, Name, Params,
    Pattern, Program, Stmt, VarDecl,
};
use ventouse::lang::ts::{analyze_parsed, extract_parsed, scope_of_parsed, warnings_of_parsed};

fn name(n: &str, line: u32) -> Name {
    Name { name: n.to_string(), line }
}

fn ident(n: &str, line: u32) -> Expr {
    Expr::Ident(name(n, line))
}

fn call(f: Expr, args: Vec<Expr>) -> Expr {
    Expr::Call { callee: Box::new(f), args }
}

fn const_decl(n: &str, line: u32, init: Expr) -> Stmt {
    Stmt::Var(VarDecl { declarations: vec![Declarator { id: Pattern::Ident(name(n, line)), line, init: Some(init) }] })
}

fn params(ps: &[(&str, u32)]) -> Params {
    Params { items: ps.iter().map(|(p, l)| Pattern::Ident(name(p, *l))).collect(), rest: None }
}

fn function(n: &str, line: u32, ps: &[(&str, u32)], body: Vec<Stmt>) -> Function {
    Function { id: Some(name(n, line)), params: params(ps), body: Some(body) }
}

fn program(body: Vec<Stmt>) -> Result<Program, String> {
    Ok(Program { body, first_line: Some(1) })
}

#[test]
fn levels_value_used_one_block_deeper_from_tree() {
    // function f(flag: boolean) {
    //   const x = compute();
    //   if (flag) {
    //     return use(x);
    //   }
    // }
    let body = vec![
        const_decl("x", 2, call(ident("compute", 2), vec![])),
        Stmt::If {
            test: ident("flag", 3),
            consequent: Box::new(Stmt::Block(vec![Stmt::Return(Some(call(ident("use", 4), vec![ident("x", 4)])))])),
            alternate: None,
        },
    ];
    let p = program(vec![Stmt::Function(function("f", 1, &[("flag", 1)], body))]);
    assert_eq!(scope_of_parsed(p), Some(10));
}

#[test]
fn tight_value_scores_zero_from_tree() {
    // function f() {
    //   const x = compute();
    //   return use(x);
    // }
    let body = vec![
        const_decl("x", 2, call(ident("compute", 2), vec![])),
        Stmt::Return(Some(call(ident("use", 3), vec![ident("x", 3)]))),
    ];
    assert_eq!(scope_of_parsed(program(vec![Stmt::Function(function("f", 1, &[], body))])), Some(0));
}

#[test]
fn forward_reference_between_functions_from_tree() {
    // function caller() { return leaf(); }
    // function leaf() { return 1; }
    let p = program(vec![
        Stmt::Function(function("caller", 1, &[], vec![Stmt::Return(Some(call(ident("leaf", 1), vec![])))])),
        Stmt::Function(function("leaf", 2, &[], vec![Stmt::Return(Some(Expr::Other))])),
    ]);
    assert_eq!(warnings_of_parsed(p), Some(1));
}

#[test]
fn class_method_forward_reference_via_this_from_tree() {
    // class C {
    //   a() { return this.b(); }
    //   b() { return 1; }
    // }
    let this_b = Expr::StaticMember { object: Box::new(Expr::This), property: name("b", 2) };
    let a = ClassElement::Method {
        key: Some(name("a", 2)),
        line: 2,
        value: Function { id: None, params: params(&[]), body: Some(vec![Stmt::Return(Some(call(this_b, vec![])))]) },
    };
    let b = ClassElement::Method {
        key: Some(name("b", 3)),
        line: 3,
        value: Function { id: None, params: params(&[]), body: Some(vec![Stmt::Return(Some(Expr::Other))]) },
    };
    let c = Class { id: Some(name("C", 1)), line: 1, super_class: None, body: vec![a, b] };
    assert_eq!(warnings_of_parsed(program(vec![Stmt::Class(c)])), Some(1));
}

#[test]
fn arrow_const_is_named_after_its_binding_from_tree() {
    // const App = () => { return helper(); };
    let arrow = Arrow { params: params(&[]), body: vec![Stmt::Return(Some(call(ident("helper", 1), vec![])))] };
    let p = Program { body: vec![const_decl("App", 1, Expr::Arrow(arrow))], first_line: Some(1) };
    let raw = extract_parsed(&p, "src/ui/App.tsx").unwrap();
    assert_eq!(raw.module, "ui.App");
    assert!(raw.entities.iter().any(|e| e.qualname == "App"));
    assert!(!raw.entities.iter().any(|e| e.qualname.contains("<arrow>")));
}

#[test]
fn jsx_component_tag_is_a_reference_from_tree() {
    // function App() { return <Panel />; }
    // function Panel() { return 1; }
    let jsx = Expr::Jsx(JsxElement { name: Some(name("Panel", 1)), attrs: vec![], children: vec![JsxChild::Text] });
    let p = program(vec![
        Stmt::Function(function("App", 1, &[], vec![Stmt::Return(Some(jsx))])),
        Stmt::Function(function("Panel", 2, &[], vec![Stmt::Return(Some(Expr::Other))])),
    ]);
    assert_eq!(warnings_of_parsed(p), Some(1));
}

fn findings(p: Result<Program, String>, file: &str) -> Vec<Finding> {
    analyze_parsed(p, file, &Default::default()).unwrap()
}

/// function f() {          (line 1)
///   const <first> = <init>();
///   const a = j1();  const b = j2();  const c = j3();    (lines 3-5, `one`/`two`/`three` when
///   <use>;                                                 `log` is read on line 6)
///   return run(<first>);
/// }
fn scattered(first: &str, init: &str, junk: [&str; 3], log_line: Option<u32>) -> Result<Program, String> {
    let mut body = vec![
        const_decl(first, 2, call(ident(init, 2), vec![])),
        const_decl("a", 3, call(ident(junk[0], 3), vec![])),
        const_decl("b", 4, call(ident(junk[1], 4), vec![])),
        const_decl("c", 5, call(ident(junk[2], 5), vec![])),
    ];
    let ret_line = match log_line {
        Some(l) => {
            body.push(Stmt::Expr(call(ident("log", l), vec![ident("a", l), ident("b", l), ident("c", l)])));
            l + 1
        }
        None => 6,
    };
    body.push(Stmt::Return(Some(call(ident("run", ret_line), vec![ident(first, ret_line)]))));
    program(vec![Stmt::Function(function("f", 1, &[], body))])
}

#[test]
fn reorder_three_unrelated_defs_between_binding_and_use_from_tree() {
    // function f() {
    //   const q = setup();
    //   const a = one();
    //   const b = two();
    //   const c = three();
    //   log(a, b, c);
    //   return run(q);
    // }
    let src = || scattered("q", "setup", ["one", "two", "three"], Some(6));
    assert_eq!(scope_of_parsed(src()), Some(30)); // Misplaced(3)
    let fs = findings(src(), "t.ts");
    assert!(fs.iter().any(|f| matches!(f.reason, Reason::ReorderBinding { .. })), "a scattered local must get a ReorderBinding suggestion");
}

#[test]
fn definition_wedged_from_its_dependency_from_tree() {
    // const GRAVITY = 9.81;
    // function noise() { return 0; }
    // function weight(m: number) { return m * GRAVITY; }
    let p = program(vec![
        const_decl("GRAVITY", 1, Expr::Other),
        Stmt::Function(function("noise", 2, &[], vec![Stmt::Return(Some(Expr::Other))])),
        Stmt::Function(function(
            "weight",
            3,
            &[("m", 3)],
            vec![Stmt::Return(Some(Expr::Binary(Box::new(ident("m", 3)), Box::new(ident("GRAVITY", 3)))))],
        )),
    ]);
    let f = findings(p, "t.ts");
    assert!(f.iter().any(|x| x.entity == "weight" && matches!(x.reason, Reason::Misplaced(1))));
}

#[test]
fn arrow_assigned_to_const_is_a_named_definition_from_tree() {
    // const caller = () => leaf();
    // function leaf() { return 1; }
    // the forward reference to `leaf` counts for `caller`: the arrow became a named scope
    let arrow = Arrow { params: params(&[]), body: vec![Stmt::Expr(call(ident("leaf", 1), vec![]))] };
    let p = program(vec![
        const_decl("caller", 1, Expr::Arrow(arrow)),
        Stmt::Function(function("leaf", 2, &[], vec![Stmt::Return(Some(Expr::Other))])),
    ]);
    let f = findings(p, "t.ts");
    assert!(f.iter().any(|x| x.entity == "caller" && matches!(x.reason, Reason::ForwardRef { .. })));
}

#[test]
fn react_hook_result_is_not_flagged_for_reorder_from_tree() {
    // function Comp() {
    //   const x = useState();      (or `plainCall()`)
    //   const a = j1();
    //   const b = j2();
    //   const c = j3();
    //   return run(x);
    // }
    let comp = |init: &str| {
        let p = scattered("x", init, ["j1", "j2", "j3"], None);
        p.map(|mut prog| {
            if let Stmt::Function(f) = &mut prog.body[0] {
                f.id = Some(name("Comp", 1));
            }
            prog
        })
    };
    assert_eq!(scope_of_parsed(comp("useState")), Some(0), "a hook result is positionally pinned → no wedge debt");
    assert_eq!(scope_of_parsed(comp("plainCall")), Some(30), "a plain local with the same shape IS flagged");
}

fn warnings_of_file(p: Result<Program, String>, file: &str) -> usize {
    findings(p, file).iter().filter(|f| f.category == Category::DeclBeforeUse).count()
}

#[test]
fn jsx_component_reference_participates_in_declare_order_from_tree() {
    // function App() {
    //   return <Helper />;
    // }
    // function Helper() {
    //   return null;
    // }
    let jsx = Expr::Jsx(JsxElement { name: Some(name("Helper", 2)), attrs: vec![], children: vec![] });
    let p = program(vec![
        Stmt::Function(function("App", 1, &[], vec![Stmt::Return(Some(jsx))])),
        Stmt::Function(function("Helper", 4, &[], vec![Stmt::Return(Some(Expr::Other))])),
    ]);
    assert_eq!(warnings_of_file(p, "App.tsx"), 1);
}

#[test]
fn jsx_expression_container_references_are_seen_from_tree() {
    // function App() {
    //   return <button onClick={handleClick} />;
    // }
    // function handleClick() {}
    let jsx = Expr::Jsx(JsxElement {
        name: None,
        attrs: vec![JsxAttr::Container(JsxExpr::Expr(ident("handleClick", 2)))],
        children: vec![],
    });
    let p = program(vec![
        Stmt::Function(function("App", 1, &[], vec![Stmt::Return(Some(jsx))])),
        Stmt::Function(function("handleClick", 4, &[], vec![])),
    ]);
    assert_eq!(warnings_of_file(p, "App.tsx"), 1);
}

#[test]
fn parses_a_realistic_tsx_component_without_error_from_tree() {
    // import React, { useState } from 'react';
    // export const Counter = ({ start }: { start: number }) => {
    //   const [n, setN] = useState(start);
    //   const inc = () => setN(n + 1);
    //   return <button onClick={inc}>{n}</button>;
    // };
    let state = Stmt::Var(VarDecl {
        declarations: vec![Declarator {
            id: Pattern::Array(vec![Pattern::Ident(name("n", 3)), Pattern::Ident(name("setN", 3))], None),
            line: 3,
            init: Some(call(ident("useState", 3), vec![ident("start", 3)])),
        }],
    });
    let inc = const_decl(
        "inc",
        4,
        Expr::Arrow(Arrow {
            params: params(&[]),
            body: vec![Stmt::Expr(call(ident("setN", 4), vec![Expr::Binary(Box::new(ident("n", 4)), Box::new(Expr::Other))]))],
        }),
    );
    let button = Expr::Jsx(JsxElement {
        name: None,
        attrs: vec![JsxAttr::Container(JsxExpr::Expr(ident("inc", 5)))],
        children: vec![JsxChild::Container(JsxExpr::Expr(ident("n", 5)))],
    });
    let counter = Arrow {
        params: Params { items: vec![Pattern::Object(vec![Pattern::Ident(name("start", 2))], None)], rest: None },
        body: vec![state, inc, Stmt::Return(Some(button))],
    };
    let export = Stmt::ExportNamed(Some(Decl::Var(VarDecl {
        declarations: vec![Declarator { id: Pattern::Ident(name("Counter", 2)), line: 2, init: Some(Expr::Arrow(counter)) }],
    })));
    let p = program(vec![Stmt::Import(Some(vec![name("React", 1), name("useState", 1)])), export]);
    assert!(!findings(p, "Counter.tsx").iter().any(|f| f.category == Category::ParseError));
}
