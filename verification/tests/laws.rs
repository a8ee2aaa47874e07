//! The library's laws on concrete values: the reading convention moves only the declare-order
//! warnings, the per-file rollup adds up to the headline total, a project's findings come out
//! sorted by (file, line, entity), only values carry scope debt, and a name bound twice keeps
//! its first binding.

use ventouse::engine::{Category, DeclOrder, EntityKind, Finding, Reason, Severity, Weights};
use ventouse::lang::python::syntax::{Ctx, Expr, Module, Params, Stmt};
use ventouse::lang::python::{analyze_project, analyze_source};
use ventouse::render::summarize;

fn load(id: &str, line: u32) -> Expr {
    Expr::Name { id: id.to_string(), ctx: Ctx::Load, line }
}

fn def(name: &str, line: u32, body: Vec<Stmt>) -> Stmt {
    Stmt::FunctionDef {
        name: name.to_string(),
        line,
        decorators: vec![],
        params: Params { plain: vec![], vararg: None, kwarg: None },
        body,
    }
}

/// def f():            (line 1)
///     x = 1
///     return g() + x
///
/// def g():            (line 5)
///     return 1
fn caller_above_callee() -> Module {
    let call_g = Expr::Call { func: Box::new(load("g", 3)), args: vec![], keywords: vec![] };
    Module {
        body: vec![
            def(
                "f",
                1,
                vec![
                    Stmt::Assign { targets: vec![Expr::Name { id: "x".to_string(), ctx: Ctx::Store, line: 2 }], value: Expr::Other },
                    Stmt::Return(Some(Expr::BinOp(Box::new(call_g), Box::new(load("x", 3))))),
                ],
            ),
            def("g", 5, vec![Stmt::Return(Some(Expr::Other))]),
        ],
        first_line: Some(1),
    }
}

fn count(fs: &[Finding], c: Category) -> usize {
    fs.iter().filter(|f| f.category == c).count()
}

fn debt(fs: &[Finding]) -> u32 {
    fs.iter().filter(|f| f.category == Category::ScopeDebt).map(|f| f.score).sum()
}

#[test]
fn the_convention_moves_only_declare_order() {
    let bottom_up = Weights::default();
    let top_down = Weights { order: DeclOrder::TopDown, ..Weights::default() };
    let a = analyze_source(Ok(caller_above_callee()), "m.py", &bottom_up).unwrap();
    let b = analyze_source(Ok(caller_above_callee()), "m.py", &top_down).unwrap();
    // bottom-up wants `g` above `f`; top-down is content with it below
    assert_eq!(count(&a, Category::DeclBeforeUse), 1);
    assert_eq!(count(&b, Category::DeclBeforeUse), 0);
    assert_eq!(debt(&a), debt(&b));
    let rest = |fs: &[Finding]| -> Vec<Finding> { fs.iter().filter(|f| f.category != Category::DeclBeforeUse).cloned().collect() };
    assert_eq!(rest(&a), rest(&b));
}

fn scope(file: &str, line: u32, score: u32) -> Finding {
    Finding {
        file: file.to_string(),
        line,
        entity: "f.x".to_string(),
        entity_kind: EntityKind::Binding,
        category: Category::ScopeDebt,
        severity: Severity::Info,
        score,
        reason: Reason::ExcessLevels(1),
    }
}

#[test]
fn the_file_rollup_adds_up_to_the_total() {
    let fs = vec![scope("b.py", 3, 10), scope("a.py", 1, 20), scope("b.py", 9, 30), scope("c.py", 2, 0)];
    let s = summarize(&fs);
    assert_eq!(s.scope_total, 60);
    let per_file: u32 = s.per_file.iter().map(|(_, n)| *n).sum();
    assert_eq!(per_file, s.scope_total);
    assert_eq!(s.per_file, vec![("b.py".to_string(), 40), ("a.py".to_string(), 20), ("c.py".to_string(), 0)]);
}

#[test]
fn project_findings_come_out_sorted() {
    let files = vec![
        ("z.py".to_string(), Ok(caller_above_callee())),
        ("bad.py".to_string(), Err("invalid syntax".to_string())),
        ("a.py".to_string(), Ok(caller_above_callee())),
    ];
    let fs = analyze_project(files, &Weights::default()).unwrap();
    assert!(fs.iter().any(|f| f.category == Category::ParseError && f.file == "bad.py"));
    for w in fs.windows(2) {
        let (x, y) = (&w[0], &w[1]);
        assert!((x.file.as_str(), x.line, x.entity.as_str()) <= (y.file.as_str(), y.line, y.entity.as_str()));
    }
}

/// def f():            (line 1)
///     <helper>        (line 2: `def helper(): ...` or `helper = 1`)
///     if flag:
///         print(helper)
fn helper_above_its_block(as_function: bool) -> Module {
    let helper = if as_function {
        def("helper", 2, vec![Stmt::Return(Some(Expr::Other))])
    } else {
        Stmt::Assign { targets: vec![Expr::Name { id: "helper".to_string(), ctx: Ctx::Store, line: 2 }], value: Expr::Other }
    };
    let print = Stmt::Expr(Expr::Call { func: Box::new(load("print", 5)), args: vec![load("helper", 5)], keywords: vec![] });
    Module {
        body: vec![def("f", 1, vec![helper, Stmt::If { test: load("flag", 4), body: vec![print], clauses: vec![] }])],
        first_line: Some(1),
    }
}

#[test]
fn only_values_carry_scope_debt() {
    let w = Weights::default();
    let as_function = analyze_source(Ok(helper_above_its_block(true)), "m.py", &w).unwrap();
    let as_value = analyze_source(Ok(helper_above_its_block(false)), "m.py", &w).unwrap();
    // a nested function declared above the block that uses it is free of nesting...
    assert_eq!(count(&as_function, Category::ScopeDebt), 0);
    // ...while a value in the same place is narrowed into the block
    assert_eq!(debt(&as_value), 10);
}

/// def f():            (line 1)
///     x = 1
///     if flag:
///         x = 2
///         print(x)
fn bound_twice() -> Module {
    let store = |line: u32| Expr::Name { id: "x".to_string(), ctx: Ctx::Store, line };
    let print = Stmt::Expr(Expr::Call { func: Box::new(load("print", 5)), args: vec![load("x", 5)], keywords: vec![] });
    Module {
        body: vec![def(
            "f",
            1,
            vec![
                Stmt::Assign { targets: vec![store(2)], value: Expr::Other },
                Stmt::If {
                    test: load("flag", 3),
                    body: vec![Stmt::Assign { targets: vec![store(4)], value: Expr::Other }, print],
                    clauses: vec![],
                },
            ],
        )],
        first_line: Some(1),
    }
}

#[test]
fn the_first_binding_is_kept() {
    let fs = analyze_source(Ok(bound_twice()), "m.py", &Weights::default()).unwrap();
    // `x` counts as declared on line 2, one level above the block that uses it
    let debts: Vec<&Finding> = fs.iter().filter(|f| f.category == Category::ScopeDebt).collect();
    assert_eq!(debts.len(), 1);
    assert_eq!(debts[0].entity, "f.x");
    assert_eq!(debts[0].line, 2);
    assert_eq!(debts[0].score, 10);
}

#[test]
fn the_project_is_the_sorted_union_of_its_modules() {
    let w = Weights::default();
    let files = || {
        vec![
            ("z.py".to_string(), Ok(caller_above_callee())),
            ("a.py".to_string(), Ok(bound_twice())),
            ("m.py".to_string(), Ok(helper_above_its_block(false))),
        ]
    };
    let all = analyze_project(files(), &w).unwrap();
    let mut one_by_one: Vec<Finding> = Vec::new();
    for (file, parsed) in files() {
        one_by_one.extend(analyze_project(vec![(file, parsed)], &w).unwrap());
    }
    assert_eq!(all.len(), one_by_one.len());
    for f in &all {
        let here = all.iter().filter(|g| *g == f).count();
        let there = one_by_one.iter().filter(|g| *g == f).count();
        assert_eq!(here, there);
    }
    for p in all.windows(2) {
        let (x, y) = (&p[0], &p[1]);
        assert!((x.file.as_str(), x.line, x.entity.as_str()) <= (y.file.as_str(), y.line, y.entity.as_str()));
    }
}

#[test]
fn the_convention_leaves_the_sorted_project_alone_but_for_declare_order() {
    let files = || {
        vec![
            ("z.py".to_string(), Ok(caller_above_callee())),
            ("a.py".to_string(), Ok(bound_twice())),
        ]
    };
    let bu = analyze_project(files(), &Weights { order: DeclOrder::BottomUp, ..Weights::default() }).unwrap();
    let td = analyze_project(files(), &Weights { order: DeclOrder::TopDown, ..Weights::default() }).unwrap();
    let rest = |fs: &[Finding]| -> Vec<Finding> {
        fs.iter().filter(|f| !matches!(f.reason, Reason::ForwardRef { .. })).cloned().collect()
    };
    assert_ne!(bu, td);
    assert_eq!(rest(&bu), rest(&td));
}

#[test]
fn the_scope_weight_scales_every_scope_debt_score() {
    let files = || {
        vec![
            ("a.py".to_string(), Ok(bound_twice())),
            ("m.py".to_string(), Ok(helper_above_its_block(false))),
        ]
    };
    let unit = Weights { scope_level: 1, ..Weights::default() };
    let five = Weights { scope_level: 5, ..Weights::default() };
    let a = analyze_project(files(), &unit).unwrap();
    let b = analyze_project(files(), &five).unwrap();
    let scope = |fs: &[Finding]| -> Vec<Finding> { fs.iter().filter(|f| f.category == Category::ScopeDebt).cloned().collect() };
    let (sa, sb) = (scope(&a), scope(&b));
    assert_eq!(sa.len(), 2);
    assert_eq!(sa.len(), sb.len());
    for (x, y) in sa.iter().zip(sb.iter()) {
        assert_eq!(Finding { score: x.score * 5, ..x.clone() }, *y);
    }
    assert_eq!(sb[0].score, 5);
}
