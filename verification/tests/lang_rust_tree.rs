//! The Rust frontend from a syntax tree built by hand (the source it stands for is in the
//! comment above each test): its scope debt or its declare-before-use warnings.

use ventouse::lang::rust::syntax::{
    Arm, Expr, File, ImplItem, Item, Local, Name, Pat, Path, Segment, Signature, Stmt, Ty,
};
use ventouse::lang::rust::{extract_parsed, scope_of_parsed, warnings_of_parsed};

fn name(n: &str, line: u32) -> Name {
    Name { name: n.to_string(), line }
}

fn path(n: &str, line: u32) -> Expr {
    Expr::Path { path: Path { global: false, segments: vec![Segment { name: n.to_string(), args: false }] }, line }
}

fn call(f: &str, line: u32, args: Vec<Expr>) -> Expr {
    Expr::Call { func: Box::new(path(f, line)), args }
}

fn let_(n: &str, line: u32, init: Expr) -> Stmt {
    Stmt::Local(Local { pat: Pat::Ident { name: name(n, line), sub: None }, init: Some(init), diverge: None })
}

fn sig(n: &str, line: u32, params: &[(&str, u32)]) -> Signature {
    Signature {
        name: name(n, line),
        params: params.iter().map(|(p, l)| Pat::Typed(Box::new(Pat::Ident { name: name(p, *l), sub: None }))).collect(),
    }
}

fn func(n: &str, line: u32, params: &[(&str, u32)], body: Vec<Stmt>) -> Item {
    Item::Fn { sig: sig(n, line, params), body }
}

fn file(items: Vec<Item>) -> Result<File, String> {
    Ok(File { items, first_line: Some(1) })
}

fn expr_stmt(e: Expr) -> Stmt {
    Stmt::Expr(e)
}

#[test]
fn rust_lang_clean_local_used_right_after_is_zero_from_tree() {
    // fn f() { let x = make(); sink(x); }
    let f = func("f", 1, &[], vec![let_("x", 1, call("make", 1, vec![])), expr_stmt(call("sink", 1, vec![path("x", 1)]))]);
    assert_eq!(scope_of_parsed(file(vec![f])), Some(0));
}

#[test]
fn block_scoped_let_narrows_into_conditional_from_tree() {
    // fn f(flag: bool) {
    //     let x = compute();
    //     if flag {
    //         sink(x);
    //     }
    // }
    let f = func(
        "f",
        1,
        &[("flag", 1)],
        vec![
            let_("x", 2, call("compute", 2, vec![])),
            expr_stmt(Expr::If {
                cond: Box::new(path("flag", 3)),
                then_branch: vec![expr_stmt(call("sink", 4, vec![path("x", 4)]))],
                else_branch: None,
            }),
        ],
    );
    assert_eq!(scope_of_parsed(file(vec![f])), Some(10));
}

#[test]
fn let_not_narrowed_into_loop_from_tree() {
    // fn f() {
    //     let acc = seed();
    //     for i in it() {
    //         push(acc, i);
    //     }
    // }
    let f = func(
        "f",
        1,
        &[],
        vec![
            let_("acc", 2, call("seed", 2, vec![])),
            expr_stmt(Expr::ForLoop {
                pat: Pat::Ident { name: name("i", 3), sub: None },
                expr: Box::new(call("it", 3, vec![])),
                body: vec![expr_stmt(call("push", 4, vec![path("acc", 4), path("i", 4)]))],
            }),
        ],
    );
    assert_eq!(scope_of_parsed(file(vec![f])), Some(0));
}

#[test]
fn free_function_call_below_is_declare_order_from_tree() {
    // fn caller() { helper(); }
    // fn helper() {}
    let items = vec![func("caller", 1, &[], vec![expr_stmt(call("helper", 1, vec![]))]), func("helper", 2, &[], vec![])];
    assert_eq!(warnings_of_parsed(file(items)), Some(1));
}

fn impl_s(methods: Vec<(&str, u32, Vec<Stmt>)>) -> Item {
    Item::Impl {
        self_ty: Ty::Path(vec!["S".to_string()]),
        items: methods.into_iter().map(|(n, l, body)| ImplItem::Fn { sig: sig(n, l, &[]), body }).collect(),
    }
}

fn self_call(m: &str, line: u32) -> Stmt {
    let receiver = Expr::Path { path: Path { global: false, segments: vec![Segment { name: "self".to_string(), args: false }] }, line };
    expr_stmt(Expr::MethodCall { receiver: Box::new(receiver), method: name(m, line), args: vec![] })
}

#[test]
fn impl_self_member_resolves_and_orders_from_tree() {
    // struct S;
    // impl S {
    //     fn a(&self) { self.b(); }
    //     fn b(&self) {}
    // }
    let items = vec![Item::TypeDef(name("S", 1)), impl_s(vec![("a", 3, vec![self_call("b", 3)]), ("b", 4, vec![])])];
    assert_eq!(warnings_of_parsed(file(items)), Some(1));
}

#[test]
fn impl_method_calling_earlier_method_is_clean_from_tree() {
    // struct S;
    // impl S {
    //     fn b(&self) {}
    //     fn a(&self) { self.b(); }
    // }
    let items = vec![Item::TypeDef(name("S", 1)), impl_s(vec![("b", 3, vec![]), ("a", 4, vec![self_call("b", 4)])])];
    assert_eq!(warnings_of_parsed(file(items)), Some(0));
}

#[test]
fn rust_module_name_drops_src_from_tree() {
    let f = File { items: vec![], first_line: None };
    let raw = extract_parsed(&f, "src/core/a.rs").unwrap();
    assert_eq!(raw.module, "core.a");
    assert_eq!(raw.entities.last().unwrap().line, 1);
}

fn field_of(base: Expr) -> Expr {
    Expr::Field(Box::new(base))
}

#[test]
fn self_field_access_is_not_a_method_reference_from_tree() {
    // struct S { data: i32 }
    // impl S {
    //     fn size(&self) -> i32 { self.data }
    //     fn data(&self) -> i32 { self.data }
    // }
    // `self.data` is a field read (a method would be `self.data()`), so it does not resolve to the
    // same-named `data()` accessor below it: no declare-order warning.
    let s = Item::TypeDef(name("S", 1));
    let imp = Item::Impl {
        self_ty: Ty::Path(vec!["S".to_string()]),
        items: vec![
            ImplItem::Fn { sig: sig("size", 3, &[]), body: vec![expr_stmt(field_of(path("self", 3)))] },
            ImplItem::Fn { sig: sig("data", 4, &[]), body: vec![expr_stmt(field_of(path("self", 4)))] },
        ],
    };
    assert_eq!(warnings_of_parsed(file(vec![s, imp])), Some(0));
}

#[test]
fn const_is_data_used_once_not_narrowed_from_tree() {
    // const CONFIG: i32 = 1;
    // fn f() -> i32 { CONFIG }
    let c = Item::Data { name: name("CONFIG", 1), expr: Expr::Other };
    let f = func("f", 2, &[], vec![expr_stmt(path("CONFIG", 2))]);
    assert_eq!(scope_of_parsed(file(vec![c, f])), Some(0));
}

#[test]
fn const_referenced_below_is_declare_order_from_tree() {
    // fn f() -> i32 { TIMEOUT }
    // const TIMEOUT: i32 = 30;
    let f = func("f", 1, &[], vec![expr_stmt(path("TIMEOUT", 1))]);
    let c = Item::Data { name: name("TIMEOUT", 2), expr: Expr::Other };
    assert_eq!(warnings_of_parsed(file(vec![f, c])), Some(1));
}

#[test]
fn const_inside_mod_is_data_not_a_narrowable_local_from_tree() {
    // mod cfg {
    //     const K: i32 = 60;
    //     fn f(flag: bool) -> i32 {
    //         if flag { return K; }
    //         0
    //     }
    // }
    // a `mod` is a definition container: its `const` is top-level data, not a local of the mod, so
    // a single deep use does not narrow it.
    let k = Item::Data { name: name("K", 2), expr: Expr::Other };
    let f = func(
        "f",
        3,
        &[("flag", 3)],
        vec![
            expr_stmt(Expr::If {
                cond: Box::new(path("flag", 4)),
                then_branch: vec![expr_stmt(Expr::Return(Some(Box::new(path("K", 4)))))],
                else_branch: None,
            }),
            expr_stmt(Expr::Other),
        ],
    );
    let m = Item::Mod { name: name("cfg", 1), content: Some(vec![k, f]) };
    assert_eq!(scope_of_parsed(file(vec![m])), Some(0));
}

#[test]
fn match_arms_do_not_cross_wedge_from_tree() {
    // fn f(x: E) {
    //     let shared = init();
    //     match x {
    //         E::A(a) => { use2(shared, a); }
    //         E::B(b) => { use2(shared, b); }
    //     }
    // }
    // `a` and `b` live in mutually exclusive arms, and `shared` is read by both: nothing wedges.
    let arm = |binding: &str, line: u32| Arm {
        pat: Pat::Group(vec![Pat::Ident { name: name(binding, line), sub: None }]),
        guard: None,
        body: Expr::Block(vec![expr_stmt(call("use2", line, vec![path("shared", line), path(binding, line)]))]),
    };
    let f = func(
        "f",
        1,
        &[("x", 1)],
        vec![
            let_("shared", 2, call("init", 2, vec![])),
            expr_stmt(Expr::Match { expr: Box::new(path("x", 3)), arms: vec![arm("a", 4), arm("b", 5)] }),
        ],
    );
    assert_eq!(scope_of_parsed(file(vec![f])), Some(0));
}

#[test]
fn rust_lang_parse_error_is_reported_not_panicked_from_tree() {
    // `fn f( {` does not parse: the parser's message stands in for the tree, and the file gets a
    // ParseError finding (no scope debt), never a panic.
    assert_eq!(scope_of_parsed(Err("expected one of: `)`, identifier".to_string())), Some(0));
}
