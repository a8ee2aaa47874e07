//! Declare-before-use warnings: forward references between same-scope siblings (unavoidable
//! cycles exempt) and names read before their first binding. Each test analyzes a source through
//! its syntax tree ([`tree`]).

use ventouse::lang::python;
#[allow(unused_imports)]
use ventouse::lang::python::syntax::{
    Alias, Case, Clause, Comprehension, Ctx, Expr, Handler, Ident, Module, Param, Params, Pattern, Stmt, WithItem,
};

/// The declare-before-use warnings of a source (its tree from [`tree`]).
fn warnings_of(src: &str) -> usize {
    python::warnings_of(tree(src)).unwrap()
}

#[test]
fn w3_forward_function_reference() {
    // f calls g defined later (non-cyclic) -> 1 warning
    let src = "def f():\n    return g()\n\ndef g():\n    return 1\n";
    assert_eq!(warnings_of(src), 1);
}

#[test]
fn w4_mutual_recursion_exempt() {
    let src = "def a(n):\n    return b(n)\n\ndef b(n):\n    return a(n)\n";
    assert_eq!(warnings_of(src), 0);
}

#[test]
fn ec14_self_recursion_exempt() {
    let src = "def f(n):\n    if n <= 0:\n        return 0\n    return f(n - 1)\n";
    assert_eq!(warnings_of(src), 0);
}

#[test]
fn w7_chain_declared_bottom_up_clean() {
    // each callee declared ABOVE its caller -> 0 warnings
    let src = "\
def f5():
    return 5

def f4():
    return f5()

def f3():
    return f4()

def f2():
    return f3()

def f1():
    return f2()
";
    assert_eq!(warnings_of(src), 0);
}

#[test]
fn w8_chain_declared_top_down_4_warnings() {
    // each caller above its callee -> 4 forward references
    let src = "\
def f1():
    return f2()

def f2():
    return f3()

def f3():
    return f4()

def f4():
    return f5()

def f5():
    return 5
";
    assert_eq!(warnings_of(src), 4);
}

#[test]
fn w9_class_methods_ordered_clean() {
    let src = "\
class S:
    def _validate(self):
        return 1
    def _transform(self):
        return 2
    def handle(self):
        return self._validate() + self._transform()
";
    assert_eq!(warnings_of(src), 0);
}

#[test]
fn w10_class_methods_random_order_warns() {
    // handle declared above the helpers it calls -> 2 forward references
    let src = "\
class S:
    def handle(self):
        return self._validate() + self._transform()
    def _validate(self):
        return 1
    def _transform(self):
        return 2
";
    assert_eq!(warnings_of(src), 2);
}

#[test]
fn callee_above_caller_is_clean() {
    let src = "def helper(x):\n    return x + 1\n\ndef f(x):\n    return helper(x)\n";
    assert_eq!(warnings_of(src), 0);
}

// --- use-before-binding (variables) -----------------------------------------------------

#[test]
fn w1_local_use_before_assignment() {
    let src = "def f():\n    print(x)\n    x = 1\n";
    assert_eq!(warnings_of(src), 1);
}

#[test]
fn w2_module_forward_ref() {
    let src = "a = b\nb = 2\n";
    assert_eq!(warnings_of(src), 1); // warning on `b`
}

#[test]
fn w5_default_arg_evaluated_at_def_time() {
    let src = "def g(a=later):\n    return a\n\nlater = 1\n";
    assert_eq!(warnings_of(src), 1); // `later` used at def-time before its module binding
}

#[test]
fn w6_aug_assign_before_binding() {
    let src = "def f():\n    x += 1\n    x = 0\n";
    assert_eq!(warnings_of(src), 1);
}

#[test]
fn bind_then_use_is_clean() {
    let src = "def f():\n    x = 1\n    return x\n";
    assert_eq!(warnings_of(src), 0);
}

#[test]
fn param_use_is_clean() {
    // a parameter is bound on entry — using it is never use-before-binding
    let src = "def f(x):\n    return x + 1\n";
    assert_eq!(warnings_of(src), 0);
}

#[test]
fn use_before_binding_across_blocks() {
    // x used in an if-body before its assignment after the if -> 1 declare-before-use warning.
    let src = "def f(c):\n    if c:\n        print(x)\n    x = 1\n";
    assert_eq!(warnings_of(src), 1);
}

/// The syntax tree of each source these tests analyze, as the Python parser gives it (a
/// source that does not parse gives the parser's message).
fn tree(src: &str) -> Result<Module, String> {
    match src {
        "def f():\n    return g()\n\ndef g():\n    return 1\n" => Ok(Module { body: vec![Stmt::FunctionDef { name: sx("f"), line: 1, decorators: vec![], params: Params { plain: vec![], vararg: None, kwarg: None }, body: vec![Stmt::Return(Some(Expr::Call { func: bx(Expr::Name { id: sx("g"), ctx: Ctx::Load, line: 2 }), args: vec![], keywords: vec![] }))] }, Stmt::FunctionDef { name: sx("g"), line: 4, decorators: vec![], params: Params { plain: vec![], vararg: None, kwarg: None }, body: vec![Stmt::Return(Some(Expr::Other))] }], first_line: Some(1) }),
        "def a(n):\n    return b(n)\n\ndef b(n):\n    return a(n)\n" => Ok(Module { body: vec![Stmt::FunctionDef { name: sx("a"), line: 1, decorators: vec![], params: Params { plain: vec![Param { name: Ident { name: sx("n"), line: 1 }, default: None }], vararg: None, kwarg: None }, body: vec![Stmt::Return(Some(Expr::Call { func: bx(Expr::Name { id: sx("b"), ctx: Ctx::Load, line: 2 }), args: vec![Expr::Name { id: sx("n"), ctx: Ctx::Load, line: 2 }], keywords: vec![] }))] }, Stmt::FunctionDef { name: sx("b"), line: 4, decorators: vec![], params: Params { plain: vec![Param { name: Ident { name: sx("n"), line: 4 }, default: None }], vararg: None, kwarg: None }, body: vec![Stmt::Return(Some(Expr::Call { func: bx(Expr::Name { id: sx("a"), ctx: Ctx::Load, line: 5 }), args: vec![Expr::Name { id: sx("n"), ctx: Ctx::Load, line: 5 }], keywords: vec![] }))] }], first_line: Some(1) }),
        "def f(n):\n    if n <= 0:\n        return 0\n    return f(n - 1)\n" => Ok(Module { body: vec![Stmt::FunctionDef { name: sx("f"), line: 1, decorators: vec![], params: Params { plain: vec![Param { name: Ident { name: sx("n"), line: 1 }, default: None }], vararg: None, kwarg: None }, body: vec![Stmt::If { test: Expr::Compare(bx(Expr::Name { id: sx("n"), ctx: Ctx::Load, line: 2 }), vec![Expr::Other]), body: vec![Stmt::Return(Some(Expr::Other))], clauses: vec![] }, Stmt::Return(Some(Expr::Call { func: bx(Expr::Name { id: sx("f"), ctx: Ctx::Load, line: 4 }), args: vec![Expr::BinOp(bx(Expr::Name { id: sx("n"), ctx: Ctx::Load, line: 4 }), bx(Expr::Other))], keywords: vec![] }))] }], first_line: Some(1) }),
        "def f5():\n    return 5\n\ndef f4():\n    return f5()\n\ndef f3():\n    return f4()\n\ndef f2():\n    return f3()\n\ndef f1():\n    return f2()\n" => Ok(Module { body: vec![Stmt::FunctionDef { name: sx("f5"), line: 1, decorators: vec![], params: Params { plain: vec![], vararg: None, kwarg: None }, body: vec![Stmt::Return(Some(Expr::Other))] }, Stmt::FunctionDef { name: sx("f4"), line: 4, decorators: vec![], params: Params { plain: vec![], vararg: None, kwarg: None }, body: vec![Stmt::Return(Some(Expr::Call { func: bx(Expr::Name { id: sx("f5"), ctx: Ctx::Load, line: 5 }), args: vec![], keywords: vec![] }))] }, Stmt::FunctionDef { name: sx("f3"), line: 7, decorators: vec![], params: Params { plain: vec![], vararg: None, kwarg: None }, body: vec![Stmt::Return(Some(Expr::Call { func: bx(Expr::Name { id: sx("f4"), ctx: Ctx::Load, line: 8 }), args: vec![], keywords: vec![] }))] }, Stmt::FunctionDef { name: sx("f2"), line: 10, decorators: vec![], params: Params { plain: vec![], vararg: None, kwarg: None }, body: vec![Stmt::Return(Some(Expr::Call { func: bx(Expr::Name { id: sx("f3"), ctx: Ctx::Load, line: 11 }), args: vec![], keywords: vec![] }))] }, Stmt::FunctionDef { name: sx("f1"), line: 13, decorators: vec![], params: Params { plain: vec![], vararg: None, kwarg: None }, body: vec![Stmt::Return(Some(Expr::Call { func: bx(Expr::Name { id: sx("f2"), ctx: Ctx::Load, line: 14 }), args: vec![], keywords: vec![] }))] }], first_line: Some(1) }),
        "def f1():\n    return f2()\n\ndef f2():\n    return f3()\n\ndef f3():\n    return f4()\n\ndef f4():\n    return f5()\n\ndef f5():\n    return 5\n" => Ok(Module { body: vec![Stmt::FunctionDef { name: sx("f1"), line: 1, decorators: vec![], params: Params { plain: vec![], vararg: None, kwarg: None }, body: vec![Stmt::Return(Some(Expr::Call { func: bx(Expr::Name { id: sx("f2"), ctx: Ctx::Load, line: 2 }), args: vec![], keywords: vec![] }))] }, Stmt::FunctionDef { name: sx("f2"), line: 4, decorators: vec![], params: Params { plain: vec![], vararg: None, kwarg: None }, body: vec![Stmt::Return(Some(Expr::Call { func: bx(Expr::Name { id: sx("f3"), ctx: Ctx::Load, line: 5 }), args: vec![], keywords: vec![] }))] }, Stmt::FunctionDef { name: sx("f3"), line: 7, decorators: vec![], params: Params { plain: vec![], vararg: None, kwarg: None }, body: vec![Stmt::Return(Some(Expr::Call { func: bx(Expr::Name { id: sx("f4"), ctx: Ctx::Load, line: 8 }), args: vec![], keywords: vec![] }))] }, Stmt::FunctionDef { name: sx("f4"), line: 10, decorators: vec![], params: Params { plain: vec![], vararg: None, kwarg: None }, body: vec![Stmt::Return(Some(Expr::Call { func: bx(Expr::Name { id: sx("f5"), ctx: Ctx::Load, line: 11 }), args: vec![], keywords: vec![] }))] }, Stmt::FunctionDef { name: sx("f5"), line: 13, decorators: vec![], params: Params { plain: vec![], vararg: None, kwarg: None }, body: vec![Stmt::Return(Some(Expr::Other))] }], first_line: Some(1) }),
        "class S:\n    def _validate(self):\n        return 1\n    def _transform(self):\n        return 2\n    def handle(self):\n        return self._validate() + self._transform()\n" => Ok(Module { body: vec![Stmt::ClassDef { name: sx("S"), line: 1, decorators: vec![], bases: None, body: vec![Stmt::FunctionDef { name: sx("_validate"), line: 2, decorators: vec![], params: Params { plain: vec![Param { name: Ident { name: sx("self"), line: 2 }, default: None }], vararg: None, kwarg: None }, body: vec![Stmt::Return(Some(Expr::Other))] }, Stmt::FunctionDef { name: sx("_transform"), line: 4, decorators: vec![], params: Params { plain: vec![Param { name: Ident { name: sx("self"), line: 4 }, default: None }], vararg: None, kwarg: None }, body: vec![Stmt::Return(Some(Expr::Other))] }, Stmt::FunctionDef { name: sx("handle"), line: 6, decorators: vec![], params: Params { plain: vec![Param { name: Ident { name: sx("self"), line: 6 }, default: None }], vararg: None, kwarg: None }, body: vec![Stmt::Return(Some(Expr::BinOp(bx(Expr::Call { func: bx(Expr::Attribute { value: bx(Expr::Name { id: sx("self"), ctx: Ctx::Load, line: 7 }), attr: sx("_validate") }), args: vec![], keywords: vec![] }), bx(Expr::Call { func: bx(Expr::Attribute { value: bx(Expr::Name { id: sx("self"), ctx: Ctx::Load, line: 7 }), attr: sx("_transform") }), args: vec![], keywords: vec![] }))))] }] }], first_line: Some(1) }),
        "class S:\n    def handle(self):\n        return self._validate() + self._transform()\n    def _validate(self):\n        return 1\n    def _transform(self):\n        return 2\n" => Ok(Module { body: vec![Stmt::ClassDef { name: sx("S"), line: 1, decorators: vec![], bases: None, body: vec![Stmt::FunctionDef { name: sx("handle"), line: 2, decorators: vec![], params: Params { plain: vec![Param { name: Ident { name: sx("self"), line: 2 }, default: None }], vararg: None, kwarg: None }, body: vec![Stmt::Return(Some(Expr::BinOp(bx(Expr::Call { func: bx(Expr::Attribute { value: bx(Expr::Name { id: sx("self"), ctx: Ctx::Load, line: 3 }), attr: sx("_validate") }), args: vec![], keywords: vec![] }), bx(Expr::Call { func: bx(Expr::Attribute { value: bx(Expr::Name { id: sx("self"), ctx: Ctx::Load, line: 3 }), attr: sx("_transform") }), args: vec![], keywords: vec![] }))))] }, Stmt::FunctionDef { name: sx("_validate"), line: 4, decorators: vec![], params: Params { plain: vec![Param { name: Ident { name: sx("self"), line: 4 }, default: None }], vararg: None, kwarg: None }, body: vec![Stmt::Return(Some(Expr::Other))] }, Stmt::FunctionDef { name: sx("_transform"), line: 6, decorators: vec![], params: Params { plain: vec![Param { name: Ident { name: sx("self"), line: 6 }, default: None }], vararg: None, kwarg: None }, body: vec![Stmt::Return(Some(Expr::Other))] }] }], first_line: Some(1) }),
        "def helper(x):\n    return x + 1\n\ndef f(x):\n    return helper(x)\n" => Ok(Module { body: vec![Stmt::FunctionDef { name: sx("helper"), line: 1, decorators: vec![], params: Params { plain: vec![Param { name: Ident { name: sx("x"), line: 1 }, default: None }], vararg: None, kwarg: None }, body: vec![Stmt::Return(Some(Expr::BinOp(bx(Expr::Name { id: sx("x"), ctx: Ctx::Load, line: 2 }), bx(Expr::Other))))] }, Stmt::FunctionDef { name: sx("f"), line: 4, decorators: vec![], params: Params { plain: vec![Param { name: Ident { name: sx("x"), line: 4 }, default: None }], vararg: None, kwarg: None }, body: vec![Stmt::Return(Some(Expr::Call { func: bx(Expr::Name { id: sx("helper"), ctx: Ctx::Load, line: 5 }), args: vec![Expr::Name { id: sx("x"), ctx: Ctx::Load, line: 5 }], keywords: vec![] }))] }], first_line: Some(1) }),
        "def f():\n    print(x)\n    x = 1\n" => Ok(Module { body: vec![Stmt::FunctionDef { name: sx("f"), line: 1, decorators: vec![], params: Params { plain: vec![], vararg: None, kwarg: None }, body: vec![Stmt::Expr(Expr::Call { func: bx(Expr::Name { id: sx("print"), ctx: Ctx::Load, line: 2 }), args: vec![Expr::Name { id: sx("x"), ctx: Ctx::Load, line: 2 }], keywords: vec![] }), Stmt::Assign { targets: vec![Expr::Name { id: sx("x"), ctx: Ctx::Store, line: 3 }], value: Expr::Other }] }], first_line: Some(1) }),
        "a = b\nb = 2\n" => Ok(Module { body: vec![Stmt::Assign { targets: vec![Expr::Name { id: sx("a"), ctx: Ctx::Store, line: 1 }], value: Expr::Name { id: sx("b"), ctx: Ctx::Load, line: 1 } }, Stmt::Assign { targets: vec![Expr::Name { id: sx("b"), ctx: Ctx::Store, line: 2 }], value: Expr::Other }], first_line: Some(1) }),
        "def g(a=later):\n    return a\n\nlater = 1\n" => Ok(Module { body: vec![Stmt::FunctionDef { name: sx("g"), line: 1, decorators: vec![], params: Params { plain: vec![Param { name: Ident { name: sx("a"), line: 1 }, default: Some(Expr::Name { id: sx("later"), ctx: Ctx::Load, line: 1 }) }], vararg: None, kwarg: None }, body: vec![Stmt::Return(Some(Expr::Name { id: sx("a"), ctx: Ctx::Load, line: 2 }))] }, Stmt::Assign { targets: vec![Expr::Name { id: sx("later"), ctx: Ctx::Store, line: 4 }], value: Expr::Other }], first_line: Some(1) }),
        "def f():\n    x += 1\n    x = 0\n" => Ok(Module { body: vec![Stmt::FunctionDef { name: sx("f"), line: 1, decorators: vec![], params: Params { plain: vec![], vararg: None, kwarg: None }, body: vec![Stmt::AugAssign { target: Expr::Name { id: sx("x"), ctx: Ctx::Store, line: 2 }, value: Expr::Other }, Stmt::Assign { targets: vec![Expr::Name { id: sx("x"), ctx: Ctx::Store, line: 3 }], value: Expr::Other }] }], first_line: Some(1) }),
        "def f():\n    x = 1\n    return x\n" => Ok(Module { body: vec![Stmt::FunctionDef { name: sx("f"), line: 1, decorators: vec![], params: Params { plain: vec![], vararg: None, kwarg: None }, body: vec![Stmt::Assign { targets: vec![Expr::Name { id: sx("x"), ctx: Ctx::Store, line: 2 }], value: Expr::Other }, Stmt::Return(Some(Expr::Name { id: sx("x"), ctx: Ctx::Load, line: 3 }))] }], first_line: Some(1) }),
        "def f(x):\n    return x + 1\n" => Ok(Module { body: vec![Stmt::FunctionDef { name: sx("f"), line: 1, decorators: vec![], params: Params { plain: vec![Param { name: Ident { name: sx("x"), line: 1 }, default: None }], vararg: None, kwarg: None }, body: vec![Stmt::Return(Some(Expr::BinOp(bx(Expr::Name { id: sx("x"), ctx: Ctx::Load, line: 2 }), bx(Expr::Other))))] }], first_line: Some(1) }),
        "def f(c):\n    if c:\n        print(x)\n    x = 1\n" => Ok(Module { body: vec![Stmt::FunctionDef { name: sx("f"), line: 1, decorators: vec![], params: Params { plain: vec![Param { name: Ident { name: sx("c"), line: 1 }, default: None }], vararg: None, kwarg: None }, body: vec![Stmt::If { test: Expr::Name { id: sx("c"), ctx: Ctx::Load, line: 2 }, body: vec![Stmt::Expr(Expr::Call { func: bx(Expr::Name { id: sx("print"), ctx: Ctx::Load, line: 3 }), args: vec![Expr::Name { id: sx("x"), ctx: Ctx::Load, line: 3 }], keywords: vec![] })], clauses: vec![] }, Stmt::Assign { targets: vec![Expr::Name { id: sx("x"), ctx: Ctx::Store, line: 4 }], value: Expr::Other }] }], first_line: Some(1) }),
        other => panic!("no syntax tree for {other:?}"),
    }
}

fn sx(s: &str) -> String {
    s.to_string()
}

fn bx(e: Expr) -> Box<Expr> {
    Box::new(e)
}
