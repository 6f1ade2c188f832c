use laria::ast::BinaryOp;
use laria::ast::Branch;
use laria::ast::Expr;
use laria::ast::ListItem;
use laria::ast::ParsedSlot;
use laria::ast::Prog;
use laria::ast::PropItem;
use laria::ast::RawExpr;
use laria::ast::Stmt;
use laria::builtins::type_functions::new_builtins;
use laria::eval::error::Context;
use laria::eval::error::Error;
use laria::eval::eval_prog;
use laria::eval::place::place_of_stmt;
use laria::eval::place::place_of_stmts;
use laria::eval::stmt::eval_stmt;
use laria::eval::Escape;
use laria::eval::machine::Machine;
use laria::eval::scope::ScopeStack;
use laria::eval::value::new_built_in_func;
use laria::eval::value::BuiltinFunc;
use laria::eval::value::SourcedValue;
use laria::eval::EvaluationContext;
use laria::report::render_eval_error;

// Each program below is written out as the tree that its source text stands
// for; the text is given above it.

fn at(raw: RawExpr) -> Expr {
    (raw, (1, 1))
}

fn at_loc(raw: RawExpr, line: usize, col: usize) -> Expr {
    (raw, (line, col))
}

fn null() -> Expr {
    at(RawExpr::Null)
}

fn boolean(b: bool) -> Expr {
    at(RawExpr::Bool { b })
}

fn num(n: i64) -> Expr {
    at(RawExpr::Int { n })
}

fn text(s: &str) -> Expr {
    at(RawExpr::Str { s: s.to_string(), interpolation_slots: None })
}

fn var(name: &str) -> Expr {
    at(RawExpr::Var { name: name.to_string() })
}

fn binary(op: BinaryOp, lhs: Expr, rhs: Expr) -> Expr {
    at(RawExpr::BinaryOp { op, op_loc: (1, 2), lhs: Box::new(lhs), rhs: Box::new(rhs) })
}

fn item(expr: Expr) -> ListItem {
    ListItem { expr, is_spread: false }
}

fn spread(expr: Expr) -> ListItem {
    ListItem { expr, is_spread: true }
}

fn list(items: Vec<Expr>) -> Expr {
    at(RawExpr::List { items: items.into_iter().map(item).collect(), collect: false })
}

fn list_of(items: Vec<ListItem>, collect: bool) -> Expr {
    at(RawExpr::List { items, collect })
}

fn pair(name: &str, value: Expr) -> PropItem {
    PropItem::Pair { name: text(name), value }
}

fn object(props: Vec<PropItem>) -> Expr {
    at(RawExpr::Object { props })
}

fn index(expr: Expr, location: Expr) -> Expr {
    at(RawExpr::Index { expr: Box::new(expr), location: Box::new(location) })
}

fn range_index(expr: Expr, start: Option<Expr>, end: Option<Expr>) -> Expr {
    at(RawExpr::RangeIndex {
        expr: Box::new(expr),
        start: start.map(Box::new),
        end: end.map(Box::new),
    })
}

fn range(start: Expr, end: Expr) -> Expr {
    at(RawExpr::Range { start: Box::new(start), end: Box::new(end) })
}

fn prop(expr: Expr, name: &str) -> Expr {
    at(RawExpr::Prop { expr: Box::new(expr), name: name.to_string(), type_prop: false })
}

fn type_prop(expr: Expr, name: &str) -> Expr {
    at(RawExpr::Prop { expr: Box::new(expr), name: name.to_string(), type_prop: true })
}

fn func(args: Vec<Expr>, stmts: Vec<Stmt>) -> Expr {
    at(RawExpr::Func { args, collect_args: false, stmts })
}

fn call(func: Expr, args: Vec<Expr>) -> Expr {
    at(RawExpr::Call { func: Box::new(func), args: args.into_iter().map(item).collect() })
}

fn print(arg: Expr) -> Stmt {
    Stmt::Expr { expr: call(var("print"), vec![arg]) }
}

fn declare(lhs: Expr, rhs: Expr) -> Stmt {
    Stmt::Declare { lhs, rhs }
}

fn assign(lhs: Expr, rhs: Expr) -> Stmt {
    Stmt::Assign { lhs, rhs }
}

fn op_assign(lhs: Expr, op: BinaryOp, rhs: Expr) -> Stmt {
    Stmt::OpAssign { lhs, op, op_loc: (1, 3), rhs }
}

fn func_stmt(name: &str, args: Vec<Expr>, stmts: Vec<Stmt>) -> Stmt {
    Stmt::Func { name: (name.to_string(), (1, 4)), args, collect_args: false, stmts }
}

fn ret(expr: Expr) -> Stmt {
    Stmt::Return { loc: (1, 5), expr }
}

fn if_then(cond: Expr, stmts: Vec<Stmt>) -> Stmt {
    Stmt::If { branches: vec![Branch { cond, stmts }], else_stmts: None }
}

fn while_do(cond: Expr, stmts: Vec<Stmt>) -> Stmt {
    Stmt::While { cond, stmts }
}

fn for_in(lhs: Expr, iter: Expr, stmts: Vec<Stmt>) -> Stmt {
    Stmt::For { lhs, iter, stmts }
}

/// What running `stmts` writes, and how the run ends, with `fuel` steps.
fn run_with(stmts: Vec<Stmt>, fuel: u64) -> (String, Result<(), Error>) {
    let prog = Prog::Body { stmts };
    let mut m = Machine::new(fuel);
    let global_bindings: Vec<(RawExpr, SourcedValue)> = vec![(
        RawExpr::Var { name: "print".to_string() },
        new_built_in_func("print".to_string(), BuiltinFunc::Print),
    )];
    let builtins = new_builtins(&mut m);
    let context = EvaluationContext {
        builtins: &builtins,
        cur_script_dir: String::new(),
        global_bindings: &global_bindings,
    };
    let scopes = ScopeStack::new(vec![]);
    let r = eval_prog(&context, &mut m, &scopes, &global_bindings, &prog);
    (String::from_utf8(m.output().clone()).expect("output is not UTF-8"), r)
}

fn run(stmts: Vec<Stmt>) -> (String, Result<(), Error>) {
    run_with(stmts, u64::MAX)
}

/// What running `stmts` writes; the run must end well.
fn output_of(stmts: Vec<Stmt>) -> String {
    let (out, r) = run(stmts);
    assert_eq!(r, Ok(()));
    out
}

/// The error that running `stmts` ends in, without what was added around
/// it on the way up, and the place it was raised at.
fn failure_of(stmts: Vec<Stmt>) -> (Error, Option<(usize, usize)>) {
    let (_, r) = run(stmts);
    let mut e = r.expect_err("the program ended well");
    let mut loc = None;
    loop {
        e = match e {
            Error::Context { source, .. } => *source,
            Error::EvalPropValueFailed { source, .. } => *source,
            Error::EvalBuiltinFuncCallFailed { source, call_loc, .. } => {
                loc = Some(call_loc);
                *source
            },
            Error::EvalFuncCallFailed { source, .. } => *source,
            Error::AtLoc { source, line, col } => {
                loc = Some((line, col));
                *source
            },
            other => return (other, loc),
        };
    }
}

// print("hello");
#[test]
fn scenario_print_literal() {
    assert_eq!(output_of(vec![print(text("hello"))]), "hello\n");
}

// x := 2; y := 3; print(x * (y + 4));
#[test]
fn scenario_arithmetic_and_variables() {
    let out = output_of(vec![
        declare(var("x"), num(2)),
        declare(var("y"), num(3)),
        print(binary(BinaryOp::Mul, var("x"), binary(BinaryOp::Sum, var("y"), num(4)))),
    ]);
    assert_eq!(out, "14\n");
}

// [a, *rest] := [1, 2, 3, 4]; print(a); print(rest);
#[test]
fn scenario_list_destructure_with_collect() {
    let out = output_of(vec![
        declare(
            list_of(vec![item(var("a")), item(var("rest"))], true),
            list(vec![num(1), num(2), num(3), num(4)]),
        ),
        print(var("a")),
        print(var("rest")),
    ]);
    assert_eq!(out, "1\n[\n    2,\n    3,\n    4,\n]\n");
}

// {x: p, y: q} := {x: 10, y: 20}; print(p + q);
#[test]
fn scenario_object_destructure_and_property_access() {
    let out = output_of(vec![
        declare(
            object(vec![pair("x", var("p")), pair("y", var("q"))]),
            object(vec![pair("x", num(10)), pair("y", num(20))]),
        ),
        print(binary(BinaryOp::Sum, var("p"), var("q"))),
    ]);
    assert_eq!(out, "30\n");
}

// fn make_counter() { n := 0; fn step() { n = n + 1; return n; } return step; }
// c := make_counter(); print(c()); print(c()); print(c());
#[test]
fn scenario_closure_captures_by_reference() {
    let out = output_of(vec![
        func_stmt(
            "make_counter",
            vec![],
            vec![
                declare(var("n"), num(0)),
                func_stmt(
                    "step",
                    vec![],
                    vec![
                        assign(var("n"), binary(BinaryOp::Sum, var("n"), num(1))),
                        ret(var("n")),
                    ],
                ),
                ret(var("step")),
            ],
        ),
        declare(var("c"), call(var("make_counter"), vec![])),
        print(call(var("c"), vec![])),
        print(call(var("c"), vec![])),
        print(call(var("c"), vec![])),
    ]);
    assert_eq!(out, "1\n2\n3\n");
}

// print((1).type());
#[test]
fn scenario_type_function() {
    let out = output_of(vec![print(call(type_prop(num(1), "type"), vec![]))]);
    assert_eq!(out, "int\n");
}

// print(null.type());
#[test]
fn scenario_type_function_on_null() {
    let (out, r) = run(vec![print(call(
        at_loc(
            RawExpr::Prop { expr: Box::new(null()), name: "type".to_string(), type_prop: true },
            1,
            11,
        ),
        vec![],
    ))]);
    assert_eq!(out, "");
    assert!(r.is_err());
    let (e, loc) = failure_of(vec![print(call(
        at_loc(
            RawExpr::Prop { expr: Box::new(null()), name: "type".to_string(), type_prop: true },
            1,
            11,
        ),
        vec![],
    ))]);
    assert_eq!(e, Error::TypeFunctionOnNull);
    assert_eq!(loc, Some((1, 11)));
    assert_eq!(
        render_eval_error(r.expect_err("the program ended well")),
        "1:11: cannot access type function on 'null'",
    );
}

// i := 0; while (i < 10) { if (i == 3) { break; } print(i); i = i + 1; }
#[test]
fn scenario_break_in_nested_loop() {
    let out = output_of(vec![
        declare(var("i"), num(0)),
        while_do(
            binary(BinaryOp::Lt, var("i"), num(10)),
            vec![
                if_then(
                    binary(BinaryOp::Eq, var("i"), num(3)),
                    vec![Stmt::Break { loc: (1, 40) }],
                ),
                print(var("i")),
                assign(var("i"), binary(BinaryOp::Sum, var("i"), num(1))),
            ],
        ),
    ]);
    assert_eq!(out, "0\n1\n2\n");
}

#[test]
fn prints_every_kind_of_value() {
    let out = output_of(vec![
        print(null()),
        print(boolean(true)),
        print(boolean(false)),
        print(num(-42)),
        print(num(i64::MIN)),
        print(text("a\nb")),
        print(list(vec![])),
        print(object(vec![])),
        print(var("print")),
        func_stmt("named", vec![], vec![]),
        print(var("named")),
        print(func(vec![], vec![])),
    ]);
    assert_eq!(
        out,
        "<null>\ntrue\nfalse\n-42\n-9223372036854775808\na\nb\n[\n]\n{\n}\n\
         <built-in function 'print'>\n<function 'Some(\"named\")'>\n<function 'None'>\n",
    );
}

// print({b: [1, "x\ny"], a: {c: null}});
#[test]
fn prints_nested_values_indented_with_keys_in_order() {
    let out = output_of(vec![print(object(vec![
        pair("b", list(vec![num(1), text("x\ny")])),
        pair("a", object(vec![pair("c", null())])),
    ]))]);
    assert_eq!(
        out,
        "{\n    \"a\": {\n        \"c\": <null>,\n    },\n    \"b\": [\n        1,\n        \
         x\n        y,\n    ],\n}\n",
    );
}

#[test]
fn object_keys_print_in_the_order_of_their_bytes() {
    let out = output_of(vec![print(object(vec![
        pair("b", num(1)),
        pair("a", num(2)),
        pair("B", num(3)),
        pair("ab", num(4)),
        pair("é", num(5)),
        pair("", num(6)),
        pair("a", num(7)),
    ]))]);
    assert_eq!(
        out,
        "{\n    \"\": 6,\n    \"B\": 3,\n    \"a\": 7,\n    \"ab\": 4,\n    \"b\": 1,\n    \
         \"é\": 5,\n}\n",
    );
}

#[test]
fn arithmetic_gives_the_exact_results() {
    let cases = vec![
        (BinaryOp::Sum, 2, 3, "5"),
        (BinaryOp::Sub, 2, 3, "-1"),
        (BinaryOp::Mul, -4, 3, "-12"),
        (BinaryOp::Div, 7, 2, "3"),
        (BinaryOp::Div, -7, 2, "-3"),
        (BinaryOp::Div, 7, -2, "-3"),
        (BinaryOp::Div, -7, -2, "3"),
        (BinaryOp::Mod, 7, 3, "1"),
        (BinaryOp::Mod, -7, 3, "-1"),
        (BinaryOp::Mod, 7, -3, "1"),
        (BinaryOp::Mod, -7, -3, "-1"),
        (BinaryOp::Sum, i64::MAX - 1, 1, "9223372036854775807"),
        (BinaryOp::Sub, i64::MIN + 1, 1, "-9223372036854775808"),
        (BinaryOp::Div, i64::MIN, 1, "-9223372036854775808"),
    ];
    for (op, a, b, exp) in cases {
        let out = output_of(vec![print(binary(op, num(a), num(b)))]);
        assert_eq!(out, format!("{}\n", exp), "{:?} on {} and {}", op, a, b);
    }
}

#[test]
fn arithmetic_out_of_range_is_an_overflow() {
    let cases = vec![
        (BinaryOp::Sum, i64::MAX, 1),
        (BinaryOp::Sum, i64::MIN, -1),
        (BinaryOp::Sub, i64::MIN, 1),
        (BinaryOp::Sub, 0, i64::MIN),
        (BinaryOp::Mul, i64::MAX, 2),
        (BinaryOp::Mul, i64::MIN, -1),
        (BinaryOp::Div, 1, 0),
        (BinaryOp::Div, i64::MIN, -1),
        (BinaryOp::Mod, 1, 0),
        (BinaryOp::Mod, i64::MIN, -1),
    ];
    for (op, a, b) in cases {
        let (e, loc) = failure_of(vec![print(binary(op, num(a), num(b)))]);
        assert_eq!(e, Error::IntOverflow { op, lhs: a, rhs: b });
        assert_eq!(loc, Some((1, 2)));
    }
}

#[test]
fn comparisons_and_logic() {
    let t = "true\n";
    let f = "false\n";
    let cases = vec![
        (binary(BinaryOp::Lt, num(1), num(2)), t),
        (binary(BinaryOp::Lt, num(2), num(2)), f),
        (binary(BinaryOp::Lte, num(2), num(2)), t),
        (binary(BinaryOp::Gt, num(1), num(2)), f),
        (binary(BinaryOp::Gte, num(2), num(2)), t),
        (binary(BinaryOp::And, boolean(true), boolean(false)), f),
        (binary(BinaryOp::And, boolean(true), boolean(true)), t),
        (binary(BinaryOp::Or, boolean(false), boolean(true)), t),
        (binary(BinaryOp::Or, boolean(false), boolean(false)), f),
        (binary(BinaryOp::Eq, null(), null()), t),
        (binary(BinaryOp::Ne, null(), null()), f),
        (binary(BinaryOp::Eq, text("ab"), text("ab")), t),
        (binary(BinaryOp::Eq, text("ab"), text("abc")), f),
        (binary(BinaryOp::Eq, list(vec![num(1), list(vec![])]), list(vec![num(1), list(vec![])])), t),
        (binary(BinaryOp::Eq, list(vec![num(1)]), list(vec![num(2)])), f),
        (binary(BinaryOp::Eq, list(vec![num(1)]), list(vec![num(1), num(1)])), f),
        (
            binary(
                BinaryOp::Eq,
                object(vec![pair("a", num(1)), pair("b", num(2))]),
                object(vec![pair("b", num(2)), pair("a", num(1))]),
            ),
            t,
        ),
        (
            binary(BinaryOp::Eq, object(vec![pair("a", num(1))]), object(vec![pair("b", num(1))])),
            f,
        ),
        (binary(BinaryOp::RefEq, list(vec![]), list(vec![])), f),
        (binary(BinaryOp::RefNe, list(vec![]), list(vec![])), t),
        (binary(BinaryOp::RefEq, num(1), num(1)), t),
    ];
    for (e, exp) in cases {
        assert_eq!(output_of(vec![print(e)]), exp);
    }
}

// a := [1]; b := a; print(a === b); print(a == b); b[0] = 2; print(a);
#[test]
fn lists_are_shared_and_integers_are_not() {
    let out = output_of(vec![
        declare(var("a"), list(vec![num(1)])),
        declare(var("b"), var("a")),
        print(binary(BinaryOp::RefEq, var("a"), var("b"))),
        assign(index(var("b"), num(0)), num(2)),
        print(var("a")),
        declare(var("i"), num(1)),
        declare(var("j"), var("i")),
        assign(var("j"), num(5)),
        print(var("i")),
    ]);
    assert_eq!(out, "true\n[\n    2,\n]\n1\n");
}

#[test]
fn operators_reject_operands_of_other_types() {
    let (e, loc) = failure_of(vec![print(binary(BinaryOp::Sum, num(1), text("a")))]);
    match e {
        Error::InvalidOpTypes { op: BinaryOp::Sum, .. } => {},
        other => panic!("expected InvalidOpTypes, got {:?}", other),
    }
    assert_eq!(loc, Some((1, 2)));
    let (e, _) = failure_of(vec![print(binary(BinaryOp::Eq, num(1), boolean(true)))]);
    assert!(matches!(e, Error::InvalidOpTypes { op: BinaryOp::Eq, .. }));
    // Functions cannot be compared, even with themselves.
    let (e, _) =
        failure_of(vec![print(binary(BinaryOp::Eq, var("print"), var("print")))]);
    assert!(matches!(e, Error::InvalidOpTypes { op: BinaryOp::Eq, .. }));
}

#[test]
fn strings_and_lists_are_joined_by_plus() {
    let out = output_of(vec![
        print(binary(BinaryOp::Sum, text("ab"), text("cd"))),
        print(binary(BinaryOp::Sum, list(vec![num(1)]), list(vec![num(2), num(3)]))),
    ]);
    assert_eq!(out, "abcd\n[\n    1,\n    2,\n    3,\n]\n");
}

#[test]
fn indexing_strings_lists_and_objects() {
    let out = output_of(vec![
        print(index(text("abc"), num(1))),
        print(index(list(vec![num(10), num(20)]), num(1))),
        print(index(object(vec![pair("k", num(7))]), text("k"))),
        print(prop(object(vec![pair("k", num(8))]), "k")),
    ]);
    assert_eq!(out, "b\n20\n7\n8\n");
}

#[test]
fn indexing_out_of_bounds() {
    let (e, _) = failure_of(vec![print(index(text("abc"), num(3)))]);
    assert_eq!(e, Error::OutOfStringBounds { index: 3 });
    let (e, _) = failure_of(vec![print(index(list(vec![num(1)]), num(1)))]);
    assert_eq!(e, Error::OutOfListBounds { index: 1 });
    let (e, _) = failure_of(vec![print(index(list(vec![num(1)]), num(-1)))]);
    assert_eq!(e, Error::NegativeIndex { index: -1 });
    let (e, _) = failure_of(vec![print(index(object(vec![]), text("k")))]);
    assert_eq!(e, Error::PropNotFound { name: "k".to_string() });
    let (e, _) = failure_of(vec![print(index(num(1), num(0)))]);
    assert_eq!(e, Error::ValueNotIndexable);
    // A list is indexed by an integer and an object by a string.
    let (e, loc) = failure_of(vec![print(at_loc(
        RawExpr::Index {
            expr: Box::new(list(vec![num(1)])),
            location: Box::new(text("a")),
        },
        6,
        7,
    ))]);
    assert_eq!((e, loc), (Error::ValueNotIndexable, Some((6, 7))));
    let (e, _) = failure_of(vec![print(index(text("abc"), boolean(true)))]);
    assert_eq!(e, Error::ValueNotIndexable);
    let (e, _) = failure_of(vec![print(index(object(vec![]), num(0)))]);
    assert_eq!(e, Error::ValueNotIndexable);
    // An index that is assigned at must be an integer too.
    let (e, _) = failure_of(vec![
        declare(var("xs"), list(vec![num(1)])),
        assign(index(var("xs"), text("a")), num(0)),
    ]);
    assert!(matches!(e, Error::IncorrectType { .. }));
    let (e, _) = failure_of(vec![print(prop(num(1), "k"))]);
    assert!(matches!(e, Error::PropAccessOnNonObject { .. }));
}

#[test]
fn range_indexing() {
    let out = output_of(vec![
        print(range_index(text("hello"), Some(num(1)), Some(num(3)))),
        print(range_index(text("hello"), None, Some(num(2)))),
        print(range_index(text("hello"), Some(num(3)), None)),
        print(range_index(list(vec![num(1), num(2), num(3)]), Some(num(1)), None)),
        print(range_index(list(vec![num(1), num(2), num(3)]), Some(num(1)), Some(num(1)))),
    ]);
    assert_eq!(out, "el\nhe\nlo\n[\n    2,\n    3,\n]\n[\n]\n");
    let (e, _) = failure_of(vec![print(range_index(text("abc"), Some(num(2)), Some(num(4))))]);
    assert_eq!(e, Error::RangeOutOfStringBounds { start: 2, end: 4 });
    let (e, _) = failure_of(vec![print(range_index(list(vec![]), Some(num(1)), Some(num(0))))]);
    assert_eq!(e, Error::RangeOutOfListBounds { start: 1, end: 0 });
    let (e, _) = failure_of(vec![print(range_index(num(1), None, None))]);
    assert_eq!(e, Error::ValueNotRangeIndexable);
}

#[test]
fn ranges_are_lists_of_integers() {
    let out = output_of(vec![print(range(num(-1), num(2))), print(range(num(3), num(3)))]);
    assert_eq!(out, "[\n    -1,\n    0,\n    1,\n]\n[\n]\n");
}

#[test]
fn list_literals_spread_lists() {
    let out = output_of(vec![print(list_of(
        vec![item(num(0)), spread(list(vec![num(1), num(2)])), item(num(3))],
        false,
    ))]);
    assert_eq!(out, "[\n    0,\n    1,\n    2,\n    3,\n]\n");
    let (e, _) = failure_of(vec![print(list_of(vec![spread(num(1))], false))]);
    assert!(matches!(e, Error::SpreadNonListInList { .. }));
    let (e, _) = failure_of(vec![print(list_of(vec![item(num(1))], true))]);
    assert_eq!(e, Error::ListCollectOutsideDestructure);
}

#[test]
fn object_literals_take_shorthands_and_spreads() {
    let out = output_of(vec![
        declare(var("x"), num(1)),
        declare(var("o"), object(vec![pair("x", num(9)), pair("y", num(2))])),
        print(object(vec![
            PropItem::Single { expr: var("o"), is_spread: true, collect: false },
            PropItem::Single { expr: var("x"), is_spread: false, collect: false },
        ])),
    ]);
    assert_eq!(out, "{\n    \"x\": 1,\n    \"y\": 2,\n}\n");
    let (e, _) = failure_of(vec![print(object(vec![PropItem::Single {
        expr: num(1),
        is_spread: true,
        collect: false,
    }]))]);
    assert!(matches!(e, Error::SpreadNonObjectInObject { .. }));
    let (e, _) = failure_of(vec![print(object(vec![PropItem::Single {
        expr: num(1),
        is_spread: false,
        collect: false,
    }]))]);
    assert_eq!(e, Error::ObjectPropShorthandNotVar);
    let (e, _) = failure_of(vec![print(object(vec![PropItem::Single {
        expr: var("x"),
        is_spread: false,
        collect: true,
    }]))]);
    assert_eq!(e, Error::ObjectCollectOutsideDestructure);
}

#[test]
fn names_are_declared_once_and_assigned_when_declared() {
    let (e, loc) = failure_of(vec![
        declare(at_loc(RawExpr::Var { name: "x".to_string() }, 1, 1), num(1)),
        declare(at_loc(RawExpr::Var { name: "x".to_string() }, 2, 1), num(2)),
    ]);
    assert_eq!(e, Error::AlreadyInScope { name: "x".to_string(), prev_line: 1, prev_col: 1 });
    assert_eq!(loc, Some((2, 1)));
    let (e, _) = failure_of(vec![assign(var("x"), num(1))]);
    assert_eq!(e, Error::Undefined { name: "x".to_string() });
    let (e, _) = failure_of(vec![print(var("x"))]);
    assert_eq!(e, Error::Undefined { name: "x".to_string() });
    let (e, _) = failure_of(vec![declare(list(vec![var("a"), var("a")]), list(vec![num(1), num(2)]))]);
    assert_eq!(e, Error::AlreadyInBinding { name: "a".to_string() });
    // A name can be declared again in an inner scope, and `_` any number of
    // times.
    let out = output_of(vec![
        declare(var("x"), num(1)),
        Stmt::Block { block: vec![declare(var("x"), num(2)), print(var("x"))] },
        print(var("x")),
        declare(list(vec![var("_"), var("_"), var("y")]), list(vec![num(1), num(2), num(3)])),
        print(var("y")),
    ]);
    assert_eq!(out, "2\n1\n3\n");
    let (e, _) = failure_of(vec![declare(var("_"), num(1)), print(var("_"))]);
    assert_eq!(e, Error::Undefined { name: "_".to_string() });
}

#[test]
fn index_and_property_assignment() {
    let out = output_of(vec![
        declare(var("xs"), list(vec![num(1), num(2), num(3)])),
        assign(index(var("xs"), num(1)), text("two")),
        print(index(var("xs"), num(1))),
        declare(var("o"), object(vec![pair("b", num(1))])),
        assign(index(var("o"), text("a")), num(0)),
        assign(prop(var("o"), "b"), num(2)),
        assign(prop(var("o"), "c"), num(3)),
        print(var("o")),
    ]);
    assert_eq!(out, "two\n{\n    \"a\": 0,\n    \"b\": 2,\n    \"c\": 3,\n}\n");
    let (e, _) = failure_of(vec![
        declare(var("xs"), list(vec![num(1)])),
        assign(index(var("xs"), num(1)), num(0)),
    ]);
    assert_eq!(e, Error::OutOfListBounds { index: 1 });
    let (e, _) = failure_of(vec![assign(index(text("a"), num(0)), num(0))]);
    assert_eq!(e, Error::ValueNotIndexAssignable);
    let (e, _) = failure_of(vec![
        declare(var("x"), num(1)),
        assign(type_prop(var("x"), "type"), num(0)),
    ]);
    assert_eq!(e, Error::AssignToTypeProp);
    let (e, _) = failure_of(vec![assign(num(1), num(0))]);
    assert_eq!(e, Error::InvalidBindTarget { descr: "an integer literal".to_string() });
}

#[test]
fn range_index_assignment() {
    let out = output_of(vec![
        declare(var("xs"), list(vec![num(1), num(2), num(3), num(4)])),
        assign(range_index(var("xs"), Some(num(1)), Some(num(3))), list(vec![num(8), num(9)])),
        print(var("xs")),
        assign(range_index(var("xs"), None, None), text("ab")),
        print(var("xs")),
    ]);
    assert_eq!(
        out,
        "[\n    1,\n    8,\n    9,\n    4,\n]\n[\n    a,\n    b,\n    9,\n    4,\n]\n",
    );
    let xs = || declare(var("xs"), list(vec![num(1), num(2), num(3)]));
    let (e, _) = failure_of(vec![
        xs(),
        assign(range_index(var("xs"), Some(num(4)), Some(num(5))), list(vec![num(0)])),
    ]);
    assert_eq!(e, Error::RangeStartOutOfListBounds { start: 4, list_len: 3 });
    let (e, _) = failure_of(vec![
        xs(),
        assign(range_index(var("xs"), Some(num(2)), Some(num(2))), list(vec![])),
    ]);
    assert_eq!(e, Error::RangeStartNotBeforeEnd { start: 2, end: 2 });
    let (e, _) = failure_of(vec![
        xs(),
        assign(range_index(var("xs"), Some(num(2)), Some(num(4))), list(vec![num(0), num(0)])),
    ]);
    assert_eq!(e, Error::RangeEndOutOfListBounds { end: 4, list_len: 3 });
    let (e, _) = failure_of(vec![
        xs(),
        assign(range_index(var("xs"), Some(num(0)), Some(num(2))), list(vec![num(0)])),
    ]);
    assert_eq!(e, Error::RangeIndexItemMismatch { range_len: 2, rhs_len: 1 });
    let (e, _) = failure_of(vec![
        xs(),
        assign(range_index(var("xs"), Some(num(0)), Some(num(1))), num(0)),
    ]);
    assert!(matches!(e, Error::RangeIndexAssignOnNonIndexable { .. }));
    let (e, _) = failure_of(vec![assign(range_index(text("a"), None, None), list(vec![]))]);
    assert_eq!(e, Error::ValueNotRangeIndexAssignable);
}

#[test]
fn operator_assignment() {
    let out = output_of(vec![
        declare(var("x"), num(1)),
        op_assign(var("x"), BinaryOp::Sum, num(2)),
        print(var("x")),
        declare(var("xs"), list(vec![num(10)])),
        op_assign(index(var("xs"), num(0)), BinaryOp::Mul, num(3)),
        print(index(var("xs"), num(0))),
        declare(var("o"), object(vec![pair("k", text("a"))])),
        op_assign(prop(var("o"), "k"), BinaryOp::Sum, text("b")),
        op_assign(index(var("o"), text("k")), BinaryOp::Sum, text("c")),
        print(prop(var("o"), "k")),
    ]);
    assert_eq!(out, "3\n30\nabc\n");
    let (e, _) = failure_of(vec![op_assign(var("x"), BinaryOp::Sum, num(1))]);
    assert_eq!(e, Error::Undefined { name: "x".to_string() });
    let o = || declare(var("o"), object(vec![]));
    let (e, _) = failure_of(vec![o(), op_assign(prop(var("o"), "k"), BinaryOp::Sum, num(1))]);
    assert_eq!(e, Error::OpOnUndefinedProp { name: "k".to_string() });
    let (e, _) =
        failure_of(vec![o(), op_assign(index(var("o"), text("k")), BinaryOp::Sum, num(1))]);
    assert_eq!(e, Error::OpOnUndefinedIndex { name: "k".to_string() });
    let xs = || declare(var("xs"), list(vec![num(1)]));
    let (e, _) = failure_of(vec![
        xs(),
        op_assign(range_index(var("xs"), None, None), BinaryOp::Sum, list(vec![num(1)])),
    ]);
    assert_eq!(e, Error::OpOnRangeIndex);
    let (e, _) =
        failure_of(vec![xs(), op_assign(list(vec![var("a")]), BinaryOp::Sum, var("xs"))]);
    assert_eq!(e, Error::OpOnListDestructure);
    let (e, _) = failure_of(vec![o(), op_assign(object(vec![]), BinaryOp::Sum, var("o"))]);
    assert_eq!(e, Error::OpOnObjectDestructure);
}

#[test]
fn list_destructuring() {
    // [a, b, *rest] := [1, 2, 3, 4];
    let out = output_of(vec![
        declare(
            list_of(vec![item(var("a")), item(var("b")), item(var("rest"))], true),
            list(vec![num(1), num(2), num(3), num(4)]),
        ),
        print(var("a")),
        print(var("b")),
        print(var("rest")),
        // [c, *none] := [5];
        declare(list_of(vec![item(var("c")), item(var("none"))], true), list(vec![num(5)])),
        print(var("none")),
    ]);
    assert_eq!(out, "1\n2\n[\n    3,\n    4,\n]\n[\n]\n");
    let (e, _) = failure_of(vec![declare(list(vec![var("a")]), list(vec![num(1), num(2)]))]);
    assert_eq!(e, Error::ListDestructureItemMismatch { lhs_len: 1, rhs_len: 2 });
    let (e, _) = failure_of(vec![declare(
        list_of(vec![item(var("a")), item(var("b")), item(var("c"))], true),
        list(vec![num(1)]),
    )]);
    assert_eq!(e, Error::ListCollectTooFew { lhs_len: 3, rhs_len: 1 });
    let (e, _) = failure_of(vec![declare(list(vec![var("a")]), num(1))]);
    assert!(matches!(e, Error::ListDestructureOnNonList { .. }));
    let (e, _) = failure_of(vec![declare(
        list_of(vec![item(var("a")), spread(var("b"))], false),
        list(vec![num(1), num(2)]),
    )]);
    assert_eq!(e, Error::SpreadInListDestructure { index: 1 });
}

#[test]
fn object_destructuring() {
    // {a, "b": [x, y], *rest} := {a: 1, b: [2, 3], c: 4, d: 5};
    let out = output_of(vec![
        declare(
            object(vec![
                PropItem::Single { expr: var("a"), is_spread: false, collect: false },
                pair("b", list(vec![var("x"), var("y")])),
                PropItem::Single { expr: var("rest"), is_spread: false, collect: true },
            ]),
            object(vec![
                pair("a", num(1)),
                pair("b", list(vec![num(2), num(3)])),
                pair("c", num(4)),
                pair("d", num(5)),
            ]),
        ),
        print(var("a")),
        print(var("x")),
        print(var("y")),
        print(var("rest")),
    ]);
    assert_eq!(out, "1\n2\n3\n{\n    \"c\": 4,\n    \"d\": 5,\n}\n");
    let (e, _) = failure_of(vec![declare(object(vec![pair("a", var("x"))]), object(vec![]))]);
    assert_eq!(e, Error::PropNotFound { name: "a".to_string() });
    let (e, _) = failure_of(vec![declare(object(vec![]), num(1))]);
    assert!(matches!(e, Error::ObjectDestructureOnNonObject { .. }));
    let (e, _) = failure_of(vec![declare(
        object(vec![PropItem::Single { expr: var("a"), is_spread: true, collect: false }]),
        object(vec![]),
    )]);
    assert_eq!(e, Error::SpreadOnObjectDestructure);
    let (e, _) = failure_of(vec![declare(
        object(vec![
            PropItem::Single { expr: var("a"), is_spread: false, collect: true },
            PropItem::Single { expr: var("b"), is_spread: false, collect: false },
        ]),
        object(vec![]),
    )]);
    assert_eq!(e, Error::ObjectCollectIsNotLast);
    let (e, _) = failure_of(vec![declare(
        object(vec![PropItem::Single { expr: num(1), is_spread: false, collect: false }]),
        object(vec![]),
    )]);
    assert_eq!(e, Error::ObjectPropShorthandNotVar);
}

#[test]
fn if_runs_the_first_branch_that_holds() {
    let chain = |n: i64| Stmt::If {
        branches: vec![
            Branch { cond: binary(BinaryOp::Eq, num(n), num(1)), stmts: vec![print(text("one"))] },
            Branch { cond: binary(BinaryOp::Eq, num(n), num(2)), stmts: vec![print(text("two"))] },
        ],
        else_stmts: Some(vec![print(text("many"))]),
    };
    assert_eq!(output_of(vec![chain(1), chain(2), chain(3)]), "one\ntwo\nmany\n");
    let (e, _) = failure_of(vec![if_then(num(1), vec![])]);
    match e {
        Error::IncorrectType { descr, exp_type, .. } => {
            assert_eq!(descr, "condition");
            assert_eq!(exp_type, "bool");
        },
        other => panic!("expected IncorrectType, got {:?}", other),
    }
}

#[test]
fn for_visits_pairs_in_order() {
    // for ([i, v] in ..) { print(i); print(v); }
    let body = || vec![print(var("i")), print(var("v"))];
    let pattern = || list(vec![var("i"), var("v")]);
    let out = output_of(vec![
        for_in(pattern(), list(vec![text("a"), text("b")]), body()),
        for_in(pattern(), text("xy"), body()),
        for_in(pattern(), object(vec![pair("k2", num(2)), pair("k1", num(1))]), body()),
    ]);
    assert_eq!(out, "0\na\n1\nb\n0\nx\n1\ny\nk1\n1\nk2\n2\n");
    let (e, _) = failure_of(vec![for_in(pattern(), num(1), body())]);
    assert_eq!(e, Error::ForIterNotIterable);
}

#[test]
fn break_and_continue_in_for() {
    // for ([_, v] in 0..10) { if (v == 1) { continue; } if (v == 3) { break; } print(v); }
    let out = output_of(vec![for_in(
        list(vec![var("_"), var("v")]),
        range(num(0), num(10)),
        vec![
            if_then(binary(BinaryOp::Eq, var("v"), num(1)), vec![Stmt::Continue { loc: (1, 1) }]),
            if_then(binary(BinaryOp::Eq, var("v"), num(3)), vec![Stmt::Break { loc: (1, 1) }]),
            print(var("v")),
        ],
    )]);
    assert_eq!(out, "0\n2\n");
}

#[test]
fn break_ends_the_innermost_loop_only() {
    // for ([_, i] in 0..2) { for ([_, j] in 0..5) { if (j == 1) { break; } print(j); } print(i); }
    let out = output_of(vec![for_in(
        list(vec![var("_"), var("i")]),
        range(num(0), num(2)),
        vec![
            for_in(
                list(vec![var("_"), var("j")]),
                range(num(0), num(5)),
                vec![
                    if_then(
                        binary(BinaryOp::Eq, var("j"), num(1)),
                        vec![Stmt::Break { loc: (1, 1) }],
                    ),
                    print(var("j")),
                ],
            ),
            print(var("i")),
        ],
    )]);
    assert_eq!(out, "0\n0\n0\n1\n");
}

// while (true) { { break; } }   and   fn f() { { return 1; } return 2; }
#[test]
fn an_escape_passes_through_a_block() {
    let out = output_of(vec![
        while_do(
            boolean(true),
            vec![Stmt::Block { block: vec![Stmt::Break { loc: (1, 1) }] }, print(num(0))],
        ),
        func_stmt("f", vec![], vec![Stmt::Block { block: vec![ret(num(1))] }, ret(num(2))]),
        print(call(var("f"), vec![])),
    ]);
    assert_eq!(out, "1\n");
}

#[test]
fn escapes_that_reach_the_top_are_errors() {
    let (e, loc) = failure_of(vec![Stmt::Break { loc: (3, 4) }]);
    assert_eq!((e, loc), (Error::BreakOutsideLoop, Some((3, 4))));
    let (e, loc) = failure_of(vec![Stmt::Continue { loc: (5, 6) }]);
    assert_eq!((e, loc), (Error::ContinueOutsideLoop, Some((5, 6))));
    let (e, loc) = failure_of(vec![Stmt::Return { loc: (7, 8), expr: num(1) }]);
    assert_eq!((e, loc), (Error::ReturnOutsideFunction, Some((7, 8))));
    // A function's body is no loop.
    let (e, _) =
        failure_of(vec![func_stmt("f", vec![], vec![Stmt::Break { loc: (9, 9) }]), print(call(var("f"), vec![]))]);
    assert_eq!(e, Error::BreakOutsideLoop);
}

#[test]
fn calls_check_the_number_of_arguments() {
    let f = || func_stmt("f", vec![var("a"), var("b")], vec![ret(var("b"))]);
    assert_eq!(output_of(vec![f(), print(call(var("f"), vec![num(1), num(2)]))]), "2\n");
    let (e, _) = failure_of(vec![f(), print(call(var("f"), vec![num(1)]))]);
    assert_eq!(e, Error::ArgNumMismatch { need: 2, got: 1 });
    let g = || Stmt::Func {
        name: ("g".to_string(), (1, 1)),
        args: vec![var("a"), var("rest")],
        collect_args: true,
        stmts: vec![ret(var("rest"))],
    };
    assert_eq!(
        output_of(vec![g(), print(call(var("g"), vec![num(1), num(2), num(3)]))]),
        "[\n    2,\n    3,\n]\n",
    );
    assert_eq!(output_of(vec![g(), print(call(var("g"), vec![num(1)]))]), "[\n]\n");
    let (e, _) = failure_of(vec![g(), print(call(var("g"), vec![]))]);
    assert_eq!(e, Error::TooFewArgs { minimum: 1, got: 0 });
    let (e, _) = failure_of(vec![print(call(num(1), vec![]))]);
    assert!(matches!(e, Error::CannotCallNonFunc { .. }));
    // A function that returns nothing gives null.
    assert_eq!(
        output_of(vec![func_stmt("h", vec![], vec![]), print(call(var("h"), vec![]))]),
        "<null>\n",
    );
}

// o := {n: 5, get: fn() { return this.n; }}; print(o.get());
#[test]
fn a_function_read_as_a_property_gets_its_object_as_this() {
    let out = output_of(vec![
        declare(
            var("o"),
            object(vec![
                pair("n", num(5)),
                pair("get", func(vec![], vec![ret(prop(var("this"), "n"))])),
            ]),
        ),
        print(call(prop(var("o"), "get"), vec![])),
        print(call(index(var("o"), text("get")), vec![])),
    ]);
    assert_eq!(out, "5\n5\n");
    // The receiver does not outlive the place where the property was read.
    let (e, _) = failure_of(vec![
        declare(
            var("o"),
            object(vec![pair("get", func(vec![], vec![ret(var("this"))]))]),
        ),
        declare(var("g"), prop(var("o"), "get")),
        print(call(var("g"), vec![])),
    ]);
    assert_eq!(e, Error::Undefined { name: "this".to_string() });
}

#[test]
fn type_functions_of_every_type() {
    let out = output_of(vec![
        print(call(type_prop(boolean(true), "type"), vec![])),
        print(call(type_prop(num(1), "type"), vec![])),
        print(call(type_prop(text("s"), "type"), vec![])),
        print(call(type_prop(list(vec![]), "type"), vec![])),
        print(call(type_prop(object(vec![]), "type"), vec![])),
        print(call(type_prop(var("print"), "type"), vec![])),
        print(call(type_prop(func(vec![], vec![]), "type"), vec![])),
        print(call(type_prop(text("héllo"), "len"), vec![])),
        print(call(type_prop(text(""), "len"), vec![])),
    ]);
    assert_eq!(out, "bool\nint\nstring\nlist\nobject\nfunc\nfunc\n6\n0\n");
    // A list counts its items, whatever they are.
    let out = output_of(vec![
        print(call(type_prop(list(vec![]), "len"), vec![])),
        print(call(
            type_prop(list(vec![num(7), text("ab"), list(vec![num(1), num(2)])]), "len"),
            vec![],
        )),
        declare(var("xs"), range(num(0), num(5))),
        assign(index(var("xs"), num(0)), var("xs")),
        print(call(type_prop(var("xs"), "len"), vec![])),
        print(call(type_prop(binary(BinaryOp::Sum, var("xs"), var("xs")), "len"), vec![])),
    ]);
    assert_eq!(out, "0\n3\n5\n10\n");
    // The other types have no length.
    let (e, _) = failure_of(vec![print(call(type_prop(object(vec![]), "len"), vec![]))]);
    match e {
        Error::TypeFunctionNotFound { name, .. } => assert_eq!(name, "len"),
        other => panic!("expected TypeFunctionNotFound, got {:?}", other),
    }
    let (e, _) = failure_of(vec![print(call(type_prop(num(1), "len"), vec![]))]);
    assert!(matches!(e, Error::TypeFunctionNotFound { .. }));
    // `len` takes no argument.
    let (e, _) =
        failure_of(vec![print(call(type_prop(list(vec![]), "len"), vec![num(1)]))]);
    assert_eq!(
        e,
        Error::BuiltinFuncErr { msg: "`len` only takes 0 arguments (got 1)".to_string() },
    );
}

#[test]
fn native_functions_check_what_they_are_given() {
    let (e, loc) = failure_of(vec![Stmt::Expr {
        expr: at_loc(
            RawExpr::Call { func: Box::new(var("print")), args: vec![item(num(1)), item(num(2))] },
            4,
            2,
        ),
    }]);
    assert_eq!(
        e,
        Error::BuiltinFuncErr { msg: "`print` only takes 1 argument (got 2)".to_string() },
    );
    assert_eq!(loc, Some((4, 2)));
    let (e, _) = failure_of(vec![print(call(type_prop(num(1), "type"), vec![num(1)]))]);
    assert_eq!(
        e,
        Error::BuiltinFuncErr { msg: "`type` only takes 0 arguments (got 1)".to_string() },
    );
    // `type` read into a variable has lost its receiver.
    let (e, _) = failure_of(vec![
        declare(var("t"), type_prop(num(1), "type")),
        declare(var("u"), var("t")),
        print(call(var("u"), vec![])),
    ]);
    assert_eq!(e, Error::Dev { msg: "'this' doesn't exist".to_string() });
}

#[test]
fn interpolated_strings() {
    // x := "b"; print($"a${x}c${"d"}${ x + x }");
    let literal = "a${x}c${\"d\"}${ x + x }";
    let slot = |start: usize, end: usize, expr: Expr| ParsedSlot {
        start,
        end,
        expr: Ok(Box::new(expr)),
    };
    let out = output_of(vec![
        declare(var("x"), text("b")),
        print(at(RawExpr::Str {
            s: literal.to_string(),
            interpolation_slots: Some(vec![
                slot(1, 5, var("x")),
                slot(6, 12, text("d")),
                slot(12, 22, binary(BinaryOp::Sum, var("x"), var("x"))),
            ]),
        })),
        print(at(RawExpr::Str { s: "plain".to_string(), interpolation_slots: Some(vec![]) })),
    ]);
    assert_eq!(out, "abcdbb\nplain\n");
    let one = |expr: Result<Box<Expr>, String>| {
        print(at_loc(
            RawExpr::Str {
                s: "ab${x}".to_string(),
                interpolation_slots: Some(vec![ParsedSlot { start: 2, end: 6, expr }]),
            },
            7,
            10,
        ))
    };
    let (e, loc) = failure_of(vec![one(Ok(Box::new(num(1))))]);
    assert!(matches!(e, Error::InterpolatedValueNotString { .. }));
    assert_eq!(loc, Some((7, 16)));
    let (e, loc) = failure_of(vec![one(Err("no expression".to_string()))]);
    assert_eq!(e, Error::InterpolateStringParseFailed { source_str: "no expression".to_string() });
    assert_eq!(loc, Some((7, 16)));
    let (e, _) = failure_of(vec![print(at(RawExpr::Str {
        s: "ab".to_string(),
        interpolation_slots: Some(vec![ParsedSlot {
            start: 1,
            end: 9,
            expr: Ok(Box::new(text("x"))),
        }]),
    }))]);
    assert_eq!(e, Error::Dev { msg: "interpolation slot is out of place".to_string() });
}

#[test]
fn strings_that_are_not_utf8() {
    // "\xff" is one byte that is no text.
    let bad = || binary(BinaryOp::Sum, text("a"), index(text("é"), num(0)));
    let out = output_of(vec![print(call(type_prop(bad(), "type"), vec![]))]);
    assert_eq!(out, "string\n");
    let (e, _) = failure_of(vec![print(bad())]);
    assert!(matches!(e, Error::BuiltinFuncErr { .. }));
    // The bytes are counted whether or not they are text.
    let out = output_of(vec![print(call(type_prop(bad(), "len"), vec![]))]);
    assert_eq!(out, "2\n");
    let (e, _) = failure_of(vec![print(index(object(vec![]), bad()))]);
    match e {
        Error::StringConstructionFailed { descr, .. } => assert_eq!(descr, "property"),
        other => panic!("expected StringConstructionFailed, got {:?}", other),
    }
}

// x == x and x != x, for values of every kind that can be compared.
#[test]
fn every_value_equals_itself() {
    for value in vec![
        null(),
        boolean(true),
        num(-3),
        text("héllo"),
        list(vec![num(1), list(vec![text("a")])]),
        object(vec![pair("k", list(vec![]))]),
    ] {
        let out = output_of(vec![
            declare(var("x"), value),
            print(binary(BinaryOp::Eq, var("x"), var("x"))),
            print(binary(BinaryOp::Ne, var("x"), var("x"))),
        ]);
        assert_eq!(out, "true\nfalse\n");
    }
    // A list that holds itself is still the same list.
    let out = output_of(vec![
        declare(var("xs"), list(vec![num(0)])),
        assign(index(var("xs"), num(0)), var("xs")),
        print(binary(BinaryOp::Eq, var("xs"), var("xs"))),
    ]);
    assert_eq!(out, "true\n");
}

// What the standard library says of bytes that are no text reaches the
// error as it is.
#[test]
fn the_fault_in_bytes_that_are_no_text_is_described() {
    // The first byte of "é" alone begins a character and does not end it.
    let cut = || binary(BinaryOp::Sum, text("ab"), index(text("é"), num(0)));
    let (e, _) = failure_of(vec![print(index(object(vec![]), cut()))]);
    assert_eq!(
        e,
        Error::StringConstructionFailed {
            reason: "incomplete utf-8 byte sequence from index 2".to_string(),
            descr: "property".to_string(),
        },
    );
    // Its second byte alone begins nothing.
    let stray = || binary(BinaryOp::Sum, index(text("é"), num(1)), text("ab"));
    let (e, _) = failure_of(vec![print(stray())]);
    assert_eq!(
        e,
        Error::BuiltinFuncErr {
            msg: "couldn't convert error message to UTF-8: invalid utf-8 sequence of 1 bytes \
                  from index 0"
                .to_string(),
        },
    );
}

// Text that is read from a string value is the text that its bytes encode.
#[test]
fn keys_are_the_text_that_the_bytes_of_a_string_encode() {
    let out = output_of(vec![
        declare(var("o"), object(vec![])),
        assign(index(var("o"), binary(BinaryOp::Sum, text("h"), text("é"))), num(1)),
        print(var("o")),
        print(prop(var("o"), "hé")),
    ]);
    assert_eq!(out, "{\n    \"hé\": 1,\n}\n1\n");
}

#[test]
fn a_run_out_of_steps_ends_in_an_error() {
    // while (true) {}
    let forever = || vec![while_do(boolean(true), vec![])];
    let (out, r) = run_with(forever(), 1000);
    assert_eq!(out, "");
    let mut e = r.expect_err("the loop ended");
    loop {
        e = match e {
            Error::Context { source, .. } => *source,
            Error::AtLoc { source, .. } => *source,
            other => {
                assert_eq!(other, Error::StepLimitReached);
                break;
            },
        };
    }
    // Enough steps let a terminating program through.
    let (out, r) = run_with(vec![print(num(1))], 20);
    assert_eq!((out.as_str(), r), ("1\n", Ok(())));
}

// i := 0; sum := 0; while (i < 20000) { sum += i; i += 1; } print(sum);
#[test]
fn a_long_loop_runs_to_its_end() {
    let out = output_of(vec![
        declare(var("i"), num(0)),
        declare(var("sum"), num(0)),
        while_do(
            binary(BinaryOp::Lt, var("i"), num(20000)),
            vec![
                op_assign(var("sum"), BinaryOp::Sum, var("i")),
                op_assign(var("i"), BinaryOp::Sum, num(1)),
            ],
        ),
        print(var("sum")),
    ]);
    assert_eq!(out, "199990000\n");
}

// fn fib(n) { if (n < 2) { return n; } return fib(n - 1) + fib(n - 2); } print(fib(15));
#[test]
fn a_function_calls_itself() {
    let out = output_of(vec![
        func_stmt(
            "fib",
            vec![var("n")],
            vec![
                if_then(binary(BinaryOp::Lt, var("n"), num(2)), vec![ret(var("n"))]),
                ret(binary(
                    BinaryOp::Sum,
                    call(var("fib"), vec![binary(BinaryOp::Sub, var("n"), num(1))]),
                    call(var("fib"), vec![binary(BinaryOp::Sub, var("n"), num(2))]),
                )),
            ],
        ),
        print(call(var("fib"), vec![num(15)])),
    ]);
    assert_eq!(out, "610\n");
}

#[test]
fn errors_carry_what_was_being_done() {
    let (_, r) = run(vec![print(var("x"))]);
    let mut contexts = vec![];
    let mut e = r.expect_err("the program ended well");
    loop {
        e = match e {
            Error::Context { context, source } => {
                contexts.push(context);
                *source
            },
            Error::AtLoc { source, .. } => *source,
            other => {
                assert_eq!(other, Error::Undefined { name: "x".to_string() });
                break;
            },
        };
    }
    assert_eq!(
        contexts,
        vec![
            Context::EvalStmtsFailed,
            Context::EvalStmtsWithScopeStackFailed,
            Context::EvalStmtFailed,
            Context::EvalExprFailed,
            Context::EvalCallFailed,
            Context::EvalCallArgsFailed,
            Context::EvalListItemFailed,
        ],
    );
}

// fn src() { print(0); return [5, 6, 7, 8]; }
// fn say(n) { print(n); return n; }
// print(src()[say(1):say(3)]);
#[test]
fn a_range_index_is_evaluated_from_left_to_right() {
    let out = output_of(vec![
        func_stmt(
            "src",
            vec![],
            vec![print(num(0)), ret(list(vec![num(5), num(6), num(7), num(8)]))],
        ),
        func_stmt("say", vec![var("n")], vec![print(var("n")), ret(var("n"))]),
        print(range_index(
            call(var("src"), vec![]),
            Some(call(var("say"), vec![num(1)])),
            Some(call(var("say"), vec![num(3)])),
        )),
    ]);
    assert_eq!(out, "0\n1\n3\n[\n    6,\n    7,\n]\n");

    // The source fails before a bound is looked at.
    let (e, _) = failure_of(vec![print(range_index(var("nope"), Some(var("neither")), None))]);
    assert_eq!(e, Error::Undefined { name: "nope".to_string() });
    // A bound fails though the source is nothing that has a range.
    let (e, _) = failure_of(vec![print(range_index(num(1), Some(var("neither")), None))]);
    assert_eq!(e, Error::Undefined { name: "neither".to_string() });
    let (e, _) = failure_of(vec![print(range_index(num(1), Some(num(0)), None))]);
    assert_eq!(e, Error::ValueNotRangeIndexable);

    // xs := [1, 2, 3]; fn poke() { xs[0] = 9; return 0; } print(xs[poke():2]);
    let out = output_of(vec![
        declare(var("xs"), list(vec![num(1), num(2), num(3)])),
        func_stmt("poke", vec![], vec![assign(index(var("xs"), num(0)), num(9)), ret(num(0))]),
        print(range_index(var("xs"), Some(call(var("poke"), vec![])), Some(num(2)))),
    ]);
    assert_eq!(out, "[\n    9,\n    2,\n]\n");
}

// xs := [1, 2, 3];
// print(xs == [1, 2, 3]);
// while (true) {}
#[test]
fn a_run_out_of_steps_fails_at_a_place() {
    let program = || {
        vec![
            Stmt::Declare {
                lhs: at_loc(RawExpr::Var { name: "xs".to_string() }, 2, 1),
                rhs: at_loc(list(vec![num(1), num(2), num(3)]).0, 2, 7),
            },
            Stmt::Expr {
                expr: at_loc(
                    call(
                        var("print"),
                        vec![at_loc(
                            RawExpr::BinaryOp {
                                op: BinaryOp::Eq,
                                op_loc: (3, 10),
                                lhs: Box::new(at_loc(RawExpr::Var { name: "xs".to_string() }, 3, 7)),
                                rhs: Box::new(at_loc(
                                    list(vec![num(1), num(2), num(3)]).0,
                                    3,
                                    13,
                                )),
                            },
                            3,
                            7,
                        )],
                    )
                    .0,
                    3,
                    1,
                ),
            },
            Stmt::While { cond: at_loc(RawExpr::Bool { b: true }, 4, 8), stmts: vec![] },
        ]
    };
    let mut places: Vec<(usize, usize)> = vec![];
    for fuel in 0..80 {
        let (_, r) = run_with(program(), fuel);
        let e = r.expect_err("the loop ended");
        let place = e.place().expect("an error of the evaluator without a place");
        assert_eq!(
            render_eval_error(e),
            format!("{}:{}: the step limit was reached", place.0, place.1),
        );
        places.push(place);
    }
    // The comparison of the two lists ran out of steps at the operator.
    assert!(places.contains(&(3, 10)));
    // The loop ran out of steps at its condition.
    assert_eq!(places[79], (4, 8));
}

#[test]
fn a_statement_without_a_step_fails_at_its_place() {
    let cases: Vec<(Stmt, Option<(usize, usize)>)> = vec![
        (Stmt::Break { loc: (2, 3) }, Some((2, 3))),
        (Stmt::Continue { loc: (2, 4) }, Some((2, 4))),
        (Stmt::Return { loc: (2, 5), expr: at_loc(RawExpr::Null, 2, 12) }, Some((2, 5))),
        (Stmt::Expr { expr: at_loc(RawExpr::Null, 3, 1) }, Some((3, 1))),
        (
            Stmt::Declare { lhs: at_loc(RawExpr::Null, 3, 2), rhs: at_loc(RawExpr::Null, 3, 7) },
            Some((3, 2)),
        ),
        (
            Stmt::Assign { lhs: at_loc(RawExpr::Null, 3, 3), rhs: at_loc(RawExpr::Null, 3, 7) },
            Some((3, 3)),
        ),
        (
            Stmt::OpAssign {
                lhs: at_loc(RawExpr::Null, 3, 4),
                op: BinaryOp::Sum,
                op_loc: (3, 6),
                rhs: at_loc(RawExpr::Null, 3, 9),
            },
            Some((3, 4)),
        ),
        (
            Stmt::Func {
                name: ("f".to_string(), (4, 4)),
                args: vec![],
                collect_args: false,
                stmts: vec![],
            },
            Some((4, 4)),
        ),
        (Stmt::While { cond: at_loc(RawExpr::Bool { b: true }, 5, 8), stmts: vec![] }, Some((5, 8))),
        (
            Stmt::For {
                lhs: at_loc(RawExpr::Null, 6, 6),
                iter: at_loc(RawExpr::Null, 6, 11),
                stmts: vec![],
            },
            Some((6, 6)),
        ),
        (
            Stmt::If {
                branches: vec![
                    Branch { cond: at_loc(RawExpr::Null, 7, 5), stmts: vec![] },
                    Branch { cond: at_loc(RawExpr::Null, 8, 12), stmts: vec![] },
                ],
                else_stmts: None,
            },
            Some((7, 5)),
        ),
        (
            Stmt::If { branches: vec![], else_stmts: Some(vec![Stmt::Break { loc: (9, 9) }]) },
            Some((9, 9)),
        ),
        (
            Stmt::Block {
                block: vec![
                    Stmt::Block { block: vec![] },
                    Stmt::Block { block: vec![Stmt::Block { block: vec![] }] },
                    Stmt::Continue { loc: (10, 3) },
                    Stmt::Break { loc: (11, 3) },
                ],
            },
            Some((10, 3)),
        ),
        // Statements in which nothing is written.
        (Stmt::Block { block: vec![] }, None),
        (Stmt::Block { block: vec![Stmt::Block { block: vec![] }] }, None),
        (Stmt::If { branches: vec![], else_stmts: None }, None),
        (Stmt::If { branches: vec![], else_stmts: Some(vec![Stmt::Block { block: vec![] }]) }, None),
    ];
    let global_bindings: Vec<(RawExpr, SourcedValue)> = vec![];
    for (stmt, place) in cases.iter() {
        assert_eq!(place_of_stmt(stmt), *place);
        let mut m = Machine::new(0);
        let builtins = new_builtins(&mut m);
        let context = EvaluationContext {
            builtins: &builtins,
            cur_script_dir: String::new(),
            global_bindings: &global_bindings,
        };
        let scopes = ScopeStack::new(vec![]).new_from_push(&mut m, vec![]);
        let r = eval_stmt(&context, &mut m, &scopes, stmt);
        match place {
            Some((line, col)) => assert_eq!(
                r,
                Err(Error::AtLoc {
                    source: Box::new(Error::StepLimitReached),
                    line: *line,
                    col: *col,
                }),
            ),
            // Such a statement does nothing, and is done without a step.
            None => assert_eq!(r, Ok(Escape::Nothing)),
        }
        assert_eq!(m.fuel(), 0);
    }
    // With steps to take, a statement in which nothing is written does
    // nothing either.
    for (stmt, place) in cases.iter() {
        if place.is_none() {
            let mut m = Machine::new(100);
            let builtins = new_builtins(&mut m);
            let context = EvaluationContext {
                builtins: &builtins,
                cur_script_dir: String::new(),
                global_bindings: &global_bindings,
            };
            let scopes = ScopeStack::new(vec![]).new_from_push(&mut m, vec![]);
            assert_eq!(eval_stmt(&context, &mut m, &scopes, stmt), Ok(Escape::Nothing));
            assert!(m.output().is_empty());
        }
    }
    let block = vec![Stmt::Block { block: vec![] }, Stmt::Break { loc: (1, 2) }];
    assert_eq!(place_of_stmts(&block), Some((1, 2)));
    assert_eq!(place_of_stmts(&vec![]), None);
}

/// The numbers of scopes and of functions that the machine holds before and
/// after running `stmts`.
fn marks_around(stmts: Vec<Stmt>) -> ((usize, usize), (usize, usize)) {
    let prog = Prog::Body { stmts };
    let mut m = Machine::new(u64::MAX);
    let global_bindings: Vec<(RawExpr, SourcedValue)> = vec![(
        RawExpr::Var { name: "print".to_string() },
        new_built_in_func("print".to_string(), BuiltinFunc::Print),
    )];
    let builtins = new_builtins(&mut m);
    let context = EvaluationContext {
        builtins: &builtins,
        cur_script_dir: String::new(),
        global_bindings: &global_bindings,
    };
    let scopes = ScopeStack::new(vec![]);
    let before = m.mark();
    let r = eval_prog(&context, &mut m, &scopes, &global_bindings, &prog);
    assert_eq!(r, Ok(()));
    (before, m.mark())
}

#[test]
fn scopes_are_given_back_when_a_block_is_over() {
    // i := 0; while (i < 100) { j := i; { k := j; } for (p in [1, 2]) { q := p; } i += 1; }
    let (before, after) = marks_around(vec![
        declare(var("i"), num(0)),
        while_do(
            binary(BinaryOp::Lt, var("i"), num(100)),
            vec![
                declare(var("j"), var("i")),
                Stmt::Block { block: vec![declare(var("k"), var("j"))] },
                for_in(var("p"), list(vec![num(1), num(2)]), vec![declare(var("q"), var("p"))]),
                op_assign(var("i"), BinaryOp::Sum, num(1)),
            ],
        ),
    ]);
    assert_eq!(after, before);

    // fn twice(n) { m := n + n; return m; } i := 0; while (i < 50) { i = twice(i) + 1; }
    // The function is made in the scope of the program, which stays; the
    // scopes of the calls and of the turns are given back.
    let (before, after) = marks_around(vec![
        func_stmt(
            "twice",
            vec![var("n")],
            vec![declare(var("m"), binary(BinaryOp::Sum, var("n"), var("n"))), ret(var("m"))],
        ),
        declare(var("i"), num(0)),
        while_do(
            binary(BinaryOp::Lt, var("i"), num(50)),
            vec![assign(var("i"), binary(BinaryOp::Sum, call(var("twice"), vec![var("i")]), num(1)))],
        ),
    ]);
    assert_eq!(after, (before.0 + 1, before.1 + 1));
}

// fs := [];
// for (p in [10, 20, 30]) { [_, n] := p; fn get() { return n; } fs = fs + [get]; }
// print(fs[0]() + fs[1]() + fs[2]());
#[test]
fn scopes_that_a_function_captured_stay() {
    let program = || {
        vec![
            declare(var("fs"), list(vec![])),
            for_in(
                var("p"),
                list(vec![num(10), num(20), num(30)]),
                vec![
                    declare(list(vec![var("_"), var("n")]), var("p")),
                    func_stmt("get", vec![], vec![ret(var("n"))]),
                    assign(var("fs"), binary(BinaryOp::Sum, var("fs"), list(vec![var("get")]))),
                ],
            ),
            // Blocks that make no function, run after the functions were made.
            Stmt::Block { block: vec![declare(var("n"), num(1))] },
            Stmt::Block { block: vec![declare(var("n"), num(2))] },
            print(binary(
                BinaryOp::Sum,
                binary(
                    BinaryOp::Sum,
                    call(index(var("fs"), num(0)), vec![]),
                    call(index(var("fs"), num(1)), vec![]),
                ),
                call(index(var("fs"), num(2)), vec![]),
            )),
        ]
    };
    assert_eq!(output_of(program()), "60\n");
    let (before, after) = marks_around(program());
    // The scope of the program and the scopes of the three turns stay with
    // the three functions.
    assert_eq!(after, (before.0 + 4, before.1 + 3));
}
