use laria::builtins::fns::assert_args;
use laria::builtins::fns::assert_no_this;
use laria::builtins::fns::assert_str;
use laria::builtins::fns::assert_this;
use laria::builtins::fns::print;
use laria::builtins::fns::render;
use laria::builtins::type_functions::any_type;
use laria::builtins::type_functions::list_len;
use laria::builtins::type_functions::new_builtins;
use laria::builtins::type_functions::new_func_map;
use laria::builtins::type_functions::str_len;
use laria::builtins::type_functions::type_functions;
use laria::eval::error::op_symbol;
use laria::eval::error::render_type;
use laria::eval::error::Context;
use laria::eval::error::Error;
use laria::ast::BinaryOp;
use laria::eval::machine::Machine;
use laria::eval::value::new_built_in_func;
use laria::eval::value::new_int;
use laria::eval::value::new_list;
use laria::eval::value::new_null;
use laria::eval::value::new_str;
use laria::eval::value::new_str_from_string;
use laria::eval::value::BuiltinFunc;
use laria::eval::value::SourcedValue;
use laria::eval::value::Value;

fn within(context: Context, source: Error) -> Error {
    Error::Context { context, source: Box::new(source) }
}

#[test]
fn native_functions_count_their_arguments() {
    assert_eq!(assert_args("f", 0, &[]), Ok(()));
    assert_eq!(assert_args("f", 2, &[new_null(), new_null()]), Ok(()));
    assert_eq!(
        assert_args("f", 1, &[]),
        Err(Error::BuiltinFuncErr { msg: "`f` only takes 1 argument (got 0)".to_string() }),
    );
    assert_eq!(
        assert_args("len", 0, &[new_null(), new_null()]),
        Err(Error::BuiltinFuncErr { msg: "`len` only takes 0 arguments (got 2)".to_string() }),
    );
    assert_eq!(
        assert_args("g", 12, &[new_null()]),
        Err(Error::BuiltinFuncErr { msg: "`g` only takes 12 arguments (got 1)".to_string() }),
    );
}

#[test]
fn native_functions_check_their_receiver() {
    assert_eq!(assert_no_this(&None), Ok(()));
    assert_eq!(
        assert_no_this(&Some(new_null())),
        Err(Error::Dev { msg: "'this' shouldn't exist".to_string() }),
    );
    assert_eq!(assert_this(Some(new_int(1))), Ok(new_int(1)));
    assert_eq!(assert_this(None), Err(Error::Dev { msg: "'this' doesn't exist".to_string() }));
}

#[test]
fn native_functions_read_strings_as_text() {
    assert_eq!(
        assert_str("this", &new_str_from_string("hé".to_string())),
        Ok("hé".to_string()),
    );
    assert_eq!(
        assert_str("this", &new_int(1)),
        Err(Error::Dev { msg: "dev err: expected 'string'".to_string() }),
    );
    assert_eq!(
        assert_str("arg", &new_str(vec![b'a', 0xff, b'b'])),
        Err(Error::BuiltinFuncErr {
            msg: "couldn't convert `arg` string to UTF-8: invalid utf-8 sequence of 1 bytes \
                  from index 1"
                .to_string(),
        }),
    );
}

#[test]
fn len_counts_the_bytes_of_a_string() {
    assert_eq!(str_len(Some(new_str_from_string("héllo".to_string())), vec![]), Ok(new_int(6)));
    assert_eq!(str_len(Some(new_str(vec![])), vec![]), Ok(new_int(0)));
    assert_eq!(str_len(Some(new_str(vec![0xff, 0xfe, 0x00])), vec![]), Ok(new_int(3)));
    assert_eq!(
        str_len(None, vec![]),
        Err(within(
            Context::AssertThisFailed,
            Error::Dev { msg: "'this' doesn't exist".to_string() },
        )),
    );
    assert_eq!(
        str_len(Some(new_int(1)), vec![]),
        Err(within(
            Context::AssertStrFailed,
            Error::Dev { msg: "dev err: expected 'string'".to_string() },
        )),
    );
    assert_eq!(
        str_len(Some(new_str(vec![])), vec![new_null()]),
        Err(within(
            Context::AssertArgsFailed,
            Error::BuiltinFuncErr { msg: "`len` only takes 0 arguments (got 1)".to_string() },
        )),
    );
}

#[test]
fn len_counts_the_items_of_a_list() {
    let mut m = Machine::new(0);
    let empty = new_list(&mut m, vec![]);
    let three = new_list(&mut m, vec![new_int(1), new_null(), new_str(vec![0xff])]);
    assert_eq!(list_len(&m, Some(empty), vec![]), Ok(new_int(0)));
    assert_eq!(list_len(&m, Some(three), vec![]), Ok(new_int(3)));
    assert_eq!(
        list_len(&m, None, vec![]),
        Err(within(
            Context::AssertThisFailed,
            Error::Dev { msg: "'this' doesn't exist".to_string() },
        )),
    );
    assert_eq!(
        list_len(&m, Some(new_int(1)), vec![]),
        Err(within(
            Context::AssertListFailed,
            Error::Dev { msg: "dev err: expected 'list'".to_string() },
        )),
    );
    assert_eq!(
        list_len(&m, Some(new_null()), vec![new_null()]),
        Err(within(
            Context::AssertArgsFailed,
            Error::BuiltinFuncErr { msg: "`len` only takes 0 arguments (got 1)".to_string() },
        )),
    );
}

#[test]
fn type_names_every_type() {
    let cases: Vec<(Value, &str)> = vec![
        (Value::Null, "null"),
        (Value::Bool(true), "bool"),
        (Value::Int(0), "int"),
        (Value::Str(vec![]), "string"),
        (Value::List(0), "list"),
        (Value::Object(0), "object"),
        (Value::BuiltinFunc { name: "print".to_string(), f: BuiltinFunc::Print }, "func"),
        (Value::Func(0), "func"),
    ];
    for (v, exp) in cases {
        assert_eq!(render_type(&v), exp);
        let this = SourcedValue { v, source: None };
        assert_eq!(any_type(Some(this), vec![]), Ok(new_str_from_string(exp.to_string())));
    }
}

#[test]
fn operators_have_their_symbols() {
    let cases = vec![
        (BinaryOp::Sum, "+"),
        (BinaryOp::Sub, "-"),
        (BinaryOp::Mul, "*"),
        (BinaryOp::Div, "/"),
        (BinaryOp::Mod, "%"),
        (BinaryOp::And, "&&"),
        (BinaryOp::Or, "||"),
        (BinaryOp::Eq, "=="),
        (BinaryOp::Ne, "!="),
        (BinaryOp::Gt, ">"),
        (BinaryOp::Gte, ">="),
        (BinaryOp::Lt, "<"),
        (BinaryOp::Lte, "<="),
        (BinaryOp::RefEq, "==="),
        (BinaryOp::RefNe, "!=="),
    ];
    for (op, exp) in cases {
        assert_eq!(op_symbol(&op), exp);
    }
}

#[test]
fn the_type_functions_are_objects_of_native_functions() {
    let mut m = Machine::new(0);
    let tf = type_functions(&mut m);
    let type_of = |m: &Machine, r: usize| m.object_get(r, &"type".to_string());
    assert_eq!(
        type_of(&m, tf.bools),
        Some(new_built_in_func("bool->type".to_string(), BuiltinFunc::AnyType)),
    );
    assert_eq!(
        type_of(&m, tf.ints),
        Some(new_built_in_func("int->type".to_string(), BuiltinFunc::AnyType)),
    );
    assert_eq!(
        type_of(&m, tf.strs),
        Some(new_built_in_func("str->type".to_string(), BuiltinFunc::AnyType)),
    );
    assert_eq!(
        type_of(&m, tf.lists),
        Some(new_built_in_func("list->type".to_string(), BuiltinFunc::AnyType)),
    );
    assert_eq!(
        type_of(&m, tf.objects),
        Some(new_built_in_func("object->type".to_string(), BuiltinFunc::AnyType)),
    );
    assert_eq!(
        type_of(&m, tf.funcs),
        Some(new_built_in_func("func->type".to_string(), BuiltinFunc::AnyType)),
    );
    assert_eq!(
        m.object_get(tf.strs, &"len".to_string()),
        Some(new_built_in_func("str->len".to_string(), BuiltinFunc::StrLen)),
    );
    assert_eq!(
        m.object_get(tf.lists, &"len".to_string()),
        Some(new_built_in_func("list->len".to_string(), BuiltinFunc::ListLen)),
    );
    assert_eq!(m.object_get(tf.objects, &"len".to_string()), None);
    assert_eq!(m.object_len(tf.strs), 2);
    assert_eq!(m.object_len(tf.lists), 2);
    assert_eq!(m.object_len(tf.ints), 1);
}

#[test]
fn the_builtins_are_sealed() {
    let mut m = Machine::new(0);
    let b = new_builtins(&mut m);
    assert_eq!(m.object_len(b.std), 0);
    assert_eq!(
        m.object_get(b.type_functions.strs, &"len".to_string()),
        Some(new_built_in_func("str->len".to_string(), BuiltinFunc::StrLen)),
    );
    // An object made afterwards gets a handle of its own.
    let o = m.alloc_object(vec![]);
    assert!(o > b.type_functions.funcs);
    assert!(o > b.std);
}

#[test]
fn a_function_map_keeps_the_later_of_two_functions_of_one_name() {
    let mut m = Machine::new(0);
    let r = new_func_map(
        &mut m,
        vec![
            ("b".to_string(), new_int(1)),
            ("a".to_string(), new_int(2)),
            ("b".to_string(), new_int(3)),
        ],
    );
    assert_eq!(m.object_len(r), 2);
    assert_eq!(m.object_key(r, 0), "a");
    assert_eq!(m.object_get(r, &"b".to_string()), Some(new_int(3)));
}

#[test]
fn print_writes_a_line() {
    let mut m = Machine::new(10);
    assert_eq!(print(&mut m, None, vec![new_int(5)]), Ok(new_null()));
    let xs = new_list(&mut m, vec![new_int(1)]);
    assert_eq!(print(&mut m, None, vec![xs]), Ok(new_null()));
    assert_eq!(m.output(), &b"5\n[\n    1,\n]\n".to_vec());
    assert_eq!(
        print(&mut m, Some(new_null()), vec![new_null()]),
        Err(within(
            Context::AssertNoThisFailed,
            Error::Dev { msg: "'this' shouldn't exist".to_string() },
        )),
    );
    assert_eq!(
        print(&mut m, None, vec![]),
        Err(within(
            Context::AssertArgsFailed,
            Error::BuiltinFuncErr { msg: "`print` only takes 1 argument (got 0)".to_string() },
        )),
    );
}

#[test]
fn showing_a_value_takes_a_step_for_each_value_in_it() {
    let mut m = Machine::new(3);
    let inner = new_list(&mut m, vec![new_int(1), new_int(2)]);
    assert_eq!(render(&mut m, &inner), Ok(b"[\n    1,\n    2,\n]".to_vec()));
    assert_eq!(m.fuel(), 0);
    assert_eq!(render(&mut m, &new_null()), Err(Error::StepLimitReached));
}
