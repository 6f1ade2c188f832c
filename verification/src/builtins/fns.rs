//! `print`, and the checks that native functions make on what they are
//! given.

use vstd::prelude::*;
use vstd::utf8::decode_utf8;
use vstd::utf8::encode_utf8;
use vstd::utf8::valid_utf8;

use crate::eval::error::Context;
use crate::eval::error::Error;
use crate::eval::error::Failure;
use crate::eval::error::Result;
use crate::eval::error::ctx;
use crate::eval::error::in_context;
use crate::eval::error::rview;
use crate::eval::machine::Machine;
use crate::eval::state::Entries;
use crate::eval::state::Out;
use crate::eval::state::St;
use crate::eval::state::after;
use crate::eval::value::SVal;
use crate::eval::value::SourcedValue;
use crate::eval::value::Val;
use crate::eval::value::Value;
use crate::eval::value::new_null;
use crate::eval::value::opt_sval;
use crate::eval::value::svals;
use crate::eval::value::unsourced;
use crate::text::debug_string;
use crate::text::debug_text;
use crate::text::decimal;
use crate::text::i64_to_string;
use crate::text::int_text;
use crate::text::push_bytes;
use crate::text::push_text;
use crate::text::string_from_utf8;
use crate::text::usize_to_string;
use crate::text::utf8_error_text;

verus! {

/// The message for a native function called with the wrong number of
/// arguments.
pub open spec fn wrong_args_text(fn_name: Seq<char>, exp_args: usize, got: usize) -> Seq<char> {
    "`"@ + fn_name + "` only takes "@ + decimal(exp_args as nat) + " argument"@ + (if exp_args
        != 1 {
        "s"@
    } else {
        ""@
    }) + " (got "@ + decimal(got as nat) + ")"@
}

/// `BuiltinFuncErr`, with [`wrong_args_text`], unless `got` is `exp_args`.
pub open spec fn assert_args_spec(fn_name: Seq<char>, exp_args: usize, got: usize) -> core::result::Result<
    (),
    Failure,
> {
    if got != exp_args {
        Err(Failure::BuiltinFuncErr { msg: wrong_args_text(fn_name, exp_args, got) })
    } else {
        Ok(())
    }
}

/// Checks that a native function was given as many arguments as it takes.
pub fn assert_args(fn_name: &str, exp_args: usize, args: &[SourcedValue]) -> (r: Result<()>)
    ensures
        rview(r) == assert_args_spec(fn_name@, exp_args, args@.len() as usize),
{
    let args_len = args.len();
    if args_len != exp_args {
        let mut plural = "";
        if exp_args != 1 {
            plural = "s";
        }
        let mut msg = String::from_str("`");
        msg.append(fn_name);
        msg.append("` only takes ");
        msg.append(usize_to_string(exp_args).as_str());
        msg.append(" argument");
        msg.append(plural);
        msg.append(" (got ");
        msg.append(usize_to_string(args_len).as_str());
        msg.append(")");
        return Err(Error::BuiltinFuncErr { msg });
    }
    Ok(())
}

/// `Dev` if there is a receiver.
pub open spec fn assert_no_this_spec(this: Option<SVal>) -> core::result::Result<(), Failure> {
    if this is None {
        Ok(())
    } else {
        Err(Failure::Dev { msg: "'this' shouldn't exist"@ })
    }
}

pub fn assert_no_this(this: &Option<SourcedValue>) -> (r: Result<()>)
    ensures
        rview(r) == assert_no_this_spec(opt_sval(*this)),
{
    if this.is_none() {
        Ok(())
    } else {
        Err(Error::Dev { msg: String::from_str("'this' shouldn't exist") })
    }
}

/// The receiver; `Dev` if there is none.
pub open spec fn assert_this_spec(this: Option<SVal>) -> core::result::Result<SVal, Failure> {
    match this {
        Some(v) => Ok(v),
        None => Err(Failure::Dev { msg: "'this' doesn't exist"@ }),
    }
}

pub fn assert_this(this: Option<SourcedValue>) -> (r: Result<SourcedValue>)
    ensures
        rview(r) == assert_this_spec(opt_sval(this)),
        r matches Ok(v) ==> this == Some(v),
{
    if let Some(v) = this {
        Ok(v)
    } else {
        Err(Error::Dev { msg: String::from_str("'this' doesn't exist") })
    }
}

/// The text of the string `v`: `Dev` if `v` is no string, `BuiltinFuncErr`
/// if its bytes are not UTF-8.
pub open spec fn assert_str_spec(val_name: Seq<char>, v: SVal) -> core::result::Result<
    Seq<char>,
    Failure,
> {
    match v.v {
        Val::Str(raw) => if valid_utf8(raw) {
            Ok(decode_utf8(raw))
        } else {
            Err(
                Failure::BuiltinFuncErr {
                    msg: "couldn't convert `"@ + val_name + "` string to UTF-8: "@
                        + utf8_error_text(raw),
                },
            )
        },
        _ => Err(Failure::Dev { msg: "dev err: expected 'string'"@ }),
    }
}

pub fn assert_str(val_name: &str, v: &SourcedValue) -> (r: Result<String>)
    ensures
        rview(r) == assert_str_spec(val_name@, v@),
{
    if let Value::Str(raw_str) = &v.v {
        match string_from_utf8(raw_str.clone()) {
            Ok(s) => Ok(s),
            Err(e) => {
                let mut msg = String::from_str("couldn't convert `");
                msg.append(val_name);
                msg.append("` string to UTF-8: ");
                msg.append(e.as_str());
                Err(Error::BuiltinFuncErr { msg })
            },
        }
    } else {
        Err(Error::Dev { msg: String::from_str("dev err: expected 'string'") })
    }
}

/// `bytes` with four spaces put in after every line feed.
pub open spec fn indent(bytes: Seq<u8>) -> Seq<u8>
    decreases bytes.len(),
{
    if bytes.len() == 0 {
        seq![]
    } else if bytes.last() == 10u8 {
        indent(bytes.drop_last()) + seq![10u8, 32u8, 32u8, 32u8, 32u8]
    } else {
        indent(bytes.drop_last()).push(bytes.last())
    }
}

fn indented(bytes: &Vec<u8>) -> (r: Vec<u8>)
    ensures
        r@ == indent(bytes@),
{
    let mut out: Vec<u8> = Vec::new();
    let mut i: usize = 0;
    while i < bytes.len()
        invariant
            i <= bytes.len(),
            out@ == indent(bytes@.take(i as int)),
        decreases bytes.len() - i,
    {
        let b = bytes[i];
        proof {
            let next = bytes@.take(i + 1);
            assert(next.drop_last() =~= bytes@.take(i as int));
            assert(next.last() == b);
        }
        out.push(b);
        if b == 10 {
            out.push(32);
            out.push(32);
            out.push(32);
            out.push(32);
            assert(out@ =~= indent(bytes@.take(i as int)) + seq![10u8, 32u8, 32u8, 32u8, 32u8]);
        }
        i = i + 1;
    }
    assert(bytes@.take(i as int) =~= bytes@);
    out
}

/// How `print` shows a value, in UTF-8: `<null>`, `true` or `false`, an
/// integer in decimal, the bytes of a string as they are, a list as its
/// items between brackets and an object as its properties between braces,
/// one to a line and indented by four spaces, the properties in the order
/// of their keys, and a function by its name. A string that is not UTF-8
/// cannot be shown. Each value shown takes one step.
pub open spec fn render_spec(st: St, v: Val) -> Out<Seq<u8>>
    decreases st.fuel, 0nat, 0nat,
{
    if st.fuel == 0 {
        (st, Err(Failure::StepLimitReached))
    } else {
        let st = st.tick();
        match v {
            Val::Null => (st, Ok(encode_utf8("<null>"@))),
            Val::Bool(b) => (
                st,
                Ok(
                    encode_utf8(
                        if b {
                            "true"@
                        } else {
                            "false"@
                        },
                    ),
                ),
            ),
            Val::Int(n) => (st, Ok(encode_utf8(int_text(n as int)))),
            Val::Str(raw) => if valid_utf8(raw) {
                (st, Ok(raw))
            } else {
                (
                    st,
                    Err(
                        Failure::BuiltinFuncErr {
                            msg: "couldn't convert error message to UTF-8: "@ + utf8_error_text(
                                raw,
                            ),
                        },
                    ),
                )
            },
            Val::List(r) => render_items_spec(st, st.lists[r as int], 0, encode_utf8("[\n"@)),
            Val::Object(r) => render_props_spec(st, st.objects[r as int], 0, encode_utf8("{\n"@)),
            Val::BuiltinFunc { name, .. } => (
                st,
                Ok(encode_utf8("<built-in function '"@) + encode_utf8(name) + encode_utf8("'>"@)),
            ),
            Val::Func(r) => (
                st,
                Ok(
                    encode_utf8("<function '"@) + encode_utf8(debug_text(st.funcs[r as int].name))
                        + encode_utf8("'>"@),
                ),
            ),
        }
    }
}

/// `acc`, then the items of `items` from `i` on, each on a line of its own,
/// then the closing bracket.
pub open spec fn render_items_spec(st: St, items: Seq<SVal>, i: int, acc: Seq<u8>) -> Out<Seq<u8>>
    decreases st.fuel, 1nat, items.len() - i,
{
    if i < 0 || i >= items.len() {
        (st, Ok(acc + encode_utf8("]"@)))
    } else {
        let (st1, r) = after(st, render_spec(st, items[i].v));
        match r {
            Err(e) => (st1, Err(e)),
            Ok(bytes) => render_items_spec(
                st1,
                items,
                i + 1,
                acc + encode_utf8("    "@) + indent(bytes) + encode_utf8(",\n"@),
            ),
        }
    }
}

/// `acc`, then the properties of `es` from `i` on, each on a line of its
/// own, then the closing brace.
pub open spec fn render_props_spec(st: St, es: Entries<SVal>, i: int, acc: Seq<u8>) -> Out<Seq<u8>>
    decreases st.fuel, 1nat, es.len() - i,
{
    if i < 0 || i >= es.len() {
        (st, Ok(acc + encode_utf8("}"@)))
    } else {
        let (st1, r) = after(st, render_spec(st, es[i].1.v));
        match r {
            Err(e) => (st1, Err(e)),
            Ok(bytes) => render_props_spec(
                st1,
                es,
                i + 1,
                acc + encode_utf8("    \""@) + encode_utf8(es[i].0) + encode_utf8("\": "@) + indent(
                    bytes,
                ) + encode_utf8(",\n"@),
            ),
        }
    }
}

/// Shows `v` as `print` does.
pub fn render<'a>(m: &mut Machine<'a>, v: &SourcedValue) -> (r: Result<Vec<u8>>)
    requires
        old(m)@.wf(),
        old(m)@.sval_ok(v@),
    ensures
        (final(m)@, rview(r)) == render_spec(old(m)@, v@.v),
        final(m)@ == old(m)@.with_fuel(final(m)@.fuel),
        final(m)@.fuel <= old(m)@.fuel,
        final(m)@.wf(),
        old(m)@.grows_to(final(m)@),
        old(m)@.keeps_names(final(m)@, None),
    decreases old(m)@.fuel, 0nat, 0nat,
{
    if !m.tick() {
        return Err(Error::StepLimitReached);
    }
    let ghost st = m@;
    let mut s: Vec<u8> = Vec::new();
    match &v.v {
        Value::Null => {
            push_text(&mut s, "<null>");
        },
        Value::Bool(b) => {
            if *b {
                push_text(&mut s, "true");
            } else {
                push_text(&mut s, "false");
            }
        },
        Value::Int(n) => {
            push_text(&mut s, i64_to_string(*n).as_str());
        },
        Value::Str(raw_str) => {
            match string_from_utf8(raw_str.clone()) {
                Ok(_) => {
                    push_bytes(&mut s, raw_str);
                },
                Err(e) => {
                    let mut msg = String::from_str("couldn't convert error message to UTF-8: ");
                    msg.append(e.as_str());
                    return Err(Error::BuiltinFuncErr { msg });
                },
            }
        },
        Value::List(items) => {
            push_text(&mut s, "[\n");
            let n = m.list_len(*items);
            let ghost xs = st.lists[*items as int];
            let mut i: usize = 0;
            while i < n
                invariant
                    i <= n,
                    n == xs.len(),
                    *items < st.lists.len(),
                    xs == st.lists[*items as int],
                    v@.v == Val::List(*items),
                    old(m)@.fuel > 0,
                    st == old(m)@.tick(),
                    st.wf(),
                    m@ == st.with_fuel(m@.fuel),
                    m@.fuel <= st.fuel,
                    m@.wf(),
                    old(m)@.keeps_names(m@, None),
                    render_items_spec(st, xs, 0, encode_utf8("[\n"@)) == render_items_spec(
                        m@,
                        xs,
                        i as int,
                        s@,
                    ),
                decreases n - i,
            {
                let item = m.list_get(*items, i);
                proof {
                    assert(st.svals_ok(xs));
                    assert(st.sval_ok(xs[i as int]));
                }
                let rendered_item = render(m, &item)?;
                push_text(&mut s, "    ");
                push_bytes(&mut s, &indented(&rendered_item));
                push_text(&mut s, ",\n");
                i = i + 1;
            }
            push_text(&mut s, "]");
        },
        Value::Object(props) => {
            push_text(&mut s, "{\n");
            let n = m.object_len(*props);
            let ghost es = st.objects[*props as int];
            let mut i: usize = 0;
            while i < n
                invariant
                    i <= n,
                    n == es.len(),
                    *props < st.objects.len(),
                    es == st.objects[*props as int],
                    v@.v == Val::Object(*props),
                    old(m)@.fuel > 0,
                    st == old(m)@.tick(),
                    st.wf(),
                    m@ == st.with_fuel(m@.fuel),
                    m@.fuel <= st.fuel,
                    m@.wf(),
                    old(m)@.keeps_names(m@, None),
                    render_props_spec(st, es, 0, encode_utf8("{\n"@)) == render_props_spec(
                        m@,
                        es,
                        i as int,
                        s@,
                    ),
                decreases n - i,
            {
                let name = m.object_key(*props, i);
                let prop = m.object_value(*props, i);
                proof {
                    assert(st.props_ok(es));
                    assert(st.sval_ok(es[i as int].1));
                }
                let rendered_prop = render(m, &prop)?;
                push_text(&mut s, "    \"");
                push_text(&mut s, name.as_str());
                push_text(&mut s, "\": ");
                push_bytes(&mut s, &indented(&rendered_prop));
                push_text(&mut s, ",\n");
                i = i + 1;
            }
            push_text(&mut s, "}");
        },
        Value::BuiltinFunc { name, .. } => {
            push_text(&mut s, "<built-in function '");
            push_text(&mut s, name.as_str());
            push_text(&mut s, "'>");
        },
        Value::Func(f) => {
            let shown = debug_string(&m.func(*f).name);
            push_text(&mut s, "<function '");
            push_text(&mut s, shown.as_str());
            push_text(&mut s, "'>");
        },
    }
    Ok(s)
}

/// What `print` does: it takes one argument and no receiver, and writes the
/// argument as [`render_spec`] shows it, then a line feed. Its result is
/// `null`.
pub open spec fn print_spec(st: St, this: Option<SVal>, args: Seq<SVal>) -> Out<SVal> {
    match ctx(assert_args_spec("print"@, 1, args.len() as usize), Context::AssertArgsFailed) {
        Err(e) => (st, Err(e)),
        Ok(_) => match ctx(assert_no_this_spec(this), Context::AssertNoThisFailed) {
            Err(e) => (st, Err(e)),
            Ok(_) => {
                let (st1, r) = render_spec(st, args[0].v);
                match r {
                    Err(e) => (st1, Err(e)),
                    Ok(bytes) => (
                        st1.emit(bytes + encode_utf8("\n"@)),
                        Ok(unsourced(Val::Null)),
                    ),
                }
            },
        },
    }
}

pub fn print<'a>(m: &mut Machine<'a>, this: Option<SourcedValue>, args: Vec<SourcedValue>) -> (r:
    Result<SourcedValue>)
    requires
        old(m)@.wf(),
        old(m)@.svals_ok(svals(args@)),
    ensures
        (final(m)@, rview(r)) == print_spec(old(m)@, opt_sval(this), svals(args@)),
        final(m)@.wf(),
        old(m)@.grows_to(final(m)@),
        old(m)@.keeps_names(final(m)@, None),
        r matches Ok(v) ==> final(m)@.sval_ok(v@),
{
    in_context(assert_args("print", 1, args.as_slice()), Context::AssertArgsFailed)?;
    in_context(assert_no_this(&this), Context::AssertNoThisFailed)?;
    proof {
        assert(old(m)@.sval_ok(svals(args@)[0]));
    }
    let mut s = render(m, &args[0])?;
    push_text(&mut s, "\n");
    m.emit(&s);
    Ok(new_null())
}

} // verus!
