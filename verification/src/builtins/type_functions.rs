//! The functions that every value of a type has: `type` for all of them,
//! and `len` for strings and lists.

use vstd::prelude::*;
use vstd::utf8::encode_utf8;

use crate::builtins::fns::assert_args;
use crate::builtins::fns::assert_args_spec;
use crate::builtins::fns::assert_this;
use crate::builtins::fns::assert_this_spec;
use crate::builtins::fns::print;
use crate::builtins::fns::print_spec;
use crate::eval::builtins::Builtins;
use crate::eval::builtins::TypeFunctions;
use crate::eval::error::Context;
use crate::eval::error::Error;
use crate::eval::error::Failure;
use crate::eval::error::Result;
use crate::eval::error::ctx;
use crate::eval::error::in_context;
use crate::eval::error::render_type;
use crate::eval::error::rview;
use crate::eval::error::type_text;
use crate::eval::machine::Machine;
use crate::eval::machine::props;
use crate::eval::machine::put_entry;
use crate::eval::state::Entries;
use crate::eval::state::Out;
use crate::eval::state::St;
use crate::eval::state::lemma_put_no_object;
use crate::eval::state::lemma_put_props_ok;
use crate::eval::state::no_object;
use crate::eval::state::props_hold_no_object;
use crate::eval::state::put_all;
use crate::eval::state::sorted;
use crate::eval::value::BuiltinFunc;
use crate::eval::value::Object;
use crate::eval::value::ObjectRef;
use crate::eval::value::SVal;
use crate::eval::value::SourcedValue;
use crate::eval::value::Val;
use crate::eval::value::Value;
use crate::eval::value::new_built_in_func;
use crate::eval::value::new_int;
use crate::eval::value::new_str_from_string;
use crate::eval::value::opt_sval;
use crate::eval::value::svals;
use crate::eval::value::unsourced;

verus! {

/// The native function `f` under the name `name`.
pub open spec fn native(name: Seq<char>, f: BuiltinFunc) -> SVal {
    unsourced(Val::BuiltinFunc { name, f })
}

/// The functions of the type called `prefix`: `type` for every type, and
/// `len` too, standing for `len`, where the type has a length.
pub open spec fn type_namespace(prefix: Seq<char>, len: Option<BuiltinFunc>) -> Entries<SVal> {
    let type_entry = ("type"@, native(prefix + "->type"@, BuiltinFunc::AnyType));
    match len {
        Some(f) => seq![("len"@, native(prefix + "->len"@, f)), type_entry],
        None => seq![type_entry],
    }
}

/// Six new objects, one for each type that has functions, and their
/// handles. Every type offers `type`; strings and lists offer `len` too.
pub open spec fn type_functions_spec(st: St) -> (St, TypeFunctions) {
    let first = st.objects.len();
    (
        st.with_object(put_all(seq![], type_namespace("bool"@, None), 0)).with_object(
            put_all(seq![], type_namespace("int"@, None), 0),
        ).with_object(
            put_all(seq![], type_namespace("str"@, Some(BuiltinFunc::StrLen)), 0),
        ).with_object(
            put_all(seq![], type_namespace("list"@, Some(BuiltinFunc::ListLen)), 0),
        ).with_object(put_all(seq![], type_namespace("object"@, None), 0)).with_object(
            put_all(seq![], type_namespace("func"@, None), 0),
        ),
        TypeFunctions {
            bools: first as usize,
            ints: (first + 1) as usize,
            strs: (first + 2) as usize,
            lists: (first + 3) as usize,
            objects: (first + 4) as usize,
            funcs: (first + 5) as usize,
        },
    )
}

fn type_entry(prefix: &str) -> (e: (String, SourcedValue))
    ensures
        (e.0@, e.1@) == ("type"@, native(prefix@ + "->type"@, BuiltinFunc::AnyType)),
{
    let mut name = String::from_str(prefix);
    name.append("->type");
    (String::from_str("type"), new_built_in_func(name, BuiltinFunc::AnyType))
}

fn type_only<'a>(m: &mut Machine<'a>, prefix: &str) -> (r: ObjectRef)
    requires
        old(m)@.wf(),
    ensures
        final(m)@ == old(m)@.with_object(put_all(seq![], type_namespace(prefix@, None), 0)),
        r == old(m)@.objects.len(),
        final(m)@.wf(),
        old(m)@.grows_to(final(m)@),
        old(m)@.keeps_names(final(m)@, None),
        props_hold_no_object(final(m)@.objects[r as int]),
{
    let mut funcs: Vec<(String, SourcedValue)> = Vec::new();
    funcs.push(type_entry(prefix));
    assert(props(funcs@) =~= type_namespace(prefix@, None));
    new_func_map(m, funcs)
}

fn type_with_len<'a>(m: &mut Machine<'a>, prefix: &str, len: BuiltinFunc) -> (r: ObjectRef)
    requires
        old(m)@.wf(),
    ensures
        final(m)@ == old(m)@.with_object(put_all(seq![], type_namespace(prefix@, Some(len)), 0)),
        r == old(m)@.objects.len(),
        final(m)@.wf(),
        old(m)@.grows_to(final(m)@),
        old(m)@.keeps_names(final(m)@, None),
        props_hold_no_object(final(m)@.objects[r as int]),
{
    let mut name = String::from_str(prefix);
    name.append("->len");
    let mut funcs: Vec<(String, SourcedValue)> = Vec::new();
    funcs.push((String::from_str("len"), new_built_in_func(name, len)));
    funcs.push(type_entry(prefix));
    assert(props(funcs@) =~= type_namespace(prefix@, Some(len)));
    new_func_map(m, funcs)
}

pub fn type_functions<'a>(m: &mut Machine<'a>) -> (tf: TypeFunctions)
    requires
        old(m)@.wf(),
    ensures
        (final(m)@, tf) == type_functions_spec(old(m)@),
        final(m)@.wf(),
        old(m)@.grows_to(final(m)@),
        old(m)@.keeps_names(final(m)@, None),
        tf.bools < final(m)@.objects.len(),
        tf.ints < final(m)@.objects.len(),
        tf.strs < final(m)@.objects.len(),
        tf.lists < final(m)@.objects.len(),
        tf.objects < final(m)@.objects.len(),
        tf.funcs < final(m)@.objects.len(),
        forall|r: int|
            old(m)@.objects.len() <= r < final(m)@.objects.len() ==> props_hold_no_object(
                #[trigger] final(m)@.objects[r],
            ),
{
    let bools = type_only(m, "bool");
    let ints = type_only(m, "int");
    let strs = type_with_len(m, "str", BuiltinFunc::StrLen);
    let lists = type_with_len(m, "list", BuiltinFunc::ListLen);
    let objects = type_only(m, "object");
    let funcs = type_only(m, "func");
    TypeFunctions { bools, ints, strs, lists, objects, funcs }
}

/// A new object that maps each name of `funcs` to its function.
pub fn new_func_map<'a>(m: &mut Machine<'a>, funcs: Vec<(String, SourcedValue)>) -> (r: ObjectRef)
    requires
        old(m)@.wf(),
        old(m)@.props_ok(props(funcs@)),
    ensures
        final(m)@ == old(m)@.with_object(put_all(seq![], props(funcs@), 0)),
        r == old(m)@.objects.len(),
        final(m)@.wf(),
        old(m)@.grows_to(final(m)@),
        old(m)@.keeps_names(final(m)@, None),
        props_hold_no_object(props(funcs@)) ==> props_hold_no_object(
            final(m)@.objects[r as int],
        ),
{
    let mut es: Object = Vec::new();
    let ghost all = props(funcs@);
    let mut i: usize = 0;
    assert(props(es@) =~= seq![]);
    while i < funcs.len()
        invariant
            i <= funcs.len(),
            all == props(funcs@),
            sorted(props(es@)),
            m@.props_ok(props(es@)),
            m@.props_ok(all),
            props_hold_no_object(all) ==> props_hold_no_object(props(es@)),
            put_all(seq![], all, 0) == put_all(props(es@), all, i as int),
        decreases funcs.len() - i,
    {
        let key = funcs[i].0.clone();
        let v = funcs[i].1.clone();
        proof {
            assert(m@.sval_ok(all[i as int].1));
            lemma_put_props_ok(m@, props(es@), key@, v@);
            if props_hold_no_object(all) {
                assert(no_object(all[i as int].1));
                lemma_put_no_object(props(es@), key@, v@);
            }
        }
        put_entry(&mut es, key, v);
        i = i + 1;
    }
    m.alloc_object(es)
}

/// What `len` gives: it takes no argument, and its receiver is a string.
/// The result is the number of the bytes of the string.
pub open spec fn str_len_spec(this: Option<SVal>, args: Seq<SVal>) -> core::result::Result<
    SVal,
    Failure,
> {
    match ctx(assert_args_spec("len"@, 0, args.len() as usize), Context::AssertArgsFailed) {
        Err(e) => Err(e),
        Ok(_) => match ctx(assert_this_spec(this), Context::AssertThisFailed) {
            Err(e) => Err(e),
            Ok(this) => match this.v {
                Val::Str(raw) => if raw.len() > i64::MAX {
                    Err(Failure::CastFailed)
                } else {
                    Ok(unsourced(Val::Int(raw.len() as i64)))
                },
                _ => Err(
                    Failure::Dev { msg: "dev err: expected 'string'"@ }.within(
                        Context::AssertStrFailed,
                    ),
                ),
            },
        },
    }
}

pub fn str_len(this: Option<SourcedValue>, vs: Vec<SourcedValue>) -> (r: Result<SourcedValue>)
    ensures
        rview(r) == str_len_spec(opt_sval(this), svals(vs@)),
{
    in_context(assert_args("len", 0, vs.as_slice()), Context::AssertArgsFailed)?;
    let this = in_context(assert_this(this), Context::AssertThisFailed)?;
    match &this.v {
        Value::Str(raw) => {
            let n = raw.len();
            if n as u64 > i64::MAX as u64 {
                return Err(Error::CastFailed);
            }
            Ok(new_int(n as i64))
        },
        _ => in_context(
            Err(Error::Dev { msg: String::from_str("dev err: expected 'string'") }),
            Context::AssertStrFailed,
        ),
    }
}

/// What `len` gives on a list: it takes no argument, and its receiver is a
/// list. The result is the number of the items that the list holds.
pub open spec fn list_len_spec(st: St, this: Option<SVal>, args: Seq<SVal>) -> core::result::Result<
    SVal,
    Failure,
> {
    match ctx(assert_args_spec("len"@, 0, args.len() as usize), Context::AssertArgsFailed) {
        Err(e) => Err(e),
        Ok(_) => match ctx(assert_this_spec(this), Context::AssertThisFailed) {
            Err(e) => Err(e),
            Ok(this) => match this.v {
                Val::List(r) => if st.lists[r as int].len() > i64::MAX {
                    Err(Failure::CastFailed)
                } else {
                    Ok(unsourced(Val::Int(st.lists[r as int].len() as i64)))
                },
                _ => Err(
                    Failure::Dev { msg: "dev err: expected 'list'"@ }.within(
                        Context::AssertListFailed,
                    ),
                ),
            },
        },
    }
}

pub fn list_len<'a>(m: &Machine<'a>, this: Option<SourcedValue>, vs: Vec<SourcedValue>) -> (r:
    Result<SourcedValue>)
    requires
        m@.wf(),
        this matches Some(t) ==> m@.sval_ok(t@),
    ensures
        rview(r) == list_len_spec(m@, opt_sval(this), svals(vs@)),
{
    in_context(assert_args("len", 0, vs.as_slice()), Context::AssertArgsFailed)?;
    let this = in_context(assert_this(this), Context::AssertThisFailed)?;
    match &this.v {
        Value::List(list) => {
            let n = m.list_len(*list);
            if n as u64 > i64::MAX as u64 {
                return Err(Error::CastFailed);
            }
            Ok(new_int(n as i64))
        },
        _ => in_context(
            Err(Error::Dev { msg: String::from_str("dev err: expected 'list'") }),
            Context::AssertListFailed,
        ),
    }
}

/// What `type` gives: it takes no argument, and its result is the name of
/// the type of its receiver, as a string.
pub open spec fn any_type_spec(this: Option<SVal>, args: Seq<SVal>) -> core::result::Result<
    SVal,
    Failure,
> {
    match ctx(assert_args_spec("type"@, 0, args.len() as usize), Context::AssertArgsFailed) {
        Err(e) => Err(e),
        Ok(_) => match ctx(assert_this_spec(this), Context::AssertThisFailed) {
            Err(e) => Err(e),
            Ok(this) => Ok(unsourced(Val::Str(encode_utf8(type_text(this.v))))),
        },
    }
}

pub fn any_type(this: Option<SourcedValue>, vs: Vec<SourcedValue>) -> (r: Result<SourcedValue>)
    ensures
        rview(r) == any_type_spec(opt_sval(this), svals(vs@)),
{
    in_context(assert_args("type", 0, vs.as_slice()), Context::AssertArgsFailed)?;
    let this = in_context(assert_this(this), Context::AssertThisFailed)?;
    let s = render_type(&this.v);
    Ok(new_str_from_string(s))
}

/// What calling the native function `f` does.
pub open spec fn call_builtin_spec(st: St, f: BuiltinFunc, this: Option<SVal>, args: Seq<SVal>) -> Out<
    SVal,
> {
    match f {
        BuiltinFunc::Print => print_spec(st, this, args),
        BuiltinFunc::AnyType => (st, any_type_spec(this, args)),
        BuiltinFunc::StrLen => (st, str_len_spec(this, args)),
        BuiltinFunc::ListLen => (st, list_len_spec(st, this, args)),
    }
}

/// Calls the native function `f`.
pub fn call_builtin<'a>(
    m: &mut Machine<'a>,
    f: BuiltinFunc,
    this: Option<SourcedValue>,
    args: Vec<SourcedValue>,
) -> (r: Result<SourcedValue>)
    requires
        old(m)@.wf(),
        old(m)@.svals_ok(svals(args@)),
        this matches Some(t) ==> old(m)@.sval_ok(t@),
    ensures
        (final(m)@, rview(r)) == call_builtin_spec(old(m)@, f, opt_sval(this), svals(args@)),
        final(m)@.wf(),
        old(m)@.grows_to(final(m)@),
        old(m)@.keeps_names(final(m)@, None),
        r matches Ok(v) ==> final(m)@.sval_ok(v@),
{
    match f {
        BuiltinFunc::Print => print(m, this, args),
        BuiltinFunc::AnyType => any_type(this, args),
        BuiltinFunc::StrLen => str_len(this, args),
        BuiltinFunc::ListLen => list_len(m, this, args),
    }
}

/// What [`new_builtins`] makes of a machine: the standard library, which is
/// an object without properties, and the objects of the type functions, all
/// sealed.
pub open spec fn new_builtins_spec(st: St) -> (St, Builtins) {
    let (st1, tf) = type_functions_spec(st.with_object(seq![]));
    (st1.seal(), Builtins { std: st.objects.len() as usize, type_functions: tf })
}

/// Makes what the evaluator is given besides the program, in a machine that
/// holds nothing yet, and seals it: no script reaches or changes the
/// objects of the type functions.
pub fn new_builtins<'a>(m: &mut Machine<'a>) -> (b: Builtins)
    requires
        old(m)@.wf(),
        old(m)@.lists.len() == 0,
        old(m)@.objects.len() == 0,
        old(m)@.scopes.len() == 0,
    ensures
        (final(m)@, b) == new_builtins_spec(old(m)@),
        final(m)@.wf(),
        b.ok(final(m)@),
        final(m)@.lists.len() == 0,
        final(m)@.scopes.len() == 0,
{
    let std = m.alloc_object(Vec::new());
    proof {
        assert(props(Seq::<(String, SourcedValue)>::empty()) =~= seq![]);
    }
    let ghost st1 = m@;
    let type_functions = type_functions(m);
    proof {
        assert forall|r: int, i: int|
            0 <= r < m@.objects.len() && 0 <= i < m@.objects[r].len() implies no_object(
            (#[trigger] m@.objects[r][i]).1,
        ) by {
            if r >= 1 {
                assert(props_hold_no_object(m@.objects[r]));
            }
        }
    }
    m.seal();
    Builtins { std, type_functions }
}

} // verus!
