use laria::eval::machine::Machine;
use laria::eval::scope::ScopeStack;
use laria::eval::value::new_bool;
use laria::eval::value::new_func;
use laria::eval::value::new_built_in_func;
use laria::eval::value::new_int;
use laria::eval::value::new_list;
use laria::eval::value::new_null;
use laria::eval::value::new_object;
use laria::eval::value::new_str;
use laria::eval::value::new_str_from_string;
use laria::eval::value::new_val_ref_with_no_source;
use laria::eval::value::new_val_ref_with_source;
use laria::eval::value::ref_eq;
use laria::eval::value::BuiltinFunc;
use laria::eval::value::SourcedValue;
use laria::eval::value::Value;

fn unsourced(v: Value) -> SourcedValue {
    SourcedValue { v, source: None }
}

#[test]
fn constructors_make_the_values_they_name() {
    assert_eq!(new_null(), unsourced(Value::Null));
    assert_eq!(new_bool(true), unsourced(Value::Bool(true)));
    assert_eq!(new_int(-7), unsourced(Value::Int(-7)));
    assert_eq!(new_str(vec![0xff, 0x00]), unsourced(Value::Str(vec![0xff, 0x00])));
    assert_eq!(
        new_str_from_string("hé".to_string()),
        unsourced(Value::Str(vec![0x68, 0xc3, 0xa9])),
    );
    assert_eq!(
        new_built_in_func("f".to_string(), BuiltinFunc::StrLen),
        unsourced(Value::BuiltinFunc { name: "f".to_string(), f: BuiltinFunc::StrLen }),
    );
    assert_eq!(new_val_ref_with_no_source(Value::Int(1)), unsourced(Value::Int(1)));
    assert_eq!(
        new_val_ref_with_source(Value::Int(1), Value::Bool(false)),
        SourcedValue { v: Value::Int(1), source: Some(Value::Bool(false)) },
    );
}

#[test]
fn new_lists_and_objects_get_handles_of_their_own() {
    let mut m = Machine::new(0);
    let a = new_list(&mut m, vec![new_int(1)]);
    let b = new_list(&mut m, vec![new_int(1)]);
    let o = new_object(&mut m, vec![("k".to_string(), new_int(2))]);
    match (&a.v, &b.v, &o.v) {
        (Value::List(x), Value::List(y), Value::Object(z)) => {
            assert!(ref_eq(x, x));
            assert!(!ref_eq(x, y));
            assert_eq!(m.list_len(*x), 1);
            assert_eq!(m.list_get(*y, 0), new_int(1));
            assert_eq!(m.object_len(*z), 1);
            assert_eq!(m.object_get(*z, &"k".to_string()), Some(new_int(2)));
            assert_eq!(m.object_get(*z, &"j".to_string()), None);
        },
        other => panic!("expected two lists and an object, got {:?}", other),
    }
}

#[test]
fn a_change_through_one_handle_shows_through_every_copy_of_it() {
    let mut m = Machine::new(0);
    let a = new_list(&mut m, vec![new_int(1), new_int(2)]);
    let copy = a.clone();
    if let (Value::List(x), Value::List(y)) = (&a.v, &copy.v) {
        m.list_set(*x, 1, new_str(vec![b'z']));
        assert_eq!(m.list_get(*y, 1), new_str(vec![b'z']));
        assert_eq!(m.list_get(*y, 0), new_int(1));
    } else {
        panic!("expected lists");
    }
}

#[test]
fn objects_keep_their_keys_in_order() {
    let mut m = Machine::new(0);
    let o = m.alloc_object(vec![]);
    for key in ["m", "b", "z", "a", "m"] {
        m.object_put(o, key.to_string(), new_str_from_string(key.to_string()));
    }
    let keys: Vec<String> = (0..m.object_len(o)).map(|i| m.object_key(o, i)).collect();
    assert_eq!(keys, vec!["a", "b", "m", "z"]);
    assert_eq!(m.object_value(o, 2), new_str_from_string("m".to_string()));
}

#[test]
fn a_name_is_declared_once_in_a_scope() {
    let mut m = Machine::new(0);
    let stack = ScopeStack::new(vec![]).new_from_push(&mut m, vec![]);
    assert_eq!(stack.declare(&mut m, "x", (1, 2), new_int(1)), Ok(()));
    assert_eq!(stack.declare(&mut m, "x", (3, 4), new_int(2)), Err((1, 2)));
    assert_eq!(stack.get(&m, &"x".to_string()), Some(new_int(1)));
    assert_eq!(stack.get(&m, &"y".to_string()), None);
}

#[test]
fn names_are_found_from_the_innermost_scope_outwards() {
    let mut m = Machine::new(0);
    let outer = ScopeStack::new(vec![]).new_from_push(&mut m, vec![]);
    assert_eq!(outer.len(), 1);
    assert_eq!(outer.declare(&mut m, "x", (1, 1), new_int(1)), Ok(()));
    assert_eq!(outer.declare(&mut m, "y", (1, 2), new_int(2)), Ok(()));
    let inner = outer.new_from_push(&mut m, vec![]);
    assert_eq!(inner.len(), 2);
    // The inner scope may declare a name of the outer scope again.
    assert_eq!(inner.declare(&mut m, "x", (2, 1), new_int(10)), Ok(()));
    assert_eq!(inner.get(&m, &"x".to_string()), Some(new_int(10)));
    assert_eq!(inner.get(&m, &"y".to_string()), Some(new_int(2)));
    assert_eq!(outer.get(&m, &"x".to_string()), Some(new_int(1)));
    // An assignment stores into the innermost scope that declares the name.
    assert!(inner.assign(&mut m, "x", new_int(11)));
    assert!(inner.assign(&mut m, "y", new_int(22)));
    assert!(!inner.assign(&mut m, "z", new_int(33)));
    assert_eq!(inner.get(&m, &"x".to_string()), Some(new_int(11)));
    assert_eq!(outer.get(&m, &"x".to_string()), Some(new_int(1)));
    // The scopes of the outer stack are shared with the inner one.
    assert_eq!(outer.get(&m, &"y".to_string()), Some(new_int(22)));
    assert_eq!(inner.get(&m, &"z".to_string()), None);
}

#[test]
fn set_stores_the_value() {
    let mut slot = new_int(1);
    laria::eval::scope::set(&mut slot, new_bool(false));
    assert_eq!(slot, new_bool(false));
}

#[test]
fn the_machine_counts_its_steps_down() {
    let mut m = Machine::new(2);
    assert_eq!(m.fuel(), 2);
    assert!(m.tick());
    assert!(m.tick());
    assert!(!m.tick());
    assert_eq!(m.fuel(), 0);
    m.emit(&vec![b'a', b'b']);
    m.emit(&vec![b'c']);
    assert_eq!(m.output(), &vec![b'a', b'b', b'c']);
}

#[test]
fn a_machine_gives_scopes_back_unless_a_function_was_made() {
    let params = vec![];
    let body = vec![];
    let mut m = Machine::new(0);
    let outer = ScopeStack::new(vec![]).new_from_push(&mut m, vec![]);
    assert_eq!(outer.declare(&mut m, "x", (1, 1), new_int(1)), Ok(()));
    let mark = m.mark();
    assert_eq!(mark, (1, 0));

    // Two scopes made and given back: the handles are free again.
    let inner = outer.new_from_push(&mut m, vec![]);
    let innermost = inner.new_from_push(&mut m, vec![]);
    assert_eq!(inner.0, vec![0, 1]);
    assert_eq!(innermost.0, vec![0, 1, 2]);
    assert_eq!(m.mark(), (3, 0));
    m.release(mark);
    assert_eq!(m.mark(), mark);
    assert_eq!(outer.get(&m, &"x".to_string()), Some(new_int(1)));
    let again = outer.new_from_push(&mut m, vec![]);
    assert_eq!(again.0, vec![0, 1]);
    m.release(mark);

    // A function made since the mark keeps every scope made since.
    let inner = outer.new_from_push(&mut m, vec![]);
    let f = new_func(&mut m, None, &params, false, &body, inner);
    assert_eq!(f, unsourced(Value::Func(0)));
    let _ = outer.new_from_push(&mut m, vec![]);
    assert_eq!(m.mark(), (3, 1));
    m.release(mark);
    assert_eq!(m.mark(), (3, 1));

    // A mark beyond what the machine holds gives nothing back.
    m.release((7, 1));
    assert_eq!(m.mark(), (3, 1));
    // Nothing was made since: nothing is given back.
    m.release(m.mark());
    assert_eq!(m.mark(), (3, 1));
}
