use emlite::console::Console;
use emlite::registry::CallbackRegistry;
use emlite::runtime::Runtime;
use emlite::value::{Val, build_args};

fn identity(h: u32) -> u32 {
    h
}

fn to_null(_h: u32) -> u32 {
    0
}

fn out_of_table(_h: u32) -> u32 {
    4000000000
}

#[test]
fn register_hands_out_strictly_increasing_ids() {
    let mut reg: CallbackRegistry<fn(u32) -> u32> = CallbackRegistry::new();
    assert_eq!(reg.len(), 0);
    let a = reg.register(identity);
    let b = reg.register(to_null);
    let c = reg.register(identity);
    assert_eq!(a, 0);
    assert_eq!(b, 1);
    assert_eq!(c, 2);
    assert!(a < b && b < c);
    assert_eq!(reg.len(), 3);
}

#[test]
fn dispatch_invokes_the_function_registered_at_the_id() {
    let mut reg: CallbackRegistry<fn(u32) -> u32> = CallbackRegistry::new();
    let a = reg.register(identity);
    let b = reg.register(to_null);
    assert_eq!(reg.dispatch(a, 77), 77);
    assert_eq!(reg.dispatch(b, 77), 0);
    assert_eq!(reg.dispatch(a, 5), 5);
}

#[test]
fn build_args_preserves_order() {
    let mut rt = Runtime::new();
    let a = Val::from_i32(&mut rt, 1);
    let b = Val::from_str(&mut rt, "x");
    let c = Val::from_bool(&mut rt, true);
    let args = [a, b, c];
    let arr = build_args(&mut rt, &args);
    let len = arr.get(&mut rt, "length");
    assert_eq!(len.as_i32(&rt), 3);
    assert_eq!(arr.at(&mut rt, 0).as_handle(), args[0].as_handle());
    assert_eq!(arr.at(&mut rt, 1).as_handle(), args[1].as_handle());
    assert_eq!(arr.at(&mut rt, 2).as_handle(), args[2].as_handle());
}

#[test]
fn invoke_presents_arguments_in_order() {
    let mut rt = Runtime::new();
    let mut reg: CallbackRegistry<fn(u32) -> u32> = CallbackRegistry::new();
    let f = Val::make_fn(&mut rt, &mut reg, identity as fn(u32) -> u32);
    let a = Val::from_i32(&mut rt, 1);
    let b = Val::from_i32(&mut rt, 2);
    let c = Val::from_i32(&mut rt, 3);
    let args = [a, b, c];
    let seen = f.invoke(&mut rt, &reg, &args);
    assert_eq!(seen.type_of(&rt), "object");
    assert_eq!(seen.to_vec_i32(&mut rt), vec![1, 2, 3]);
    assert_eq!(seen.at(&mut rt, 0).as_handle(), args[0].as_handle());
    assert_eq!(seen.at(&mut rt, 1).as_handle(), args[1].as_handle());
    assert_eq!(seen.at(&mut rt, 2).as_handle(), args[2].as_handle());
}

#[test]
fn invoke_with_mixed_types_matches_per_element() {
    let mut rt = Runtime::new();
    let mut reg: CallbackRegistry<fn(u32) -> u32> = CallbackRegistry::new();
    let f = Val::make_fn(&mut rt, &mut reg, identity as fn(u32) -> u32);
    let a = Val::from_i32(&mut rt, 1);
    let b = Val::from_str(&mut rt, "x");
    let c = Val::from_bool(&mut rt, true);
    let args = [a, b, c];
    let seen = f.invoke(&mut rt, &reg, &args);
    let e0 = seen.at(&mut rt, 0);
    let e1 = seen.at(&mut rt, 1);
    let e2 = seen.at(&mut rt, 2);
    assert_eq!(e0.type_of(&rt), "number");
    assert_eq!(e1.type_of(&rt), "string");
    assert_eq!(e2.type_of(&rt), "boolean");
    assert_eq!(e0.as_i32(&rt), 1);
    assert_eq!(e1.as_string(&rt), "x");
}

#[test]
fn invoke_of_a_non_callable_yields_undefined() {
    let mut rt = Runtime::new();
    let reg: CallbackRegistry<fn(u32) -> u32> = CallbackRegistry::new();
    let v = Val::from_i32(&mut rt, 9);
    let r = v.invoke(&mut rt, &reg, &[]);
    assert_eq!(r.type_of(&rt), "undefined");
}

#[test]
fn invoke_wraps_a_stray_result_as_undefined() {
    let mut rt = Runtime::new();
    let mut reg: CallbackRegistry<fn(u32) -> u32> = CallbackRegistry::new();
    let f = Val::make_fn(&mut rt, &mut reg, out_of_table as fn(u32) -> u32);
    let r = f.invoke(&mut rt, &reg, &[]);
    assert_eq!(r.type_of(&rt), "undefined");
}

#[test]
fn invoke_result_is_owned() {
    let mut rt = Runtime::new();
    let mut reg: CallbackRegistry<fn(u32) -> u32> = CallbackRegistry::new();
    let f = Val::make_fn(&mut rt, &mut reg, to_null as fn(u32) -> u32);
    let r = f.invoke(&mut rt, &reg, &[]);
    assert_eq!(r.type_of(&rt), "object");
    assert_eq!(r.as_handle(), 0);
    assert!(rt.ref_count(0) >= 2);
}

#[test]
fn method_call_dispatches_through_the_property() {
    let mut rt = Runtime::new();
    let mut reg: CallbackRegistry<fn(u32) -> u32> = CallbackRegistry::new();
    let obj = Val::object(&mut rt);
    let m = Val::make_fn(&mut rt, &mut reg, identity as fn(u32) -> u32);
    obj.set(&mut rt, "echo", &m);
    let a = Val::from_i32(&mut rt, 4);
    let b = Val::from_i32(&mut rt, 5);
    let args = [a, b];
    let seen = obj.call(&mut rt, &reg, "echo", &args);
    assert_eq!(seen.to_vec_i32(&mut rt), vec![4, 5]);
}

#[test]
fn method_call_on_a_missing_method_yields_undefined() {
    let mut rt = Runtime::new();
    let reg: CallbackRegistry<fn(u32) -> u32> = CallbackRegistry::new();
    let obj = Val::object(&mut rt);
    let r = obj.call(&mut rt, &reg, "nothing", &[]);
    assert_eq!(r.type_of(&rt), "undefined");
}

#[test]
fn construct_records_the_constructor() {
    let mut rt = Runtime::new();
    let mut reg: CallbackRegistry<fn(u32) -> u32> = CallbackRegistry::new();
    let ctor = Val::make_fn(&mut rt, &mut reg, identity as fn(u32) -> u32);
    let other = Val::make_fn(&mut rt, &mut reg, to_null as fn(u32) -> u32);
    let built = ctor.new(&mut rt, &reg, &[]);
    assert_eq!(built.type_of(&rt), "object");
    assert!(built.instanceof(&rt, &ctor));
    assert!(!built.instanceof(&rt, &other));
    let plain = Val::object(&mut rt);
    assert!(!plain.instanceof(&rt, &ctor));
}

#[test]
fn console_on_a_fresh_runtime_is_undefined() {
    let mut rt = Runtime::new();
    let reg: CallbackRegistry<fn(u32) -> u32> = CallbackRegistry::new();
    let console = Console::get(&mut rt);
    let msg = Val::from_str(&mut rt, "hello");
    let args = [msg];
    console.log(&mut rt, &reg, &args);
    console.warn(&mut rt, &reg, &args);
    console.info(&mut rt, &reg, &args);
    assert_eq!(console.as_handle(), console.as_val().as_handle());
    let v = console.into_val();
    assert_eq!(v.type_of(&rt), "undefined");
}

#[test]
fn console_dispatches_once_the_embedder_installs_one() {
    let mut rt = Runtime::new();
    let mut reg: CallbackRegistry<fn(u32) -> u32> = CallbackRegistry::new();
    let obj = Val::object(&mut rt);
    let log_fn = Val::make_fn(&mut rt, &mut reg, identity as fn(u32) -> u32);
    obj.set(&mut rt, "log", &log_fn);
    let root = Val::global_this(&mut rt);
    root.set(&mut rt, "console", &obj);
    let console = Console::get(&mut rt);
    assert_eq!(console.as_handle(), obj.as_handle());
    assert_eq!(console.as_val().type_of(&rt), "object");
    let msg = Val::from_str(&mut rt, "hello");
    let args = [msg];
    let before: u64 = rt.ref_count(log_fn.as_handle());
    console.log(&mut rt, &reg, &args);
    assert_eq!(rt.ref_count(log_fn.as_handle()), before);
}

#[test]
fn argument_list_is_released_after_the_call() {
    let mut rt = Runtime::new();
    let mut reg: CallbackRegistry<fn(u32) -> u32> = CallbackRegistry::new();
    let f = Val::make_fn(&mut rt, &mut reg, identity as fn(u32) -> u32);
    let a = Val::from_i32(&mut rt, 1);
    let args = [a];
    let seen = f.invoke(&mut rt, &reg, &args);
    let argv: u32 = seen.as_handle();
    assert_eq!(rt.ref_count(argv), 1);
    Val::delete(&mut rt, seen);
    assert_eq!(rt.ref_count(argv), 0);
}
