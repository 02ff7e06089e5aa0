use emlite::coercion::{as_i16, as_i64, as_i8, as_u16, as_u32, as_u64, as_u8, from_i16, from_i64,
    from_i8, from_u16, from_u32, from_u64, from_u8, from_unit};
use emlite::runtime::Runtime;
use emlite::value::{Val, ValOrder};

#[test]
fn int_literal_round_trip() {
    let mut rt = Runtime::new();
    let v = Val::from_i32(&mut rt, 42);
    assert_eq!(v.as_i32(&rt), 42);
}

#[test]
fn int_round_trip_extremes() {
    let mut rt = Runtime::new();
    let lo = Val::from_i32(&mut rt, i32::MIN);
    let hi = Val::from_i32(&mut rt, i32::MAX);
    assert_eq!(lo.as_i32(&rt), i32::MIN);
    assert_eq!(hi.as_i32(&rt), i32::MAX);
}

#[test]
fn string_literal_round_trip() {
    let mut rt = Runtime::new();
    let v = Val::from_str(&mut rt, "triangle");
    assert_eq!(v.as_string(&rt), "triangle");
    let e = Val::from_str(&mut rt, "");
    assert_eq!(e.as_string(&rt), "");
}

#[test]
fn width_round_trips() {
    let mut rt = Runtime::new();
    let a = from_u8(&mut rt, 255u8);
    assert_eq!(as_u8(&a, &rt), 255u8);
    let b = from_i8(&mut rt, -128i8);
    assert_eq!(as_i8(&b, &rt), -128i8);
    let c = from_u16(&mut rt, 65535u16);
    assert_eq!(as_u16(&c, &rt), 65535u16);
    let d = from_i16(&mut rt, -32768i16);
    assert_eq!(as_i16(&d, &rt), -32768i16);
    let e = from_u32(&mut rt, 4294967295u32);
    assert_eq!(as_u32(&e, &rt), 4294967295u32);
    let f = from_i64(&mut rt, -2147483648i64);
    assert_eq!(as_i64(&f, &rt), -2147483648i64);
    let g = from_u64(&mut rt, 2147483647u64);
    assert_eq!(as_u64(&g, &rt), 2147483647u64);
}

#[test]
fn unit_is_undefined() {
    let mut rt = Runtime::new();
    let v = from_unit(&mut rt);
    assert_eq!(v.type_of(&rt), "undefined");
}

#[test]
fn refcount_dup_and_release_balance() {
    let mut rt = Runtime::new();
    let v = Val::from_i32(&mut rt, 7);
    let h: u32 = v.as_handle();
    let c0: u64 = rt.ref_count(h);
    assert_eq!(c0, 1);
    let d1 = Val::from_val(&mut rt, &v);
    let d2 = Val::from_val(&mut rt, &v);
    assert_eq!(rt.ref_count(h), c0 + 2);
    Val::delete(&mut rt, d1);
    assert_eq!(rt.ref_count(h), c0 + 1);
    Val::delete(&mut rt, d2);
    assert_eq!(rt.ref_count(h), c0);
    Val::delete(&mut rt, v);
    assert_eq!(rt.ref_count(h), 0);
}

#[test]
fn either_copy_may_go_first() {
    let mut rt = Runtime::new();
    let v = Val::from_i32(&mut rt, 1);
    let h: u32 = v.as_handle();
    let d = Val::from_val(&mut rt, &v);
    Val::delete(&mut rt, v);
    assert_eq!(rt.ref_count(h), 1);
    assert_eq!(d.as_i32(&rt), 1);
    Val::delete(&mut rt, d);
    assert_eq!(rt.ref_count(h), 0);
}

#[test]
fn property_set_then_get() {
    let mut rt = Runtime::new();
    let obj = Val::object(&mut rt);
    let v = Val::from_i32(&mut rt, 42);
    obj.set(&mut rt, "answer", &v);
    let got = obj.get(&mut rt, "answer");
    assert_eq!(got.as_i32(&rt), 42);
    assert_eq!(got.as_handle(), v.as_handle());
    assert!(obj.has(&rt, "answer"));
    assert!(obj.has_own_property(&rt, "answer"));
    assert!(!obj.has(&rt, "missing"));
}

#[test]
fn property_overwrite_keeps_one_binding() {
    let mut rt = Runtime::new();
    let obj = Val::object(&mut rt);
    let a = Val::from_i32(&mut rt, 1);
    let b = Val::from_i32(&mut rt, 2);
    obj.set(&mut rt, "k", &a);
    obj.set(&mut rt, "k", &b);
    let got = obj.get(&mut rt, "k");
    assert_eq!(got.as_i32(&rt), 2);
}

#[test]
fn undefined_property_reads_as_undefined() {
    let mut rt = Runtime::new();
    let obj = Val::object(&mut rt);
    let got = obj.get(&mut rt, "nothing");
    assert_eq!(got.type_of(&rt), "undefined");
}

#[test]
fn globals_live_on_the_root_object() {
    let mut rt = Runtime::new();
    let g = Val::global_this(&mut rt);
    let v = Val::from_i32(&mut rt, 42);
    g.set(&mut rt, "answer", &v);
    let got = Val::global(&mut rt, "answer");
    assert_eq!(got.as_i32(&rt), 42);
    let missing = Val::global(&mut rt, "nobody");
    assert_eq!(missing.type_of(&rt), "undefined");
}

#[test]
fn type_names() {
    let mut rt = Runtime::new();
    assert_eq!(Val::null(&mut rt).type_of(&rt), "object");
    assert_eq!(Val::undefined(&mut rt).type_of(&rt), "undefined");
    assert_eq!(Val::from_bool(&mut rt, true).type_of(&rt), "boolean");
    assert_eq!(Val::from_i32(&mut rt, 3).type_of(&rt), "number");
    assert_eq!(Val::from_str(&mut rt, "s").type_of(&rt), "string");
    assert_eq!(Val::array(&mut rt).type_of(&rt), "object");
    assert_eq!(Val::object(&mut rt).type_of(&rt), "object");
}

#[test]
fn boolean_reading_uses_the_wire_threshold() {
    let mut rt = Runtime::new();
    let null = Val::null(&mut rt);
    assert!(!null.as_bool(&rt));
    let undef = Val::undefined(&mut rt);
    assert!(!undef.as_bool(&rt));
    let zero = Val::from_i32(&mut rt, 0);
    assert!(!zero.as_bool(&rt));
    let three = Val::from_i32(&mut rt, 3);
    assert!(!three.as_bool(&rt));
    let four = Val::from_i32(&mut rt, 4);
    assert!(four.as_bool(&rt));
    let big = Val::from_i32(&mut rt, 1000);
    assert!(big.as_bool(&rt));
    let neg = Val::from_i32(&mut rt, -1);
    assert!(!neg.as_bool(&rt));
    let s = Val::from_str(&mut rt, "x");
    assert!(!s.as_bool(&rt));
}

#[test]
fn not_reads_truthiness() {
    let mut rt = Runtime::new();
    assert!(Val::null(&mut rt).not(&rt));
    assert!(Val::undefined(&mut rt).not(&rt));
    assert!(Val::from_bool(&mut rt, false).not(&rt));
    assert!(!Val::from_bool(&mut rt, true).not(&rt));
    assert!(Val::from_i32(&mut rt, 0).not(&rt));
    assert!(!Val::from_i32(&mut rt, 5).not(&rt));
    assert!(Val::from_str(&mut rt, "").not(&rt));
    assert!(!Val::from_str(&mut rt, "x").not(&rt));
}

#[test]
fn comparator_contract() {
    let mut rt = Runtime::new();
    let one = Val::from_i32(&mut rt, 1);
    let two = Val::from_i32(&mut rt, 2);
    let also_one = Val::from_i32(&mut rt, 1);
    let s = Val::from_str(&mut rt, "a");
    assert_eq!(one.compare(&rt, &two), ValOrder::Less);
    assert_eq!(two.compare(&rt, &one), ValOrder::Greater);
    assert!(one.strictly_equals(&rt, &also_one));
    assert_eq!(one.compare(&rt, &also_one), ValOrder::Equal);
    assert_eq!(one.compare(&rt, &one), ValOrder::Equal);
    assert_eq!(one.compare(&rt, &s), ValOrder::Incomparable);
    assert_ne!(one.compare(&rt, &s), ValOrder::Equal);
}

#[test]
fn strict_equality_is_identity_or_primitive_equality() {
    let mut rt = Runtime::new();
    let a = Val::from_str(&mut rt, "x");
    let b = Val::from_str(&mut rt, "x");
    let c = Val::from_str(&mut rt, "y");
    assert!(a.strictly_equals(&rt, &b));
    assert!(!a.strictly_equals(&rt, &c));
    let o1 = Val::object(&mut rt);
    let o2 = Val::object(&mut rt);
    assert!(o1.strictly_equals(&rt, &o1));
    assert!(!o1.strictly_equals(&rt, &o2));
}

#[test]
fn array_elements_and_to_vec() {
    let mut rt = Runtime::new();
    let arr = Val::array(&mut rt);
    let a = Val::from_i32(&mut rt, 10);
    let b = Val::from_i32(&mut rt, 20);
    let c = Val::from_i32(&mut rt, 30);
    rt.push_elem(arr.as_handle(), a.as_handle());
    rt.push_elem(arr.as_handle(), b.as_handle());
    rt.push_elem(arr.as_handle(), c.as_handle());
    let len = arr.get(&mut rt, "length");
    assert_eq!(len.as_i32(&rt), 3);
    assert_eq!(arr.at(&mut rt, 0).as_i32(&rt), 10);
    assert_eq!(arr.at(&mut rt, 2).as_i32(&rt), 30);
    assert_eq!(arr.at(&mut rt, 9).type_of(&rt), "undefined");
    assert_eq!(arr.to_vec_i32(&mut rt), vec![10, 20, 30]);
}

#[test]
fn to_vec_of_a_non_array_is_empty() {
    let mut rt = Runtime::new();
    let v = Val::from_i32(&mut rt, 9);
    assert_eq!(v.to_vec_i32(&mut rt), Vec::<i32>::new());
}

#[test]
fn await_hands_back_the_settled_value() {
    let mut rt = Runtime::new();
    let v = Val::from_i32(&mut rt, 5);
    let h: u32 = v.as_handle();
    let r = v.await_(&mut rt);
    assert_eq!(r.as_handle(), h);
    assert_eq!(r.as_i32(&rt), 5);
    assert_eq!(rt.ref_count(h), 2);
}

#[test]
fn throw_forwards_the_value_opaquely() {
    let mut rt = Runtime::new();
    let v = Val::from_str(&mut rt, "boom");
    let h: u32 = v.as_handle();
    assert_eq!(rt.pending_exception(), None);
    Val::throw(&mut rt, v);
    assert_eq!(rt.pending_exception(), Some(h));
    assert_eq!(rt.ref_count(h), 0);
}

#[test]
fn take_ownership_keeps_the_count() {
    let mut rt = Runtime::new();
    let v = Val::from_i32(&mut rt, 3);
    let h: u32 = v.as_handle();
    let w = Val::take_ownership(h);
    assert_eq!(rt.ref_count(h), 1);
    assert_eq!(w.as_handle(), h);
    let x = Val::from_handle(h);
    assert_eq!(x.as_handle(), h);
    assert_eq!(rt.ref_count(h), 1);
}
