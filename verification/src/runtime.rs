//! A reference model of the foreign call boundary.
//!
//! The real boundary is a fixed table of entry points into a dynamic-value
//! runtime; every entry point takes and returns opaque integer handles.  This
//! module renders that surface as an explicit state value, [`Runtime`]: a
//! table of slots, each holding one runtime value and the reference count
//! that native code maintains for it.  The proxy layer in [`crate::value`] is
//! verified against the contracts stated here.
//!
//! Reclamation of a slot whose count reaches zero is the runtime's own
//! business and is abstracted away: the table only grows, and the counts are
//! tracked state about which the lifetime protocol is proved.

use vstd::prelude::*;

verus! {

/// Opaque identifier of one runtime-owned value.  Equality of handles is
/// reference identity in the runtime, not value equality.
pub type Handle = u32;

/// Handle of the runtime's `null` singleton.
pub const NULL_HANDLE: Handle = 0;

/// Handle of the runtime's `undefined` singleton.
pub const UNDEFINED_HANDLE: Handle = 1;

/// Handle of the runtime's `false` singleton.
pub const FALSE_HANDLE: Handle = 2;

/// Handle of the runtime's `true` singleton.
pub const TRUE_HANDLE: Handle = 3;

/// Handle of the root (global) object.
pub const GLOBAL_HANDLE: Handle = 4;

/// One runtime value, as the model runtime stores it.
///
/// Native code never sees this type through a proxy: a proxy carries only a
/// `Handle`.  An object records the properties written to it and, when it was
/// produced by a constructor call, the handle of its constructor.
pub enum JsValue {
    Null,
    Undefined,
    Bool(bool),
    Int(i32),
    Str(String),
    Arr(Vec<Handle>),
    Obj(Vec<(String, Handle)>, Option<Handle>),
    Fun(u32),
}

/// Mathematical image of a [`JsValue`].
#[verifier::ext_equal]
pub enum JsModel {
    Null,
    Undefined,
    Bool(bool),
    Int(i32),
    Str(Seq<char>),
    Arr(Seq<Handle>),
    Obj(Seq<(Seq<char>, Handle)>, Option<Handle>),
    Fun(u32),
}

impl View for JsValue {
    type V = JsModel;

    closed spec fn view(&self) -> JsModel {
        match self {
            JsValue::Null => JsModel::Null,
            JsValue::Undefined => JsModel::Undefined,
            JsValue::Bool(b) => JsModel::Bool(*b),
            JsValue::Int(i) => JsModel::Int(*i),
            JsValue::Str(s) => JsModel::Str(s@),
            JsValue::Arr(v) => JsModel::Arr(v@),
            JsValue::Obj(props, ctor) => JsModel::Obj(
                props@.map_values(|p: (String, Handle)| (p.0@, p.1)),
                *ctor,
            ),
            JsValue::Fun(id) => JsModel::Fun(*id),
        }
    }
}

/// One table slot: a value and the reference count native code holds on it.
struct Slot {
    value: JsValue,
    refs: u64,
}

/// Mathematical image of one slot.
#[verifier::ext_equal]
pub struct SlotModel {
    pub value: JsModel,
    pub refs: nat,
}

impl View for Slot {
    type V = SlotModel;

    closed spec fn view(&self) -> SlotModel {
        SlotModel { value: self.value@, refs: self.refs as nat }
    }
}

/// Mathematical image of the whole runtime: the slot table and the pending
/// exception, if one was raised and not yet collected by the embedder.
#[verifier::ext_equal]
pub struct RuntimeModel {
    pub slots: Seq<SlotModel>,
    pub thrown: Option<Handle>,
}

/// The model runtime behind the call boundary.
pub struct Runtime {
    slots: Vec<Slot>,
    thrown: Option<Handle>,
}

/// Holds when every handle stored inside `v` points into a table of `n`
/// slots.
pub open spec fn value_handles_ok(v: JsModel, n: int) -> bool {
    match v {
        JsModel::Arr(elems) => forall|i: int| 0 <= i < elems.len() ==> (#[trigger] elems[i]) < n,
        JsModel::Obj(props, ctor) => {
            &&& forall|i: int| 0 <= i < props.len() ==> (#[trigger] props[i]).1 < n
            &&& match ctor {
                Some(c) => c < n,
                None => true,
            }
        },
        _ => true,
    }
}

impl View for Runtime {
    type V = RuntimeModel;

    closed spec fn view(&self) -> RuntimeModel {
        RuntimeModel { slots: self.slots@.map_values(|s: Slot| s@), thrown: self.thrown }
    }
}

impl Runtime {
    /// Well-formedness: the reserved singletons and the root object are in
    /// place, and every handle stored inside a slot points into the table.
    pub open spec fn wf(&self) -> bool {
        &&& self@.slots.len() >= 5
        &&& self@.slots.len() <= u32::MAX
        &&& self@.slots[NULL_HANDLE as int].value == JsModel::Null
        &&& self@.slots[UNDEFINED_HANDLE as int].value == JsModel::Undefined
        &&& self@.slots[FALSE_HANDLE as int].value == JsModel::Bool(false)
        &&& self@.slots[TRUE_HANDLE as int].value == JsModel::Bool(true)
        &&& self@.slots[GLOBAL_HANDLE as int].value is Obj
        &&& forall|i: int| 0 <= i < self@.slots.len() ==> (#[trigger] self@.slots[i]).refs <= u64::MAX
        &&& forall|i: int|
            0 <= i < self@.slots.len() ==> value_handles_ok(
                (#[trigger] self@.slots[i]).value,
                self@.slots.len() as int,
            )
    }

    /// The reference count currently recorded for `h`.
    pub open spec fn refcount(&self, h: Handle) -> nat {
        self@.slots[h as int].refs
    }

    /// Holds when `h` names a slot of the table.
    pub open spec fn is_handle(&self, h: Handle) -> bool {
        h < self@.slots.len()
    }

    /// Holds when a fresh slot can still be allocated.
    pub open spec fn can_alloc(&self) -> bool {
        self@.slots.len() < u32::MAX
    }

    /// A fresh runtime: the four reserved singletons and an empty root
    /// object, each with one native reference held by the runtime embedding
    /// itself.  The root object starts with no properties at all, so every
    /// global — `console` included — reads as `undefined` until the
    /// embedder installs it.
    pub fn new() -> (rt: Runtime)
        ensures
            rt.wf(),
            rt@.slots.len() == 5,
            rt@.thrown == None::<Handle>,
            rt@.slots[NULL_HANDLE as int].refs == 1,
            rt@.slots[UNDEFINED_HANDLE as int].refs == 1,
            rt@.slots[FALSE_HANDLE as int].refs == 1,
            rt@.slots[TRUE_HANDLE as int].refs == 1,
            rt@.slots[GLOBAL_HANDLE as int] == (SlotModel {
                value: JsModel::Obj(Seq::<(Seq<char>, Handle)>::empty(), None),
                refs: 1nat,
            }),
    {
        let mut slots: Vec<Slot> = Vec::new();
        slots.push(Slot { value: JsValue::Null, refs: 1 });
        slots.push(Slot { value: JsValue::Undefined, refs: 1 });
        slots.push(Slot { value: JsValue::Bool(false), refs: 1 });
        slots.push(Slot { value: JsValue::Bool(true), refs: 1 });
        slots.push(Slot { value: JsValue::Obj(Vec::new(), None), refs: 1 });
        let rt = Runtime { slots, thrown: None };
        proof {
            assert(rt@.slots[GLOBAL_HANDLE as int].value =~~= JsModel::Obj(
                Seq::<(Seq<char>, Handle)>::empty(),
                None,
            ));
        }
        rt
    }

    /// Increments the reference count of `h` by one.
    pub fn inc_ref(&mut self, h: Handle)
        requires
            old(self).wf(),
            old(self).is_handle(h),
            old(self).refcount(h) < u64::MAX,
        ensures
            final(self).wf(),
            final(self)@.slots == spec_inc(old(self)@.slots, h),
            final(self)@.thrown == old(self)@.thrown,
    {
        let i: usize = h as usize;
        self.slots[i].refs = self.slots[i].refs + 1;
        proof {
            assert(final(self)@.slots =~= spec_inc(old(self)@.slots, h));
        }
    }

    /// Decrements the reference count of `h` by one.  Releasing a handle on
    /// which no reference is held is the use-after-free class of error and is
    /// excluded by the precondition.
    pub fn dec_ref(&mut self, h: Handle)
        requires
            old(self).wf(),
            old(self).is_handle(h),
            old(self).refcount(h) >= 1,
        ensures
            final(self).wf(),
            final(self)@.slots == spec_dec(old(self)@.slots, h),
            final(self)@.thrown == old(self)@.thrown,
    {
        let i: usize = h as usize;
        self.slots[i].refs = self.slots[i].refs - 1;
        proof {
            assert(final(self)@.slots =~= spec_dec(old(self)@.slots, h));
        }
    }

    /// Constructs a fresh integer value, owned by the caller.
    pub fn make_int(&mut self, i: i32) -> (h: Handle)
        requires
            old(self).wf(),
            old(self).can_alloc(),
        ensures
            final(self).wf(),
            final(self)@.slots == spec_alloc(old(self)@.slots, JsModel::Int(i)),
            final(self)@.thrown == old(self)@.thrown,
            h == old(self)@.slots.len(),
            final(self).refcount(h) == 1,
    {
        let h: Handle = self.slots.len() as Handle;
        self.slots.push(Slot { value: JsValue::Int(i), refs: 1 });
        proof {
            assert(final(self)@.slots =~= spec_alloc(old(self)@.slots, JsModel::Int(i)));
        }
        h
    }

    /// Increments the reference count of `h`, pinning it at the machine
    /// bound.  Every boundary operation that hands out an already-existing
    /// handle retains it this way, so the handed-out handle is always owned.
    fn retain(&mut self, h: Handle)
        requires
            old(self).wf(),
            old(self).is_handle(h),
        ensures
            final(self).wf(),
            final(self)@.slots == spec_retain(old(self)@.slots, h),
            final(self)@.thrown == old(self)@.thrown,
    {
        let i: usize = h as usize;
        if self.slots[i].refs < u64::MAX {
            self.slots[i].refs = self.slots[i].refs + 1;
            proof {
                assert(final(self)@.slots =~= spec_retain(old(self)@.slots, h));
            }
        } else {
            proof {
                assert(final(self)@.slots =~= spec_retain(old(self)@.slots, h));
            }
        }
    }

    /// Reads the property `prop` of the value `h`, handing back an owned
    /// handle: the bound value of an object, the element count of an array
    /// read as `length`, and the `undefined` singleton everywhere else.
    pub fn obj_prop(&mut self, h: Handle, prop: &str) -> (r: Handle)
        requires
            old(self).wf(),
            old(self).is_handle(h),
            old(self).can_alloc(),
        ensures
            final(self).wf(),
            final(self)@.thrown == old(self)@.thrown,
            prop_read_post(old(self)@.slots, h, prop@, final(self)@.slots, r),
            final(self).is_handle(r),
            final(self).refcount(r) >= 1,
    {
        let i: usize = h as usize;
        let found: Option<Handle> = match &self.slots[i].value {
            JsValue::Obj(props, _) => find_prop(props, prop),
            _ => None,
        };
        let is_obj: bool = match &self.slots[i].value {
            JsValue::Obj(_, _) => true,
            _ => false,
        };
        if is_obj {
            match found {
                Some(hp) => {
                    proof {
                        lemma_lookup_some_in(
                            old(self)@.slots[h as int].value->Obj_0,
                            prop@,
                            hp,
                        );
                    }
                    self.retain(hp);
                    hp
                },
                None => {
                    self.retain(UNDEFINED_HANDLE);
                    UNDEFINED_HANDLE
                },
            }
        } else {
            let arr_len: Option<usize> = match &self.slots[i].value {
                JsValue::Arr(elems) => Some(elems.len()),
                _ => None,
            };
            let asks_length: bool = str_eq_literal_length(prop);
            match arr_len {
                Some(n) => {
                    if asks_length {
                        let h2: Handle = self.slots.len() as Handle;
                        let n32: i32 = #[verifier::truncate] (n as i32);
                        self.slots.push(Slot { value: JsValue::Int(n32), refs: 1 });
                        proof {
                            assert(final(self)@.slots =~= spec_alloc(
                                old(self)@.slots,
                                JsModel::Int(n32),
                            ));
                        }
                        h2
                    } else {
                        self.retain(UNDEFINED_HANDLE);
                        UNDEFINED_HANDLE
                    }
                },
                None => {
                    self.retain(UNDEFINED_HANDLE);
                    UNDEFINED_HANDLE
                },
            }
        }
    }

    /// Writes the property `prop` of the object `h` to `v`.  Ownership of
    /// `v` stays with the caller: the runtime's own interior references are
    /// not counted.  On a value that is no object, nothing is written.
    pub fn obj_set_prop(&mut self, h: Handle, prop: &str, v: Handle)
        requires
            old(self).wf(),
            old(self).is_handle(h),
            old(self).is_handle(v),
        ensures
            final(self).wf(),
            final(self)@.thrown == old(self)@.thrown,
            final(self)@.slots == spec_set_prop(old(self)@.slots, h, prop@, v),
    {
        let i: usize = h as usize;
        let key: String = prop.to_owned();
        match &mut self.slots[i].value {
            JsValue::Obj(props, ctor) => {
                proof {
                    assert(old(self)@.slots[h as int].value == JsModel::Obj(
                        props_model(props@),
                        *ctor,
                    ));
                }
                let found: Option<usize> = find_prop_index(props, prop);
                match found {
                    Some(j) => {
                        proof {
                            lemma_store_found(
                                old(self)@.slots[h as int].value->Obj_0,
                                prop@,
                                v,
                                j as int,
                            );
                        }
                        props[j].1 = v;
                    },
                    None => {
                        proof {
                            lemma_store_missing(
                                old(self)@.slots[h as int].value->Obj_0,
                                prop@,
                                v,
                            );
                        }
                        props.push((key, v));
                    },
                }
            },
            _ => {},
        }
        proof {
            assert(final(self)@.slots =~~= spec_set_prop(old(self)@.slots, h, prop@, v));
        }
    }

    /// Tests whether the object `h` has a property `prop`.  The model keeps
    /// no prototype chains, so inherited and own properties coincide.
    pub fn obj_has_prop(&self, h: Handle, prop: &str) -> (r: bool)
        requires
            self.wf(),
            self.is_handle(h),
        ensures
            r == has_prop_model(self@.slots, h, prop@),
    {
        match &self.slots[h as usize].value {
            JsValue::Obj(props, _) => {
                let found = find_prop(props, prop);
                found.is_some()
            },
            _ => false,
        }
    }

    /// Hands out one more owned reference to the `null` singleton.
    pub fn get_null(&mut self) -> (h: Handle)
        requires
            old(self).wf(),
        ensures
            final(self).wf(),
            final(self)@.slots == spec_retain(old(self)@.slots, NULL_HANDLE),
            final(self)@.thrown == old(self)@.thrown,
            h == NULL_HANDLE,
            final(self).refcount(h) >= 1,
    {
        self.retain(NULL_HANDLE);
        NULL_HANDLE
    }

    /// Hands out one more owned reference to the `undefined` singleton.
    pub fn get_undefined(&mut self) -> (h: Handle)
        requires
            old(self).wf(),
        ensures
            final(self).wf(),
            final(self)@.slots == spec_retain(old(self)@.slots, UNDEFINED_HANDLE),
            final(self)@.thrown == old(self)@.thrown,
            h == UNDEFINED_HANDLE,
            final(self).refcount(h) >= 1,
    {
        self.retain(UNDEFINED_HANDLE);
        UNDEFINED_HANDLE
    }

    /// Hands out one more owned reference to a boolean singleton.
    pub fn get_bool(&mut self, b: bool) -> (h: Handle)
        requires
            old(self).wf(),
        ensures
            final(self).wf(),
            final(self)@.slots == spec_retain(
                old(self)@.slots,
                if b {
                    TRUE_HANDLE
                } else {
                    FALSE_HANDLE
                },
            ),
            final(self)@.thrown == old(self)@.thrown,
            h == if b {
                TRUE_HANDLE
            } else {
                FALSE_HANDLE
            },
            final(self).refcount(h) >= 1,
    {
        if b {
            self.retain(TRUE_HANDLE);
            TRUE_HANDLE
        } else {
            self.retain(FALSE_HANDLE);
            FALSE_HANDLE
        }
    }

    /// Hands out one more owned reference to the root object.
    pub fn get_global_this(&mut self) -> (h: Handle)
        requires
            old(self).wf(),
        ensures
            final(self).wf(),
            final(self)@.slots == spec_retain(old(self)@.slots, GLOBAL_HANDLE),
            final(self)@.thrown == old(self)@.thrown,
            h == GLOBAL_HANDLE,
            final(self).refcount(h) >= 1,
    {
        self.retain(GLOBAL_HANDLE);
        GLOBAL_HANDLE
    }

    /// Constructs a fresh string value, owned by the caller.
    pub fn make_str(&mut self, s: &str) -> (h: Handle)
        requires
            old(self).wf(),
            old(self).can_alloc(),
        ensures
            final(self).wf(),
            final(self)@.slots == spec_alloc(old(self)@.slots, JsModel::Str(s@)),
            final(self)@.thrown == old(self)@.thrown,
            h == old(self)@.slots.len(),
            final(self).refcount(h) == 1,
    {
        let h: Handle = self.slots.len() as Handle;
        let owned: String = s.to_owned();
        self.slots.push(Slot { value: JsValue::Str(owned), refs: 1 });
        proof {
            assert(final(self)@.slots =~= spec_alloc(old(self)@.slots, JsModel::Str(s@)));
        }
        h
    }

    /// Constructs a fresh empty array, owned by the caller.
    pub fn new_array(&mut self) -> (h: Handle)
        requires
            old(self).wf(),
            old(self).can_alloc(),
        ensures
            final(self).wf(),
            final(self)@.slots == spec_alloc(
                old(self)@.slots,
                JsModel::Arr(Seq::<Handle>::empty()),
            ),
            final(self)@.thrown == old(self)@.thrown,
            h == old(self)@.slots.len(),
            final(self).refcount(h) == 1,
    {
        let h: Handle = self.slots.len() as Handle;
        self.slots.push(Slot { value: JsValue::Arr(Vec::new()), refs: 1 });
        proof {
            assert(final(self)@.slots =~~= spec_alloc(
                old(self)@.slots,
                JsModel::Arr(Seq::<Handle>::empty()),
            ));
        }
        h
    }

    /// Constructs a fresh empty object, owned by the caller.
    pub fn new_object(&mut self) -> (h: Handle)
        requires
            old(self).wf(),
            old(self).can_alloc(),
        ensures
            final(self).wf(),
            final(self)@.slots == spec_alloc(
                old(self)@.slots,
                JsModel::Obj(Seq::<(Seq<char>, Handle)>::empty(), None),
            ),
            final(self)@.thrown == old(self)@.thrown,
            h == old(self)@.slots.len(),
            final(self).refcount(h) == 1,
    {
        let h: Handle = self.slots.len() as Handle;
        self.slots.push(Slot { value: JsValue::Obj(Vec::new(), None), refs: 1 });
        proof {
            assert(final(self)@.slots =~~= spec_alloc(
                old(self)@.slots,
                JsModel::Obj(Seq::<(Seq<char>, Handle)>::empty(), None),
            ));
        }
        h
    }

    /// Constructs a fresh object produced by the constructor `ctor`, owned by
    /// the caller.
    pub fn construct(&mut self, ctor: Handle) -> (h: Handle)
        requires
            old(self).wf(),
            old(self).is_handle(ctor),
            old(self).can_alloc(),
        ensures
            final(self).wf(),
            final(self)@.slots == spec_alloc(
                old(self)@.slots,
                JsModel::Obj(Seq::<(Seq<char>, Handle)>::empty(), Some(ctor)),
            ),
            final(self)@.thrown == old(self)@.thrown,
            h == old(self)@.slots.len(),
            final(self).refcount(h) == 1,
    {
        let h: Handle = self.slots.len() as Handle;
        self.slots.push(Slot { value: JsValue::Obj(Vec::new(), Some(ctor)), refs: 1 });
        proof {
            assert(final(self)@.slots =~~= spec_alloc(
                old(self)@.slots,
                JsModel::Obj(Seq::<(Seq<char>, Handle)>::empty(), Some(ctor)),
            ));
        }
        h
    }

    /// Constructs a fresh callable bound to the callback id `id`, owned by
    /// the caller.
    pub fn make_callback(&mut self, id: u32) -> (h: Handle)
        requires
            old(self).wf(),
            old(self).can_alloc(),
        ensures
            final(self).wf(),
            final(self)@.slots == spec_alloc(old(self)@.slots, JsModel::Fun(id)),
            final(self)@.thrown == old(self)@.thrown,
            h == old(self)@.slots.len(),
            final(self).refcount(h) == 1,
    {
        let h: Handle = self.slots.len() as Handle;
        self.slots.push(Slot { value: JsValue::Fun(id), refs: 1 });
        proof {
            assert(final(self)@.slots =~= spec_alloc(old(self)@.slots, JsModel::Fun(id)));
        }
        h
    }

    /// Appends `v` to the array `h`.  The array's interior reference is not
    /// counted; on a value that is no array, nothing is written.
    pub fn push_elem(&mut self, h: Handle, v: Handle)
        requires
            old(self).wf(),
            old(self).is_handle(h),
            old(self).is_handle(v),
        ensures
            final(self).wf(),
            final(self)@.thrown == old(self)@.thrown,
            final(self)@.slots == spec_push_elem(old(self)@.slots, h, v),
    {
        let i: usize = h as usize;
        match &mut self.slots[i].value {
            JsValue::Arr(elems) => {
                elems.push(v);
            },
            _ => {},
        }
        proof {
            assert(final(self)@.slots =~~= spec_push_elem(old(self)@.slots, h, v));
        }
    }

    /// Reads the element at `idx` of the array `h`, handing back an owned
    /// handle; out of range, or on a value that is no array, the `undefined`
    /// singleton.
    pub fn get_elem(&mut self, h: Handle, idx: usize) -> (r: Handle)
        requires
            old(self).wf(),
            old(self).is_handle(h),
        ensures
            final(self).wf(),
            final(self)@.thrown == old(self)@.thrown,
            r == elem_read_result(old(self)@.slots, h, idx as int),
            final(self)@.slots == spec_retain(old(self)@.slots, r),
            final(self).refcount(r) >= 1,
    {
        let i: usize = h as usize;
        let found: Option<Handle> = match &self.slots[i].value {
            JsValue::Arr(elems) => if idx < elems.len() {
                Some(elems[idx])
            } else {
                None
            },
            _ => None,
        };
        match found {
            Some(he) => {
                proof {
                    assert(value_handles_ok(
                        old(self)@.slots[h as int].value,
                        old(self)@.slots.len() as int,
                    ));
                    assert(old(self)@.slots[h as int].value->Arr_0[idx as int] < old(
                        self,
                    )@.slots.len());
                }
                self.retain(he);
                he
            },
            None => {
                self.retain(UNDEFINED_HANDLE);
                UNDEFINED_HANDLE
            },
        }
    }

    /// Reads the wire integer of `h`: the integer a slot holds, or `0` where
    /// the slot holds no integer.  No local validation, by design: a caller
    /// that needs safety queries the type first.
    pub fn get_value_int(&self, h: Handle) -> (r: i32)
        requires
            self.wf(),
            self.is_handle(h),
        ensures
            r == wire_int_of(self@.slots[h as int].value),
    {
        match &self.slots[h as usize].value {
            JsValue::Int(i) => *i,
            _ => 0,
        }
    }

    /// Reads the wire string of `h`: the string a slot holds, or the empty
    /// string where the slot holds none.  No local validation, by design.
    pub fn get_value_string(&self, h: Handle) -> (r: String)
        requires
            self.wf(),
            self.is_handle(h),
        ensures
            r@ == wire_str_of(self@.slots[h as int].value),
    {
        match &self.slots[h as usize].value {
            JsValue::Str(s) => s.clone(),
            _ => String::new(),
        }
    }

    /// The runtime's type name for the value of `h`.
    pub fn typeof_name(&self, h: Handle) -> (r: String)
        requires
            self.wf(),
            self.is_handle(h),
        ensures
            r@ == type_name_of(self@.slots[h as int].value),
    {
        match &self.slots[h as usize].value {
            JsValue::Null => String::from_str("object"),
            JsValue::Undefined => String::from_str("undefined"),
            JsValue::Bool(_) => String::from_str("boolean"),
            JsValue::Int(_) => String::from_str("number"),
            JsValue::Str(_) => String::from_str("string"),
            JsValue::Arr(_) => String::from_str("object"),
            JsValue::Obj(_, _) => String::from_str("object"),
            JsValue::Fun(_) => String::from_str("function"),
        }
    }

    /// The runtime's strict equality: reference identity, or equality of
    /// primitive values.
    pub fn strictly_equals(&self, a: Handle, b: Handle) -> (r: bool)
        requires
            self.wf(),
            self.is_handle(a),
            self.is_handle(b),
        ensures
            r == strict_eq_model(self@.slots, a, b),
    {
        if a == b {
            return true;
        }
        match (&self.slots[a as usize].value, &self.slots[b as usize].value) {
            (JsValue::Null, JsValue::Null) => true,
            (JsValue::Undefined, JsValue::Undefined) => true,
            (JsValue::Bool(x), JsValue::Bool(y)) => *x == *y,
            (JsValue::Int(x), JsValue::Int(y)) => *x == *y,
            (JsValue::Str(x), JsValue::Str(y)) => *x == *y,
            _ => false,
        }
    }

    /// The runtime's relational `>`: defined on two numbers, false
    /// everywhere else.
    pub fn val_gt(&self, a: Handle, b: Handle) -> (r: bool)
        requires
            self.wf(),
            self.is_handle(a),
            self.is_handle(b),
        ensures
            r == gt_model(self@.slots, a, b),
    {
        match (&self.slots[a as usize].value, &self.slots[b as usize].value) {
            (JsValue::Int(x), JsValue::Int(y)) => *x > *y,
            _ => false,
        }
    }

    /// The runtime's relational `<`: defined on two numbers, false
    /// everywhere else.
    pub fn val_lt(&self, a: Handle, b: Handle) -> (r: bool)
        requires
            self.wf(),
            self.is_handle(a),
            self.is_handle(b),
        ensures
            r == lt_model(self@.slots, a, b),
    {
        match (&self.slots[a as usize].value, &self.slots[b as usize].value) {
            (JsValue::Int(x), JsValue::Int(y)) => *x < *y,
            _ => false,
        }
    }

    /// The runtime's logical negation of a value's truthiness.
    pub fn val_not(&self, h: Handle) -> (r: bool)
        requires
            self.wf(),
            self.is_handle(h),
        ensures
            r == !truthy_model(self@.slots[h as int].value),
    {
        match &self.slots[h as usize].value {
            JsValue::Null => true,
            JsValue::Undefined => true,
            JsValue::Bool(b) => !*b,
            JsValue::Int(i) => *i == 0,
            JsValue::Str(s) => s.as_str().is_empty(),
            _ => false,
        }
    }

    /// Whether `a` is an object produced by the constructor `b`.
    pub fn val_instanceof(&self, a: Handle, b: Handle) -> (r: bool)
        requires
            self.wf(),
            self.is_handle(a),
            self.is_handle(b),
        ensures
            r == instanceof_model(self@.slots, a, b),
    {
        match &self.slots[a as usize].value {
            JsValue::Obj(_, Some(c)) => *c == b,
            _ => false,
        }
    }

    /// The callback id of a callable value, if `h` is one.
    pub fn callable_id(&self, h: Handle) -> (r: Option<u32>)
        requires
            self.wf(),
            self.is_handle(h),
        ensures
            r == callable_id_model(self@.slots[h as int].value),
    {
        match &self.slots[h as usize].value {
            JsValue::Fun(id) => Some(*id),
            _ => None,
        }
    }

    /// Takes ownership of the handle a native callback returned.  A callback
    /// hands back an arbitrary integer; a handle of the table is retained
    /// and passed on, anything else collapses to the `undefined` singleton.
    pub fn own_result(&mut self, raw: u32) -> (h: Handle)
        requires
            old(self).wf(),
        ensures
            final(self).wf(),
            final(self)@.thrown == old(self)@.thrown,
            h == spec_own_handle(old(self)@.slots, raw),
            final(self)@.slots == spec_retain(old(self)@.slots, h),
            final(self).is_handle(h),
            final(self).refcount(h) >= 1,
    {
        let n: usize = self.slots.len();
        if (raw as usize) < n {
            self.retain(raw);
            raw
        } else {
            self.retain(UNDEFINED_HANDLE);
            UNDEFINED_HANDLE
        }
    }

    /// Raises the value of `h` as the runtime's pending exception.  The
    /// value is forwarded opaquely: nothing of it is inspected.
    pub fn throw(&mut self, h: Handle)
        requires
            old(self).wf(),
            old(self).is_handle(h),
        ensures
            final(self).wf(),
            final(self)@.slots == old(self)@.slots,
            final(self)@.thrown == Some(h),
    {
        self.thrown = Some(h);
    }

    /// The pending exception, if one was raised.
    pub fn pending_exception(&self) -> (r: Option<Handle>)
        ensures
            r == self@.thrown,
    {
        self.thrown
    }

    /// The reference count currently recorded for `h`, read out.
    pub fn ref_count(&self, h: Handle) -> (n: u64)
        requires
            self.wf(),
            self.is_handle(h),
        ensures
            n as nat == self.refcount(h),
    {
        self.slots[h as usize].refs
    }
}

/// The property-list image of an executable property vector.
pub open spec fn props_model(props: Seq<(String, Handle)>) -> Seq<(Seq<char>, Handle)> {
    props.map_values(|p: (String, Handle)| (p.0@, p.1))
}

/// Compares a property name against the distinguished `length` name.
fn str_eq_literal_length(prop: &str) -> (r: bool)
    ensures
        r == (prop@ == "length"@),
{
    let a: String = prop.to_owned();
    let b: String = "length".to_owned();
    a == b
}

/// Scans a property vector for `key`, front to back.
fn find_prop(props: &Vec<(String, Handle)>, key: &str) -> (r: Option<Handle>)
    ensures
        r == lookup_prop(props_model(props@), key@),
{
    let k: String = key.to_owned();
    let ghost pm = props_model(props@);
    let mut i: usize = 0;
    while i < props.len()
        invariant
            i <= props.len(),
            k@ == key@,
            pm == props_model(props@),
            forall|j: int| 0 <= j < i ==> (#[trigger] pm[j]).0 != key@,
        decreases props.len() - i,
    {
        if props[i].0 == k {
            proof {
                assert(pm[i as int].0 == key@);
                lemma_lookup_found(pm, key@, i as int);
            }
            return Some(props[i].1);
        }
        proof {
            assert(pm[i as int].0 == props@[i as int].0@);
        }
        i = i + 1;
    }
    proof {
        lemma_lookup_missing(pm, key@);
    }
    None
}

/// Scans a property vector for `key`, reporting the position found.
fn find_prop_index(props: &Vec<(String, Handle)>, key: &str) -> (r: Option<usize>)
    ensures
        match r {
            Some(j) => {
                &&& j < props@.len()
                &&& props_model(props@)[j as int].0 == key@
                &&& forall|l: int| 0 <= l < j ==> (#[trigger] props_model(props@)[l]).0 != key@
            },
            None => forall|l: int|
                0 <= l < props@.len() ==> (#[trigger] props_model(props@)[l]).0 != key@,
        },
{
    let k: String = key.to_owned();
    let ghost pm = props_model(props@);
    let mut i: usize = 0;
    while i < props.len()
        invariant
            i <= props.len(),
            k@ == key@,
            pm == props_model(props@),
            forall|j: int| 0 <= j < i ==> (#[trigger] pm[j]).0 != key@,
        decreases props.len() - i,
    {
        if props[i].0 == k {
            proof {
                assert(pm[i as int].0 == key@);
            }
            return Some(i);
        }
        proof {
            assert(pm[i as int].0 == props@[i as int].0@);
        }
        i = i + 1;
    }
    None
}

/// The value stored for `key`, scanning the property list from the front.
pub open spec fn lookup_prop(props: Seq<(Seq<char>, Handle)>, key: Seq<char>) -> Option<Handle>
    decreases props.len(),
{
    if props.len() == 0 {
        None
    } else if props[0].0 == key {
        Some(props[0].1)
    } else {
        lookup_prop(props.drop_first(), key)
    }
}

/// The property list after writing `key` to `v`: the first binding of `key`
/// is overwritten, or a new binding is appended.
pub open spec fn store_prop(
    props: Seq<(Seq<char>, Handle)>,
    key: Seq<char>,
    v: Handle,
) -> Seq<(Seq<char>, Handle)>
    decreases props.len(),
{
    if props.len() == 0 {
        seq![(key, v)]
    } else if props[0].0 == key {
        props.update(0, (key, v))
    } else {
        seq![props[0]] + store_prop(props.drop_first(), key, v)
    }
}

/// A successful lookup hands back one of the stored handles.
pub proof fn lemma_lookup_some_in(props: Seq<(Seq<char>, Handle)>, key: Seq<char>, hp: Handle)
    requires
        lookup_prop(props, key) == Some(hp),
    ensures
        exists|i: int| 0 <= i < props.len() && (#[trigger] props[i]).1 == hp,
    decreases props.len(),
{
    if props.len() == 0 {
    } else if props[0].0 == key {
        assert(props[0].1 == hp);
    } else {
        lemma_lookup_some_in(props.drop_first(), key, hp);
        let i = choose|i: int|
            0 <= i < props.drop_first().len() && (#[trigger] props.drop_first()[i]).1 == hp;
        assert(props[i + 1].1 == hp);
    }
}

/// A scan that found `key` first at position `i` agrees with `lookup_prop`.
pub proof fn lemma_lookup_found(props: Seq<(Seq<char>, Handle)>, key: Seq<char>, i: int)
    requires
        0 <= i < props.len(),
        props[i].0 == key,
        forall|j: int| 0 <= j < i ==> (#[trigger] props[j]).0 != key,
    ensures
        lookup_prop(props, key) == Some(props[i].1),
    decreases i,
{
    if i == 0 {
    } else {
        assert(props.drop_first()[i - 1] == props[i]);
        assert(forall|j: int| 0 <= j < i - 1 ==> (#[trigger] props.drop_first()[j]).0 != key)
            by {
            assert(forall|j: int| 0 <= j < i - 1 ==> props.drop_first()[j] == props[j + 1]);
        };
        lemma_lookup_found(props.drop_first(), key, i - 1);
    }
}

/// A scan that found `key` nowhere agrees with `lookup_prop`.
pub proof fn lemma_lookup_missing(props: Seq<(Seq<char>, Handle)>, key: Seq<char>)
    requires
        forall|j: int| 0 <= j < props.len() ==> (#[trigger] props[j]).0 != key,
    ensures
        lookup_prop(props, key) == None::<Handle>,
    decreases props.len(),
{
    if props.len() > 0 {
        assert(forall|j: int|
            0 <= j < props.drop_first().len() ==> (#[trigger] props.drop_first()[j]).0 != key)
            by {
            assert(forall|j: int| 0 <= j < props.len() - 1 ==> props.drop_first()[j] == props[j + 1]);
        };
        lemma_lookup_missing(props.drop_first(), key);
    }
}

/// Overwriting the binding first found at `i` is what `store_prop` does.
pub proof fn lemma_store_found(
    props: Seq<(Seq<char>, Handle)>,
    key: Seq<char>,
    v: Handle,
    i: int,
)
    requires
        0 <= i < props.len(),
        props[i].0 == key,
        forall|j: int| 0 <= j < i ==> (#[trigger] props[j]).0 != key,
    ensures
        store_prop(props, key, v) =~= props.update(i, (key, v)),
    decreases i,
{
    if i == 0 {
    } else {
        assert(props.drop_first()[i - 1] == props[i]);
        assert(forall|j: int| 0 <= j < i - 1 ==> (#[trigger] props.drop_first()[j]).0 != key)
            by {
            assert(forall|j: int| 0 <= j < i - 1 ==> props.drop_first()[j] == props[j + 1]);
        };
        lemma_store_found(props.drop_first(), key, v, i - 1);
        assert(store_prop(props, key, v) =~= seq![props[0]] + props.drop_first().update(
            i - 1,
            (key, v),
        ));
    }
}

/// Appending a missing binding is what `store_prop` does.
pub proof fn lemma_store_missing(props: Seq<(Seq<char>, Handle)>, key: Seq<char>, v: Handle)
    requires
        forall|j: int| 0 <= j < props.len() ==> (#[trigger] props[j]).0 != key,
    ensures
        store_prop(props, key, v) =~= props.push((key, v)),
    decreases props.len(),
{
    if props.len() > 0 {
        assert(forall|j: int|
            0 <= j < props.drop_first().len() ==> (#[trigger] props.drop_first()[j]).0 != key)
            by {
            assert(forall|j: int| 0 <= j < props.len() - 1 ==> props.drop_first()[j] == props[j + 1]);
        };
        lemma_store_missing(props.drop_first(), key, v);
        assert(store_prop(props, key, v) =~= seq![props[0]] + props.drop_first().push((key, v)));
    }
}

/// The slot table after one reference-count increment on `h`.
pub open spec fn spec_inc(s: Seq<SlotModel>, h: Handle) -> Seq<SlotModel> {
    s.update(h as int, SlotModel { value: s[h as int].value, refs: (s[h as int].refs + 1) as nat })
}

/// The slot table after one reference-count decrement on `h`.
pub open spec fn spec_dec(s: Seq<SlotModel>, h: Handle) -> Seq<SlotModel> {
    s.update(h as int, SlotModel { value: s[h as int].value, refs: (s[h as int].refs - 1) as nat })
}

/// The slot table after allocation of a fresh slot holding `v` with one
/// owned reference; the fresh slot's handle is the old table length.
pub open spec fn spec_alloc(s: Seq<SlotModel>, v: JsModel) -> Seq<SlotModel> {
    s.push(SlotModel { value: v, refs: 1nat })
}

/// The slot table after handing out one more owned reference to `h`.  The
/// count pins at the machine bound instead of wrapping.
pub open spec fn spec_retain(s: Seq<SlotModel>, h: Handle) -> Seq<SlotModel> {
    if s[h as int].refs < u64::MAX {
        spec_inc(s, h)
    } else {
        s
    }
}

/// The handle a property read returns: the bound value of an object, a
/// fresh integer for an array's `length`, and the `undefined` singleton
/// everywhere else.
pub open spec fn prop_read_result(s0: Seq<SlotModel>, h: Handle, key: Seq<char>) -> Handle {
    match s0[h as int].value {
        JsModel::Obj(props, _) => match lookup_prop(props, key) {
            Some(hp) => hp,
            None => UNDEFINED_HANDLE,
        },
        JsModel::Arr(elems) => if key == "length"@ {
            s0.len() as Handle
        } else {
            UNDEFINED_HANDLE
        },
        _ => UNDEFINED_HANDLE,
    }
}

/// The slot table after a property read: the returned handle is retained,
/// or freshly allocated for an array's `length`.
pub open spec fn prop_read_table(
    s0: Seq<SlotModel>,
    h: Handle,
    key: Seq<char>,
) -> Seq<SlotModel> {
    match s0[h as int].value {
        JsModel::Arr(elems) => if key == "length"@ {
            spec_alloc(s0, JsModel::Int(elems.len() as i32))
        } else {
            spec_retain(s0, UNDEFINED_HANDLE)
        },
        _ => spec_retain(s0, prop_read_result(s0, h, key)),
    }
}

/// What a property read returns and does to the table.
pub open spec fn prop_read_post(
    s0: Seq<SlotModel>,
    h: Handle,
    key: Seq<char>,
    s1: Seq<SlotModel>,
    r: Handle,
) -> bool {
    r == prop_read_result(s0, h, key) && s1 == prop_read_table(s0, h, key)
}

/// The slot table after a property write: the object's property list is
/// rewritten by [`store_prop`]; any other value is left as it stands.
pub open spec fn spec_set_prop(
    s: Seq<SlotModel>,
    h: Handle,
    key: Seq<char>,
    v: Handle,
) -> Seq<SlotModel> {
    match s[h as int].value {
        JsModel::Obj(props, ctor) => s.update(
            h as int,
            SlotModel { value: JsModel::Obj(store_prop(props, key, v), ctor), refs: s[h as int].refs },
        ),
        _ => s,
    }
}

/// The slot table after appending `v` to the array `h`; any other value is
/// left as it stands.
pub open spec fn spec_push_elem(s: Seq<SlotModel>, h: Handle, v: Handle) -> Seq<SlotModel> {
    match s[h as int].value {
        JsModel::Arr(elems) => s.update(
            h as int,
            SlotModel { value: JsModel::Arr(elems.push(v)), refs: s[h as int].refs },
        ),
        _ => s,
    }
}

/// What an element read returns: the element of an array in range, the
/// `undefined` singleton everywhere else.
pub open spec fn elem_read_result(s: Seq<SlotModel>, h: Handle, idx: int) -> Handle {
    match s[h as int].value {
        JsModel::Arr(elems) => if 0 <= idx < elems.len() {
            elems[idx]
        } else {
            UNDEFINED_HANDLE
        },
        _ => UNDEFINED_HANDLE,
    }
}

/// Holds when `h` is an object with a property `key`.
pub open spec fn has_prop_model(s: Seq<SlotModel>, h: Handle, key: Seq<char>) -> bool {
    match s[h as int].value {
        JsModel::Obj(props, _) => lookup_prop(props, key) is Some,
        _ => false,
    }
}

/// The wire integer of a value: the integer it holds, or `0`.
pub open spec fn wire_int_of(v: JsModel) -> i32 {
    match v {
        JsModel::Int(i) => i,
        _ => 0,
    }
}

/// The wire string of a value: the string it holds, or the empty string.
pub open spec fn wire_str_of(v: JsModel) -> Seq<char> {
    match v {
        JsModel::Str(s) => s,
        _ => Seq::<char>::empty(),
    }
}

/// The runtime's type name for a value.
pub open spec fn type_name_of(v: JsModel) -> Seq<char> {
    match v {
        JsModel::Null => "object"@,
        JsModel::Undefined => "undefined"@,
        JsModel::Bool(_) => "boolean"@,
        JsModel::Int(_) => "number"@,
        JsModel::Str(_) => "string"@,
        JsModel::Arr(_) => "object"@,
        JsModel::Obj(_, _) => "object"@,
        JsModel::Fun(_) => "function"@,
    }
}

/// Strict equality of two handles: reference identity, or equality of the
/// primitive values they name.  Arrays, objects and callables are equal only
/// to themselves.
pub open spec fn strict_eq_model(s: Seq<SlotModel>, a: Handle, b: Handle) -> bool {
    a == b || match (s[a as int].value, s[b as int].value) {
        (JsModel::Null, JsModel::Null) => true,
        (JsModel::Undefined, JsModel::Undefined) => true,
        (JsModel::Bool(x), JsModel::Bool(y)) => x == y,
        (JsModel::Int(x), JsModel::Int(y)) => x == y,
        (JsModel::Str(x), JsModel::Str(y)) => x == y,
        _ => false,
    }
}

/// The runtime's relational `>`, defined on two numbers.
pub open spec fn gt_model(s: Seq<SlotModel>, a: Handle, b: Handle) -> bool {
    match (s[a as int].value, s[b as int].value) {
        (JsModel::Int(x), JsModel::Int(y)) => x > y,
        _ => false,
    }
}

/// The runtime's relational `<`, defined on two numbers.
pub open spec fn lt_model(s: Seq<SlotModel>, a: Handle, b: Handle) -> bool {
    match (s[a as int].value, s[b as int].value) {
        (JsModel::Int(x), JsModel::Int(y)) => x < y,
        _ => false,
    }
}

/// The runtime's truthiness: everything but `null`, `undefined`, `false`,
/// the number zero and the empty string.
pub open spec fn truthy_model(v: JsModel) -> bool {
    match v {
        JsModel::Null => false,
        JsModel::Undefined => false,
        JsModel::Bool(b) => b,
        JsModel::Int(i) => i != 0,
        JsModel::Str(s) => s.len() != 0,
        _ => true,
    }
}

/// Whether `a` records `b` as its constructor.
pub open spec fn instanceof_model(s: Seq<SlotModel>, a: Handle, b: Handle) -> bool {
    match s[a as int].value {
        JsModel::Obj(_, Some(c)) => c == b,
        _ => false,
    }
}

/// The callback id a callable value is bound to.
pub open spec fn callable_id_model(v: JsModel) -> Option<u32> {
    match v {
        JsModel::Fun(id) => Some(id),
        _ => None,
    }
}

/// The handle that taking ownership of a callback's raw result yields: the
/// raw value where it names a slot, the `undefined` singleton otherwise.
pub open spec fn spec_own_handle(s: Seq<SlotModel>, raw: u32) -> Handle {
    if raw < s.len() {
        raw
    } else {
        UNDEFINED_HANDLE
    }
}

} // verus!
