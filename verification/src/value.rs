//! The owning value proxy.
//!
//! A [`Val`] wraps one handle and owns exactly one reference on it: every
//! constructor hands back a proxy whose handle has been freshly created or
//! retained, and [`Val::delete`] gives that reference back.  Since the
//! boundary is an explicit state value here, every operation takes the
//! [`Runtime`] it acts on, and release is a deliberate call rather than a
//! scope exit; the counting discipline itself is unchanged: one proxy, one
//! reference, released exactly once.

use vstd::prelude::*;

use crate::registry::CallbackRegistry;
use crate::runtime::{
    Handle, JsModel, Runtime, SlotModel, GLOBAL_HANDLE, NULL_HANDLE, UNDEFINED_HANDLE,
    callable_id_model, elem_read_result, has_prop_model, instanceof_model,
    lemma_lookup_some_in, lookup_prop, value_handles_ok,
    prop_read_result, prop_read_table, spec_alloc, spec_dec, spec_inc, spec_own_handle,
    spec_retain, spec_set_prop, strict_eq_model, gt_model, lt_model,
    truthy_model, type_name_of, wire_int_of, wire_str_of,
};

verus! {

/// A native owning wrapper around one runtime handle.
#[derive(Debug)]
pub struct Val {
    handle: Handle,
}

impl View for Val {
    type V = Handle;

    closed spec fn view(&self) -> Handle {
        self.handle
    }
}

/// The handles of a proxy sequence, in order.
pub open spec fn handles_of(args: Seq<Val>) -> Seq<Handle> {
    args.map_values(|v: Val| v@)
}

/// Holds when every proxy of `args` names a slot of the table.
pub open spec fn args_ok(rt: Runtime, args: Seq<Val>) -> bool {
    forall|i: int| 0 <= i < args.len() ==> rt.is_handle((#[trigger] args[i])@)
}

/// Outcome of a relational comparison delegated to the runtime.  Unlike a
/// total order, two values may stand in no relation at all.
#[derive(Clone, Copy, Debug, PartialEq, Eq, Structural)]
pub enum ValOrder {
    Less,
    Equal,
    Greater,
    Incomparable,
}

/// The comparison the runtime reports: strict equality first, then the
/// relational operators, and `Incomparable` where none of them holds.
pub open spec fn compare_model(s: Seq<SlotModel>, a: Handle, b: Handle) -> ValOrder {
    if strict_eq_model(s, a, b) {
        ValOrder::Equal
    } else if gt_model(s, a, b) {
        ValOrder::Greater
    } else if lt_model(s, a, b) {
        ValOrder::Less
    } else {
        ValOrder::Incomparable
    }
}

/// What invoking `callee` on the marshaled handles `hs` returns and does to
/// the table.  The argument list is the fresh slot at the old table length;
/// it is handed to the callback exactly as marshaled and released after the
/// call.  The callback itself is constrained only by its own contract, so
/// the result handle is whatever it returned, taken over.
pub open spec fn invoke_post<F: Fn(Handle) -> Handle>(
    s0: Seq<SlotModel>,
    callee: Handle,
    hs: Seq<Handle>,
    reg: Seq<F>,
    s1: Seq<SlotModel>,
    r: Handle,
) -> bool {
    let argv = s0.len() as Handle;
    let sa = spec_alloc(s0, JsModel::Arr(hs));
    match callable_id_model(s0[callee as int].value) {
        Some(id) => if id < reg.len() {
            exists|raw: u32|
                {
                    &&& #[trigger] reg[id as int].ensures((argv,), raw)
                    &&& r == spec_own_handle(sa, raw)
                    &&& s1 == spec_dec(spec_retain(sa, r), argv)
                }
        } else {
            r == UNDEFINED_HANDLE && s1 == spec_dec(spec_retain(sa, UNDEFINED_HANDLE), argv)
        },
        None => r == UNDEFINED_HANDLE && s1 == spec_dec(spec_retain(sa, UNDEFINED_HANDLE), argv),
    }
}

/// What calling the method `name` of `obj` on the marshaled handles `hs`
/// returns and does to the table: the argument list is marshaled first, the
/// method is resolved as a property read, its registered callback is
/// dispatched with the list's handle, and both the resolved method and the
/// argument list are released after the call.
pub open spec fn call_post<F: Fn(Handle) -> Handle>(
    s0: Seq<SlotModel>,
    obj: Handle,
    name: Seq<char>,
    hs: Seq<Handle>,
    reg: Seq<F>,
    s1: Seq<SlotModel>,
    r: Handle,
) -> bool {
    let argv = s0.len() as Handle;
    let sa = spec_alloc(s0, JsModel::Arr(hs));
    let f = prop_read_result(sa, obj, name);
    let sf = prop_read_table(sa, obj, name);
    match callable_id_model(sf[f as int].value) {
        Some(id) => if id < reg.len() {
            exists|raw: u32|
                {
                    &&& #[trigger] reg[id as int].ensures((argv,), raw)
                    &&& r == spec_own_handle(sf, raw)
                    &&& s1 == spec_dec(spec_dec(spec_retain(sf, r), f), argv)
                }
        } else {
            r == UNDEFINED_HANDLE && s1 == spec_dec(
                spec_dec(spec_retain(sf, UNDEFINED_HANDLE), f),
                argv,
            )
        },
        None => r == UNDEFINED_HANDLE && s1 == spec_dec(
            spec_dec(spec_retain(sf, UNDEFINED_HANDLE), f),
            argv,
        ),
    }
}

/// The wire integer a `length` read of `h` yields: an array's element
/// count, or the wire reading of whatever a `length` property read returns.
pub open spec fn length_read_of(s: Seq<SlotModel>, h: Handle) -> i32 {
    match s[h as int].value {
        JsModel::Arr(elems) => elems.len() as i32,
        _ => wire_int_of(s[prop_read_result(s, h, "length"@) as int].value),
    }
}

/// What converting `h` to a native integer vector yields: one wire-integer
/// reading per index up to the `length` reading, in order.
pub open spec fn to_vec_i32_post(s: Seq<SlotModel>, h: Handle, r: Seq<i32>) -> bool {
    let n = length_read_of(s, h);
    &&& r.len() == (if n >= 0 {
        n as int
    } else {
        0
    })
    &&& forall|i: int|
        0 <= i < r.len() ==> r[i] == wire_int_of(
            s[(#[trigger] elem_read_result(s, h, i)) as int].value,
        )
}

/// Holds when `s1` keeps every value of `s0` as it stands, and every count
/// too, up to the one saturation step a count pinned at the machine bound
/// can lose to a retain-and-release round trip.
pub open spec fn table_preserved(s0: Seq<SlotModel>, s1: Seq<SlotModel>) -> bool {
    &&& s1.len() >= s0.len()
    &&& forall|x: int| 0 <= x < s0.len() ==> (#[trigger] s1[x]).value == s0[x].value
    &&& forall|x: int|
        0 <= x < s0.len() ==> ((#[trigger] s1[x]).refs == s0[x].refs || (s0[x].refs >= u64::MAX
            && s1[x].refs == s0[x].refs - 1))
}

/// A retain-and-release round trip on one handle preserves the table, up
/// to the one saturation step of a count pinned at the machine bound.
pub proof fn lemma_touch_preserved(s: Seq<SlotModel>, h: Handle)
    requires
        h < s.len(),
    ensures
        table_preserved(s, spec_dec(spec_retain(s, h), h)),
        spec_dec(spec_retain(s, h), h).len() == s.len(),
{
    let s2 = spec_dec(spec_retain(s, h), h);
    assert forall|x: int| 0 <= x < s.len() implies (#[trigger] s2[x]).value == s[x].value && (
    s2[x].refs == s[x].refs || (s[x].refs >= u64::MAX && s2[x].refs == s[x].refs - 1)) by {
        if x == h as int {
            if s[x].refs < u64::MAX {
                assert(spec_retain(s, h) == spec_inc(s, h));
                assert(spec_inc(s, h)[x].refs == s[x].refs + 1);
                assert(s2[x].refs == s[x].refs);
                assert(s2[x].value == s[x].value);
            } else {
                assert(spec_retain(s, h) == s);
                assert(s2[x].refs == s[x].refs - 1);
                assert(s2[x].value == s[x].value);
            }
        } else {
            assert(spec_retain(s, h)[x] == s[x]);
            assert(s2[x] == s[x]);
        }
    }
}

/// Preservation up to one saturation step composes.
pub proof fn lemma_preserved_trans(s0: Seq<SlotModel>, s1: Seq<SlotModel>, s2: Seq<SlotModel>)
    requires
        forall|x: int| 0 <= x < s0.len() ==> (#[trigger] s0[x]).refs <= u64::MAX,
        table_preserved(s0, s1),
        table_preserved(s1, s2),
    ensures
        table_preserved(s0, s2),
{
    assert forall|x: int| 0 <= x < s0.len() implies (#[trigger] s2[x]).value == s0[x].value && (
    s2[x].refs == s0[x].refs || (s0[x].refs >= u64::MAX && s2[x].refs == s0[x].refs - 1)) by {
        assert(s1[x].value == s0[x].value);
    }
}

/// Marshals `args` into one fresh argument list: a new array holding the
/// proxies' handles in exactly the order given, owned by the caller.
pub fn build_args(rt: &mut Runtime, args: &[Val]) -> (arr: Val)
    requires
        old(rt).wf(),
        old(rt).can_alloc(),
        args_ok(*old(rt), args@),
    ensures
        final(rt).wf(),
        final(rt)@.thrown == old(rt)@.thrown,
        arr@ == old(rt)@.slots.len(),
        final(rt)@.slots == spec_alloc(old(rt)@.slots, JsModel::Arr(handles_of(args@))),
        final(rt).is_handle(arr@),
        final(rt).refcount(arr@) == 1,
{
    let arr = Val { handle: rt.new_array() };
    proof {
        assert(handles_of(args@).take(0) =~= Seq::<Handle>::empty());
        assert(rt@.slots =~~= spec_alloc(
            old(rt)@.slots,
            JsModel::Arr(handles_of(args@).take(0)),
        ));
    }
    let mut i: usize = 0;
    while i < args.len()
        invariant
            old(rt).wf(),
            args_ok(*old(rt), args@),
            i <= args.len(),
            rt.wf(),
            rt@.thrown == old(rt)@.thrown,
            arr@ == old(rt)@.slots.len(),
            rt@.slots == spec_alloc(
                old(rt)@.slots,
                JsModel::Arr(handles_of(args@).take(i as int)),
            ),
        decreases args.len() - i,
    {
        let h: Handle = args[i].as_handle();
        proof {
            assert(rt.is_handle(h));
        }
        rt.push_elem(arr.handle, h);
        proof {
            assert(rt@.slots =~~= spec_alloc(
                old(rt)@.slots,
                JsModel::Arr(handles_of(args@).take(i + 1 as int)),
            ));
        }
        i = i + 1;
    }
    proof {
        assert(handles_of(args@).take(args@.len() as int) =~= handles_of(args@));
        assert(rt@.slots =~~= spec_alloc(old(rt)@.slots, JsModel::Arr(handles_of(args@))));
    }
    arr
}

impl Val {
    /// Takes ownership of `handle` without touching its count: the caller
    /// must already hold an owned reference, as every boundary operation
    /// that returns a handle grants one.
    pub fn take_ownership(handle: Handle) -> (v: Val)
        ensures
            v@ == handle,
    {
        Val { handle }
    }

    /// Wraps `handle` without touching its count; a synonym of
    /// [`Val::take_ownership`].
    pub fn from_handle(handle: Handle) -> (v: Val)
        ensures
            v@ == handle,
    {
        Val { handle }
    }

    /// The raw handle, for handing to boundary operations.  The proxy keeps
    /// its ownership.
    pub fn as_handle(&self) -> (h: Handle)
        ensures
            h == self@,
    {
        self.handle
    }

    /// Duplicates a proxy: one more reference on the shared handle, and
    /// either copy may be released first.
    pub fn from_val(rt: &mut Runtime, v: &Val) -> (r: Val)
        requires
            old(rt).wf(),
            old(rt).is_handle(v@),
            old(rt).refcount(v@) < u64::MAX,
        ensures
            final(rt).wf(),
            final(rt)@.slots == spec_inc(old(rt)@.slots, v@),
            final(rt)@.thrown == old(rt)@.thrown,
            r@ == v@,
    {
        rt.inc_ref(v.handle);
        Val { handle: v.handle }
    }

    /// Releases the one reference `v` owns.  The proxy is consumed: this is
    /// the only way a proxy ends, so the count drops exactly once per proxy.
    pub fn delete(rt: &mut Runtime, v: Val)
        requires
            old(rt).wf(),
            old(rt).is_handle(v@),
            old(rt).refcount(v@) >= 1,
        ensures
            final(rt).wf(),
            final(rt)@.slots == spec_dec(old(rt)@.slots, v@),
            final(rt)@.thrown == old(rt)@.thrown,
    {
        rt.dec_ref(v.handle);
    }

    /// An owned proxy for the root object.
    pub fn global_this(rt: &mut Runtime) -> (r: Val)
        requires
            old(rt).wf(),
        ensures
            final(rt).wf(),
            final(rt)@.slots == spec_retain(old(rt)@.slots, GLOBAL_HANDLE),
            final(rt)@.thrown == old(rt)@.thrown,
            r@ == GLOBAL_HANDLE,
            final(rt).refcount(r@) >= 1,
    {
        Val { handle: rt.get_global_this() }
    }

    /// An owned proxy for the runtime's `null`.
    pub fn null(rt: &mut Runtime) -> (r: Val)
        requires
            old(rt).wf(),
        ensures
            final(rt).wf(),
            final(rt)@.slots == spec_retain(old(rt)@.slots, NULL_HANDLE),
            final(rt)@.thrown == old(rt)@.thrown,
            r@ == NULL_HANDLE,
            final(rt).refcount(r@) >= 1,
    {
        Val { handle: rt.get_null() }
    }

    /// An owned proxy for the runtime's `undefined`.
    pub fn undefined(rt: &mut Runtime) -> (r: Val)
        requires
            old(rt).wf(),
        ensures
            final(rt).wf(),
            final(rt)@.slots == spec_retain(old(rt)@.slots, UNDEFINED_HANDLE),
            final(rt)@.thrown == old(rt)@.thrown,
            r@ == UNDEFINED_HANDLE,
            final(rt).refcount(r@) >= 1,
    {
        Val { handle: rt.get_undefined() }
    }

    /// An owned proxy for a fresh empty object.
    pub fn object(rt: &mut Runtime) -> (r: Val)
        requires
            old(rt).wf(),
            old(rt).can_alloc(),
        ensures
            final(rt).wf(),
            final(rt)@.slots == spec_alloc(
                old(rt)@.slots,
                JsModel::Obj(Seq::<(Seq<char>, Handle)>::empty(), None),
            ),
            final(rt)@.thrown == old(rt)@.thrown,
            r@ == old(rt)@.slots.len(),
            final(rt).refcount(r@) == 1,
    {
        Val { handle: rt.new_object() }
    }

    /// An owned proxy for a fresh empty array.
    pub fn array(rt: &mut Runtime) -> (r: Val)
        requires
            old(rt).wf(),
            old(rt).can_alloc(),
        ensures
            final(rt).wf(),
            final(rt)@.slots == spec_alloc(old(rt)@.slots, JsModel::Arr(Seq::<Handle>::empty())),
            final(rt)@.thrown == old(rt)@.thrown,
            r@ == old(rt)@.slots.len(),
            final(rt).refcount(r@) == 1,
    {
        Val { handle: rt.new_array() }
    }

    /// An owned proxy for a fresh integer literal.
    pub fn from_i32(rt: &mut Runtime, i: i32) -> (r: Val)
        requires
            old(rt).wf(),
            old(rt).can_alloc(),
        ensures
            final(rt).wf(),
            final(rt)@.slots == spec_alloc(old(rt)@.slots, JsModel::Int(i)),
            final(rt)@.thrown == old(rt)@.thrown,
            r@ == old(rt)@.slots.len(),
            final(rt).refcount(r@) == 1,
    {
        Val { handle: rt.make_int(i) }
    }

    /// An owned proxy for a fresh string literal.
    pub fn from_str(rt: &mut Runtime, s: &str) -> (r: Val)
        requires
            old(rt).wf(),
            old(rt).can_alloc(),
        ensures
            final(rt).wf(),
            final(rt)@.slots == spec_alloc(old(rt)@.slots, JsModel::Str(s@)),
            final(rt)@.thrown == old(rt)@.thrown,
            r@ == old(rt)@.slots.len(),
            final(rt).refcount(r@) == 1,
    {
        Val { handle: rt.make_str(s) }
    }

    /// An owned proxy for an owned boolean literal.
    pub fn from_bool(rt: &mut Runtime, b: bool) -> (r: Val)
        requires
            old(rt).wf(),
        ensures
            final(rt).wf(),
            final(rt)@.slots == spec_retain(
                old(rt)@.slots,
                if b {
                    crate::runtime::TRUE_HANDLE
                } else {
                    crate::runtime::FALSE_HANDLE
                },
            ),
            final(rt)@.thrown == old(rt)@.thrown,
            r@ == if b {
                crate::runtime::TRUE_HANDLE
            } else {
                crate::runtime::FALSE_HANDLE
            },
            final(rt).refcount(r@) >= 1,
    {
        Val { handle: rt.get_bool(b) }
    }

    /// A new owned proxy for the property `prop` of this value.  An
    /// undefined property yields a well-defined `undefined` proxy, not a
    /// failure.
    pub fn get(&self, rt: &mut Runtime, prop: &str) -> (r: Val)
        requires
            old(rt).wf(),
            old(rt).is_handle(self@),
            old(rt).can_alloc(),
        ensures
            final(rt).wf(),
            final(rt)@.thrown == old(rt)@.thrown,
            r@ == prop_read_result(old(rt)@.slots, self@, prop@),
            final(rt)@.slots == prop_read_table(old(rt)@.slots, self@, prop@),
            final(rt).is_handle(r@),
            final(rt).refcount(r@) >= 1,
    {
        Val { handle: rt.obj_prop(self.handle, prop) }
    }

    /// A new owned proxy for the global `name`: the property `name` of the
    /// root object.
    pub fn global(rt: &mut Runtime, name: &str) -> (r: Val)
        requires
            old(rt).wf(),
            old(rt).can_alloc(),
        ensures
            final(rt).wf(),
            final(rt)@.thrown == old(rt)@.thrown,
            r@ == prop_read_result(old(rt)@.slots, GLOBAL_HANDLE, name@),
            final(rt)@.slots == prop_read_table(old(rt)@.slots, GLOBAL_HANDLE, name@),
            final(rt).is_handle(r@),
            final(rt).refcount(r@) >= 1,
    {
        Val { handle: rt.obj_prop(GLOBAL_HANDLE, name) }
    }

    /// Writes the property `prop` of this object to `val`.  Ownership of
    /// `val` is not transferred: the caller still owns it and releases it
    /// separately.
    pub fn set(&self, rt: &mut Runtime, prop: &str, val: &Val)
        requires
            old(rt).wf(),
            old(rt).is_handle(self@),
            old(rt).is_handle(val@),
        ensures
            final(rt).wf(),
            final(rt)@.thrown == old(rt)@.thrown,
            final(rt)@.slots == spec_set_prop(old(rt)@.slots, self@, prop@, val@),
    {
        rt.obj_set_prop(self.handle, prop, val.handle);
    }

    /// Whether this object has a property `prop`.  The model runtime keeps
    /// no prototype chains, so this coincides with
    /// [`Val::has_own_property`].
    pub fn has(&self, rt: &Runtime, prop: &str) -> (r: bool)
        requires
            rt.wf(),
            rt.is_handle(self@),
        ensures
            r == has_prop_model(rt@.slots, self@, prop@),
    {
        rt.obj_has_prop(self.handle, prop)
    }

    /// Whether this object itself has a property `prop`.
    pub fn has_own_property(&self, rt: &Runtime, prop: &str) -> (r: bool)
        requires
            rt.wf(),
            rt.is_handle(self@),
        ensures
            r == has_prop_model(rt@.slots, self@, prop@),
    {
        rt.obj_has_prop(self.handle, prop)
    }

    /// The runtime's type name for this value.
    pub fn type_of(&self, rt: &Runtime) -> (r: String)
        requires
            rt.wf(),
            rt.is_handle(self@),
        ensures
            r@ == type_name_of(rt@.slots[self@ as int].value),
    {
        rt.typeof_name(self.handle)
    }

    /// A new owned proxy for the element at `idx`.  Assumes the value is
    /// indexable; anything else yields the `undefined` proxy.
    pub fn at(&self, rt: &mut Runtime, idx: usize) -> (r: Val)
        requires
            old(rt).wf(),
            old(rt).is_handle(self@),
        ensures
            final(rt).wf(),
            final(rt)@.thrown == old(rt)@.thrown,
            r@ == elem_read_result(old(rt)@.slots, self@, idx as int),
            final(rt)@.slots == spec_retain(old(rt)@.slots, r@),
            final(rt).is_handle(r@),
            final(rt).refcount(r@) >= 1,
    {
        Val { handle: rt.get_elem(self.handle, idx) }
    }

    /// The underlying integer of this value, through the wire
    /// representation.  Assumes the runtime type matches: no local
    /// validation, a mismatch reads as the wire default.
    pub fn as_i32(&self, rt: &Runtime) -> (r: i32)
        requires
            rt.wf(),
            rt.is_handle(self@),
        ensures
            r == wire_int_of(rt@.slots[self@ as int].value),
    {
        rt.get_value_int(self.handle)
    }

    /// The boundary's boolean reading of a proxy: true exactly when the
    /// wire integer read of the value exceeds the threshold `3`.  The
    /// threshold is the boundary's own, preserved exactly; it is not
    /// general zero/non-zero truthiness.
    pub fn as_bool(&self, rt: &Runtime) -> (r: bool)
        requires
            rt.wf(),
            rt.is_handle(self@),
        ensures
            r == (wire_int_of(rt@.slots[self@ as int].value) > 3),
    {
        rt.get_value_int(self.handle) > 3
    }

    /// The underlying string of this value.  Assumes the runtime type
    /// matches: a mismatch reads as the empty string.
    pub fn as_string(&self, rt: &Runtime) -> (r: String)
        requires
            rt.wf(),
            rt.is_handle(self@),
        ensures
            r@ == wire_str_of(rt@.slots[self@ as int].value),
    {
        rt.get_value_string(self.handle)
    }

    /// The runtime's strict equality of the two values.
    pub fn strictly_equals(&self, rt: &Runtime, other: &Val) -> (r: bool)
        requires
            rt.wf(),
            rt.is_handle(self@),
            rt.is_handle(other@),
        ensures
            r == strict_eq_model(rt@.slots, self@, other@),
    {
        rt.strictly_equals(self.handle, other.handle)
    }

    /// The runtime's relational comparison of the two values: strict
    /// equality first, then the relational operators; two values no
    /// relational operator orders are incomparable, which is distinct from
    /// being equal.
    pub fn compare(&self, rt: &Runtime, other: &Val) -> (r: ValOrder)
        requires
            rt.wf(),
            rt.is_handle(self@),
            rt.is_handle(other@),
        ensures
            r == compare_model(rt@.slots, self@, other@),
    {
        if rt.strictly_equals(self.handle, other.handle) {
            ValOrder::Equal
        } else if rt.val_gt(self.handle, other.handle) {
            ValOrder::Greater
        } else if rt.val_lt(self.handle, other.handle) {
            ValOrder::Less
        } else {
            ValOrder::Incomparable
        }
    }

    /// The runtime's logical negation of this value's truthiness.
    pub fn not(&self, rt: &Runtime) -> (r: bool)
        requires
            rt.wf(),
            rt.is_handle(self@),
        ensures
            r == !truthy_model(rt@.slots[self@ as int].value),
    {
        rt.val_not(self.handle)
    }

    /// Whether this value was produced by the constructor `v`.
    pub fn instanceof(&self, rt: &Runtime, v: &Val) -> (r: bool)
        requires
            rt.wf(),
            rt.is_handle(self@),
            rt.is_handle(v@),
        ensures
            r == instanceof_model(rt@.slots, self@, v@),
    {
        rt.val_instanceof(self.handle, v.handle)
    }

    /// Raises `v` as the runtime's pending exception, forwarding it
    /// opaquely, and releases the proxy's reference.
    pub fn throw(rt: &mut Runtime, v: Val)
        requires
            old(rt).wf(),
            old(rt).is_handle(v@),
            old(rt).refcount(v@) >= 1,
        ensures
            final(rt).wf(),
            final(rt)@.slots == spec_dec(old(rt)@.slots, v@),
            final(rt)@.thrown == Some(v@),
    {
        rt.throw(v.handle);
        rt.dec_ref(v.handle);
    }

    /// Invokes this value as a function with `args`.  A fresh argument list
    /// is marshaled, the callee's registered callback is dispatched with the
    /// list's handle, the result is taken over as a new owned proxy, and the
    /// argument list is released once the call has returned, whatever came
    /// of it.  A callee that is no registered callable yields the
    /// `undefined` proxy.
    pub fn invoke<F: Fn(Handle) -> Handle>(
        &self,
        rt: &mut Runtime,
        reg: &CallbackRegistry<F>,
        args: &[Val],
    ) -> (r: Val)
        requires
            old(rt).wf(),
            old(rt).is_handle(self@),
            old(rt).can_alloc(),
            args_ok(*old(rt), args@),
            reg.wf(),
        ensures
            final(rt).wf(),
            final(rt)@.thrown == old(rt)@.thrown,
            invoke_post(old(rt)@.slots, self@, handles_of(args@), reg@, final(rt)@.slots, r@),
            final(rt).is_handle(r@),
            final(rt).refcount(r@) >= 1,
    {
        let ghost s0 = old(rt)@.slots;
        let ghost sa = spec_alloc(s0, JsModel::Arr(handles_of(args@)));
        let ghost argv = s0.len() as Handle;
        let arr = build_args(rt, args);
        let cid: Option<u32> = rt.callable_id(self.handle);
        let ghost mut witness: u32 = 0;
        let rh: Handle;
        match cid {
            Some(id) => {
                if (id as usize) < reg.len() {
                    let raw = reg.dispatch(id, arr.as_handle());
                    proof {
                        witness = raw;
                    }
                    rh = rt.own_result(raw);
                } else {
                    rh = rt.get_undefined();
                }
            },
            None => {
                rh = rt.get_undefined();
            },
        }
        proof {
            assert(rt@.slots == spec_retain(sa, rh));
            assert(rt.is_handle(rh));
            if rh == argv {
                assert(rt.refcount(arr@) >= 1);
            } else {
                assert(rt@.slots[argv as int] == sa[argv as int]);
                assert(rt.refcount(arr@) >= 1);
            }
        }
        Val::delete(rt, arr);
        proof {
            assert(rt@.slots == spec_dec(spec_retain(sa, rh), argv));
            match callable_id_model(s0[self@ as int].value) {
                Some(id) => {
                    if id < reg@.len() {
                        assert(reg@[id as int].ensures((argv,), witness));
                        assert(rh == spec_own_handle(sa, witness));
                    } else {
                        assert(rh == UNDEFINED_HANDLE);
                    }
                },
                None => {
                    assert(rh == UNDEFINED_HANDLE);
                },
            }
        }
        Val { handle: rh }
    }

    /// Calls the method `name` of this value with `args`: marshal, resolve,
    /// dispatch, wrap the result as a new owned proxy, and release the
    /// resolved method and the argument list once the call has returned.
    /// May return a well-defined `undefined` proxy.
    pub fn call<F: Fn(Handle) -> Handle>(
        &self,
        rt: &mut Runtime,
        reg: &CallbackRegistry<F>,
        name: &str,
        args: &[Val],
    ) -> (r: Val)
        requires
            old(rt).wf(),
            old(rt).is_handle(self@),
            old(rt)@.slots.len() + 2 <= u32::MAX,
            args_ok(*old(rt), args@),
            reg.wf(),
        ensures
            final(rt).wf(),
            final(rt)@.thrown == old(rt)@.thrown,
            call_post(old(rt)@.slots, self@, name@, handles_of(args@), reg@, final(rt)@.slots, r@),
            final(rt).is_handle(r@),
            final(rt).refcount(r@) >= 1,
    {
        let ghost s0 = old(rt)@.slots;
        let ghost sa = spec_alloc(s0, JsModel::Arr(handles_of(args@)));
        let ghost argv = s0.len() as Handle;
        let arr = build_args(rt, args);
        let m = Val { handle: rt.obj_prop(self.handle, name) };
        let ghost sf = rt@.slots;
        proof {
            assert(sa[self@ as int].value == s0[self@ as int].value);
            assert(value_handles_ok(s0[self@ as int].value, s0.len() as int));
            match s0[self@ as int].value {
                JsModel::Obj(props, _) => {
                    match lookup_prop(props, name@) {
                        Some(hp) => {
                            lemma_lookup_some_in(props, name@, hp);
                            assert(hp < s0.len());
                            assert(sf[argv as int] == sa[argv as int]);
                        },
                        None => {
                            assert(sf[argv as int] == sa[argv as int]);
                        },
                    }
                },
                JsModel::Arr(_) => {
                    assert(sf[argv as int] == sa[argv as int]);
                },
                _ => {
                    assert(sf[argv as int] == sa[argv as int]);
                },
            }
            assert(sf[argv as int].refs == 1);
            assert(m@ != argv);
        }
        let cid: Option<u32> = rt.callable_id(m.handle);
        let ghost mut witness: u32 = 0;
        let rh: Handle;
        match cid {
            Some(id) => {
                if (id as usize) < reg.len() {
                    let raw = reg.dispatch(id, arr.as_handle());
                    proof {
                        witness = raw;
                    }
                    rh = rt.own_result(raw);
                } else {
                    rh = rt.get_undefined();
                }
            },
            None => {
                rh = rt.get_undefined();
            },
        }
        proof {
            assert(rt@.slots == spec_retain(sf, rh));
            assert(rt.is_handle(rh));
            assert(sf[m@ as int].refs >= 1);
            if rh == m@ {
                assert(rt.refcount(m@) >= 1);
            } else {
                assert(rt@.slots[m@ as int] == sf[m@ as int]);
                assert(rt.refcount(m@) >= 1);
            }
        }
        Val::delete(rt, m);
        proof {
            assert(rt@.slots == spec_dec(spec_retain(sf, rh), m@));
            if rh == argv {
                assert(rt.refcount(arr@) >= 1);
            } else {
                assert(rt@.slots[argv as int] == sf[argv as int]);
                assert(rt.refcount(arr@) >= 1);
            }
        }
        Val::delete(rt, arr);
        proof {
            assert(rt@.slots == spec_dec(spec_dec(spec_retain(sf, rh), m@), argv));
            match callable_id_model(sf[m@ as int].value) {
                Some(id) => {
                    if id < reg@.len() {
                        assert(reg@[id as int].ensures((argv,), witness));
                        assert(rh == spec_own_handle(sf, witness));
                    } else {
                        assert(rh == UNDEFINED_HANDLE);
                    }
                },
                None => {
                    assert(rh == UNDEFINED_HANDLE);
                },
            }
        }
        Val { handle: rh }
    }

    /// Calls this value as a constructor with `args`: a fresh argument list
    /// is marshaled and released again, and the result is a new owned proxy
    /// for a fresh object recording this value as its constructor.
    pub fn new<F: Fn(Handle) -> Handle>(
        &self,
        rt: &mut Runtime,
        reg: &CallbackRegistry<F>,
        args: &[Val],
    ) -> (r: Val)
        requires
            old(rt).wf(),
            old(rt).is_handle(self@),
            old(rt)@.slots.len() + 2 <= u32::MAX,
            args_ok(*old(rt), args@),
            reg.wf(),
        ensures
            final(rt).wf(),
            final(rt)@.thrown == old(rt)@.thrown,
            final(rt)@.slots == spec_dec(
                spec_alloc(
                    spec_alloc(old(rt)@.slots, JsModel::Arr(handles_of(args@))),
                    JsModel::Obj(Seq::<(Seq<char>, Handle)>::empty(), Some(self@)),
                ),
                old(rt)@.slots.len() as Handle,
            ),
            r@ == old(rt)@.slots.len() + 1,
            final(rt).is_handle(r@),
            final(rt).refcount(r@) == 1,
    {
        let arr = build_args(rt, args);
        let h = rt.construct(self.handle);
        Val::delete(rt, arr);
        Val { handle: h }
    }

    /// A runtime-visible callable for the native callback `f`: registers
    /// `f` under the next id and asks the boundary to mint a callable bound
    /// to that id.  Invoking the callable dispatches to `f`.
    pub fn make_fn<F: Fn(Handle) -> Handle>(
        rt: &mut Runtime,
        reg: &mut CallbackRegistry<F>,
        f: F,
    ) -> (r: Val)
        requires
            old(rt).wf(),
            old(rt).can_alloc(),
            old(reg).wf(),
            old(reg)@.len() < u32::MAX,
            forall|h: Handle| f.requires((h,)),
        ensures
            final(rt).wf(),
            final(reg).wf(),
            final(reg)@ == old(reg)@.push(f),
            final(rt)@.slots == spec_alloc(
                old(rt)@.slots,
                JsModel::Fun(old(reg)@.len() as u32),
            ),
            final(rt)@.thrown == old(rt)@.thrown,
            r@ == old(rt)@.slots.len(),
            final(rt).refcount(r@) == 1,
    {
        let id = reg.register(f);
        Val { handle: rt.make_callback(id) }
    }

    /// Converts this array to a native vector of integers: reads the
    /// `length`, then each element in order through the wire integer
    /// representation.  Every transient proxy made along the way is
    /// released again before the call returns.
    pub fn to_vec_i32(&self, rt: &mut Runtime) -> (r: Vec<i32>)
        requires
            old(rt).wf(),
            old(rt).is_handle(self@),
            old(rt).can_alloc(),
        ensures
            final(rt).wf(),
            final(rt)@.thrown == old(rt)@.thrown,
            table_preserved(old(rt)@.slots, final(rt)@.slots),
            to_vec_i32_post(old(rt)@.slots, self@, r@),
    {
        let ghost s0 = old(rt)@.slots;
        proof {
            assert(value_handles_ok(s0[self@ as int].value, s0.len() as int));
            match s0[self@ as int].value {
                JsModel::Obj(props, _) => {
                    match lookup_prop(props, "length"@) {
                        Some(hp) => {
                            lemma_lookup_some_in(props, "length"@, hp);
                        },
                        None => {},
                    }
                },
                _ => {},
            }
        }
        let len_val = self.get(rt, "length");
        let n: i32 = len_val.as_i32(rt);
        proof {
            match s0[self@ as int].value {
                JsModel::Arr(elems) => {
                    assert(rt@.slots == spec_alloc(s0, JsModel::Int(elems.len() as i32)));
                    assert(n == elems.len() as i32);
                },
                _ => {
                    assert(len_val@ < s0.len());
                    assert(rt@.slots == spec_retain(s0, len_val@));
                    assert(rt@.slots[len_val@ as int].value == s0[len_val@ as int].value);
                },
            }
            assert(n == length_read_of(s0, self@));
        }
        Val::delete(rt, len_val);
        let ghost s1 = rt@.slots;
        proof {
            match s0[self@ as int].value {
                JsModel::Arr(elems) => {
                    assert forall|x: int| 0 <= x < s0.len() implies (#[trigger] s1[x])
                        == s0[x] by {
                        assert(spec_alloc(s0, JsModel::Int(elems.len() as i32))[x] == s0[x]);
                    }
                    assert(table_preserved(s0, s1));
                },
                _ => {
                    lemma_touch_preserved(s0, len_val@);
                    assert(table_preserved(s0, s1));
                },
            }
        }
        let mut r: Vec<i32> = Vec::new();
        let mut i: i32 = 0;
        if n <= 0 {
            return r;
        }
        while i < n
            invariant
                old(rt).wf(),
                old(rt).is_handle(self@),
                0 <= i <= n,
                r@.len() == i as int,
                rt.wf(),
                rt@.thrown == old(rt)@.thrown,
                rt@.slots.len() == s1.len(),
                forall|x: int| 0 <= x < s1.len() ==> (#[trigger] s1[x]).refs <= u64::MAX,
                table_preserved(s0, s1),
                table_preserved(s1, rt@.slots),
                s0 == old(rt)@.slots,
                forall|j: int|
                    0 <= j < i ==> r@[j] == wire_int_of(
                        s0[(#[trigger] elem_read_result(s0, self@, j)) as int].value,
                    ),
            decreases n - i,
        {
            let ghost sc = rt@.slots;
            proof {
                assert(sc[self@ as int].value == s0[self@ as int].value);
                assert(elem_read_result(sc, self@, i as int) == elem_read_result(
                    s0,
                    self@,
                    i as int,
                ));
                assert(value_handles_ok(s0[self@ as int].value, s0.len() as int));
            }
            let e = self.at(rt, i as usize);
            proof {
                assert(e@ == elem_read_result(s0, self@, i as int));
                assert(e@ < s0.len());
                assert(rt@.slots == spec_retain(sc, e@));
                assert(rt@.slots[e@ as int].value == sc[e@ as int].value);
                assert(sc[e@ as int].value == s0[e@ as int].value);
            }
            let x: i32 = e.as_i32(rt);
            proof {
                assert(x == wire_int_of(s0[e@ as int].value));
            }
            r.push(x);
            Val::delete(rt, e);
            proof {
                lemma_touch_preserved(sc, e@);
                assert(rt@.slots == spec_dec(spec_retain(sc, e@), e@));
                lemma_preserved_trans(s1, sc, rt@.slots);
            }
            i = i + 1;
        }
        proof {
            lemma_preserved_trans(s0, s1, rt@.slots);
        }
        r
    }

    /// An owned proxy for the eventual result of this value.  Every value of
    /// the model runtime is already settled, so the eventual result is the
    /// value itself, duplicated.
    pub fn await_(&self, rt: &mut Runtime) -> (r: Val)
        requires
            old(rt).wf(),
            old(rt).is_handle(self@),
            old(rt).refcount(self@) < u64::MAX,
        ensures
            final(rt).wf(),
            final(rt)@.slots == spec_inc(old(rt)@.slots, self@),
            final(rt)@.thrown == old(rt)@.thrown,
            r@ == self@,
    {
        Val::from_val(rt, self)
    }
}

} // verus!
