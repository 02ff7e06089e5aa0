//! The laws of the proxy layer, stated and proved over the model.
//!
//! Each law is a public proof function; its doc comment says what it
//! states.  The exec operations are tied to the spec transitions here by
//! their own contracts: duplication ([`crate::value::Val::from_val`])
//! ensures `spec_inc`, release ([`crate::value::Val::delete`]) ensures
//! `spec_dec`, registration ensures a push, and the readers and
//! constructors ensure `spec_alloc` and the wire reading functions.

use vstd::prelude::*;

use crate::runtime::{
    Handle, JsModel, SlotModel, gt_model, lt_model, spec_alloc, spec_dec, spec_inc,
    strict_eq_model, wire_int_of, wire_str_of,
};
use crate::value::{ValOrder, compare_model};

verus! {

/// One step of the proxy lifetime protocol on a shared handle: a
/// duplication or a release.
pub enum RefOp {
    Dup,
    Release,
}

/// How many duplications a sequence of steps holds.
pub open spec fn dup_count(ops: Seq<RefOp>) -> int
    decreases ops.len(),
{
    if ops.len() == 0 {
        0
    } else {
        dup_count(ops.drop_last()) + if ops.last() is Dup {
            1int
        } else {
            0int
        }
    }
}

/// How many releases a sequence of steps holds.
pub open spec fn release_count(ops: Seq<RefOp>) -> int
    decreases ops.len(),
{
    if ops.len() == 0 {
        0
    } else {
        release_count(ops.drop_last()) + if ops.last() is Release {
            1int
        } else {
            0int
        }
    }
}

/// The slot table after applying each step to the handle `h` in order:
/// a duplication increments the count, a release decrements it.
pub open spec fn apply_ref_ops(s: Seq<SlotModel>, h: Handle, ops: Seq<RefOp>) -> Seq<SlotModel>
    decreases ops.len(),
{
    if ops.len() == 0 {
        s
    } else {
        let prev = apply_ref_ops(s, h, ops.drop_last());
        match ops.last() {
            RefOp::Dup => spec_inc(prev, h),
            RefOp::Release => spec_dec(prev, h),
        }
    }
}

/// Holds when no step releases a reference that is not held: before every
/// release, the count accumulated from `c0` is still at least one.
pub open spec fn ref_ops_valid(c0: int, ops: Seq<RefOp>) -> bool
    decreases ops.len(),
{
    if ops.len() == 0 {
        true
    } else {
        &&& ref_ops_valid(c0, ops.drop_last())
        &&& (ops.last() is Release ==> c0 + dup_count(ops.drop_last()) - release_count(
            ops.drop_last(),
        ) >= 1)
    }
}

/// The reference-count invariant: for any sequence of duplications and
/// releases of proxies sharing one handle, the net change of the boundary
/// count is exactly the number of duplications minus the number of
/// releases, and no other slot is touched at all.
pub proof fn lemma_refcount_delta(s: Seq<SlotModel>, h: Handle, ops: Seq<RefOp>)
    requires
        h < s.len(),
        ref_ops_valid(s[h as int].refs as int, ops),
    ensures
        apply_ref_ops(s, h, ops).len() == s.len(),
        apply_ref_ops(s, h, ops)[h as int].refs == s[h as int].refs + dup_count(ops)
            - release_count(ops),
        apply_ref_ops(s, h, ops)[h as int].value == s[h as int].value,
        forall|x: int| 0 <= x < s.len() && x != h ==> apply_ref_ops(s, h, ops)[x] == s[x],
    decreases ops.len(),
{
    if ops.len() > 0 {
        lemma_refcount_delta(s, h, ops.drop_last());
        let prev = apply_ref_ops(s, h, ops.drop_last());
        match ops.last() {
            RefOp::Dup => {
                assert(spec_inc(prev, h)[h as int].refs == prev[h as int].refs + 1);
            },
            RefOp::Release => {
                assert(prev[h as int].refs >= 1);
                assert(spec_dec(prev, h)[h as int].refs == prev[h as int].refs - 1);
            },
        }
    }
}

/// After as many releases as duplications, the boundary count stands where
/// it stood before the whole sequence.
pub proof fn lemma_refcount_balanced(s: Seq<SlotModel>, h: Handle, ops: Seq<RefOp>)
    requires
        h < s.len(),
        ref_ops_valid(s[h as int].refs as int, ops),
        dup_count(ops) == release_count(ops),
    ensures
        apply_ref_ops(s, h, ops)[h as int] == s[h as int],
{
    lemma_refcount_delta(s, h, ops);
}

/// Integer round trip: a literal built at the wire width reads back
/// unchanged, whatever the table held before.
pub proof fn lemma_i32_round_trip(s: Seq<SlotModel>, i: i32)
    ensures
        wire_int_of(spec_alloc(s, JsModel::Int(i))[s.len() as int].value) == i,
{
}

/// String round trip: a string literal reads back unchanged.
pub proof fn lemma_str_round_trip(s: Seq<SlotModel>, t: Seq<char>)
    ensures
        wire_str_of(spec_alloc(s, JsModel::Str(t))[s.len() as int].value) == t,
{
}

/// Round trip at width `u8`: narrowing to the wire and truncating back is
/// the identity across the whole width.
pub proof fn lemma_u8_round_trip(s: Seq<SlotModel>, x: u8)
    ensures
        wire_int_of(spec_alloc(s, JsModel::Int(x as i32))[s.len() as int].value) as u8 == x,
{
}

/// Round trip at width `i8`, across the whole width.
pub proof fn lemma_i8_round_trip(s: Seq<SlotModel>, x: i8)
    ensures
        wire_int_of(spec_alloc(s, JsModel::Int(x as i32))[s.len() as int].value) as i8 == x,
{
}

/// Round trip at width `u16`, across the whole width.
pub proof fn lemma_u16_round_trip(s: Seq<SlotModel>, x: u16)
    ensures
        wire_int_of(spec_alloc(s, JsModel::Int(x as i32))[s.len() as int].value) as u16 == x,
{
}

/// Round trip at width `i16`, across the whole width.
pub proof fn lemma_i16_round_trip(s: Seq<SlotModel>, x: i16)
    ensures
        wire_int_of(spec_alloc(s, JsModel::Int(x as i32))[s.len() as int].value) as i16 == x,
{
}

/// Round trip at width `u32`: the reinterpreting casts through the wire
/// integer compose to the identity across the whole width.
pub proof fn lemma_u32_round_trip(s: Seq<SlotModel>, x: u32)
    ensures
        wire_int_of(
            spec_alloc(s, JsModel::Int(x as i32))[s.len() as int].value,
        ) as u32 == x,
{
    assert((x as i32) as u32 == x) by (bit_vector);
}

/// Round trip at width `i64`, for the values the wire integer can carry.
pub proof fn lemma_i64_round_trip(s: Seq<SlotModel>, x: i64)
    requires
        i32::MIN <= x <= i32::MAX,
    ensures
        wire_int_of(
            spec_alloc(s, JsModel::Int(x as i32))[s.len() as int].value,
        ) as i64 == x,
{
}

/// Round trip at width `u64`, for the values the wire integer can carry.
pub proof fn lemma_u64_round_trip(s: Seq<SlotModel>, x: u64)
    requires
        x <= i32::MAX,
    ensures
        wire_int_of(
            spec_alloc(s, JsModel::Int(x as i32))[s.len() as int].value,
        ) as u64 == x,
{
}

/// Marshaling order: the argument list built from the handles `hs` holds
/// exactly `hs`, in order.  Together with the contracts of
/// [`crate::value::build_args`] and [`crate::value::Val::invoke`], the
/// callee is presented its arguments in exactly the order given.
pub proof fn lemma_marshal_order(s: Seq<SlotModel>, hs: Seq<Handle>)
    ensures
        spec_alloc(s, JsModel::Arr(hs))[s.len() as int].value == JsModel::Arr(hs),
{
}

/// Registration determinism: each registration appends one entry, so the
/// ids handed out by successive registrations strictly increase, and no
/// registration disturbs an entry already made — dispatch at an id always
/// finds the callback registered under it.
pub proof fn lemma_register_monotonic<F>(t: Seq<F>, f: F, g: F)
    ensures
        t.push(f).len() == t.len() + 1,
        t.push(f).push(g).len() == t.len() + 2,
        forall|i: int| 0 <= i < t.len() ==> t.push(f)[i] == t[i],
        t.push(f)[t.len() as int] == f,
        t.push(f).push(g)[t.len() as int] == f,
        t.push(f).push(g)[t.len() as int + 1] == g,
{
    assert(t.push(f).push(g)[t.len() as int] == t.push(f)[t.len() as int]);
}

/// The comparator contract: strict equality forces the relational result
/// `Equal` and rules both strict orders out; the two strict orders never
/// hold together; and an `Incomparable` outcome is distinct from `Equal`:
/// it rules strict equality out.
pub proof fn lemma_comparator(s: Seq<SlotModel>, a: Handle, b: Handle)
    ensures
        strict_eq_model(s, a, b) ==> compare_model(s, a, b) == ValOrder::Equal,
        strict_eq_model(s, a, b) ==> !gt_model(s, a, b) && !lt_model(s, a, b),
        !(gt_model(s, a, b) && lt_model(s, a, b)),
        compare_model(s, a, b) == ValOrder::Incomparable ==> !strict_eq_model(s, a, b),
{
}



} // verus!
