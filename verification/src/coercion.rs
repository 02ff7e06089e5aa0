//! Coercions between native integer widths and the wire representation.
//!
//! The boundary carries every number in one wire type; each native width
//! converts to it and back by a narrowing or truncating cast, stated
//! exactly.  Each literal constructor hands back a freshly owned proxy, as
//! the marshaling convention demands; the matching reader goes through the
//! same wire type, so a literal read back at its own width returns the
//! original value whenever the width fits the wire.

use vstd::prelude::*;

use crate::runtime::{JsModel, Runtime, spec_alloc, wire_int_of};
use crate::value::Val;

verus! {

/// An owned proxy for a `u8` literal, through the wire integer.
pub fn from_u8(rt: &mut Runtime, x: u8) -> (r: Val)
    requires
        old(rt).wf(),
        old(rt).can_alloc(),
    ensures
        final(rt).wf(),
        final(rt)@.slots == spec_alloc(old(rt)@.slots, JsModel::Int(x as i32)),
        final(rt)@.thrown == old(rt)@.thrown,
        r@ == old(rt)@.slots.len(),
        final(rt).refcount(r@) == 1,
{
    Val::from_i32(rt, x as i32)
}

/// Reads a proxy back as `u8`, truncating the wire integer.
pub fn as_u8(v: &Val, rt: &Runtime) -> (x: u8)
    requires
        rt.wf(),
        rt.is_handle(v@),
    ensures
        x == wire_int_of(rt@.slots[v@ as int].value) as u8,
{
    let w: i32 = v.as_i32(rt);
    #[verifier::truncate] (w as u8)
}

/// An owned proxy for an `i8` literal, through the wire integer.
pub fn from_i8(rt: &mut Runtime, x: i8) -> (r: Val)
    requires
        old(rt).wf(),
        old(rt).can_alloc(),
    ensures
        final(rt).wf(),
        final(rt)@.slots == spec_alloc(old(rt)@.slots, JsModel::Int(x as i32)),
        final(rt)@.thrown == old(rt)@.thrown,
        r@ == old(rt)@.slots.len(),
        final(rt).refcount(r@) == 1,
{
    Val::from_i32(rt, x as i32)
}

/// Reads a proxy back as `i8`, truncating the wire integer.
pub fn as_i8(v: &Val, rt: &Runtime) -> (x: i8)
    requires
        rt.wf(),
        rt.is_handle(v@),
    ensures
        x == wire_int_of(rt@.slots[v@ as int].value) as i8,
{
    let w: i32 = v.as_i32(rt);
    #[verifier::truncate] (w as i8)
}

/// An owned proxy for a `u16` literal, through the wire integer.
pub fn from_u16(rt: &mut Runtime, x: u16) -> (r: Val)
    requires
        old(rt).wf(),
        old(rt).can_alloc(),
    ensures
        final(rt).wf(),
        final(rt)@.slots == spec_alloc(old(rt)@.slots, JsModel::Int(x as i32)),
        final(rt)@.thrown == old(rt)@.thrown,
        r@ == old(rt)@.slots.len(),
        final(rt).refcount(r@) == 1,
{
    Val::from_i32(rt, x as i32)
}

/// Reads a proxy back as `u16`, truncating the wire integer.
pub fn as_u16(v: &Val, rt: &Runtime) -> (x: u16)
    requires
        rt.wf(),
        rt.is_handle(v@),
    ensures
        x == wire_int_of(rt@.slots[v@ as int].value) as u16,
{
    let w: i32 = v.as_i32(rt);
    #[verifier::truncate] (w as u16)
}

/// An owned proxy for an `i16` literal, through the wire integer.
pub fn from_i16(rt: &mut Runtime, x: i16) -> (r: Val)
    requires
        old(rt).wf(),
        old(rt).can_alloc(),
    ensures
        final(rt).wf(),
        final(rt)@.slots == spec_alloc(old(rt)@.slots, JsModel::Int(x as i32)),
        final(rt)@.thrown == old(rt)@.thrown,
        r@ == old(rt)@.slots.len(),
        final(rt).refcount(r@) == 1,
{
    Val::from_i32(rt, x as i32)
}

/// Reads a proxy back as `i16`, truncating the wire integer.
pub fn as_i16(v: &Val, rt: &Runtime) -> (x: i16)
    requires
        rt.wf(),
        rt.is_handle(v@),
    ensures
        x == wire_int_of(rt@.slots[v@ as int].value) as i16,
{
    let w: i32 = v.as_i32(rt);
    #[verifier::truncate] (w as i16)
}

/// An owned proxy for a `u32` literal, reinterpreted into the wire integer.
pub fn from_u32(rt: &mut Runtime, x: u32) -> (r: Val)
    requires
        old(rt).wf(),
        old(rt).can_alloc(),
    ensures
        final(rt).wf(),
        final(rt)@.slots == spec_alloc(old(rt)@.slots, JsModel::Int(x as i32)),
        final(rt)@.thrown == old(rt)@.thrown,
        r@ == old(rt)@.slots.len(),
        final(rt).refcount(r@) == 1,
{
    Val::from_i32(rt, #[verifier::truncate] (x as i32))
}

/// Reads a proxy back as `u32`, reinterpreting the wire integer.
pub fn as_u32(v: &Val, rt: &Runtime) -> (x: u32)
    requires
        rt.wf(),
        rt.is_handle(v@),
    ensures
        x == wire_int_of(rt@.slots[v@ as int].value) as u32,
{
    let w: i32 = v.as_i32(rt);
    #[verifier::truncate] (w as u32)
}

/// An owned proxy for a `u64` literal, truncated into the wire integer.
pub fn from_u64(rt: &mut Runtime, x: u64) -> (r: Val)
    requires
        old(rt).wf(),
        old(rt).can_alloc(),
    ensures
        final(rt).wf(),
        final(rt)@.slots == spec_alloc(old(rt)@.slots, JsModel::Int(x as i32)),
        final(rt)@.thrown == old(rt)@.thrown,
        r@ == old(rt)@.slots.len(),
        final(rt).refcount(r@) == 1,
{
    Val::from_i32(rt, #[verifier::truncate] (x as i32))
}

/// Reads a proxy back as `u64`, widening the wire integer.
pub fn as_u64(v: &Val, rt: &Runtime) -> (x: u64)
    requires
        rt.wf(),
        rt.is_handle(v@),
    ensures
        x == wire_int_of(rt@.slots[v@ as int].value) as u64,
{
    let w: i32 = v.as_i32(rt);
    #[verifier::truncate] (w as u64)
}

/// An owned proxy for an `i64` literal, truncated into the wire integer.
pub fn from_i64(rt: &mut Runtime, x: i64) -> (r: Val)
    requires
        old(rt).wf(),
        old(rt).can_alloc(),
    ensures
        final(rt).wf(),
        final(rt)@.slots == spec_alloc(old(rt)@.slots, JsModel::Int(x as i32)),
        final(rt)@.thrown == old(rt)@.thrown,
        r@ == old(rt)@.slots.len(),
        final(rt).refcount(r@) == 1,
{
    Val::from_i32(rt, #[verifier::truncate] (x as i32))
}

/// Reads a proxy back as `i64`, widening the wire integer.
pub fn as_i64(v: &Val, rt: &Runtime) -> (x: i64)
    requires
        rt.wf(),
        rt.is_handle(v@),
    ensures
        x == wire_int_of(rt@.slots[v@ as int].value) as i64,
{
    let w: i32 = v.as_i32(rt);
    w as i64
}

/// An owned proxy for a `usize` literal, truncated into the wire integer.
pub fn from_usize(rt: &mut Runtime, x: usize) -> (r: Val)
    requires
        old(rt).wf(),
        old(rt).can_alloc(),
    ensures
        final(rt).wf(),
        final(rt)@.slots == spec_alloc(old(rt)@.slots, JsModel::Int(x as i32)),
        final(rt)@.thrown == old(rt)@.thrown,
        r@ == old(rt)@.slots.len(),
        final(rt).refcount(r@) == 1,
{
    Val::from_i32(rt, #[verifier::truncate] (x as i32))
}

/// Reads a proxy back as `usize`, reinterpreting the wire integer.
pub fn as_usize(v: &Val, rt: &Runtime) -> (x: usize)
    requires
        rt.wf(),
        rt.is_handle(v@),
    ensures
        x == wire_int_of(rt@.slots[v@ as int].value) as usize,
{
    let w: i32 = v.as_i32(rt);
    #[verifier::truncate] (w as usize)
}

/// An owned proxy for an `isize` literal, truncated into the wire integer.
pub fn from_isize(rt: &mut Runtime, x: isize) -> (r: Val)
    requires
        old(rt).wf(),
        old(rt).can_alloc(),
    ensures
        final(rt).wf(),
        final(rt)@.slots == spec_alloc(old(rt)@.slots, JsModel::Int(x as i32)),
        final(rt)@.thrown == old(rt)@.thrown,
        r@ == old(rt)@.slots.len(),
        final(rt).refcount(r@) == 1,
{
    Val::from_i32(rt, #[verifier::truncate] (x as i32))
}

/// Reads a proxy back as `isize`, widening the wire integer.
pub fn as_isize(v: &Val, rt: &Runtime) -> (x: isize)
    requires
        rt.wf(),
        rt.is_handle(v@),
    ensures
        x == wire_int_of(rt@.slots[v@ as int].value) as isize,
{
    let w: i32 = v.as_i32(rt);
    w as isize
}

/// An owned proxy for a unit literal: the `undefined` singleton, retained.
pub fn from_unit(rt: &mut Runtime) -> (r: Val)
    requires
        old(rt).wf(),
    ensures
        final(rt).wf(),
        final(rt)@.slots == crate::runtime::spec_retain(
            old(rt)@.slots,
            crate::runtime::UNDEFINED_HANDLE,
        ),
        final(rt)@.thrown == old(rt)@.thrown,
        r@ == crate::runtime::UNDEFINED_HANDLE,
        final(rt).refcount(r@) >= 1,
{
    Val::undefined(rt)
}

} // verus!
