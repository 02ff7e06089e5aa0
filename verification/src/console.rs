//! A thin wrapper over the runtime's `console` object.
//!
//! The console is just a global object looked up by name; each logging
//! method is a method call whose result proxy is released on the spot.  A
//! fresh [`Runtime`] has an empty root object, so the console resolves to
//! the `undefined` proxy and the logging calls dispatch nothing until the
//! embedder installs a console object with callable methods.

use vstd::prelude::*;

use crate::registry::CallbackRegistry;
use crate::runtime::{
    Handle, Runtime, SlotModel, GLOBAL_HANDLE, prop_read_result, prop_read_table, spec_dec,
};
use crate::value::{Val, args_ok, call_post, handles_of};

verus! {

/// An owning proxy for the runtime's global `console` object.
#[derive(Debug)]
pub struct Console {
    val: Val,
}

impl View for Console {
    type V = Handle;

    closed spec fn view(&self) -> Handle {
        self.val@
    }
}

/// What one logging call leaves behind: some method call on the console
/// happened, with the given name and arguments, and its result proxy was
/// released again.
pub open spec fn log_post<F: Fn(Handle) -> Handle>(
    s0: Seq<SlotModel>,
    console: Handle,
    name: Seq<char>,
    hs: Seq<Handle>,
    reg: Seq<F>,
    s1: Seq<SlotModel>,
) -> bool {
    exists|rh: Handle, smid: Seq<SlotModel>|
        {
            &&& #[trigger] call_post(s0, console, name, hs, reg, smid, rh)
            &&& s1 == spec_dec(smid, rh)
        }
}

impl Console {
    /// An owning proxy for the global `console`.
    pub fn get(rt: &mut Runtime) -> (c: Console)
        requires
            old(rt).wf(),
            old(rt).can_alloc(),
        ensures
            final(rt).wf(),
            final(rt)@.thrown == old(rt)@.thrown,
            c@ == prop_read_result(old(rt)@.slots, GLOBAL_HANDLE, "console"@),
            final(rt)@.slots == prop_read_table(old(rt)@.slots, GLOBAL_HANDLE, "console"@),
            final(rt).is_handle(c@),
            final(rt).refcount(c@) >= 1,
    {
        Console { val: Val::global(rt, "console") }
    }

    /// Calls the console's `log` method with `args` and releases the result.
    pub fn log<F: Fn(Handle) -> Handle>(
        &self,
        rt: &mut Runtime,
        reg: &CallbackRegistry<F>,
        args: &[Val],
    )
        requires
            old(rt).wf(),
            old(rt).is_handle(self@),
            old(rt)@.slots.len() + 2 <= u32::MAX,
            args_ok(*old(rt), args@),
            reg.wf(),
        ensures
            final(rt).wf(),
            final(rt)@.thrown == old(rt)@.thrown,
            log_post(old(rt)@.slots, self@, "log"@, handles_of(args@), reg@, final(rt)@.slots),
    {
        let r = self.val.call(rt, reg, "log", args);
        Val::delete(rt, r);
    }

    /// Calls the console's `warn` method with `args` and releases the
    /// result.
    pub fn warn<F: Fn(Handle) -> Handle>(
        &self,
        rt: &mut Runtime,
        reg: &CallbackRegistry<F>,
        args: &[Val],
    )
        requires
            old(rt).wf(),
            old(rt).is_handle(self@),
            old(rt)@.slots.len() + 2 <= u32::MAX,
            args_ok(*old(rt), args@),
            reg.wf(),
        ensures
            final(rt).wf(),
            final(rt)@.thrown == old(rt)@.thrown,
            log_post(old(rt)@.slots, self@, "warn"@, handles_of(args@), reg@, final(rt)@.slots),
    {
        let r = self.val.call(rt, reg, "warn", args);
        Val::delete(rt, r);
    }

    /// Calls the console's `info` method with `args` and releases the
    /// result.
    pub fn info<F: Fn(Handle) -> Handle>(
        &self,
        rt: &mut Runtime,
        reg: &CallbackRegistry<F>,
        args: &[Val],
    )
        requires
            old(rt).wf(),
            old(rt).is_handle(self@),
            old(rt)@.slots.len() + 2 <= u32::MAX,
            args_ok(*old(rt), args@),
            reg.wf(),
        ensures
            final(rt).wf(),
            final(rt)@.thrown == old(rt)@.thrown,
            log_post(old(rt)@.slots, self@, "info"@, handles_of(args@), reg@, final(rt)@.slots),
    {
        let r = self.val.call(rt, reg, "info", args);
        Val::delete(rt, r);
    }

    /// The console's raw handle; ownership stays with the wrapper.
    pub fn as_handle(&self) -> (h: Handle)
        ensures
            h == self@,
    {
        self.val.as_handle()
    }

    /// Borrows the console as a plain value proxy.
    pub fn as_val(&self) -> (v: &Val)
        ensures
            v@ == self@,
    {
        &self.val
    }

    /// Turns the console into the plain value proxy it wraps, keeping the
    /// one owned reference.
    pub fn into_val(self) -> (v: Val)
        ensures
            v@ == self@,
    {
        self.val
    }
}

} // verus!
