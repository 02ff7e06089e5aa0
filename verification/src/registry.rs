//! The process-wide callback registry.
//!
//! The runtime can call back into native code only through small integer
//! ids.  The registry is the append-only arena behind those ids: `register`
//! hands out the next id and never reuses or removes one, since the runtime
//! may invoke a callback at an arbitrarily later time.  Dispatch resolves an
//! id to the callback registered under it and invokes it with the call's
//! argument-list handle as its one opaque parameter.

use vstd::prelude::*;

use crate::runtime::Handle;

verus! {

/// Append-only table of native callbacks, keyed by the id each entry was
/// registered under: the id is the entry's index.
pub struct CallbackRegistry<F> {
    table: Vec<F>,
}

impl<F> View for CallbackRegistry<F> {
    type V = Seq<F>;

    closed spec fn view(&self) -> Seq<F> {
        self.table@
    }
}

impl<F: Fn(Handle) -> Handle> CallbackRegistry<F> {
    /// Every registered callback accepts every argument handle: dispatch
    /// never has to know which handle the runtime will pass.
    pub open spec fn wf(&self) -> bool {
        forall|i: int, h: Handle|
            0 <= i < self@.len() ==> (#[trigger] self@[i].requires((h,)))
    }

    /// An empty registry.
    pub fn new() -> (r: Self)
        ensures
            r@ == Seq::<F>::empty(),
            r.wf(),
    {
        CallbackRegistry { table: Vec::new() }
    }

    /// How many callbacks have been registered.
    pub fn len(&self) -> (n: usize)
        ensures
            n == self@.len(),
    {
        self.table.len()
    }

    /// Appends `f` and returns its id: the table length before the append.
    /// Ids handed out by successive registrations are therefore strictly
    /// increasing, and registration never disturbs an existing entry.
    pub fn register(&mut self, f: F) -> (id: u32)
        requires
            old(self).wf(),
            old(self)@.len() < u32::MAX,
            forall|h: Handle| f.requires((h,)),
        ensures
            final(self).wf(),
            final(self)@ == old(self)@.push(f),
            id == old(self)@.len(),
    {
        let id: u32 = self.table.len() as u32;
        self.table.push(f);
        id
    }

    /// Invokes exactly the callback registered under `id`, with `h` passed
    /// through unchanged, and hands back whatever it returned.
    pub fn dispatch(&self, id: u32, h: Handle) -> (r: Handle)
        requires
            self.wf(),
            id < self@.len(),
        ensures
            self@[id as int].ensures((h,), r),
    {
        let f = &self.table[id as usize];
        f(h)
    }
}

} // verus!
