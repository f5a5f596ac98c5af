//! Looking up signatures in a buffer.

use crate::active::has_size;
use crate::buffer::{are_pending, Entries, ExceptionBuffer};
use crate::record::{record_views, ExceptionRecord};
use vstd::prelude::*;

verus! {

/// Tells from a buffer which exceptions are known, and which wait to be reported.
#[derive(Debug)]
pub struct DedupEngine<'a> {
    buffer: &'a ExceptionBuffer,
}

impl<'a> View for DedupEngine<'a> {
    type V = Entries;

    closed spec fn view(&self) -> Entries {
        self.buffer@
    }
}

impl<'a> DedupEngine<'a> {
    /// An engine on the given buffer.
    pub fn new(buffer: &'a ExceptionBuffer) -> (res: Self)
        ensures
            res@ == buffer@,
    {
        DedupEngine { buffer }
    }

    /// Whether exceptions of the given signature are known.
    pub fn is_duplicate(&self, signature: &str) -> (res: bool)
        ensures
            res == self@.contains_key(signature@),
    {
        self.buffer.contains_signature(signature)
    }

    /// How many distinct signatures are known.
    pub fn distinct_count(&self) -> (res: usize)
        ensures
            has_size(self@, res as nat),
    {
        self.buffer.len()
    }

    /// The samples that wait to be reported, in no certain order.
    pub fn pending_batch(&self) -> (res: Vec<ExceptionRecord>)
        ensures
            are_pending(self@, record_views(res@)),
    {
        self.buffer.unreported_samples()
    }
}

} // verus!
