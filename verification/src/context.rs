//! The per-request context: a bag of named values shared across a request's
//! lifetime, with a counter that brackets every out-of-process call between
//! `enter_active_request` and `leave_active_request`.
use vstd::prelude::*;
use crate::json::{clone_members, json_members_view, Json};

verus! {

/// The per-request context. A coprocessor may return a replacement, which
/// wholly supplants the prior value.
#[derive(Debug, PartialEq, Eq)]
pub struct Context {
    /// Named values the stages share.
    pub entries: Vec<(String, Json)>,
    /// How many out-of-process calls are in flight under this context.
    pub active_requests: u64,
}

/// The mathematical shape of a [`Context`].
#[verifier::ext_equal]
pub struct ContextV {
    pub entries: Seq<(Seq<char>, crate::json::JsonV)>,
    pub active_requests: u64,
}

impl View for Context {
    type V = ContextV;

    open spec fn view(&self) -> ContextV {
        ContextV { entries: json_members_view(self.entries@), active_requests: self.active_requests }
    }
}

impl Context {
    /// A fresh context with no entries and no call in flight.
    pub fn new() -> (r: Context)
        ensures
            r@.entries == Seq::<(Seq<char>, crate::json::JsonV)>::empty(),
            r@.active_requests == 0,
    {
        let r = Context { entries: Vec::new(), active_requests: 0 };
        proof {
            assert(json_members_view(r.entries@) =~= Seq::<
                (Seq<char>, crate::json::JsonV),
            >::empty());
        }
        r
    }

    /// Marks one more out-of-process call in flight. The entries are
    /// untouched.
    pub fn enter_active_request(&mut self)
        requires
            old(self).active_requests < u64::MAX,
        ensures
            final(self).active_requests == old(self).active_requests + 1,
            final(self).entries == old(self).entries,
    {
        self.active_requests = self.active_requests + 1;
    }

    /// Marks one out-of-process call as done. The entries are untouched.
    pub fn leave_active_request(&mut self)
        requires
            old(self).active_requests > 0,
        ensures
            final(self).active_requests == old(self).active_requests - 1,
            final(self).entries == old(self).entries,
    {
        self.active_requests = self.active_requests - 1;
    }

    /// An owned copy whose mathematical shape equals this context's.
    pub fn deep_clone(&self) -> (r: Context)
        ensures
            r@ == self@,
    {
        Context { entries: clone_members(&self.entries), active_requests: self.active_requests }
    }
}

/// Entering and then leaving restores the context exactly: a matched
/// `enter_active_request` / `leave_active_request` pair, with nothing in
/// between that touches the context, is invisible afterwards.
pub proof fn lemma_active_request_bracket(before: Context, during: Context, after: Context)
    requires
        before.active_requests < u64::MAX,
        during.active_requests == before.active_requests + 1,
        during.entries == before.entries,
        after.active_requests == during.active_requests - 1,
        after.entries == during.entries,
    ensures
        after.active_requests == before.active_requests,
        after.entries == before.entries,
{
}

} // verus!
