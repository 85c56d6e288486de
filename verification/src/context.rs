//! Per-request correlation context.
//!
//! Each inbound request gets a fresh context carrying a unique
//! identifier, created at the moment the request arrives — one per
//! request, not per connection — and read, never changed, by every
//! middleware stage and the handler.

use vstd::prelude::*;

verus! {

/// The correlation handle attached to one request.
#[derive(PartialEq, Eq, Structural, Clone, Copy, Debug)]
pub struct RequestContext {
    pub id: u64,
}

/// Hands out request identifiers. Identifiers are drawn from a
/// counter, so no two requests of one source ever share one.
pub struct ContextSource {
    /// The next identifier to hand out.
    pub next: u64,
    /// Every identifier handed out so far, in order.
    pub issued: Ghost<Seq<u64>>,
}

/// Source well-formedness: the issued identifiers are exactly the
/// numbers below `next`, in increasing order — hence all distinct.
pub open spec fn context_source_wf(s: ContextSource) -> bool {
    s.issued@ == Seq::new(s.next as nat, |i: int| i as u64)
}

impl ContextSource {
    /// A source that has issued nothing yet.
    pub fn new() -> (s: ContextSource)
        ensures
            context_source_wf(s),
            s.next == 0,
            s.issued@ == Seq::<u64>::empty(),
    {
        let s = ContextSource { next: 0, issued: Ghost(Seq::empty()) };
        proof {
            assert(s.issued@ =~= Seq::new(0, |i: int| i as u64));
        }
        s
    }

    /// Creates the context for one new request, with an identifier
    /// never handed out before.
    pub fn fresh(&mut self) -> (c: RequestContext)
        requires
            context_source_wf(*old(self)),
            old(self).next < u64::MAX,
        ensures
            context_source_wf(*final(self)),
            c.id == old(self).next,
            final(self).next == old(self).next + 1,
            final(self).issued@ == old(self).issued@.push(c.id),
            !old(self).issued@.contains(c.id),
    {
        let id = self.next;
        self.next = id + 1;
        proof {
            self.issued@ = self.issued@.push(id);
            assert(self.issued@ =~= Seq::new(self.next as nat, |i: int| i as u64));
            if old(self).issued@.contains(id) {
                let w = choose|w: int|
                    0 <= w < old(self).issued@.len() && old(self).issued@[w] == id;
                assert(old(self).issued@[w] == w as u64);
            }
        }
        RequestContext { id }
    }
}

/// No two requests of one source share an identifier.
pub proof fn lemma_context_ids_unique(s: ContextSource)
    requires
        context_source_wf(s),
    ensures
        forall|i: int, j: int|
            0 <= i < j < s.issued@.len() ==> s.issued@[i] != s.issued@[j],
{
}

} // verus!
