//! The index owner's command protocol.
//!
//! Request-handling threads send `TanAction` values to the single owner
//! task; only a `Query` produces a reply. Every query carries a correlation
//! ticket and its reply carries the same ticket back, so concurrent callers
//! sharing one reply stream can each claim exactly their own result set
//! (`PendingReplies::collect`, `lemma_no_cross_delivery`) instead of racing
//! for whichever reply arrives first.

use vstd::prelude::*;

use crate::hits::{sorted_by_time_desc, Doc2Index, DocFromIndexOuter, QueryError};
use crate::index::{IndexError, TantivyIndex, MAX_RESULTS};

verus! {

/// One directive for the index owner. Mutations are fire-and-forget; a
/// query names the ticket its reply must bear.
pub enum TanAction {
    Add(Doc2Index),
    Update(Doc2Index),
    Delete(String),
    Query(u64, String),
}

/// A completed query: the ticket of the query it answers, and its outcome.
#[derive(Debug)]
pub struct TanReply {
    pub ticket: u64,
    pub outcome: Result<Vec<DocFromIndexOuter>, QueryError>,
}

/// What applying one command came to, as seen by the owner's loop.
#[derive(Debug)]
pub enum HandleOutcome {
    /// A mutation was applied; there is nothing to send or to log.
    Done,
    /// A mutation failed. Per the failure policy the command is dropped and
    /// the caller is never told; the owner's loop may log the error.
    MutationFailed(IndexError),
    /// A query completed: the reply to deliver to the caller that sent it.
    Reply(TanReply),
}

/// Apply one command to the index, strictly one at a time from the owner's
/// loop. Mutations are fire-and-forget towards the caller: they never
/// produce a reply, and a failed one is only reported to the loop for
/// logging. Only a Query yields a reply, and the reply bears the query's
/// own ticket.
pub fn handle_action(index: &mut TantivyIndex, action: TanAction) -> (r: HandleOutcome)
    ensures
        match action {
            TanAction::Add(_) | TanAction::Update(_) => {
                &&& !(r is Reply)
                &&& r matches HandleOutcome::MutationFailed(e) ==> e == IndexError::WriteFailed
                    || e == IndexError::CommitFailed || e == IndexError::ReaderFailed
            },
            TanAction::Delete(_) => {
                &&& !(r is Reply)
                &&& r matches HandleOutcome::MutationFailed(e) ==> e == IndexError::CommitFailed
                    || e == IndexError::ReaderFailed
            },
            TanAction::Query(ticket, text) => {
                &&& r matches HandleOutcome::Reply(reply)
                &&& r->Reply_0.ticket == ticket
                &&& (r->Reply_0.outcome matches Ok(hits) ==> hits@.len() <= MAX_RESULTS
                    && sorted_by_time_desc(hits@))
                &&& text@.len() == 0 ==> (r->Reply_0.outcome matches Ok(hits) && hits@
                    =~= Seq::<DocFromIndexOuter>::empty())
            },
        },
{
    match action {
        TanAction::Add(doc) => match index.add_doc(doc) {
            Ok(_) => HandleOutcome::Done,
            Err(e) => HandleOutcome::MutationFailed(e),
        },
        TanAction::Update(doc) => match index.update_doc(doc) {
            Ok(_) => HandleOutcome::Done,
            Err(e) => HandleOutcome::MutationFailed(e),
        },
        TanAction::Delete(id) => match index.delete_doc(id.as_str()) {
            Ok(_) => HandleOutcome::Done,
            Err(e) => HandleOutcome::MutationFailed(e),
        },
        TanAction::Query(ticket, text) => {
            let outcome = index.query(text.as_str());
            HandleOutcome::Reply(TanReply { ticket, outcome })
        },
    }
}

/// Issues correlation tickets, one per query, never repeating one.
pub struct TicketCounter {
    next_ticket: u64,
}

impl TicketCounter {
    pub closed spec fn spec_next(self) -> u64 {
        self.next_ticket
    }

    pub fn new() -> (r: TicketCounter)
        ensures
            r.spec_next() == 0,
    {
        TicketCounter { next_ticket: 0 }
    }

    /// Issue a ticket this counter has never issued before. Every ticket
    /// issued earlier is smaller, every ticket issued later is larger.
    pub fn fresh(&mut self) -> (r: Option<u64>)
        ensures
            match r {
                Some(t) => t == old(self).spec_next() && final(self).spec_next() == t + 1,
                None => old(self).spec_next() == u64::MAX && *final(self) == *old(self),
            },
    {
        if self.next_ticket == u64::MAX {
            None
        } else {
            let t = self.next_ticket;
            self.next_ticket = t + 1;
            Some(t)
        }
    }
}

/// Tickets are issued strictly increasing: a ticket issued by one call of
/// `fresh` differs from every ticket a later call issues.
pub proof fn lemma_tickets_distinct(t1: u64, mid: TicketCounter, t2: u64)
    requires
        t1 < mid.spec_next(),
        t2 >= mid.spec_next(),
    ensures
        t1 != t2,
{
}

/// The first reply in the sequence bearing ticket `t`, if any.
pub open spec fn spec_lookup(s: Seq<TanReply>, t: u64) -> Option<TanReply>
    decreases s.len(),
{
    if s.len() == 0 {
        None
    } else if s[0].ticket == t {
        Some(s[0])
    } else {
        spec_lookup(s.drop_first(), t)
    }
}

/// A found reply bears the ticket it was looked up by.
pub proof fn lemma_lookup_ticket(s: Seq<TanReply>, t: u64)
    ensures
        spec_lookup(s, t) matches Some(reply) ==> reply.ticket == t,
    decreases s.len(),
{
    if s.len() > 0 && s[0].ticket != t {
        lemma_lookup_ticket(s.drop_first(), t);
    }
}

/// Replies are claimed by correlation ticket alone: whatever order replies
/// arrived in, two callers holding distinct tickets can never receive each
/// other's reply.
pub proof fn lemma_no_cross_delivery(s: Seq<TanReply>, t1: u64, t2: u64)
    requires
        t1 != t2,
    ensures
        spec_lookup(s, t1) matches Some(r1) ==> r1.ticket != t2,
        spec_lookup(s, t2) matches Some(r2) ==> r2.ticket != t1,
{
    lemma_lookup_ticket(s, t1);
    lemma_lookup_ticket(s, t2);
}

proof fn lemma_lookup_skip(s: Seq<TanReply>, t: u64, i: int)
    requires
        0 <= i <= s.len(),
        forall|j: int| 0 <= j < i ==> s[j].ticket != t,
    ensures
        spec_lookup(s, t) == spec_lookup(s.subrange(i, s.len() as int), t),
    decreases i,
{
    if i > 0 {
        let rest = s.drop_first();
        assert(s[0].ticket != t);
        assert forall|j: int| 0 <= j < i - 1 implies rest[j].ticket != t by {
            assert(rest[j] == s[j + 1]);
        }
        lemma_lookup_skip(rest, t, i - 1);
        assert(rest.subrange(i - 1, rest.len() as int) =~= s.subrange(i, s.len() as int));
    } else {
        assert(s.subrange(0, s.len() as int) =~= s);
    }
}

/// Completed replies awaiting their callers, keyed by correlation ticket.
/// One receiver drains the owner's reply stream into this store; each
/// caller then collects the reply bearing its own ticket.
pub struct PendingReplies {
    entries: Vec<TanReply>,
}

impl View for PendingReplies {
    type V = Seq<TanReply>;

    closed spec fn view(&self) -> Seq<TanReply> {
        self.entries@
    }
}

impl PendingReplies {
    pub fn new() -> (r: PendingReplies)
        ensures
            r@ =~= Seq::<TanReply>::empty(),
    {
        PendingReplies { entries: Vec::new() }
    }

    /// File one arrived reply for later collection.
    pub fn deposit(&mut self, reply: TanReply)
        ensures
            final(self)@ == old(self)@.push(reply),
    {
        self.entries.push(reply);
    }

    /// Claim the reply bearing ticket `t`, if it has arrived: exactly the
    /// first deposited reply with that ticket, removed from the store; the
    /// rest stay untouched. A reply with any other ticket is never handed
    /// out.
    pub fn collect(&mut self, t: u64) -> (r: Option<TanReply>)
        ensures
            r == spec_lookup(old(self)@, t),
            r matches Some(reply) ==> reply.ticket == t,
            r is None ==> final(self)@ == old(self)@,
            r matches Some(reply) ==> exists|i: int|
                {
                    &&& 0 <= i < old(self)@.len()
                    &&& old(self)@[i] == reply
                    &&& final(self)@ == #[trigger] old(self)@.remove(i)
                    &&& forall|j: int| 0 <= j < i ==> old(self)@[j].ticket != t
                },
    {
        proof {
            lemma_lookup_ticket(old(self)@, t);
        }
        let mut i: usize = 0;
        while i < self.entries.len()
            invariant
                i <= self.entries@.len(),
                self.entries@ == old(self)@,
                forall|j: int| 0 <= j < i ==> self.entries@[j].ticket != t,
            decreases self.entries@.len() - i,
        {
            if self.entries[i].ticket == t {
                let ghost pre = self.entries@;
                proof {
                    lemma_lookup_skip(pre, t, i as int);
                    assert(pre.subrange(i as int, pre.len() as int)[0] == pre[i as int]);
                }
                let reply = self.entries.remove(i);
                proof {
                    assert(spec_lookup(pre, t) == Some(reply));
                    assert(self.entries@ == pre.remove(i as int));
                }
                return Some(reply);
            }
            i = i + 1;
        }
        proof {
            lemma_lookup_skip(self.entries@, t, self.entries@.len() as int);
            assert(self.entries@.subrange(
                self.entries@.len() as int,
                self.entries@.len() as int,
            ) =~= Seq::<TanReply>::empty());
        }
        None
    }
}

} // verus!
