//! Request/response multiplexing over the single wire.
//!
//! Many concurrent callers share one connection to the parent. Each request
//! takes a fresh correlation ID `req-<n>`, registers a waiter under that ID
//! before its frame is sent, and the response dispatcher routes each
//! incoming message to the waiter registered under its `id` — or drops it
//! silently when no waiter is registered. This module holds the bookkeeping
//! state and its transitions; the waiting itself (timers, notifiers, the
//! writer lock) is the runtime's.

use vstd::prelude::*;

verus! {

use vstd::string::StringExecFns;
use crate::text::{dec_seq, lemma_dec_seq_injective, u64_to_dec};

/// The correlation ID minted for the `n`-th request of the process: `req-<n>`.
pub open spec fn request_id_text(n: nat) -> Seq<char> {
    "req-"@ + dec_seq(n)
}

/// Distinct counter values mint distinct correlation IDs.
pub proof fn lemma_request_id_injective(a: nat, b: nat)
    requires
        request_id_text(a) == request_id_text(b),
    ensures
        a == b,
{
    reveal_strlit("req-");
    assert(dec_seq(a) =~= request_id_text(a).skip(4));
    assert(dec_seq(b) =~= request_id_text(b).skip(4));
    lemma_dec_seq_injective(a, b);
}

/// Request IDs issued in one process run are pairwise distinct: calling the
/// ID generator any number of times never repeats a value.
pub proof fn lemma_request_ids_distinct(a: nat, b: nat)
    requires
        a != b,
    ensures
        request_id_text(a) != request_id_text(b),
{
    if request_id_text(a) == request_id_text(b) {
        lemma_request_id_injective(a, b);
    }
}

/// Mint the next correlation ID from the process-wide request counter. IDs
/// are `req-<n>` for n = 1, 2, ...: strictly increasing, starting at 1.
pub fn next_request_id(counter: &mut u64) -> (id: String)
    requires
        *old(counter) < u64::MAX,
    ensures
        *final(counter) == *old(counter) + 1,
        id@ == request_id_text(*final(counter) as nat),
{
    *counter = *counter + 1;
    let mut id = String::from_str("req-");
    id.append(u64_to_dec(*counter).as_str());
    id
}

/// Why a request failed without a response.
#[derive(Debug, PartialEq, Eq, Structural, Clone, Copy)]
pub enum RequestError {
    /// No response arrived within the caller's deadline; the pending entry
    /// was removed before the failure was reported.
    TimedOut,
    /// The response dispatcher terminated, dropping the waiter.
    BrokenPipe,
    /// Sending the request frame itself failed.
    SendFailed,
}

/// The multiplexer's bookkeeping: the ID counter and the pending table of
/// in-flight request IDs whose callers await a response. Fire-and-forget
/// messages never enter the table.
pub struct MuxState {
    /// How many requests have been issued; the next ID is `req-<counter+1>`.
    pub counter: u64,
    /// The IDs with a registered waiter, oldest first.
    pub pending: Vec<String>,
    /// Ghost companion of `pending`: the counter value each entry was minted
    /// from.
    pub issued: Ghost<Seq<nat>>,
}

impl MuxState {
    /// The pending table as the sequence of registered IDs.
    pub open spec fn pending_ids(self) -> Seq<Seq<char>> {
        self.pending.deep_view()
    }

    /// Every pending ID was minted by this counter, and no counter value is
    /// registered twice.
    pub open spec fn wf(self) -> bool {
        &&& self.issued@.len() == self.pending_ids().len()
        &&& forall|i: int|
            0 <= i < self.issued@.len() ==> #[trigger] self.pending_ids()[i] == request_id_text(
                self.issued@[i],
            )
        &&& forall|i: int| 0 <= i < self.issued@.len() ==> 1 <= #[trigger] self.issued@[i] <= self.counter
        &&& forall|i: int, j: int|
            0 <= i < j < self.issued@.len() ==> self.issued@[i] != self.issued@[j]
    }

    /// A fresh multiplexer: nothing issued, nothing pending.
    pub fn new() -> (m: MuxState)
        ensures
            m.wf(),
            m.counter == 0,
            m.pending_ids() == Seq::<Seq<char>>::empty(),
    {
        let m = MuxState { counter: 0, pending: Vec::new(), issued: Ghost(Seq::empty()) };
        proof {
            assert(m.pending_ids() =~= Seq::<Seq<char>>::empty());
        }
        m
    }

    /// Start a request: allocate the next ID and register its waiter, before
    /// anything is sent. The new ID was never pending before.
    pub fn begin_request(&mut self) -> (id: String)
        requires
            old(self).wf(),
            old(self).counter < u64::MAX,
        ensures
            final(self).wf(),
            final(self).counter == old(self).counter + 1,
            id@ == request_id_text(final(self).counter as nat),
            final(self).pending_ids() == old(self).pending_ids().push(id@),
            !old(self).pending_ids().contains(id@),
    {
        let id = next_request_id(&mut self.counter);
        self.pending.push(id.clone());
        proof {
            let c = self.counter as nat;
            self.issued = Ghost(old(self).issued@.push(c));
            assert(self.pending_ids() =~= old(self).pending_ids().push(id@));
            assert forall|i: int| 0 <= i < old(self).pending_ids().len()
                implies old(self).pending_ids()[i] != id@ by {
                lemma_request_ids_distinct(old(self).issued@[i], c);
            }
            if old(self).pending_ids().contains(id@) {
                let k = choose|k: int|
                    0 <= k < old(self).pending_ids().len() && old(self).pending_ids()[k] == id@;
            }
        }
        id
    }

    /// Whether a waiter is registered under `id`.
    pub fn is_pending(&self, id: &String) -> (r: bool)
        ensures
            r == self.pending_ids().contains(id@),
    {
        let mut i: usize = 0;
        while i < self.pending.len()
            invariant
                i <= self.pending_ids().len(),
                forall|k: int| 0 <= k < i ==> self.pending_ids()[k] != id@,
            decreases self.pending_ids().len() - i,
        {
            if self.pending[i].eq(id) {
                proof {
                    assert(self.pending_ids()[i as int] == self.pending@[i as int]@);
                    assert(self.pending_ids().contains(id@));
                }
                return true;
            }
            proof {
                assert(self.pending_ids()[i as int] == self.pending@[i as int]@);
            }
            i = i + 1;
        }
        proof {
            if self.pending_ids().contains(id@) {
                let k = choose|k: int|
                    0 <= k < self.pending_ids().len() && self.pending_ids()[k] == id@;
            }
        }
        false
    }

    /// Take the waiter registered under `id` out of the table, if any: the
    /// dispatcher calls this for each incoming message (so at most one
    /// waiter sees it, and an unclaimed response is dropped), and a caller
    /// calls it when its wait ends in timeout or a dropped notifier. After
    /// the call, nothing is pending under `id`.
    pub fn remove_waiter(&mut self, id: &String) -> (hit: bool)
        requires
            old(self).wf(),
        ensures
            final(self).wf(),
            final(self).counter == old(self).counter,
            hit == old(self).pending_ids().contains(id@),
            hit ==> exists|j: int|
                0 <= j < old(self).pending_ids().len() && old(self).pending_ids()[j] == id@
                    && final(self).pending_ids() == old(self).pending_ids().remove(j),
            !hit ==> final(self).pending_ids() == old(self).pending_ids(),
            !final(self).pending_ids().contains(id@),
    {
        let mut i: usize = 0;
        while i < self.pending.len()
            invariant
                old(self).wf(),
                *self == *old(self),
                i <= old(self).pending_ids().len(),
                forall|k: int| 0 <= k < i ==> old(self).pending_ids()[k] != id@,
            decreases old(self).pending_ids().len() - i,
        {
            let ghost old_ids = old(self).pending_ids();
            if self.pending[i].eq(id) {
                proof {
                    assert(old_ids[i as int] == self.pending@[i as int]@);
                    assert(old_ids.contains(id@));
                }
                let ghost j = i as int;
                self.pending.remove(i);
                proof {
                    self.issued = Ghost(old(self).issued@.remove(j));
                    old_ids.remove_ensures(j);
                    old(self).pending@.remove_ensures(j);
                    old(self).issued@.remove_ensures(j);
                    assert forall|k: int| 0 <= k < self.pending_ids().len()
                        implies self.pending_ids()[k] == old_ids.remove(j)[k] by {
                        assert(self.pending_ids()[k] == self.pending@[k]@);
                    }
                    assert(self.pending_ids() =~= old_ids.remove(j));
                    lemma_wf_after_remove(*old(self), *self, j);
                    assert forall|k: int| 0 <= k < self.pending_ids().len()
                        implies self.pending_ids()[k] != id@ by {
                        if k < j {
                            lemma_request_ids_distinct(self.issued@[k], old(self).issued@[j]);
                        } else {
                            assert(self.issued@[k] == old(self).issued@[k + 1]);
                            lemma_request_ids_distinct(self.issued@[k], old(self).issued@[j]);
                        }
                    }
                    assert(!self.pending_ids().contains(id@));
                }
                return true;
            }
            proof {
                assert(old_ids[i as int] == self.pending@[i as int]@);
            }
            i = i + 1;
        }
        proof {
            let old_ids = old(self).pending_ids();
            if old_ids.contains(id@) {
                let k = choose|k: int| 0 <= k < old_ids.len() && old_ids[k] == id@;
            }
        }
        false
    }
}

/// Removing one entry keeps the pending table well formed.
proof fn lemma_wf_after_remove(pre: MuxState, post: MuxState, j: int)
    requires
        pre.wf(),
        0 <= j < pre.pending_ids().len(),
        post.counter == pre.counter,
        post.pending_ids() == pre.pending_ids().remove(j),
        post.issued@ == pre.issued@.remove(j),
    ensures
        post.wf(),
{
    pre.pending_ids().remove_ensures(j);
    pre.issued@.remove_ensures(j);
    assert forall|i: int| 0 <= i < post.issued@.len() implies #[trigger] post.pending_ids()[i]
        == request_id_text(post.issued@[i]) by {
        assert(post.pending_ids()[i] == pre.pending_ids().remove(j)[i]);
        assert(post.issued@[i] == pre.issued@.remove(j)[i]);
        if i < j {
            assert(pre.pending_ids()[i] == request_id_text(pre.issued@[i]));
        } else {
            assert(pre.pending_ids()[i + 1] == request_id_text(pre.issued@[i + 1]));
        }
    }
    assert forall|a: int, b: int| 0 <= a < b < post.issued@.len() implies post.issued@[a]
        != post.issued@[b] by {
        assert(post.issued@[a] == pre.issued@.remove(j)[a]);
        assert(post.issued@[b] == pre.issued@.remove(j)[b]);
    }
}

/// In a well-formed multiplexer no ID has two waiters: a response with any
/// ID is handed to at most one caller.
pub proof fn lemma_at_most_one_waiter(m: MuxState, i: int, j: int)
    requires
        m.wf(),
        0 <= i < m.pending_ids().len(),
        0 <= j < m.pending_ids().len(),
        m.pending_ids()[i] == m.pending_ids()[j],
    ensures
        i == j,
{
    if i != j {
        lemma_request_ids_distinct(m.issued@[i], m.issued@[j]);
    }
}

} // verus!
