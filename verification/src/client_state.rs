//! Bookkeeping of the calls a client has sent and not yet seen answered.
//!
//! Each call gets the next index of a counter; the reply frame carries that
//! index back, and the reply goes to whatever the caller left waiting under
//! it (for a real client, the sending half of a one-shot channel).

use crate::frame::{encode_frame, frame_bytes};
use crate::types::{Group, GroupResponse};
use std::collections::HashMap;
use vstd::prelude::*;

verus! {

broadcast use vstd::std_specs::hash::group_hash_axioms;

/// Calls awaiting their reply, keyed by call index, and the index the next
/// call will get.
pub struct ClientState<T> {
    callbacks: HashMap<usize, T>,
    counter: usize,
}

impl<T> ClientState<T> {
    /// What waits for each pending call index.
    pub closed spec fn pending(&self) -> Map<usize, T> {
        self.callbacks@
    }

    /// The index the next registered call will get.
    pub closed spec fn next_index(&self) -> usize {
        self.counter
    }

    /// Every pending index was handed out before: it is below the counter.
    pub closed spec fn wf(&self) -> bool {
        forall|k: usize| #[trigger] self.callbacks@.contains_key(k) ==> k < self.counter
    }

    /// No call pending; the first call gets index 0.
    pub fn new() -> (s: Self)
        ensures
            s.wf(),
            s.pending() == Map::<usize, T>::empty(),
            s.next_index() == 0,
    {
        ClientState { callbacks: HashMap::new(), counter: 0 }
    }

    /// The index the next registered call will get.
    pub fn counter(&self) -> (c: usize)
        ensures
            c == self.next_index(),
    {
        self.counter
    }

    /// Registers `callback` under the next call index and returns that index.
    /// The counter must not be at its maximum, where it would overflow.
    pub fn register(&mut self, callback: T) -> (index: usize)
        requires
            old(self).wf(),
            old(self).next_index() < usize::MAX,
        ensures
            final(self).wf(),
            registered(*old(self), callback, index, *final(self)),
    {
        let index = self.counter;
        self.counter = self.counter + 1;
        self.callbacks.insert(index, callback);
        index
    }

    /// Starts a call of `session` whose serialized request is `request`:
    /// registers `callback` under the next call index and returns that index
    /// with the frame to send.
    pub fn start_call(&mut self, session: u64, request: &[u8], callback: T) -> (r: (usize, Vec<u8>))
        requires
            old(self).wf(),
            old(self).next_index() < usize::MAX,
        ensures
            final(self).wf(),
            registered(*old(self), callback, r.0, *final(self)),
            r.1@ == frame_bytes(session, r.0 as u64, request@),
    {
        let index = self.register(callback);
        let frame = encode_frame(session, index as u64, request);
        (index, frame)
    }

    /// Takes out what waits for the call with the index carried by a reply
    /// frame; `None` where no call with that index is pending.
    pub fn complete(&mut self, index: u64) -> (found: Option<T>)
        requires
            old(self).wf(),
        ensures
            final(self).wf(),
            completed(*old(self), index, found, *final(self)),
    {
        let key = index as usize;
        self.callbacks.remove(&key)
    }
}

/// Why a reply could not be used.
#[derive(Debug, PartialEq, Eq)]
pub enum ReplyError {
    /// The reply is of another kind than the request asked for.
    WrongResponse,
}

/// The groups that a reply to a request for the group list carries; any
/// other reply is an error.
pub fn listed_groups(resp: GroupResponse) -> (r: Result<Vec<Group>, ReplyError>)
    ensures
        match resp {
            GroupResponse::List(v) => r == Ok::<Vec<Group>, ReplyError>(v),
            _ => r == Err::<Vec<Group>, ReplyError>(ReplyError::WrongResponse),
        },
{
    match resp {
        GroupResponse::List(items) => Ok(items),
        _ => Err(ReplyError::WrongResponse),
    }
}

/// `post` is `pre` with `callback` registered under `index`, the index that
/// was next; the counter moves on by one.
pub open spec fn registered<T>(pre: ClientState<T>, callback: T, index: usize, post: ClientState<T>) -> bool {
    &&& index == pre.next_index()
    &&& !pre.pending().contains_key(index)
    &&& post.next_index() == index + 1
    &&& post.pending() == pre.pending().insert(index, callback)
}

/// `post` is `pre` without the call that a reply carrying `index` answers,
/// and `found` is what waited for it, if anything did.
pub open spec fn completed<T>(pre: ClientState<T>, index: u64, found: Option<T>, post: ClientState<T>) -> bool {
    let key = index as usize;
    &&& post.next_index() == pre.next_index()
    &&& post.pending() == pre.pending().remove(key)
    &&& found == (if pre.pending().contains_key(key) {
        Some(pre.pending()[key])
    } else {
        None
    })
}

/// Law: the reply that carries the index `register` handed out reaches the
/// callback registered with it, leaves the other pending calls as they were
/// before the registration, and a second reply with the same index finds
/// nothing.
pub proof fn lemma_reply_reaches_its_caller<T>(
    s0: ClientState<T>,
    callback: T,
    index: usize,
    s1: ClientState<T>,
    found: Option<T>,
    s2: ClientState<T>,
    again: Option<T>,
    s3: ClientState<T>,
)
    requires
        s0.wf(),
        registered(s0, callback, index, s1),
        completed(s1, index as u64, found, s2),
        completed(s2, index as u64, again, s3),
    ensures
        found == Some(callback),
        s2.pending() == s0.pending(),
        again is None,
        s3.pending() == s0.pending(),
{
    assert((index as u64) as usize == index);
    assert(s2.pending() =~= s0.pending());
}

/// Law: a reply whose index no pending call has, such as a second reply for
/// an index already answered, is dropped: nothing is found, and the pending
/// calls and the counter stay as they were.
pub proof fn lemma_unknown_reply_dropped<T>(
    pre: ClientState<T>,
    index: u64,
    found: Option<T>,
    post: ClientState<T>,
)
    requires
        !pre.pending().contains_key(index as usize),
        completed(pre, index, found, post),
    ensures
        found is None,
        post.pending() == pre.pending(),
        post.next_index() == pre.next_index(),
{
    assert(post.pending() =~= pre.pending());
}

/// Law: what a reply finds, and the table it leaves, depend only on the
/// table and the reply's index (not on its session): two replies with the
/// same index on equal tables find the same and leave equal tables.
pub proof fn lemma_reply_depends_on_index_only<T>(
    pre1: ClientState<T>,
    pre2: ClientState<T>,
    index: u64,
    found1: Option<T>,
    post1: ClientState<T>,
    found2: Option<T>,
    post2: ClientState<T>,
)
    requires
        pre1.pending() == pre2.pending(),
        pre1.next_index() == pre2.next_index(),
        completed(pre1, index, found1, post1),
        completed(pre2, index, found2, post2),
    ensures
        found1 == found2,
        post1.pending() == post2.pending(),
        post1.next_index() == post2.next_index(),
{
}

/// Law: two calls registered one after the other get different indices.
pub proof fn lemma_indices_distinct<T>(
    s0: ClientState<T>,
    a: T,
    i: usize,
    s1: ClientState<T>,
    b: T,
    j: usize,
    s2: ClientState<T>,
)
    requires
        registered(s0, a, i, s1),
        registered(s1, b, j, s2),
    ensures
        i != j,
        s2.pending().contains_key(i) && s2.pending()[i] == a,
        s2.pending().contains_key(j) && s2.pending()[j] == b,
{
}

} // verus!
