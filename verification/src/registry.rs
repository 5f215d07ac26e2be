//! The connection registry: a directory from an authenticated identity to
//! its live outbound delivery queue, with best-effort send and broadcast.

use vstd::prelude::*;
use crate::events::WsMessage;
use crate::ids::UserId;

verus! {

/// One registered live connection: the identity it belongs to, its
/// bounded outbound queue, and the epoch of the registration that
/// installed it. A full or closed queue silently discards events rather
/// than blocking or failing the producer; the epoch lets the session
/// that installed an entry tell whether a later registration has
/// superseded it.
pub struct ConnEntry {
    pub user: UserId,
    pub events: Vec<WsMessage>,
    pub capacity: usize,
    pub closed: bool,
    pub epoch: u64,
}

/// Whether an entry's queue is still accepting events: open and below
/// its bound.
pub open spec fn entry_accepts(e: ConnEntry) -> bool {
    !e.closed && e.events@.len() < e.capacity
}

/// `post` is `pre` with `ev` enqueued: same owner, bound, open state and
/// epoch, and the event appended at the tail.
pub open spec fn entry_pushed(pre: ConnEntry, post: ConnEntry, ev: WsMessage) -> bool {
    &&& post.user == pre.user
    &&& post.capacity == pre.capacity
    &&& post.closed == pre.closed
    &&& post.epoch == pre.epoch
    &&& post.events@ == pre.events@.push(ev)
}

/// `post` differs from `pre` at most on `u`'s entry, per best-effort send
/// semantics: where the entry accepts, `ev` is appended; otherwise the
/// entry is untouched and the event is dropped.
pub open spec fn sent(pre: WsState, post: WsState, u: UserId, ev: WsMessage) -> bool {
    &&& post.entries@.len() == pre.entries@.len()
    &&& forall|j: int|
        0 <= j < pre.entries@.len() && (#[trigger] pre.entries@[j]).user != u
            ==> post.entries@[j] == pre.entries@[j]
    &&& forall|j: int|
        0 <= j < pre.entries@.len() && (#[trigger] pre.entries@[j]).user == u
            ==> if entry_accepts(pre.entries@[j]) {
                entry_pushed(pre.entries@[j], post.entries@[j], ev)
            } else {
                post.entries@[j] == pre.entries@[j]
            }
}

/// The in-memory directory of live connections.
///
/// The single process-wide instance maps each connected identity to the
/// outbound queue of its one live session; registering a new queue for
/// the same identity silently supersedes the previous one
/// (last-writer-wins). Each registration carries a fresh epoch, so the
/// owner of a superseded entry can tell its registration is gone and
/// leave the successor's alone.
pub struct WsState {
    pub entries: Vec<ConnEntry>,
    pub next_epoch: u64,
}

impl WsState {
    /// Every identity has at most one registered entry.
    pub open spec fn users_unique(self) -> bool {
        forall|i: int, j: int|
            0 <= i < self.entries@.len() && 0 <= j < self.entries@.len() && i != j
                ==> (#[trigger] self.entries@[i]).user != (#[trigger] self.entries@[j]).user
    }

    /// Identities are unique, and every entry's epoch was issued in the
    /// past.
    pub open spec fn wf(self) -> bool {
        &&& self.users_unique()
        &&& forall|i: int| 0 <= i < self.entries@.len()
            ==> (#[trigger] self.entries@[i]).epoch < self.next_epoch
    }

    /// Whether `u` currently has a registered live connection.
    pub open spec fn registered(self, u: UserId) -> bool {
        exists|i: int| 0 <= i < self.entries@.len() && (#[trigger] self.entries@[i]).user == u
    }

    /// The index of `u`'s entry; meaningful only when `u` is registered.
    pub open spec fn entry_index(self, u: UserId) -> int {
        choose|i: int| 0 <= i < self.entries@.len() && (#[trigger] self.entries@[i]).user == u
    }

    /// `u`'s entry; meaningful only when `u` is registered.
    pub open spec fn entry_of(self, u: UserId) -> ConnEntry {
        self.entries@[self.entry_index(u)]
    }

    /// The pending outbound events of `u`'s live channel, oldest first.
    pub open spec fn queue(self, u: UserId) -> Seq<WsMessage> {
        self.entry_of(u).events@
    }

    /// Whether a best-effort send to `u` will enqueue: `u` is registered
    /// and the queue is open and below its bound.
    pub open spec fn accepts(self, u: UserId) -> bool {
        self.registered(u) && entry_accepts(self.entry_of(u))
    }

    /// With unique identities the entry index of a registered user is
    /// the unique index holding that user.
    pub proof fn lemma_index_unique(self, u: UserId, i: int)
        requires
            self.users_unique(),
            0 <= i < self.entries@.len(),
            self.entries@[i].user == u,
        ensures
            self.registered(u),
            self.entry_index(u) == i,
    {
        assert(self.registered(u));
        let k = self.entry_index(u);
        assert(0 <= k < self.entries@.len() && self.entries@[k].user == u);
        if k != i {
            assert(self.entries@[k].user != self.entries@[i].user);
        }
    }

    /// An empty registry: nobody is connected.
    pub fn new() -> (r: WsState)
        ensures
            r.wf(),
            r.entries@.len() == 0,
            r.next_epoch == 0,
            forall|u: UserId| !r.registered(u),
    {
        WsState { entries: Vec::new(), next_epoch: 0 }
    }

    /// The index of `u`'s entry, if any.
    fn find_entry(&self, u: UserId) -> (r: Option<usize>)
        ensures
            match r {
                Some(i) => 0 <= i < self.entries@.len() && self.entries@[i as int].user == u,
                None => !self.registered(u),
            },
    {
        let n = self.entries.len();
        let mut i: usize = 0;
        while i < n
            invariant
                n == self.entries@.len(),
                i <= n,
                forall|j: int| 0 <= j < i ==> (#[trigger] self.entries@[j]).user != u,
            decreases n - i,
        {
            if self.entries[i].user == u {
                return Some(i);
            }
            i = i + 1;
        }
        None
    }

    /// Installs a fresh open queue of bound `capacity` for `user`,
    /// replacing any existing entry for the same identity. Replacement
    /// raises no error; the superseded registration's owner can observe
    /// it is gone by comparing epochs. Returns the new registration's
    /// epoch.
    pub fn register(&mut self, user: UserId, capacity: usize) -> (epoch: u64)
        requires
            old(self).wf(),
            old(self).next_epoch < u64::MAX,
        ensures
            final(self).wf(),
            epoch == old(self).next_epoch,
            final(self).next_epoch == old(self).next_epoch + 1,
            final(self).registered(user),
            final(self).entry_of(user).epoch == epoch,
            final(self).queue(user) == Seq::<WsMessage>::empty(),
            final(self).entry_of(user).capacity == capacity,
            !final(self).entry_of(user).closed,
            forall|v: UserId| v != user
                ==> #[trigger] final(self).registered(v) == old(self).registered(v),
            forall|v: UserId| v != user && old(self).registered(v)
                ==> #[trigger] final(self).entry_of(v) == old(self).entry_of(v),
    {
        let epoch = self.next_epoch;
        self.next_epoch = epoch + 1;
        let fresh = ConnEntry { user, events: Vec::new(), capacity, closed: false, epoch };
        let found = self.find_entry(user);
        match found {
            Some(i) => {
                let ghost pre = *old(self);
                let slot = vstd::std_specs::vec::vec_index_mut(&mut self.entries, i);
                *slot = fresh;
                proof {
                    assert(self.entries@ =~= pre.entries@.update(i as int, self.entries@[i as int]));
                    assert(self.users_unique());
                    assert forall|j: int| 0 <= j < self.entries@.len()
                        implies (#[trigger] self.entries@[j]).epoch < self.next_epoch by {
                        if j != i as int {
                            assert(self.entries@[j] == pre.entries@[j]);
                        }
                    }
                    self.lemma_index_unique(user, i as int);
                    assert forall|v: UserId| v != user && pre.registered(v)
                        implies final(self).registered(v)
                            && final(self).entry_of(v) == pre.entry_of(v) by {
                        let j = pre.entry_index(v);
                        assert(0 <= j < pre.entries@.len() && pre.entries@[j].user == v);
                        assert(j != i as int);
                        assert(self.entries@[j] == pre.entries@[j]);
                        self.lemma_index_unique(v, j);
                    }
                    assert forall|v: UserId| v != user && self.registered(v)
                        implies pre.registered(v) by {
                        let j = self.entry_index(v);
                        assert(j != i as int);
                        assert(pre.entries@[j] == self.entries@[j]);
                    }
                }
            },
            None => {
                let ghost pre = *old(self);
                self.entries.push(fresh);
                proof {
                    let n = pre.entries@.len() as int;
                    assert(self.entries@[n].user == user);
                    assert forall|a: int, b: int|
                        0 <= a < self.entries@.len() && 0 <= b < self.entries@.len() && a != b
                        implies self.entries@[a].user != self.entries@[b].user by {
                        if a < n && b < n {
                            assert(pre.entries@[a].user != pre.entries@[b].user);
                        } else if a == n && b < n {
                            assert(pre.entries@[b].user != user);
                        } else if b == n && a < n {
                            assert(pre.entries@[a].user != user);
                        }
                    }
                    assert forall|j: int| 0 <= j < self.entries@.len()
                        implies (#[trigger] self.entries@[j]).epoch < self.next_epoch by {
                        if j != n {
                            assert(self.entries@[j] == pre.entries@[j]);
                        }
                    }
                    self.lemma_index_unique(user, n);
                    assert forall|v: UserId| v != user && pre.registered(v)
                        implies final(self).registered(v)
                            && final(self).entry_of(v) == pre.entry_of(v) by {
                        let j = pre.entry_index(v);
                        assert(self.entries@[j] == pre.entries@[j]);
                        self.lemma_index_unique(v, j);
                    }
                    assert forall|v: UserId| v != user && self.registered(v)
                        implies pre.registered(v) by {
                        let j = self.entry_index(v);
                        assert(j != n);
                        assert(pre.entries@[j] == self.entries@[j]);
                    }
                }
            },
        }
        epoch
    }

    /// Deletes the entry at `i`, leaving every other registration
    /// exactly as it was.
    fn remove_entry_at(&mut self, i: usize)
        requires
            old(self).wf(),
            i < old(self).entries@.len(),
        ensures
            final(self).wf(),
            final(self).next_epoch == old(self).next_epoch,
            !final(self).registered(old(self).entries@[i as int].user),
            forall|v: UserId| v != old(self).entries@[i as int].user
                ==> #[trigger] final(self).registered(v) == old(self).registered(v),
            forall|v: UserId| v != old(self).entries@[i as int].user && old(self).registered(v)
                ==> #[trigger] final(self).entry_of(v) == old(self).entry_of(v),
    {
        let ghost pre = *self;
        let ghost user = pre.entries@[i as int].user;
        self.entries.remove(i);
        proof {
            let n = pre.entries@.len() as int;
            let ii = i as int;
            assert(self.entries@ =~= pre.entries@.subrange(0, ii)
                + pre.entries@.subrange(ii + 1, n));
            assert forall|j: int| 0 <= j < self.entries@.len()
                implies self.entries@[j]
                    == (if j < ii { pre.entries@[j] } else { pre.entries@[j + 1] }) by {}
            assert forall|a: int, b: int|
                0 <= a < self.entries@.len() && 0 <= b < self.entries@.len() && a != b
                implies self.entries@[a].user != self.entries@[b].user by {
                let pa: int = if a < ii { a } else { a + 1 };
                let pb: int = if b < ii { b } else { b + 1 };
                assert(pre.entries@[pa].user != pre.entries@[pb].user);
            }
            assert forall|j: int| 0 <= j < self.entries@.len()
                implies (#[trigger] self.entries@[j]).epoch < self.next_epoch by {
                let pj: int = if j < ii { j } else { j + 1 };
                assert(pre.entries@[pj].epoch < pre.next_epoch);
            }
            assert forall|j: int| 0 <= j < self.entries@.len()
                implies self.entries@[j].user != user by {
                let pj: int = if j < ii { j } else { j + 1 };
                assert(pj != ii);
                assert(pre.entries@[pj].user != pre.entries@[ii].user);
            }
            assert forall|v: UserId| v != user && pre.registered(v)
                implies final(self).registered(v)
                    && final(self).entry_of(v) == pre.entry_of(v) by {
                let j = pre.entry_index(v);
                assert(pre.entries@[j].user == v);
                assert(j != ii);
                let nj: int = if j < ii { j } else { j - 1 };
                assert(self.entries@[nj] == pre.entries@[j]);
                self.lemma_index_unique(v, nj);
            }
            assert forall|v: UserId| v != user && self.registered(v)
                implies pre.registered(v) by {
                let j = self.entry_index(v);
                let pj: int = if j < ii { j } else { j + 1 };
                assert(pre.entries@[pj] == self.entries@[j]);
            }
        }
    }

    /// Removes `user`'s entry if present, whoever installed it; a no-op
    /// otherwise. Never fails.
    pub fn unregister(&mut self, user: UserId)
        requires
            old(self).wf(),
        ensures
            final(self).wf(),
            final(self).next_epoch == old(self).next_epoch,
            !final(self).registered(user),
            forall|v: UserId| v != user
                ==> #[trigger] final(self).registered(v) == old(self).registered(v),
            forall|v: UserId| v != user && old(self).registered(v)
                ==> #[trigger] final(self).entry_of(v) == old(self).entry_of(v),
            !old(self).registered(user) ==> *final(self) == *old(self),
    {
        let found = self.find_entry(user);
        match found {
            Some(i) => {
                self.remove_entry_at(i);
            },
            None => {},
        }
    }

    /// Removes `user`'s entry only when it is still the registration
    /// installed with `epoch`; a later registration for the same
    /// identity — one that superseded this one — is left untouched.
    /// Never fails.
    pub fn unregister_epoch(&mut self, user: UserId, epoch: u64)
        requires
            old(self).wf(),
        ensures
            final(self).wf(),
            final(self).next_epoch == old(self).next_epoch,
            old(self).registered(user) && old(self).entry_of(user).epoch == epoch
                ==> !final(self).registered(user),
            !(old(self).registered(user) && old(self).entry_of(user).epoch == epoch)
                ==> *final(self) == *old(self),
            forall|v: UserId| v != user
                ==> #[trigger] final(self).registered(v) == old(self).registered(v),
            forall|v: UserId| v != user && old(self).registered(v)
                ==> #[trigger] final(self).entry_of(v) == old(self).entry_of(v),
    {
        let found = self.find_entry(user);
        match found {
            Some(i) => {
                proof {
                    self.lemma_index_unique(user, i as int);
                }
                if self.entries[i].epoch == epoch {
                    self.remove_entry_at(i);
                }
            },
            None => {},
        }
    }

    /// Whether `user`'s current registration is still the one installed
    /// with `epoch`.
    pub fn is_current(&self, user: UserId, epoch: u64) -> (r: bool)
        requires
            self.wf(),
        ensures
            r == (self.registered(user) && self.entry_of(user).epoch == epoch),
    {
        match self.find_entry(user) {
            Some(i) => {
                proof {
                    self.lemma_index_unique(user, i as int);
                }
                self.entries[i].epoch == epoch
            },
            None => false,
        }
    }

    /// Best-effort send: if `user` is registered and its queue accepts,
    /// enqueues `ev`; in every other case the event is silently dropped —
    /// never queued elsewhere, never retried, never reported.
    pub fn send_to_user(&mut self, user: UserId, ev: WsMessage)
        requires
            old(self).wf(),
        ensures
            final(self).wf(),
            final(self).next_epoch == old(self).next_epoch,
            sent(*old(self), *final(self), user, ev),
            !old(self).accepts(user) ==> *final(self) == *old(self),
            old(self).accepts(user) ==> final(self).registered(user)
                && final(self).queue(user) == old(self).queue(user).push(ev)
                && final(self).entry_of(user).capacity == old(self).entry_of(user).capacity
                && final(self).entry_of(user).epoch == old(self).entry_of(user).epoch
                && !final(self).entry_of(user).closed,
            forall|v: UserId| v != user
                ==> #[trigger] final(self).registered(v) == old(self).registered(v),
            forall|v: UserId| v != user && old(self).registered(v)
                ==> #[trigger] final(self).entry_of(v) == old(self).entry_of(v),
            final(self).registered(user) == old(self).registered(user),
    {
        let found = self.find_entry(user);
        match found {
            Some(i) => {
                let ghost pre = *self;
                proof {
                    pre.lemma_index_unique(user, i as int);
                }
                if !self.entries[i].closed
                    && self.entries[i].events.len() < self.entries[i].capacity {
                    let slot = vstd::std_specs::vec::vec_index_mut(&mut self.entries, i);
                    slot.events.push(ev);
                    proof {
                        assert(self.entries@
                            =~= pre.entries@.update(i as int, self.entries@[i as int]));
                        assert(self.entries@[i as int].user == user);
                        assert(self.users_unique());
                        assert forall|j: int| 0 <= j < self.entries@.len()
                            implies (#[trigger] self.entries@[j]).epoch < self.next_epoch by {
                            if j != i as int {
                                assert(self.entries@[j] == pre.entries@[j]);
                            }
                        }
                        self.lemma_index_unique(user, i as int);
                        assert forall|v: UserId| v != user && pre.registered(v)
                            implies final(self).registered(v)
                                && final(self).entry_of(v) == pre.entry_of(v) by {
                            let j = pre.entry_index(v);
                            assert(j != i as int);
                            assert(self.entries@[j] == pre.entries@[j]);
                            self.lemma_index_unique(v, j);
                        }
                        assert forall|v: UserId| v != user && self.registered(v)
                            implies pre.registered(v) by {
                            let j = self.entry_index(v);
                            assert(j != i as int);
                            assert(pre.entries@[j] == self.entries@[j]);
                        }
                    }
                }
            },
            None => {},
        }
    }

    /// Applies `send_to_user` semantics to every currently registered
    /// user: accepting queues get the event appended, all others are
    /// untouched. No membership changes.
    pub fn broadcast(&mut self, ev: &WsMessage)
        requires
            old(self).wf(),
        ensures
            final(self).wf(),
            final(self).next_epoch == old(self).next_epoch,
            final(self).entries@.len() == old(self).entries@.len(),
            forall|j: int| 0 <= j < old(self).entries@.len()
                ==> if entry_accepts(#[trigger] old(self).entries@[j]) {
                    entry_pushed(old(self).entries@[j], final(self).entries@[j], *ev)
                } else {
                    final(self).entries@[j] == old(self).entries@[j]
                },
            forall|v: UserId| #[trigger] final(self).registered(v) == old(self).registered(v),
            forall|v: UserId| old(self).registered(v)
                ==> #[trigger] final(self).entry_index(v) == old(self).entry_index(v),
    {
        let n = self.entries.len();
        let mut i: usize = 0;
        while i < n
            invariant
                old(self).wf(),
                n == old(self).entries@.len(),
                i <= n,
                self.entries@.len() == n,
                self.next_epoch == old(self).next_epoch,
                forall|j: int| i <= j < n
                    ==> #[trigger] self.entries@[j] == old(self).entries@[j],
                forall|j: int| 0 <= j < i
                    ==> if entry_accepts(#[trigger] old(self).entries@[j]) {
                        entry_pushed(old(self).entries@[j], self.entries@[j], *ev)
                    } else {
                        self.entries@[j] == old(self).entries@[j]
                    },
                forall|j: int| 0 <= j < n
                    ==> (#[trigger] self.entries@[j]).user == old(self).entries@[j].user,
                forall|j: int| 0 <= j < n
                    ==> (#[trigger] self.entries@[j]).epoch == old(self).entries@[j].epoch,
            decreases n - i,
        {
            let slot = vstd::std_specs::vec::vec_index_mut(&mut self.entries, i);
            if !slot.closed && slot.events.len() < slot.capacity {
                slot.events.push(ev.dup());
            }
            i = i + 1;
        }
        proof {
            assert(self.wf());
            assert forall|v: UserId| final(self).registered(v) == old(self).registered(v) by {
                if old(self).registered(v) {
                    let j = old(self).entry_index(v);
                    assert(self.entries@[j].user == v);
                }
                if self.registered(v) {
                    let j = self.entry_index(v);
                    assert(old(self).entries@[j].user == v);
                }
            }
            assert forall|v: UserId| old(self).registered(v)
                implies final(self).entry_index(v) == old(self).entry_index(v) by {
                let j = old(self).entry_index(v);
                assert(self.entries@[j].user == v);
                self.lemma_index_unique(v, j);
            }
        }
    }

    /// Marks `user`'s queue as no longer accepting values, as a broken
    /// or hung-up transport does; subsequent sends to it are dropped.
    /// A no-op for an unregistered user.
    pub fn close_queue(&mut self, user: UserId)
        requires
            old(self).wf(),
        ensures
            final(self).wf(),
            final(self).next_epoch == old(self).next_epoch,
            old(self).registered(user) ==> final(self).registered(user)
                && final(self).entry_of(user).closed
                && final(self).queue(user) == old(self).queue(user)
                && final(self).entry_of(user).capacity == old(self).entry_of(user).capacity
                && final(self).entry_of(user).epoch == old(self).entry_of(user).epoch,
            !old(self).registered(user) ==> *final(self) == *old(self),
            forall|v: UserId| v != user
                ==> #[trigger] final(self).registered(v) == old(self).registered(v),
            forall|v: UserId| v != user && old(self).registered(v)
                ==> #[trigger] final(self).entry_of(v) == old(self).entry_of(v),
    {
        let found = self.find_entry(user);
        match found {
            Some(i) => {
                let ghost pre = *self;
                proof {
                    pre.lemma_index_unique(user, i as int);
                }
                let slot = vstd::std_specs::vec::vec_index_mut(&mut self.entries, i);
                slot.closed = true;
                proof {
                    assert(self.entries@ =~= pre.entries@.update(i as int, self.entries@[i as int]));
                    assert(self.users_unique());
                    assert forall|j: int| 0 <= j < self.entries@.len()
                        implies (#[trigger] self.entries@[j]).epoch < self.next_epoch by {
                        if j != i as int {
                            assert(self.entries@[j] == pre.entries@[j]);
                        }
                    }
                    self.lemma_index_unique(user, i as int);
                    assert forall|v: UserId| v != user && pre.registered(v)
                        implies final(self).registered(v)
                            && final(self).entry_of(v) == pre.entry_of(v) by {
                        let j = pre.entry_index(v);
                        assert(j != i as int);
                        assert(self.entries@[j] == pre.entries@[j]);
                        self.lemma_index_unique(v, j);
                    }
                    assert forall|v: UserId| v != user && self.registered(v)
                        implies pre.registered(v) by {
                        let j = self.entry_index(v);
                        assert(j != i as int);
                        assert(pre.entries@[j] == self.entries@[j]);
                    }
                }
            },
            None => {},
        }
    }

    /// Dequeues the oldest pending event of `user`'s channel, in FIFO
    /// order; `None` when the user is unregistered or the queue is empty.
    pub fn next_event(&mut self, user: UserId) -> (r: Option<WsMessage>)
        requires
            old(self).wf(),
        ensures
            final(self).wf(),
            final(self).next_epoch == old(self).next_epoch,
            old(self).registered(user) && old(self).queue(user).len() > 0 ==> ({
                &&& r == Some(old(self).queue(user)[0])
                &&& final(self).registered(user)
                &&& final(self).queue(user) == old(self).queue(user).drop_first()
                &&& final(self).entry_of(user).capacity == old(self).entry_of(user).capacity
                &&& final(self).entry_of(user).closed == old(self).entry_of(user).closed
                &&& final(self).entry_of(user).epoch == old(self).entry_of(user).epoch
            }),
            !(old(self).registered(user) && old(self).queue(user).len() > 0) ==> ({
                &&& r is None
                &&& *final(self) == *old(self)
            }),
            forall|v: UserId| v != user
                ==> #[trigger] final(self).registered(v) == old(self).registered(v),
            forall|v: UserId| v != user && old(self).registered(v)
                ==> #[trigger] final(self).entry_of(v) == old(self).entry_of(v),
    {
        let found = self.find_entry(user);
        match found {
            Some(i) => {
                let ghost pre = *self;
                proof {
                    pre.lemma_index_unique(user, i as int);
                }
                if self.entries[i].events.len() == 0 {
                    return None;
                }
                let slot = vstd::std_specs::vec::vec_index_mut(&mut self.entries, i);
                let ev = slot.events.remove(0);
                proof {
                    assert(self.entries@ =~= pre.entries@.update(i as int, self.entries@[i as int]));
                    assert(self.users_unique());
                    assert forall|j: int| 0 <= j < self.entries@.len()
                        implies (#[trigger] self.entries@[j]).epoch < self.next_epoch by {
                        if j != i as int {
                            assert(self.entries@[j] == pre.entries@[j]);
                        }
                    }
                    self.lemma_index_unique(user, i as int);
                    assert(self.entries@[i as int].events@
                        =~= pre.entries@[i as int].events@.drop_first());
                    assert forall|v: UserId| v != user && pre.registered(v)
                        implies final(self).registered(v)
                            && final(self).entry_of(v) == pre.entry_of(v) by {
                        let j = pre.entry_index(v);
                        assert(j != i as int);
                        assert(self.entries@[j] == pre.entries@[j]);
                        self.lemma_index_unique(v, j);
                    }
                    assert forall|v: UserId| v != user && self.registered(v)
                        implies pre.registered(v) by {
                        let j = self.entry_index(v);
                        assert(j != i as int);
                        assert(pre.entries@[j] == self.entries@[j]);
                    }
                }
                Some(ev)
            },
            None => None,
        }
    }
}

} // verus!
