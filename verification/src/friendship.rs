//! The friendship relationship graph: a durable directed edge store that
//! answers "is A allowed to reach B" and exposes the request / accept /
//! reject / remove transitions.

use vstd::prelude::*;
use crate::errors::HubError;
use crate::ids::UserId;

verus! {

/// The status of one directed relationship edge.
///
/// `Blocked` is a declared but unexercised state: no transition produces
/// or consumes it; it is reserved for a future, separately specified
/// blocking semantics.
#[derive(Clone, Copy, Debug, PartialEq, Eq, Structural)]
pub enum FriendStatus {
    Pending,
    Accepted,
    Blocked,
}

/// One directed relationship edge, owner towards peer.
#[derive(Clone, Copy, Debug, PartialEq, Eq, Structural)]
pub struct Friendship {
    pub user_id: UserId,
    pub friend_id: UserId,
    pub status: FriendStatus,
    pub created_at: i64,
}

/// The durable relationship store.
///
/// Per unordered pair (A, B) the graph is in one of three states:
/// no edge at all; exactly one `Pending` edge, requester towards target;
/// or two `Accepted` edges, one per direction, never one without the
/// other.
pub struct FriendshipGraph {
    pub edges: Vec<Friendship>,
}

/// Edges outside the unordered pair {a, b} keep their exact status
/// between `pre` and `post`.
pub open spec fn others_same(pre: FriendshipGraph, post: FriendshipGraph, a: UserId, b: UserId) -> bool {
    &&& forall|x: UserId, y: UserId, st: FriendStatus|
        !(x == a && y == b) && !(x == b && y == a)
            ==> #[trigger] post.has_edge_with(x, y, st) == pre.has_edge_with(x, y, st)
    &&& forall|x: UserId, y: UserId|
        !(x == a && y == b) && !(x == b && y == a)
            ==> #[trigger] post.has_edge(x, y) == pre.has_edge(x, y)
}

/// A request to open a relationship, naming the target by friend code.
pub struct AddFriendRequest {
    pub friend_code: String,
}

/// A request to act on an existing relationship edge.
pub struct FriendActionRequest {
    pub friendship_id: String,
}

/// The public projection of a related account and the relationship's
/// state.
pub struct FriendResponse {
    pub id: String,
    pub username: String,
    pub friend_code: String,
    pub avatar_url: Option<String>,
    pub status: String,
    pub friendship_status: String,
}

impl FriendshipGraph {
    /// Whether a directed edge `a` towards `b` exists, in any status.
    pub open spec fn has_edge(self, a: UserId, b: UserId) -> bool {
        exists|i: int|
            0 <= i < self.edges@.len()
                && (#[trigger] self.edges@[i]).user_id == a
                && self.edges@[i].friend_id == b
    }

    /// Whether a directed edge `a` towards `b` exists with status `st`.
    pub open spec fn has_edge_with(self, a: UserId, b: UserId, st: FriendStatus) -> bool {
        exists|i: int|
            0 <= i < self.edges@.len()
                && (#[trigger] self.edges@[i]).user_id == a
                && self.edges@[i].friend_id == b
                && self.edges@[i].status == st
    }

    /// An `accepted` edge `a` towards `b` authorizes `a` to reach `b`.
    pub open spec fn accepted(self, a: UserId, b: UserId) -> bool {
        self.has_edge_with(a, b, FriendStatus::Accepted)
    }

    /// A `pending` request from `a` awaiting `b`'s decision.
    pub open spec fn pending(self, a: UserId, b: UserId) -> bool {
        self.has_edge_with(a, b, FriendStatus::Pending)
    }

    /// No self edges, and at most one edge per ordered pair.
    pub open spec fn edges_unique(self) -> bool {
        &&& forall|i: int| 0 <= i < self.edges@.len()
            ==> (#[trigger] self.edges@[i]).user_id != self.edges@[i].friend_id
        &&& forall|i: int, j: int|
            0 <= i < self.edges@.len() && 0 <= j < self.edges@.len() && i != j
                ==> !((#[trigger] self.edges@[i]).user_id == (#[trigger] self.edges@[j]).user_id
                    && self.edges@[i].friend_id == self.edges@[j].friend_id)
    }

    /// The graph's invariant: unique edges, an accepted edge always
    /// mirrored by the opposite accepted edge, and a pending edge alone
    /// between its pair.
    pub open spec fn wf(self) -> bool {
        &&& self.edges_unique()
        &&& forall|x: UserId, y: UserId|
            #[trigger] self.accepted(x, y) ==> self.accepted(y, x)
        &&& forall|x: UserId, y: UserId|
            #[trigger] self.pending(x, y) ==> !self.has_edge(y, x)
    }

    /// The index of an edge `a` towards `b` is unique.
    pub proof fn lemma_edge_unique(self, i: int, j: int)
        requires
            self.edges_unique(),
            0 <= i < self.edges@.len(),
            0 <= j < self.edges@.len(),
            self.edges@[i].user_id == self.edges@[j].user_id,
            self.edges@[i].friend_id == self.edges@[j].friend_id,
        ensures
            i == j,
    {
    }

    /// Accepted relationships are symmetric: the invariant never lets one
    /// accepted edge stand without its mirror.
    pub proof fn lemma_accepted_symmetric(self, a: UserId, b: UserId)
        requires
            self.wf(),
            self.accepted(a, b),
        ensures
            self.accepted(b, a),
    {
    }

    /// An empty graph: nobody is related to anybody.
    pub fn new() -> (r: FriendshipGraph)
        ensures
            r.wf(),
            r.edges@.len() == 0,
            forall|a: UserId, b: UserId, st: FriendStatus| !r.has_edge_with(a, b, st),
            forall|a: UserId, b: UserId| !r.has_edge(a, b),
    {
        FriendshipGraph { edges: Vec::new() }
    }

    /// The index of the edge `a` towards `b`, if any.
    fn find_edge(&self, a: UserId, b: UserId) -> (r: Option<usize>)
        ensures
            match r {
                Some(i) => 0 <= i < self.edges@.len()
                    && self.edges@[i as int].user_id == a
                    && self.edges@[i as int].friend_id == b,
                None => !self.has_edge(a, b),
            },
    {
        let n = self.edges.len();
        let mut i: usize = 0;
        while i < n
            invariant
                n == self.edges@.len(),
                i <= n,
                forall|j: int| 0 <= j < i
                    ==> !((#[trigger] self.edges@[j]).user_id == a
                        && self.edges@[j].friend_id == b),
            decreases n - i,
        {
            if self.edges[i].user_id == a && self.edges[i].friend_id == b {
                return Some(i);
            }
            i = i + 1;
        }
        None
    }

    /// Whether an `accepted` edge `a` towards `b` exists: the
    /// authorization question for message and notification delivery.
    pub fn is_accepted(&self, a: UserId, b: UserId) -> (r: bool)
        requires
            self.wf(),
        ensures
            r == self.accepted(a, b),
    {
        match self.find_edge(a, b) {
            Some(i) => {
                let ok = self.edges[i].status == FriendStatus::Accepted;
                proof {
                    if !ok && self.accepted(a, b) {
                        let j = choose|j: int|
                            0 <= j < self.edges@.len()
                                && (#[trigger] self.edges@[j]).user_id == a
                                && self.edges@[j].friend_id == b
                                && self.edges@[j].status == FriendStatus::Accepted;
                        self.lemma_edge_unique(i as int, j);
                    }
                }
                ok
            },
            None => {
                proof {
                    if self.accepted(a, b) {
                        assert(self.has_edge(a, b));
                    }
                }
                false
            },
        }
    }

    /// Opens a relationship: creates the single `pending` edge requester
    /// towards target. Fails with `Validation` when requester and target
    /// are the same identity, and with `Conflict` when any edge already
    /// exists between the pair, in either direction and any status; on
    /// failure the graph is unchanged.
    pub fn request(&mut self, requester: UserId, target: UserId, now: i64)
        -> (r: Result<(), HubError>)
        requires
            old(self).wf(),
        ensures
            final(self).wf(),
            requester == target
                ==> r == Err::<(), HubError>(HubError::Validation) && *final(self) == *old(self),
            requester != target
                && (old(self).has_edge(requester, target) || old(self).has_edge(target, requester))
                ==> r == Err::<(), HubError>(HubError::Conflict) && *final(self) == *old(self),
            requester != target
                && !old(self).has_edge(requester, target) && !old(self).has_edge(target, requester)
                ==> ({
                &&& r == Ok::<(), HubError>(())
                &&& final(self).edges@ == old(self).edges@.push(Friendship {
                    user_id: requester,
                    friend_id: target,
                    status: FriendStatus::Pending,
                    created_at: now,
                })
                &&& final(self).pending(requester, target)
                &&& others_same(*old(self), *final(self), requester, target)
            }),
    {
        if requester == target {
            return Err(HubError::Validation);
        }
        if let Some(_i) = self.find_edge(requester, target) {
            return Err(HubError::Conflict);
        }
        if let Some(_i) = self.find_edge(target, requester) {
            return Err(HubError::Conflict);
        }
        let ghost pre = *self;
        let edge = Friendship {
            user_id: requester,
            friend_id: target,
            status: FriendStatus::Pending,
            created_at: now,
        };
        self.edges.push(edge);
        proof {
            let n = pre.edges@.len() as int;
            assert(self.edges@[n] == edge);
            assert forall|j: int| 0 <= j < n implies self.edges@[j] == pre.edges@[j] by {}
            self.lemma_push_frames(pre, n);
            assert(self.pending(requester, target));
            assert(self.wf()) by {
                assert forall|a: int, b: int|
                    0 <= a < self.edges@.len() && 0 <= b < self.edges@.len() && a != b
                    implies !((#[trigger] self.edges@[a]).user_id
                        == (#[trigger] self.edges@[b]).user_id
                        && self.edges@[a].friend_id == self.edges@[b].friend_id) by {
                    if a == n && b < n {
                        if self.edges@[b].user_id == requester
                            && self.edges@[b].friend_id == target {
                            assert(pre.has_edge(requester, target));
                        }
                    } else if b == n && a < n {
                        if self.edges@[a].user_id == requester
                            && self.edges@[a].friend_id == target {
                            assert(pre.has_edge(requester, target));
                        }
                    }
                }
                assert forall|x: UserId, y: UserId| #[trigger] self.accepted(x, y)
                    implies self.accepted(y, x) by {
                    assert(!self.accepted(requester, target)) by {
                        if self.accepted(requester, target) {
                            let j = choose|j: int|
                                0 <= j < self.edges@.len()
                                    && (#[trigger] self.edges@[j]).user_id == requester
                                    && self.edges@[j].friend_id == target
                                    && self.edges@[j].status == FriendStatus::Accepted;
                            assert(j != n);
                            assert(pre.has_edge(requester, target));
                        }
                    }
                    assert(!self.accepted(target, requester)) by {
                        if self.accepted(target, requester) {
                            let j = choose|j: int|
                                0 <= j < self.edges@.len()
                                    && (#[trigger] self.edges@[j]).user_id == target
                                    && self.edges@[j].friend_id == requester
                                    && self.edges@[j].status == FriendStatus::Accepted;
                            assert(j != n);
                            assert(pre.has_edge(target, requester));
                        }
                    }
                    if !(x == requester && y == target) && !(x == target && y == requester) {
                        assert(pre.accepted(x, y));
                        assert(pre.accepted(y, x));
                    }
                }
                assert forall|x: UserId, y: UserId| #[trigger] self.pending(x, y)
                    implies !self.has_edge(y, x) by {
                    assert(!self.has_edge(target, requester)) by {
                        if self.has_edge(target, requester) {
                            let j = choose|j: int|
                                0 <= j < self.edges@.len()
                                    && (#[trigger] self.edges@[j]).user_id == target
                                    && self.edges@[j].friend_id == requester;
                            assert(j != n);
                            assert(pre.has_edge(target, requester));
                        }
                    }
                    assert(!self.pending(target, requester)) by {
                        if self.pending(target, requester) {
                            assert(self.has_edge(target, requester));
                        }
                    }
                    if !(x == requester && y == target) && !(x == target && y == requester) {
                        assert(pre.pending(x, y));
                        assert(!pre.has_edge(y, x));
                        assert(!(y == requester && x == target)
                            && !(y == target && x == requester));
                    }
                }
            }
        }
        Ok(())
    }

    /// After pushing one edge at index `n`, every other ordered pair
    /// keeps its exact edges.
    proof fn lemma_push_frames(self, pre: FriendshipGraph, n: int)
        requires
            n == pre.edges@.len(),
            self.edges@.len() == n + 1,
            forall|j: int| 0 <= j < n ==> #[trigger] self.edges@[j] == pre.edges@[j],
        ensures
            forall|x: UserId, y: UserId, st: FriendStatus|
                !(x == self.edges@[n].user_id && y == self.edges@[n].friend_id)
                    ==> #[trigger] self.has_edge_with(x, y, st) == pre.has_edge_with(x, y, st),
            forall|x: UserId, y: UserId|
                !(x == self.edges@[n].user_id && y == self.edges@[n].friend_id)
                    ==> #[trigger] self.has_edge(x, y) == pre.has_edge(x, y),
    {
        let ea = self.edges@[n].user_id;
        let eb = self.edges@[n].friend_id;
        assert forall|x: UserId, y: UserId, st: FriendStatus| !(x == ea && y == eb)
            implies #[trigger] self.has_edge_with(x, y, st) == pre.has_edge_with(x, y, st) by {
            if self.has_edge_with(x, y, st) {
                let j = choose|j: int|
                    0 <= j < self.edges@.len()
                        && (#[trigger] self.edges@[j]).user_id == x
                        && self.edges@[j].friend_id == y
                        && self.edges@[j].status == st;
                assert(j != n);
                assert(pre.edges@[j] == self.edges@[j]);
            }
            if pre.has_edge_with(x, y, st) {
                let j = choose|j: int|
                    0 <= j < pre.edges@.len()
                        && (#[trigger] pre.edges@[j]).user_id == x
                        && pre.edges@[j].friend_id == y
                        && pre.edges@[j].status == st;
                assert(self.edges@[j] == pre.edges@[j]);
            }
        }
        assert forall|x: UserId, y: UserId| !(x == ea && y == eb)
            implies #[trigger] self.has_edge(x, y) == pre.has_edge(x, y) by {
            if self.has_edge(x, y) {
                let j = choose|j: int|
                    0 <= j < self.edges@.len()
                        && (#[trigger] self.edges@[j]).user_id == x
                        && self.edges@[j].friend_id == y;
                assert(j != n);
                assert(pre.edges@[j] == self.edges@[j]);
            }
            if pre.has_edge(x, y) {
                let j = choose|j: int|
                    0 <= j < pre.edges@.len()
                        && (#[trigger] pre.edges@[j]).user_id == x
                        && pre.edges@[j].friend_id == y;
                assert(self.edges@[j] == pre.edges@[j]);
            }
        }
    }

    /// Accepts a pending request: promotes the requester-towards-accepter
    /// edge to `accepted` and inserts the mirrored accepted edge, both in
    /// one atomic step. Fails with `NotFound`, leaving the graph
    /// unchanged, when no pending edge requester towards accepter exists.
    pub fn accept(&mut self, accepter: UserId, requester: UserId, now: i64)
        -> (r: Result<(), HubError>)
        requires
            old(self).wf(),
        ensures
            final(self).wf(),
            r == Ok::<(), HubError>(()) <==> old(self).pending(requester, accepter),
            !old(self).pending(requester, accepter)
                ==> r == Err::<(), HubError>(HubError::NotFound) && *final(self) == *old(self),
            old(self).pending(requester, accepter) ==> ({
                &&& final(self).accepted(requester, accepter)
                &&& final(self).accepted(accepter, requester)
                &&& !final(self).pending(requester, accepter)
                &&& !final(self).pending(accepter, requester)
                &&& others_same(*old(self), *final(self), requester, accepter)
            }),
    {
        let found = self.find_edge(requester, accepter);
        match found {
            Some(i) => {
                if !(self.edges[i].status == FriendStatus::Pending) {
                    proof {
                        if self.pending(requester, accepter) {
                            let j = choose|j: int|
                                0 <= j < self.edges@.len()
                                    && (#[trigger] self.edges@[j]).user_id == requester
                                    && self.edges@[j].friend_id == accepter
                                    && self.edges@[j].status == FriendStatus::Pending;
                            self.lemma_edge_unique(i as int, j);
                        }
                    }
                    return Err(HubError::NotFound);
                }
                let ghost pre = *self;
                proof {
                    assert(pre.pending(requester, accepter));
                    assert(!pre.has_edge(accepter, requester));
                    assert(requester != accepter);
                }
                let slot = vstd::std_specs::vec::vec_index_mut(&mut self.edges, i);
                slot.status = FriendStatus::Accepted;
                let mirror = Friendship {
                    user_id: accepter,
                    friend_id: requester,
                    status: FriendStatus::Accepted,
                    created_at: now,
                };
                self.edges.push(mirror);
                proof {
                    let n = pre.edges@.len() as int;
                    let idx = i as int;
                    assert(self.edges@.len() == n + 1);
                    assert(self.edges@[n] == mirror);
                    assert(self.edges@[idx].user_id == requester
                        && self.edges@[idx].friend_id == accepter
                        && self.edges@[idx].status == FriendStatus::Accepted);
                    assert forall|j: int| 0 <= j < n && j != idx
                        implies self.edges@[j] == pre.edges@[j] by {}
                    assert(self.edges_unique()) by {
                        assert forall|a: int, b: int|
                            0 <= a < self.edges@.len() && 0 <= b < self.edges@.len() && a != b
                            implies !((#[trigger] self.edges@[a]).user_id
                                == (#[trigger] self.edges@[b]).user_id
                                && self.edges@[a].friend_id == self.edges@[b].friend_id) by {
                            if a < n && b < n {
                                assert(pre.edges@[a].user_id == self.edges@[a].user_id
                                    && pre.edges@[a].friend_id == self.edges@[a].friend_id);
                                assert(pre.edges@[b].user_id == self.edges@[b].user_id
                                    && pre.edges@[b].friend_id == self.edges@[b].friend_id);
                            } else if a == n && b < n {
                                if self.edges@[b].user_id == accepter
                                    && self.edges@[b].friend_id == requester {
                                    assert(pre.has_edge(accepter, requester));
                                }
                            } else if b == n && a < n {
                                if self.edges@[a].user_id == accepter
                                    && self.edges@[a].friend_id == requester {
                                    assert(pre.has_edge(accepter, requester));
                                }
                            }
                        }
                    }
                    assert forall|x: UserId, y: UserId, st: FriendStatus|
                        !(x == requester && y == accepter) && !(x == accepter && y == requester)
                        implies #[trigger] self.has_edge_with(x, y, st)
                            == pre.has_edge_with(x, y, st) by {
                        if self.has_edge_with(x, y, st) {
                            let j = choose|j: int|
                                0 <= j < self.edges@.len()
                                    && (#[trigger] self.edges@[j]).user_id == x
                                    && self.edges@[j].friend_id == y
                                    && self.edges@[j].status == st;
                            assert(j != n && j != idx);
                            assert(pre.edges@[j] == self.edges@[j]);
                        }
                        if pre.has_edge_with(x, y, st) {
                            let j = choose|j: int|
                                0 <= j < pre.edges@.len()
                                    && (#[trigger] pre.edges@[j]).user_id == x
                                    && pre.edges@[j].friend_id == y
                                    && pre.edges@[j].status == st;
                            assert(j != idx);
                            assert(self.edges@[j] == pre.edges@[j]);
                        }
                    }
                    assert forall|x: UserId, y: UserId|
                        !(x == requester && y == accepter) && !(x == accepter && y == requester)
                        implies #[trigger] self.has_edge(x, y) == pre.has_edge(x, y) by {
                        if self.has_edge(x, y) {
                            let j = choose|j: int|
                                0 <= j < self.edges@.len()
                                    && (#[trigger] self.edges@[j]).user_id == x
                                    && self.edges@[j].friend_id == y;
                            assert(j != n && j != idx);
                            assert(pre.edges@[j] == self.edges@[j]);
                        }
                        if pre.has_edge(x, y) {
                            let j = choose|j: int|
                                0 <= j < pre.edges@.len()
                                    && (#[trigger] pre.edges@[j]).user_id == x
                                    && pre.edges@[j].friend_id == y;
                            assert(self.edges@[j].user_id == x && self.edges@[j].friend_id == y);
                        }
                    }
                    assert(self.accepted(requester, accepter));
                    assert(self.accepted(accepter, requester));
                    assert(!self.pending(requester, accepter)) by {
                        if self.pending(requester, accepter) {
                            let j = choose|j: int|
                                0 <= j < self.edges@.len()
                                    && (#[trigger] self.edges@[j]).user_id == requester
                                    && self.edges@[j].friend_id == accepter
                                    && self.edges@[j].status == FriendStatus::Pending;
                            self.lemma_edge_unique(j, idx);
                        }
                    }
                    assert(!self.pending(accepter, requester)) by {
                        if self.pending(accepter, requester) {
                            let j = choose|j: int|
                                0 <= j < self.edges@.len()
                                    && (#[trigger] self.edges@[j]).user_id == accepter
                                    && self.edges@[j].friend_id == requester
                                    && self.edges@[j].status == FriendStatus::Pending;
                            self.lemma_edge_unique(j, n);
                        }
                    }
                    assert(self.wf()) by {
                        assert forall|x: UserId, y: UserId| #[trigger] self.accepted(x, y)
                            implies self.accepted(y, x) by {
                            if !(x == requester && y == accepter)
                                && !(x == accepter && y == requester) {
                                assert(pre.accepted(x, y));
                                assert(pre.accepted(y, x));
                            }
                        }
                        assert forall|x: UserId, y: UserId| #[trigger] self.pending(x, y)
                            implies !self.has_edge(y, x) by {
                            if !(x == requester && y == accepter)
                                && !(x == accepter && y == requester) {
                                assert(pre.pending(x, y));
                                assert(!pre.has_edge(y, x));
                                assert(!(y == requester && x == accepter)
                                    && !(y == accepter && x == requester));
                            }
                        }
                    }
                }
                Ok(())
            },
            None => {
                proof {
                    if self.pending(requester, accepter) {
                        assert(self.has_edge(requester, accepter));
                    }
                }
                Err(HubError::NotFound)
            },
        }
    }

    /// Deletes the edge at index `i`. Keeps edge uniqueness and leaves
    /// every other ordered pair exactly as it was; the caller
    /// re-establishes the symmetry clauses of the full invariant.
    fn remove_edge_at(&mut self, i: usize)
        requires
            old(self).edges_unique(),
            i < old(self).edges@.len(),
        ensures
            final(self).edges_unique(),
            final(self).edges@.len() == old(self).edges@.len() - 1,
            !final(self).has_edge(
                old(self).edges@[i as int].user_id,
                old(self).edges@[i as int].friend_id,
            ),
            forall|x: UserId, y: UserId, st: FriendStatus|
                !(x == old(self).edges@[i as int].user_id
                    && y == old(self).edges@[i as int].friend_id)
                    ==> #[trigger] final(self).has_edge_with(x, y, st)
                        == old(self).has_edge_with(x, y, st),
            forall|x: UserId, y: UserId|
                !(x == old(self).edges@[i as int].user_id
                    && y == old(self).edges@[i as int].friend_id)
                    ==> #[trigger] final(self).has_edge(x, y) == old(self).has_edge(x, y),
    {
        let ghost pre = *self;
        let ghost ea = pre.edges@[i as int].user_id;
        let ghost eb = pre.edges@[i as int].friend_id;
        self.edges.remove(i);
        proof {
            let ii = i as int;
            assert forall|j: int| 0 <= j < self.edges@.len()
                implies self.edges@[j]
                    == (if j < ii { pre.edges@[j] } else { pre.edges@[j + 1] }) by {}
            assert(self.edges_unique()) by {
                assert forall|a: int, b: int|
                    0 <= a < self.edges@.len() && 0 <= b < self.edges@.len() && a != b
                    implies !((#[trigger] self.edges@[a]).user_id
                        == (#[trigger] self.edges@[b]).user_id
                        && self.edges@[a].friend_id == self.edges@[b].friend_id) by {
                    let pa: int = if a < ii { a } else { a + 1 };
                    let pb: int = if b < ii { b } else { b + 1 };
                    assert(!(pre.edges@[pa].user_id == pre.edges@[pb].user_id
                        && pre.edges@[pa].friend_id == pre.edges@[pb].friend_id));
                }
            }
            assert(!self.has_edge(ea, eb)) by {
                if self.has_edge(ea, eb) {
                    let j = choose|j: int|
                        0 <= j < self.edges@.len()
                            && (#[trigger] self.edges@[j]).user_id == ea
                            && self.edges@[j].friend_id == eb;
                    let pj: int = if j < ii { j } else { j + 1 };
                    pre.lemma_edge_unique(pj, ii);
                }
            }
            assert forall|x: UserId, y: UserId, st: FriendStatus| !(x == ea && y == eb)
                implies #[trigger] self.has_edge_with(x, y, st) == pre.has_edge_with(x, y, st) by {
                if self.has_edge_with(x, y, st) {
                    let j = choose|j: int|
                        0 <= j < self.edges@.len()
                            && (#[trigger] self.edges@[j]).user_id == x
                            && self.edges@[j].friend_id == y
                            && self.edges@[j].status == st;
                    let pj: int = if j < ii { j } else { j + 1 };
                    assert(pre.edges@[pj] == self.edges@[j]);
                }
                if pre.has_edge_with(x, y, st) {
                    let j = choose|j: int|
                        0 <= j < pre.edges@.len()
                            && (#[trigger] pre.edges@[j]).user_id == x
                            && pre.edges@[j].friend_id == y
                            && pre.edges@[j].status == st;
                    assert(j != ii);
                    let nj: int = if j < ii { j } else { j - 1 };
                    assert(self.edges@[nj] == pre.edges@[j]);
                }
            }
            assert forall|x: UserId, y: UserId| !(x == ea && y == eb)
                implies #[trigger] self.has_edge(x, y) == pre.has_edge(x, y) by {
                if self.has_edge(x, y) {
                    let j = choose|j: int|
                        0 <= j < self.edges@.len()
                            && (#[trigger] self.edges@[j]).user_id == x
                            && self.edges@[j].friend_id == y;
                    let pj: int = if j < ii { j } else { j + 1 };
                    assert(pre.edges@[pj] == self.edges@[j]);
                }
                if pre.has_edge(x, y) {
                    let j = choose|j: int|
                        0 <= j < pre.edges@.len()
                            && (#[trigger] pre.edges@[j]).user_id == x
                            && pre.edges@[j].friend_id == y;
                    assert(j != ii);
                    let nj: int = if j < ii { j } else { j - 1 };
                    assert(self.edges@[nj] == pre.edges@[j]);
                }
            }
        }
    }

    /// Rejects a pending request: deletes the requester-towards-rejecter
    /// pending edge. Fails with `NotFound`, leaving the graph unchanged,
    /// when that edge is absent.
    pub fn reject(&mut self, rejecter: UserId, requester: UserId) -> (r: Result<(), HubError>)
        requires
            old(self).wf(),
        ensures
            final(self).wf(),
            r == Ok::<(), HubError>(()) <==> old(self).pending(requester, rejecter),
            !old(self).pending(requester, rejecter)
                ==> r == Err::<(), HubError>(HubError::NotFound) && *final(self) == *old(self),
            old(self).pending(requester, rejecter) ==> ({
                &&& !final(self).has_edge(requester, rejecter)
                &&& !final(self).has_edge(rejecter, requester)
                &&& others_same(*old(self), *final(self), requester, rejecter)
            }),
    {
        let found = self.find_edge(requester, rejecter);
        match found {
            Some(i) => {
                if !(self.edges[i].status == FriendStatus::Pending) {
                    proof {
                        if self.pending(requester, rejecter) {
                            let j = choose|j: int|
                                0 <= j < self.edges@.len()
                                    && (#[trigger] self.edges@[j]).user_id == requester
                                    && self.edges@[j].friend_id == rejecter
                                    && self.edges@[j].status == FriendStatus::Pending;
                            self.lemma_edge_unique(i as int, j);
                        }
                    }
                    return Err(HubError::NotFound);
                }
                let ghost pre = *self;
                proof {
                    assert(pre.pending(requester, rejecter));
                    assert(!pre.has_edge(rejecter, requester));
                }
                self.remove_edge_at(i);
                proof {
                    assert(!self.has_edge(rejecter, requester));
                    assert(self.wf()) by {
                        assert forall|x: UserId, y: UserId| #[trigger] self.accepted(x, y)
                            implies self.accepted(y, x) by {
                            if !(x == requester && y == rejecter)
                                && !(x == rejecter && y == requester) {
                                assert(pre.accepted(x, y));
                                assert(pre.accepted(y, x));
                            } else if x == rejecter && y == requester {
                                assert(self.has_edge(rejecter, requester));
                            } else {
                                assert(self.has_edge(requester, rejecter));
                            }
                        }
                        assert forall|x: UserId, y: UserId| #[trigger] self.pending(x, y)
                            implies !self.has_edge(y, x) by {
                            if !(x == requester && y == rejecter)
                                && !(x == rejecter && y == requester) {
                                assert(pre.pending(x, y));
                                assert(!pre.has_edge(y, x));
                                if y == requester && x == rejecter {
                                } else if y == rejecter && x == requester {
                                } else {
                                    assert(self.has_edge(y, x) == pre.has_edge(y, x));
                                }
                            } else if x == requester && y == rejecter {
                                assert(self.has_edge(requester, rejecter));
                            } else {
                                assert(self.has_edge(rejecter, requester));
                            }
                        }
                    }
                }
                Ok(())
            },
            None => {
                proof {
                    if self.pending(requester, rejecter) {
                        assert(self.has_edge(requester, rejecter));
                    }
                }
                Err(HubError::NotFound)
            },
        }
    }

    /// Dissolves the relationship: deletes any edge in either direction
    /// between `a` and `b`, regardless of status. Idempotent; never fails
    /// for a missing relationship.
    pub fn remove(&mut self, a: UserId, b: UserId)
        requires
            old(self).wf(),
        ensures
            final(self).wf(),
            !final(self).has_edge(a, b),
            !final(self).has_edge(b, a),
            others_same(*old(self), *final(self), a, b),
            !old(self).has_edge(a, b) && !old(self).has_edge(b, a)
                ==> *final(self) == *old(self),
    {
        let ghost pre = *self;
        let found_ab = self.find_edge(a, b);
        if let Some(i) = found_ab {
            self.remove_edge_at(i);
        }
        let ghost mid = *self;
        proof {
            assert(!mid.has_edge(a, b));
            if a == b {
                assert(pre.edges_unique());
                assert(!pre.has_edge(a, b)) by {
                    if pre.has_edge(a, b) {
                        let j = choose|j: int|
                            0 <= j < pre.edges@.len()
                                && (#[trigger] pre.edges@[j]).user_id == a
                                && pre.edges@[j].friend_id == b;
                        assert(pre.edges@[j].user_id != pre.edges@[j].friend_id);
                    }
                }
            }
        }
        let found_ba = self.find_edge(b, a);
        if let Some(j) = found_ba {
            proof {
                assert(a != b);
            }
            self.remove_edge_at(j);
            proof {
                assert(self.has_edge(a, b) == mid.has_edge(a, b));
            }
        }
        proof {
            assert(!self.has_edge(a, b));
            assert(!self.has_edge(b, a));
            assert forall|x: UserId, y: UserId, st: FriendStatus|
                !(x == a && y == b) && !(x == b && y == a)
                implies #[trigger] self.has_edge_with(x, y, st) == pre.has_edge_with(x, y, st) by {
                assert(mid.has_edge_with(x, y, st) == pre.has_edge_with(x, y, st));
                assert(self.has_edge_with(x, y, st) == mid.has_edge_with(x, y, st));
            }
            assert forall|x: UserId, y: UserId|
                !(x == a && y == b) && !(x == b && y == a)
                implies #[trigger] self.has_edge(x, y) == pre.has_edge(x, y) by {
                assert(mid.has_edge(x, y) == pre.has_edge(x, y));
                assert(self.has_edge(x, y) == mid.has_edge(x, y));
            }
            assert(self.wf()) by {
                assert forall|x: UserId, y: UserId| #[trigger] self.accepted(x, y)
                    implies self.accepted(y, x) by {
                    if !(x == a && y == b) && !(x == b && y == a) {
                        assert(pre.accepted(x, y));
                        assert(pre.accepted(y, x));
                    } else if x == a && y == b {
                        assert(self.has_edge(a, b));
                    } else {
                        assert(self.has_edge(b, a));
                    }
                }
                assert forall|x: UserId, y: UserId| #[trigger] self.pending(x, y)
                    implies !self.has_edge(y, x) by {
                    if !(x == a && y == b) && !(x == b && y == a) {
                        assert(pre.pending(x, y));
                        assert(!pre.has_edge(y, x));
                        if y == a && x == b {
                        } else if y == b && x == a {
                        } else {
                            assert(self.has_edge(y, x) == pre.has_edge(y, x));
                        }
                    } else if x == a && y == b {
                        assert(self.has_edge(a, b));
                    } else {
                        assert(self.has_edge(b, a));
                    }
                }
            }
        }
    }

    /// The peers this user holds an accepted edge towards: exactly the
    /// set of identities the user is authorized to reach.
    pub fn list_accepted(&self, user: UserId) -> (r: Vec<UserId>)
        requires
            self.wf(),
        ensures
            forall|k: int| 0 <= k < r@.len() ==> self.accepted(user, #[trigger] r@[k]),
            forall|p: UserId| self.accepted(user, p) ==> r@.contains(p),
            forall|k1: int, k2: int| 0 <= k1 < r@.len() && 0 <= k2 < r@.len() && k1 != k2
                ==> r@[k1] != r@[k2],
    {
        let n = self.edges.len();
        let mut r: Vec<UserId> = Vec::new();
        let mut i: usize = 0;
        while i < n
            invariant
                self.wf(),
                n == self.edges@.len(),
                i <= n,
                forall|k: int| 0 <= k < r@.len() ==> self.accepted(user, #[trigger] r@[k]),
                forall|j: int| 0 <= j < i
                    && (#[trigger] self.edges@[j]).user_id == user
                    && self.edges@[j].status == FriendStatus::Accepted
                    ==> r@.contains(self.edges@[j].friend_id),
                forall|k1: int, k2: int| 0 <= k1 < r@.len() && 0 <= k2 < r@.len() && k1 != k2
                    ==> r@[k1] != r@[k2],
            decreases n - i,
        {
            if self.edges[i].user_id == user && self.edges[i].status == FriendStatus::Accepted {
                let p = self.edges[i].friend_id;
                proof {
                    assert(self.has_edge_with(user, p, FriendStatus::Accepted));
                }
                if !contains_id(&r, p) {
                    let ghost r_prev = r@;
                    r.push(p);
                    proof {
                        assert(r@ == r_prev.push(p));
                        assert(r@[r_prev.len() as int] == p);
                        assert(r@.contains(p));
                        assert forall|x: UserId| r_prev.contains(x)
                            implies r@.contains(x) by {
                            let k = choose|k: int| 0 <= k < r_prev.len() && r_prev[k] == x;
                            assert(r@[k] == x);
                        }
                    }
                }
            }
            i = i + 1;
        }
        proof {
            assert forall|p: UserId| self.accepted(user, p) implies r@.contains(p) by {
                let j = choose|j: int|
                    0 <= j < self.edges@.len()
                        && (#[trigger] self.edges@[j]).user_id == user
                        && self.edges@[j].friend_id == p
                        && self.edges@[j].status == FriendStatus::Accepted;
                assert(r@.contains(self.edges@[j].friend_id));
            }
        }
        r
    }

    /// The requesters whose pending requests await this user's decision.
    pub fn list_incoming_pending(&self, user: UserId) -> (r: Vec<UserId>)
        requires
            self.wf(),
        ensures
            forall|k: int| 0 <= k < r@.len() ==> self.pending(#[trigger] r@[k], user),
            forall|p: UserId| self.pending(p, user) ==> r@.contains(p),
            forall|k1: int, k2: int| 0 <= k1 < r@.len() && 0 <= k2 < r@.len() && k1 != k2
                ==> r@[k1] != r@[k2],
    {
        let n = self.edges.len();
        let mut r: Vec<UserId> = Vec::new();
        let mut i: usize = 0;
        while i < n
            invariant
                self.wf(),
                n == self.edges@.len(),
                i <= n,
                forall|k: int| 0 <= k < r@.len() ==> self.pending(#[trigger] r@[k], user),
                forall|j: int| 0 <= j < i
                    && (#[trigger] self.edges@[j]).friend_id == user
                    && self.edges@[j].status == FriendStatus::Pending
                    ==> r@.contains(self.edges@[j].user_id),
                forall|k1: int, k2: int| 0 <= k1 < r@.len() && 0 <= k2 < r@.len() && k1 != k2
                    ==> r@[k1] != r@[k2],
            decreases n - i,
        {
            if self.edges[i].friend_id == user && self.edges[i].status == FriendStatus::Pending {
                let p = self.edges[i].user_id;
                proof {
                    assert(self.has_edge_with(p, user, FriendStatus::Pending));
                }
                if !contains_id(&r, p) {
                    let ghost r_prev = r@;
                    r.push(p);
                    proof {
                        assert(r@ == r_prev.push(p));
                        assert(r@[r_prev.len() as int] == p);
                        assert(r@.contains(p));
                        assert forall|x: UserId| r_prev.contains(x)
                            implies r@.contains(x) by {
                            let k = choose|k: int| 0 <= k < r_prev.len() && r_prev[k] == x;
                            assert(r@[k] == x);
                        }
                    }
                }
            }
            i = i + 1;
        }
        proof {
            assert forall|p: UserId| self.pending(p, user) implies r@.contains(p) by {
                let j = choose|j: int|
                    0 <= j < self.edges@.len()
                        && (#[trigger] self.edges@[j]).user_id == p
                        && self.edges@[j].friend_id == user
                        && self.edges@[j].status == FriendStatus::Pending;
                assert(r@.contains(self.edges@[j].user_id));
            }
        }
        r
    }
}

/// Whether `p` already occurs in `v`.
fn contains_id(v: &Vec<UserId>, p: UserId) -> (r: bool)
    ensures
        r == v@.contains(p),
{
    let n = v.len();
    let mut i: usize = 0;
    while i < n
        invariant
            n == v@.len(),
            i <= n,
            forall|k: int| 0 <= k < i ==> #[trigger] v@[k] != p,
        decreases n - i,
    {
        if v[i] == p {
            proof {
                assert(v@[i as int] == p);
            }
            return true;
        }
        i = i + 1;
    }
    proof {
        if v@.contains(p) {
            let k = choose|k: int| 0 <= k < v@.len() && v@[k] == p;
        }
    }
    false
}

} // verus!
