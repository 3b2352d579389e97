//! Registry of connected scraper nodes and the choice of a node for a command.
//!
//! Each websocket registration is identified by a connection token, so that a
//! late disconnect of a replaced connection cannot remove its successor.
use vstd::prelude::*;
use std::collections::HashMap;
use vstd::std_specs::iter::IteratorSpec;
use crate::text::{string_of, u64_digits, decimal, concat_vec};

verus! {

broadcast use vstd::std_specs::hash::group_hash_axioms;

/// Version reported by a node.
#[derive(Clone, Copy, Debug, PartialEq, Eq, Structural)]
pub struct NodeVersion {
    pub major: u32,
    pub minor: u32,
    pub patch: u32,
}

/// One connected node as listed to users.
#[derive(Clone, Copy, Debug, PartialEq, Eq, Structural)]
pub struct ConnectedNode {
    pub id: u64,
    pub version: Option<NodeVersion>,
}

/// What the registry holds for a node id.
#[derive(Clone, Copy, Debug, PartialEq, Eq, Structural)]
pub struct NodeEntry {
    /// Token of the connection currently registered under the id.
    pub conn: u64,
    pub version: Option<NodeVersion>,
}

/// Connected nodes by id.  The registry issues the connection tokens itself,
/// counting up, so a token is never issued twice.
pub struct NodeRegistry {
    nodes: HashMap<u64, NodeEntry>,
    next_conn: u64,
}

/// Every registered connection's token is below `issued`.
pub open spec fn tokens_below(m: Map<u64, NodeEntry>, issued: u64) -> bool {
    forall|id: u64| #[trigger] m.contains_key(id) ==> m[id].conn < issued
}

/// Whether unregistering token `conn` of node `id` removes it: only while it
/// is still the node's registered connection.
pub open spec fn unregister_removes(m: Map<u64, NodeEntry>, id: u64, conn: u64) -> bool {
    m.contains_key(id) && m[id].conn == conn
}

/// The registry contents after unregistering token `conn` of node `id`.
pub open spec fn after_unregister(m: Map<u64, NodeEntry>, id: u64, conn: u64) -> Map<u64, NodeEntry> {
    if unregister_removes(m, id, conn) {
        m.remove(id)
    } else {
        m
    }
}

impl View for NodeRegistry {
    type V = Map<u64, NodeEntry>;

    closed spec fn view(&self) -> Map<u64, NodeEntry> {
        self.nodes@
    }
}

/// Ids strictly increasing along the list.
pub open spec fn sorted_by_id(s: Seq<ConnectedNode>) -> bool {
    forall|i: int, j: int| 0 <= i < j < s.len() ==> (#[trigger] s[i]).id < (#[trigger] s[j]).id
}

/// The list shows exactly the registered nodes with their versions.
pub open spec fn lists_registry(s: Seq<ConnectedNode>, m: Map<u64, NodeEntry>) -> bool {
    &&& forall|k: int|
        0 <= k < s.len() ==> m.contains_key((#[trigger] s[k]).id) && s[k].version == m[s[k].id].version
    &&& forall|id: u64| #[trigger] m.contains_key(id) ==> exists|k: int| 0 <= k < s.len() && s[k].id == id
}

/// Inserts `n` into a list sorted by id that does not hold its id.
fn insert_sorted(out: &mut Vec<ConnectedNode>, n: ConnectedNode)
    requires
        sorted_by_id(old(out)@),
        forall|k: int| 0 <= k < old(out)@.len() ==> (#[trigger] old(out)@[k]).id != n.id,
    ensures
        sorted_by_id(final(out)@),
        final(out)@.len() == old(out)@.len() + 1,
        forall|x: ConnectedNode| final(out)@.contains(x) <==> (old(out)@.contains(x) || x == n),
{
    let mut p: usize = 0;
    while p < out.len() && out[p].id < n.id
        invariant
            p <= out.len(),
            forall|k: int| 0 <= k < p ==> (#[trigger] out@[k]).id < n.id,
        decreases out.len() - p,
    {
        p = p + 1;
    }
    let ghost before = out@;
    out.insert(p, n);
    proof {
        before.insert_ensures(p as int, n);
        let after = out@;
        assert forall|i: int, j: int| 0 <= i < j < after.len() implies (#[trigger] after[i]).id
            < (#[trigger] after[j]).id by {
            if j < p {
            } else if j == p {
            } else if i < p {
                assert(after[j] == before[j - 1]);
                assert(before[p as int].id > n.id || before[p as int].id >= n.id);
                if j - 1 > p {
                    assert(before[p as int].id < before[j - 1].id);
                }
            } else if i == p {
                assert(after[j] == before[j - 1]);
                assert(before[p as int].id != n.id);
                if j - 1 > p {
                    assert(before[p as int].id < before[j - 1].id);
                }
            } else {
                assert(after[i] == before[i - 1]);
                assert(after[j] == before[j - 1]);
            }
        }
        assert forall|x: ConnectedNode| after.contains(x) <==> (before.contains(x) || x == n) by {
            if after.contains(x) {
                let k = choose|k: int| 0 <= k < after.len() && after[k] == x;
                if k < p {
                    assert(before[k] == x);
                } else if k > p {
                    assert(before[k - 1] == x);
                }
            }
            if before.contains(x) {
                let k = choose|k: int| 0 <= k < before.len() && before[k] == x;
                if k < p {
                    assert(after[k] == x);
                } else {
                    assert(after[k + 1] == x);
                }
            }
            if x == n {
                assert(after[p as int] == x);
            }
        }
    }
}

/// A uniformly random index below `n`, drawn from the thread-local generator
/// (`rand::rng().random_range(0..n)`).  Only its range is stated: the value is chance.
#[verifier::external_body]
fn random_index(n: usize) -> (r: usize)
    requires
        n > 0,
    ensures
        r < n,
{
    rand::Rng::random_range(&mut rand::rng(), 0..n)
}

impl NodeRegistry {
    #[verifier::type_invariant]
    closed spec fn tokens_fresh(&self) -> bool {
        tokens_below(self.nodes@, self.next_conn)
    }

    /// The next token the registry issues; every registered token is below it.
    pub closed spec fn issued(&self) -> u64 {
        self.next_conn
    }

    /// An empty registry.
    pub fn new() -> (r: Self)
        ensures
            r@ == Map::<u64, NodeEntry>::empty(),
            r.issued() == 1,
    {
        NodeRegistry { nodes: HashMap::new(), next_conn: 1 }
    }

    /// Registers a new connection of node `id`, replacing any earlier
    /// connection of that id.  Returns the new connection's token and the
    /// replaced connection's token; `None` (nothing registered) once every
    /// token has been issued.
    pub fn register_node(&mut self, id: u64, version: Option<NodeVersion>) -> (r: Option<(u64, Option<u64>)>)
        ensures
            tokens_below(old(self)@, old(self).issued()),
            old(self).issued() == u64::MAX ==> r is None && final(self)@ == old(self)@
                && final(self).issued() == old(self).issued(),
            old(self).issued() < u64::MAX ==> {
                &&& r matches Some((token, replaced)) && token == old(self).issued() && (
                old(self)@.contains_key(id) ==> replaced == Some(old(self)@[id].conn)) && (!old(
                    self,
                )@.contains_key(id) ==> replaced is None)
                &&& final(self)@ == old(self)@.insert(id, NodeEntry { conn: old(self).issued(), version })
                &&& final(self).issued() == old(self).issued() + 1
            },
    {
        proof {
            use_type_invariant(&*self);
        }
        if self.next_conn == u64::MAX {
            return None;
        }
        let conn = self.next_conn;
        let mut nodes = HashMap::new();
        std::mem::swap(&mut nodes, &mut self.nodes);
        let replaced = match nodes.insert(id, NodeEntry { conn, version }) {
            Some(old) => Some(old.conn),
            None => None,
        };
        proof {
            assert forall|k: u64| #[trigger] nodes@.contains_key(k) implies nodes@[k].conn < conn + 1 by {
                if k != id {
                    assert(old(self).nodes@.contains_key(k));
                }
            }
        }
        *self = NodeRegistry { nodes, next_conn: conn + 1 };
        Some((conn, replaced))
    }

    /// Removes node `id` only when `conn` is still its registered connection;
    /// tells whether it did.
    pub fn unregister_node(&mut self, id: u64, conn: u64) -> (removed: bool)
        ensures
            removed == unregister_removes(old(self)@, id, conn),
            final(self)@ == after_unregister(old(self)@, id, conn),
            final(self).issued() == old(self).issued(),
    {
        proof {
            use_type_invariant(&*self);
        }
        let current = match self.nodes.get(&id) {
            Some(e) => e.conn == conn,
            None => false,
        };
        if current {
            let mut nodes = HashMap::new();
            std::mem::swap(&mut nodes, &mut self.nodes);
            nodes.remove(&id);
            *self = NodeRegistry { nodes, next_conn: self.next_conn };
        }
        current
    }

    /// Whether node `id` is registered.
    pub fn is_connected(&self, id: u64) -> (b: bool)
        ensures
            b == self@.contains_key(id),
    {
        self.nodes.contains_key(&id)
    }

    /// The connected nodes, in increasing id order.
    pub fn connected_nodes(&self) -> (r: Vec<ConnectedNode>)
        ensures
            sorted_by_id(r@),
            lists_registry(r@, self@),
            r@.len() == self@.len(),
    {
        let mut out: Vec<ConnectedNode> = Vec::new();
        let ghost m = self.nodes@;
        let ghost full = vstd::std_specs::hash::spec_hash_map_iter(&self.nodes).remaining();
        for pair in it: self.nodes.iter()
            invariant
                m == self.nodes@,
                it.seq() == full,
                it.seq().len() == m.dom().len(),
                it.seq().no_duplicates(),
                forall|i: int|
                    0 <= i < it.seq().len() ==> m.contains_key(*(#[trigger] it.seq()[i]).0)
                        && m[*it.seq()[i].0] == *it.seq()[i].1,
                forall|k: u64| #[trigger] m.contains_key(k) ==> it.seq().contains((&k, &m[k])),
                sorted_by_id(out@),
                out@.len() == it.index(),
                forall|x: ConnectedNode|
                    out@.contains(x) <==> exists|j: int|
                        0 <= j < it.index() && x == (ConnectedNode {
                            id: *(#[trigger] it.seq()[j]).0,
                            version: (*it.seq()[j].1).version,
                        }),
        {
            let (id, e) = pair;
            let n = ConnectedNode { id: *id, version: e.version };
            proof {
                let idx = it.index();
                assert forall|k: int| 0 <= k < out@.len() implies (#[trigger] out@[k]).id != n.id by {
                    let x = out@[k];
                    assert(out@.contains(x));
                    let j = choose|j: int|
                        0 <= j < it.index() && x == (ConnectedNode {
                            id: *(#[trigger] it.seq()[j]).0,
                            version: (*it.seq()[j].1).version,
                        });
                    if x.id == n.id {
                        assert(it.seq()[j] == it.seq()[idx]);
                    }
                }
            }
            let ghost before = out@;
            insert_sorted(&mut out, n);
            proof {
                let idx = it.index();
                assert forall|x: ConnectedNode| out@.contains(x) <==> exists|j: int|
                    0 <= j < idx + 1 && x == (ConnectedNode {
                        id: *(#[trigger] it.seq()[j]).0,
                        version: (*it.seq()[j].1).version,
                    }) by {
                    if x == n {
                        assert(x == (ConnectedNode {
                            id: *it.seq()[idx].0,
                            version: (*it.seq()[idx].1).version,
                        }));
                    }
                    if exists|j: int|
                        0 <= j < idx + 1 && x == (ConnectedNode {
                            id: *(#[trigger] it.seq()[j]).0,
                            version: (*it.seq()[j].1).version,
                        }) {
                        let j = choose|j: int|
                            0 <= j < idx + 1 && x == (ConnectedNode {
                                id: *(#[trigger] it.seq()[j]).0,
                                version: (*it.seq()[j].1).version,
                            });
                        if j < idx {
                            assert(before.contains(x));
                        }
                    }
                }
            }
        }
        proof {
            assert forall|k: int| 0 <= k < out@.len() implies m.contains_key(
                (#[trigger] out@[k]).id,
            ) && out@[k].version == m[out@[k].id].version by {
                assert(out@.contains(out@[k]));
            }
            assert forall|id: u64| #[trigger] m.contains_key(id) implies exists|k: int|
                0 <= k < out@.len() && out@[k].id == id by {
                assert(full.contains((&id, &m[id])));
                let j = choose|j: int| 0 <= j < full.len() && full[j] == (&id, &m[id]);
                let x = ConnectedNode { id: *full[j].0, version: (*full[j].1).version };
                assert(out@.contains(x));
            }
            vstd::std_specs::hash::axiom_spec_hash_map_len(&self.nodes);
        }
        out
    }

    /// The node a command goes to: a random connected node, or `None` when
    /// no node is connected (the caller waits and asks again).
    pub fn dispatch_target(&self) -> (r: Option<u64>)
        ensures
            r is None <==> self@.len() == 0,
            r matches Some(id) ==> self@.contains_key(id),
    {
        let nodes = self.connected_nodes();
        if nodes.len() == 0 {
            return None;
        }
        let i = random_index(nodes.len());
        let id = nodes[i].id;
        Some(id)
    }
}

/// What one attempt to dispatch a command observed.
#[derive(Debug, Clone, Copy, PartialEq, Eq, Structural)]
pub enum DispatchEvent {
    /// No node is connected.
    NoNode,
    /// Node `id` was picked; its connection was already gone from the table.
    Vanished { id: u64 },
    /// Node `id` was picked; `closed` tells whether its connection is closed.
    Picked { id: u64, closed: bool },
    /// Sending the command to node `id` failed.
    SendFailed { id: u64 },
    /// Node `id`'s reply channel closed before a reply.
    ReplyClosed { id: u64 },
    /// The reply came.
    Replied,
}

/// What the dispatcher does next.
#[derive(Debug, Clone, Copy, PartialEq, Eq, Structural)]
pub enum DispatchAction {
    /// Wait a second, then pick again.
    WaitAndRetry,
    /// Pick again at once.
    Retry,
    /// Send the command to node `id` and await its reply.
    Send { id: u64 },
    /// Unregister node `id`'s connection, then pick again.
    UnregisterAndRetry { id: u64 },
    /// Hand the reply to the caller.
    Return,
}

pub open spec fn dispatch_next(ev: DispatchEvent) -> DispatchAction {
    match ev {
        DispatchEvent::NoNode => DispatchAction::WaitAndRetry,
        DispatchEvent::Vanished { .. } => DispatchAction::Retry,
        DispatchEvent::Picked { id, closed } => if closed {
            DispatchAction::Retry
        } else {
            DispatchAction::Send { id }
        },
        DispatchEvent::SendFailed { id } => DispatchAction::UnregisterAndRetry { id },
        DispatchEvent::ReplyClosed { id } => DispatchAction::UnregisterAndRetry { id },
        DispatchEvent::Replied => DispatchAction::Return,
    }
}

/// The dispatcher's decision after `ev`: wait while no node is connected,
/// skip a closed connection, drop a connection that failed, and return once
/// a reply came.
pub fn dispatch_step(ev: DispatchEvent) -> (a: DispatchAction)
    ensures
        a == dispatch_next(ev),
{
    match ev {
        DispatchEvent::NoNode => DispatchAction::WaitAndRetry,
        DispatchEvent::Vanished { .. } => DispatchAction::Retry,
        DispatchEvent::Picked { id, closed } => if closed {
            DispatchAction::Retry
        } else {
            DispatchAction::Send { id }
        },
        DispatchEvent::SendFailed { id } => DispatchAction::UnregisterAndRetry { id },
        DispatchEvent::ReplyClosed { id } => DispatchAction::UnregisterAndRetry { id },
        DispatchEvent::Replied => DispatchAction::Return,
    }
}

/// A command goes only to an open connection, the dispatcher returns only
/// with a reply, and only a connection that failed is unregistered.
pub proof fn lemma_dispatch_sends_only_to_open(ev: DispatchEvent)
    ensures
        dispatch_next(ev) matches DispatchAction::Send { id } ==> ev == (DispatchEvent::Picked { id, closed: false }),
        dispatch_next(ev) == DispatchAction::Return <==> ev == DispatchEvent::Replied,
        dispatch_next(ev) matches DispatchAction::UnregisterAndRetry { id } ==> ev == (DispatchEvent::SendFailed { id })
            || ev == (DispatchEvent::ReplyClosed { id }),
{
}

/// The node id announced in reply to GetId, when usable: present and not zero.
pub fn accepted_node_id(reply: Option<u64>) -> (r: Option<u64>)
    ensures
        r == match reply {
            Some(id) => if id != 0 {
                Some(id)
            } else {
                None
            },
            None => None,
        },
{
    match reply {
        Some(id) => if id != 0 {
            Some(id)
        } else {
            None
        },
        None => None,
    }
}

/// How a node's version is shown: `major.minor.patch`, or `unknown`.
pub open spec fn version_text(v: Option<NodeVersion>) -> Seq<char> {
    match v {
        Some(v) => decimal(v.major as nat) + seq!['.'] + decimal(v.minor as nat) + seq!['.']
            + decimal(v.patch as nat),
        None => "unknown"@,
    }
}

pub fn version_label(v: Option<NodeVersion>) -> (r: String)
    ensures
        r@ == version_text(v),
{
    match v {
        Some(v) => {
            let a = u64_digits(v.major as u64);
            let b = u64_digits(v.minor as u64);
            let c = u64_digits(v.patch as u64);
            let dot: Vec<char> = vec!['.'];
            let s = concat_vec(&a, &dot);
            let s = concat_vec(&s, &b);
            let s = concat_vec(&s, &dot);
            let s = concat_vec(&s, &c);
            string_of(&s)
        },
        None => String::from_str("unknown"),
    }
}

/// Registering a connection and then unregistering that same connection
/// leaves no entry for the node.
pub proof fn lemma_register_then_unregister(m: Map<u64, NodeEntry>, id: u64, e: NodeEntry)
    ensures
        m.insert(id, e).contains_key(id) && m.insert(id, e)[id].conn == e.conn,
        !m.insert(id, e).remove(id).contains_key(id),
        forall|other: u64| other != id ==> (#[trigger] m.insert(id, e).remove(id).contains_key(other)
            <==> m.contains_key(other)),
{
}

/// A replaced connection that disconnects late does not remove its
/// successor: when node `id` is registered twice (tokens `issued` and
/// `issued + 1`, as `register_node` hands them out), unregistering the first
/// token removes nothing and the second connection, with its version, stays.
pub proof fn lemma_stale_unregister_keeps_successor(
    m: Map<u64, NodeEntry>,
    issued: u64,
    id: u64,
    v1: Option<NodeVersion>,
    v2: Option<NodeVersion>,
)
    requires
        tokens_below(m, issued),
        issued < u64::MAX,
    ensures
        ({
            let m2 = m.insert(id, NodeEntry { conn: issued, version: v1 }).insert(
                id,
                NodeEntry { conn: (issued + 1) as u64, version: v2 },
            );
            &&& !unregister_removes(m2, id, issued)
            &&& after_unregister(m2, id, issued) == m2
            &&& m2.contains_key(id) && m2[id].version == v2
        }),
{
}

} // verus!
