//! A doubly linked list of troves ordered by nominal collateral ratio (NICR),
//! kept by position hints that the trove manager supplies.
use crate::arch::{signs_state_transition, state_transition_request, InputToSign, TransactionToSign};
use crate::btc::{OutPoint, Transaction, UtxoSet, spec_txid};
use crate::types::{Pubkey, TableKey};
use std::collections::HashMap;
use vstd::prelude::*;

verus! {

broadcast use vstd::std_specs::hash::group_hash_axioms;

/// A trove's place in the list: its neighbours and its NICR.
#[derive(Clone, Copy, Debug)]
pub struct Node {
    pub exists: bool,
    pub next_id: Option<u32>,
    pub prev_id: Option<u32>,
    pub nicr: u128,
}

/// The node map after `prev` is pointed forward to `id`, if `prev` is a node.
pub open spec fn link_prev(nodes: Map<u32, Node>, prev: Option<u32>, id: u32) -> Map<u32, Node> {
    match prev {
        Some(p) => if nodes.contains_key(p) {
            nodes.insert(p, Node { next_id: Some(id), ..nodes[p] })
        } else {
            nodes
        },
        None => nodes,
    }
}

/// The node map after `next` is pointed back to `id`, if `next` is a node.
pub open spec fn link_next(nodes: Map<u32, Node>, next: Option<u32>, id: u32) -> Map<u32, Node> {
    match next {
        Some(q) => if nodes.contains_key(q) {
            nodes.insert(q, Node { prev_id: Some(id), ..nodes[q] })
        } else {
            nodes
        },
        None => nodes,
    }
}

/// The node map after inserting `id` between `prev` and `next`.
pub open spec fn inserted_nodes(
    nodes: Map<u32, Node>,
    id: u32,
    nicr: u128,
    prev: Option<u32>,
    next: Option<u32>,
) -> Map<u32, Node> {
    link_next(link_prev(nodes, prev, id), next, id).insert(
        id,
        Node { exists: true, next_id: next, prev_id: prev, nicr },
    )
}

/// The node map after unlinking the node of `id` (which must be present).
pub open spec fn removed_nodes(nodes: Map<u32, Node>, id: u32) -> Map<u32, Node> {
    let node = nodes[id];
    let without = nodes.remove(id);
    let relinked_prev = match node.prev_id {
        Some(p) => if without.contains_key(p) {
            without.insert(p, Node { next_id: node.next_id, ..without[p] })
        } else {
            without
        },
        None => without,
    };
    match node.next_id {
        Some(q) => if relinked_prev.contains_key(q) {
            relinked_prev.insert(q, Node { prev_id: node.prev_id, ..relinked_prev[q] })
        } else {
            relinked_prev
        },
        None => relinked_prev,
    }
}

/// The element before position `i` of `order`, if there is one.
pub open spec fn before(order: Seq<u32>, i: int) -> Option<u32> {
    if i == 0 { None } else { Some(order[i - 1]) }
}

/// The element after position `i` of `order`, if there is one.
pub open spec fn after(order: Seq<u32>, i: int) -> Option<u32> {
    if i + 1 >= order.len() { None } else { Some(order[i + 1]) }
}

/// `head`, `tail`, `size` and `nodes` describe the list `order`: the nodes
/// are exactly its elements, each linked to its neighbours in `order`, and
/// the NICRs do not decrease from head to tail.
pub open spec fn list_of(
    head: Option<u32>,
    tail: Option<u32>,
    size: u32,
    nodes: Map<u32, Node>,
    order: Seq<u32>,
) -> bool {
    &&& order.no_duplicates()
    &&& forall|id: u32| nodes.contains_key(id) <==> order.contains(id)
    &&& size == order.len()
    &&& head == if order.len() == 0 { None::<u32> } else { Some(order[0]) }
    &&& tail == if order.len() == 0 { None::<u32> } else { Some(order.last()) }
    &&& forall|i: int|
        0 <= i < order.len() ==> {
            &&& (#[trigger] nodes[order[i]]).prev_id == before(order, i)
            &&& nodes[order[i]].next_id == after(order, i)
            &&& nodes[order[i]].exists
        }
    &&& forall|i: int, j: int|
        0 <= i < j < order.len() ==> (#[trigger] nodes[order[i]]).nicr <= (#[trigger] nodes[order[j]]).nicr
}

/// The hints place a new `id` with `nicr` at position `k` of `order`: `prev`
/// and `next` are the elements around that position and `nicr` lies between
/// their NICRs.
pub open spec fn hint_fits(
    nodes: Map<u32, Node>,
    order: Seq<u32>,
    k: int,
    id: u32,
    nicr: u128,
    prev: Option<u32>,
    next: Option<u32>,
) -> bool {
    &&& 0 <= k <= order.len()
    &&& !order.contains(id)
    &&& prev == if k == 0 { None::<u32> } else { Some(order[k - 1]) }
    &&& next == if k == order.len() { None::<u32> } else { Some(order[k]) }
    &&& k > 0 ==> nodes[order[k - 1]].nicr <= nicr
    &&& k < order.len() ==> nicr <= nodes[order[k]].nicr
}

/// Inserting at a position whose hints fit keeps the list sorted and linked:
/// the new list is the old one with `id` at position `k`.
pub proof fn lemma_insert_keeps_list(
    head: Option<u32>,
    tail: Option<u32>,
    size: u32,
    nodes: Map<u32, Node>,
    order: Seq<u32>,
    k: int,
    id: u32,
    nicr: u128,
    prev: Option<u32>,
    next: Option<u32>,
)
    requires
        list_of(head, tail, size, nodes, order),
        hint_fits(nodes, order, k, id, nicr, prev, next),
        size < u32::MAX,
    ensures
        list_of(
            if prev is None { Some(id) } else { head },
            if next is None { Some(id) } else { tail },
            (size + 1) as u32,
            inserted_nodes(nodes, id, nicr, prev, next),
            order.insert(k, id),
        ),
{
    let n2 = inserted_nodes(nodes, id, nicr, prev, next);
    let o2 = order.insert(k, id);
    assert forall|i: int| 0 <= i < o2.len() implies #[trigger] o2[i] == if i < k {
        order[i]
    } else if i == k {
        id
    } else {
        order[i - 1]
    } by {}
    assert(o2.no_duplicates()) by {
        assert forall|a: int, b: int| 0 <= a < o2.len() && 0 <= b < o2.len() && a != b implies o2[a] != o2[b] by {
            if a != k && b != k {
                let a2 = if a < k { a } else { a - 1 };
                let b2 = if b < k { b } else { b - 1 };
                assert(order[a2] != order[b2]);
            } else if a == k {
                let b2 = if b < k { b } else { b - 1 };
                assert(order.contains(order[b2]));
            } else {
                let a2 = if a < k { a } else { a - 1 };
                assert(order.contains(order[a2]));
            }
        }
    }
    // Every node of the new map is an element of the new order, and back.
    assert forall|x: u32| n2.contains_key(x) <==> o2.contains(x) by {
        if o2.contains(x) {
            let i = choose|i: int| 0 <= i < o2.len() && o2[i] == x;
            if i != k {
                let i2 = if i < k { i } else { i - 1 };
                assert(order[i2] == x);
                assert(order.contains(x));
                assert(nodes.contains_key(x));
                assert(link_prev(nodes, prev, id).contains_key(x));
                assert(link_next(link_prev(nodes, prev, id), next, id).contains_key(x));
            }
        }
        if x == id {
            assert(o2[k] == id);
        }
        if n2.contains_key(x) && x != id {
            assert(nodes.contains_key(x));
            assert(order.contains(x));
            let i = choose|i: int| 0 <= i < order.len() && order[i] == x;
            let i2 = if i < k { i } else { i + 1 };
            assert(o2[i2] == x);
        }
    }
    // The nodes of the old order keep their NICR; only the neighbours of `id`
    // change their links.
    assert forall|i: int| 0 <= i < order.len() implies {
        &&& (#[trigger] n2[order[i]]).nicr == nodes[order[i]].nicr
        &&& n2[order[i]].exists
        &&& n2[order[i]].prev_id == if i == k { Some(id) } else { nodes[order[i]].prev_id }
        &&& n2[order[i]].next_id == if i == k - 1 { Some(id) } else { nodes[order[i]].next_id }
    } by {
        assert(order.contains(order[i]));
        assert(order[i] != id);
        assert(nodes.contains_key(order[i]));
        assert(nodes[order[i]] == nodes[order[i]]);
        if k > 0 && i != k - 1 {
            assert(order[i] != order[k - 1]);
        }
        if k < order.len() && i != k {
            assert(order[i] != order[k]);
        }
    }
    assert forall|i: int| 0 <= i < o2.len() implies {
        &&& (#[trigger] n2[o2[i]]).prev_id == before(o2, i)
        &&& n2[o2[i]].next_id == after(o2, i)
        &&& n2[o2[i]].exists
    } by {
        if i < k {
            assert(o2[i] == order[i]);
            assert(nodes[order[i]].prev_id == before(order, i));
            assert(nodes[order[i]].next_id == after(order, i));
            if i > 0 {
                assert(o2[i - 1] == order[i - 1]);
            }
            if i + 1 < k {
                assert(o2[i + 1] == order[i + 1]);
            } else {
                assert(o2[i + 1] == id);
            }
        } else if i > k {
            assert(o2[i] == order[i - 1]);
            assert(nodes[order[i - 1]].prev_id == before(order, i - 1));
            assert(nodes[order[i - 1]].next_id == after(order, i - 1));
            if i - 1 > k {
                assert(o2[i - 1] == order[i - 2]);
            } else {
                assert(o2[i - 1] == id);
            }
            if i + 1 < o2.len() {
                assert(o2[i + 1] == order[i]);
            }
        } else {
            assert(o2[i] == id);
            if k > 0 {
                assert(o2[k - 1] == order[k - 1]);
            }
            if k + 1 < o2.len() {
                assert(o2[k + 1] == order[k]);
            }
        }
    }
    assert forall|a: int, b: int| 0 <= a < b < o2.len() implies (#[trigger] n2[o2[a]]).nicr <= (
    #[trigger] n2[o2[b]]).nicr by {
        if a != k && b != k {
            let a2 = if a < k { a } else { a - 1 };
            let b2 = if b < k { b } else { b - 1 };
            assert(o2[a] == order[a2]);
            assert(o2[b] == order[b2]);
            assert(nodes[order[a2]].nicr <= nodes[order[b2]].nicr);
        } else if a == k {
            assert(o2[b] == order[b - 1]);
            assert(nodes[order[k]].nicr <= nodes[order[b - 1]].nicr || b - 1 == k);
        } else {
            assert(o2[a] == order[a]);
            assert(nodes[order[a]].nicr <= nodes[order[k - 1]].nicr || a == k - 1);
        }
    }
    if order.len() > 0 {
        if k == 0 {
            assert(o2[0] == id);
        } else {
            assert(o2[0] == order[0]);
        }
        if k == order.len() {
            assert(o2.last() == id);
        } else {
            assert(o2.last() == order.last());
        }
    }
}

/// Unlinking the element at position `k` keeps the list sorted and linked:
/// the new list is the old one without that element.
pub proof fn lemma_remove_keeps_list(
    head: Option<u32>,
    tail: Option<u32>,
    size: u32,
    nodes: Map<u32, Node>,
    order: Seq<u32>,
    k: int,
)
    requires
        list_of(head, tail, size, nodes, order),
        0 <= k < order.len(),
    ensures
        list_of(
            if nodes[order[k]].prev_id is None { nodes[order[k]].next_id } else { head },
            if nodes[order[k]].next_id is None { nodes[order[k]].prev_id } else { tail },
            (size - 1) as u32,
            removed_nodes(nodes, order[k]),
            order.remove(k),
        ),
{
    let id = order[k];
    let n2 = removed_nodes(nodes, id);
    let o2 = order.remove(k);
    assert(nodes[order[k]].prev_id == before(order, k));
    assert(nodes[order[k]].next_id == after(order, k));
    assert forall|i: int| 0 <= i < o2.len() implies #[trigger] o2[i] == if i < k {
        order[i]
    } else {
        order[i + 1]
    } by {}
    assert(o2.no_duplicates()) by {
        assert forall|a: int, b: int| 0 <= a < o2.len() && 0 <= b < o2.len() && a != b implies o2[a] != o2[b] by {
            let a2 = if a < k { a } else { a + 1 };
            let b2 = if b < k { b } else { b + 1 };
            assert(order[a2] != order[b2]);
        }
    }
    assert forall|i: int| 0 <= i < order.len() && i != k implies order[i] != id by {}
    assert forall|x: u32| n2.contains_key(x) <==> o2.contains(x) by {
        if o2.contains(x) {
            let i = choose|i: int| 0 <= i < o2.len() && o2[i] == x;
            let i2 = if i < k { i } else { i + 1 };
            assert(order[i2] == x);
            assert(order.contains(x));
        }
        if n2.contains_key(x) {
            assert(x != id);
            assert(nodes.contains_key(x));
            assert(order.contains(x));
            let i = choose|i: int| 0 <= i < order.len() && order[i] == x;
            assert(i != k);
            let i2 = if i < k { i } else { i - 1 };
            assert(o2[i2] == x);
        }
    }
    assert forall|i: int| 0 <= i < order.len() && i != k implies {
        &&& (#[trigger] n2[order[i]]).nicr == nodes[order[i]].nicr
        &&& n2[order[i]].exists
        &&& n2[order[i]].prev_id == if i == k + 1 { before(order, k) } else { nodes[order[i]].prev_id }
        &&& n2[order[i]].next_id == if i == k - 1 { after(order, k) } else { nodes[order[i]].next_id }
    } by {
        assert(order.contains(order[i]));
        if k > 0 && i != k - 1 {
            assert(order[i] != order[k - 1]);
        }
        if k + 1 < order.len() && i != k + 1 {
            assert(order[i] != order[k + 1]);
        }
        if k > 0 && k + 1 < order.len() {
            assert(order[k - 1] != order[k + 1]);
        }
    }
    assert forall|i: int| 0 <= i < o2.len() implies {
        &&& (#[trigger] n2[o2[i]]).prev_id == before(o2, i)
        &&& n2[o2[i]].next_id == after(o2, i)
        &&& n2[o2[i]].exists
    } by {
        if i < k {
            assert(o2[i] == order[i]);
            assert(nodes[order[i]].prev_id == before(order, i));
            assert(nodes[order[i]].next_id == after(order, i));
            if i > 0 {
                assert(o2[i - 1] == order[i - 1]);
            }
            if i + 1 < o2.len() {
                if i + 1 < k {
                    assert(o2[i + 1] == order[i + 1]);
                } else {
                    assert(o2[i + 1] == order[i + 2]);
                }
            }
        } else {
            assert(o2[i] == order[i + 1]);
            assert(nodes[order[i + 1]].prev_id == before(order, i + 1));
            assert(nodes[order[i + 1]].next_id == after(order, i + 1));
            if i > 0 {
                if i - 1 < k {
                    assert(o2[i - 1] == order[i - 1]);
                } else {
                    assert(o2[i - 1] == order[i]);
                }
            }
            if i + 1 < o2.len() {
                assert(o2[i + 1] == order[i + 2]);
            }
        }
    }
    assert forall|a: int, b: int| 0 <= a < b < o2.len() implies (#[trigger] n2[o2[a]]).nicr <= (
    #[trigger] n2[o2[b]]).nicr by {
        let a2 = if a < k { a } else { a + 1 };
        let b2 = if b < k { b } else { b + 1 };
        assert(o2[a] == order[a2]);
        assert(o2[b] == order[b2]);
        assert(nodes[order[a2]].nicr <= nodes[order[b2]].nicr);
    }
    if o2.len() > 0 {
        if k == 0 {
            assert(o2[0] == order[1]);
        } else {
            assert(o2[0] == order[0]);
        }
        if k == order.len() - 1 {
            assert(o2.last() == order[k - 1]);
        } else {
            assert(o2.last() == order.last());
        }
    }
}

/// Troves ordered by NICR, with the trove manager allowed to change the list.
pub struct SortedTroves {
    head: Option<u32>,
    tail: Option<u32>,
    size: u32,
    nodes: HashMap<u32, Node>,
    trove_manager: Option<Pubkey>,
    utxos: UtxoSet,
}

impl SortedTroves {
    pub closed spec fn spec_head(&self) -> Option<u32> {
        self.head
    }

    pub closed spec fn spec_tail(&self) -> Option<u32> {
        self.tail
    }

    pub closed spec fn spec_size(&self) -> u32 {
        self.size
    }

    pub closed spec fn spec_nodes(&self) -> Map<u32, Node> {
        self.nodes@
    }

    pub closed spec fn spec_trove_manager(&self) -> Option<Seq<u8>> {
        match self.trove_manager {
            Some(t) => Some(t@),
            None => None,
        }
    }

    /// The set of unspent outputs is well formed.
    pub closed spec fn utxos_ok(&self) -> bool {
        self.utxos.well_formed()
    }

    /// The unspent outputs the list keeps.
    pub closed spec fn utxo_view(&self) -> Map<(Seq<u8>, u32), (u64, Seq<u8>)> {
        self.utxos.view()
    }

    /// The list holds the troves of `order`, linked and sorted.
    pub open spec fn holds(&self, order: Seq<u32>) -> bool {
        list_of(self.spec_head(), self.spec_tail(), self.spec_size(), self.spec_nodes(), order)
    }

    /// An empty list with no trove manager yet.
    pub fn new() -> (r: Self)
        ensures
            r.holds(Seq::empty()),
            r.spec_trove_manager() is None,
            r.utxos_ok(),
            r.utxo_view() == Map::<(Seq<u8>, u32), (u64, Seq<u8>)>::empty(),
    {
        let r = Self { head: None, tail: None, size: 0, nodes: HashMap::new(), trove_manager: None, utxos: UtxoSet::new() };
        assert(r.spec_nodes() =~= Map::<u32, Node>::empty());
        r
    }

    /// Sets the trove manager, once.
    pub fn set_addresses(&mut self, trove_manager: Pubkey)
        requires
            old(self).spec_trove_manager() is None,
        ensures
            final(self).utxo_view() == old(self).utxo_view(),
            final(self).utxos_ok() == old(self).utxos_ok(),
            final(self).spec_trove_manager() == Some(trove_manager@),
            final(self).spec_head() == old(self).spec_head(),
            final(self).spec_tail() == old(self).spec_tail(),
            final(self).spec_size() == old(self).spec_size(),
            final(self).spec_nodes() == old(self).spec_nodes(),
    {
        self.trove_manager = Some(trove_manager);
    }

    /// Whether `caller` is the trove manager.
    pub fn is_trove_manager(&self, caller: &Pubkey) -> (r: bool)
        ensures
            r == (self.spec_trove_manager() == Some(caller@)),
    {
        match &self.trove_manager {
            Some(tm) => tm.same(caller),
            None => false,
        }
    }

    /// Links `id` with `nicr` between the hinted neighbours `prev_id` and
    /// `next_id`. A missing `prev_id` makes it the head, a missing `next_id`
    /// the tail; a hinted neighbour that is not in the list is left alone.
    pub fn insert(
        &mut self,
        caller: &Pubkey,
        id: u32,
        nicr: u128,
        prev_id: Option<u32>,
        next_id: Option<u32>,
        state_tx: Transaction,
    ) -> (r: TransactionToSign)
        requires
            old(self).spec_trove_manager() == Some(caller@),
            old(self).spec_size() < u32::MAX,
        ensures
            signs_state_transition(r, state_tx, *caller),
            final(self).utxo_view() == old(self).utxo_view(),
            final(self).utxos_ok() == old(self).utxos_ok(),
            final(self).spec_nodes() == inserted_nodes(old(self).spec_nodes(), id, nicr, prev_id, next_id),
            final(self).spec_head() == if prev_id is None { Some(id) } else { old(self).spec_head() },
            final(self).spec_tail() == if next_id is None { Some(id) } else { old(self).spec_tail() },
            final(self).spec_size() == old(self).spec_size() + 1,
            final(self).spec_trove_manager() == old(self).spec_trove_manager(),
            forall|order: Seq<u32>, k: int|
                old(self).holds(order) && hint_fits(old(self).spec_nodes(), order, k, id, nicr, prev_id, next_id)
                    ==> #[trigger] final(self).holds(order.insert(k, id)),
    {
        let node = Node { exists: true, next_id, prev_id, nicr };

        match prev_id {
            Some(p) => {
                match self.nodes.get(&p) {
                    Some(prev_node) => {
                        let mut linked = *prev_node;
                        linked.next_id = Some(id);
                        self.nodes.insert(p, linked);
                    },
                    None => {},
                }
            },
            None => {
                self.head = Some(id);
            },
        }

        match next_id {
            Some(q) => {
                match self.nodes.get(&q) {
                    Some(next_node) => {
                        let mut linked = *next_node;
                        linked.prev_id = Some(id);
                        self.nodes.insert(q, linked);
                    },
                    None => {},
                }
            },
            None => {
                self.tail = Some(id);
            },
        }

        self.nodes.insert(id, node);
        self.size = self.size + 1;
        proof {
            assert(self.nodes@ =~= inserted_nodes(old(self).spec_nodes(), id, nicr, prev_id, next_id));
            assert forall|order: Seq<u32>, k: int|
                old(self).holds(order) && hint_fits(old(self).spec_nodes(), order, k, id, nicr, prev_id, next_id)
                    implies #[trigger] self.holds(order.insert(k, id)) by {
                lemma_insert_keeps_list(
                    old(self).head,
                    old(self).tail,
                    old(self).size,
                    old(self).nodes@,
                    order,
                    k,
                    id,
                    nicr,
                    prev_id,
                    next_id,
                );
            }
        }
        state_transition_request(&state_tx, *caller)
    }

    /// Unlinks `id`, joining its neighbours; does nothing for an absent `id`.
    pub fn remove(&mut self, caller: &Pubkey, id: u32, state_tx: Transaction) -> (r: Option<TransactionToSign>)
        requires
            old(self).spec_trove_manager() == Some(caller@),
            old(self).spec_nodes().contains_key(id) ==> old(self).spec_size() > 0,
        ensures
            r is Some <==> old(self).spec_nodes().contains_key(id),
            r matches Some(t) ==> signs_state_transition(t, state_tx, *caller),
            final(self).utxo_view() == old(self).utxo_view(),
            final(self).utxos_ok() == old(self).utxos_ok(),
            old(self).spec_nodes().contains_key(id) ==> {
                let node = old(self).spec_nodes()[id];
                &&& final(self).spec_nodes() == removed_nodes(old(self).spec_nodes(), id)
                &&& final(self).spec_head() == if node.prev_id is None { node.next_id } else { old(self).spec_head() }
                &&& final(self).spec_tail() == if node.next_id is None { node.prev_id } else { old(self).spec_tail() }
                &&& final(self).spec_size() == old(self).spec_size() - 1
            },
            !old(self).spec_nodes().contains_key(id) ==> {
                &&& final(self).spec_nodes() == old(self).spec_nodes()
                &&& final(self).spec_head() == old(self).spec_head()
                &&& final(self).spec_tail() == old(self).spec_tail()
                &&& final(self).spec_size() == old(self).spec_size()
            },
            final(self).spec_trove_manager() == old(self).spec_trove_manager(),
            forall|order: Seq<u32>, k: int|
                old(self).holds(order) && 0 <= k < order.len() && order[k] == id ==> #[trigger] final(self).holds(order.remove(k)),
    {
        match self.nodes.remove(&id) {
            Some(node) => {
                match node.prev_id {
                    Some(p) => {
                        match self.nodes.get(&p) {
                            Some(prev_node) => {
                                let mut linked = *prev_node;
                                linked.next_id = node.next_id;
                                self.nodes.insert(p, linked);
                            },
                            None => {},
                        }
                    },
                    None => {
                        self.head = node.next_id;
                    },
                }

                match node.next_id {
                    Some(q) => {
                        match self.nodes.get(&q) {
                            Some(next_node) => {
                                let mut linked = *next_node;
                                linked.prev_id = node.prev_id;
                                self.nodes.insert(q, linked);
                            },
                            None => {},
                        }
                    },
                    None => {
                        self.tail = node.prev_id;
                    },
                }

                self.size = self.size - 1;
                proof {
                    assert(self.nodes@ =~= removed_nodes(old(self).spec_nodes(), id));
                    assert forall|order: Seq<u32>, k: int|
                        old(self).holds(order) && 0 <= k < order.len() && order[k] == id
                            implies #[trigger] self.holds(order.remove(k)) by {
                        lemma_remove_keeps_list(
                            old(self).head,
                            old(self).tail,
                            old(self).size,
                            old(self).nodes@,
                            order,
                            k,
                        );
                    }
                }
                Some(state_transition_request(&state_tx, *caller))
            },
            None => {
                proof {
                    assert(self.nodes@ =~= old(self).nodes@);
                    assert forall|order: Seq<u32>, k: int|
                        old(self).holds(order) && 0 <= k < order.len() && order[k] == id
                            implies #[trigger] self.holds(order.remove(k)) by {
                        assert(order.contains(id));
                    }
                }
                None
            },
        }
    }

    /// Moves `id` to a new NICR and position: removes it, then inserts it
    /// between the new hints. Gives the signing requests of the removal (for
    /// the runtime's state transition `remove_tx`) and of the insertion (for
    /// `insert_tx`).
    pub fn re_insert(
        &mut self,
        caller: &Pubkey,
        id: u32,
        new_nicr: u128,
        new_prev_id: Option<u32>,
        new_next_id: Option<u32>,
        remove_tx: Transaction,
        insert_tx: Transaction,
    ) -> (r: (Option<TransactionToSign>, TransactionToSign))
        requires
            old(self).spec_trove_manager() == Some(caller@),
            old(self).spec_nodes().contains_key(id) ==> old(self).spec_size() > 0,
            !old(self).spec_nodes().contains_key(id) ==> old(self).spec_size() < u32::MAX,
        ensures
            r.0 is Some <==> old(self).spec_nodes().contains_key(id),
            r.0 matches Some(t) ==> signs_state_transition(t, remove_tx, *caller),
            signs_state_transition(r.1, insert_tx, *caller),
            final(self).utxo_view() == old(self).utxo_view(),
            final(self).utxos_ok() == old(self).utxos_ok(),
            final(self).spec_trove_manager() == old(self).spec_trove_manager(),
            forall|order: Seq<u32>, k: int, k2: int|
                old(self).holds(order) && 0 <= k < order.len() && order[k] == id && hint_fits(
                    removed_nodes(old(self).spec_nodes(), id),
                    order.remove(k),
                    k2,
                    id,
                    new_nicr,
                    new_prev_id,
                    new_next_id,
                ) ==> #[trigger] final(self).holds(order.remove(k).insert(k2, id)),
    {
        let ghost mid_nodes = removed_nodes(old(self).spec_nodes(), id);
        let removed = self.remove(caller, id, remove_tx);
        proof {
            if !old(self).spec_nodes().contains_key(id) {
                assert(self.spec_size() < u32::MAX);
            } else {
                assert(self.spec_size() < u32::MAX);
            }
        }
        let ghost mid = *self;
        let inserted = self.insert(caller, id, new_nicr, new_prev_id, new_next_id, insert_tx);
        proof {
            assert forall|order: Seq<u32>, k: int, k2: int|
                old(self).holds(order) && 0 <= k < order.len() && order[k] == id && hint_fits(
                    removed_nodes(old(self).spec_nodes(), id),
                    order.remove(k),
                    k2,
                    id,
                    new_nicr,
                    new_prev_id,
                    new_next_id,
                ) implies #[trigger] self.holds(order.remove(k).insert(k2, id)) by {
                assert(order.contains(id));
                assert(mid.holds(order.remove(k)));
            }
        }
        (removed, inserted)
    }

    /// Whether `nicr` fits between the hinted neighbours: each hint that is
    /// given names a node, `prev_id`'s NICR is at most `nicr` and `next_id`'s
    /// at least `nicr`.
    pub fn valid_insert_position(&self, nicr: u128, prev_id: Option<u32>, next_id: Option<u32>) -> (r: bool)
        ensures
            r == {
                &&& prev_id matches Some(p) ==> self.spec_nodes().contains_key(p)
                    && self.spec_nodes()[p].nicr <= nicr
                &&& next_id matches Some(q) ==> self.spec_nodes().contains_key(q)
                    && self.spec_nodes()[q].nicr >= nicr
            },
    {
        if let Some(p) = prev_id {
            match self.nodes.get(&p) {
                Some(prev_node) => {
                    if prev_node.nicr > nicr {
                        return false;
                    }
                },
                None => {
                    return false;
                },
            }
        }
        if let Some(q) = next_id {
            match self.nodes.get(&q) {
                Some(next_node) => {
                    if next_node.nicr < nicr {
                        return false;
                    }
                },
                None => {
                    return false;
                },
            }
        }
        true
    }

    /// The number of troves in the list.
    pub fn size(&self) -> (r: u32)
        ensures
            r == self.spec_size(),
    {
        self.size
    }

    /// The first trove (lowest NICR), if any.
    pub fn head(&self) -> (r: Option<u32>)
        ensures
            r == self.spec_head(),
    {
        self.head
    }

    /// The last trove (highest NICR), if any.
    pub fn tail(&self) -> (r: Option<u32>)
        ensures
            r == self.spec_tail(),
    {
        self.tail
    }

    /// The node of `id`, if it is in the list.
    pub fn node(&self, id: u32) -> (r: Option<Node>)
        ensures
            r == if self.spec_nodes().contains_key(id) { Some(self.spec_nodes()[id]) } else { None::<Node> },
    {
        match self.nodes.get(&id) {
            Some(n) => Some(*n),
            None => None,
        }
    }

    /// Records output `vout` of `tx` as unspent.
    pub fn add_utxo(&mut self, tx: &Transaction, vout: u32, value: u64, script_pubkey: Vec<u8>)
        requires
            old(self).utxos_ok(),
        ensures
            final(self).utxos_ok(),
            final(self).utxo_view() == old(self).utxo_view().insert((spec_txid(*tx), vout), (value, script_pubkey@)),
            final(self).spec_head() == old(self).spec_head(),
            final(self).spec_tail() == old(self).spec_tail(),
            final(self).spec_size() == old(self).spec_size(),
            final(self).spec_nodes() == old(self).spec_nodes(),
            final(self).spec_trove_manager() == old(self).spec_trove_manager(),
    {
        self.utxos.add_utxo(tx, vout, value, script_pubkey);
    }

    /// Forgets `outpoint`, spent or not.
    pub fn spend_utxo(&mut self, outpoint: OutPoint)
        requires
            old(self).utxos_ok(),
        ensures
            final(self).utxos_ok(),
            final(self).utxo_view() == old(self).utxo_view().remove(outpoint.key_view()),
            final(self).spec_head() == old(self).spec_head(),
            final(self).spec_tail() == old(self).spec_tail(),
            final(self).spec_size() == old(self).spec_size(),
            final(self).spec_nodes() == old(self).spec_nodes(),
            final(self).spec_trove_manager() == old(self).spec_trove_manager(),
    {
        self.utxos.spend_utxo(outpoint);
    }

    /// The request to sign `tx_bytes` with the given inputs.
    pub fn create_transaction_to_sign(&self, tx_bytes: Vec<u8>, inputs_to_sign: Vec<InputToSign>) -> (r: TransactionToSign)
        ensures
            r.tx_bytes@ == tx_bytes@,
            r.inputs_to_sign@ == inputs_to_sign@,
    {
        TransactionToSign { tx_bytes, inputs_to_sign }
    }
}

} // verus!
