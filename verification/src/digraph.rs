//! The relationship graph's storage: petgraph's `DiGraphMap`, keyed by song id.
//! The weight of an ordered pair of songs is the set of the kinds of the edges
//! from the first to the second, one bit per kind.
//!
//! Verus does not read petgraph. What this module says about it is taken on
//! trust from petgraph's source and is marked as such item by item; everything
//! above these items is proved.

use crate::kinds::{lemma_index_round_trip, mask_kinds, KindSet, RelationshipKind};
use petgraph::graphmap::DiGraphMap;
use vstd::prelude::*;

verus! {

/// petgraph's `GraphMap`, opaque to the verifier.
#[verifier::external_type_specification]
#[verifier::external_body]
#[verifier::reject_recursive_types(N)]
#[verifier::reject_recursive_types(E)]
#[verifier::reject_recursive_types(Ty)]
#[verifier::reject_recursive_types(S)]
pub struct ExGraphMap<N, E, Ty, S: core::hash::BuildHasher>(
    petgraph::graphmap::GraphMap<N, E, Ty, S>,
);

/// petgraph's marker for directed graphs, opaque to the verifier.
#[verifier::external_type_specification]
#[verifier::external_body]
pub struct ExDirected(petgraph::Directed);

/// The node ids that a graph map holds.
pub uninterp spec fn graph_nodes(g: DiGraphMap<u32, u16>) -> Set<u32>;

/// The weight that a graph map holds for each ordered pair of nodes that has
/// an edge.
pub uninterp spec fn graph_edges(g: DiGraphMap<u32, u16>) -> Map<(u32, u32), u16>;

/// Trusted: `GraphMap::new` returns a graph without nodes and without edges.
#[verifier::external_body]
pub(crate) fn graph_new() -> (graph: DiGraphMap<u32, u16>)
    ensures
        graph_nodes(graph) == Set::<u32>::empty(),
        graph_edges(graph).dom() == Set::<(u32, u32)>::empty(),
{
    DiGraphMap::new()
}

/// Trusted: `GraphMap::contains_node` tells whether `n` is a node.
#[verifier::external_body]
pub(crate) fn graph_contains_node(g: &DiGraphMap<u32, u16>, n: u32) -> (b: bool)
    ensures
        b == graph_nodes(*g).contains(n),
{
    g.contains_node(n)
}

/// Trusted: `GraphMap::add_node` makes `n` a node, keeps every other node and
/// touches no edge.
#[verifier::external_body]
pub(crate) fn graph_add_node(g: &mut DiGraphMap<u32, u16>, n: u32)
    ensures
        graph_nodes(*final(g)) == graph_nodes(*old(g)).insert(n),
        graph_edges(*final(g)) == graph_edges(*old(g)),
{
    g.add_node(n);
}

/// Trusted: `GraphMap::edge_weight` returns the weight of the edge from `a`
/// to `b`, or nothing where there is no such edge.
#[verifier::external_body]
pub(crate) fn graph_edge_weight(g: &DiGraphMap<u32, u16>, a: u32, b: u32) -> (w: Option<u16>)
    ensures
        w == (if graph_edges(*g).contains_key((a, b)) {
            Some(graph_edges(*g)[(a, b)])
        } else {
            None
        }),
{
    g.edge_weight(a, b).copied()
}

/// Trusted: `GraphMap::add_edge` sets the weight of the edge from `a` to `b`
/// and returns the weight it replaced. Where the edge is new, `a` and `b`
/// become nodes; where it was there, the nodes stay as they are.
#[verifier::external_body]
pub(crate) fn graph_add_edge(g: &mut DiGraphMap<u32, u16>, a: u32, b: u32, w: u16) -> (prev: Option<u16>)
    ensures
        graph_edges(*final(g)) == graph_edges(*old(g)).insert((a, b), w),
        graph_nodes(*final(g)) == (if graph_edges(*old(g)).contains_key((a, b)) {
            graph_nodes(*old(g))
        } else {
            graph_nodes(*old(g)).insert(a).insert(b)
        }),
        prev == (if graph_edges(*old(g)).contains_key((a, b)) {
            Some(graph_edges(*old(g))[(a, b)])
        } else {
            None
        }),
{
    g.add_edge(a, b, w)
}

/// Trusted: `GraphMap::nodes` yields every node once.
#[verifier::external_body]
pub(crate) fn graph_node_list(g: &DiGraphMap<u32, u16>) -> (list: Vec<u32>)
    ensures
        list@.no_duplicates(),
        forall|n: u32| graph_nodes(*g).contains(n) <==> list@.contains(n),
{
    g.nodes().collect()
}

/// Trusted: `GraphMap::all_edges` yields every ordered pair that has an edge
/// once, with the weight that the graph holds for it.
#[verifier::external_body]
pub(crate) fn graph_edge_list(g: &DiGraphMap<u32, u16>) -> (list: Vec<(u32, u32, u16)>)
    ensures
        forall|i: int|
            0 <= i < list@.len() ==> graph_edges(*g).contains_key(
                (#[trigger] list@[i].0, list@[i].1),
            ) && graph_edges(*g)[(list@[i].0, list@[i].1)] == list@[i].2,
        forall|p: (u32, u32)|
            graph_edges(*g).contains_key(p) ==> exists|i: int|
                0 <= i < list@.len() && (#[trigger] list@[i].0, list@[i].1) == p,
        forall|i: int|
            0 <= i < list@.len() ==> (forall|j: int|
                i < j < list@.len() ==> (#[trigger] list@[i].0, list@[i].1) != (
                    #[trigger] list@[j].0,
                    list@[j].1,
                )),
{
    g.all_edges().map(|(a, b, w)| (a, b, *w)).collect()
}

/// The directed graph of related songs. A node is a song id; an edge is a
/// triple of source, target and relationship kind, held at most once.
pub struct Graph {
    inner: DiGraphMap<u32, u16>,
}

impl Graph {
    /// The ids of the songs in the graph.
    pub closed spec fn nodes(&self) -> Set<u32> {
        graph_nodes(self.inner)
    }

    /// The edges of the graph, each as source, target and kind.
    pub closed spec fn edges(&self) -> Set<(u32, u32, RelationshipKind)> {
        Set::new(
            |e: (u32, u32, RelationshipKind)|
                graph_edges(self.inner).contains_key((e.0, e.1)) && mask_kinds(
                    graph_edges(self.inner)[(e.0, e.1)],
                ).contains(e.2),
        )
    }

    /// Every pair that the store holds a weight for joins two nodes.
    pub closed spec fn wf(&self) -> bool {
        forall|p: (u32, u32)| #[trigger]
            graph_edges(self.inner).contains_key(p) ==> graph_nodes(self.inner).contains(p.0)
                && graph_nodes(self.inner).contains(p.1)
    }

    /// In a well-formed graph every edge joins two nodes.
    pub proof fn lemma_edges_join_nodes(&self)
        requires
            self.wf(),
        ensures
            forall|e: (u32, u32, RelationshipKind)| #[trigger]
                self.edges().contains(e) ==> self.nodes().contains(e.0) && self.nodes().contains(
                    e.1,
                ),
    {
        assert forall|e: (u32, u32, RelationshipKind)| #[trigger]
            self.edges().contains(e) implies self.nodes().contains(e.0) && self.nodes().contains(
            e.1,
        ) by {
            assert(graph_edges(self.inner).contains_key((e.0, e.1)));
        }
    }

    pub fn new() -> (g: Graph)
        ensures
            g.wf(),
            g.nodes() == Set::<u32>::empty(),
            g.edges() == Set::<(u32, u32, RelationshipKind)>::empty(),
    {
        let g = Graph { inner: graph_new() };
        proof {
            assert(g.edges() =~= Set::<(u32, u32, RelationshipKind)>::empty());
        }
        g
    }

    pub fn contains_node(&self, n: u32) -> (b: bool)
        ensures
            b == self.nodes().contains(n),
    {
        graph_contains_node(&self.inner, n)
    }

    /// Makes `n` a node, if it is none yet.
    pub fn add_node(&mut self, n: u32)
        requires
            old(self).wf(),
        ensures
            final(self).wf(),
            final(self).nodes() == old(self).nodes().insert(n),
            final(self).edges() == old(self).edges(),
    {
        graph_add_node(&mut self.inner, n);
    }

    pub fn contains_edge(&self, a: u32, b: u32, kind: RelationshipKind) -> (r: bool)
        ensures
            r == self.edges().contains((a, b, kind)),
    {
        match graph_edge_weight(&self.inner, a, b) {
            Some(bits) => KindSet::from_bits(bits).contains(kind),
            None => false,
        }
    }

    /// Adds the edge from `a` to `b` of the given kind, if it is absent, and
    /// makes `a` and `b` nodes, if they are none yet.
    pub fn add_edge(&mut self, a: u32, b: u32, kind: RelationshipKind)
        requires
            old(self).wf(),
        ensures
            final(self).wf(),
            final(self).nodes() == old(self).nodes().insert(a).insert(b),
            final(self).edges() == old(self).edges().insert((a, b, kind)),
    {
        let held = match graph_edge_weight(&self.inner, a, b) {
            Some(bits) => KindSet::from_bits(bits),
            None => KindSet::empty(),
        };
        let next = held.insert(kind);
        let ghost before = graph_edges(self.inner);
        graph_add_edge(&mut self.inner, a, b, next.bits);
        proof {
            let after = graph_edges(self.inner);
            assert(after == before.insert((a, b), next.bits));
            assert(final(self).nodes() =~= old(self).nodes().insert(a).insert(b)) by {
                if before.contains_key((a, b)) {
                    assert(old(self).nodes().contains(a) && old(self).nodes().contains(b));
                }
            }
            assert forall|p: (u32, u32)| #[trigger] after.contains_key(p) implies graph_nodes(
                self.inner,
            ).contains(p.0) && graph_nodes(self.inner).contains(p.1) by {
                if p != (a, b) {
                    assert(before.contains_key(p));
                }
            }
            assert forall|e: (u32, u32, RelationshipKind)|
                final(self).edges().contains(e) == old(self).edges().insert((a, b, kind)).contains(
                    e,
                ) by {
                if (e.0, e.1) == (a, b) {
                    assert(after[(a, b)] == next.bits);
                    assert(next@ == held@.insert(kind));
                    if before.contains_key((a, b)) {
                        assert(held.bits == before[(a, b)]);
                    } else {
                        assert(!held@.contains(e.2));
                    }
                } else {
                    assert(after.contains_key((e.0, e.1)) == before.contains_key((e.0, e.1)));
                }
            }
            assert(final(self).edges() =~= old(self).edges().insert((a, b, kind)));
        }
    }

    /// The ids of the songs in the graph, each once.
    pub fn node_ids(&self) -> (list: Vec<u32>)
        ensures
            list@.no_duplicates(),
            forall|n: u32| self.nodes().contains(n) <==> list@.contains(n),
    {
        graph_node_list(&self.inner)
    }

    /// The edges of the graph as a list of source, target and kind.
    pub fn edge_list(&self) -> (list: Vec<(u32, u32, RelationshipKind)>)
        ensures
            list@.no_duplicates(),
            forall|e: (u32, u32, RelationshipKind)| self.edges().contains(e) <==> list@.contains(e),
    {
        let pairs = graph_edge_list(&self.inner);
        proof {
            assert(distinct_pairs(pairs@));
        }
        let mut list: Vec<(u32, u32, RelationshipKind)> = Vec::new();
        let mut i: usize = 0;
        while i < pairs.len()
            invariant
                i <= pairs@.len(),
                distinct_pairs(pairs@),
                list@.no_duplicates(),
                forall|e: (u32, u32, RelationshipKind)|
                    #![trigger list@.contains(e)]
                    list@.contains(e) <==> listed_among(pairs@, i as int, e),
            decreases pairs@.len() - i,
        {
            let (a, b, bits) = pairs[i];
            let held = KindSet::from_bits(bits);
            let ghost done = list@;
            proof {
                assert forall|e: (u32, u32, RelationshipKind)| (e.0, e.1) == (a, b) implies !(
                #[trigger] done.contains(e)) by {
                    if listed_among(pairs@, i as int, e) {
                        let x = choose|x: int| 0 <= x < i && holds(#[trigger] pairs@[x], e);
                        assert((pairs@[x].0, pairs@[x].1) != (pairs@[i as int].0, pairs@[i as int].1));
                    }
                }
            }
            let mut idx: u8 = 0;
            while idx < 13
                invariant
                    idx <= 13,
                    held.bits == bits,
                    list@.no_duplicates(),
                    forall|e: (u32, u32, RelationshipKind)|
                        (e.0, e.1) == (a, b) ==> !(#[trigger] done.contains(e)),
                    forall|e: (u32, u32, RelationshipKind)|
                        #![trigger list@.contains(e)]
                        list@.contains(e) <==> (done.contains(e) || ((e.0, e.1) == (a, b)
                            && mask_kinds(bits).contains(e.2) && e.2.index_spec() < idx)),
                decreases 13 - idx,
            {
                let ghost mid = list@;
                let kind = RelationshipKind::at(idx).unwrap();
                if held.contains(kind) {
                    proof {
                        assert(!done.contains((a, b, kind)));
                        assert(!mid.contains((a, b, kind)));
                    }
                    list.push((a, b, kind));
                    proof {
                        assert forall|x: int, y: int|
                            0 <= x < list@.len() && 0 <= y < list@.len() && x != y implies list@[x]
                            != list@[y] by {
                            if x < mid.len() && y < mid.len() {
                                assert(mid[x] != mid[y]);
                            } else if x < mid.len() {
                                assert(mid.contains(mid[x]));
                            } else {
                                assert(mid.contains(mid[y]));
                            }
                        }
                    }
                }
                proof {
                    assert forall|e: (u32, u32, RelationshipKind)|
                        #![trigger list@.contains(e)]
                        list@.contains(e) <==> (done.contains(e) || ((e.0, e.1) == (a, b)
                            && mask_kinds(bits).contains(e.2) && e.2.index_spec() < idx + 1)) by {
                        lemma_index_round_trip(e.2);
                        assert(mid.contains(e) <==> (done.contains(e) || ((e.0, e.1) == (a, b)
                            && mask_kinds(bits).contains(e.2) && e.2.index_spec() < idx)));
                        if held@.contains(kind) {
                            vstd::seq_lib::lemma_seq_contains_after_push(mid, (a, b, kind), e);
                        }
                        assert((e.2.index_spec() == idx) <==> e.2 == kind);
                    }
                }
                idx = idx + 1;
            }
            proof {
                assert forall|e: (u32, u32, RelationshipKind)|
                    #![trigger list@.contains(e)]
                    list@.contains(e) <==> listed_among(pairs@, i + 1, e) by {
                    lemma_index_round_trip(e.2);
                    assert(done.contains(e) <==> listed_among(pairs@, i as int, e));
                    if listed_among(pairs@, i as int, e) {
                        let x = choose|x: int| 0 <= x < i && holds(#[trigger] pairs@[x], e);
                        assert(holds(pairs@[x], e));
                    }
                    if (e.0, e.1) == (a, b) && mask_kinds(bits).contains(e.2) {
                        assert(holds(pairs@[i as int], e));
                    }
                    if listed_among(pairs@, i + 1, e) {
                        let x = choose|x: int| 0 <= x < i + 1 && holds(#[trigger] pairs@[x], e);
                        if x < i {
                            assert(holds(pairs@[x], e));
                        }
                    }
                }
            }
            i = i + 1;
        }
        proof {
            assert forall|e: (u32, u32, RelationshipKind)|
                self.edges().contains(e) <==> list@.contains(e) by {
                if self.edges().contains(e) {
                    let x = choose|x: int|
                        0 <= x < pairs@.len() && (#[trigger] pairs@[x].0, pairs@[x].1) == (
                            e.0,
                            e.1,
                        );
                    assert(holds(pairs@[x], e));
                }
                if list@.contains(e) {
                    let x = choose|x: int| 0 <= x < pairs@.len() && holds(#[trigger] pairs@[x], e);
                    assert(graph_edges(self.inner).contains_key((pairs@[x].0, pairs@[x].1)));
                }
            }
        }
        list
    }
}

/// Whether no two of the weighted pairs join the same two songs in the same
/// direction.
pub open spec fn distinct_pairs(pairs: Seq<(u32, u32, u16)>) -> bool {
    forall|i: int|
        0 <= i < pairs.len() ==> (forall|j: int|
            i < j < pairs.len() ==> (#[trigger] pairs[i].0, pairs[i].1) != (
                #[trigger] pairs[j].0,
                pairs[j].1,
            ))
}

/// Whether the weighted pair `w` holds the edge `e`: it joins the same two
/// songs, and the bit of the kind of `e` is set in it.
pub open spec fn holds(w: (u32, u32, u16), e: (u32, u32, RelationshipKind)) -> bool {
    w.0 == e.0 && w.1 == e.1 && mask_kinds(w.2).contains(e.2)
}

/// Whether one of the first `n` weighted pairs holds the edge `e`.
pub open spec fn listed_among(
    pairs: Seq<(u32, u32, u16)>,
    n: int,
    e: (u32, u32, RelationshipKind),
) -> bool {
    exists|x: int| 0 <= x < n && holds(#[trigger] pairs[x], e)
}

} // verus!
