//! What holds of every traversal, proved from the model.
//!
//! Each law speaks of a `Progress` that satisfies the invariant of the
//! model. A `Traversal` that is in order has such a `Progress` as its view,
//! and the graph that it gives in the end holds the nodes, edges and records
//! of that view.

use crate::kinds::RelationshipKind;
use crate::model::{
    lemma_absorb_fetches, lemma_absorb_keeps, lemma_relate_first_grows, Progress,
};
use crate::types::{info_of, Relationship, Song, SongCore};
use vstd::prelude::*;

verus! {

/// Whether each song of `path` lists the next one.
pub open spec fn is_chain(p: Progress, path: Seq<u32>) -> bool {
    &&& path.len() > 0
    &&& forall|i: int| 0 <= i < path.len() - 1 ==> p.listed.contains((#[trigger] path[i], path[i + 1]))
}

/// Whether an edge joins `a` and `b`, in one direction or the other.
pub open spec fn adjacent(p: Progress, a: u32, b: u32) -> bool {
    p.joined(a, b) || p.joined(b, a)
}

/// Whether an edge joins each song of `path` and the next one, in one
/// direction or the other.
pub open spec fn is_walk(p: Progress, path: Seq<u32>) -> bool {
    &&& path.len() > 0
    &&& forall|i: int| 0 <= i < path.len() - 1 ==> adjacent(p, #[trigger] path[i], path[i + 1])
}

/// Whether `path` leads from the root to `n`.
pub open spec fn leads_to(p: Progress, path: Seq<u32>, n: u32) -> bool {
    path.len() > 0 && path[0] == p.root && path[path.len() - 1] == n
}

/// Whether no edge joins two songs whose degrees differ by more than one.
pub open spec fn flat(p: Progress) -> bool {
    forall|e: (u32, u32, RelationshipKind)| #[trigger]
        p.edges.contains(e) ==> p.degree(e.0) <= p.degree(e.1) + 1
}

/// Whether each of the first `n` songs is the one that the head of the queue
/// awaits when its turn comes.
pub open spec fn awaited_in_turn(p: Progress, songs: Seq<Song>, n: nat) -> bool {
    forall|i: nat|
        i < n ==> (#[trigger] p.absorb_first(songs, i)).queue.len() > 0 && songs[i as int].core.id
            == p.absorb_first(songs, i).queue[0].0
}

/// Every traversal satisfies the invariant: it holds at the start, and
/// absorbing the songs that the queue awaits, one after the other, keeps it.
pub proof fn law_invariant(root: u32, max_degree: u8, songs: Seq<Song>, n: nat)
    requires
        awaited_in_turn(Progress::start(root, max_degree), songs, n),
    ensures
        Progress::start(root, max_degree).absorb_first(songs, n).inv(),
    decreases n,
{
    let start = Progress::start(root, max_degree);
    if n == 0 {
        assert(start.fresh());
    } else {
        let m = (n - 1) as nat;
        assert forall|i: nat| i < m implies (#[trigger] start.absorb_first(songs, i)).queue.len()
            > 0 && songs[i as int].core.id == start.absorb_first(songs, i).queue[0].0 by {}
        law_invariant(root, max_degree, songs, m);
        let mid = start.absorb_first(songs, m);
        assert(mid.queue.len() > 0 && songs[m as int].core.id == mid.queue[0].0);
        lemma_absorb_keeps(mid, songs[m as int]);
    }
}

/// A chain of listings from the root to a node has at least as many hops as
/// the degree of the node.
pub proof fn lemma_chain_is_long(p: Progress, path: Seq<u32>, n: u32)
    requires
        p.inv(),
        p.nodes.contains(n),
        is_chain(p, path),
        leads_to(p, path, n),
    ensures
        p.degree(n) <= path.len() - 1,
        forall|i: int| 0 <= i < path.len() ==> p.nodes.contains(#[trigger] path[i]),
    decreases path.len(),
{
    if path.len() > 1 {
        let last = path.len() - 1;
        let shorter = path.drop_last();
        let m = path[last - 1];
        assert(p.listed.contains((path[last - 1], path[last - 1 + 1])));
        assert(p.nodes.contains(m) && p.degree(n) <= p.degree(m) + 1) by {
            reveal(Progress::listed_sound);
        }
        assert forall|i: int| 0 <= i < shorter.len() - 1 implies p.listed.contains(
            (#[trigger] shorter[i], shorter[i + 1]),
        ) by {
            assert(p.listed.contains((path[i], path[i + 1])));
        }
        lemma_chain_is_long(p, shorter, m);
        assert forall|i: int| 0 <= i < path.len() implies p.nodes.contains(#[trigger] path[i]) by {
            if i < last {
                assert(shorter[i] == path[i]);
            }
        }
    } else {
        assert(p.degree(n) == 0) by {
            reveal(Progress::nodes_sound);
        }
    }
}

/// A chain of listings leads from the root to every node, with exactly as
/// many hops as the degree of the node.
pub proof fn lemma_chain_exists(p: Progress, n: u32) -> (path: Seq<u32>)
    requires
        p.inv(),
        p.nodes.contains(n),
    ensures
        is_chain(p, path),
        leads_to(p, path, n),
        path.len() == p.degree(n) + 1,
    decreases p.degree(n),
{
    if n == p.root {
        assert(p.degree(n) == 0) by {
            reveal(Progress::nodes_sound);
        }
        seq![n]
    } else {
        assert(p.has_parent(n)) by {
            reveal(Progress::parents_sound);
        }
        let w = choose|w: u32| #[trigger]
            p.listed.contains((w, n)) && p.degree(n) == p.degree(w) + 1;
        assert(p.listed.contains((w, n)));
        assert(p.nodes.contains(w)) by {
            reveal(Progress::listed_sound);
        }
        let shorter = lemma_chain_exists(p, w);
        let path = shorter.push(n);
        assert forall|i: int| 0 <= i < path.len() - 1 implies p.listed.contains(
            (#[trigger] path[i], path[i + 1]),
        ) by {
            if i < shorter.len() - 1 {
                assert(p.listed.contains((shorter[i], shorter[i + 1])));
            }
        }
        path
    }
}

/// Distance along listings: the degree recorded for a node is the number of
/// hops of the shortest chain of listings from the root to it. This holds of
/// every traversal, whatever the provider lists.
pub proof fn law_degree_is_shortest_chain(p: Progress, n: u32)
    requires
        p.inv(),
        p.nodes.contains(n),
    ensures
        exists|path: Seq<u32>|
            #![trigger is_chain(p, path)]
            is_chain(p, path) && leads_to(p, path, n) && path.len() == p.degree(n) + 1,
        forall|path: Seq<u32>|
            #![trigger is_chain(p, path)]
            is_chain(p, path) && leads_to(p, path, n) ==> path.len() >= p.degree(n) + 1,
{
    let witness = lemma_chain_exists(p, n);
    assert(is_chain(p, witness) && leads_to(p, witness, n));
    assert forall|path: Seq<u32>|
        #![trigger is_chain(p, path)]
        is_chain(p, path) && leads_to(p, path, n) implies path.len() >= p.degree(n) + 1 by {
        lemma_chain_is_long(p, path, n);
    }
}

/// Every song of a walk from the root is a node, and where the graph is
/// flat, the walk has at least as many hops as the degree of its last song.
pub proof fn lemma_walk_is_long(p: Progress, path: Seq<u32>, n: u32)
    requires
        p.inv(),
        p.nodes.contains(n),
        flat(p),
        is_walk(p, path),
        leads_to(p, path, n),
    ensures
        p.degree(n) <= path.len() - 1,
    decreases path.len(),
{
    if path.len() > 1 {
        let last = path.len() - 1;
        let shorter = path.drop_last();
        let m = path[last - 1];
        assert(adjacent(p, path[last - 1], path[last - 1 + 1]));
        assert(p.nodes.contains(m) && p.degree(n) <= p.degree(m) + 1) by {
            reveal(Progress::edges_mirrored);
            reveal(Progress::edges_sound);
            if p.joined(m, n) {
                let k = choose|k: RelationshipKind| p.edges.contains((m, n, k));
                assert(p.edges.contains((m, n, k)));
                assert(p.edges.contains((n, m, k.inverse_spec())));
            } else {
                let k = choose|k: RelationshipKind| p.edges.contains((n, m, k));
                assert(p.edges.contains((n, m, k)));
            }
        }
        assert forall|i: int| 0 <= i < shorter.len() - 1 implies adjacent(
            p,
            #[trigger] shorter[i],
            shorter[i + 1],
        ) by {
            assert(adjacent(p, path[i], path[i + 1]));
        }
        lemma_walk_is_long(p, shorter, m);
    } else {
        assert(p.degree(n) == 0) by {
            reveal(Progress::nodes_sound);
        }
    }
}

/// Distance in the graph: where no edge joins two songs whose degrees differ
/// by more than one, the degree recorded for a node is the number of hops of
/// the shortest walk from the root to it, edges taken in either direction.
///
/// An edge between songs two or more degrees apart arises where a song lists
/// one that is nearer to the root but was not listed on the way to it; the
/// walk over that edge is then shorter than the degree.
pub proof fn law_degree_is_distance(p: Progress, n: u32)
    requires
        p.inv(),
        p.nodes.contains(n),
        flat(p),
    ensures
        exists|path: Seq<u32>|
            #![trigger is_walk(p, path)]
            is_walk(p, path) && leads_to(p, path, n) && path.len() == p.degree(n) + 1,
        forall|path: Seq<u32>|
            #![trigger is_walk(p, path)]
            is_walk(p, path) && leads_to(p, path, n) ==> path.len() >= p.degree(n) + 1,
{
    let witness = lemma_chain_exists(p, n);
    assert(is_walk(p, witness)) by {
        assert forall|i: int| 0 <= i < witness.len() - 1 implies adjacent(
            p,
            #[trigger] witness[i],
            witness[i + 1],
        ) by {
            reveal(Progress::listed_sound);
            assert(p.listed.contains((witness[i], witness[i + 1])));
        }
    }
    assert(is_walk(p, witness) && leads_to(p, witness, n));
    assert forall|path: Seq<u32>|
        #![trigger is_walk(p, path)]
        is_walk(p, path) && leads_to(p, path, n) implies path.len() >= p.degree(n) + 1 by {
        lemma_walk_is_long(p, path, n);
    }
}

/// The recorded degree is never less than the distance in the graph: a walk
/// with as many hops as the degree leads from the root to every node.
pub proof fn law_degree_bounds_distance(p: Progress, n: u32)
    requires
        p.inv(),
        p.nodes.contains(n),
    ensures
        exists|path: Seq<u32>|
            #![trigger is_walk(p, path)]
            is_walk(p, path) && leads_to(p, path, n) && path.len() == p.degree(n) + 1,
{
    let witness = lemma_chain_exists(p, n);
    assert(is_walk(p, witness)) by {
        assert forall|i: int| 0 <= i < witness.len() - 1 implies adjacent(
            p,
            #[trigger] witness[i],
            witness[i + 1],
        ) by {
            reveal(Progress::listed_sound);
            assert(p.listed.contains((witness[i], witness[i + 1])));
        }
    }
    assert(is_walk(p, witness) && leads_to(p, witness, n));
}

/// The boundary: no node is further from the root than the largest degree,
/// the root is zero hops from itself, and every node has a record.
pub proof fn law_max_degree(p: Progress, n: u32)
    requires
        p.inv(),
        p.nodes.contains(n),
    ensures
        p.info.contains_key(n),
        p.degree(n) <= p.max_degree,
        p.nodes.contains(p.root),
        p.degree(p.root) == 0,
{
    reveal(Progress::nodes_sound);
}

/// The boundary: a song at the largest degree is not expanded. Every
/// listing starts at a song below the largest degree.
pub proof fn law_leaves_list_nothing(p: Progress, s: u32, t: u32)
    requires
        p.inv(),
        p.listed.contains((s, t)),
    ensures
        p.degree(s) < p.max_degree,
        p.degree(t) <= p.degree(s) + 1,
{
    reveal(Progress::listed_sound);
}

/// The boundary, as a step: absorbing a song at the largest degree makes it
/// a node if it is none, takes it from the queue and changes nothing else.
pub proof fn law_leaf_step(p: Progress, song: Song)
    requires
        p.queue.len() > 0,
        p.queue[0].1 >= p.max_degree,
    ensures
        p.absorb(song).edges == p.edges,
        p.absorb(song).listed == p.listed,
        p.absorb(song).queue == p.queue.drop_first(),
        p.absorb(song).nodes == p.nodes.insert(song.core.id),
{
    assert(p.absorb(song).nodes =~= p.nodes.insert(song.core.id));
}

/// Translations stay out: no edge of the graph is of a translation kind.
pub proof fn law_no_translation_edge(p: Progress, a: u32, b: u32, k: RelationshipKind)
    requires
        p.inv(),
        p.edges.contains((a, b, k)),
    ensures
        !k.is_translation_spec(),
        p.nodes.contains(a),
        p.nodes.contains(b),
{
    reveal(Progress::edges_sound);
}

/// Translations stay out, as a step: a relationship of a translation kind
/// changes nothing; its targets become no nodes and are not queued.
pub proof fn law_translation_step(p: Progress, source: u32, degree: u8, relationship: Relationship)
    requires
        relationship.kind.is_translation_spec(),
    ensures
        p.relate(source, degree, relationship) == p,
{
}

/// With every edge the graph holds the edge back, of the inverse kind.
pub proof fn law_inverse_edge(p: Progress, a: u32, b: u32, k: RelationshipKind)
    requires
        p.inv(),
        p.edges.contains((a, b, k)),
    ensures
        p.edges.contains((b, a, k.inverse_spec())),
{
    reveal(Progress::edges_mirrored);
}

/// No song is fetched twice: the songs fetched so far are all different,
/// none of them awaits another fetch, and no song is awaited twice.
pub proof fn law_fetched_once(p: Progress)
    requires
        p.inv(),
    ensures
        p.fetched.no_duplicates(),
        forall|i: int| 0 <= i < p.queue.len() ==> !p.fetched.contains((#[trigger] p.queue[i]).0),
        forall|i: int, j: int|
            0 <= i < j < p.queue.len() ==> (#[trigger] p.queue[i]).0 != (#[trigger] p.queue[j]).0,
{
    reveal(Progress::fetches_sound);
    assert forall|i: int| 0 <= i < p.queue.len() implies !p.fetched.contains(
        (#[trigger] p.queue[i]).0,
    ) by {
        if p.fetched.contains(p.queue[i].0) {
            let j = choose|j: int| 0 <= j < p.fetched.len() && p.fetched[j] == p.queue[i].0;
            assert(p.queue[i].0 != p.fetched[j]);
        }
    }
}

/// One fetch per node: once nothing is awaited, the songs that were fetched
/// are the nodes of the graph, each fetched once.
pub proof fn law_one_fetch_per_node(p: Progress)
    requires
        p.inv(),
        p.queue.len() == 0,
    ensures
        p.fetched.to_set() == p.nodes,
        p.nodes.finite(),
        p.nodes.len() == p.fetched.len(),
{
    reveal(Progress::fetches_sound);
    assert forall|n: u32| p.fetched.to_set().contains(n) == p.nodes.contains(n) by {
        if p.fetched.contains(n) {
            let j = choose|j: int| 0 <= j < p.fetched.len() && p.fetched[j] == n;
            assert(p.nodes.contains(p.fetched[j]));
        }
        if p.nodes.contains(n) {
            assert(!p.queued(n));
        }
    }
    assert(p.fetched.to_set() =~= p.nodes);
    vstd::seq_lib::seq_to_set_is_finite(p.fetched);
    p.fetched.unique_seq_to_set();
}

/// Every absorbed song counts as one fetch.
pub proof fn law_fetch_count(p: Progress, songs: Seq<Song>, n: nat)
    ensures
        p.absorb_first(songs, n).fetched.len() == p.fetched.len() + n,
    decreases n,
{
    if n > 0 {
        law_fetch_count(p, songs, (n - 1) as nat);
        let mid = p.absorb_first(songs, (n - 1) as nat);
        lemma_absorb_fetches(mid, songs[n - 1]);
    }
}

/// Once recorded, never changed: absorbing a song keeps every node, every
/// edge and every record that was there before.
pub proof fn law_records_are_kept(p: Progress, song: Song, n: u32)
    requires
        p.inv(),
        p.queue.len() > 0,
        song.core.id == p.queue[0].0,
        p.nodes.contains(n),
    ensures
        p.absorb(song).nodes.contains(n),
        p.absorb(song).info[n] == p.info[n],
        p.edges.subset_of(p.absorb(song).edges),
{
    lemma_absorb_keeps(p, song);
}

/// A song that is listed and is no node yet becomes a node one hop further
/// out than the song that lists it, with the record of the listing, and is
/// queued last.
pub proof fn law_discovery_record(
    p: Progress,
    source: u32,
    degree: u8,
    kind: RelationshipKind,
    target: SongCore,
)
    requires
        !p.nodes.contains(target.id),
        degree < u8::MAX,
    ensures
        p.link(source, degree, kind, target).nodes.contains(target.id),
        p.link(source, degree, kind, target).info[target.id] == info_of(
            target,
            (degree + 1) as u8,
        ),
        p.link(source, degree, kind, target).queue == p.queue.push(
            (target.id, (degree + 1) as u8),
        ),
{
}

/// A song that is listed and is a node already keeps its record and is not
/// queued again; only the edge, its inverse and the listing are added.
pub proof fn law_known_target(
    p: Progress,
    source: u32,
    degree: u8,
    kind: RelationshipKind,
    target: SongCore,
)
    requires
        p.nodes.contains(target.id),
    ensures
        p.link(source, degree, kind, target).nodes == p.nodes,
        p.link(source, degree, kind, target).info == p.info,
        p.link(source, degree, kind, target).queue == p.queue,
        p.link(source, degree, kind, target).edges == p.edges.insert(
            (source, target.id, kind),
        ).insert((target.id, source, kind.inverse_spec())),
{
}

/// Expansion is complete: once a song below the largest degree is
/// absorbed, it is a node, and each song that it lists under a kind that is
/// no translation is a node, joined to it by the edge of that kind and by the
/// inverse edge.
pub proof fn law_expansion_is_complete(p: Progress, song: Song, i: int, j: int)
    requires
        p.queue.len() > 0,
        p.queue[0].1 < p.max_degree,
        0 <= i < song.relationships@.len(),
        0 <= j < song.relationships@[i].targets@.len(),
        !song.relationships@[i].kind.is_translation_spec(),
    ensures
        p.absorb(song).nodes.contains(song.core.id),
        p.absorb(song).linked(
            song.core.id,
            song.relationships@[i].kind,
            song.relationships@[i].targets@[j].id,
        ),
{
    let d = p.queue[0].1;
    let seen = (Progress {
        queue: p.queue.drop_first(),
        fetched: p.fetched.push(p.queue[0].0),
        ..p
    }).visit(song.core, d);
    assert(seen.nodes.contains(song.core.id));
    lemma_relate_first_grows(
        seen,
        song.core.id,
        d,
        song.relationships@,
        song.relationships@.len(),
    );
    let q = p.absorb(song);
    assert(q.grows_from(seen));
    assert(q.linked(
        song.core.id,
        song.relationships@[i].kind,
        song.relationships@[i].targets@[j].id,
    ));
}

} // verus!
