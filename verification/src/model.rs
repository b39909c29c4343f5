//! The traversal as mathematics: what has been found so far, what each step
//! does to it, and what holds of it after any number of steps.

use crate::kinds::{lemma_inverse_involution, lemma_inverse_keeps_translation, RelationshipKind};
use crate::types::{info_of, Relationship, Song, SongCore, SongInfo};
use vstd::prelude::*;

verus! {

/// What a traversal has found so far.
pub struct Progress {
    /// The song that the traversal started from.
    pub root: u32,
    /// The largest number of hops from the root that is explored.
    pub max_degree: u8,
    /// The ids of the songs found.
    pub nodes: Set<u32>,
    /// The relationships found, each as source, target and kind.
    pub edges: Set<(u32, u32, RelationshipKind)>,
    /// The record of each song found.
    pub info: Map<u32, SongInfo>,
    /// The pairs `(s, t)` such that the provider listed `t` under a
    /// relationship of `s` that is no translation, when `s` was expanded.
    pub listed: Set<(u32, u32)>,
    /// The songs that still await their fetch, each with its number of hops
    /// from the root, oldest first.
    pub queue: Seq<(u32, u8)>,
    /// The songs that were fetched and absorbed, oldest first.
    pub fetched: Seq<u32>,
}

impl Progress {
    /// Where a traversal starts: nothing found, the root awaited.
    pub open spec fn start(root: u32, max_degree: u8) -> Progress {
        Progress {
            root,
            max_degree,
            nodes: Set::empty(),
            edges: Set::empty(),
            info: Map::empty(),
            listed: Set::empty(),
            queue: seq![(root, 0u8)],
            fetched: Seq::empty(),
        }
    }

    /// The recorded number of hops from the root to `n`.
    pub open spec fn degree(self, n: u32) -> int {
        self.info[n].degree as int
    }

    /// Makes the song a node with the given degree, unless it is one already.
    pub open spec fn visit(self, core: SongCore, degree: u8) -> Progress {
        if self.nodes.contains(core.id) {
            self
        } else {
            Progress {
                nodes: self.nodes.insert(core.id),
                info: self.info.insert(core.id, info_of(core, degree)),
                ..self
            }
        }
    }

    /// Makes the song a node with the given degree and puts it in the queue,
    /// unless it is a node already.
    pub open spec fn discover(self, core: SongCore, degree: u8) -> Progress {
        if self.nodes.contains(core.id) {
            self
        } else {
            Progress {
                nodes: self.nodes.insert(core.id),
                info: self.info.insert(core.id, info_of(core, degree)),
                queue: self.queue.push((core.id, degree)),
                ..self
            }
        }
    }

    /// Records that `source`, which is `degree` hops from the root, lists
    /// `target` under `kind`: the target is discovered one hop further, and
    /// the edge and its inverse are added.
    pub open spec fn link(
        self,
        source: u32,
        degree: u8,
        kind: RelationshipKind,
        target: SongCore,
    ) -> Progress {
        let found = self.discover(target, (degree + 1) as u8);
        Progress {
            edges: found.edges.insert((source, target.id, kind)).insert(
                (target.id, source, kind.inverse_spec()),
            ),
            listed: found.listed.insert((source, target.id)),
            ..found
        }
    }

    /// Links the first `n` of `targets` to `source`, in order.
    pub open spec fn link_first(
        self,
        source: u32,
        degree: u8,
        kind: RelationshipKind,
        targets: Seq<SongCore>,
        n: nat,
    ) -> Progress
        decreases n,
    {
        if n == 0 {
            self
        } else {
            self.link_first(source, degree, kind, targets, (n - 1) as nat).link(
                source,
                degree,
                kind,
                targets[n - 1],
            )
        }
    }

    /// Takes in one relationship of `source`: nothing for a translation kind,
    /// else a link to each target.
    pub open spec fn relate(self, source: u32, degree: u8, relationship: Relationship) -> Progress {
        if relationship.kind.is_translation_spec() {
            self
        } else {
            self.link_first(
                source,
                degree,
                relationship.kind,
                relationship.targets@,
                relationship.targets@.len(),
            )
        }
    }

    /// Takes in the first `n` of the relationships of `source`, in order.
    pub open spec fn relate_first(
        self,
        source: u32,
        degree: u8,
        relationships: Seq<Relationship>,
        n: nat,
    ) -> Progress
        decreases n,
    {
        if n == 0 {
            self
        } else {
            self.relate_first(source, degree, relationships, (n - 1) as nat).relate(
                source,
                degree,
                relationships[n - 1],
            )
        }
    }

    /// Takes in a fetched song that is `degree` hops from the root: it
    /// becomes a node if it is none, and below the largest degree its
    /// relationships are taken in.
    pub open spec fn expand(self, song: Song, degree: u8) -> Progress {
        let seen = self.visit(song.core, degree);
        if degree < self.max_degree {
            seen.relate_first(
                song.core.id,
                degree,
                song.relationships@,
                song.relationships@.len(),
            )
        } else {
            seen
        }
    }

    /// Takes the oldest entry from the queue and takes in the song that was
    /// fetched for it.
    pub open spec fn absorb(self, song: Song) -> Progress {
        Progress {
            queue: self.queue.drop_first(),
            fetched: self.fetched.push(self.queue[0].0),
            ..self
        }.expand(song, self.queue[0].1)
    }

    /// Absorbs the first `n` of `songs`, in order.
    pub open spec fn absorb_first(self, songs: Seq<Song>, n: nat) -> Progress
        decreases n,
    {
        if n == 0 {
            self
        } else {
            self.absorb_first(songs, (n - 1) as nat).absorb(songs[n - 1])
        }
    }

    /// Whether some edge leads from `a` to `b`.
    pub open spec fn joined(self, a: u32, b: u32) -> bool {
        exists|k: RelationshipKind| self.edges.contains((a, b, k))
    }

    /// Whether some song that lists `n` is exactly one hop nearer to the
    /// root than `n`.
    pub open spec fn has_parent(self, n: u32) -> bool {
        exists|p: u32| #[trigger] self.listed.contains((p, n)) && self.degree(n) == self.degree(p) + 1
    }

    /// Nothing has been fetched yet.
    pub open spec fn fresh(self) -> bool {
        &&& self.nodes =~= Set::empty()
        &&& self.edges =~= Set::empty()
        &&& self.info =~= Map::empty()
        &&& self.listed =~= Set::empty()
        &&& self.queue =~= seq![(self.root, 0u8)]
        &&& self.fetched =~= Seq::empty()
    }

    /// Every node has a record, no record is beyond the largest degree, and
    /// the root is a node zero hops from itself.
    #[verifier::opaque]
    pub open spec fn nodes_sound(self) -> bool {
        &&& self.nodes.contains(self.root)
        &&& self.info.dom() =~= self.nodes
        &&& self.degree(self.root) == 0
        &&& forall|n: u32| #[trigger] self.nodes.contains(n) ==> self.degree(n) <= self.max_degree
    }

    /// Every edge joins two nodes and is of no translation kind.
    #[verifier::opaque]
    pub open spec fn edges_sound(self) -> bool {
        forall|e: (u32, u32, RelationshipKind)| #[trigger]
            self.edges.contains(e) ==> self.nodes.contains(e.0) && self.nodes.contains(e.1)
                && !e.2.is_translation_spec()
    }

    /// With every edge the graph holds the edge back, of the inverse kind.
    #[verifier::opaque]
    pub open spec fn edges_mirrored(self) -> bool {
        forall|a: u32, b: u32, k: RelationshipKind| #[trigger]
            self.edges.contains((a, b, k)) ==> self.edges.contains((b, a, k.inverse_spec()))
    }

    /// Every listing starts at a node below the largest degree, leads to a
    /// node at most one hop further from the root, and is an edge.
    #[verifier::opaque]
    pub open spec fn listed_sound(self) -> bool {
        forall|l: (u32, u32)| #[trigger]
            self.listed.contains(l) ==> {
                &&& self.nodes.contains(l.0)
                &&& self.nodes.contains(l.1)
                &&& self.degree(l.1) <= self.degree(l.0) + 1
                &&& self.degree(l.0) < self.max_degree
                &&& self.joined(l.0, l.1)
            }
    }

    /// Every node but the root was listed by a node one hop nearer to the
    /// root.
    #[verifier::opaque]
    pub open spec fn parents_sound(self) -> bool {
        forall|n: u32| #[trigger] self.nodes.contains(n) && n != self.root ==> self.has_parent(n)
    }

    /// Every awaited song is a node, with the degree that the queue holds
    /// for it.
    #[verifier::opaque]
    pub open spec fn queue_sound(self) -> bool {
        forall|i: int|
            0 <= i < self.queue.len() ==> self.nodes.contains((#[trigger] self.queue[i]).0)
                && self.degree(self.queue[i].0) == self.queue[i].1
    }

    /// Whether the song `n` awaits its fetch.
    pub open spec fn queued(self, n: u32) -> bool {
        exists|i: int| 0 <= i < self.queue.len() && (#[trigger] self.queue[i]).0 == n
    }

    /// No song was fetched twice, every song that was fetched is a node, none
    /// that was fetched is awaited, none is awaited twice, and every node was
    /// fetched or awaits its fetch.
    #[verifier::opaque]
    pub open spec fn fetches_sound(self) -> bool {
        &&& self.fetched.no_duplicates()
        &&& forall|j: int|
            0 <= j < self.fetched.len() ==> self.nodes.contains(#[trigger] self.fetched[j])
        &&& forall|i: int, j: int|
            0 <= i < self.queue.len() && 0 <= j < self.fetched.len() ==> (
            #[trigger] self.queue[i]).0 != #[trigger] self.fetched[j]
        &&& forall|i: int, j: int|
            0 <= i < j < self.queue.len() ==> (#[trigger] self.queue[i]).0 != (
            #[trigger] self.queue[j]).0
        &&& forall|n: u32| #[trigger]
            self.nodes.contains(n) ==> self.fetched.contains(n) || self.queued(n)
    }

    /// What holds once the root has been fetched.
    pub open spec fn grown(self) -> bool {
        &&& self.nodes_sound()
        &&& self.edges_sound()
        &&& self.edges_mirrored()
        &&& self.listed_sound()
        &&& self.parents_sound()
        &&& self.queue_sound()
        &&& self.fetches_sound()
    }

    /// While songs of degree `d` are expanded, no song found or awaited is
    /// more than one hop further, and the queue is in the order of the
    /// degrees.
    #[verifier::opaque]
    pub open spec fn level(self, d: int) -> bool {
        &&& forall|i: int|
            0 <= i < self.queue.len() ==> d <= (#[trigger] self.queue[i]).1 <= d + 1
        &&& forall|i: int, j: int|
            0 <= i <= j < self.queue.len() ==> (#[trigger] self.queue[i]).1 <= (
            #[trigger] self.queue[j]).1
        &&& forall|n: u32| #[trigger] self.nodes.contains(n) ==> self.degree(n) <= d + 1
    }

    /// What holds of a traversal at every moment between two fetches.
    pub open spec fn inv(self) -> bool {
        ||| self.fresh()
        ||| (self.grown() && (self.queue.len() > 0 ==> self.level(self.queue[0].1 as int)))
    }

    /// What holds while the song `source`, which is `d` hops from the root
    /// and below the largest degree, is being expanded.
    pub open spec fn expanding(self, source: u32, d: u8) -> bool {
        &&& self.grown()
        &&& self.level(d as int)
        &&& self.nodes.contains(source)
        &&& self.degree(source) == d
        &&& d < self.max_degree
    }

    /// The same traversal, further on: same root, same largest degree,
    /// nothing found so far is lost, and no record has changed.
    pub open spec fn extends(self, earlier: Progress) -> bool {
        &&& self.root == earlier.root
        &&& self.max_degree == earlier.max_degree
        &&& earlier.nodes.subset_of(self.nodes)
        &&& earlier.edges.subset_of(self.edges)
        &&& earlier.listed.subset_of(self.listed)
        &&& forall|n: u32| #[trigger] earlier.nodes.contains(n) ==> self.info[n] == earlier.info[n]
    }
}

/// A link keeps what holds during an expansion.
pub proof fn lemma_link_keeps(
    p: Progress,
    source: u32,
    d: u8,
    kind: RelationshipKind,
    target: SongCore,
)
    requires
        p.expanding(source, d),
        !kind.is_translation_spec(),
    ensures
        p.link(source, d, kind, target).expanding(source, d),
        p.link(source, d, kind, target).extends(p),
        p.queue.is_prefix_of(p.link(source, d, kind, target).queue),
        p.link(source, d, kind, target).fetched == p.fetched,
{
    let t = target.id;
    let q = p.link(source, d, kind, target);
    let back = (t, source, kind.inverse_spec());
    let forth = (source, t, kind);
    lemma_inverse_involution(kind);
    lemma_inverse_keeps_translation(kind);
    assert(q.nodes =~= p.nodes.insert(t));
    assert(q.edges =~= p.edges.insert(forth).insert(back));
    assert(q.listed =~= p.listed.insert((source, t)));
    assert forall|n: u32| #[trigger] p.nodes.contains(n) implies q.info[n] == p.info[n] by {}
    assert(q.extends(p));
    assert(q.degree(source) == d);
    assert(forall|n: u32| #[trigger] p.nodes.contains(n) ==> p.degree(n) <= d + 1) by {
        reveal(Progress::level);
    }
    assert(q.degree(t) <= d + 1);
    assert(!p.nodes.contains(t) ==> q.queue == p.queue.push((t, (d + 1) as u8)) && q.degree(t) == d
        + 1);
    assert(p.nodes.contains(t) ==> q.queue == p.queue);
    assert(q.nodes_sound()) by {
        reveal(Progress::nodes_sound);
    }
    assert(q.edges_sound()) by {
        reveal(Progress::edges_sound);
        assert forall|e: (u32, u32, RelationshipKind)| #[trigger] q.edges.contains(e) implies q.nodes.contains(
            e.0,
        ) && q.nodes.contains(e.1) && !e.2.is_translation_spec() by {
            if e != forth && e != back {
                assert(p.edges.contains(e));
            }
        }
    }
    assert(q.edges_mirrored()) by {
        reveal(Progress::edges_mirrored);
        assert forall|a: u32, b: u32, k: RelationshipKind| #[trigger]
            q.edges.contains((a, b, k)) implies q.edges.contains((b, a, k.inverse_spec())) by {
            if (a, b, k) == forth {
                assert(q.edges.contains(back));
            } else if (a, b, k) == back {
                assert(q.edges.contains(forth));
            } else {
                assert(p.edges.contains((a, b, k)));
                assert(p.edges.contains((b, a, k.inverse_spec())));
            }
        }
    }
    assert(q.listed_sound()) by {
        reveal(Progress::listed_sound);
        assert forall|l: (u32, u32)| #[trigger] q.listed.contains(l) implies {
            &&& q.nodes.contains(l.0)
            &&& q.nodes.contains(l.1)
            &&& q.degree(l.1) <= q.degree(l.0) + 1
            &&& q.degree(l.0) < q.max_degree
            &&& q.joined(l.0, l.1)
        } by {
            if l == (source, t) {
                assert(q.edges.contains((source, t, kind)));
            } else {
                assert(p.listed.contains(l));
                let k = choose|k: RelationshipKind| p.edges.contains((l.0, l.1, k));
                assert(q.edges.contains((l.0, l.1, k)));
            }
        }
    }
    assert(q.parents_sound()) by {
        reveal(Progress::parents_sound);
        reveal(Progress::listed_sound);
        assert forall|n: u32| #[trigger] q.nodes.contains(n) && n != q.root implies q.has_parent(
            n,
        ) by {
            if p.nodes.contains(n) {
                let w = choose|w: u32| #[trigger]
                    p.listed.contains((w, n)) && p.degree(n) == p.degree(w) + 1;
                assert(p.listed.contains((w, n)));
                assert(p.nodes.contains(w));
                assert(q.listed.contains((w, n)));
            } else {
                assert(n == t);
                assert(q.listed.contains((source, n)));
            }
        }
    }
    assert(q.queue_sound()) by {
        reveal(Progress::queue_sound);
        assert forall|i: int| 0 <= i < q.queue.len() implies q.nodes.contains(
            (#[trigger] q.queue[i]).0,
        ) && q.degree(q.queue[i].0) == q.queue[i].1 by {
            if i < p.queue.len() {
                assert(q.queue[i] == p.queue[i]);
            }
        }
    }
    assert(q.fetches_sound()) by {
        reveal(Progress::fetches_sound);
        reveal(Progress::queue_sound);
        assert forall|i: int, j: int|
            0 <= i < q.queue.len() && 0 <= j < q.fetched.len() implies (#[trigger] q.queue[i]).0
            != #[trigger] q.fetched[j] by {
            if i < p.queue.len() {
                assert(q.queue[i] == p.queue[i]);
            } else {
                assert(p.nodes.contains(p.fetched[j]));
            }
        }
        assert forall|i: int, j: int| 0 <= i < j < q.queue.len() implies (#[trigger] q.queue[i]).0
            != (#[trigger] q.queue[j]).0 by {
            if j < p.queue.len() {
                assert(q.queue[i] == p.queue[i]);
                assert(q.queue[j] == p.queue[j]);
            } else {
                assert(q.queue[i] == p.queue[i]);
                assert(p.nodes.contains(p.queue[i].0));
            }
        }
        assert forall|n: u32| #[trigger] q.nodes.contains(n) implies q.fetched.contains(n)
            || q.queued(n) by {
            if p.nodes.contains(n) {
                if !p.fetched.contains(n) {
                    let i = choose|i: int| 0 <= i < p.queue.len() && (#[trigger] p.queue[i]).0 == n;
                    assert(q.queue[i] == p.queue[i]);
                }
            } else {
                assert(q.queue[p.queue.len() as int].0 == n);
            }
        }
    }
    assert(q.level(d as int)) by {
        reveal(Progress::level);
        assert forall|i: int| 0 <= i < q.queue.len() implies d <= (#[trigger] q.queue[i]).1 <= d
            + 1 by {
            if i < p.queue.len() {
                assert(q.queue[i] == p.queue[i]);
            }
        }
        assert forall|i: int, j: int| 0 <= i <= j < q.queue.len() implies (#[trigger] q.queue[i]).1
            <= (#[trigger] q.queue[j]).1 by {
            if j < p.queue.len() {
                assert(q.queue[i] == p.queue[i]);
                assert(q.queue[j] == p.queue[j]);
            } else if i < p.queue.len() {
                assert(q.queue[i] == p.queue[i]);
            }
        }
    }
}

/// Links to several targets keep what holds during an expansion.
pub proof fn lemma_link_first_keeps(
    p: Progress,
    source: u32,
    d: u8,
    kind: RelationshipKind,
    targets: Seq<SongCore>,
    n: nat,
)
    requires
        p.expanding(source, d),
        !kind.is_translation_spec(),
    ensures
        p.link_first(source, d, kind, targets, n).expanding(source, d),
        p.link_first(source, d, kind, targets, n).extends(p),
        p.queue.is_prefix_of(p.link_first(source, d, kind, targets, n).queue),
        p.link_first(source, d, kind, targets, n).fetched == p.fetched,
    decreases n,
{
    if n > 0 {
        let mid = p.link_first(source, d, kind, targets, (n - 1) as nat);
        lemma_link_first_keeps(p, source, d, kind, targets, (n - 1) as nat);
        lemma_link_keeps(mid, source, d, kind, targets[n - 1]);
    }
}

/// Taking in a relationship keeps what holds during an expansion.
pub proof fn lemma_relate_keeps(p: Progress, source: u32, d: u8, relationship: Relationship)
    requires
        p.expanding(source, d),
    ensures
        p.relate(source, d, relationship).expanding(source, d),
        p.relate(source, d, relationship).extends(p),
        p.queue.is_prefix_of(p.relate(source, d, relationship).queue),
        p.relate(source, d, relationship).fetched == p.fetched,
{
    if !relationship.kind.is_translation_spec() {
        lemma_link_first_keeps(
            p,
            source,
            d,
            relationship.kind,
            relationship.targets@,
            relationship.targets@.len(),
        );
    }
}

/// Taking in several relationships keeps what holds during an expansion.
pub proof fn lemma_relate_first_keeps(
    p: Progress,
    source: u32,
    d: u8,
    relationships: Seq<Relationship>,
    n: nat,
)
    requires
        p.expanding(source, d),
    ensures
        p.relate_first(source, d, relationships, n).expanding(source, d),
        p.relate_first(source, d, relationships, n).extends(p),
        p.queue.is_prefix_of(p.relate_first(source, d, relationships, n).queue),
        p.relate_first(source, d, relationships, n).fetched == p.fetched,
    decreases n,
{
    if n > 0 {
        let mid = p.relate_first(source, d, relationships, (n - 1) as nat);
        lemma_relate_first_keeps(p, source, d, relationships, (n - 1) as nat);
        lemma_relate_keeps(mid, source, d, relationships[n - 1]);
    }
}

/// The first fetch: the root becomes the only node.
proof fn lemma_first_fetch(p: Progress, song: Song)
    requires
        p.fresh(),
        song.core.id == p.root,
    ensures
        ({
            let seen = (Progress {
                queue: p.queue.drop_first(),
                fetched: p.fetched.push(p.queue[0].0),
                ..p
            }).visit(song.core, 0);
            &&& seen.grown()
            &&& seen.level(0)
            &&& seen.nodes.contains(p.root)
            &&& seen.degree(p.root) == 0
            &&& seen.extends(p)
            &&& seen.queue == p.queue.drop_first()
            &&& seen.fetched == p.fetched.push(p.root)
        }),
{
    let seen = (Progress {
        queue: p.queue.drop_first(),
        fetched: p.fetched.push(p.queue[0].0),
        ..p
    }).visit(song.core, 0);
    assert(p.queue[0] == (p.root, 0u8));
    assert(seen.queue =~= Seq::empty());
    assert(seen.nodes =~= set![p.root]);
    assert(seen.fetched =~= seq![p.root]);
    assert(seen.nodes_sound()) by {
        reveal(Progress::nodes_sound);
    }
    assert(seen.edges_sound()) by {
        reveal(Progress::edges_sound);
    }
    assert(seen.edges_mirrored()) by {
        reveal(Progress::edges_mirrored);
    }
    assert(seen.listed_sound()) by {
        reveal(Progress::listed_sound);
    }
    assert(seen.parents_sound()) by {
        reveal(Progress::parents_sound);
    }
    assert(seen.queue_sound()) by {
        reveal(Progress::queue_sound);
    }
    assert(seen.fetches_sound()) by {
        reveal(Progress::fetches_sound);
        assert(seen.fetched[0] == p.root);
    }
    assert(seen.level(0)) by {
        reveal(Progress::level);
    }
}

/// A later fetch: the head of the queue leaves it and joins the songs that
/// were fetched.
proof fn lemma_later_fetch(p: Progress, song: Song)
    requires
        p.grown(),
        p.queue.len() > 0,
        p.level(p.queue[0].1 as int),
        song.core.id == p.queue[0].0,
    ensures
        ({
            let seen = (Progress {
                queue: p.queue.drop_first(),
                fetched: p.fetched.push(p.queue[0].0),
                ..p
            }).visit(song.core, p.queue[0].1);
            &&& seen.grown()
            &&& seen.level(p.queue[0].1 as int)
            &&& seen.nodes.contains(p.queue[0].0)
            &&& seen.degree(p.queue[0].0) == p.queue[0].1
            &&& seen.extends(p)
            &&& seen.queue == p.queue.drop_first()
            &&& seen.fetched == p.fetched.push(p.queue[0].0)
        }),
{
    let d = p.queue[0].1;
    let popped = Progress {
        queue: p.queue.drop_first(),
        fetched: p.fetched.push(p.queue[0].0),
        ..p
    };
    let seen = popped.visit(song.core, d);
    assert(p.nodes.contains(p.queue[0].0) && p.degree(p.queue[0].0) == d) by {
        reveal(Progress::queue_sound);
    }
    assert(seen == popped);
    assert forall|i: int| 0 <= i < seen.queue.len() implies #[trigger] seen.queue[i] == p.queue[i
        + 1] by {}
    let last = p.fetched.len() as int;
    assert forall|j: int| 0 <= j < last implies #[trigger] seen.fetched[j] == p.fetched[j] by {}
    assert(seen.fetched[last] == p.queue[0].0);
    assert(seen.nodes_sound()) by {
        reveal(Progress::nodes_sound);
    }
    assert(seen.edges_sound()) by {
        reveal(Progress::edges_sound);
    }
    assert(seen.edges_mirrored()) by {
        reveal(Progress::edges_mirrored);
    }
    assert(seen.listed_sound()) by {
        reveal(Progress::listed_sound);
        assert forall|l: (u32, u32)| #[trigger] seen.listed.contains(l) implies {
            &&& seen.nodes.contains(l.0)
            &&& seen.nodes.contains(l.1)
            &&& seen.degree(l.1) <= seen.degree(l.0) + 1
            &&& seen.degree(l.0) < seen.max_degree
            &&& seen.joined(l.0, l.1)
        } by {
            assert(p.listed.contains(l));
            let k = choose|k: RelationshipKind| p.edges.contains((l.0, l.1, k));
            assert(seen.edges.contains((l.0, l.1, k)));
        }
    }
    assert(seen.parents_sound()) by {
        reveal(Progress::parents_sound);
        assert forall|n: u32| #[trigger] seen.nodes.contains(n) && n
            != seen.root implies seen.has_parent(n) by {
            let w = choose|w: u32| #[trigger]
                p.listed.contains((w, n)) && p.degree(n) == p.degree(w) + 1;
            assert(seen.listed.contains((w, n)));
        }
    }
    assert(seen.queue_sound()) by {
        reveal(Progress::queue_sound);
        assert forall|i: int| 0 <= i < seen.queue.len() implies seen.nodes.contains(
            (#[trigger] seen.queue[i]).0,
        ) && seen.degree(seen.queue[i].0) == seen.queue[i].1 by {
            assert(seen.queue[i] == p.queue[i + 1]);
        }
    }
    assert(seen.fetches_sound()) by {
        reveal(Progress::fetches_sound);
        assert forall|j: int| 0 <= j < seen.fetched.len() implies seen.nodes.contains(
            #[trigger] seen.fetched[j],
        ) by {
            if j < last {
                assert(seen.fetched[j] == p.fetched[j]);
            }
        }
        assert forall|i: int, j: int|
            0 <= i < j < seen.fetched.len() implies seen.fetched[i] != seen.fetched[j] by {
            if j < last {
                assert(seen.fetched[i] == p.fetched[i] && seen.fetched[j] == p.fetched[j]);
            } else {
                assert(seen.fetched[i] == p.fetched[i]);
                assert(p.queue[0].0 != p.fetched[i]);
            }
        }
        assert forall|i: int, j: int|
            0 <= i < seen.queue.len() && 0 <= j < seen.fetched.len() implies (
        #[trigger] seen.queue[i]).0 != #[trigger] seen.fetched[j] by {
            assert(seen.queue[i] == p.queue[i + 1]);
            if j < last {
                assert(seen.fetched[j] == p.fetched[j]);
            } else {
                assert(p.queue[0].0 != p.queue[i + 1].0);
            }
        }
        assert forall|i: int, j: int| 0 <= i < j < seen.queue.len() implies (
        #[trigger] seen.queue[i]).0 != (#[trigger] seen.queue[j]).0 by {
            assert(seen.queue[i] == p.queue[i + 1]);
            assert(seen.queue[j] == p.queue[j + 1]);
        }
        assert forall|n: u32| #[trigger] seen.nodes.contains(n) implies seen.fetched.contains(n)
            || seen.queued(n) by {
            if p.fetched.contains(n) {
                let j = choose|j: int| 0 <= j < p.fetched.len() && p.fetched[j] == n;
                assert(seen.fetched[j] == n);
            } else {
                let i = choose|i: int| 0 <= i < p.queue.len() && (#[trigger] p.queue[i]).0 == n;
                if i == 0 {
                    assert(seen.fetched[last] == n);
                } else {
                    assert(seen.queue[i - 1] == p.queue[i]);
                }
            }
        }
    }
    assert(seen.level(d as int)) by {
        reveal(Progress::level);
        assert forall|i: int| 0 <= i < seen.queue.len() implies d <= (#[trigger] seen.queue[i]).1
            <= d + 1 by {
            assert(seen.queue[i] == p.queue[i + 1]);
            assert(p.queue[0].1 <= p.queue[i + 1].1);
        }
        assert forall|i: int, j: int| 0 <= i <= j < seen.queue.len() implies (
        #[trigger] seen.queue[i]).1 <= (#[trigger] seen.queue[j]).1 by {
            assert(seen.queue[i] == p.queue[i + 1]);
            assert(seen.queue[j] == p.queue[j + 1]);
        }
    }
}

/// Once the songs of degree `d` are expanded as far as the queue has come,
/// the level of the head of the queue holds.
proof fn lemma_level_moves(q: Progress, d: int)
    requires
        q.level(d),
        q.queue.len() > 0,
    ensures
        q.level(q.queue[0].1 as int),
{
    reveal(Progress::level);
    let h = q.queue[0].1 as int;
    assert forall|i: int| 0 <= i < q.queue.len() implies h <= (#[trigger] q.queue[i]).1 <= h
        + 1 by {
        assert(q.queue[0].1 <= q.queue[i].1);
    }
}

/// Absorbing the song that the head of the queue awaits keeps the
/// invariant of the traversal.
pub proof fn lemma_absorb_keeps(p: Progress, song: Song)
    requires
        p.inv(),
        p.queue.len() > 0,
        song.core.id == p.queue[0].0,
    ensures
        p.absorb(song).inv(),
        p.absorb(song).grown(),
        p.absorb(song).extends(p),
        p.queue.drop_first().is_prefix_of(p.absorb(song).queue),
        p.absorb(song).fetched == p.fetched.push(song.core.id),
{
    let d = p.queue[0].1;
    let s = song.core.id;
    let popped = Progress {
        queue: p.queue.drop_first(),
        fetched: p.fetched.push(p.queue[0].0),
        ..p
    };
    let seen = popped.visit(song.core, d);
    let q = p.absorb(song);
    if p.fresh() {
        assert(p.queue[0] == (p.root, 0u8));
        lemma_first_fetch(p, song);
    } else {
        lemma_later_fetch(p, song);
    }
    if d < p.max_degree {
        lemma_relate_first_keeps(seen, s, d, song.relationships@, song.relationships@.len());
    }
    assert(q.extends(seen));
    if q.queue.len() > 0 {
        lemma_level_moves(q, d as int);
    }
}

/// Absorbing a song adds the head of the queue to the songs that were
/// fetched, and nothing else.
pub proof fn lemma_absorb_fetches(p: Progress, song: Song)
    ensures
        p.absorb(song).fetched == p.fetched.push(p.queue[0].0),
{
    let popped = Progress {
        queue: p.queue.drop_first(),
        fetched: p.fetched.push(p.queue[0].0),
        ..p
    };
    let seen = popped.visit(song.core, p.queue[0].1);
    lemma_relate_first_fetches(
        seen,
        song.core.id,
        p.queue[0].1,
        song.relationships@,
        song.relationships@.len(),
    );
}

/// Taking in relationships fetches nothing.
pub proof fn lemma_relate_first_fetches(
    p: Progress,
    source: u32,
    d: u8,
    relationships: Seq<Relationship>,
    n: nat,
)
    ensures
        p.relate_first(source, d, relationships, n).fetched == p.fetched,
    decreases n,
{
    if n > 0 {
        lemma_relate_first_fetches(p, source, d, relationships, (n - 1) as nat);
        let mid = p.relate_first(source, d, relationships, (n - 1) as nat);
        let r = relationships[n - 1];
        lemma_link_first_fetches(mid, source, d, r.kind, r.targets@, r.targets@.len());
    }
}

/// Links fetch nothing.
pub proof fn lemma_link_first_fetches(
    p: Progress,
    source: u32,
    d: u8,
    kind: RelationshipKind,
    targets: Seq<SongCore>,
    n: nat,
)
    ensures
        p.link_first(source, d, kind, targets, n).fetched == p.fetched,
    decreases n,
{
    if n > 0 {
        lemma_link_first_fetches(p, source, d, kind, targets, (n - 1) as nat);
    }
}

impl Progress {
    /// Whether nothing that `earlier` has found is missing.
    pub open spec fn grows_from(self, earlier: Progress) -> bool {
        &&& earlier.nodes.subset_of(self.nodes)
        &&& earlier.edges.subset_of(self.edges)
        &&& earlier.listed.subset_of(self.listed)
    }

    /// Whether `source` is linked to `target` under `kind`: the target is a
    /// node, the edge and its inverse are there, and the listing is recorded.
    pub open spec fn linked(self, source: u32, kind: RelationshipKind, target: u32) -> bool {
        &&& self.nodes.contains(target)
        &&& self.edges.contains((source, target, kind))
        &&& self.edges.contains((target, source, kind.inverse_spec()))
        &&& self.listed.contains((source, target))
    }
}

/// Links lose nothing, and each of the targets is linked afterwards.
pub proof fn lemma_link_first_grows(
    p: Progress,
    source: u32,
    d: u8,
    kind: RelationshipKind,
    targets: Seq<SongCore>,
    n: nat,
)
    requires
        n <= targets.len(),
    ensures
        p.link_first(source, d, kind, targets, n).grows_from(p),
        forall|j: int|
            0 <= j < n ==> p.link_first(source, d, kind, targets, n).linked(
                source,
                kind,
                (#[trigger] targets[j]).id,
            ),
    decreases n,
{
    if n > 0 {
        let mid = p.link_first(source, d, kind, targets, (n - 1) as nat);
        let q = p.link_first(source, d, kind, targets, n);
        lemma_link_first_grows(p, source, d, kind, targets, (n - 1) as nat);
        assert(q == mid.link(source, d, kind, targets[n - 1]));
        assert(q.grows_from(mid));
        assert forall|j: int| 0 <= j < n implies q.linked(source, kind, (#[trigger] targets[j]).id) by {
            if j < n - 1 {
                assert(mid.linked(source, kind, targets[j].id));
            }
        }
    }
}

/// Taking in relationships loses nothing, and each target of each of them
/// that is of no translation kind is linked afterwards.
pub proof fn lemma_relate_first_grows(
    p: Progress,
    source: u32,
    d: u8,
    relationships: Seq<Relationship>,
    n: nat,
)
    requires
        n <= relationships.len(),
    ensures
        p.relate_first(source, d, relationships, n).grows_from(p),
        forall|i: int, j: int|
            0 <= i < n && 0 <= j < relationships[i].targets@.len()
                && !relationships[i].kind.is_translation_spec() ==> p.relate_first(
                source,
                d,
                relationships,
                n,
            ).linked(source, relationships[i].kind, (#[trigger] relationships[i].targets@[j]).id),
    decreases n,
{
    if n > 0 {
        let mid = p.relate_first(source, d, relationships, (n - 1) as nat);
        let q = p.relate_first(source, d, relationships, n);
        let r = relationships[n - 1];
        lemma_relate_first_grows(p, source, d, relationships, (n - 1) as nat);
        assert(q == mid.relate(source, d, r));
        if !r.kind.is_translation_spec() {
            lemma_link_first_grows(mid, source, d, r.kind, r.targets@, r.targets@.len());
        }
        assert(q.grows_from(mid));
        assert forall|i: int, j: int|
            0 <= i < n && 0 <= j < relationships[i].targets@.len()
                && !relationships[i].kind.is_translation_spec() implies q.linked(
            source,
            relationships[i].kind,
            (#[trigger] relationships[i].targets@[j]).id,
        ) by {
            if i < n - 1 {
                assert(mid.linked(source, relationships[i].kind, relationships[i].targets@[j].id));
            } else {
                assert(q.linked(source, r.kind, r.targets@[j].id));
            }
        }
    }
}

} // verus!
