//! The graph builder: a breadth-first traversal from a root song, wave by
//! wave, that asks an admission budget before each wave and takes in what
//! was fetched for it.
//!
//! The builder fetches nothing itself. It says which songs to fetch next, or
//! to wait, or that it is done; whoever drives it performs that and hands
//! the fetched songs back.

use crate::budget::AdmissionBudget;
use crate::digraph::Graph;
use crate::error::Error;
use crate::kinds::RelationshipKind;
use crate::model::{lemma_absorb_keeps, Progress};
use crate::state::AppState;
use crate::types::{GraphResponse, Relationship, Song, SongCore, SongInfo};
use std::collections::{HashMap, VecDeque};
use tokio::sync::OwnedSemaphorePermit;
use vstd::prelude::*;

verus! {

broadcast use vstd::std_specs::hash::group_hash_axioms;

/// The largest number of songs that one wave asks permits for.
pub const MAX_WAVE: usize = 128;

/// The number of seconds to wait after a refused admission.
pub const BACKOFF_SECS: u64 = 2;

/// What the builder asks of whoever drives it.
#[derive(Debug)]
pub enum Step {
    /// Fetch the songs with these ids and hand the results to `absorb_wave`,
    /// in this order.
    Fetch(Vec<u32>),
    /// Admission was refused: wait `BACKOFF_SECS` seconds and ask again.
    Backoff,
    /// Nothing is left to fetch: `finish` has the graph.
    Done,
    /// Admission was refused as often as the retry ceiling allows.
    Exhausted,
    /// A wave failed earlier; the traversal has no graph to give.
    Aborted,
}

/// Where a traversal stands between two steps.
pub enum Phase {
    /// A wave failed.
    Aborted,
    /// A wave is out and its results are awaited.
    Awaiting,
    /// Nothing is awaited and nothing is left to fetch.
    Finished,
    /// Songs are left, and admission was refused as often as allowed.
    Exhausted,
    /// Songs are left, and the next wave is due.
    Due,
}

/// What a traversal keeps besides what it has found.
pub struct Control {
    /// How often admission was refused so far.
    pub retries: nat,
    /// How often admission may be refused.
    pub max_retries: nat,
    /// How many entries at the head of the queue are out in a wave.
    pub in_flight: nat,
    /// Whether a wave failed.
    pub aborted: bool,
}

impl Control {
    pub open spec fn phase(self, p: Progress) -> Phase {
        if self.aborted {
            Phase::Aborted
        } else if self.in_flight > 0 {
            Phase::Awaiting
        } else if p.queue.len() == 0 {
            Phase::Finished
        } else if self.retries >= self.max_retries {
            Phase::Exhausted
        } else {
            Phase::Due
        }
    }

    /// The number of songs of the next wave: as many as are queued, but
    /// neither more than `MAX_WAVE` nor more than the budget holds in all.
    /// It is 0 where no wave is due.
    pub open spec fn request(self, p: Progress, capacity: usize) -> nat {
        if self.phase(p) is Due {
            if p.queue.len() <= MAX_WAVE && p.queue.len() <= capacity {
                p.queue.len()
            } else if MAX_WAVE <= capacity {
                MAX_WAVE as nat
            } else {
                capacity as nat
            }
        } else {
            0
        }
    }

    /// Whether `next` and `step` are what follows from `self` when the
    /// budget holds `capacity` permits in all and the permits asked for were
    /// granted or not.
    pub open spec fn decides(
        self,
        p: Progress,
        capacity: usize,
        granted: bool,
        next: Control,
        step: Step,
    ) -> bool {
        match self.phase(p) {
            Phase::Aborted => next == self && step is Aborted,
            Phase::Awaiting => next == self && step == Step::Fetch(step->Fetch_0) && step->Fetch_0@
                == wave_ids(p, self.in_flight),
            Phase::Finished => next == self && step is Done,
            Phase::Exhausted => next == self && step is Exhausted,
            Phase::Due => {
                let n = self.request(p, capacity);
                if granted && n > 0 {
                    &&& next == Control { in_flight: n, ..self }
                    &&& step == Step::Fetch(step->Fetch_0)
                    &&& step->Fetch_0@ == wave_ids(p, n)
                } else {
                    &&& next == Control { retries: self.retries + 1, ..self }
                    &&& step is Backoff
                }
            },
        }
    }
}

/// The ids of the first `n` songs in the queue.
pub open spec fn wave_ids(p: Progress, n: nat) -> Seq<u32> {
    Seq::new(n, |i: int| p.queue[i].0)
}

/// Whether the result at position `i` of a wave stops the traversal: the
/// fetch failed, or what came back is not the song that was asked for.
pub open spec fn faulty(p: Progress, results: Seq<Result<Song, Error>>, i: int) -> bool {
    results[i] is Err || results[i]->Ok_0.core.id != p.queue[i].0
}

/// The fetched songs of a wave, where it has no fault.
pub open spec fn payloads(results: Seq<Result<Song, Error>>) -> Seq<Song> {
    Seq::new(results.len(), |i: int| results[i]->Ok_0)
}

/// The text of the error for a song that was not asked for.
pub open spec fn unexpected_song_text() -> Seq<char> {
    "the provider returned a song that was not asked for"@
}

/// The text of the error for results that do not match the wave in number.
pub open spec fn unexpected_count_text() -> Seq<char> {
    "the results do not match the wave that was asked for"@
}

/// The text of the error for results handed to a traversal that has failed.
pub open spec fn aborted_text() -> Seq<char> {
    "the traversal has failed already"@
}

/// The error that a faulty result stops the traversal with.
pub open spec fn fault_error(result: Result<Song, Error>, e: Error) -> bool {
    match result {
        Err(cause) => e == cause,
        Ok(_) => e == Error::Transport(e->Transport_0) && e->Transport_0@ == unexpected_song_text(),
    }
}

/// A breadth-first traversal in progress.
pub struct Traversal {
    root: u32,
    max_degree: u8,
    max_retries: u32,
    retries: u32,
    graph: Graph,
    songs: HashMap<u32, SongInfo>,
    horizon: VecDeque<(u32, u8)>,
    in_flight: usize,
    aborted: bool,
    permit: Option<OwnedSemaphorePermit>,
    listed: Ghost<Set<(u32, u32)>>,
    fetched: Ghost<Seq<u32>>,
}

impl View for Traversal {
    type V = Progress;

    /// What the traversal has found so far.
    closed spec fn view(&self) -> Progress {
        Progress {
            root: self.root,
            max_degree: self.max_degree,
            nodes: self.graph.nodes(),
            edges: self.graph.edges(),
            info: self.songs@,
            listed: self.listed@,
            queue: self.horizon@,
            fetched: self.fetched@,
        }
    }
}

impl Traversal {
    /// What the traversal keeps besides what it has found.
    pub closed spec fn control(&self) -> Control {
        Control {
            retries: self.retries as nat,
            max_retries: self.max_retries as nat,
            in_flight: self.in_flight as nat,
            aborted: self.aborted,
        }
    }

    /// The store of the graph is in order.
    pub closed spec fn store_wf(&self) -> bool {
        self.graph.wf()
    }

    /// Whether the traversal holds permits of the budget.
    pub closed spec fn holds_permits(&self) -> bool {
        self.permit is Some
    }

    /// The traversal is in order: what it has found satisfies the invariant
    /// of the model, the wave that is out is part of the queue, and permits
    /// are held exactly while a wave is out.
    pub open spec fn wf(&self) -> bool {
        &&& self.store_wf()
        &&& self@.inv()
        &&& self.control().in_flight <= self@.queue.len()
        &&& self.holds_permits() <==> self.control().in_flight > 0
    }

    /// A traversal from `root` that explores up to `max_degree` hops and gives
    /// up after `max_retries` refused admissions.
    pub fn new(root: u32, max_degree: u8, max_retries: u32) -> (t: Traversal)
        ensures
            t.wf(),
            t@ == Progress::start(root, max_degree),
            t.control() == (Control {
                retries: 0,
                max_retries: max_retries as nat,
                in_flight: 0,
                aborted: false,
            }),
    {
        let mut horizon: VecDeque<(u32, u8)> = VecDeque::new();
        horizon.push_back((root, 0));
        let t = Traversal {
            root,
            max_degree,
            max_retries,
            retries: 0,
            graph: Graph::new(),
            songs: HashMap::new(),
            horizon,
            in_flight: 0,
            aborted: false,
            permit: None,
            listed: Ghost(Set::empty()),
            fetched: Ghost(Seq::empty()),
        };
        proof {
            assert(t@.queue =~= seq![(root, 0u8)]);
            assert(t@.info =~= Map::empty());
            assert(t@.fresh());
        }
        t
    }

    /// How often admission was refused so far.
    pub fn retries(&self) -> (n: u32)
        ensures
            n == self.control().retries,
    {
        self.retries
    }

    /// Whether a wave failed.
    pub fn is_aborted(&self) -> (b: bool)
        ensures
            b == self.control().aborted,
    {
        self.aborted
    }

    /// The number of songs that are out in a wave.
    pub fn awaited(&self) -> (n: usize)
        ensures
            n == self.control().in_flight,
    {
        self.in_flight
    }

    /// The number of songs that still await their fetch, those of the wave
    /// that is out among them.
    pub fn pending(&self) -> (n: usize)
        ensures
            n == self@.queue.len(),
    {
        self.horizon.len()
    }

    /// The number of permits to ask the budget for before the next step: the
    /// size of the next wave, or 0 where no wave is due.
    pub fn request(&self, capacity: usize) -> (n: usize)
        ensures
            n == self.control().request(self@, capacity),
            n <= MAX_WAVE,
    {
        if self.aborted || self.in_flight > 0 || self.horizon.len() == 0 || self.retries
            >= self.max_retries {
            0
        } else if self.horizon.len() <= MAX_WAVE && self.horizon.len() <= capacity {
            self.horizon.len()
        } else if MAX_WAVE <= capacity {
            MAX_WAVE
        } else {
            capacity
        }
    }

    /// The ids of the first `n` songs in the queue.
    fn wave(&self, n: usize) -> (ids: Vec<u32>)
        requires
            n <= self@.queue.len(),
        ensures
            ids@ == wave_ids(self@, n as nat),
    {
        let mut ids: Vec<u32> = Vec::new();
        let mut i: usize = 0;
        while i < n
            invariant
                i <= n <= self.horizon@.len(),
                ids@.len() == i,
                forall|j: int| 0 <= j < i ==> ids@[j] == self.horizon@[j].0,
            decreases n - i,
        {
            ids.push(self.horizon[i].0);
            i = i + 1;
        }
        proof {
            assert(ids@ =~= wave_ids(self@, n as nat));
        }
        ids
    }

    /// The next step, given the number of permits that the budget holds in
    /// all and what it answered to the request for `self.request(capacity)`
    /// permits: the permits, or nothing where it refused or where none were
    /// asked for.
    ///
    /// Where a wave is due and the permits were granted, the wave goes out
    /// and the traversal keeps the permits until the wave is absorbed or
    /// fails. Where they were not, the refusal is counted. In every other
    /// phase the traversal stays as it is, and permits handed in are given
    /// back to the budget.
    pub fn decide(&mut self, capacity: usize, permit: Option<OwnedSemaphorePermit>) -> (step: Step)
        requires
            old(self).wf(),
        ensures
            final(self).wf(),
            final(self)@ == old(self)@,
            old(self).control().decides(
                old(self)@,
                capacity,
                permit is Some,
                final(self).control(),
                step,
            ),
    {
        if self.aborted {
            Step::Aborted
        } else if self.in_flight > 0 {
            Step::Fetch(self.wave(self.in_flight))
        } else if self.horizon.len() == 0 {
            Step::Done
        } else if self.retries >= self.max_retries {
            Step::Exhausted
        } else {
            let n = self.request(capacity);
            match permit {
                Some(held) => {
                    if n > 0 {
                        self.permit = Some(held);
                        self.in_flight = n;
                        Step::Fetch(self.wave(n))
                    } else {
                        self.retries = self.retries + 1;
                        Step::Backoff
                    }
                },
                None => {
                    self.retries = self.retries + 1;
                    Step::Backoff
                },
            }
        }
    }

    /// The next step: asks the budget for the permits of the next wave, where
    /// one is due, and decides on its answer.
    ///
    /// Whether the budget grants the permits depends on what other
    /// traversals hold at that moment, so the step is one of the two that
    /// `decide` gives for a grant and for a refusal.
    pub fn next_step(&mut self, budget: &AdmissionBudget) -> (step: Step)
        requires
            old(self).wf(),
        ensures
            final(self).wf(),
            final(self)@ == old(self)@,
            old(self).control().decides(
                old(self)@,
                budget.capacity(),
                true,
                final(self).control(),
                step,
            ) || old(self).control().decides(
                old(self)@,
                budget.capacity(),
                false,
                final(self).control(),
                step,
            ),
    {
        let capacity = budget.capacity();
        let n = self.request(capacity);
        let permit = if n > 0 {
            budget.try_admit(n as u32)
        } else {
            None
        };
        self.decide(capacity, permit)
    }

    /// Records that `source` lists `target` under `kind`.
    fn link(&mut self, source: u32, degree: u8, kind: RelationshipKind, target: &SongCore)
        requires
            old(self).store_wf(),
            old(self)@.nodes.contains(source),
            degree < u8::MAX,
        ensures
            final(self).store_wf(),
            final(self)@ == old(self)@.link(source, degree, kind, *target),
            final(self)@.nodes.contains(source),
            final(self).control() == old(self).control(),
            final(self).permit == old(self).permit,
    {
        let id = target.id;
        if !self.graph.contains_node(id) {
            self.graph.add_node(id);
            self.songs.insert(id, SongInfo::from((target, degree + 1)));
            self.horizon.push_back((id, degree + 1));
        }
        self.graph.add_edge(source, id, kind);
        self.graph.add_edge(id, source, kind.inverse());
        self.listed = Ghost(self.listed@.insert((source, id)));
        proof {
            let found = old(self)@.discover(*target, (degree + 1) as u8);
            assert(self@.nodes =~= found.nodes);
        }
    }

    /// Takes in one relationship of `source`.
    fn relate(&mut self, source: u32, degree: u8, relationship: &Relationship)
        requires
            old(self).store_wf(),
            old(self)@.nodes.contains(source),
            degree < u8::MAX,
        ensures
            final(self).store_wf(),
            final(self)@ == old(self)@.relate(source, degree, *relationship),
            final(self)@.nodes.contains(source),
            final(self).control() == old(self).control(),
            final(self).permit == old(self).permit,
    {
        if relationship.kind.is_translation() {
            return ;
        }
        let ghost before = self@;
        let ghost control = self.control();
        let ghost permit = self.permit;
        let mut i: usize = 0;
        while i < relationship.targets.len()
            invariant
                i <= relationship.targets@.len(),
                degree < u8::MAX,
                self.store_wf(),
                self@.nodes.contains(source),
                self.control() == control,
                self.permit == permit,
                self@ == before.link_first(
                    source,
                    degree,
                    relationship.kind,
                    relationship.targets@,
                    i as nat,
                ),
            decreases relationship.targets@.len() - i,
        {
            self.link(source, degree, relationship.kind, &relationship.targets[i]);
            i = i + 1;
        }
    }

    /// Takes the oldest entry from the queue and takes in the song that was
    /// fetched for it.
    fn absorb(&mut self, song: &Song)
        requires
            old(self).store_wf(),
            old(self)@.queue.len() > 0,
        ensures
            final(self).store_wf(),
            final(self)@ == old(self)@.absorb(*song),
            final(self).control() == old(self).control(),
            final(self).permit == old(self).permit,
    {
        let ghost control = self.control();
        let ghost permit = self.permit;
        let (head, degree) = self.horizon.pop_front().unwrap();
        self.fetched = Ghost(self.fetched@.push(head));
        let id = song.core.id;
        if !self.graph.contains_node(id) {
            self.graph.add_node(id);
            self.songs.insert(id, SongInfo::from((song, degree)));
        }
        let ghost seen = self@;
        proof {
            assert(seen == (Progress {
                queue: old(self)@.queue.drop_first(),
                fetched: old(self)@.fetched.push(old(self)@.queue[0].0),
                ..old(self)@
            }).visit(song.core, degree));
        }
        if degree < self.max_degree {
            let mut i: usize = 0;
            while i < song.relationships.len()
                invariant
                    i <= song.relationships@.len(),
                    degree < u8::MAX,
                    id == song.core.id,
                    self.store_wf(),
                    self@.nodes.contains(id),
                    self.control() == control,
                    self.permit == permit,
                    self@ == seen.relate_first(id, degree, song.relationships@, i as nat),
                decreases song.relationships@.len() - i,
            {
                self.relate(id, degree, &song.relationships[i]);
                i = i + 1;
            }
        }
    }

    /// Gives the permits back and marks the traversal as failed.
    fn abort(&mut self)
        ensures
            final(self)@ == old(self)@,
            final(self).store_wf() == old(self).store_wf(),
            !final(self).holds_permits(),
            final(self).control() == (Control {
                aborted: true,
                in_flight: 0,
                ..old(self).control()
            }),
    {
        self.permit = None;
        self.in_flight = 0;
        self.aborted = true;
    }

    /// Takes in the results of the wave that is out, one result per song of
    /// the wave and in the order of the wave, and gives the permits of the
    /// wave back to the budget.
    ///
    /// Where every fetch succeeded and brought the song that was asked for,
    /// the songs are absorbed in order. Else the traversal fails with the
    /// error of the first fetch that failed, or with a transport error for
    /// the first song that was not asked for, or for results that are not as
    /// many as the wave.
    pub fn absorb_wave(&mut self, results: Vec<Result<Song, Error>>) -> (r: Result<(), Error>)
        requires
            old(self).wf(),
        ensures
            final(self).wf(),
            final(self)@.root == old(self)@.root,
            final(self)@.max_degree == old(self)@.max_degree,
            match r {
                Ok(()) => {
                    &&& !old(self).control().aborted
                    &&& results@.len() == old(self).control().in_flight
                    &&& forall|i: int| 0 <= i < results@.len() ==> !faulty(old(self)@, results@, i)
                    &&& final(self)@ == old(self)@.absorb_first(
                        payloads(results@),
                        results@.len(),
                    )
                    &&& final(self).control() == (Control { in_flight: 0, ..old(self).control() })
                },
                Err(e) => {
                    &&& final(self).control() == (Control {
                        aborted: true,
                        in_flight: 0,
                        ..old(self).control()
                    })
                    &&& if old(self).control().aborted {
                        &&& e == Error::Transport(e->Transport_0)
                        &&& e->Transport_0@ == aborted_text()
                        &&& final(self)@ == old(self)@
                    } else if results@.len() != old(self).control().in_flight {
                        &&& e == Error::Transport(e->Transport_0)
                        &&& e->Transport_0@ == unexpected_count_text()
                        &&& final(self)@ == old(self)@
                    } else {
                        exists|i: int|
                            0 <= i < results@.len() && #[trigger] faulty(old(self)@, results@, i)
                                && fault_error(results@[i], e) && final(self)@
                                == old(self)@.absorb_first(payloads(results@), i as nat)
                                && forall|j: int| 0 <= j < i ==> !faulty(old(self)@, results@, j)
                    }
                },
            },
    {
        if self.aborted {
            self.abort();
            return Err(Error::Transport("the traversal has failed already".to_owned()));
        }
        if results.len() != self.in_flight {
            self.abort();
            return Err(
                Error::Transport("the results do not match the wave that was asked for".to_owned()),
            );
        }
        let ghost before = self@;
        let ghost control = self.control();
        let n = self.in_flight;
        let mut i: usize = 0;
        while i < n
            invariant
                i <= n,
                n == results@.len(),
                n <= before.queue.len(),
                before == old(self)@,
                control == old(self).control(),
                before.inv(),
                self.store_wf(),
                self@.inv(),
                self.control() == control,
                self.holds_permits() == (n > 0),
                !control.aborted,
                control.in_flight == n,
                self@.root == before.root,
                self@.max_degree == before.max_degree,
                n - i <= self@.queue.len(),
                forall|j: int| 0 <= j < n - i ==> self@.queue[j] == before.queue[i + j],
                forall|j: int| 0 <= j < i ==> !faulty(before, results@, j),
                self@ == before.absorb_first(payloads(results@), i as nat),
            decreases n - i,
        {
            match &results[i] {
                Err(cause) => {
                    let e = cause.duplicate();
                    self.abort();
                    proof {
                        assert(faulty(before, results@, i as int));
                    }
                    return Err(e);
                },
                Ok(song) => {
                    let head = self.horizon[0].0;
                    proof {
                        assert(self@.queue[0] == before.queue[i + 0]);
                    }
                    if song.core.id != head {
                        self.abort();
                        proof {
                            assert(faulty(before, results@, i as int));
                        }
                        return Err(
                            Error::Transport(
                                "the provider returned a song that was not asked for".to_owned(),
                            ),
                        );
                    }
                    let ghost mid = self@;
                    proof {
                        lemma_absorb_keeps(mid, *song);
                    }
                    self.absorb(song);
                    proof {
                        assert(payloads(results@)[i as int] == *song);
                        assert forall|j: int| 0 <= j < n - (i + 1) implies self@.queue[j]
                            == before.queue[(i + 1) + j] by {
                            assert(mid.queue.drop_first()[j] == mid.queue[j + 1]);
                        }
                    }
                },
            }
            i = i + 1;
        }
        self.in_flight = 0;
        self.permit = None;
        Ok(())
    }

    /// The graph, once nothing is awaited and nothing is left to fetch; no
    /// graph before that, and none after a failure.
    pub fn finish(self) -> (r: Option<GraphResponse>)
        requires
            self.wf(),
        ensures
            r is Some <==> self.control().phase(self@) is Finished,
            r matches Some(response) ==> {
                &&& response.graph.wf()
                &&& response.graph.nodes() == self@.nodes
                &&& response.graph.edges() == self@.edges
                &&& response.songs@ == self@.info
            },
    {
        if self.aborted || self.in_flight > 0 || self.horizon.len() > 0 {
            None
        } else {
            Some(GraphResponse { graph: self.graph, songs: self.songs })
        }
    }
}

/// Starts the traversal that builds the graph around `root`, up to
/// `degrees` hops, with the retry ceiling of `state`. The graph is built by
/// driving the traversal: `next_step`, the fetches it asks for,
/// `absorb_wave`, until `finish` has the graph.
pub fn build_graph(state: &AppState, root: u32, degrees: u8) -> (t: Traversal)
    ensures
        t.wf(),
        t@ == Progress::start(root, degrees),
        t.control() == (Control {
            retries: 0,
            max_retries: state.max_retries as nat,
            in_flight: 0,
            aborted: false,
        }),
{
    Traversal::new(root, degrees, state.max_retries)
}

} // verus!
