//! The chain builder: a state machine that turns button and pointer readings
//! into particles, control points and constraints.
//!
//! The builder never talks to the simulation. Each tick it is asked what the
//! simulation has to create ([`ChainBuilder::decide`]); once the caller has
//! created it, the builder is told the new particle's handle and moves on
//! ([`ChainBuilder::advance`]).
//!
//! Growth is throttled by distance, not by time: while the button is held, a
//! particle is appended only where the pointer is at least the configured
//! distance away from where the simulation now has the chain's last particle.
//! A candidate that is turned down is not kept; the next tick judges afresh.
//!
//! A tick in which the pointer is not over the surface starts nothing and
//! appends nothing. A release closes the chain all the same, at the last
//! known position of the pointer.

use crate::chain::{
    consecutive_links, BodyKind, Chain, ChainView, Constraint, Lifecycle, LinkStrategy, ParticleId,
};
use crate::geometry::{far_enough, Point};
use crate::mouse::MousePosition;
use vstd::prelude::*;

verus! {

/// What the builder is told once per tick.
#[derive(Clone, Copy, Debug, PartialEq, Eq, Structural)]
pub struct Tick {
    /// Whether the primary button is held.
    pub pressed: bool,
    /// The pointer: its position, and whether it is over the surface now.
    pub pointer: MousePosition,
    /// Where the simulation now has the last particle of the chain being
    /// built, if it could be read.
    pub endpoint_at: Option<Point>,
    /// The handle of the particle that the simulation created for this
    /// tick's decision, if it created one.
    pub created: Option<ParticleId>,
}

/// What the simulation has to create in a tick.
#[derive(Clone, Copy, Debug, PartialEq, Eq, Structural)]
pub enum Decision {
    /// Nothing.
    Rest,
    /// The first particle of a new chain.
    Start { at: Point },
    /// One more particle for the chain being built.
    Extend { at: Point },
    /// The last particle of the chain being built.
    Finish { at: Point },
}

impl Decision {
    /// The kind and position of the particle to create, if any. A chain
    /// starts and ends on a static particle; those in between are dynamic.
    pub open spec fn spec_spawn(self) -> Option<(BodyKind, Point)> {
        match self {
            Decision::Rest => None,
            Decision::Start { at } => Some((BodyKind::Static, at)),
            Decision::Extend { at } => Some((BodyKind::Dynamic, at)),
            Decision::Finish { at } => Some((BodyKind::Static, at)),
        }
    }

    /// The kind and position of the particle to create, if any.
    #[verifier::when_used_as_spec(spec_spawn)]
    pub fn spawn(self) -> (request: Option<(BodyKind, Point)>)
        ensures
            request == self.spec_spawn(),
    {
        match self {
            Decision::Rest => None,
            Decision::Start { at } => Some((BodyKind::Static, at)),
            Decision::Extend { at } => Some((BodyKind::Dynamic, at)),
            Decision::Finish { at } => Some((BodyKind::Static, at)),
        }
    }
}

/// The builder's state, as plain values.
pub struct BuilderView {
    pub min_distance: u32,
    pub strategy: LinkStrategy,
    pub compliance: u32,
    /// The chain being built, if any.
    pub active: Option<ChainView>,
    /// The finalized chains, oldest first.
    pub finished: Seq<ChainView>,
}

impl BuilderView {
    /// The idle builder that has drawn nothing yet.
    pub open spec fn initial(min_distance: u32, strategy: LinkStrategy, compliance: u32) -> BuilderView {
        BuilderView { min_distance, strategy, compliance, active: None, finished: Seq::empty() }
    }

    /// The chain being built is in the building state and linked as the
    /// strategy asks; every other chain is finalized.
    pub open spec fn wf(self) -> bool {
        &&& self.active matches Some(chain) ==> {
            &&& chain.lifecycle == Lifecycle::Building
            &&& chain.wf(self.compliance)
            &&& self.strategy == LinkStrategy::Incremental ==> chain.fully_linked(self.compliance)
            &&& self.strategy == LinkStrategy::Batched ==> chain.constraints.len() == 0
        }
        &&& forall|i: int|
            0 <= i < self.finished.len() ==> {
                &&& (#[trigger] self.finished[i]).lifecycle == Lifecycle::Finalized
                &&& self.finished[i].wf(self.compliance)
            }
    }

    /// What the simulation has to create for `tick`.
    pub open spec fn decide(self, tick: Tick) -> Decision {
        match self.active {
            None => if tick.pressed && tick.pointer.available {
                Decision::Start { at: tick.pointer.position }
            } else {
                Decision::Rest
            },
            Some(_) => if !tick.pressed {
                Decision::Finish { at: tick.pointer.position }
            } else if !tick.pointer.available {
                Decision::Rest
            } else {
                match tick.endpoint_at {
                    Some(endpoint) => if far_enough(
                        endpoint,
                        tick.pointer.position,
                        self.min_distance,
                    ) {
                        Decision::Extend { at: tick.pointer.position }
                    } else {
                        Decision::Rest
                    },
                    None => Decision::Rest,
                }
            },
        }
    }

    /// The chain being built after one more particle was appended to it.
    pub open spec fn extended(self, chain: ChainView, particle: ParticleId, at: Point) -> ChainView {
        match self.strategy {
            LinkStrategy::Incremental => chain.grown(particle, at).linked(self.compliance),
            LinkStrategy::Batched => chain.grown(particle, at),
        }
    }

    /// The chain being built after its last particle was appended to it.
    pub open spec fn closed(self, chain: ChainView, particle: ParticleId, at: Point) -> ChainView {
        chain.grown(particle, at).linked(self.compliance).finalized()
    }

    /// The state after `tick`. A tick whose particle the simulation did not
    /// create changes nothing.
    pub open spec fn step(self, tick: Tick) -> BuilderView {
        match (self.decide(tick), tick.created, self.active) {
            (Decision::Start { at }, Some(particle), _) => BuilderView {
                active: Some(ChainView::start(particle, at)),
                ..self
            },
            (Decision::Extend { at }, Some(particle), Some(chain)) => BuilderView {
                active: Some(self.extended(chain, particle, at)),
                ..self
            },
            (Decision::Finish { at }, Some(particle), Some(chain)) => BuilderView {
                active: None,
                finished: self.finished.push(self.closed(chain, particle, at)),
                ..self
            },
            _ => self,
        }
    }

    /// The constraints that the simulation has to create after `tick`.
    pub open spec fn emitted(self, tick: Tick) -> Seq<Constraint> {
        match (self.decide(tick), tick.created, self.active) {
            (Decision::Extend { at }, Some(particle), Some(chain)) => match self.strategy {
                LinkStrategy::Incremental => chain.grown(particle, at).pending(self.compliance),
                LinkStrategy::Batched => Seq::empty(),
            },
            (Decision::Finish { at }, Some(particle), Some(chain)) => chain.grown(particle, at).pending(
                self.compliance,
            ),
            _ => Seq::empty(),
        }
    }

    /// The state after the ticks of `ticks`, first to last.
    pub open spec fn run(self, ticks: Seq<Tick>) -> BuilderView
        decreases ticks.len(),
    {
        if ticks.len() == 0 {
            self
        } else {
            self.run(ticks.drop_last()).step(ticks.last())
        }
    }
}

/// A chain stays well-formed when an unlinked particle is appended to it
/// while it is being built.
pub proof fn lemma_grown_is_wf(chain: ChainView, particle: ParticleId, at: Point, compliance: u32)
    requires
        chain.wf(compliance),
        chain.lifecycle == Lifecycle::Building,
    ensures
        chain.grown(particle, at).wf(compliance),
{
    let grown = chain.grown(particle, at);
    let k = chain.constraints.len() as int;
    assert(consecutive_links(grown.particles, compliance).take(k) =~= consecutive_links(
        chain.particles,
        compliance,
    ).take(k));
}

/// Linking what is pending leaves a well-formed chain with every pair of
/// neighbours linked.
pub proof fn lemma_linked_is_full(chain: ChainView, compliance: u32)
    requires
        chain.wf(compliance),
    ensures
        chain.linked(compliance).wf(compliance),
        chain.linked(compliance).fully_linked(compliance),
        chain.linked(compliance).constraints.len() == chain.particles.len() - 1,
{
    let all = consecutive_links(chain.particles, compliance);
    let k = chain.constraints.len() as int;
    assert(all.take(k) + all.skip(k) =~= all);
    assert(all.take(all.len() as int) =~= all);
}

/// A tick leaves a well-formed builder well-formed.
pub proof fn lemma_step_preserves_wf(state: BuilderView, tick: Tick)
    requires
        state.wf(),
    ensures
        state.step(tick).wf(),
{
    let next = state.step(tick);
    let c = state.compliance;
    match (state.decide(tick), tick.created, state.active) {
        (Decision::Start { at }, Some(particle), _) => {
            let chain = ChainView::start(particle, at);
            assert(consecutive_links(chain.particles, c) =~= Seq::empty());
            assert(consecutive_links(chain.particles, c).take(0) =~= chain.constraints);
        },
        (Decision::Extend { at }, Some(particle), Some(chain)) => {
            lemma_grown_is_wf(chain, particle, at, c);
            lemma_linked_is_full(chain.grown(particle, at), c);
        },
        (Decision::Finish { at }, Some(particle), Some(chain)) => {
            lemma_grown_is_wf(chain, particle, at, c);
            lemma_linked_is_full(chain.grown(particle, at), c);
            let closed = state.closed(chain, particle, at);
            assert(closed.wf(c));
            assert forall|i: int| 0 <= i < next.finished.len() implies {
                &&& (#[trigger] next.finished[i]).lifecycle == Lifecycle::Finalized
                &&& next.finished[i].wf(c)
            } by {
                if i < state.finished.len() {
                    assert(next.finished[i] == state.finished[i]);
                } else {
                    assert(next.finished[i] == closed);
                }
            }
        },
        _ => {},
    }
}

/// The builder itself: the configuration, the one chain that may be in the
/// building state, and the chains that were finalized.
#[derive(Debug)]
pub struct ChainBuilder {
    min_distance: u32,
    strategy: LinkStrategy,
    compliance: u32,
    active: Option<Chain>,
    finished: Vec<Chain>,
}

impl View for ChainBuilder {
    type V = BuilderView;

    closed spec fn view(&self) -> BuilderView {
        BuilderView {
            min_distance: self.min_distance,
            strategy: self.strategy,
            compliance: self.compliance,
            active: match self.active {
                Some(chain) => Some(chain@),
                None => None,
            },
            finished: Seq::new(self.finished@.len(), |i: int| self.finished@[i]@),
        }
    }
}

impl ChainBuilder {
    /// Whether the builder's state is well-formed.
    pub open spec fn wf(&self) -> bool {
        self@.wf()
    }

    /// An idle builder. A particle is appended to a chain only where the
    /// pointer is at least `min_distance` away from the chain's endpoint;
    /// every constraint gets `compliance`.
    pub fn new(min_distance: u32, strategy: LinkStrategy, compliance: u32) -> (builder: ChainBuilder)
        ensures
            builder@ == BuilderView::initial(min_distance, strategy, compliance),
            builder.wf(),
    {
        let builder = ChainBuilder {
            min_distance,
            strategy,
            compliance,
            active: None,
            finished: Vec::new(),
        };
        assert(builder@.finished =~= Seq::empty());
        builder
    }

    /// Whether a chain is being built.
    pub fn is_building(&self) -> (building: bool)
        ensures
            building == self@.active.is_some(),
    {
        self.active.is_some()
    }

    /// The chain being built, if any.
    pub fn active(&self) -> (chain: Option<&Chain>)
        ensures
            chain.is_some() == self@.active.is_some(),
            chain matches Some(c) ==> c@ == self@.active.unwrap(),
    {
        self.active.as_ref()
    }

    /// The last particle of the chain being built. Its position in the
    /// simulation is what the next tick's `endpoint_at` has to hold.
    pub fn endpoint(&self) -> (endpoint: Option<ParticleId>)
        ensures
            endpoint == match self@.active {
                Some(chain) => if chain.particles.len() > 0 {
                    Some(chain.endpoint())
                } else {
                    None
                },
                None => None,
            },
    {
        match &self.active {
            Some(chain) => chain.endpoint(),
            None => None,
        }
    }

    /// The finalized chains, oldest first.
    pub fn finished(&self) -> (chains: &Vec<Chain>)
        ensures
            chains@.len() == self@.finished.len(),
            forall|i: int| 0 <= i < chains@.len() ==> (#[trigger] chains@[i])@ == self@.finished[i],
    {
        &self.finished
    }

    /// The least distance between the endpoint and a particle appended to it.
    pub fn min_distance(&self) -> (min_distance: u32)
        ensures
            min_distance == self@.min_distance,
    {
        self.min_distance
    }

    /// When constraints are created.
    pub fn strategy(&self) -> (strategy: LinkStrategy)
        ensures
            strategy == self@.strategy,
    {
        self.strategy
    }

    /// The compliance that every constraint gets.
    pub fn compliance(&self) -> (compliance: u32)
        ensures
            compliance == self@.compliance,
    {
        self.compliance
    }

    /// What the simulation has to create for `tick`. Nothing changes.
    pub fn decide(&self, tick: &Tick) -> (decision: Decision)
        ensures
            decision == self@.decide(*tick),
    {
        let at = tick.pointer.position;
        match &self.active {
            None => {
                if tick.pressed && tick.pointer.available {
                    Decision::Start { at }
                } else {
                    Decision::Rest
                }
            },
            Some(_) => {
                if !tick.pressed {
                    Decision::Finish { at }
                } else if !tick.pointer.available {
                    Decision::Rest
                } else {
                    match tick.endpoint_at {
                        Some(endpoint) => {
                            if at.is_far_enough_from(endpoint, self.min_distance) {
                                Decision::Extend { at }
                            } else {
                                Decision::Rest
                            }
                        },
                        None => Decision::Rest,
                    }
                }
            },
        }
    }

    /// Moves on by one tick and returns the constraints that the simulation
    /// has to create now, in chain order.
    ///
    /// `tick.created` is the particle created for `self.decide(tick)`. Where
    /// it is `None` although a particle was asked for, the tick is dropped.
    pub fn advance(&mut self, tick: &Tick) -> (emitted: Vec<Constraint>)
        requires
            old(self).wf(),
        ensures
            final(self).wf(),
            final(self)@ == old(self)@.step(*tick),
            emitted@ == old(self)@.emitted(*tick),
            old(self)@.finished.is_prefix_of(final(self)@.finished),
    {
        proof {
            lemma_step_preserves_wf(self@, *tick);
        }
        let decision = self.decide(tick);
        match (decision, tick.created) {
            (Decision::Start { at }, Some(particle)) => {
                self.active = Some(Chain::start(particle, at));
                Vec::new()
            },
            (Decision::Extend { at }, Some(particle)) => {
                let mut chain = self.active.take().unwrap();
                proof {
                    lemma_grown_is_wf(chain@, particle, at, self.compliance);
                }
                chain.grow(particle, at);
                let emitted = match self.strategy {
                    LinkStrategy::Incremental => chain.link_pending(self.compliance),
                    LinkStrategy::Batched => Vec::new(),
                };
                self.active = Some(chain);
                emitted
            },
            (Decision::Finish { at }, Some(particle)) => {
                let mut chain = self.active.take().unwrap();
                proof {
                    lemma_grown_is_wf(chain@, particle, at, self.compliance);
                }
                chain.grow(particle, at);
                let emitted = chain.link_pending(self.compliance);
                chain.finalize();
                self.finished.push(chain);
                assert(self@.finished =~= old(self)@.finished.push(chain@));
                emitted
            },
            _ => Vec::new(),
        }
    }
}

} // verus!
