//! Particles, constraints and the chain that orders them.

use crate::curve::ControlPoints;
use crate::geometry::Point;
use vstd::prelude::*;

verus! {

/// The handle of a particle. The simulation owns the particle; the library
/// only keeps the handle and never looks inside it.
#[derive(Clone, Copy, Debug, PartialEq, Eq, Hash, Structural)]
pub struct ParticleId(pub u64);

/// How the simulation treats a particle.
#[derive(Clone, Copy, Debug, PartialEq, Eq, Structural)]
pub enum BodyKind {
    /// Fixed in place.
    Static,
    /// Moved by the simulation.
    Dynamic,
    /// Moved from outside the simulation.
    Kinematic,
}

/// A joint between two particles. The order of the two matters to the
/// simulation, which measures anchor offsets from `first`.
#[derive(Clone, Copy, Debug, PartialEq, Eq, Structural)]
pub struct Constraint {
    pub first: ParticleId,
    pub second: ParticleId,
    /// Inverse stiffness, in the simulation's own fixed-point unit. It is
    /// handed through and never computed with.
    pub compliance: u32,
}

/// Whether a chain can still grow.
#[derive(Clone, Copy, Debug, PartialEq, Eq, Structural)]
pub enum Lifecycle {
    Building,
    Finalized,
}

/// When the constraints of a chain are created.
#[derive(Clone, Copy, Debug, PartialEq, Eq, Structural)]
pub enum LinkStrategy {
    /// Each appended particle is linked to its predecessor at once.
    Incremental,
    /// Nothing is linked until the chain is finalized; then every
    /// consecutive pair is linked in one pass.
    Batched,
}

/// One constraint for each pair of neighbours in `particles`, in chain order.
pub open spec fn consecutive_links(particles: Seq<ParticleId>, compliance: u32) -> Seq<Constraint> {
    if particles.len() == 0 {
        Seq::empty()
    } else {
        Seq::new(
            (particles.len() - 1) as nat,
            |i: int| Constraint { first: particles[i], second: particles[i + 1], compliance },
        )
    }
}

/// What a chain is, as plain sequences.
pub struct ChainView {
    pub particles: Seq<ParticleId>,
    pub points: Seq<Point>,
    pub constraints: Seq<Constraint>,
    pub lifecycle: Lifecycle,
}

impl ChainView {
    /// A chain of one particle, created at `at`.
    pub open spec fn start(particle: ParticleId, at: Point) -> ChainView {
        ChainView {
            particles: seq![particle],
            points: seq![at],
            constraints: Seq::empty(),
            lifecycle: Lifecycle::Building,
        }
    }

    /// The chain with one more particle at its end, not yet linked.
    pub open spec fn grown(self, particle: ParticleId, at: Point) -> ChainView {
        ChainView {
            particles: self.particles.push(particle),
            points: self.points.push(at),
            ..self
        }
    }

    /// The links between neighbours that the chain does not hold yet.
    pub open spec fn pending(self, compliance: u32) -> Seq<Constraint> {
        consecutive_links(self.particles, compliance).skip(self.constraints.len() as int)
    }

    /// The chain with every pair of neighbours linked.
    pub open spec fn linked(self, compliance: u32) -> ChainView {
        ChainView { constraints: self.constraints + self.pending(compliance), ..self }
    }

    /// The chain, closed for good.
    pub open spec fn finalized(self) -> ChainView {
        ChainView { lifecycle: Lifecycle::Finalized, ..self }
    }

    /// The last particle of the chain.
    pub open spec fn endpoint(self) -> ParticleId {
        self.particles.last()
    }

    /// A chain has at least one particle, one control point for each
    /// particle, and its constraints are the first of the links between
    /// neighbours. A finalized chain has a start and an end, and all links.
    pub open spec fn wf(self, compliance: u32) -> bool {
        &&& self.particles.len() >= 1
        &&& self.points.len() == self.particles.len()
        &&& self.constraints.len() < self.particles.len()
        &&& self.constraints == consecutive_links(self.particles, compliance).take(
            self.constraints.len() as int,
        )
        &&& self.lifecycle == Lifecycle::Finalized ==> {
            &&& self.particles.len() >= 2
            &&& self.constraints.len() == self.particles.len() - 1
        }
    }

    /// Whether all neighbours are linked.
    pub open spec fn fully_linked(self, compliance: u32) -> bool {
        self.constraints == consecutive_links(self.particles, compliance)
    }
}

/// An ordered sequence of particles drawn in one stroke, with the control
/// point recorded for each particle and the constraints created so far.
#[derive(Debug)]
pub struct Chain {
    particles: Vec<ParticleId>,
    control_points: ControlPoints,
    constraints: Vec<Constraint>,
    lifecycle: Lifecycle,
}

impl View for Chain {
    type V = ChainView;

    closed spec fn view(&self) -> ChainView {
        ChainView {
            particles: self.particles@,
            points: self.control_points@,
            constraints: self.constraints@,
            lifecycle: self.lifecycle,
        }
    }
}

impl Chain {
    /// The particles, in chain order.
    pub fn particles(&self) -> (particles: &Vec<ParticleId>)
        ensures
            particles@ == self@.particles,
    {
        &self.particles
    }

    /// The control points, one for each particle.
    pub fn control_points(&self) -> (control_points: &ControlPoints)
        ensures
            control_points@ == self@.points,
    {
        &self.control_points
    }

    /// The constraints created so far.
    pub fn constraints(&self) -> (constraints: &Vec<Constraint>)
        ensures
            constraints@ == self@.constraints,
    {
        &self.constraints
    }

    /// Whether the chain can still grow.
    pub fn lifecycle(&self) -> (lifecycle: Lifecycle)
        ensures
            lifecycle == self@.lifecycle,
    {
        self.lifecycle
    }

    /// The last particle of the chain, if it has any.
    pub fn endpoint(&self) -> (endpoint: Option<ParticleId>)
        ensures
            self@.particles.len() == 0 ==> endpoint.is_none(),
            self@.particles.len() > 0 ==> endpoint == Some(self@.endpoint()),
    {
        let n: usize = self.particles.len();
        if n == 0 {
            None
        } else {
            Some(self.particles[n - 1])
        }
    }

    /// A chain of one particle, created at `at`.
    pub(crate) fn start(particle: ParticleId, at: Point) -> (chain: Chain)
        ensures
            chain@ == ChainView::start(particle, at),
    {
        let mut particles: Vec<ParticleId> = Vec::new();
        particles.push(particle);
        let mut points: Vec<Point> = Vec::new();
        points.push(at);
        let chain = Chain {
            particles,
            control_points: ControlPoints { points },
            constraints: Vec::new(),
            lifecycle: Lifecycle::Building,
        };
        assert(chain@.particles =~= seq![particle]);
        assert(chain@.points =~= seq![at]);
        chain
    }

    /// Appends a particle created at `at`, without linking it.
    pub(crate) fn grow(&mut self, particle: ParticleId, at: Point)
        ensures
            final(self)@ == old(self)@.grown(particle, at),
    {
        self.particles.push(particle);
        self.control_points.points.push(at);
    }

    /// Links every pair of neighbours that is not linked yet and returns the
    /// new constraints, in chain order.
    pub(crate) fn link_pending(&mut self, compliance: u32) -> (created: Vec<Constraint>)
        requires
            old(self)@.wf(compliance),
        ensures
            final(self)@ == old(self)@.linked(compliance),
            created@ == old(self)@.pending(compliance),
            final(self)@.wf(compliance),
            final(self)@.fully_linked(compliance),
    {
        let ghost all = consecutive_links(self.particles@, compliance);
        let ghost before = self.constraints@;
        let mut created: Vec<Constraint> = Vec::new();
        let n: usize = self.particles.len();
        let mut i: usize = self.constraints.len();
        while i + 1 < n
            invariant
                n == self.particles.len(),
                n >= 1,
                before.len() <= i < n,
                self.particles@ == old(self).particles@,
                self.control_points == old(self).control_points,
                self.lifecycle == old(self).lifecycle,
                all == consecutive_links(self.particles@, compliance),
                self.constraints@ == all.take(i as int),
                before == all.take(before.len() as int),
                created@ == all.subrange(before.len() as int, i as int),
            decreases n - i,
        {
            let link = Constraint {
                first: self.particles[i],
                second: self.particles[i + 1],
                compliance,
            };
            assert(link == all[i as int]);
            self.constraints.push(link);
            created.push(link);
            assert(self.constraints@ =~= all.take(i + 1));
            assert(created@ =~= all.subrange(before.len() as int, i + 1));
            i = i + 1;
        }
        assert(self.constraints@ =~= all);
        assert(created@ =~= all.skip(before.len() as int));
        assert(self.constraints@ =~= before + all.skip(before.len() as int));
        assert(all.take(all.len() as int) =~= all);
        created
    }

    /// Closes the chain for good.
    pub(crate) fn finalize(&mut self)
        ensures
            final(self)@ == old(self)@.finalized(),
    {
        self.lifecycle = Lifecycle::Finalized;
    }
}

} // verus!
