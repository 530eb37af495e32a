//! What holds of the builder and of the curve, whatever is drawn.

use crate::builder::{
    lemma_grown_is_wf, lemma_linked_is_full, lemma_step_preserves_wf, BuilderView, Decision, Tick,
};
use crate::chain::{consecutive_links, ChainView, Constraint, Lifecycle, LinkStrategy};
use crate::curve::{fit, in_domain, position_at, Polynomial, SegmentView};
use crate::geometry::Point;
use vstd::prelude::*;

verus! {

/// All chains there are: the finalized ones, then the one being built.
pub open spec fn all_chains(state: BuilderView) -> Seq<ChainView> {
    match state.active {
        Some(chain) => state.finished.push(chain),
        None => state.finished,
    }
}

/// How many of `chains` are in the building state.
pub open spec fn building_count(chains: Seq<ChainView>) -> nat
    decreases chains.len(),
{
    if chains.len() == 0 {
        0
    } else {
        let rest = building_count(chains.drop_last());
        if chains.last().lifecycle == Lifecycle::Building {
            rest + 1
        } else {
            rest
        }
    }
}

/// Whether two builders have drawn the same: the same finalized chains, and
/// the same particles and control points in the chain being built.
pub open spec fn same_drawing(a: BuilderView, b: BuilderView) -> bool {
    &&& a.finished == b.finished
    &&& match (a.active, b.active) {
        (Some(x), Some(y)) => x.particles == y.particles && x.points == y.points,
        (None, None) => true,
        _ => false,
    }
}

/// Ticks leave a well-formed builder well-formed.
pub proof fn lemma_run_preserves_wf(state: BuilderView, ticks: Seq<Tick>)
    requires
        state.wf(),
    ensures
        state.run(ticks).wf(),
    decreases ticks.len(),
{
    if ticks.len() > 0 {
        lemma_run_preserves_wf(state, ticks.drop_last());
        lemma_step_preserves_wf(state.run(ticks.drop_last()), ticks.last());
    }
}

/// Among finalized chains none is in the building state.
proof fn lemma_finalized_count_nothing(chains: Seq<ChainView>)
    requires
        forall|i: int| 0 <= i < chains.len() ==> (#[trigger] chains[i]).lifecycle == Lifecycle::Finalized,
    ensures
        building_count(chains) == 0,
    decreases chains.len(),
{
    if chains.len() > 0 {
        lemma_finalized_count_nothing(chains.drop_last());
    }
}

/// At most one chain is in the building state, after any ticks.
pub proof fn law_one_chain_in_building(state: BuilderView, ticks: Seq<Tick>)
    requires
        state.wf(),
    ensures
        building_count(all_chains(state.run(ticks))) <= 1,
{
    lemma_run_preserves_wf(state, ticks);
    let after = state.run(ticks);
    lemma_finalized_count_nothing(after.finished);
    match after.active {
        Some(chain) => {
            assert(all_chains(after).drop_last() =~= after.finished);
        },
        None => {},
    }
}

/// A finalized chain never changes: whatever ticks follow, its particles,
/// its control points and its constraints stay as they were.
pub proof fn law_finalized_chains_never_change(state: BuilderView, ticks: Seq<Tick>)
    ensures
        state.finished.len() <= state.run(ticks).finished.len(),
        forall|i: int|
            0 <= i < state.finished.len() ==> #[trigger] state.run(ticks).finished[i]
                == state.finished[i],
    decreases ticks.len(),
{
    if ticks.len() > 0 {
        law_finalized_chains_never_change(state, ticks.drop_last());
    }
}

/// A finalized chain of `n` particles has `n - 1` constraints: one for each
/// pair of neighbours, in chain order, all with the builder's compliance.
pub proof fn law_finalized_chain_links_neighbours(state: BuilderView, ticks: Seq<Tick>, i: int)
    requires
        state.wf(),
        0 <= i < state.run(ticks).finished.len(),
    ensures
        ({
            let chain = state.run(ticks).finished[i];
            &&& chain.particles.len() >= 2
            &&& chain.points.len() == chain.particles.len()
            &&& chain.constraints.len() == chain.particles.len() - 1
            &&& forall|j: int|
                0 <= j < chain.constraints.len() ==> #[trigger] chain.constraints[j] == (Constraint {
                    first: chain.particles[j],
                    second: chain.particles[j + 1],
                    compliance: state.compliance,
                })
        }),
{
    lemma_run_preserves_wf(state, ticks);
    lemma_run_keeps_configuration(state, ticks);
    let chain = state.run(ticks).finished[i];
    let all = consecutive_links(chain.particles, state.compliance);
    assert(all.take(chain.constraints.len() as int) =~= all);
}

/// Every chain has one control point for each of its particles, after any
/// ticks.
pub proof fn law_control_points_mirror_particles(state: BuilderView, ticks: Seq<Tick>, i: int)
    requires
        state.wf(),
        0 <= i < all_chains(state.run(ticks)).len(),
    ensures
        all_chains(state.run(ticks))[i].points.len() == all_chains(state.run(ticks))[i].particles.len(),
{
    lemma_run_preserves_wf(state, ticks);
    lemma_run_keeps_configuration(state, ticks);
}

/// What a tick hands to the simulation is what the chain's own record of
/// constraints gains in that tick: nothing is handed out twice, and nothing
/// is recorded that was not handed out.
pub proof fn law_emitted_is_what_the_chain_gains(state: BuilderView, tick: Tick)
    requires
        state.wf(),
    ensures
        match (state.active, state.step(tick).active) {
            (Some(before), Some(after)) => after.constraints == before.constraints + state.emitted(
                tick,
            ),
            (Some(before), None) => state.step(tick).finished.last().constraints
                == before.constraints + state.emitted(tick),
            (None, Some(after)) => after.constraints.len() == 0 && state.emitted(tick).len() == 0,
            (None, None) => state.emitted(tick).len() == 0,
        },
{
    match (state.decide(tick), tick.created, state.active) {
        (Decision::Extend { at }, Some(particle), Some(chain)) => {
            assert(chain.constraints + Seq::<Constraint>::empty() =~= chain.constraints);
        },
        (_, _, Some(chain)) => {
            assert(chain.constraints + Seq::<Constraint>::empty() =~= chain.constraints);
        },
        _ => {},
    }
}

/// Ticks do not touch the configuration.
pub proof fn lemma_run_keeps_configuration(state: BuilderView, ticks: Seq<Tick>)
    ensures
        state.run(ticks).min_distance == state.min_distance,
        state.run(ticks).strategy == state.strategy,
        state.run(ticks).compliance == state.compliance,
    decreases ticks.len(),
{
    if ticks.len() > 0 {
        lemma_run_keeps_configuration(state, ticks.drop_last());
    }
}

/// One tick keeps two builders that differ in strategy alone in step.
proof fn lemma_step_keeps_same_drawing(a: BuilderView, b: BuilderView, tick: Tick)
    requires
        a.wf(),
        b.wf(),
        a.min_distance == b.min_distance,
        a.compliance == b.compliance,
        same_drawing(a, b),
    ensures
        same_drawing(a.step(tick), b.step(tick)),
{
    let c = a.compliance;
    assert(a.decide(tick) == b.decide(tick));
    match (a.decide(tick), tick.created, a.active) {
        (Decision::Extend { at }, Some(particle), Some(x)) => {
            let y = b.active.unwrap();
            assert(a.extended(x, particle, at).particles == b.extended(y, particle, at).particles);
            assert(a.extended(x, particle, at).points == b.extended(y, particle, at).points);
        },
        (Decision::Finish { at }, Some(particle), Some(x)) => {
            let y = b.active.unwrap();
            lemma_grown_is_wf(x, particle, at, c);
            lemma_grown_is_wf(y, particle, at, c);
            lemma_linked_is_full(x.grown(particle, at), c);
            lemma_linked_is_full(y.grown(particle, at), c);
            assert(a.closed(x, particle, at).constraints == b.closed(y, particle, at).constraints);
            assert(a.closed(x, particle, at) == b.closed(y, particle, at));
        },
        _ => {},
    }
}

/// Both link strategies draw the same: after the same ticks the chains that
/// were finalized are equal, constraints included, and the chain being built
/// has the same particles and control points.
pub proof fn law_strategies_agree(min_distance: u32, compliance: u32, ticks: Seq<Tick>)
    ensures
        same_drawing(
            BuilderView::initial(min_distance, LinkStrategy::Incremental, compliance).run(ticks),
            BuilderView::initial(min_distance, LinkStrategy::Batched, compliance).run(ticks),
        ),
    decreases ticks.len(),
{
    let a = BuilderView::initial(min_distance, LinkStrategy::Incremental, compliance);
    let b = BuilderView::initial(min_distance, LinkStrategy::Batched, compliance);
    if ticks.len() > 0 {
        let before = ticks.drop_last();
        law_strategies_agree(min_distance, compliance, before);
        lemma_run_preserves_wf(a, before);
        lemma_run_preserves_wf(b, before);
        lemma_run_keeps_configuration(a, before);
        lemma_run_keeps_configuration(b, before);
        lemma_step_keeps_same_drawing(a.run(before), b.run(before), ticks.last());
    }
}

/// A polynomial at both ends of its segment.
proof fn lemma_numerator_at_ends(p: Polynomial, m: int)
    ensures
        p.numerator(0, m) == p.a * (m * m * m),
        p.numerator(m, m) == (p.a + p.b + p.c + p.d) * (m * m * m),
{
    assert(p.numerator(0, m) == p.a * (m * m * m)) by (nonlinear_arith)
        requires
            p.numerator(0, m) == p.a * (m * m * m) + p.b * (0 * m * m) + p.c * (0 * 0 * m) + p.d * (0
                * 0 * 0),
    ;
    assert(p.numerator(m, m) == (p.a + p.b + p.c + p.d) * (m * m * m)) by (nonlinear_arith)
        requires
            p.numerator(m, m) == p.a * (m * m * m) + p.b * (m * m * m) + p.c * (m * m * m) + p.d * (m
                * m * m),
    ;
}

/// The curve passes through every control point: at the parameter `i` it is
/// at the control point `i`, exactly. The parameter is given as the fraction
/// `i * denom / denom`, whatever `denom` is.
pub proof fn law_curve_passes_through_control_points(points: Seq<Point>, i: int, denom: int)
    requires
        points.len() >= 2,
        0 <= i < points.len(),
        denom > 0,
    ensures
        fit(points) matches Some(segments) && segments.len() == points.len() - 1 && in_domain(
            segments.len(),
            i * denom,
            denom,
        ) && position_at(segments, i * denom, denom).is_point(points[i]),
{
    let segments = fit(points).unwrap();
    let n = points.len() as int;
    let m3 = denom * denom * denom;
    assert(0 <= i * denom <= (n - 1) * denom) by (nonlinear_arith)
        requires
            0 <= i <= n - 1,
            denom > 0,
    ;
    assert((i * denom) / denom == i) by {
        vstd::arithmetic::div_mod::lemma_div_multiples_vanish(i, denom);
        assert(denom * i == i * denom) by (nonlinear_arith);
    }
    let at = position_at(segments, i * denom, denom);
    if i < n - 1 {
        let segment: SegmentView = segments[i];
        assert(i * denom - i * denom == 0);
        lemma_numerator_at_ends(segment.x, denom);
        lemma_numerator_at_ends(segment.y, denom);
        assert(segment.x.a == 2 * points[i].x);
        assert(segment.y.a == 2 * points[i].y);
        assert((2 * points[i].x) * m3 == (2 * m3) * points[i].x) by (nonlinear_arith);
        assert((2 * points[i].y) * m3 == (2 * m3) * points[i].y) by (nonlinear_arith);
    } else {
        let segment: SegmentView = segments[n - 2];
        assert(i * denom - (n - 2) * denom == denom) by (nonlinear_arith)
            requires
                i == n - 1,
        ;
        lemma_numerator_at_ends(segment.x, denom);
        lemma_numerator_at_ends(segment.y, denom);
        assert(segment.x.a + segment.x.b + segment.x.c + segment.x.d == 2 * points[i].x);
        assert(segment.y.a + segment.y.b + segment.y.c + segment.y.d == 2 * points[i].y);
        assert((2 * points[i].x) * m3 == (2 * m3) * points[i].x) by (nonlinear_arith);
        assert((2 * points[i].y) * m3 == (2 * m3) * points[i].y) by (nonlinear_arith);
    }
}

/// Fitting is a function of the control points alone: the same points give
/// the same curve, however often it is fitted.
pub proof fn law_refit_is_identical(first: Seq<Point>, second: Seq<Point>)
    requires
        first == second,
    ensures
        fit(first) == fit(second),
{
}

} // verus!
