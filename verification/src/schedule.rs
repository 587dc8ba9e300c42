//! The wave schedule as mathematics: which edges fire in which wave, given
//! a snapshot of the edges and the changed roots.

use bevy::ecs::entity::Entity;
use bevy::ecs::system::SystemId;
use vstd::prelude::*;

verus! {

/// One dependency edge of a snapshot: when `source` is in the frontier of a
/// wave, `procedure` runs and `dependent` joins the next frontier.
#[derive(Clone, Copy, Debug, PartialEq, Eq)]
pub struct RxEdge {
    pub dependent: Entity,
    pub source: Entity,
    pub procedure: SystemId,
}

/// The edges that fire in a wave with the given frontier: those whose source
/// is in the frontier, in snapshot order.
pub open spec fn fired(edges: Seq<RxEdge>, frontier: Seq<Entity>) -> Seq<RxEdge> {
    edges.filter(|edge: RxEdge| frontier.contains(edge.source))
}

/// The dependents of a run of edges, one per edge, in the same order.
pub open spec fn dependents(run: Seq<RxEdge>) -> Seq<Entity> {
    run.map_values(|edge: RxEdge| edge.dependent)
}

/// The frontier of wave number `wave`: the changed roots for wave 0, and
/// after that the dependents of the edges that fired in the wave before.
pub open spec fn frontier_at(edges: Seq<RxEdge>, roots: Seq<Entity>, wave: nat) -> Seq<Entity>
    decreases wave,
{
    if wave == 0 {
        roots
    } else {
        dependents(fired(edges, frontier_at(edges, roots, (wave - 1) as nat)))
    }
}

/// The edges that fire in wave number `wave`.
pub open spec fn wave_runs(edges: Seq<RxEdge>, roots: Seq<Entity>, wave: nat) -> Seq<RxEdge> {
    fired(edges, frontier_at(edges, roots, wave))
}

/// Every edge fired before wave number `wave`, in the order of firing.
pub open spec fn runs_before(edges: Seq<RxEdge>, roots: Seq<Entity>, wave: nat) -> Seq<RxEdge>
    decreases wave,
{
    if wave == 0 {
        Seq::empty()
    } else {
        runs_before(edges, roots, (wave - 1) as nat) + wave_runs(edges, roots, (wave - 1) as nat)
    }
}

/// No edge fires in wave number `wave`: the pass ends there.
pub open spec fn quiescent_at(edges: Seq<RxEdge>, roots: Seq<Entity>, wave: nat) -> bool {
    wave_runs(edges, roots, wave).len() == 0
}

/// Scanning one more edge of the snapshot either appends that edge to the
/// fired ones or leaves them as they are.
pub proof fn lemma_fired_step(edges: Seq<RxEdge>, frontier: Seq<Entity>, n: int)
    requires
        0 <= n < edges.len(),
    ensures
        fired(edges.take(n + 1), frontier) == if frontier.contains(edges[n].source) {
            fired(edges.take(n), frontier).push(edges[n])
        } else {
            fired(edges.take(n), frontier)
        },
{
    let pred = |edge: RxEdge| frontier.contains(edge.source);
    assert(edges.take(n + 1) =~= edges.take(n).push(edges[n]));
    edges.take(n).lemma_filter_push(edges[n], pred);
}

/// What has fired after scanning a prefix of the snapshot is a prefix of what
/// fires in the whole wave.
pub proof fn lemma_fired_prefix(edges: Seq<RxEdge>, frontier: Seq<Entity>, n: int)
    requires
        0 <= n <= edges.len(),
    ensures
        fired(edges.take(n), frontier).len() <= fired(edges, frontier).len(),
        fired(edges, frontier).take(fired(edges.take(n), frontier).len() as int) == fired(
            edges.take(n),
            frontier,
        ),
{
    let pred = |edge: RxEdge| frontier.contains(edge.source);
    let head = edges.take(n);
    let tail = edges.skip(n);
    assert(edges =~= head + tail);
    Seq::filter_distributes_over_add(head, tail, pred);
}

/// With an empty frontier no edge fires.
pub proof fn lemma_empty_frontier_fires_nothing(edges: Seq<RxEdge>, frontier: Seq<Entity>)
    requires
        frontier.len() == 0,
    ensures
        fired(edges, frontier).len() == 0,
{
    let pred = |edge: RxEdge| frontier.contains(edge.source);
    if edges.filter(pred).len() > 0 {
        edges.lemma_filter_pred(pred, 0);
        assert(frontier.contains(edges.filter(pred)[0].source));
    }
}

/// An edge fires in a wave exactly when it is in the snapshot and its source
/// is in the frontier. So edges that share a source fire together: each of
/// them, in the wave in which the source is in the frontier.
pub proof fn lemma_fired_membership(edges: Seq<RxEdge>, frontier: Seq<Entity>, edge: RxEdge)
    ensures
        fired(edges, frontier).contains(edge) <==> edges.contains(edge) && frontier.contains(
            edge.source,
        ),
{
    let pred = |candidate: RxEdge| frontier.contains(candidate.source);
    let kept = edges.filter(pred);
    if kept.contains(edge) {
        edges.lemma_filter_contains_rev(pred, edge);
        let i = choose|i: int| 0 <= i < kept.len() && kept[i] == edge;
        edges.lemma_filter_pred(pred, i);
    }
    if edges.contains(edge) && frontier.contains(edge.source) {
        let i = choose|i: int| 0 <= i < edges.len() && edges[i] == edge;
        edges.lemma_filter_contains(pred, i);
    }
}

/// A slot that is neither a changed root nor the dependent of an edge is in
/// no frontier of the pass, and no edge that has it as its source fires,
/// in whatever wave.
pub proof fn lemma_unreached_source_never_fires(
    edges: Seq<RxEdge>,
    roots: Seq<Entity>,
    slot: Entity,
    wave: nat,
)
    requires
        !roots.contains(slot),
        forall|i: int| 0 <= i < edges.len() ==> (#[trigger] edges[i]).dependent != slot,
    ensures
        !frontier_at(edges, roots, wave).contains(slot),
        forall|i: int|
            0 <= i < wave_runs(edges, roots, wave).len() ==> (#[trigger] wave_runs(
                edges,
                roots,
                wave,
            )[i]).source != slot,
        forall|i: int|
            0 <= i < runs_before(edges, roots, wave).len() ==> (#[trigger] runs_before(
                edges,
                roots,
                wave,
            )[i]).source != slot,
    decreases wave,
{
    let frontier = frontier_at(edges, roots, wave);
    if wave > 0 {
        let earlier = (wave - 1) as nat;
        lemma_unreached_source_never_fires(edges, roots, slot, earlier);
        let run = wave_runs(edges, roots, earlier);
        assert forall|i: int| 0 <= i < frontier.len() implies frontier[i] != slot by {
            assert(frontier[i] == run[i].dependent);
            assert(run.contains(run[i]));
            lemma_fired_membership(edges, frontier_at(edges, roots, earlier), run[i]);
        }
        let head = runs_before(edges, roots, earlier);
        let all = runs_before(edges, roots, wave);
        assert forall|i: int| 0 <= i < all.len() implies (#[trigger] all[i]).source != slot by {
            if i < head.len() {
                assert(all[i] == head[i]);
            } else {
                assert(all[i] == run[i - head.len()]);
            }
        }
    }
    let run = wave_runs(edges, roots, wave);
    assert forall|i: int| 0 <= i < run.len() implies (#[trigger] run[i]).source != slot by {
        assert(run.contains(run[i]));
        lemma_fired_membership(edges, frontier, run[i]);
    }
}

/// Every edge leads from a slot to one of higher rank, and no dependent has
/// rank `bound` or more.
pub open spec fn ranked(edges: Seq<RxEdge>, rank: spec_fn(Entity) -> nat, bound: nat) -> bool {
    forall|i: int|
        0 <= i < edges.len() ==> rank((#[trigger] edges[i]).source) < rank(edges[i].dependent)
            < bound
}

/// In a ranked graph every slot in the frontier of a wave has at least the
/// wave's number as its rank.
pub proof fn lemma_frontier_climbs(
    edges: Seq<RxEdge>,
    roots: Seq<Entity>,
    rank: spec_fn(Entity) -> nat,
    bound: nat,
    wave: nat,
)
    requires
        ranked(edges, rank, bound),
    ensures
        forall|i: int|
            0 <= i < frontier_at(edges, roots, wave).len() ==> rank(
                #[trigger] frontier_at(edges, roots, wave)[i],
            ) >= wave,
    decreases wave,
{
    if wave > 0 {
        let earlier = (wave - 1) as nat;
        lemma_frontier_climbs(edges, roots, rank, bound, earlier);
        let before = frontier_at(edges, roots, earlier);
        let run = wave_runs(edges, roots, earlier);
        let frontier = frontier_at(edges, roots, wave);
        assert forall|i: int| 0 <= i < frontier.len() implies rank(#[trigger] frontier[i])
            >= wave by {
            assert(frontier[i] == run[i].dependent);
            assert(run.contains(run[i]));
            lemma_fired_membership(edges, before, run[i]);
            let at = choose|at: int| 0 <= at < before.len() && before[at] == run[i].source;
            assert(rank(before[at]) >= earlier);
        }
    }
}

/// A graph without cycles settles: where the slots can be ranked so that
/// every edge leads to a higher rank below `bound`, no wave from number
/// `bound` on fires anything.
pub proof fn lemma_ranked_graph_settles(
    edges: Seq<RxEdge>,
    roots: Seq<Entity>,
    rank: spec_fn(Entity) -> nat,
    bound: nat,
    wave: nat,
)
    requires
        ranked(edges, rank, bound),
        bound <= wave,
    ensures
        quiescent_at(edges, roots, wave),
{
    let frontier = frontier_at(edges, roots, wave);
    let run = wave_runs(edges, roots, wave);
    if run.len() > 0 {
        lemma_frontier_climbs(edges, roots, rank, bound, wave);
        assert(run.contains(run[0]));
        lemma_fired_membership(edges, frontier, run[0]);
        let at = choose|at: int| 0 <= at < frontier.len() && frontier[at] == run[0].source;
        assert(rank(frontier[at]) >= wave);
        let i = choose|i: int| 0 <= i < edges.len() && edges[i] == run[0];
        assert(rank(edges[i].source) < bound);
    }
}

/// From the first wave on, the runs of a pass begin with the edges that fire
/// in wave 0.
pub proof fn lemma_runs_begin_with_first_wave(edges: Seq<RxEdge>, roots: Seq<Entity>, wave: nat)
    requires
        wave >= 1,
    ensures
        wave_runs(edges, roots, 0).len() <= runs_before(edges, roots, wave).len(),
        runs_before(edges, roots, wave).take(wave_runs(edges, roots, 0).len() as int) == wave_runs(
            edges,
            roots,
            0,
        ),
    decreases wave,
{
    let first = wave_runs(edges, roots, 0);
    let earlier = (wave - 1) as nat;
    let head = runs_before(edges, roots, earlier);
    let tail = wave_runs(edges, roots, earlier);
    if wave == 1 {
        assert(head.len() == 0);
        assert((head + tail).take(first.len() as int) =~= first);
    } else {
        lemma_runs_begin_with_first_wave(edges, roots, earlier);
        assert((head + tail).take(first.len() as int) =~= head.take(first.len() as int));
    }
}

/// `edges` is a chain over `slots`: edge number `i` leads from slot `i` to
/// slot `i + 1`, and no slot occurs twice.
pub open spec fn chain(edges: Seq<RxEdge>, slots: Seq<Entity>) -> bool {
    &&& slots.len() == edges.len() + 1
    &&& slots.no_duplicates()
    &&& forall|i: int|
        0 <= i < edges.len() ==> (#[trigger] edges[i]).source == slots[i] && edges[i].dependent
            == slots[i + 1]
}

/// In a chain, a frontier that holds slot `k` alone fires edge `k` alone;
/// the last slot fires nothing.
pub proof fn lemma_chain_link_fires_alone(
    edges: Seq<RxEdge>,
    slots: Seq<Entity>,
    k: int,
    n: int,
)
    requires
        chain(edges, slots),
        0 <= k < slots.len(),
        0 <= n <= edges.len(),
    ensures
        fired(edges.take(n), seq![slots[k]]) == if k < n {
            seq![edges[k]]
        } else {
            Seq::<RxEdge>::empty()
        },
    decreases n,
{
    let frontier = seq![slots[k]];
    if n == 0 {
        assert(edges.take(0) =~= Seq::<RxEdge>::empty());
        lemma_fired_prefix(Seq::<RxEdge>::empty(), frontier, 0);
        assert(fired(Seq::<RxEdge>::empty(), frontier).len() <= 0) by {
            Seq::<RxEdge>::empty().lemma_filter_len(|edge: RxEdge| frontier.contains(edge.source));
        }
    } else {
        lemma_chain_link_fires_alone(edges, slots, k, n - 1);
        lemma_fired_step(edges, frontier, n - 1);
        assert(frontier[0] == slots[k]);
        if frontier.contains(edges[n - 1].source) {
            assert(slots[n - 1] == slots[k]);
            assert(n - 1 == k);
            assert(Seq::<RxEdge>::empty().push(edges[k]) =~= seq![edges[k]]);
        } else {
            assert(n - 1 != k);
        }
    }
}

/// A chain fires link by link: wave `k` has slot `k` as its frontier and
/// fires edge `k`, once, so that the runs before wave `k` are the first `k`
/// edges in order.
pub proof fn lemma_chain_fires_link_by_link(edges: Seq<RxEdge>, slots: Seq<Entity>, wave: nat)
    requires
        chain(edges, slots),
        wave <= edges.len(),
    ensures
        frontier_at(edges, seq![slots[0]], wave) == seq![slots[wave as int]],
        runs_before(edges, seq![slots[0]], wave) == edges.take(wave as int),
        wave < edges.len() ==> wave_runs(edges, seq![slots[0]], wave) == seq![edges[wave as int]],
        wave == edges.len() ==> quiescent_at(edges, seq![slots[0]], wave),
    decreases wave,
{
    let roots = seq![slots[0]];
    if wave > 0 {
        let earlier = (wave - 1) as nat;
        lemma_chain_fires_link_by_link(edges, slots, earlier);
        let run = wave_runs(edges, roots, earlier);
        assert(run == seq![edges[earlier as int]]);
        assert(dependents(run) =~= seq![slots[wave as int]]);
        assert(edges.take(earlier as int) + run =~= edges.take(wave as int));
    } else {
        assert(edges.take(0) =~= Seq::<RxEdge>::empty());
    }
    assert(edges.take(edges.len() as int) =~= edges);
    lemma_chain_link_fires_alone(edges, slots, wave as int, edges.len() as int);
}

/// With no changed root the first wave fires nothing.
pub proof fn lemma_no_roots_is_quiescent(edges: Seq<RxEdge>, roots: Seq<Entity>)
    requires
        roots.len() == 0,
    ensures
        quiescent_at(edges, roots, 0),
{
    lemma_empty_frontier_fires_nothing(edges, roots);
}

} // verus!
