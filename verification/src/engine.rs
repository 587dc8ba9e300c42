//! The propagation pass: the wave loop over a snapshot, and the pass over a
//! store.

use crate::components::RxEffect;
use crate::schedule::{
    chain, dependents, fired, frontier_at, lemma_chain_fires_link_by_link, lemma_fired_prefix,
    lemma_fired_step, lemma_no_roots_is_quiescent, lemma_ranked_graph_settles,
    lemma_runs_begin_with_first_wave, lemma_unreached_source_never_fires, quiescent_at, ranked,
    runs_before, wave_runs, RxEdge,
};
use crate::store::{
    changed_roots, edge_snapshot, graph_of, run_procedure, same_slot, snapshot_of,
    world_changed, world_computed, world_effects, world_procedures, world_signals, RxFault,
};
use crate::value::RxDatum;
use bevy::ecs::entity::Entity;
use bevy::ecs::system::SystemId;
use bevy::ecs::world::World;
use vstd::prelude::*;

verus! {

/// How a pass ended.
#[derive(Clone, Copy, Debug, PartialEq, Eq)]
pub enum RxPassEnd {
    /// A wave fired nothing: the graph is up to date.
    Quiescent,
    /// The wave cap was reached with edges still to fire.
    Capped,
    /// The store would not run a procedure; the pass stopped at once.
    Failed(RxFault),
}

/// The record of one pass: the snapshot it worked on and what it ran.
#[derive(Debug)]
pub struct RxPass {
    /// The changed roots: the frontier of the first wave.
    pub roots: Vec<Entity>,
    /// The dependency edges, as they stood when the pass began.
    pub edges: Vec<RxEdge>,
    /// Every edge whose procedure the pass asked the store to run, in order.
    /// After a failure the last of them is the edge that failed.
    pub runs: Vec<RxEdge>,
    /// The number of waves that ran to their end and fired something.
    pub waves: usize,
    pub end: RxPassEnd,
}

impl RxPass {
    /// The pass ran what the wave schedule of its snapshot prescribes, wave
    /// after wave, and stopped where it says it did.
    pub open spec fn follows_schedule(&self, wave_cap: usize) -> bool {
        let edges = self.edges@;
        let roots = self.roots@;
        let waves = self.waves as nat;
        &&& waves <= wave_cap
        &&& forall|k: nat| k < waves ==> !quiescent_at(edges, roots, k)
        &&& match self.end {
            RxPassEnd::Quiescent => {
                &&& quiescent_at(edges, roots, waves)
                &&& self.runs@ == runs_before(edges, roots, waves)
            },
            RxPassEnd::Capped => {
                &&& waves == wave_cap
                &&& !quiescent_at(edges, roots, waves)
                &&& self.runs@ == runs_before(edges, roots, waves)
            },
            RxPassEnd::Failed(_) => {
                &&& waves < wave_cap
                &&& runs_before(edges, roots, waves).len() < self.runs@.len()
                &&& self.runs@.len() <= runs_before(edges, roots, waves + 1).len()
                &&& self.runs@ == runs_before(edges, roots, waves + 1).take(
                    self.runs@.len() as int,
                )
            },
        }
    }
}

impl RxPass {
    /// The first run of the pass went as the store decided: `runs` begins
    /// with the first edge that fires in wave 0, and the pass ended as
    /// `Failed` on that very run exactly when its procedure is not among
    /// `procedures`, those that the store would run when the pass began.
    pub open spec fn first_run_decided(&self, procedures: Set<SystemId>) -> bool {
        let first = wave_runs(self.edges@, self.roots@, 0)[0];
        let failed_at_once = self.end is Failed && self.runs@.len() == 1;
        &&& self.runs@.len() > 0
        &&& self.runs@[0] == first
        &&& failed_at_once <==> !procedures.contains(first.procedure)
        &&& failed_at_once ==> self.waves == 0
    }
}

/// What the store's answer to a run means for the pass. On `Ok` the pass
/// goes on, and the edge's dependent joins the next frontier. On a refusal
/// the pass ends as `Failed` with the store's reason, and the next frontier
/// stays as it is.
pub fn settle_run(answer: Result<(), RxFault>, edge: RxEdge, next: &mut Vec<Entity>) -> (end: Option<
    RxPassEnd,
>)
    ensures
        answer is Ok ==> end is None && final(next)@ == old(next)@.push(edge.dependent),
        answer is Err ==> end == Some(RxPassEnd::Failed(answer->Err_0)) && final(next)@ == old(
            next,
        )@,
{
    match answer {
        Ok(()) => {
            next.push(edge.dependent);
            None
        },
        Err(fault) => Some(RxPassEnd::Failed(fault)),
    }
}

/// A pass that begins with no changed root runs no procedure, and ends at
/// once as quiescent.
pub proof fn law_idle_pass(pass: RxPass, wave_cap: usize)
    requires
        pass.follows_schedule(wave_cap),
        pass.roots@.len() == 0,
    ensures
        pass.runs@.len() == 0,
        pass.waves == 0,
        pass.end == RxPassEnd::Quiescent,
{
    lemma_no_roots_is_quiescent(pass.edges@, pass.roots@);
}

/// A pass over a chain that begins at the chain's first slot runs the edges
/// of the chain in their order, each at most once and one in a wave. If it
/// ends as quiescent it has run them all, and it is not capped where the cap
/// allows a wave for each edge.
pub proof fn law_chain_pass(pass: RxPass, wave_cap: usize, slots: Seq<Entity>)
    requires
        pass.follows_schedule(wave_cap),
        chain(pass.edges@, slots),
        pass.roots@ == seq![slots[0]],
    ensures
        pass.runs@.len() <= pass.edges@.len(),
        pass.runs@ == pass.edges@.take(pass.runs@.len() as int),
        pass.end == RxPassEnd::Quiescent ==> pass.runs@ == pass.edges@ && pass.waves
            == pass.edges@.len(),
        pass.edges@.len() <= wave_cap ==> pass.end != RxPassEnd::Capped,
{
    let edges = pass.edges@;
    let roots = pass.roots@;
    let waves = pass.waves as nat;
    assert(edges.take(edges.len() as int) =~= edges);
    assert(waves <= edges.len()) by {
        if waves > edges.len() {
            lemma_chain_fires_link_by_link(edges, slots, edges.len());
            assert(!quiescent_at(edges, roots, edges.len()));
        }
    }
    lemma_chain_fires_link_by_link(edges, slots, waves);
    assert(runs_before(edges, roots, waves) == edges.take(waves as int));
    assert(edges.take(waves as int).len() == waves);
    match pass.end {
        RxPassEnd::Quiescent => {
            assert(waves == edges.len());
        },
        RxPassEnd::Capped => {
            assert(waves < edges.len());
            assert(edges.take(waves as int).take(waves as int) =~= edges.take(waves as int));
        },
        RxPassEnd::Failed(_) => {
            let through = runs_before(edges, roots, waves + 1);
            if waves == edges.len() {
                assert(through =~= runs_before(edges, roots, waves) + wave_runs(
                    edges,
                    roots,
                    waves,
                ));
                assert(through.len() == waves);
            } else {
                lemma_chain_fires_link_by_link(edges, slots, waves + 1);
                assert(through == edges.take(waves as int + 1));
                assert(pass.runs@.len() == waves + 1);
                assert(through.take(waves as int + 1) =~= through);
            }
        },
    }
}

/// A pass over a graph without cycles ends within as many waves as the graph
/// is deep: where the edges of the snapshot are ranked below `bound`, and the
/// cap is no lower, the pass fires at most `bound` waves and is not capped.
pub proof fn law_acyclic_pass_settles(
    pass: RxPass,
    wave_cap: usize,
    rank: spec_fn(Entity) -> nat,
    bound: nat,
)
    requires
        pass.follows_schedule(wave_cap),
        ranked(pass.edges@, rank, bound),
        bound <= wave_cap,
    ensures
        pass.waves <= bound,
        pass.end != RxPassEnd::Capped,
{
    let waves = pass.waves as nat;
    if bound < waves {
        lemma_ranked_graph_settles(pass.edges@, pass.roots@, rank, bound, bound);
    }
    if pass.end == RxPassEnd::Capped {
        lemma_ranked_graph_settles(pass.edges@, pass.roots@, rank, bound, waves);
    }
}

/// The snapshot decides: a slot that was not a changed root when the pass
/// began, and that no edge of the snapshot has as its dependent, is the
/// source of no run of the pass. Whatever a procedure does to such a slot
/// during the pass, no edge fires for it before the next pass.
pub proof fn law_snapshot_decides(pass: RxPass, wave_cap: usize, slot: Entity)
    requires
        pass.follows_schedule(wave_cap),
        !pass.roots@.contains(slot),
        forall|i: int| 0 <= i < pass.edges.len() ==> (#[trigger] pass.edges[i]).dependent != slot,
    ensures
        forall|i: int| 0 <= i < pass.runs.len() ==> (#[trigger] pass.runs[i]).source != slot,
{
    let edges = pass.edges@;
    let roots = pass.roots@;
    let waves = pass.waves as nat;
    lemma_unreached_source_never_fires(edges, roots, slot, waves);
    lemma_unreached_source_never_fires(edges, roots, slot, waves + 1);
}

/// A slot that has no value cell and carries no edge when the pass takes its
/// snapshot, as a deleted slot has none, is the source of no run of the
/// pass: the edges that depend on it do not fire.
pub proof fn law_deleted_source_never_fires(
    pass: RxPass,
    wave_cap: usize,
    signals: Map<Entity, RxDatum>,
    effects: Map<Entity, RxEffect>,
    slot: Entity,
)
    requires
        pass.follows_schedule(wave_cap),
        forall|i: int| 0 <= i < pass.roots.len() ==> signals.dom().contains(#[trigger] pass.roots[i]),
        snapshot_of(pass.edges@, effects),
        !signals.dom().contains(slot),
        !effects.dom().contains(slot),
    ensures
        forall|i: int| 0 <= i < pass.runs.len() ==> (#[trigger] pass.runs[i]).source != slot,
{
    law_snapshot_decides(pass, wave_cap, slot);
}

/// Whether `slot` is in `frontier`.
pub fn frontier_holds(frontier: &Vec<Entity>, slot: Entity) -> (found: bool)
    ensures
        found == frontier@.contains(slot),
{
    let mut i: usize = 0;
    while i < frontier.len()
        invariant
            i <= frontier.len(),
            forall|j: int| 0 <= j < i ==> frontier@[j] != slot,
        decreases frontier.len() - i,
    {
        if same_slot(frontier[i], slot) {
            return true;
        }
        i += 1;
    }
    false
}

fn copy_slots(slots: &Vec<Entity>) -> (copy: Vec<Entity>)
    ensures
        copy@ == slots@,
{
    let mut copy: Vec<Entity> = Vec::new();
    let mut i: usize = 0;
    while i < slots.len()
        invariant
            i <= slots.len(),
            copy@ == slots@.take(i as int),
        decreases slots.len() - i,
    {
        copy.push(slots[i]);
        i += 1;
    }
    copy
}

/// Runs the waves of one pass over a snapshot.
///
/// Wave 0 has `roots` as its frontier. Each wave scans all of `edges` in
/// order; for each edge whose source is in the frontier it asks the store to
/// run the edge's procedure and puts the dependent into the next frontier.
/// The pass ends with the first wave that fires nothing. What the procedures
/// do to the store has no part in which edges fire.
///
/// At most `wave_cap` waves fire: where one more would, the pass ends as
/// `Capped` before it runs anything of that wave. Where the store refuses to
/// run a procedure, the pass ends as `Failed` at once: the refused edge is
/// the last of `runs`, its dependent joins no frontier, and no later edge is
/// run.
pub fn propagate(world: &mut World, roots: Vec<Entity>, edges: Vec<RxEdge>, wave_cap: usize) -> (pass:
    RxPass)
    ensures
        pass.roots@ == roots@,
        pass.edges@ == edges@,
        pass.follows_schedule(wave_cap),
        wave_cap > 0 && !quiescent_at(edges@, roots@, 0) ==> pass.first_run_decided(
            world_procedures(*old(world)),
        ),
        pass.runs@.len() == 0 ==> *final(world) == *old(world),
{
    let mut frontier: Vec<Entity> = copy_slots(&roots);
    let mut next: Vec<Entity> = Vec::new();
    let mut runs: Vec<RxEdge> = Vec::new();
    let mut waves: usize = 0;
    loop
        invariant
            waves <= wave_cap,
            next@.len() == 0,
            frontier@ == frontier_at(edges@, roots@, waves as nat),
            runs@ == runs_before(edges@, roots@, waves as nat),
            forall|k: nat| k < waves ==> !quiescent_at(edges@, roots@, k),
            runs@.len() == 0 ==> *world == *old(world),
            runs@.len() > 0 ==> world_procedures(*old(world)).contains(runs@[0].procedure),
        decreases wave_cap - waves,
    {
        let ghost before = runs@;
        let mut i: usize = 0;
        while i < edges.len()
            invariant
                i <= edges.len(),
                waves <= wave_cap,
                frontier@ == frontier_at(edges@, roots@, waves as nat),
                before == runs_before(edges@, roots@, waves as nat),
                forall|k: nat| k < waves ==> !quiescent_at(edges@, roots@, k),
                runs@ == before + fired(edges@.take(i as int), frontier@),
                next@ == dependents(fired(edges@.take(i as int), frontier@)),
                waves == wave_cap ==> fired(edges@.take(i as int), frontier@).len() == 0,
                runs@.len() == 0 ==> *world == *old(world),
                runs@.len() > 0 ==> world_procedures(*old(world)).contains(runs@[0].procedure),
            decreases edges.len() - i,
        {
            let edge = edges[i];
            proof {
                lemma_fired_step(edges@, frontier@, i as int);
            }
            if frontier_holds(&frontier, edge.source) {
                proof {
                    lemma_fired_prefix(edges@, frontier@, i + 1);
                    if waves > 0 {
                        lemma_runs_begin_with_first_wave(edges@, roots@, waves as nat);
                    }
                }
                if waves == wave_cap {
                    return RxPass { roots, edges, runs, waves, end: RxPassEnd::Capped };
                }
                let ghost first_run = runs@.len() == 0;
                runs.push(edge);
                let answer = run_procedure(world, edge.procedure);
                assert(first_run ==> (answer is Ok) == world_procedures(*old(world)).contains(
                    edge.procedure,
                ));
                match settle_run(answer, edge, &mut next) {
                    Some(end) => {
                        proof {
                            let whole = fired(edges@, frontier@);
                            let now = fired(edges@.take(i + 1), frontier@);
                            assert((before + whole).take(runs@.len() as int) =~= before
                                + whole.take(now.len() as int));
                            assert(runs@[0] == (before + whole)[0]);
                        }
                        return RxPass { roots, edges, runs, waves, end };
                    },
                    None => {},
                }
            }
            i += 1;
        }
        assert(edges@.take(edges.len() as int) =~= edges@);
        if next.len() == 0 {
            proof {
                if waves > 0 {
                    lemma_runs_begin_with_first_wave(edges@, roots@, waves as nat);
                }
            }
            return RxPass { roots, edges, runs, waves, end: RxPassEnd::Quiescent };
        }
        frontier = next;
        next = Vec::new();
        waves += 1;
    }
}

/// One pass over the store as it stands.
///
/// The frontier of the first wave is the slots whose value cell the store
/// counts as changed and which carry no derived marker. The edges are
/// those in the store when the pass begins: an edge that a procedure adds
/// during the pass is not seen before the next pass.
///
/// The pass has no cap of its own: it is capped at `usize::MAX` waves, which
/// a pass over a cyclic graph would take longer to reach than any host runs.
pub fn run_rx(world: &mut World) -> (pass: RxPass)
    ensures
        forall|slot: Entity|
            pass.roots@.contains(slot) <==> world_changed(*old(world)).contains(slot)
                && !world_computed(*old(world)).contains(slot),
        forall|i: int|
            0 <= i < pass.roots.len() ==> world_signals(*old(world)).dom().contains(
                #[trigger] pass.roots[i],
            ),
        pass.roots@.no_duplicates(),
        snapshot_of(pass.edges@, world_effects(*old(world))),
        pass.follows_schedule(usize::MAX),
        !quiescent_at(pass.edges@, pass.roots@, 0) ==> pass.first_run_decided(
            world_procedures(*old(world)),
        ),
        pass.roots@.len() == 0 ==> pass.runs@.len() == 0 && pass.end == RxPassEnd::Quiescent,
        pass.runs@.len() == 0 ==> graph_of(*final(world)) == graph_of(*old(world)),
{
    let roots = changed_roots(world);
    let edges = edge_snapshot(world);
    let pass = propagate(world, roots, edges, usize::MAX);
    proof {
        if pass.roots@.len() == 0 {
            law_idle_pass(pass, usize::MAX);
        }
    }
    pass
}

} // verus!
