//! The production graph and its solver.
//!
//! A [`RecipeGraph`] owns sources, sinks, simple and compound recipe nodes,
//! and the flow edges between them.  [`RecipeGraph::calculate`] resets every
//! port, orders the nodes so producers are evaluated before consumers, runs
//! one forward propagation pass, and finishes with one backward pass that
//! throttles upstream supply under a downstream shortfall.

use vstd::prelude::*;

use crate::arrow_flow::ArrowFlow;
use crate::arrow_flow::ArrowV;
use crate::ports::InPortV;
use crate::ports::ManageFlow;
use crate::ports::ManageFlowV;
use crate::ports::OutPortV;
use crate::frac::Frac;
use crate::recipe_window::BaseV;
use crate::recipe_window::spec_scale_needed;
use crate::resource_flow::FlowV;
use crate::resource_flow::ResourceFlow;
use crate::compound_recipe_window::CompoundRecipeWindow;
use crate::compound_recipe_window::CompoundV;
use crate::recipe_window::RecipeWindowType;
use crate::recipe_window::SimpleRecipeWindow;
use crate::recipe_window::SimpleV;
use crate::resource_sink::ResourceSink;
use crate::resource_sink::SinkV;
use crate::resources_sources::ResourceSource;
use crate::resources_sources::SourceV;

verus! {

/// A graph of production nodes and the flow edges between them.
#[derive(Debug)]
pub struct RecipeGraph {
    pub simple_recipes: Vec<SimpleRecipeWindow>,
    pub compound_recipes: Vec<CompoundRecipeWindow>,
    pub sources: Vec<ResourceSource>,
    pub sinks: Vec<ResourceSink>,
    pub arrows: Vec<ArrowFlow>,
}

/// The mathematical value of a [`RecipeGraph`].
#[verifier::ext_equal]
pub ghost struct GraphV {
    pub simple_recipes: Seq<SimpleV>,
    pub compound_recipes: Seq<CompoundV>,
    pub sources: Seq<SourceV>,
    pub sinks: Seq<SinkV>,
    pub arrows: Seq<ArrowV>,
}

/// The views of the first `n` compound recipe nodes.
pub open spec fn compound_views_upto(s: Seq<CompoundRecipeWindow>, n: int) -> Seq<CompoundV>
    decreases s, n,
{
    if n <= 0 || n > s.len() {
        Seq::empty()
    } else {
        compound_views_upto(s, n - 1).push(compound_view(s[n - 1]))
    }
}

/// The prefix views index like the nodes themselves.
pub broadcast proof fn lemma_compound_views_upto(s: Seq<CompoundRecipeWindow>, n: int)
    ensures
        (#[trigger] compound_views_upto(s, n)).len() == if 0 <= n <= s.len() {
            n
        } else {
            0
        },
        forall|i: int|
            0 <= i < compound_views_upto(s, n).len() ==> compound_views_upto(s, n)[i]
                == compound_view(s[i]),
    decreases n,
{
    if 0 < n <= s.len() {
        lemma_compound_views_upto(s, n - 1);
    }
}

/// The view of one compound recipe node.
pub open spec fn compound_view(c: CompoundRecipeWindow) -> CompoundV
    decreases c,
{
    CompoundV { recipe_graph: graph_view(c.recipe_graph), inner_recipe: c.inner_recipe@ }
}

/// The view of a graph; the compound recipes make it recursive.
pub open spec fn graph_view(g: RecipeGraph) -> GraphV
    decreases g,
{
    GraphV {
        simple_recipes: g.simple_recipes@.map_values(|n: SimpleRecipeWindow| n@),
        compound_recipes: compound_views_upto(
            g.compound_recipes@,
            g.compound_recipes@.len() as int,
        ),
        sources: g.sources@.map_values(|n: ResourceSource| n@),
        sinks: g.sinks@.map_values(|n: ResourceSink| n@),
        arrows: g.arrows@.map_values(|n: ArrowFlow| n@),
    }
}

impl View for RecipeGraph {
    type V = GraphV;

    open spec fn view(&self) -> GraphV {
        graph_view(*self)
    }
}

impl GraphV {
    /// Every node of the graph, including the nodes of nested graphs, is
    /// well formed.
    pub open spec fn wf(self) -> bool
        decreases self,
    {
        &&& forall|i: int|
            0 <= i < self.simple_recipes.len() ==> (#[trigger] self.simple_recipes[
                i
            ]).inner_recipe.wf()
        &&& forall|i: int|
            0 <= i < self.compound_recipes.len() ==> (#[trigger] self.compound_recipes[i]).wf()
        &&& forall|i: int| 0 <= i < self.sources.len() ==> (#[trigger] self.sources[i]).wf()
        &&& forall|i: int| 0 <= i < self.sinks.len() ==> (#[trigger] self.sinks[i]).wf()
    }
}

/// The largest nesting depth among the first `n` compound recipes of the
/// list: one more than the depth of their nested graphs.
pub open spec fn spec_nesting_list(cs: Seq<CompoundV>, n: int) -> nat
    decreases cs, n,
{
    if n <= 0 || n > cs.len() {
        0
    } else {
        let sub = 1 + spec_nesting(cs[n - 1].recipe_graph);
        let rest = spec_nesting_list(cs, n - 1);
        if sub > rest {
            sub
        } else {
            rest
        }
    }
}

/// How deeply compound recipes nest below this graph: zero for a graph with
/// no compound recipe.  Every pass of the solver preserves this measure,
/// which bounds the recursion of [`RecipeGraph::calculate`].
pub open spec fn spec_nesting(g: GraphV) -> nat
    decreases g,
{
    spec_nesting_list(g.compound_recipes, g.compound_recipes.len() as int)
}

/// Two compound lists whose nested graphs agree element by element have the
/// same nesting depth.
pub proof fn lemma_nesting_list_congruent(cs1: Seq<CompoundV>, cs2: Seq<CompoundV>, n: int)
    requires
        cs1.len() == cs2.len(),
        forall|i: int|
            0 <= i < cs1.len() ==> (#[trigger] cs1[i]).recipe_graph == cs2[i].recipe_graph,
    ensures
        spec_nesting_list(cs1, n) == spec_nesting_list(cs2, n),
    decreases n,
{
    if 0 < n <= cs1.len() {
        lemma_nesting_list_congruent(cs1, cs2, n - 1);
    }
}

/// Two graphs whose compound recipes carry the same nested graphs have the
/// same nesting depth.
pub proof fn lemma_nesting_congruent(g1: GraphV, g2: GraphV)
    requires
        g1.compound_recipes.len() == g2.compound_recipes.len(),
        forall|i: int|
            0 <= i < g1.compound_recipes.len() ==> (#[trigger] g1.compound_recipes[
                i
            ]).recipe_graph == g2.compound_recipes[i].recipe_graph,
    ensures
        spec_nesting(g1) == spec_nesting(g2),
{
    lemma_nesting_list_congruent(
        g1.compound_recipes,
        g2.compound_recipes,
        g1.compound_recipes.len() as int,
    );
}

/// Two compound lists whose nested graphs have the same depths element by
/// element have the same nesting depth.
pub proof fn lemma_nesting_list_same_depths(cs1: Seq<CompoundV>, cs2: Seq<CompoundV>, n: int)
    requires
        cs1.len() == cs2.len(),
        forall|i: int|
            0 <= i < cs1.len() ==> spec_nesting((#[trigger] cs1[i]).recipe_graph)
                == spec_nesting(cs2[i].recipe_graph),
    ensures
        spec_nesting_list(cs1, n) == spec_nesting_list(cs2, n),
    decreases n,
{
    if 0 < n <= cs1.len() {
        lemma_nesting_list_same_depths(cs1, cs2, n - 1);
    }
}

/// Two graphs whose compound recipes nest equally deeply element by element
/// have the same nesting depth.
pub proof fn lemma_nesting_same_depths(g1: GraphV, g2: GraphV)
    requires
        g1.compound_recipes.len() == g2.compound_recipes.len(),
        forall|i: int|
            0 <= i < g1.compound_recipes.len() ==> spec_nesting(
                (#[trigger] g1.compound_recipes[i]).recipe_graph,
            ) == spec_nesting(g2.compound_recipes[i].recipe_graph),
    ensures
        spec_nesting(g1) == spec_nesting(g2),
{
    lemma_nesting_list_same_depths(
        g1.compound_recipes,
        g2.compound_recipes,
        g1.compound_recipes.len() as int,
    );
}

/// The nesting depth of a graph strictly dominates the depth of each of its
/// compound recipes' nested graphs.
pub proof fn lemma_nesting_list_ge(cs: Seq<CompoundV>, n: int, i: int)
    requires
        0 <= i < n <= cs.len(),
    ensures
        spec_nesting_list(cs, n) >= 1 + spec_nesting(cs[i].recipe_graph),
    decreases n,
{
    if i < n - 1 {
        lemma_nesting_list_ge(cs, n - 1, i);
    }
}

/// The nesting depth of a graph strictly dominates the depth of each of its
/// compound recipes' nested graphs.
pub proof fn lemma_nesting_ge(g: GraphV, i: int)
    requires
        0 <= i < g.compound_recipes.len(),
    ensures
        spec_nesting(g) >= 1 + spec_nesting(g.compound_recipes[i].recipe_graph),
{
    lemma_nesting_list_ge(g.compound_recipes, g.compound_recipes.len() as int, i);
}

/// An input port list with every input accumulator cleared.
pub open spec fn spec_reset_in_list(s: Seq<ManageFlowV>) -> Seq<ManageFlowV> {
    s.map_values(
        |mf: ManageFlowV|
            match mf {
                ManageFlowV::RecipeInput(p) => ManageFlowV::RecipeInput(
                    InPortV { inputs: Seq::empty(), ..p },
                ),
                ManageFlowV::RecipeOutput(_) => mf,
            },
    )
}

/// An output port list with every output accumulator cleared.
pub open spec fn spec_reset_out_list(s: Seq<ManageFlowV>) -> Seq<ManageFlowV> {
    s.map_values(
        |mf: ManageFlowV|
            match mf {
                ManageFlowV::RecipeOutput(p) => ManageFlowV::RecipeOutput(
                    OutPortV { outputs: Seq::empty(), ..p },
                ),
                ManageFlowV::RecipeInput(_) => mf,
            },
    )
}

/// Mirror of [`RecipeGraph::reset_flows`]: every port accumulator of the
/// graph is cleared (nested graphs are cleared by their own pass).
pub open spec fn spec_reset(g: GraphV) -> GraphV {
    GraphV {
        simple_recipes: g.simple_recipes.map_values(
            |n: SimpleV|
                SimpleV {
                    inner_recipe: BaseV {
                        inputs: spec_reset_in_list(n.inner_recipe.inputs),
                        outputs: spec_reset_out_list(n.inner_recipe.outputs),
                        ..n.inner_recipe
                    },
                },
        ),
        compound_recipes: g.compound_recipes.map_values(
            |n: CompoundV|
                CompoundV {
                    inner_recipe: BaseV {
                        inputs: spec_reset_in_list(n.inner_recipe.inputs),
                        outputs: spec_reset_out_list(n.inner_recipe.outputs),
                        ..n.inner_recipe
                    },
                    ..n
                },
        ),
        sources: g.sources.map_values(
            |n: SourceV|
                SourceV { output: OutPortV { outputs: Seq::empty(), ..n.output }, ..n },
        ),
        sinks: g.sinks.map_values(
            |n: SinkV|
                SinkV {
                    sink: match n.sink {
                        Some(p) => Some(InPortV { inputs: Seq::empty(), ..p }),
                        None => None,
                    },
                    ..n
                },
        ),
        arrows: g.arrows,
    }
}

/// Clear every input accumulator of a port list.
fn reset_input_ports(flows: &mut Vec<ManageFlow>)
    requires
        forall|i: int| 0 <= i < old(flows)@.len() ==> (#[trigger] old(flows)@[i])@.wf(),
    ensures
        crate::recipe_window::port_views_of(final(flows)@) == spec_reset_in_list(
            crate::recipe_window::port_views_of(old(flows)@),
        ),
        forall|i: int| 0 <= i < final(flows)@.len() ==> (#[trigger] final(flows)@[i])@.wf(),
{
    let ghost fv0 = crate::recipe_window::port_views_of(flows@);
    let mut done: Vec<ManageFlow> = Vec::new();
    let mut i: usize = 0;
    while i < flows.len()
        invariant
            fv0 == crate::recipe_window::port_views_of(flows@),
            forall|t: int| 0 <= t < flows@.len() ==> (#[trigger] flows@[t])@.wf(),
            i <= flows@.len(),
            done@.len() == i,
            forall|t: int|
                0 <= t < i ==> (#[trigger] done@[t])@ == spec_reset_in_list(fv0)[t] && done@[
                    t
                ]@.wf(),
        decreases flows@.len() - i,
    {
        let mut elem = flows[i].clone();
        match &mut elem {
            ManageFlow::RecipeInput(p) => {
                p.reset();
            },
            ManageFlow::RecipeOutput(_) => {},
        }
        done.push(elem);
        i = i + 1;
    }
    *flows = done;
    proof {
        assert(crate::recipe_window::port_views_of(flows@) =~= spec_reset_in_list(fv0));
    }
}

/// Clear every output accumulator of a port list.
fn reset_output_ports(flows: &mut Vec<ManageFlow>)
    requires
        forall|i: int| 0 <= i < old(flows)@.len() ==> (#[trigger] old(flows)@[i])@.wf(),
    ensures
        crate::recipe_window::port_views_of(final(flows)@) == spec_reset_out_list(
            crate::recipe_window::port_views_of(old(flows)@),
        ),
        forall|i: int| 0 <= i < final(flows)@.len() ==> (#[trigger] final(flows)@[i])@.wf(),
{
    let ghost fv0 = crate::recipe_window::port_views_of(flows@);
    let mut done: Vec<ManageFlow> = Vec::new();
    let mut i: usize = 0;
    while i < flows.len()
        invariant
            fv0 == crate::recipe_window::port_views_of(flows@),
            forall|t: int| 0 <= t < flows@.len() ==> (#[trigger] flows@[t])@.wf(),
            i <= flows@.len(),
            done@.len() == i,
            forall|t: int|
                0 <= t < i ==> (#[trigger] done@[t])@ == spec_reset_out_list(fv0)[t] && done@[
                    t
                ]@.wf(),
        decreases flows@.len() - i,
    {
        let mut elem = flows[i].clone();
        match &mut elem {
            ManageFlow::RecipeOutput(p) => {
                p.reset();
            },
            ManageFlow::RecipeInput(_) => {},
        }
        done.push(elem);
        i = i + 1;
    }
    *flows = done;
    proof {
        assert(crate::recipe_window::port_views_of(flows@) =~= spec_reset_out_list(fv0));
    }
}

/// The first index of the id in the list, or the list's length when the id
/// does not occur.
pub open spec fn spec_find_by_id(ids: Seq<u64>, id: u64) -> int
    decreases ids.len(),
{
    if ids.len() == 0 {
        0
    } else if ids[0] == id {
        0
    } else {
        1 + spec_find_by_id(ids.drop_first(), id)
    }
}

/// A prefix without the id shifts the first occurrence past itself.
pub proof fn lemma_find_skip(ids: Seq<u64>, id: u64, i: int)
    requires
        0 <= i <= ids.len(),
        forall|j: int| 0 <= j < i ==> ids[j] != id,
    ensures
        spec_find_by_id(ids, id) == i + spec_find_by_id(ids.skip(i), id),
    decreases i,
{
    if i > 0 {
        assert(ids[0] != id);
        lemma_find_skip(ids.drop_first(), id, i - 1);
        assert(ids.drop_first().skip(i - 1) =~= ids.skip(i));
    } else {
        assert(ids.skip(0) =~= ids);
    }
}

/// Where the id first occurs is an occurrence, and nothing earlier is.
pub proof fn lemma_find_found(ids: Seq<u64>, id: u64)
    ensures
        0 <= spec_find_by_id(ids, id) <= ids.len(),
        spec_find_by_id(ids, id) < ids.len() ==> ids[spec_find_by_id(ids, id)] == id,
        forall|j: int| 0 <= j < spec_find_by_id(ids, id) ==> ids[j] != id,
    decreases ids.len(),
{
    if ids.len() > 0 && ids[0] != id {
        lemma_find_found(ids.drop_first(), id);
        assert forall|j: int| 0 <= j < spec_find_by_id(ids, id) implies ids[j] != id by {
            if j > 0 {
                assert(ids.drop_first()[j - 1] == ids[j]);
            }
        }
    }
}

/// The node ids of each list of the graph.
pub open spec fn spec_simple_ids(g: GraphV) -> Seq<u64> {
    g.simple_recipes.map_values(|n: SimpleV| n.inner_recipe.id)
}

pub open spec fn spec_compound_ids(g: GraphV) -> Seq<u64> {
    g.compound_recipes.map_values(|n: CompoundV| n.inner_recipe.id)
}

pub open spec fn spec_source_ids(g: GraphV) -> Seq<u64> {
    g.sources.map_values(|n: SourceV| n.id)
}

pub open spec fn spec_sink_ids(g: GraphV) -> Seq<u64> {
    g.sinks.map_values(|n: SinkV| n.id)
}

/// Mirror of [`RecipeGraph::get_start_point`]: the start port index, the
/// start node kind, and the position of the start node in its list (`None`
/// when the node is gone or the kind cannot start an edge).
pub open spec fn spec_get_start_point(g: GraphV, a: ArrowV) -> (usize, RecipeWindowType, Option<
    int,
>) {
    let idx = match a.start_flow_type {
        RecipeWindowType::SimpleRecipe => {
            let i = spec_find_by_id(spec_simple_ids(g), a.start_flow_window);
            if i < g.simple_recipes.len() {
                Some(i)
            } else {
                None
            }
        },
        RecipeWindowType::Source => {
            let i = spec_find_by_id(spec_source_ids(g), a.start_flow_window);
            if i < g.sources.len() {
                Some(i)
            } else {
                None
            }
        },
        RecipeWindowType::Sink => None,
        RecipeWindowType::CompoundRecipe => {
            let i = spec_find_by_id(spec_compound_ids(g), a.start_flow_window);
            if i < g.compound_recipes.len() {
                Some(i)
            } else {
                None
            }
        },
    };
    (a.start_flow_index, a.start_flow_type, idx)
}

/// Mirror of [`RecipeGraph::get_endpoint`]: the end port index, the end
/// node kind (a missing kind counts as `Source`, which resolves to no
/// node), and the position of the end node in its list.
pub open spec fn spec_get_endpoint(g: GraphV, a: ArrowV) -> (usize, RecipeWindowType, Option<
    int,
>) {
    let end_type = match a.end_flow_type {
        Some(t) => t,
        None => RecipeWindowType::Source,
    };
    let idx = match a.end_flow_window {
        None => None,
        Some(end_id) => match end_type {
            RecipeWindowType::SimpleRecipe => {
                let i = spec_find_by_id(spec_simple_ids(g), end_id);
                if i < g.simple_recipes.len() {
                    Some(i)
                } else {
                    None
                }
            },
            RecipeWindowType::Source => None,
            RecipeWindowType::Sink => {
                let i = spec_find_by_id(spec_sink_ids(g), end_id);
                if i < g.sinks.len() {
                    Some(i)
                } else {
                    None
                }
            },
            RecipeWindowType::CompoundRecipe => {
                let i = spec_find_by_id(spec_compound_ids(g), end_id);
                if i < g.compound_recipes.len() {
                    Some(i)
                } else {
                    None
                }
            },
        },
    };
    (a.end_flow_index, end_type, idx)
}

/// One resolved edge of the evaluation sequence: the positions and kinds
/// of its two endpoints and the port index on each side.
#[derive(Debug, PartialEq, Eq, Structural, Copy, Clone)]
pub struct FlowCalculatorHelper {
    pub start_window_index: usize,
    pub start_flow_index: usize,
    pub end_window_index: usize,
    pub end_flow_index: usize,
    pub start_type: RecipeWindowType,
    pub end_type: RecipeWindowType,
}

/// One entry of the evaluation sequence: either a resolved edge, or the
/// marker that fires a recipe's internal rule once its inbound edges have
/// contributed.
#[derive(Debug, PartialEq, Eq, Structural, Copy, Clone)]
pub enum FlowCalculatorType {
    Helper(FlowCalculatorHelper),
    EndRecipe(usize, RecipeWindowType),
}

/// The working state of the ordering pass: the source-first and sink-last
/// buckets, and an order and an edge bucket per recipe node.
#[verifier::ext_equal]
pub ghost struct HelperState {
    pub sources: Seq<FlowCalculatorType>,
    pub sinks: Seq<FlowCalculatorType>,
    pub simple_orders: Seq<usize>,
    pub simple_buckets: Seq<Seq<FlowCalculatorType>>,
    pub compound_orders: Seq<usize>,
    pub compound_buckets: Seq<Seq<FlowCalculatorType>>,
}

/// The ordering state before any edge is scanned: empty buckets, every
/// recipe at order zero.
pub open spec fn spec_init_state(g: GraphV) -> HelperState {
    HelperState {
        sources: Seq::empty(),
        sinks: Seq::empty(),
        simple_orders: Seq::new(g.simple_recipes.len(), |i: int| 0usize),
        simple_buckets: Seq::new(g.simple_recipes.len(), |i: int| Seq::empty()),
        compound_orders: Seq::new(g.compound_recipes.len(), |i: int| 0usize),
        compound_buckets: Seq::new(g.compound_recipes.len(), |i: int| Seq::empty()),
    }
}

/// Mirror of [`RecipeGraph::connect_resources_helpers_ends`]: file the edge
/// in its destination's bucket and raise the destination's order above the
/// start's when needed; an edge into a sink goes to the sink-last bucket.
pub open spec fn spec_connect(
    st: HelperState,
    source_order: usize,
    helper: FlowCalculatorHelper,
    end_type: RecipeWindowType,
    ew: int,
) -> HelperState {
    match end_type {
        RecipeWindowType::SimpleRecipe => {
            if 0 <= ew < st.simple_orders.len() && ew < st.simple_buckets.len() {
                let end_order = st.simple_orders[ew];
                let new_order = if source_order >= end_order {
                    (source_order + 1) as usize
                } else {
                    end_order
                };
                HelperState {
                    simple_buckets: st.simple_buckets.update(
                        ew,
                        st.simple_buckets[ew].push(FlowCalculatorType::Helper(helper)),
                    ),
                    simple_orders: st.simple_orders.update(ew, new_order),
                    ..st
                }
            } else {
                st
            }
        },
        RecipeWindowType::CompoundRecipe => {
            if 0 <= ew < st.compound_orders.len() && ew < st.compound_buckets.len() {
                let end_order = st.compound_orders[ew];
                let new_order = if source_order >= end_order {
                    (source_order + 1) as usize
                } else {
                    end_order
                };
                HelperState {
                    compound_buckets: st.compound_buckets.update(
                        ew,
                        st.compound_buckets[ew].push(FlowCalculatorType::Helper(helper)),
                    ),
                    compound_orders: st.compound_orders.update(ew, new_order),
                    ..st
                }
            } else {
                st
            }
        },
        RecipeWindowType::Source => st,
        RecipeWindowType::Sink => HelperState {
            sinks: st.sinks.push(FlowCalculatorType::Helper(helper)),
            ..st
        },
    }
}

/// Scan one edge: a dangling edge contributes nothing; an edge out of a
/// source goes to the source-first bucket; an edge out of a recipe is filed
/// by [`spec_connect`].
pub open spec fn spec_scan_arrow(g: GraphV, st: HelperState, a: ArrowV) -> HelperState {
    let start = spec_get_start_point(g, a);
    let end = spec_get_endpoint(g, a);
    match (start.2, end.2) {
        (Some(sw), Some(ew)) => {
            let helper = FlowCalculatorHelper {
                start_window_index: sw as usize,
                start_flow_index: start.0,
                end_window_index: ew as usize,
                end_flow_index: end.0,
                start_type: start.1,
                end_type: end.1,
            };
            match start.1 {
                RecipeWindowType::SimpleRecipe => {
                    if 0 <= sw < st.simple_orders.len() {
                        spec_connect(st, st.simple_orders[sw], helper, end.1, ew)
                    } else {
                        st
                    }
                },
                RecipeWindowType::Source => HelperState {
                    sources: st.sources.push(FlowCalculatorType::Helper(helper)),
                    ..st
                },
                RecipeWindowType::Sink => st,
                RecipeWindowType::CompoundRecipe => {
                    if 0 <= sw < st.compound_orders.len() {
                        spec_connect(st, st.compound_orders[sw], helper, end.1, ew)
                    } else {
                        st
                    }
                },
            }
        },
        _ => st,
    }
}

/// Scan a list of edges in order.
pub open spec fn spec_scan(g: GraphV, st: HelperState, arrows: Seq<ArrowV>) -> HelperState
    decreases arrows.len(),
{
    if arrows.len() == 0 {
        st
    } else {
        spec_scan(g, spec_scan_arrow(g, st, arrows[0]), arrows.drop_first())
    }
}

/// The buckets of every node (among the first `n`) whose order is `k`,
/// each followed by its node's end-of-recipe marker, in node order.
pub open spec fn spec_bucket_level(
    orders: Seq<usize>,
    buckets: Seq<Seq<FlowCalculatorType>>,
    node_type: RecipeWindowType,
    k: int,
    n: int,
) -> Seq<FlowCalculatorType>
    decreases n,
{
    if n <= 0 {
        Seq::empty()
    } else {
        let rest = spec_bucket_level(orders, buckets, node_type, k, n - 1);
        if 0 <= n - 1 < orders.len() && n - 1 < buckets.len() && orders[n - 1] == k {
            rest + buckets[n - 1].push(FlowCalculatorType::EndRecipe((n - 1) as usize, node_type))
        } else {
            rest
        }
    }
}

/// All order levels below `k`, each level listing simple recipes before
/// compound recipes (the stable tie-break of the original sort).
pub open spec fn spec_levels(st: HelperState, k: int) -> Seq<FlowCalculatorType>
    decreases k,
{
    if k <= 0 {
        Seq::empty()
    } else {
        spec_levels(st, k - 1) + spec_bucket_level(
            st.simple_orders,
            st.simple_buckets,
            RecipeWindowType::SimpleRecipe,
            k - 1,
            st.simple_orders.len() as int,
        ) + spec_bucket_level(
            st.compound_orders,
            st.compound_buckets,
            RecipeWindowType::CompoundRecipe,
            k - 1,
            st.compound_orders.len() as int,
        )
    }
}

/// Mirror of [`RecipeGraph::make_helpers`]: the full evaluation sequence of
/// the graph — all source-originating edges first, then every recipe bucket
/// in ascending order (each closed by its end-of-recipe marker), then all
/// sink-terminating edges.  Recipe orders never exceed the number of edges,
/// so collecting the levels up to that bound collects them all.
pub open spec fn spec_helpers(g: GraphV) -> Seq<FlowCalculatorType> {
    let st = spec_scan(g, spec_init_state(g), g.arrows);
    st.sources + spec_levels(st, g.arrows.len() as int + 1) + st.sinks
}

/// File an edge in its destination's bucket and raise the destination's
/// order above the start node's order when needed, per [`spec_connect`].
fn connect_resources_helpers_ends(
    simple_orders: &mut Vec<usize>,
    simple_buckets: &mut Vec<Vec<FlowCalculatorType>>,
    compound_orders: &mut Vec<usize>,
    compound_buckets: &mut Vec<Vec<FlowCalculatorType>>,
    sinks_helpers: &mut Vec<FlowCalculatorType>,
    end_type: RecipeWindowType,
    ew: usize,
    helper: FlowCalculatorHelper,
    source_order: usize,
)
    requires
        source_order < usize::MAX,
        old(simple_orders)@.len() == old(simple_buckets)@.len(),
        old(compound_orders)@.len() == old(compound_buckets)@.len(),
    ensures
        ({
            let st0 = HelperState {
                sources: Seq::empty(),
                sinks: old(sinks_helpers)@,
                simple_orders: old(simple_orders)@,
                simple_buckets: old(simple_buckets)@.map_values(
                    |v: Vec<FlowCalculatorType>| v@,
                ),
                compound_orders: old(compound_orders)@,
                compound_buckets: old(compound_buckets)@.map_values(
                    |v: Vec<FlowCalculatorType>| v@,
                ),
            };
            let st1 = spec_connect(st0, source_order, helper, end_type, ew as int);
            &&& final(sinks_helpers)@ == st1.sinks
            &&& final(simple_orders)@ == st1.simple_orders
            &&& final(simple_buckets)@.map_values(|v: Vec<FlowCalculatorType>| v@)
                == st1.simple_buckets
            &&& final(compound_orders)@ == st1.compound_orders
            &&& final(compound_buckets)@.map_values(|v: Vec<FlowCalculatorType>| v@)
                == st1.compound_buckets
        }),
        final(simple_orders)@.len() == old(simple_orders)@.len(),
        final(simple_buckets)@.len() == old(simple_buckets)@.len(),
        final(compound_orders)@.len() == old(compound_orders)@.len(),
        final(compound_buckets)@.len() == old(compound_buckets)@.len(),
        forall|j: int|
            0 <= j < final(simple_orders)@.len() ==> (#[trigger] final(simple_orders)@[j])
                <= old(simple_orders)@[j] || final(simple_orders)@[j] <= source_order + 1,
        forall|j: int|
            0 <= j < final(compound_orders)@.len() ==> (#[trigger] final(compound_orders)@[j])
                <= old(compound_orders)@[j] || final(compound_orders)@[j] <= source_order + 1,
{
    match end_type {
        RecipeWindowType::SimpleRecipe => {
            if ew < simple_orders.len() && ew < simple_buckets.len() {
                let end_order = simple_orders[ew];
                let new_order = if source_order >= end_order {
                    source_order + 1
                } else {
                    end_order
                };
                let ghost buckets_before = simple_buckets@;
                let mut b = simple_buckets.remove(ew);
                b.push(FlowCalculatorType::Helper(helper));
                simple_buckets.insert(ew, b);
                simple_orders.set(ew, new_order);
                proof {
                    assert(simple_buckets@ =~= buckets_before.update(
                        ew as int,
                        simple_buckets@[ew as int],
                    ));
                    assert(simple_buckets@.map_values(|v: Vec<FlowCalculatorType>| v@)
                        =~= buckets_before.map_values(|v: Vec<FlowCalculatorType>| v@).update(
                        ew as int,
                        buckets_before[ew as int]@.push(FlowCalculatorType::Helper(helper)),
                    ));
                }
            }
        },
        RecipeWindowType::CompoundRecipe => {
            if ew < compound_orders.len() && ew < compound_buckets.len() {
                let end_order = compound_orders[ew];
                let new_order = if source_order >= end_order {
                    source_order + 1
                } else {
                    end_order
                };
                let ghost buckets_before = compound_buckets@;
                let mut b = compound_buckets.remove(ew);
                b.push(FlowCalculatorType::Helper(helper));
                compound_buckets.insert(ew, b);
                compound_orders.set(ew, new_order);
                proof {
                    assert(compound_buckets@ =~= buckets_before.update(
                        ew as int,
                        compound_buckets@[ew as int],
                    ));
                    assert(compound_buckets@.map_values(|v: Vec<FlowCalculatorType>| v@)
                        =~= buckets_before.map_values(|v: Vec<FlowCalculatorType>| v@).update(
                        ew as int,
                        buckets_before[ew as int]@.push(FlowCalculatorType::Helper(helper)),
                    ));
                }
            }
        },
        RecipeWindowType::Source => {},
        RecipeWindowType::Sink => {
            sinks_helpers.push(FlowCalculatorType::Helper(helper));
        },
    }
}

/// Concatenate the ordering state into the final evaluation sequence: the
/// source bucket, then every order level in ascending order (simple recipes
/// before compound ones on each level, each bucket closed by its node's
/// end-of-recipe marker), then the sink bucket.
#[verifier::rlimit(100)]
#[verifier::spinoff_prover]
fn concatenate_helpers(
    sources_helpers: Vec<FlowCalculatorType>,
    sinks_helpers: Vec<FlowCalculatorType>,
    simple_orders: Vec<usize>,
    simple_buckets: Vec<Vec<FlowCalculatorType>>,
    compound_orders: Vec<usize>,
    compound_buckets: Vec<Vec<FlowCalculatorType>>,
    n_arrows: usize,
) -> (r: Vec<FlowCalculatorType>)
    requires
        simple_orders@.len() == simple_buckets@.len(),
        compound_orders@.len() == compound_buckets@.len(),
        forall|j: int|
            0 <= j < simple_orders@.len() ==> (#[trigger] simple_orders@[j]) <= n_arrows,
        forall|j: int|
            0 <= j < compound_orders@.len() ==> (#[trigger] compound_orders@[j]) <= n_arrows,
    ensures
        ({
            let st = HelperState {
                sources: sources_helpers@,
                sinks: sinks_helpers@,
                simple_orders: simple_orders@,
                simple_buckets: simple_buckets@.map_values(|v: Vec<FlowCalculatorType>| v@),
                compound_orders: compound_orders@,
                compound_buckets: compound_buckets@.map_values(
                    |v: Vec<FlowCalculatorType>| v@,
                ),
            };
            r@ == st.sources + spec_levels(st, n_arrows + 1) + st.sinks
        }),
{
    let ghost st = HelperState {
        sources: sources_helpers@,
        sinks: sinks_helpers@,
        simple_orders: simple_orders@,
        simple_buckets: simple_buckets@.map_values(|v: Vec<FlowCalculatorType>| v@),
        compound_orders: compound_orders@,
        compound_buckets: compound_buckets@.map_values(|v: Vec<FlowCalculatorType>| v@),
    };
    let mut result = sources_helpers;
    proof {
        assert(result@ =~= st.sources + spec_levels(st, 0));
    }
    let mut k: u128 = 0;
    while k <= n_arrows as u128
        invariant
            st.simple_orders == simple_orders@,
            st.simple_buckets == simple_buckets@.map_values(|v: Vec<FlowCalculatorType>| v@),
            st.compound_orders == compound_orders@,
            st.compound_buckets == compound_buckets@.map_values(
                |v: Vec<FlowCalculatorType>| v@,
            ),
            simple_orders@.len() == simple_buckets@.len(),
            compound_orders@.len() == compound_buckets@.len(),
            k <= n_arrows + 1,
            result@ == st.sources + spec_levels(st, k as int),
        decreases n_arrows + 1 - k,
    {
        let mut idx: usize = 0;
        while idx < simple_orders.len()
            invariant
                st.simple_orders == simple_orders@,
                st.simple_buckets == simple_buckets@.map_values(
                    |v: Vec<FlowCalculatorType>| v@,
                ),
                simple_orders@.len() == simple_buckets@.len(),
                idx <= simple_orders@.len(),
                result@ == st.sources + spec_levels(st, k as int) + spec_bucket_level(
                    st.simple_orders,
                    st.simple_buckets,
                    RecipeWindowType::SimpleRecipe,
                    k as int,
                    idx as int,
                ),
            decreases simple_orders@.len() - idx,
        {
            if simple_orders[idx] as u128 == k {
                let mut e: usize = 0;
                while e < simple_buckets[idx].len()
                    invariant
                        st.simple_buckets == simple_buckets@.map_values(
                            |v: Vec<FlowCalculatorType>| v@,
                        ),
                        idx < simple_buckets@.len(),
                        e <= simple_buckets@[idx as int]@.len(),
                        result@ == st.sources + spec_levels(st, k as int) + spec_bucket_level(
                            st.simple_orders,
                            st.simple_buckets,
                            RecipeWindowType::SimpleRecipe,
                            k as int,
                            idx as int,
                        ) + simple_buckets@[idx as int]@.take(e as int),
                    decreases simple_buckets@[idx as int]@.len() - e,
                {
                    result.push(simple_buckets[idx][e]);
                    e = e + 1;
                    proof {
                        assert(simple_buckets@[idx as int]@.take(e as int)
                            =~= simple_buckets@[idx as int]@.take(e as int - 1).push(
                            simple_buckets@[idx as int]@[e as int - 1],
                        ));
                        assert(result@ =~= st.sources + spec_levels(st, k as int)
                            + spec_bucket_level(
                            st.simple_orders,
                            st.simple_buckets,
                            RecipeWindowType::SimpleRecipe,
                            k as int,
                            idx as int,
                        ) + simple_buckets@[idx as int]@.take(e as int));
                    }
                }
                result.push(FlowCalculatorType::EndRecipe(idx, RecipeWindowType::SimpleRecipe));
                proof {
                    assert(simple_buckets@[idx as int]@.take(simple_buckets@[idx as int]@.len()
                        as int) =~= simple_buckets@[idx as int]@);
                    assert(result@ =~= st.sources + spec_levels(st, k as int)
                        + spec_bucket_level(
                        st.simple_orders,
                        st.simple_buckets,
                        RecipeWindowType::SimpleRecipe,
                        k as int,
                        idx as int + 1,
                    ));
                }
            }
            idx = idx + 1;
        }
        let mut idx2: usize = 0;
        while idx2 < compound_orders.len()
            invariant
                st.simple_orders == simple_orders@,
                st.compound_orders == compound_orders@,
                st.simple_buckets == simple_buckets@.map_values(
                    |v: Vec<FlowCalculatorType>| v@,
                ),
                st.compound_buckets == compound_buckets@.map_values(
                    |v: Vec<FlowCalculatorType>| v@,
                ),
                simple_orders@.len() == simple_buckets@.len(),
                compound_orders@.len() == compound_buckets@.len(),
                idx2 <= compound_orders@.len(),
                result@ == st.sources + spec_levels(st, k as int) + spec_bucket_level(
                    st.simple_orders,
                    st.simple_buckets,
                    RecipeWindowType::SimpleRecipe,
                    k as int,
                    st.simple_orders.len() as int,
                ) + spec_bucket_level(
                    st.compound_orders,
                    st.compound_buckets,
                    RecipeWindowType::CompoundRecipe,
                    k as int,
                    idx2 as int,
                ),
            decreases compound_orders@.len() - idx2,
        {
            if compound_orders[idx2] as u128 == k {
                let mut e: usize = 0;
                while e < compound_buckets[idx2].len()
                    invariant
                        st.compound_buckets == compound_buckets@.map_values(
                            |v: Vec<FlowCalculatorType>| v@,
                        ),
                        idx2 < compound_buckets@.len(),
                        e <= compound_buckets@[idx2 as int]@.len(),
                        result@ == st.sources + spec_levels(st, k as int) + spec_bucket_level(
                            st.simple_orders,
                            st.simple_buckets,
                            RecipeWindowType::SimpleRecipe,
                            k as int,
                            st.simple_orders.len() as int,
                        ) + spec_bucket_level(
                            st.compound_orders,
                            st.compound_buckets,
                            RecipeWindowType::CompoundRecipe,
                            k as int,
                            idx2 as int,
                        ) + compound_buckets@[idx2 as int]@.take(e as int),
                    decreases compound_buckets@[idx2 as int]@.len() - e,
                {
                    result.push(compound_buckets[idx2][e]);
                    e = e + 1;
                    proof {
                        assert(compound_buckets@[idx2 as int]@.take(e as int)
                            =~= compound_buckets@[idx2 as int]@.take(e as int - 1).push(
                            compound_buckets@[idx2 as int]@[e as int - 1],
                        ));
                        assert(result@ =~= st.sources + spec_levels(st, k as int)
                            + spec_bucket_level(
                            st.simple_orders,
                            st.simple_buckets,
                            RecipeWindowType::SimpleRecipe,
                            k as int,
                            st.simple_orders.len() as int,
                        ) + spec_bucket_level(
                            st.compound_orders,
                            st.compound_buckets,
                            RecipeWindowType::CompoundRecipe,
                            k as int,
                            idx2 as int,
                        ) + compound_buckets@[idx2 as int]@.take(e as int));
                    }
                }
                result.push(
                    FlowCalculatorType::EndRecipe(idx2, RecipeWindowType::CompoundRecipe),
                );
                proof {
                    assert(compound_buckets@[idx2 as int]@.take(compound_buckets@[
                        idx2 as int
                    ]@.len() as int) =~= compound_buckets@[idx2 as int]@);
                    assert(result@ =~= st.sources + spec_levels(st, k as int)
                        + spec_bucket_level(
                        st.simple_orders,
                        st.simple_buckets,
                        RecipeWindowType::SimpleRecipe,
                        k as int,
                        st.simple_orders.len() as int,
                    ) + spec_bucket_level(
                        st.compound_orders,
                        st.compound_buckets,
                        RecipeWindowType::CompoundRecipe,
                        k as int,
                        idx2 as int + 1,
                    ));
                }
            }
            idx2 = idx2 + 1;
        }
        k = k + 1;
        proof {
            assert(result@ =~= st.sources + spec_levels(st, k as int));
        }
    }
    let mut sinks = sinks_helpers;
    let mut t: usize = 0;
    while t < sinks.len()
        invariant
            st.sinks == sinks@,
            t <= sinks@.len(),
            result@ == st.sources + spec_levels(st, n_arrows + 1) + st.sinks.take(t as int),
        decreases sinks@.len() - t,
    {
        result.push(sinks[t]);
        t = t + 1;
        proof {
            assert(st.sinks.take(t as int) =~= st.sinks.take(t as int - 1).push(st.sinks[
                t as int - 1
            ]));
            assert(result@ =~= st.sources + spec_levels(st, n_arrows + 1) + st.sinks.take(
                t as int,
            ));
        }
    }
    proof {
        assert(st.sinks.take(st.sinks.len() as int) =~= st.sinks);
        assert(result@ =~= st.sources + spec_levels(st, n_arrows + 1) + st.sinks);
    }
    result
}

/// Mirror of [`RecipeGraph::get_back_rate`]: the limiting rate of an edge,
/// read from its end port as `needed / total_in`, and the flow to carry
/// upstream (the end port's demand).  Entries that end nowhere useful, or
/// whose ratio cannot be computed, do not limit (rate one, no flow).
pub open spec fn spec_get_back_rate(g: GraphV, h: FlowCalculatorType) -> (Frac, Option<FlowV>) {
    let no_limit = (Frac { num: 1u32, den: 1u32 }, None::<FlowV>);
    match h {
        FlowCalculatorType::Helper(hh) => {
            match hh.end_type {
                RecipeWindowType::SimpleRecipe => {
                    if hh.end_window_index < g.simple_recipes.len() {
                        let inputs = g.simple_recipes[
                            hh.end_window_index as int
                        ].inner_recipe.inputs;
                        if hh.end_flow_index < inputs.len() {
                            match inputs[hh.end_flow_index as int] {
                                ManageFlowV::RecipeInput(p) => {
                                    match crate::resource_flow::spec_flow_div(
                                        p.needed,
                                        p.spec_total_in(),
                                    ) {
                                        Ok(rate) => (rate, Some(p.needed)),
                                        Err(_) => no_limit,
                                    }
                                },
                                ManageFlowV::RecipeOutput(_) => no_limit,
                            }
                        } else {
                            no_limit
                        }
                    } else {
                        no_limit
                    }
                },
                RecipeWindowType::CompoundRecipe => {
                    if hh.end_window_index < g.compound_recipes.len() {
                        let inputs = g.compound_recipes[
                            hh.end_window_index as int
                        ].inner_recipe.inputs;
                        if hh.end_flow_index < inputs.len() {
                            match inputs[hh.end_flow_index as int] {
                                ManageFlowV::RecipeInput(p) => {
                                    match crate::resource_flow::spec_flow_div(
                                        p.needed,
                                        p.spec_total_in(),
                                    ) {
                                        Ok(rate) => (rate, Some(p.needed)),
                                        Err(_) => no_limit,
                                    }
                                },
                                ManageFlowV::RecipeOutput(_) => no_limit,
                            }
                        } else {
                            no_limit
                        }
                    } else {
                        no_limit
                    }
                },
                RecipeWindowType::Source => no_limit,
                RecipeWindowType::Sink => no_limit,
            }
        },
        FlowCalculatorType::EndRecipe(_, _) => no_limit,
    }
}

/// Mirror of one step of [`RecipeGraph::back_propagation`]: when the entry
/// limits (rate below one), the start node is throttled — a recipe scales
/// every demand by the rate, and a source whose recorded outflow exceeds
/// the limited flow re-records only that flow.
pub open spec fn spec_back_step(g: GraphV, h: FlowCalculatorType) -> GraphV {
    let (rate, flow) = spec_get_back_rate(g, h);
    if !rate.spec_lt(Frac { num: 1u32, den: 1u32 }) {
        g
    } else {
        match h {
            FlowCalculatorType::Helper(hh) => {
                match hh.start_type {
                    RecipeWindowType::SimpleRecipe => {
                        if hh.start_window_index < g.simple_recipes.len() {
                            let n = g.simple_recipes[hh.start_window_index as int];
                            GraphV {
                                simple_recipes: g.simple_recipes.update(
                                    hh.start_window_index as int,
                                    SimpleV {
                                        inner_recipe: BaseV {
                                            inputs: spec_scale_needed(n.inner_recipe.inputs, rate),
                                            ..n.inner_recipe
                                        },
                                    },
                                ),
                                ..g
                            }
                        } else {
                            g
                        }
                    },
                    RecipeWindowType::CompoundRecipe => {
                        if hh.start_window_index < g.compound_recipes.len() {
                            let n = g.compound_recipes[hh.start_window_index as int];
                            GraphV {
                                compound_recipes: g.compound_recipes.update(
                                    hh.start_window_index as int,
                                    CompoundV {
                                        inner_recipe: BaseV {
                                            inputs: spec_scale_needed(n.inner_recipe.inputs, rate),
                                            ..n.inner_recipe
                                        },
                                        ..n
                                    },
                                ),
                                ..g
                            }
                        } else {
                            g
                        }
                    },
                    RecipeWindowType::Source => {
                        match flow {
                            Some(f) => {
                                if hh.start_window_index < g.sources.len() {
                                    let s = g.sources[hh.start_window_index as int];
                                    if f.resource == s.output.resource
                                        && crate::resource_flow::spec_amount_lt(
                                        f,
                                        s.output.spec_total_out(),
                                    ) {
                                        GraphV {
                                            sources: g.sources.update(
                                                hh.start_window_index as int,
                                                SourceV {
                                                    output: OutPortV {
                                                        outputs: seq![f],
                                                        ..s.output
                                                    },
                                                    ..s
                                                },
                                            ),
                                            ..g
                                        }
                                    } else {
                                        g
                                    }
                                } else {
                                    g
                                }
                            },
                            None => g,
                        }
                    },
                    RecipeWindowType::Sink => g,
                }
            },
            FlowCalculatorType::EndRecipe(_, _) => g,
        }
    }
}

/// Mirror of [`RecipeGraph::back_propagation`]: the evaluation sequence
/// walked in reverse, applying [`spec_back_step`] to each entry.
pub open spec fn spec_backward(g: GraphV, hs: Seq<FlowCalculatorType>) -> GraphV
    decreases hs.len(),
{
    if hs.len() == 0 {
        g
    } else {
        spec_backward(spec_back_step(g, hs.last()), hs.drop_last())
    }
}

/// The two recipe endpoints of an edge, when both resolve to recipe nodes
/// (each named by its kind and its position in that kind's list); `None`
/// for every other edge.
pub open spec fn spec_recipe_edge(g: GraphV, a: ArrowV) -> Option<
    ((RecipeWindowType, int), (RecipeWindowType, int)),
> {
    let start = spec_get_start_point(g, a);
    let end = spec_get_endpoint(g, a);
    match (start.2, end.2) {
        (Some(sw), Some(ew)) => {
            if (start.1 == RecipeWindowType::SimpleRecipe || start.1
                == RecipeWindowType::CompoundRecipe) && (end.1 == RecipeWindowType::SimpleRecipe
                || end.1 == RecipeWindowType::CompoundRecipe) {
                Some(((start.1, sw), (end.1, ew)))
            } else {
                None
            }
        },
        _ => None,
    }
}

/// The evaluation order the scan state assigns to a recipe node.
pub open spec fn spec_order_of(st: HelperState, node: (RecipeWindowType, int)) -> int {
    match node.0 {
        RecipeWindowType::SimpleRecipe => st.simple_orders[node.1] as int,
        RecipeWindowType::CompoundRecipe => st.compound_orders[node.1] as int,
        _ => 0,
    }
}

/// Every tracked order is at most `b`.
pub open spec fn spec_orders_bounded(st: HelperState, b: int) -> bool {
    &&& forall|j: int|
        0 <= j < st.simple_orders.len() ==> (#[trigger] st.simple_orders[j]) <= b
    &&& forall|j: int|
        0 <= j < st.compound_orders.len() ==> (#[trigger] st.compound_orders[j]) <= b
}

/// Scanning edges never changes how many orders are tracked.
proof fn lemma_scan_lens(g: GraphV, st: HelperState, arrows: Seq<ArrowV>)
    ensures
        spec_scan(g, st, arrows).simple_orders.len() == st.simple_orders.len(),
        spec_scan(g, st, arrows).compound_orders.len() == st.compound_orders.len(),
    decreases arrows.len(),
{
    if arrows.len() > 0 {
        lemma_scan_lens(g, spec_scan_arrow(g, st, arrows[0]), arrows.drop_first());
    }
}

/// Scanning edges never changes how many buckets are tracked.
proof fn lemma_scan_buckets_lens(g: GraphV, st: HelperState, arrows: Seq<ArrowV>)
    ensures
        spec_scan(g, st, arrows).simple_buckets.len() == st.simple_buckets.len(),
        spec_scan(g, st, arrows).compound_buckets.len() == st.compound_buckets.len(),
    decreases arrows.len(),
{
    if arrows.len() > 0 {
        lemma_scan_buckets_lens(g, spec_scan_arrow(g, st, arrows[0]), arrows.drop_first());
    }
}

/// Scanning edges never lowers a recipe's order, and each scanned edge can
/// raise an order by at most one.
#[verifier::rlimit(100)]
#[verifier::spinoff_prover]
proof fn lemma_scan_monotone(
    g: GraphV,
    st: HelperState,
    arrows: Seq<ArrowV>,
    node: (RecipeWindowType, int),
    b: int,
)
    requires
        node.0 == RecipeWindowType::SimpleRecipe || node.0 == RecipeWindowType::CompoundRecipe,
        node.0 == RecipeWindowType::SimpleRecipe ==> 0 <= node.1 < st.simple_orders.len(),
        node.0 == RecipeWindowType::CompoundRecipe ==> 0 <= node.1 < st.compound_orders.len(),
        spec_orders_bounded(st, b),
        b + arrows.len() <= usize::MAX,
    ensures
        spec_order_of(spec_scan(g, st, arrows), node) >= spec_order_of(st, node),
        spec_orders_bounded(spec_scan(g, st, arrows), b + arrows.len()),
    decreases arrows.len(),
{
    if arrows.len() > 0 {
        let st1 = spec_scan_arrow(g, st, arrows[0]);
        assert(spec_order_of(st1, node) >= spec_order_of(st, node));
        assert(spec_orders_bounded(st1, b + 1));
        lemma_scan_monotone(g, st1, arrows.drop_first(), node, b + 1);
    }
}

/// A recipe at which no recipe-to-recipe edge of the list ends keeps its
/// order through the scan.
#[verifier::rlimit(100)]
#[verifier::spinoff_prover]
proof fn lemma_scan_stable(g: GraphV, st: HelperState, arrows: Seq<ArrowV>, node: (
    RecipeWindowType,
    int,
))
    requires
        node.0 == RecipeWindowType::SimpleRecipe || node.0 == RecipeWindowType::CompoundRecipe,
        node.0 == RecipeWindowType::SimpleRecipe ==> 0 <= node.1 < st.simple_orders.len(),
        node.0 == RecipeWindowType::CompoundRecipe ==> 0 <= node.1 < st.compound_orders.len(),
        forall|j: int|
            0 <= j < arrows.len() ==> (match spec_recipe_edge(g, #[trigger] arrows[j]) {
                Some(e) => e.1 != node,
                None => true,
            }),
    ensures
        spec_order_of(spec_scan(g, st, arrows), node) == spec_order_of(st, node),
    decreases arrows.len(),
{
    if arrows.len() > 0 {
        let a0 = arrows[0];
        let st1 = spec_scan_arrow(g, st, a0);
        assert(st1.simple_orders.len() == st.simple_orders.len());
        assert(st1.compound_orders.len() == st.compound_orders.len());
        if spec_recipe_edge(g, a0) is Some {
            let e0 = spec_recipe_edge(g, a0).unwrap();
            assert(e0.1 != node);
            assert(spec_order_of(st1, node) == spec_order_of(st, node));
        } else {
            assert(spec_order_of(st1, node) == spec_order_of(st, node));
        }
        assert(forall|j: int|
            0 <= j < arrows.drop_first().len() ==> #[trigger] arrows.drop_first()[j] == arrows[
                j + 1
            ]);
        lemma_scan_stable(g, st1, arrows.drop_first(), node);
    }
}

/// Scanning a concatenation scans the two parts in turn.
proof fn lemma_scan_append(g: GraphV, st: HelperState, a: Seq<ArrowV>, b: Seq<ArrowV>)
    ensures
        spec_scan(g, st, a + b) == spec_scan(g, spec_scan(g, st, a), b),
    decreases a.len(),
{
    if a.len() == 0 {
        assert(a + b =~= b);
    } else {
        assert((a + b).drop_first() =~= a.drop_first() + b);
        assert((a + b)[0] == a[0]);
        lemma_scan_append(g, spec_scan_arrow(g, st, a[0]), a.drop_first(), b);
    }
}

/// One scan step across a resolved recipe-to-recipe edge leaves the
/// destination's order strictly above the origin's.
#[verifier::rlimit(100)]
#[verifier::spinoff_prover]
proof fn lemma_scan_arrow_step(g: GraphV, st: HelperState, a: ArrowV, b: int)
    requires
        spec_recipe_edge(g, a) is Some,
        spec_recipe_edge(g, a).unwrap().0 != spec_recipe_edge(g, a).unwrap().1,
        ({
            let edge = spec_recipe_edge(g, a).unwrap();
            &&& (edge.0.0 == RecipeWindowType::SimpleRecipe ==> 0 <= edge.0.1
                < g.simple_recipes.len())
            &&& (edge.0.0 == RecipeWindowType::CompoundRecipe ==> 0 <= edge.0.1
                < g.compound_recipes.len())
            &&& (edge.1.0 == RecipeWindowType::SimpleRecipe ==> 0 <= edge.1.1
                < g.simple_recipes.len())
            &&& (edge.1.0 == RecipeWindowType::CompoundRecipe ==> 0 <= edge.1.1
                < g.compound_recipes.len())
        }),
        spec_orders_bounded(st, b),
        b + 1 <= usize::MAX,
        st.simple_orders.len() == g.simple_recipes.len(),
        st.compound_orders.len() == g.compound_recipes.len(),
        st.simple_buckets.len() == st.simple_orders.len(),
        st.compound_buckets.len() == st.compound_orders.len(),
    ensures
        ({
            let st1 = spec_scan_arrow(g, st, a);
            let edge = spec_recipe_edge(g, a).unwrap();
            spec_order_of(st1, edge.1) > spec_order_of(st1, edge.0)
        }),
{
    let edge = spec_recipe_edge(g, a).unwrap();
    let s = edge.0;
    let e = edge.1;
    let st1 = spec_scan_arrow(g, st, a);
    assert(spec_order_of(st, s) <= b);
    assert(spec_order_of(st1, s) == spec_order_of(st, s));
    assert(spec_order_of(st1, e) > spec_order_of(st, s));
}

/// Topological correctness: when the edges of the graph are listed in
/// topological order — no edge ends at a node from which an edge at the
/// same or an earlier position starts — the order the scan assigns to the
/// destination of every recipe-to-recipe edge is strictly greater than the
/// order of its origin.  (Edge lists that connect a node back into one of
/// its processed ancestors, such as a cycle, are outside this law.)
#[verifier::rlimit(100)]
#[verifier::spinoff_prover]
pub proof fn lemma_topological_order(g: GraphV, k: int)
    requires
        g.arrows.len() <= usize::MAX,
        0 <= k < g.arrows.len(),
        spec_recipe_edge(g, g.arrows[k]) is Some,
        forall|i: int, j: int|
            0 <= i <= j < g.arrows.len() ==> (match (
                spec_recipe_edge(g, #[trigger] g.arrows[i]),
                spec_recipe_edge(g, #[trigger] g.arrows[j]),
            ) {
                (Some(ei), Some(ej)) => ej.1 != ei.0,
                _ => true,
            }),
    ensures
        ({
            let st = spec_scan(g, spec_init_state(g), g.arrows);
            let edge = spec_recipe_edge(g, g.arrows[k]).unwrap();
            spec_order_of(st, edge.1) > spec_order_of(st, edge.0)
        }),
{
    let st0 = spec_init_state(g);
    let edge = spec_recipe_edge(g, g.arrows[k]).unwrap();
    let s = edge.0;
    let e = edge.1;
    assert(e != s);
    let a = g.arrows[k];
    lemma_find_found(spec_simple_ids(g), a.start_flow_window);
    lemma_find_found(spec_compound_ids(g), a.start_flow_window);
    if a.end_flow_window is Some {
        lemma_find_found(spec_simple_ids(g), a.end_flow_window.unwrap());
        lemma_find_found(spec_compound_ids(g), a.end_flow_window.unwrap());
    }
    assert(s.0 == RecipeWindowType::SimpleRecipe ==> 0 <= s.1 < g.simple_recipes.len());
    assert(s.0 == RecipeWindowType::CompoundRecipe ==> 0 <= s.1 < g.compound_recipes.len());
    assert(e.0 == RecipeWindowType::SimpleRecipe ==> 0 <= e.1 < g.simple_recipes.len());
    assert(e.0 == RecipeWindowType::CompoundRecipe ==> 0 <= e.1 < g.compound_recipes.len());
    let stk = spec_scan(g, st0, g.arrows.take(k));
    lemma_scan_lens(g, st0, g.arrows.take(k));
    assert(spec_orders_bounded(st0, 0));
    lemma_scan_monotone(g, st0, g.arrows.take(k), e, 0);
    assert(spec_orders_bounded(stk, k));
    let stk1 = spec_scan_arrow(g, stk, g.arrows[k]);
    // One step across the edge leaves its destination strictly above its
    // origin: the start's order is at most k, so the bump does not wrap.
    lemma_scan_buckets_lens(g, st0, g.arrows.take(k));
    lemma_scan_arrow_step(g, stk, g.arrows[k], k);
    assert(spec_order_of(stk1, e) > spec_order_of(stk1, s));
    assert(spec_orders_bounded(stk1, k + 1));
    // Decompose the whole scan around position k.
    let single = seq![g.arrows[k]];
    lemma_scan_append(g, st0, g.arrows.take(k), single + g.arrows.skip(k + 1));
    assert(g.arrows.take(k) + (single + g.arrows.skip(k + 1)) =~= g.arrows);
    lemma_scan_append(g, stk, single, g.arrows.skip(k + 1));
    assert(single[0] == g.arrows[k]);
    assert(single.drop_first() =~= Seq::<ArrowV>::empty());
    assert(spec_scan(g, stk, single) == spec_scan(
        g,
        stk1,
        single.drop_first(),
    ));
    assert(spec_scan(g, stk, single) == stk1);
    let st = spec_scan(g, stk1, g.arrows.skip(k + 1));
    assert(st == spec_scan(g, st0, g.arrows));
    // No later edge ends at the origin, so its order stays put ...
    assert(forall|j: int|
        0 <= j < g.arrows.skip(k + 1).len() ==> #[trigger] g.arrows.skip(k + 1)[j] == g.arrows[
            k + 1 + j
        ]);
    lemma_scan_lens(g, st0, g.arrows.take(k) + seq![g.arrows[k]]);
    assert(stk1.simple_orders.len() == stk.simple_orders.len());
    assert(stk1.compound_orders.len() == stk.compound_orders.len());
    lemma_scan_stable(g, stk1, g.arrows.skip(k + 1), s);
    // ... while the destination's order can only grow.
    lemma_scan_monotone(g, stk1, g.arrows.skip(k + 1), e, k + 1);
}

/// The supply flow recorded at a recipe output port, when the start of an
/// edge resolves to one.
pub open spec fn spec_read_created(
    g: GraphV,
    t: RecipeWindowType,
    w: usize,
    f: usize,
) -> Option<FlowV> {
    match t {
        RecipeWindowType::SimpleRecipe => {
            if w < g.simple_recipes.len() && f < g.simple_recipes[w as int].inner_recipe.outputs.len() {
                match g.simple_recipes[w as int].inner_recipe.outputs[f as int] {
                    ManageFlowV::RecipeOutput(p) => Some(p.created),
                    ManageFlowV::RecipeInput(_) => None,
                }
            } else {
                None
            }
        },
        RecipeWindowType::CompoundRecipe => {
            if w < g.compound_recipes.len() && f < g.compound_recipes[
                w as int
            ].inner_recipe.outputs.len() {
                match g.compound_recipes[w as int].inner_recipe.outputs[f as int] {
                    ManageFlowV::RecipeOutput(p) => Some(p.created),
                    ManageFlowV::RecipeInput(_) => None,
                }
            } else {
                None
            }
        },
        _ => None,
    }
}

/// Whether the end of an edge resolves to a place a flow can be delivered:
/// an existing recipe input port, or a sink (whose port is created on the
/// first delivery).
pub open spec fn spec_end_valid(g: GraphV, t: RecipeWindowType, ew: usize, ef: usize) -> bool {
    match t {
        RecipeWindowType::SimpleRecipe => ew < g.simple_recipes.len() && ef < g.simple_recipes[
            ew as int
        ].inner_recipe.inputs.len() && g.simple_recipes[ew as int].inner_recipe.inputs[
            ef as int
        ] is RecipeInput,
        RecipeWindowType::CompoundRecipe => ew < g.compound_recipes.len() && ef
            < g.compound_recipes[ew as int].inner_recipe.inputs.len() && g.compound_recipes[
            ew as int
        ].inner_recipe.inputs[ef as int] is RecipeInput,
        RecipeWindowType::Sink => ew < g.sinks.len(),
        RecipeWindowType::Source => false,
    }
}

/// The demand at the end of an edge, used as the flow an unlimited source
/// supplies.  A sink whose port does not exist yet has no known demand.
pub open spec fn spec_read_end_needed(
    g: GraphV,
    t: RecipeWindowType,
    ew: usize,
    ef: usize,
) -> Option<FlowV> {
    match t {
        RecipeWindowType::SimpleRecipe => {
            if spec_end_valid(g, t, ew, ef) {
                match g.simple_recipes[ew as int].inner_recipe.inputs[ef as int] {
                    ManageFlowV::RecipeInput(p) => Some(p.needed),
                    ManageFlowV::RecipeOutput(_) => None,
                }
            } else {
                None
            }
        },
        RecipeWindowType::CompoundRecipe => {
            if spec_end_valid(g, t, ew, ef) {
                match g.compound_recipes[ew as int].inner_recipe.inputs[ef as int] {
                    ManageFlowV::RecipeInput(p) => Some(p.needed),
                    ManageFlowV::RecipeOutput(_) => None,
                }
            } else {
                None
            }
        },
        RecipeWindowType::Sink => {
            if ew < g.sinks.len() {
                match g.sinks[ew as int].sink {
                    Some(p) => Some(p.needed),
                    None => None,
                }
            } else {
                None
            }
        },
        RecipeWindowType::Source => None,
    }
}

/// Record an outbound flow on the output port an edge starts at (the port
/// accepts only flows of its own resource).
pub open spec fn spec_push_out(
    g: GraphV,
    t: RecipeWindowType,
    w: usize,
    f: usize,
    flow: FlowV,
) -> GraphV {
    match t {
        RecipeWindowType::SimpleRecipe => {
            if w < g.simple_recipes.len() && f < g.simple_recipes[w as int].inner_recipe.outputs.len() {
                let n = g.simple_recipes[w as int];
                match n.inner_recipe.outputs[f as int] {
                    ManageFlowV::RecipeOutput(p) => {
                        if flow.resource == p.resource {
                            GraphV {
                                simple_recipes: g.simple_recipes.update(
                                    w as int,
                                    SimpleV {
                                        inner_recipe: BaseV {
                                            outputs: n.inner_recipe.outputs.update(
                                                f as int,
                                                ManageFlowV::RecipeOutput(
                                                    OutPortV { outputs: p.outputs.push(flow), ..p },
                                                ),
                                            ),
                                            ..n.inner_recipe
                                        },
                                    },
                                ),
                                ..g
                            }
                        } else {
                            g
                        }
                    },
                    ManageFlowV::RecipeInput(_) => g,
                }
            } else {
                g
            }
        },
        RecipeWindowType::CompoundRecipe => {
            if w < g.compound_recipes.len() && f < g.compound_recipes[
                w as int
            ].inner_recipe.outputs.len() {
                let n = g.compound_recipes[w as int];
                match n.inner_recipe.outputs[f as int] {
                    ManageFlowV::RecipeOutput(p) => {
                        if flow.resource == p.resource {
                            GraphV {
                                compound_recipes: g.compound_recipes.update(
                                    w as int,
                                    CompoundV {
                                        inner_recipe: BaseV {
                                            outputs: n.inner_recipe.outputs.update(
                                                f as int,
                                                ManageFlowV::RecipeOutput(
                                                    OutPortV { outputs: p.outputs.push(flow), ..p },
                                                ),
                                            ),
                                            ..n.inner_recipe
                                        },
                                        ..n
                                    },
                                ),
                                ..g
                            }
                        } else {
                            g
                        }
                    },
                    ManageFlowV::RecipeInput(_) => g,
                }
            } else {
                g
            }
        },
        RecipeWindowType::Source => {
            if w < g.sources.len() {
                let s = g.sources[w as int];
                if flow.resource == s.output.resource {
                    GraphV {
                        sources: g.sources.update(
                            w as int,
                            SourceV {
                                output: OutPortV {
                                    outputs: s.output.outputs.push(flow),
                                    ..s.output
                                },
                                ..s
                            },
                        ),
                        ..g
                    }
                } else {
                    g
                }
            } else {
                g
            }
        },
        RecipeWindowType::Sink => g,
    }
}

/// Record an inbound flow on the input port an edge ends at.  A sink's
/// port is created by the first delivery, typed by the flow's resource and
/// demanding exactly that flow.
pub open spec fn spec_push_in(
    g: GraphV,
    t: RecipeWindowType,
    ew: usize,
    ef: usize,
    flow: FlowV,
) -> GraphV {
    match t {
        RecipeWindowType::SimpleRecipe => {
            if ew < g.simple_recipes.len() && ef < g.simple_recipes[
                ew as int
            ].inner_recipe.inputs.len() {
                let n = g.simple_recipes[ew as int];
                match n.inner_recipe.inputs[ef as int] {
                    ManageFlowV::RecipeInput(p) => {
                        if flow.resource == p.resource {
                            GraphV {
                                simple_recipes: g.simple_recipes.update(
                                    ew as int,
                                    SimpleV {
                                        inner_recipe: BaseV {
                                            inputs: n.inner_recipe.inputs.update(
                                                ef as int,
                                                ManageFlowV::RecipeInput(
                                                    InPortV { inputs: p.inputs.push(flow), ..p },
                                                ),
                                            ),
                                            ..n.inner_recipe
                                        },
                                    },
                                ),
                                ..g
                            }
                        } else {
                            g
                        }
                    },
                    ManageFlowV::RecipeOutput(_) => g,
                }
            } else {
                g
            }
        },
        RecipeWindowType::CompoundRecipe => {
            if ew < g.compound_recipes.len() && ef < g.compound_recipes[
                ew as int
            ].inner_recipe.inputs.len() {
                let n = g.compound_recipes[ew as int];
                match n.inner_recipe.inputs[ef as int] {
                    ManageFlowV::RecipeInput(p) => {
                        if flow.resource == p.resource {
                            GraphV {
                                compound_recipes: g.compound_recipes.update(
                                    ew as int,
                                    CompoundV {
                                        inner_recipe: BaseV {
                                            inputs: n.inner_recipe.inputs.update(
                                                ef as int,
                                                ManageFlowV::RecipeInput(
                                                    InPortV { inputs: p.inputs.push(flow), ..p },
                                                ),
                                            ),
                                            ..n.inner_recipe
                                        },
                                        ..n
                                    },
                                ),
                                ..g
                            }
                        } else {
                            g
                        }
                    },
                    ManageFlowV::RecipeOutput(_) => g,
                }
            } else {
                g
            }
        },
        RecipeWindowType::Sink => {
            if ew < g.sinks.len() {
                let k = g.sinks[ew as int];
                match k.sink {
                    None => GraphV {
                        sinks: g.sinks.update(
                            ew as int,
                            SinkV {
                                sink: Some(
                                    InPortV {
                                        resource: flow.resource,
                                        inputs: seq![flow],
                                        needed: flow,
                                    },
                                ),
                                ..k
                            },
                        ),
                        ..g
                    },
                    Some(p) => {
                        if flow.resource == p.resource {
                            GraphV {
                                sinks: g.sinks.update(
                                    ew as int,
                                    SinkV {
                                        sink: Some(InPortV { inputs: p.inputs.push(flow), ..p }),
                                        ..k
                                    },
                                ),
                                ..g
                            }
                        } else {
                            g
                        }
                    },
                }
            } else {
                g
            }
        },
        _ => g,
    }
}

/// In a well-formed graph, a supply read from an output port is well
/// formed.
pub proof fn lemma_read_created_wf(g: GraphV, t: RecipeWindowType, w: usize, f: usize)
    requires
        g.wf(),
        spec_read_created(g, t, w, f) is Some,
    ensures
        spec_read_created(g, t, w, f).unwrap().wf(),
{
    match t {
        RecipeWindowType::SimpleRecipe => {
            assert(g.simple_recipes[w as int].inner_recipe.wf());
            assert(g.simple_recipes[w as int].inner_recipe.outputs[f as int].wf());
        },
        RecipeWindowType::CompoundRecipe => {
            assert(g.compound_recipes[w as int].wf());
            assert(g.compound_recipes[w as int].inner_recipe.outputs[f as int].wf());
        },
        _ => {},
    }
}

/// In a well-formed graph, a demand read from an input port is well
/// formed.
pub proof fn lemma_read_end_needed_wf(g: GraphV, t: RecipeWindowType, ew: usize, ef: usize)
    requires
        g.wf(),
        spec_read_end_needed(g, t, ew, ef) is Some,
    ensures
        spec_read_end_needed(g, t, ew, ef).unwrap().wf(),
{
    match t {
        RecipeWindowType::SimpleRecipe => {
            assert(g.simple_recipes[ew as int].inner_recipe.wf());
            assert(g.simple_recipes[ew as int].inner_recipe.inputs[ef as int].wf());
        },
        RecipeWindowType::CompoundRecipe => {
            assert(g.compound_recipes[ew as int].wf());
            assert(g.compound_recipes[ew as int].inner_recipe.inputs[ef as int].wf());
        },
        RecipeWindowType::Sink => {
            assert(g.sinks[ew as int].wf());
        },
        _ => {},
    }
}

/// Mirror of the limited or demanded flow a source supplies along an edge:
/// a limited source supplies its limit, an unlimited one supplies exactly
/// the demand at the edge's end.
pub open spec fn spec_source_used_flow(s: SourceV, needed: FlowV) -> FlowV {
    if s.limited_output {
        FlowV {
            resource: s.output.created.resource,
            amount_per_cycle: 1usize,
            amount: s.limit_amount,
            rate: s.limit_rate,
        }
    } else {
        needed
    }
}

/// Mirror of one entry of the forward pass, per section 4.3 of the design:
/// an edge carries its start port's supply (or the source's limited or
/// demanded flow) to both of its ports; an end-of-recipe marker fires the
/// node's internal rule, recursing into a compound node's nested graph.
pub open spec fn spec_forward_step(g: GraphV, h: FlowCalculatorType, fuel: nat) -> GraphV
    decreases fuel, 1int, 0int,
{
    match h {
        FlowCalculatorType::Helper(hh) => {
            match hh.start_type {
                RecipeWindowType::SimpleRecipe | RecipeWindowType::CompoundRecipe => {
                    match spec_read_created(g, hh.start_type, hh.start_window_index, hh.start_flow_index) {
                        None => g,
                        Some(used) => {
                            if spec_end_valid(g, hh.end_type, hh.end_window_index, hh.end_flow_index) {
                                let g1 = spec_push_out(
                                    g,
                                    hh.start_type,
                                    hh.start_window_index,
                                    hh.start_flow_index,
                                    used,
                                );
                                spec_push_in(
                                    g1,
                                    hh.end_type,
                                    hh.end_window_index,
                                    hh.end_flow_index,
                                    used,
                                )
                            } else {
                                g
                            }
                        },
                    }
                },
                RecipeWindowType::Source => {
                    if hh.start_window_index < g.sources.len() {
                        match spec_read_end_needed(g, hh.end_type, hh.end_window_index, hh.end_flow_index) {
                            None => g,
                            Some(needed) => {
                                let s = g.sources[hh.start_window_index as int];
                                let used = spec_source_used_flow(s, needed);
                                let g1 = spec_push_out(
                                    g,
                                    RecipeWindowType::Source,
                                    hh.start_window_index,
                                    0,
                                    used,
                                );
                                spec_push_in(
                                    g1,
                                    hh.end_type,
                                    hh.end_window_index,
                                    hh.end_flow_index,
                                    used,
                                )
                            },
                        }
                    } else {
                        g
                    }
                },
                RecipeWindowType::Sink => g,
            }
        },
        FlowCalculatorType::EndRecipe(i, t) => {
            match t {
                RecipeWindowType::SimpleRecipe => {
                    if i < g.simple_recipes.len() {
                        let n = g.simple_recipes[i as int];
                        GraphV {
                            simple_recipes: g.simple_recipes.update(
                                i as int,
                                SimpleV {
                                    inner_recipe: crate::recipe_window::spec_simple_internal(
                                        n.inner_recipe,
                                    ),
                                },
                            ),
                            ..g
                        }
                    } else {
                        g
                    }
                },
                RecipeWindowType::CompoundRecipe => {
                    if i < g.compound_recipes.len() {
                        let n = g.compound_recipes[i as int];
                        GraphV {
                            compound_recipes: g.compound_recipes.update(
                                i as int,
                                spec_compound_internal(n, fuel),
                            ),
                            ..g
                        }
                    } else {
                        g
                    }
                },
                _ => g,
            }
        },
    }
}

/// Mirror of the whole forward pass: the evaluation sequence applied left
/// to right.
pub open spec fn spec_forward(g: GraphV, hs: Seq<FlowCalculatorType>, fuel: nat) -> GraphV
    decreases fuel, 2int, hs.len(),
{
    if hs.len() == 0 {
        g
    } else {
        spec_forward(spec_forward_step(g, hs[0], fuel), hs.drop_first(), fuel)
    }
}

/// Mirror of a compound recipe's internal rule: push the observed demands
/// down onto the nested sources, re-solve the nested graph, and rebuild the
/// output ports from the nested sinks.  The fuel bounds the recursion; it
/// never runs out when it starts at least at the graph's nesting depth.
pub open spec fn spec_compound_internal(c: CompoundV, fuel: nat) -> CompoundV
    decreases fuel, 0int, 0int,
{
    let c1 = crate::compound_recipe_window::spec_limit_inputs(c);
    let g2 = if fuel > 0 {
        spec_calculate(c1.recipe_graph, (fuel - 1) as nat)
    } else {
        c1.recipe_graph
    };
    crate::compound_recipe_window::spec_update_outputs(
        CompoundV { recipe_graph: g2, ..c1 },
    )
}

/// Mirror of [`RecipeGraph::calculate`]: reset every port, build the
/// evaluation sequence, run the forward pass, then the backward pass.
pub open spec fn spec_calculate(g: GraphV, fuel: nat) -> GraphV
    decreases fuel, 3int, 0int,
{
    let g1 = spec_reset(g);
    let hs = spec_helpers(g1);
    let g2 = spec_forward(g1, hs, fuel);
    spec_backward(g2, hs)
}

impl RecipeGraph {
    /// An empty graph.
    pub fn new() -> (r: Self)
        ensures
            r@.simple_recipes.len() == 0,
            r@.compound_recipes.len() == 0,
            r@.sources.len() == 0,
            r@.sinks.len() == 0,
            r@.arrows.len() == 0,
            r@.wf(),
            spec_nesting(r@) == 0,
    {
        let r = Self {
            simple_recipes: Vec::new(),
            compound_recipes: Vec::new(),
            sources: Vec::new(),
            sinks: Vec::new(),
            arrows: Vec::new(),
        };
        proof {
            assert(r@.simple_recipes =~= Seq::<SimpleV>::empty());
            assert(r@.compound_recipes =~= Seq::<CompoundV>::empty());
            assert(r@.sources =~= Seq::<SourceV>::empty());
            assert(r@.sinks =~= Seq::<SinkV>::empty());
            assert(r@.arrows =~= Seq::<ArrowV>::empty());
        }
        r
    }

    /// The position of the simple recipe with this id, or the list length.
    fn find_simple(&self, id: u64) -> (r: usize)
        ensures
            r == spec_find_by_id(spec_simple_ids(self@), id),
    {
        let ghost ids = spec_simple_ids(self@);
        let mut i: usize = 0;
        while i < self.simple_recipes.len()
            invariant
                ids == spec_simple_ids(self@),
                i <= self.simple_recipes@.len(),
                ids.len() == self.simple_recipes@.len(),
                forall|j: int| 0 <= j < i ==> ids[j] != id,
            decreases self.simple_recipes@.len() - i,
        {
            if self.simple_recipes[i].inner_recipe.id == id {
                proof {
                    lemma_find_skip(ids, id, i as int);
                    assert(ids.skip(i as int)[0] == id);
                }
                return i;
            }
            i = i + 1;
        }
        proof {
            lemma_find_skip(ids, id, ids.len() as int);
            assert(ids.skip(ids.len() as int) =~= Seq::<u64>::empty());
        }
        i
    }

    /// The position of the compound recipe with this id, or the list
    /// length.
    fn find_compound(&self, id: u64) -> (r: usize)
        ensures
            r == spec_find_by_id(spec_compound_ids(self@), id),
    {
        proof {
            lemma_compound_views_upto(
                self.compound_recipes@,
                self.compound_recipes@.len() as int,
            );
        }
        let ghost ids = spec_compound_ids(self@);
        let mut i: usize = 0;
        while i < self.compound_recipes.len()
            invariant
                ids == spec_compound_ids(self@),
                i <= self.compound_recipes@.len(),
                ids.len() == self.compound_recipes@.len(),
                forall|j: int|
                    0 <= j < self.compound_recipes@.len() ==> ids[j] == self@.compound_recipes[
                        j
                    ].inner_recipe.id && self@.compound_recipes[j] == compound_view(
                        self.compound_recipes@[j],
                    ),
                forall|j: int| 0 <= j < i ==> ids[j] != id,
            decreases self.compound_recipes@.len() - i,
        {
            if self.compound_recipes[i].inner_recipe.id == id {
                proof {
                    lemma_find_skip(ids, id, i as int);
                    assert(ids.skip(i as int)[0] == id);
                }
                return i;
            }
            i = i + 1;
        }
        proof {
            lemma_find_skip(ids, id, ids.len() as int);
            assert(ids.skip(ids.len() as int) =~= Seq::<u64>::empty());
        }
        i
    }

    /// The position of the source with this id, or the list length.
    fn find_source(&self, id: u64) -> (r: usize)
        ensures
            r == spec_find_by_id(spec_source_ids(self@), id),
    {
        let ghost ids = spec_source_ids(self@);
        let mut i: usize = 0;
        while i < self.sources.len()
            invariant
                ids == spec_source_ids(self@),
                i <= self.sources@.len(),
                ids.len() == self.sources@.len(),
                forall|j: int| 0 <= j < i ==> ids[j] != id,
            decreases self.sources@.len() - i,
        {
            if self.sources[i].id == id {
                proof {
                    lemma_find_skip(ids, id, i as int);
                    assert(ids.skip(i as int)[0] == id);
                }
                return i;
            }
            i = i + 1;
        }
        proof {
            lemma_find_skip(ids, id, ids.len() as int);
            assert(ids.skip(ids.len() as int) =~= Seq::<u64>::empty());
        }
        i
    }

    /// The position of the sink with this id, or the list length.
    fn find_sink(&self, id: u64) -> (r: usize)
        ensures
            r == spec_find_by_id(spec_sink_ids(self@), id),
    {
        let ghost ids = spec_sink_ids(self@);
        let mut i: usize = 0;
        while i < self.sinks.len()
            invariant
                ids == spec_sink_ids(self@),
                i <= self.sinks@.len(),
                ids.len() == self.sinks@.len(),
                forall|j: int| 0 <= j < i ==> ids[j] != id,
            decreases self.sinks@.len() - i,
        {
            if self.sinks[i].id == id {
                proof {
                    lemma_find_skip(ids, id, i as int);
                    assert(ids.skip(i as int)[0] == id);
                }
                return i;
            }
            i = i + 1;
        }
        proof {
            lemma_find_skip(ids, id, ids.len() as int);
            assert(ids.skip(ids.len() as int) =~= Seq::<u64>::empty());
        }
        i
    }

    /// Resolve an edge's start: its port index, node kind, and the node's
    /// position in its list, per [`spec_get_start_point`].
    #[verifier::rlimit(50)]
    pub fn get_start_point(&self, arrow: &ArrowFlow) -> (r: (usize, RecipeWindowType, Option<
        usize,
    >))
        ensures
            r.0 == spec_get_start_point(self@, arrow@).0,
            r.1 == spec_get_start_point(self@, arrow@).1,
            r.2 is Some <==> spec_get_start_point(self@, arrow@).2 is Some,
            r.2 is Some ==> r.2.unwrap() as int == spec_get_start_point(self@, arrow@).2.unwrap(),
    {
        proof {
            lemma_compound_views_upto(
                self.compound_recipes@,
                self.compound_recipes@.len() as int,
            );
            assert(self@.compound_recipes.len() == self.compound_recipes@.len());
        }
        let start_id = arrow.start_flow_window;
        let source_flow_index = arrow.start_flow_index;
        let source_type = arrow.start_flow_type;
        proof {
            assert(arrow@.start_flow_window == start_id);
            assert(arrow@.start_flow_type == source_type);
            assert(self@.simple_recipes.len() == self.simple_recipes@.len());
            assert(self@.sources.len() == self.sources@.len());
            assert(self@.compound_recipes.len() == self.compound_recipes@.len());
        }
        let source_window_index: Option<usize> = match source_type {
            RecipeWindowType::SimpleRecipe => {
                let i = self.find_simple(start_id);
                proof {
                    assert(i == spec_find_by_id(spec_simple_ids(self@), start_id));
                    assert(self@.simple_recipes.len() == self.simple_recipes@.len());
                    assert(spec_get_start_point(self@, arrow@).2 == (
                        if spec_find_by_id(spec_simple_ids(self@), start_id)
                            < self@.simple_recipes.len() {
                            Some(spec_find_by_id(spec_simple_ids(self@), start_id))
                        } else {
                            None::<int>
                        }
                    ));
                }
                if i < self.simple_recipes.len() {
                    Some(i)
                } else {
                    None
                }
            },
            RecipeWindowType::Source => {
                let i = self.find_source(start_id);
                proof {
                    assert(self@.sources.len() == self.sources@.len());
                    assert(spec_get_start_point(self@, arrow@).2 == (
                        if spec_find_by_id(spec_source_ids(self@), start_id)
                            < self@.sources.len() {
                            Some(spec_find_by_id(spec_source_ids(self@), start_id))
                        } else {
                            None::<int>
                        }
                    ));
                }
                if i < self.sources.len() {
                    Some(i)
                } else {
                    None
                }
            },
            RecipeWindowType::Sink => {
                proof {
                    assert(spec_get_start_point(self@, arrow@).2 is None);
                }
                None
            },
            RecipeWindowType::CompoundRecipe => {
                let i = self.find_compound(start_id);
                proof {
                    assert(self@.compound_recipes.len() == self.compound_recipes@.len());
                    assert(spec_get_start_point(self@, arrow@).2 == (
                        if spec_find_by_id(spec_compound_ids(self@), start_id)
                            < self@.compound_recipes.len() {
                            Some(spec_find_by_id(spec_compound_ids(self@), start_id))
                        } else {
                            None::<int>
                        }
                    ));
                }
                if i < self.compound_recipes.len() {
                    Some(i)
                } else {
                    None
                }
            },
        };
        let r = (source_flow_index, source_type, source_window_index);
        proof {
            let oi = spec_get_start_point(self@, arrow@).2;
            assert(r.2 is Some ==> oi is Some);
            assert(r.2 is None ==> oi is None);
            assert(r.2 is Some ==> r.2.unwrap() as int == oi.unwrap());
        }
        r
    }

    /// Resolve an edge's end: its port index, node kind, and the node's
    /// position in its list, per [`spec_get_endpoint`].
    pub fn get_endpoint(&self, arrow: &ArrowFlow) -> (r: (usize, RecipeWindowType, Option<usize>))
        ensures
            r.0 == spec_get_endpoint(self@, arrow@).0,
            r.1 == spec_get_endpoint(self@, arrow@).1,
            r.2 is Some <==> spec_get_endpoint(self@, arrow@).2 is Some,
            r.2 is Some ==> r.2.unwrap() as int == spec_get_endpoint(self@, arrow@).2.unwrap(),
    {
        proof {
            lemma_compound_views_upto(
                self.compound_recipes@,
                self.compound_recipes@.len() as int,
            );
        }
        let end_flow_index = arrow.end_flow_index;
        let end_type = match arrow.end_flow_type {
            Some(t) => t,
            None => RecipeWindowType::Source,
        };
        let end_window_index: Option<usize> = match arrow.end_flow_window {
            None => None,
            Some(end_id) => match end_type {
                RecipeWindowType::SimpleRecipe => {
                    let i = self.find_simple(end_id);
                    if i < self.simple_recipes.len() {
                        Some(i)
                    } else {
                        None
                    }
                },
                RecipeWindowType::Source => None,
                RecipeWindowType::Sink => {
                    let i = self.find_sink(end_id);
                    if i < self.sinks.len() {
                        Some(i)
                    } else {
                        None
                    }
                },
                RecipeWindowType::CompoundRecipe => {
                    let i = self.find_compound(end_id);
                    if i < self.compound_recipes.len() {
                        Some(i)
                    } else {
                        None
                    }
                },
            },
        };
        let r = (end_flow_index, end_type, end_window_index);
        proof {
            let oi = spec_get_endpoint(self@, arrow@).2;
            assert(r.2 is Some ==> oi is Some);
            assert(r.2 is None ==> oi is None);
            assert(r.2 is Some ==> r.2.unwrap() as int == oi.unwrap());
        }
        r
    }

    /// The limiting rate and the limited flow that an entry of the
    /// evaluation sequence imposes during back-propagation, per
    /// [`spec_get_back_rate`].
    pub fn get_back_rate(&self, helper: FlowCalculatorType) -> (r: (Frac, Option<ResourceFlow>))
        requires
            self@.wf(),
        ensures
            r.0 == spec_get_back_rate(self@, helper).0,
            r.1 is Some <==> spec_get_back_rate(self@, helper).1 is Some,
            r.1 is Some ==> r.1.unwrap()@ == spec_get_back_rate(self@, helper).1.unwrap()
                && r.1.unwrap()@.wf(),
            r.0.wf(),
    {
        proof {
            lemma_compound_views_upto(
                self.compound_recipes@,
                self.compound_recipes@.len() as int,
            );
        }
        let no_limit_rate = Frac::one();
        match helper {
            FlowCalculatorType::Helper(hh) => {
                match hh.end_type {
                    RecipeWindowType::SimpleRecipe => {
                        if hh.end_window_index < self.simple_recipes.len() {
                            let end = &self.simple_recipes[hh.end_window_index];
                            if hh.end_flow_index < end.inner_recipe.inputs.len() {
                                proof {
                                    assert(self@.simple_recipes[hh.end_window_index as int]
                                        .inner_recipe.inputs[hh.end_flow_index as int].wf());
                                }
                                match &end.inner_recipe.inputs[hh.end_flow_index] {
                                    ManageFlow::RecipeInput(p) => {
                                        let total_out = p.total_out();
                                        let total_in = p.total_in();
                                        match total_out.div(&total_in) {
                                            Ok(rate) => (rate, Some(p.total_out())),
                                            Err(_) => (no_limit_rate, None),
                                        }
                                    },
                                    ManageFlow::RecipeOutput(_) => (no_limit_rate, None),
                                }
                            } else {
                                (no_limit_rate, None)
                            }
                        } else {
                            (no_limit_rate, None)
                        }
                    },
                    RecipeWindowType::CompoundRecipe => {
                        if hh.end_window_index < self.compound_recipes.len() {
                            let end = &self.compound_recipes[hh.end_window_index];
                            if hh.end_flow_index < end.inner_recipe.inputs.len() {
                                proof {
                                    assert(self@.compound_recipes[hh.end_window_index as int]
                                        .inner_recipe.inputs[hh.end_flow_index as int].wf());
                                }
                                match &end.inner_recipe.inputs[hh.end_flow_index] {
                                    ManageFlow::RecipeInput(p) => {
                                        let total_out = p.total_out();
                                        let total_in = p.total_in();
                                        match total_out.div(&total_in) {
                                            Ok(rate) => (rate, Some(p.total_out())),
                                            Err(_) => (no_limit_rate, None),
                                        }
                                    },
                                    ManageFlow::RecipeOutput(_) => (no_limit_rate, None),
                                }
                            } else {
                                (no_limit_rate, None)
                            }
                        } else {
                            (no_limit_rate, None)
                        }
                    },
                    RecipeWindowType::Source => (no_limit_rate, None),
                    RecipeWindowType::Sink => (no_limit_rate, None),
                }
            },
            FlowCalculatorType::EndRecipe(_, _) => (no_limit_rate, None),
        }
    }

    /// The supply recorded at the output port an edge starts at, per
    /// [`spec_read_created`].
    fn read_created(&self, t: RecipeWindowType, w: usize, f: usize) -> (r: Option<ResourceFlow>)
        ensures
            r is Some <==> spec_read_created(self@, t, w, f) is Some,
            r is Some ==> r.unwrap()@ == spec_read_created(self@, t, w, f).unwrap(),
    {
        proof {
            lemma_compound_views_upto(
                self.compound_recipes@,
                self.compound_recipes@.len() as int,
            );
        }
        match t {
            RecipeWindowType::SimpleRecipe => {
                if w < self.simple_recipes.len() && f < self.simple_recipes[w]
                    .inner_recipe
                    .outputs
                    .len() {
                    match &self.simple_recipes[w].inner_recipe.outputs[f] {
                        ManageFlow::RecipeOutput(p) => Some(p.created.clone()),
                        ManageFlow::RecipeInput(_) => None,
                    }
                } else {
                    None
                }
            },
            RecipeWindowType::CompoundRecipe => {
                if w < self.compound_recipes.len() && f < self.compound_recipes[w]
                    .inner_recipe
                    .outputs
                    .len() {
                    match &self.compound_recipes[w].inner_recipe.outputs[f] {
                        ManageFlow::RecipeOutput(p) => Some(p.created.clone()),
                        ManageFlow::RecipeInput(_) => None,
                    }
                } else {
                    None
                }
            },
            _ => None,
        }
    }

    /// Whether an edge's end resolves to a place a flow can be delivered,
    /// per [`spec_end_valid`].
    fn end_valid(&self, t: RecipeWindowType, ew: usize, ef: usize) -> (r: bool)
        ensures
            r == spec_end_valid(self@, t, ew, ef),
    {
        proof {
            lemma_compound_views_upto(
                self.compound_recipes@,
                self.compound_recipes@.len() as int,
            );
        }
        match t {
            RecipeWindowType::SimpleRecipe => {
                ew < self.simple_recipes.len() && ef < self.simple_recipes[ew]
                    .inner_recipe
                    .inputs
                    .len() && matches!(
                    &self.simple_recipes[ew].inner_recipe.inputs[ef],
                    ManageFlow::RecipeInput(_)
                )
            },
            RecipeWindowType::CompoundRecipe => {
                ew < self.compound_recipes.len() && ef < self.compound_recipes[ew]
                    .inner_recipe
                    .inputs
                    .len() && matches!(
                    &self.compound_recipes[ew].inner_recipe.inputs[ef],
                    ManageFlow::RecipeInput(_)
                )
            },
            RecipeWindowType::Sink => ew < self.sinks.len(),
            RecipeWindowType::Source => false,
        }
    }

    /// The demand at an edge's end, per [`spec_read_end_needed`].
    fn read_end_needed(&self, t: RecipeWindowType, ew: usize, ef: usize) -> (r: Option<
        ResourceFlow,
    >)
        ensures
            r is Some <==> spec_read_end_needed(self@, t, ew, ef) is Some,
            r is Some ==> r.unwrap()@ == spec_read_end_needed(self@, t, ew, ef).unwrap(),
    {
        proof {
            lemma_compound_views_upto(
                self.compound_recipes@,
                self.compound_recipes@.len() as int,
            );
        }
        match t {
            RecipeWindowType::SimpleRecipe => {
                if ew < self.simple_recipes.len() && ef < self.simple_recipes[ew]
                    .inner_recipe
                    .inputs
                    .len() {
                    match &self.simple_recipes[ew].inner_recipe.inputs[ef] {
                        ManageFlow::RecipeInput(p) => Some(p.needed.clone()),
                        ManageFlow::RecipeOutput(_) => None,
                    }
                } else {
                    None
                }
            },
            RecipeWindowType::CompoundRecipe => {
                if ew < self.compound_recipes.len() && ef < self.compound_recipes[ew]
                    .inner_recipe
                    .inputs
                    .len() {
                    match &self.compound_recipes[ew].inner_recipe.inputs[ef] {
                        ManageFlow::RecipeInput(p) => Some(p.needed.clone()),
                        ManageFlow::RecipeOutput(_) => None,
                    }
                } else {
                    None
                }
            },
            RecipeWindowType::Sink => {
                if ew < self.sinks.len() {
                    match &self.sinks[ew].sink {
                        Some(p) => Some(p.needed.clone()),
                        None => None,
                    }
                } else {
                    None
                }
            },
            RecipeWindowType::Source => None,
        }
    }

    /// Record an outbound flow on the port an edge starts at, per
    /// [`spec_push_out`].
    #[verifier::rlimit(100)]
    #[verifier::spinoff_prover]
    fn push_out_flow(&mut self, t: RecipeWindowType, w: usize, f: usize, flow: ResourceFlow)
        requires
            old(self)@.wf(),
            flow@.wf(),
        ensures
            final(self)@ == spec_push_out(old(self)@, t, w, f, flow@),
            final(self)@.wf(),
            spec_nesting(final(self)@) == spec_nesting(old(self)@),
    {
        let ghost g0: GraphV = self@;
        match t {
            RecipeWindowType::SimpleRecipe => {
                if w < self.simple_recipes.len() && f < self.simple_recipes[w]
                    .inner_recipe
                    .outputs
                    .len() {
                    let ghost prev = self@.simple_recipes;
                    let mut n = self.simple_recipes.remove(w);
                    proof {
                        assert(n@ == g0.simple_recipes[w as int]);
                    }
                    let ghost ports_prev = n@.inner_recipe.outputs;
                    let mut elem = n.inner_recipe.outputs.remove(f);
                    proof {
                        assert(elem@ == ports_prev[f as int]);
                    }
                    match &mut elem {
                        ManageFlow::RecipeOutput(p) => {
                            proof {
                                assert(g0.simple_recipes[w as int].inner_recipe.outputs[
                                    f as int
                                ].wf());
                            }
                            let _ = p.add_out_flow(flow);
                        },
                        ManageFlow::RecipeInput(_) => {},
                    }
                    n.inner_recipe.outputs.insert(f, elem);
                    self.simple_recipes.insert(w, n);
                    proof {
                        assert(self@.simple_recipes[w as int].inner_recipe.outputs
                            =~= ports_prev.update(
                            f as int,
                            self@.simple_recipes[w as int].inner_recipe.outputs[f as int],
                        ));
                        assert(self@.simple_recipes =~= prev.update(
                            w as int,
                            self@.simple_recipes[w as int],
                        ));
                        assert(self@ =~~= spec_push_out(g0, t, w, f, flow@));
                    }
                } else {
                    proof {
                        assert(self@ =~~= spec_push_out(g0, t, w, f, flow@));
                    }
                }
            },
            RecipeWindowType::CompoundRecipe => {
                if w < self.compound_recipes.len() && f < self.compound_recipes[w]
                    .inner_recipe
                    .outputs
                    .len() {
                    let ghost prev = self@.compound_recipes;
                    let ghost vec_before = self.compound_recipes@;
                    let mut n = self.compound_recipes.remove(w);
                    proof {
                        lemma_compound_views_upto(vec_before, vec_before.len() as int);
                        assert(compound_view(n) == g0.compound_recipes[w as int]);
                        assert(n@.wf());
                    }
                    let ghost ports_prev = n@.inner_recipe.outputs;
                    let mut elem = n.inner_recipe.outputs.remove(f);
                    proof {
                        assert(elem@ == ports_prev[f as int]);
                    }
                    match &mut elem {
                        ManageFlow::RecipeOutput(p) => {
                            proof {
                                assert(g0.compound_recipes[w as int].inner_recipe.outputs[
                                    f as int
                                ].wf());
                            }
                            let _ = p.add_out_flow(flow);
                        },
                        ManageFlow::RecipeInput(_) => {},
                    }
                    n.inner_recipe.outputs.insert(f, elem);
                    let ghost n2 = n;
                    self.compound_recipes.insert(w, n);
                    proof {
                        assert(self.compound_recipes@ =~= vec_before.update(w as int, n2));
                        lemma_compound_views_upto(
                            self.compound_recipes@,
                            self.compound_recipes@.len() as int,
                        );
                        assert forall|j: int| 0 <= j < prev.len() implies self@.compound_recipes[j]
                            == prev.update(w as int, compound_view(n2))[j] by {
                            assert(self@.compound_recipes[j] == compound_view(
                                vec_before.update(w as int, n2)[j],
                            ));
                        }
                        assert(self@.compound_recipes =~= prev.update(
                            w as int,
                            compound_view(n2),
                        ));
                        assert(compound_view(n2).inner_recipe.outputs =~= ports_prev.update(
                            f as int,
                            compound_view(n2).inner_recipe.outputs[f as int],
                        ));
                        assert(compound_view(n2) =~~= spec_push_out(
                            g0,
                            t,
                            w,
                            f,
                            flow@,
                        ).compound_recipes[w as int]);
                        assert(self@.compound_recipes =~= spec_push_out(
                            g0,
                            t,
                            w,
                            f,
                            flow@,
                        ).compound_recipes);
                        assert(self@.simple_recipes == spec_push_out(
                            g0,
                            t,
                            w,
                            f,
                            flow@,
                        ).simple_recipes);
                        assert(self@.sources == spec_push_out(g0, t, w, f, flow@).sources);
                        assert(self@.sinks == spec_push_out(g0, t, w, f, flow@).sinks);
                        assert(self@.arrows == spec_push_out(g0, t, w, f, flow@).arrows);
                        assert(self@ =~~= spec_push_out(g0, t, w, f, flow@));
                        lemma_nesting_congruent(self@, g0);
                    }
                } else {
                    proof {
                        lemma_compound_views_upto(
                            self.compound_recipes@,
                            self.compound_recipes@.len() as int,
                        );
                        assert(self@ =~~= spec_push_out(g0, t, w, f, flow@));
                    }
                }
            },
            RecipeWindowType::Source => {
                if w < self.sources.len() {
                    let ghost prev = self@.sources;
                    let mut s = self.sources.remove(w);
                    proof {
                        assert(s@ == g0.sources[w as int]);
                    }
                    let _ = s.output.add_out_flow(flow);
                    self.sources.insert(w, s);
                    proof {
                        assert(self@.sources =~= prev.update(
                            w as int,
                            self@.sources[w as int],
                        ));
                        assert(self@ =~~= spec_push_out(g0, t, w, f, flow@));
                    }
                } else {
                    proof {
                        assert(self@ =~~= spec_push_out(g0, t, w, f, flow@));
                    }
                }
            },
            RecipeWindowType::Sink => {
                proof {
                    assert(self@ =~~= spec_push_out(g0, t, w, f, flow@));
                }
            },
        }
    }

    /// Record an inbound flow on the port an edge ends at, per
    /// [`spec_push_in`] (a sink's port is created by the first delivery).
    #[verifier::rlimit(100)]
    #[verifier::spinoff_prover]
    fn push_in_flow(&mut self, t: RecipeWindowType, ew: usize, ef: usize, flow: ResourceFlow)
        requires
            old(self)@.wf(),
            flow@.wf(),
        ensures
            final(self)@ == spec_push_in(old(self)@, t, ew, ef, flow@),
            final(self)@.wf(),
            spec_nesting(final(self)@) == spec_nesting(old(self)@),
    {
        let ghost g0: GraphV = self@;
        match t {
            RecipeWindowType::SimpleRecipe => {
                if ew < self.simple_recipes.len() && ef < self.simple_recipes[ew]
                    .inner_recipe
                    .inputs
                    .len() {
                    let ghost prev = self@.simple_recipes;
                    let mut n = self.simple_recipes.remove(ew);
                    proof {
                        assert(n@ == g0.simple_recipes[ew as int]);
                    }
                    let ghost ports_prev = n@.inner_recipe.inputs;
                    let mut elem = n.inner_recipe.inputs.remove(ef);
                    proof {
                        assert(elem@ == ports_prev[ef as int]);
                    }
                    match &mut elem {
                        ManageFlow::RecipeInput(p) => {
                            proof {
                                assert(g0.simple_recipes[ew as int].inner_recipe.inputs[
                                    ef as int
                                ].wf());
                            }
                            let _ = p.add_in_flow(flow);
                        },
                        ManageFlow::RecipeOutput(_) => {},
                    }
                    n.inner_recipe.inputs.insert(ef, elem);
                    self.simple_recipes.insert(ew, n);
                    proof {
                        assert(self@.simple_recipes[ew as int].inner_recipe.inputs
                            =~= ports_prev.update(
                            ef as int,
                            self@.simple_recipes[ew as int].inner_recipe.inputs[ef as int],
                        ));
                        assert(self@.simple_recipes =~= prev.update(
                            ew as int,
                            self@.simple_recipes[ew as int],
                        ));
                        assert(self@ =~~= spec_push_in(g0, t, ew, ef, flow@));
                    }
                } else {
                    proof {
                        assert(self@ =~~= spec_push_in(g0, t, ew, ef, flow@));
                    }
                }
            },
            RecipeWindowType::CompoundRecipe => {
                if ew < self.compound_recipes.len() && ef < self.compound_recipes[ew]
                    .inner_recipe
                    .inputs
                    .len() {
                    let ghost prev = self@.compound_recipes;
                    let ghost vec_before = self.compound_recipes@;
                    let mut n = self.compound_recipes.remove(ew);
                    proof {
                        lemma_compound_views_upto(vec_before, vec_before.len() as int);
                        assert(compound_view(n) == g0.compound_recipes[ew as int]);
                        assert(n@.wf());
                    }
                    let ghost ports_prev = n@.inner_recipe.inputs;
                    let mut elem = n.inner_recipe.inputs.remove(ef);
                    proof {
                        assert(elem@ == ports_prev[ef as int]);
                    }
                    match &mut elem {
                        ManageFlow::RecipeInput(p) => {
                            proof {
                                assert(g0.compound_recipes[ew as int].inner_recipe.inputs[
                                    ef as int
                                ].wf());
                            }
                            let _ = p.add_in_flow(flow);
                        },
                        ManageFlow::RecipeOutput(_) => {},
                    }
                    n.inner_recipe.inputs.insert(ef, elem);
                    let ghost n2 = n;
                    self.compound_recipes.insert(ew, n);
                    proof {
                        assert(self.compound_recipes@ =~= vec_before.update(ew as int, n2));
                        lemma_compound_views_upto(
                            self.compound_recipes@,
                            self.compound_recipes@.len() as int,
                        );
                        assert forall|j: int| 0 <= j < prev.len() implies self@.compound_recipes[j]
                            == prev.update(ew as int, compound_view(n2))[j] by {
                            assert(self@.compound_recipes[j] == compound_view(
                                vec_before.update(ew as int, n2)[j],
                            ));
                        }
                        assert(self@.compound_recipes =~= prev.update(
                            ew as int,
                            compound_view(n2),
                        ));
                        assert(compound_view(n2).inner_recipe.inputs =~= ports_prev.update(
                            ef as int,
                            compound_view(n2).inner_recipe.inputs[ef as int],
                        ));
                        assert(compound_view(n2) =~~= spec_push_in(
                            g0,
                            t,
                            ew,
                            ef,
                            flow@,
                        ).compound_recipes[ew as int]);
                        assert(self@.compound_recipes =~= spec_push_in(
                            g0,
                            t,
                            ew,
                            ef,
                            flow@,
                        ).compound_recipes);
                        assert(self@.simple_recipes == spec_push_in(
                            g0,
                            t,
                            ew,
                            ef,
                            flow@,
                        ).simple_recipes);
                        assert(self@.sources == spec_push_in(g0, t, ew, ef, flow@).sources);
                        assert(self@.sinks == spec_push_in(g0, t, ew, ef, flow@).sinks);
                        assert(self@.arrows == spec_push_in(g0, t, ew, ef, flow@).arrows);
                        assert(self@ =~~= spec_push_in(g0, t, ew, ef, flow@));
                        lemma_nesting_congruent(self@, g0);
                    }
                } else {
                    proof {
                        lemma_compound_views_upto(
                            self.compound_recipes@,
                            self.compound_recipes@.len() as int,
                        );
                        assert(self@ =~~= spec_push_in(g0, t, ew, ef, flow@));
                    }
                }
            },
            RecipeWindowType::Sink => {
                if ew < self.sinks.len() {
                    let ghost prev = self@.sinks;
                    let mut k = self.sinks.remove(ew);
                    proof {
                        assert(k@ == g0.sinks[ew as int]);
                    }
                    let replace: bool = match &k.sink {
                        None => true,
                        Some(_) => false,
                    };
                    if replace {
                        let resource = flow.resource.clone();
                        let needed = flow.clone();
                        let mut port = crate::ports::RecipeInputResource::new(resource, needed);
                        let _ = port.add_in_flow(flow);
                        proof {
                            assert(port@.inputs =~= seq![flow@]);
                        }
                        k.sink = Some(port);
                    } else {
                        match &mut k.sink {
                            Some(p) => {
                                proof {
                                    assert(g0.sinks[ew as int].wf());
                                }
                                let _ = p.add_in_flow(flow);
                            },
                            None => {},
                        }
                    }
                    self.sinks.insert(ew, k);
                    proof {
                        assert(self@.sinks =~= prev.update(ew as int, self@.sinks[ew as int]));
                        assert(self@ =~~= spec_push_in(g0, t, ew, ef, flow@));
                    }
                } else {
                    proof {
                        assert(self@ =~~= spec_push_in(g0, t, ew, ef, flow@));
                    }
                }
            },
            RecipeWindowType::Source => {
                proof {
                    assert(self@ =~~= spec_push_in(g0, t, ew, ef, flow@));
                }
            },
        }
    }

    /// Apply one entry of the forward pass, per [`spec_forward_step`].
    #[verifier::rlimit(100)]
    #[verifier::spinoff_prover]
    fn forward_step(&mut self, h: FlowCalculatorType)
        requires
            old(self)@.wf(),
        ensures
            final(self)@.wf(),
            spec_nesting(final(self)@) == spec_nesting(old(self)@),
            forall|fuel: nat|
                fuel >= spec_nesting(old(self)@) ==> final(self)@ == spec_forward_step(
                    old(self)@,
                    h,
                    fuel,
                ),
        decreases spec_nesting(self@), 1int,
    {
        let ghost g0: GraphV = self@;
        match h {
            FlowCalculatorType::Helper(hh) => {
                match hh.start_type {
                    RecipeWindowType::SimpleRecipe | RecipeWindowType::CompoundRecipe => {
                        match self.read_created(
                            hh.start_type,
                            hh.start_window_index,
                            hh.start_flow_index,
                        ) {
                            None => {
                                proof {
                                    assert forall|fuel: nat|
                                        fuel >= spec_nesting(g0) implies self@
                                        == spec_forward_step(g0, h, fuel) by {}
                                }
                            },
                            Some(used) => {
                                if self.end_valid(
                                    hh.end_type,
                                    hh.end_window_index,
                                    hh.end_flow_index,
                                ) {
                                    proof {
                                        crate::recipe_graph::lemma_read_created_wf(
                                            g0,
                                            hh.start_type,
                                            hh.start_window_index,
                                            hh.start_flow_index,
                                        );
                                    }
                                    let used2 = used.clone();
                                    self.push_out_flow(
                                        hh.start_type,
                                        hh.start_window_index,
                                        hh.start_flow_index,
                                        used2,
                                    );
                                    self.push_in_flow(
                                        hh.end_type,
                                        hh.end_window_index,
                                        hh.end_flow_index,
                                        used,
                                    );
                                    proof {
                                        assert forall|fuel: nat|
                                            fuel >= spec_nesting(g0) implies self@
                                            == spec_forward_step(g0, h, fuel) by {}
                                    }
                                } else {
                                    proof {
                                        assert forall|fuel: nat|
                                            fuel >= spec_nesting(g0) implies self@
                                            == spec_forward_step(g0, h, fuel) by {}
                                    }
                                }
                            },
                        }
                    },
                    RecipeWindowType::Source => {
                        if hh.start_window_index < self.sources.len() {
                            match self.read_end_needed(
                                hh.end_type,
                                hh.end_window_index,
                                hh.end_flow_index,
                            ) {
                                None => {
                                    proof {
                                        assert forall|fuel: nat|
                                            fuel >= spec_nesting(g0) implies self@
                                            == spec_forward_step(g0, h, fuel) by {}
                                    }
                                },
                                Some(needed) => {
                                    proof {
                                        assert(g0.sources[hh.start_window_index as int].wf());
                                        crate::recipe_graph::lemma_read_end_needed_wf(
                                            g0,
                                            hh.end_type,
                                            hh.end_window_index,
                                            hh.end_flow_index,
                                        );
                                    }
                                    let used: ResourceFlow = if self.sources[
                                        hh.start_window_index
                                    ].limited_output {
                                        let s = &self.sources[hh.start_window_index];
                                        ResourceFlow::new(
                                            &s.output.created.resource,
                                            1,
                                            s.limit_amount,
                                            s.limit_rate,
                                        )
                                    } else {
                                        needed
                                    };
                                    let used2 = used.clone();
                                    self.push_out_flow(
                                        RecipeWindowType::Source,
                                        hh.start_window_index,
                                        0,
                                        used2,
                                    );
                                    self.push_in_flow(
                                        hh.end_type,
                                        hh.end_window_index,
                                        hh.end_flow_index,
                                        used,
                                    );
                                    proof {
                                        assert forall|fuel: nat|
                                            fuel >= spec_nesting(g0) implies self@
                                            == spec_forward_step(g0, h, fuel) by {}
                                    }
                                },
                            }
                        } else {
                            proof {
                            assert forall|fuel: nat|
                                fuel >= spec_nesting(g0) implies self@ == spec_forward_step(
                                g0,
                                h,
                                fuel,
                            ) by {}
                        }
                        }
                    },
                    RecipeWindowType::Sink => {
                        proof {
                            assert forall|fuel: nat|
                                fuel >= spec_nesting(g0) implies self@ == spec_forward_step(
                                g0,
                                h,
                                fuel,
                            ) by {}
                        }
                    },
                }
            },
            FlowCalculatorType::EndRecipe(i, t) => {
                match t {
                    RecipeWindowType::SimpleRecipe => {
                        if i < self.simple_recipes.len() {
                            let ghost prev = self@.simple_recipes;
                            let mut n = self.simple_recipes.remove(i);
                            proof {
                                assert(n@ == g0.simple_recipes[i as int]);
                            }
                            n.internal_calculation();
                            self.simple_recipes.insert(i, n);
                            proof {
                                assert(self@.simple_recipes =~= prev.update(
                                    i as int,
                                    self@.simple_recipes[i as int],
                                ));
                                assert forall|j: int|
                                    0 <= j < self@.simple_recipes.len() implies (
                                #[trigger] self@.simple_recipes[j]).inner_recipe.wf() by {
                                    if j != i as int {
                                        assert(self@.simple_recipes[j] == g0.simple_recipes[j]);
                                    }
                                }
                                assert(self@.compound_recipes == g0.compound_recipes);
                                assert(self@.sources == g0.sources);
                                assert(self@.sinks == g0.sinks);
                                assert(self@.wf());
                                assert forall|fuel: nat|
                                    fuel >= spec_nesting(g0) implies self@ == spec_forward_step(
                                    g0,
                                    h,
                                    fuel,
                                ) by {
                                    assert(self@ =~~= spec_forward_step(g0, h, fuel));
                                }
                            }
                        } else {
                            proof {
                            assert forall|fuel: nat|
                                fuel >= spec_nesting(g0) implies self@ == spec_forward_step(
                                g0,
                                h,
                                fuel,
                            ) by {}
                        }
                        }
                    },
                    RecipeWindowType::CompoundRecipe => {
                        if i < self.compound_recipes.len() {
                            let ghost prev = self@.compound_recipes;
                            let ghost vec_before = self.compound_recipes@;
                            let mut n = self.compound_recipes.remove(i);
                            proof {
                                lemma_compound_views_upto(vec_before, vec_before.len() as int);
                                assert(compound_view(n) == g0.compound_recipes[i as int]);
                                assert(n@.wf());
                                lemma_nesting_ge(g0, i as int);
                            }
                            n.internal_calculation();
                            let ghost n2 = n;
                            self.compound_recipes.insert(i, n);
                            proof {
                                assert(self.compound_recipes@ =~= vec_before.update(
                                    i as int,
                                    n2,
                                ));
                                lemma_compound_views_upto(
                                    self.compound_recipes@,
                                    self.compound_recipes@.len() as int,
                                );
                                assert forall|j: int|
                                    0 <= j < prev.len() implies self@.compound_recipes[j]
                                    == prev.update(i as int, compound_view(n2))[j] by {
                                    assert(self@.compound_recipes[j] == compound_view(
                                        vec_before.update(i as int, n2)[j],
                                    ));
                                }
                                assert(self@.compound_recipes =~= prev.update(
                                    i as int,
                                    compound_view(n2),
                                ));
                                assert forall|j: int|
                                    0 <= j < self@.compound_recipes.len() implies spec_nesting(
                                    (#[trigger] self@.compound_recipes[j]).recipe_graph,
                                ) == spec_nesting(g0.compound_recipes[j].recipe_graph) by {
                                    if j != i as int {
                                        assert(self@.compound_recipes[j] == g0.compound_recipes[
                                            j
                                        ]);
                                    }
                                }
                                lemma_nesting_same_depths(self@, g0);
                                assert forall|j: int|
                                    0 <= j < self@.compound_recipes.len() implies (
                                #[trigger] self@.compound_recipes[j]).wf() by {
                                    if j != i as int {
                                        assert(self@.compound_recipes[j] == g0.compound_recipes[
                                            j
                                        ]);
                                    } else {
                                        assert(self@.compound_recipes[j] == compound_view(n2));
                                        assert(compound_view(n2).wf());
                                    }
                                }
                                assert(self@.simple_recipes == g0.simple_recipes);
                                assert(self@.sources == g0.sources);
                                assert(self@.sinks == g0.sinks);
                                assert(self@.wf());
                                assert forall|fuel: nat|
                                    fuel >= spec_nesting(g0) implies self@ == spec_forward_step(
                                    g0,
                                    h,
                                    fuel,
                                ) by {
                                    assert(fuel >= spec_nesting(
                                        g0.compound_recipes[i as int].recipe_graph,
                                    ) + 1);
                                    assert(compound_view(n2) == spec_compound_internal(
                                        g0.compound_recipes[i as int],
                                        fuel,
                                    ));
                                    assert(self@ =~~= spec_forward_step(g0, h, fuel));
                                }
                            }
                        } else {
                            proof {
                                lemma_compound_views_upto(
                                    self.compound_recipes@,
                                    self.compound_recipes@.len() as int,
                                );
                                assert forall|fuel: nat|
                                    fuel >= spec_nesting(g0) implies self@ == spec_forward_step(
                                    g0,
                                    h,
                                    fuel,
                                ) by {}
                            }
                        }
                    },
                    RecipeWindowType::Source => {
                        proof {
                            assert forall|fuel: nat|
                                fuel >= spec_nesting(g0) implies self@ == spec_forward_step(
                                g0,
                                h,
                                fuel,
                            ) by {}
                        }
                    },
                    RecipeWindowType::Sink => {
                        proof {
                            assert forall|fuel: nat|
                                fuel >= spec_nesting(g0) implies self@ == spec_forward_step(
                                g0,
                                h,
                                fuel,
                            ) by {}
                        }
                    },
                }
            },
        }
    }

    /// Run the forward pass over the whole evaluation sequence, per
    /// [`spec_forward`].
    #[verifier::rlimit(100)]
    #[verifier::spinoff_prover]
    pub fn perform_calculation(&mut self, calculate_helper: &Vec<FlowCalculatorType>)
        requires
            old(self)@.wf(),
        ensures
            final(self)@.wf(),
            spec_nesting(final(self)@) == spec_nesting(old(self)@),
            forall|fuel: nat|
                fuel >= spec_nesting(old(self)@) ==> final(self)@ == spec_forward(
                    old(self)@,
                    calculate_helper@,
                    fuel,
                ),
        decreases spec_nesting(self@), 2int,
    {
        let ghost g0: GraphV = self@;
        let ghost hs: Seq<FlowCalculatorType> = calculate_helper@;
        proof {
            assert(hs.skip(0) =~= hs);
        }
        let mut i: usize = 0;
        while i < calculate_helper.len()
            invariant
                hs == calculate_helper@,
                i <= hs.len(),
                self@.wf(),
                g0 == old(self)@,
                spec_nesting(self@) == spec_nesting(g0),
                forall|fuel: nat|
                    fuel >= spec_nesting(g0) ==> spec_forward(g0, hs, fuel) == spec_forward(
                        self@,
                        hs.skip(i as int),
                        fuel,
                    ),
            decreases hs.len() - i,
        {
            let ghost g_pre: GraphV = self@;
            self.forward_step(calculate_helper[i]);
            i = i + 1;
            proof {
                assert(hs.skip(i as int - 1)[0] == hs[i as int - 1]);
                assert(hs.skip(i as int - 1).drop_first() =~= hs.skip(i as int));
                assert forall|fuel: nat|
                    fuel >= spec_nesting(g0) implies spec_forward(g0, hs, fuel) == spec_forward(
                    self@,
                    hs.skip(i as int),
                    fuel,
                ) by {
                    assert(spec_forward(g0, hs, fuel) == spec_forward(
                        g_pre,
                        hs.skip(i as int - 1),
                        fuel,
                    ));
                    assert(self@ == spec_forward_step(g_pre, hs[i as int - 1], fuel));
                }
            }
        }
        proof {
            assert(hs.skip(hs.len() as int) =~= Seq::<FlowCalculatorType>::empty());
        }
    }

    /// Recalculate the whole graph: reset every port, order the nodes,
    /// propagate forward, then back-propagate, per [`spec_calculate`].
    #[verifier::rlimit(100)]
    #[verifier::spinoff_prover]
    pub fn calculate(&mut self)
        requires
            old(self)@.wf(),
        ensures
            final(self)@.wf(),
            spec_nesting(final(self)@) == spec_nesting(old(self)@),
            forall|fuel: nat|
                fuel >= spec_nesting(old(self)@) ==> final(self)@ == spec_calculate(
                    old(self)@,
                    fuel,
                ),
        decreases spec_nesting(self@), 3int,
    {
        let ghost g0: GraphV = self@;
        self.reset_flows();
        let calculate_helper = self.make_helpers();
        let ghost g1: GraphV = self@;
        self.perform_calculation(&calculate_helper);
        let ghost g2: GraphV = self@;
        self.back_propagation(&calculate_helper);
        proof {
            assert forall|fuel: nat|
                fuel >= spec_nesting(g0) implies self@ == spec_calculate(g0, fuel) by {
                assert(g1 == spec_reset(g0));
                assert(calculate_helper@ == spec_helpers(g1));
                assert(g2 == spec_forward(g1, calculate_helper@, fuel));
                assert(self@ == spec_backward(g2, calculate_helper@));
            }
        }
    }

    /// Apply one reverse step of back-propagation, per [`spec_back_step`].
    #[verifier::rlimit(100)]
    #[verifier::spinoff_prover]
    fn back_step(&mut self, h: FlowCalculatorType)
        requires
            old(self)@.wf(),
        ensures
            final(self)@ == spec_back_step(old(self)@, h),
            final(self)@.wf(),
            spec_nesting(final(self)@) == spec_nesting(old(self)@),
    {
        let ghost g_pre: GraphV = self@;
        let (rate, flow) = self.get_back_rate(h);
        if rate.lt_one() {
            match h {
                FlowCalculatorType::Helper(hh) => {
                    match hh.start_type {
                        RecipeWindowType::SimpleRecipe => {
                            if hh.start_window_index < self.simple_recipes.len() {
                                let ghost prev = self@.simple_recipes;
                                let mut n = self.simple_recipes.remove(hh.start_window_index);
                                proof {
                                    assert(n@ == g_pre.simple_recipes[
                                        hh.start_window_index as int
                                    ]);
                                }
                                n.back_propagation_internal_calculation(rate, flow);
                                self.simple_recipes.insert(hh.start_window_index, n);
                                proof {
                                    assert(self@.simple_recipes =~= prev.update(
                                        hh.start_window_index as int,
                                        self@.simple_recipes[hh.start_window_index as int],
                                    ));
                                    assert(self@ =~= spec_back_step(g_pre, h));
                                }
                            } else {
                                proof {
                                    assert(self@ =~= spec_back_step(g_pre, h));
                                }
                            }
                        },
                        RecipeWindowType::CompoundRecipe => {
                            if hh.start_window_index < self.compound_recipes.len() {
                                let ghost prev = self@.compound_recipes;
                                let ghost vec_before = self.compound_recipes@;
                                let mut n = self.compound_recipes.remove(hh.start_window_index);
                                proof {
                                    lemma_compound_views_upto(
                                        vec_before,
                                        vec_before.len() as int,
                                    );
                                    assert(compound_view(n) == g_pre.compound_recipes[
                                        hh.start_window_index as int
                                    ]);
                                    assert(n@.wf());
                                }
                                n.back_propagation_internal_calculation(rate, flow);
                                let ghost n2 = n;
                                self.compound_recipes.insert(hh.start_window_index, n);
                                proof {
                                    assert(self.compound_recipes@ =~= vec_before.update(
                                        hh.start_window_index as int,
                                        n2,
                                    ));
                                    lemma_compound_views_upto(
                                        self.compound_recipes@,
                                        self.compound_recipes@.len() as int,
                                    );
                                    assert forall|t: int|
                                        0 <= t < prev.len() implies self@.compound_recipes[t]
                                        == prev.update(
                                        hh.start_window_index as int,
                                        compound_view(n2),
                                    )[t] by {
                                        assert(self@.compound_recipes[t] == compound_view(
                                            vec_before.update(
                                                hh.start_window_index as int,
                                                n2,
                                            )[t],
                                        ));
                                    }
                                    assert(self@.compound_recipes =~= prev.update(
                                        hh.start_window_index as int,
                                        compound_view(n2),
                                    ));
                                    assert(compound_view(n2) =~= spec_back_step(
                                        g_pre,
                                        h,
                                    ).compound_recipes[hh.start_window_index as int]);
                                    assert(self@ =~= spec_back_step(g_pre, h));
                                    lemma_nesting_congruent(self@, g_pre);
                                }
                            } else {
                                proof {
                                    lemma_compound_views_upto(
                                        self.compound_recipes@,
                                        self.compound_recipes@.len() as int,
                                    );
                                    assert(self@ =~= spec_back_step(g_pre, h));
                                }
                            }
                        },
                        RecipeWindowType::Source => {
                            match flow {
                                Some(f) => {
                                    if hh.start_window_index < self.sources.len() {
                                        let ghost prev = self@.sources;
                                        let mut s = self.sources.remove(hh.start_window_index);
                                        proof {
                                            assert(s@ == g_pre.sources[
                                                hh.start_window_index as int
                                            ]);
                                            crate::ports::lemma_sum_keeps_resource(
                                                crate::ports::spec_zero_flow(
                                                    s@.output.resource,
                                                    s@.output.created,
                                                ),
                                                s@.output.outputs,
                                            );
                                        }
                                        let total = s.output.total_out();
                                        let cmp = f.partial_cmp(&total);
                                        let is_less = match cmp {
                                            Some(crate::resource_flow::FlowCmp::Less) => true,
                                            _ => false,
                                        };
                                        if is_less {
                                            s.output.reset();
                                            let _ = s.output.add_out_flow(f);
                                            proof {
                                                assert(s@.output.outputs =~= seq![
                                                    spec_get_back_rate(g_pre, h).1.unwrap()
                                                ]);
                                            }
                                        }
                                        self.sources.insert(hh.start_window_index, s);
                                        proof {
                                            assert(self@.sources =~= prev.update(
                                                hh.start_window_index as int,
                                                self@.sources[hh.start_window_index as int],
                                            ));
                                            assert(self@ =~= spec_back_step(g_pre, h));
                                        }
                                    } else {
                                        proof {
                                            assert(self@ =~= spec_back_step(g_pre, h));
                                        }
                                    }
                                },
                                None => {
                                    proof {
                                        assert(self@ =~= spec_back_step(g_pre, h));
                                    }
                                },
                            }
                        },
                        RecipeWindowType::Sink => {
                            proof {
                                assert(self@ =~= spec_back_step(g_pre, h));
                            }
                        },
                    }
                },
                FlowCalculatorType::EndRecipe(_, _) => {
                    proof {
                        assert(self@ =~= spec_back_step(g_pre, h));
                    }
                },
            }
        } else {
            proof {
                assert(self@ =~= spec_back_step(g_pre, h));
            }
        }
    }

    /// Walk the evaluation sequence in reverse and throttle every start
    /// node whose edge cannot be fully absorbed downstream, per
    /// [`spec_backward`].
    pub fn back_propagation(&mut self, calculate_helper: &Vec<FlowCalculatorType>)
        requires
            old(self)@.wf(),
        ensures
            final(self)@ == spec_backward(old(self)@, calculate_helper@),
            final(self)@.wf(),
            spec_nesting(final(self)@) == spec_nesting(old(self)@),
    {
        let ghost g0: GraphV = self@;
        let ghost hs: Seq<FlowCalculatorType> = calculate_helper@;
        let mut j = calculate_helper.len();
        proof {
            assert(hs.take(hs.len() as int) =~= hs);
        }
        while j > 0
            invariant
                j <= hs.len(),
                hs == calculate_helper@,
                self@.wf(),
                spec_nesting(self@) == spec_nesting(g0),
                spec_backward(g0, hs) == spec_backward(self@, hs.take(j as int)),
            decreases j,
        {
            j = j - 1;
            let h = calculate_helper[j];
            proof {
                assert(hs.take(j as int + 1).last() == hs[j as int]);
                assert(hs.take(j as int + 1).drop_last() =~= hs.take(j as int));
            }
            self.back_step(h);
        }
        proof {
            assert(hs.take(0) =~= Seq::<FlowCalculatorType>::empty());
        }
    }

    /// Build the evaluation sequence of the graph from its edges, per
    /// [`spec_helpers`].
    #[verifier::rlimit(100)]
    #[verifier::spinoff_prover]
    pub fn make_helpers(&self) -> (r: Vec<FlowCalculatorType>)
        ensures
            r@ == spec_helpers(self@),
    {
        let ghost g: GraphV = self@;
        let mut sources_helpers: Vec<FlowCalculatorType> = Vec::new();
        let mut sinks_helpers: Vec<FlowCalculatorType> = Vec::new();
        let mut simple_orders: Vec<usize> = Vec::new();
        let mut simple_buckets: Vec<Vec<FlowCalculatorType>> = Vec::new();
        let mut compound_orders: Vec<usize> = Vec::new();
        let mut compound_buckets: Vec<Vec<FlowCalculatorType>> = Vec::new();
        let mut s: usize = 0;
        while s < self.simple_recipes.len()
            invariant
                s <= self.simple_recipes@.len(),
                simple_orders@.len() == s,
                simple_buckets@.len() == s,
                forall|j: int| 0 <= j < s ==> simple_orders@[j] == 0usize,
                forall|j: int|
                    0 <= j < s ==> (#[trigger] simple_buckets@[j])@ == Seq::<
                        FlowCalculatorType,
                    >::empty(),
            decreases self.simple_recipes@.len() - s,
        {
            simple_orders.push(0);
            simple_buckets.push(Vec::new());
            s = s + 1;
        }
        let mut c: usize = 0;
        while c < self.compound_recipes.len()
            invariant
                c <= self.compound_recipes@.len(),
                compound_orders@.len() == c,
                compound_buckets@.len() == c,
                forall|j: int| 0 <= j < c ==> compound_orders@[j] == 0usize,
                forall|j: int|
                    0 <= j < c ==> (#[trigger] compound_buckets@[j])@ == Seq::<
                        FlowCalculatorType,
                    >::empty(),
            decreases self.compound_recipes@.len() - c,
        {
            compound_orders.push(0);
            compound_buckets.push(Vec::new());
            c = c + 1;
        }
        proof {
            lemma_compound_views_upto(
                self.compound_recipes@,
                self.compound_recipes@.len() as int,
            );
            let st0 = spec_init_state(g);
            assert(sources_helpers@ =~= st0.sources);
            assert(sinks_helpers@ =~= st0.sinks);
            assert(simple_orders@ =~= st0.simple_orders);
            assert(simple_buckets@.map_values(|v: Vec<FlowCalculatorType>| v@)
                =~= st0.simple_buckets);
            assert(compound_orders@ =~= st0.compound_orders);
            assert(compound_buckets@.map_values(|v: Vec<FlowCalculatorType>| v@)
                =~= st0.compound_buckets);
            assert(g.arrows.skip(0) =~= g.arrows);
        }
        let mut i: usize = 0;
        while i < self.arrows.len()
            invariant
                g == self@,
                i <= self.arrows@.len(),
                g.arrows.len() == self.arrows@.len(),
                simple_orders@.len() == simple_buckets@.len(),
                compound_orders@.len() == compound_buckets@.len(),
                forall|j: int|
                    0 <= j < simple_orders@.len() ==> (#[trigger] simple_orders@[j]) <= i,
                forall|j: int|
                    0 <= j < compound_orders@.len() ==> (#[trigger] compound_orders@[j]) <= i,
                spec_scan(g, spec_init_state(g), g.arrows) == spec_scan(
                    g,
                    HelperState {
                        sources: sources_helpers@,
                        sinks: sinks_helpers@,
                        simple_orders: simple_orders@,
                        simple_buckets: simple_buckets@.map_values(
                            |v: Vec<FlowCalculatorType>| v@,
                        ),
                        compound_orders: compound_orders@,
                        compound_buckets: compound_buckets@.map_values(
                            |v: Vec<FlowCalculatorType>| v@,
                        ),
                    },
                    g.arrows.skip(i as int),
                ),
            decreases self.arrows@.len() - i,
        {
            let ghost st_pre = HelperState {
                sources: sources_helpers@,
                sinks: sinks_helpers@,
                simple_orders: simple_orders@,
                simple_buckets: simple_buckets@.map_values(|v: Vec<FlowCalculatorType>| v@),
                compound_orders: compound_orders@,
                compound_buckets: compound_buckets@.map_values(|v: Vec<FlowCalculatorType>| v@),
            };
            proof {
                assert(g.arrows.skip(i as int)[0] == g.arrows[i as int]);
                assert(g.arrows.skip(i as int).drop_first() =~= g.arrows.skip(i as int + 1));
                assert(g.arrows[i as int] == self.arrows@[i as int]@);
            }
            let start = self.get_start_point(&self.arrows[i]);
            let end = self.get_endpoint(&self.arrows[i]);
            match (start.2, end.2) {
                (Some(sw), Some(ew)) => {
                    let helper = FlowCalculatorHelper {
                        start_window_index: sw,
                        start_flow_index: start.0,
                        end_window_index: ew,
                        end_flow_index: end.0,
                        start_type: start.1,
                        end_type: end.1,
                    };
                    match start.1 {
                        RecipeWindowType::SimpleRecipe => {
                            if sw < simple_orders.len() {
                                let source_order = simple_orders[sw];
                                connect_resources_helpers_ends(
                                    &mut simple_orders,
                                    &mut simple_buckets,
                                    &mut compound_orders,
                                    &mut compound_buckets,
                                    &mut sinks_helpers,
                                    end.1,
                                    ew,
                                    helper,
                                    source_order,
                                );
                            }
                        },
                        RecipeWindowType::Source => {
                            sources_helpers.push(FlowCalculatorType::Helper(helper));
                        },
                        RecipeWindowType::Sink => {},
                        RecipeWindowType::CompoundRecipe => {
                            if sw < compound_orders.len() {
                                let source_order = compound_orders[sw];
                                connect_resources_helpers_ends(
                                    &mut simple_orders,
                                    &mut simple_buckets,
                                    &mut compound_orders,
                                    &mut compound_buckets,
                                    &mut sinks_helpers,
                                    end.1,
                                    ew,
                                    helper,
                                    source_order,
                                );
                            }
                        },
                    }
                },
                _ => {},
            }
            proof {
                let st_post = HelperState {
                    sources: sources_helpers@,
                    sinks: sinks_helpers@,
                    simple_orders: simple_orders@,
                    simple_buckets: simple_buckets@.map_values(
                        |v: Vec<FlowCalculatorType>| v@,
                    ),
                    compound_orders: compound_orders@,
                    compound_buckets: compound_buckets@.map_values(
                        |v: Vec<FlowCalculatorType>| v@,
                    ),
                };
                assert(st_post =~= spec_scan_arrow(g, st_pre, g.arrows[i as int]));
            }
            i = i + 1;
        }
        proof {
            assert(g.arrows.skip(g.arrows.len() as int) =~= Seq::<ArrowV>::empty());
        }
        concatenate_helpers(
            sources_helpers,
            sinks_helpers,
            simple_orders,
            simple_buckets,
            compound_orders,
            compound_buckets,
            self.arrows.len(),
        )
    }

    /// Clear every port accumulator of the graph, per [`spec_reset`].
    #[verifier::rlimit(100)]
    #[verifier::spinoff_prover]
    pub fn reset_flows(&mut self)
        requires
            old(self)@.wf(),
        ensures
            final(self)@ == spec_reset(old(self)@),
            final(self)@.wf(),
            spec_nesting(final(self)@) == spec_nesting(old(self)@),
    {
        broadcast use lemma_compound_views_upto;

        let ghost g0: GraphV = self@;
        let mut i: usize = 0;
        while i < self.sources.len()
            invariant
                g0.wf(),
                i <= self.sources@.len(),
                self@.sources.len() == g0.sources.len(),
                self@.simple_recipes == g0.simple_recipes,
                self@.compound_recipes == g0.compound_recipes,
                self@.sinks == g0.sinks,
                self@.arrows == g0.arrows,
                forall|j: int| 0 <= j < i ==> self@.sources[j] == spec_reset(g0).sources[j],
                forall|j: int|
                    i <= j < self@.sources.len() ==> self@.sources[j] == g0.sources[j],
            decreases self.sources@.len() - i,
        {
            let ghost prev = self@.sources;
            let mut s = self.sources.remove(i);
            s.output.reset();
            self.sources.insert(i, s);
            proof {
                assert(self@.sources =~= prev.update(i as int, self@.sources[i as int]));
            }
            i = i + 1;
        }
        let mut k: usize = 0;
        while k < self.simple_recipes.len()
            invariant
                g0.wf(),
                k <= self.simple_recipes@.len(),
                self@.simple_recipes.len() == g0.simple_recipes.len(),
                self@.compound_recipes == g0.compound_recipes,
                self@.sinks == g0.sinks,
                self@.arrows == g0.arrows,
                self@.sources =~= spec_reset(g0).sources,
                forall|j: int|
                    0 <= j < k ==> self@.simple_recipes[j] == spec_reset(g0).simple_recipes[j],
                forall|j: int|
                    k <= j < self@.simple_recipes.len() ==> self@.simple_recipes[j]
                        == g0.simple_recipes[j],
            decreases self.simple_recipes@.len() - k,
        {
            let ghost prev = self@.simple_recipes;
            let mut n = self.simple_recipes.remove(k);
            proof {
                assert(n@ == g0.simple_recipes[k as int]);
                assert(n@.inner_recipe.wf());
                assert forall|t: int| 0 <= t < n.inner_recipe.inputs@.len() implies (
                #[trigger] n.inner_recipe.inputs@[t])@.wf() by {
                    assert(n@.inner_recipe.inputs[t] == n.inner_recipe.inputs@[t]@);
                }
                assert forall|t: int| 0 <= t < n.inner_recipe.outputs@.len() implies (
                #[trigger] n.inner_recipe.outputs@[t])@.wf() by {
                    assert(n@.inner_recipe.outputs[t] == n.inner_recipe.outputs@[t]@);
                }
            }
            reset_input_ports(&mut n.inner_recipe.inputs);
            reset_output_ports(&mut n.inner_recipe.outputs);
            self.simple_recipes.insert(k, n);
            proof {
                assert(self@.simple_recipes =~= prev.update(
                    k as int,
                    self@.simple_recipes[k as int],
                ));
                assert(self@.simple_recipes[k as int].inner_recipe =~= (BaseV {
                    inputs: spec_reset_in_list(g0.simple_recipes[k as int].inner_recipe.inputs),
                    outputs: spec_reset_out_list(
                        g0.simple_recipes[k as int].inner_recipe.outputs,
                    ),
                    ..g0.simple_recipes[k as int].inner_recipe
                }));
            }
            k = k + 1;
        }
        let mut c: usize = 0;
        while c < self.compound_recipes.len()
            invariant
                g0.wf(),
                c <= self.compound_recipes@.len(),
                self@.compound_recipes.len() == g0.compound_recipes.len(),
                self@.sinks == g0.sinks,
                self@.arrows == g0.arrows,
                self@.sources =~= spec_reset(g0).sources,
                self@.simple_recipes =~= spec_reset(g0).simple_recipes,
                forall|j: int|
                    0 <= j < c ==> self@.compound_recipes[j] == spec_reset(g0).compound_recipes[
                        j
                    ],
                forall|j: int|
                    c <= j < self@.compound_recipes.len() ==> self@.compound_recipes[j]
                        == g0.compound_recipes[j],
            decreases self.compound_recipes@.len() - c,
        {
            let ghost prev = self@.compound_recipes;
            let ghost vec_before = self.compound_recipes@;
            let mut n = self.compound_recipes.remove(c);
            proof {
                lemma_compound_views_upto(vec_before, vec_before.len() as int);
                assert(prev[c as int] == compound_view(vec_before[c as int]));
                assert(compound_view(n) == prev[c as int]);
                assert(compound_view(n) == g0.compound_recipes[c as int]);
                assert(n@.inner_recipe.wf());
                assert forall|t: int| 0 <= t < n.inner_recipe.inputs@.len() implies (
                #[trigger] n.inner_recipe.inputs@[t])@.wf() by {
                    assert(n@.inner_recipe.inputs[t] == n.inner_recipe.inputs@[t]@);
                }
                assert forall|t: int| 0 <= t < n.inner_recipe.outputs@.len() implies (
                #[trigger] n.inner_recipe.outputs@[t])@.wf() by {
                    assert(n@.inner_recipe.outputs[t] == n.inner_recipe.outputs@[t]@);
                }
            }
            let ghost graph_before = n.recipe_graph;
            reset_input_ports(&mut n.inner_recipe.inputs);
            reset_output_ports(&mut n.inner_recipe.outputs);
            let ghost n2 = n;
            self.compound_recipes.insert(c, n);
            proof {
                assert(n2.recipe_graph == graph_before);
                assert(self.compound_recipes@ =~= vec_before.update(c as int, n2));
                lemma_compound_views_upto(
                    self.compound_recipes@,
                    self.compound_recipes@.len() as int,
                );
                assert forall|j: int| 0 <= j < prev.len() implies self@.compound_recipes[j]
                    == prev.update(c as int, compound_view(n2))[j] by {
                    assert(self@.compound_recipes[j] == compound_view(
                        vec_before.update(c as int, n2)[j],
                    ));
                }
                assert(self@.compound_recipes =~= prev.update(c as int, compound_view(n2)));
                assert(compound_view(n2).inner_recipe =~= (BaseV {
                    inputs: spec_reset_in_list(g0.compound_recipes[c as int].inner_recipe.inputs),
                    outputs: spec_reset_out_list(
                        g0.compound_recipes[c as int].inner_recipe.outputs,
                    ),
                    ..g0.compound_recipes[c as int].inner_recipe
                }));
                assert(compound_view(n2).recipe_graph == g0.compound_recipes[
                    c as int
                ].recipe_graph);
                assert(compound_view(n2) =~= spec_reset(g0).compound_recipes[c as int]);
            }
            c = c + 1;
        }
        proof {
            lemma_compound_views_upto(
                self.compound_recipes@,
                self.compound_recipes@.len() as int,
            );
            assert(self@.compound_recipes =~= spec_reset(g0).compound_recipes);
        }
        let mut t: usize = 0;
        while t < self.sinks.len()
            invariant
                g0.wf(),
                t <= self.sinks@.len(),
                self@.sinks.len() == g0.sinks.len(),
                self@.arrows == g0.arrows,
                self@.sources =~= spec_reset(g0).sources,
                self@.simple_recipes =~= spec_reset(g0).simple_recipes,
                self@.compound_recipes =~= spec_reset(g0).compound_recipes,
                forall|j: int| 0 <= j < t ==> self@.sinks[j] == spec_reset(g0).sinks[j],
                forall|j: int| t <= j < self@.sinks.len() ==> self@.sinks[j] == g0.sinks[j],
            decreases self.sinks@.len() - t,
        {
            let ghost prev = self@.sinks;
            let mut n = self.sinks.remove(t);
            match &mut n.sink {
                Some(f) => {
                    f.reset();
                },
                None => {},
            }
            self.sinks.insert(t, n);
            proof {
                assert(self@.sinks =~= prev.update(t as int, self@.sinks[t as int]));
            }
            t = t + 1;
        }
        proof {
            assert(self@.sinks =~= spec_reset(g0).sinks);
            assert(self@ =~= spec_reset(g0));
            lemma_nesting_congruent(self@, g0);
        }
    }

    /// Empty every collection of the graph.
    pub fn clear(&mut self)
        ensures
            final(self)@.simple_recipes.len() == 0,
            final(self)@.compound_recipes.len() == 0,
            final(self)@.sources.len() == 0,
            final(self)@.sinks.len() == 0,
            final(self)@.arrows.len() == 0,
            final(self)@.wf(),
            spec_nesting(final(self)@) == 0,
    {
        self.simple_recipes.clear();
        self.compound_recipes.clear();
        self.sources.clear();
        self.sinks.clear();
        self.arrows.clear();
        proof {
            assert(self@.simple_recipes =~= Seq::<SimpleV>::empty());
            assert(self@.compound_recipes =~= Seq::<CompoundV>::empty());
            assert(self@.sources =~= Seq::<SourceV>::empty());
            assert(self@.sinks =~= Seq::<SinkV>::empty());
            assert(self@.arrows =~= Seq::<ArrowV>::empty());
        }
    }
}

} // verus!
