//! Compound recipe nodes: recipes whose behavior is a whole nested graph.

use vstd::prelude::*;

use crate::error::ShowError;
use crate::frac::Frac;
use crate::ports::InPortV;
use crate::ports::ManageFlow;
use crate::ports::ManageFlowV;
use crate::ports::OutPortV;
use crate::ports::RecipeInputResource;
use crate::ports::RecipeOutputResource;
use crate::recipe_graph::GraphV;
use crate::recipe_graph::RecipeGraph;
use crate::recipe_window::BaseRecipeWindow;
use crate::recipe_window::BaseV;
use crate::recipe_window::spec_scale_needed;
use crate::resource_flow::ResourceFlow;

verus! {

/// A recipe node wrapping a nested [`RecipeGraph`]: its input ports mirror
/// the nested sources and its output ports mirror the nested sinks.
#[derive(Debug)]
pub struct CompoundRecipeWindow {
    /// The nested graph of the recipe.
    pub recipe_graph: RecipeGraph,
    /// The base window managing the ports of the node.
    pub inner_recipe: BaseRecipeWindow,
}

/// The mathematical value of a [`CompoundRecipeWindow`].
#[verifier::ext_equal]
pub ghost struct CompoundV {
    pub recipe_graph: GraphV,
    pub inner_recipe: BaseV,
}

impl View for CompoundRecipeWindow {
    type V = CompoundV;

    open spec fn view(&self) -> CompoundV {
        crate::recipe_graph::compound_view(*self)
    }
}

impl CompoundV {
    /// The ports and the whole nested graph are well formed.
    pub open spec fn wf(self) -> bool
        decreases self,
    {
        self.inner_recipe.wf() && self.recipe_graph.wf()
    }
}

/// Mirror of [`CompoundRecipeWindow::limit_inputs`]: each input port's
/// accumulated demand is pushed down as a forced limit onto the nested
/// source with the same position (positions without a source are skipped).
pub open spec fn spec_limit_inputs_loop(c: CompoundV, n: int) -> CompoundV
    decreases n,
{
    if n <= 0 {
        c
    } else {
        let c1 = spec_limit_inputs_loop(c, n - 1);
        if 0 <= n - 1 < c1.inner_recipe.inputs.len() {
            match c1.inner_recipe.inputs[n - 1] {
                ManageFlowV::RecipeInput(p) => {
                    if n - 1 < c1.recipe_graph.sources.len() {
                        let total = p.spec_total_in();
                        let s = c1.recipe_graph.sources[n - 1];
                        let s2 = crate::resources_sources::SourceV {
                            limit_amount: total.amount,
                            limit_rate: total.rate,
                            force_limited: true,
                            limited_output: true,
                            ..s
                        };
                        CompoundV {
                            recipe_graph: GraphV {
                                sources: c1.recipe_graph.sources.update(n - 1, s2),
                                ..c1.recipe_graph
                            },
                            ..c1
                        }
                    } else {
                        c1
                    }
                },
                ManageFlowV::RecipeOutput(_) => c1,
            }
        } else {
            c1
        }
    }
}

/// [`spec_limit_inputs_loop`] over every input port.
pub open spec fn spec_limit_inputs(c: CompoundV) -> CompoundV {
    spec_limit_inputs_loop(c, c.inner_recipe.inputs.len() as int)
}

/// Mirror of [`CompoundRecipeWindow::update_outputs`]: the output ports are
/// rebuilt, one fresh port per connected nested sink, supplying that sink's
/// accumulated inflow.
pub open spec fn spec_update_outputs_list(sinks: Seq<crate::resource_sink::SinkV>) -> Seq<
    ManageFlowV,
>
    decreases sinks.len(),
{
    if sinks.len() == 0 {
        Seq::empty()
    } else {
        let rest = spec_update_outputs_list(sinks.drop_last());
        match sinks.last().sink {
            Some(p) => rest.push(
                ManageFlowV::RecipeOutput(
                    OutPortV {
                        resource: p.resource,
                        outputs: Seq::empty(),
                        created: p.spec_total_in(),
                    },
                ),
            ),
            None => rest,
        }
    }
}

/// The compound node after rebuilding its output ports from its nested
/// sinks.
pub open spec fn spec_update_outputs(c: CompoundV) -> CompoundV {
    CompoundV {
        inner_recipe: BaseV {
            outputs: spec_update_outputs_list(c.recipe_graph.sinks),
            ..c.inner_recipe
        },
        ..c
    }
}

/// Mirror of [`CompoundRecipeWindow::update_inputs`]: the input ports are
/// rebuilt, one fresh port per nested source, demanding that source's
/// accumulated outflow.
pub open spec fn spec_update_inputs_list(sources: Seq<crate::resources_sources::SourceV>) -> Seq<
    ManageFlowV,
>
    decreases sources.len(),
{
    if sources.len() == 0 {
        Seq::empty()
    } else {
        let rest = spec_update_inputs_list(sources.drop_last());
        let p = sources.last().output;
        rest.push(
            ManageFlowV::RecipeInput(
                InPortV {
                    resource: p.resource,
                    inputs: Seq::empty(),
                    needed: p.spec_total_out(),
                },
            ),
        )
    }
}

/// The compound node after rebuilding its input ports from its nested
/// sources.
pub open spec fn spec_update_inputs(c: CompoundV) -> CompoundV {
    CompoundV {
        inner_recipe: BaseV {
            inputs: spec_update_inputs_list(c.recipe_graph.sources),
            ..c.inner_recipe
        },
        ..c
    }
}

impl CompoundRecipeWindow {
    /// Push each input port's observed demand down onto the nested source
    /// with the same position, per [`spec_limit_inputs`].
    pub fn limit_inputs(&mut self)
        requires
            old(self)@.wf(),
        ensures
            final(self)@ == spec_limit_inputs(old(self)@),
            final(self)@.wf(),
            final(self)@.recipe_graph.compound_recipes == old(self)@.recipe_graph.compound_recipes,
            final(self)@.inner_recipe == old(self)@.inner_recipe,
    {
        let ghost c0: CompoundV = self@;
        let mut i: usize = 0;
        while i < self.inner_recipe.inputs.len()
            invariant
                c0.wf(),
                i <= self.inner_recipe.inputs@.len(),
                self@ == spec_limit_inputs_loop(c0, i as int),
                self@.inner_recipe == c0.inner_recipe,
                self@.recipe_graph.compound_recipes == c0.recipe_graph.compound_recipes,
                self@.recipe_graph.simple_recipes == c0.recipe_graph.simple_recipes,
                self@.recipe_graph.sinks == c0.recipe_graph.sinks,
                self@.recipe_graph.arrows == c0.recipe_graph.arrows,
                self@.recipe_graph.sources.len() == c0.recipe_graph.sources.len(),
                forall|j: int|
                    0 <= j < self@.recipe_graph.sources.len() ==> (
                    #[trigger] self@.recipe_graph.sources[j]).wf(),
            decreases self.inner_recipe.inputs@.len() - i,
        {
            let has_flow: bool;
            let mut amount = Frac::one();
            let mut rate = crate::resources::RatePer::Second;
            proof {
                assert(c0.inner_recipe.inputs[i as int].wf());
            }
            match &self.inner_recipe.inputs[i] {
                ManageFlow::RecipeInput(input) => {
                    has_flow = true;
                    let total = input.total_in();
                    amount = total.amount;
                    rate = total.rate;
                },
                ManageFlow::RecipeOutput(_) => {
                    has_flow = false;
                },
            }
            if has_flow {
                if i < self.recipe_graph.sources.len() {
                    let ghost sources_prev = self@.recipe_graph.sources;
                    let mut s = self.recipe_graph.sources.remove(i);
                    s.limit_source(amount, rate);
                    self.recipe_graph.sources.insert(i, s);
                    proof {
                        assert(self@.recipe_graph.sources =~= sources_prev.update(
                            i as int,
                            self@.recipe_graph.sources[i as int],
                        ));
                    }
                }
            } else {
                self.inner_recipe.errors.push(
                    ShowError::new(
                        "An input made its way to an output, this isn't possible".to_owned(),
                    ),
                );
            }
            i = i + 1;
        }
    }

    /// Rebuild the output ports from the nested sinks, per
    /// [`spec_update_outputs`].
    pub fn update_outputs(&mut self)
        requires
            old(self)@.wf(),
        ensures
            final(self)@ == spec_update_outputs(old(self)@),
            final(self)@.wf(),
            final(self)@.recipe_graph == old(self)@.recipe_graph,
    {
        let ghost c0: CompoundV = self@;
        let mut outputs: Vec<ManageFlow> = Vec::new();
        let mut i: usize = 0;
        while i < self.recipe_graph.sinks.len()
            invariant
                c0.wf(),
                self@ == c0,
                i <= self.recipe_graph.sinks@.len(),
                crate::recipe_window::port_views_of(outputs@) == spec_update_outputs_list(
                    c0.recipe_graph.sinks.take(i as int),
                ),
                forall|j: int| 0 <= j < outputs@.len() ==> (#[trigger] outputs@[j])@.wf(),
            decreases self.recipe_graph.sinks@.len() - i,
        {
            proof {
                assert(c0.recipe_graph.sinks[i as int].wf());
                assert(c0.recipe_graph.sinks.take(i as int + 1).drop_last() =~= c0
                    .recipe_graph
                    .sinks
                    .take(i as int));
                assert(c0.recipe_graph.sinks.take(i as int + 1).last() == c0.recipe_graph.sinks[
                    i as int
                ]);
            }
            let ghost outputs_prev = crate::recipe_window::port_views_of(outputs@);
            match &self.recipe_graph.sinks[i].sink {
                Some(flow) => {
                    proof {
                        crate::ports::lemma_sum_keeps_resource(
                            crate::ports::spec_zero_flow(flow@.resource, flow@.needed),
                            flow@.inputs,
                        );
                    }
                    let resource = flow.resource();
                    let total = flow.total_in();
                    outputs.push(
                        ManageFlow::RecipeOutput(RecipeOutputResource::new(resource, total)),
                    );
                },
                None => {},
            }
            i = i + 1;
            proof {
                assert(crate::recipe_window::port_views_of(outputs@)
                    =~= spec_update_outputs_list(c0.recipe_graph.sinks.take(i as int)));
            }
        }
        self.inner_recipe.outputs = outputs;
        proof {
            assert(c0.recipe_graph.sinks.take(c0.recipe_graph.sinks.len() as int) =~= c0
                .recipe_graph
                .sinks);
            assert(self@ =~= spec_update_outputs(c0));
        }
    }

    /// Rebuild the input ports from the nested sources, per
    /// [`spec_update_inputs`].
    pub fn update_inputs(&mut self)
        requires
            old(self)@.wf(),
        ensures
            final(self)@ == spec_update_inputs(old(self)@),
            final(self)@.wf(),
            final(self)@.recipe_graph == old(self)@.recipe_graph,
    {
        let ghost c0: CompoundV = self@;
        let mut inputs: Vec<ManageFlow> = Vec::new();
        let mut i: usize = 0;
        while i < self.recipe_graph.sources.len()
            invariant
                c0.wf(),
                self@ == c0,
                i <= self.recipe_graph.sources@.len(),
                crate::recipe_window::port_views_of(inputs@) == spec_update_inputs_list(
                    c0.recipe_graph.sources.take(i as int),
                ),
                forall|j: int| 0 <= j < inputs@.len() ==> (#[trigger] inputs@[j])@.wf(),
            decreases self.recipe_graph.sources@.len() - i,
        {
            proof {
                assert(c0.recipe_graph.sources[i as int].wf());
                assert(c0.recipe_graph.sources.take(i as int + 1).drop_last() =~= c0
                    .recipe_graph
                    .sources
                    .take(i as int));
                assert(c0.recipe_graph.sources.take(i as int + 1).last() == c0.recipe_graph.sources[
                    i as int
                ]);
                crate::ports::lemma_sum_keeps_resource(
                    crate::ports::spec_zero_flow(
                        c0.recipe_graph.sources[i as int].output.resource,
                        c0.recipe_graph.sources[i as int].output.created,
                    ),
                    c0.recipe_graph.sources[i as int].output.outputs,
                );
            }
            let resource = self.recipe_graph.sources[i].output.resource();
            let total = self.recipe_graph.sources[i].output.total_out();
            inputs.push(ManageFlow::RecipeInput(RecipeInputResource::new(resource, total)));
            i = i + 1;
            proof {
                assert(crate::recipe_window::port_views_of(inputs@) =~= spec_update_inputs_list(
                    c0.recipe_graph.sources.take(i as int),
                ));
            }
        }
        self.inner_recipe.inputs = inputs;
        proof {
            assert(c0.recipe_graph.sources.take(c0.recipe_graph.sources.len() as int) =~= c0
                .recipe_graph
                .sources);
            assert(self@ =~= spec_update_inputs(c0));
        }
    }

    /// Fire the compound recipe's rule once, per
    /// [`crate::recipe_graph::spec_compound_internal`]: push each input
    /// port's observed demand down onto the matching nested source,
    /// recalculate the nested graph, and rebuild the output ports from the
    /// nested sinks.
    pub fn internal_calculation(&mut self)
        requires
            old(self)@.wf(),
        ensures
            final(self)@.wf(),
            crate::recipe_graph::spec_nesting(final(self)@.recipe_graph)
                == crate::recipe_graph::spec_nesting(old(self)@.recipe_graph),
            forall|fuel: nat|
                fuel >= crate::recipe_graph::spec_nesting(old(self)@.recipe_graph) + 1
                    ==> final(self)@ == crate::recipe_graph::spec_compound_internal(
                    old(self)@,
                    fuel,
                ),
        decreases crate::recipe_graph::spec_nesting(self@.recipe_graph) + 1, 0int,
    {
        let ghost c0: CompoundV = self@;
        self.limit_inputs();
        let ghost c1: CompoundV = self@;
        proof {
            crate::recipe_graph::lemma_nesting_congruent(c1.recipe_graph, c0.recipe_graph);
        }
        self.recipe_graph.calculate();
        let ghost c2: CompoundV = self@;
        self.update_outputs();
        proof {
            assert forall|fuel: nat|
                fuel >= crate::recipe_graph::spec_nesting(c0.recipe_graph) + 1 implies self@
                == crate::recipe_graph::spec_compound_internal(c0, fuel) by {
                assert(c1 == spec_limit_inputs(c0));
                assert(fuel > 0);
                assert((fuel - 1) as nat >= crate::recipe_graph::spec_nesting(c1.recipe_graph));
                assert(c2.recipe_graph == crate::recipe_graph::spec_calculate(
                    c1.recipe_graph,
                    (fuel - 1) as nat,
                ));
                assert(c2 =~~= (CompoundV {
                    recipe_graph: crate::recipe_graph::spec_calculate(
                        c1.recipe_graph,
                        (fuel - 1) as nat,
                    ),
                    ..c1
                }));
                assert(self@ == spec_update_outputs(c2));
            }
        }
    }

    /// Recalculate the nested graph and rebuild both port lists from its
    /// sources and sinks.
    pub fn update_interface(&mut self)
        requires
            old(self)@.wf(),
        ensures
            final(self)@.wf(),
            crate::recipe_graph::spec_nesting(final(self)@.recipe_graph)
                == crate::recipe_graph::spec_nesting(old(self)@.recipe_graph),
            final(self)@.inner_recipe.id == old(self)@.inner_recipe.id,
            final(self)@.inner_recipe.title == old(self)@.inner_recipe.title,
            final(self)@.inner_recipe.recipe_type == old(self)@.inner_recipe.recipe_type,
            forall|fuel: nat|
                fuel >= crate::recipe_graph::spec_nesting(old(self)@.recipe_graph)
                    ==> final(self)@ == spec_update_outputs(
                    spec_update_inputs(
                        CompoundV {
                            recipe_graph: #[trigger] crate::recipe_graph::spec_calculate(
                                old(self)@.recipe_graph,
                                fuel,
                            ),
                            ..old(self)@
                        },
                    ),
                ),
    {
        let ghost c0: CompoundV = self@;
        self.recipe_graph.calculate();
        let ghost c1: CompoundV = self@;
        self.update_inputs();
        self.update_outputs();
        proof {
            assert forall|fuel: nat|
                fuel >= crate::recipe_graph::spec_nesting(c0.recipe_graph) implies self@
                == spec_update_outputs(
                spec_update_inputs(
                    CompoundV {
                        recipe_graph: crate::recipe_graph::spec_calculate(
                            c0.recipe_graph,
                            fuel,
                        ),
                        ..c0
                    },
                ),
            ) by {
                assert(c1.recipe_graph == crate::recipe_graph::spec_calculate(
                    c0.recipe_graph,
                    fuel,
                ));
                assert(c1 =~~= (CompoundV {
                    recipe_graph: crate::recipe_graph::spec_calculate(c0.recipe_graph, fuel),
                    ..c0
                }));
            }
        }
    }

    /// A compound recipe wrapping `recipe_graph`, titled after the first
    /// nested sink's resource, its ports rebuilt from the nested sources
    /// and sinks after one full pass over the nested graph.
    pub fn new(recipe_graph: RecipeGraph, id: u64) -> (r: Self)
        requires
            recipe_graph@.wf(),
        ensures
            r@.wf(),
            r@.inner_recipe.id == id,
            r@.inner_recipe.recipe_type == crate::recipe_window::RecipeWindowType::CompoundRecipe,
            r@.inner_recipe.title == (if recipe_graph@.sinks.len() > 0 {
                match recipe_graph@.sinks[0].sink {
                    Some(p) => p.needed.resource.name,
                    None => Seq::<char>::empty(),
                }
            } else {
                Seq::<char>::empty()
            }),
            crate::recipe_graph::spec_nesting(r@.recipe_graph)
                == crate::recipe_graph::spec_nesting(recipe_graph@),
            forall|fuel: nat|
                fuel >= crate::recipe_graph::spec_nesting(recipe_graph@) ==> r@.recipe_graph
                    == crate::recipe_graph::spec_calculate(recipe_graph@, fuel)
                    && r@.inner_recipe.inputs == spec_update_inputs_list(
                    crate::recipe_graph::spec_calculate(recipe_graph@, fuel).sources,
                ) && r@.inner_recipe.outputs == spec_update_outputs_list(
                    crate::recipe_graph::spec_calculate(recipe_graph@, fuel).sinks,
                ),
    {
        let title: String = if recipe_graph.sinks.len() > 0 {
            match &recipe_graph.sinks[0].sink {
                Some(recipe_resource) => recipe_resource.needed.resource.name.clone(),
                None => String::new(),
            }
        } else {
            String::new()
        };
        let mut graph = Self {
            recipe_graph,
            inner_recipe: BaseRecipeWindow::new(
                title,
                crate::recipe_window::ConfigFeatures {
                    interactive_input: false,
                    pure_time_input: true,
                    interactive_output: false,
                    pure_time_output: true,
                    show_power: false,
                    show_time: false,
                },
                crate::recipe_window::RecipeWindowType::CompoundRecipe,
                id,
            ),
        };
        graph.update_interface();
        graph
    }

    /// Scale every input port's demand by `rate`, propagating a downstream
    /// shortfall one hop further upstream on the next pass.
    pub fn back_propagation_internal_calculation(
        &mut self,
        rate: Frac,
        _amount: Option<ResourceFlow>,
    )
        requires
            old(self)@.wf(),
            rate.wf(),
        ensures
            final(self)@ == (CompoundV {
                inner_recipe: BaseV {
                    inputs: spec_scale_needed(old(self)@.inner_recipe.inputs, rate),
                    ..old(self)@.inner_recipe
                },
                ..old(self)@
            }),
            final(self)@.wf(),
    {
        let ghost c0: CompoundV = self@;
        let mut scaled: Vec<ManageFlow> = Vec::new();
        let mut j: usize = 0;
        while j < self.inner_recipe.inputs.len()
            invariant
                c0 == self@,
                c0.wf(),
                rate.wf(),
                j <= self.inner_recipe.inputs@.len(),
                scaled@.len() == j,
                forall|t: int|
                    0 <= t < j ==> (#[trigger] scaled@[t])@
                        == crate::recipe_window::spec_scale_port_in(
                        c0.inner_recipe.inputs[t],
                        rate,
                    ) && scaled@[t]@.wf(),
            decreases self.inner_recipe.inputs@.len() - j,
        {
            proof {
                assert(c0.inner_recipe.inputs[j as int].wf());
            }
            let mut elem = self.inner_recipe.inputs[j].clone();
            let is_output: bool;
            match &mut elem {
                ManageFlow::RecipeInput(input) => {
                    is_output = false;
                    match input.needed.amount.checked_mul(&rate) {
                        Some(s) => {
                            input.needed.amount = s;
                        },
                        None => {},
                    }
                },
                ManageFlow::RecipeOutput(_) => {
                    is_output = true;
                },
            }
            if is_output {
                self.inner_recipe.errors.push(
                    ShowError::new(
                        "An input made its way to an output, this isn't possible".to_owned(),
                    ),
                );
            }
            scaled.push(elem);
            j = j + 1;
        }
        self.inner_recipe.inputs = scaled;
        proof {
            assert(self@.inner_recipe.inputs =~= spec_scale_needed(c0.inner_recipe.inputs, rate));
            assert(self@ =~= (CompoundV {
                inner_recipe: BaseV {
                    inputs: spec_scale_needed(c0.inner_recipe.inputs, rate),
                    ..c0.inner_recipe
                },
                ..c0
            }));
        }
    }
}

} // verus!
