//! Graph nodes: the base recipe descriptor and the simple recipe node.

use vstd::prelude::*;

use crate::error::ShowError;
use crate::frac::Frac;
use crate::ports::InPortV;
use crate::ports::ManageFlow;
use crate::ports::ManageFlowV;
use crate::ports::OutPortV;
use crate::ports::RecipeOutputResource;
use crate::resource_flow::FlowV;
use crate::resource_flow::ResourceFlow;
use crate::resource_flow::spec_amount_le;
use crate::resource_flow::spec_amount_lt;
use crate::resource_flow::spec_raise;
use crate::resources::RatePer;
use crate::resources::ResourceDefinition;
use crate::resources::Unit;
use crate::utils::Io;

verus! {

/// The kind of a node a flow edge can attach to.
#[derive(Debug, PartialEq, Eq, Structural, Copy, Clone)]
pub enum RecipeWindowType {
    SimpleRecipe,
    CompoundRecipe,
    Source,
    Sink,
}

/// Which features of a recipe are active.
#[derive(Debug, PartialEq, Eq, Structural, Copy, Clone)]
pub struct ConfigFeatures {
    pub interactive_input: bool,
    pub pure_time_input: bool,
    pub interactive_output: bool,
    pub pure_time_output: bool,
    pub show_power: bool,
    pub show_time: bool,
}

/// Descriptor shared by the recipe nodes: the ports, the cycle time, and
/// the stability flags of the last pass.
#[derive(Debug)]
pub struct BaseRecipeWindow {
    /// Title of the recipe.
    pub title: String,
    /// Unique id of the recipe within its graph.
    pub id: u64,
    /// The input ports.
    pub inputs: Vec<ManageFlow>,
    /// The output ports.
    pub outputs: Vec<ManageFlow>,
    /// Length of one recipe cycle, in units of `time_unit`.
    pub time_cycle: usize,
    /// Time unit of the cycle.
    pub time_unit: RatePer,
    /// Whether every input port had sufficient resources on the last pass.
    pub stable_in: bool,
    /// Whether every output port had sufficient draining on the last pass.
    pub stable_out: bool,
    /// Configuration of the features shown.
    pub config: ConfigFeatures,
    /// The kind of the recipe.
    pub recipe_type: RecipeWindowType,
    /// Errors collected during evaluation (diagnostics only; not part of
    /// the node's mathematical value).
    pub errors: Vec<ShowError>,
}

/// The mathematical value of a [`BaseRecipeWindow`] (the collected
/// diagnostics are deliberately not part of it).
#[verifier::ext_equal]
pub ghost struct BaseV {
    pub title: Seq<char>,
    pub id: u64,
    pub inputs: Seq<ManageFlowV>,
    pub outputs: Seq<ManageFlowV>,
    pub time_cycle: usize,
    pub time_unit: RatePer,
    pub stable_in: bool,
    pub stable_out: bool,
    pub config: ConfigFeatures,
    pub recipe_type: RecipeWindowType,
}

/// The views of a sequence of wrapped ports.
pub open spec fn port_views_of(s: Seq<ManageFlow>) -> Seq<ManageFlowV> {
    s.map_values(|p: ManageFlow| p@)
}

impl View for BaseRecipeWindow {
    type V = BaseV;

    open spec fn view(&self) -> BaseV {
        BaseV {
            title: self.title@,
            id: self.id,
            inputs: port_views_of(self.inputs@),
            outputs: port_views_of(self.outputs@),
            time_cycle: self.time_cycle,
            time_unit: self.time_unit,
            stable_in: self.stable_in,
            stable_out: self.stable_out,
            config: self.config,
            recipe_type: self.recipe_type,
        }
    }
}

impl BaseV {
    /// Every port of the node is well formed.
    pub open spec fn wf(self) -> bool {
        &&& forall|i: int| 0 <= i < self.inputs.len() ==> (#[trigger] self.inputs[i]).wf()
        &&& forall|i: int| 0 <= i < self.outputs.len() ==> (#[trigger] self.outputs[i]).wf()
    }
}

impl Clone for BaseRecipeWindow {
    fn clone(&self) -> (r: Self)
        ensures
            r@ == self@,
    {
        let mut inputs: Vec<ManageFlow> = Vec::new();
        let mut i: usize = 0;
        while i < self.inputs.len()
            invariant
                i <= self.inputs.len(),
                inputs@.len() == i,
                forall|j: int| 0 <= j < i ==> (#[trigger] inputs@[j])@ == self.inputs@[j]@,
            decreases self.inputs.len() - i,
        {
            inputs.push(self.inputs[i].clone());
            i = i + 1;
        }
        let mut outputs: Vec<ManageFlow> = Vec::new();
        let mut k: usize = 0;
        while k < self.outputs.len()
            invariant
                k <= self.outputs.len(),
                outputs@.len() == k,
                forall|j: int| 0 <= j < k ==> (#[trigger] outputs@[j])@ == self.outputs@[j]@,
            decreases self.outputs.len() - k,
        {
            outputs.push(self.outputs[k].clone());
            k = k + 1;
        }
        let r = BaseRecipeWindow {
            title: self.title.clone(),
            id: self.id,
            inputs,
            outputs,
            time_cycle: self.time_cycle,
            time_unit: self.time_unit,
            stable_in: self.stable_in,
            stable_out: self.stable_out,
            config: self.config,
            errors: Vec::new(),
            recipe_type: self.recipe_type,
        };
        proof {
            assert(r@.inputs =~= self@.inputs);
            assert(r@.outputs =~= self@.outputs);
            assert(r@ =~= self@);
        }
        r
    }
}

impl BaseRecipeWindow {
    /// A new basic recipe descriptor producing one piece of a resource
    /// named after the title, once per second.
    pub fn new(title: String, config: ConfigFeatures, recipe_type: RecipeWindowType, id: u64) -> (r:
        Self)
        ensures
            r@.wf(),
            r@.title == title@,
            r@.id == id,
            r@.inputs.len() == 0,
            r@.outputs.len() == 1,
            r@.outputs[0] == ManageFlowV::RecipeOutput(OutPortV {
                resource: crate::resources::ResourceDefinitionV { name: title@, unit: Unit::Piece },
                outputs: Seq::empty(),
                created: FlowV {
                    resource: crate::resources::ResourceDefinitionV {
                        name: title@,
                        unit: Unit::Piece,
                    },
                    amount_per_cycle: 1usize,
                    amount: Frac { num: 1u32, den: 1u32 },
                    rate: RatePer::Second,
                },
            }),
            r@.time_cycle == 1usize,
            r@.time_unit == RatePer::Second,
            r@.config == config,
            r@.recipe_type == recipe_type,
            r@.stable_in == false,
            r@.stable_out == false,
    {
        let resource = ResourceDefinition { name: title.clone(), unit: Unit::Piece };
        let flow = ResourceFlow::new(&resource, 1, Frac::one(), RatePer::Second);
        Self::new_with_custom_output(config, recipe_type, flow, id)
    }

    /// A new basic recipe descriptor with the given output flow as its one
    /// output port; the title is the flow's resource name.
    pub fn new_with_custom_output(
        config: ConfigFeatures,
        recipe_type: RecipeWindowType,
        flow: ResourceFlow,
        id: u64,
    ) -> (r: Self)
        requires
            flow@.wf(),
        ensures
            r@.wf(),
            r@.title == flow@.resource.name,
            r@.id == id,
            r@.inputs.len() == 0,
            r@.outputs.len() == 1,
            r@.outputs[0] == ManageFlowV::RecipeOutput(OutPortV {
                resource: flow@.resource,
                outputs: Seq::empty(),
                created: flow@,
            }),
            r@.time_cycle == 1usize,
            r@.time_unit == RatePer::Second,
            r@.config == config,
            r@.recipe_type == recipe_type,
            r@.stable_in == false,
            r@.stable_out == false,
    {
        let title = flow.resource.name.clone();
        let resource = flow.resource.clone();
        let output = ManageFlow::RecipeOutput(RecipeOutputResource::new(resource, flow));
        let mut outputs: Vec<ManageFlow> = Vec::new();
        outputs.push(output);
        let r = Self {
            title,
            id,
            inputs: Vec::new(),
            outputs,
            time_cycle: 1,
            time_unit: RatePer::Second,
            stable_in: false,
            stable_out: false,
            config,
            recipe_type,
            errors: Vec::new(),
        };
        proof {
            assert(r@.inputs =~= Seq::<ManageFlowV>::empty());
        }
        r
    }

    /// The title of the recipe.
    pub fn get_title(&self) -> (r: String)
        ensures
            r@ == self@.title,
    {
        self.title.clone()
    }
}

/// One step of [`spec_update_flows`]: the port after re-deriving its base
/// flow from the cycle time, whether it was sufficient, and the error of a
/// failed re-derivation.
pub open spec fn spec_update_one(
    head: ManageFlowV,
    pure_time: bool,
    cycle: usize,
    unit: RatePer,
) -> (ManageFlowV, bool, Option<crate::resources::FlowError>) {
    match head {
        ManageFlowV::RecipeInput(p) => {
            let ok = !spec_amount_lt(p.spec_total_in(), p.needed);
            if pure_time {
                (head, ok, None)
            } else {
                let (nf, err) = crate::resource_flow::spec_convert_time_base(p.needed, cycle, unit);
                (ManageFlowV::RecipeInput(InPortV { needed: nf, ..p }), ok, err)
            }
        },
        ManageFlowV::RecipeOutput(p) => {
            let ok = spec_amount_le(p.spec_total_out(), p.created);
            if pure_time {
                (head, ok, None)
            } else {
                let (nf, err) = crate::resource_flow::spec_convert_time_base(
                    p.created,
                    cycle,
                    unit,
                );
                (ManageFlowV::RecipeOutput(OutPortV { created: nf, ..p }), ok, err)
            }
        },
    }
}

/// Mirror of [`BaseRecipeWindow::update_flow`] over one port list: each
/// port's base flow is re-derived from the cycle time in order, stopping at
/// the first error and leaving the later ports untouched; the boolean says
/// whether every port was sufficient.
pub open spec fn spec_update_flows_loop(
    done: Seq<ManageFlowV>,
    stable: bool,
    todo: Seq<ManageFlowV>,
    pure_time: bool,
    cycle: usize,
    unit: RatePer,
) -> (Seq<ManageFlowV>, bool, Option<crate::resources::FlowError>)
    decreases todo.len(),
{
    if todo.len() == 0 {
        (done, stable, None)
    } else {
        let (h2, ok, err0) = spec_update_one(todo[0], pure_time, cycle, unit);
        match err0 {
            Some(e) => (done.push(h2) + todo.drop_first(), stable, Some(e)),
            None => spec_update_flows_loop(
                done.push(h2),
                stable && ok,
                todo.drop_first(),
                pure_time,
                cycle,
                unit,
            ),
        }
    }
}

/// [`spec_update_flows_loop`] started on the whole list.
pub open spec fn spec_update_flows(
    flows: Seq<ManageFlowV>,
    pure_time: bool,
    cycle: usize,
    unit: RatePer,
) -> (Seq<ManageFlowV>, bool, Option<crate::resources::FlowError>) {
    spec_update_flows_loop(Seq::empty(), true, flows, pure_time, cycle, unit)
}

impl BaseRecipeWindow {
    /// Re-derive the base flow of every port on the chosen side from the
    /// recipe's cycle time, per [`spec_update_flows`], and store whether
    /// that side was sufficient; on an error the stability flags are left
    /// unchanged.
    #[verifier::rlimit(100)]
    #[verifier::spinoff_prover]
    pub fn update_flow(&mut self, dir: Io) -> (r: Result<(), crate::resources::FlowError>)
        requires
            old(self)@.wf(),
        ensures
            final(self)@.wf(),
            ({
                let (flows2, stable, err) = spec_update_flows(
                    if dir == Io::Input {
                        old(self)@.inputs
                    } else {
                        old(self)@.outputs
                    },
                    if dir == Io::Input {
                        old(self)@.config.pure_time_input
                    } else {
                        old(self)@.config.pure_time_output
                    },
                    old(self)@.time_cycle,
                    old(self)@.time_unit,
                );
                &&& (dir == Io::Input ==> final(self)@ == (BaseV {
                    inputs: flows2,
                    stable_in: if err is None {
                        stable
                    } else {
                        old(self)@.stable_in
                    },
                    ..old(self)@
                }))
                &&& (dir == Io::Output ==> final(self)@ == (BaseV {
                    outputs: flows2,
                    stable_out: if err is None {
                        stable
                    } else {
                        old(self)@.stable_out
                    },
                    ..old(self)@
                }))
                &&& (match err {
                    Some(e) => r == Err::<(), crate::resources::FlowError>(e),
                    None => r == Ok::<(), crate::resources::FlowError>(()),
                })
            }),
    {
        let pure_time = match dir {
            Io::Input => self.config.pure_time_input,
            Io::Output => self.config.pure_time_output,
        };
        let ghost old_flows: Seq<ManageFlowV> = if dir == Io::Input {
            self@.inputs
        } else {
            self@.outputs
        };
        let len = match dir {
            Io::Input => self.inputs.len(),
            Io::Output => self.outputs.len(),
        };
        let mut done: Vec<ManageFlow> = Vec::new();
        let mut stable = true;
        let mut failure: Option<crate::resources::FlowError> = None;
        let mut i: usize = 0;
        proof {
            assert(old_flows.skip(0) =~= old_flows);
            assert(port_views_of(done@) =~= Seq::<ManageFlowV>::empty());
        }
        while i < len && failure.is_none()
            invariant
                old(self)@.wf(),
                self@ == old(self)@,
                i <= len,
                len == if dir == Io::Input {
                    self.inputs@.len()
                } else {
                    self.outputs@.len()
                },
                old_flows == if dir == Io::Input {
                    self@.inputs
                } else {
                    self@.outputs
                },
                forall|j: int| 0 <= j < done@.len() ==> (#[trigger] done@[j])@.wf(),
                match failure {
                    None => spec_update_flows(
                        old_flows,
                        pure_time,
                        self@.time_cycle,
                        self@.time_unit,
                    ) == spec_update_flows_loop(
                        port_views_of(done@),
                        stable,
                        old_flows.skip(i as int),
                        pure_time,
                        self@.time_cycle,
                        self@.time_unit,
                    ),
                    Some(e) => spec_update_flows(
                        old_flows,
                        pure_time,
                        self@.time_cycle,
                        self@.time_unit,
                    ) == (port_views_of(done@) + old_flows.skip(i as int), stable, Some(e)),
                },
            decreases len - i,
        {
            proof {
                assert(old_flows.skip(i as int)[0] == old_flows[i as int]);
                assert(old_flows.skip(i as int).drop_first() =~= old_flows.skip(i as int + 1));
            }
            let mut elem = match dir {
                Io::Input => self.inputs[i].clone(),
                Io::Output => self.outputs[i].clone(),
            };
            let ok: bool;
            let mut err: Option<crate::resources::FlowError> = None;
            match &mut elem {
                ManageFlow::RecipeInput(p) => {
                    ok = p.is_enough();
                    if !pure_time {
                        match p.needed.convert_time_base(self.time_cycle, self.time_unit) {
                            Ok(()) => {},
                            Err(e) => {
                                err = Some(e);
                            },
                        }
                    }
                },
                ManageFlow::RecipeOutput(p) => {
                    ok = p.is_enough();
                    if !pure_time {
                        match p.created.convert_time_base(self.time_cycle, self.time_unit) {
                            Ok(()) => {},
                            Err(e) => {
                                err = Some(e);
                            },
                        }
                    }
                },
            }
            let ghost done_prev = done@;
            done.push(elem);
            proof {
                assert(port_views_of(done@) =~= port_views_of(done_prev).push(done@[
                    done@.len() - 1
                ]@));
            }
            match err {
                Some(e) => {
                    failure = Some(e);
                },
                None => {
                    stable = stable && ok;
                },
            }
            i = i + 1;
        }
        while i < len
            invariant
                old(self)@.wf(),
                self@ == old(self)@,
                i <= len,
                len == if dir == Io::Input {
                    self.inputs@.len()
                } else {
                    self.outputs@.len()
                },
                old_flows == if dir == Io::Input {
                    self@.inputs
                } else {
                    self@.outputs
                },
                forall|j: int| 0 <= j < done@.len() ==> (#[trigger] done@[j])@.wf(),
                failure is None ==> i == len,
                match failure {
                    None => spec_update_flows(
                        old_flows,
                        pure_time,
                        self@.time_cycle,
                        self@.time_unit,
                    ) == spec_update_flows_loop(
                        port_views_of(done@),
                        stable,
                        old_flows.skip(i as int),
                        pure_time,
                        self@.time_cycle,
                        self@.time_unit,
                    ),
                    Some(e) => spec_update_flows(
                        old_flows,
                        pure_time,
                        self@.time_cycle,
                        self@.time_unit,
                    ) == (port_views_of(done@) + old_flows.skip(i as int), stable, Some(e)),
                },
            decreases len - i,
        {
            proof {
                assert(old_flows.skip(i as int)[0] == old_flows[i as int]);
            }
            let elem = match dir {
                Io::Input => self.inputs[i].clone(),
                Io::Output => self.outputs[i].clone(),
            };
            let ghost done_prev = done@;
            done.push(elem);
            i = i + 1;
            proof {
                assert(port_views_of(done@) =~= port_views_of(done_prev).push(done@[
                    done@.len() - 1
                ]@));
                assert(port_views_of(done@) + old_flows.skip(i as int) =~= port_views_of(
                    done_prev,
                ) + old_flows.skip(i as int - 1));
            }
        }
        proof {
            assert(old_flows.skip(len as int) =~= Seq::<ManageFlowV>::empty());
            assert(port_views_of(done@) + Seq::<ManageFlowV>::empty() =~= port_views_of(done@));
        }
        let ghost flows2: Seq<ManageFlowV> = spec_update_flows(
            old_flows,
            pure_time,
            self@.time_cycle,
            self@.time_unit,
        ).0;
        proof {
            assert(flows2 == port_views_of(done@));
        }
        match dir {
            Io::Input => {
                self.inputs = done;
                if failure.is_none() {
                    self.stable_in = stable;
                }
            },
            Io::Output => {
                self.outputs = done;
                if failure.is_none() {
                    self.stable_out = stable;
                }
            },
        }
        match failure {
            Some(e) => Err(e),
            None => Ok(()),
        }
    }
}

/// Mirror of the throttle-rate scan of a simple recipe: the least of one
/// and each input port's `total_in / needed` flow ratio, both flows taken
/// at the coarser of their two rates (ports whose ratio is undefined or
/// not representable do not constrain).
pub open spec fn spec_min_rate_loop(acc: Frac, inputs: Seq<ManageFlowV>) -> Frac
    decreases inputs.len(),
{
    if inputs.len() == 0 {
        acc
    } else {
        let acc2 = match inputs[0] {
            ManageFlowV::RecipeInput(p) => {
                match crate::resource_flow::spec_flow_div(p.spec_total_in(), p.needed) {
                    Ok(q) => {
                        let rate = if q.spec_lt(Frac { num: 1u32, den: 1u32 }) {
                            q
                        } else {
                            Frac { num: 1u32, den: 1u32 }
                        };
                        if rate.spec_lt(acc) {
                            rate
                        } else {
                            acc
                        }
                    },
                    Err(_) => acc,
                }
            },
            ManageFlowV::RecipeOutput(_) => acc,
        };
        spec_min_rate_loop(acc2, inputs.drop_first())
    }
}

/// [`spec_min_rate_loop`] started at one.
pub open spec fn spec_min_rate(inputs: Seq<ManageFlowV>) -> Frac {
    spec_min_rate_loop(Frac { num: 1u32, den: 1u32 }, inputs)
}

/// An output port with its supplied amount scaled by `m` (when the scaled
/// amount is representable); input ports are untouched.
pub open spec fn spec_scale_port_out(mf: ManageFlowV, m: Frac) -> ManageFlowV {
    match mf {
        ManageFlowV::RecipeOutput(p) => {
            match crate::frac::spec_frac_mul(p.created.amount, m) {
                Some(s) => ManageFlowV::RecipeOutput(
                    OutPortV { created: FlowV { amount: s, ..p.created }, ..p },
                ),
                None => mf,
            }
        },
        ManageFlowV::RecipeInput(_) => mf,
    }
}

/// Every output port of the list scaled by `m`.
pub open spec fn spec_scale_outputs(s: Seq<ManageFlowV>, m: Frac) -> Seq<ManageFlowV> {
    s.map_values(|mf: ManageFlowV| spec_scale_port_out(mf, m))
}

/// An input port with its needed amount scaled by `m` (when the scaled
/// amount is representable); output ports are untouched.
pub open spec fn spec_scale_port_in(mf: ManageFlowV, m: Frac) -> ManageFlowV {
    match mf {
        ManageFlowV::RecipeInput(p) => {
            match crate::frac::spec_frac_mul(p.needed.amount, m) {
                Some(s) => ManageFlowV::RecipeInput(
                    InPortV { needed: FlowV { amount: s, ..p.needed }, ..p },
                ),
                None => mf,
            }
        },
        ManageFlowV::RecipeOutput(_) => mf,
    }
}

/// Every input port of the list with its demand scaled by `m`.
pub open spec fn spec_scale_needed(s: Seq<ManageFlowV>, m: Frac) -> Seq<ManageFlowV> {
    s.map_values(|mf: ManageFlowV| spec_scale_port_in(mf, m))
}

/// Mirror of [`SimpleRecipeWindow::internal_calculation`]: compute the
/// throttle rate from the input ports, re-derive the output flows from the
/// cycle time, and scale the outputs down when the inputs cannot sustain a
/// full cycle.
pub open spec fn spec_simple_internal(b: BaseV) -> BaseV {
    let m = spec_min_rate(b.inputs);
    let (outs, stable, err) = spec_update_flows(
        b.outputs,
        b.config.pure_time_output,
        b.time_cycle,
        b.time_unit,
    );
    let b2 = BaseV {
        outputs: outs,
        stable_out: if err is None {
            stable
        } else {
            b.stable_out
        },
        ..b
    };
    if m.spec_lt(Frac { num: 1u32, den: 1u32 }) {
        BaseV { outputs: spec_scale_outputs(b2.outputs, m), ..b2 }
    } else {
        b2
    }
}

/// A recipe with fixed input and output ports and one evaluation rule.
#[derive(Debug)]
pub struct SimpleRecipeWindow {
    pub inner_recipe: BaseRecipeWindow,
}

/// The mathematical value of a [`SimpleRecipeWindow`].
#[verifier::ext_equal]
pub ghost struct SimpleV {
    pub inner_recipe: BaseV,
}

impl View for SimpleRecipeWindow {
    type V = SimpleV;

    open spec fn view(&self) -> SimpleV {
        SimpleV { inner_recipe: self.inner_recipe@ }
    }
}

impl Clone for SimpleRecipeWindow {
    fn clone(&self) -> (r: Self)
        ensures
            r@ == self@,
    {
        SimpleRecipeWindow { inner_recipe: self.inner_recipe.clone() }
    }
}

impl SimpleRecipeWindow {
    /// A new simple recipe, producing one piece of a resource named after
    /// the title, once per second.
    pub fn new(title: String, id: u64) -> (r: Self)
        ensures
            r@.inner_recipe.wf(),
            r@.inner_recipe.title == title@,
            r@.inner_recipe.id == id,
            r@.inner_recipe.inputs.len() == 0,
            r@.inner_recipe.outputs.len() == 1,
            r@.inner_recipe.outputs[0] == ManageFlowV::RecipeOutput(OutPortV {
                resource: crate::resources::ResourceDefinitionV { name: title@, unit: Unit::Piece },
                outputs: Seq::empty(),
                created: FlowV {
                    resource: crate::resources::ResourceDefinitionV {
                        name: title@,
                        unit: Unit::Piece,
                    },
                    amount_per_cycle: 1usize,
                    amount: Frac { num: 1u32, den: 1u32 },
                    rate: RatePer::Second,
                },
            }),
            r@.inner_recipe.time_cycle == 1usize,
            r@.inner_recipe.time_unit == RatePer::Second,
            r@.inner_recipe.config == (ConfigFeatures {
                interactive_input: true,
                pure_time_input: false,
                interactive_output: true,
                pure_time_output: false,
                show_power: true,
                show_time: true,
            }),
            r@.inner_recipe.stable_in == false,
            r@.inner_recipe.stable_out == false,
            r@.inner_recipe.recipe_type == RecipeWindowType::SimpleRecipe,
    {
        Self {
            inner_recipe: BaseRecipeWindow::new(
                title,
                ConfigFeatures {
                    interactive_input: true,
                    pure_time_input: false,
                    interactive_output: true,
                    pure_time_output: false,
                    show_power: true,
                    show_time: true,
                },
                RecipeWindowType::SimpleRecipe,
                id,
            ),
        }
    }

    /// A new simple recipe with the given flow as its one output port.
    pub fn new_with_custom_output(flow: ResourceFlow, id: u64) -> (r: Self)
        requires
            flow@.wf(),
        ensures
            r@.inner_recipe.wf(),
            r@.inner_recipe.title == flow@.resource.name,
            r@.inner_recipe.id == id,
            r@.inner_recipe.inputs.len() == 0,
            r@.inner_recipe.outputs.len() == 1,
            r@.inner_recipe.outputs[0] == ManageFlowV::RecipeOutput(OutPortV {
                resource: flow@.resource,
                outputs: Seq::empty(),
                created: flow@,
            }),
            r@.inner_recipe.time_cycle == 1usize,
            r@.inner_recipe.time_unit == RatePer::Second,
            r@.inner_recipe.config == (ConfigFeatures {
                interactive_input: true,
                pure_time_input: false,
                interactive_output: true,
                pure_time_output: false,
                show_power: true,
                show_time: true,
            }),
            r@.inner_recipe.stable_in == false,
            r@.inner_recipe.stable_out == false,
            r@.inner_recipe.recipe_type == RecipeWindowType::SimpleRecipe,
    {
        Self {
            inner_recipe: BaseRecipeWindow::new_with_custom_output(
                ConfigFeatures {
                    interactive_input: true,
                    pure_time_input: false,
                    interactive_output: true,
                    pure_time_output: false,
                    show_power: true,
                    show_time: true,
                },
                RecipeWindowType::SimpleRecipe,
                flow,
                id,
            ),
        }
    }

    /// Fire the recipe's rule once, per [`spec_simple_internal`].
    #[verifier::rlimit(100)]
    #[verifier::spinoff_prover]
    pub fn internal_calculation(&mut self)
        requires
            old(self)@.inner_recipe.wf(),
        ensures
            final(self)@.inner_recipe == spec_simple_internal(old(self)@.inner_recipe),
            final(self)@.inner_recipe.wf(),
    {
        let ghost in_views: Seq<ManageFlowV> = self@.inner_recipe.inputs;
        let mut min_rate = Frac::one();
        let mut i: usize = 0;
        proof {
            assert(in_views.skip(0) =~= in_views);
        }
        while i < self.inner_recipe.inputs.len()
            invariant
                old(self)@.inner_recipe.wf(),
                self@ == old(self)@,
                in_views == self@.inner_recipe.inputs,
                i <= self.inner_recipe.inputs@.len(),
                min_rate.wf(),
                spec_min_rate(in_views) == spec_min_rate_loop(min_rate, in_views.skip(i as int)),
            decreases self.inner_recipe.inputs@.len() - i,
        {
            proof {
                assert(in_views.skip(i as int)[0] == in_views[i as int]);
                assert(in_views.skip(i as int).drop_first() =~= in_views.skip(i as int + 1));
                assert(in_views[i as int].wf());
            }
            let is_output: bool;
            let mut q: Option<Frac> = None;
            match &self.inner_recipe.inputs[i] {
                ManageFlow::RecipeInput(input) => {
                    is_output = false;
                    let total = input.total_in();
                    match total.div(&input.needed) {
                        Ok(v) => {
                            q = Some(v);
                        },
                        Err(_) => {},
                    }
                },
                ManageFlow::RecipeOutput(_) => {
                    is_output = true;
                },
            }
            if is_output {
                self.inner_recipe.errors.push(
                    ShowError::new(
                        "An input made its way to an output, this isn't possible".to_owned(),
                    ),
                );
            } else {
                match q {
                    Some(qv) => {
                        let one = Frac::one();
                        let rate = if qv.lt(&one) {
                            qv
                        } else {
                            one
                        };
                        if rate.lt(&min_rate) {
                            min_rate = rate;
                        }
                    },
                    None => {},
                }
            }
            i = i + 1;
        }
        proof {
            assert(in_views.skip(in_views.len() as int) =~= Seq::<ManageFlowV>::empty());
        }
        let res = self.inner_recipe.update_flow(Io::Output);
        match res {
            Ok(()) => {},
            Err(e) => {
                self.inner_recipe.errors.push(ShowError::new(e.str()));
            },
        }
        let ghost b2: BaseV = self@.inner_recipe;
        if min_rate.lt_one() {
            let mut scaled: Vec<ManageFlow> = Vec::new();
            let mut j: usize = 0;
            while j < self.inner_recipe.outputs.len()
                invariant
                    b2 == self@.inner_recipe,
                    b2.wf(),
                    self@.inner_recipe.wf(),
                    min_rate.wf(),
                    j <= self.inner_recipe.outputs@.len(),
                    scaled@.len() == j,
                    forall|t: int|
                        0 <= t < j ==> (#[trigger] scaled@[t])@ == spec_scale_port_out(
                            b2.outputs[t],
                            min_rate,
                        ) && scaled@[t]@.wf(),
                decreases self.inner_recipe.outputs@.len() - j,
            {
                proof {
                    assert(self@.inner_recipe.outputs[j as int].wf());
                }
                let mut elem = self.inner_recipe.outputs[j].clone();
                let is_input: bool;
                match &mut elem {
                    ManageFlow::RecipeOutput(output) => {
                        is_input = false;
                        match output.created.amount.checked_mul(&min_rate) {
                            Some(s) => {
                                output.created.amount = s;
                            },
                            None => {},
                        }
                    },
                    ManageFlow::RecipeInput(_) => {
                        is_input = true;
                    },
                }
                if is_input {
                    self.inner_recipe.errors.push(
                        ShowError::new(
                            "An outputs made its way to an input, this isn't possible".to_owned(),
                        ),
                    );
                }
                scaled.push(elem);
                j = j + 1;
            }
            self.inner_recipe.outputs = scaled;
            proof {
                assert(self@.inner_recipe.outputs =~= spec_scale_outputs(b2.outputs, min_rate));
                assert(self@.inner_recipe =~= spec_simple_internal(old(self)@.inner_recipe));
            }
        } else {
            proof {
                assert(self@.inner_recipe =~= spec_simple_internal(old(self)@.inner_recipe));
            }
        }
    }

    /// Scale every input port's demand by `rate`, propagating a downstream
    /// shortfall one hop further upstream on the next pass.
    pub fn back_propagation_internal_calculation(
        &mut self,
        rate: Frac,
        _amount: Option<ResourceFlow>,
    )
        requires
            old(self)@.inner_recipe.wf(),
            rate.wf(),
        ensures
            final(self)@.inner_recipe == (BaseV {
                inputs: spec_scale_needed(old(self)@.inner_recipe.inputs, rate),
                ..old(self)@.inner_recipe
            }),
            final(self)@.inner_recipe.wf(),
    {
        let ghost b0: BaseV = self@.inner_recipe;
        let mut scaled: Vec<ManageFlow> = Vec::new();
        let mut j: usize = 0;
        while j < self.inner_recipe.inputs.len()
            invariant
                b0 == self@.inner_recipe,
                b0.wf(),
                rate.wf(),
                j <= self.inner_recipe.inputs@.len(),
                scaled@.len() == j,
                forall|t: int|
                    0 <= t < j ==> (#[trigger] scaled@[t])@ == spec_scale_port_in(
                        b0.inputs[t],
                        rate,
                    ) && scaled@[t]@.wf(),
            decreases self.inner_recipe.inputs@.len() - j,
        {
            proof {
                assert(self@.inner_recipe.inputs[j as int].wf());
            }
            let mut elem = self.inner_recipe.inputs[j].clone();
            let is_output: bool;
            match &mut elem {
                ManageFlow::RecipeInput(input) => {
                    is_output = false;
                    match input.needed.amount.checked_mul(&rate) {
                        Some(s) => {
                            input.needed.amount = s;
                        },
                        None => {},
                    }
                },
                ManageFlow::RecipeOutput(_) => {
                    is_output = true;
                },
            }
            if is_output {
                self.inner_recipe.errors.push(
                    ShowError::new(
                        "An input made its way to an output, this isn't possible".to_owned(),
                    ),
                );
            }
            scaled.push(elem);
            j = j + 1;
        }
        self.inner_recipe.inputs = scaled;
        proof {
            assert(self@.inner_recipe.inputs =~= spec_scale_needed(b0.inputs, rate));
            assert(self@.inner_recipe =~= (BaseV {
                inputs: spec_scale_needed(b0.inputs, rate),
                ..b0
            }));
        }
    }
}

} // verus!
