//! Flow ports: the accumulators a node exposes for each resource it
//! consumes (input port) or produces (output port).

use vstd::prelude::*;
use vstd::string::StringExecFns;

use crate::formatting::float_format;
use crate::formatting::format_integer;
use crate::frac::Frac;
use crate::resource_flow::FlowCmp;
use crate::resource_flow::FlowV;
use crate::resource_flow::ResourceFlow;
use crate::resource_flow::spec_amount_le;
use crate::resource_flow::spec_amount_lt;
use crate::resource_flow::spec_flow_add;
use crate::resources::ResourceDefinition;
use crate::resources::ResourceDefinitionV;

verus! {

/// The views of a sequence of flows.
pub open spec fn views_of(s: Seq<ResourceFlow>) -> Seq<FlowV> {
    s.map_values(|f: ResourceFlow| f@)
}

/// Left fold of [`spec_flow_add`] over a sequence of flows.
pub open spec fn spec_sum_flows(acc: FlowV, fs: Seq<FlowV>) -> FlowV
    decreases fs.len(),
{
    if fs.len() == 0 {
        acc
    } else {
        spec_sum_flows(spec_flow_add(acc, fs[0]), fs.drop_first())
    }
}

/// The zero flow a port's total starts from: no amount of the port's
/// resource, at the rate of the port's base flow.
pub open spec fn spec_zero_flow(resource: ResourceDefinitionV, base: FlowV) -> FlowV {
    FlowV {
        resource,
        amount_per_cycle: 0usize,
        amount: Frac { num: 0u32, den: 1u32 },
        rate: base.rate,
    }
}

/// The third display field of a port: its base flow's amount rendered at
/// three significant digits, followed by the rate suffix.
pub open spec fn spec_amount_display(f: FlowV) -> Seq<char> {
    crate::formatting::spec_float_format(f.amount.num as int, f.amount.den as int, 3)
        + crate::resources::spec_rate_suffix(f.rate)
}

/// The one-line display string of a port: its resource name, the amount
/// per cycle, and the amount per time with its rate suffix.
pub open spec fn spec_port_line(name: Seq<char>, f: FlowV) -> Seq<char> {
    name + ": "@ + crate::formatting::spec_digits(f.amount_per_cycle as int) + "||"@
        + spec_amount_display(f)
}

/// An input resource of a recipe: accumulates the inbound flows of one
/// resource against the demand `needed`.
#[derive(Debug)]
pub struct RecipeInputResource {
    /// The type of resource this port considers.
    pub resource: ResourceDefinition,
    /// The inbound flow contributions of the current pass.
    pub inputs: Vec<ResourceFlow>,
    /// The amount needed per recipe cycle.
    pub needed: ResourceFlow,
}

/// The mathematical value of a [`RecipeInputResource`].
#[verifier::ext_equal]
pub ghost struct InPortV {
    pub resource: ResourceDefinitionV,
    pub inputs: Seq<FlowV>,
    pub needed: FlowV,
}

impl View for RecipeInputResource {
    type V = InPortV;

    open spec fn view(&self) -> InPortV {
        InPortV { resource: self.resource@, inputs: views_of(self.inputs@), needed: self.needed@ }
    }
}

impl InPortV {
    /// Every flow of the port, and its demand, is of the port's resource
    /// and well formed.
    pub open spec fn wf(self) -> bool {
        &&& self.needed.wf()
        &&& self.needed.resource == self.resource
        &&& forall|i: int|
            0 <= i < self.inputs.len() ==> (#[trigger] self.inputs[i]).wf() && self.inputs[
                i
            ].resource == self.resource
    }

    /// The total inbound flow: the sum of the contributions, at the rate of
    /// the demand.
    pub open spec fn spec_total_in(self) -> FlowV {
        spec_sum_flows(spec_zero_flow(self.resource, self.needed), self.inputs)
    }
}

/// An output resource of a recipe: accumulates the outbound flows of one
/// resource against the supply `created`.
#[derive(Debug)]
pub struct RecipeOutputResource {
    /// The type of resource this port considers.
    pub resource: ResourceDefinition,
    /// The outbound flow contributions of the current pass.
    pub outputs: Vec<ResourceFlow>,
    /// The amount created per recipe cycle.
    pub created: ResourceFlow,
}

/// The mathematical value of a [`RecipeOutputResource`].
#[verifier::ext_equal]
pub ghost struct OutPortV {
    pub resource: ResourceDefinitionV,
    pub outputs: Seq<FlowV>,
    pub created: FlowV,
}

impl View for RecipeOutputResource {
    type V = OutPortV;

    open spec fn view(&self) -> OutPortV {
        OutPortV {
            resource: self.resource@,
            outputs: views_of(self.outputs@),
            created: self.created@,
        }
    }
}

impl OutPortV {
    /// Every flow of the port, and its supply, is of the port's resource
    /// and well formed.
    pub open spec fn wf(self) -> bool {
        &&& self.created.wf()
        &&& self.created.resource == self.resource
        &&& forall|i: int|
            0 <= i < self.outputs.len() ==> (#[trigger] self.outputs[i]).wf() && self.outputs[
                i
            ].resource == self.resource
    }

    /// The total outbound flow: the sum of the contributions, at the rate
    /// of the supply.
    pub open spec fn spec_total_out(self) -> FlowV {
        spec_sum_flows(spec_zero_flow(self.resource, self.created), self.outputs)
    }
}

impl Clone for RecipeInputResource {
    fn clone(&self) -> (r: Self)
        ensures
            r@ == self@,
    {
        let mut inputs: Vec<ResourceFlow> = Vec::new();
        let mut i: usize = 0;
        while i < self.inputs.len()
            invariant
                i <= self.inputs.len(),
                inputs@.len() == i,
                forall|j: int| 0 <= j < i ==> (#[trigger] inputs@[j])@ == self.inputs@[j]@,
            decreases self.inputs.len() - i,
        {
            inputs.push(self.inputs[i].clone());
            i = i + 1;
        }
        let r = RecipeInputResource {
            resource: self.resource.clone(),
            inputs,
            needed: self.needed.clone(),
        };
        proof {
            assert(r@.inputs =~= self@.inputs);
            assert(r@ =~= self@);
        }
        r
    }
}

impl Clone for RecipeOutputResource {
    fn clone(&self) -> (r: Self)
        ensures
            r@ == self@,
    {
        let mut outputs: Vec<ResourceFlow> = Vec::new();
        let mut i: usize = 0;
        while i < self.outputs.len()
            invariant
                i <= self.outputs.len(),
                outputs@.len() == i,
                forall|j: int| 0 <= j < i ==> (#[trigger] outputs@[j])@ == self.outputs@[j]@,
            decreases self.outputs.len() - i,
        {
            outputs.push(self.outputs[i].clone());
            i = i + 1;
        }
        let r = RecipeOutputResource {
            resource: self.resource.clone(),
            outputs,
            created: self.created.clone(),
        };
        proof {
            assert(r@.outputs =~= self@.outputs);
            assert(r@ =~= self@);
        }
        r
    }
}

impl RecipeInputResource {
    /// A fresh input port for `resource`, demanding `needed`, with no
    /// contributions yet.
    pub fn new(resource: ResourceDefinition, needed: ResourceFlow) -> (r: Self)
        requires
            needed@.wf(),
            needed@.resource == resource@,
        ensures
            r@ == (InPortV { resource: resource@, inputs: Seq::empty(), needed: needed@ }),
            r@.wf(),
    {
        let r = Self { resource, inputs: Vec::new(), needed };
        proof {
            assert(r@.inputs =~= Seq::<FlowV>::empty());
        }
        r
    }

    /// Record an inbound contribution; refused (returning `false`) when the
    /// flow is of another resource.
    pub fn add_in_flow(&mut self, flow: ResourceFlow) -> (r: bool)
        requires
            old(self)@.wf(),
            flow@.wf(),
        ensures
            final(self)@.wf(),
            r == (flow@.resource == old(self)@.resource),
            r ==> final(self)@ == (InPortV {
                inputs: old(self)@.inputs.push(flow@),
                ..old(self)@
            }),
            !r ==> final(self)@ == old(self)@,
    {
        if !(flow.resource == self.resource) {
            return false;
        }
        self.inputs.push(flow);
        proof {
            assert(self@.inputs =~= old(self)@.inputs.push(flow@));
        }
        true
    }

    /// An input port records no outbound flows.
    pub fn add_out_flow(&mut self, flow: ResourceFlow) -> (r: bool)
        ensures
            r == false,
            final(self)@ == old(self)@,
    {
        let _ = flow;
        false
    }

    /// The total inbound flow of the current pass, at the rate of the
    /// demand.
    pub fn total_in(&self) -> (r: ResourceFlow)
        requires
            self@.wf(),
        ensures
            r@ == self@.spec_total_in(),
            r@.wf(),
    {
        let rate = self.needed.rate;
        let mut flow = ResourceFlow::empty(&self.resource, rate);
        proof {
            assert(self@.inputs.skip(0) =~= self@.inputs);
        }
        let mut i: usize = 0;
        while i < self.inputs.len()
            invariant
                self@.wf(),
                i <= self.inputs.len(),
                flow@.wf(),
                spec_sum_flows(flow@, self@.inputs.skip(i as int)) == self@.spec_total_in(),
            decreases self.inputs.len() - i,
        {
            proof {
                assert(self@.inputs.skip(i as int)[0] == self@.inputs[i as int]);
                assert(self@.inputs.skip(i as int).drop_first() =~= self@.inputs.skip(
                    i as int + 1,
                ));
            }
            flow.add(&self.inputs[i]);
            i = i + 1;
        }
        proof {
            assert(self@.inputs.skip(self@.inputs.len() as int) =~= Seq::<FlowV>::empty());
        }
        flow
    }

    /// The demanded flow, which the port "emits" toward the recipe.
    pub fn total_out(&self) -> (r: ResourceFlow)
        ensures
            r@ == self@.needed,
    {
        self.needed.clone()
    }

    /// Whether the accumulated input covers the demand.
    pub fn is_enough(&self) -> (r: bool)
        requires
            self@.wf(),
        ensures
            r == !spec_amount_lt(self@.spec_total_in(), self@.needed),
    {
        let total = self.total_in();
        proof {
            crate::ports::lemma_sum_keeps_resource(
                spec_zero_flow(self@.resource, self@.needed),
                self@.inputs,
            );
        }
        match total.partial_cmp(&self.needed) {
            Some(FlowCmp::Less) => false,
            Some(FlowCmp::Equal) => true,
            Some(FlowCmp::Greater) => true,
            None => false,
        }
    }

    /// Whether the accumulated input strictly exceeds the demand.
    pub fn is_more_than_enough(&self) -> (r: bool)
        requires
            self@.wf(),
        ensures
            r == !spec_amount_le(self@.spec_total_in(), self@.needed),
    {
        let total = self.total_in();
        proof {
            crate::ports::lemma_sum_keeps_resource(
                spec_zero_flow(self@.resource, self@.needed),
                self@.inputs,
            );
        }
        match total.partial_cmp(&self.needed) {
            Some(FlowCmp::Greater) => true,
            _ => false,
        }
    }

    /// Whether any contribution arrived this pass.
    pub fn is_connected(&self) -> (r: bool)
        ensures
            r == (self@.inputs.len() > 0),
    {
        self.inputs.len() > 0
    }

    /// The resource this port considers.
    pub fn resource(&self) -> (r: ResourceDefinition)
        ensures
            r@ == self@.resource,
    {
        self.resource.clone()
    }

    /// Set the amount of the demand consumed per recipe cycle.
    pub fn set_designed_amount_per_cycle(&mut self, amount: usize)
        ensures
            final(self)@ == (InPortV {
                needed: FlowV { amount_per_cycle: amount, ..old(self)@.needed },
                ..old(self)@
            }),
    {
        self.needed.amount_per_cycle = amount;
    }

    /// Clear the contributions of the pass; the demand is kept.
    pub fn reset(&mut self)
        ensures
            final(self)@ == (InPortV { inputs: Seq::empty(), ..old(self)@ }),
    {
        self.inputs.clear();
        proof {
            assert(self@.inputs =~= Seq::<FlowV>::empty());
        }
    }

    /// The three display fields of the port: resource name, amount per
    /// cycle, and amount per time with its rate suffix.
    pub fn to_split_string(&self) -> (r: (String, String, String))
        requires
            self@.wf(),
        ensures
            r.0@ == self@.resource.name,
            r.1@ == crate::formatting::spec_digits(self@.needed.amount_per_cycle as int),
            r.2@ == spec_amount_display(self@.needed),
    {
        let amount = float_format(self.needed.amount.num as i64, self.needed.amount.den as u64, 3);
        let suffix = self.needed.rate.to_shortened_string();
        (
            self.resource.name.clone(),
            format_integer(self.needed.amount_per_cycle as u64),
            amount.concat(suffix.as_str()),
        )
    }

    /// The one-line display string of the port.
    pub fn to_string(&self) -> (r: String)
        requires
            self@.wf(),
        ensures
            r@ == spec_port_line(self@.resource.name, self@.needed),
    {
        let parts = self.to_split_string();
        let mut s = parts.0;
        s.append(": ");
        s.append(parts.1.as_str());
        s.append("||");
        s.append(parts.2.as_str());
        proof {
            assert(s@ =~= spec_port_line(self@.resource.name, self@.needed));
        }
        s
    }
}

impl RecipeOutputResource {
    /// A fresh output port for `resource`, supplying `created`, with no
    /// contributions yet.
    pub fn new(resource: ResourceDefinition, created: ResourceFlow) -> (r: Self)
        requires
            created@.wf(),
            created@.resource == resource@,
        ensures
            r@ == (OutPortV { resource: resource@, outputs: Seq::empty(), created: created@ }),
            r@.wf(),
    {
        let r = Self { resource, outputs: Vec::new(), created };
        proof {
            assert(r@.outputs =~= Seq::<FlowV>::empty());
        }
        r
    }

    /// An output port records no inbound flows.
    pub fn add_in_flow(&mut self, flow: ResourceFlow) -> (r: bool)
        ensures
            r == false,
            final(self)@ == old(self)@,
    {
        let _ = flow;
        false
    }

    /// Record an outbound contribution; refused (returning `false`) when
    /// the flow is of another resource.
    pub fn add_out_flow(&mut self, flow: ResourceFlow) -> (r: bool)
        requires
            old(self)@.wf(),
            flow@.wf(),
        ensures
            final(self)@.wf(),
            r == (flow@.resource == old(self)@.resource),
            r ==> final(self)@ == (OutPortV {
                outputs: old(self)@.outputs.push(flow@),
                ..old(self)@
            }),
            !r ==> final(self)@ == old(self)@,
    {
        if !(flow.resource == self.resource) {
            return false;
        }
        self.outputs.push(flow);
        proof {
            assert(self@.outputs =~= old(self)@.outputs.push(flow@));
        }
        true
    }

    /// The supplied flow, which the port "receives" from the recipe.
    pub fn total_in(&self) -> (r: ResourceFlow)
        ensures
            r@ == self@.created,
    {
        self.created.clone()
    }

    /// The total outbound flow of the current pass, at the rate of the
    /// supply.
    pub fn total_out(&self) -> (r: ResourceFlow)
        requires
            self@.wf(),
        ensures
            r@ == self@.spec_total_out(),
            r@.wf(),
    {
        let rate = self.created.rate;
        let mut flow = ResourceFlow::empty(&self.resource, rate);
        proof {
            assert(self@.outputs.skip(0) =~= self@.outputs);
        }
        let mut i: usize = 0;
        while i < self.outputs.len()
            invariant
                self@.wf(),
                i <= self.outputs.len(),
                flow@.wf(),
                spec_sum_flows(flow@, self@.outputs.skip(i as int)) == self@.spec_total_out(),
            decreases self.outputs.len() - i,
        {
            proof {
                assert(self@.outputs.skip(i as int)[0] == self@.outputs[i as int]);
                assert(self@.outputs.skip(i as int).drop_first() =~= self@.outputs.skip(
                    i as int + 1,
                ));
            }
            flow.add(&self.outputs[i]);
            i = i + 1;
        }
        proof {
            assert(self@.outputs.skip(self@.outputs.len() as int) =~= Seq::<FlowV>::empty());
        }
        flow
    }

    /// Whether the pass promised no more than the port supplies.
    pub fn is_enough(&self) -> (r: bool)
        requires
            self@.wf(),
        ensures
            r == spec_amount_le(self@.spec_total_out(), self@.created),
    {
        let total = self.total_out();
        proof {
            crate::ports::lemma_sum_keeps_resource(
                spec_zero_flow(self@.resource, self@.created),
                self@.outputs,
            );
        }
        match total.partial_cmp(&self.created) {
            Some(FlowCmp::Less) => true,
            Some(FlowCmp::Equal) => true,
            _ => false,
        }
    }

    /// The resource this port considers.
    pub fn resource(&self) -> (r: ResourceDefinition)
        ensures
            r@ == self@.resource,
    {
        self.resource.clone()
    }

    /// Set the amount of the supply created per recipe cycle.
    pub fn set_designed_amount_per_cycle(&mut self, amount: usize)
        ensures
            final(self)@ == (OutPortV {
                created: FlowV { amount_per_cycle: amount, ..old(self)@.created },
                ..old(self)@
            }),
    {
        self.created.amount_per_cycle = amount;
    }

    /// Clear the contributions of the pass; the supply is kept.
    pub fn reset(&mut self)
        ensures
            final(self)@ == (OutPortV { outputs: Seq::empty(), ..old(self)@ }),
    {
        self.outputs.clear();
        proof {
            assert(self@.outputs =~= Seq::<FlowV>::empty());
        }
    }

    /// The three display fields of the port: resource name, amount per
    /// cycle, and amount per time with its rate suffix.
    pub fn to_split_string(&self) -> (r: (String, String, String))
        requires
            self@.wf(),
        ensures
            r.0@ == self@.resource.name,
            r.1@ == crate::formatting::spec_digits(self@.created.amount_per_cycle as int),
            r.2@ == spec_amount_display(self@.created),
    {
        let amount = float_format(self.created.amount.num as i64, self.created.amount.den as u64, 3);
        let suffix = self.created.rate.to_shortened_string();
        (
            self.resource.name.clone(),
            format_integer(self.created.amount_per_cycle as u64),
            amount.concat(suffix.as_str()),
        )
    }

    /// The one-line display string of the port.
    pub fn to_string(&self) -> (r: String)
        requires
            self@.wf(),
        ensures
            r@ == spec_port_line(self@.resource.name, self@.created),
    {
        let parts = self.to_split_string();
        let mut s = parts.0;
        s.append(": ");
        s.append(parts.1.as_str());
        s.append("||");
        s.append(parts.2.as_str());
        proof {
            assert(s@ =~= spec_port_line(self@.resource.name, self@.created));
        }
        s
    }
}

/// A port wrapped as the input or the output side of a node, for
/// polymorphic port lists.
#[derive(Debug)]
pub enum ManageFlow {
    RecipeInput(RecipeInputResource),
    RecipeOutput(RecipeOutputResource),
}

/// The mathematical value of a [`ManageFlow`].
#[verifier::ext_equal]
pub ghost enum ManageFlowV {
    RecipeInput(InPortV),
    RecipeOutput(OutPortV),
}

impl View for ManageFlow {
    type V = ManageFlowV;

    open spec fn view(&self) -> ManageFlowV {
        match self {
            ManageFlow::RecipeInput(p) => ManageFlowV::RecipeInput(p@),
            ManageFlow::RecipeOutput(p) => ManageFlowV::RecipeOutput(p@),
        }
    }
}

impl ManageFlowV {
    /// Well-formedness of the wrapped port.
    pub open spec fn wf(self) -> bool {
        match self {
            ManageFlowV::RecipeInput(p) => p.wf(),
            ManageFlowV::RecipeOutput(p) => p.wf(),
        }
    }
}

impl Clone for ManageFlow {
    fn clone(&self) -> (r: Self)
        ensures
            r@ == self@,
    {
        match self {
            ManageFlow::RecipeInput(p) => ManageFlow::RecipeInput(p.clone()),
            ManageFlow::RecipeOutput(p) => ManageFlow::RecipeOutput(p.clone()),
        }
    }
}

impl ManageFlow {
    /// The one-line display string of the wrapped port.
    pub fn to_string_rep(&self) -> (r: String)
        requires
            self@.wf(),
        ensures
            r@ == (match self@ {
                ManageFlowV::RecipeInput(p) => spec_port_line(p.resource.name, p.needed),
                ManageFlowV::RecipeOutput(p) => spec_port_line(p.resource.name, p.created),
            }),
    {
        match self {
            ManageFlow::RecipeInput(input) => input.to_string(),
            ManageFlow::RecipeOutput(output) => output.to_string(),
        }
    }

    /// The three display fields of the wrapped port.
    pub fn to_split_string(&self) -> (r: (String, String, String))
        requires
            self@.wf(),
        ensures
            ({
                let base = match self@ {
                    ManageFlowV::RecipeInput(p) => p.needed,
                    ManageFlowV::RecipeOutput(p) => p.created,
                };
                let name = match self@ {
                    ManageFlowV::RecipeInput(p) => p.resource.name,
                    ManageFlowV::RecipeOutput(p) => p.resource.name,
                };
                &&& r.0@ == name
                &&& r.1@ == crate::formatting::spec_digits(base.amount_per_cycle as int)
                &&& r.2@ == spec_amount_display(base)
            }),
    {
        match self {
            ManageFlow::RecipeInput(input) => input.to_split_string(),
            ManageFlow::RecipeOutput(output) => output.to_split_string(),
        }
    }
}

/// Summing flows that all share the zero flow's resource yields a flow of
/// that resource.
pub proof fn lemma_sum_keeps_resource(acc: FlowV, fs: Seq<FlowV>)
    requires
        acc.wf(),
        forall|i: int| 0 <= i < fs.len() ==> (#[trigger] fs[i]).wf(),
    ensures
        spec_sum_flows(acc, fs).resource == acc.resource,
        spec_sum_flows(acc, fs).wf(),
    decreases fs.len(),
{
    if fs.len() > 0 {
        crate::resource_flow::lemma_flow_add_props(acc, fs[0]);
        lemma_sum_keeps_resource(spec_flow_add(acc, fs[0]), fs.drop_first());
    }
}

/// Mirror of re-adding a sequence of flows to an input port, in order.
pub open spec fn spec_add_all_in(p: InPortV, fs: Seq<FlowV>) -> InPortV
    decreases fs.len(),
{
    if fs.len() == 0 {
        p
    } else {
        let q = if fs[0].resource == p.resource {
            InPortV { inputs: p.inputs.push(fs[0]), ..p }
        } else {
            p
        };
        spec_add_all_in(q, fs.drop_first())
    }
}

/// Mirror of re-adding a sequence of flows to an output port, in order.
pub open spec fn spec_add_all_out(p: OutPortV, fs: Seq<FlowV>) -> OutPortV
    decreases fs.len(),
{
    if fs.len() == 0 {
        p
    } else {
        let q = if fs[0].resource == p.resource {
            OutPortV { outputs: p.outputs.push(fs[0]), ..p }
        } else {
            p
        };
        spec_add_all_out(q, fs.drop_first())
    }
}

/// Port sufficiency idempotence for input ports: resetting a well-formed
/// input port and re-adding the very contributions it held restores the
/// port exactly, so `total_in` (and every sufficiency test) is unchanged.
pub proof fn lemma_input_reset_readd_idempotent(p: InPortV)
    requires
        p.wf(),
    ensures
        spec_add_all_in(InPortV { inputs: Seq::empty(), ..p }, p.inputs) == p,
        spec_add_all_in(
            InPortV { inputs: Seq::empty(), ..p },
            p.inputs,
        ).spec_total_in() == p.spec_total_in(),
{
    lemma_add_all_in_appends(InPortV { inputs: Seq::empty(), ..p }, p.inputs);
    assert(Seq::empty() + p.inputs =~= p.inputs);
}

/// Port sufficiency idempotence for output ports: resetting a well-formed
/// output port and re-adding the very contributions it held restores the
/// port exactly, so `total_out` (and every sufficiency test) is unchanged.
pub proof fn lemma_output_reset_readd_idempotent(p: OutPortV)
    requires
        p.wf(),
    ensures
        spec_add_all_out(OutPortV { outputs: Seq::empty(), ..p }, p.outputs) == p,
        spec_add_all_out(
            OutPortV { outputs: Seq::empty(), ..p },
            p.outputs,
        ).spec_total_out() == p.spec_total_out(),
{
    lemma_add_all_out_appends(OutPortV { outputs: Seq::empty(), ..p }, p.outputs);
    assert(Seq::empty() + p.outputs =~= p.outputs);
}

/// Re-adding flows of the port's own resource appends them in order.
proof fn lemma_add_all_in_appends(p: InPortV, fs: Seq<FlowV>)
    requires
        forall|i: int| 0 <= i < fs.len() ==> (#[trigger] fs[i]).resource == p.resource,
    ensures
        spec_add_all_in(p, fs) == (InPortV { inputs: p.inputs + fs, ..p }),
    decreases fs.len(),
{
    if fs.len() == 0 {
        assert(p.inputs + fs =~= p.inputs);
        assert(spec_add_all_in(p, fs) =~= (InPortV { inputs: p.inputs + fs, ..p }));
    } else {
        let q = InPortV { inputs: p.inputs.push(fs[0]), ..p };
        lemma_add_all_in_appends(q, fs.drop_first());
        assert(p.inputs.push(fs[0]) + fs.drop_first() =~= p.inputs + fs);
    }
}

/// Re-adding flows of the port's own resource appends them in order.
proof fn lemma_add_all_out_appends(p: OutPortV, fs: Seq<FlowV>)
    requires
        forall|i: int| 0 <= i < fs.len() ==> (#[trigger] fs[i]).resource == p.resource,
    ensures
        spec_add_all_out(p, fs) == (OutPortV { outputs: p.outputs + fs, ..p }),
    decreases fs.len(),
{
    if fs.len() == 0 {
        assert(p.outputs + fs =~= p.outputs);
        assert(spec_add_all_out(p, fs) =~= (OutPortV { outputs: p.outputs + fs, ..p }));
    } else {
        let q = OutPortV { outputs: p.outputs.push(fs[0]), ..p };
        lemma_add_all_out_appends(q, fs.drop_first());
        assert(p.outputs.push(fs[0]) + fs.drop_first() =~= p.outputs + fs);
    }
}

} // verus!
