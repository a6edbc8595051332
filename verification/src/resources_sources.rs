//! Resource sources: nodes that supply a resource, optionally rate-limited.

use vstd::prelude::*;

use crate::frac::Frac;
use crate::ports::OutPortV;
use crate::ports::RecipeOutputResource;
use crate::resource_flow::FlowV;
use crate::resource_flow::ResourceFlow;
use crate::resources::RatePer;
use crate::resources::ResourceDefinition;
use crate::resources::Unit;

verus! {

/// A node that supplies one resource.  An unlimited source supplies
/// whatever its consumer demands; a limited one supplies at most
/// `limit_amount` per `limit_rate`.
#[derive(Debug)]
pub struct ResourceSource {
    /// Unique id of the node within its graph.
    pub id: u64,
    /// The output port of the source.
    pub output: RecipeOutputResource,
    /// Whether the output is limited.
    pub limited_output: bool,
    /// The limit amount.
    pub limit_amount: Frac,
    /// The limit rate.
    pub limit_rate: RatePer,
    /// Whether the limitation is forced by an enclosing compound recipe.
    pub force_limited: bool,
}

/// The mathematical value of a [`ResourceSource`].
#[verifier::ext_equal]
pub ghost struct SourceV {
    pub id: u64,
    pub output: OutPortV,
    pub limited_output: bool,
    pub limit_amount: Frac,
    pub limit_rate: RatePer,
    pub force_limited: bool,
}

impl View for ResourceSource {
    type V = SourceV;

    open spec fn view(&self) -> SourceV {
        SourceV {
            id: self.id,
            output: self.output@,
            limited_output: self.limited_output,
            limit_amount: self.limit_amount,
            limit_rate: self.limit_rate,
            force_limited: self.force_limited,
        }
    }
}

impl SourceV {
    /// The output port and the limit amount are well formed.
    pub open spec fn wf(self) -> bool {
        self.output.wf() && self.limit_amount.wf()
    }
}

impl Clone for ResourceSource {
    fn clone(&self) -> (r: Self)
        ensures
            r@ == self@,
    {
        ResourceSource {
            id: self.id,
            output: self.output.clone(),
            limited_output: self.limited_output,
            limit_amount: self.limit_amount,
            limit_rate: self.limit_rate,
            force_limited: self.force_limited,
        }
    }
}

impl ResourceSource {
    /// A new unlimited source of the named resource (counted in pieces).
    pub fn new(resource: String, id: u64) -> (r: Self)
        ensures
            r@.wf(),
            r@.id == id,
            r@.output.resource == (crate::resources::ResourceDefinitionV {
                name: resource@,
                unit: Unit::Piece,
            }),
            r@.output.outputs.len() == 0,
            r@.output.created == (FlowV {
                resource: crate::resources::ResourceDefinitionV {
                    name: resource@,
                    unit: Unit::Piece,
                },
                amount_per_cycle: 10usize,
                amount: Frac { num: 1u32, den: 1u32 },
                rate: RatePer::Tick,
            }),
            r@.limited_output == false,
            r@.limit_amount == (Frac { num: 1u32, den: 1u32 }),
            r@.limit_rate == RatePer::Second,
            r@.force_limited == false,
    {
        let r = ResourceDefinition { name: resource, unit: Unit::Piece };
        let flow = ResourceFlow::new(&r, 10, Frac::one(), RatePer::Tick);
        Self {
            id,
            output: RecipeOutputResource::new(r, flow),
            limited_output: false,
            limit_amount: Frac::one(),
            limit_rate: RatePer::Second,
            force_limited: false,
        }
    }

    /// A new source limited to `amount` per `rate`.
    pub fn limited_source(resource: String, amount: Frac, rate: RatePer, id: u64) -> (r: Self)
        requires
            amount.wf(),
        ensures
            r@.wf(),
            r@.id == id,
            r@.output.resource == (crate::resources::ResourceDefinitionV {
                name: resource@,
                unit: Unit::Piece,
            }),
            r@.output.outputs.len() == 0,
            r@.output.created == (FlowV {
                resource: crate::resources::ResourceDefinitionV {
                    name: resource@,
                    unit: Unit::Piece,
                },
                amount_per_cycle: 10usize,
                amount: Frac { num: 1u32, den: 1u32 },
                rate: RatePer::Tick,
            }),
            r@.limited_output == true,
            r@.limit_amount == amount,
            r@.limit_rate == rate,
            r@.force_limited == false,
    {
        let mut new = ResourceSource::new(resource, id);
        new.limit_amount = amount;
        new.limit_rate = rate;
        new.limited_output = true;
        new
    }

    /// Force a limit of `amount` per `rate` onto this source (used when an
    /// enclosing compound recipe pushes its observed demand down).
    pub fn limit_source(&mut self, amount: Frac, rate: RatePer)
        requires
            amount.wf(),
        ensures
            final(self)@ == (SourceV {
                limit_amount: amount,
                limit_rate: rate,
                force_limited: true,
                limited_output: true,
                ..old(self)@
            }),
    {
        self.limit_amount = amount;
        self.limit_rate = rate;
        self.force_limited = true;
        self.limited_output = true;
    }
}

} // verus!
