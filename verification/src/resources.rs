//! Resource identity, rate units, and the errors of the flow model.

use vstd::prelude::*;

verus! {

/// Unit of a resource:
/// * `Piece` for countable objects
/// * `Liter` for volumes
/// * `Kg` for weights
#[derive(Debug, PartialEq, Eq, Structural, Hash, Copy, Clone)]
pub enum Unit {
    Piece,
    Liter,
    Kg,
}

/// Rate of a flow: the unit of time one amount refers to, from the finest
/// (`Tick`) to the coarsest (`Hour`).
#[derive(Debug, PartialEq, Eq, Structural, Copy, Clone)]
pub enum RatePer {
    Tick,
    Second,
    Minute,
    Hour,
}

/// Position of a rate in the `Tick < Second < Minute < Hour` order.
pub open spec fn rate_ord(r: RatePer) -> int {
    match r {
        RatePer::Tick => 0,
        RatePer::Second => 1,
        RatePer::Minute => 2,
        RatePer::Hour => 3,
    }
}

/// Number of ticks in one unit of the rate: 20 ticks per second, 60 seconds
/// per minute, 60 minutes per hour.
pub open spec fn rate_ticks(r: RatePer) -> int {
    match r {
        RatePer::Tick => 1,
        RatePer::Second => 20,
        RatePer::Minute => 1200,
        RatePer::Hour => 72000,
    }
}

/// The display suffix of a rate.
pub open spec fn spec_rate_suffix(r: RatePer) -> Seq<char> {
    match r {
        RatePer::Tick => "/tick"@,
        RatePer::Second => "/s"@,
        RatePer::Minute => "/min"@,
        RatePer::Hour => "/h"@,
    }
}

impl RatePer {
    /// The next coarser rate.  `Hour` has none, so it is excluded.
    pub fn next(self) -> (r: Self)
        requires
            self != RatePer::Hour,
        ensures
            rate_ord(r) == rate_ord(self) + 1,
    {
        match self {
            RatePer::Tick => RatePer::Second,
            RatePer::Second => RatePer::Minute,
            RatePer::Minute => RatePer::Hour,
            RatePer::Hour => RatePer::Hour,
        }
    }

    /// The display suffix of the rate.
    pub fn to_shortened_string(self) -> (r: String)
        ensures
            r@ == spec_rate_suffix(self),
    {
        match self {
            RatePer::Tick => "/tick",
            RatePer::Second => "/s",
            RatePer::Minute => "/min",
            RatePer::Hour => "/h",
        }.to_owned()
    }

    /// The position of the rate in the `Tick < Second < Minute < Hour` order.
    pub fn level(self) -> (n: u32)
        ensures
            n == rate_ord(self),
    {
        match self {
            RatePer::Tick => 0,
            RatePer::Second => 1,
            RatePer::Minute => 2,
            RatePer::Hour => 3,
        }
    }

    /// How many units of `self` make one unit of the coarser rate `to`:
    /// the quotient of the two tick counts.
    pub fn factor_to(self, to: RatePer) -> (k: u32)
        requires
            rate_ord(self) <= rate_ord(to),
        ensures
            k * rate_ticks(self) == rate_ticks(to),
            k >= 1,
    {
        match (self, to) {
            (RatePer::Tick, RatePer::Tick) => 1,
            (RatePer::Tick, RatePer::Second) => 20,
            (RatePer::Tick, RatePer::Minute) => 1200,
            (RatePer::Tick, RatePer::Hour) => 72000,
            (RatePer::Second, RatePer::Second) => 1,
            (RatePer::Second, RatePer::Minute) => 60,
            (RatePer::Second, RatePer::Hour) => 3600,
            (RatePer::Minute, RatePer::Minute) => 1,
            (RatePer::Minute, RatePer::Hour) => 60,
            (RatePer::Hour, RatePer::Hour) => 1,
            _ => 1,
        }
    }
}

/// A type of resource, identified by its name together with its unit.
#[derive(Debug)]
pub struct ResourceDefinition {
    /// The name of the resource; it should be unique within a graph.
    pub name: String,
    /// The unit the resource is measured in.
    pub unit: Unit,
}

impl View for ResourceDefinition {
    type V = ResourceDefinitionV;

    open spec fn view(&self) -> ResourceDefinitionV {
        ResourceDefinitionV { name: self.name@, unit: self.unit }
    }
}

/// The mathematical value of a [`ResourceDefinition`].
#[verifier::ext_equal]
pub ghost struct ResourceDefinitionV {
    pub name: Seq<char>,
    pub unit: Unit,
}

impl Clone for ResourceDefinition {
    fn clone(&self) -> (r: Self)
        ensures
            r@ == self@,
    {
        ResourceDefinition { name: self.name.clone(), unit: self.unit }
    }
}

impl PartialEq for ResourceDefinition {
    /// Two resources are the same definition when both name and unit agree.
    fn eq(&self, other: &ResourceDefinition) -> (r: bool) {
        self.name == other.name && self.unit == other.unit
    }
}

impl vstd::std_specs::cmp::PartialEqSpecImpl for ResourceDefinition {
    open spec fn obeys_eq_spec() -> bool {
        true
    }

    open spec fn eq_spec(&self, other: &ResourceDefinition) -> bool {
        self@ == other@
    }
}

/// The ways an operation of the flow model can fail.
#[derive(Copy, Clone, Debug, PartialEq, Eq, Structural)]
pub enum FlowErrorType {
    /// A conversion was requested from a rate down to a finer rate.
    RateTooLowConversion(RatePer, RatePer),
    /// Two flows of different resources were combined.
    WrongResourceType,
    /// An exact amount does not fit the rational representation.
    AmountOverflow,
}

/// An error of the flow model, carrying its [`FlowErrorType`].
#[derive(Copy, Clone, Debug, PartialEq, Eq, Structural)]
pub struct FlowError {
    pub error_type: FlowErrorType,
}

impl FlowError {
    pub fn new(error_type: FlowErrorType) -> (r: Self)
        ensures
            r.error_type == error_type,
    {
        Self { error_type }
    }

    /// A human-readable description of the error.
    pub fn str(&self) -> (r: String)
        ensures
            r@.len() > 0,
    {
        let r = match self.error_type {
            FlowErrorType::RateTooLowConversion(_, _) => "Rate type too low for rate conversion",
            FlowErrorType::WrongResourceType => "Resource Flow of wrong type",
            FlowErrorType::AmountOverflow => "Resource Flow amount not representable",
        };
        proof {
            reveal_strlit("Rate type too low for rate conversion");
            reveal_strlit("Resource Flow of wrong type");
            reveal_strlit("Resource Flow amount not representable");
        }
        r.to_owned()
    }
}

} // verus!
