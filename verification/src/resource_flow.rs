//! A dimensioned flow of a resource: an exact amount per unit of time.

use vstd::prelude::*;

use crate::frac::Frac;
use crate::frac::spec_frac_add;
use crate::frac::spec_frac_div;
use crate::frac::spec_frac_scale;
use crate::resources::FlowError;
use crate::resources::FlowErrorType;
use crate::resources::RatePer;
use crate::resources::ResourceDefinition;
use crate::resources::ResourceDefinitionV;
use crate::resources::rate_ord;
use crate::resources::rate_ticks;

verus! {

/// Outcome of comparing two flows of the same resource.
#[derive(Copy, Clone, Debug, PartialEq, Eq, Structural)]
pub enum FlowCmp {
    Less,
    Equal,
    Greater,
}

/// A flow of a resource: `amount` of `resource` every unit of `rate`,
/// produced or consumed in batches of `amount_per_cycle` per recipe cycle.
#[derive(Debug)]
pub struct ResourceFlow {
    pub resource: ResourceDefinition,
    pub amount_per_cycle: usize,
    pub amount: Frac,
    pub rate: RatePer,
}

/// The mathematical value of a [`ResourceFlow`].
#[verifier::ext_equal]
pub ghost struct FlowV {
    pub resource: ResourceDefinitionV,
    pub amount_per_cycle: usize,
    pub amount: Frac,
    pub rate: RatePer,
}

impl View for ResourceFlow {
    type V = FlowV;

    open spec fn view(&self) -> FlowV {
        FlowV {
            resource: self.resource@,
            amount_per_cycle: self.amount_per_cycle,
            amount: self.amount,
            rate: self.rate,
        }
    }
}

impl FlowV {
    /// A flow is well formed when its amount is.
    pub open spec fn wf(self) -> bool {
        self.amount.wf()
    }
}

impl Clone for ResourceFlow {
    fn clone(&self) -> (r: Self)
        ensures
            r@ == self@,
    {
        ResourceFlow {
            resource: self.resource.clone(),
            amount_per_cycle: self.amount_per_cycle,
            amount: self.amount,
            rate: self.rate,
        }
    }
}

/// The multiplier taking an amount per `from` to the same flow per the
/// coarser rate `to` (1 when the rates are equal, and 1 as an unused filler
/// on downward pairs, which every caller excludes).
pub open spec fn spec_factor(from: RatePer, to: RatePer) -> u32 {
    match (from, to) {
        (RatePer::Tick, RatePer::Second) => 20,
        (RatePer::Tick, RatePer::Minute) => 1200,
        (RatePer::Tick, RatePer::Hour) => 72000,
        (RatePer::Second, RatePer::Minute) => 60,
        (RatePer::Second, RatePer::Hour) => 3600,
        (RatePer::Minute, RatePer::Hour) => 60,
        _ => 1,
    }
}

/// Mirror of [`ResourceFlow::convert_amount`]: the amount of the flow
/// re-expressed per the coarser rate `rate`, an error when `rate` is finer
/// than the flow's own rate or when the scaled amount is not representable.
pub open spec fn spec_convert_amount(f: FlowV, rate: RatePer) -> Result<Frac, FlowError> {
    if rate_ord(rate) < rate_ord(f.rate) {
        Err(FlowError { error_type: FlowErrorType::RateTooLowConversion(f.rate, rate) })
    } else {
        match spec_frac_scale(f.amount, spec_factor(f.rate, rate)) {
            Some(a) => Ok(a),
            None => Err(FlowError { error_type: FlowErrorType::AmountOverflow }),
        }
    }
}

/// Mirror of [`ResourceFlow::add`]: the first flow after merging the second
/// into it.  Flows of different resources do not merge; when the rates
/// differ, the finer-rated flow is first converted up to the coarser rate.
/// A merge whose exact result is not representable leaves the flow unchanged.
pub open spec fn spec_flow_add(a: FlowV, b: FlowV) -> FlowV {
    if a.resource != b.resource {
        a
    } else if a.rate == b.rate {
        match spec_frac_add(a.amount, b.amount) {
            Some(s) => FlowV { amount: s, ..a },
            None => a,
        }
    } else if rate_ord(a.rate) > rate_ord(b.rate) {
        match spec_convert_amount(b, a.rate) {
            Ok(cb) => match spec_frac_add(a.amount, cb) {
                Some(s) => FlowV { amount: s, ..a },
                None => a,
            },
            Err(_) => a,
        }
    } else {
        match spec_convert_amount(a, b.rate) {
            Ok(ca) => match spec_frac_add(ca, b.amount) {
                Some(s) => FlowV { amount: s, rate: b.rate, ..a },
                None => a,
            },
            Err(_) => a,
        }
    }
}

/// `a` and `b` carry the same amount per tick: the canonical measure that
/// rate conversion preserves.
pub open spec fn spec_amount_eq(a: FlowV, b: FlowV) -> bool {
    a.amount.num * rate_ticks(b.rate) * b.amount.den == b.amount.num * rate_ticks(a.rate)
        * a.amount.den
}

/// `a` carries strictly less per tick than `b`.
pub open spec fn spec_amount_lt(a: FlowV, b: FlowV) -> bool {
    a.amount.num * rate_ticks(b.rate) * b.amount.den < b.amount.num * rate_ticks(a.rate)
        * a.amount.den
}

/// `a` carries at most as much per tick as `b`.
pub open spec fn spec_amount_le(a: FlowV, b: FlowV) -> bool {
    a.amount.num * rate_ticks(b.rate) * b.amount.den <= b.amount.num * rate_ticks(a.rate)
        * a.amount.den
}

/// Mirror of [`ResourceFlow::div`]: the dimensionless ratio of two flows of
/// one resource, both re-expressed at the coarser of the two rates.
pub open spec fn spec_flow_div(a: FlowV, b: FlowV) -> Result<Frac, FlowError> {
    if a.resource != b.resource {
        Err(FlowError { error_type: FlowErrorType::WrongResourceType })
    } else if a.rate == b.rate {
        match spec_frac_div(a.amount, b.amount) {
            Some(q) => Ok(q),
            None => Err(FlowError { error_type: FlowErrorType::AmountOverflow }),
        }
    } else if rate_ord(a.rate) > rate_ord(b.rate) {
        match spec_convert_amount(b, a.rate) {
            Ok(cb) => match spec_frac_div(a.amount, cb) {
                Some(q) => Ok(q),
                None => Err(FlowError { error_type: FlowErrorType::AmountOverflow }),
            },
            Err(e) => Err(e),
        }
    } else {
        match spec_convert_amount(a, b.rate) {
            Ok(ca) => match spec_frac_div(ca, b.amount) {
                Some(q) => Ok(q),
                None => Err(FlowError { error_type: FlowErrorType::AmountOverflow }),
            },
            Err(e) => Err(e),
        }
    }
}

/// Mirror of the raising loop of [`ResourceFlow::convert_time_base`]: while
/// the amount is below one and the rate below `Hour`, re-express the amount
/// per the next coarser rate.  Returns the final amount and rate, and the
/// error when a scaled amount stopped being representable.
pub open spec fn spec_raise(amount: Frac, rate: RatePer) -> (Frac, RatePer, Option<FlowError>)
    decreases 3 - rate_ord(rate),
{
    if amount.spec_lt(Frac { num: 1u32, den: 1u32 }) && rate != RatePer::Hour {
        let next = spec_rate_next(rate);
        match spec_frac_scale(amount, spec_factor(rate, next)) {
            Some(a2) => spec_raise(a2, next),
            None => (amount, rate, Some(FlowError { error_type: FlowErrorType::AmountOverflow })),
        }
    } else {
        (amount, rate, None)
    }
}

/// Mirror of [`ResourceFlow::convert_time_base`]: the flow with its amount
/// re-derived as `amount_per_cycle / cycle_length` per `time` and then
/// raised while below one, together with the error of a failed step.
pub open spec fn spec_convert_time_base(f: FlowV, cycle_length: usize, time: RatePer) -> (
    FlowV,
    Option<FlowError>,
) {
    if cycle_length == 0 || cycle_length > u32::MAX || f.amount_per_cycle > u32::MAX {
        (f, Some(FlowError { error_type: FlowErrorType::AmountOverflow }))
    } else {
        let (amount, rate, err) = spec_raise(
            Frac { num: f.amount_per_cycle as u32, den: cycle_length as u32 },
            time,
        );
        (FlowV { amount, rate, ..f }, err)
    }
}

/// The next coarser rate (`Hour` maps to itself).
pub open spec fn spec_rate_next(rate: RatePer) -> RatePer {
    match rate {
        RatePer::Tick => RatePer::Second,
        RatePer::Second => RatePer::Minute,
        RatePer::Minute => RatePer::Hour,
        RatePer::Hour => RatePer::Hour,
    }
}

impl ResourceFlow {
    /// A flow of `amount` of `resource` per `rate`, with `amount_per_cycle`
    /// consumed or produced each recipe cycle.
    pub fn new(
        resource: &ResourceDefinition,
        amount_per_cycle: usize,
        amount: Frac,
        rate: RatePer,
    ) -> (r: ResourceFlow)
        ensures
            r@ == (FlowV { resource: resource@, amount_per_cycle, amount, rate }),
    {
        Self { resource: resource.clone(), amount_per_cycle, amount, rate }
    }

    /// The zero flow of `resource` per `rate`.
    pub fn empty(resource: &ResourceDefinition, rate: RatePer) -> (r: ResourceFlow)
        ensures
            r@ == (FlowV {
                resource: resource@,
                amount_per_cycle: 0usize,
                amount: Frac { num: 0u32, den: 1u32 },
                rate,
            }),
    {
        Self::new(resource, 0, Frac::zero(), rate)
    }

    /// The amount this flow has per the coarser rate `rate`; an error when
    /// `rate` is finer than the flow's own rate (to avoid losing precision)
    /// or when the scaled amount does not fit the representation.
    pub fn convert_amount(&self, rate: RatePer) -> (r: Result<Frac, FlowError>)
        requires
            self@.wf(),
        ensures
            r == spec_convert_amount(self@, rate),
            rate_ord(rate) < rate_ord(self@.rate) <==> r == Err::<Frac, FlowError>(FlowError {
                error_type: FlowErrorType::RateTooLowConversion(self@.rate, rate),
            }),
            r matches Ok(a) ==> a.wf() && a.num == self@.amount.num * spec_factor(self@.rate, rate)
                && a.den == self@.amount.den,
    {
        if rate.level() < self.rate.level() {
            return Err(FlowError::new(FlowErrorType::RateTooLowConversion(self.rate, rate)));
        }
        let k = self.rate.factor_to(rate);
        proof {
            assert(spec_factor(self@.rate, rate) * rate_ticks(self@.rate) == rate_ticks(rate));
            assert(k * rate_ticks(self@.rate) == rate_ticks(rate));
            assert(k == spec_factor(self@.rate, rate)) by (nonlinear_arith)
                requires
                    k * rate_ticks(self@.rate) == spec_factor(self@.rate, rate) * rate_ticks(
                        self@.rate,
                    ),
                    rate_ticks(self@.rate) > 0,
            ;
        }
        match self.amount.checked_scale(k) {
            Some(a) => Ok(a),
            None => Err(FlowError::new(FlowErrorType::AmountOverflow)),
        }
    }

    /// Re-express this flow per the coarser rate `rate`; on an error the
    /// flow is left unchanged.
    pub fn convert(&mut self, rate: RatePer) -> (r: Result<(), FlowError>)
        requires
            old(self)@.wf(),
        ensures
            r matches Ok(()) ==> spec_convert_amount(old(self)@, rate) matches Ok(a)
                && final(self)@ == (FlowV { amount: a, rate, ..old(self)@ }),
            r matches Err(e) ==> spec_convert_amount(old(self)@, rate) == Err::<Frac, FlowError>(e)
                && final(self)@ == old(self)@,
            final(self)@.wf(),
    {
        match self.convert_amount(rate) {
            Ok(amount) => {
                self.rate = rate;
                self.amount = amount;
                Ok(())
            },
            Err(e) => Err(e),
        }
    }

    /// Merge `other` into this flow, per [`spec_flow_add`]: flows of a
    /// different resource are ignored, and a finer-rated side is first
    /// converted up to the coarser rate.
    pub fn add(&mut self, other: &ResourceFlow)
        requires
            old(self)@.wf(),
            other@.wf(),
        ensures
            final(self)@ == spec_flow_add(old(self)@, other@),
            final(self)@.wf(),
    {
        if !(self.resource == other.resource) {
            return;
        }
        if self.rate == other.rate {
            if let Some(s) = self.amount.checked_add(&other.amount) {
                self.amount = s;
            }
        } else if self.rate.level() > other.rate.level() {
            match other.convert_amount(self.rate) {
                Ok(cb) => {
                    if let Some(s) = self.amount.checked_add(&cb) {
                        self.amount = s;
                    }
                },
                Err(_) => {},
            }
        } else {
            match self.convert_amount(other.rate) {
                Ok(ca) => {
                    if let Some(s) = ca.checked_add(&other.amount) {
                        self.amount = s;
                        self.rate = other.rate;
                    }
                },
                Err(_) => {},
            }
        }
    }

    /// Compare two flows by their amount per tick; `None` when they are
    /// flows of different resources.
    pub fn partial_cmp(&self, other: &ResourceFlow) -> (r: Option<FlowCmp>)
        requires
            self@.wf(),
            other@.wf(),
        ensures
            r is None <==> self@.resource != other@.resource,
            r == Some(FlowCmp::Less) <==> self@.resource == other@.resource && spec_amount_lt(
                self@,
                other@,
            ),
            r == Some(FlowCmp::Equal) <==> self@.resource == other@.resource && spec_amount_eq(
                self@,
                other@,
            ),
            r == Some(FlowCmp::Greater) <==> self@.resource == other@.resource && !spec_amount_le(
                self@,
                other@,
            ),
    {
        if !(self.resource == other.resource) {
            return None;
        }
        proof {
            crate::frac::lemma_mul3_fits(
                self@.amount.num as int,
                rate_ticks(other@.rate),
                other@.amount.den as int,
            );
            crate::frac::lemma_mul3_fits(
                other@.amount.num as int,
                rate_ticks(self@.rate),
                self@.amount.den as int,
            );
        }
        let lhs = (self.amount.num as u128) * (rate_ticks_of(other.rate) as u128) * (other
            .amount
            .den as u128);
        let rhs = (other.amount.num as u128) * (rate_ticks_of(self.rate) as u128) * (self
            .amount
            .den as u128);
        if lhs < rhs {
            Some(FlowCmp::Less)
        } else if lhs == rhs {
            Some(FlowCmp::Equal)
        } else {
            Some(FlowCmp::Greater)
        }
    }

    /// The dimensionless ratio `self / other` of two flows of one resource,
    /// both taken at the coarser of the two rates.
    pub fn div(&self, other: &ResourceFlow) -> (r: Result<Frac, FlowError>)
        requires
            self@.wf(),
            other@.wf(),
        ensures
            r == spec_flow_div(self@, other@),
            self@.resource != other@.resource <==> r == Err::<Frac, FlowError>(FlowError {
                error_type: FlowErrorType::WrongResourceType,
            }),
            r matches Ok(q) ==> q.wf(),
    {
        if !(self.resource == other.resource) {
            return Err(FlowError::new(FlowErrorType::WrongResourceType));
        }
        if self.rate == other.rate {
            match self.amount.checked_div(&other.amount) {
                Some(q) => Ok(q),
                None => Err(FlowError::new(FlowErrorType::AmountOverflow)),
            }
        } else if self.rate.level() > other.rate.level() {
            match other.convert_amount(self.rate) {
                Ok(cb) => match self.amount.checked_div(&cb) {
                    Some(q) => Ok(q),
                    None => Err(FlowError::new(FlowErrorType::AmountOverflow)),
                },
                Err(e) => Err(e),
            }
        } else {
            match self.convert_amount(other.rate) {
                Ok(ca) => match ca.checked_div(&other.amount) {
                    Some(q) => Ok(q),
                    None => Err(FlowError::new(FlowErrorType::AmountOverflow)),
                },
                Err(e) => Err(e),
            }
        }
    }

    /// Re-derive the amount as `amount_per_cycle / cycle_length` per `time`,
    /// then walk the rate upward while the amount is below one (to keep the
    /// displayed numbers readable), never passing `Hour`.
    pub fn convert_time_base(&mut self, cycle_length: usize, time: RatePer) -> (r: Result<
        (),
        FlowError,
    >)
        requires
            old(self)@.wf(),
        ensures
            cycle_length == 0 || cycle_length > u32::MAX || old(self)@.amount_per_cycle
                > u32::MAX ==> r == Err::<(), FlowError>(FlowError {
                error_type: FlowErrorType::AmountOverflow,
            }) && final(self)@ == old(self)@,
            0 < cycle_length <= u32::MAX && old(self)@.amount_per_cycle <= u32::MAX ==> ({
                let start = Frac { num: old(self)@.amount_per_cycle as u32, den: cycle_length as u32 };
                let (amount, rate, err) = spec_raise(start, time);
                final(self)@ == (FlowV { amount, rate, ..old(self)@ }) && (match err {
                    Some(e) => r == Err::<(), FlowError>(e),
                    None => r == Ok::<(), FlowError>(()),
                })
            }),
            final(self)@.wf(),
            ({
                let (nf, err) = spec_convert_time_base(old(self)@, cycle_length, time);
                final(self)@ == nf && (match err {
                    Some(e) => r == Err::<(), FlowError>(e),
                    None => r == Ok::<(), FlowError>(()),
                })
            }),
    {
        if cycle_length == 0 || cycle_length > u32::MAX as usize || self.amount_per_cycle
            > u32::MAX as usize {
            return Err(FlowError::new(FlowErrorType::AmountOverflow));
        }
        self.rate = time;
        self.amount = Frac::new(self.amount_per_cycle as u32, cycle_length as u32);
        while self.amount.lt_one() && !(self.rate == RatePer::Hour)
            invariant
                self@.wf(),
                0 < cycle_length <= u32::MAX,
                old(self)@.amount_per_cycle <= u32::MAX,
                self@.resource == old(self)@.resource,
                self@.amount_per_cycle == old(self)@.amount_per_cycle,
                spec_raise(self@.amount, self@.rate) == spec_raise(
                    Frac { num: old(self)@.amount_per_cycle as u32, den: cycle_length as u32 },
                    time,
                ),
            decreases 3 - rate_ord(self@.rate),
        {
            let next = self.rate.next();
            match self.convert(next) {
                Ok(()) => {},
                Err(e) => {
                    return Err(e);
                },
            }
        }
        Ok(())
    }
}

/// Walking a tick-rated flow up the whole rate ladder scales its amount by
/// exactly the conversion constants: by 20 to seconds, by 60 more to
/// minutes, and by 60 more to hours; one direct conversion to hours scales
/// by their product 72000, so the two paths agree.
pub proof fn lemma_rate_conversion_round_trip(f: FlowV)
    requires
        f.wf(),
        f.rate == RatePer::Tick,
        f.amount.num * 72000 <= u32::MAX,
    ensures
        spec_convert_amount(f, RatePer::Second) == Ok::<Frac, FlowError>(Frac {
            num: (f.amount.num * 20) as u32,
            den: f.amount.den,
        }),
        ({
            let f1 = FlowV { amount: Frac { num: (f.amount.num * 20) as u32, den: f.amount.den },
                rate: RatePer::Second, ..f };
            spec_convert_amount(f1, RatePer::Minute) == Ok::<Frac, FlowError>(Frac {
                num: (f.amount.num * 20 * 60) as u32,
                den: f.amount.den,
            })
        }),
        ({
            let f2 = FlowV { amount: Frac {
                num: (f.amount.num * 20 * 60) as u32,
                den: f.amount.den,
            }, rate: RatePer::Minute, ..f };
            spec_convert_amount(f2, RatePer::Hour) == Ok::<Frac, FlowError>(Frac {
                num: (f.amount.num * 20 * 60 * 60) as u32,
                den: f.amount.den,
            })
        }),
        spec_convert_amount(f, RatePer::Hour) == Ok::<Frac, FlowError>(Frac {
            num: (f.amount.num * 72000) as u32,
            den: f.amount.den,
        }),
{
    assert(f.amount.num * 20 * 60 == f.amount.num * 1200) by (nonlinear_arith);
    assert(f.amount.num * 20 * 60 * 60 == f.amount.num * 72000) by (nonlinear_arith);
    assert(f.amount.num * 20 <= f.amount.num * 72000) by (nonlinear_arith);
    assert(f.amount.num * 1200 <= f.amount.num * 72000) by (nonlinear_arith);
}

/// A conversion down to a finer rate always fails with
/// `RateTooLowConversion`, carrying the flow's own rate and the requested
/// one.
pub proof fn lemma_rate_conversion_downward(f: FlowV, rate: RatePer)
    requires
        rate_ord(rate) < rate_ord(f.rate),
    ensures
        spec_convert_amount(f, rate) == Err::<Frac, FlowError>(FlowError {
            error_type: FlowErrorType::RateTooLowConversion(f.rate, rate),
        }),
{
}

/// Merging preserves well-formedness, the resource, and the amount per
/// cycle of the flow merged into.
pub proof fn lemma_flow_add_props(a: FlowV, b: FlowV)
    requires
        a.wf(),
        b.wf(),
    ensures
        spec_flow_add(a, b).wf(),
        spec_flow_add(a, b).resource == a.resource,
        spec_flow_add(a, b).amount_per_cycle == a.amount_per_cycle,
{
    crate::frac::lemma_mul_u32_fits(a.amount.den as int, b.amount.den as int);
    crate::frac::lemma_mul_u32_fits(b.amount.den as int, a.amount.den as int);
}

/// The number of ticks in one unit of the rate, as an executable value.
pub fn rate_ticks_of(r: RatePer) -> (n: u32)
    ensures
        n == rate_ticks(r),
{
    match r {
        RatePer::Tick => 1,
        RatePer::Second => 20,
        RatePer::Minute => 1200,
        RatePer::Hour => 72000,
    }
}

} // verus!
