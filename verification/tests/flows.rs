//! Flows, rate conversions, ports, and edges.

use factory_management_utils::arrow_flow::{ArrowFlow, ArrowUsageState};
use factory_management_utils::frac::Frac;
use factory_management_utils::ports::{RecipeInputResource, RecipeOutputResource};
use factory_management_utils::recipe_window::RecipeWindowType;
use factory_management_utils::resource_flow::ResourceFlow;
use factory_management_utils::resources::{FlowErrorType, RatePer, ResourceDefinition, Unit};

fn resource(name: &str) -> ResourceDefinition {
    ResourceDefinition {
        name: name.to_string(),
        unit: Unit::Piece,
    }
}

#[test]
fn conversion_round_trip_scales_by_constants() {
    let r = resource("A");
    let mut f = ResourceFlow::new(&r, 1, Frac::new(3, 1), RatePer::Tick);
    let s = f.convert_amount(RatePer::Second).unwrap();
    assert_eq!(s, Frac::new(60, 1));
    f.convert(RatePer::Second).unwrap();
    let m = f.convert_amount(RatePer::Minute).unwrap();
    assert_eq!(m, Frac::new(3600, 1));
    f.convert(RatePer::Minute).unwrap();
    let h = f.convert_amount(RatePer::Hour).unwrap();
    assert_eq!(h, Frac::new(216000, 1));
    // One direct conversion scales by the product 20 * 60 * 60.
    let g = ResourceFlow::new(&r, 1, Frac::new(3, 1), RatePer::Tick);
    assert_eq!(g.convert_amount(RatePer::Hour).unwrap(), Frac::new(216000, 1));
}

#[test]
fn conversion_downward_fails() {
    let r = resource("A");
    let f = ResourceFlow::new(&r, 1, Frac::new(3, 1), RatePer::Minute);
    let e = f.convert_amount(RatePer::Second).unwrap_err();
    assert_eq!(
        e.error_type,
        FlowErrorType::RateTooLowConversion(RatePer::Minute, RatePer::Second)
    );
    let e2 = f.convert_amount(RatePer::Tick).unwrap_err();
    assert_eq!(
        e2.error_type,
        FlowErrorType::RateTooLowConversion(RatePer::Minute, RatePer::Tick)
    );
}

#[test]
fn conversion_overflow_is_reported() {
    let r = resource("A");
    let f = ResourceFlow::new(&r, 1, Frac::new(u32::MAX, 1), RatePer::Tick);
    let e = f.convert_amount(RatePer::Hour).unwrap_err();
    assert_eq!(e.error_type, FlowErrorType::AmountOverflow);
}

#[test]
fn add_merges_same_resource_and_skips_other() {
    let a = resource("A");
    let b = resource("B");
    let mut f = ResourceFlow::new(&a, 1, Frac::new(2, 1), RatePer::Minute);
    f.add(&ResourceFlow::new(&a, 1, Frac::new(3, 1), RatePer::Minute));
    assert_eq!(f.amount, Frac::new(5, 1));
    f.add(&ResourceFlow::new(&b, 1, Frac::new(7, 1), RatePer::Minute));
    assert_eq!(f.amount, Frac::new(5, 1));
    // A finer-rated flow converts up before merging: 1/s is 60/min.
    f.add(&ResourceFlow::new(&a, 1, Frac::new(1, 1), RatePer::Second));
    assert_eq!(f.amount, Frac::new(65, 1));
}

#[test]
fn div_of_wrong_resource_fails() {
    let a = resource("A");
    let b = resource("B");
    let fa = ResourceFlow::new(&a, 1, Frac::new(2, 1), RatePer::Minute);
    let fb = ResourceFlow::new(&b, 1, Frac::new(4, 1), RatePer::Minute);
    let e = fa.div(&fb).unwrap_err();
    assert_eq!(e.error_type, FlowErrorType::WrongResourceType);
    let q = fa.div(&fa.clone()).unwrap();
    assert!(q.eq_value(&Frac::one()));
}

#[test]
fn convert_time_base_raises_small_amounts() {
    let r = resource("A");
    let mut f = ResourceFlow::new(&r, 2, Frac::new(1, 1), RatePer::Second);
    // 2 per cycle over a 240 second cycle: 1/120 per second, raised to
    // 1/2 per minute, both below one, landing at 30 per hour.
    f.convert_time_base(240, RatePer::Second).unwrap();
    assert_eq!(f.rate, RatePer::Hour);
    assert!(f.amount.eq_value(&Frac::new(30, 1)));
}

#[test]
fn port_reset_then_readd_restores_totals() {
    let a = resource("A");
    let needed = ResourceFlow::new(&a, 2, Frac::new(2, 1), RatePer::Minute);
    let mut port = RecipeInputResource::new(a.clone(), needed);
    let f1 = ResourceFlow::new(&a, 1, Frac::new(1, 1), RatePer::Minute);
    let f2 = ResourceFlow::new(&a, 1, Frac::new(1, 2), RatePer::Minute);
    assert!(port.add_in_flow(f1.clone()));
    assert!(port.add_in_flow(f2.clone()));
    let before = port.total_in();
    port.reset();
    assert!(port.total_in().amount.eq_value(&Frac::zero()));
    assert!(port.add_in_flow(f1));
    assert!(port.add_in_flow(f2));
    let after = port.total_in();
    assert_eq!(before.amount, after.amount);
    assert_eq!(before.rate, after.rate);
    assert!(after.amount.eq_value(&Frac::new(3, 2)));
}

#[test]
fn output_port_reset_then_readd_restores_totals() {
    let a = resource("A");
    let created = ResourceFlow::new(&a, 2, Frac::new(2, 1), RatePer::Minute);
    let mut port = RecipeOutputResource::new(a.clone(), created);
    let f1 = ResourceFlow::new(&a, 1, Frac::new(1, 1), RatePer::Minute);
    assert!(port.add_out_flow(f1.clone()));
    let before = port.total_out();
    port.reset();
    assert!(port.add_out_flow(f1));
    let after = port.total_out();
    assert_eq!(before.amount, after.amount);
    assert_eq!(before.rate, after.rate);
    assert!(port.is_enough());
}

#[test]
fn port_refuses_foreign_resource() {
    let a = resource("A");
    let b = resource("B");
    let needed = ResourceFlow::new(&a, 2, Frac::new(2, 1), RatePer::Minute);
    let mut port = RecipeInputResource::new(a, needed);
    let foreign = ResourceFlow::new(&b, 1, Frac::new(1, 1), RatePer::Minute);
    assert!(!port.add_in_flow(foreign));
    assert!(!port.is_connected());
}

#[test]
fn sufficiency_thresholds() {
    let a = resource("A");
    let needed = ResourceFlow::new(&a, 2, Frac::new(2, 1), RatePer::Minute);
    let mut port = RecipeInputResource::new(a.clone(), needed);
    assert!(!port.is_enough());
    assert!(port.add_in_flow(ResourceFlow::new(&a, 1, Frac::new(2, 1), RatePer::Minute)));
    assert!(port.is_enough());
    assert!(!port.is_more_than_enough());
    assert!(port.add_in_flow(ResourceFlow::new(&a, 1, Frac::new(1, 10), RatePer::Minute)));
    assert!(port.is_more_than_enough());
}

#[test]
fn anchoring_wrong_resource_leaves_edge_unanchored() {
    let a = resource("A");
    let b = resource("B");
    let mut arrow = ArrowFlow::new(a.clone(), 1, RecipeWindowType::Source, 0);
    let err = arrow
        .put_end(Some(b), 2, RecipeWindowType::Sink, 0)
        .unwrap_err();
    assert_eq!(err.error_type, FlowErrorType::WrongResourceType);
    assert!(arrow.end_flow_window.is_none());
    assert!(arrow.end_flow_type.is_none());
    assert_eq!(arrow.state, ArrowUsageState::Active);
    // Anchoring with the matching resource succeeds.
    arrow.put_end(Some(a), 2, RecipeWindowType::Sink, 0).unwrap();
    assert_eq!(arrow.end_flow_window, Some(2));
    assert_eq!(arrow.state, ArrowUsageState::Anchored);
}

#[test]
fn split_string_shows_amount_and_rate() {
    let a = resource("Resource A");
    let needed = ResourceFlow::new(&a, 2, Frac::new(2, 1), RatePer::Minute);
    let port = RecipeInputResource::new(a.clone(), needed);
    let (name, per_cycle, per_time) = port.to_split_string();
    assert_eq!(name, "Resource A");
    assert_eq!(per_cycle, "2");
    assert_eq!(per_time, "2.00/min");
    assert_eq!(port.to_string(), "Resource A: 2||2.00/min");
    let created = ResourceFlow::new(&a, 3, Frac::new(3, 2), RatePer::Second);
    let out = RecipeOutputResource::new(a, created);
    let parts = out.to_split_string();
    assert_eq!(parts.1, "3");
    assert_eq!(parts.2, "1.50/s");
}

#[test]
fn flow_error_strings() {
    let e = factory_management_utils::resources::FlowError::new(FlowErrorType::WrongResourceType);
    assert!(!e.str().is_empty());
    assert_eq!(RatePer::Tick.next(), RatePer::Second);
    assert_eq!(RatePer::Minute.to_shortened_string(), "/min");
    let se = factory_management_utils::error::ShowError::new("boom".to_string());
    assert_eq!(se.error, "boom");
    assert_eq!(se.context, "An error occurred");
    let sc = factory_management_utils::error::ShowError::new_custom_context(
        "boom".to_string(),
        "ctx".to_string(),
    );
    assert_eq!(sc.context, "ctx");
}
