//! End-to-end solver scenarios: forward propagation, rate-limited sources,
//! compound nesting, and back-propagation.

use factory_management_utils::compound_recipe_window::CompoundRecipeWindow;
use factory_management_utils::arrow_flow::ArrowFlow;
use factory_management_utils::frac::Frac;
use factory_management_utils::ports::{ManageFlow, RecipeInputResource};
use factory_management_utils::recipe_graph::RecipeGraph;
use factory_management_utils::recipe_window::{RecipeWindowType, SimpleRecipeWindow};
use factory_management_utils::resource_flow::ResourceFlow;
use factory_management_utils::resource_sink::ResourceSink;
use factory_management_utils::resources_sources::ResourceSource;
use factory_management_utils::resources::{RatePer, ResourceDefinition, Unit};

fn resource(name: &str) -> ResourceDefinition {
    ResourceDefinition {
        name: name.to_string(),
        unit: Unit::Piece,
    }
}

/// A recipe with one input port and one output port.
fn one_to_one_recipe(
    in_name: &str,
    in_amount: u32,
    out_name: &str,
    out_amount: u32,
    rate: RatePer,
    id: u64,
) -> SimpleRecipeWindow {
    let out_res = resource(out_name);
    let out_flow = ResourceFlow::new(
        &out_res,
        out_amount as usize,
        Frac::new(out_amount, 1),
        rate,
    );
    let mut w = SimpleRecipeWindow::new_with_custom_output(out_flow, id);
    let in_res = resource(in_name);
    let in_flow = ResourceFlow::new(&in_res, in_amount as usize, Frac::new(in_amount, 1), rate);
    w.inner_recipe
        .inputs
        .push(ManageFlow::RecipeInput(RecipeInputResource::new(
            in_res, in_flow,
        )));
    w
}

/// The expected totals of one scenario: `(resource name, amount, rate)` for
/// every source (its recorded outflow) and every sink (its recorded
/// inflow).
struct Expected {
    inputs: Vec<(String, Frac, RatePer)>,
    outputs: Vec<(String, Frac, RatePer)>,
}

fn check_graph(name: &str, graph: &mut RecipeGraph, expected: &Expected) {
    graph.calculate();
    assert_eq!(
        graph.sources.len(),
        expected.inputs.len(),
        "{name}: source count"
    );
    for (source, (res, amount, rate)) in graph.sources.iter().zip(expected.inputs.iter()) {
        let flow = source.output.total_out();
        assert_eq!(&flow.resource.name, res, "{name}: input resource");
        assert!(
            flow.amount.eq_value(amount),
            "{name}: input amount {}/{} expected {}/{}",
            flow.amount.num,
            flow.amount.den,
            amount.num,
            amount.den
        );
        assert_eq!(flow.rate, *rate, "{name}: input rate");
    }
    assert_eq!(
        graph.sinks.len(),
        expected.outputs.len(),
        "{name}: sink count"
    );
    for (sink, (res, amount, rate)) in graph.sinks.iter().zip(expected.outputs.iter()) {
        let flow = sink.sink.as_ref().expect("no data in the resource").total_in();
        assert_eq!(&flow.resource.name, res, "{name}: output resource");
        assert!(
            flow.amount.eq_value(amount),
            "{name}: output amount {}/{} expected {}/{}",
            flow.amount.num,
            flow.amount.den,
            amount.num,
            amount.den
        );
        assert_eq!(flow.rate, *rate, "{name}: output rate");
    }
}

/// Source "Resource A" -> recipe (2 "Resource A"/min in, 1 "Resource B"/min
/// out) -> sink.  The recipe's one second cycle re-derives its output to
/// one unit per second.
fn simple_graph() -> RecipeGraph {
    let mut graph = RecipeGraph::new();
    let recipe = one_to_one_recipe("Resource A", 2, "Resource B", 1, RatePer::Minute, 10);
    let sink = ResourceSink::new(20);
    let source = ResourceSource::new("Resource A".to_string(), 30);
    let mut first_arrow = ArrowFlow::new(resource("Resource B"), 10, RecipeWindowType::SimpleRecipe, 0);
    first_arrow
        .put_end(Some(resource("Resource B")), 20, RecipeWindowType::Sink, 0)
        .expect("arrow error");
    let mut second_arrow = ArrowFlow::new(resource("Resource A"), 30, RecipeWindowType::Source, 0);
    second_arrow
        .put_end(
            Some(resource("Resource A")),
            10,
            RecipeWindowType::SimpleRecipe,
            0,
        )
        .expect("arrow error");
    graph.simple_recipes.push(recipe);
    graph.arrows.push(first_arrow);
    graph.arrows.push(second_arrow);
    graph.sources.push(source);
    graph.sinks.push(sink);
    graph
}

/// Same shape, but the source is limited to `2/rate_div` units per minute
/// of "Input Resource", and the recipe yields 3 "Output Resource" per
/// cycle.
fn rate_limited_graph(rate_num: u32, rate_den: u32) -> RecipeGraph {
    let mut graph = RecipeGraph::new();
    let recipe = one_to_one_recipe("Input Resource", 2, "Output Resource", 3, RatePer::Minute, 10);
    let sink = ResourceSink::new(20);
    let source = ResourceSource::limited_source(
        "Input Resource".to_string(),
        Frac::new(rate_num, rate_den),
        RatePer::Minute,
        30,
    );
    let mut first_arrow = ArrowFlow::new(
        resource("Output Resource"),
        10,
        RecipeWindowType::SimpleRecipe,
        0,
    );
    first_arrow
        .put_end(
            Some(resource("Output Resource")),
            20,
            RecipeWindowType::Sink,
            0,
        )
        .expect("arrow error");
    let mut second_arrow = ArrowFlow::new(resource("Input Resource"), 30, RecipeWindowType::Source, 0);
    second_arrow
        .put_end(
            Some(resource("Input Resource")),
            10,
            RecipeWindowType::SimpleRecipe,
            0,
        )
        .expect("arrow error");
    graph.simple_recipes.push(recipe);
    graph.arrows.push(first_arrow);
    graph.arrows.push(second_arrow);
    graph.sources.push(source);
    graph.sinks.push(sink);
    graph
}

/// The one-to-one graph lifted into a compound node, wired between a fresh
/// source and sink.
fn compound_graph(nested: RecipeGraph) -> RecipeGraph {
    let mut graph = RecipeGraph::new();
    let compound = CompoundRecipeWindow::new(nested, 100);
    let sink = ResourceSink::new(120);
    let source = ResourceSource::new("Resource A".to_string(), 130);
    let mut first_arrow = ArrowFlow::new(
        resource("Resource B"),
        100,
        RecipeWindowType::CompoundRecipe,
        0,
    );
    first_arrow
        .put_end(Some(resource("Resource B")), 120, RecipeWindowType::Sink, 0)
        .expect("arrow error");
    let mut second_arrow = ArrowFlow::new(resource("Resource A"), 130, RecipeWindowType::Source, 0);
    second_arrow
        .put_end(
            Some(resource("Resource A")),
            100,
            RecipeWindowType::CompoundRecipe,
            0,
        )
        .expect("arrow error");
    graph.compound_recipes.push(compound);
    graph.arrows.push(first_arrow);
    graph.arrows.push(second_arrow);
    graph.sources.push(source);
    graph.sinks.push(sink);
    graph
}

/// Source -> first recipe (8 in, 4 "Middle Resource"/min out) -> second
/// recipe (2 in, 1 "Output Resource"/min out) -> sink.
fn back_propagation_graph() -> RecipeGraph {
    let mut graph = RecipeGraph::new();
    let second = one_to_one_recipe("Middle Resource", 2, "Output Resource", 1, RatePer::Minute, 10);
    let first = one_to_one_recipe("Input Resource", 8, "Middle Resource", 4, RatePer::Minute, 11);
    let sink = ResourceSink::new(20);
    let source = ResourceSource::new("Input Resource".to_string(), 30);
    let mut first_arrow = ArrowFlow::new(
        resource("Output Resource"),
        10,
        RecipeWindowType::SimpleRecipe,
        0,
    );
    first_arrow
        .put_end(
            Some(resource("Output Resource")),
            20,
            RecipeWindowType::Sink,
            0,
        )
        .expect("arrow error");
    let mut second_arrow = ArrowFlow::new(
        resource("Middle Resource"),
        11,
        RecipeWindowType::SimpleRecipe,
        0,
    );
    second_arrow
        .put_end(
            Some(resource("Middle Resource")),
            10,
            RecipeWindowType::SimpleRecipe,
            0,
        )
        .expect("arrow error");
    let mut third_arrow = ArrowFlow::new(resource("Input Resource"), 30, RecipeWindowType::Source, 0);
    third_arrow
        .put_end(
            Some(resource("Input Resource")),
            11,
            RecipeWindowType::SimpleRecipe,
            0,
        )
        .expect("arrow error");
    graph.simple_recipes.push(second);
    graph.simple_recipes.push(first);
    graph.arrows.push(first_arrow);
    graph.arrows.push(second_arrow);
    graph.arrows.push(third_arrow);
    graph.sources.push(source);
    graph.sinks.push(sink);
    graph
}

#[test]
fn test_calculation() {
    // Empty graph: a pass completes and leaves nothing behind.
    let mut empty = RecipeGraph::new();
    check_graph(
        "empty graph",
        &mut empty,
        &Expected {
            inputs: vec![],
            outputs: vec![],
        },
    );

    // One to one: the source supplies the demanded 2/min, the sink receives
    // the recipe's 1 per one-second cycle.
    check_graph(
        "one to one",
        &mut simple_graph(),
        &Expected {
            inputs: vec![("Resource A".to_string(), Frac::new(2, 1), RatePer::Minute)],
            outputs: vec![("Resource B".to_string(), Frac::new(1, 1), RatePer::Second)],
        },
    );

    // Compound one to one, and one more level of nesting: same totals.
    check_graph(
        "compound one to one",
        &mut compound_graph(simple_graph()),
        &Expected {
            inputs: vec![("Resource A".to_string(), Frac::new(2, 1), RatePer::Minute)],
            outputs: vec![("Resource B".to_string(), Frac::new(1, 1), RatePer::Second)],
        },
    );
    check_graph(
        "compound one to one two levels",
        &mut compound_graph(compound_graph(simple_graph())),
        &Expected {
            inputs: vec![("Resource A".to_string(), Frac::new(2, 1), RatePer::Minute)],
            outputs: vec![("Resource B".to_string(), Frac::new(1, 1), RatePer::Second)],
        },
    );

    // A limit equal to the demand changes nothing.
    check_graph(
        "limited rate, full",
        &mut rate_limited_graph(2, 1),
        &Expected {
            inputs: vec![(
                "Input Resource".to_string(),
                Frac::new(2, 1),
                RatePer::Minute,
            )],
            outputs: vec![(
                "Output Resource".to_string(),
                Frac::new(3, 1),
                RatePer::Second,
            )],
        },
    );

    // Half the demand: both ends scale to exactly half.
    check_graph(
        "limited rate, half",
        &mut rate_limited_graph(1, 1),
        &Expected {
            inputs: vec![(
                "Input Resource".to_string(),
                Frac::new(1, 1),
                RatePer::Minute,
            )],
            outputs: vec![(
                "Output Resource".to_string(),
                Frac::new(3, 2),
                RatePer::Second,
            )],
        },
    );

    // A fifth of the demand.
    check_graph(
        "limited rate, fifth",
        &mut rate_limited_graph(2, 5),
        &Expected {
            inputs: vec![(
                "Input Resource".to_string(),
                Frac::new(2, 5),
                RatePer::Minute,
            )],
            outputs: vec![(
                "Output Resource".to_string(),
                Frac::new(3, 5),
                RatePer::Second,
            )],
        },
    );
}

#[test]
fn test_calculation_back_propagation() {
    // The over-supplied middle edge throttles the first recipe's demand,
    // and the reverse sweep then re-records the source's outflow at the
    // throttled demand 8 * 2/240 = 1/15 per minute.
    let mut graph = back_propagation_graph();
    check_graph(
        "back propagation",
        &mut graph,
        &Expected {
            inputs: vec![(
                "Input Resource".to_string(),
                Frac::new(1, 15),
                RatePer::Minute,
            )],
            outputs: vec![(
                "Output Resource".to_string(),
                Frac::new(1, 1),
                RatePer::Second,
            )],
        },
    );
    // The first recipe fed 4/s = 240/min into a port that needs only
    // 2/min, so its own demand was scaled by 2/240 for the next pass:
    // 8 * 2/240 = 1/15.
    let first = &graph.simple_recipes[1];
    match &first.inner_recipe.inputs[0] {
        ManageFlow::RecipeInput(p) => {
            assert!(p.needed.amount.eq_value(&Frac::new(1, 15)));
        }
        ManageFlow::RecipeOutput(_) => panic!("input port expected"),
    }
}

#[test]
fn test_compound_windows() {
    // A compound recipe exposes one input port per nested source and one
    // output port per nested sink, carrying the nested totals.
    let compound = CompoundRecipeWindow::new(simple_graph(), 100);
    assert_eq!(compound.inner_recipe.inputs.len(), 1);
    assert_eq!(compound.inner_recipe.outputs.len(), 1);
    match &compound.inner_recipe.inputs[0] {
        ManageFlow::RecipeInput(p) => {
            assert_eq!(p.needed.resource.name, "Resource A");
            assert!(p.needed.amount.eq_value(&Frac::new(2, 1)));
            assert_eq!(p.needed.rate, RatePer::Minute);
        }
        ManageFlow::RecipeOutput(_) => panic!("input port expected"),
    }
    match &compound.inner_recipe.outputs[0] {
        ManageFlow::RecipeOutput(p) => {
            assert_eq!(p.created.resource.name, "Resource B");
            assert!(p.created.amount.eq_value(&Frac::new(1, 1)));
            assert_eq!(p.created.rate, RatePer::Second);
        }
        ManageFlow::RecipeInput(_) => panic!("output port expected"),
    }

    // Lifting the two-recipe chain keeps its end-to-end totals.
    let chained = CompoundRecipeWindow::new(back_propagation_graph(), 101);
    assert_eq!(chained.inner_recipe.inputs.len(), 1);
    assert_eq!(chained.inner_recipe.outputs.len(), 1);
    match &chained.inner_recipe.inputs[0] {
        ManageFlow::RecipeInput(p) => {
            assert_eq!(p.needed.resource.name, "Input Resource");
            assert!(p.needed.amount.eq_value(&Frac::new(1, 15)));
        }
        ManageFlow::RecipeOutput(_) => panic!("input port expected"),
    }
    match &chained.inner_recipe.outputs[0] {
        ManageFlow::RecipeOutput(p) => {
            assert_eq!(p.created.resource.name, "Output Resource");
            assert!(p.created.amount.eq_value(&Frac::new(1, 1)));
            assert_eq!(p.created.rate, RatePer::Second);
        }
        ManageFlow::RecipeInput(_) => panic!("output port expected"),
    }
}

#[test]
fn test_throttle_honors_rate_units() {
    // Demand of 2/minute supplied with 30/hour: at a common rate the
    // supply is 30/120 of the demand, so the recipe's 4-per-second output
    // is scaled to exactly 1 per second.
    let mut graph = RecipeGraph::new();
    let recipe = one_to_one_recipe("Input Resource", 2, "Output Resource", 4, RatePer::Minute, 10);
    let sink = ResourceSink::new(20);
    let source = ResourceSource::limited_source(
        "Input Resource".to_string(),
        Frac::new(30, 1),
        RatePer::Hour,
        30,
    );
    let mut first_arrow = ArrowFlow::new(
        resource("Output Resource"),
        10,
        RecipeWindowType::SimpleRecipe,
        0,
    );
    first_arrow
        .put_end(
            Some(resource("Output Resource")),
            20,
            RecipeWindowType::Sink,
            0,
        )
        .expect("arrow error");
    let mut second_arrow = ArrowFlow::new(resource("Input Resource"), 30, RecipeWindowType::Source, 0);
    second_arrow
        .put_end(
            Some(resource("Input Resource")),
            10,
            RecipeWindowType::SimpleRecipe,
            0,
        )
        .expect("arrow error");
    graph.simple_recipes.push(recipe);
    graph.arrows.push(first_arrow);
    graph.arrows.push(second_arrow);
    graph.sources.push(source);
    graph.sinks.push(sink);
    check_graph(
        "mixed rate throttle",
        &mut graph,
        &Expected {
            inputs: vec![("Input Resource".to_string(), Frac::new(30, 1), RatePer::Hour)],
            outputs: vec![(
                "Output Resource".to_string(),
                Frac::new(1, 1),
                RatePer::Second,
            )],
        },
    );
}

#[test]
fn test_graph_clear() {
    let mut graph = simple_graph();
    graph.clear();
    assert!(graph.simple_recipes.is_empty());
    assert!(graph.compound_recipes.is_empty());
    assert!(graph.sources.is_empty());
    assert!(graph.sinks.is_empty());
    assert!(graph.arrows.is_empty());
}

#[test]
fn test_calculate_is_idempotent_on_unchanged_input() {
    // Two passes over the same graph leave identical port contents.
    let mut graph = rate_limited_graph(1, 1);
    graph.calculate();
    let first_out = graph.sinks[0].sink.as_ref().unwrap().total_in();
    let first_in = graph.sources[0].output.total_out();
    graph.calculate();
    let second_out = graph.sinks[0].sink.as_ref().unwrap().total_in();
    let second_in = graph.sources[0].output.total_out();
    assert_eq!(first_out.amount, second_out.amount);
    assert_eq!(first_out.rate, second_out.rate);
    assert_eq!(first_in.amount, second_in.amount);
    assert_eq!(first_in.rate, second_in.rate);
}
