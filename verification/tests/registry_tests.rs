use code_metrics::ast::Attribute;
use code_metrics::ast::ExprKind;
use code_metrics::ast::Node;
use code_metrics::ast::VariantDecl;
use code_metrics::basic_enums;
use code_metrics::collector::AggregateResult;
use code_metrics::collector::MetricCollectorBox;
use code_metrics::collector::Registry;
use code_metrics::collector::get_metric_collectors;
use code_metrics::stmt_size;

fn expr(children: Vec<Node>) -> Node {
    Node::Expression { kind: ExprKind::Plain, children }
}

fn conditional(children: Vec<Node>) -> Node {
    Node::Expression { kind: ExprKind::If, children }
}

fn function(name: &str, params: Vec<&str>, body: Vec<Node>) -> Node {
    Node::FunctionDecl {
        name: name.to_string(),
        params: params.iter().map(|p| p.to_string()).collect(),
        body,
    }
}

fn hist(result: &AggregateResult) -> (u128, usize, Option<u64>) {
    match result {
        AggregateResult::Hist(s) => (s.sum, s.count, s.mode),
        AggregateResult::EnumShape { .. } => panic!("expected a single histogram"),
    }
}

#[test]
fn default_collector_names() {
    let collectors = get_metric_collectors();
    let names: Vec<&str> = collectors.iter().map(|c| c.name()).collect();
    assert_eq!(
        names,
        vec![
            "fn_depth",
            "if_count",
            "fn_args_avg",
            "fn_args_hist",
            "struct_attrs",
            "enum_variants"
        ]
    );
    assert_eq!(basic_enums::make_collector().name(), "enums");
    assert_eq!(stmt_size::make_collector().name(), "statement_size");
}

#[test]
fn registry_runs_every_collector() {
    let unit = Node::Module {
        items: vec![
            Node::EnumDecl {
                attrs: vec![Attribute { name: "derive".to_string() }],
                variants: vec![
                    VariantDecl { name: "A".to_string(), attrs: vec![] },
                    VariantDecl { name: "B".to_string(), attrs: vec![] },
                ],
            },
            function(
                "main",
                vec!["x", "y"],
                vec![Node::Statement { children: vec![conditional(vec![expr(vec![])])] }],
            ),
        ],
    };
    let units = vec![unit];

    let mut registry = Registry::new();
    registry.register(basic_enums::make_collector());
    registry.register(stmt_size::make_collector());
    for c in get_metric_collectors() {
        registry.register(c);
    }
    assert_eq!(registry.list_collectors().len(), 8);

    let results = registry.collect(&units);
    assert_eq!(results.len(), 8);

    assert_eq!(results[0].0, "enums");
    match &results[0].1 {
        AggregateResult::EnumShape { variant_count, attr_count, variant_attr_count } => {
            assert_eq!(variant_count.sum, 2u128);
            assert_eq!(variant_count.mode, Some(2));
            assert_eq!(attr_count.sum, 1u128);
            assert_eq!(variant_attr_count.sum, 0u128);
            assert_eq!(variant_attr_count.count, 2usize);
        },
        AggregateResult::Hist(_) => panic!("expected the enum shape aggregate"),
    }

    // One statement holding two expressions (the conditional and its child).
    assert_eq!(results[1].0, "statement_size");
    assert_eq!(hist(&results[1].1), (2u128, 1usize, Some(2)));

    // One function at nesting depth zero.
    assert_eq!(results[2].0, "fn_depth");
    assert_eq!(hist(&results[2].1), (0u128, 1usize, Some(0)));

    // One conditional in the single unit.
    assert_eq!(results[3].0, "if_count");
    assert_eq!(hist(&results[3].1), (1u128, 1usize, Some(1)));

    // The function takes two arguments.
    assert_eq!(results[4].0, "fn_args_avg");
    assert_eq!(hist(&results[4].1), (2u128, 1usize, Some(2)));
    assert_eq!(results[5].0, "fn_args_hist");
    assert_eq!(hist(&results[5].1), (2u128, 1usize, Some(2)));

    // No structs; one enum of two variants.
    assert_eq!(results[6].0, "struct_attrs");
    assert_eq!(hist(&results[6].1), (0u128, 0usize, None));
    assert_eq!(results[7].0, "enum_variants");
    assert_eq!(hist(&results[7].1), (2u128, 1usize, Some(2)));
}

#[test]
fn empty_input_is_valid() {
    let units: Vec<Node> = vec![];
    let c = basic_enums::make_collector();
    match c.collect(&units) {
        AggregateResult::EnumShape { variant_count, .. } => {
            assert_eq!(variant_count.sum, 0u128);
            assert_eq!(variant_count.count, 0usize);
            assert_eq!(variant_count.mode, None);
        },
        AggregateResult::Hist(_) => panic!("expected the enum shape aggregate"),
    }
    let (sum, count, mode) = hist(&stmt_size::make_collector().collect(&units));
    assert_eq!((sum, count, mode), (0u128, 0usize, None));
}

#[test]
fn argument_counts_are_bucketed() {
    let params: Vec<&str> = (0..20).map(|_| "p").collect();
    let unit = Node::Module { items: vec![function("wide", params, vec![])] };
    let units = vec![unit];

    let (avg_sum, _, _) = hist(&MetricCollectorBox::FnArgsAvg.collect(&units));
    assert_eq!(avg_sum, 20u128);

    let (hist_sum, _, hist_mode) = hist(&MetricCollectorBox::FnArgsHist.collect(&units));
    assert_eq!(hist_sum, 16u128);
    assert_eq!(hist_mode, Some(16));
}

#[test]
fn nested_functions_observe_their_depth() {
    let inner = function("inner", vec![], vec![]);
    let outer = function(
        "outer",
        vec![],
        vec![Node::Statement { children: vec![inner] }],
    );
    let units = vec![Node::Module { items: vec![outer] }];
    let (sum, count, mode) = hist(&MetricCollectorBox::FnDepth.collect(&units));
    assert_eq!(sum, 1u128);
    assert_eq!(count, 2usize);
    assert_eq!(mode, Some(1));
}

#[test]
fn if_count_is_per_unit() {
    let unit1 = Node::Module {
        items: vec![function(
            "a",
            vec![],
            vec![Node::Statement { children: vec![conditional(vec![]), conditional(vec![])] }],
        )],
    };
    let unit2 = Node::Module { items: vec![] };
    let units = vec![unit1, unit2];
    let (sum, count, mode) = hist(&MetricCollectorBox::IfCount.collect(&units));
    assert_eq!(sum, 2u128);
    assert_eq!(count, 2usize);
    // Counts 2 and 0 tie on frequency; the tie goes to the larger value.
    assert_eq!(mode, Some(2));
}
