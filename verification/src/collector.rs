//! The metric collector registry: a closed set of collector descriptors,
//! each pairing a traversal-based accumulator with a per-unit extraction
//! step and an associative cross-unit reduction.

use vstd::prelude::*;

use crate::ast::Node;
use crate::ast::node_count;
use crate::basic_enums::Enums;
use crate::basic_enums::enum_observations;
use crate::basic_enums::enum_observations_list;
use crate::basic_enums::lemma_enum_observations_append;
use crate::histogram::Histogram;
use crate::histogram::Snapshot;
use crate::histogram::lemma_merge_commutes;
use crate::histogram::lemma_snapshot_unique;
use crate::histogram::snapshot_matches;
use crate::shape_metrics::DeclMetric;
use crate::shape_metrics::DeclStats;
use crate::shape_metrics::FnDepth;
use crate::shape_metrics::IfCount;
use crate::shape_metrics::decl_observations_list;
use crate::shape_metrics::depth_observations_list;
use crate::shape_metrics::if_unit_observations;
use crate::shape_metrics::lemma_decl_observations_append;
use crate::shape_metrics::lemma_depth_observations_append;
use crate::shape_metrics::lemma_if_unit_observations_append;
use crate::stmt_size::StatementSize;
use crate::stmt_size::lemma_stmt_observations_append;
use crate::stmt_size::stmt_observations_list;

verus! {

/// One registered collector: the descriptor selects which accumulator the
/// registry runs over every source unit.
#[derive(Clone, Copy, PartialEq, Eq, Structural)]
pub enum MetricCollectorBox {
    /// Enum shape statistics: variant, attribute and variant-attribute
    /// counts per enum declaration.
    Enums,
    /// Expressions per statement.
    StatementSize,
    /// Nesting depth of every function declaration.
    FnDepth,
    /// Conditional expressions per source unit.
    IfCount,
    /// Argument count of every function declaration.
    FnArgsAvg,
    /// Argument count of every function declaration, bucketed.
    FnArgsHist,
    /// Attribute count of every struct declaration.
    StructAttrs,
    /// Variant count of every enum declaration.
    EnumVariants,
}

/// One collector's aggregate over all units: a single histogram snapshot,
/// or the enum collector's three.
pub enum AggregateResult {
    /// A single statistic.
    Hist(Snapshot),
    /// The enum collector's three statistics.
    EnumShape { variant_count: Snapshot, attr_count: Snapshot, variant_attr_count: Snapshot },
}

/// The stable name under which a collector reports.
pub open spec fn spec_name(c: MetricCollectorBox) -> Seq<char> {
    match c {
        MetricCollectorBox::Enums => "enums"@,
        MetricCollectorBox::StatementSize => "statement_size"@,
        MetricCollectorBox::FnDepth => "fn_depth"@,
        MetricCollectorBox::IfCount => "if_count"@,
        MetricCollectorBox::FnArgsAvg => "fn_args_avg"@,
        MetricCollectorBox::FnArgsHist => "fn_args_hist"@,
        MetricCollectorBox::StructAttrs => "struct_attrs"@,
        MetricCollectorBox::EnumVariants => "enum_variants"@,
    }
}

/// What a correct aggregate of collector `c` over `units` looks like: the
/// snapshot of exactly the observations that walking every unit yields.
pub open spec fn result_matches(
    c: MetricCollectorBox,
    units: Seq<Node>,
    r: AggregateResult,
) -> bool {
    match c {
        MetricCollectorBox::Enums => match r {
            AggregateResult::EnumShape { variant_count, attr_count, variant_attr_count } => {
                &&& snapshot_matches(enum_observations_list(units).0, variant_count)
                &&& snapshot_matches(enum_observations_list(units).1, attr_count)
                &&& snapshot_matches(enum_observations_list(units).2, variant_attr_count)
            },
            _ => false,
        },
        MetricCollectorBox::StatementSize => match r {
            AggregateResult::Hist(s) => snapshot_matches(stmt_observations_list(units), s),
            _ => false,
        },
        MetricCollectorBox::FnDepth => match r {
            AggregateResult::Hist(s) => snapshot_matches(depth_observations_list(units, 0), s),
            _ => false,
        },
        MetricCollectorBox::IfCount => match r {
            AggregateResult::Hist(s) => snapshot_matches(if_unit_observations(units), s),
            _ => false,
        },
        MetricCollectorBox::FnArgsAvg => match r {
            AggregateResult::Hist(s) => snapshot_matches(
                decl_observations_list(DeclMetric::FnArgsAvg, units),
                s,
            ),
            _ => false,
        },
        MetricCollectorBox::FnArgsHist => match r {
            AggregateResult::Hist(s) => snapshot_matches(
                decl_observations_list(DeclMetric::FnArgsHist, units),
                s,
            ),
            _ => false,
        },
        MetricCollectorBox::StructAttrs => match r {
            AggregateResult::Hist(s) => snapshot_matches(
                decl_observations_list(DeclMetric::StructAttrs, units),
                s,
            ),
            _ => false,
        },
        MetricCollectorBox::EnumVariants => match r {
            AggregateResult::Hist(s) => snapshot_matches(
                decl_observations_list(DeclMetric::EnumVariants, units),
                s,
            ),
            _ => false,
        },
    }
}

/// A collector's aggregate is uniquely determined: two aggregates that both
/// match the same collector over the same units are equal.
pub proof fn lemma_result_unique(
    c: MetricCollectorBox,
    units: Seq<Node>,
    r1: AggregateResult,
    r2: AggregateResult,
)
    requires
        result_matches(c, units, r1),
        result_matches(c, units, r2),
    ensures
        r1 == r2,
{
    match (r1, r2) {
        (AggregateResult::Hist(s1), AggregateResult::Hist(s2)) => {
            match c {
                MetricCollectorBox::Enums => {},
                MetricCollectorBox::StatementSize => {
                    lemma_snapshot_unique(stmt_observations_list(units), s1, s2);
                },
                MetricCollectorBox::FnDepth => {
                    lemma_snapshot_unique(depth_observations_list(units, 0), s1, s2);
                },
                MetricCollectorBox::IfCount => {
                    lemma_snapshot_unique(if_unit_observations(units), s1, s2);
                },
                MetricCollectorBox::FnArgsAvg => {
                    lemma_snapshot_unique(
                        decl_observations_list(DeclMetric::FnArgsAvg, units),
                        s1,
                        s2,
                    );
                },
                MetricCollectorBox::FnArgsHist => {
                    lemma_snapshot_unique(
                        decl_observations_list(DeclMetric::FnArgsHist, units),
                        s1,
                        s2,
                    );
                },
                MetricCollectorBox::StructAttrs => {
                    lemma_snapshot_unique(
                        decl_observations_list(DeclMetric::StructAttrs, units),
                        s1,
                        s2,
                    );
                },
                MetricCollectorBox::EnumVariants => {
                    lemma_snapshot_unique(
                        decl_observations_list(DeclMetric::EnumVariants, units),
                        s1,
                        s2,
                    );
                },
            }
        },
        (
            AggregateResult::EnumShape { variant_count: v1, attr_count: a1, variant_attr_count: va1 },
            AggregateResult::EnumShape { variant_count: v2, attr_count: a2, variant_attr_count: va2 },
        ) => {
            lemma_snapshot_unique(enum_observations_list(units).0, v1, v2);
            lemma_snapshot_unique(enum_observations_list(units).1, a1, a2);
            lemma_snapshot_unique(enum_observations_list(units).2, va1, va2);
        },
        _ => {},
    }
}

/// Cross-unit aggregation tolerates any ordering: an aggregate matches a
/// collector over the units `a + b` exactly when it matches it over
/// `b + a`.
pub proof fn lemma_collect_order_independent(
    c: MetricCollectorBox,
    a: Seq<Node>,
    b: Seq<Node>,
    r: AggregateResult,
)
    ensures
        result_matches(c, a + b, r) <==> result_matches(c, b + a, r),
{
    match c {
        MetricCollectorBox::Enums => {
            lemma_enum_observations_append(a, b);
            lemma_enum_observations_append(b, a);
            lemma_merge_commutes(enum_observations_list(a).0, enum_observations_list(b).0);
            lemma_merge_commutes(enum_observations_list(a).1, enum_observations_list(b).1);
            lemma_merge_commutes(enum_observations_list(a).2, enum_observations_list(b).2);
        },
        MetricCollectorBox::StatementSize => {
            lemma_stmt_observations_append(a, b);
            lemma_stmt_observations_append(b, a);
            lemma_merge_commutes(stmt_observations_list(a), stmt_observations_list(b));
        },
        MetricCollectorBox::FnDepth => {
            lemma_depth_observations_append(a, b, 0);
            lemma_depth_observations_append(b, a, 0);
            lemma_merge_commutes(depth_observations_list(a, 0), depth_observations_list(b, 0));
        },
        MetricCollectorBox::IfCount => {
            lemma_if_unit_observations_append(a, b);
            lemma_if_unit_observations_append(b, a);
            lemma_merge_commutes(if_unit_observations(a), if_unit_observations(b));
        },
        MetricCollectorBox::FnArgsAvg => {
            lemma_decl_observations_append(DeclMetric::FnArgsAvg, a, b);
            lemma_decl_observations_append(DeclMetric::FnArgsAvg, b, a);
            lemma_merge_commutes(
                decl_observations_list(DeclMetric::FnArgsAvg, a),
                decl_observations_list(DeclMetric::FnArgsAvg, b),
            );
        },
        MetricCollectorBox::FnArgsHist => {
            lemma_decl_observations_append(DeclMetric::FnArgsHist, a, b);
            lemma_decl_observations_append(DeclMetric::FnArgsHist, b, a);
            lemma_merge_commutes(
                decl_observations_list(DeclMetric::FnArgsHist, a),
                decl_observations_list(DeclMetric::FnArgsHist, b),
            );
        },
        MetricCollectorBox::StructAttrs => {
            lemma_decl_observations_append(DeclMetric::StructAttrs, a, b);
            lemma_decl_observations_append(DeclMetric::StructAttrs, b, a);
            lemma_merge_commutes(
                decl_observations_list(DeclMetric::StructAttrs, a),
                decl_observations_list(DeclMetric::StructAttrs, b),
            );
        },
        MetricCollectorBox::EnumVariants => {
            lemma_decl_observations_append(DeclMetric::EnumVariants, a, b);
            lemma_decl_observations_append(DeclMetric::EnumVariants, b, a);
            lemma_merge_commutes(
                decl_observations_list(DeclMetric::EnumVariants, a),
                decl_observations_list(DeclMetric::EnumVariants, b),
            );
        },
    }
}

/// Cross-unit aggregation tolerates any grouping: splitting the units at
/// either cut gives the same aggregates.
pub proof fn lemma_collect_grouping_independent(
    c: MetricCollectorBox,
    a: Seq<Node>,
    b: Seq<Node>,
    d: Seq<Node>,
    r: AggregateResult,
)
    ensures
        result_matches(c, (a + b) + d, r) <==> result_matches(c, a + (b + d), r),
{
    assert((a + b) + d =~= a + (b + d));
}

/// An accumulator type that knows which registry descriptor runs it.
pub trait Visitor: Sized {
    /// The descriptor of this accumulator type's collector.
    spec fn collector() -> MetricCollectorBox;

    /// Make the descriptor under which the registry runs this accumulator.
    fn visitor() -> (r: MetricCollectorBox)
        ensures
            r == Self::collector(),
    ;
}

fn collect_decl_stats(metric: DeclMetric, units: &Vec<Node>) -> (r: Snapshot)
    ensures
        snapshot_matches(decl_observations_list(metric, units@), r),
{
    let mut total = Histogram::new();
    let mut i: usize = 0;
    proof {
        assert(units@.take(0) =~= Seq::<Node>::empty());
        assert(total@ =~= decl_observations_list(metric, units@.take(0)));
    }
    while i < units.len()
        invariant
            i <= units@.len(),
            total@ == decl_observations_list(metric, units@.take(i as int)),
        decreases units@.len() - i,
    {
        let mut acc = DeclStats::new(metric);
        acc.visit_tree(&units[i]);
        total = total.merge(acc.histogram());
        proof {
            assert(units@.take(i + 1).drop_last() =~= units@.take(i as int));
            assert(units@.take(i + 1).last() == units@[i as int]);
        }
        i = i + 1;
    }
    proof {
        assert(units@.take(units@.len() as int) =~= units@);
    }
    total.snapshot()
}

impl MetricCollectorBox {
    /// The stable name under which this collector reports.
    pub fn name(&self) -> (r: &'static str)
        ensures
            r@ == spec_name(*self),
    {
        match self {
            MetricCollectorBox::Enums => "enums",
            MetricCollectorBox::StatementSize => "statement_size",
            MetricCollectorBox::FnDepth => "fn_depth",
            MetricCollectorBox::IfCount => "if_count",
            MetricCollectorBox::FnArgsAvg => "fn_args_avg",
            MetricCollectorBox::FnArgsHist => "fn_args_hist",
            MetricCollectorBox::StructAttrs => "struct_attrs",
            MetricCollectorBox::EnumVariants => "enum_variants",
        }
    }

    /// Run a fresh accumulator over every unit and reduce the per-unit
    /// results into one aggregate.
    pub fn collect(&self, units: &Vec<Node>) -> (r: AggregateResult)
        requires
            forall|i: int| 0 <= i < units@.len() ==> node_count(#[trigger] units@[i]) <= u64::MAX,
        ensures
            result_matches(*self, units@, r),
    {
        match self {
            MetricCollectorBox::Enums => {
                let mut total = Enums::init();
                let mut i: usize = 0;
                proof {
                    assert(units@.take(0) =~= Seq::<Node>::empty());
                    assert(total@.0 =~= enum_observations_list(units@.take(0)).0);
                    assert(total@.1 =~= enum_observations_list(units@.take(0)).1);
                    assert(total@.2 =~= enum_observations_list(units@.take(0)).2);
                }
                while i < units.len()
                    invariant
                        i <= units@.len(),
                        total@.0 == enum_observations_list(units@.take(i as int)).0,
                        total@.1 == enum_observations_list(units@.take(i as int)).1,
                        total@.2 == enum_observations_list(units@.take(i as int)).2,
                    decreases units@.len() - i,
                {
                    let mut acc = Enums::init();
                    acc.visit_tree(&units[i]);
                    proof {
                        assert(acc@.0 =~= enum_observations(units@[i as int]).0);
                        assert(acc@.1 =~= enum_observations(units@[i as int]).1);
                        assert(acc@.2 =~= enum_observations(units@[i as int]).2);
                    }
                    total = total.unite(acc);
                    proof {
                        assert(units@.take(i + 1).drop_last() =~= units@.take(i as int));
                        assert(units@.take(i + 1).last() == units@[i as int]);
                    }
                    i = i + 1;
                }
                proof {
                    assert(units@.take(units@.len() as int) =~= units@);
                }
                let snaps = total.snapshot();
                AggregateResult::EnumShape {
                    variant_count: snaps.0,
                    attr_count: snaps.1,
                    variant_attr_count: snaps.2,
                }
            },
            MetricCollectorBox::StatementSize => {
                let mut total = Histogram::new();
                let mut i: usize = 0;
                proof {
                    assert(units@.take(0) =~= Seq::<Node>::empty());
                    assert(total@ =~= stmt_observations_list(units@.take(0)));
                }
                while i < units.len()
                    invariant
                        i <= units@.len(),
                        forall|j: int|
                            0 <= j < units@.len() ==> node_count(#[trigger] units@[j])
                                <= u64::MAX,
                        total@ == stmt_observations_list(units@.take(i as int)),
                    decreases units@.len() - i,
                {
                    let mut acc = StatementSize::new();
                    acc.visit_tree(&units[i]);
                    total = total.merge(acc.histogram());
                    proof {
                        assert(units@.take(i + 1).drop_last() =~= units@.take(i as int));
                        assert(units@.take(i + 1).last() == units@[i as int]);
                    }
                    i = i + 1;
                }
                proof {
                    assert(units@.take(units@.len() as int) =~= units@);
                }
                AggregateResult::Hist(total.snapshot())
            },
            MetricCollectorBox::FnDepth => {
                let mut total = Histogram::new();
                let mut i: usize = 0;
                proof {
                    assert(units@.take(0) =~= Seq::<Node>::empty());
                    assert(total@ =~= depth_observations_list(units@.take(0), 0));
                }
                while i < units.len()
                    invariant
                        i <= units@.len(),
                        forall|j: int|
                            0 <= j < units@.len() ==> node_count(#[trigger] units@[j])
                                <= u64::MAX,
                        total@ == depth_observations_list(units@.take(i as int), 0),
                    decreases units@.len() - i,
                {
                    let mut acc = FnDepth::new();
                    acc.visit_tree(&units[i]);
                    total = total.merge(acc.histogram());
                    proof {
                        assert(units@.take(i + 1).drop_last() =~= units@.take(i as int));
                        assert(units@.take(i + 1).last() == units@[i as int]);
                    }
                    i = i + 1;
                }
                proof {
                    assert(units@.take(units@.len() as int) =~= units@);
                }
                AggregateResult::Hist(total.snapshot())
            },
            MetricCollectorBox::IfCount => {
                let mut total = IfCount::new();
                let mut i: usize = 0;
                proof {
                    assert(units@.take(0) =~= Seq::<Node>::empty());
                    assert(total@ =~= if_unit_observations(units@.take(0)));
                }
                while i < units.len()
                    invariant
                        i <= units@.len(),
                        forall|j: int|
                            0 <= j < units@.len() ==> node_count(#[trigger] units@[j])
                                <= u64::MAX,
                        total@ == if_unit_observations(units@.take(i as int)),
                    decreases units@.len() - i,
                {
                    total.visit_tree(&units[i]);
                    proof {
                        assert(units@.take(i + 1).drop_last() =~= units@.take(i as int));
                        assert(units@.take(i + 1).last() == units@[i as int]);
                    }
                    i = i + 1;
                }
                proof {
                    assert(units@.take(units@.len() as int) =~= units@);
                }
                AggregateResult::Hist(total.snapshot())
            },
            MetricCollectorBox::FnArgsAvg => AggregateResult::Hist(
                collect_decl_stats(DeclMetric::FnArgsAvg, units),
            ),
            MetricCollectorBox::FnArgsHist => AggregateResult::Hist(
                collect_decl_stats(DeclMetric::FnArgsHist, units),
            ),
            MetricCollectorBox::StructAttrs => AggregateResult::Hist(
                collect_decl_stats(DeclMetric::StructAttrs, units),
            ),
            MetricCollectorBox::EnumVariants => AggregateResult::Hist(
                collect_decl_stats(DeclMetric::EnumVariants, units),
            ),
        }
    }
}

/// Holds the registered collectors for the lifetime of an analysis run.
pub struct Registry {
    collectors: Vec<MetricCollectorBox>,
}

impl View for Registry {
    type V = Seq<MetricCollectorBox>;

    closed spec fn view(&self) -> Seq<MetricCollectorBox> {
        self.collectors@
    }
}

impl Registry {
    /// An empty registry.
    pub fn new() -> (r: Registry)
        ensures
            r@ == Seq::<MetricCollectorBox>::empty(),
    {
        Registry { collectors: Vec::new() }
    }

    /// Register one more collector.
    pub fn register(&mut self, c: MetricCollectorBox)
        ensures
            final(self)@ == old(self)@.push(c),
    {
        self.collectors.push(c);
    }

    /// The names of the registered collectors, in registration order.
    pub fn list_collectors(&self) -> (names: Vec<&'static str>)
        ensures
            names@.len() == self@.len(),
            forall|i: int| 0 <= i < self@.len() ==> names@[i]@ == spec_name(#[trigger] self@[i]),
    {
        let mut names: Vec<&'static str> = Vec::new();
        let mut i: usize = 0;
        while i < self.collectors.len()
            invariant
                i <= self@.len(),
                names@.len() == i,
                forall|j: int| 0 <= j < i ==> names@[j]@ == spec_name(#[trigger] self@[j]),
            decreases self@.len() - i,
        {
            names.push(self.collectors[i].name());
            i = i + 1;
        }
        names
    }

    /// Run every registered collector over every unit: one aggregate per
    /// collector, keyed by the collector's name, in registration order.
    pub fn collect(&self, units: &Vec<Node>) -> (r: Vec<(&'static str, AggregateResult)>)
        requires
            forall|i: int| 0 <= i < units@.len() ==> node_count(#[trigger] units@[i]) <= u64::MAX,
        ensures
            r@.len() == self@.len(),
            forall|i: int|
                0 <= i < self@.len() ==> (#[trigger] r@[i]).0@ == spec_name(self@[i])
                    && result_matches(self@[i], units@, r@[i].1),
    {
        let mut results: Vec<(&'static str, AggregateResult)> = Vec::new();
        let mut i: usize = 0;
        while i < self.collectors.len()
            invariant
                i <= self@.len(),
                forall|j: int|
                    0 <= j < units@.len() ==> node_count(#[trigger] units@[j]) <= u64::MAX,
                results@.len() == i,
                forall|j: int|
                    0 <= j < i ==> (#[trigger] results@[j]).0@ == spec_name(self@[j])
                        && result_matches(self@[j], units@, results@[j].1),
            decreases self@.len() - i,
        {
            let c = &self.collectors[i];
            results.push((c.name(), c.collect(units)));
            i = i + 1;
        }
        results
    }
}

/// The collectors that an analysis run registers out of the box. The enums
/// and statement-size collectors are made by their own modules.
pub fn get_metric_collectors() -> (r: Vec<MetricCollectorBox>)
    ensures
        r@ == seq![
            MetricCollectorBox::FnDepth,
            MetricCollectorBox::IfCount,
            MetricCollectorBox::FnArgsAvg,
            MetricCollectorBox::FnArgsHist,
            MetricCollectorBox::StructAttrs,
            MetricCollectorBox::EnumVariants,
        ],
{
    let mut r: Vec<MetricCollectorBox> = Vec::new();
    r.push(MetricCollectorBox::FnDepth);
    r.push(MetricCollectorBox::IfCount);
    r.push(MetricCollectorBox::FnArgsAvg);
    r.push(MetricCollectorBox::FnArgsHist);
    r.push(MetricCollectorBox::StructAttrs);
    r.push(MetricCollectorBox::EnumVariants);
    proof {
        assert(r@ =~= seq![
            MetricCollectorBox::FnDepth,
            MetricCollectorBox::IfCount,
            MetricCollectorBox::FnArgsAvg,
            MetricCollectorBox::FnArgsHist,
            MetricCollectorBox::StructAttrs,
            MetricCollectorBox::EnumVariants,
        ]);
    }
    r
}

} // verus!
