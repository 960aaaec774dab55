//! Further built-in shape metrics: function nesting depth, conditional
//! count per unit, function argument counts (plain and bucketed), and
//! attribute counts on struct and enum declarations.

use vstd::prelude::*;

use crate::ast::ExprKind;
use crate::ast::Node;
use crate::ast::lemma_node_list_count_elem;
use crate::ast::node_count;
use crate::ast::node_list_count;
use crate::collector::MetricCollectorBox;
use crate::collector::Visitor;
use crate::histogram::Histogram;
use crate::histogram::Snapshot;
use crate::histogram::snapshot_matches;

verus! {

/// Argument counts above this ceiling land in the top bucket of the
/// bucketed argument histogram.
pub const ARG_BUCKET_CEILING: u64 = 16;

/// The nesting depths observed while walking `n` at depth `d`: every
/// function declaration observes the depth at which it stands, and
/// functions nested in its body stand one level deeper.
pub open spec fn depth_observations(n: Node, d: u64) -> Seq<u64>
    decreases n, 0int,
{
    match n {
        Node::Module { items } => depth_observations_list(items@, d),
        Node::EnumDecl { .. } => Seq::empty(),
        Node::StructDecl { .. } => Seq::empty(),
        Node::FunctionDecl { body, .. } => seq![d] + depth_observations_list(
            body@,
            ((d + 1) as u64),
        ),
        Node::Statement { children } => depth_observations_list(children@, d),
        Node::Expression { children, .. } => depth_observations_list(children@, d),
        Node::MethodCallExpr { receiver, args, .. } => depth_observations(*receiver, d)
            + depth_observations_list(args@, d),
        Node::FieldAccessExpr { base, .. } => depth_observations(*base, d),
        Node::Receiver => Seq::empty(),
    }
}

/// Depth observations over a forest.
pub open spec fn depth_observations_list(l: Seq<Node>, d: u64) -> Seq<u64>
    decreases l, 1int,
{
    if l.len() == 0 {
        Seq::empty()
    } else {
        depth_observations_list(l.drop_last(), d) + depth_observations(l.last(), d)
    }
}

/// Number of conditional expressions in the whole subtree `n`.
pub open spec fn if_count_in(n: Node) -> nat
    decreases n, 0int,
{
    match n {
        Node::Module { items } => if_count_in_list(items@),
        Node::EnumDecl { .. } => 0,
        Node::StructDecl { .. } => 0,
        Node::FunctionDecl { body, .. } => if_count_in_list(body@),
        Node::Statement { children } => if_count_in_list(children@),
        Node::Expression { kind, children } => (if kind is If {
            1nat
        } else {
            0nat
        }) + if_count_in_list(children@),
        Node::MethodCallExpr { receiver, args, .. } => if_count_in(*receiver) + if_count_in_list(
            args@,
        ),
        Node::FieldAccessExpr { base, .. } => if_count_in(*base),
        Node::Receiver => 0,
    }
}

/// Number of conditional expressions in a forest.
pub open spec fn if_count_in_list(l: Seq<Node>) -> nat
    decreases l, 1int,
{
    if l.len() == 0 {
        0
    } else {
        if_count_in_list(l.drop_last()) + if_count_in(l.last())
    }
}

/// A tree holds at least as many nodes as conditionals.
pub proof fn lemma_if_count_le(n: Node)
    ensures
        if_count_in(n) <= node_count(n),
    decreases n, 0int,
{
    match n {
        Node::Module { items } => lemma_if_count_list_le(items@),
        Node::FunctionDecl { body, .. } => lemma_if_count_list_le(body@),
        Node::Statement { children } => lemma_if_count_list_le(children@),
        Node::Expression { children, .. } => lemma_if_count_list_le(children@),
        Node::MethodCallExpr { receiver, args, .. } => {
            lemma_if_count_le(*receiver);
            lemma_if_count_list_le(args@);
        },
        Node::FieldAccessExpr { base, .. } => lemma_if_count_le(*base),
        _ => {},
    }
}

/// A forest holds at least as many nodes as conditionals.
pub proof fn lemma_if_count_list_le(l: Seq<Node>)
    ensures
        if_count_in_list(l) <= node_list_count(l),
    decreases l, 1int,
{
    if l.len() > 0 {
        lemma_if_count_list_le(l.drop_last());
        lemma_if_count_le(l.last());
    }
}

/// Per-unit conditional counts: one observation per unit.
pub open spec fn if_unit_observations(units: Seq<Node>) -> Seq<u64>
    decreases units,
{
    if units.len() == 0 {
        Seq::empty()
    } else {
        if_unit_observations(units.drop_last()).push(if_count_in(units.last()) as u64)
    }
}

/// Which declaration statistic a [`DeclStats`] accumulator gathers.
#[derive(Clone, Copy, PartialEq, Eq, Structural)]
pub enum DeclMetric {
    /// Argument count of every function declaration.
    FnArgsAvg,
    /// Argument count of every function declaration, capped at
    /// [`ARG_BUCKET_CEILING`].
    FnArgsHist,
    /// Attribute count of every struct declaration.
    StructAttrs,
    /// Variant count of every enum declaration.
    EnumVariants,
}

/// Argument counts above the ceiling land in the top bucket.
pub open spec fn bucketed(v: u64) -> u64 {
    if v > ARG_BUCKET_CEILING {
        ARG_BUCKET_CEILING
    } else {
        v
    }
}

/// What one node contributes to the chosen declaration statistic.
pub open spec fn decl_observation(m: DeclMetric, n: Node) -> Seq<u64> {
    match n {
        Node::FunctionDecl { params, .. } => match m {
            DeclMetric::FnArgsAvg => seq![params@.len() as u64],
            DeclMetric::FnArgsHist => seq![bucketed(params@.len() as u64)],
            _ => Seq::empty(),
        },
        Node::StructDecl { attrs } => if m is StructAttrs {
            seq![attrs@.len() as u64]
        } else {
            Seq::empty()
        },
        Node::EnumDecl { .. } => if m is EnumVariants {
            seq![n->EnumDecl_variants@.len() as u64]
        } else {
            Seq::empty()
        },
        _ => Seq::empty(),
    }
}

/// The declaration statistic observed over the whole subtree `n`, in
/// source order: a declaration's own observation comes before those of
/// declarations nested below it.
pub open spec fn decl_observations(m: DeclMetric, n: Node) -> Seq<u64>
    decreases n, 0int,
{
    decl_observation(m, n) + match n {
        Node::Module { items } => decl_observations_list(m, items@),
        Node::EnumDecl { .. } => Seq::empty(),
        Node::StructDecl { .. } => Seq::empty(),
        Node::FunctionDecl { body, .. } => decl_observations_list(m, body@),
        Node::Statement { children } => decl_observations_list(m, children@),
        Node::Expression { children, .. } => decl_observations_list(m, children@),
        Node::MethodCallExpr { receiver, args, .. } => decl_observations(m, *receiver)
            + decl_observations_list(m, args@),
        Node::FieldAccessExpr { base, .. } => decl_observations(m, *base),
        Node::Receiver => Seq::empty(),
    }
}

/// The declaration statistic observed over a forest.
pub open spec fn decl_observations_list(m: DeclMetric, l: Seq<Node>) -> Seq<u64>
    decreases l, 1int,
{
    if l.len() == 0 {
        Seq::empty()
    } else {
        decl_observations_list(m, l.drop_last()) + decl_observations(m, l.last())
    }
}

/// Observations over concatenated unit lists split into the parts, for
/// every shape metric of this module: the ground of order-independent
/// aggregation for these collectors.
pub proof fn lemma_depth_observations_append(a: Seq<Node>, b: Seq<Node>, d: u64)
    ensures
        depth_observations_list(a + b, d) == depth_observations_list(a, d)
            + depth_observations_list(b, d),
    decreases b.len(),
{
    if b.len() == 0 {
        assert(a + b =~= a);
        assert(depth_observations_list(a, d) + depth_observations_list(b, d)
            =~= depth_observations_list(a, d));
    } else {
        lemma_depth_observations_append(a, b.drop_last(), d);
        assert((a + b).drop_last() =~= a + b.drop_last());
        assert((a + b).last() == b.last());
        assert(depth_observations_list(a, d) + (depth_observations_list(b.drop_last(), d)
            + depth_observations(b.last(), d)) =~= (depth_observations_list(a, d)
            + depth_observations_list(b.drop_last(), d)) + depth_observations(b.last(), d));
    }
}

/// Per-unit conditional counts over concatenated unit lists split into the
/// parts.
pub proof fn lemma_if_unit_observations_append(a: Seq<Node>, b: Seq<Node>)
    ensures
        if_unit_observations(a + b) == if_unit_observations(a) + if_unit_observations(b),
    decreases b.len(),
{
    if b.len() == 0 {
        assert(a + b =~= a);
        assert(if_unit_observations(a) + if_unit_observations(b) =~= if_unit_observations(a));
    } else {
        lemma_if_unit_observations_append(a, b.drop_last());
        assert((a + b).drop_last() =~= a + b.drop_last());
        assert((a + b).last() == b.last());
        assert(if_unit_observations(a) + if_unit_observations(b.drop_last()).push(
            (if_count_in(b.last()) as u64),
        ) =~= (if_unit_observations(a) + if_unit_observations(b.drop_last())).push(
            (if_count_in(b.last()) as u64),
        ));
    }
}

/// Declaration observations over concatenated unit lists split into the
/// parts.
pub proof fn lemma_decl_observations_append(m: DeclMetric, a: Seq<Node>, b: Seq<Node>)
    ensures
        decl_observations_list(m, a + b) == decl_observations_list(m, a)
            + decl_observations_list(m, b),
    decreases b.len(),
{
    if b.len() == 0 {
        assert(a + b =~= a);
        assert(decl_observations_list(m, a) + decl_observations_list(m, b)
            =~= decl_observations_list(m, a));
    } else {
        lemma_decl_observations_append(m, a, b.drop_last());
        assert((a + b).drop_last() =~= a + b.drop_last());
        assert((a + b).last() == b.last());
        assert(decl_observations_list(m, a) + (decl_observations_list(m, b.drop_last())
            + decl_observations(m, b.last())) =~= (decl_observations_list(m, a)
            + decl_observations_list(m, b.drop_last())) + decl_observations(m, b.last()));
    }
}

/// Observes, per function declaration, the nesting depth it stands at.
pub struct FnDepth {
    hist: Histogram,
}

impl View for FnDepth {
    type V = Seq<u64>;

    closed spec fn view(&self) -> Seq<u64> {
        self.hist@
    }
}

impl FnDepth {
    /// A fresh accumulator with no observations.
    pub fn new() -> (r: FnDepth)
        ensures
            r@ == Seq::<u64>::empty(),
    {
        FnDepth { hist: Histogram::new() }
    }

    fn visit_node(&mut self, n: &Node, depth: u64)
        requires
            depth + node_count(*n) <= u64::MAX,
        ensures
            final(self)@ == old(self)@ + depth_observations(*n, depth),
        decreases node_count(*n), 0int,
    {
        match n {
            Node::Module { items } => {
                self.visit_list(items, depth);
            },
            Node::EnumDecl { .. } => {
                proof {
                    assert(old(self)@ + depth_observations(*n, depth) =~= old(self)@);
                }
            },
            Node::StructDecl { .. } => {
                proof {
                    assert(old(self)@ + depth_observations(*n, depth) =~= old(self)@);
                }
            },
            Node::FunctionDecl { body, .. } => {
                self.hist.observe(depth);
                self.visit_list(body, depth + 1);
                proof {
                    assert(old(self)@.push(depth) + depth_observations_list(
                        body@,
                        ((depth + 1) as u64),
                    ) =~= old(self)@ + depth_observations(*n, depth));
                }
            },
            Node::Statement { children } => {
                self.visit_list(children, depth);
            },
            Node::Expression { children, .. } => {
                self.visit_list(children, depth);
            },
            Node::MethodCallExpr { receiver, args, .. } => {
                self.visit_node(&**receiver, depth);
                self.visit_list(args, depth);
                proof {
                    assert(old(self)@ + depth_observations(**receiver, depth)
                        + depth_observations_list(args@, depth) =~= old(self)@
                        + depth_observations(*n, depth));
                }
            },
            Node::FieldAccessExpr { base, .. } => {
                self.visit_node(&**base, depth);
            },
            Node::Receiver => {
                proof {
                    assert(old(self)@ + depth_observations(*n, depth) =~= old(self)@);
                }
            },
        }
    }

    fn visit_list(&mut self, l: &Vec<Node>, depth: u64)
        requires
            depth + node_list_count(l@) <= u64::MAX,
        ensures
            final(self)@ == old(self)@ + depth_observations_list(l@, depth),
        decreases node_list_count(l@), 1int,
    {
        let mut i: usize = 0;
        proof {
            assert(l@.take(0) =~= Seq::<Node>::empty());
            assert(old(self)@ + depth_observations_list(l@.take(0), depth) =~= old(self)@);
        }
        while i < l.len()
            invariant
                i <= l@.len(),
                depth + node_list_count(l@) <= u64::MAX,
                self@ == old(self)@ + depth_observations_list(l@.take(i as int), depth),
            decreases l@.len() - i,
        {
            proof {
                lemma_node_list_count_elem(l@, i as int);
            }
            self.visit_node(&l[i], depth);
            proof {
                assert(l@.take(i + 1).drop_last() =~= l@.take(i as int));
                assert(l@.take(i + 1).last() == l@[i as int]);
                assert(old(self)@ + depth_observations_list(l@.take(i as int), depth)
                    + depth_observations(l@[i as int], depth) =~= old(self)@
                    + depth_observations_list(l@.take(i + 1), depth));
            }
            i = i + 1;
        }
        proof {
            assert(l@.take(l@.len() as int) =~= l@);
        }
    }

    /// Walk one source unit's tree, observing every function's depth; the
    /// unit's top level stands at depth zero.
    pub fn visit_tree(&mut self, n: &Node)
        requires
            node_count(*n) <= u64::MAX,
        ensures
            final(self)@ == old(self)@ + depth_observations(*n, 0),
    {
        self.visit_node(n, 0);
    }

    /// Pure read of the statistics gathered so far.
    pub fn snapshot(&self) -> (r: Snapshot)
        ensures
            snapshot_matches(self@, r),
    {
        self.hist.snapshot()
    }

    /// The histogram of depths gathered so far.
    pub fn histogram(&self) -> (r: &Histogram)
        ensures
            r@ == self@,
    {
        &self.hist
    }
}

impl Visitor for FnDepth {
    open spec fn collector() -> MetricCollectorBox {
        MetricCollectorBox::FnDepth
    }

    fn visitor() -> (r: MetricCollectorBox) {
        MetricCollectorBox::FnDepth
    }
}

/// Observes, per source unit, how many conditional expressions it holds.
pub struct IfCount {
    hist: Histogram,
}

impl View for IfCount {
    type V = Seq<u64>;

    closed spec fn view(&self) -> Seq<u64> {
        self.hist@
    }
}

/// Counts the conditional expressions in the subtree `n`.
fn count_ifs(n: &Node) -> (r: u64)
    requires
        node_count(*n) <= u64::MAX,
    ensures
        r == if_count_in(*n),
    decreases node_count(*n), 0int,
{
    match n {
        Node::Module { items } => count_ifs_list(items),
        Node::EnumDecl { .. } => 0,
        Node::StructDecl { .. } => 0,
        Node::FunctionDecl { body, .. } => count_ifs_list(body),
        Node::Statement { children } => count_ifs_list(children),
        Node::Expression { kind, children } => {
            let own: u64 = match kind {
                ExprKind::If => 1,
                ExprKind::Plain => 0,
            };
            proof {
                lemma_if_count_list_le(children@);
            }
            own + count_ifs_list(children)
        },
        Node::MethodCallExpr { receiver, args, .. } => {
            proof {
                lemma_if_count_le(**receiver);
                lemma_if_count_list_le(args@);
            }
            count_ifs(&**receiver) + count_ifs_list(args)
        },
        Node::FieldAccessExpr { base, .. } => count_ifs(&**base),
        Node::Receiver => 0,
    }
}

/// Counts the conditional expressions in a forest.
fn count_ifs_list(l: &Vec<Node>) -> (r: u64)
    requires
        node_list_count(l@) <= u64::MAX,
    ensures
        r == if_count_in_list(l@),
    decreases node_list_count(l@), 1int,
{
    let mut acc: u64 = 0;
    let mut i: usize = 0;
    proof {
        assert(l@.take(0) =~= Seq::<Node>::empty());
    }
    while i < l.len()
        invariant
            i <= l@.len(),
            node_list_count(l@) <= u64::MAX,
            acc == if_count_in_list(l@.take(i as int)),
        decreases l@.len() - i,
    {
        proof {
            lemma_node_list_count_elem(l@, i as int);
            lemma_if_count_list_le(l@.take(i as int));
            lemma_if_count_le(l@[i as int]);
            assert(node_list_count(l@.take(i as int)) + node_count(l@[i as int])
                <= node_list_count(l@));
        }
        acc = acc + count_ifs(&l[i]);
        proof {
            assert(l@.take(i + 1).drop_last() =~= l@.take(i as int));
            assert(l@.take(i + 1).last() == l@[i as int]);
        }
        i = i + 1;
    }
    proof {
        assert(l@.take(l@.len() as int) =~= l@);
    }
    acc
}

impl IfCount {
    /// A fresh accumulator with no observations.
    pub fn new() -> (r: IfCount)
        ensures
            r@ == Seq::<u64>::empty(),
    {
        IfCount { hist: Histogram::new() }
    }

    /// Observe one source unit: the number of conditionals it holds.
    pub fn visit_tree(&mut self, n: &Node)
        requires
            node_count(*n) <= u64::MAX,
        ensures
            final(self)@ == old(self)@.push(if_count_in(*n) as u64),
    {
        let c = count_ifs(n);
        self.hist.observe(c);
    }

    /// Pure read of the statistics gathered so far.
    pub fn snapshot(&self) -> (r: Snapshot)
        ensures
            snapshot_matches(self@, r),
    {
        self.hist.snapshot()
    }
}

impl Visitor for IfCount {
    open spec fn collector() -> MetricCollectorBox {
        MetricCollectorBox::IfCount
    }

    fn visitor() -> (r: MetricCollectorBox) {
        MetricCollectorBox::IfCount
    }
}

/// Observes one declaration statistic, chosen at construction.
pub struct DeclStats {
    metric: DeclMetric,
    hist: Histogram,
}

impl View for DeclStats {
    type V = Seq<u64>;

    closed spec fn view(&self) -> Seq<u64> {
        self.hist@
    }
}

impl DeclStats {
    /// Which statistic this accumulator gathers.
    pub closed spec fn metric(&self) -> DeclMetric {
        self.metric
    }

    /// A fresh accumulator for the chosen statistic.
    pub fn new(metric: DeclMetric) -> (r: DeclStats)
        ensures
            r@ == Seq::<u64>::empty(),
            r.metric() == metric,
    {
        DeclStats { metric, hist: Histogram::new() }
    }

    fn visit_node(&mut self, n: &Node)
        ensures
            final(self)@ == old(self)@ + decl_observations(old(self).metric(), *n),
            final(self).metric() == old(self).metric(),
        decreases node_count(*n), 0int,
    {
        let ghost m = self.metric;
        match n {
            Node::Module { items } => {
                self.visit_list(items);
                proof {
                    assert(old(self)@ + decl_observations(m, *n) =~= old(self)@
                        + decl_observations_list(m, n->Module_items@));
                }
            },
            Node::EnumDecl { .. } => {
                match self.metric {
                    DeclMetric::EnumVariants => {
                        let count = match n {
                            Node::EnumDecl { variants, .. } => variants.len(),
                            _ => 0,
                        };
                        self.hist.observe(count as u64);
                        proof {
                            assert(old(self)@ + decl_observations(m, *n) =~= old(self)@.push(
                                (n->EnumDecl_variants@.len() as u64),
                            ));
                        }
                    },
                    _ => {
                        proof {
                            assert(old(self)@ + decl_observations(m, *n) =~= old(self)@);
                        }
                    },
                }
            },
            Node::StructDecl { attrs } => {
                match self.metric {
                    DeclMetric::StructAttrs => {
                        self.hist.observe(attrs.len() as u64);
                        proof {
                            assert(old(self)@ + decl_observations(m, *n) =~= old(self)@.push(
                                (attrs@.len() as u64),
                            ));
                        }
                    },
                    _ => {
                        proof {
                            assert(old(self)@ + decl_observations(m, *n) =~= old(self)@);
                        }
                    },
                }
            },
            Node::FunctionDecl { params, body, .. } => {
                match self.metric {
                    DeclMetric::FnArgsAvg => {
                        self.hist.observe(params.len() as u64);
                    },
                    DeclMetric::FnArgsHist => {
                        let c = params.len() as u64;
                        if c > ARG_BUCKET_CEILING {
                            self.hist.observe(ARG_BUCKET_CEILING);
                        } else {
                            self.hist.observe(c);
                        }
                    },
                    _ => {},
                }
                self.visit_list(body);
                proof {
                    assert(old(self)@ + decl_observations(m, *n) =~= old(self)@
                        + decl_observation(m, *n) + decl_observations_list(
                        m,
                        n->FunctionDecl_body@,
                    ));
                }
            },
            Node::Statement { children } => {
                self.visit_list(children);
                proof {
                    assert(old(self)@ + decl_observations(m, *n) =~= old(self)@
                        + decl_observations_list(m, n->Statement_children@));
                }
            },
            Node::Expression { children, .. } => {
                self.visit_list(children);
                proof {
                    assert(old(self)@ + decl_observations(m, *n) =~= old(self)@
                        + decl_observations_list(m, n->Expression_children@));
                }
            },
            Node::MethodCallExpr { receiver, args, .. } => {
                self.visit_node(&**receiver);
                self.visit_list(args);
                proof {
                    assert(old(self)@ + decl_observations(m, *n) =~= old(self)@
                        + decl_observations(m, **receiver) + decl_observations_list(m, args@));
                }
            },
            Node::FieldAccessExpr { base, .. } => {
                self.visit_node(&**base);
                proof {
                    assert(old(self)@ + decl_observations(m, *n) =~= old(self)@
                        + decl_observations(m, **base));
                }
            },
            Node::Receiver => {
                proof {
                    assert(old(self)@ + decl_observations(m, *n) =~= old(self)@);
                }
            },
        }
    }

    fn visit_list(&mut self, l: &Vec<Node>)
        ensures
            final(self)@ == old(self)@ + decl_observations_list(old(self).metric(), l@),
            final(self).metric() == old(self).metric(),
        decreases node_list_count(l@), 1int,
    {
        let ghost m = self.metric;
        let mut i: usize = 0;
        proof {
            assert(l@.take(0) =~= Seq::<Node>::empty());
            assert(old(self)@ + decl_observations_list(m, l@.take(0)) =~= old(self)@);
        }
        while i < l.len()
            invariant
                i <= l@.len(),
                m == self.metric(),
                self@ == old(self)@ + decl_observations_list(m, l@.take(i as int)),
            decreases l@.len() - i,
        {
            proof {
                lemma_node_list_count_elem(l@, i as int);
            }
            self.visit_node(&l[i]);
            proof {
                assert(l@.take(i + 1).drop_last() =~= l@.take(i as int));
                assert(l@.take(i + 1).last() == l@[i as int]);
                assert(old(self)@ + decl_observations_list(m, l@.take(i as int))
                    + decl_observations(m, l@[i as int]) =~= old(self)@ + decl_observations_list(
                    m,
                    l@.take(i + 1),
                ));
            }
            i = i + 1;
        }
        proof {
            assert(l@.take(l@.len() as int) =~= l@);
        }
    }

    /// Walk one source unit's tree, observing the chosen statistic at
    /// every matching declaration.
    pub fn visit_tree(&mut self, n: &Node)
        ensures
            final(self)@ == old(self)@ + decl_observations(old(self).metric(), *n),
            final(self).metric() == old(self).metric(),
    {
        self.visit_node(n);
    }

    /// Pure read of the statistics gathered so far.
    pub fn snapshot(&self) -> (r: Snapshot)
        ensures
            snapshot_matches(self@, r),
    {
        self.hist.snapshot()
    }

    /// The histogram gathered so far.
    pub fn histogram(&self) -> (r: &Histogram)
        ensures
            r@ == self@,
    {
        &self.hist
    }
}

} // verus!
