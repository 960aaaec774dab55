//! Statement complexity: how many expressions each statement is built from.
//! Entering a statement resets the running expression count and leaving it
//! restores the enclosing count, so nested statements measure independently.

use vstd::prelude::*;

use crate::ast::Node;
use crate::ast::lemma_node_list_count_elem;
use crate::ast::lemma_node_list_count_step;
use crate::ast::node_count;
use crate::ast::node_list_count;
use crate::collector::MetricCollectorBox;
use crate::collector::Visitor;
use crate::histogram::Histogram;
use crate::histogram::Snapshot;
use crate::histogram::snapshot_matches;

verus! {

/// Number of expression nodes reachable from `n` without crossing into a
/// nested statement: what one statement's expression count is made of.
pub open spec fn shallow_expr_count(n: Node) -> nat
    decreases n, 0int,
{
    match n {
        Node::Module { items } => shallow_expr_count_list(items@),
        Node::EnumDecl { .. } => 0,
        Node::StructDecl { .. } => 0,
        Node::FunctionDecl { body, .. } => shallow_expr_count_list(body@),
        Node::Statement { .. } => 0,
        Node::Expression { children, .. } => 1 + shallow_expr_count_list(children@),
        Node::MethodCallExpr { receiver, args, .. } => 1 + shallow_expr_count(*receiver)
            + shallow_expr_count_list(args@),
        Node::FieldAccessExpr { base, .. } => 1 + shallow_expr_count(*base),
        Node::Receiver => 1,
    }
}

/// Shallow expression count summed over a forest.
pub open spec fn shallow_expr_count_list(l: Seq<Node>) -> nat
    decreases l, 1int,
{
    if l.len() == 0 {
        0
    } else {
        shallow_expr_count_list(l.drop_last()) + shallow_expr_count(l.last())
    }
}

/// The statement sizes observed while walking `n`, in observation order:
/// a statement is observed after its children, so inner statements come
/// first, and each statement's value counts only its own expressions.
pub open spec fn stmt_observations(n: Node) -> Seq<u64>
    decreases n, 0int,
{
    match n {
        Node::Module { items } => stmt_observations_list(items@),
        Node::EnumDecl { .. } => Seq::empty(),
        Node::StructDecl { .. } => Seq::empty(),
        Node::FunctionDecl { body, .. } => stmt_observations_list(body@),
        Node::Statement { children } => stmt_observations_list(children@).push(
            shallow_expr_count_list(children@) as u64,
        ),
        Node::Expression { children, .. } => stmt_observations_list(children@),
        Node::MethodCallExpr { receiver, args, .. } => stmt_observations(*receiver)
            + stmt_observations_list(args@),
        Node::FieldAccessExpr { base, .. } => stmt_observations(*base),
        Node::Receiver => Seq::empty(),
    }
}

/// Statement sizes observed over a forest, in order.
pub open spec fn stmt_observations_list(l: Seq<Node>) -> Seq<u64>
    decreases l, 1int,
{
    if l.len() == 0 {
        Seq::empty()
    } else {
        stmt_observations_list(l.drop_last()) + stmt_observations(l.last())
    }
}

/// Observations over concatenated unit lists split into the parts: the
/// ground of order-independent aggregation for this collector.
pub proof fn lemma_stmt_observations_append(a: Seq<Node>, b: Seq<Node>)
    ensures
        stmt_observations_list(a + b) == stmt_observations_list(a) + stmt_observations_list(b),
    decreases b.len(),
{
    if b.len() == 0 {
        assert(a + b =~= a);
        assert(stmt_observations_list(a) + stmt_observations_list(b) =~= stmt_observations_list(
            a,
        ));
    } else {
        lemma_stmt_observations_append(a, b.drop_last());
        assert((a + b).drop_last() =~= a + b.drop_last());
        assert((a + b).last() == b.last());
        assert(stmt_observations_list(a) + (stmt_observations_list(b.drop_last())
            + stmt_observations(b.last())) =~= (stmt_observations_list(a)
            + stmt_observations_list(b.drop_last())) + stmt_observations(b.last()));
    }
}

/// A tree holds at least as many nodes as shallow expressions.
pub proof fn lemma_shallow_le_count(n: Node)
    ensures
        shallow_expr_count(n) <= node_count(n),
    decreases n, 0int,
{
    match n {
        Node::Module { items } => lemma_shallow_list_le_count(items@),
        Node::FunctionDecl { body, .. } => lemma_shallow_list_le_count(body@),
        Node::Expression { children, .. } => lemma_shallow_list_le_count(children@),
        Node::MethodCallExpr { receiver, args, .. } => {
            lemma_shallow_le_count(*receiver);
            lemma_shallow_list_le_count(args@);
        },
        Node::FieldAccessExpr { base, .. } => lemma_shallow_le_count(*base),
        _ => {},
    }
}

/// A forest holds at least as many nodes as shallow expressions.
pub proof fn lemma_shallow_list_le_count(l: Seq<Node>)
    ensures
        shallow_expr_count_list(l) <= node_list_count(l),
    decreases l, 1int,
{
    if l.len() > 0 {
        lemma_shallow_list_le_count(l.drop_last());
        lemma_shallow_le_count(l.last());
    }
}

/// Accumulates, per statement, the number of expressions it is built from.
pub struct StatementSize {
    expr_count: u64,
    hist: Histogram,
}

impl View for StatementSize {
    type V = Seq<u64>;

    closed spec fn view(&self) -> Seq<u64> {
        self.hist@
    }
}

impl StatementSize {
    /// The running expression count of the statement being walked.
    pub closed spec fn pending_exprs(&self) -> u64 {
        self.expr_count
    }

    /// A fresh accumulator: nothing observed, nothing pending.
    pub fn new() -> (r: StatementSize)
        ensures
            r@ == Seq::<u64>::empty(),
            r.pending_exprs() == 0,
    {
        StatementSize { expr_count: 0, hist: Histogram::new() }
    }

    fn visit_node(&mut self, n: &Node)
        requires
            old(self).pending_exprs() + node_count(*n) <= u64::MAX,
        ensures
            final(self).pending_exprs() == old(self).pending_exprs() + shallow_expr_count(*n),
            final(self)@ == old(self)@ + stmt_observations(*n),
        decreases node_count(*n), 0int,
    {
        match n {
            Node::Module { items } => {
                self.visit_list(items);
            },
            Node::EnumDecl { .. } => {
                proof {
                    assert(old(self)@ + stmt_observations(*n) =~= old(self)@);
                }
            },
            Node::StructDecl { .. } => {
                proof {
                    assert(old(self)@ + stmt_observations(*n) =~= old(self)@);
                }
            },
            Node::FunctionDecl { body, .. } => {
                self.visit_list(body);
            },
            Node::Statement { children } => {
                let saved = self.expr_count;
                self.expr_count = 0;
                self.visit_list(children);
                let size = self.expr_count;
                self.hist.observe(size);
                self.expr_count = saved;
            },
            Node::Expression { children, .. } => {
                self.expr_count = self.expr_count + 1;
                self.visit_list(children);
            },
            Node::MethodCallExpr { receiver, args, .. } => {
                self.expr_count = self.expr_count + 1;
                self.visit_node(&**receiver);
                proof {
                    lemma_shallow_le_count(**receiver);
                }
                self.visit_list(args);
            },
            Node::FieldAccessExpr { base, .. } => {
                self.expr_count = self.expr_count + 1;
                self.visit_node(&**base);
            },
            Node::Receiver => {
                self.expr_count = self.expr_count + 1;
                proof {
                    assert(old(self)@ + stmt_observations(*n) =~= old(self)@);
                }
            },
        }
    }

    fn visit_list(&mut self, l: &Vec<Node>)
        requires
            old(self).pending_exprs() + node_list_count(l@) <= u64::MAX,
        ensures
            final(self).pending_exprs() == old(self).pending_exprs() + shallow_expr_count_list(
                l@,
            ),
            final(self)@ == old(self)@ + stmt_observations_list(l@),
        decreases node_list_count(l@), 1int,
    {
        let mut i: usize = 0;
        proof {
            assert(l@.take(0) =~= Seq::<Node>::empty());
            assert(old(self)@ + stmt_observations_list(l@.take(0)) =~= old(self)@);
        }
        while i < l.len()
            invariant
                i <= l@.len(),
                old(self).pending_exprs() + node_list_count(l@) <= u64::MAX,
                self.pending_exprs() == old(self).pending_exprs() + shallow_expr_count_list(
                    l@.take(i as int),
                ),
                self@ == old(self)@ + stmt_observations_list(l@.take(i as int)),
            decreases l@.len() - i,
        {
            proof {
                lemma_node_list_count_elem(l@, i as int);
                lemma_shallow_list_le_count(l@.take(i as int));
            }
            self.visit_node(&l[i]);
            proof {
                assert(l@.take(i + 1).drop_last() =~= l@.take(i as int));
                assert(l@.take(i + 1).last() == l@[i as int]);
            }
            i = i + 1;
        }
        proof {
            assert(l@.take(l@.len() as int) =~= l@);
        }
    }

    /// Walk one source unit's tree, observing every statement's size.
    pub fn visit_tree(&mut self, n: &Node)
        requires
            old(self).pending_exprs() + node_count(*n) <= u64::MAX,
        ensures
            final(self).pending_exprs() == old(self).pending_exprs() + shallow_expr_count(*n),
            final(self)@ == old(self)@ + stmt_observations(*n),
    {
        self.visit_node(n);
    }

    /// Pure read of the statement-size statistics gathered so far.
    pub fn snapshot(&self) -> (r: Snapshot)
        ensures
            snapshot_matches(self@, r),
    {
        self.hist.snapshot()
    }

    /// The histogram of statement sizes gathered so far.
    pub fn histogram(&self) -> (r: &Histogram)
        ensures
            r@ == self@,
    {
        &self.hist
    }
}

impl Visitor for StatementSize {
    open spec fn collector() -> MetricCollectorBox {
        MetricCollectorBox::StatementSize
    }

    fn visitor() -> (r: MetricCollectorBox) {
        MetricCollectorBox::StatementSize
    }
}

/// The registered form of the statement-size collector.
pub fn make_collector() -> (r: MetricCollectorBox)
    ensures
        r == MetricCollectorBox::StatementSize,
{
    StatementSize::visitor()
}

} // verus!
