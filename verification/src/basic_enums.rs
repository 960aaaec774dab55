//! Enum shape statistics: per enum declaration, the number of variants, the
//! number of enum-level attributes, and each variant's attribute count.

use vstd::prelude::*;

use crate::ast::Node;
use crate::ast::VariantDecl;
use crate::ast::lemma_node_list_count_elem;
use crate::ast::node_count;
use crate::ast::node_list_count;
use crate::collector::MetricCollectorBox;
use crate::collector::Visitor;
use crate::histogram::Histogram;
use crate::histogram::Snapshot;
use crate::histogram::snapshot_matches;

verus! {

/// Componentwise concatenation of two observation triples.
pub open spec fn obs_concat(
    a: (Seq<u64>, Seq<u64>, Seq<u64>),
    b: (Seq<u64>, Seq<u64>, Seq<u64>),
) -> (Seq<u64>, Seq<u64>, Seq<u64>) {
    (a.0 + b.0, a.1 + b.1, a.2 + b.2)
}

/// Attribute counts of each variant, in declaration order.
pub open spec fn variant_attr_observations(vs: Seq<VariantDecl>) -> Seq<u64>
    decreases vs,
{
    if vs.len() == 0 {
        Seq::empty()
    } else {
        variant_attr_observations(vs.drop_last()).push(vs.last().attrs@.len() as u64)
    }
}

/// What walking `n` observes, as a triple of observation sequences:
/// variant counts, enum-level attribute counts, per-variant attribute
/// counts, each in source order.
pub open spec fn enum_observations(n: Node) -> (Seq<u64>, Seq<u64>, Seq<u64>)
    decreases n, 0int,
{
    match n {
        Node::Module { items } => enum_observations_list(items@),
        Node::EnumDecl { attrs, variants } => (
            seq![variants@.len() as u64],
            seq![attrs@.len() as u64],
            variant_attr_observations(variants@),
        ),
        Node::StructDecl { .. } => (Seq::empty(), Seq::empty(), Seq::empty()),
        Node::FunctionDecl { body, .. } => enum_observations_list(body@),
        Node::Statement { children } => enum_observations_list(children@),
        Node::Expression { children, .. } => enum_observations_list(children@),
        Node::MethodCallExpr { receiver, args, .. } => obs_concat(
            enum_observations(*receiver),
            enum_observations_list(args@),
        ),
        Node::FieldAccessExpr { base, .. } => enum_observations(*base),
        Node::Receiver => (Seq::empty(), Seq::empty(), Seq::empty()),
    }
}

/// Enum observations over a forest, in order.
pub open spec fn enum_observations_list(l: Seq<Node>) -> (Seq<u64>, Seq<u64>, Seq<u64>)
    decreases l, 1int,
{
    if l.len() == 0 {
        (Seq::empty(), Seq::empty(), Seq::empty())
    } else {
        obs_concat(enum_observations_list(l.drop_last()), enum_observations(l.last()))
    }
}

/// Observations over concatenated unit lists split into the parts,
/// componentwise: the ground of order-independent aggregation for this
/// collector.
pub proof fn lemma_enum_observations_append(a: Seq<Node>, b: Seq<Node>)
    ensures
        enum_observations_list(a + b).0 == enum_observations_list(a).0 + enum_observations_list(
            b,
        ).0,
        enum_observations_list(a + b).1 == enum_observations_list(a).1 + enum_observations_list(
            b,
        ).1,
        enum_observations_list(a + b).2 == enum_observations_list(a).2 + enum_observations_list(
            b,
        ).2,
    decreases b.len(),
{
    if b.len() == 0 {
        assert(a + b =~= a);
        assert(enum_observations_list(a).0 + enum_observations_list(b).0
            =~= enum_observations_list(a).0);
        assert(enum_observations_list(a).1 + enum_observations_list(b).1
            =~= enum_observations_list(a).1);
        assert(enum_observations_list(a).2 + enum_observations_list(b).2
            =~= enum_observations_list(a).2);
    } else {
        lemma_enum_observations_append(a, b.drop_last());
        assert((a + b).drop_last() =~= a + b.drop_last());
        assert((a + b).last() == b.last());
        assert(enum_observations_list(a).0 + (enum_observations_list(b.drop_last()).0
            + enum_observations(b.last()).0) =~= (enum_observations_list(a).0
            + enum_observations_list(b.drop_last()).0) + enum_observations(b.last()).0);
        assert(enum_observations_list(a).1 + (enum_observations_list(b.drop_last()).1
            + enum_observations(b.last()).1) =~= (enum_observations_list(a).1
            + enum_observations_list(b.drop_last()).1) + enum_observations(b.last()).1);
        assert(enum_observations_list(a).2 + (enum_observations_list(b.drop_last()).2
            + enum_observations(b.last()).2) =~= (enum_observations_list(a).2
            + enum_observations_list(b.drop_last()).2) + enum_observations(b.last()).2);
    }
}

/// Accumulates enum shape statistics over the trees it visits.
pub struct Enums {
    variant_count: Histogram,
    attr_count: Histogram,
    variant_attr_count: Histogram,
}

impl View for Enums {
    type V = (Seq<u64>, Seq<u64>, Seq<u64>);

    closed spec fn view(&self) -> (Seq<u64>, Seq<u64>, Seq<u64>) {
        (self.variant_count@, self.attr_count@, self.variant_attr_count@)
    }
}

impl Enums {
    /// The identity accumulator: nothing observed yet.
    pub fn init() -> (r: Enums)
        ensures
            r@.0 == Seq::<u64>::empty(),
            r@.1 == Seq::<u64>::empty(),
            r@.2 == Seq::<u64>::empty(),
    {
        Enums {
            variant_count: Histogram::new(),
            attr_count: Histogram::new(),
            variant_attr_count: Histogram::new(),
        }
    }

    /// Merge two accumulators; the reduction step of the enums collector.
    pub fn unite(self, rhs: Enums) -> (r: Enums)
        ensures
            r@.0 == self@.0 + rhs@.0,
            r@.1 == self@.1 + rhs@.1,
            r@.2 == self@.2 + rhs@.2,
    {
        Enums {
            variant_count: self.variant_count.merge(&rhs.variant_count),
            attr_count: self.attr_count.merge(&rhs.attr_count),
            variant_attr_count: self.variant_attr_count.merge(&rhs.variant_attr_count),
        }
    }

    fn visit_node(&mut self, n: &Node)
        ensures
            final(self)@.0 == old(self)@.0 + enum_observations(*n).0,
            final(self)@.1 == old(self)@.1 + enum_observations(*n).1,
            final(self)@.2 == old(self)@.2 + enum_observations(*n).2,
        decreases node_count(*n), 0int,
    {
        match n {
            Node::Module { items } => {
                self.visit_list(items);
            },
            Node::EnumDecl { attrs, variants } => {
                self.variant_count.observe(variants.len() as u64);
                self.attr_count.observe(attrs.len() as u64);
                let mut i: usize = 0;
                proof {
                    assert(variants@.take(0) =~= Seq::<VariantDecl>::empty());
                    assert(old(self)@.2 + variant_attr_observations(variants@.take(0)) =~= old(
                        self,
                    )@.2);
                }
                while i < variants.len()
                    invariant
                        i <= variants@.len(),
                        self.variant_count@ == old(self).variant_count@.push(
                            variants@.len() as u64,
                        ),
                        self.attr_count@ == old(self).attr_count@.push(attrs@.len() as u64),
                        self.variant_attr_count@ == old(self)@.2 + variant_attr_observations(
                            variants@.take(i as int),
                        ),
                    decreases variants@.len() - i,
                {
                    self.variant_attr_count.observe(variants[i].attrs.len() as u64);
                    proof {
                        assert(variants@.take(i + 1).drop_last() =~= variants@.take(i as int));
                        assert(variants@.take(i + 1).last() == variants@[i as int]);
                    }
                    i = i + 1;
                }
                proof {
                    assert(variants@.take(variants@.len() as int) =~= variants@);
                    assert(old(self)@.0 + enum_observations(*n).0 =~= old(self)@.0.push(
                        variants@.len() as u64,
                    ));
                    assert(old(self)@.1 + enum_observations(*n).1 =~= old(self)@.1.push(
                        attrs@.len() as u64,
                    ));
                }
            },
            Node::StructDecl { .. } => {
                proof {
                    assert(old(self)@.0 + enum_observations(*n).0 =~= old(self)@.0);
                    assert(old(self)@.1 + enum_observations(*n).1 =~= old(self)@.1);
                    assert(old(self)@.2 + enum_observations(*n).2 =~= old(self)@.2);
                }
            },
            Node::FunctionDecl { body, .. } => {
                self.visit_list(body);
            },
            Node::Statement { children } => {
                self.visit_list(children);
            },
            Node::Expression { children, .. } => {
                self.visit_list(children);
            },
            Node::MethodCallExpr { receiver, args, .. } => {
                self.visit_node(&**receiver);
                self.visit_list(args);
            },
            Node::FieldAccessExpr { base, .. } => {
                self.visit_node(&**base);
            },
            Node::Receiver => {
                proof {
                    assert(old(self)@.0 + enum_observations(*n).0 =~= old(self)@.0);
                    assert(old(self)@.1 + enum_observations(*n).1 =~= old(self)@.1);
                    assert(old(self)@.2 + enum_observations(*n).2 =~= old(self)@.2);
                }
            },
        }
    }

    fn visit_list(&mut self, l: &Vec<Node>)
        ensures
            final(self)@.0 == old(self)@.0 + enum_observations_list(l@).0,
            final(self)@.1 == old(self)@.1 + enum_observations_list(l@).1,
            final(self)@.2 == old(self)@.2 + enum_observations_list(l@).2,
        decreases node_list_count(l@), 1int,
    {
        let mut i: usize = 0;
        proof {
            assert(l@.take(0) =~= Seq::<Node>::empty());
            assert(old(self)@.0 + enum_observations_list(l@.take(0)).0 =~= old(self)@.0);
            assert(old(self)@.1 + enum_observations_list(l@.take(0)).1 =~= old(self)@.1);
            assert(old(self)@.2 + enum_observations_list(l@.take(0)).2 =~= old(self)@.2);
        }
        while i < l.len()
            invariant
                i <= l@.len(),
                self@.0 == old(self)@.0 + enum_observations_list(l@.take(i as int)).0,
                self@.1 == old(self)@.1 + enum_observations_list(l@.take(i as int)).1,
                self@.2 == old(self)@.2 + enum_observations_list(l@.take(i as int)).2,
            decreases l@.len() - i,
        {
            proof {
                lemma_node_list_count_elem(l@, i as int);
            }
            self.visit_node(&l[i]);
            proof {
                assert(l@.take(i + 1).drop_last() =~= l@.take(i as int));
                assert(l@.take(i + 1).last() == l@[i as int]);
            }
            i = i + 1;
        }
        proof {
            assert(l@.take(l@.len() as int) =~= l@);
        }
    }

    /// Walk one source unit's tree, observing every enum declaration.
    pub fn visit_tree(&mut self, n: &Node)
        ensures
            final(self)@.0 == old(self)@.0 + enum_observations(*n).0,
            final(self)@.1 == old(self)@.1 + enum_observations(*n).1,
            final(self)@.2 == old(self)@.2 + enum_observations(*n).2,
    {
        self.visit_node(n);
    }

    /// Pure read of the three statistics gathered so far, in the order
    /// variant count, enum attribute count, variant attribute count.
    pub fn snapshot(&self) -> (r: (Snapshot, Snapshot, Snapshot))
        ensures
            snapshot_matches(self@.0, r.0),
            snapshot_matches(self@.1, r.1),
            snapshot_matches(self@.2, r.2),
    {
        (self.variant_count.snapshot(), self.attr_count.snapshot(), self.variant_attr_count.snapshot())
    }
}

impl Visitor for Enums {
    open spec fn collector() -> MetricCollectorBox {
        MetricCollectorBox::Enums
    }

    fn visitor() -> (r: MetricCollectorBox) {
        MetricCollectorBox::Enums
    }
}

/// The registered form of the enums collector.
pub fn make_collector() -> (r: MetricCollectorBox)
    ensures
        r == MetricCollectorBox::Enums,
{
    Enums::visitor()
}

} // verus!
