//! The syntax-tree model: a closed set of node variants supplied by an
//! external parsing stage. Each node carries its children in source order.

use vstd::prelude::*;

verus! {

/// One attribute attached to a declaration or an enum variant.
pub struct Attribute {
    pub name: String,
}

/// One variant of an enum declaration, with its own attribute list.
pub struct VariantDecl {
    pub name: String,
    pub attrs: Vec<Attribute>,
}

/// Distinguishes expression forms that some collectors count separately.
pub enum ExprKind {
    /// Any ordinary expression: literal, operator, call, block, and so on.
    Plain,
    /// A conditional expression.
    If,
}

/// A syntax-tree node. The tree is immutable and externally owned; the
/// library only reads it.
pub enum Node {
    /// A source unit or inline module; its items in declaration order.
    Module { items: Vec<Node> },
    /// An enum declaration with its attributes and variants.
    EnumDecl { attrs: Vec<Attribute>, variants: Vec<VariantDecl> },
    /// A struct declaration with its attributes.
    StructDecl { attrs: Vec<Attribute> },
    /// A function or method declaration: name, parameter names (the
    /// receiver excluded), and the body as a statement list.
    FunctionDecl { name: String, params: Vec<String>, body: Vec<Node> },
    /// One statement; its children are the expressions (and nested items)
    /// it is built from.
    Statement { children: Vec<Node> },
    /// An expression with its sub-expressions (and, for block-like forms,
    /// nested statements) in left-to-right order.
    Expression { kind: ExprKind, children: Vec<Node> },
    /// A method call `recv.m(args)`.
    MethodCallExpr { receiver: Box<Node>, method: String, args: Vec<Node> },
    /// A field access `base.member`.
    FieldAccessExpr { base: Box<Node>, member: String },
    /// The bare receiver (`self`) expression of the enclosing method.
    Receiver,
}

/// Total number of nodes in a tree, counting the node itself.
pub open spec fn node_count(n: Node) -> nat
    decreases n,
{
    match n {
        Node::Module { items } => 1 + node_list_count(items@),
        Node::EnumDecl { .. } => 1,
        Node::StructDecl { .. } => 1,
        Node::FunctionDecl { body, .. } => 1 + node_list_count(body@),
        Node::Statement { children } => 1 + node_list_count(children@),
        Node::Expression { children, .. } => 1 + node_list_count(children@),
        Node::MethodCallExpr { receiver, args, .. } => 1 + node_count(*receiver)
            + node_list_count(args@),
        Node::FieldAccessExpr { base, .. } => 1 + node_count(*base),
        Node::Receiver => 1,
    }
}

/// Total number of nodes in a forest.
pub open spec fn node_list_count(l: Seq<Node>) -> nat
    decreases l,
{
    if l.len() == 0 {
        0
    } else {
        node_list_count(l.drop_last()) + node_count(l.last())
    }
}

/// A forest's node count splits at any cut point.
pub proof fn lemma_node_list_count_split(l: Seq<Node>, i: int)
    requires
        0 <= i <= l.len(),
    ensures
        node_list_count(l) == node_list_count(l.take(i)) + node_list_count(l.skip(i)),
    decreases l.len(),
{
    if i == l.len() {
        assert(l.take(i) =~= l);
        assert(l.skip(i) =~= Seq::<Node>::empty());
    } else {
        lemma_node_list_count_split(l.drop_last(), i);
        assert(l.drop_last().take(i) =~= l.take(i));
        assert(l.skip(i).drop_last() =~= l.drop_last().skip(i));
        assert(l.skip(i).last() == l.last());
        assert(l.skip(i).len() > 0);
    }
}

/// Stepping a prefix of a forest by one node.
pub proof fn lemma_node_list_count_step(l: Seq<Node>, i: int)
    requires
        0 <= i < l.len(),
    ensures
        node_list_count(l.take(i + 1)) == node_list_count(l.take(i)) + node_count(l[i]),
{
    assert(l.take(i + 1).drop_last() =~= l.take(i));
    assert(l.take(i + 1).last() == l[i]);
}

/// Each tree of a forest counts no more than the whole forest.
pub proof fn lemma_node_list_count_elem(l: Seq<Node>, i: int)
    requires
        0 <= i < l.len(),
    ensures
        node_list_count(l.take(i)) + node_count(l[i]) <= node_list_count(l),
{
    lemma_node_list_count_step(l, i);
    lemma_node_list_count_split(l, i + 1);
}

} // verus!
