//! The relatedness analyzer: per function, the set of receiver fields it
//! reads or writes and the set of receiver methods it calls, and pairwise
//! relatedness predicates over those sets.
//!
//! Functions are keyed by a synthetic identity: the index at which the
//! function was discovered during the traversal that built the mapping.
//! Querying an index that was never filled in is a caller error and is
//! reported loudly instead of silently answering `false`.

use vstd::prelude::*;

use crate::ast::Node;
use crate::ast::lemma_node_list_count_elem;
use crate::ast::node_count;
use crate::ast::node_list_count;

verus! {

/// Why a relatedness query failed: one of the two functions asked about was
/// never visited into the mapping.
#[derive(Clone, Copy, Debug, PartialEq, Eq, Structural)]
pub enum QueryError {
    UnknownFunction,
}

/// The set of views of a list of names.
pub open spec fn names_set(l: Seq<String>) -> Set<Seq<char>>
    decreases l,
{
    if l.len() == 0 {
        Set::empty()
    } else {
        names_set(l.drop_last()).insert(l.last()@)
    }
}

/// A name is in the set exactly when it is in the list.
pub proof fn lemma_names_set_contains(l: Seq<String>, m: Seq<char>)
    ensures
        names_set(l).contains(m) <==> (exists|i: int| 0 <= i < l.len() && l[i]@ == m),
    decreases l.len(),
{
    if l.len() > 0 {
        lemma_names_set_contains(l.drop_last(), m);
        if exists|i: int| 0 <= i < l.len() && l[i]@ == m {
            let i = choose|i: int| 0 <= i < l.len() && l[i]@ == m;
            if i < l.len() - 1 {
                assert(l.drop_last()[i]@ == m);
            }
        }
        if exists|i: int| 0 <= i < l.len() - 1 && l.drop_last()[i]@ == m {
            let i = choose|i: int| 0 <= i < l.len() - 1 && l.drop_last()[i]@ == m;
            assert(l[i]@ == m);
        }
    }
}

/// The receiver fields referenced in `n`: members of field accesses whose
/// base is the bare receiver itself.
pub open spec fn receiver_fields(n: Node) -> Set<Seq<char>>
    decreases n, 0int,
{
    match n {
        Node::Module { items } => receiver_fields_list(items@),
        Node::EnumDecl { .. } => Set::empty(),
        Node::StructDecl { .. } => Set::empty(),
        Node::FunctionDecl { body, .. } => receiver_fields_list(body@),
        Node::Statement { children } => receiver_fields_list(children@),
        Node::Expression { children, .. } => receiver_fields_list(children@),
        Node::MethodCallExpr { receiver, args, .. } => receiver_fields(*receiver).union(
            receiver_fields_list(args@),
        ),
        Node::FieldAccessExpr { base, member } => if *base is Receiver {
            receiver_fields(*base).insert(member@)
        } else {
            receiver_fields(*base)
        },
        Node::Receiver => Set::empty(),
    }
}

/// Receiver fields referenced anywhere in a forest.
pub open spec fn receiver_fields_list(l: Seq<Node>) -> Set<Seq<char>>
    decreases l, 1int,
{
    if l.len() == 0 {
        Set::empty()
    } else {
        receiver_fields_list(l.drop_last()).union(receiver_fields(l.last()))
    }
}

/// The receiver methods called in `n`: method names of calls whose receiver
/// is the bare receiver itself. A call on a field of the receiver is not a
/// receiver call.
pub open spec fn receiver_calls(n: Node) -> Set<Seq<char>>
    decreases n, 0int,
{
    match n {
        Node::Module { items } => receiver_calls_list(items@),
        Node::EnumDecl { .. } => Set::empty(),
        Node::StructDecl { .. } => Set::empty(),
        Node::FunctionDecl { body, .. } => receiver_calls_list(body@),
        Node::Statement { children } => receiver_calls_list(children@),
        Node::Expression { children, .. } => receiver_calls_list(children@),
        Node::MethodCallExpr { receiver, method, args } => if *receiver is Receiver {
            receiver_calls(*receiver).union(receiver_calls_list(args@)).insert(method@)
        } else {
            receiver_calls(*receiver).union(receiver_calls_list(args@))
        },
        Node::FieldAccessExpr { base, .. } => receiver_calls(*base),
        Node::Receiver => Set::empty(),
    }
}

/// Receiver calls made anywhere in a forest.
pub open spec fn receiver_calls_list(l: Seq<Node>) -> Set<Seq<char>>
    decreases l, 1int,
{
    if l.len() == 0 {
        Set::empty()
    } else {
        receiver_calls_list(l.drop_last()).union(receiver_calls(l.last()))
    }
}

/// The field sets of the functions declared in `n`, one per function in
/// discovery (pre-)order: a function's own entry comes before those of
/// functions nested in its body.
pub open spec fn fn_field_sets(n: Node) -> Seq<Set<Seq<char>>>
    decreases n, 0int,
{
    match n {
        Node::Module { items } => fn_field_sets_list(items@),
        Node::EnumDecl { .. } => Seq::empty(),
        Node::StructDecl { .. } => Seq::empty(),
        Node::FunctionDecl { body, .. } => seq![receiver_fields_list(body@)] + fn_field_sets_list(
            body@,
        ),
        Node::Statement { children } => fn_field_sets_list(children@),
        Node::Expression { children, .. } => fn_field_sets_list(children@),
        Node::MethodCallExpr { receiver, args, .. } => fn_field_sets(*receiver)
            + fn_field_sets_list(args@),
        Node::FieldAccessExpr { base, .. } => fn_field_sets(*base),
        Node::Receiver => Seq::empty(),
    }
}

/// Field sets of the functions declared anywhere in a forest.
pub open spec fn fn_field_sets_list(l: Seq<Node>) -> Seq<Set<Seq<char>>>
    decreases l, 1int,
{
    if l.len() == 0 {
        Seq::empty()
    } else {
        fn_field_sets_list(l.drop_last()) + fn_field_sets(l.last())
    }
}

/// Name and receiver-call set of the functions declared in `n`, one per
/// function in discovery (pre-)order.
pub open spec fn fn_call_entries(n: Node) -> Seq<(Seq<char>, Set<Seq<char>>)>
    decreases n, 0int,
{
    match n {
        Node::Module { items } => fn_call_entries_list(items@),
        Node::EnumDecl { .. } => Seq::empty(),
        Node::StructDecl { .. } => Seq::empty(),
        Node::FunctionDecl { name, body, .. } => seq![(name@, receiver_calls_list(body@))]
            + fn_call_entries_list(body@),
        Node::Statement { children } => fn_call_entries_list(children@),
        Node::Expression { children, .. } => fn_call_entries_list(children@),
        Node::MethodCallExpr { receiver, args, .. } => fn_call_entries(*receiver)
            + fn_call_entries_list(args@),
        Node::FieldAccessExpr { base, .. } => fn_call_entries(*base),
        Node::Receiver => Seq::empty(),
    }
}

/// Call entries of the functions declared anywhere in a forest.
pub open spec fn fn_call_entries_list(l: Seq<Node>) -> Seq<(Seq<char>, Set<Seq<char>>)>
    decreases l, 1int,
{
    if l.len() == 0 {
        Seq::empty()
    } else {
        fn_call_entries_list(l.drop_last()) + fn_call_entries(l.last())
    }
}

/// The set of field identifiers referenced through the receiver.
pub struct FieldSet {
    members: Vec<String>,
}

impl View for FieldSet {
    type V = Set<Seq<char>>;

    closed spec fn view(&self) -> Set<Seq<char>> {
        names_set(self.members@)
    }
}

impl FieldSet {
    /// The empty field set.
    pub fn new() -> (r: FieldSet)
        ensures
            r@ == Set::<Seq<char>>::empty(),
    {
        FieldSet { members: Vec::new() }
    }

    /// Whether `name` is one of the recorded fields.
    pub fn contains(&self, name: &String) -> (r: bool)
        ensures
            r == self@.contains(name@),
    {
        let mut i: usize = 0;
        while i < self.members.len()
            invariant
                i <= self.members@.len(),
                forall|j: int| 0 <= j < i ==> self.members@[j]@ != name@,
            decreases self.members@.len() - i,
        {
            if self.members[i] == *name {
                proof {
                    lemma_names_set_contains(self.members@, name@);
                    assert(self.members@[i as int]@ == name@);
                }
                return true;
            }
            i = i + 1;
        }
        proof {
            lemma_names_set_contains(self.members@, name@);
        }
        false
    }

    fn visit_node(&mut self, n: &Node)
        ensures
            final(self)@ == old(self)@.union(receiver_fields(*n)),
        decreases node_count(*n), 0int,
    {
        match n {
            Node::Module { items } => {
                self.visit_list(items);
            },
            Node::EnumDecl { .. } => {
                proof {
                    assert(old(self)@.union(receiver_fields(*n)) =~= old(self)@);
                }
            },
            Node::StructDecl { .. } => {
                proof {
                    assert(old(self)@.union(receiver_fields(*n)) =~= old(self)@);
                }
            },
            Node::FunctionDecl { body, .. } => {
                self.visit_list(body);
            },
            Node::Statement { children } => {
                self.visit_list(children);
            },
            Node::Expression { children, .. } => {
                self.visit_list(children);
            },
            Node::MethodCallExpr { receiver, args, .. } => {
                self.visit_node(&**receiver);
                self.visit_list(args);
                proof {
                    assert(old(self)@.union(receiver_fields(*n)) =~= old(self)@.union(
                        receiver_fields(**receiver),
                    ).union(receiver_fields_list(args@)));
                }
            },
            Node::FieldAccessExpr { base, member } => {
                match &**base {
                    Node::Receiver => {
                        self.members.push(member.clone());
                        proof {
                            assert(self.members@.drop_last() =~= old(self).members@);
                            assert(receiver_fields(**base) =~= Set::<Seq<char>>::empty());
                            assert(old(self)@.union(receiver_fields(*n)) =~= old(self)@.insert(
                                member@,
                            ));
                        }
                    },
                    _ => {
                        self.visit_node(&**base);
                    },
                }
            },
            Node::Receiver => {
                proof {
                    assert(old(self)@.union(receiver_fields(*n)) =~= old(self)@);
                }
            },
        }
    }

    fn visit_list(&mut self, l: &Vec<Node>)
        ensures
            final(self)@ == old(self)@.union(receiver_fields_list(l@)),
        decreases node_list_count(l@), 1int,
    {
        let mut i: usize = 0;
        proof {
            assert(l@.take(0) =~= Seq::<Node>::empty());
            assert(old(self)@.union(receiver_fields_list(l@.take(0))) =~= old(self)@);
        }
        while i < l.len()
            invariant
                i <= l@.len(),
                self@ == old(self)@.union(receiver_fields_list(l@.take(i as int))),
            decreases l@.len() - i,
        {
            proof {
                lemma_node_list_count_elem(l@, i as int);
            }
            self.visit_node(&l[i]);
            proof {
                assert(l@.take(i + 1).drop_last() =~= l@.take(i as int));
                assert(l@.take(i + 1).last() == l@[i as int]);
                assert(old(self)@.union(receiver_fields_list(l@.take(i as int))).union(
                    receiver_fields(l@[i as int]),
                ) =~= old(self)@.union(receiver_fields_list(l@.take(i + 1))));
            }
            i = i + 1;
        }
        proof {
            assert(l@.take(l@.len() as int) =~= l@);
        }
    }

    /// Record every receiver field referenced in `n`.
    pub fn visit_tree(&mut self, n: &Node)
        ensures
            final(self)@ == old(self)@.union(receiver_fields(*n)),
    {
        self.visit_node(n);
    }
}

/// The set of method names invoked directly on the receiver.
pub struct MethodCalls {
    names: Vec<String>,
}

impl View for MethodCalls {
    type V = Set<Seq<char>>;

    closed spec fn view(&self) -> Set<Seq<char>> {
        names_set(self.names@)
    }
}

impl MethodCalls {
    /// The empty call set.
    pub fn new() -> (r: MethodCalls)
        ensures
            r@ == Set::<Seq<char>>::empty(),
    {
        MethodCalls { names: Vec::new() }
    }

    /// Whether `name` is one of the recorded receiver calls.
    pub fn contains(&self, name: &String) -> (r: bool)
        ensures
            r == self@.contains(name@),
    {
        let mut i: usize = 0;
        while i < self.names.len()
            invariant
                i <= self.names@.len(),
                forall|j: int| 0 <= j < i ==> self.names@[j]@ != name@,
            decreases self.names@.len() - i,
        {
            if self.names[i] == *name {
                proof {
                    lemma_names_set_contains(self.names@, name@);
                    assert(self.names@[i as int]@ == name@);
                }
                return true;
            }
            i = i + 1;
        }
        proof {
            lemma_names_set_contains(self.names@, name@);
        }
        false
    }

    fn visit_node(&mut self, n: &Node)
        ensures
            final(self)@ == old(self)@.union(receiver_calls(*n)),
        decreases node_count(*n), 0int,
    {
        match n {
            Node::Module { items } => {
                self.visit_list(items);
            },
            Node::EnumDecl { .. } => {
                proof {
                    assert(old(self)@.union(receiver_calls(*n)) =~= old(self)@);
                }
            },
            Node::StructDecl { .. } => {
                proof {
                    assert(old(self)@.union(receiver_calls(*n)) =~= old(self)@);
                }
            },
            Node::FunctionDecl { body, .. } => {
                self.visit_list(body);
            },
            Node::Statement { children } => {
                self.visit_list(children);
            },
            Node::Expression { children, .. } => {
                self.visit_list(children);
            },
            Node::MethodCallExpr { receiver, method, args } => {
                match &**receiver {
                    Node::Receiver => {
                        self.names.push(method.clone());
                        proof {
                            assert(self.names@.drop_last() =~= old(self).names@);
                        }
                    },
                    _ => {},
                }
                self.visit_node(&**receiver);
                self.visit_list(args);
                proof {
                    if **receiver is Receiver {
                        assert(old(self)@.union(receiver_calls(*n)) =~= old(self)@.insert(
                            method@,
                        ).union(receiver_calls(**receiver)).union(receiver_calls_list(args@)));
                    } else {
                        assert(old(self)@.union(receiver_calls(*n)) =~= old(self)@.union(
                            receiver_calls(**receiver),
                        ).union(receiver_calls_list(args@)));
                    }
                }
            },
            Node::FieldAccessExpr { base, .. } => {
                self.visit_node(&**base);
            },
            Node::Receiver => {
                proof {
                    assert(old(self)@.union(receiver_calls(*n)) =~= old(self)@);
                }
            },
        }
    }

    fn visit_list(&mut self, l: &Vec<Node>)
        ensures
            final(self)@ == old(self)@.union(receiver_calls_list(l@)),
        decreases node_list_count(l@), 1int,
    {
        let mut i: usize = 0;
        proof {
            assert(l@.take(0) =~= Seq::<Node>::empty());
            assert(old(self)@.union(receiver_calls_list(l@.take(0))) =~= old(self)@);
        }
        while i < l.len()
            invariant
                i <= l@.len(),
                self@ == old(self)@.union(receiver_calls_list(l@.take(i as int))),
            decreases l@.len() - i,
        {
            proof {
                lemma_node_list_count_elem(l@, i as int);
            }
            self.visit_node(&l[i]);
            proof {
                assert(l@.take(i + 1).drop_last() =~= l@.take(i as int));
                assert(l@.take(i + 1).last() == l@[i as int]);
                assert(old(self)@.union(receiver_calls_list(l@.take(i as int))).union(
                    receiver_calls(l@[i as int]),
                ) =~= old(self)@.union(receiver_calls_list(l@.take(i + 1))));
            }
            i = i + 1;
        }
        proof {
            assert(l@.take(l@.len() as int) =~= l@);
        }
    }

    /// Record every method call made directly on the receiver in `n`.
    pub fn visit_tree(&mut self, n: &Node)
        ensures
            final(self)@ == old(self)@.union(receiver_calls(*n)),
    {
        self.visit_node(n);
    }
}

/// Field usage per function, keyed by discovery index.
pub struct FnFieldSet {
    field_usage: Vec<FieldSet>,
}

impl View for FnFieldSet {
    type V = Seq<Set<Seq<char>>>;

    closed spec fn view(&self) -> Seq<Set<Seq<char>>> {
        self.field_usage@.map_values(|fs: FieldSet| fs@)
    }
}

impl FnFieldSet {
    /// The empty mapping.
    pub fn new() -> (r: FnFieldSet)
        ensures
            r@ == Seq::<Set<Seq<char>>>::empty(),
    {
        let r = FnFieldSet { field_usage: Vec::new() };
        proof {
            assert(r@ =~= Seq::<Set<Seq<char>>>::empty());
        }
        r
    }

    /// How many functions have been visited into the mapping.
    pub fn len(&self) -> (r: usize)
        ensures
            r == self@.len(),
    {
        self.field_usage.len()
    }

    fn visit_node(&mut self, n: &Node)
        ensures
            final(self)@ == old(self)@ + fn_field_sets(*n),
        decreases node_count(*n), 0int,
    {
        match n {
            Node::Module { items } => {
                self.visit_list(items);
            },
            Node::EnumDecl { .. } => {
                proof {
                    assert(old(self)@ + fn_field_sets(*n) =~= old(self)@);
                }
            },
            Node::StructDecl { .. } => {
                proof {
                    assert(old(self)@ + fn_field_sets(*n) =~= old(self)@);
                }
            },
            Node::FunctionDecl { body, .. } => {
                let mut fields = FieldSet::new();
                fields.visit_list(body);
                proof {
                    assert(fields@ =~= receiver_fields_list(body@));
                }
                self.field_usage.push(fields);
                proof {
                    assert(self@ =~= old(self)@.push(receiver_fields_list(body@)));
                }
                self.visit_list(body);
                proof {
                    assert(old(self)@.push(receiver_fields_list(body@)) + fn_field_sets_list(
                        body@,
                    ) =~= old(self)@ + fn_field_sets(*n));
                }
            },
            Node::Statement { children } => {
                self.visit_list(children);
            },
            Node::Expression { children, .. } => {
                self.visit_list(children);
            },
            Node::MethodCallExpr { receiver, args, .. } => {
                self.visit_node(&**receiver);
                self.visit_list(args);
                proof {
                    assert(old(self)@ + fn_field_sets(**receiver) + fn_field_sets_list(args@)
                        =~= old(self)@ + fn_field_sets(*n));
                }
            },
            Node::FieldAccessExpr { base, .. } => {
                self.visit_node(&**base);
            },
            Node::Receiver => {
                proof {
                    assert(old(self)@ + fn_field_sets(*n) =~= old(self)@);
                }
            },
        }
    }

    fn visit_list(&mut self, l: &Vec<Node>)
        ensures
            final(self)@ == old(self)@ + fn_field_sets_list(l@),
        decreases node_list_count(l@), 1int,
    {
        let mut i: usize = 0;
        proof {
            assert(l@.take(0) =~= Seq::<Node>::empty());
            assert(old(self)@ + fn_field_sets_list(l@.take(0)) =~= old(self)@);
        }
        while i < l.len()
            invariant
                i <= l@.len(),
                self@ == old(self)@ + fn_field_sets_list(l@.take(i as int)),
            decreases l@.len() - i,
        {
            proof {
                lemma_node_list_count_elem(l@, i as int);
            }
            self.visit_node(&l[i]);
            proof {
                assert(l@.take(i + 1).drop_last() =~= l@.take(i as int));
                assert(l@.take(i + 1).last() == l@[i as int]);
                assert(old(self)@ + fn_field_sets_list(l@.take(i as int)) + fn_field_sets(
                    l@[i as int],
                ) =~= old(self)@ + fn_field_sets_list(l@.take(i + 1)));
            }
            i = i + 1;
        }
        proof {
            assert(l@.take(l@.len() as int) =~= l@);
        }
    }

    /// Visit every function declared in `n` into the mapping, recording the
    /// receiver fields its body references.
    pub fn visit_tree(&mut self, n: &Node)
        ensures
            final(self)@ == old(self)@ + fn_field_sets(*n),
    {
        self.visit_node(n);
    }

    /// The field set recorded for the function with index `i`, if any.
    pub fn field_set(&self, i: usize) -> (r: Option<&FieldSet>)
        ensures
            match r {
                Option::Some(fs) => i < self@.len() && fs@ == self@[i as int],
                Option::None => i >= self@.len(),
            },
    {
        if i < self.field_usage.len() {
            Option::Some(&self.field_usage[i])
        } else {
            Option::None
        }
    }

    /// Whether the two functions share at least one referenced receiver
    /// field: a cohesion signal. Fails if either index was never visited.
    pub fn related(&self, func1: usize, func2: usize) -> (r: Result<bool, QueryError>)
        ensures
            match r {
                Result::Ok(b) => func1 < self@.len() && func2 < self@.len() && (b <==> exists|
                    m: Seq<char>,
                |
                    self@[func1 as int].contains(m) && self@[func2 as int].contains(m)),
                Result::Err(e) => (func1 >= self@.len() || func2 >= self@.len()) && e
                    == QueryError::UnknownFunction,
            },
    {
        if func1 >= self.field_usage.len() || func2 >= self.field_usage.len() {
            return Result::Err(QueryError::UnknownFunction);
        }
        let set1 = &self.field_usage[func1];
        let set2 = &self.field_usage[func2];
        let ghost s1 = self@[func1 as int];
        let ghost s2 = self@[func2 as int];
        proof {
            assert(s1 == set1@);
            assert(s2 == set2@);
        }
        let mut i: usize = 0;
        while i < set1.members.len()
            invariant
                i <= set1.members@.len(),
                func1 < self@.len(),
                func2 < self@.len(),
                s1 == self@[func1 as int],
                s2 == self@[func2 as int],
                s1 == set1@,
                s2 == set2@,
                forall|j: int| 0 <= j < i ==> !s2.contains(#[trigger] set1.members@[j]@),
            decreases set1.members@.len() - i,
        {
            if set2.contains(&set1.members[i]) {
                proof {
                    lemma_names_set_contains(set1.members@, set1.members@[i as int]@);
                    assert(s1.contains(set1.members@[i as int]@) && s2.contains(
                        set1.members@[i as int]@,
                    ));
                }
                return Result::Ok(true);
            }
            i = i + 1;
        }
        proof {
            assert forall|m: Seq<char>| !(s1.contains(m) && s2.contains(m)) by {
                lemma_names_set_contains(set1.members@, m);
                if s1.contains(m) {
                    let j = choose|j: int|
                        0 <= j < set1.members@.len() && set1.members@[j]@ == m;
                    assert(!s2.contains(set1.members@[j]@));
                }
            }
        }
        Result::Ok(false)
    }
}

/// One function's entry in the call mapping: its name and its receiver
/// call set.
pub struct FnCallsEntry {
    name: String,
    calls: MethodCalls,
}

impl View for FnCallsEntry {
    type V = (Seq<char>, Set<Seq<char>>);

    closed spec fn view(&self) -> (Seq<char>, Set<Seq<char>>) {
        (self.name@, self.calls@)
    }
}

/// Receiver calls per function, keyed by discovery index, together with
/// each function's own name.
pub struct FnMethodCalls {
    entries: Vec<FnCallsEntry>,
}

impl View for FnMethodCalls {
    type V = Seq<(Seq<char>, Set<Seq<char>>)>;

    closed spec fn view(&self) -> Seq<(Seq<char>, Set<Seq<char>>)> {
        self.entries@.map_values(|e: FnCallsEntry| e@)
    }
}

impl FnMethodCalls {
    /// The empty mapping.
    pub fn new() -> (r: FnMethodCalls)
        ensures
            r@ == Seq::<(Seq<char>, Set<Seq<char>>)>::empty(),
    {
        let r = FnMethodCalls { entries: Vec::new() };
        proof {
            assert(r@ =~= Seq::<(Seq<char>, Set<Seq<char>>)>::empty());
        }
        r
    }

    /// How many functions have been visited into the mapping.
    pub fn len(&self) -> (r: usize)
        ensures
            r == self@.len(),
    {
        self.entries.len()
    }

    fn visit_node(&mut self, n: &Node)
        ensures
            final(self)@ == old(self)@ + fn_call_entries(*n),
        decreases node_count(*n), 0int,
    {
        match n {
            Node::Module { items } => {
                self.visit_list(items);
            },
            Node::EnumDecl { .. } => {
                proof {
                    assert(old(self)@ + fn_call_entries(*n) =~= old(self)@);
                }
            },
            Node::StructDecl { .. } => {
                proof {
                    assert(old(self)@ + fn_call_entries(*n) =~= old(self)@);
                }
            },
            Node::FunctionDecl { name, body, .. } => {
                let mut calls = MethodCalls::new();
                calls.visit_list(body);
                proof {
                    assert(calls@ =~= receiver_calls_list(body@));
                }
                self.entries.push(FnCallsEntry { name: name.clone(), calls });
                proof {
                    assert(self@ =~= old(self)@.push((name@, receiver_calls_list(body@))));
                }
                self.visit_list(body);
                proof {
                    assert(old(self)@.push((name@, receiver_calls_list(body@)))
                        + fn_call_entries_list(body@) =~= old(self)@ + fn_call_entries(*n));
                }
            },
            Node::Statement { children } => {
                self.visit_list(children);
            },
            Node::Expression { children, .. } => {
                self.visit_list(children);
            },
            Node::MethodCallExpr { receiver, args, .. } => {
                self.visit_node(&**receiver);
                self.visit_list(args);
                proof {
                    assert(old(self)@ + fn_call_entries(**receiver) + fn_call_entries_list(args@)
                        =~= old(self)@ + fn_call_entries(*n));
                }
            },
            Node::FieldAccessExpr { base, .. } => {
                self.visit_node(&**base);
            },
            Node::Receiver => {
                proof {
                    assert(old(self)@ + fn_call_entries(*n) =~= old(self)@);
                }
            },
        }
    }

    fn visit_list(&mut self, l: &Vec<Node>)
        ensures
            final(self)@ == old(self)@ + fn_call_entries_list(l@),
        decreases node_list_count(l@), 1int,
    {
        let mut i: usize = 0;
        proof {
            assert(l@.take(0) =~= Seq::<Node>::empty());
            assert(old(self)@ + fn_call_entries_list(l@.take(0)) =~= old(self)@);
        }
        while i < l.len()
            invariant
                i <= l@.len(),
                self@ == old(self)@ + fn_call_entries_list(l@.take(i as int)),
            decreases l@.len() - i,
        {
            proof {
                lemma_node_list_count_elem(l@, i as int);
            }
            self.visit_node(&l[i]);
            proof {
                assert(l@.take(i + 1).drop_last() =~= l@.take(i as int));
                assert(l@.take(i + 1).last() == l@[i as int]);
                assert(old(self)@ + fn_call_entries_list(l@.take(i as int)) + fn_call_entries(
                    l@[i as int],
                ) =~= old(self)@ + fn_call_entries_list(l@.take(i + 1)));
            }
            i = i + 1;
        }
        proof {
            assert(l@.take(l@.len() as int) =~= l@);
        }
    }

    /// Visit every function declared in `n` into the mapping, recording its
    /// name and the receiver methods its body calls.
    pub fn visit_tree(&mut self, n: &Node)
        ensures
            final(self)@ == old(self)@ + fn_call_entries(*n),
    {
        self.visit_node(n);
    }

    /// The call set recorded for the function with index `i`, if any.
    pub fn calls_of(&self, i: usize) -> (r: Option<&MethodCalls>)
        ensures
            match r {
                Option::Some(c) => i < self@.len() && c@ == self@[i as int].1,
                Option::None => i >= self@.len(),
            },
    {
        if i < self.entries.len() {
            Option::Some(&self.entries[i].calls)
        } else {
            Option::None
        }
    }

    /// Whether either function's receiver-call set contains the other's
    /// name: a call-graph adjacency signal. Fails if either index was never
    /// visited.
    pub fn related(&self, func1: usize, func2: usize) -> (r: Result<bool, QueryError>)
        ensures
            match r {
                Result::Ok(b) => func1 < self@.len() && func2 < self@.len() && (b == (
                self@[func1 as int].1.contains(self@[func2 as int].0)
                    || self@[func2 as int].1.contains(self@[func1 as int].0))),
                Result::Err(e) => (func1 >= self@.len() || func2 >= self@.len()) && e
                    == QueryError::UnknownFunction,
            },
    {
        if func1 >= self.entries.len() || func2 >= self.entries.len() {
            return Result::Err(QueryError::UnknownFunction);
        }
        let r = self.entries[func1].calls.contains(&self.entries[func2].name)
            || self.entries[func2].calls.contains(&self.entries[func1].name);
        Result::Ok(r)
    }
}

} // verus!
