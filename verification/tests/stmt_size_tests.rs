use code_metrics::ast::ExprKind;
use code_metrics::ast::Node;
use code_metrics::stmt_size::StatementSize;

fn expr(children: Vec<Node>) -> Node {
    Node::Expression { kind: ExprKind::Plain, children }
}

fn function(name: &str, body: Vec<Node>) -> Node {
    Node::FunctionDecl { name: name.to_string(), params: vec![], body }
}

#[test]
fn mut_ident() {
    // One statement built from seven nested expressions, as in
    // `let mut aboba = Arc::new(Mutex::new(Some(69)));`: the literal, each
    // callee name and each invocation count separately.
    let seven_deep = expr(vec![expr(vec![expr(vec![expr(vec![expr(vec![expr(vec![expr(
        vec![],
    )])])])])])]);
    let tree = Node::Module {
        items: vec![function("main", vec![Node::Statement { children: vec![seven_deep] }])],
    };
    let mut acc = StatementSize::new();
    acc.visit_tree(&tree);
    let snap = acc.snapshot();
    assert_eq!(snap.sum, 7u128);
    assert_eq!((snap.sum as f64) / (snap.count as f64), 7.0f64);
    assert_eq!(snap.mode, Some(7));
}

#[test]
fn if_let_pat() {
    // Two statements, of three and one expressions: a binding whose
    // initializer is a call (callee name, invocation, trailing block) and,
    // inside the block, one statement that is a lone expression.
    let inner_stmt = Node::Statement { children: vec![expr(vec![])] };
    let block_expr = expr(vec![inner_stmt]);
    let outer = Node::Statement { children: vec![expr(vec![expr(vec![]), block_expr])] };
    let tree = Node::Module { items: vec![function("main", vec![outer])] };
    let mut acc = StatementSize::new();
    acc.visit_tree(&tree);
    let snap = acc.snapshot();
    assert_eq!(snap.sum, 4u128);
    assert_eq!(snap.count, 2usize);
    assert_eq!((snap.sum as f64) / (snap.count as f64), 2.0f64);
    assert_eq!(snap.mode, Some(3));
}

#[test]
fn nested_statements_measure_independently() {
    // A statement of two expressions around a nested statement of one:
    // the nested statement's expression is not charged to the outer one.
    let inner = Node::Statement { children: vec![expr(vec![])] };
    let outer = Node::Statement { children: vec![expr(vec![]), expr(vec![inner])] };
    let tree = Node::Module { items: vec![function("main", vec![outer])] };
    let mut acc = StatementSize::new();
    acc.visit_tree(&tree);
    let snap = acc.snapshot();
    // Observations: inner statement 1, outer statement 2.
    assert_eq!(snap.sum, 3u128);
    assert_eq!(snap.count, 2usize);
    assert_eq!(snap.mode, Some(2));
}
