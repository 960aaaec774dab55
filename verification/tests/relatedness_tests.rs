use code_metrics::ast::ExprKind;
use code_metrics::ast::Node;
use code_metrics::methods::FnFieldSet;
use code_metrics::methods::FnMethodCalls;
use code_metrics::methods::MethodCalls;
use code_metrics::methods::QueryError;

fn expr(children: Vec<Node>) -> Node {
    Node::Expression { kind: ExprKind::Plain, children }
}

fn receiver_field(member: &str) -> Node {
    Node::FieldAccessExpr { base: Box::new(Node::Receiver), member: member.to_string() }
}

fn receiver_call(method: &str, args: Vec<Node>) -> Node {
    Node::MethodCallExpr {
        receiver: Box::new(Node::Receiver),
        method: method.to_string(),
        args,
    }
}

fn method(name: &str, body_exprs: Vec<Node>) -> Node {
    Node::FunctionDecl {
        name: name.to_string(),
        params: vec![],
        body: vec![Node::Statement { children: vec![expr(body_exprs)] }],
    }
}

#[test]
fn field_intersection() {
    // Two methods on one receiver: `hehe` reads fields a and b (and makes a
    // receiver call, which is not a field), `haha` reads b and c (and makes
    // the same call). The one field shared by all functions is b.
    let tree = Node::Module {
        items: vec![
            method(
                "hehe",
                vec![
                    receiver_field("a"),
                    receiver_field("b"),
                    receiver_call("aboba_call", vec![]),
                ],
            ),
            method(
                "haha",
                vec![
                    receiver_field("b"),
                    receiver_field("c"),
                    receiver_call("aboba_call", vec![]),
                ],
            ),
        ],
    };
    let mut visitor = FnFieldSet::new();
    visitor.visit_tree(&tree);
    assert_eq!(visitor.len(), 2);

    let hehe = visitor.field_set(0).unwrap();
    let haha = visitor.field_set(1).unwrap();
    // The intersection over every function's field set is exactly {b}.
    assert!(hehe.contains(&"b".to_string()) && haha.contains(&"b".to_string()));
    assert!(!(hehe.contains(&"a".to_string()) && haha.contains(&"a".to_string())));
    assert!(!(hehe.contains(&"c".to_string()) && haha.contains(&"c".to_string())));
    // Method calls are not fields.
    assert!(!hehe.contains(&"aboba_call".to_string()));

    assert_eq!(visitor.related(0, 1), Ok(true));
}

#[test]
fn method_calls() {
    // `self.test() * self.zhizha().times(self.field.foo())`: the calls on
    // the receiver itself are test and zhizha; times is called on a call
    // result and foo on a field of the receiver, so neither is recorded.
    let product = expr(vec![
        receiver_call("test", vec![]),
        Node::MethodCallExpr {
            receiver: Box::new(receiver_call("zhizha", vec![])),
            method: "times".to_string(),
            args: vec![Node::MethodCallExpr {
                receiver: Box::new(receiver_field("field")),
                method: "foo".to_string(),
                args: vec![],
            }],
        },
    ]);
    let tree = Node::Module { items: vec![method("yeya", vec![product])] };
    let mut visitor = MethodCalls::new();
    visitor.visit_tree(&tree);
    assert!(visitor.contains(&"test".to_string()));
    assert!(visitor.contains(&"zhizha".to_string()));
    assert!(!visitor.contains(&"times".to_string()));
    assert!(!visitor.contains(&"foo".to_string()));
    assert!(!visitor.contains(&"field".to_string()));
}

#[test]
fn related_by_calls() {
    // `caller` invokes self.callee(); `callee` calls nothing. The pair is
    // related because one's call set holds the other's name.
    let tree = Node::Module {
        items: vec![
            method("caller", vec![receiver_call("callee", vec![])]),
            method("callee", vec![]),
            method("loner", vec![]),
        ],
    };
    let mut visitor = FnMethodCalls::new();
    visitor.visit_tree(&tree);
    assert_eq!(visitor.len(), 3);
    assert!(visitor.calls_of(0).unwrap().contains(&"callee".to_string()));
    assert_eq!(visitor.related(0, 1), Ok(true));
    assert_eq!(visitor.related(1, 0), Ok(true));
    assert_eq!(visitor.related(1, 2), Ok(false));
}

#[test]
fn unvisited_function_fails_loudly() {
    let fields = FnFieldSet::new();
    assert_eq!(fields.related(0, 0), Err(QueryError::UnknownFunction));

    let tree = Node::Module { items: vec![method("only", vec![receiver_field("a")])] };
    let mut calls = FnMethodCalls::new();
    calls.visit_tree(&tree);
    assert_eq!(calls.related(0, 1), Err(QueryError::UnknownFunction));
    assert_eq!(calls.related(5, 0), Err(QueryError::UnknownFunction));
}
