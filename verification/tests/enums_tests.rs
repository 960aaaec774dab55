use code_metrics::ast::Attribute;
use code_metrics::ast::Node;
use code_metrics::ast::VariantDecl;
use code_metrics::basic_enums::Enums;

fn attr(name: &str) -> Attribute {
    Attribute { name: name.to_string() }
}

fn variant(name: &str, attrs: Vec<Attribute>) -> VariantDecl {
    VariantDecl { name: name.to_string(), attrs }
}

#[test]
fn no_enums() {
    let tree = Node::Module { items: vec![Node::StructDecl { attrs: vec![] }] };
    let mut acc = Enums::init();
    acc.visit_tree(&tree);
    let (variant_count, attr_count, variant_attr_count) = acc.snapshot();
    assert_eq!(variant_count.sum, 0u128);
    assert_eq!(variant_count.count, 0usize);
    assert_eq!(variant_count.mode, None);
    assert_eq!(attr_count.sum, 0u128);
    assert_eq!(attr_count.count, 0usize);
    assert_eq!(attr_count.mode, None);
    assert_eq!(variant_attr_count.sum, 0u128);
    assert_eq!(variant_attr_count.count, 0usize);
    assert_eq!(variant_attr_count.mode, None);
}

#[test]
fn small_enums() {
    let tree = Node::Module {
        items: vec![
            Node::EnumDecl {
                attrs: vec![attr("derive")],
                variants: vec![
                    variant("A", vec![]),
                    variant("B", vec![]),
                    variant("C", vec![]),
                ],
            },
            Node::EnumDecl {
                attrs: vec![attr("derive")],
                variants: vec![variant("A", vec![]), variant("B", vec![])],
            },
        ],
    };
    let mut acc = Enums::init();
    acc.visit_tree(&tree);
    let (variant_count, attr_count, variant_attr_count) = acc.snapshot();

    assert_eq!(variant_count.sum, 5u128);
    assert_eq!((variant_count.sum as f64) / (variant_count.count as f64), 2.5f64);
    assert_eq!(variant_count.mode, Some(3));

    assert_eq!(attr_count.sum, 2u128);
    assert_eq!((attr_count.sum as f64) / (attr_count.count as f64), 1.0f64);
    assert_eq!(attr_count.mode, Some(1));

    assert_eq!(variant_attr_count.sum, 0u128);
    assert_eq!(
        (variant_attr_count.sum as f64) / (variant_attr_count.count as f64),
        0.0f64
    );
    assert_eq!(variant_attr_count.mode, Some(0));
}

#[test]
fn big_enum() {
    let tree = Node::Module {
        items: vec![Node::EnumDecl {
            attrs: vec![attr("derive"), attr("serde")],
            variants: vec![
                variant("A", vec![attr("serde")]),
                variant("B", vec![attr("serde")]),
                variant("C", vec![]),
                variant("D", vec![]),
                variant("E", vec![]),
                variant("F", vec![]),
            ],
        }],
    };
    let mut acc = Enums::init();
    acc.visit_tree(&tree);
    let (variant_count, attr_count, variant_attr_count) = acc.snapshot();

    assert_eq!(variant_count.sum, 6u128);
    assert_eq!((variant_count.sum as f64) / (variant_count.count as f64), 6.0f64);
    assert_eq!(variant_count.mode, Some(6));

    assert_eq!(attr_count.sum, 2u128);
    assert_eq!((attr_count.sum as f64) / (attr_count.count as f64), 2.0f64);
    assert_eq!(attr_count.mode, Some(2));

    assert_eq!(variant_attr_count.sum, 2u128);
    assert_eq!(
        (variant_attr_count.sum as f64) / (variant_attr_count.count as f64),
        0.3333333333333333f64
    );
    assert_eq!(variant_attr_count.mode, Some(0));
}

#[test]
fn unite_accumulators_like_one_pass() {
    let unit1 = Node::Module {
        items: vec![Node::EnumDecl {
            attrs: vec![],
            variants: vec![variant("A", vec![]), variant("B", vec![])],
        }],
    };
    let unit2 = Node::Module {
        items: vec![Node::EnumDecl { attrs: vec![attr("derive")], variants: vec![] }],
    };

    let mut one = Enums::init();
    one.visit_tree(&unit1);
    one.visit_tree(&unit2);
    let (v_one, a_one, _) = one.snapshot();

    let mut first = Enums::init();
    first.visit_tree(&unit1);
    let mut second = Enums::init();
    second.visit_tree(&unit2);
    let (v_two, a_two, _) = first.unite(second).snapshot();

    assert_eq!(v_one.sum, v_two.sum);
    assert_eq!(v_one.count, v_two.count);
    assert_eq!(v_one.mode, v_two.mode);
    assert_eq!(a_one.sum, a_two.sum);
    assert_eq!(a_one.count, a_two.count);
    assert_eq!(a_one.mode, a_two.mode);
    assert_eq!(v_two.sum, 2u128);
    assert_eq!(a_two.sum, 1u128);
}
