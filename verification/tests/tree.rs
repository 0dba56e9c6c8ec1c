use scheme_core::ast::{AstList, AstListBuilder, AstNode, AstSymbol, CoreSymbol, TempCounter};
use scheme_core::types::{SchemeObject, SchemeType};

fn number_list_node(values: &[i64]) -> AstNode {
    let mut builder = AstListBuilder::new();
    for v in values {
        builder.push(AstNode::from_number(*v));
    }
    AstNode::from_list(builder.build())
}

fn pair(car: SchemeType, cdr: SchemeType) -> SchemeType {
    SchemeType::Object(SchemeObject::Pair {
        mutable: false,
        car: Box::new(car),
        cdr: Box::new(cdr),
    })
}

fn empty_list() -> SchemeType {
    SchemeType::Object(SchemeObject::EmptyList)
}

#[test]
fn reify_proper_list_of_numbers() {
    let node = number_list_node(&[1, 2, 3]);
    let expected = pair(
        SchemeType::Number(1),
        pair(
            SchemeType::Number(2),
            pair(SchemeType::Number(3), empty_list()),
        ),
    );
    assert_eq!(node.to_datum(), expected);
}

#[test]
fn reify_improper_list_ends_in_tail_leaf() {
    // The tree for (1 2 . 3): children 1 and 2, tail leaf 3.
    let mut builder = AstListBuilder::new();
    builder.push(AstNode::from_number(1));
    builder.push(AstNode::from_number(2));
    let list = builder.build_with_tail(AstNode::from_number(3)).unwrap();
    let node = AstNode::from_list(list);
    let expected = pair(
        SchemeType::Number(1),
        pair(SchemeType::Number(2), SchemeType::Number(3)),
    );
    assert_eq!(node.to_datum(), expected);
}

#[test]
fn reify_leaves() {
    assert_eq!(AstNode::from_number(7).to_datum(), SchemeType::Number(7));
    assert_eq!(
        AstNode::from_string("hi".to_string()).to_datum(),
        SchemeType::String("hi".to_string())
    );
    assert_eq!(
        AstNode::from_bool(true).to_datum(),
        SchemeType::Object(SchemeObject::True)
    );
    assert_eq!(
        AstNode::from_bool(false).to_datum(),
        SchemeType::Object(SchemeObject::False)
    );
    assert_eq!(
        AstNode::from_symbol(AstSymbol::new("abc")).to_datum(),
        SchemeType::Object(SchemeObject::Symbol("abc".to_string()))
    );
    assert_eq!(
        AstNode::from_core(CoreSymbol::Quote).to_datum(),
        SchemeType::Object(SchemeObject::Symbol("quote".to_string()))
    );
}

#[test]
fn reify_empty_list_is_the_sentinel() {
    let node = AstNode::from_list(AstList::none());
    assert_eq!(node.to_datum(), empty_list());
}

#[test]
fn build_then_append_proper_tail_equals_direct_build() {
    // Build [a, b], then append the proper list [c, d] as the tail.
    let mut first = AstListBuilder::new();
    first.push(AstNode::from_number(10));
    first.push(AstNode::from_number(11));
    let mut tail = AstListBuilder::new();
    tail.push(AstNode::from_number(12));
    tail.push(AstNode::from_number(13));
    let spliced = first
        .build_with_tail(AstNode::from_list(tail.build()))
        .unwrap();

    // Build [a, b, c, d] directly.
    let mut direct = AstListBuilder::new();
    for v in [10, 11, 12, 13] {
        direct.push(AstNode::from_number(v));
    }
    assert_eq!(spliced, direct.build());
    assert!(spliced.is_proper_list());
    assert_eq!(spliced.as_nodes().len(), 4);
}

#[test]
fn empty_builder_rejects_improper_tail_only() {
    // An improper tail on an empty accumulator fails and hands the tail back.
    let mut inner = AstListBuilder::new();
    inner.push(AstNode::from_number(1));
    let improper = inner.build_with_tail(AstNode::from_number(2)).unwrap();
    let improper_node = AstNode::from_list(improper);

    let rejected = AstListBuilder::new().build_with_tail(improper_node);
    let handed_back = rejected.unwrap_err();
    // The node comes back unchanged.
    let mut inner_again = AstListBuilder::new();
    inner_again.push(AstNode::from_number(1));
    let same = AstNode::from_list(inner_again.build_with_tail(AstNode::from_number(2)).unwrap());
    assert_eq!(handed_back, same);

    // A proper-list tail on an empty accumulator succeeds.
    let proper_tail = AstNode::from_list(AstList::one(AstNode::from_number(5)));
    let ok = AstListBuilder::new().build_with_tail(proper_tail).unwrap();
    assert!(ok.is_proper_list());
    assert_eq!(ok.as_nodes().len(), 1);

    // A leaf tail on an empty accumulator succeeds as an improper list.
    let leaf_tail = AstNode::from_number(9);
    let ok2 = AstListBuilder::new().build_with_tail(leaf_tail).unwrap();
    assert!(ok2.is_improper_list());
    assert_eq!(ok2.as_nodes().len(), 0);
}

#[test]
fn generated_symbols_are_unique() {
    let mut counter = TempCounter::new();
    let s1 = AstSymbol::gen_temp(&mut counter);
    let s2 = AstSymbol::gen_temp(&mut counter);
    assert_ne!(s1, s2);
    // A generated symbol never equals a user-defined one, even when the
    // printed names coincide.
    let lookalike = AstSymbol::new(&s1.get_name());
    assert_ne!(s1, lookalike);
    assert_eq!(s1.get_name(), lookalike.get_name());
    // Nor a core symbol, and a core symbol is not the user spelling either.
    assert_ne!(s1, AstSymbol::from_core(CoreSymbol::If));
    assert_ne!(AstSymbol::from_core(CoreSymbol::If), AstSymbol::new("if"));
    assert_eq!(AstSymbol::new("x"), AstSymbol::new("x"));
}

#[test]
fn symbol_names() {
    assert_eq!(CoreSymbol::LetStar.get_name(), "let*");
    assert_eq!(CoreSymbol::BeginProgram.get_name(), "$begin-program");
    assert_eq!(AstSymbol::new("hello").get_name(), "hello");
    let mut counter = TempCounter::new();
    let mut last = AstSymbol::gen_temp(&mut counter);
    for _ in 0..12 {
        last = AstSymbol::gen_temp(&mut counter);
    }
    assert_eq!(last.get_name(), "$temp$id12");
    assert_eq!(
        AstSymbol::gen_temp(&mut TempCounter::new()).get_name(),
        "$temp$id0"
    );
}

#[test]
fn downcasts_return_the_node_on_mismatch() {
    let node = AstNode::from_number(5);
    let back = node.into_symbol().unwrap_err();
    assert_eq!(back, AstNode::from_number(5));
    let back2 = back.into_list().unwrap_err();
    assert_eq!(back2, AstNode::from_number(5));

    let sym_node = AstNode::from_symbol(AstSymbol::new("s"));
    assert_eq!(sym_node.into_symbol().unwrap(), AstSymbol::new("s"));

    // An improper list is not a proper list; it comes back whole.
    let mut b = AstListBuilder::new();
    b.push(AstNode::from_number(1));
    let improper = AstNode::from_list(b.build_with_tail(AstNode::from_number(2)).unwrap());
    assert!(improper.is_improper_list());
    let back3 = improper.into_proper_list().unwrap_err();
    assert!(back3.is_improper_list());
}

#[test]
fn list_inspection() {
    let empty = AstList::none();
    assert!(empty.is_empty_list());
    assert!(empty.is_proper_list());
    assert!(!empty.is_improper_list());

    let one = AstList::one(AstNode::from_bool(true));
    assert!(!one.is_empty_list());
    assert_eq!(one.as_nodes(), &[AstNode::from_bool(true)]);

    let node = number_list_node(&[4, 5]);
    let nodes = node.as_proper_list().unwrap();
    assert_eq!(
        nodes,
        &[AstNode::from_number(4), AstNode::from_number(5)]
    );
    assert_eq!(node.get_name(), "proper list");
    assert_eq!(AstNode::from_number(1).get_name(), "number");
    assert_eq!(AstNode::from_bool(true).get_name(), "boolean");

    let (children, tail) = AstList::one(AstNode::from_number(8)).into_inner();
    assert_eq!(children, vec![AstNode::from_number(8)]);
    assert_eq!(tail, AstNode::from_list(AstList::none()));
}
