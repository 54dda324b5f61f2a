use semiring::lang::Semiring;

fn kinds() -> Vec<Semiring> {
    vec![
        Semiring::Num(-3),
        Semiring::Var(1),
        Semiring::Rel(vec![1, 2, 3]),
        Semiring::Rel(vec![]),
        Semiring::Add([1, 2]),
        Semiring::Min([1, 2]),
        Semiring::Mul([1, 2]),
        Semiring::Sum([1, 2]),
        Semiring::Let([1, 2, 3]),
        Semiring::Ind(4),
        Semiring::Lt([1, 2]),
        Semiring::Leq([1, 2]),
        Semiring::Gt([1, 2]),
        Semiring::Geq([1, 2]),
        Semiring::Eq([1, 2]),
        Semiring::Symbol("x".to_string()),
        Semiring::Other("pow".to_string(), vec![5, 6]),
    ]
}

#[test]
fn reads_numbers() {
    assert!(Semiring::from_op("5", vec![]).same_as(&Semiring::Num(5)));
    assert!(Semiring::from_op("-1", vec![]).same_as(&Semiring::Num(-1)));
    assert!(Semiring::from_op("+5", vec![]).same_as(&Semiring::Num(5)));
    assert_eq!(Semiring::from_op("5", vec![]).num(), Some(5));
    // with children a number is an uninterpreted function
    assert!(Semiring::from_op("5", vec![1]).same_as(&Semiring::Other("5".to_string(), vec![1])));
}

#[test]
fn reads_tagged_operators() {
    assert!(Semiring::from_op("var", vec![7]).same_as(&Semiring::Var(7)));
    assert!(Semiring::from_op("rel", vec![1, 2, 3]).same_as(&Semiring::Rel(vec![1, 2, 3])));
    assert!(Semiring::from_op("rel", vec![]).same_as(&Semiring::Rel(vec![])));
    assert!(Semiring::from_op("+", vec![1, 2]).same_as(&Semiring::Add([1, 2])));
    assert!(Semiring::from_op("-", vec![1, 2]).same_as(&Semiring::Min([1, 2])));
    assert!(Semiring::from_op("*", vec![1, 2]).same_as(&Semiring::Mul([1, 2])));
    assert!(Semiring::from_op("sum", vec![1, 2]).same_as(&Semiring::Sum([1, 2])));
    assert!(Semiring::from_op("let", vec![1, 2, 3]).same_as(&Semiring::Let([1, 2, 3])));
    assert!(Semiring::from_op("I", vec![1]).same_as(&Semiring::Ind(1)));
    assert!(Semiring::from_op("<", vec![1, 2]).same_as(&Semiring::Lt([1, 2])));
    assert!(Semiring::from_op("<=", vec![1, 2]).same_as(&Semiring::Leq([1, 2])));
    assert!(Semiring::from_op(">", vec![1, 2]).same_as(&Semiring::Gt([1, 2])));
    assert!(Semiring::from_op(">=", vec![1, 2]).same_as(&Semiring::Geq([1, 2])));
    assert!(Semiring::from_op("=", vec![1, 2]).same_as(&Semiring::Eq([1, 2])));
}

#[test]
fn wrong_arity_falls_back() {
    assert!(Semiring::from_op("var", vec![]).same_as(&Semiring::Symbol("var".to_string())));
    assert!(Semiring::from_op("+", vec![1]).same_as(&Semiring::Other("+".to_string(), vec![1])));
    assert!(Semiring::from_op("+", vec![1, 2, 3]).same_as(&Semiring::Other("+".to_string(), vec![1, 2, 3])));
    assert!(Semiring::from_op("let", vec![1, 2]).same_as(&Semiring::Other("let".to_string(), vec![1, 2])));
    assert!(Semiring::from_op("-", vec![]).same_as(&Semiring::Symbol("-".to_string())));
    assert!(Semiring::from_op("w", vec![]).same_as(&Semiring::Symbol("w".to_string())));
    assert!(Semiring::from_op("E", vec![1, 2, 3]).same_as(&Semiring::Other("E".to_string(), vec![1, 2, 3])));
}

#[test]
fn op_texts() {
    let expected = ["-3", "var", "rel", "rel", "+", "-", "*", "sum", "let", "I", "<", "<=", ">", ">=", "=", "x", "pow"];
    for (node, text) in kinds().iter().zip(expected.iter()) {
        assert_eq!(node.op_text(), *text);
    }
}

#[test]
fn children_in_order() {
    assert_eq!(Semiring::Let([4, 5, 6]).children(), vec![4, 5, 6]);
    assert_eq!(Semiring::Var(9).children(), vec![9]);
    assert_eq!(Semiring::Num(1).children(), Vec::<u32>::new());
    assert_eq!(Semiring::Other("f".to_string(), vec![3, 1]).children(), vec![3, 1]);
}

#[test]
fn num_only_of_literals() {
    assert_eq!(Semiring::Num(12).num(), Some(12));
    assert_eq!(Semiring::Var(12).num(), None);
    assert_eq!(Semiring::Symbol("12".to_string()).num(), None);
}

#[test]
fn matching_nodes() {
    assert!(Semiring::Add([1, 2]).matches(&Semiring::Add([3, 4])));
    assert!(!Semiring::Add([1, 2]).matches(&Semiring::Mul([1, 2])));
    assert!(Semiring::Num(1).matches(&Semiring::Num(1)));
    assert!(!Semiring::Num(1).matches(&Semiring::Num(2)));
    assert!(Semiring::Rel(vec![1, 2]).matches(&Semiring::Rel(vec![3, 4])));
    assert!(!Semiring::Rel(vec![1, 2]).matches(&Semiring::Rel(vec![3])));
    assert!(Semiring::Other("f".to_string(), vec![1]).matches(&Semiring::Other("f".to_string(), vec![2])));
    assert!(!Semiring::Other("f".to_string(), vec![1]).matches(&Semiring::Other("g".to_string(), vec![1])));
    assert!(!Semiring::Symbol("f".to_string()).matches(&Semiring::Symbol("g".to_string())));
    assert!(!Semiring::Add([1, 2]).same_as(&Semiring::Add([2, 1])));
}

#[test]
fn print_then_read_gives_node_back() {
    for node in kinds() {
        let again = Semiring::from_op(&node.op_text(), node.children());
        assert!(again.same_as(&node), "{:?}", node);
    }
}

#[test]
fn non_canonical_nodes_read_differently() {
    // a symbol spelled like a number, and an uninterpreted function spelled like `+`
    let sym = Semiring::Symbol("12".to_string());
    assert!(Semiring::from_op(&sym.op_text(), sym.children()).same_as(&Semiring::Num(12)));
    let other = Semiring::Other("+".to_string(), vec![1, 2]);
    assert!(Semiring::from_op(&other.op_text(), other.children()).same_as(&Semiring::Add([1, 2])));
}

#[test]
fn read_print_read_is_stable() {
    let inputs: Vec<(&str, Vec<u32>)> = vec![
        ("007", vec![]), ("+3", vec![]), ("var", vec![1]), ("var", vec![]), ("rel", vec![]),
        ("f", vec![1, 2]), ("x", vec![]), ("-", vec![1, 2]), ("-", vec![1]),
    ];
    for (op, ch) in inputs {
        let first = Semiring::from_op(op, ch.clone());
        let second = Semiring::from_op(&first.op_text(), ch);
        assert!(second.same_as(&first), "{}", op);
    }
}

#[test]
fn keywords_are_distinct() {
    let texts: Vec<String> = kinds()[1..15].iter().filter(|n| !matches!(n, Semiring::Rel(v) if v.is_empty())).map(|n| n.op_text()).collect();
    for i in 0..texts.len() {
        for j in 0..texts.len() {
            if i != j {
                assert_ne!(texts[i], texts[j]);
            }
        }
    }
}
