use semiring::analysis::{eval, fold_overflows, Data, SemiringAnalysis};
use semiring::lang::Semiring;
use std::collections::HashSet;

fn data(free: &[u32], constant: Option<i32>) -> Data {
    Data { free: free.iter().copied().collect(), constant: constant.map(Semiring::Num) }
}

fn set(xs: &[u32]) -> HashSet<u32> {
    xs.iter().copied().collect()
}

fn copy(d: &Data) -> Data {
    Data { free: d.free.clone(), constant: d.constant.clone() }
}

fn constant_of(d: &Data) -> Option<i32> {
    d.constant.as_ref().and_then(|c| c.num())
}

#[test]
fn var_is_free_in_itself() {
    let d = SemiringAnalysis::make(&Semiring::Var(3), &vec![data(&[], None)]);
    assert_eq!(d.free, set(&[3]));
    assert!(d.constant.is_none());
}

#[test]
fn sum_binds_its_variable() {
    // (sum (var i) a): free of a, without the binder's variable i
    let d = SemiringAnalysis::make(&Semiring::Sum([3, 4]), &vec![data(&[7], None), data(&[7, 5], None)]);
    assert_eq!(d.free, set(&[5]));
    assert!(!d.free.contains(&7));
    let d = SemiringAnalysis::make(&Semiring::Sum([3, 4]), &vec![data(&[7], None), data(&[3, 5], None)]);
    assert_eq!(d.free, set(&[3, 5]));
}

#[test]
fn sum_over_a_product_of_variables() {
    // (sum (var i) (* (var i) (var j))) with symbol classes i = 0 and j = 2
    let sym = SemiringAnalysis::make(&Semiring::Symbol("i".to_string()), &vec![]);
    let var_i = SemiringAnalysis::make(&Semiring::Var(0), &vec![sym]);
    let sym = SemiringAnalysis::make(&Semiring::Symbol("j".to_string()), &vec![]);
    let var_j = SemiringAnalysis::make(&Semiring::Var(2), &vec![sym]);
    assert_eq!(var_i.free, set(&[0]));
    let prod = SemiringAnalysis::make(&Semiring::Mul([1, 3]), &vec![copy(&var_i), var_j]);
    assert_eq!(prod.free, set(&[0, 2]));
    let sum = SemiringAnalysis::make(&Semiring::Sum([1, 4]), &vec![var_i, prod]);
    assert_eq!(sum.free, set(&[2]));
}

#[test]
fn let_binds_its_variable_in_the_body_only() {
    // (let (var v) e b): free of b without v, and free of e
    let d = SemiringAnalysis::make(
        &Semiring::Let([3, 4, 5]),
        &vec![data(&[9], None), data(&[1], None), data(&[9, 2], None)],
    );
    assert_eq!(d.free, set(&[1, 2]));
    let d = SemiringAnalysis::make(
        &Semiring::Let([3, 4, 5]),
        &vec![data(&[9], None), data(&[9], None), data(&[9, 2], None)],
    );
    assert_eq!(d.free, set(&[2, 9]));
}

#[test]
fn free_of_a_binder() {
    let body = data(&[1, 2], None);
    assert!(body.has_free_of(&data(&[2], None)));
    assert!(!body.has_free_of(&data(&[3], None)));
    assert!(!body.has_free_of(&data(&[], None)));
}

#[test]
fn other_nodes_collect_children() {
    let d = SemiringAnalysis::make(&Semiring::Rel(vec![1, 2, 3]), &vec![data(&[1], None), data(&[2], None), data(&[1, 4], None)]);
    assert_eq!(d.free, set(&[1, 2, 4]));
    let d = SemiringAnalysis::make(&Semiring::Symbol("x".to_string()), &vec![]);
    assert!(d.free.is_empty());
}

#[test]
fn folds_constants() {
    let two_three = vec![data(&[], Some(2)), data(&[], Some(3))];
    assert_eq!(eval(&Semiring::Add([0, 1]), &two_three).and_then(|c| c.num()), Some(5));
    assert_eq!(eval(&Semiring::Min([0, 1]), &two_three).and_then(|c| c.num()), Some(-1));
    assert_eq!(eval(&Semiring::Mul([0, 1]), &two_three).and_then(|c| c.num()), Some(6));
    assert_eq!(eval(&Semiring::Num(7), &vec![]).and_then(|c| c.num()), Some(7));
    assert!(eval(&Semiring::Eq([0, 1]), &two_three).is_none());
    let half = vec![data(&[], Some(2)), data(&[1], None)];
    assert!(eval(&Semiring::Add([0, 1]), &half).is_none());
    let d = SemiringAnalysis::make(&Semiring::Mul([0, 1]), &two_three);
    assert_eq!(constant_of(&d), Some(6));
}

#[test]
fn detects_folding_overflow() {
    let big = vec![data(&[], Some(i32::MAX)), data(&[], Some(1))];
    assert!(fold_overflows(&Semiring::Add([0, 1]), &big));
    assert!(!fold_overflows(&Semiring::Min([0, 1]), &big));
    assert!(!fold_overflows(&Semiring::Mul([0, 1]), &big));
    let small = vec![data(&[], Some(i32::MIN)), data(&[], Some(-1))];
    assert!(fold_overflows(&Semiring::Mul([0, 1]), &small));
    assert!(fold_overflows(&Semiring::Add([0, 1]), &small));
    assert!(!fold_overflows(&Semiring::Sum([0, 1]), &small));
}

#[test]
fn merge_equal_data_changes_nothing() {
    let mut to = data(&[1, 2], Some(4));
    let changed = SemiringAnalysis.merge(&mut to, data(&[2, 1], Some(4)));
    assert!(!changed);
    assert_eq!(to.free, set(&[1, 2]));
    assert_eq!(constant_of(&to), Some(4));
}

#[test]
fn merge_intersects_free_and_keeps_constant() {
    let mut to = data(&[1, 2, 3], None);
    let changed = SemiringAnalysis.merge(&mut to, data(&[2, 3, 4], Some(9)));
    assert!(changed);
    assert_eq!(to.free, set(&[2, 3]));
    assert_eq!(constant_of(&to), Some(9));

    let mut to = data(&[1], Some(5));
    let changed = SemiringAnalysis.merge(&mut to, data(&[1], None));
    assert!(changed);
    assert_eq!(constant_of(&to), Some(5));
}

#[test]
fn merge_reports_change_even_when_result_is_same() {
    // `from` has more free variables; `to` keeps its own, but the data differed
    let mut to = data(&[1], None);
    let changed = SemiringAnalysis.merge(&mut to, data(&[1, 2], None));
    assert!(changed);
    assert_eq!(to.free, set(&[1]));
}

#[test]
fn merge_order_does_not_matter() {
    let a = || data(&[1, 2, 3], Some(1));
    let b = || data(&[2, 3, 4], None);
    let c = || data(&[3, 5], Some(1));
    let mut ab = a();
    SemiringAnalysis.merge(&mut ab, b());
    let mut ba = b();
    SemiringAnalysis.merge(&mut ba, a());
    assert!(ab.same_as(&ba));
    let mut abc = a();
    SemiringAnalysis.merge(&mut abc, b());
    SemiringAnalysis.merge(&mut abc, c());
    let mut acb = a();
    SemiringAnalysis.merge(&mut acb, c());
    SemiringAnalysis.merge(&mut acb, b());
    assert!(abc.same_as(&acb));
    assert_eq!(abc.free, set(&[3]));
}

#[test]
fn constants_stay_literals() {
    let mut to = SemiringAnalysis::make(&Semiring::Add([0, 1]), &vec![data(&[], Some(1)), data(&[], Some(2))]);
    SemiringAnalysis.merge(&mut to, data(&[], Some(3)));
    assert!(matches!(to.constant, Some(Semiring::Num(3))));
}

#[test]
fn data_equality() {
    assert!(data(&[1, 2], Some(3)).same_as(&data(&[2, 1], Some(3))));
    assert!(!data(&[1, 2], Some(3)).same_as(&data(&[1], Some(3))));
    assert!(!data(&[1], Some(3)).same_as(&data(&[1], None)));
    assert!(data(&[1], Some(3)).is_const());
    assert!(!data(&[1], None).is_const());
}
