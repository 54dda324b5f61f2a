use semiring::smt::{candidate_pairs, gen_rosette, group_by_fingerprint};

#[test]
fn groups_classes_by_fingerprint() {
    let classes = vec![
        (1, Some(vec![1, 2])),
        (2, None),
        (3, Some(vec![3])),
        (4, Some(vec![1, 2])),
        (5, Some(vec![3])),
        (6, Some(vec![])),
    ];
    let groups = group_by_fingerprint(&classes);
    assert_eq!(groups, vec![
        (vec![1, 2], vec![1, 4]),
        (vec![3], vec![3, 5]),
        (vec![], vec![6]),
    ]);
}

#[test]
fn no_fingerprints_no_groups() {
    assert!(group_by_fingerprint(&vec![(1, None), (2, None)]).is_empty());
    assert!(group_by_fingerprint(&vec![]).is_empty());
}

#[test]
fn rosette_query() {
    let q = gen_rosette("(+ v_1 v_2)", "(+ v_2 v_1)", &vec![1, 2]);
    let expected = format!(
        "#lang rosette
         (define (I b) (if b 1 0))
         (define-symbolic {fvs} integer?)
         (if (unsat? (verify (assert (eq? {lhs} {rhs}))))
             (display \"true\")
             (display \"false\"))",
        fvs = "v_1 v_2",
        lhs = "(+ v_1 v_2)",
        rhs = "(+ v_2 v_1)"
    );
    assert_eq!(q, expected);
    let q = gen_rosette("a", "b", &vec![]);
    assert!(q.contains("(define-symbolic  integer?)"));
    let q = gen_rosette("a", "b", &vec![10]);
    assert!(q.contains("(define-symbolic v_10 integer?)"));
}

#[test]
fn pairs_within_each_group() {
    let groups = vec![(vec![1, 2], vec![1, 4]), (vec![3], vec![7])];
    assert_eq!(candidate_pairs(&groups), vec![(1, 1), (1, 4), (4, 1), (4, 4), (7, 7)]);
    assert!(candidate_pairs(&vec![]).is_empty());
    assert!(candidate_pairs(&vec![(vec![5], vec![])]).is_empty());
}
