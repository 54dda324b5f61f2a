use semiring::lang::Semiring;
use semiring::rewrites::{fresh_symbol, lemmas, normalize, push_both_ways, rules, rw_1, Action, Guard, Rule};

fn pattern(r: &Rule) -> Option<&str> {
    match &r.action {
        Action::Pattern(p) => Some(p.as_str()),
        _ => None,
    }
}

fn names_distinct(rs: &[Rule]) -> bool {
    for i in 0..rs.len() {
        for j in 0..rs.len() {
            if i != j && rs[i].name == rs[j].name {
                return false;
            }
        }
    }
    true
}

#[test]
fn rules_table() {
    let rs = rules();
    assert_eq!(rs.len(), 42);
    assert_eq!(rs[0].name, "let-const");
    assert!(matches!(&rs[0].guard, Some(Guard::IsConst(v)) if v == "?c"));
    assert_eq!(rs[8].name, "pow0");
    assert_eq!(rs[8].searcher, "(pow ?x 0)");
    assert_eq!(pattern(&rs[8]), Some("1"));
    assert_eq!(rs[41].name, "exclusion");
    assert!(rs.iter().all(|r| !r.destroys));
    assert!(matches!(&rs[4].action, Action::RenameSum(r) if r.fresh == "?fresh"));
    assert!(matches!(&rs[6].action, Action::CaptureAvoid(c) if c.if_free == "(sum ?fresh (let ?v1 ?e (let ?v2 ?fresh ?body)))"));
    assert!(matches!(&rs[29].guard, Some(Guard::NotFree(x, b)) if x == "?x" && b == "?b"));
    assert!(matches!(&rs[30].guard, Some(Guard::NotFree(x, b)) if x == "?x" && b == "?b"));
}

#[test]
fn bidirectional_rules_have_reverse_twins() {
    let rs = rules();
    for k in 0..15 {
        let a = &rs[9 + 2 * k];
        let b = &rs[10 + 2 * k];
        assert_eq!(b.name, format!("{}-rev", a.name));
        assert_eq!(pattern(a), Some(b.searcher.as_str()));
        assert_eq!(pattern(b), Some(a.searcher.as_str()));
    }
    assert_eq!(rs[9].name, "let-add");
    assert_eq!(rs[10].name, "let-add-rev");
    let ls = lemmas();
    assert_eq!(ls.len(), 8);
    assert_eq!(ls[7].name, "l-53-rev");
    assert_eq!(ls[7].searcher, "(I (<= ?j (- ?t 1)))");
}

#[test]
fn rule_names_are_distinct() {
    assert!(names_distinct(&rules()));
    assert!(names_distinct(&normalize()));
    assert!(names_distinct(&lemmas()));
}

#[test]
fn normalize_is_destructive() {
    let rs = normalize();
    assert_eq!(rs.len(), 13);
    for (i, r) in rs.iter().enumerate() {
        assert_eq!(r.destroys, i != 5, "{}", r.name);
    }
    assert_eq!(rs[5].name, "let-const");
    assert_eq!(rs[5].searcher, "(let ?v1 ?e ?n)");
    assert!(matches!(&rs[9].action, Action::CaptureAvoid(c) if c.if_free == "(sum ?fresh (let ?v1 ?e (let ?v2 ?fresh ?body)))"));
}

#[test]
fn builders() {
    let r = rw_1("x", "(f ?a)", "?a");
    assert!(r.destroys && r.guard.is_none() && pattern(&r) == Some("?a"));
    let mut rs = Vec::new();
    push_both_ways(&mut rs, "n", "(f ?a)", "(g ?a)", Some(Guard::IsConst("?a".to_string())));
    assert_eq!(rs.len(), 2);
    assert_eq!(rs[1].name, "n-rev");
    assert!(matches!(&rs[1].guard, Some(Guard::IsConst(v)) if v == "?a"));
}

#[test]
fn fresh_symbols() {
    assert!(fresh_symbol(12).same_as(&Semiring::Symbol("_12".to_string())));
    assert_eq!(fresh_symbol(0).op_text(), "_0");
    assert_eq!(fresh_symbol(7).op_text(), format!("_{}", 7));
    assert_eq!(fresh_symbol(u32::MAX).op_text(), "_4294967295");
}

#[test]
fn fresh_symbols_are_distinct_and_read_back() {
    let names: Vec<String> = (0u32..100).map(|i| fresh_symbol(i).op_text()).collect();
    for i in 0..names.len() {
        for j in 0..names.len() {
            if i != j {
                assert_ne!(names[i], names[j]);
            }
        }
        let back = Semiring::from_op(&names[i], vec![]);
        assert!(back.same_as(&fresh_symbol(i as u32)));
    }
}

#[test]
fn rw_1_keeps_text_it_does_not_read() {
    let r = rw_1("bad", "(+ ?a", "?a");
    assert_eq!(r.name, "bad");
    assert_eq!(r.searcher, "(+ ?a");
    assert_eq!(pattern(&r), Some("?a"));
    assert!(r.destroys);
}
