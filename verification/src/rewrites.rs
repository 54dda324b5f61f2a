//! The rewrite rules over semiring expressions, as patterns in the s-expression
//! syntax of the language, with the guards and appliers they use.
use vstd::prelude::*;
use crate::lang::{canonical, NodeModel, OpModel, Semiring};
use crate::meaning::Interp;
use crate::soundness::{lemma_lemmas_keep_value, lemma_normalize_keeps_value, lemma_rules_keep_value, rule_keeps_value};
use crate::text::{i32_of_text, is_digit, lemma_nat_text_injective, nat_text, push_nat_text};

verus! {

/// A condition on a match, over the classes bound to pattern variables.
pub enum Guard {
    /// The class bound to the variable folds to a constant.
    IsConst(String),
    /// The two variables are bound to different classes.
    NotSameVar(String, String),
    /// `Free(x, b)`: the variable bound to `x` is free in the class bound to `b`.
    Free(String, String),
    /// `NotFree(x, b)`: the variable bound to `x` is not free in the class bound to `b`.
    NotFree(String, String),
}

/// Instantiates `e` after binding `fresh` to a new variable named after the matched class.
pub struct RenameSum {
    pub fresh: String,
    pub e: String,
}

/// Pushes a `let` under a `sum` without capturing: where the variable bound to `v2` is
/// free in the class bound to `e`, the sum's variable is first renamed to a new variable
/// bound to `fresh` and `if_free` is instantiated; else `if_not_free` is.
pub struct CaptureAvoid {
    pub fresh: String,
    pub v2: String,
    pub e: String,
    pub if_not_free: String,
    pub if_free: String,
}

/// What a rule does with a match.
pub enum Action {
    /// Instantiates the pattern and merges it with the matched class.
    Pattern(String),
    RenameSum(RenameSum),
    CaptureAvoid(CaptureAvoid),
}

/// A rewrite rule: its name, the pattern it searches for, what it does with a match,
/// the condition under which it applies, and whether it first empties the matched class
/// (a one-way, destructive rewrite).
pub struct Rule {
    pub name: String,
    pub searcher: String,
    pub action: Action,
    pub guard: Option<Guard>,
    pub destroys: bool,
}

pub enum GuardModel {
    IsConst(Seq<char>),
    NotSameVar(Seq<char>, Seq<char>),
    Free(Seq<char>, Seq<char>),
    NotFree(Seq<char>, Seq<char>),
}

pub enum ActionModel {
    Pattern(Seq<char>),
    RenameSum { fresh: Seq<char>, e: Seq<char> },
    CaptureAvoid {
        fresh: Seq<char>,
        v2: Seq<char>,
        e: Seq<char>,
        if_not_free: Seq<char>,
        if_free: Seq<char>,
    },
}

pub struct RuleModel {
    pub name: Seq<char>,
    pub searcher: Seq<char>,
    pub action: ActionModel,
    pub guard: Option<GuardModel>,
    pub destroys: bool,
}

impl View for Guard {
    type V = GuardModel;

    open spec fn view(&self) -> GuardModel {
        match self {
            Guard::IsConst(a) => GuardModel::IsConst(a@),
            Guard::NotSameVar(a, b) => GuardModel::NotSameVar(a@, b@),
            Guard::Free(a, b) => GuardModel::Free(a@, b@),
            Guard::NotFree(a, b) => GuardModel::NotFree(a@, b@),
        }
    }
}

impl View for Action {
    type V = ActionModel;

    open spec fn view(&self) -> ActionModel {
        match self {
            Action::Pattern(p) => ActionModel::Pattern(p@),
            Action::RenameSum(r) => ActionModel::RenameSum { fresh: r.fresh@, e: r.e@ },
            Action::CaptureAvoid(c) => ActionModel::CaptureAvoid {
                fresh: c.fresh@,
                v2: c.v2@,
                e: c.e@,
                if_not_free: c.if_not_free@,
                if_free: c.if_free@,
            },
        }
    }
}

pub open spec fn guard_opt_view(g: Option<Guard>) -> Option<GuardModel> {
    match g {
        Some(g) => Some(g@),
        None => None,
    }
}

impl View for Rule {
    type V = RuleModel;

    open spec fn view(&self) -> RuleModel {
        RuleModel {
            name: self.name@,
            searcher: self.searcher@,
            action: self.action@,
            guard: guard_opt_view(self.guard),
            destroys: self.destroys,
        }
    }
}

/// Characters that may stand in an atom of a pattern.
pub open spec fn atom_char(c: char) -> bool {
    c != '(' && c != ')' && c != ' ' && c != '"' && c != '\t' && c != '\r' && c != '\n'
}

pub open spec fn paren_delta(c: char) -> int {
    if c == '(' {
        1
    } else if c == ')' {
        -1
    } else {
        0
    }
}

/// Scans a list from position `i` at nesting depth `d`: atoms and single spaces, every
/// `(` followed by its operator (an atom that is not a pattern variable), no space
/// before a `)`, and the depth stays positive until the final `)` closes the list.
pub open spec fn list_scan(s: Seq<char>, i: nat, d: int) -> bool
    decreases s.len() - i,
    when i <= s.len()
{
    if i >= s.len() {
        d == 0
    } else {
        let c = s[i as int];
        let d2 = d + paren_delta(c);
        &&& (c == '(' || c == ')' || c == ' ' || atom_char(c))
        &&& (d2 >= 1 || i + 1 == s.len())
        &&& (c == '(' ==> i + 1 < s.len() && atom_char(s[i + 1int]) && s[i + 1int] != '?')
        &&& (c == ' ' ==> i + 1 < s.len() && s[i + 1int] != ' ' && s[i + 1int] != ')')
        &&& list_scan(s, i + 1, d2)
    }
}

/// A pattern text: one atom, or one parenthesized list in the plain s-expression form,
/// which egg's pattern parser reads without error.
pub open spec fn pattern_text(s: Seq<char>) -> bool {
    &&& s.len() > 0
    &&& if s[0] == '(' {
        list_scan(s, 0, 0)
    } else {
        forall|i: int| 0 <= i < s.len() ==> atom_char(#[trigger] s[i])
    }
}

/// A pattern variable: `?` and at least one more atom character.
pub open spec fn var_text(s: Seq<char>) -> bool {
    &&& s.len() > 1
    &&& s[0] == '?'
    &&& forall|i: int| 0 <= i < s.len() ==> atom_char(#[trigger] s[i])
}

pub open spec fn guard_ok(g: GuardModel) -> bool {
    match g {
        GuardModel::IsConst(v) => var_text(v),
        GuardModel::NotSameVar(a, b) => var_text(a) && var_text(b),
        GuardModel::Free(a, b) => var_text(a) && var_text(b),
        GuardModel::NotFree(a, b) => var_text(a) && var_text(b),
    }
}

pub open spec fn guard_opt_ok(g: Option<GuardModel>) -> bool {
    match g {
        Some(g) => guard_ok(g),
        None => true,
    }
}

pub open spec fn action_ok(a: ActionModel) -> bool {
    match a {
        ActionModel::Pattern(p) => pattern_text(p),
        ActionModel::RenameSum { fresh, e } => var_text(fresh) && pattern_text(e),
        ActionModel::CaptureAvoid { fresh, v2, e, if_not_free, if_free } => {
            &&& var_text(fresh)
            &&& var_text(v2)
            &&& var_text(e)
            &&& pattern_text(if_not_free)
            &&& pattern_text(if_free)
        },
    }
}

/// A rule whose pattern and variable texts are all well formed.
pub open spec fn rule_ok(r: RuleModel) -> bool {
    pattern_text(r.searcher) && action_ok(r.action) && guard_opt_ok(r.guard)
}

/// `b` is the reverse twin of `a`: named after it with `-rev`, searching for what `a`
/// instantiates, instantiating what `a` searches for, under the same guard.
pub open spec fn twins(a: RuleModel, b: RuleModel) -> bool {
    &&& b.name == a.name + seq!['-', 'r', 'e', 'v']
    &&& a.action == ActionModel::Pattern(b.searcher)
    &&& b.action == ActionModel::Pattern(a.searcher)
    &&& b.guard == a.guard
    &&& !a.destroys
    &&& !b.destroys
}

/// A rule that instantiates a pattern, under an optional guard.
pub open spec fn plain_rule(
    r: RuleModel,
    name: Seq<char>,
    lhs: Seq<char>,
    rhs: Seq<char>,
    guard: Option<GuardModel>,
    destroys: bool,
) -> bool {
    &&& r.name == name
    &&& r.searcher == lhs
    &&& r.action == ActionModel::Pattern(rhs)
    &&& r.guard == guard
    &&& r.destroys == destroys
}

impl Guard {
    /// A copy of the guard.
    pub fn copy(&self) -> (r: Guard)
        ensures
            r@ == self@,
    {
        match self {
            Guard::IsConst(a) => Guard::IsConst(a.clone()),
            Guard::NotSameVar(a, b) => Guard::NotSameVar(a.clone(), b.clone()),
            Guard::Free(a, b) => Guard::Free(a.clone(), b.clone()),
            Guard::NotFree(a, b) => Guard::NotFree(a.clone(), b.clone()),
        }
    }
}

fn copy_guard(g: &Option<Guard>) -> (r: Option<Guard>)
    ensures
        guard_opt_view(r) == guard_opt_view(*g),
{
    match g {
        Some(g) => Some(g.copy()),
        None => None,
    }
}

/// A rule that instantiates `rhs` for each match of `lhs`.
pub fn one_way(name: &str, lhs: &str, rhs: &str, guard: Option<Guard>) -> (r: Rule)
    ensures
        rule_ok(r@) <==> pattern_text(lhs@) && pattern_text(rhs@) && guard_opt_ok(guard_opt_view(guard)),
        plain_rule(r@, name@, lhs@, rhs@, guard_opt_view(guard), false),
{
    Rule {
        name: String::from_str(name),
        searcher: String::from_str(lhs),
        action: Action::Pattern(String::from_str(rhs)),
        guard,
        destroys: false,
    }
}

/// A one-way destructive rewrite: it empties the matched class, then instantiates `rhs`.
pub fn rw_1(name: &str, lhs: &str, rhs: &str) -> (r: Rule)
    ensures
        rule_ok(r@) <==> pattern_text(lhs@) && pattern_text(rhs@),
        plain_rule(r@, name@, lhs@, rhs@, None, true),
{
    Rule {
        name: String::from_str(name),
        searcher: String::from_str(lhs),
        action: Action::Pattern(String::from_str(rhs)),
        guard: None,
        destroys: true,
    }
}

/// Appends a rule for each direction between `lhs` and `rhs`: the first named `name`,
/// the second its reverse twin.
pub fn push_both_ways(rules: &mut Vec<Rule>, name: &str, lhs: &str, rhs: &str, guard: Option<Guard>)
    ensures
        rule_ok(final(rules)@[old(rules)@.len() as int]@) <==> pattern_text(lhs@) && pattern_text(rhs@)
            && guard_opt_ok(guard_opt_view(guard)),
        rule_ok(final(rules)@[old(rules)@.len() + 1int]@) <==> pattern_text(lhs@) && pattern_text(rhs@)
            && guard_opt_ok(guard_opt_view(guard)),
        final(rules)@.len() == old(rules)@.len() + 2,
        forall|i: int| 0 <= i < old(rules)@.len() ==> final(rules)@[i] == old(rules)@[i],
        plain_rule(
            final(rules)@[old(rules)@.len() as int]@,
            name@,
            lhs@,
            rhs@,
            guard_opt_view(guard),
            false,
        ),
        twins(
            final(rules)@[old(rules)@.len() as int]@,
            final(rules)@[old(rules)@.len() + 1int]@,
        ),
{
    proof {
        reveal_strlit("-rev");
        assert("-rev"@ =~= seq!['-', 'r', 'e', 'v']);
    }
    let back_guard = copy_guard(&guard);
    let forth = one_way(name, lhs, rhs, guard);
    let mut back_name = String::from_str(name);
    back_name.append("-rev");
    let back = Rule {
        name: back_name,
        searcher: String::from_str(rhs),
        action: Action::Pattern(String::from_str(lhs)),
        guard: back_guard,
        destroys: false,
    };
    rules.push(forth);
    rules.push(back);
}

fn is_const(v: &str) -> (r: Option<Guard>)
    ensures
        guard_opt_view(r) == Some(GuardModel::IsConst(v@)),
{
    Some(Guard::IsConst(String::from_str(v)))
}

fn is_not_same_var(a: &str, b: &str) -> (r: Option<Guard>)
    ensures
        guard_opt_view(r) == Some(GuardModel::NotSameVar(a@, b@)),
{
    Some(Guard::NotSameVar(String::from_str(a), String::from_str(b)))
}

fn free(x: &str, b: &str) -> (r: Option<Guard>)
    ensures
        guard_opt_view(r) == Some(GuardModel::Free(x@, b@)),
{
    Some(Guard::Free(String::from_str(x), String::from_str(b)))
}

fn not_free(x: &str, b: &str) -> (r: Option<Guard>)
    ensures
        guard_opt_view(r) == Some(GuardModel::NotFree(x@, b@)),
{
    Some(Guard::NotFree(String::from_str(x), String::from_str(b)))
}

fn rename_sum(fresh: &str, e: &str) -> (r: Action)
    ensures
        r@ == (ActionModel::RenameSum { fresh: fresh@, e: e@ }),
{
    Action::RenameSum(RenameSum { fresh: String::from_str(fresh), e: String::from_str(e) })
}

fn capture_avoid(fresh: &str, v2: &str, e: &str, if_not_free: &str, if_free: &str) -> (r: Action)
    ensures
        r@ == (ActionModel::CaptureAvoid {
            fresh: fresh@,
            v2: v2@,
            e: e@,
            if_not_free: if_not_free@,
            if_free: if_free@,
        }),
{
    Action::CaptureAvoid(
        CaptureAvoid {
            fresh: String::from_str(fresh),
            v2: String::from_str(v2),
            e: String::from_str(e),
            if_not_free: String::from_str(if_not_free),
            if_free: String::from_str(if_free),
        },
    )
}

fn guarded(name: &str, lhs: &str, action: Action, guard: Option<Guard>, destroys: bool) -> (r: Rule)
    ensures
        r@.name == name@,
        r@.searcher == lhs@,
        r@.action == action@,
        r@.guard == guard_opt_view(guard),
        r@.destroys == destroys,
{
    Rule {
        name: String::from_str(name),
        searcher: String::from_str(lhs),
        action,
        guard,
        destroys,
    }
}

proof fn lemma_rule_texts_0()
    ensures
        pattern_text("(let ?v ?e ?c)"@),
        pattern_text("?c"@),
        var_text("?c"@),
        pattern_text("(let (var ?v1) ?e (var ?v1))"@),
        pattern_text("?e"@),
        var_text("?e"@),
        pattern_text("(let (var ?v1) ?e (var ?v2))"@),
        pattern_text("(var ?v2)"@),
{
    reveal_with_fuel(list_scan, 60);
    reveal_strlit("(let ?v ?e ?c)");
    reveal_strlit("?c");
    reveal_strlit("(let (var ?v1) ?e (var ?v1))");
    reveal_strlit("?e");
    reveal_strlit("(let (var ?v1) ?e (var ?v2))");
    reveal_strlit("(var ?v2)");
}

proof fn lemma_rule_texts_1()
    ensures
        pattern_text("?v1"@),
        var_text("?v1"@),
        pattern_text("?v2"@),
        var_text("?v2"@),
        pattern_text("(sum ?x (sum ?y ?e))"@),
        pattern_text("(sum ?y (sum ?x ?e))"@),
        pattern_text("(* ?b (sum ?x ?a))"@),
        pattern_text("?fresh"@),
        var_text("?fresh"@),
{
    reveal_with_fuel(list_scan, 60);
    reveal_strlit("?v1");
    reveal_strlit("?v2");
    reveal_strlit("(sum ?x (sum ?y ?e))");
    reveal_strlit("(sum ?y (sum ?x ?e))");
    reveal_strlit("(* ?b (sum ?x ?a))");
    reveal_strlit("?fresh");
}

proof fn lemma_rule_texts_2()
    ensures
        pattern_text("(sum ?fresh (* ?b (let ?x ?fresh ?a)))"@),
        pattern_text("?x"@),
        var_text("?x"@),
        pattern_text("?b"@),
        var_text("?b"@),
        pattern_text("(let ?v1 ?e (sum ?v1 ?body))"@),
        pattern_text("(sum ?v1 ?body)"@),
        pattern_text("(let ?v1 ?e (sum ?v2 ?body))"@),
{
    reveal_with_fuel(list_scan, 60);
    reveal_strlit("(sum ?fresh (* ?b (let ?x ?fresh ?a)))");
    reveal_strlit("?x");
    reveal_strlit("?b");
    reveal_strlit("(let ?v1 ?e (sum ?v1 ?body))");
    reveal_strlit("(sum ?v1 ?body)");
    reveal_strlit("(let ?v1 ?e (sum ?v2 ?body))");
}

proof fn lemma_rule_texts_3()
    ensures
        pattern_text("(sum ?v2 (let ?v1 ?e ?body))"@),
        pattern_text("(sum ?fresh (let ?v1 ?e (let ?v2 ?fresh ?body)))"@),
        pattern_text("(* ?a 1)"@),
        pattern_text("?a"@),
        var_text("?a"@),
        pattern_text("(pow ?x 0)"@),
        pattern_text("1"@),
{
    reveal_with_fuel(list_scan, 60);
    reveal_strlit("(sum ?v2 (let ?v1 ?e ?body))");
    reveal_strlit("(sum ?fresh (let ?v1 ?e (let ?v2 ?fresh ?body)))");
    reveal_strlit("(* ?a 1)");
    reveal_strlit("?a");
    reveal_strlit("(pow ?x 0)");
    reveal_strlit("1");
}

proof fn lemma_rule_texts_4()
    ensures
        pattern_text("(let ?v ?e (+ ?a ?b))"@),
        pattern_text("(+ (let ?v ?e ?a) (let ?v ?e ?b))"@),
        pattern_text("(let ?v ?e (= ?a ?b))"@),
        pattern_text("(= (let ?v ?e ?a) (let ?v ?e ?b))"@),
        pattern_text("(+ ?a ?b)"@),
        pattern_text("(+ ?b ?a)"@),
{
    reveal_with_fuel(list_scan, 60);
    reveal_strlit("(let ?v ?e (+ ?a ?b))");
    reveal_strlit("(+ (let ?v ?e ?a) (let ?v ?e ?b))");
    reveal_strlit("(let ?v ?e (= ?a ?b))");
    reveal_strlit("(= (let ?v ?e ?a) (let ?v ?e ?b))");
    reveal_strlit("(+ ?a ?b)");
    reveal_strlit("(+ ?b ?a)");
}

proof fn lemma_rule_texts_5()
    ensures
        pattern_text("(+ (+ ?a ?b) ?c)"@),
        pattern_text("(+ ?a (+ ?b ?c))"@),
        pattern_text("(* ?a ?b)"@),
        pattern_text("(* ?b ?a)"@),
        pattern_text("(* (* ?a ?b) ?c)"@),
        pattern_text("(* ?a (* ?b ?c))"@),
{
    reveal_with_fuel(list_scan, 60);
    reveal_strlit("(+ (+ ?a ?b) ?c)");
    reveal_strlit("(+ ?a (+ ?b ?c))");
    reveal_strlit("(* ?a ?b)");
    reveal_strlit("(* ?b ?a)");
    reveal_strlit("(* (* ?a ?b) ?c)");
    reveal_strlit("(* ?a (* ?b ?c))");
}

proof fn lemma_rule_texts_6()
    ensures
        pattern_text("(- ?a ?b)"@),
        pattern_text("(+ ?a (* -1 ?b))"@),
        pattern_text("(= ?a ?b)"@),
        pattern_text("(= ?b ?a)"@),
        pattern_text("(* (+ ?a ?b) ?c)"@),
        pattern_text("(+ (* ?a ?c) (* ?b ?c))"@),
{
    reveal_with_fuel(list_scan, 60);
    reveal_strlit("(- ?a ?b)");
    reveal_strlit("(+ ?a (* -1 ?b))");
    reveal_strlit("(= ?a ?b)");
    reveal_strlit("(= ?b ?a)");
    reveal_strlit("(* (+ ?a ?b) ?c)");
    reveal_strlit("(+ (* ?a ?c) (* ?b ?c))");
}

proof fn lemma_rule_texts_7()
    ensures
        pattern_text("(sum ?x (+ ?a ?b))"@),
        pattern_text("(+ (sum ?x ?a) (sum ?x ?b))"@),
        pattern_text("(sum ?x (* ?b ?a))"@),
        pattern_text("(I (< ?j ?t))"@),
        pattern_text("(+ (I (< ?j (- ?t 1))) (I (= ?j (- ?t 1))))"@),
        pattern_text("(* (I (< ?j ?t)) (I (<= ?j ?t)))"@),
{
    reveal_with_fuel(list_scan, 60);
    reveal_strlit("(sum ?x (+ ?a ?b))");
    reveal_strlit("(+ (sum ?x ?a) (sum ?x ?b))");
    reveal_strlit("(sum ?x (* ?b ?a))");
    reveal_strlit("(I (< ?j ?t))");
    reveal_strlit("(+ (I (< ?j (- ?t 1))) (I (= ?j (- ?t 1))))");
    reveal_strlit("(* (I (< ?j ?t)) (I (<= ?j ?t)))");
}

proof fn lemma_rule_texts_8()
    ensures
        pattern_text("(I (= ?j ?t))"@),
        pattern_text("(* (I (= ?j ?t)) (I (<= ?j ?t)))"@),
        pattern_text("(I (<= ?j (- ?t 1)))"@),
        pattern_text("(sum ?w (* ?w (I (= ?x ?w))))"@),
        pattern_text("(* (I (> (- ?a ?b) ?c)) (I (> ?a ?c)))"@),
        pattern_text("(I (> (- ?a ?b) ?c))"@),
{
    reveal_with_fuel(list_scan, 60);
    reveal_strlit("(I (= ?j ?t))");
    reveal_strlit("(* (I (= ?j ?t)) (I (<= ?j ?t)))");
    reveal_strlit("(I (<= ?j (- ?t 1)))");
    reveal_strlit("(sum ?w (* ?w (I (= ?x ?w))))");
    reveal_strlit("(* (I (> (- ?a ?b) ?c)) (I (> ?a ?c)))");
    reveal_strlit("(I (> (- ?a ?b) ?c))");
}

proof fn lemma_rule_texts_9()
    ensures
        pattern_text("(- 1 (I (<= ?a ?b)))"@),
        pattern_text("(I (> ?a ?b))"@),
{
    reveal_with_fuel(list_scan, 60);
    reveal_strlit("(- 1 (I (<= ?a ?b)))");
    reveal_strlit("(I (> ?a ?b))");
}

/// The saturation rules, in order: each one-way rule, and each two-way rule followed by
/// its reverse twin.
pub open spec fn rules_table(r: Seq<Rule>) -> bool {
    &&& r.len() == 42
    &&& forall|k: int| 0 <= k < 15 ==> twins(#[trigger] r[9 + 2 * k]@, r[10 + 2 * k]@)
    &&& plain_rule(r[0]@, "let-const"@, "(let ?v ?e ?c)"@, "?c"@, Some(GuardModel::IsConst("?c"@)), false)
    &&& plain_rule(r[1]@, "let-var-same"@, "(let (var ?v1) ?e (var ?v1))"@, "?e"@, None, false)
    &&& plain_rule(r[2]@, "let-var-diff"@, "(let (var ?v1) ?e (var ?v2))"@, "(var ?v2)"@, Some(GuardModel::NotSameVar("?v1"@, "?v2"@)), false)
    &&& plain_rule(r[3]@, "swap-sum"@, "(sum ?x (sum ?y ?e))"@, "(sum ?y (sum ?x ?e))"@, None, false)
    &&& r[4]@.name == "pushdown-sum-free"@
    &&& r[4]@.searcher == "(* ?b (sum ?x ?a))"@
    &&& r[4]@.action == (ActionModel::RenameSum { fresh: "?fresh"@, e: "(sum ?fresh (* ?b (let ?x ?fresh ?a)))"@ })
    &&& r[4]@.guard == Some(GuardModel::Free("?x"@, "?b"@))
    &&& r[4]@.destroys == false
    &&& plain_rule(r[5]@, "let-sum-same"@, "(let ?v1 ?e (sum ?v1 ?body))"@, "(sum ?v1 ?body)"@, None, false)
    &&& r[6]@.name == "let-sum-diff"@
    &&& r[6]@.searcher == "(let ?v1 ?e (sum ?v2 ?body))"@
    &&& r[6]@.action == (ActionModel::CaptureAvoid { fresh: "?fresh"@, v2: "?v2"@, e: "?e"@, if_not_free: "(sum ?v2 (let ?v1 ?e ?body))"@, if_free: "(sum ?fresh (let ?v1 ?e (let ?v2 ?fresh ?body)))"@ })
    &&& r[6]@.guard == Some(GuardModel::NotSameVar("?v1"@, "?v2"@))
    &&& r[6]@.destroys == false
    &&& plain_rule(r[7]@, "mul-1"@, "(* ?a 1)"@, "?a"@, None, false)
    &&& plain_rule(r[8]@, "pow0"@, "(pow ?x 0)"@, "1"@, None, false)
    &&& plain_rule(r[9]@, "let-add"@, "(let ?v ?e (+ ?a ?b))"@, "(+ (let ?v ?e ?a) (let ?v ?e ?b))"@, None, false)
    &&& plain_rule(r[11]@, "let-eq"@, "(let ?v ?e (= ?a ?b))"@, "(= (let ?v ?e ?a) (let ?v ?e ?b))"@, None, false)
    &&& plain_rule(r[13]@, "add-comm"@, "(+ ?a ?b)"@, "(+ ?b ?a)"@, None, false)
    &&& plain_rule(r[15]@, "add-assoc"@, "(+ (+ ?a ?b) ?c)"@, "(+ ?a (+ ?b ?c))"@, None, false)
    &&& plain_rule(r[17]@, "mul-comm"@, "(* ?a ?b)"@, "(* ?b ?a)"@, None, false)
    &&& plain_rule(r[19]@, "mul-assoc"@, "(* (* ?a ?b) ?c)"@, "(* ?a (* ?b ?c))"@, None, false)
    &&& plain_rule(r[21]@, "subtract"@, "(- ?a ?b)"@, "(+ ?a (* -1 ?b))"@, None, false)
    &&& plain_rule(r[23]@, "eq-comm"@, "(= ?a ?b)"@, "(= ?b ?a)"@, None, false)
    &&& plain_rule(r[25]@, "add-mul-dist"@, "(* (+ ?a ?b) ?c)"@, "(+ (* ?a ?c) (* ?b ?c))"@, None, false)
    &&& plain_rule(r[27]@, "add-sum-dist"@, "(sum ?x (+ ?a ?b))"@, "(+ (sum ?x ?a) (sum ?x ?b))"@, None, false)
    &&& plain_rule(r[29]@, "pushdown-sum-bound"@, "(* ?b (sum ?x ?a))"@, "(sum ?x (* ?b ?a))"@, Some(GuardModel::NotFree("?x"@, "?b"@)), false)
    &&& plain_rule(r[31]@, "l-49"@, "(I (< ?j ?t))"@, "(+ (I (< ?j (- ?t 1))) (I (= ?j (- ?t 1))))"@, None, false)
    &&& plain_rule(r[33]@, "l-51"@, "(I (< ?j ?t))"@, "(* (I (< ?j ?t)) (I (<= ?j ?t)))"@, None, false)
    &&& plain_rule(r[35]@, "l-52"@, "(I (= ?j ?t))"@, "(* (I (= ?j ?t)) (I (<= ?j ?t)))"@, None, false)
    &&& plain_rule(r[37]@, "l-53"@, "(I (< ?j ?t))"@, "(I (<= ?j (- ?t 1)))"@, None, false)
    &&& plain_rule(r[39]@, "trivial"@, "(sum ?w (* ?w (I (= ?x ?w))))"@, "?x"@, None, false)
    &&& plain_rule(r[40]@, "nat"@, "(* (I (> (- ?a ?b) ?c)) (I (> ?a ?c)))"@, "(I (> (- ?a ?b) ?c))"@, None, false)
    &&& plain_rule(r[41]@, "exclusion"@, "(- 1 (I (<= ?a ?b)))"@, "(I (> ?a ?b))"@, None, false)
}

/// The pattern a rule instantiates, where it instantiates one.
pub open spec fn pattern_of(a: ActionModel) -> Seq<char> {
    match a {
        ActionModel::Pattern(p) => p,
        ActionModel::RenameSum { fresh, e } => e,
        ActionModel::CaptureAvoid { fresh, v2, e, if_not_free, if_free } => if_not_free,
    }
}

/// Each one-way rule of the saturation table rewrites in its own direction: it searches
/// for the left form below and instantiates the right one. The simplifications among them
/// (the `let` eliminations, `mul-1`, `pow0`, `trivial`, `nat`, `exclusion`) instantiate a
/// shorter pattern than the one they search for.
pub proof fn lemma_rules_one_way_directions(r: Seq<Rule>)
    requires
        rules_table(r),
    ensures
        r[0]@.searcher == "(let ?v ?e ?c)"@,
        r[0]@.action == ActionModel::Pattern("?c"@),
        r[1]@.searcher == "(let (var ?v1) ?e (var ?v1))"@,
        r[1]@.action == ActionModel::Pattern("?e"@),
        r[2]@.searcher == "(let (var ?v1) ?e (var ?v2))"@,
        r[2]@.action == ActionModel::Pattern("(var ?v2)"@),
        r[3]@.searcher == "(sum ?x (sum ?y ?e))"@,
        r[3]@.action == ActionModel::Pattern("(sum ?y (sum ?x ?e))"@),
        r[5]@.searcher == "(let ?v1 ?e (sum ?v1 ?body))"@,
        r[5]@.action == ActionModel::Pattern("(sum ?v1 ?body)"@),
        r[7]@.searcher == "(* ?a 1)"@,
        r[7]@.action == ActionModel::Pattern("?a"@),
        r[8]@.searcher == "(pow ?x 0)"@,
        r[8]@.action == ActionModel::Pattern("1"@),
        r[39]@.searcher == "(sum ?w (* ?w (I (= ?x ?w))))"@,
        r[39]@.action == ActionModel::Pattern("?x"@),
        r[40]@.searcher == "(* (I (> (- ?a ?b) ?c)) (I (> ?a ?c)))"@,
        r[40]@.action == ActionModel::Pattern("(I (> (- ?a ?b) ?c))"@),
        r[41]@.searcher == "(- 1 (I (<= ?a ?b)))"@,
        r[41]@.action == ActionModel::Pattern("(I (> ?a ?b))"@),
        r[4]@.searcher == "(* ?b (sum ?x ?a))"@,
        r[4]@.action is RenameSum && r[4]@.action->RenameSum_e == "(sum ?fresh (* ?b (let ?x ?fresh ?a)))"@,
        r[6]@.searcher == "(let ?v1 ?e (sum ?v2 ?body))"@,
        r[6]@.action is CaptureAvoid,
        r[6]@.action->CaptureAvoid_if_not_free == "(sum ?v2 (let ?v1 ?e ?body))"@,
        r[6]@.action->CaptureAvoid_if_free == "(sum ?fresh (let ?v1 ?e (let ?v2 ?fresh ?body)))"@,
        pattern_of(r[0]@.action).len() < r[0]@.searcher.len(),
        pattern_of(r[1]@.action).len() < r[1]@.searcher.len(),
        pattern_of(r[2]@.action).len() < r[2]@.searcher.len(),
        pattern_of(r[5]@.action).len() < r[5]@.searcher.len(),
        pattern_of(r[7]@.action).len() < r[7]@.searcher.len(),
        pattern_of(r[8]@.action).len() < r[8]@.searcher.len(),
        pattern_of(r[39]@.action).len() < r[39]@.searcher.len(),
        pattern_of(r[40]@.action).len() < r[40]@.searcher.len(),
        pattern_of(r[41]@.action).len() < r[41]@.searcher.len(),
{
    reveal_strlit("(* (I (> (- ?a ?b) ?c)) (I (> ?a ?c)))");
    reveal_strlit("(* ?a 1)");
    reveal_strlit("(* ?b (sum ?x ?a))");
    reveal_strlit("(- 1 (I (<= ?a ?b)))");
    reveal_strlit("(I (> (- ?a ?b) ?c))");
    reveal_strlit("(I (> ?a ?b))");
    reveal_strlit("(let (var ?v1) ?e (var ?v1))");
    reveal_strlit("(let (var ?v1) ?e (var ?v2))");
    reveal_strlit("(let ?v ?e ?c)");
    reveal_strlit("(let ?v1 ?e (sum ?v1 ?body))");
    reveal_strlit("(let ?v1 ?e (sum ?v2 ?body))");
    reveal_strlit("(pow ?x 0)");
    reveal_strlit("(sum ?fresh (* ?b (let ?x ?fresh ?a)))");
    reveal_strlit("(sum ?fresh (let ?v1 ?e (let ?v2 ?fresh ?body)))");
    reveal_strlit("(sum ?v1 ?body)");
    reveal_strlit("(sum ?v2 (let ?v1 ?e ?body))");
    reveal_strlit("(sum ?w (* ?w (I (= ?x ?w))))");
    reveal_strlit("(sum ?x (sum ?y ?e))");
    reveal_strlit("(sum ?y (sum ?x ?e))");
    reveal_strlit("(var ?v2)");
    reveal_strlit("1");
    reveal_strlit("?a");
    reveal_strlit("?c");
    reveal_strlit("?e");
    reveal_strlit("?x");
}

/// Each normalizing rule rewrites toward the normal form: it searches for the left form
/// below and leaves the right one. Products and sums are distributed over additions (the
/// instantiated form is an addition, the searched one a product or sum), products are
/// pushed under sums, `let` is pushed inward or eliminated, and subtraction becomes
/// addition.
pub proof fn lemma_normalize_directions(r: Seq<Rule>)
    requires
        normalize_table(r),
    ensures
        r[0]@.searcher == "(* ?a (+ ?b ?c))"@,
        r[0]@.action == ActionModel::Pattern("(+ (* ?a ?b) (* ?a ?c))"@),
        r[1]@.searcher == "(* (+ ?b ?c) ?a)"@,
        r[1]@.action == ActionModel::Pattern("(+ (* ?a ?b) (* ?a ?c))"@),
        r[2]@.searcher == "(sum ?i (+ ?a ?b))"@,
        r[2]@.action == ActionModel::Pattern("(+ (sum ?i ?a) (sum ?i ?b))"@),
        r[3]@.searcher == "(* ?b (sum ?x ?a))"@,
        r[3]@.action == ActionModel::Pattern("(sum ?x (* ?b ?a))"@),
        r[5]@.searcher == "(let ?v1 ?e ?n)"@,
        r[5]@.action == ActionModel::Pattern("?n"@),
        r[6]@.searcher == "(let ?v1 ?e ?v1)"@,
        r[6]@.action == ActionModel::Pattern("?e"@),
        r[7]@.searcher == "(let (var ?v1) ?e (var ?v2))"@,
        r[7]@.action == ActionModel::Pattern("(var ?v2)"@),
        r[8]@.searcher == "(let ?v1 ?e (sum ?v1 ?body))"@,
        r[8]@.action == ActionModel::Pattern("(sum ?v1 ?body)"@),
        r[10]@.searcher == "(let ?v ?e (+ ?a ?b))"@,
        r[10]@.action == ActionModel::Pattern("(+ (let ?v ?e ?a) (let ?v ?e ?b))"@),
        r[11]@.searcher == "(let ?v ?e (= ?a ?b))"@,
        r[11]@.action == ActionModel::Pattern("(= (let ?v ?e ?a) (let ?v ?e ?b))"@),
        r[12]@.searcher == "(- ?a ?b)"@,
        r[12]@.action == ActionModel::Pattern("(+ ?a (* -1 ?b))"@),
        r[4]@.searcher == "(* ?b (sum ?x ?a))"@,
        r[4]@.action is RenameSum && r[4]@.action->RenameSum_e == "(sum ?fresh (* ?b (let ?x ?fresh ?a)))"@,
        r[9]@.searcher == "(let ?v1 ?e (sum ?v2 ?body))"@,
        r[9]@.action is CaptureAvoid,
        r[9]@.action->CaptureAvoid_if_not_free == "(sum ?v2 (let ?v1 ?e ?body))"@,
        r[9]@.action->CaptureAvoid_if_free == "(sum ?fresh (let ?v1 ?e (let ?v2 ?fresh ?body)))"@,
        forall|i: int| 0 <= i < 3 ==> #[trigger] pattern_of(r[i]@.action)[1] == '+' && r[i]@.searcher[1] != '+',
{
    reveal_strlit("(* (+ ?b ?c) ?a)");
    reveal_strlit("(* ?a (+ ?b ?c))");
    reveal_strlit("(* ?b (sum ?x ?a))");
    reveal_strlit("(+ (* ?a ?b) (* ?a ?c))");
    reveal_strlit("(+ (let ?v ?e ?a) (let ?v ?e ?b))");
    reveal_strlit("(+ (sum ?i ?a) (sum ?i ?b))");
    reveal_strlit("(+ ?a (* -1 ?b))");
    reveal_strlit("(- ?a ?b)");
    reveal_strlit("(= (let ?v ?e ?a) (let ?v ?e ?b))");
    reveal_strlit("(let (var ?v1) ?e (var ?v2))");
    reveal_strlit("(let ?v ?e (+ ?a ?b))");
    reveal_strlit("(let ?v ?e (= ?a ?b))");
    reveal_strlit("(let ?v1 ?e (sum ?v1 ?body))");
    reveal_strlit("(let ?v1 ?e (sum ?v2 ?body))");
    reveal_strlit("(let ?v1 ?e ?n)");
    reveal_strlit("(let ?v1 ?e ?v1)");
    reveal_strlit("(sum ?fresh (* ?b (let ?x ?fresh ?a)))");
    reveal_strlit("(sum ?fresh (let ?v1 ?e (let ?v2 ?fresh ?body)))");
    reveal_strlit("(sum ?i (+ ?a ?b))");
    reveal_strlit("(sum ?v1 ?body)");
    reveal_strlit("(sum ?v2 (let ?v1 ?e ?body))");
    reveal_strlit("(sum ?x (* ?b ?a))");
    reveal_strlit("(var ?v2)");
    reveal_strlit("?e");
    reveal_strlit("?n");
}

proof fn lemma_rules_twin_at(r: Seq<Rule>, k: int)
    requires
        rules_table(r),
        0 <= k < 15,
    ensures
        twins(r[9 + 2 * k]@, r[10 + 2 * k]@),
{
}

/// Each two-way rule of the saturation table and its twin rewrite between the two forms
/// below, one each way.
pub proof fn lemma_rules_two_way_texts(r: Seq<Rule>)
    requires
        rules_table(r),
    ensures
        r[9]@.searcher == "(let ?v ?e (+ ?a ?b))"@ && r[9]@.action == ActionModel::Pattern("(+ (let ?v ?e ?a) (let ?v ?e ?b))"@),
        r[10]@.searcher == "(+ (let ?v ?e ?a) (let ?v ?e ?b))"@ && r[10]@.action == ActionModel::Pattern("(let ?v ?e (+ ?a ?b))"@),
        r[11]@.searcher == "(let ?v ?e (= ?a ?b))"@ && r[11]@.action == ActionModel::Pattern("(= (let ?v ?e ?a) (let ?v ?e ?b))"@),
        r[12]@.searcher == "(= (let ?v ?e ?a) (let ?v ?e ?b))"@ && r[12]@.action == ActionModel::Pattern("(let ?v ?e (= ?a ?b))"@),
        r[13]@.searcher == "(+ ?a ?b)"@ && r[13]@.action == ActionModel::Pattern("(+ ?b ?a)"@),
        r[14]@.searcher == "(+ ?b ?a)"@ && r[14]@.action == ActionModel::Pattern("(+ ?a ?b)"@),
        r[15]@.searcher == "(+ (+ ?a ?b) ?c)"@ && r[15]@.action == ActionModel::Pattern("(+ ?a (+ ?b ?c))"@),
        r[16]@.searcher == "(+ ?a (+ ?b ?c))"@ && r[16]@.action == ActionModel::Pattern("(+ (+ ?a ?b) ?c)"@),
        r[17]@.searcher == "(* ?a ?b)"@ && r[17]@.action == ActionModel::Pattern("(* ?b ?a)"@),
        r[18]@.searcher == "(* ?b ?a)"@ && r[18]@.action == ActionModel::Pattern("(* ?a ?b)"@),
        r[19]@.searcher == "(* (* ?a ?b) ?c)"@ && r[19]@.action == ActionModel::Pattern("(* ?a (* ?b ?c))"@),
        r[20]@.searcher == "(* ?a (* ?b ?c))"@ && r[20]@.action == ActionModel::Pattern("(* (* ?a ?b) ?c)"@),
        r[21]@.searcher == "(- ?a ?b)"@ && r[21]@.action == ActionModel::Pattern("(+ ?a (* -1 ?b))"@),
        r[22]@.searcher == "(+ ?a (* -1 ?b))"@ && r[22]@.action == ActionModel::Pattern("(- ?a ?b)"@),
        r[23]@.searcher == "(= ?a ?b)"@ && r[23]@.action == ActionModel::Pattern("(= ?b ?a)"@),
        r[24]@.searcher == "(= ?b ?a)"@ && r[24]@.action == ActionModel::Pattern("(= ?a ?b)"@),
        r[25]@.searcher == "(* (+ ?a ?b) ?c)"@ && r[25]@.action == ActionModel::Pattern("(+ (* ?a ?c) (* ?b ?c))"@),
        r[26]@.searcher == "(+ (* ?a ?c) (* ?b ?c))"@ && r[26]@.action == ActionModel::Pattern("(* (+ ?a ?b) ?c)"@),
        r[27]@.searcher == "(sum ?x (+ ?a ?b))"@ && r[27]@.action == ActionModel::Pattern("(+ (sum ?x ?a) (sum ?x ?b))"@),
        r[28]@.searcher == "(+ (sum ?x ?a) (sum ?x ?b))"@ && r[28]@.action == ActionModel::Pattern("(sum ?x (+ ?a ?b))"@),
        r[29]@.searcher == "(* ?b (sum ?x ?a))"@ && r[29]@.action == ActionModel::Pattern("(sum ?x (* ?b ?a))"@),
        r[30]@.searcher == "(sum ?x (* ?b ?a))"@ && r[30]@.action == ActionModel::Pattern("(* ?b (sum ?x ?a))"@),
        r[31]@.searcher == "(I (< ?j ?t))"@ && r[31]@.action == ActionModel::Pattern("(+ (I (< ?j (- ?t 1))) (I (= ?j (- ?t 1))))"@),
        r[32]@.searcher == "(+ (I (< ?j (- ?t 1))) (I (= ?j (- ?t 1))))"@ && r[32]@.action == ActionModel::Pattern("(I (< ?j ?t))"@),
        r[33]@.searcher == "(I (< ?j ?t))"@ && r[33]@.action == ActionModel::Pattern("(* (I (< ?j ?t)) (I (<= ?j ?t)))"@),
        r[34]@.searcher == "(* (I (< ?j ?t)) (I (<= ?j ?t)))"@ && r[34]@.action == ActionModel::Pattern("(I (< ?j ?t))"@),
        r[35]@.searcher == "(I (= ?j ?t))"@ && r[35]@.action == ActionModel::Pattern("(* (I (= ?j ?t)) (I (<= ?j ?t)))"@),
        r[36]@.searcher == "(* (I (= ?j ?t)) (I (<= ?j ?t)))"@ && r[36]@.action == ActionModel::Pattern("(I (= ?j ?t))"@),
        r[37]@.searcher == "(I (< ?j ?t))"@ && r[37]@.action == ActionModel::Pattern("(I (<= ?j (- ?t 1)))"@),
        r[38]@.searcher == "(I (<= ?j (- ?t 1)))"@ && r[38]@.action == ActionModel::Pattern("(I (< ?j ?t))"@),
{
    lemma_rules_twin_at(r, 0);
    lemma_rules_twin_at(r, 1);
    lemma_rules_twin_at(r, 2);
    lemma_rules_twin_at(r, 3);
    lemma_rules_twin_at(r, 4);
    lemma_rules_twin_at(r, 5);
    lemma_rules_twin_at(r, 6);
    lemma_rules_twin_at(r, 7);
    lemma_rules_twin_at(r, 8);
    lemma_rules_twin_at(r, 9);
    lemma_rules_twin_at(r, 10);
    lemma_rules_twin_at(r, 11);
    lemma_rules_twin_at(r, 12);
    lemma_rules_twin_at(r, 13);
    lemma_rules_twin_at(r, 14);
}

proof fn lemma_lemmas_twin_at(r: Seq<Rule>, k: int)
    requires
        lemmas_table(r),
        0 <= k < 4,
    ensures
        twins(r[2 * k]@, r[2 * k + 1]@),
{
}

/// The lemmas on indicators, each with its twin, rewrite between the forms below, one
/// each way.
pub proof fn lemma_lemmas_texts(r: Seq<Rule>)
    requires
        lemmas_table(r),
    ensures
        r[0]@.searcher == "(I (< ?j ?t))"@ && r[0]@.action == ActionModel::Pattern("(+ (I (< ?j (- ?t 1))) (I (= ?j (- ?t 1))))"@),
        r[1]@.searcher == "(+ (I (< ?j (- ?t 1))) (I (= ?j (- ?t 1))))"@ && r[1]@.action == ActionModel::Pattern("(I (< ?j ?t))"@),
        r[2]@.searcher == "(I (< ?j ?t))"@ && r[2]@.action == ActionModel::Pattern("(* (I (< ?j ?t)) (I (<= ?j ?t)))"@),
        r[3]@.searcher == "(* (I (< ?j ?t)) (I (<= ?j ?t)))"@ && r[3]@.action == ActionModel::Pattern("(I (< ?j ?t))"@),
        r[4]@.searcher == "(I (= ?j ?t))"@ && r[4]@.action == ActionModel::Pattern("(* (I (= ?j ?t)) (I (<= ?j ?t)))"@),
        r[5]@.searcher == "(* (I (= ?j ?t)) (I (<= ?j ?t)))"@ && r[5]@.action == ActionModel::Pattern("(I (= ?j ?t))"@),
        r[6]@.searcher == "(I (< ?j ?t))"@ && r[6]@.action == ActionModel::Pattern("(I (<= ?j (- ?t 1)))"@),
        r[7]@.searcher == "(I (<= ?j (- ?t 1)))"@ && r[7]@.action == ActionModel::Pattern("(I (< ?j ?t))"@),
{
    lemma_lemmas_twin_at(r, 0);
    lemma_lemmas_twin_at(r, 1);
    lemma_lemmas_twin_at(r, 2);
    lemma_lemmas_twin_at(r, 3);
}

/// The saturation rules: substitution, sums, commutativity, associativity and
/// distributivity (both ways), and lemmas on indicators. Each keeps the value of the
/// term it rewrites, for every match its guard admits.
pub fn rules() -> (r: Vec<Rule>)
    ensures
        forall|i: int| 0 <= i < r@.len() ==> rule_ok(#[trigger] r@[i]@),
        forall|i: int| 0 <= i < r@.len() ==> !(#[trigger] r@[i]@).destroys,
        rules_table(r@),
        forall|i: int, m: Interp| 0 <= i < r@.len() ==> #[trigger] rule_keeps_value(r@[i]@, m),
{
    proof {
        lemma_rule_texts_0();
        lemma_rule_texts_1();
        lemma_rule_texts_2();
        lemma_rule_texts_3();
        lemma_rule_texts_4();
        lemma_rule_texts_5();
        lemma_rule_texts_6();
        lemma_rule_texts_7();
        lemma_rule_texts_8();
        lemma_rule_texts_9();
    }
    let mut rs: Vec<Rule> = Vec::new();
    rs.push(one_way("let-const", "(let ?v ?e ?c)", "?c", is_const("?c")));
    rs.push(one_way("let-var-same", "(let (var ?v1) ?e (var ?v1))", "?e", None));
    rs.push(one_way("let-var-diff", "(let (var ?v1) ?e (var ?v2))", "(var ?v2)", is_not_same_var("?v1", "?v2")));
    rs.push(one_way("swap-sum", "(sum ?x (sum ?y ?e))", "(sum ?y (sum ?x ?e))", None));
    rs.push(
        guarded(
            "pushdown-sum-free",
            "(* ?b (sum ?x ?a))",
            rename_sum("?fresh", "(sum ?fresh (* ?b (let ?x ?fresh ?a)))"),
            free("?x", "?b"),
            false,
        ),
    );
    rs.push(one_way("let-sum-same", "(let ?v1 ?e (sum ?v1 ?body))", "(sum ?v1 ?body)", None));
    rs.push(
        guarded(
            "let-sum-diff",
            "(let ?v1 ?e (sum ?v2 ?body))",
            capture_avoid(
                "?fresh",
                "?v2",
                "?e",
                "(sum ?v2 (let ?v1 ?e ?body))",
                "(sum ?fresh (let ?v1 ?e (let ?v2 ?fresh ?body)))",
            ),
            is_not_same_var("?v1", "?v2"),
            false,
        ),
    );
    rs.push(one_way("mul-1", "(* ?a 1)", "?a", None));
    rs.push(one_way("pow0", "(pow ?x 0)", "1", None));
    let ghost first = rs@;
    // substitution rules
    push_both_ways(&mut rs, "let-add", "(let ?v ?e (+ ?a ?b))", "(+ (let ?v ?e ?a) (let ?v ?e ?b))", None);
    push_both_ways(&mut rs, "let-eq", "(let ?v ?e (= ?a ?b))", "(= (let ?v ?e ?a) (let ?v ?e ?b))", None);
    // open term rules
    push_both_ways(&mut rs, "add-comm", "(+ ?a ?b)", "(+ ?b ?a)", None);
    push_both_ways(&mut rs, "add-assoc", "(+ (+ ?a ?b) ?c)", "(+ ?a (+ ?b ?c))", None);
    push_both_ways(&mut rs, "mul-comm", "(* ?a ?b)", "(* ?b ?a)", None);
    push_both_ways(&mut rs, "mul-assoc", "(* (* ?a ?b) ?c)", "(* ?a (* ?b ?c))", None);
    push_both_ways(&mut rs, "subtract", "(- ?a ?b)", "(+ ?a (* -1 ?b))", None);
    push_both_ways(&mut rs, "eq-comm", "(= ?a ?b)", "(= ?b ?a)", None);
    push_both_ways(&mut rs, "add-mul-dist", "(* (+ ?a ?b) ?c)", "(+ (* ?a ?c) (* ?b ?c))", None);
    push_both_ways(&mut rs, "add-sum-dist", "(sum ?x (+ ?a ?b))", "(+ (sum ?x ?a) (sum ?x ?b))", None);
    push_both_ways(&mut rs, "pushdown-sum-bound", "(* ?b (sum ?x ?a))", "(sum ?x (* ?b ?a))", not_free("?x", "?b"));
    // lemmas on indicators
    push_both_ways(&mut rs, "l-49", "(I (< ?j ?t))", "(+ (I (< ?j (- ?t 1))) (I (= ?j (- ?t 1))))", None);
    push_both_ways(&mut rs, "l-51", "(I (< ?j ?t))", "(* (I (< ?j ?t)) (I (<= ?j ?t)))", None);
    push_both_ways(&mut rs, "l-52", "(I (= ?j ?t))", "(* (I (= ?j ?t)) (I (<= ?j ?t)))", None);
    push_both_ways(&mut rs, "l-53", "(I (< ?j ?t))", "(I (<= ?j (- ?t 1)))", None);
    rs.push(one_way("trivial", "(sum ?w (* ?w (I (= ?x ?w))))", "?x", None));
    rs.push(one_way("nat", "(* (I (> (- ?a ?b) ?c)) (I (> ?a ?c)))", "(I (> (- ?a ?b) ?c))", None));
    rs.push(one_way("exclusion", "(- 1 (I (<= ?a ?b)))", "(I (> ?a ?b))", None));
    proof {
        assert(rules_table(rs@));
        assert forall|i: int, m: Interp| 0 <= i < rs@.len() implies #[trigger] rule_keeps_value(rs@[i]@, m) by {
            lemma_rules_keep_value(rs@, m);
        }
    }
    rs
}

/// The normalizing rules, in order.
pub open spec fn normalize_table(r: Seq<Rule>) -> bool {
    &&& r.len() == 13
    &&& !r[5]@.destroys
    &&& plain_rule(r[0]@, "pushdown-mul"@, "(* ?a (+ ?b ?c))"@, "(+ (* ?a ?b) (* ?a ?c))"@, None, true)
    &&& plain_rule(r[1]@, "pushdown-mul-2"@, "(* (+ ?b ?c) ?a)"@, "(+ (* ?a ?b) (* ?a ?c))"@, None, true)
    &&& plain_rule(r[2]@, "pushdown-sum-add"@, "(sum ?i (+ ?a ?b))"@, "(+ (sum ?i ?a) (sum ?i ?b))"@, None, true)
    &&& r[3]@.name == "pushdown-sum-bound"@
    &&& r[3]@.searcher == "(* ?b (sum ?x ?a))"@
    &&& r[3]@.action == (ActionModel::Pattern("(sum ?x (* ?b ?a))"@))
    &&& r[3]@.guard == Some(GuardModel::NotFree("?x"@, "?b"@))
    &&& r[3]@.destroys == true
    &&& r[4]@.name == "pushdown-sum-free"@
    &&& r[4]@.searcher == "(* ?b (sum ?x ?a))"@
    &&& r[4]@.action == (ActionModel::RenameSum { fresh: "?fresh"@, e: "(sum ?fresh (* ?b (let ?x ?fresh ?a)))"@ })
    &&& r[4]@.guard == Some(GuardModel::Free("?x"@, "?b"@))
    &&& r[4]@.destroys == true
    &&& plain_rule(r[5]@, "let-const"@, "(let ?v1 ?e ?n)"@, "?n"@, Some(GuardModel::IsConst("?n"@)), false)
    &&& plain_rule(r[6]@, "let-var-same"@, "(let ?v1 ?e ?v1)"@, "?e"@, None, true)
    &&& r[7]@.name == "let-var-diff"@
    &&& r[7]@.searcher == "(let (var ?v1) ?e (var ?v2))"@
    &&& r[7]@.action == (ActionModel::Pattern("(var ?v2)"@))
    &&& r[7]@.guard == Some(GuardModel::NotSameVar("?v1"@, "?v2"@))
    &&& r[7]@.destroys == true
    &&& plain_rule(r[8]@, "let-sum-same"@, "(let ?v1 ?e (sum ?v1 ?body))"@, "(sum ?v1 ?body)"@, None, true)
    &&& r[9]@.name == "let-sum-diff"@
    &&& r[9]@.searcher == "(let ?v1 ?e (sum ?v2 ?body))"@
    &&& r[9]@.action == (ActionModel::CaptureAvoid { fresh: "?fresh"@, v2: "?v2"@, e: "?e"@, if_not_free: "(sum ?v2 (let ?v1 ?e ?body))"@, if_free: "(sum ?fresh (let ?v1 ?e (let ?v2 ?fresh ?body)))"@ })
    &&& r[9]@.guard == Some(GuardModel::NotSameVar("?v1"@, "?v2"@))
    &&& r[9]@.destroys == true
    &&& plain_rule(r[10]@, "let-add"@, "(let ?v ?e (+ ?a ?b))"@, "(+ (let ?v ?e ?a) (let ?v ?e ?b))"@, None, true)
    &&& plain_rule(r[11]@, "let-eq"@, "(let ?v ?e (= ?a ?b))"@, "(= (let ?v ?e ?a) (let ?v ?e ?b))"@, None, true)
    &&& plain_rule(r[12]@, "subtract"@, "(- ?a ?b)"@, "(+ ?a (* -1 ?b))"@, None, true)
}

/// One-way normalizing rewrites: distribute products and sums over additions and push
/// `let` inward, each (but `let-const`) emptying the class it rewrites. Each keeps the
/// value of the term it rewrites, for every match its guard admits.
pub fn normalize() -> (r: Vec<Rule>)
    ensures
        forall|i: int| 0 <= i < r@.len() ==> rule_ok(#[trigger] r@[i]@),
        forall|i: int| 0 <= i < r@.len() && i != 5 ==> (#[trigger] r@[i]@).destroys,
        normalize_table(r@),
        forall|i: int, m: Interp| 0 <= i < r@.len() ==> #[trigger] rule_keeps_value(r@[i]@, m),
{
    proof {
        reveal_with_fuel(list_scan, 60);
        reveal_strlit("(* ?a (+ ?b ?c))");
        reveal_strlit("(+ (* ?a ?b) (* ?a ?c))");
        reveal_strlit("(* (+ ?b ?c) ?a)");
        reveal_strlit("(sum ?i (+ ?a ?b))");
        reveal_strlit("(+ (sum ?i ?a) (sum ?i ?b))");
        reveal_strlit("(* ?b (sum ?x ?a))");
        reveal_strlit("(sum ?x (* ?b ?a))");
        reveal_strlit("?x");
        reveal_strlit("?b");
        reveal_strlit("?fresh");
        reveal_strlit("(sum ?fresh (* ?b (let ?x ?fresh ?a)))");
        reveal_strlit("(let ?v1 ?e ?n)");
        reveal_strlit("?n");
        reveal_strlit("(let ?v1 ?e ?v1)");
        reveal_strlit("?e");
        reveal_strlit("(let (var ?v1) ?e (var ?v2))");
        reveal_strlit("(var ?v2)");
        reveal_strlit("?v1");
        reveal_strlit("?v2");
        reveal_strlit("(let ?v1 ?e (sum ?v1 ?body))");
        reveal_strlit("(sum ?v1 ?body)");
        reveal_strlit("(let ?v1 ?e (sum ?v2 ?body))");
        reveal_strlit("(sum ?v2 (let ?v1 ?e ?body))");
        reveal_strlit("(sum ?fresh (let ?v1 ?e (let ?v2 ?fresh ?body)))");
        reveal_strlit("(let ?v ?e (+ ?a ?b))");
        reveal_strlit("(+ (let ?v ?e ?a) (let ?v ?e ?b))");
        reveal_strlit("(let ?v ?e (= ?a ?b))");
        reveal_strlit("(= (let ?v ?e ?a) (let ?v ?e ?b))");
        reveal_strlit("(- ?a ?b)");
        reveal_strlit("(+ ?a (* -1 ?b))");
        assert(pattern_text("(* ?a (+ ?b ?c))"@));
        assert(pattern_text("(+ (* ?a ?b) (* ?a ?c))"@));
        assert(pattern_text("(* (+ ?b ?c) ?a)"@));
        assert(pattern_text("(sum ?i (+ ?a ?b))"@));
        assert(pattern_text("(+ (sum ?i ?a) (sum ?i ?b))"@));
        assert(pattern_text("(* ?b (sum ?x ?a))"@));
        assert(pattern_text("(sum ?x (* ?b ?a))"@));
        assert(pattern_text("?x"@));
        assert(var_text("?x"@));
        assert(pattern_text("?b"@));
        assert(var_text("?b"@));
        assert(pattern_text("?fresh"@));
        assert(var_text("?fresh"@));
        assert(pattern_text("(sum ?fresh (* ?b (let ?x ?fresh ?a)))"@));
        assert(pattern_text("(let ?v1 ?e ?n)"@));
        assert(pattern_text("?n"@));
        assert(var_text("?n"@));
        assert(pattern_text("(let ?v1 ?e ?v1)"@));
        assert(pattern_text("?e"@));
        assert(var_text("?e"@));
        assert(pattern_text("(let (var ?v1) ?e (var ?v2))"@));
        assert(pattern_text("(var ?v2)"@));
        assert(pattern_text("?v1"@));
        assert(var_text("?v1"@));
        assert(pattern_text("?v2"@));
        assert(var_text("?v2"@));
        assert(pattern_text("(let ?v1 ?e (sum ?v1 ?body))"@));
        assert(pattern_text("(sum ?v1 ?body)"@));
        assert(pattern_text("(let ?v1 ?e (sum ?v2 ?body))"@));
        assert(pattern_text("(sum ?v2 (let ?v1 ?e ?body))"@));
        assert(pattern_text("(sum ?fresh (let ?v1 ?e (let ?v2 ?fresh ?body)))"@));
        assert(pattern_text("(let ?v ?e (+ ?a ?b))"@));
        assert(pattern_text("(+ (let ?v ?e ?a) (let ?v ?e ?b))"@));
        assert(pattern_text("(let ?v ?e (= ?a ?b))"@));
        assert(pattern_text("(= (let ?v ?e ?a) (let ?v ?e ?b))"@));
        assert(pattern_text("(- ?a ?b)"@));
        assert(pattern_text("(+ ?a (* -1 ?b))"@));
    }
    let mut rs: Vec<Rule> = Vec::new();
    rs.push(rw_1("pushdown-mul", "(* ?a (+ ?b ?c))", "(+ (* ?a ?b) (* ?a ?c))"));
    rs.push(rw_1("pushdown-mul-2", "(* (+ ?b ?c) ?a)", "(+ (* ?a ?b) (* ?a ?c))"));
    rs.push(rw_1("pushdown-sum-add", "(sum ?i (+ ?a ?b))", "(+ (sum ?i ?a) (sum ?i ?b))"));
    rs.push(
        guarded(
            "pushdown-sum-bound",
            "(* ?b (sum ?x ?a))",
            Action::Pattern(String::from_str("(sum ?x (* ?b ?a))")),
            not_free("?x", "?b"),
            true,
        ),
    );
    rs.push(
        guarded(
            "pushdown-sum-free",
            "(* ?b (sum ?x ?a))",
            rename_sum("?fresh", "(sum ?fresh (* ?b (let ?x ?fresh ?a)))"),
            free("?x", "?b"),
            true,
        ),
    );
    rs.push(one_way("let-const", "(let ?v1 ?e ?n)", "?n", is_const("?n")));
    rs.push(rw_1("let-var-same", "(let ?v1 ?e ?v1)", "?e"));
    rs.push(
        guarded(
            "let-var-diff",
            "(let (var ?v1) ?e (var ?v2))",
            Action::Pattern(String::from_str("(var ?v2)")),
            is_not_same_var("?v1", "?v2"),
            true,
        ),
    );
    rs.push(rw_1("let-sum-same", "(let ?v1 ?e (sum ?v1 ?body))", "(sum ?v1 ?body)"));
    rs.push(
        guarded(
            "let-sum-diff",
            "(let ?v1 ?e (sum ?v2 ?body))",
            capture_avoid(
                "?fresh",
                "?v2",
                "?e",
                "(sum ?v2 (let ?v1 ?e ?body))",
                "(sum ?fresh (let ?v1 ?e (let ?v2 ?fresh ?body)))",
            ),
            is_not_same_var("?v1", "?v2"),
            true,
        ),
    );
    rs.push(rw_1("let-add", "(let ?v ?e (+ ?a ?b))", "(+ (let ?v ?e ?a) (let ?v ?e ?b))"));
    rs.push(rw_1("let-eq", "(let ?v ?e (= ?a ?b))", "(= (let ?v ?e ?a) (let ?v ?e ?b))"));
    rs.push(rw_1("subtract", "(- ?a ?b)", "(+ ?a (* -1 ?b))"));
    proof {
        assert(normalize_table(rs@));
        assert forall|i: int, m: Interp| 0 <= i < rs@.len() implies #[trigger] rule_keeps_value(rs@[i]@, m) by {
            lemma_normalize_keeps_value(rs@, m);
        }
    }
    rs
}

/// The lemmas on indicators, each followed by its reverse twin.
pub open spec fn lemmas_table(r: Seq<Rule>) -> bool {
    &&& r.len() == 8
    &&& forall|k: int| 0 <= k < 4 ==> twins(#[trigger] r[2 * k]@, r[2 * k + 1]@)
    &&& plain_rule(r[0]@, "l-49"@, "(I (< ?j ?t))"@, "(+ (I (< ?j (- ?t 1))) (I (= ?j (- ?t 1))))"@, None, false)
    &&& plain_rule(r[2]@, "l-51"@, "(I (< ?j ?t))"@, "(* (I (< ?j ?t)) (I (<= ?j ?t)))"@, None, false)
    &&& plain_rule(r[4]@, "l-52"@, "(I (= ?j ?t))"@, "(* (I (= ?j ?t)) (I (<= ?j ?t)))"@, None, false)
    &&& plain_rule(r[6]@, "l-53"@, "(I (< ?j ?t))"@, "(I (<= ?j (- ?t 1)))"@, None, false)
}

/// The lemmas on indicators, each both ways; each keeps the value of the term it
/// rewrites.
pub fn lemmas() -> (r: Vec<Rule>)
    ensures
        forall|i: int| 0 <= i < r@.len() ==> rule_ok(#[trigger] r@[i]@),
        lemmas_table(r@),
        forall|i: int, m: Interp| 0 <= i < r@.len() ==> #[trigger] rule_keeps_value(r@[i]@, m),
{
    proof {
        reveal_with_fuel(list_scan, 60);
        reveal_strlit("(I (< ?j ?t))");
        reveal_strlit("(+ (I (< ?j (- ?t 1))) (I (= ?j (- ?t 1))))");
        reveal_strlit("(* (I (< ?j ?t)) (I (<= ?j ?t)))");
        reveal_strlit("(I (= ?j ?t))");
        reveal_strlit("(* (I (= ?j ?t)) (I (<= ?j ?t)))");
        reveal_strlit("(I (<= ?j (- ?t 1)))");
        assert(pattern_text("(I (< ?j ?t))"@));
        assert(pattern_text("(+ (I (< ?j (- ?t 1))) (I (= ?j (- ?t 1))))"@));
        assert(pattern_text("(* (I (< ?j ?t)) (I (<= ?j ?t)))"@));
        assert(pattern_text("(I (= ?j ?t))"@));
        assert(pattern_text("(* (I (= ?j ?t)) (I (<= ?j ?t)))"@));
        assert(pattern_text("(I (<= ?j (- ?t 1)))"@));
    }
    let mut rs: Vec<Rule> = Vec::new();
    push_both_ways(&mut rs, "l-49", "(I (< ?j ?t))", "(+ (I (< ?j (- ?t 1))) (I (= ?j (- ?t 1))))", None);
    push_both_ways(&mut rs, "l-51", "(I (< ?j ?t))", "(* (I (< ?j ?t)) (I (<= ?j ?t)))", None);
    push_both_ways(&mut rs, "l-52", "(I (= ?j ?t))", "(* (I (= ?j ?t)) (I (<= ?j ?t)))", None);
    push_both_ways(&mut rs, "l-53", "(I (< ?j ?t))", "(I (<= ?j (- ?t 1)))", None);
    proof {
        assert(lemmas_table(rs@));
        assert forall|i: int, m: Interp| 0 <= i < rs@.len() implies #[trigger] rule_keeps_value(rs@[i]@, m) by {
            lemma_lemmas_keep_value(rs@, m);
        }
    }
    rs
}

/// The name of the variable made fresh for a match in class `eclass`: `_` and the
/// class id.
pub open spec fn fresh_text(eclass: u32) -> Seq<char> {
    seq!['_'] + nat_text(eclass as nat)
}

/// The symbol node of the variable made fresh for a match in class `eclass`.
pub fn fresh_symbol(eclass: u32) -> (r: Semiring)
    ensures
        r@ == (NodeModel { op: OpModel::Symbol(fresh_text(eclass)), children: seq![] }),
{
    proof {
        reveal_strlit("_");
    }
    let mut s = String::new();
    s.append("_");
    push_nat_text(&mut s, eclass);
    proof {
        assert(s@ =~= fresh_text(eclass));
    }
    Semiring::Symbol(s)
}

/// Matches in distinct classes get distinct fresh variables.
pub proof fn lemma_fresh_injective(a: u32, b: u32)
    requires
        a != b,
    ensures
        fresh_text(a) != fresh_text(b),
{
    lemma_nat_text_injective(a as nat, b as nat);
    assert(fresh_text(a).drop_first() =~= nat_text(a as nat));
    assert(fresh_text(b).drop_first() =~= nat_text(b as nat));
}

/// A fresh variable reads back as the same symbol: it is neither a number nor a keyword.
pub proof fn lemma_fresh_canonical(eclass: u32)
    ensures
        canonical(NodeModel { op: OpModel::Symbol(fresh_text(eclass)), children: seq![] }),
{
    let t = fresh_text(eclass);
    assert(t[0] == '_');
    assert(!is_digit(t[0]));
    assert(i32_of_text(t) is None);
    assert(t != seq!['r', 'e', 'l']);
}

} // verus!
