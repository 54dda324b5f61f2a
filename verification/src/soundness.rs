//! What the rewrite tables mean. Each rule's pattern texts are the printed form of
//! pattern trees over the language's operators; a match binds each pattern variable to
//! a class, read as a term; and every rule in the tables instantiates, for every match
//! that its guard admits, a term with the value of the term it matched.
use vstd::prelude::*;
use crate::lang::{canonical, lemma_print_then_read, op_text, NodeModel, OpModel};
use crate::meaning::{
    at_most, depends_only_on, equal, free_vars, greater, indicator, lemma_add_assoc, lemma_add_comm,
    lemma_add_mul_dist, lemma_add_sum_dist, lemma_eq_comm, lemma_exclusion,
    lemma_l49, lemma_l51, lemma_l52, lemma_l53, lemma_let_add, lemma_let_eq, lemma_let_not_free,
    lemma_let_sum_diff, lemma_let_sum_rename, lemma_let_sum_same, lemma_let_var_diff, lemma_let_var_same,
    lemma_mul_assoc, lemma_mul_comm, lemma_mul_one, lemma_nat, lemma_pow0, lemma_pushdown_mul,
    lemma_pushdown_mul_2, lemma_pushdown_sum_bound, lemma_pushdown_sum_free, lemma_subtract,
    lemma_swap_sum, lemma_trivial, less, let_in, minus, plus, pow_zero_at, same_value, sigma,
    term_of, times, value, Interp, Term,
};
use crate::rewrites::{atom_char, lemmas_table, normalize_table, rules_table, twins, ActionModel, GuardModel, Rule, RuleModel};

verus! {

/// A pattern: a pattern variable, or an operator applied to patterns.
pub enum Pat {
    Hole(Seq<char>),
    Node(OpModel, Seq<Pat>),
}

/// The text of a pattern: a variable's name, a bare operator without arguments, else
/// the operator and its arguments in parentheses, separated by single spaces.
pub open spec fn print_pat(p: Pat) -> Seq<char>
    decreases p, 0nat,
{
    match p {
        Pat::Hole(v) => v,
        Pat::Node(op, args) => if args.len() == 0 {
            op_text(op)
        } else {
            seq!['('] + op_text(op) + print_args(args) + seq![')']
        },
    }
}

/// The arguments, each after a space.
pub open spec fn print_args(args: Seq<Pat>) -> Seq<char>
    decreases args, 0nat,
{
    if args.len() == 0 {
        seq![]
    } else {
        seq![' '] + print_pat(args[0]) + print_args(args.subrange(1, args.len() as int))
    }
}

/// A match: the class bound to each pattern variable, and a term for each class.
pub struct Match {
    pub class: spec_fn(Seq<char>) -> u32,
    pub term: spec_fn(u32) -> Term,
}

/// The term of the class bound to pattern variable `v`.
pub open spec fn hole_term(mt: Match, v: Seq<char>) -> Term {
    (mt.term)((mt.class)(v))
}

/// The class an argument stands for, where it is a pattern variable.
pub open spec fn arg_class(mt: Match, a: Pat) -> u32 {
    match a {
        Pat::Hole(v) => (mt.class)(v),
        Pat::Node(_, _) => 0,
    }
}

/// The node a pattern's operator makes over its arguments.
pub open spec fn pat_node(op: OpModel, args: Seq<Pat>, mt: Match) -> NodeModel {
    NodeModel { op, children: args.map_values(|a: Pat| arg_class(mt, a)) }
}

/// The term a pattern stands for under a match: a variable stands for the term of its
/// class, and an operator node for the term that node stands for over its arguments'
/// terms.
pub open spec fn inst(p: Pat, mt: Match) -> Option<Term>
    decreases p, 0nat,
{
    match p {
        Pat::Hole(v) => Some(hole_term(mt, v)),
        Pat::Node(op, args) => match insts(args, mt, args.len()) {
            Some(ts) => term_of(pat_node(op, args, mt), ts),
            None => None,
        },
    }
}

/// The terms of the first `n` arguments.
pub open spec fn insts(args: Seq<Pat>, mt: Match, n: nat) -> Option<Seq<Term>>
    decreases args, n,
{
    if n == 0 {
        Some(seq![])
    } else if n > args.len() {
        None
    } else {
        match (insts(args, mt, (n - 1) as nat), inst(args[n - 1], mt)) {
            (Some(ts), Some(t)) => Some(ts.push(t)),
            _ => None,
        }
    }
}

/// Every character of `s` may stand in an atom.
pub open spec fn all_atom(s: Seq<char>) -> bool
    decreases s.len(),
{
    s.len() == 0 || (atom_char(s[0]) && all_atom(s.subrange(1, s.len() as int)))
}

/// An atom: a nonempty run of characters that may stand in one.
pub open spec fn atom_text(s: Seq<char>) -> bool {
    s.len() > 0 && all_atom(s)
}

/// Every node of the pattern is read back from its printed operator: its arguments fit
/// the operator, and symbols and uninterpreted functions are spelled unlike numbers and
/// keywords; variables and operators are atoms, and only variables begin with `?`.
pub open spec fn pat_canonical(p: Pat) -> bool
    decreases p, 0nat,
{
    match p {
        Pat::Hole(v) => v.len() > 1 && v[0] == '?' && atom_text(v),
        Pat::Node(op, args) => {
            &&& canonical(NodeModel { op, children: Seq::new(args.len(), |i: int| 0u32) })
            &&& atom_text(op_text(op))
            &&& op_text(op)[0] != '?'
            &&& args_canonical(args)
        },
    }
}

pub open spec fn args_canonical(args: Seq<Pat>) -> bool
    decreases args, 0nat,
{
    args.len() == 0 || (pat_canonical(args[0]) && args_canonical(args.subrange(1, args.len() as int)))
}

/// The pattern variables of a pattern.
pub open spec fn holes(p: Pat) -> Set<Seq<char>>
    decreases p, 0nat,
{
    match p {
        Pat::Hole(v) => set![v],
        Pat::Node(_, args) => args_holes(args, args.len()),
    }
}

pub open spec fn args_holes(args: Seq<Pat>, n: nat) -> Set<Seq<char>>
    decreases args, n,
{
    if n == 0 || n > args.len() {
        Set::empty()
    } else {
        args_holes(args, (n - 1) as nat).union(holes(args[n - 1]))
    }
}

/// The value of the term bound to `v` depends on no variable of a set that lacks `y`.
pub open spec fn avoids(mt: Match, v: Seq<char>, y: u32, m: Interp) -> bool {
    exists|s: Set<u32>| depends_only_on(hole_term(mt, v), s, m) && !s.contains(y)
}

/// What a guard asks of a match, read over the terms of the classes: a class that folds
/// to a constant has a value that depends on no variable; two variables bound to
/// different classes, whose terms differ, as no term is in two classes of an e-graph;
/// `x` bound to a variable on which the value bound to `b` does
/// not depend (the test the analysis's free sets make). `Free` asks nothing: the rule
/// it guards is right without it.
pub open spec fn guard_holds(g: Option<GuardModel>, mt: Match, m: Interp) -> bool {
    match g {
        None => true,
        Some(GuardModel::IsConst(c)) => depends_only_on(hole_term(mt, c), Set::empty(), m),
        Some(GuardModel::NotSameVar(a, b)) => hole_term(mt, a) != hole_term(mt, b),
        Some(GuardModel::Free(_, _)) => true,
        Some(GuardModel::NotFree(x, b)) => hole_term(mt, x) is Var && avoids(
            mt,
            b,
            hole_term(mt, x)->Var_0,
            m,
        ),
    }
}

/// The variable bound to `fresh` is new: it is free in the term of no other pattern
/// variable of `l`, nor is it one of their variables.
pub open spec fn fresh_for(mt: Match, fresh: Seq<char>, l: Pat) -> bool {
    &&& hole_term(mt, fresh) is Var
    &&& forall|v: Seq<char>|
        holes(l).contains(v) && v != fresh ==> !free_vars(#[trigger] hole_term(mt, v)).contains(
            hole_term(mt, fresh)->Var_0,
        )
}

/// What a rule asks of the reading beyond its guard, by name, where the rule is not
/// right without it: `pow0` where `pow` of anything to `0` is `1`; `trivial` where the
/// summed variable is not free in `?x`, no value is summed over twice, and the value of
/// `?x` is always among those summed over; `nat` where `?b` is never negative.
pub open spec fn side_holds(name: Seq<char>, mt: Match, m: Interp) -> bool {
    if name == seq!['p', 'o', 'w', '0'] {
        forall|v: int| #[trigger] pow_zero_at(m, v) == 1
    } else if name == seq!['t', 'r', 'i', 'v', 'i', 'a', 'l'] {
        let w = hole_term(mt, seq!['?', 'w']);
        let x = hole_term(mt, seq!['?', 'x']);
        &&& w is Var
        &&& !free_vars(x).contains(w->Var_0)
        &&& m.dom.no_duplicates()
        &&& forall|env: spec_fn(u32) -> int| m.dom.contains(#[trigger] value(x, env, m))
    } else if name == seq!['n', 'a', 't'] {
        let b = hole_term(mt, seq!['?', 'b']);
        forall|env: spec_fn(u32) -> int| #[trigger] value(b, env, m) >= 0
    } else {
        true
    }
}

/// A match that the rule applies to: its guard holds, and so does what the rule asks of
/// the reading.
pub open spec fn admits(r: RuleModel, mt: Match, m: Interp) -> bool {
    guard_holds(r.guard, mt, m) && side_holds(r.name, mt, m)
}

/// Instances of `p` have the values of the instances of `l` they replace, for every
/// match that `r` applies to.
pub open spec fn keeps(r: RuleModel, l: Pat, p: Pat, m: Interp) -> bool {
    forall|mt: Match|
        admits(r, mt, m) && (#[trigger] inst(l, mt)) is Some && inst(p, mt) is Some ==> same_value(
            inst(l, mt)->0,
            inst(p, mt)->0,
            m,
        )
}

/// As `keeps`, for matches in which `fresh` is bound to a new variable.
pub open spec fn keeps_fresh(r: RuleModel, l: Pat, p: Pat, fresh: Seq<char>, m: Interp) -> bool {
    forall|mt: Match|
        admits(r, mt, m) && fresh_for(mt, fresh, l) && (#[trigger] inst(l, mt)) is Some && inst(
            p,
            mt,
        ) is Some ==> same_value(inst(l, mt)->0, inst(p, mt)->0, m)
}

/// As `keeps`, for matches in which the value bound to `e` does not depend on the
/// variable bound to `v`.
pub open spec fn keeps_avoiding(r: RuleModel, l: Pat, p: Pat, v: Seq<char>, e: Seq<char>, m: Interp) -> bool {
    forall|mt: Match|
        admits(r, mt, m) && hole_term(mt, v) is Var && avoids(mt, e, hole_term(mt, v)->Var_0, m)
            && (#[trigger] inst(l, mt)) is Some && inst(p, mt) is Some ==> same_value(
            inst(l, mt)->0,
            inst(p, mt)->0,
            m,
        )
}

/// A pattern printed as `t`, each of whose nodes reads back from its text.
pub open spec fn reads(p: Pat, t: Seq<char>) -> bool {
    print_pat(p) == t && pat_canonical(p)
}

/// The rule keeps values: its searcher is the text of a pattern `l`, and what it
/// instantiates is the text of patterns whose instances have the value of the instance
/// of `l` they replace, for every match the rule applies to. A renaming rule does so
/// where its fresh variable is new; a capture-avoiding one, in its first form where the
/// value bound to `e` does not depend on the variable bound to `v2`, in its second where
/// its fresh variable is new. A text is printed from at most one pattern
/// (`lemma_reads_unique`), so these are the patterns the rule's texts stand for.
pub open spec fn rule_keeps_value(r: RuleModel, m: Interp) -> bool {
    exists|l: Pat|
        #![trigger print_pat(l)]
        reads(l, r.searcher) && match r.action {
            ActionModel::Pattern(rhs) => exists|p: Pat| #![trigger print_pat(p)] reads(p, rhs) && keeps(r, l, p, m),
            ActionModel::RenameSum { fresh, e } => exists|p: Pat|
                #![trigger print_pat(p)]
                reads(p, e) && keeps_fresh(r, l, p, fresh, m),
            ActionModel::CaptureAvoid { fresh, v2, e, if_not_free, if_free } => exists|p1: Pat, p2: Pat|
                #![trigger print_pat(p1), print_pat(p2)]
                reads(p1, if_not_free) && reads(p2, if_free) && keeps_avoiding(r, l, p1, v2, e, m)
                    && keeps_fresh(r, l, p2, fresh, m),
        }
}

/// `r` instantiates `b` where it finds `a`, or `a` where it finds `b`.
pub open spec fn either_way(r: RuleModel, a: Seq<char>, b: Seq<char>) -> bool {
    ||| r.searcher == a && r.action == ActionModel::Pattern(b)
    ||| r.searcher == b && r.action == ActionModel::Pattern(a)
}

proof fn lemma_plain_keeps(r: RuleModel, l: Pat, p: Pat, m: Interp)
    requires
        pat_canonical(l),
        pat_canonical(p),
        either_way(r, print_pat(l), print_pat(p)),
        forall|mt: Match|
            admits(r, mt, m) && (#[trigger] inst(l, mt)) is Some && inst(p, mt) is Some ==> same_value(
                inst(l, mt)->0,
                inst(p, mt)->0,
                m,
            ),
    ensures
        rule_keeps_value(r, m),
{
    if r.searcher == print_pat(l) && r.action == ActionModel::Pattern(print_pat(p)) {
        assert(reads(l, r.searcher) && reads(p, print_pat(p)) && keeps(r, l, p, m));
    } else {
        assert forall|mt: Match|
            admits(r, mt, m) && (#[trigger] inst(p, mt)) is Some && inst(l, mt) is Some implies same_value(
            inst(p, mt)->0,
            inst(l, mt)->0,
            m,
        ) by {
            let (tl, tp) = (inst(l, mt)->0, inst(p, mt)->0);
            assert forall|env: spec_fn(u32) -> int| #[trigger] value(tp, env, m) == value(tl, env, m) by {
                assert(value(tl, env, m) == value(tp, env, m));
            }
        }
        assert(reads(p, r.searcher) && reads(l, print_pat(l)) && keeps(r, p, l, m));
    }
}

pub open spec fn hole(v: Seq<char>) -> Pat {
    Pat::Hole(v)
}

pub open spec fn leaf(op: OpModel) -> Pat {
    Pat::Node(op, seq![])
}

/// The pattern `(let ?v ?e ?c)`.
pub open spec fn let_const_lhs() -> Pat {
    Pat::Node(OpModel::Let, seq![hole(seq!['?', 'v']), hole(seq!['?', 'e']), hole(seq!['?', 'c'])])
}

/// The pattern `?c`.
pub open spec fn let_const_rhs() -> Pat {
    hole(seq!['?', 'c'])
}

#[verifier::rlimit(100)]
#[verifier::spinoff_prover]
proof fn lemma_let_const_reads()
    ensures
        reads(let_const_lhs(), "(let ?v ?e ?c)"@),
        reads(let_const_rhs(), "?c"@),
{
    reveal_strlit("(let ?v ?e ?c)");
    reveal_strlit("?c");
    assert("?c"@ =~= seq!['?', 'c']);
    let l00 = Pat::Node(OpModel::Let, seq![hole(seq!['?', 'v']), hole(seq!['?', 'e']), hole(seq!['?', 'c'])]);
    assert(print_pat(l00) =~= seq!['(', 'l', 'e', 't', ' ', '?', 'v', ' ', '?', 'e', ' ', '?', 'c', ')']) by { reveal_with_fuel(print_pat, 4); }
    assert(pat_canonical(l00)) by { reveal_with_fuel(pat_canonical, 4); reveal_with_fuel(all_atom, 8); }
    assert(print_pat(l00) =~= "(let ?v ?e ?c)"@);
    assert(pat_canonical(l00)) by { reveal_with_fuel(pat_canonical, 2); reveal_with_fuel(all_atom, 8); }
    assert(print_pat(hole(seq!['?', 'c'])) =~= "?c"@);
    assert(pat_canonical(hole(seq!['?', 'c']))) by { reveal_with_fuel(pat_canonical, 2); reveal_with_fuel(all_atom, 8); }
}

proof fn lemma_let_const_inst(mt: Match)
    ensures
        inst(let_const_lhs(), mt) is Some ==> inst(let_const_lhs(), mt) == Some(let_in(hole_term(mt, seq!['?', 'v'])->Var_0, hole_term(mt, seq!['?', 'e']), hole_term(mt, seq!['?', 'c']))),
        inst(let_const_rhs(), mt) is Some ==> inst(let_const_rhs(), mt) == Some(hole_term(mt, seq!['?', 'c'])),
        inst(let_const_lhs(), mt) is Some ==> hole_term(mt, seq!['?', 'v']) is Var,
{
    let l00 = Pat::Node(OpModel::Let, seq![hole(seq!['?', 'v']), hole(seq!['?', 'e']), hole(seq!['?', 'c'])]);
    assert(inst(l00, mt) is Some ==> inst(l00, mt) == Some(let_in(hole_term(mt, seq!['?', 'v'])->Var_0, hole_term(mt, seq!['?', 'e']), hole_term(mt, seq!['?', 'c'])))) by { reveal_with_fuel(inst, 5); }
    assert(inst(l00, mt) is Some ==> hole_term(mt, seq!['?', 'v']) is Var) by { reveal_with_fuel(inst, 5); }
}

/// `let-const` of the saturation rules: a `let` around a constant.
proof fn lemma_keeps_let_const(r: RuleModel, m: Interp)
    requires
        either_way(r, "(let ?v ?e ?c)"@, "?c"@),
        r.guard == Some(GuardModel::IsConst("?c"@)),
    ensures
        rule_keeps_value(r, m),
{
    lemma_let_const_reads();
    reveal_strlit("?c");
    assert("?c"@ =~= seq!['?', 'c']);
    assert forall|mt: Match|
        admits(r, mt, m) && (#[trigger] inst(let_const_lhs(), mt)) is Some && inst(let_const_rhs(), mt) is Some implies same_value(
        inst(let_const_lhs(), mt)->0,
        inst(let_const_rhs(), mt)->0,
        m,
    ) by {
        lemma_let_const_inst(mt);
        lemma_let_not_free(hole_term(mt, seq!['?', 'v'])->Var_0, hole_term(mt, seq!['?', 'e']), hole_term(mt, seq!['?', 'c']), Set::empty(), m);
    }
    lemma_plain_keeps(r, let_const_lhs(), let_const_rhs(), m);
}

/// The pattern `(let ?v1 ?e ?n)`.
pub open spec fn let_const_n_lhs() -> Pat {
    Pat::Node(OpModel::Let, seq![hole(seq!['?', 'v', '1']), hole(seq!['?', 'e']), hole(seq!['?', 'n'])])
}

/// The pattern `?n`.
pub open spec fn let_const_n_rhs() -> Pat {
    hole(seq!['?', 'n'])
}

#[verifier::rlimit(100)]
#[verifier::spinoff_prover]
proof fn lemma_let_const_n_reads()
    ensures
        reads(let_const_n_lhs(), "(let ?v1 ?e ?n)"@),
        reads(let_const_n_rhs(), "?n"@),
{
    reveal_strlit("(let ?v1 ?e ?n)");
    reveal_strlit("?n");
    assert("?n"@ =~= seq!['?', 'n']);
    let l00 = Pat::Node(OpModel::Let, seq![hole(seq!['?', 'v', '1']), hole(seq!['?', 'e']), hole(seq!['?', 'n'])]);
    assert(print_pat(l00) =~= seq!['(', 'l', 'e', 't', ' ', '?', 'v', '1', ' ', '?', 'e', ' ', '?', 'n', ')']) by { reveal_with_fuel(print_pat, 4); }
    assert(pat_canonical(l00)) by { reveal_with_fuel(pat_canonical, 4); reveal_with_fuel(all_atom, 8); }
    assert(print_pat(l00) =~= "(let ?v1 ?e ?n)"@);
    assert(pat_canonical(l00)) by { reveal_with_fuel(pat_canonical, 2); reveal_with_fuel(all_atom, 8); }
    assert(print_pat(hole(seq!['?', 'n'])) =~= "?n"@);
    assert(pat_canonical(hole(seq!['?', 'n']))) by { reveal_with_fuel(pat_canonical, 2); reveal_with_fuel(all_atom, 8); }
}

proof fn lemma_let_const_n_inst(mt: Match)
    ensures
        inst(let_const_n_lhs(), mt) is Some ==> inst(let_const_n_lhs(), mt) == Some(let_in(hole_term(mt, seq!['?', 'v', '1'])->Var_0, hole_term(mt, seq!['?', 'e']), hole_term(mt, seq!['?', 'n']))),
        inst(let_const_n_rhs(), mt) is Some ==> inst(let_const_n_rhs(), mt) == Some(hole_term(mt, seq!['?', 'n'])),
        inst(let_const_n_lhs(), mt) is Some ==> hole_term(mt, seq!['?', 'v', '1']) is Var,
{
    let l00 = Pat::Node(OpModel::Let, seq![hole(seq!['?', 'v', '1']), hole(seq!['?', 'e']), hole(seq!['?', 'n'])]);
    assert(inst(l00, mt) is Some ==> inst(l00, mt) == Some(let_in(hole_term(mt, seq!['?', 'v', '1'])->Var_0, hole_term(mt, seq!['?', 'e']), hole_term(mt, seq!['?', 'n'])))) by { reveal_with_fuel(inst, 5); }
    assert(inst(l00, mt) is Some ==> hole_term(mt, seq!['?', 'v', '1']) is Var) by { reveal_with_fuel(inst, 5); }
}

/// `let-const` of the normalizing rules.
proof fn lemma_keeps_let_const_n(r: RuleModel, m: Interp)
    requires
        either_way(r, "(let ?v1 ?e ?n)"@, "?n"@),
        r.guard == Some(GuardModel::IsConst("?n"@)),
    ensures
        rule_keeps_value(r, m),
{
    lemma_let_const_n_reads();
    reveal_strlit("?n");
    assert("?n"@ =~= seq!['?', 'n']);
    assert forall|mt: Match|
        admits(r, mt, m) && (#[trigger] inst(let_const_n_lhs(), mt)) is Some && inst(let_const_n_rhs(), mt) is Some implies same_value(
        inst(let_const_n_lhs(), mt)->0,
        inst(let_const_n_rhs(), mt)->0,
        m,
    ) by {
        lemma_let_const_n_inst(mt);
        lemma_let_not_free(hole_term(mt, seq!['?', 'v', '1'])->Var_0, hole_term(mt, seq!['?', 'e']), hole_term(mt, seq!['?', 'n']), Set::empty(), m);
    }
    lemma_plain_keeps(r, let_const_n_lhs(), let_const_n_rhs(), m);
}

/// The pattern `(let (var ?v1) ?e (var ?v1))`.
pub open spec fn let_var_same_lhs() -> Pat {
    Pat::Node(OpModel::Let, seq![Pat::Node(OpModel::Var, seq![hole(seq!['?', 'v', '1'])]), hole(seq!['?', 'e']), Pat::Node(OpModel::Var, seq![hole(seq!['?', 'v', '1'])])])
}

/// The pattern `?e`.
pub open spec fn let_var_same_rhs() -> Pat {
    hole(seq!['?', 'e'])
}

#[verifier::rlimit(100)]
#[verifier::spinoff_prover]
proof fn lemma_let_var_same_reads()
    ensures
        reads(let_var_same_lhs(), "(let (var ?v1) ?e (var ?v1))"@),
        reads(let_var_same_rhs(), "?e"@),
{
    reveal_strlit("(let (var ?v1) ?e (var ?v1))");
    reveal_strlit("?e");
    assert("?e"@ =~= seq!['?', 'e']);
    let l00 = Pat::Node(OpModel::Var, seq![hole(seq!['?', 'v', '1'])]);
    let l01 = Pat::Node(OpModel::Var, seq![hole(seq!['?', 'v', '1'])]);
    let l02 = Pat::Node(OpModel::Let, seq![l00, hole(seq!['?', 'e']), l01]);
    assert(print_pat(l00) =~= seq!['(', 'v', 'a', 'r', ' ', '?', 'v', '1', ')']) by { reveal_with_fuel(print_pat, 4); }
    assert(pat_canonical(l00)) by { reveal_with_fuel(pat_canonical, 4); reveal_with_fuel(all_atom, 8); }
    assert(print_pat(l01) =~= seq!['(', 'v', 'a', 'r', ' ', '?', 'v', '1', ')']) by { reveal_with_fuel(print_pat, 4); }
    assert(pat_canonical(l01)) by { reveal_with_fuel(pat_canonical, 4); reveal_with_fuel(all_atom, 8); }
    assert(print_pat(l02) =~= seq!['(', 'l', 'e', 't', ' ', '(', 'v', 'a', 'r', ' ', '?', 'v', '1', ')', ' ', '?', 'e', ' ', '(', 'v', 'a', 'r', ' ', '?', 'v', '1', ')', ')']) by { reveal_with_fuel(print_pat, 4); }
    assert(pat_canonical(l02)) by { reveal_with_fuel(pat_canonical, 4); reveal_with_fuel(all_atom, 8); }
    assert(print_pat(l02) =~= "(let (var ?v1) ?e (var ?v1))"@);
    assert(pat_canonical(l02)) by { reveal_with_fuel(pat_canonical, 2); reveal_with_fuel(all_atom, 8); }
    assert(print_pat(hole(seq!['?', 'e'])) =~= "?e"@);
    assert(pat_canonical(hole(seq!['?', 'e']))) by { reveal_with_fuel(pat_canonical, 2); reveal_with_fuel(all_atom, 8); }
}

proof fn lemma_let_var_same_inst(mt: Match)
    ensures
        inst(let_var_same_lhs(), mt) is Some ==> inst(let_var_same_lhs(), mt) == Some(let_in((mt.class)(seq!['?', 'v', '1']), hole_term(mt, seq!['?', 'e']), Term::Var((mt.class)(seq!['?', 'v', '1'])))),
        inst(let_var_same_rhs(), mt) is Some ==> inst(let_var_same_rhs(), mt) == Some(hole_term(mt, seq!['?', 'e'])),
{
    let l00 = Pat::Node(OpModel::Var, seq![hole(seq!['?', 'v', '1'])]);
    let l01 = Pat::Node(OpModel::Var, seq![hole(seq!['?', 'v', '1'])]);
    let l02 = Pat::Node(OpModel::Let, seq![l00, hole(seq!['?', 'e']), l01]);
    assert(inst(l00, mt) is Some ==> inst(l00, mt) == Some(Term::Var((mt.class)(seq!['?', 'v', '1'])))) by { reveal_with_fuel(inst, 3); }
    assert(inst(l01, mt) is Some ==> inst(l01, mt) == Some(Term::Var((mt.class)(seq!['?', 'v', '1'])))) by { reveal_with_fuel(inst, 3); }
    assert(inst(l02, mt) is Some ==> inst(l02, mt) == Some(let_in((mt.class)(seq!['?', 'v', '1']), hole_term(mt, seq!['?', 'e']), Term::Var((mt.class)(seq!['?', 'v', '1']))))) by { reveal_with_fuel(inst, 5); }
}

/// `let-var-same` of the saturation rules.
proof fn lemma_keeps_let_var_same(r: RuleModel, m: Interp)
    requires
        either_way(r, "(let (var ?v1) ?e (var ?v1))"@, "?e"@),
    ensures
        rule_keeps_value(r, m),
{
    lemma_let_var_same_reads();
    assert forall|mt: Match|
        admits(r, mt, m) && (#[trigger] inst(let_var_same_lhs(), mt)) is Some && inst(let_var_same_rhs(), mt) is Some implies same_value(
        inst(let_var_same_lhs(), mt)->0,
        inst(let_var_same_rhs(), mt)->0,
        m,
    ) by {
        lemma_let_var_same_inst(mt);
        lemma_let_var_same((mt.class)(seq!['?', 'v', '1']), hole_term(mt, seq!['?', 'e']), m);
    }
    lemma_plain_keeps(r, let_var_same_lhs(), let_var_same_rhs(), m);
}

/// The pattern `(let ?v1 ?e ?v1)`.
pub open spec fn let_var_same_n_lhs() -> Pat {
    Pat::Node(OpModel::Let, seq![hole(seq!['?', 'v', '1']), hole(seq!['?', 'e']), hole(seq!['?', 'v', '1'])])
}

/// The pattern `?e`.
pub open spec fn let_var_same_n_rhs() -> Pat {
    hole(seq!['?', 'e'])
}

#[verifier::rlimit(100)]
#[verifier::spinoff_prover]
proof fn lemma_let_var_same_n_reads()
    ensures
        reads(let_var_same_n_lhs(), "(let ?v1 ?e ?v1)"@),
        reads(let_var_same_n_rhs(), "?e"@),
{
    reveal_strlit("(let ?v1 ?e ?v1)");
    reveal_strlit("?e");
    assert("?e"@ =~= seq!['?', 'e']);
    let l00 = Pat::Node(OpModel::Let, seq![hole(seq!['?', 'v', '1']), hole(seq!['?', 'e']), hole(seq!['?', 'v', '1'])]);
    assert(print_pat(l00) =~= seq!['(', 'l', 'e', 't', ' ', '?', 'v', '1', ' ', '?', 'e', ' ', '?', 'v', '1', ')']) by { reveal_with_fuel(print_pat, 4); }
    assert(pat_canonical(l00)) by { reveal_with_fuel(pat_canonical, 4); reveal_with_fuel(all_atom, 8); }
    assert(print_pat(l00) =~= "(let ?v1 ?e ?v1)"@);
    assert(pat_canonical(l00)) by { reveal_with_fuel(pat_canonical, 2); reveal_with_fuel(all_atom, 8); }
    assert(print_pat(hole(seq!['?', 'e'])) =~= "?e"@);
    assert(pat_canonical(hole(seq!['?', 'e']))) by { reveal_with_fuel(pat_canonical, 2); reveal_with_fuel(all_atom, 8); }
}

proof fn lemma_let_var_same_n_inst(mt: Match)
    ensures
        inst(let_var_same_n_lhs(), mt) is Some ==> inst(let_var_same_n_lhs(), mt) == Some(let_in(hole_term(mt, seq!['?', 'v', '1'])->Var_0, hole_term(mt, seq!['?', 'e']), hole_term(mt, seq!['?', 'v', '1']))),
        inst(let_var_same_n_rhs(), mt) is Some ==> inst(let_var_same_n_rhs(), mt) == Some(hole_term(mt, seq!['?', 'e'])),
        inst(let_var_same_n_lhs(), mt) is Some ==> hole_term(mt, seq!['?', 'v', '1']) is Var,
{
    let l00 = Pat::Node(OpModel::Let, seq![hole(seq!['?', 'v', '1']), hole(seq!['?', 'e']), hole(seq!['?', 'v', '1'])]);
    assert(inst(l00, mt) is Some ==> inst(l00, mt) == Some(let_in(hole_term(mt, seq!['?', 'v', '1'])->Var_0, hole_term(mt, seq!['?', 'e']), hole_term(mt, seq!['?', 'v', '1'])))) by { reveal_with_fuel(inst, 5); }
    assert(inst(l00, mt) is Some ==> hole_term(mt, seq!['?', 'v', '1']) is Var) by { reveal_with_fuel(inst, 5); }
}

/// `let-var-same` of the normalizing rules.
proof fn lemma_keeps_let_var_same_n(r: RuleModel, m: Interp)
    requires
        either_way(r, "(let ?v1 ?e ?v1)"@, "?e"@),
    ensures
        rule_keeps_value(r, m),
{
    lemma_let_var_same_n_reads();
    assert forall|mt: Match|
        admits(r, mt, m) && (#[trigger] inst(let_var_same_n_lhs(), mt)) is Some && inst(let_var_same_n_rhs(), mt) is Some implies same_value(
        inst(let_var_same_n_lhs(), mt)->0,
        inst(let_var_same_n_rhs(), mt)->0,
        m,
    ) by {
        lemma_let_var_same_n_inst(mt);
        assert(hole_term(mt, seq!['?', 'v', '1']) == Term::Var(hole_term(mt, seq!['?', 'v', '1'])->Var_0));
        lemma_let_var_same(hole_term(mt, seq!['?', 'v', '1'])->Var_0, hole_term(mt, seq!['?', 'e']), m);
    }
    lemma_plain_keeps(r, let_var_same_n_lhs(), let_var_same_n_rhs(), m);
}

/// The pattern `(let (var ?v1) ?e (var ?v2))`.
pub open spec fn let_var_diff_lhs() -> Pat {
    Pat::Node(OpModel::Let, seq![Pat::Node(OpModel::Var, seq![hole(seq!['?', 'v', '1'])]), hole(seq!['?', 'e']), Pat::Node(OpModel::Var, seq![hole(seq!['?', 'v', '2'])])])
}

/// The pattern `(var ?v2)`.
pub open spec fn let_var_diff_rhs() -> Pat {
    Pat::Node(OpModel::Var, seq![hole(seq!['?', 'v', '2'])])
}

#[verifier::rlimit(100)]
#[verifier::spinoff_prover]
proof fn lemma_let_var_diff_reads()
    ensures
        reads(let_var_diff_lhs(), "(let (var ?v1) ?e (var ?v2))"@),
        reads(let_var_diff_rhs(), "(var ?v2)"@),
{
    reveal_strlit("(let (var ?v1) ?e (var ?v2))");
    reveal_strlit("(var ?v2)");
    let l00 = Pat::Node(OpModel::Var, seq![hole(seq!['?', 'v', '1'])]);
    let l01 = Pat::Node(OpModel::Var, seq![hole(seq!['?', 'v', '2'])]);
    let l02 = Pat::Node(OpModel::Let, seq![l00, hole(seq!['?', 'e']), l01]);
    let r13 = Pat::Node(OpModel::Var, seq![hole(seq!['?', 'v', '2'])]);
    assert(print_pat(l00) =~= seq!['(', 'v', 'a', 'r', ' ', '?', 'v', '1', ')']) by { reveal_with_fuel(print_pat, 4); }
    assert(pat_canonical(l00)) by { reveal_with_fuel(pat_canonical, 4); reveal_with_fuel(all_atom, 8); }
    assert(print_pat(l01) =~= seq!['(', 'v', 'a', 'r', ' ', '?', 'v', '2', ')']) by { reveal_with_fuel(print_pat, 4); }
    assert(pat_canonical(l01)) by { reveal_with_fuel(pat_canonical, 4); reveal_with_fuel(all_atom, 8); }
    assert(print_pat(l02) =~= seq!['(', 'l', 'e', 't', ' ', '(', 'v', 'a', 'r', ' ', '?', 'v', '1', ')', ' ', '?', 'e', ' ', '(', 'v', 'a', 'r', ' ', '?', 'v', '2', ')', ')']) by { reveal_with_fuel(print_pat, 4); }
    assert(pat_canonical(l02)) by { reveal_with_fuel(pat_canonical, 4); reveal_with_fuel(all_atom, 8); }
    assert(print_pat(r13) =~= seq!['(', 'v', 'a', 'r', ' ', '?', 'v', '2', ')']) by { reveal_with_fuel(print_pat, 4); }
    assert(pat_canonical(r13)) by { reveal_with_fuel(pat_canonical, 4); reveal_with_fuel(all_atom, 8); }
    assert(print_pat(l02) =~= "(let (var ?v1) ?e (var ?v2))"@);
    assert(pat_canonical(l02)) by { reveal_with_fuel(pat_canonical, 2); reveal_with_fuel(all_atom, 8); }
    assert(print_pat(r13) =~= "(var ?v2)"@);
    assert(pat_canonical(r13)) by { reveal_with_fuel(pat_canonical, 2); reveal_with_fuel(all_atom, 8); }
}

proof fn lemma_let_var_diff_inst(mt: Match)
    ensures
        inst(let_var_diff_lhs(), mt) is Some ==> inst(let_var_diff_lhs(), mt) == Some(let_in((mt.class)(seq!['?', 'v', '1']), hole_term(mt, seq!['?', 'e']), Term::Var((mt.class)(seq!['?', 'v', '2'])))),
        inst(let_var_diff_rhs(), mt) is Some ==> inst(let_var_diff_rhs(), mt) == Some(Term::Var((mt.class)(seq!['?', 'v', '2']))),
{
    let l00 = Pat::Node(OpModel::Var, seq![hole(seq!['?', 'v', '1'])]);
    let l01 = Pat::Node(OpModel::Var, seq![hole(seq!['?', 'v', '2'])]);
    let l02 = Pat::Node(OpModel::Let, seq![l00, hole(seq!['?', 'e']), l01]);
    let r13 = Pat::Node(OpModel::Var, seq![hole(seq!['?', 'v', '2'])]);
    assert(inst(l00, mt) is Some ==> inst(l00, mt) == Some(Term::Var((mt.class)(seq!['?', 'v', '1'])))) by { reveal_with_fuel(inst, 3); }
    assert(inst(l01, mt) is Some ==> inst(l01, mt) == Some(Term::Var((mt.class)(seq!['?', 'v', '2'])))) by { reveal_with_fuel(inst, 3); }
    assert(inst(l02, mt) is Some ==> inst(l02, mt) == Some(let_in((mt.class)(seq!['?', 'v', '1']), hole_term(mt, seq!['?', 'e']), Term::Var((mt.class)(seq!['?', 'v', '2']))))) by { reveal_with_fuel(inst, 5); }
    assert(inst(r13, mt) is Some ==> inst(r13, mt) == Some(Term::Var((mt.class)(seq!['?', 'v', '2'])))) by { reveal_with_fuel(inst, 3); }
}

/// `let-var-diff`.
proof fn lemma_keeps_let_var_diff(r: RuleModel, m: Interp)
    requires
        either_way(r, "(let (var ?v1) ?e (var ?v2))"@, "(var ?v2)"@),
        r.guard == Some(GuardModel::NotSameVar("?v1"@, "?v2"@)),
    ensures
        rule_keeps_value(r, m),
{
    lemma_let_var_diff_reads();
    reveal_strlit("?v1");
    assert("?v1"@ =~= seq!['?', 'v', '1']);
    reveal_strlit("?v2");
    assert("?v2"@ =~= seq!['?', 'v', '2']);
    assert forall|mt: Match|
        admits(r, mt, m) && (#[trigger] inst(let_var_diff_lhs(), mt)) is Some && inst(let_var_diff_rhs(), mt) is Some implies same_value(
        inst(let_var_diff_lhs(), mt)->0,
        inst(let_var_diff_rhs(), mt)->0,
        m,
    ) by {
        lemma_let_var_diff_inst(mt);
        assert((mt.class)(seq!['?', 'v', '1']) != (mt.class)(seq!['?', 'v', '2']));
        lemma_let_var_diff((mt.class)(seq!['?', 'v', '1']), hole_term(mt, seq!['?', 'e']), (mt.class)(seq!['?', 'v', '2']), m);
    }
    lemma_plain_keeps(r, let_var_diff_lhs(), let_var_diff_rhs(), m);
}

/// The pattern `(sum ?x (sum ?y ?e))`.
pub open spec fn swap_sum_lhs() -> Pat {
    Pat::Node(OpModel::Sum, seq![hole(seq!['?', 'x']), Pat::Node(OpModel::Sum, seq![hole(seq!['?', 'y']), hole(seq!['?', 'e'])])])
}

/// The pattern `(sum ?y (sum ?x ?e))`.
pub open spec fn swap_sum_rhs() -> Pat {
    Pat::Node(OpModel::Sum, seq![hole(seq!['?', 'y']), Pat::Node(OpModel::Sum, seq![hole(seq!['?', 'x']), hole(seq!['?', 'e'])])])
}

#[verifier::rlimit(100)]
#[verifier::spinoff_prover]
proof fn lemma_swap_sum_reads()
    ensures
        reads(swap_sum_lhs(), "(sum ?x (sum ?y ?e))"@),
        reads(swap_sum_rhs(), "(sum ?y (sum ?x ?e))"@),
{
    reveal_strlit("(sum ?x (sum ?y ?e))");
    reveal_strlit("(sum ?y (sum ?x ?e))");
    let l00 = Pat::Node(OpModel::Sum, seq![hole(seq!['?', 'y']), hole(seq!['?', 'e'])]);
    let l01 = Pat::Node(OpModel::Sum, seq![hole(seq!['?', 'x']), l00]);
    let r12 = Pat::Node(OpModel::Sum, seq![hole(seq!['?', 'x']), hole(seq!['?', 'e'])]);
    let r13 = Pat::Node(OpModel::Sum, seq![hole(seq!['?', 'y']), r12]);
    assert(print_pat(l00) =~= seq!['(', 's', 'u', 'm', ' ', '?', 'y', ' ', '?', 'e', ')']) by { reveal_with_fuel(print_pat, 4); }
    assert(pat_canonical(l00)) by { reveal_with_fuel(pat_canonical, 4); reveal_with_fuel(all_atom, 8); }
    assert(print_pat(l01) =~= seq!['(', 's', 'u', 'm', ' ', '?', 'x', ' ', '(', 's', 'u', 'm', ' ', '?', 'y', ' ', '?', 'e', ')', ')']) by { reveal_with_fuel(print_pat, 4); }
    assert(pat_canonical(l01)) by { reveal_with_fuel(pat_canonical, 4); reveal_with_fuel(all_atom, 8); }
    assert(print_pat(r12) =~= seq!['(', 's', 'u', 'm', ' ', '?', 'x', ' ', '?', 'e', ')']) by { reveal_with_fuel(print_pat, 4); }
    assert(pat_canonical(r12)) by { reveal_with_fuel(pat_canonical, 4); reveal_with_fuel(all_atom, 8); }
    assert(print_pat(r13) =~= seq!['(', 's', 'u', 'm', ' ', '?', 'y', ' ', '(', 's', 'u', 'm', ' ', '?', 'x', ' ', '?', 'e', ')', ')']) by { reveal_with_fuel(print_pat, 4); }
    assert(pat_canonical(r13)) by { reveal_with_fuel(pat_canonical, 4); reveal_with_fuel(all_atom, 8); }
    assert(print_pat(l01) =~= "(sum ?x (sum ?y ?e))"@);
    assert(pat_canonical(l01)) by { reveal_with_fuel(pat_canonical, 2); reveal_with_fuel(all_atom, 8); }
    assert(print_pat(r13) =~= "(sum ?y (sum ?x ?e))"@);
    assert(pat_canonical(r13)) by { reveal_with_fuel(pat_canonical, 2); reveal_with_fuel(all_atom, 8); }
}

proof fn lemma_swap_sum_inst(mt: Match)
    ensures
        inst(swap_sum_lhs(), mt) is Some ==> inst(swap_sum_lhs(), mt) == Some(sigma(hole_term(mt, seq!['?', 'x'])->Var_0, sigma(hole_term(mt, seq!['?', 'y'])->Var_0, hole_term(mt, seq!['?', 'e'])))),
        inst(swap_sum_rhs(), mt) is Some ==> inst(swap_sum_rhs(), mt) == Some(sigma(hole_term(mt, seq!['?', 'y'])->Var_0, sigma(hole_term(mt, seq!['?', 'x'])->Var_0, hole_term(mt, seq!['?', 'e'])))),
        inst(swap_sum_lhs(), mt) is Some ==> hole_term(mt, seq!['?', 'x']) is Var,
        inst(swap_sum_lhs(), mt) is Some ==> hole_term(mt, seq!['?', 'y']) is Var,
        inst(swap_sum_rhs(), mt) is Some ==> hole_term(mt, seq!['?', 'x']) is Var,
        inst(swap_sum_rhs(), mt) is Some ==> hole_term(mt, seq!['?', 'y']) is Var,
{
    let l00 = Pat::Node(OpModel::Sum, seq![hole(seq!['?', 'y']), hole(seq!['?', 'e'])]);
    let l01 = Pat::Node(OpModel::Sum, seq![hole(seq!['?', 'x']), l00]);
    let r12 = Pat::Node(OpModel::Sum, seq![hole(seq!['?', 'x']), hole(seq!['?', 'e'])]);
    let r13 = Pat::Node(OpModel::Sum, seq![hole(seq!['?', 'y']), r12]);
    assert(inst(l00, mt) is Some ==> inst(l00, mt) == Some(sigma(hole_term(mt, seq!['?', 'y'])->Var_0, hole_term(mt, seq!['?', 'e'])))) by { reveal_with_fuel(inst, 4); }
    assert(inst(l00, mt) is Some ==> hole_term(mt, seq!['?', 'y']) is Var) by { reveal_with_fuel(inst, 4); }
    assert(inst(l01, mt) is Some ==> inst(l01, mt) == Some(sigma(hole_term(mt, seq!['?', 'x'])->Var_0, sigma(hole_term(mt, seq!['?', 'y'])->Var_0, hole_term(mt, seq!['?', 'e']))))) by { reveal_with_fuel(inst, 4); }
    assert(inst(l01, mt) is Some ==> hole_term(mt, seq!['?', 'x']) is Var) by { reveal_with_fuel(inst, 4); }
    assert(inst(l01, mt) is Some ==> hole_term(mt, seq!['?', 'y']) is Var) by { reveal_with_fuel(inst, 4); }
    assert(inst(r12, mt) is Some ==> inst(r12, mt) == Some(sigma(hole_term(mt, seq!['?', 'x'])->Var_0, hole_term(mt, seq!['?', 'e'])))) by { reveal_with_fuel(inst, 4); }
    assert(inst(r12, mt) is Some ==> hole_term(mt, seq!['?', 'x']) is Var) by { reveal_with_fuel(inst, 4); }
    assert(inst(r13, mt) is Some ==> inst(r13, mt) == Some(sigma(hole_term(mt, seq!['?', 'y'])->Var_0, sigma(hole_term(mt, seq!['?', 'x'])->Var_0, hole_term(mt, seq!['?', 'e']))))) by { reveal_with_fuel(inst, 4); }
    assert(inst(r13, mt) is Some ==> hole_term(mt, seq!['?', 'x']) is Var) by { reveal_with_fuel(inst, 4); }
    assert(inst(r13, mt) is Some ==> hole_term(mt, seq!['?', 'y']) is Var) by { reveal_with_fuel(inst, 4); }
}

/// `swap-sum`.
proof fn lemma_keeps_swap_sum(r: RuleModel, m: Interp)
    requires
        either_way(r, "(sum ?x (sum ?y ?e))"@, "(sum ?y (sum ?x ?e))"@),
    ensures
        rule_keeps_value(r, m),
{
    lemma_swap_sum_reads();
    assert forall|mt: Match|
        admits(r, mt, m) && (#[trigger] inst(swap_sum_lhs(), mt)) is Some && inst(swap_sum_rhs(), mt) is Some implies same_value(
        inst(swap_sum_lhs(), mt)->0,
        inst(swap_sum_rhs(), mt)->0,
        m,
    ) by {
        lemma_swap_sum_inst(mt);
        lemma_swap_sum(hole_term(mt, seq!['?', 'x'])->Var_0, hole_term(mt, seq!['?', 'y'])->Var_0, hole_term(mt, seq!['?', 'e']), m);
    }
    lemma_plain_keeps(r, swap_sum_lhs(), swap_sum_rhs(), m);
}

/// The pattern `(let ?v1 ?e (sum ?v1 ?body))`.
pub open spec fn let_sum_same_lhs() -> Pat {
    Pat::Node(OpModel::Let, seq![hole(seq!['?', 'v', '1']), hole(seq!['?', 'e']), Pat::Node(OpModel::Sum, seq![hole(seq!['?', 'v', '1']), hole(seq!['?', 'b', 'o', 'd', 'y'])])])
}

/// The pattern `(sum ?v1 ?body)`.
pub open spec fn let_sum_same_rhs() -> Pat {
    Pat::Node(OpModel::Sum, seq![hole(seq!['?', 'v', '1']), hole(seq!['?', 'b', 'o', 'd', 'y'])])
}

#[verifier::rlimit(100)]
#[verifier::spinoff_prover]
proof fn lemma_let_sum_same_reads()
    ensures
        reads(let_sum_same_lhs(), "(let ?v1 ?e (sum ?v1 ?body))"@),
        reads(let_sum_same_rhs(), "(sum ?v1 ?body)"@),
{
    reveal_strlit("(let ?v1 ?e (sum ?v1 ?body))");
    reveal_strlit("(sum ?v1 ?body)");
    let l00 = Pat::Node(OpModel::Sum, seq![hole(seq!['?', 'v', '1']), hole(seq!['?', 'b', 'o', 'd', 'y'])]);
    let l01 = Pat::Node(OpModel::Let, seq![hole(seq!['?', 'v', '1']), hole(seq!['?', 'e']), l00]);
    let r12 = Pat::Node(OpModel::Sum, seq![hole(seq!['?', 'v', '1']), hole(seq!['?', 'b', 'o', 'd', 'y'])]);
    assert(print_pat(l00) =~= seq!['(', 's', 'u', 'm', ' ', '?', 'v', '1', ' ', '?', 'b', 'o', 'd', 'y', ')']) by { reveal_with_fuel(print_pat, 4); }
    assert(pat_canonical(l00)) by { reveal_with_fuel(pat_canonical, 4); reveal_with_fuel(all_atom, 8); }
    assert(print_pat(l01) =~= seq!['(', 'l', 'e', 't', ' ', '?', 'v', '1', ' ', '?', 'e', ' ', '(', 's', 'u', 'm', ' ', '?', 'v', '1', ' ', '?', 'b', 'o', 'd', 'y', ')', ')']) by { reveal_with_fuel(print_pat, 4); }
    assert(pat_canonical(l01)) by { reveal_with_fuel(pat_canonical, 4); reveal_with_fuel(all_atom, 8); }
    assert(print_pat(r12) =~= seq!['(', 's', 'u', 'm', ' ', '?', 'v', '1', ' ', '?', 'b', 'o', 'd', 'y', ')']) by { reveal_with_fuel(print_pat, 4); }
    assert(pat_canonical(r12)) by { reveal_with_fuel(pat_canonical, 4); reveal_with_fuel(all_atom, 8); }
    assert(print_pat(l01) =~= "(let ?v1 ?e (sum ?v1 ?body))"@);
    assert(pat_canonical(l01)) by { reveal_with_fuel(pat_canonical, 2); reveal_with_fuel(all_atom, 8); }
    assert(print_pat(r12) =~= "(sum ?v1 ?body)"@);
    assert(pat_canonical(r12)) by { reveal_with_fuel(pat_canonical, 2); reveal_with_fuel(all_atom, 8); }
}

proof fn lemma_let_sum_same_inst(mt: Match)
    ensures
        inst(let_sum_same_lhs(), mt) is Some ==> inst(let_sum_same_lhs(), mt) == Some(let_in(hole_term(mt, seq!['?', 'v', '1'])->Var_0, hole_term(mt, seq!['?', 'e']), sigma(hole_term(mt, seq!['?', 'v', '1'])->Var_0, hole_term(mt, seq!['?', 'b', 'o', 'd', 'y'])))),
        inst(let_sum_same_rhs(), mt) is Some ==> inst(let_sum_same_rhs(), mt) == Some(sigma(hole_term(mt, seq!['?', 'v', '1'])->Var_0, hole_term(mt, seq!['?', 'b', 'o', 'd', 'y']))),
        inst(let_sum_same_lhs(), mt) is Some ==> hole_term(mt, seq!['?', 'v', '1']) is Var,
        inst(let_sum_same_rhs(), mt) is Some ==> hole_term(mt, seq!['?', 'v', '1']) is Var,
{
    let l00 = Pat::Node(OpModel::Sum, seq![hole(seq!['?', 'v', '1']), hole(seq!['?', 'b', 'o', 'd', 'y'])]);
    let l01 = Pat::Node(OpModel::Let, seq![hole(seq!['?', 'v', '1']), hole(seq!['?', 'e']), l00]);
    let r12 = Pat::Node(OpModel::Sum, seq![hole(seq!['?', 'v', '1']), hole(seq!['?', 'b', 'o', 'd', 'y'])]);
    assert(inst(l00, mt) is Some ==> inst(l00, mt) == Some(sigma(hole_term(mt, seq!['?', 'v', '1'])->Var_0, hole_term(mt, seq!['?', 'b', 'o', 'd', 'y'])))) by { reveal_with_fuel(inst, 4); }
    assert(inst(l00, mt) is Some ==> hole_term(mt, seq!['?', 'v', '1']) is Var) by { reveal_with_fuel(inst, 4); }
    assert(inst(l01, mt) is Some ==> inst(l01, mt) == Some(let_in(hole_term(mt, seq!['?', 'v', '1'])->Var_0, hole_term(mt, seq!['?', 'e']), sigma(hole_term(mt, seq!['?', 'v', '1'])->Var_0, hole_term(mt, seq!['?', 'b', 'o', 'd', 'y']))))) by { reveal_with_fuel(inst, 5); }
    assert(inst(l01, mt) is Some ==> hole_term(mt, seq!['?', 'v', '1']) is Var) by { reveal_with_fuel(inst, 5); }
    assert(inst(r12, mt) is Some ==> inst(r12, mt) == Some(sigma(hole_term(mt, seq!['?', 'v', '1'])->Var_0, hole_term(mt, seq!['?', 'b', 'o', 'd', 'y'])))) by { reveal_with_fuel(inst, 4); }
    assert(inst(r12, mt) is Some ==> hole_term(mt, seq!['?', 'v', '1']) is Var) by { reveal_with_fuel(inst, 4); }
}

/// `let-sum-same`.
proof fn lemma_keeps_let_sum_same(r: RuleModel, m: Interp)
    requires
        either_way(r, "(let ?v1 ?e (sum ?v1 ?body))"@, "(sum ?v1 ?body)"@),
    ensures
        rule_keeps_value(r, m),
{
    lemma_let_sum_same_reads();
    assert forall|mt: Match|
        admits(r, mt, m) && (#[trigger] inst(let_sum_same_lhs(), mt)) is Some && inst(let_sum_same_rhs(), mt) is Some implies same_value(
        inst(let_sum_same_lhs(), mt)->0,
        inst(let_sum_same_rhs(), mt)->0,
        m,
    ) by {
        lemma_let_sum_same_inst(mt);
        lemma_let_sum_same(hole_term(mt, seq!['?', 'v', '1'])->Var_0, hole_term(mt, seq!['?', 'e']), hole_term(mt, seq!['?', 'b', 'o', 'd', 'y']), m);
    }
    lemma_plain_keeps(r, let_sum_same_lhs(), let_sum_same_rhs(), m);
}

/// The pattern `(* ?a 1)`.
pub open spec fn mul_one_lhs() -> Pat {
    Pat::Node(OpModel::Mul, seq![hole(seq!['?', 'a']), leaf(OpModel::Num(1i32))])
}

/// The pattern `?a`.
pub open spec fn mul_one_rhs() -> Pat {
    hole(seq!['?', 'a'])
}

#[verifier::rlimit(100)]
#[verifier::spinoff_prover]
proof fn lemma_mul_one_reads()
    ensures
        reads(mul_one_lhs(), "(* ?a 1)"@),
        reads(mul_one_rhs(), "?a"@),
{
    reveal_strlit("(* ?a 1)");
    reveal_strlit("?a");
    assert("?a"@ =~= seq!['?', 'a']);
    let l00 = Pat::Node(OpModel::Mul, seq![hole(seq!['?', 'a']), leaf(OpModel::Num(1i32))]);
    assert(print_pat(l00) =~= seq!['(', '*', ' ', '?', 'a', ' ', '1', ')']) by { reveal_with_fuel(print_pat, 4); }
    assert(pat_canonical(l00)) by { reveal_with_fuel(pat_canonical, 4); reveal_with_fuel(all_atom, 8); }
    assert(print_pat(l00) =~= "(* ?a 1)"@);
    assert(pat_canonical(l00)) by { reveal_with_fuel(pat_canonical, 2); reveal_with_fuel(all_atom, 8); }
    assert(print_pat(hole(seq!['?', 'a'])) =~= "?a"@);
    assert(pat_canonical(hole(seq!['?', 'a']))) by { reveal_with_fuel(pat_canonical, 2); reveal_with_fuel(all_atom, 8); }
}

proof fn lemma_mul_one_inst(mt: Match)
    ensures
        inst(mul_one_lhs(), mt) is Some ==> inst(mul_one_lhs(), mt) == Some(times(hole_term(mt, seq!['?', 'a']), Term::Num(1))),
        inst(mul_one_rhs(), mt) is Some ==> inst(mul_one_rhs(), mt) == Some(hole_term(mt, seq!['?', 'a'])),
{
    let l00 = Pat::Node(OpModel::Mul, seq![hole(seq!['?', 'a']), leaf(OpModel::Num(1i32))]);
    assert(inst(l00, mt) is Some ==> inst(l00, mt) == Some(times(hole_term(mt, seq!['?', 'a']), Term::Num(1)))) by { reveal_with_fuel(inst, 4); }
}

/// `mul-1`.
proof fn lemma_keeps_mul_one(r: RuleModel, m: Interp)
    requires
        either_way(r, "(* ?a 1)"@, "?a"@),
    ensures
        rule_keeps_value(r, m),
{
    lemma_mul_one_reads();
    assert forall|mt: Match|
        admits(r, mt, m) && (#[trigger] inst(mul_one_lhs(), mt)) is Some && inst(mul_one_rhs(), mt) is Some implies same_value(
        inst(mul_one_lhs(), mt)->0,
        inst(mul_one_rhs(), mt)->0,
        m,
    ) by {
        lemma_mul_one_inst(mt);
        lemma_mul_one(hole_term(mt, seq!['?', 'a']), m);
    }
    lemma_plain_keeps(r, mul_one_lhs(), mul_one_rhs(), m);
}

/// The pattern `(pow ?x 0)`.
pub open spec fn pow_zero_lhs() -> Pat {
    Pat::Node(OpModel::Other(seq!['p', 'o', 'w']), seq![hole(seq!['?', 'x']), leaf(OpModel::Num(0i32))])
}

/// The pattern `1`.
pub open spec fn pow_zero_rhs() -> Pat {
    leaf(OpModel::Num(1i32))
}

#[verifier::rlimit(100)]
#[verifier::spinoff_prover]
proof fn lemma_pow_zero_reads()
    ensures
        reads(pow_zero_lhs(), "(pow ?x 0)"@),
        reads(pow_zero_rhs(), "1"@),
{
    reveal_strlit("(pow ?x 0)");
    reveal_strlit("1");
    assert("1"@ =~= seq!['1']);
    let l00 = Pat::Node(OpModel::Other(seq!['p', 'o', 'w']), seq![hole(seq!['?', 'x']), leaf(OpModel::Num(0i32))]);
    assert(print_pat(l00) =~= seq!['(', 'p', 'o', 'w', ' ', '?', 'x', ' ', '0', ')']) by { reveal_with_fuel(print_pat, 4); }
    assert(pat_canonical(l00)) by { reveal_with_fuel(pat_canonical, 4); reveal_with_fuel(all_atom, 8); }
    assert(print_pat(l00) =~= "(pow ?x 0)"@);
    assert(pat_canonical(l00)) by { reveal_with_fuel(pat_canonical, 2); reveal_with_fuel(all_atom, 8); }
    assert(print_pat(leaf(OpModel::Num(1i32))) =~= "1"@);
    assert(pat_canonical(leaf(OpModel::Num(1i32)))) by { reveal_with_fuel(pat_canonical, 2); reveal_with_fuel(all_atom, 8); }
}

proof fn lemma_pow_zero_inst(mt: Match)
    ensures
        inst(pow_zero_lhs(), mt) is Some ==> inst(pow_zero_lhs(), mt) == Some(Term::App(seq!['p', 'o', 'w'], Seq::empty().push(hole_term(mt, seq!['?', 'x'])).push(Term::Num(0)))),
        inst(pow_zero_rhs(), mt) is Some ==> inst(pow_zero_rhs(), mt) == Some(Term::Num(1)),
{
    let l00 = Pat::Node(OpModel::Other(seq!['p', 'o', 'w']), seq![hole(seq!['?', 'x']), leaf(OpModel::Num(0i32))]);
    assert(inst(l00, mt) is Some ==> inst(l00, mt) == Some(Term::App(seq!['p', 'o', 'w'], Seq::empty().push(hole_term(mt, seq!['?', 'x'])).push(Term::Num(0))))) by { reveal_with_fuel(inst, 4); }
}

/// `pow0`, where `pow` of anything to `0` is `1`.
proof fn lemma_keeps_pow_zero(r: RuleModel, m: Interp)
    requires
        either_way(r, "(pow ?x 0)"@, "1"@),
        r.name == "pow0"@,
    ensures
        rule_keeps_value(r, m),
{
    lemma_pow_zero_reads();
    reveal_strlit("pow0");
    assert("pow0"@ =~= seq!['p', 'o', 'w', '0']);
    assert forall|mt: Match|
        admits(r, mt, m) && (#[trigger] inst(pow_zero_lhs(), mt)) is Some && inst(pow_zero_rhs(), mt) is Some implies same_value(
        inst(pow_zero_lhs(), mt)->0,
        inst(pow_zero_rhs(), mt)->0,
        m,
    ) by {
        lemma_pow_zero_inst(mt);
        assert(Seq::<Term>::empty().push(hole_term(mt, seq!['?', 'x'])).push(Term::Num(0)) =~= seq![hole_term(mt, seq!['?', 'x']), Term::Num(0)]);
        lemma_pow0(hole_term(mt, seq!['?', 'x']), m);
    }
    lemma_plain_keeps(r, pow_zero_lhs(), pow_zero_rhs(), m);
}

/// The pattern `(let ?v ?e (+ ?a ?b))`.
pub open spec fn let_add_lhs() -> Pat {
    Pat::Node(OpModel::Let, seq![hole(seq!['?', 'v']), hole(seq!['?', 'e']), Pat::Node(OpModel::Add, seq![hole(seq!['?', 'a']), hole(seq!['?', 'b'])])])
}

/// The pattern `(+ (let ?v ?e ?a) (let ?v ?e ?b))`.
pub open spec fn let_add_rhs() -> Pat {
    Pat::Node(OpModel::Add, seq![Pat::Node(OpModel::Let, seq![hole(seq!['?', 'v']), hole(seq!['?', 'e']), hole(seq!['?', 'a'])]), Pat::Node(OpModel::Let, seq![hole(seq!['?', 'v']), hole(seq!['?', 'e']), hole(seq!['?', 'b'])])])
}

#[verifier::rlimit(100)]
#[verifier::spinoff_prover]
proof fn lemma_let_add_reads()
    ensures
        reads(let_add_lhs(), "(let ?v ?e (+ ?a ?b))"@),
        reads(let_add_rhs(), "(+ (let ?v ?e ?a) (let ?v ?e ?b))"@),
{
    reveal_strlit("(let ?v ?e (+ ?a ?b))");
    reveal_strlit("(+ (let ?v ?e ?a) (let ?v ?e ?b))");
    let l00 = Pat::Node(OpModel::Add, seq![hole(seq!['?', 'a']), hole(seq!['?', 'b'])]);
    let l01 = Pat::Node(OpModel::Let, seq![hole(seq!['?', 'v']), hole(seq!['?', 'e']), l00]);
    let r12 = Pat::Node(OpModel::Let, seq![hole(seq!['?', 'v']), hole(seq!['?', 'e']), hole(seq!['?', 'a'])]);
    let r13 = Pat::Node(OpModel::Let, seq![hole(seq!['?', 'v']), hole(seq!['?', 'e']), hole(seq!['?', 'b'])]);
    let r14 = Pat::Node(OpModel::Add, seq![r12, r13]);
    assert(print_pat(l00) =~= seq!['(', '+', ' ', '?', 'a', ' ', '?', 'b', ')']) by { reveal_with_fuel(print_pat, 4); }
    assert(pat_canonical(l00)) by { reveal_with_fuel(pat_canonical, 4); reveal_with_fuel(all_atom, 8); }
    assert(print_pat(l01) =~= seq!['(', 'l', 'e', 't', ' ', '?', 'v', ' ', '?', 'e', ' ', '(', '+', ' ', '?', 'a', ' ', '?', 'b', ')', ')']) by { reveal_with_fuel(print_pat, 4); }
    assert(pat_canonical(l01)) by { reveal_with_fuel(pat_canonical, 4); reveal_with_fuel(all_atom, 8); }
    assert(print_pat(r12) =~= seq!['(', 'l', 'e', 't', ' ', '?', 'v', ' ', '?', 'e', ' ', '?', 'a', ')']) by { reveal_with_fuel(print_pat, 4); }
    assert(pat_canonical(r12)) by { reveal_with_fuel(pat_canonical, 4); reveal_with_fuel(all_atom, 8); }
    assert(print_pat(r13) =~= seq!['(', 'l', 'e', 't', ' ', '?', 'v', ' ', '?', 'e', ' ', '?', 'b', ')']) by { reveal_with_fuel(print_pat, 4); }
    assert(pat_canonical(r13)) by { reveal_with_fuel(pat_canonical, 4); reveal_with_fuel(all_atom, 8); }
    assert(print_pat(r14) =~= seq!['(', '+', ' ', '(', 'l', 'e', 't', ' ', '?', 'v', ' ', '?', 'e', ' ', '?', 'a', ')', ' ', '(', 'l', 'e', 't', ' ', '?', 'v', ' ', '?', 'e', ' ', '?', 'b', ')', ')']) by { reveal_with_fuel(print_pat, 4); }
    assert(pat_canonical(r14)) by { reveal_with_fuel(pat_canonical, 4); reveal_with_fuel(all_atom, 8); }
    assert(print_pat(l01) =~= "(let ?v ?e (+ ?a ?b))"@);
    assert(pat_canonical(l01)) by { reveal_with_fuel(pat_canonical, 2); reveal_with_fuel(all_atom, 8); }
    assert(print_pat(r14) =~= "(+ (let ?v ?e ?a) (let ?v ?e ?b))"@);
    assert(pat_canonical(r14)) by { reveal_with_fuel(pat_canonical, 2); reveal_with_fuel(all_atom, 8); }
}

proof fn lemma_let_add_inst(mt: Match)
    ensures
        inst(let_add_lhs(), mt) is Some ==> inst(let_add_lhs(), mt) == Some(let_in(hole_term(mt, seq!['?', 'v'])->Var_0, hole_term(mt, seq!['?', 'e']), plus(hole_term(mt, seq!['?', 'a']), hole_term(mt, seq!['?', 'b'])))),
        inst(let_add_rhs(), mt) is Some ==> inst(let_add_rhs(), mt) == Some(plus(let_in(hole_term(mt, seq!['?', 'v'])->Var_0, hole_term(mt, seq!['?', 'e']), hole_term(mt, seq!['?', 'a'])), let_in(hole_term(mt, seq!['?', 'v'])->Var_0, hole_term(mt, seq!['?', 'e']), hole_term(mt, seq!['?', 'b'])))),
        inst(let_add_lhs(), mt) is Some ==> hole_term(mt, seq!['?', 'v']) is Var,
        inst(let_add_rhs(), mt) is Some ==> hole_term(mt, seq!['?', 'v']) is Var,
{
    let l00 = Pat::Node(OpModel::Add, seq![hole(seq!['?', 'a']), hole(seq!['?', 'b'])]);
    let l01 = Pat::Node(OpModel::Let, seq![hole(seq!['?', 'v']), hole(seq!['?', 'e']), l00]);
    let r12 = Pat::Node(OpModel::Let, seq![hole(seq!['?', 'v']), hole(seq!['?', 'e']), hole(seq!['?', 'a'])]);
    let r13 = Pat::Node(OpModel::Let, seq![hole(seq!['?', 'v']), hole(seq!['?', 'e']), hole(seq!['?', 'b'])]);
    let r14 = Pat::Node(OpModel::Add, seq![r12, r13]);
    assert(inst(l00, mt) is Some ==> inst(l00, mt) == Some(plus(hole_term(mt, seq!['?', 'a']), hole_term(mt, seq!['?', 'b'])))) by { reveal_with_fuel(inst, 4); }
    assert(inst(l01, mt) is Some ==> inst(l01, mt) == Some(let_in(hole_term(mt, seq!['?', 'v'])->Var_0, hole_term(mt, seq!['?', 'e']), plus(hole_term(mt, seq!['?', 'a']), hole_term(mt, seq!['?', 'b']))))) by { reveal_with_fuel(inst, 5); }
    assert(inst(l01, mt) is Some ==> hole_term(mt, seq!['?', 'v']) is Var) by { reveal_with_fuel(inst, 5); }
    assert(inst(r12, mt) is Some ==> inst(r12, mt) == Some(let_in(hole_term(mt, seq!['?', 'v'])->Var_0, hole_term(mt, seq!['?', 'e']), hole_term(mt, seq!['?', 'a'])))) by { reveal_with_fuel(inst, 5); }
    assert(inst(r12, mt) is Some ==> hole_term(mt, seq!['?', 'v']) is Var) by { reveal_with_fuel(inst, 5); }
    assert(inst(r13, mt) is Some ==> inst(r13, mt) == Some(let_in(hole_term(mt, seq!['?', 'v'])->Var_0, hole_term(mt, seq!['?', 'e']), hole_term(mt, seq!['?', 'b'])))) by { reveal_with_fuel(inst, 5); }
    assert(inst(r13, mt) is Some ==> hole_term(mt, seq!['?', 'v']) is Var) by { reveal_with_fuel(inst, 5); }
    assert(inst(r14, mt) is Some ==> inst(r14, mt) == Some(plus(let_in(hole_term(mt, seq!['?', 'v'])->Var_0, hole_term(mt, seq!['?', 'e']), hole_term(mt, seq!['?', 'a'])), let_in(hole_term(mt, seq!['?', 'v'])->Var_0, hole_term(mt, seq!['?', 'e']), hole_term(mt, seq!['?', 'b']))))) by { reveal_with_fuel(inst, 4); }
    assert(inst(r14, mt) is Some ==> hole_term(mt, seq!['?', 'v']) is Var) by { reveal_with_fuel(inst, 4); }
}

/// `let-add`, either way.
proof fn lemma_keeps_let_add(r: RuleModel, m: Interp)
    requires
        either_way(r, "(let ?v ?e (+ ?a ?b))"@, "(+ (let ?v ?e ?a) (let ?v ?e ?b))"@),
    ensures
        rule_keeps_value(r, m),
{
    lemma_let_add_reads();
    assert forall|mt: Match|
        admits(r, mt, m) && (#[trigger] inst(let_add_lhs(), mt)) is Some && inst(let_add_rhs(), mt) is Some implies same_value(
        inst(let_add_lhs(), mt)->0,
        inst(let_add_rhs(), mt)->0,
        m,
    ) by {
        lemma_let_add_inst(mt);
        lemma_let_add(hole_term(mt, seq!['?', 'v'])->Var_0, hole_term(mt, seq!['?', 'e']), hole_term(mt, seq!['?', 'a']), hole_term(mt, seq!['?', 'b']), m);
    }
    lemma_plain_keeps(r, let_add_lhs(), let_add_rhs(), m);
}

/// The pattern `(let ?v ?e (= ?a ?b))`.
pub open spec fn let_eq_lhs() -> Pat {
    Pat::Node(OpModel::Let, seq![hole(seq!['?', 'v']), hole(seq!['?', 'e']), Pat::Node(OpModel::Eq, seq![hole(seq!['?', 'a']), hole(seq!['?', 'b'])])])
}

/// The pattern `(= (let ?v ?e ?a) (let ?v ?e ?b))`.
pub open spec fn let_eq_rhs() -> Pat {
    Pat::Node(OpModel::Eq, seq![Pat::Node(OpModel::Let, seq![hole(seq!['?', 'v']), hole(seq!['?', 'e']), hole(seq!['?', 'a'])]), Pat::Node(OpModel::Let, seq![hole(seq!['?', 'v']), hole(seq!['?', 'e']), hole(seq!['?', 'b'])])])
}

#[verifier::rlimit(100)]
#[verifier::spinoff_prover]
proof fn lemma_let_eq_reads()
    ensures
        reads(let_eq_lhs(), "(let ?v ?e (= ?a ?b))"@),
        reads(let_eq_rhs(), "(= (let ?v ?e ?a) (let ?v ?e ?b))"@),
{
    reveal_strlit("(let ?v ?e (= ?a ?b))");
    reveal_strlit("(= (let ?v ?e ?a) (let ?v ?e ?b))");
    let l00 = Pat::Node(OpModel::Eq, seq![hole(seq!['?', 'a']), hole(seq!['?', 'b'])]);
    let l01 = Pat::Node(OpModel::Let, seq![hole(seq!['?', 'v']), hole(seq!['?', 'e']), l00]);
    let r12 = Pat::Node(OpModel::Let, seq![hole(seq!['?', 'v']), hole(seq!['?', 'e']), hole(seq!['?', 'a'])]);
    let r13 = Pat::Node(OpModel::Let, seq![hole(seq!['?', 'v']), hole(seq!['?', 'e']), hole(seq!['?', 'b'])]);
    let r14 = Pat::Node(OpModel::Eq, seq![r12, r13]);
    assert(print_pat(l00) =~= seq!['(', '=', ' ', '?', 'a', ' ', '?', 'b', ')']) by { reveal_with_fuel(print_pat, 4); }
    assert(pat_canonical(l00)) by { reveal_with_fuel(pat_canonical, 4); reveal_with_fuel(all_atom, 8); }
    assert(print_pat(l01) =~= seq!['(', 'l', 'e', 't', ' ', '?', 'v', ' ', '?', 'e', ' ', '(', '=', ' ', '?', 'a', ' ', '?', 'b', ')', ')']) by { reveal_with_fuel(print_pat, 4); }
    assert(pat_canonical(l01)) by { reveal_with_fuel(pat_canonical, 4); reveal_with_fuel(all_atom, 8); }
    assert(print_pat(r12) =~= seq!['(', 'l', 'e', 't', ' ', '?', 'v', ' ', '?', 'e', ' ', '?', 'a', ')']) by { reveal_with_fuel(print_pat, 4); }
    assert(pat_canonical(r12)) by { reveal_with_fuel(pat_canonical, 4); reveal_with_fuel(all_atom, 8); }
    assert(print_pat(r13) =~= seq!['(', 'l', 'e', 't', ' ', '?', 'v', ' ', '?', 'e', ' ', '?', 'b', ')']) by { reveal_with_fuel(print_pat, 4); }
    assert(pat_canonical(r13)) by { reveal_with_fuel(pat_canonical, 4); reveal_with_fuel(all_atom, 8); }
    assert(print_pat(r14) =~= seq!['(', '=', ' ', '(', 'l', 'e', 't', ' ', '?', 'v', ' ', '?', 'e', ' ', '?', 'a', ')', ' ', '(', 'l', 'e', 't', ' ', '?', 'v', ' ', '?', 'e', ' ', '?', 'b', ')', ')']) by { reveal_with_fuel(print_pat, 4); }
    assert(pat_canonical(r14)) by { reveal_with_fuel(pat_canonical, 4); reveal_with_fuel(all_atom, 8); }
    assert(print_pat(l01) =~= "(let ?v ?e (= ?a ?b))"@);
    assert(pat_canonical(l01)) by { reveal_with_fuel(pat_canonical, 2); reveal_with_fuel(all_atom, 8); }
    assert(print_pat(r14) =~= "(= (let ?v ?e ?a) (let ?v ?e ?b))"@);
    assert(pat_canonical(r14)) by { reveal_with_fuel(pat_canonical, 2); reveal_with_fuel(all_atom, 8); }
}

proof fn lemma_let_eq_inst(mt: Match)
    ensures
        inst(let_eq_lhs(), mt) is Some ==> inst(let_eq_lhs(), mt) == Some(let_in(hole_term(mt, seq!['?', 'v'])->Var_0, hole_term(mt, seq!['?', 'e']), equal(hole_term(mt, seq!['?', 'a']), hole_term(mt, seq!['?', 'b'])))),
        inst(let_eq_rhs(), mt) is Some ==> inst(let_eq_rhs(), mt) == Some(equal(let_in(hole_term(mt, seq!['?', 'v'])->Var_0, hole_term(mt, seq!['?', 'e']), hole_term(mt, seq!['?', 'a'])), let_in(hole_term(mt, seq!['?', 'v'])->Var_0, hole_term(mt, seq!['?', 'e']), hole_term(mt, seq!['?', 'b'])))),
        inst(let_eq_lhs(), mt) is Some ==> hole_term(mt, seq!['?', 'v']) is Var,
        inst(let_eq_rhs(), mt) is Some ==> hole_term(mt, seq!['?', 'v']) is Var,
{
    let l00 = Pat::Node(OpModel::Eq, seq![hole(seq!['?', 'a']), hole(seq!['?', 'b'])]);
    let l01 = Pat::Node(OpModel::Let, seq![hole(seq!['?', 'v']), hole(seq!['?', 'e']), l00]);
    let r12 = Pat::Node(OpModel::Let, seq![hole(seq!['?', 'v']), hole(seq!['?', 'e']), hole(seq!['?', 'a'])]);
    let r13 = Pat::Node(OpModel::Let, seq![hole(seq!['?', 'v']), hole(seq!['?', 'e']), hole(seq!['?', 'b'])]);
    let r14 = Pat::Node(OpModel::Eq, seq![r12, r13]);
    assert(inst(l00, mt) is Some ==> inst(l00, mt) == Some(equal(hole_term(mt, seq!['?', 'a']), hole_term(mt, seq!['?', 'b'])))) by { reveal_with_fuel(inst, 4); }
    assert(inst(l01, mt) is Some ==> inst(l01, mt) == Some(let_in(hole_term(mt, seq!['?', 'v'])->Var_0, hole_term(mt, seq!['?', 'e']), equal(hole_term(mt, seq!['?', 'a']), hole_term(mt, seq!['?', 'b']))))) by { reveal_with_fuel(inst, 5); }
    assert(inst(l01, mt) is Some ==> hole_term(mt, seq!['?', 'v']) is Var) by { reveal_with_fuel(inst, 5); }
    assert(inst(r12, mt) is Some ==> inst(r12, mt) == Some(let_in(hole_term(mt, seq!['?', 'v'])->Var_0, hole_term(mt, seq!['?', 'e']), hole_term(mt, seq!['?', 'a'])))) by { reveal_with_fuel(inst, 5); }
    assert(inst(r12, mt) is Some ==> hole_term(mt, seq!['?', 'v']) is Var) by { reveal_with_fuel(inst, 5); }
    assert(inst(r13, mt) is Some ==> inst(r13, mt) == Some(let_in(hole_term(mt, seq!['?', 'v'])->Var_0, hole_term(mt, seq!['?', 'e']), hole_term(mt, seq!['?', 'b'])))) by { reveal_with_fuel(inst, 5); }
    assert(inst(r13, mt) is Some ==> hole_term(mt, seq!['?', 'v']) is Var) by { reveal_with_fuel(inst, 5); }
    assert(inst(r14, mt) is Some ==> inst(r14, mt) == Some(equal(let_in(hole_term(mt, seq!['?', 'v'])->Var_0, hole_term(mt, seq!['?', 'e']), hole_term(mt, seq!['?', 'a'])), let_in(hole_term(mt, seq!['?', 'v'])->Var_0, hole_term(mt, seq!['?', 'e']), hole_term(mt, seq!['?', 'b']))))) by { reveal_with_fuel(inst, 4); }
    assert(inst(r14, mt) is Some ==> hole_term(mt, seq!['?', 'v']) is Var) by { reveal_with_fuel(inst, 4); }
}

/// `let-eq`, either way.
proof fn lemma_keeps_let_eq(r: RuleModel, m: Interp)
    requires
        either_way(r, "(let ?v ?e (= ?a ?b))"@, "(= (let ?v ?e ?a) (let ?v ?e ?b))"@),
    ensures
        rule_keeps_value(r, m),
{
    lemma_let_eq_reads();
    assert forall|mt: Match|
        admits(r, mt, m) && (#[trigger] inst(let_eq_lhs(), mt)) is Some && inst(let_eq_rhs(), mt) is Some implies same_value(
        inst(let_eq_lhs(), mt)->0,
        inst(let_eq_rhs(), mt)->0,
        m,
    ) by {
        lemma_let_eq_inst(mt);
        lemma_let_eq(hole_term(mt, seq!['?', 'v'])->Var_0, hole_term(mt, seq!['?', 'e']), hole_term(mt, seq!['?', 'a']), hole_term(mt, seq!['?', 'b']), m);
    }
    lemma_plain_keeps(r, let_eq_lhs(), let_eq_rhs(), m);
}

/// The pattern `(+ ?a ?b)`.
pub open spec fn add_comm_lhs() -> Pat {
    Pat::Node(OpModel::Add, seq![hole(seq!['?', 'a']), hole(seq!['?', 'b'])])
}

/// The pattern `(+ ?b ?a)`.
pub open spec fn add_comm_rhs() -> Pat {
    Pat::Node(OpModel::Add, seq![hole(seq!['?', 'b']), hole(seq!['?', 'a'])])
}

#[verifier::rlimit(100)]
#[verifier::spinoff_prover]
proof fn lemma_add_comm_reads()
    ensures
        reads(add_comm_lhs(), "(+ ?a ?b)"@),
        reads(add_comm_rhs(), "(+ ?b ?a)"@),
{
    reveal_strlit("(+ ?a ?b)");
    reveal_strlit("(+ ?b ?a)");
    let l00 = Pat::Node(OpModel::Add, seq![hole(seq!['?', 'a']), hole(seq!['?', 'b'])]);
    let r11 = Pat::Node(OpModel::Add, seq![hole(seq!['?', 'b']), hole(seq!['?', 'a'])]);
    assert(print_pat(l00) =~= seq!['(', '+', ' ', '?', 'a', ' ', '?', 'b', ')']) by { reveal_with_fuel(print_pat, 4); }
    assert(pat_canonical(l00)) by { reveal_with_fuel(pat_canonical, 4); reveal_with_fuel(all_atom, 8); }
    assert(print_pat(r11) =~= seq!['(', '+', ' ', '?', 'b', ' ', '?', 'a', ')']) by { reveal_with_fuel(print_pat, 4); }
    assert(pat_canonical(r11)) by { reveal_with_fuel(pat_canonical, 4); reveal_with_fuel(all_atom, 8); }
    assert(print_pat(l00) =~= "(+ ?a ?b)"@);
    assert(pat_canonical(l00)) by { reveal_with_fuel(pat_canonical, 2); reveal_with_fuel(all_atom, 8); }
    assert(print_pat(r11) =~= "(+ ?b ?a)"@);
    assert(pat_canonical(r11)) by { reveal_with_fuel(pat_canonical, 2); reveal_with_fuel(all_atom, 8); }
}

proof fn lemma_add_comm_inst(mt: Match)
    ensures
        inst(add_comm_lhs(), mt) is Some ==> inst(add_comm_lhs(), mt) == Some(plus(hole_term(mt, seq!['?', 'a']), hole_term(mt, seq!['?', 'b']))),
        inst(add_comm_rhs(), mt) is Some ==> inst(add_comm_rhs(), mt) == Some(plus(hole_term(mt, seq!['?', 'b']), hole_term(mt, seq!['?', 'a']))),
{
    let l00 = Pat::Node(OpModel::Add, seq![hole(seq!['?', 'a']), hole(seq!['?', 'b'])]);
    let r11 = Pat::Node(OpModel::Add, seq![hole(seq!['?', 'b']), hole(seq!['?', 'a'])]);
    assert(inst(l00, mt) is Some ==> inst(l00, mt) == Some(plus(hole_term(mt, seq!['?', 'a']), hole_term(mt, seq!['?', 'b'])))) by { reveal_with_fuel(inst, 4); }
    assert(inst(r11, mt) is Some ==> inst(r11, mt) == Some(plus(hole_term(mt, seq!['?', 'b']), hole_term(mt, seq!['?', 'a'])))) by { reveal_with_fuel(inst, 4); }
}

/// `add-comm`, either way.
proof fn lemma_keeps_add_comm(r: RuleModel, m: Interp)
    requires
        either_way(r, "(+ ?a ?b)"@, "(+ ?b ?a)"@),
    ensures
        rule_keeps_value(r, m),
{
    lemma_add_comm_reads();
    assert forall|mt: Match|
        admits(r, mt, m) && (#[trigger] inst(add_comm_lhs(), mt)) is Some && inst(add_comm_rhs(), mt) is Some implies same_value(
        inst(add_comm_lhs(), mt)->0,
        inst(add_comm_rhs(), mt)->0,
        m,
    ) by {
        lemma_add_comm_inst(mt);
        lemma_add_comm(hole_term(mt, seq!['?', 'a']), hole_term(mt, seq!['?', 'b']), m);
    }
    lemma_plain_keeps(r, add_comm_lhs(), add_comm_rhs(), m);
}

/// The pattern `(+ (+ ?a ?b) ?c)`.
pub open spec fn add_assoc_lhs() -> Pat {
    Pat::Node(OpModel::Add, seq![Pat::Node(OpModel::Add, seq![hole(seq!['?', 'a']), hole(seq!['?', 'b'])]), hole(seq!['?', 'c'])])
}

/// The pattern `(+ ?a (+ ?b ?c))`.
pub open spec fn add_assoc_rhs() -> Pat {
    Pat::Node(OpModel::Add, seq![hole(seq!['?', 'a']), Pat::Node(OpModel::Add, seq![hole(seq!['?', 'b']), hole(seq!['?', 'c'])])])
}

#[verifier::rlimit(100)]
#[verifier::spinoff_prover]
proof fn lemma_add_assoc_reads()
    ensures
        reads(add_assoc_lhs(), "(+ (+ ?a ?b) ?c)"@),
        reads(add_assoc_rhs(), "(+ ?a (+ ?b ?c))"@),
{
    reveal_strlit("(+ (+ ?a ?b) ?c)");
    reveal_strlit("(+ ?a (+ ?b ?c))");
    let l00 = Pat::Node(OpModel::Add, seq![hole(seq!['?', 'a']), hole(seq!['?', 'b'])]);
    let l01 = Pat::Node(OpModel::Add, seq![l00, hole(seq!['?', 'c'])]);
    let r12 = Pat::Node(OpModel::Add, seq![hole(seq!['?', 'b']), hole(seq!['?', 'c'])]);
    let r13 = Pat::Node(OpModel::Add, seq![hole(seq!['?', 'a']), r12]);
    assert(print_pat(l00) =~= seq!['(', '+', ' ', '?', 'a', ' ', '?', 'b', ')']) by { reveal_with_fuel(print_pat, 4); }
    assert(pat_canonical(l00)) by { reveal_with_fuel(pat_canonical, 4); reveal_with_fuel(all_atom, 8); }
    assert(print_pat(l01) =~= seq!['(', '+', ' ', '(', '+', ' ', '?', 'a', ' ', '?', 'b', ')', ' ', '?', 'c', ')']) by { reveal_with_fuel(print_pat, 4); }
    assert(pat_canonical(l01)) by { reveal_with_fuel(pat_canonical, 4); reveal_with_fuel(all_atom, 8); }
    assert(print_pat(r12) =~= seq!['(', '+', ' ', '?', 'b', ' ', '?', 'c', ')']) by { reveal_with_fuel(print_pat, 4); }
    assert(pat_canonical(r12)) by { reveal_with_fuel(pat_canonical, 4); reveal_with_fuel(all_atom, 8); }
    assert(print_pat(r13) =~= seq!['(', '+', ' ', '?', 'a', ' ', '(', '+', ' ', '?', 'b', ' ', '?', 'c', ')', ')']) by { reveal_with_fuel(print_pat, 4); }
    assert(pat_canonical(r13)) by { reveal_with_fuel(pat_canonical, 4); reveal_with_fuel(all_atom, 8); }
    assert(print_pat(l01) =~= "(+ (+ ?a ?b) ?c)"@);
    assert(pat_canonical(l01)) by { reveal_with_fuel(pat_canonical, 2); reveal_with_fuel(all_atom, 8); }
    assert(print_pat(r13) =~= "(+ ?a (+ ?b ?c))"@);
    assert(pat_canonical(r13)) by { reveal_with_fuel(pat_canonical, 2); reveal_with_fuel(all_atom, 8); }
}

proof fn lemma_add_assoc_inst(mt: Match)
    ensures
        inst(add_assoc_lhs(), mt) is Some ==> inst(add_assoc_lhs(), mt) == Some(plus(plus(hole_term(mt, seq!['?', 'a']), hole_term(mt, seq!['?', 'b'])), hole_term(mt, seq!['?', 'c']))),
        inst(add_assoc_rhs(), mt) is Some ==> inst(add_assoc_rhs(), mt) == Some(plus(hole_term(mt, seq!['?', 'a']), plus(hole_term(mt, seq!['?', 'b']), hole_term(mt, seq!['?', 'c'])))),
{
    let l00 = Pat::Node(OpModel::Add, seq![hole(seq!['?', 'a']), hole(seq!['?', 'b'])]);
    let l01 = Pat::Node(OpModel::Add, seq![l00, hole(seq!['?', 'c'])]);
    let r12 = Pat::Node(OpModel::Add, seq![hole(seq!['?', 'b']), hole(seq!['?', 'c'])]);
    let r13 = Pat::Node(OpModel::Add, seq![hole(seq!['?', 'a']), r12]);
    assert(inst(l00, mt) is Some ==> inst(l00, mt) == Some(plus(hole_term(mt, seq!['?', 'a']), hole_term(mt, seq!['?', 'b'])))) by { reveal_with_fuel(inst, 4); }
    assert(inst(l01, mt) is Some ==> inst(l01, mt) == Some(plus(plus(hole_term(mt, seq!['?', 'a']), hole_term(mt, seq!['?', 'b'])), hole_term(mt, seq!['?', 'c'])))) by { reveal_with_fuel(inst, 4); }
    assert(inst(r12, mt) is Some ==> inst(r12, mt) == Some(plus(hole_term(mt, seq!['?', 'b']), hole_term(mt, seq!['?', 'c'])))) by { reveal_with_fuel(inst, 4); }
    assert(inst(r13, mt) is Some ==> inst(r13, mt) == Some(plus(hole_term(mt, seq!['?', 'a']), plus(hole_term(mt, seq!['?', 'b']), hole_term(mt, seq!['?', 'c']))))) by { reveal_with_fuel(inst, 4); }
}

/// `add-assoc`, either way.
proof fn lemma_keeps_add_assoc(r: RuleModel, m: Interp)
    requires
        either_way(r, "(+ (+ ?a ?b) ?c)"@, "(+ ?a (+ ?b ?c))"@),
    ensures
        rule_keeps_value(r, m),
{
    lemma_add_assoc_reads();
    assert forall|mt: Match|
        admits(r, mt, m) && (#[trigger] inst(add_assoc_lhs(), mt)) is Some && inst(add_assoc_rhs(), mt) is Some implies same_value(
        inst(add_assoc_lhs(), mt)->0,
        inst(add_assoc_rhs(), mt)->0,
        m,
    ) by {
        lemma_add_assoc_inst(mt);
        lemma_add_assoc(hole_term(mt, seq!['?', 'a']), hole_term(mt, seq!['?', 'b']), hole_term(mt, seq!['?', 'c']), m);
    }
    lemma_plain_keeps(r, add_assoc_lhs(), add_assoc_rhs(), m);
}

/// The pattern `(* ?a ?b)`.
pub open spec fn mul_comm_lhs() -> Pat {
    Pat::Node(OpModel::Mul, seq![hole(seq!['?', 'a']), hole(seq!['?', 'b'])])
}

/// The pattern `(* ?b ?a)`.
pub open spec fn mul_comm_rhs() -> Pat {
    Pat::Node(OpModel::Mul, seq![hole(seq!['?', 'b']), hole(seq!['?', 'a'])])
}

#[verifier::rlimit(100)]
#[verifier::spinoff_prover]
proof fn lemma_mul_comm_reads()
    ensures
        reads(mul_comm_lhs(), "(* ?a ?b)"@),
        reads(mul_comm_rhs(), "(* ?b ?a)"@),
{
    reveal_strlit("(* ?a ?b)");
    reveal_strlit("(* ?b ?a)");
    let l00 = Pat::Node(OpModel::Mul, seq![hole(seq!['?', 'a']), hole(seq!['?', 'b'])]);
    let r11 = Pat::Node(OpModel::Mul, seq![hole(seq!['?', 'b']), hole(seq!['?', 'a'])]);
    assert(print_pat(l00) =~= seq!['(', '*', ' ', '?', 'a', ' ', '?', 'b', ')']) by { reveal_with_fuel(print_pat, 4); }
    assert(pat_canonical(l00)) by { reveal_with_fuel(pat_canonical, 4); reveal_with_fuel(all_atom, 8); }
    assert(print_pat(r11) =~= seq!['(', '*', ' ', '?', 'b', ' ', '?', 'a', ')']) by { reveal_with_fuel(print_pat, 4); }
    assert(pat_canonical(r11)) by { reveal_with_fuel(pat_canonical, 4); reveal_with_fuel(all_atom, 8); }
    assert(print_pat(l00) =~= "(* ?a ?b)"@);
    assert(pat_canonical(l00)) by { reveal_with_fuel(pat_canonical, 2); reveal_with_fuel(all_atom, 8); }
    assert(print_pat(r11) =~= "(* ?b ?a)"@);
    assert(pat_canonical(r11)) by { reveal_with_fuel(pat_canonical, 2); reveal_with_fuel(all_atom, 8); }
}

proof fn lemma_mul_comm_inst(mt: Match)
    ensures
        inst(mul_comm_lhs(), mt) is Some ==> inst(mul_comm_lhs(), mt) == Some(times(hole_term(mt, seq!['?', 'a']), hole_term(mt, seq!['?', 'b']))),
        inst(mul_comm_rhs(), mt) is Some ==> inst(mul_comm_rhs(), mt) == Some(times(hole_term(mt, seq!['?', 'b']), hole_term(mt, seq!['?', 'a']))),
{
    let l00 = Pat::Node(OpModel::Mul, seq![hole(seq!['?', 'a']), hole(seq!['?', 'b'])]);
    let r11 = Pat::Node(OpModel::Mul, seq![hole(seq!['?', 'b']), hole(seq!['?', 'a'])]);
    assert(inst(l00, mt) is Some ==> inst(l00, mt) == Some(times(hole_term(mt, seq!['?', 'a']), hole_term(mt, seq!['?', 'b'])))) by { reveal_with_fuel(inst, 4); }
    assert(inst(r11, mt) is Some ==> inst(r11, mt) == Some(times(hole_term(mt, seq!['?', 'b']), hole_term(mt, seq!['?', 'a'])))) by { reveal_with_fuel(inst, 4); }
}

/// `mul-comm`, either way.
proof fn lemma_keeps_mul_comm(r: RuleModel, m: Interp)
    requires
        either_way(r, "(* ?a ?b)"@, "(* ?b ?a)"@),
    ensures
        rule_keeps_value(r, m),
{
    lemma_mul_comm_reads();
    assert forall|mt: Match|
        admits(r, mt, m) && (#[trigger] inst(mul_comm_lhs(), mt)) is Some && inst(mul_comm_rhs(), mt) is Some implies same_value(
        inst(mul_comm_lhs(), mt)->0,
        inst(mul_comm_rhs(), mt)->0,
        m,
    ) by {
        lemma_mul_comm_inst(mt);
        lemma_mul_comm(hole_term(mt, seq!['?', 'a']), hole_term(mt, seq!['?', 'b']), m);
    }
    lemma_plain_keeps(r, mul_comm_lhs(), mul_comm_rhs(), m);
}

/// The pattern `(* (* ?a ?b) ?c)`.
pub open spec fn mul_assoc_lhs() -> Pat {
    Pat::Node(OpModel::Mul, seq![Pat::Node(OpModel::Mul, seq![hole(seq!['?', 'a']), hole(seq!['?', 'b'])]), hole(seq!['?', 'c'])])
}

/// The pattern `(* ?a (* ?b ?c))`.
pub open spec fn mul_assoc_rhs() -> Pat {
    Pat::Node(OpModel::Mul, seq![hole(seq!['?', 'a']), Pat::Node(OpModel::Mul, seq![hole(seq!['?', 'b']), hole(seq!['?', 'c'])])])
}

#[verifier::rlimit(100)]
#[verifier::spinoff_prover]
proof fn lemma_mul_assoc_reads()
    ensures
        reads(mul_assoc_lhs(), "(* (* ?a ?b) ?c)"@),
        reads(mul_assoc_rhs(), "(* ?a (* ?b ?c))"@),
{
    reveal_strlit("(* (* ?a ?b) ?c)");
    reveal_strlit("(* ?a (* ?b ?c))");
    let l00 = Pat::Node(OpModel::Mul, seq![hole(seq!['?', 'a']), hole(seq!['?', 'b'])]);
    let l01 = Pat::Node(OpModel::Mul, seq![l00, hole(seq!['?', 'c'])]);
    let r12 = Pat::Node(OpModel::Mul, seq![hole(seq!['?', 'b']), hole(seq!['?', 'c'])]);
    let r13 = Pat::Node(OpModel::Mul, seq![hole(seq!['?', 'a']), r12]);
    assert(print_pat(l00) =~= seq!['(', '*', ' ', '?', 'a', ' ', '?', 'b', ')']) by { reveal_with_fuel(print_pat, 4); }
    assert(pat_canonical(l00)) by { reveal_with_fuel(pat_canonical, 4); reveal_with_fuel(all_atom, 8); }
    assert(print_pat(l01) =~= seq!['(', '*', ' ', '(', '*', ' ', '?', 'a', ' ', '?', 'b', ')', ' ', '?', 'c', ')']) by { reveal_with_fuel(print_pat, 4); }
    assert(pat_canonical(l01)) by { reveal_with_fuel(pat_canonical, 4); reveal_with_fuel(all_atom, 8); }
    assert(print_pat(r12) =~= seq!['(', '*', ' ', '?', 'b', ' ', '?', 'c', ')']) by { reveal_with_fuel(print_pat, 4); }
    assert(pat_canonical(r12)) by { reveal_with_fuel(pat_canonical, 4); reveal_with_fuel(all_atom, 8); }
    assert(print_pat(r13) =~= seq!['(', '*', ' ', '?', 'a', ' ', '(', '*', ' ', '?', 'b', ' ', '?', 'c', ')', ')']) by { reveal_with_fuel(print_pat, 4); }
    assert(pat_canonical(r13)) by { reveal_with_fuel(pat_canonical, 4); reveal_with_fuel(all_atom, 8); }
    assert(print_pat(l01) =~= "(* (* ?a ?b) ?c)"@);
    assert(pat_canonical(l01)) by { reveal_with_fuel(pat_canonical, 2); reveal_with_fuel(all_atom, 8); }
    assert(print_pat(r13) =~= "(* ?a (* ?b ?c))"@);
    assert(pat_canonical(r13)) by { reveal_with_fuel(pat_canonical, 2); reveal_with_fuel(all_atom, 8); }
}

proof fn lemma_mul_assoc_inst(mt: Match)
    ensures
        inst(mul_assoc_lhs(), mt) is Some ==> inst(mul_assoc_lhs(), mt) == Some(times(times(hole_term(mt, seq!['?', 'a']), hole_term(mt, seq!['?', 'b'])), hole_term(mt, seq!['?', 'c']))),
        inst(mul_assoc_rhs(), mt) is Some ==> inst(mul_assoc_rhs(), mt) == Some(times(hole_term(mt, seq!['?', 'a']), times(hole_term(mt, seq!['?', 'b']), hole_term(mt, seq!['?', 'c'])))),
{
    let l00 = Pat::Node(OpModel::Mul, seq![hole(seq!['?', 'a']), hole(seq!['?', 'b'])]);
    let l01 = Pat::Node(OpModel::Mul, seq![l00, hole(seq!['?', 'c'])]);
    let r12 = Pat::Node(OpModel::Mul, seq![hole(seq!['?', 'b']), hole(seq!['?', 'c'])]);
    let r13 = Pat::Node(OpModel::Mul, seq![hole(seq!['?', 'a']), r12]);
    assert(inst(l00, mt) is Some ==> inst(l00, mt) == Some(times(hole_term(mt, seq!['?', 'a']), hole_term(mt, seq!['?', 'b'])))) by { reveal_with_fuel(inst, 4); }
    assert(inst(l01, mt) is Some ==> inst(l01, mt) == Some(times(times(hole_term(mt, seq!['?', 'a']), hole_term(mt, seq!['?', 'b'])), hole_term(mt, seq!['?', 'c'])))) by { reveal_with_fuel(inst, 4); }
    assert(inst(r12, mt) is Some ==> inst(r12, mt) == Some(times(hole_term(mt, seq!['?', 'b']), hole_term(mt, seq!['?', 'c'])))) by { reveal_with_fuel(inst, 4); }
    assert(inst(r13, mt) is Some ==> inst(r13, mt) == Some(times(hole_term(mt, seq!['?', 'a']), times(hole_term(mt, seq!['?', 'b']), hole_term(mt, seq!['?', 'c']))))) by { reveal_with_fuel(inst, 4); }
}

/// `mul-assoc`, either way.
proof fn lemma_keeps_mul_assoc(r: RuleModel, m: Interp)
    requires
        either_way(r, "(* (* ?a ?b) ?c)"@, "(* ?a (* ?b ?c))"@),
    ensures
        rule_keeps_value(r, m),
{
    lemma_mul_assoc_reads();
    assert forall|mt: Match|
        admits(r, mt, m) && (#[trigger] inst(mul_assoc_lhs(), mt)) is Some && inst(mul_assoc_rhs(), mt) is Some implies same_value(
        inst(mul_assoc_lhs(), mt)->0,
        inst(mul_assoc_rhs(), mt)->0,
        m,
    ) by {
        lemma_mul_assoc_inst(mt);
        lemma_mul_assoc(hole_term(mt, seq!['?', 'a']), hole_term(mt, seq!['?', 'b']), hole_term(mt, seq!['?', 'c']), m);
    }
    lemma_plain_keeps(r, mul_assoc_lhs(), mul_assoc_rhs(), m);
}

/// The pattern `(- ?a ?b)`.
pub open spec fn subtract_lhs() -> Pat {
    Pat::Node(OpModel::Min, seq![hole(seq!['?', 'a']), hole(seq!['?', 'b'])])
}

/// The pattern `(+ ?a (* -1 ?b))`.
pub open spec fn subtract_rhs() -> Pat {
    Pat::Node(OpModel::Add, seq![hole(seq!['?', 'a']), Pat::Node(OpModel::Mul, seq![leaf(OpModel::Num(-1i32)), hole(seq!['?', 'b'])])])
}

#[verifier::rlimit(100)]
#[verifier::spinoff_prover]
proof fn lemma_subtract_reads()
    ensures
        reads(subtract_lhs(), "(- ?a ?b)"@),
        reads(subtract_rhs(), "(+ ?a (* -1 ?b))"@),
{
    reveal_strlit("(- ?a ?b)");
    reveal_strlit("(+ ?a (* -1 ?b))");
    let l00 = Pat::Node(OpModel::Min, seq![hole(seq!['?', 'a']), hole(seq!['?', 'b'])]);
    let r11 = Pat::Node(OpModel::Mul, seq![leaf(OpModel::Num(-1i32)), hole(seq!['?', 'b'])]);
    let r12 = Pat::Node(OpModel::Add, seq![hole(seq!['?', 'a']), r11]);
    assert(print_pat(l00) =~= seq!['(', '-', ' ', '?', 'a', ' ', '?', 'b', ')']) by { reveal_with_fuel(print_pat, 4); }
    assert(pat_canonical(l00)) by { reveal_with_fuel(pat_canonical, 4); reveal_with_fuel(all_atom, 8); }
    assert(print_pat(r11) =~= seq!['(', '*', ' ', '-', '1', ' ', '?', 'b', ')']) by { reveal_with_fuel(print_pat, 4); }
    assert(pat_canonical(r11)) by { reveal_with_fuel(pat_canonical, 4); reveal_with_fuel(all_atom, 8); }
    assert(print_pat(r12) =~= seq!['(', '+', ' ', '?', 'a', ' ', '(', '*', ' ', '-', '1', ' ', '?', 'b', ')', ')']) by { reveal_with_fuel(print_pat, 4); }
    assert(pat_canonical(r12)) by { reveal_with_fuel(pat_canonical, 4); reveal_with_fuel(all_atom, 8); }
    assert(print_pat(l00) =~= "(- ?a ?b)"@);
    assert(pat_canonical(l00)) by { reveal_with_fuel(pat_canonical, 2); reveal_with_fuel(all_atom, 8); }
    assert(print_pat(r12) =~= "(+ ?a (* -1 ?b))"@);
    assert(pat_canonical(r12)) by { reveal_with_fuel(pat_canonical, 2); reveal_with_fuel(all_atom, 8); }
}

proof fn lemma_subtract_inst(mt: Match)
    ensures
        inst(subtract_lhs(), mt) is Some ==> inst(subtract_lhs(), mt) == Some(minus(hole_term(mt, seq!['?', 'a']), hole_term(mt, seq!['?', 'b']))),
        inst(subtract_rhs(), mt) is Some ==> inst(subtract_rhs(), mt) == Some(plus(hole_term(mt, seq!['?', 'a']), times(Term::Num(-1), hole_term(mt, seq!['?', 'b'])))),
{
    let l00 = Pat::Node(OpModel::Min, seq![hole(seq!['?', 'a']), hole(seq!['?', 'b'])]);
    let r11 = Pat::Node(OpModel::Mul, seq![leaf(OpModel::Num(-1i32)), hole(seq!['?', 'b'])]);
    let r12 = Pat::Node(OpModel::Add, seq![hole(seq!['?', 'a']), r11]);
    assert(inst(l00, mt) is Some ==> inst(l00, mt) == Some(minus(hole_term(mt, seq!['?', 'a']), hole_term(mt, seq!['?', 'b'])))) by { reveal_with_fuel(inst, 4); }
    assert(inst(r11, mt) is Some ==> inst(r11, mt) == Some(times(Term::Num(-1), hole_term(mt, seq!['?', 'b'])))) by { reveal_with_fuel(inst, 4); }
    assert(inst(r12, mt) is Some ==> inst(r12, mt) == Some(plus(hole_term(mt, seq!['?', 'a']), times(Term::Num(-1), hole_term(mt, seq!['?', 'b']))))) by { reveal_with_fuel(inst, 4); }
}

/// `subtract`, either way.
proof fn lemma_keeps_subtract(r: RuleModel, m: Interp)
    requires
        either_way(r, "(- ?a ?b)"@, "(+ ?a (* -1 ?b))"@),
    ensures
        rule_keeps_value(r, m),
{
    lemma_subtract_reads();
    assert forall|mt: Match|
        admits(r, mt, m) && (#[trigger] inst(subtract_lhs(), mt)) is Some && inst(subtract_rhs(), mt) is Some implies same_value(
        inst(subtract_lhs(), mt)->0,
        inst(subtract_rhs(), mt)->0,
        m,
    ) by {
        lemma_subtract_inst(mt);
        lemma_subtract(hole_term(mt, seq!['?', 'a']), hole_term(mt, seq!['?', 'b']), m);
    }
    lemma_plain_keeps(r, subtract_lhs(), subtract_rhs(), m);
}

/// The pattern `(= ?a ?b)`.
pub open spec fn eq_comm_lhs() -> Pat {
    Pat::Node(OpModel::Eq, seq![hole(seq!['?', 'a']), hole(seq!['?', 'b'])])
}

/// The pattern `(= ?b ?a)`.
pub open spec fn eq_comm_rhs() -> Pat {
    Pat::Node(OpModel::Eq, seq![hole(seq!['?', 'b']), hole(seq!['?', 'a'])])
}

#[verifier::rlimit(100)]
#[verifier::spinoff_prover]
proof fn lemma_eq_comm_reads()
    ensures
        reads(eq_comm_lhs(), "(= ?a ?b)"@),
        reads(eq_comm_rhs(), "(= ?b ?a)"@),
{
    reveal_strlit("(= ?a ?b)");
    reveal_strlit("(= ?b ?a)");
    let l00 = Pat::Node(OpModel::Eq, seq![hole(seq!['?', 'a']), hole(seq!['?', 'b'])]);
    let r11 = Pat::Node(OpModel::Eq, seq![hole(seq!['?', 'b']), hole(seq!['?', 'a'])]);
    assert(print_pat(l00) =~= seq!['(', '=', ' ', '?', 'a', ' ', '?', 'b', ')']) by { reveal_with_fuel(print_pat, 4); }
    assert(pat_canonical(l00)) by { reveal_with_fuel(pat_canonical, 4); reveal_with_fuel(all_atom, 8); }
    assert(print_pat(r11) =~= seq!['(', '=', ' ', '?', 'b', ' ', '?', 'a', ')']) by { reveal_with_fuel(print_pat, 4); }
    assert(pat_canonical(r11)) by { reveal_with_fuel(pat_canonical, 4); reveal_with_fuel(all_atom, 8); }
    assert(print_pat(l00) =~= "(= ?a ?b)"@);
    assert(pat_canonical(l00)) by { reveal_with_fuel(pat_canonical, 2); reveal_with_fuel(all_atom, 8); }
    assert(print_pat(r11) =~= "(= ?b ?a)"@);
    assert(pat_canonical(r11)) by { reveal_with_fuel(pat_canonical, 2); reveal_with_fuel(all_atom, 8); }
}

proof fn lemma_eq_comm_inst(mt: Match)
    ensures
        inst(eq_comm_lhs(), mt) is Some ==> inst(eq_comm_lhs(), mt) == Some(equal(hole_term(mt, seq!['?', 'a']), hole_term(mt, seq!['?', 'b']))),
        inst(eq_comm_rhs(), mt) is Some ==> inst(eq_comm_rhs(), mt) == Some(equal(hole_term(mt, seq!['?', 'b']), hole_term(mt, seq!['?', 'a']))),
{
    let l00 = Pat::Node(OpModel::Eq, seq![hole(seq!['?', 'a']), hole(seq!['?', 'b'])]);
    let r11 = Pat::Node(OpModel::Eq, seq![hole(seq!['?', 'b']), hole(seq!['?', 'a'])]);
    assert(inst(l00, mt) is Some ==> inst(l00, mt) == Some(equal(hole_term(mt, seq!['?', 'a']), hole_term(mt, seq!['?', 'b'])))) by { reveal_with_fuel(inst, 4); }
    assert(inst(r11, mt) is Some ==> inst(r11, mt) == Some(equal(hole_term(mt, seq!['?', 'b']), hole_term(mt, seq!['?', 'a'])))) by { reveal_with_fuel(inst, 4); }
}

/// `eq-comm`, either way.
proof fn lemma_keeps_eq_comm(r: RuleModel, m: Interp)
    requires
        either_way(r, "(= ?a ?b)"@, "(= ?b ?a)"@),
    ensures
        rule_keeps_value(r, m),
{
    lemma_eq_comm_reads();
    assert forall|mt: Match|
        admits(r, mt, m) && (#[trigger] inst(eq_comm_lhs(), mt)) is Some && inst(eq_comm_rhs(), mt) is Some implies same_value(
        inst(eq_comm_lhs(), mt)->0,
        inst(eq_comm_rhs(), mt)->0,
        m,
    ) by {
        lemma_eq_comm_inst(mt);
        lemma_eq_comm(hole_term(mt, seq!['?', 'a']), hole_term(mt, seq!['?', 'b']), m);
    }
    lemma_plain_keeps(r, eq_comm_lhs(), eq_comm_rhs(), m);
}

/// The pattern `(* (+ ?a ?b) ?c)`.
pub open spec fn add_mul_dist_lhs() -> Pat {
    Pat::Node(OpModel::Mul, seq![Pat::Node(OpModel::Add, seq![hole(seq!['?', 'a']), hole(seq!['?', 'b'])]), hole(seq!['?', 'c'])])
}

/// The pattern `(+ (* ?a ?c) (* ?b ?c))`.
pub open spec fn add_mul_dist_rhs() -> Pat {
    Pat::Node(OpModel::Add, seq![Pat::Node(OpModel::Mul, seq![hole(seq!['?', 'a']), hole(seq!['?', 'c'])]), Pat::Node(OpModel::Mul, seq![hole(seq!['?', 'b']), hole(seq!['?', 'c'])])])
}

#[verifier::rlimit(100)]
#[verifier::spinoff_prover]
proof fn lemma_add_mul_dist_reads()
    ensures
        reads(add_mul_dist_lhs(), "(* (+ ?a ?b) ?c)"@),
        reads(add_mul_dist_rhs(), "(+ (* ?a ?c) (* ?b ?c))"@),
{
    reveal_strlit("(* (+ ?a ?b) ?c)");
    reveal_strlit("(+ (* ?a ?c) (* ?b ?c))");
    let l00 = Pat::Node(OpModel::Add, seq![hole(seq!['?', 'a']), hole(seq!['?', 'b'])]);
    let l01 = Pat::Node(OpModel::Mul, seq![l00, hole(seq!['?', 'c'])]);
    let r12 = Pat::Node(OpModel::Mul, seq![hole(seq!['?', 'a']), hole(seq!['?', 'c'])]);
    let r13 = Pat::Node(OpModel::Mul, seq![hole(seq!['?', 'b']), hole(seq!['?', 'c'])]);
    let r14 = Pat::Node(OpModel::Add, seq![r12, r13]);
    assert(print_pat(l00) =~= seq!['(', '+', ' ', '?', 'a', ' ', '?', 'b', ')']) by { reveal_with_fuel(print_pat, 4); }
    assert(pat_canonical(l00)) by { reveal_with_fuel(pat_canonical, 4); reveal_with_fuel(all_atom, 8); }
    assert(print_pat(l01) =~= seq!['(', '*', ' ', '(', '+', ' ', '?', 'a', ' ', '?', 'b', ')', ' ', '?', 'c', ')']) by { reveal_with_fuel(print_pat, 4); }
    assert(pat_canonical(l01)) by { reveal_with_fuel(pat_canonical, 4); reveal_with_fuel(all_atom, 8); }
    assert(print_pat(r12) =~= seq!['(', '*', ' ', '?', 'a', ' ', '?', 'c', ')']) by { reveal_with_fuel(print_pat, 4); }
    assert(pat_canonical(r12)) by { reveal_with_fuel(pat_canonical, 4); reveal_with_fuel(all_atom, 8); }
    assert(print_pat(r13) =~= seq!['(', '*', ' ', '?', 'b', ' ', '?', 'c', ')']) by { reveal_with_fuel(print_pat, 4); }
    assert(pat_canonical(r13)) by { reveal_with_fuel(pat_canonical, 4); reveal_with_fuel(all_atom, 8); }
    assert(print_pat(r14) =~= seq!['(', '+', ' ', '(', '*', ' ', '?', 'a', ' ', '?', 'c', ')', ' ', '(', '*', ' ', '?', 'b', ' ', '?', 'c', ')', ')']) by { reveal_with_fuel(print_pat, 4); }
    assert(pat_canonical(r14)) by { reveal_with_fuel(pat_canonical, 4); reveal_with_fuel(all_atom, 8); }
    assert(print_pat(l01) =~= "(* (+ ?a ?b) ?c)"@);
    assert(pat_canonical(l01)) by { reveal_with_fuel(pat_canonical, 2); reveal_with_fuel(all_atom, 8); }
    assert(print_pat(r14) =~= "(+ (* ?a ?c) (* ?b ?c))"@);
    assert(pat_canonical(r14)) by { reveal_with_fuel(pat_canonical, 2); reveal_with_fuel(all_atom, 8); }
}

proof fn lemma_add_mul_dist_inst(mt: Match)
    ensures
        inst(add_mul_dist_lhs(), mt) is Some ==> inst(add_mul_dist_lhs(), mt) == Some(times(plus(hole_term(mt, seq!['?', 'a']), hole_term(mt, seq!['?', 'b'])), hole_term(mt, seq!['?', 'c']))),
        inst(add_mul_dist_rhs(), mt) is Some ==> inst(add_mul_dist_rhs(), mt) == Some(plus(times(hole_term(mt, seq!['?', 'a']), hole_term(mt, seq!['?', 'c'])), times(hole_term(mt, seq!['?', 'b']), hole_term(mt, seq!['?', 'c'])))),
{
    let l00 = Pat::Node(OpModel::Add, seq![hole(seq!['?', 'a']), hole(seq!['?', 'b'])]);
    let l01 = Pat::Node(OpModel::Mul, seq![l00, hole(seq!['?', 'c'])]);
    let r12 = Pat::Node(OpModel::Mul, seq![hole(seq!['?', 'a']), hole(seq!['?', 'c'])]);
    let r13 = Pat::Node(OpModel::Mul, seq![hole(seq!['?', 'b']), hole(seq!['?', 'c'])]);
    let r14 = Pat::Node(OpModel::Add, seq![r12, r13]);
    assert(inst(l00, mt) is Some ==> inst(l00, mt) == Some(plus(hole_term(mt, seq!['?', 'a']), hole_term(mt, seq!['?', 'b'])))) by { reveal_with_fuel(inst, 4); }
    assert(inst(l01, mt) is Some ==> inst(l01, mt) == Some(times(plus(hole_term(mt, seq!['?', 'a']), hole_term(mt, seq!['?', 'b'])), hole_term(mt, seq!['?', 'c'])))) by { reveal_with_fuel(inst, 4); }
    assert(inst(r12, mt) is Some ==> inst(r12, mt) == Some(times(hole_term(mt, seq!['?', 'a']), hole_term(mt, seq!['?', 'c'])))) by { reveal_with_fuel(inst, 4); }
    assert(inst(r13, mt) is Some ==> inst(r13, mt) == Some(times(hole_term(mt, seq!['?', 'b']), hole_term(mt, seq!['?', 'c'])))) by { reveal_with_fuel(inst, 4); }
    assert(inst(r14, mt) is Some ==> inst(r14, mt) == Some(plus(times(hole_term(mt, seq!['?', 'a']), hole_term(mt, seq!['?', 'c'])), times(hole_term(mt, seq!['?', 'b']), hole_term(mt, seq!['?', 'c']))))) by { reveal_with_fuel(inst, 4); }
}

/// `add-mul-dist`, either way.
proof fn lemma_keeps_add_mul_dist(r: RuleModel, m: Interp)
    requires
        either_way(r, "(* (+ ?a ?b) ?c)"@, "(+ (* ?a ?c) (* ?b ?c))"@),
    ensures
        rule_keeps_value(r, m),
{
    lemma_add_mul_dist_reads();
    assert forall|mt: Match|
        admits(r, mt, m) && (#[trigger] inst(add_mul_dist_lhs(), mt)) is Some && inst(add_mul_dist_rhs(), mt) is Some implies same_value(
        inst(add_mul_dist_lhs(), mt)->0,
        inst(add_mul_dist_rhs(), mt)->0,
        m,
    ) by {
        lemma_add_mul_dist_inst(mt);
        lemma_add_mul_dist(hole_term(mt, seq!['?', 'a']), hole_term(mt, seq!['?', 'b']), hole_term(mt, seq!['?', 'c']), m);
    }
    lemma_plain_keeps(r, add_mul_dist_lhs(), add_mul_dist_rhs(), m);
}

/// The pattern `(sum ?x (+ ?a ?b))`.
pub open spec fn add_sum_dist_lhs() -> Pat {
    Pat::Node(OpModel::Sum, seq![hole(seq!['?', 'x']), Pat::Node(OpModel::Add, seq![hole(seq!['?', 'a']), hole(seq!['?', 'b'])])])
}

/// The pattern `(+ (sum ?x ?a) (sum ?x ?b))`.
pub open spec fn add_sum_dist_rhs() -> Pat {
    Pat::Node(OpModel::Add, seq![Pat::Node(OpModel::Sum, seq![hole(seq!['?', 'x']), hole(seq!['?', 'a'])]), Pat::Node(OpModel::Sum, seq![hole(seq!['?', 'x']), hole(seq!['?', 'b'])])])
}

#[verifier::rlimit(100)]
#[verifier::spinoff_prover]
proof fn lemma_add_sum_dist_reads()
    ensures
        reads(add_sum_dist_lhs(), "(sum ?x (+ ?a ?b))"@),
        reads(add_sum_dist_rhs(), "(+ (sum ?x ?a) (sum ?x ?b))"@),
{
    reveal_strlit("(sum ?x (+ ?a ?b))");
    reveal_strlit("(+ (sum ?x ?a) (sum ?x ?b))");
    let l00 = Pat::Node(OpModel::Add, seq![hole(seq!['?', 'a']), hole(seq!['?', 'b'])]);
    let l01 = Pat::Node(OpModel::Sum, seq![hole(seq!['?', 'x']), l00]);
    let r12 = Pat::Node(OpModel::Sum, seq![hole(seq!['?', 'x']), hole(seq!['?', 'a'])]);
    let r13 = Pat::Node(OpModel::Sum, seq![hole(seq!['?', 'x']), hole(seq!['?', 'b'])]);
    let r14 = Pat::Node(OpModel::Add, seq![r12, r13]);
    assert(print_pat(l00) =~= seq!['(', '+', ' ', '?', 'a', ' ', '?', 'b', ')']) by { reveal_with_fuel(print_pat, 4); }
    assert(pat_canonical(l00)) by { reveal_with_fuel(pat_canonical, 4); reveal_with_fuel(all_atom, 8); }
    assert(print_pat(l01) =~= seq!['(', 's', 'u', 'm', ' ', '?', 'x', ' ', '(', '+', ' ', '?', 'a', ' ', '?', 'b', ')', ')']) by { reveal_with_fuel(print_pat, 4); }
    assert(pat_canonical(l01)) by { reveal_with_fuel(pat_canonical, 4); reveal_with_fuel(all_atom, 8); }
    assert(print_pat(r12) =~= seq!['(', 's', 'u', 'm', ' ', '?', 'x', ' ', '?', 'a', ')']) by { reveal_with_fuel(print_pat, 4); }
    assert(pat_canonical(r12)) by { reveal_with_fuel(pat_canonical, 4); reveal_with_fuel(all_atom, 8); }
    assert(print_pat(r13) =~= seq!['(', 's', 'u', 'm', ' ', '?', 'x', ' ', '?', 'b', ')']) by { reveal_with_fuel(print_pat, 4); }
    assert(pat_canonical(r13)) by { reveal_with_fuel(pat_canonical, 4); reveal_with_fuel(all_atom, 8); }
    assert(print_pat(r14) =~= seq!['(', '+', ' ', '(', 's', 'u', 'm', ' ', '?', 'x', ' ', '?', 'a', ')', ' ', '(', 's', 'u', 'm', ' ', '?', 'x', ' ', '?', 'b', ')', ')']) by { reveal_with_fuel(print_pat, 4); }
    assert(pat_canonical(r14)) by { reveal_with_fuel(pat_canonical, 4); reveal_with_fuel(all_atom, 8); }
    assert(print_pat(l01) =~= "(sum ?x (+ ?a ?b))"@);
    assert(pat_canonical(l01)) by { reveal_with_fuel(pat_canonical, 2); reveal_with_fuel(all_atom, 8); }
    assert(print_pat(r14) =~= "(+ (sum ?x ?a) (sum ?x ?b))"@);
    assert(pat_canonical(r14)) by { reveal_with_fuel(pat_canonical, 2); reveal_with_fuel(all_atom, 8); }
}

proof fn lemma_add_sum_dist_inst(mt: Match)
    ensures
        inst(add_sum_dist_lhs(), mt) is Some ==> inst(add_sum_dist_lhs(), mt) == Some(sigma(hole_term(mt, seq!['?', 'x'])->Var_0, plus(hole_term(mt, seq!['?', 'a']), hole_term(mt, seq!['?', 'b'])))),
        inst(add_sum_dist_rhs(), mt) is Some ==> inst(add_sum_dist_rhs(), mt) == Some(plus(sigma(hole_term(mt, seq!['?', 'x'])->Var_0, hole_term(mt, seq!['?', 'a'])), sigma(hole_term(mt, seq!['?', 'x'])->Var_0, hole_term(mt, seq!['?', 'b'])))),
        inst(add_sum_dist_lhs(), mt) is Some ==> hole_term(mt, seq!['?', 'x']) is Var,
        inst(add_sum_dist_rhs(), mt) is Some ==> hole_term(mt, seq!['?', 'x']) is Var,
{
    let l00 = Pat::Node(OpModel::Add, seq![hole(seq!['?', 'a']), hole(seq!['?', 'b'])]);
    let l01 = Pat::Node(OpModel::Sum, seq![hole(seq!['?', 'x']), l00]);
    let r12 = Pat::Node(OpModel::Sum, seq![hole(seq!['?', 'x']), hole(seq!['?', 'a'])]);
    let r13 = Pat::Node(OpModel::Sum, seq![hole(seq!['?', 'x']), hole(seq!['?', 'b'])]);
    let r14 = Pat::Node(OpModel::Add, seq![r12, r13]);
    assert(inst(l00, mt) is Some ==> inst(l00, mt) == Some(plus(hole_term(mt, seq!['?', 'a']), hole_term(mt, seq!['?', 'b'])))) by { reveal_with_fuel(inst, 4); }
    assert(inst(l01, mt) is Some ==> inst(l01, mt) == Some(sigma(hole_term(mt, seq!['?', 'x'])->Var_0, plus(hole_term(mt, seq!['?', 'a']), hole_term(mt, seq!['?', 'b']))))) by { reveal_with_fuel(inst, 4); }
    assert(inst(l01, mt) is Some ==> hole_term(mt, seq!['?', 'x']) is Var) by { reveal_with_fuel(inst, 4); }
    assert(inst(r12, mt) is Some ==> inst(r12, mt) == Some(sigma(hole_term(mt, seq!['?', 'x'])->Var_0, hole_term(mt, seq!['?', 'a'])))) by { reveal_with_fuel(inst, 4); }
    assert(inst(r12, mt) is Some ==> hole_term(mt, seq!['?', 'x']) is Var) by { reveal_with_fuel(inst, 4); }
    assert(inst(r13, mt) is Some ==> inst(r13, mt) == Some(sigma(hole_term(mt, seq!['?', 'x'])->Var_0, hole_term(mt, seq!['?', 'b'])))) by { reveal_with_fuel(inst, 4); }
    assert(inst(r13, mt) is Some ==> hole_term(mt, seq!['?', 'x']) is Var) by { reveal_with_fuel(inst, 4); }
    assert(inst(r14, mt) is Some ==> inst(r14, mt) == Some(plus(sigma(hole_term(mt, seq!['?', 'x'])->Var_0, hole_term(mt, seq!['?', 'a'])), sigma(hole_term(mt, seq!['?', 'x'])->Var_0, hole_term(mt, seq!['?', 'b']))))) by { reveal_with_fuel(inst, 4); }
    assert(inst(r14, mt) is Some ==> hole_term(mt, seq!['?', 'x']) is Var) by { reveal_with_fuel(inst, 4); }
}

/// `add-sum-dist`, either way.
proof fn lemma_keeps_add_sum_dist(r: RuleModel, m: Interp)
    requires
        either_way(r, "(sum ?x (+ ?a ?b))"@, "(+ (sum ?x ?a) (sum ?x ?b))"@),
    ensures
        rule_keeps_value(r, m),
{
    lemma_add_sum_dist_reads();
    assert forall|mt: Match|
        admits(r, mt, m) && (#[trigger] inst(add_sum_dist_lhs(), mt)) is Some && inst(add_sum_dist_rhs(), mt) is Some implies same_value(
        inst(add_sum_dist_lhs(), mt)->0,
        inst(add_sum_dist_rhs(), mt)->0,
        m,
    ) by {
        lemma_add_sum_dist_inst(mt);
        lemma_add_sum_dist(hole_term(mt, seq!['?', 'x'])->Var_0, hole_term(mt, seq!['?', 'a']), hole_term(mt, seq!['?', 'b']), m);
    }
    lemma_plain_keeps(r, add_sum_dist_lhs(), add_sum_dist_rhs(), m);
}

/// The pattern `(sum ?i (+ ?a ?b))`.
pub open spec fn pushdown_sum_add_lhs() -> Pat {
    Pat::Node(OpModel::Sum, seq![hole(seq!['?', 'i']), Pat::Node(OpModel::Add, seq![hole(seq!['?', 'a']), hole(seq!['?', 'b'])])])
}

/// The pattern `(+ (sum ?i ?a) (sum ?i ?b))`.
pub open spec fn pushdown_sum_add_rhs() -> Pat {
    Pat::Node(OpModel::Add, seq![Pat::Node(OpModel::Sum, seq![hole(seq!['?', 'i']), hole(seq!['?', 'a'])]), Pat::Node(OpModel::Sum, seq![hole(seq!['?', 'i']), hole(seq!['?', 'b'])])])
}

#[verifier::rlimit(100)]
#[verifier::spinoff_prover]
proof fn lemma_pushdown_sum_add_reads()
    ensures
        reads(pushdown_sum_add_lhs(), "(sum ?i (+ ?a ?b))"@),
        reads(pushdown_sum_add_rhs(), "(+ (sum ?i ?a) (sum ?i ?b))"@),
{
    reveal_strlit("(sum ?i (+ ?a ?b))");
    reveal_strlit("(+ (sum ?i ?a) (sum ?i ?b))");
    let l00 = Pat::Node(OpModel::Add, seq![hole(seq!['?', 'a']), hole(seq!['?', 'b'])]);
    let l01 = Pat::Node(OpModel::Sum, seq![hole(seq!['?', 'i']), l00]);
    let r12 = Pat::Node(OpModel::Sum, seq![hole(seq!['?', 'i']), hole(seq!['?', 'a'])]);
    let r13 = Pat::Node(OpModel::Sum, seq![hole(seq!['?', 'i']), hole(seq!['?', 'b'])]);
    let r14 = Pat::Node(OpModel::Add, seq![r12, r13]);
    assert(print_pat(l00) =~= seq!['(', '+', ' ', '?', 'a', ' ', '?', 'b', ')']) by { reveal_with_fuel(print_pat, 4); }
    assert(pat_canonical(l00)) by { reveal_with_fuel(pat_canonical, 4); reveal_with_fuel(all_atom, 8); }
    assert(print_pat(l01) =~= seq!['(', 's', 'u', 'm', ' ', '?', 'i', ' ', '(', '+', ' ', '?', 'a', ' ', '?', 'b', ')', ')']) by { reveal_with_fuel(print_pat, 4); }
    assert(pat_canonical(l01)) by { reveal_with_fuel(pat_canonical, 4); reveal_with_fuel(all_atom, 8); }
    assert(print_pat(r12) =~= seq!['(', 's', 'u', 'm', ' ', '?', 'i', ' ', '?', 'a', ')']) by { reveal_with_fuel(print_pat, 4); }
    assert(pat_canonical(r12)) by { reveal_with_fuel(pat_canonical, 4); reveal_with_fuel(all_atom, 8); }
    assert(print_pat(r13) =~= seq!['(', 's', 'u', 'm', ' ', '?', 'i', ' ', '?', 'b', ')']) by { reveal_with_fuel(print_pat, 4); }
    assert(pat_canonical(r13)) by { reveal_with_fuel(pat_canonical, 4); reveal_with_fuel(all_atom, 8); }
    assert(print_pat(r14) =~= seq!['(', '+', ' ', '(', 's', 'u', 'm', ' ', '?', 'i', ' ', '?', 'a', ')', ' ', '(', 's', 'u', 'm', ' ', '?', 'i', ' ', '?', 'b', ')', ')']) by { reveal_with_fuel(print_pat, 4); }
    assert(pat_canonical(r14)) by { reveal_with_fuel(pat_canonical, 4); reveal_with_fuel(all_atom, 8); }
    assert(print_pat(l01) =~= "(sum ?i (+ ?a ?b))"@);
    assert(pat_canonical(l01)) by { reveal_with_fuel(pat_canonical, 2); reveal_with_fuel(all_atom, 8); }
    assert(print_pat(r14) =~= "(+ (sum ?i ?a) (sum ?i ?b))"@);
    assert(pat_canonical(r14)) by { reveal_with_fuel(pat_canonical, 2); reveal_with_fuel(all_atom, 8); }
}

proof fn lemma_pushdown_sum_add_inst(mt: Match)
    ensures
        inst(pushdown_sum_add_lhs(), mt) is Some ==> inst(pushdown_sum_add_lhs(), mt) == Some(sigma(hole_term(mt, seq!['?', 'i'])->Var_0, plus(hole_term(mt, seq!['?', 'a']), hole_term(mt, seq!['?', 'b'])))),
        inst(pushdown_sum_add_rhs(), mt) is Some ==> inst(pushdown_sum_add_rhs(), mt) == Some(plus(sigma(hole_term(mt, seq!['?', 'i'])->Var_0, hole_term(mt, seq!['?', 'a'])), sigma(hole_term(mt, seq!['?', 'i'])->Var_0, hole_term(mt, seq!['?', 'b'])))),
        inst(pushdown_sum_add_lhs(), mt) is Some ==> hole_term(mt, seq!['?', 'i']) is Var,
        inst(pushdown_sum_add_rhs(), mt) is Some ==> hole_term(mt, seq!['?', 'i']) is Var,
{
    let l00 = Pat::Node(OpModel::Add, seq![hole(seq!['?', 'a']), hole(seq!['?', 'b'])]);
    let l01 = Pat::Node(OpModel::Sum, seq![hole(seq!['?', 'i']), l00]);
    let r12 = Pat::Node(OpModel::Sum, seq![hole(seq!['?', 'i']), hole(seq!['?', 'a'])]);
    let r13 = Pat::Node(OpModel::Sum, seq![hole(seq!['?', 'i']), hole(seq!['?', 'b'])]);
    let r14 = Pat::Node(OpModel::Add, seq![r12, r13]);
    assert(inst(l00, mt) is Some ==> inst(l00, mt) == Some(plus(hole_term(mt, seq!['?', 'a']), hole_term(mt, seq!['?', 'b'])))) by { reveal_with_fuel(inst, 4); }
    assert(inst(l01, mt) is Some ==> inst(l01, mt) == Some(sigma(hole_term(mt, seq!['?', 'i'])->Var_0, plus(hole_term(mt, seq!['?', 'a']), hole_term(mt, seq!['?', 'b']))))) by { reveal_with_fuel(inst, 4); }
    assert(inst(l01, mt) is Some ==> hole_term(mt, seq!['?', 'i']) is Var) by { reveal_with_fuel(inst, 4); }
    assert(inst(r12, mt) is Some ==> inst(r12, mt) == Some(sigma(hole_term(mt, seq!['?', 'i'])->Var_0, hole_term(mt, seq!['?', 'a'])))) by { reveal_with_fuel(inst, 4); }
    assert(inst(r12, mt) is Some ==> hole_term(mt, seq!['?', 'i']) is Var) by { reveal_with_fuel(inst, 4); }
    assert(inst(r13, mt) is Some ==> inst(r13, mt) == Some(sigma(hole_term(mt, seq!['?', 'i'])->Var_0, hole_term(mt, seq!['?', 'b'])))) by { reveal_with_fuel(inst, 4); }
    assert(inst(r13, mt) is Some ==> hole_term(mt, seq!['?', 'i']) is Var) by { reveal_with_fuel(inst, 4); }
    assert(inst(r14, mt) is Some ==> inst(r14, mt) == Some(plus(sigma(hole_term(mt, seq!['?', 'i'])->Var_0, hole_term(mt, seq!['?', 'a'])), sigma(hole_term(mt, seq!['?', 'i'])->Var_0, hole_term(mt, seq!['?', 'b']))))) by { reveal_with_fuel(inst, 4); }
    assert(inst(r14, mt) is Some ==> hole_term(mt, seq!['?', 'i']) is Var) by { reveal_with_fuel(inst, 4); }
}

/// `pushdown-sum-add`.
proof fn lemma_keeps_pushdown_sum_add(r: RuleModel, m: Interp)
    requires
        either_way(r, "(sum ?i (+ ?a ?b))"@, "(+ (sum ?i ?a) (sum ?i ?b))"@),
    ensures
        rule_keeps_value(r, m),
{
    lemma_pushdown_sum_add_reads();
    assert forall|mt: Match|
        admits(r, mt, m) && (#[trigger] inst(pushdown_sum_add_lhs(), mt)) is Some && inst(pushdown_sum_add_rhs(), mt) is Some implies same_value(
        inst(pushdown_sum_add_lhs(), mt)->0,
        inst(pushdown_sum_add_rhs(), mt)->0,
        m,
    ) by {
        lemma_pushdown_sum_add_inst(mt);
        lemma_add_sum_dist(hole_term(mt, seq!['?', 'i'])->Var_0, hole_term(mt, seq!['?', 'a']), hole_term(mt, seq!['?', 'b']), m);
    }
    lemma_plain_keeps(r, pushdown_sum_add_lhs(), pushdown_sum_add_rhs(), m);
}

/// The pattern `(* ?b (sum ?x ?a))`.
pub open spec fn pushdown_sum_bound_lhs() -> Pat {
    Pat::Node(OpModel::Mul, seq![hole(seq!['?', 'b']), Pat::Node(OpModel::Sum, seq![hole(seq!['?', 'x']), hole(seq!['?', 'a'])])])
}

/// The pattern `(sum ?x (* ?b ?a))`.
pub open spec fn pushdown_sum_bound_rhs() -> Pat {
    Pat::Node(OpModel::Sum, seq![hole(seq!['?', 'x']), Pat::Node(OpModel::Mul, seq![hole(seq!['?', 'b']), hole(seq!['?', 'a'])])])
}

#[verifier::rlimit(100)]
#[verifier::spinoff_prover]
proof fn lemma_pushdown_sum_bound_reads()
    ensures
        reads(pushdown_sum_bound_lhs(), "(* ?b (sum ?x ?a))"@),
        reads(pushdown_sum_bound_rhs(), "(sum ?x (* ?b ?a))"@),
{
    reveal_strlit("(* ?b (sum ?x ?a))");
    reveal_strlit("(sum ?x (* ?b ?a))");
    let l00 = Pat::Node(OpModel::Sum, seq![hole(seq!['?', 'x']), hole(seq!['?', 'a'])]);
    let l01 = Pat::Node(OpModel::Mul, seq![hole(seq!['?', 'b']), l00]);
    let r12 = Pat::Node(OpModel::Mul, seq![hole(seq!['?', 'b']), hole(seq!['?', 'a'])]);
    let r13 = Pat::Node(OpModel::Sum, seq![hole(seq!['?', 'x']), r12]);
    assert(print_pat(l00) =~= seq!['(', 's', 'u', 'm', ' ', '?', 'x', ' ', '?', 'a', ')']) by { reveal_with_fuel(print_pat, 4); }
    assert(pat_canonical(l00)) by { reveal_with_fuel(pat_canonical, 4); reveal_with_fuel(all_atom, 8); }
    assert(print_pat(l01) =~= seq!['(', '*', ' ', '?', 'b', ' ', '(', 's', 'u', 'm', ' ', '?', 'x', ' ', '?', 'a', ')', ')']) by { reveal_with_fuel(print_pat, 4); }
    assert(pat_canonical(l01)) by { reveal_with_fuel(pat_canonical, 4); reveal_with_fuel(all_atom, 8); }
    assert(print_pat(r12) =~= seq!['(', '*', ' ', '?', 'b', ' ', '?', 'a', ')']) by { reveal_with_fuel(print_pat, 4); }
    assert(pat_canonical(r12)) by { reveal_with_fuel(pat_canonical, 4); reveal_with_fuel(all_atom, 8); }
    assert(print_pat(r13) =~= seq!['(', 's', 'u', 'm', ' ', '?', 'x', ' ', '(', '*', ' ', '?', 'b', ' ', '?', 'a', ')', ')']) by { reveal_with_fuel(print_pat, 4); }
    assert(pat_canonical(r13)) by { reveal_with_fuel(pat_canonical, 4); reveal_with_fuel(all_atom, 8); }
    assert(print_pat(l01) =~= "(* ?b (sum ?x ?a))"@);
    assert(pat_canonical(l01)) by { reveal_with_fuel(pat_canonical, 2); reveal_with_fuel(all_atom, 8); }
    assert(print_pat(r13) =~= "(sum ?x (* ?b ?a))"@);
    assert(pat_canonical(r13)) by { reveal_with_fuel(pat_canonical, 2); reveal_with_fuel(all_atom, 8); }
}

proof fn lemma_pushdown_sum_bound_inst(mt: Match)
    ensures
        inst(pushdown_sum_bound_lhs(), mt) is Some ==> inst(pushdown_sum_bound_lhs(), mt) == Some(times(hole_term(mt, seq!['?', 'b']), sigma(hole_term(mt, seq!['?', 'x'])->Var_0, hole_term(mt, seq!['?', 'a'])))),
        inst(pushdown_sum_bound_rhs(), mt) is Some ==> inst(pushdown_sum_bound_rhs(), mt) == Some(sigma(hole_term(mt, seq!['?', 'x'])->Var_0, times(hole_term(mt, seq!['?', 'b']), hole_term(mt, seq!['?', 'a'])))),
        inst(pushdown_sum_bound_lhs(), mt) is Some ==> hole_term(mt, seq!['?', 'x']) is Var,
        inst(pushdown_sum_bound_rhs(), mt) is Some ==> hole_term(mt, seq!['?', 'x']) is Var,
{
    let l00 = Pat::Node(OpModel::Sum, seq![hole(seq!['?', 'x']), hole(seq!['?', 'a'])]);
    let l01 = Pat::Node(OpModel::Mul, seq![hole(seq!['?', 'b']), l00]);
    let r12 = Pat::Node(OpModel::Mul, seq![hole(seq!['?', 'b']), hole(seq!['?', 'a'])]);
    let r13 = Pat::Node(OpModel::Sum, seq![hole(seq!['?', 'x']), r12]);
    assert(inst(l00, mt) is Some ==> inst(l00, mt) == Some(sigma(hole_term(mt, seq!['?', 'x'])->Var_0, hole_term(mt, seq!['?', 'a'])))) by { reveal_with_fuel(inst, 4); }
    assert(inst(l00, mt) is Some ==> hole_term(mt, seq!['?', 'x']) is Var) by { reveal_with_fuel(inst, 4); }
    assert(inst(l01, mt) is Some ==> inst(l01, mt) == Some(times(hole_term(mt, seq!['?', 'b']), sigma(hole_term(mt, seq!['?', 'x'])->Var_0, hole_term(mt, seq!['?', 'a']))))) by { reveal_with_fuel(inst, 4); }
    assert(inst(l01, mt) is Some ==> hole_term(mt, seq!['?', 'x']) is Var) by { reveal_with_fuel(inst, 4); }
    assert(inst(r12, mt) is Some ==> inst(r12, mt) == Some(times(hole_term(mt, seq!['?', 'b']), hole_term(mt, seq!['?', 'a'])))) by { reveal_with_fuel(inst, 4); }
    assert(inst(r13, mt) is Some ==> inst(r13, mt) == Some(sigma(hole_term(mt, seq!['?', 'x'])->Var_0, times(hole_term(mt, seq!['?', 'b']), hole_term(mt, seq!['?', 'a']))))) by { reveal_with_fuel(inst, 4); }
    assert(inst(r13, mt) is Some ==> hole_term(mt, seq!['?', 'x']) is Var) by { reveal_with_fuel(inst, 4); }
}

/// `pushdown-sum-bound`, either way, where the summed variable is not free in `?b`.
proof fn lemma_keeps_pushdown_sum_bound(r: RuleModel, m: Interp)
    requires
        either_way(r, "(* ?b (sum ?x ?a))"@, "(sum ?x (* ?b ?a))"@),
        r.guard == Some(GuardModel::NotFree("?x"@, "?b"@)),
    ensures
        rule_keeps_value(r, m),
{
    lemma_pushdown_sum_bound_reads();
    reveal_strlit("?x");
    assert("?x"@ =~= seq!['?', 'x']);
    reveal_strlit("?b");
    assert("?b"@ =~= seq!['?', 'b']);
    assert forall|mt: Match|
        admits(r, mt, m) && (#[trigger] inst(pushdown_sum_bound_lhs(), mt)) is Some && inst(pushdown_sum_bound_rhs(), mt) is Some implies same_value(
        inst(pushdown_sum_bound_lhs(), mt)->0,
        inst(pushdown_sum_bound_rhs(), mt)->0,
        m,
    ) by {
        lemma_pushdown_sum_bound_inst(mt);
        let s = choose|s: Set<u32>| depends_only_on(hole_term(mt, seq!['?', 'b']), s, m) && !s.contains(hole_term(mt, seq!['?', 'x'])->Var_0);
        lemma_pushdown_sum_bound(hole_term(mt, seq!['?', 'x'])->Var_0, hole_term(mt, seq!['?', 'b']), hole_term(mt, seq!['?', 'a']), s, m);
    }
    lemma_plain_keeps(r, pushdown_sum_bound_lhs(), pushdown_sum_bound_rhs(), m);
}

/// The pattern `(* ?a (+ ?b ?c))`.
pub open spec fn pushdown_mul_lhs() -> Pat {
    Pat::Node(OpModel::Mul, seq![hole(seq!['?', 'a']), Pat::Node(OpModel::Add, seq![hole(seq!['?', 'b']), hole(seq!['?', 'c'])])])
}

/// The pattern `(+ (* ?a ?b) (* ?a ?c))`.
pub open spec fn pushdown_mul_rhs() -> Pat {
    Pat::Node(OpModel::Add, seq![Pat::Node(OpModel::Mul, seq![hole(seq!['?', 'a']), hole(seq!['?', 'b'])]), Pat::Node(OpModel::Mul, seq![hole(seq!['?', 'a']), hole(seq!['?', 'c'])])])
}

#[verifier::rlimit(100)]
#[verifier::spinoff_prover]
proof fn lemma_pushdown_mul_reads()
    ensures
        reads(pushdown_mul_lhs(), "(* ?a (+ ?b ?c))"@),
        reads(pushdown_mul_rhs(), "(+ (* ?a ?b) (* ?a ?c))"@),
{
    reveal_strlit("(* ?a (+ ?b ?c))");
    reveal_strlit("(+ (* ?a ?b) (* ?a ?c))");
    let l00 = Pat::Node(OpModel::Add, seq![hole(seq!['?', 'b']), hole(seq!['?', 'c'])]);
    let l01 = Pat::Node(OpModel::Mul, seq![hole(seq!['?', 'a']), l00]);
    let r12 = Pat::Node(OpModel::Mul, seq![hole(seq!['?', 'a']), hole(seq!['?', 'b'])]);
    let r13 = Pat::Node(OpModel::Mul, seq![hole(seq!['?', 'a']), hole(seq!['?', 'c'])]);
    let r14 = Pat::Node(OpModel::Add, seq![r12, r13]);
    assert(print_pat(l00) =~= seq!['(', '+', ' ', '?', 'b', ' ', '?', 'c', ')']) by { reveal_with_fuel(print_pat, 4); }
    assert(pat_canonical(l00)) by { reveal_with_fuel(pat_canonical, 4); reveal_with_fuel(all_atom, 8); }
    assert(print_pat(l01) =~= seq!['(', '*', ' ', '?', 'a', ' ', '(', '+', ' ', '?', 'b', ' ', '?', 'c', ')', ')']) by { reveal_with_fuel(print_pat, 4); }
    assert(pat_canonical(l01)) by { reveal_with_fuel(pat_canonical, 4); reveal_with_fuel(all_atom, 8); }
    assert(print_pat(r12) =~= seq!['(', '*', ' ', '?', 'a', ' ', '?', 'b', ')']) by { reveal_with_fuel(print_pat, 4); }
    assert(pat_canonical(r12)) by { reveal_with_fuel(pat_canonical, 4); reveal_with_fuel(all_atom, 8); }
    assert(print_pat(r13) =~= seq!['(', '*', ' ', '?', 'a', ' ', '?', 'c', ')']) by { reveal_with_fuel(print_pat, 4); }
    assert(pat_canonical(r13)) by { reveal_with_fuel(pat_canonical, 4); reveal_with_fuel(all_atom, 8); }
    assert(print_pat(r14) =~= seq!['(', '+', ' ', '(', '*', ' ', '?', 'a', ' ', '?', 'b', ')', ' ', '(', '*', ' ', '?', 'a', ' ', '?', 'c', ')', ')']) by { reveal_with_fuel(print_pat, 4); }
    assert(pat_canonical(r14)) by { reveal_with_fuel(pat_canonical, 4); reveal_with_fuel(all_atom, 8); }
    assert(print_pat(l01) =~= "(* ?a (+ ?b ?c))"@);
    assert(pat_canonical(l01)) by { reveal_with_fuel(pat_canonical, 2); reveal_with_fuel(all_atom, 8); }
    assert(print_pat(r14) =~= "(+ (* ?a ?b) (* ?a ?c))"@);
    assert(pat_canonical(r14)) by { reveal_with_fuel(pat_canonical, 2); reveal_with_fuel(all_atom, 8); }
}

proof fn lemma_pushdown_mul_inst(mt: Match)
    ensures
        inst(pushdown_mul_lhs(), mt) is Some ==> inst(pushdown_mul_lhs(), mt) == Some(times(hole_term(mt, seq!['?', 'a']), plus(hole_term(mt, seq!['?', 'b']), hole_term(mt, seq!['?', 'c'])))),
        inst(pushdown_mul_rhs(), mt) is Some ==> inst(pushdown_mul_rhs(), mt) == Some(plus(times(hole_term(mt, seq!['?', 'a']), hole_term(mt, seq!['?', 'b'])), times(hole_term(mt, seq!['?', 'a']), hole_term(mt, seq!['?', 'c'])))),
{
    let l00 = Pat::Node(OpModel::Add, seq![hole(seq!['?', 'b']), hole(seq!['?', 'c'])]);
    let l01 = Pat::Node(OpModel::Mul, seq![hole(seq!['?', 'a']), l00]);
    let r12 = Pat::Node(OpModel::Mul, seq![hole(seq!['?', 'a']), hole(seq!['?', 'b'])]);
    let r13 = Pat::Node(OpModel::Mul, seq![hole(seq!['?', 'a']), hole(seq!['?', 'c'])]);
    let r14 = Pat::Node(OpModel::Add, seq![r12, r13]);
    assert(inst(l00, mt) is Some ==> inst(l00, mt) == Some(plus(hole_term(mt, seq!['?', 'b']), hole_term(mt, seq!['?', 'c'])))) by { reveal_with_fuel(inst, 4); }
    assert(inst(l01, mt) is Some ==> inst(l01, mt) == Some(times(hole_term(mt, seq!['?', 'a']), plus(hole_term(mt, seq!['?', 'b']), hole_term(mt, seq!['?', 'c']))))) by { reveal_with_fuel(inst, 4); }
    assert(inst(r12, mt) is Some ==> inst(r12, mt) == Some(times(hole_term(mt, seq!['?', 'a']), hole_term(mt, seq!['?', 'b'])))) by { reveal_with_fuel(inst, 4); }
    assert(inst(r13, mt) is Some ==> inst(r13, mt) == Some(times(hole_term(mt, seq!['?', 'a']), hole_term(mt, seq!['?', 'c'])))) by { reveal_with_fuel(inst, 4); }
    assert(inst(r14, mt) is Some ==> inst(r14, mt) == Some(plus(times(hole_term(mt, seq!['?', 'a']), hole_term(mt, seq!['?', 'b'])), times(hole_term(mt, seq!['?', 'a']), hole_term(mt, seq!['?', 'c']))))) by { reveal_with_fuel(inst, 4); }
}

/// `pushdown-mul`.
proof fn lemma_keeps_pushdown_mul(r: RuleModel, m: Interp)
    requires
        either_way(r, "(* ?a (+ ?b ?c))"@, "(+ (* ?a ?b) (* ?a ?c))"@),
    ensures
        rule_keeps_value(r, m),
{
    lemma_pushdown_mul_reads();
    assert forall|mt: Match|
        admits(r, mt, m) && (#[trigger] inst(pushdown_mul_lhs(), mt)) is Some && inst(pushdown_mul_rhs(), mt) is Some implies same_value(
        inst(pushdown_mul_lhs(), mt)->0,
        inst(pushdown_mul_rhs(), mt)->0,
        m,
    ) by {
        lemma_pushdown_mul_inst(mt);
        lemma_pushdown_mul(hole_term(mt, seq!['?', 'a']), hole_term(mt, seq!['?', 'b']), hole_term(mt, seq!['?', 'c']), m);
    }
    lemma_plain_keeps(r, pushdown_mul_lhs(), pushdown_mul_rhs(), m);
}

/// The pattern `(* (+ ?b ?c) ?a)`.
pub open spec fn pushdown_mul_2_lhs() -> Pat {
    Pat::Node(OpModel::Mul, seq![Pat::Node(OpModel::Add, seq![hole(seq!['?', 'b']), hole(seq!['?', 'c'])]), hole(seq!['?', 'a'])])
}

/// The pattern `(+ (* ?a ?b) (* ?a ?c))`.
pub open spec fn pushdown_mul_2_rhs() -> Pat {
    Pat::Node(OpModel::Add, seq![Pat::Node(OpModel::Mul, seq![hole(seq!['?', 'a']), hole(seq!['?', 'b'])]), Pat::Node(OpModel::Mul, seq![hole(seq!['?', 'a']), hole(seq!['?', 'c'])])])
}

#[verifier::rlimit(100)]
#[verifier::spinoff_prover]
proof fn lemma_pushdown_mul_2_reads()
    ensures
        reads(pushdown_mul_2_lhs(), "(* (+ ?b ?c) ?a)"@),
        reads(pushdown_mul_2_rhs(), "(+ (* ?a ?b) (* ?a ?c))"@),
{
    reveal_strlit("(* (+ ?b ?c) ?a)");
    reveal_strlit("(+ (* ?a ?b) (* ?a ?c))");
    let l00 = Pat::Node(OpModel::Add, seq![hole(seq!['?', 'b']), hole(seq!['?', 'c'])]);
    let l01 = Pat::Node(OpModel::Mul, seq![l00, hole(seq!['?', 'a'])]);
    let r12 = Pat::Node(OpModel::Mul, seq![hole(seq!['?', 'a']), hole(seq!['?', 'b'])]);
    let r13 = Pat::Node(OpModel::Mul, seq![hole(seq!['?', 'a']), hole(seq!['?', 'c'])]);
    let r14 = Pat::Node(OpModel::Add, seq![r12, r13]);
    assert(print_pat(l00) =~= seq!['(', '+', ' ', '?', 'b', ' ', '?', 'c', ')']) by { reveal_with_fuel(print_pat, 4); }
    assert(pat_canonical(l00)) by { reveal_with_fuel(pat_canonical, 4); reveal_with_fuel(all_atom, 8); }
    assert(print_pat(l01) =~= seq!['(', '*', ' ', '(', '+', ' ', '?', 'b', ' ', '?', 'c', ')', ' ', '?', 'a', ')']) by { reveal_with_fuel(print_pat, 4); }
    assert(pat_canonical(l01)) by { reveal_with_fuel(pat_canonical, 4); reveal_with_fuel(all_atom, 8); }
    assert(print_pat(r12) =~= seq!['(', '*', ' ', '?', 'a', ' ', '?', 'b', ')']) by { reveal_with_fuel(print_pat, 4); }
    assert(pat_canonical(r12)) by { reveal_with_fuel(pat_canonical, 4); reveal_with_fuel(all_atom, 8); }
    assert(print_pat(r13) =~= seq!['(', '*', ' ', '?', 'a', ' ', '?', 'c', ')']) by { reveal_with_fuel(print_pat, 4); }
    assert(pat_canonical(r13)) by { reveal_with_fuel(pat_canonical, 4); reveal_with_fuel(all_atom, 8); }
    assert(print_pat(r14) =~= seq!['(', '+', ' ', '(', '*', ' ', '?', 'a', ' ', '?', 'b', ')', ' ', '(', '*', ' ', '?', 'a', ' ', '?', 'c', ')', ')']) by { reveal_with_fuel(print_pat, 4); }
    assert(pat_canonical(r14)) by { reveal_with_fuel(pat_canonical, 4); reveal_with_fuel(all_atom, 8); }
    assert(print_pat(l01) =~= "(* (+ ?b ?c) ?a)"@);
    assert(pat_canonical(l01)) by { reveal_with_fuel(pat_canonical, 2); reveal_with_fuel(all_atom, 8); }
    assert(print_pat(r14) =~= "(+ (* ?a ?b) (* ?a ?c))"@);
    assert(pat_canonical(r14)) by { reveal_with_fuel(pat_canonical, 2); reveal_with_fuel(all_atom, 8); }
}

proof fn lemma_pushdown_mul_2_inst(mt: Match)
    ensures
        inst(pushdown_mul_2_lhs(), mt) is Some ==> inst(pushdown_mul_2_lhs(), mt) == Some(times(plus(hole_term(mt, seq!['?', 'b']), hole_term(mt, seq!['?', 'c'])), hole_term(mt, seq!['?', 'a']))),
        inst(pushdown_mul_2_rhs(), mt) is Some ==> inst(pushdown_mul_2_rhs(), mt) == Some(plus(times(hole_term(mt, seq!['?', 'a']), hole_term(mt, seq!['?', 'b'])), times(hole_term(mt, seq!['?', 'a']), hole_term(mt, seq!['?', 'c'])))),
{
    let l00 = Pat::Node(OpModel::Add, seq![hole(seq!['?', 'b']), hole(seq!['?', 'c'])]);
    let l01 = Pat::Node(OpModel::Mul, seq![l00, hole(seq!['?', 'a'])]);
    let r12 = Pat::Node(OpModel::Mul, seq![hole(seq!['?', 'a']), hole(seq!['?', 'b'])]);
    let r13 = Pat::Node(OpModel::Mul, seq![hole(seq!['?', 'a']), hole(seq!['?', 'c'])]);
    let r14 = Pat::Node(OpModel::Add, seq![r12, r13]);
    assert(inst(l00, mt) is Some ==> inst(l00, mt) == Some(plus(hole_term(mt, seq!['?', 'b']), hole_term(mt, seq!['?', 'c'])))) by { reveal_with_fuel(inst, 4); }
    assert(inst(l01, mt) is Some ==> inst(l01, mt) == Some(times(plus(hole_term(mt, seq!['?', 'b']), hole_term(mt, seq!['?', 'c'])), hole_term(mt, seq!['?', 'a'])))) by { reveal_with_fuel(inst, 4); }
    assert(inst(r12, mt) is Some ==> inst(r12, mt) == Some(times(hole_term(mt, seq!['?', 'a']), hole_term(mt, seq!['?', 'b'])))) by { reveal_with_fuel(inst, 4); }
    assert(inst(r13, mt) is Some ==> inst(r13, mt) == Some(times(hole_term(mt, seq!['?', 'a']), hole_term(mt, seq!['?', 'c'])))) by { reveal_with_fuel(inst, 4); }
    assert(inst(r14, mt) is Some ==> inst(r14, mt) == Some(plus(times(hole_term(mt, seq!['?', 'a']), hole_term(mt, seq!['?', 'b'])), times(hole_term(mt, seq!['?', 'a']), hole_term(mt, seq!['?', 'c']))))) by { reveal_with_fuel(inst, 4); }
}

/// `pushdown-mul-2`.
proof fn lemma_keeps_pushdown_mul_2(r: RuleModel, m: Interp)
    requires
        either_way(r, "(* (+ ?b ?c) ?a)"@, "(+ (* ?a ?b) (* ?a ?c))"@),
    ensures
        rule_keeps_value(r, m),
{
    lemma_pushdown_mul_2_reads();
    assert forall|mt: Match|
        admits(r, mt, m) && (#[trigger] inst(pushdown_mul_2_lhs(), mt)) is Some && inst(pushdown_mul_2_rhs(), mt) is Some implies same_value(
        inst(pushdown_mul_2_lhs(), mt)->0,
        inst(pushdown_mul_2_rhs(), mt)->0,
        m,
    ) by {
        lemma_pushdown_mul_2_inst(mt);
        lemma_pushdown_mul_2(hole_term(mt, seq!['?', 'a']), hole_term(mt, seq!['?', 'b']), hole_term(mt, seq!['?', 'c']), m);
    }
    lemma_plain_keeps(r, pushdown_mul_2_lhs(), pushdown_mul_2_rhs(), m);
}

/// The pattern `(I (< ?j ?t))`.
pub open spec fn l49_lhs() -> Pat {
    Pat::Node(OpModel::Ind, seq![Pat::Node(OpModel::Lt, seq![hole(seq!['?', 'j']), hole(seq!['?', 't'])])])
}

/// The pattern `(+ (I (< ?j (- ?t 1))) (I (= ?j (- ?t 1))))`.
pub open spec fn l49_rhs() -> Pat {
    Pat::Node(OpModel::Add, seq![Pat::Node(OpModel::Ind, seq![Pat::Node(OpModel::Lt, seq![hole(seq!['?', 'j']), Pat::Node(OpModel::Min, seq![hole(seq!['?', 't']), leaf(OpModel::Num(1i32))])])]), Pat::Node(OpModel::Ind, seq![Pat::Node(OpModel::Eq, seq![hole(seq!['?', 'j']), Pat::Node(OpModel::Min, seq![hole(seq!['?', 't']), leaf(OpModel::Num(1i32))])])])])
}

#[verifier::rlimit(100)]
#[verifier::spinoff_prover]
proof fn lemma_l49_reads()
    ensures
        reads(l49_lhs(), "(I (< ?j ?t))"@),
        reads(l49_rhs(), "(+ (I (< ?j (- ?t 1))) (I (= ?j (- ?t 1))))"@),
{
    reveal_strlit("(I (< ?j ?t))");
    reveal_strlit("(+ (I (< ?j (- ?t 1))) (I (= ?j (- ?t 1))))");
    let l00 = Pat::Node(OpModel::Lt, seq![hole(seq!['?', 'j']), hole(seq!['?', 't'])]);
    let l01 = Pat::Node(OpModel::Ind, seq![l00]);
    let r12 = Pat::Node(OpModel::Min, seq![hole(seq!['?', 't']), leaf(OpModel::Num(1i32))]);
    let r13 = Pat::Node(OpModel::Lt, seq![hole(seq!['?', 'j']), r12]);
    let r14 = Pat::Node(OpModel::Ind, seq![r13]);
    let r15 = Pat::Node(OpModel::Min, seq![hole(seq!['?', 't']), leaf(OpModel::Num(1i32))]);
    let r16 = Pat::Node(OpModel::Eq, seq![hole(seq!['?', 'j']), r15]);
    let r17 = Pat::Node(OpModel::Ind, seq![r16]);
    let r18 = Pat::Node(OpModel::Add, seq![r14, r17]);
    assert(print_pat(l00) =~= seq!['(', '<', ' ', '?', 'j', ' ', '?', 't', ')']) by { reveal_with_fuel(print_pat, 4); }
    assert(pat_canonical(l00)) by { reveal_with_fuel(pat_canonical, 4); reveal_with_fuel(all_atom, 8); }
    assert(print_pat(l01) =~= seq!['(', 'I', ' ', '(', '<', ' ', '?', 'j', ' ', '?', 't', ')', ')']) by { reveal_with_fuel(print_pat, 4); }
    assert(pat_canonical(l01)) by { reveal_with_fuel(pat_canonical, 4); reveal_with_fuel(all_atom, 8); }
    assert(print_pat(r12) =~= seq!['(', '-', ' ', '?', 't', ' ', '1', ')']) by { reveal_with_fuel(print_pat, 4); }
    assert(pat_canonical(r12)) by { reveal_with_fuel(pat_canonical, 4); reveal_with_fuel(all_atom, 8); }
    assert(print_pat(r13) =~= seq!['(', '<', ' ', '?', 'j', ' ', '(', '-', ' ', '?', 't', ' ', '1', ')', ')']) by { reveal_with_fuel(print_pat, 4); }
    assert(pat_canonical(r13)) by { reveal_with_fuel(pat_canonical, 4); reveal_with_fuel(all_atom, 8); }
    assert(print_pat(r14) =~= seq!['(', 'I', ' ', '(', '<', ' ', '?', 'j', ' ', '(', '-', ' ', '?', 't', ' ', '1', ')', ')', ')']) by { reveal_with_fuel(print_pat, 4); }
    assert(pat_canonical(r14)) by { reveal_with_fuel(pat_canonical, 4); reveal_with_fuel(all_atom, 8); }
    assert(print_pat(r15) =~= seq!['(', '-', ' ', '?', 't', ' ', '1', ')']) by { reveal_with_fuel(print_pat, 4); }
    assert(pat_canonical(r15)) by { reveal_with_fuel(pat_canonical, 4); reveal_with_fuel(all_atom, 8); }
    assert(print_pat(r16) =~= seq!['(', '=', ' ', '?', 'j', ' ', '(', '-', ' ', '?', 't', ' ', '1', ')', ')']) by { reveal_with_fuel(print_pat, 4); }
    assert(pat_canonical(r16)) by { reveal_with_fuel(pat_canonical, 4); reveal_with_fuel(all_atom, 8); }
    assert(print_pat(r17) =~= seq!['(', 'I', ' ', '(', '=', ' ', '?', 'j', ' ', '(', '-', ' ', '?', 't', ' ', '1', ')', ')', ')']) by { reveal_with_fuel(print_pat, 4); }
    assert(pat_canonical(r17)) by { reveal_with_fuel(pat_canonical, 4); reveal_with_fuel(all_atom, 8); }
    assert(print_pat(r18) =~= seq!['(', '+', ' ', '(', 'I', ' ', '(', '<', ' ', '?', 'j', ' ', '(', '-', ' ', '?', 't', ' ', '1', ')', ')', ')', ' ', '(', 'I', ' ', '(', '=', ' ', '?', 'j', ' ', '(', '-', ' ', '?', 't', ' ', '1', ')', ')', ')', ')']) by { reveal_with_fuel(print_pat, 4); }
    assert(pat_canonical(r18)) by { reveal_with_fuel(pat_canonical, 4); reveal_with_fuel(all_atom, 8); }
    assert(print_pat(l01) =~= "(I (< ?j ?t))"@);
    assert(pat_canonical(l01)) by { reveal_with_fuel(pat_canonical, 2); reveal_with_fuel(all_atom, 8); }
    assert(print_pat(r18) =~= "(+ (I (< ?j (- ?t 1))) (I (= ?j (- ?t 1))))"@);
    assert(pat_canonical(r18)) by { reveal_with_fuel(pat_canonical, 2); reveal_with_fuel(all_atom, 8); }
}

proof fn lemma_l49_inst(mt: Match)
    ensures
        inst(l49_lhs(), mt) is Some ==> inst(l49_lhs(), mt) == Some(indicator(less(hole_term(mt, seq!['?', 'j']), hole_term(mt, seq!['?', 't'])))),
        inst(l49_rhs(), mt) is Some ==> inst(l49_rhs(), mt) == Some(plus(indicator(less(hole_term(mt, seq!['?', 'j']), minus(hole_term(mt, seq!['?', 't']), Term::Num(1)))), indicator(equal(hole_term(mt, seq!['?', 'j']), minus(hole_term(mt, seq!['?', 't']), Term::Num(1)))))),
{
    let l00 = Pat::Node(OpModel::Lt, seq![hole(seq!['?', 'j']), hole(seq!['?', 't'])]);
    let l01 = Pat::Node(OpModel::Ind, seq![l00]);
    let r12 = Pat::Node(OpModel::Min, seq![hole(seq!['?', 't']), leaf(OpModel::Num(1i32))]);
    let r13 = Pat::Node(OpModel::Lt, seq![hole(seq!['?', 'j']), r12]);
    let r14 = Pat::Node(OpModel::Ind, seq![r13]);
    let r15 = Pat::Node(OpModel::Min, seq![hole(seq!['?', 't']), leaf(OpModel::Num(1i32))]);
    let r16 = Pat::Node(OpModel::Eq, seq![hole(seq!['?', 'j']), r15]);
    let r17 = Pat::Node(OpModel::Ind, seq![r16]);
    let r18 = Pat::Node(OpModel::Add, seq![r14, r17]);
    assert(inst(l00, mt) is Some ==> inst(l00, mt) == Some(less(hole_term(mt, seq!['?', 'j']), hole_term(mt, seq!['?', 't'])))) by { reveal_with_fuel(inst, 4); }
    assert(inst(l01, mt) is Some ==> inst(l01, mt) == Some(indicator(less(hole_term(mt, seq!['?', 'j']), hole_term(mt, seq!['?', 't']))))) by { reveal_with_fuel(inst, 3); }
    assert(inst(r12, mt) is Some ==> inst(r12, mt) == Some(minus(hole_term(mt, seq!['?', 't']), Term::Num(1)))) by { reveal_with_fuel(inst, 4); }
    assert(inst(r13, mt) is Some ==> inst(r13, mt) == Some(less(hole_term(mt, seq!['?', 'j']), minus(hole_term(mt, seq!['?', 't']), Term::Num(1))))) by { reveal_with_fuel(inst, 4); }
    assert(inst(r14, mt) is Some ==> inst(r14, mt) == Some(indicator(less(hole_term(mt, seq!['?', 'j']), minus(hole_term(mt, seq!['?', 't']), Term::Num(1)))))) by { reveal_with_fuel(inst, 3); }
    assert(inst(r15, mt) is Some ==> inst(r15, mt) == Some(minus(hole_term(mt, seq!['?', 't']), Term::Num(1)))) by { reveal_with_fuel(inst, 4); }
    assert(inst(r16, mt) is Some ==> inst(r16, mt) == Some(equal(hole_term(mt, seq!['?', 'j']), minus(hole_term(mt, seq!['?', 't']), Term::Num(1))))) by { reveal_with_fuel(inst, 4); }
    assert(inst(r17, mt) is Some ==> inst(r17, mt) == Some(indicator(equal(hole_term(mt, seq!['?', 'j']), minus(hole_term(mt, seq!['?', 't']), Term::Num(1)))))) by { reveal_with_fuel(inst, 3); }
    assert(inst(r18, mt) is Some ==> inst(r18, mt) == Some(plus(indicator(less(hole_term(mt, seq!['?', 'j']), minus(hole_term(mt, seq!['?', 't']), Term::Num(1)))), indicator(equal(hole_term(mt, seq!['?', 'j']), minus(hole_term(mt, seq!['?', 't']), Term::Num(1))))))) by { reveal_with_fuel(inst, 4); }
}

/// `l-49`, either way.
proof fn lemma_keeps_l49(r: RuleModel, m: Interp)
    requires
        either_way(r, "(I (< ?j ?t))"@, "(+ (I (< ?j (- ?t 1))) (I (= ?j (- ?t 1))))"@),
    ensures
        rule_keeps_value(r, m),
{
    lemma_l49_reads();
    assert forall|mt: Match|
        admits(r, mt, m) && (#[trigger] inst(l49_lhs(), mt)) is Some && inst(l49_rhs(), mt) is Some implies same_value(
        inst(l49_lhs(), mt)->0,
        inst(l49_rhs(), mt)->0,
        m,
    ) by {
        lemma_l49_inst(mt);
        lemma_l49(hole_term(mt, seq!['?', 'j']), hole_term(mt, seq!['?', 't']), m);
    }
    lemma_plain_keeps(r, l49_lhs(), l49_rhs(), m);
}

/// The pattern `(I (< ?j ?t))`.
pub open spec fn l51_lhs() -> Pat {
    Pat::Node(OpModel::Ind, seq![Pat::Node(OpModel::Lt, seq![hole(seq!['?', 'j']), hole(seq!['?', 't'])])])
}

/// The pattern `(* (I (< ?j ?t)) (I (<= ?j ?t)))`.
pub open spec fn l51_rhs() -> Pat {
    Pat::Node(OpModel::Mul, seq![Pat::Node(OpModel::Ind, seq![Pat::Node(OpModel::Lt, seq![hole(seq!['?', 'j']), hole(seq!['?', 't'])])]), Pat::Node(OpModel::Ind, seq![Pat::Node(OpModel::Leq, seq![hole(seq!['?', 'j']), hole(seq!['?', 't'])])])])
}

#[verifier::rlimit(100)]
#[verifier::spinoff_prover]
proof fn lemma_l51_reads()
    ensures
        reads(l51_lhs(), "(I (< ?j ?t))"@),
        reads(l51_rhs(), "(* (I (< ?j ?t)) (I (<= ?j ?t)))"@),
{
    reveal_strlit("(I (< ?j ?t))");
    reveal_strlit("(* (I (< ?j ?t)) (I (<= ?j ?t)))");
    let l00 = Pat::Node(OpModel::Lt, seq![hole(seq!['?', 'j']), hole(seq!['?', 't'])]);
    let l01 = Pat::Node(OpModel::Ind, seq![l00]);
    let r12 = Pat::Node(OpModel::Lt, seq![hole(seq!['?', 'j']), hole(seq!['?', 't'])]);
    let r13 = Pat::Node(OpModel::Ind, seq![r12]);
    let r14 = Pat::Node(OpModel::Leq, seq![hole(seq!['?', 'j']), hole(seq!['?', 't'])]);
    let r15 = Pat::Node(OpModel::Ind, seq![r14]);
    let r16 = Pat::Node(OpModel::Mul, seq![r13, r15]);
    assert(print_pat(l00) =~= seq!['(', '<', ' ', '?', 'j', ' ', '?', 't', ')']) by { reveal_with_fuel(print_pat, 4); }
    assert(pat_canonical(l00)) by { reveal_with_fuel(pat_canonical, 4); reveal_with_fuel(all_atom, 8); }
    assert(print_pat(l01) =~= seq!['(', 'I', ' ', '(', '<', ' ', '?', 'j', ' ', '?', 't', ')', ')']) by { reveal_with_fuel(print_pat, 4); }
    assert(pat_canonical(l01)) by { reveal_with_fuel(pat_canonical, 4); reveal_with_fuel(all_atom, 8); }
    assert(print_pat(r12) =~= seq!['(', '<', ' ', '?', 'j', ' ', '?', 't', ')']) by { reveal_with_fuel(print_pat, 4); }
    assert(pat_canonical(r12)) by { reveal_with_fuel(pat_canonical, 4); reveal_with_fuel(all_atom, 8); }
    assert(print_pat(r13) =~= seq!['(', 'I', ' ', '(', '<', ' ', '?', 'j', ' ', '?', 't', ')', ')']) by { reveal_with_fuel(print_pat, 4); }
    assert(pat_canonical(r13)) by { reveal_with_fuel(pat_canonical, 4); reveal_with_fuel(all_atom, 8); }
    assert(print_pat(r14) =~= seq!['(', '<', '=', ' ', '?', 'j', ' ', '?', 't', ')']) by { reveal_with_fuel(print_pat, 4); }
    assert(pat_canonical(r14)) by { reveal_with_fuel(pat_canonical, 4); reveal_with_fuel(all_atom, 8); }
    assert(print_pat(r15) =~= seq!['(', 'I', ' ', '(', '<', '=', ' ', '?', 'j', ' ', '?', 't', ')', ')']) by { reveal_with_fuel(print_pat, 4); }
    assert(pat_canonical(r15)) by { reveal_with_fuel(pat_canonical, 4); reveal_with_fuel(all_atom, 8); }
    assert(print_pat(r16) =~= seq!['(', '*', ' ', '(', 'I', ' ', '(', '<', ' ', '?', 'j', ' ', '?', 't', ')', ')', ' ', '(', 'I', ' ', '(', '<', '=', ' ', '?', 'j', ' ', '?', 't', ')', ')', ')']) by { reveal_with_fuel(print_pat, 4); }
    assert(pat_canonical(r16)) by { reveal_with_fuel(pat_canonical, 4); reveal_with_fuel(all_atom, 8); }
    assert(print_pat(l01) =~= "(I (< ?j ?t))"@);
    assert(pat_canonical(l01)) by { reveal_with_fuel(pat_canonical, 2); reveal_with_fuel(all_atom, 8); }
    assert(print_pat(r16) =~= "(* (I (< ?j ?t)) (I (<= ?j ?t)))"@);
    assert(pat_canonical(r16)) by { reveal_with_fuel(pat_canonical, 2); reveal_with_fuel(all_atom, 8); }
}

proof fn lemma_l51_inst(mt: Match)
    ensures
        inst(l51_lhs(), mt) is Some ==> inst(l51_lhs(), mt) == Some(indicator(less(hole_term(mt, seq!['?', 'j']), hole_term(mt, seq!['?', 't'])))),
        inst(l51_rhs(), mt) is Some ==> inst(l51_rhs(), mt) == Some(times(indicator(less(hole_term(mt, seq!['?', 'j']), hole_term(mt, seq!['?', 't']))), indicator(at_most(hole_term(mt, seq!['?', 'j']), hole_term(mt, seq!['?', 't']))))),
{
    let l00 = Pat::Node(OpModel::Lt, seq![hole(seq!['?', 'j']), hole(seq!['?', 't'])]);
    let l01 = Pat::Node(OpModel::Ind, seq![l00]);
    let r12 = Pat::Node(OpModel::Lt, seq![hole(seq!['?', 'j']), hole(seq!['?', 't'])]);
    let r13 = Pat::Node(OpModel::Ind, seq![r12]);
    let r14 = Pat::Node(OpModel::Leq, seq![hole(seq!['?', 'j']), hole(seq!['?', 't'])]);
    let r15 = Pat::Node(OpModel::Ind, seq![r14]);
    let r16 = Pat::Node(OpModel::Mul, seq![r13, r15]);
    assert(inst(l00, mt) is Some ==> inst(l00, mt) == Some(less(hole_term(mt, seq!['?', 'j']), hole_term(mt, seq!['?', 't'])))) by { reveal_with_fuel(inst, 4); }
    assert(inst(l01, mt) is Some ==> inst(l01, mt) == Some(indicator(less(hole_term(mt, seq!['?', 'j']), hole_term(mt, seq!['?', 't']))))) by { reveal_with_fuel(inst, 3); }
    assert(inst(r12, mt) is Some ==> inst(r12, mt) == Some(less(hole_term(mt, seq!['?', 'j']), hole_term(mt, seq!['?', 't'])))) by { reveal_with_fuel(inst, 4); }
    assert(inst(r13, mt) is Some ==> inst(r13, mt) == Some(indicator(less(hole_term(mt, seq!['?', 'j']), hole_term(mt, seq!['?', 't']))))) by { reveal_with_fuel(inst, 3); }
    assert(inst(r14, mt) is Some ==> inst(r14, mt) == Some(at_most(hole_term(mt, seq!['?', 'j']), hole_term(mt, seq!['?', 't'])))) by { reveal_with_fuel(inst, 4); }
    assert(inst(r15, mt) is Some ==> inst(r15, mt) == Some(indicator(at_most(hole_term(mt, seq!['?', 'j']), hole_term(mt, seq!['?', 't']))))) by { reveal_with_fuel(inst, 3); }
    assert(inst(r16, mt) is Some ==> inst(r16, mt) == Some(times(indicator(less(hole_term(mt, seq!['?', 'j']), hole_term(mt, seq!['?', 't']))), indicator(at_most(hole_term(mt, seq!['?', 'j']), hole_term(mt, seq!['?', 't'])))))) by { reveal_with_fuel(inst, 4); }
}

/// `l-51`, either way.
proof fn lemma_keeps_l51(r: RuleModel, m: Interp)
    requires
        either_way(r, "(I (< ?j ?t))"@, "(* (I (< ?j ?t)) (I (<= ?j ?t)))"@),
    ensures
        rule_keeps_value(r, m),
{
    lemma_l51_reads();
    assert forall|mt: Match|
        admits(r, mt, m) && (#[trigger] inst(l51_lhs(), mt)) is Some && inst(l51_rhs(), mt) is Some implies same_value(
        inst(l51_lhs(), mt)->0,
        inst(l51_rhs(), mt)->0,
        m,
    ) by {
        lemma_l51_inst(mt);
        lemma_l51(hole_term(mt, seq!['?', 'j']), hole_term(mt, seq!['?', 't']), m);
    }
    lemma_plain_keeps(r, l51_lhs(), l51_rhs(), m);
}

/// The pattern `(I (= ?j ?t))`.
pub open spec fn l52_lhs() -> Pat {
    Pat::Node(OpModel::Ind, seq![Pat::Node(OpModel::Eq, seq![hole(seq!['?', 'j']), hole(seq!['?', 't'])])])
}

/// The pattern `(* (I (= ?j ?t)) (I (<= ?j ?t)))`.
pub open spec fn l52_rhs() -> Pat {
    Pat::Node(OpModel::Mul, seq![Pat::Node(OpModel::Ind, seq![Pat::Node(OpModel::Eq, seq![hole(seq!['?', 'j']), hole(seq!['?', 't'])])]), Pat::Node(OpModel::Ind, seq![Pat::Node(OpModel::Leq, seq![hole(seq!['?', 'j']), hole(seq!['?', 't'])])])])
}

#[verifier::rlimit(100)]
#[verifier::spinoff_prover]
proof fn lemma_l52_reads()
    ensures
        reads(l52_lhs(), "(I (= ?j ?t))"@),
        reads(l52_rhs(), "(* (I (= ?j ?t)) (I (<= ?j ?t)))"@),
{
    reveal_strlit("(I (= ?j ?t))");
    reveal_strlit("(* (I (= ?j ?t)) (I (<= ?j ?t)))");
    let l00 = Pat::Node(OpModel::Eq, seq![hole(seq!['?', 'j']), hole(seq!['?', 't'])]);
    let l01 = Pat::Node(OpModel::Ind, seq![l00]);
    let r12 = Pat::Node(OpModel::Eq, seq![hole(seq!['?', 'j']), hole(seq!['?', 't'])]);
    let r13 = Pat::Node(OpModel::Ind, seq![r12]);
    let r14 = Pat::Node(OpModel::Leq, seq![hole(seq!['?', 'j']), hole(seq!['?', 't'])]);
    let r15 = Pat::Node(OpModel::Ind, seq![r14]);
    let r16 = Pat::Node(OpModel::Mul, seq![r13, r15]);
    assert(print_pat(l00) =~= seq!['(', '=', ' ', '?', 'j', ' ', '?', 't', ')']) by { reveal_with_fuel(print_pat, 4); }
    assert(pat_canonical(l00)) by { reveal_with_fuel(pat_canonical, 4); reveal_with_fuel(all_atom, 8); }
    assert(print_pat(l01) =~= seq!['(', 'I', ' ', '(', '=', ' ', '?', 'j', ' ', '?', 't', ')', ')']) by { reveal_with_fuel(print_pat, 4); }
    assert(pat_canonical(l01)) by { reveal_with_fuel(pat_canonical, 4); reveal_with_fuel(all_atom, 8); }
    assert(print_pat(r12) =~= seq!['(', '=', ' ', '?', 'j', ' ', '?', 't', ')']) by { reveal_with_fuel(print_pat, 4); }
    assert(pat_canonical(r12)) by { reveal_with_fuel(pat_canonical, 4); reveal_with_fuel(all_atom, 8); }
    assert(print_pat(r13) =~= seq!['(', 'I', ' ', '(', '=', ' ', '?', 'j', ' ', '?', 't', ')', ')']) by { reveal_with_fuel(print_pat, 4); }
    assert(pat_canonical(r13)) by { reveal_with_fuel(pat_canonical, 4); reveal_with_fuel(all_atom, 8); }
    assert(print_pat(r14) =~= seq!['(', '<', '=', ' ', '?', 'j', ' ', '?', 't', ')']) by { reveal_with_fuel(print_pat, 4); }
    assert(pat_canonical(r14)) by { reveal_with_fuel(pat_canonical, 4); reveal_with_fuel(all_atom, 8); }
    assert(print_pat(r15) =~= seq!['(', 'I', ' ', '(', '<', '=', ' ', '?', 'j', ' ', '?', 't', ')', ')']) by { reveal_with_fuel(print_pat, 4); }
    assert(pat_canonical(r15)) by { reveal_with_fuel(pat_canonical, 4); reveal_with_fuel(all_atom, 8); }
    assert(print_pat(r16) =~= seq!['(', '*', ' ', '(', 'I', ' ', '(', '=', ' ', '?', 'j', ' ', '?', 't', ')', ')', ' ', '(', 'I', ' ', '(', '<', '=', ' ', '?', 'j', ' ', '?', 't', ')', ')', ')']) by { reveal_with_fuel(print_pat, 4); }
    assert(pat_canonical(r16)) by { reveal_with_fuel(pat_canonical, 4); reveal_with_fuel(all_atom, 8); }
    assert(print_pat(l01) =~= "(I (= ?j ?t))"@);
    assert(pat_canonical(l01)) by { reveal_with_fuel(pat_canonical, 2); reveal_with_fuel(all_atom, 8); }
    assert(print_pat(r16) =~= "(* (I (= ?j ?t)) (I (<= ?j ?t)))"@);
    assert(pat_canonical(r16)) by { reveal_with_fuel(pat_canonical, 2); reveal_with_fuel(all_atom, 8); }
}

proof fn lemma_l52_inst(mt: Match)
    ensures
        inst(l52_lhs(), mt) is Some ==> inst(l52_lhs(), mt) == Some(indicator(equal(hole_term(mt, seq!['?', 'j']), hole_term(mt, seq!['?', 't'])))),
        inst(l52_rhs(), mt) is Some ==> inst(l52_rhs(), mt) == Some(times(indicator(equal(hole_term(mt, seq!['?', 'j']), hole_term(mt, seq!['?', 't']))), indicator(at_most(hole_term(mt, seq!['?', 'j']), hole_term(mt, seq!['?', 't']))))),
{
    let l00 = Pat::Node(OpModel::Eq, seq![hole(seq!['?', 'j']), hole(seq!['?', 't'])]);
    let l01 = Pat::Node(OpModel::Ind, seq![l00]);
    let r12 = Pat::Node(OpModel::Eq, seq![hole(seq!['?', 'j']), hole(seq!['?', 't'])]);
    let r13 = Pat::Node(OpModel::Ind, seq![r12]);
    let r14 = Pat::Node(OpModel::Leq, seq![hole(seq!['?', 'j']), hole(seq!['?', 't'])]);
    let r15 = Pat::Node(OpModel::Ind, seq![r14]);
    let r16 = Pat::Node(OpModel::Mul, seq![r13, r15]);
    assert(inst(l00, mt) is Some ==> inst(l00, mt) == Some(equal(hole_term(mt, seq!['?', 'j']), hole_term(mt, seq!['?', 't'])))) by { reveal_with_fuel(inst, 4); }
    assert(inst(l01, mt) is Some ==> inst(l01, mt) == Some(indicator(equal(hole_term(mt, seq!['?', 'j']), hole_term(mt, seq!['?', 't']))))) by { reveal_with_fuel(inst, 3); }
    assert(inst(r12, mt) is Some ==> inst(r12, mt) == Some(equal(hole_term(mt, seq!['?', 'j']), hole_term(mt, seq!['?', 't'])))) by { reveal_with_fuel(inst, 4); }
    assert(inst(r13, mt) is Some ==> inst(r13, mt) == Some(indicator(equal(hole_term(mt, seq!['?', 'j']), hole_term(mt, seq!['?', 't']))))) by { reveal_with_fuel(inst, 3); }
    assert(inst(r14, mt) is Some ==> inst(r14, mt) == Some(at_most(hole_term(mt, seq!['?', 'j']), hole_term(mt, seq!['?', 't'])))) by { reveal_with_fuel(inst, 4); }
    assert(inst(r15, mt) is Some ==> inst(r15, mt) == Some(indicator(at_most(hole_term(mt, seq!['?', 'j']), hole_term(mt, seq!['?', 't']))))) by { reveal_with_fuel(inst, 3); }
    assert(inst(r16, mt) is Some ==> inst(r16, mt) == Some(times(indicator(equal(hole_term(mt, seq!['?', 'j']), hole_term(mt, seq!['?', 't']))), indicator(at_most(hole_term(mt, seq!['?', 'j']), hole_term(mt, seq!['?', 't'])))))) by { reveal_with_fuel(inst, 4); }
}

/// `l-52`, either way.
proof fn lemma_keeps_l52(r: RuleModel, m: Interp)
    requires
        either_way(r, "(I (= ?j ?t))"@, "(* (I (= ?j ?t)) (I (<= ?j ?t)))"@),
    ensures
        rule_keeps_value(r, m),
{
    lemma_l52_reads();
    assert forall|mt: Match|
        admits(r, mt, m) && (#[trigger] inst(l52_lhs(), mt)) is Some && inst(l52_rhs(), mt) is Some implies same_value(
        inst(l52_lhs(), mt)->0,
        inst(l52_rhs(), mt)->0,
        m,
    ) by {
        lemma_l52_inst(mt);
        lemma_l52(hole_term(mt, seq!['?', 'j']), hole_term(mt, seq!['?', 't']), m);
    }
    lemma_plain_keeps(r, l52_lhs(), l52_rhs(), m);
}

/// The pattern `(I (< ?j ?t))`.
pub open spec fn l53_lhs() -> Pat {
    Pat::Node(OpModel::Ind, seq![Pat::Node(OpModel::Lt, seq![hole(seq!['?', 'j']), hole(seq!['?', 't'])])])
}

/// The pattern `(I (<= ?j (- ?t 1)))`.
pub open spec fn l53_rhs() -> Pat {
    Pat::Node(OpModel::Ind, seq![Pat::Node(OpModel::Leq, seq![hole(seq!['?', 'j']), Pat::Node(OpModel::Min, seq![hole(seq!['?', 't']), leaf(OpModel::Num(1i32))])])])
}

#[verifier::rlimit(100)]
#[verifier::spinoff_prover]
proof fn lemma_l53_reads()
    ensures
        reads(l53_lhs(), "(I (< ?j ?t))"@),
        reads(l53_rhs(), "(I (<= ?j (- ?t 1)))"@),
{
    reveal_strlit("(I (< ?j ?t))");
    reveal_strlit("(I (<= ?j (- ?t 1)))");
    let l00 = Pat::Node(OpModel::Lt, seq![hole(seq!['?', 'j']), hole(seq!['?', 't'])]);
    let l01 = Pat::Node(OpModel::Ind, seq![l00]);
    let r12 = Pat::Node(OpModel::Min, seq![hole(seq!['?', 't']), leaf(OpModel::Num(1i32))]);
    let r13 = Pat::Node(OpModel::Leq, seq![hole(seq!['?', 'j']), r12]);
    let r14 = Pat::Node(OpModel::Ind, seq![r13]);
    assert(print_pat(l00) =~= seq!['(', '<', ' ', '?', 'j', ' ', '?', 't', ')']) by { reveal_with_fuel(print_pat, 4); }
    assert(pat_canonical(l00)) by { reveal_with_fuel(pat_canonical, 4); reveal_with_fuel(all_atom, 8); }
    assert(print_pat(l01) =~= seq!['(', 'I', ' ', '(', '<', ' ', '?', 'j', ' ', '?', 't', ')', ')']) by { reveal_with_fuel(print_pat, 4); }
    assert(pat_canonical(l01)) by { reveal_with_fuel(pat_canonical, 4); reveal_with_fuel(all_atom, 8); }
    assert(print_pat(r12) =~= seq!['(', '-', ' ', '?', 't', ' ', '1', ')']) by { reveal_with_fuel(print_pat, 4); }
    assert(pat_canonical(r12)) by { reveal_with_fuel(pat_canonical, 4); reveal_with_fuel(all_atom, 8); }
    assert(print_pat(r13) =~= seq!['(', '<', '=', ' ', '?', 'j', ' ', '(', '-', ' ', '?', 't', ' ', '1', ')', ')']) by { reveal_with_fuel(print_pat, 4); }
    assert(pat_canonical(r13)) by { reveal_with_fuel(pat_canonical, 4); reveal_with_fuel(all_atom, 8); }
    assert(print_pat(r14) =~= seq!['(', 'I', ' ', '(', '<', '=', ' ', '?', 'j', ' ', '(', '-', ' ', '?', 't', ' ', '1', ')', ')', ')']) by { reveal_with_fuel(print_pat, 4); }
    assert(pat_canonical(r14)) by { reveal_with_fuel(pat_canonical, 4); reveal_with_fuel(all_atom, 8); }
    assert(print_pat(l01) =~= "(I (< ?j ?t))"@);
    assert(pat_canonical(l01)) by { reveal_with_fuel(pat_canonical, 2); reveal_with_fuel(all_atom, 8); }
    assert(print_pat(r14) =~= "(I (<= ?j (- ?t 1)))"@);
    assert(pat_canonical(r14)) by { reveal_with_fuel(pat_canonical, 2); reveal_with_fuel(all_atom, 8); }
}

proof fn lemma_l53_inst(mt: Match)
    ensures
        inst(l53_lhs(), mt) is Some ==> inst(l53_lhs(), mt) == Some(indicator(less(hole_term(mt, seq!['?', 'j']), hole_term(mt, seq!['?', 't'])))),
        inst(l53_rhs(), mt) is Some ==> inst(l53_rhs(), mt) == Some(indicator(at_most(hole_term(mt, seq!['?', 'j']), minus(hole_term(mt, seq!['?', 't']), Term::Num(1))))),
{
    let l00 = Pat::Node(OpModel::Lt, seq![hole(seq!['?', 'j']), hole(seq!['?', 't'])]);
    let l01 = Pat::Node(OpModel::Ind, seq![l00]);
    let r12 = Pat::Node(OpModel::Min, seq![hole(seq!['?', 't']), leaf(OpModel::Num(1i32))]);
    let r13 = Pat::Node(OpModel::Leq, seq![hole(seq!['?', 'j']), r12]);
    let r14 = Pat::Node(OpModel::Ind, seq![r13]);
    assert(inst(l00, mt) is Some ==> inst(l00, mt) == Some(less(hole_term(mt, seq!['?', 'j']), hole_term(mt, seq!['?', 't'])))) by { reveal_with_fuel(inst, 4); }
    assert(inst(l01, mt) is Some ==> inst(l01, mt) == Some(indicator(less(hole_term(mt, seq!['?', 'j']), hole_term(mt, seq!['?', 't']))))) by { reveal_with_fuel(inst, 3); }
    assert(inst(r12, mt) is Some ==> inst(r12, mt) == Some(minus(hole_term(mt, seq!['?', 't']), Term::Num(1)))) by { reveal_with_fuel(inst, 4); }
    assert(inst(r13, mt) is Some ==> inst(r13, mt) == Some(at_most(hole_term(mt, seq!['?', 'j']), minus(hole_term(mt, seq!['?', 't']), Term::Num(1))))) by { reveal_with_fuel(inst, 4); }
    assert(inst(r14, mt) is Some ==> inst(r14, mt) == Some(indicator(at_most(hole_term(mt, seq!['?', 'j']), minus(hole_term(mt, seq!['?', 't']), Term::Num(1)))))) by { reveal_with_fuel(inst, 3); }
}

/// `l-53`, either way.
proof fn lemma_keeps_l53(r: RuleModel, m: Interp)
    requires
        either_way(r, "(I (< ?j ?t))"@, "(I (<= ?j (- ?t 1)))"@),
    ensures
        rule_keeps_value(r, m),
{
    lemma_l53_reads();
    assert forall|mt: Match|
        admits(r, mt, m) && (#[trigger] inst(l53_lhs(), mt)) is Some && inst(l53_rhs(), mt) is Some implies same_value(
        inst(l53_lhs(), mt)->0,
        inst(l53_rhs(), mt)->0,
        m,
    ) by {
        lemma_l53_inst(mt);
        lemma_l53(hole_term(mt, seq!['?', 'j']), hole_term(mt, seq!['?', 't']), m);
    }
    lemma_plain_keeps(r, l53_lhs(), l53_rhs(), m);
}

/// The pattern `(sum ?w (* ?w (I (= ?x ?w))))`.
pub open spec fn trivial_lhs() -> Pat {
    Pat::Node(OpModel::Sum, seq![hole(seq!['?', 'w']), Pat::Node(OpModel::Mul, seq![hole(seq!['?', 'w']), Pat::Node(OpModel::Ind, seq![Pat::Node(OpModel::Eq, seq![hole(seq!['?', 'x']), hole(seq!['?', 'w'])])])])])
}

/// The pattern `?x`.
pub open spec fn trivial_rhs() -> Pat {
    hole(seq!['?', 'x'])
}

#[verifier::rlimit(100)]
#[verifier::spinoff_prover]
proof fn lemma_trivial_reads()
    ensures
        reads(trivial_lhs(), "(sum ?w (* ?w (I (= ?x ?w))))"@),
        reads(trivial_rhs(), "?x"@),
{
    reveal_strlit("(sum ?w (* ?w (I (= ?x ?w))))");
    reveal_strlit("?x");
    assert("?x"@ =~= seq!['?', 'x']);
    let l00 = Pat::Node(OpModel::Eq, seq![hole(seq!['?', 'x']), hole(seq!['?', 'w'])]);
    let l01 = Pat::Node(OpModel::Ind, seq![l00]);
    let l02 = Pat::Node(OpModel::Mul, seq![hole(seq!['?', 'w']), l01]);
    let l03 = Pat::Node(OpModel::Sum, seq![hole(seq!['?', 'w']), l02]);
    assert(print_pat(l00) =~= seq!['(', '=', ' ', '?', 'x', ' ', '?', 'w', ')']) by { reveal_with_fuel(print_pat, 4); }
    assert(pat_canonical(l00)) by { reveal_with_fuel(pat_canonical, 4); reveal_with_fuel(all_atom, 8); }
    assert(print_pat(l01) =~= seq!['(', 'I', ' ', '(', '=', ' ', '?', 'x', ' ', '?', 'w', ')', ')']) by { reveal_with_fuel(print_pat, 4); }
    assert(pat_canonical(l01)) by { reveal_with_fuel(pat_canonical, 4); reveal_with_fuel(all_atom, 8); }
    assert(print_pat(l02) =~= seq!['(', '*', ' ', '?', 'w', ' ', '(', 'I', ' ', '(', '=', ' ', '?', 'x', ' ', '?', 'w', ')', ')', ')']) by { reveal_with_fuel(print_pat, 4); }
    assert(pat_canonical(l02)) by { reveal_with_fuel(pat_canonical, 4); reveal_with_fuel(all_atom, 8); }
    assert(print_pat(l03) =~= seq!['(', 's', 'u', 'm', ' ', '?', 'w', ' ', '(', '*', ' ', '?', 'w', ' ', '(', 'I', ' ', '(', '=', ' ', '?', 'x', ' ', '?', 'w', ')', ')', ')', ')']) by { reveal_with_fuel(print_pat, 4); }
    assert(pat_canonical(l03)) by { reveal_with_fuel(pat_canonical, 4); reveal_with_fuel(all_atom, 8); }
    assert(print_pat(l03) =~= "(sum ?w (* ?w (I (= ?x ?w))))"@);
    assert(pat_canonical(l03)) by { reveal_with_fuel(pat_canonical, 2); reveal_with_fuel(all_atom, 8); }
    assert(print_pat(hole(seq!['?', 'x'])) =~= "?x"@);
    assert(pat_canonical(hole(seq!['?', 'x']))) by { reveal_with_fuel(pat_canonical, 2); reveal_with_fuel(all_atom, 8); }
}

proof fn lemma_trivial_inst(mt: Match)
    ensures
        inst(trivial_lhs(), mt) is Some ==> inst(trivial_lhs(), mt) == Some(sigma(hole_term(mt, seq!['?', 'w'])->Var_0, times(hole_term(mt, seq!['?', 'w']), indicator(equal(hole_term(mt, seq!['?', 'x']), hole_term(mt, seq!['?', 'w'])))))),
        inst(trivial_rhs(), mt) is Some ==> inst(trivial_rhs(), mt) == Some(hole_term(mt, seq!['?', 'x'])),
        inst(trivial_lhs(), mt) is Some ==> hole_term(mt, seq!['?', 'w']) is Var,
{
    let l00 = Pat::Node(OpModel::Eq, seq![hole(seq!['?', 'x']), hole(seq!['?', 'w'])]);
    let l01 = Pat::Node(OpModel::Ind, seq![l00]);
    let l02 = Pat::Node(OpModel::Mul, seq![hole(seq!['?', 'w']), l01]);
    let l03 = Pat::Node(OpModel::Sum, seq![hole(seq!['?', 'w']), l02]);
    assert(inst(l00, mt) is Some ==> inst(l00, mt) == Some(equal(hole_term(mt, seq!['?', 'x']), hole_term(mt, seq!['?', 'w'])))) by { reveal_with_fuel(inst, 4); }
    assert(inst(l01, mt) is Some ==> inst(l01, mt) == Some(indicator(equal(hole_term(mt, seq!['?', 'x']), hole_term(mt, seq!['?', 'w']))))) by { reveal_with_fuel(inst, 3); }
    assert(inst(l02, mt) is Some ==> inst(l02, mt) == Some(times(hole_term(mt, seq!['?', 'w']), indicator(equal(hole_term(mt, seq!['?', 'x']), hole_term(mt, seq!['?', 'w'])))))) by { reveal_with_fuel(inst, 4); }
    assert(inst(l03, mt) is Some ==> inst(l03, mt) == Some(sigma(hole_term(mt, seq!['?', 'w'])->Var_0, times(hole_term(mt, seq!['?', 'w']), indicator(equal(hole_term(mt, seq!['?', 'x']), hole_term(mt, seq!['?', 'w']))))))) by { reveal_with_fuel(inst, 4); }
    assert(inst(l03, mt) is Some ==> hole_term(mt, seq!['?', 'w']) is Var) by { reveal_with_fuel(inst, 4); }
}

/// `trivial`, where the summed variable is not free in `?x`, no value is summed over twice and the value of `?x` is among those summed over.
proof fn lemma_keeps_trivial(r: RuleModel, m: Interp)
    requires
        either_way(r, "(sum ?w (* ?w (I (= ?x ?w))))"@, "?x"@),
        r.name == "trivial"@,
    ensures
        rule_keeps_value(r, m),
{
    lemma_trivial_reads();
    reveal_strlit("trivial");
    assert("trivial"@ =~= seq!['t', 'r', 'i', 'v', 'i', 'a', 'l']);
    assert forall|mt: Match|
        admits(r, mt, m) && (#[trigger] inst(trivial_lhs(), mt)) is Some && inst(trivial_rhs(), mt) is Some implies same_value(
        inst(trivial_lhs(), mt)->0,
        inst(trivial_rhs(), mt)->0,
        m,
    ) by {
        lemma_trivial_inst(mt);
        let (w, x) = (hole_term(mt, seq!['?', 'w'])->Var_0, hole_term(mt, seq!['?', 'x']));
        let lt = sigma(w, times(Term::Var(w), indicator(equal(x, Term::Var(w)))));
        lemma_trivial(w, x, m);
        assert forall|env: spec_fn(u32) -> int| #[trigger] value(lt, env, m) == value(x, env, m) by {
            assert(m.dom.contains(value(x, env, m)));
        }
    }
    lemma_plain_keeps(r, trivial_lhs(), trivial_rhs(), m);
}

/// The pattern `(* (I (> (- ?a ?b) ?c)) (I (> ?a ?c)))`.
pub open spec fn nat_lhs() -> Pat {
    Pat::Node(OpModel::Mul, seq![Pat::Node(OpModel::Ind, seq![Pat::Node(OpModel::Gt, seq![Pat::Node(OpModel::Min, seq![hole(seq!['?', 'a']), hole(seq!['?', 'b'])]), hole(seq!['?', 'c'])])]), Pat::Node(OpModel::Ind, seq![Pat::Node(OpModel::Gt, seq![hole(seq!['?', 'a']), hole(seq!['?', 'c'])])])])
}

/// The pattern `(I (> (- ?a ?b) ?c))`.
pub open spec fn nat_rhs() -> Pat {
    Pat::Node(OpModel::Ind, seq![Pat::Node(OpModel::Gt, seq![Pat::Node(OpModel::Min, seq![hole(seq!['?', 'a']), hole(seq!['?', 'b'])]), hole(seq!['?', 'c'])])])
}

#[verifier::rlimit(100)]
#[verifier::spinoff_prover]
proof fn lemma_nat_reads()
    ensures
        reads(nat_lhs(), "(* (I (> (- ?a ?b) ?c)) (I (> ?a ?c)))"@),
        reads(nat_rhs(), "(I (> (- ?a ?b) ?c))"@),
{
    reveal_strlit("(* (I (> (- ?a ?b) ?c)) (I (> ?a ?c)))");
    reveal_strlit("(I (> (- ?a ?b) ?c))");
    let l00 = Pat::Node(OpModel::Min, seq![hole(seq!['?', 'a']), hole(seq!['?', 'b'])]);
    let l01 = Pat::Node(OpModel::Gt, seq![l00, hole(seq!['?', 'c'])]);
    let l02 = Pat::Node(OpModel::Ind, seq![l01]);
    let l03 = Pat::Node(OpModel::Gt, seq![hole(seq!['?', 'a']), hole(seq!['?', 'c'])]);
    let l04 = Pat::Node(OpModel::Ind, seq![l03]);
    let l05 = Pat::Node(OpModel::Mul, seq![l02, l04]);
    let r16 = Pat::Node(OpModel::Min, seq![hole(seq!['?', 'a']), hole(seq!['?', 'b'])]);
    let r17 = Pat::Node(OpModel::Gt, seq![r16, hole(seq!['?', 'c'])]);
    let r18 = Pat::Node(OpModel::Ind, seq![r17]);
    assert(print_pat(l00) =~= seq!['(', '-', ' ', '?', 'a', ' ', '?', 'b', ')']) by { reveal_with_fuel(print_pat, 4); }
    assert(pat_canonical(l00)) by { reveal_with_fuel(pat_canonical, 4); reveal_with_fuel(all_atom, 8); }
    assert(print_pat(l01) =~= seq!['(', '>', ' ', '(', '-', ' ', '?', 'a', ' ', '?', 'b', ')', ' ', '?', 'c', ')']) by { reveal_with_fuel(print_pat, 4); }
    assert(pat_canonical(l01)) by { reveal_with_fuel(pat_canonical, 4); reveal_with_fuel(all_atom, 8); }
    assert(print_pat(l02) =~= seq!['(', 'I', ' ', '(', '>', ' ', '(', '-', ' ', '?', 'a', ' ', '?', 'b', ')', ' ', '?', 'c', ')', ')']) by { reveal_with_fuel(print_pat, 4); }
    assert(pat_canonical(l02)) by { reveal_with_fuel(pat_canonical, 4); reveal_with_fuel(all_atom, 8); }
    assert(print_pat(l03) =~= seq!['(', '>', ' ', '?', 'a', ' ', '?', 'c', ')']) by { reveal_with_fuel(print_pat, 4); }
    assert(pat_canonical(l03)) by { reveal_with_fuel(pat_canonical, 4); reveal_with_fuel(all_atom, 8); }
    assert(print_pat(l04) =~= seq!['(', 'I', ' ', '(', '>', ' ', '?', 'a', ' ', '?', 'c', ')', ')']) by { reveal_with_fuel(print_pat, 4); }
    assert(pat_canonical(l04)) by { reveal_with_fuel(pat_canonical, 4); reveal_with_fuel(all_atom, 8); }
    assert(print_pat(l05) =~= seq!['(', '*', ' ', '(', 'I', ' ', '(', '>', ' ', '(', '-', ' ', '?', 'a', ' ', '?', 'b', ')', ' ', '?', 'c', ')', ')', ' ', '(', 'I', ' ', '(', '>', ' ', '?', 'a', ' ', '?', 'c', ')', ')', ')']) by { reveal_with_fuel(print_pat, 4); }
    assert(pat_canonical(l05)) by { reveal_with_fuel(pat_canonical, 4); reveal_with_fuel(all_atom, 8); }
    assert(print_pat(r16) =~= seq!['(', '-', ' ', '?', 'a', ' ', '?', 'b', ')']) by { reveal_with_fuel(print_pat, 4); }
    assert(pat_canonical(r16)) by { reveal_with_fuel(pat_canonical, 4); reveal_with_fuel(all_atom, 8); }
    assert(print_pat(r17) =~= seq!['(', '>', ' ', '(', '-', ' ', '?', 'a', ' ', '?', 'b', ')', ' ', '?', 'c', ')']) by { reveal_with_fuel(print_pat, 4); }
    assert(pat_canonical(r17)) by { reveal_with_fuel(pat_canonical, 4); reveal_with_fuel(all_atom, 8); }
    assert(print_pat(r18) =~= seq!['(', 'I', ' ', '(', '>', ' ', '(', '-', ' ', '?', 'a', ' ', '?', 'b', ')', ' ', '?', 'c', ')', ')']) by { reveal_with_fuel(print_pat, 4); }
    assert(pat_canonical(r18)) by { reveal_with_fuel(pat_canonical, 4); reveal_with_fuel(all_atom, 8); }
    assert(print_pat(l05) =~= "(* (I (> (- ?a ?b) ?c)) (I (> ?a ?c)))"@);
    assert(pat_canonical(l05)) by { reveal_with_fuel(pat_canonical, 2); reveal_with_fuel(all_atom, 8); }
    assert(print_pat(r18) =~= "(I (> (- ?a ?b) ?c))"@);
    assert(pat_canonical(r18)) by { reveal_with_fuel(pat_canonical, 2); reveal_with_fuel(all_atom, 8); }
}

proof fn lemma_nat_inst(mt: Match)
    ensures
        inst(nat_lhs(), mt) is Some ==> inst(nat_lhs(), mt) == Some(times(indicator(greater(minus(hole_term(mt, seq!['?', 'a']), hole_term(mt, seq!['?', 'b'])), hole_term(mt, seq!['?', 'c']))), indicator(greater(hole_term(mt, seq!['?', 'a']), hole_term(mt, seq!['?', 'c']))))),
        inst(nat_rhs(), mt) is Some ==> inst(nat_rhs(), mt) == Some(indicator(greater(minus(hole_term(mt, seq!['?', 'a']), hole_term(mt, seq!['?', 'b'])), hole_term(mt, seq!['?', 'c'])))),
{
    let l00 = Pat::Node(OpModel::Min, seq![hole(seq!['?', 'a']), hole(seq!['?', 'b'])]);
    let l01 = Pat::Node(OpModel::Gt, seq![l00, hole(seq!['?', 'c'])]);
    let l02 = Pat::Node(OpModel::Ind, seq![l01]);
    let l03 = Pat::Node(OpModel::Gt, seq![hole(seq!['?', 'a']), hole(seq!['?', 'c'])]);
    let l04 = Pat::Node(OpModel::Ind, seq![l03]);
    let l05 = Pat::Node(OpModel::Mul, seq![l02, l04]);
    let r16 = Pat::Node(OpModel::Min, seq![hole(seq!['?', 'a']), hole(seq!['?', 'b'])]);
    let r17 = Pat::Node(OpModel::Gt, seq![r16, hole(seq!['?', 'c'])]);
    let r18 = Pat::Node(OpModel::Ind, seq![r17]);
    assert(inst(l00, mt) is Some ==> inst(l00, mt) == Some(minus(hole_term(mt, seq!['?', 'a']), hole_term(mt, seq!['?', 'b'])))) by { reveal_with_fuel(inst, 4); }
    assert(inst(l01, mt) is Some ==> inst(l01, mt) == Some(greater(minus(hole_term(mt, seq!['?', 'a']), hole_term(mt, seq!['?', 'b'])), hole_term(mt, seq!['?', 'c'])))) by { reveal_with_fuel(inst, 4); }
    assert(inst(l02, mt) is Some ==> inst(l02, mt) == Some(indicator(greater(minus(hole_term(mt, seq!['?', 'a']), hole_term(mt, seq!['?', 'b'])), hole_term(mt, seq!['?', 'c']))))) by { reveal_with_fuel(inst, 3); }
    assert(inst(l03, mt) is Some ==> inst(l03, mt) == Some(greater(hole_term(mt, seq!['?', 'a']), hole_term(mt, seq!['?', 'c'])))) by { reveal_with_fuel(inst, 4); }
    assert(inst(l04, mt) is Some ==> inst(l04, mt) == Some(indicator(greater(hole_term(mt, seq!['?', 'a']), hole_term(mt, seq!['?', 'c']))))) by { reveal_with_fuel(inst, 3); }
    assert(inst(l05, mt) is Some ==> inst(l05, mt) == Some(times(indicator(greater(minus(hole_term(mt, seq!['?', 'a']), hole_term(mt, seq!['?', 'b'])), hole_term(mt, seq!['?', 'c']))), indicator(greater(hole_term(mt, seq!['?', 'a']), hole_term(mt, seq!['?', 'c'])))))) by { reveal_with_fuel(inst, 4); }
    assert(inst(r16, mt) is Some ==> inst(r16, mt) == Some(minus(hole_term(mt, seq!['?', 'a']), hole_term(mt, seq!['?', 'b'])))) by { reveal_with_fuel(inst, 4); }
    assert(inst(r17, mt) is Some ==> inst(r17, mt) == Some(greater(minus(hole_term(mt, seq!['?', 'a']), hole_term(mt, seq!['?', 'b'])), hole_term(mt, seq!['?', 'c'])))) by { reveal_with_fuel(inst, 4); }
    assert(inst(r18, mt) is Some ==> inst(r18, mt) == Some(indicator(greater(minus(hole_term(mt, seq!['?', 'a']), hole_term(mt, seq!['?', 'b'])), hole_term(mt, seq!['?', 'c']))))) by { reveal_with_fuel(inst, 3); }
}

/// `nat`, where `?b` is never negative.
proof fn lemma_keeps_nat(r: RuleModel, m: Interp)
    requires
        either_way(r, "(* (I (> (- ?a ?b) ?c)) (I (> ?a ?c)))"@, "(I (> (- ?a ?b) ?c))"@),
        r.name == "nat"@,
    ensures
        rule_keeps_value(r, m),
{
    lemma_nat_reads();
    reveal_strlit("nat");
    assert("nat"@ =~= seq!['n', 'a', 't']);
    assert forall|mt: Match|
        admits(r, mt, m) && (#[trigger] inst(nat_lhs(), mt)) is Some && inst(nat_rhs(), mt) is Some implies same_value(
        inst(nat_lhs(), mt)->0,
        inst(nat_rhs(), mt)->0,
        m,
    ) by {
        lemma_nat_inst(mt);
        lemma_nat(hole_term(mt, seq!['?', 'a']), hole_term(mt, seq!['?', 'b']), hole_term(mt, seq!['?', 'c']), m);
    }
    lemma_plain_keeps(r, nat_lhs(), nat_rhs(), m);
}

/// The pattern `(- 1 (I (<= ?a ?b)))`.
pub open spec fn exclusion_lhs() -> Pat {
    Pat::Node(OpModel::Min, seq![leaf(OpModel::Num(1i32)), Pat::Node(OpModel::Ind, seq![Pat::Node(OpModel::Leq, seq![hole(seq!['?', 'a']), hole(seq!['?', 'b'])])])])
}

/// The pattern `(I (> ?a ?b))`.
pub open spec fn exclusion_rhs() -> Pat {
    Pat::Node(OpModel::Ind, seq![Pat::Node(OpModel::Gt, seq![hole(seq!['?', 'a']), hole(seq!['?', 'b'])])])
}

#[verifier::rlimit(100)]
#[verifier::spinoff_prover]
proof fn lemma_exclusion_reads()
    ensures
        reads(exclusion_lhs(), "(- 1 (I (<= ?a ?b)))"@),
        reads(exclusion_rhs(), "(I (> ?a ?b))"@),
{
    reveal_strlit("(- 1 (I (<= ?a ?b)))");
    reveal_strlit("(I (> ?a ?b))");
    let l00 = Pat::Node(OpModel::Leq, seq![hole(seq!['?', 'a']), hole(seq!['?', 'b'])]);
    let l01 = Pat::Node(OpModel::Ind, seq![l00]);
    let l02 = Pat::Node(OpModel::Min, seq![leaf(OpModel::Num(1i32)), l01]);
    let r13 = Pat::Node(OpModel::Gt, seq![hole(seq!['?', 'a']), hole(seq!['?', 'b'])]);
    let r14 = Pat::Node(OpModel::Ind, seq![r13]);
    assert(print_pat(l00) =~= seq!['(', '<', '=', ' ', '?', 'a', ' ', '?', 'b', ')']) by { reveal_with_fuel(print_pat, 4); }
    assert(pat_canonical(l00)) by { reveal_with_fuel(pat_canonical, 4); reveal_with_fuel(all_atom, 8); }
    assert(print_pat(l01) =~= seq!['(', 'I', ' ', '(', '<', '=', ' ', '?', 'a', ' ', '?', 'b', ')', ')']) by { reveal_with_fuel(print_pat, 4); }
    assert(pat_canonical(l01)) by { reveal_with_fuel(pat_canonical, 4); reveal_with_fuel(all_atom, 8); }
    assert(print_pat(l02) =~= seq!['(', '-', ' ', '1', ' ', '(', 'I', ' ', '(', '<', '=', ' ', '?', 'a', ' ', '?', 'b', ')', ')', ')']) by { reveal_with_fuel(print_pat, 4); }
    assert(pat_canonical(l02)) by { reveal_with_fuel(pat_canonical, 4); reveal_with_fuel(all_atom, 8); }
    assert(print_pat(r13) =~= seq!['(', '>', ' ', '?', 'a', ' ', '?', 'b', ')']) by { reveal_with_fuel(print_pat, 4); }
    assert(pat_canonical(r13)) by { reveal_with_fuel(pat_canonical, 4); reveal_with_fuel(all_atom, 8); }
    assert(print_pat(r14) =~= seq!['(', 'I', ' ', '(', '>', ' ', '?', 'a', ' ', '?', 'b', ')', ')']) by { reveal_with_fuel(print_pat, 4); }
    assert(pat_canonical(r14)) by { reveal_with_fuel(pat_canonical, 4); reveal_with_fuel(all_atom, 8); }
    assert(print_pat(l02) =~= "(- 1 (I (<= ?a ?b)))"@);
    assert(pat_canonical(l02)) by { reveal_with_fuel(pat_canonical, 2); reveal_with_fuel(all_atom, 8); }
    assert(print_pat(r14) =~= "(I (> ?a ?b))"@);
    assert(pat_canonical(r14)) by { reveal_with_fuel(pat_canonical, 2); reveal_with_fuel(all_atom, 8); }
}

proof fn lemma_exclusion_inst(mt: Match)
    ensures
        inst(exclusion_lhs(), mt) is Some ==> inst(exclusion_lhs(), mt) == Some(minus(Term::Num(1), indicator(at_most(hole_term(mt, seq!['?', 'a']), hole_term(mt, seq!['?', 'b']))))),
        inst(exclusion_rhs(), mt) is Some ==> inst(exclusion_rhs(), mt) == Some(indicator(greater(hole_term(mt, seq!['?', 'a']), hole_term(mt, seq!['?', 'b'])))),
{
    let l00 = Pat::Node(OpModel::Leq, seq![hole(seq!['?', 'a']), hole(seq!['?', 'b'])]);
    let l01 = Pat::Node(OpModel::Ind, seq![l00]);
    let l02 = Pat::Node(OpModel::Min, seq![leaf(OpModel::Num(1i32)), l01]);
    let r13 = Pat::Node(OpModel::Gt, seq![hole(seq!['?', 'a']), hole(seq!['?', 'b'])]);
    let r14 = Pat::Node(OpModel::Ind, seq![r13]);
    assert(inst(l00, mt) is Some ==> inst(l00, mt) == Some(at_most(hole_term(mt, seq!['?', 'a']), hole_term(mt, seq!['?', 'b'])))) by { reveal_with_fuel(inst, 4); }
    assert(inst(l01, mt) is Some ==> inst(l01, mt) == Some(indicator(at_most(hole_term(mt, seq!['?', 'a']), hole_term(mt, seq!['?', 'b']))))) by { reveal_with_fuel(inst, 3); }
    assert(inst(l02, mt) is Some ==> inst(l02, mt) == Some(minus(Term::Num(1), indicator(at_most(hole_term(mt, seq!['?', 'a']), hole_term(mt, seq!['?', 'b'])))))) by { reveal_with_fuel(inst, 4); }
    assert(inst(r13, mt) is Some ==> inst(r13, mt) == Some(greater(hole_term(mt, seq!['?', 'a']), hole_term(mt, seq!['?', 'b'])))) by { reveal_with_fuel(inst, 4); }
    assert(inst(r14, mt) is Some ==> inst(r14, mt) == Some(indicator(greater(hole_term(mt, seq!['?', 'a']), hole_term(mt, seq!['?', 'b']))))) by { reveal_with_fuel(inst, 3); }
}

/// `exclusion`.
proof fn lemma_keeps_exclusion(r: RuleModel, m: Interp)
    requires
        either_way(r, "(- 1 (I (<= ?a ?b)))"@, "(I (> ?a ?b))"@),
    ensures
        rule_keeps_value(r, m),
{
    lemma_exclusion_reads();
    assert forall|mt: Match|
        admits(r, mt, m) && (#[trigger] inst(exclusion_lhs(), mt)) is Some && inst(exclusion_rhs(), mt) is Some implies same_value(
        inst(exclusion_lhs(), mt)->0,
        inst(exclusion_rhs(), mt)->0,
        m,
    ) by {
        lemma_exclusion_inst(mt);
        lemma_exclusion(hole_term(mt, seq!['?', 'a']), hole_term(mt, seq!['?', 'b']), m);
    }
    lemma_plain_keeps(r, exclusion_lhs(), exclusion_rhs(), m);
}

/// The pattern `(* ?b (sum ?x ?a))`.
pub open spec fn rename_sum_lhs() -> Pat {
    Pat::Node(OpModel::Mul, seq![hole(seq!['?', 'b']), Pat::Node(OpModel::Sum, seq![hole(seq!['?', 'x']), hole(seq!['?', 'a'])])])
}

/// The pattern `(sum ?fresh (* ?b (let ?x ?fresh ?a)))`.
pub open spec fn rename_sum_rhs() -> Pat {
    Pat::Node(OpModel::Sum, seq![hole(seq!['?', 'f', 'r', 'e', 's', 'h']), Pat::Node(OpModel::Mul, seq![hole(seq!['?', 'b']), Pat::Node(OpModel::Let, seq![hole(seq!['?', 'x']), hole(seq!['?', 'f', 'r', 'e', 's', 'h']), hole(seq!['?', 'a'])])])])
}

#[verifier::rlimit(100)]
#[verifier::spinoff_prover]
proof fn lemma_rename_sum_reads()
    ensures
        reads(rename_sum_lhs(), "(* ?b (sum ?x ?a))"@),
        reads(rename_sum_rhs(), "(sum ?fresh (* ?b (let ?x ?fresh ?a)))"@),
{
    reveal_strlit("(* ?b (sum ?x ?a))");
    reveal_strlit("(sum ?fresh (* ?b (let ?x ?fresh ?a)))");
    let l00 = Pat::Node(OpModel::Sum, seq![hole(seq!['?', 'x']), hole(seq!['?', 'a'])]);
    let l01 = Pat::Node(OpModel::Mul, seq![hole(seq!['?', 'b']), l00]);
    let r12 = Pat::Node(OpModel::Let, seq![hole(seq!['?', 'x']), hole(seq!['?', 'f', 'r', 'e', 's', 'h']), hole(seq!['?', 'a'])]);
    let r13 = Pat::Node(OpModel::Mul, seq![hole(seq!['?', 'b']), r12]);
    let r14 = Pat::Node(OpModel::Sum, seq![hole(seq!['?', 'f', 'r', 'e', 's', 'h']), r13]);
    assert(print_pat(l00) =~= seq!['(', 's', 'u', 'm', ' ', '?', 'x', ' ', '?', 'a', ')']) by { reveal_with_fuel(print_pat, 4); }
    assert(pat_canonical(l00)) by { reveal_with_fuel(pat_canonical, 4); reveal_with_fuel(all_atom, 8); }
    assert(print_pat(l01) =~= seq!['(', '*', ' ', '?', 'b', ' ', '(', 's', 'u', 'm', ' ', '?', 'x', ' ', '?', 'a', ')', ')']) by { reveal_with_fuel(print_pat, 4); }
    assert(pat_canonical(l01)) by { reveal_with_fuel(pat_canonical, 4); reveal_with_fuel(all_atom, 8); }
    assert(print_pat(r12) =~= seq!['(', 'l', 'e', 't', ' ', '?', 'x', ' ', '?', 'f', 'r', 'e', 's', 'h', ' ', '?', 'a', ')']) by { reveal_with_fuel(print_pat, 4); }
    assert(pat_canonical(r12)) by { reveal_with_fuel(pat_canonical, 4); reveal_with_fuel(all_atom, 8); }
    assert(print_pat(r13) =~= seq!['(', '*', ' ', '?', 'b', ' ', '(', 'l', 'e', 't', ' ', '?', 'x', ' ', '?', 'f', 'r', 'e', 's', 'h', ' ', '?', 'a', ')', ')']) by { reveal_with_fuel(print_pat, 4); }
    assert(pat_canonical(r13)) by { reveal_with_fuel(pat_canonical, 4); reveal_with_fuel(all_atom, 8); }
    assert(print_pat(r14) =~= seq!['(', 's', 'u', 'm', ' ', '?', 'f', 'r', 'e', 's', 'h', ' ', '(', '*', ' ', '?', 'b', ' ', '(', 'l', 'e', 't', ' ', '?', 'x', ' ', '?', 'f', 'r', 'e', 's', 'h', ' ', '?', 'a', ')', ')', ')']) by { reveal_with_fuel(print_pat, 4); }
    assert(pat_canonical(r14)) by { reveal_with_fuel(pat_canonical, 4); reveal_with_fuel(all_atom, 8); }
    assert(print_pat(l01) =~= "(* ?b (sum ?x ?a))"@);
    assert(pat_canonical(l01)) by { reveal_with_fuel(pat_canonical, 2); reveal_with_fuel(all_atom, 8); }
    assert(print_pat(r14) =~= "(sum ?fresh (* ?b (let ?x ?fresh ?a)))"@);
    assert(pat_canonical(r14)) by { reveal_with_fuel(pat_canonical, 2); reveal_with_fuel(all_atom, 8); }
}

proof fn lemma_rename_sum_inst(mt: Match)
    ensures
        inst(rename_sum_lhs(), mt) is Some ==> inst(rename_sum_lhs(), mt) == Some(times(hole_term(mt, seq!['?', 'b']), sigma(hole_term(mt, seq!['?', 'x'])->Var_0, hole_term(mt, seq!['?', 'a'])))),
        inst(rename_sum_rhs(), mt) is Some ==> inst(rename_sum_rhs(), mt) == Some(sigma(hole_term(mt, seq!['?', 'f', 'r', 'e', 's', 'h'])->Var_0, times(hole_term(mt, seq!['?', 'b']), let_in(hole_term(mt, seq!['?', 'x'])->Var_0, hole_term(mt, seq!['?', 'f', 'r', 'e', 's', 'h']), hole_term(mt, seq!['?', 'a']))))),
        inst(rename_sum_lhs(), mt) is Some ==> hole_term(mt, seq!['?', 'x']) is Var,
        inst(rename_sum_rhs(), mt) is Some ==> hole_term(mt, seq!['?', 'f', 'r', 'e', 's', 'h']) is Var,
        inst(rename_sum_rhs(), mt) is Some ==> hole_term(mt, seq!['?', 'x']) is Var,
{
    let l00 = Pat::Node(OpModel::Sum, seq![hole(seq!['?', 'x']), hole(seq!['?', 'a'])]);
    let l01 = Pat::Node(OpModel::Mul, seq![hole(seq!['?', 'b']), l00]);
    let r12 = Pat::Node(OpModel::Let, seq![hole(seq!['?', 'x']), hole(seq!['?', 'f', 'r', 'e', 's', 'h']), hole(seq!['?', 'a'])]);
    let r13 = Pat::Node(OpModel::Mul, seq![hole(seq!['?', 'b']), r12]);
    let r14 = Pat::Node(OpModel::Sum, seq![hole(seq!['?', 'f', 'r', 'e', 's', 'h']), r13]);
    assert(inst(l00, mt) is Some ==> inst(l00, mt) == Some(sigma(hole_term(mt, seq!['?', 'x'])->Var_0, hole_term(mt, seq!['?', 'a'])))) by { reveal_with_fuel(inst, 4); }
    assert(inst(l00, mt) is Some ==> hole_term(mt, seq!['?', 'x']) is Var) by { reveal_with_fuel(inst, 4); }
    assert(inst(l01, mt) is Some ==> inst(l01, mt) == Some(times(hole_term(mt, seq!['?', 'b']), sigma(hole_term(mt, seq!['?', 'x'])->Var_0, hole_term(mt, seq!['?', 'a']))))) by { reveal_with_fuel(inst, 4); }
    assert(inst(l01, mt) is Some ==> hole_term(mt, seq!['?', 'x']) is Var) by { reveal_with_fuel(inst, 4); }
    assert(inst(r12, mt) is Some ==> inst(r12, mt) == Some(let_in(hole_term(mt, seq!['?', 'x'])->Var_0, hole_term(mt, seq!['?', 'f', 'r', 'e', 's', 'h']), hole_term(mt, seq!['?', 'a'])))) by { reveal_with_fuel(inst, 5); }
    assert(inst(r12, mt) is Some ==> hole_term(mt, seq!['?', 'x']) is Var) by { reveal_with_fuel(inst, 5); }
    assert(inst(r13, mt) is Some ==> inst(r13, mt) == Some(times(hole_term(mt, seq!['?', 'b']), let_in(hole_term(mt, seq!['?', 'x'])->Var_0, hole_term(mt, seq!['?', 'f', 'r', 'e', 's', 'h']), hole_term(mt, seq!['?', 'a']))))) by { reveal_with_fuel(inst, 4); }
    assert(inst(r13, mt) is Some ==> hole_term(mt, seq!['?', 'x']) is Var) by { reveal_with_fuel(inst, 4); }
    assert(inst(r14, mt) is Some ==> inst(r14, mt) == Some(sigma(hole_term(mt, seq!['?', 'f', 'r', 'e', 's', 'h'])->Var_0, times(hole_term(mt, seq!['?', 'b']), let_in(hole_term(mt, seq!['?', 'x'])->Var_0, hole_term(mt, seq!['?', 'f', 'r', 'e', 's', 'h']), hole_term(mt, seq!['?', 'a'])))))) by { reveal_with_fuel(inst, 4); }
    assert(inst(r14, mt) is Some ==> hole_term(mt, seq!['?', 'f', 'r', 'e', 's', 'h']) is Var) by { reveal_with_fuel(inst, 4); }
    assert(inst(r14, mt) is Some ==> hole_term(mt, seq!['?', 'x']) is Var) by { reveal_with_fuel(inst, 4); }
}

/// The pattern `(let ?v1 ?e (sum ?v2 ?body))`.
pub open spec fn let_sum_diff_lhs() -> Pat {
    Pat::Node(OpModel::Let, seq![hole(seq!['?', 'v', '1']), hole(seq!['?', 'e']), Pat::Node(OpModel::Sum, seq![hole(seq!['?', 'v', '2']), hole(seq!['?', 'b', 'o', 'd', 'y'])])])
}

/// The pattern `(sum ?v2 (let ?v1 ?e ?body))`.
pub open spec fn let_sum_diff_plain() -> Pat {
    Pat::Node(OpModel::Sum, seq![hole(seq!['?', 'v', '2']), Pat::Node(OpModel::Let, seq![hole(seq!['?', 'v', '1']), hole(seq!['?', 'e']), hole(seq!['?', 'b', 'o', 'd', 'y'])])])
}

/// The pattern `(sum ?fresh (let ?v1 ?e (let ?v2 ?fresh ?body)))`.
pub open spec fn let_sum_diff_renamed() -> Pat {
    Pat::Node(OpModel::Sum, seq![hole(seq!['?', 'f', 'r', 'e', 's', 'h']), Pat::Node(OpModel::Let, seq![hole(seq!['?', 'v', '1']), hole(seq!['?', 'e']), Pat::Node(OpModel::Let, seq![hole(seq!['?', 'v', '2']), hole(seq!['?', 'f', 'r', 'e', 's', 'h']), hole(seq!['?', 'b', 'o', 'd', 'y'])])])])
}

#[verifier::rlimit(100)]
#[verifier::spinoff_prover]
proof fn lemma_let_sum_diff_reads()
    ensures
        reads(let_sum_diff_lhs(), "(let ?v1 ?e (sum ?v2 ?body))"@),
        reads(let_sum_diff_plain(), "(sum ?v2 (let ?v1 ?e ?body))"@),
        reads(let_sum_diff_renamed(), "(sum ?fresh (let ?v1 ?e (let ?v2 ?fresh ?body)))"@),
{
    reveal_strlit("(let ?v1 ?e (sum ?v2 ?body))");
    reveal_strlit("(sum ?v2 (let ?v1 ?e ?body))");
    reveal_strlit("(sum ?fresh (let ?v1 ?e (let ?v2 ?fresh ?body)))");
    let l00 = Pat::Node(OpModel::Sum, seq![hole(seq!['?', 'v', '2']), hole(seq!['?', 'b', 'o', 'd', 'y'])]);
    let l01 = Pat::Node(OpModel::Let, seq![hole(seq!['?', 'v', '1']), hole(seq!['?', 'e']), l00]);
    let p12 = Pat::Node(OpModel::Let, seq![hole(seq!['?', 'v', '1']), hole(seq!['?', 'e']), hole(seq!['?', 'b', 'o', 'd', 'y'])]);
    let p13 = Pat::Node(OpModel::Sum, seq![hole(seq!['?', 'v', '2']), p12]);
    let r24 = Pat::Node(OpModel::Let, seq![hole(seq!['?', 'v', '2']), hole(seq!['?', 'f', 'r', 'e', 's', 'h']), hole(seq!['?', 'b', 'o', 'd', 'y'])]);
    let r25 = Pat::Node(OpModel::Let, seq![hole(seq!['?', 'v', '1']), hole(seq!['?', 'e']), r24]);
    let r26 = Pat::Node(OpModel::Sum, seq![hole(seq!['?', 'f', 'r', 'e', 's', 'h']), r25]);
    assert(print_pat(l00) =~= seq!['(', 's', 'u', 'm', ' ', '?', 'v', '2', ' ', '?', 'b', 'o', 'd', 'y', ')']) by { reveal_with_fuel(print_pat, 4); }
    assert(pat_canonical(l00)) by { reveal_with_fuel(pat_canonical, 4); reveal_with_fuel(all_atom, 8); }
    assert(print_pat(l01) =~= seq!['(', 'l', 'e', 't', ' ', '?', 'v', '1', ' ', '?', 'e', ' ', '(', 's', 'u', 'm', ' ', '?', 'v', '2', ' ', '?', 'b', 'o', 'd', 'y', ')', ')']) by { reveal_with_fuel(print_pat, 4); }
    assert(pat_canonical(l01)) by { reveal_with_fuel(pat_canonical, 4); reveal_with_fuel(all_atom, 8); }
    assert(print_pat(p12) =~= seq!['(', 'l', 'e', 't', ' ', '?', 'v', '1', ' ', '?', 'e', ' ', '?', 'b', 'o', 'd', 'y', ')']) by { reveal_with_fuel(print_pat, 4); }
    assert(pat_canonical(p12)) by { reveal_with_fuel(pat_canonical, 4); reveal_with_fuel(all_atom, 8); }
    assert(print_pat(p13) =~= seq!['(', 's', 'u', 'm', ' ', '?', 'v', '2', ' ', '(', 'l', 'e', 't', ' ', '?', 'v', '1', ' ', '?', 'e', ' ', '?', 'b', 'o', 'd', 'y', ')', ')']) by { reveal_with_fuel(print_pat, 4); }
    assert(pat_canonical(p13)) by { reveal_with_fuel(pat_canonical, 4); reveal_with_fuel(all_atom, 8); }
    assert(print_pat(r24) =~= seq!['(', 'l', 'e', 't', ' ', '?', 'v', '2', ' ', '?', 'f', 'r', 'e', 's', 'h', ' ', '?', 'b', 'o', 'd', 'y', ')']) by { reveal_with_fuel(print_pat, 4); }
    assert(pat_canonical(r24)) by { reveal_with_fuel(pat_canonical, 4); reveal_with_fuel(all_atom, 8); }
    assert(print_pat(r25) =~= seq!['(', 'l', 'e', 't', ' ', '?', 'v', '1', ' ', '?', 'e', ' ', '(', 'l', 'e', 't', ' ', '?', 'v', '2', ' ', '?', 'f', 'r', 'e', 's', 'h', ' ', '?', 'b', 'o', 'd', 'y', ')', ')']) by { reveal_with_fuel(print_pat, 4); }
    assert(pat_canonical(r25)) by { reveal_with_fuel(pat_canonical, 4); reveal_with_fuel(all_atom, 8); }
    assert(print_pat(r26) =~= seq!['(', 's', 'u', 'm', ' ', '?', 'f', 'r', 'e', 's', 'h', ' ', '(', 'l', 'e', 't', ' ', '?', 'v', '1', ' ', '?', 'e', ' ', '(', 'l', 'e', 't', ' ', '?', 'v', '2', ' ', '?', 'f', 'r', 'e', 's', 'h', ' ', '?', 'b', 'o', 'd', 'y', ')', ')', ')']) by { reveal_with_fuel(print_pat, 4); }
    assert(pat_canonical(r26)) by { reveal_with_fuel(pat_canonical, 4); reveal_with_fuel(all_atom, 8); }
    assert(print_pat(l01) =~= "(let ?v1 ?e (sum ?v2 ?body))"@);
    assert(pat_canonical(l01)) by { reveal_with_fuel(pat_canonical, 2); reveal_with_fuel(all_atom, 8); }
    assert(print_pat(p13) =~= "(sum ?v2 (let ?v1 ?e ?body))"@);
    assert(pat_canonical(p13)) by { reveal_with_fuel(pat_canonical, 2); reveal_with_fuel(all_atom, 8); }
    assert(print_pat(r26) =~= "(sum ?fresh (let ?v1 ?e (let ?v2 ?fresh ?body)))"@);
    assert(pat_canonical(r26)) by { reveal_with_fuel(pat_canonical, 2); reveal_with_fuel(all_atom, 8); }
}

proof fn lemma_let_sum_diff_inst(mt: Match)
    ensures
        inst(let_sum_diff_lhs(), mt) is Some ==> inst(let_sum_diff_lhs(), mt) == Some(let_in(hole_term(mt, seq!['?', 'v', '1'])->Var_0, hole_term(mt, seq!['?', 'e']), sigma(hole_term(mt, seq!['?', 'v', '2'])->Var_0, hole_term(mt, seq!['?', 'b', 'o', 'd', 'y'])))),
        inst(let_sum_diff_plain(), mt) is Some ==> inst(let_sum_diff_plain(), mt) == Some(sigma(hole_term(mt, seq!['?', 'v', '2'])->Var_0, let_in(hole_term(mt, seq!['?', 'v', '1'])->Var_0, hole_term(mt, seq!['?', 'e']), hole_term(mt, seq!['?', 'b', 'o', 'd', 'y'])))),
        inst(let_sum_diff_renamed(), mt) is Some ==> inst(let_sum_diff_renamed(), mt) == Some(sigma(hole_term(mt, seq!['?', 'f', 'r', 'e', 's', 'h'])->Var_0, let_in(hole_term(mt, seq!['?', 'v', '1'])->Var_0, hole_term(mt, seq!['?', 'e']), let_in(hole_term(mt, seq!['?', 'v', '2'])->Var_0, hole_term(mt, seq!['?', 'f', 'r', 'e', 's', 'h']), hole_term(mt, seq!['?', 'b', 'o', 'd', 'y']))))),
        inst(let_sum_diff_lhs(), mt) is Some ==> hole_term(mt, seq!['?', 'v', '1']) is Var,
        inst(let_sum_diff_lhs(), mt) is Some ==> hole_term(mt, seq!['?', 'v', '2']) is Var,
        inst(let_sum_diff_plain(), mt) is Some ==> hole_term(mt, seq!['?', 'v', '1']) is Var,
        inst(let_sum_diff_plain(), mt) is Some ==> hole_term(mt, seq!['?', 'v', '2']) is Var,
        inst(let_sum_diff_renamed(), mt) is Some ==> hole_term(mt, seq!['?', 'f', 'r', 'e', 's', 'h']) is Var,
        inst(let_sum_diff_renamed(), mt) is Some ==> hole_term(mt, seq!['?', 'v', '1']) is Var,
        inst(let_sum_diff_renamed(), mt) is Some ==> hole_term(mt, seq!['?', 'v', '2']) is Var,
{
    let l00 = Pat::Node(OpModel::Sum, seq![hole(seq!['?', 'v', '2']), hole(seq!['?', 'b', 'o', 'd', 'y'])]);
    let l01 = Pat::Node(OpModel::Let, seq![hole(seq!['?', 'v', '1']), hole(seq!['?', 'e']), l00]);
    let p12 = Pat::Node(OpModel::Let, seq![hole(seq!['?', 'v', '1']), hole(seq!['?', 'e']), hole(seq!['?', 'b', 'o', 'd', 'y'])]);
    let p13 = Pat::Node(OpModel::Sum, seq![hole(seq!['?', 'v', '2']), p12]);
    let r24 = Pat::Node(OpModel::Let, seq![hole(seq!['?', 'v', '2']), hole(seq!['?', 'f', 'r', 'e', 's', 'h']), hole(seq!['?', 'b', 'o', 'd', 'y'])]);
    let r25 = Pat::Node(OpModel::Let, seq![hole(seq!['?', 'v', '1']), hole(seq!['?', 'e']), r24]);
    let r26 = Pat::Node(OpModel::Sum, seq![hole(seq!['?', 'f', 'r', 'e', 's', 'h']), r25]);
    assert(inst(l00, mt) is Some ==> inst(l00, mt) == Some(sigma(hole_term(mt, seq!['?', 'v', '2'])->Var_0, hole_term(mt, seq!['?', 'b', 'o', 'd', 'y'])))) by { reveal_with_fuel(inst, 4); }
    assert(inst(l00, mt) is Some ==> hole_term(mt, seq!['?', 'v', '2']) is Var) by { reveal_with_fuel(inst, 4); }
    assert(inst(l01, mt) is Some ==> inst(l01, mt) == Some(let_in(hole_term(mt, seq!['?', 'v', '1'])->Var_0, hole_term(mt, seq!['?', 'e']), sigma(hole_term(mt, seq!['?', 'v', '2'])->Var_0, hole_term(mt, seq!['?', 'b', 'o', 'd', 'y']))))) by { reveal_with_fuel(inst, 5); }
    assert(inst(l01, mt) is Some ==> hole_term(mt, seq!['?', 'v', '1']) is Var) by { reveal_with_fuel(inst, 5); }
    assert(inst(l01, mt) is Some ==> hole_term(mt, seq!['?', 'v', '2']) is Var) by { reveal_with_fuel(inst, 5); }
    assert(inst(p12, mt) is Some ==> inst(p12, mt) == Some(let_in(hole_term(mt, seq!['?', 'v', '1'])->Var_0, hole_term(mt, seq!['?', 'e']), hole_term(mt, seq!['?', 'b', 'o', 'd', 'y'])))) by { reveal_with_fuel(inst, 5); }
    assert(inst(p12, mt) is Some ==> hole_term(mt, seq!['?', 'v', '1']) is Var) by { reveal_with_fuel(inst, 5); }
    assert(inst(p13, mt) is Some ==> inst(p13, mt) == Some(sigma(hole_term(mt, seq!['?', 'v', '2'])->Var_0, let_in(hole_term(mt, seq!['?', 'v', '1'])->Var_0, hole_term(mt, seq!['?', 'e']), hole_term(mt, seq!['?', 'b', 'o', 'd', 'y']))))) by { reveal_with_fuel(inst, 4); }
    assert(inst(p13, mt) is Some ==> hole_term(mt, seq!['?', 'v', '1']) is Var) by { reveal_with_fuel(inst, 4); }
    assert(inst(p13, mt) is Some ==> hole_term(mt, seq!['?', 'v', '2']) is Var) by { reveal_with_fuel(inst, 4); }
    assert(inst(r24, mt) is Some ==> inst(r24, mt) == Some(let_in(hole_term(mt, seq!['?', 'v', '2'])->Var_0, hole_term(mt, seq!['?', 'f', 'r', 'e', 's', 'h']), hole_term(mt, seq!['?', 'b', 'o', 'd', 'y'])))) by { reveal_with_fuel(inst, 5); }
    assert(inst(r24, mt) is Some ==> hole_term(mt, seq!['?', 'v', '2']) is Var) by { reveal_with_fuel(inst, 5); }
    assert(inst(r25, mt) is Some ==> inst(r25, mt) == Some(let_in(hole_term(mt, seq!['?', 'v', '1'])->Var_0, hole_term(mt, seq!['?', 'e']), let_in(hole_term(mt, seq!['?', 'v', '2'])->Var_0, hole_term(mt, seq!['?', 'f', 'r', 'e', 's', 'h']), hole_term(mt, seq!['?', 'b', 'o', 'd', 'y']))))) by { reveal_with_fuel(inst, 5); }
    assert(inst(r25, mt) is Some ==> hole_term(mt, seq!['?', 'v', '1']) is Var) by { reveal_with_fuel(inst, 5); }
    assert(inst(r25, mt) is Some ==> hole_term(mt, seq!['?', 'v', '2']) is Var) by { reveal_with_fuel(inst, 5); }
    assert(inst(r26, mt) is Some ==> inst(r26, mt) == Some(sigma(hole_term(mt, seq!['?', 'f', 'r', 'e', 's', 'h'])->Var_0, let_in(hole_term(mt, seq!['?', 'v', '1'])->Var_0, hole_term(mt, seq!['?', 'e']), let_in(hole_term(mt, seq!['?', 'v', '2'])->Var_0, hole_term(mt, seq!['?', 'f', 'r', 'e', 's', 'h']), hole_term(mt, seq!['?', 'b', 'o', 'd', 'y'])))))) by { reveal_with_fuel(inst, 4); }
    assert(inst(r26, mt) is Some ==> hole_term(mt, seq!['?', 'f', 'r', 'e', 's', 'h']) is Var) by { reveal_with_fuel(inst, 4); }
    assert(inst(r26, mt) is Some ==> hole_term(mt, seq!['?', 'v', '1']) is Var) by { reveal_with_fuel(inst, 4); }
    assert(inst(r26, mt) is Some ==> hole_term(mt, seq!['?', 'v', '2']) is Var) by { reveal_with_fuel(inst, 4); }
}

proof fn lemma_rename_sum_holes()
    ensures
        holes(rename_sum_lhs()).contains(seq!['?', 'b']),
        holes(rename_sum_lhs()).contains(seq!['?', 'x']),
        holes(rename_sum_lhs()).contains(seq!['?', 'a']),
{
    reveal_with_fuel(holes, 8);
    assert(holes(rename_sum_lhs()) =~= set![seq!['?', 'b'], seq!['?', 'x'], seq!['?', 'a']]);
}

proof fn lemma_let_sum_diff_holes()
    ensures
        holes(let_sum_diff_lhs()).contains(seq!['?', 'v', '1']),
        holes(let_sum_diff_lhs()).contains(seq!['?', 'e']),
        holes(let_sum_diff_lhs()).contains(seq!['?', 'v', '2']),
        holes(let_sum_diff_lhs()).contains(seq!['?', 'b', 'o', 'd', 'y']),
{
    reveal_with_fuel(holes, 8);
    assert(holes(let_sum_diff_lhs()) =~= set![seq!['?', 'v', '1'], seq!['?', 'e'], seq!['?', 'v', '2'], seq!['?', 'b', 'o', 'd', 'y']]);
}

/// `pushdown-sum-free`: renaming the summed variable to a fresh one moves `?b` under
/// the sum.
proof fn lemma_keeps_rename_sum(r: RuleModel, m: Interp)
    requires
        r.searcher == "(* ?b (sum ?x ?a))"@,
        r.action == (ActionModel::RenameSum { fresh: "?fresh"@, e: "(sum ?fresh (* ?b (let ?x ?fresh ?a)))"@ }),
    ensures
        rule_keeps_value(r, m),
{
    lemma_rename_sum_reads();
    lemma_rename_sum_holes();
    reveal_strlit("?fresh");
    assert("?fresh"@ =~= seq!['?', 'f', 'r', 'e', 's', 'h']);
    assert forall|mt: Match|
        admits(r, mt, m) && fresh_for(mt, "?fresh"@, rename_sum_lhs()) && (#[trigger] inst(rename_sum_lhs(), mt)) is Some
            && inst(rename_sum_rhs(), mt) is Some implies same_value(
        inst(rename_sum_lhs(), mt)->0,
        inst(rename_sum_rhs(), mt)->0,
        m,
    ) by {
        lemma_rename_sum_inst(mt);
        let f = hole_term(mt, seq!['?', 'f', 'r', 'e', 's', 'h'])->Var_0;
        let (b, x, a) = (hole_term(mt, seq!['?', 'b']), hole_term(mt, seq!['?', 'x'])->Var_0, hole_term(mt, seq!['?', 'a']));
        assert(hole_term(mt, seq!['?', 'f', 'r', 'e', 's', 'h']) == Term::Var(f));
        assert(!free_vars(b).contains(f));
        assert(!free_vars(a).contains(f));
        lemma_pushdown_sum_free(x, b, a, f, m);
    }
    assert(reads(rename_sum_lhs(), r.searcher));
    assert(reads(rename_sum_rhs(), "(sum ?fresh (* ?b (let ?x ?fresh ?a)))"@));
    assert(keeps_fresh(r, rename_sum_lhs(), rename_sum_rhs(), "?fresh"@, m));
}

/// `let-sum-diff`: a `let` moves under a `sum` of another variable, as it is where the
/// summed variable is not free in the bound value, and after renaming the summed
/// variable to a fresh one where it is.
proof fn lemma_keeps_let_sum_diff(r: RuleModel, m: Interp)
    requires
        r.searcher == "(let ?v1 ?e (sum ?v2 ?body))"@,
        r.action == (ActionModel::CaptureAvoid {
            fresh: "?fresh"@,
            v2: "?v2"@,
            e: "?e"@,
            if_not_free: "(sum ?v2 (let ?v1 ?e ?body))"@,
            if_free: "(sum ?fresh (let ?v1 ?e (let ?v2 ?fresh ?body)))"@,
        }),
        r.guard == Some(GuardModel::NotSameVar("?v1"@, "?v2"@)),
    ensures
        rule_keeps_value(r, m),
{
    lemma_let_sum_diff_reads();
    lemma_let_sum_diff_holes();
    reveal_strlit("?fresh");
    reveal_strlit("?v1");
    reveal_strlit("?v2");
    reveal_strlit("?e");
    assert("?fresh"@ =~= seq!['?', 'f', 'r', 'e', 's', 'h']);
    assert("?v1"@ =~= seq!['?', 'v', '1']);
    assert("?v2"@ =~= seq!['?', 'v', '2']);
    assert("?e"@ =~= seq!['?', 'e']);
    assert forall|mt: Match|
        admits(r, mt, m) && hole_term(mt, seq!['?', 'v', '2']) is Var && avoids(mt, "?e"@, hole_term(mt, seq!['?', 'v', '2'])->Var_0, m) && (#[trigger] inst(let_sum_diff_lhs(), mt)) is Some
            && inst(let_sum_diff_plain(), mt) is Some implies same_value(
        inst(let_sum_diff_lhs(), mt)->0,
        inst(let_sum_diff_plain(), mt)->0,
        m,
    ) by {
        lemma_let_sum_diff_inst(mt);
        let (x, e, y, b) = (hole_term(mt, seq!['?', 'v', '1'])->Var_0, hole_term(mt, seq!['?', 'e']), hole_term(mt, seq!['?', 'v', '2'])->Var_0, hole_term(mt, seq!['?', 'b', 'o', 'd', 'y']));
        let s = choose|s: Set<u32>| depends_only_on(e, s, m) && !s.contains(y);
        lemma_let_sum_diff(x, e, y, b, s, m);
    }
    assert forall|mt: Match|
        admits(r, mt, m) && fresh_for(mt, "?fresh"@, let_sum_diff_lhs()) && (#[trigger] inst(let_sum_diff_lhs(), mt)) is Some
            && inst(let_sum_diff_renamed(), mt) is Some implies same_value(
        inst(let_sum_diff_lhs(), mt)->0,
        inst(let_sum_diff_renamed(), mt)->0,
        m,
    ) by {
        lemma_let_sum_diff_inst(mt);
        let f = hole_term(mt, seq!['?', 'f', 'r', 'e', 's', 'h'])->Var_0;
        let (x, e, y, b) = (hole_term(mt, seq!['?', 'v', '1'])->Var_0, hole_term(mt, seq!['?', 'e']), hole_term(mt, seq!['?', 'v', '2'])->Var_0, hole_term(mt, seq!['?', 'b', 'o', 'd', 'y']));
        assert(hole_term(mt, seq!['?', 'f', 'r', 'e', 's', 'h']) == Term::Var(f));
        assert(!free_vars(hole_term(mt, seq!['?', 'v', '1'])).contains(f));
        assert(hole_term(mt, seq!['?', 'v', '1']) == Term::Var(x));
        assert(!free_vars(e).contains(f));
        assert(!free_vars(b).contains(f));
        lemma_let_sum_rename(x, e, y, b, f, m);
    }
    assert(reads(let_sum_diff_lhs(), r.searcher));
    assert(reads(let_sum_diff_plain(), "(sum ?v2 (let ?v1 ?e ?body))"@));
    assert(reads(let_sum_diff_renamed(), "(sum ?fresh (let ?v1 ?e (let ?v2 ?fresh ?body)))"@));
    assert(keeps_avoiding(r, let_sum_diff_lhs(), let_sum_diff_plain(), "?v2"@, "?e"@, m));
    assert(keeps_fresh(r, let_sum_diff_lhs(), let_sum_diff_renamed(), "?fresh"@, m));
}

proof fn lemma_rules_twin(r: Seq<Rule>, k: int)
    requires
        rules_table(r),
        0 <= k < 15,
    ensures
        twins(r[9 + 2 * k]@, r[10 + 2 * k]@),
{
}

proof fn lemma_lemmas_twin(r: Seq<Rule>, k: int)
    requires
        lemmas_table(r),
        0 <= k < 4,
    ensures
        twins(r[2 * k]@, r[2 * k + 1]@),
{
}

/// Every saturation rule keeps values: for each, the term it instantiates has the value of
/// the term it matched, for every match its guard admits.
pub proof fn lemma_rules_keep_value(r: Seq<Rule>, m: Interp)
    requires
        rules_table(r),
    ensures
        forall|i: int| 0 <= i < r.len() ==> #[trigger] rule_keeps_value(r[i]@, m),
{
    lemma_keeps_let_const(r[0]@, m);
    lemma_keeps_let_var_same(r[1]@, m);
    lemma_keeps_let_var_diff(r[2]@, m);
    lemma_keeps_swap_sum(r[3]@, m);
    lemma_keeps_rename_sum(r[4]@, m);
    lemma_keeps_let_sum_same(r[5]@, m);
    lemma_keeps_let_sum_diff(r[6]@, m);
    lemma_keeps_mul_one(r[7]@, m);
    lemma_keeps_pow_zero(r[8]@, m);
    lemma_rules_twin(r, 0);
    lemma_keeps_let_add(r[9]@, m);
    lemma_keeps_let_add(r[10]@, m);
    lemma_rules_twin(r, 1);
    lemma_keeps_let_eq(r[11]@, m);
    lemma_keeps_let_eq(r[12]@, m);
    lemma_rules_twin(r, 2);
    lemma_keeps_add_comm(r[13]@, m);
    lemma_keeps_add_comm(r[14]@, m);
    lemma_rules_twin(r, 3);
    lemma_keeps_add_assoc(r[15]@, m);
    lemma_keeps_add_assoc(r[16]@, m);
    lemma_rules_twin(r, 4);
    lemma_keeps_mul_comm(r[17]@, m);
    lemma_keeps_mul_comm(r[18]@, m);
    lemma_rules_twin(r, 5);
    lemma_keeps_mul_assoc(r[19]@, m);
    lemma_keeps_mul_assoc(r[20]@, m);
    lemma_rules_twin(r, 6);
    lemma_keeps_subtract(r[21]@, m);
    lemma_keeps_subtract(r[22]@, m);
    lemma_rules_twin(r, 7);
    lemma_keeps_eq_comm(r[23]@, m);
    lemma_keeps_eq_comm(r[24]@, m);
    lemma_rules_twin(r, 8);
    lemma_keeps_add_mul_dist(r[25]@, m);
    lemma_keeps_add_mul_dist(r[26]@, m);
    lemma_rules_twin(r, 9);
    lemma_keeps_add_sum_dist(r[27]@, m);
    lemma_keeps_add_sum_dist(r[28]@, m);
    lemma_rules_twin(r, 10);
    lemma_keeps_pushdown_sum_bound(r[29]@, m);
    lemma_keeps_pushdown_sum_bound(r[30]@, m);
    lemma_rules_twin(r, 11);
    lemma_keeps_l49(r[31]@, m);
    lemma_keeps_l49(r[32]@, m);
    lemma_rules_twin(r, 12);
    lemma_keeps_l51(r[33]@, m);
    lemma_keeps_l51(r[34]@, m);
    lemma_rules_twin(r, 13);
    lemma_keeps_l52(r[35]@, m);
    lemma_keeps_l52(r[36]@, m);
    lemma_rules_twin(r, 14);
    lemma_keeps_l53(r[37]@, m);
    lemma_keeps_l53(r[38]@, m);
    lemma_keeps_trivial(r[39]@, m);
    lemma_keeps_nat(r[40]@, m);
    lemma_keeps_exclusion(r[41]@, m);
    assert forall|i: int| 0 <= i < r.len() implies #[trigger] rule_keeps_value(r[i]@, m) by {
        assert(i == 0 || i == 1 || i == 2 || i == 3 || i == 4 || i == 5 || i == 6 || i == 7 || i == 8 || i == 9 || i == 10 || i == 11 || i == 12 || i == 13 || i == 14 || i == 15 || i == 16 || i == 17 || i == 18 || i == 19 || i == 20 || i == 21 || i == 22 || i == 23 || i == 24 || i == 25 || i == 26 || i == 27 || i == 28 || i == 29 || i == 30 || i == 31 || i == 32 || i == 33 || i == 34 || i == 35 || i == 36 || i == 37 || i == 38 || i == 39 || i == 40 || i == 41);
    }
}

/// Every normalizing rule keeps values: the term a rule leaves in the class it empties has
/// the value of the term it matched.
pub proof fn lemma_normalize_keeps_value(r: Seq<Rule>, m: Interp)
    requires
        normalize_table(r),
    ensures
        forall|i: int| 0 <= i < r.len() ==> #[trigger] rule_keeps_value(r[i]@, m),
{
    lemma_keeps_pushdown_mul(r[0]@, m);
    lemma_keeps_pushdown_mul_2(r[1]@, m);
    lemma_keeps_pushdown_sum_add(r[2]@, m);
    lemma_keeps_pushdown_sum_bound(r[3]@, m);
    lemma_keeps_rename_sum(r[4]@, m);
    lemma_keeps_let_const_n(r[5]@, m);
    lemma_keeps_let_var_same_n(r[6]@, m);
    lemma_keeps_let_var_diff(r[7]@, m);
    lemma_keeps_let_sum_same(r[8]@, m);
    lemma_keeps_let_sum_diff(r[9]@, m);
    lemma_keeps_let_add(r[10]@, m);
    lemma_keeps_let_eq(r[11]@, m);
    lemma_keeps_subtract(r[12]@, m);
    assert forall|i: int| 0 <= i < r.len() implies #[trigger] rule_keeps_value(r[i]@, m) by {
        assert(i == 0 || i == 1 || i == 2 || i == 3 || i == 4 || i == 5 || i == 6 || i == 7 || i == 8 || i == 9 || i == 10 || i == 11 || i == 12);
    }
}

/// Every lemma on indicators keeps values, either way.
pub proof fn lemma_lemmas_keep_value(r: Seq<Rule>, m: Interp)
    requires
        lemmas_table(r),
    ensures
        forall|i: int| 0 <= i < r.len() ==> #[trigger] rule_keeps_value(r[i]@, m),
{
    lemma_lemmas_twin(r, 0);
    lemma_keeps_l49(r[0]@, m);
    lemma_keeps_l49(r[1]@, m);
    lemma_lemmas_twin(r, 1);
    lemma_keeps_l51(r[2]@, m);
    lemma_keeps_l51(r[3]@, m);
    lemma_lemmas_twin(r, 2);
    lemma_keeps_l52(r[4]@, m);
    lemma_keeps_l52(r[5]@, m);
    lemma_lemmas_twin(r, 3);
    lemma_keeps_l53(r[6]@, m);
    lemma_keeps_l53(r[7]@, m);
    assert forall|i: int| 0 <= i < r.len() implies #[trigger] rule_keeps_value(r[i]@, m) by {
        assert(i == 0 || i == 1 || i == 2 || i == 3 || i == 4 || i == 5 || i == 6 || i == 7);
    }
}

proof fn lemma_all_atom_index(s: Seq<char>, i: int)
    requires
        all_atom(s),
        0 <= i < s.len(),
    ensures
        atom_char(s[i]),
    decreases s.len(),
{
    if i > 0 {
        lemma_all_atom_index(s.subrange(1, s.len() as int), i - 1);
    }
}

/// What may follow an atom in a text: nothing, or a character that is not an atom's.
pub open spec fn ends_atom(x: Seq<char>) -> bool {
    x.len() == 0 || !atom_char(x[0])
}

/// An atom followed by what ends it is split in one way only.
proof fn lemma_atom_split(a: Seq<char>, x: Seq<char>, b: Seq<char>, y: Seq<char>)
    requires
        atom_text(a),
        atom_text(b),
        ends_atom(x),
        ends_atom(y),
        a + x == b + y,
    ensures
        a == b,
        x == y,
{
    if a.len() < b.len() {
        lemma_all_atom_index(b, a.len() as int);
        assert((a + x)[a.len() as int] == x[0]);
        assert((b + y)[a.len() as int] == b[a.len() as int]);
    } else if b.len() < a.len() {
        lemma_all_atom_index(a, b.len() as int);
        assert((b + y)[b.len() as int] == y[0]);
        assert((a + x)[b.len() as int] == a[b.len() as int]);
    }
    assert(a =~= (a + x).subrange(0, a.len() as int));
    assert(b =~= (b + y).subrange(0, b.len() as int));
    assert(x =~= (a + x).subrange(a.len() as int, (a + x).len() as int));
    assert(y =~= (b + y).subrange(b.len() as int, (b + y).len() as int));
}

/// What may follow a pattern in a text: nothing, a space or a closing parenthesis.
pub open spec fn ends_pattern(x: Seq<char>) -> bool {
    x.len() == 0 || x[0] == ' ' || x[0] == ')'
}

proof fn lemma_atom_not_open(p: Pat)
    requires
        pat_canonical(p),
    ensures
        print_pat(p).len() > 0,
        print_pat(p)[0] == '(' <==> (p is Node && p->Node_1.len() > 0),
{
    match p {
        Pat::Hole(v) => {
            lemma_all_atom_index(v, 0);
        },
        Pat::Node(op, args) => {
            lemma_all_atom_index(op_text(op), 0);
            if args.len() > 0 {
                assert(print_pat(p)[0] == '(');
            }
        },
    }
}

/// A canonical pattern followed by what may end it is read in one way only.
proof fn lemma_print_prefix(p: Pat, q: Pat, s: Seq<char>, t: Seq<char>)
    requires
        pat_canonical(p),
        pat_canonical(q),
        ends_pattern(s),
        ends_pattern(t),
        print_pat(p) + s == print_pat(q) + t,
    ensures
        p == q,
        s == t,
    decreases p, 0nat,
{
    lemma_atom_not_open(p);
    lemma_atom_not_open(q);
    assert((print_pat(p) + s)[0] == print_pat(p)[0]);
    assert((print_pat(q) + t)[0] == print_pat(q)[0]);
    match p {
        Pat::Hole(v) => {
            match q {
                Pat::Hole(w) => {
                    lemma_atom_split(v, s, w, t);
                },
                Pat::Node(o, b) => {
                    lemma_atom_split(v, s, op_text(o), t);
                },
            }
        },
        Pat::Node(o1, a1) => {
            match q {
                Pat::Hole(w) => {
                    lemma_atom_split(op_text(o1), s, w, t);
                },
                Pat::Node(o2, a2) => {
                    let n1 = NodeModel { op: o1, children: Seq::new(a1.len(), |i: int| 0u32) };
                    let n2 = NodeModel { op: o2, children: Seq::new(a2.len(), |i: int| 0u32) };
                    lemma_print_then_read(n1);
                    lemma_print_then_read(n2);
                    if a1.len() == 0 {
                        lemma_atom_split(op_text(o1), s, op_text(o2), t);
                        assert(a1 =~= a2);
                    } else {
                        let x1 = print_args(a1) + seq![')'] + s;
                        let x2 = print_args(a2) + seq![')'] + t;
                        assert(print_pat(p) + s =~= seq!['('] + (op_text(o1) + x1));
                        assert(print_pat(q) + t =~= seq!['('] + (op_text(o2) + x2));
                        assert(op_text(o1) + x1 =~= (print_pat(p) + s).subrange(1, (print_pat(p) + s).len() as int));
                        assert(op_text(o2) + x2 =~= (print_pat(q) + t).subrange(1, (print_pat(q) + t).len() as int));
                        assert(x1[0] == ' ');
                        assert(x2[0] == ' ');
                        lemma_atom_split(op_text(o1), x1, op_text(o2), x2);
                        assert(print_args(a1) + (seq![')'] + s) =~= x1);
                        assert(print_args(a2) + (seq![')'] + t) =~= x2);
                        lemma_args_prefix(a1, a2, seq![')'] + s, seq![')'] + t);
                        assert(s =~= (seq![')'] + s).subrange(1, s.len() + 1int));
                        assert(t =~= (seq![')'] + t).subrange(1, t.len() + 1int));
                    }
                },
            }
        },
    }
}

proof fn lemma_args_prefix(a1: Seq<Pat>, a2: Seq<Pat>, u: Seq<char>, v: Seq<char>)
    requires
        args_canonical(a1),
        args_canonical(a2),
        u.len() > 0 && u[0] == ')',
        v.len() > 0 && v[0] == ')',
        print_args(a1) + u == print_args(a2) + v,
    ensures
        a1 == a2,
        u == v,
    decreases a1, 0nat,
{
    if a1.len() == 0 || a2.len() == 0 {
        if a1.len() > 0 {
            assert((print_args(a1) + u)[0] == ' ');
        } else if a2.len() > 0 {
            assert((print_args(a2) + v)[0] == ' ');
        } else {
            assert(print_args(a1) + u =~= u);
            assert(print_args(a2) + v =~= v);
            assert(a1 =~= a2);
        }
    } else {
        let r1 = a1.subrange(1, a1.len() as int);
        let r2 = a2.subrange(1, a2.len() as int);
        let s1 = print_args(r1) + u;
        let s2 = print_args(r2) + v;
        assert(print_args(a1) + u =~= seq![' '] + (print_pat(a1[0]) + s1));
        assert(print_args(a2) + v =~= seq![' '] + (print_pat(a2[0]) + s2));
        assert(print_pat(a1[0]) + s1 =~= (print_args(a1) + u).subrange(1, (print_args(a1) + u).len() as int));
        assert(print_pat(a2[0]) + s2 =~= (print_args(a2) + v).subrange(1, (print_args(a2) + v).len() as int));
        assert(s1[0] == ' ' || s1[0] == ')');
        assert(s2[0] == ' ' || s2[0] == ')');
        lemma_print_prefix(a1[0], a2[0], s1, s2);
        lemma_args_prefix(r1, r2, u, v);
        assert(a1 =~= a2) by {
            assert forall|i: int| 0 <= i < a1.len() implies a1[i] == a2[i] by {
                if i > 0 {
                    assert(a1[i] == r1[i - 1]);
                    assert(a2[i] == r2[i - 1]);
                }
            }
        }
    }
}

/// A text reads as at most one pattern: the pattern a rule's text is shown to print is
/// the only one it prints.
pub proof fn lemma_reads_unique(p: Pat, q: Pat, t: Seq<char>)
    requires
        reads(p, t),
        reads(q, t),
    ensures
        p == q,
{
    assert(print_pat(p) + seq![] =~= print_pat(p));
    assert(print_pat(q) + seq![] =~= print_pat(q));
    lemma_print_prefix(p, q, seq![], seq![]);
}

} // verus!
