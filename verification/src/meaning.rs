//! The meaning of semiring terms over the integers, and what it shows of the analysis
//! and of the rewrite rules: folded constants are the values of their terms, free sets
//! hold every variable a value depends on, and each rule keeps the value of the term it
//! rewrites.
use vstd::prelude::*;
use crate::analysis::{folded, fold_fits, free_of, number_of, union_all};
use crate::lang::{arity_fits, NodeModel, OpModel};

verus! {

/// A term: variables are named by the id of their symbol. `Sum(x, b)` sums `b` over the
/// values of `x`; `Let(x, e, b)` is `b` with `x` bound to the value of `e`; `App` applies
/// a relation or an uninterpreted function.
pub enum Term {
    Num(int),
    Var(u32),
    Add(Box<Term>, Box<Term>),
    Min(Box<Term>, Box<Term>),
    Mul(Box<Term>, Box<Term>),
    Sum(u32, Box<Term>),
    Let(u32, Box<Term>, Box<Term>),
    Ind(Box<Term>),
    Lt(Box<Term>, Box<Term>),
    Leq(Box<Term>, Box<Term>),
    Gt(Box<Term>, Box<Term>),
    Geq(Box<Term>, Box<Term>),
    Eq(Box<Term>, Box<Term>),
    App(Seq<char>, Seq<Term>),
}

/// How terms are read: the values a summed variable ranges over, and the value of each
/// relation or uninterpreted function on given argument values.
pub struct Interp {
    pub dom: Seq<int>,
    pub apply: spec_fn(Seq<char>, Seq<int>) -> int,
}

/// `env` with `x` bound to `d`.
pub open spec fn upd(env: spec_fn(u32) -> int, x: u32, d: int) -> spec_fn(u32) -> int {
    |y: u32| if y == x { d } else { env(y) }
}

/// A truth value as a number: 1 for true, 0 for false.
pub open spec fn truth(b: bool) -> int {
    if b {
        1
    } else {
        0
    }
}

/// The value of a term in an environment.
pub open spec fn value(t: Term, env: spec_fn(u32) -> int, m: Interp) -> int
    decreases t, 0nat,
{
    match t {
        Term::Num(n) => n,
        Term::Var(x) => env(x),
        Term::Add(a, b) => value(*a, env, m) + value(*b, env, m),
        Term::Min(a, b) => value(*a, env, m) - value(*b, env, m),
        Term::Mul(a, b) => value(*a, env, m) * value(*b, env, m),
        Term::Sum(x, b) => sum_over(x, *b, env, m, m.dom.len()),
        Term::Let(x, e, b) => value(*b, upd(env, x, value(*e, env, m)), m),
        Term::Ind(a) => truth(value(*a, env, m) != 0),
        Term::Lt(a, b) => truth(value(*a, env, m) < value(*b, env, m)),
        Term::Leq(a, b) => truth(value(*a, env, m) <= value(*b, env, m)),
        Term::Gt(a, b) => truth(value(*a, env, m) > value(*b, env, m)),
        Term::Geq(a, b) => truth(value(*a, env, m) >= value(*b, env, m)),
        Term::Eq(a, b) => truth(value(*a, env, m) == value(*b, env, m)),
        Term::App(f, args) => (m.apply)(f, values(args, env, m, args.len())),
    }
}

/// The sum of `b` over the first `n` values of the domain bound to `x`.
pub open spec fn sum_over(x: u32, b: Term, env: spec_fn(u32) -> int, m: Interp, n: nat) -> int
    decreases b, n,
{
    if n == 0 || n > m.dom.len() {
        0
    } else {
        sum_over(x, b, env, m, (n - 1) as nat) + value(b, upd(env, x, m.dom[n - 1]), m)
    }
}

/// The values of the first `n` arguments.
pub open spec fn values(args: Seq<Term>, env: spec_fn(u32) -> int, m: Interp, n: nat) -> Seq<int>
    decreases args, n,
{
    if n == 0 || n > args.len() {
        seq![]
    } else {
        values(args, env, m, (n - 1) as nat).push(value(args[n - 1], env, m))
    }
}

/// The free variables of a term.
pub open spec fn free_vars(t: Term) -> Set<u32>
    decreases t, 0nat,
{
    match t {
        Term::Num(_) => Set::empty(),
        Term::Var(x) => set![x],
        Term::Add(a, b) => free_vars(*a).union(free_vars(*b)),
        Term::Min(a, b) => free_vars(*a).union(free_vars(*b)),
        Term::Mul(a, b) => free_vars(*a).union(free_vars(*b)),
        Term::Sum(x, b) => free_vars(*b).remove(x),
        Term::Let(x, e, b) => free_vars(*b).remove(x).union(free_vars(*e)),
        Term::Ind(a) => free_vars(*a),
        Term::Lt(a, b) => free_vars(*a).union(free_vars(*b)),
        Term::Leq(a, b) => free_vars(*a).union(free_vars(*b)),
        Term::Gt(a, b) => free_vars(*a).union(free_vars(*b)),
        Term::Geq(a, b) => free_vars(*a).union(free_vars(*b)),
        Term::Eq(a, b) => free_vars(*a).union(free_vars(*b)),
        Term::App(_, args) => args_free(args, args.len()),
    }
}

/// The free variables of the first `n` arguments.
pub open spec fn args_free(args: Seq<Term>, n: nat) -> Set<u32>
    decreases args, n,
{
    if n == 0 || n > args.len() {
        Set::empty()
    } else {
        args_free(args, (n - 1) as nat).union(free_vars(args[n - 1]))
    }
}

/// Two environments agree on every variable of `s`.
pub open spec fn agree(e1: spec_fn(u32) -> int, e2: spec_fn(u32) -> int, s: Set<u32>) -> bool {
    forall|y: u32| s.contains(y) ==> e1(y) == e2(y)
}

proof fn lemma_agree_union(e1: spec_fn(u32) -> int, e2: spec_fn(u32) -> int, a: Set<u32>, b: Set<u32>)
    requires
        agree(e1, e2, a.union(b)),
    ensures
        agree(e1, e2, a),
        agree(e1, e2, b),
{
    assert forall|y: u32| a.contains(y) implies e1(y) == e2(y) by {
        assert(a.union(b).contains(y));
    }
    assert forall|y: u32| b.contains(y) implies e1(y) == e2(y) by {
        assert(a.union(b).contains(y));
    }
}

proof fn lemma_agree_upd(e1: spec_fn(u32) -> int, e2: spec_fn(u32) -> int, s: Set<u32>, x: u32, d: int)
    requires
        agree(e1, e2, s.remove(x)),
    ensures
        agree(upd(e1, x, d), upd(e2, x, d), s),
{
    assert forall|y: u32| s.contains(y) implies upd(e1, x, d)(y) == upd(e2, x, d)(y) by {
        if y != x {
            assert(s.remove(x).contains(y));
        }
    }
}

/// A term's value depends only on its free variables.
pub proof fn lemma_value_depends_on_free_vars(
    t: Term,
    e1: spec_fn(u32) -> int,
    e2: spec_fn(u32) -> int,
    m: Interp,
)
    requires
        agree(e1, e2, free_vars(t)),
    ensures
        value(t, e1, m) == value(t, e2, m),
    decreases t, 0nat,
{
    match t {
        Term::Num(n) => {
            assert(value(t, e1, m) == n);
        },
        Term::Var(x) => {
            assert(free_vars(t).contains(x));
            assert(value(t, e1, m) == e1(x));
        },
        Term::Add(a, b) => {
            lemma_agree_union(e1, e2, free_vars(*a), free_vars(*b));
            lemma_value_depends_on_free_vars(*a, e1, e2, m);
            lemma_value_depends_on_free_vars(*b, e1, e2, m);
        },
        Term::Min(a, b) => {
            lemma_agree_union(e1, e2, free_vars(*a), free_vars(*b));
            lemma_value_depends_on_free_vars(*a, e1, e2, m);
            lemma_value_depends_on_free_vars(*b, e1, e2, m);
        },
        Term::Mul(a, b) => {
            lemma_agree_union(e1, e2, free_vars(*a), free_vars(*b));
            lemma_value_depends_on_free_vars(*a, e1, e2, m);
            lemma_value_depends_on_free_vars(*b, e1, e2, m);
        },
        Term::Sum(x, b) => {
            lemma_sum_depends_on_free_vars(x, *b, e1, e2, m, m.dom.len());
        },
        Term::Let(x, e, b) => {
            lemma_agree_union(e1, e2, free_vars(*b).remove(x), free_vars(*e));
            lemma_value_depends_on_free_vars(*e, e1, e2, m);
            let v = value(*e, e1, m);
            lemma_agree_upd(e1, e2, free_vars(*b), x, v);
            lemma_value_depends_on_free_vars(*b, upd(e1, x, v), upd(e2, x, v), m);
        },
        Term::Ind(a) => {
            lemma_value_depends_on_free_vars(*a, e1, e2, m);
        },
        Term::Lt(a, b) => {
            lemma_agree_union(e1, e2, free_vars(*a), free_vars(*b));
            lemma_value_depends_on_free_vars(*a, e1, e2, m);
            lemma_value_depends_on_free_vars(*b, e1, e2, m);
        },
        Term::Leq(a, b) => {
            lemma_agree_union(e1, e2, free_vars(*a), free_vars(*b));
            lemma_value_depends_on_free_vars(*a, e1, e2, m);
            lemma_value_depends_on_free_vars(*b, e1, e2, m);
        },
        Term::Gt(a, b) => {
            lemma_agree_union(e1, e2, free_vars(*a), free_vars(*b));
            lemma_value_depends_on_free_vars(*a, e1, e2, m);
            lemma_value_depends_on_free_vars(*b, e1, e2, m);
        },
        Term::Geq(a, b) => {
            lemma_agree_union(e1, e2, free_vars(*a), free_vars(*b));
            lemma_value_depends_on_free_vars(*a, e1, e2, m);
            lemma_value_depends_on_free_vars(*b, e1, e2, m);
        },
        Term::Eq(a, b) => {
            lemma_agree_union(e1, e2, free_vars(*a), free_vars(*b));
            lemma_value_depends_on_free_vars(*a, e1, e2, m);
            lemma_value_depends_on_free_vars(*b, e1, e2, m);
        },
        Term::App(f, args) => {
            lemma_values_depend_on_free_vars(args, e1, e2, m, args.len());
        },
    }
}

proof fn lemma_sum_depends_on_free_vars(
    x: u32,
    b: Term,
    e1: spec_fn(u32) -> int,
    e2: spec_fn(u32) -> int,
    m: Interp,
    n: nat,
)
    requires
        agree(e1, e2, free_vars(b).remove(x)),
    ensures
        sum_over(x, b, e1, m, n) == sum_over(x, b, e2, m, n),
    decreases b, n,
{
    if n > 0 && n <= m.dom.len() {
        lemma_sum_depends_on_free_vars(x, b, e1, e2, m, (n - 1) as nat);
        let d = m.dom[n - 1];
        lemma_agree_upd(e1, e2, free_vars(b), x, d);
        lemma_value_depends_on_free_vars(b, upd(e1, x, d), upd(e2, x, d), m);
    }
}

proof fn lemma_values_depend_on_free_vars(
    args: Seq<Term>,
    e1: spec_fn(u32) -> int,
    e2: spec_fn(u32) -> int,
    m: Interp,
    n: nat,
)
    requires
        agree(e1, e2, args_free(args, n)),
    ensures
        values(args, e1, m, n) == values(args, e2, m, n),
    decreases args, n,
{
    if n > 0 && n <= args.len() {
        lemma_agree_union(e1, e2, args_free(args, (n - 1) as nat), free_vars(args[n - 1]));
        lemma_values_depend_on_free_vars(args, e1, e2, m, (n - 1) as nat);
        lemma_value_depends_on_free_vars(args[n - 1], e1, e2, m);
    }
}

/// Updating a variable that is not free in a term leaves its value unchanged.
pub proof fn lemma_update_not_free(t: Term, env: spec_fn(u32) -> int, m: Interp, x: u32, d: int)
    requires
        !free_vars(t).contains(x),
    ensures
        value(t, upd(env, x, d), m) == value(t, env, m),
{
    assert forall|y: u32| free_vars(t).contains(y) implies upd(env, x, d)(y) == env(y) by {}
    lemma_value_depends_on_free_vars(t, upd(env, x, d), env, m);
}

/// The term a node stands for, given the terms its children stand for: a `var` node is
/// the variable named by its symbol child; the binder of a `sum` or `let` must be a
/// variable; a bare symbol is a constant and `rel` or any other operator an
/// uninterpreted function of its children's values.
pub open spec fn term_of(node: NodeModel, ts: Seq<Term>) -> Option<Term> {
    match node.op {
        OpModel::Num(n) => Some(Term::Num(n as int)),
        OpModel::Var => Some(Term::Var(node.children[0])),
        OpModel::Rel => Some(Term::App(seq!['r', 'e', 'l'], ts)),
        OpModel::Add => Some(Term::Add(Box::new(ts[0]), Box::new(ts[1]))),
        OpModel::Min => Some(Term::Min(Box::new(ts[0]), Box::new(ts[1]))),
        OpModel::Mul => Some(Term::Mul(Box::new(ts[0]), Box::new(ts[1]))),
        OpModel::Sum => match ts[0] {
            Term::Var(x) => Some(Term::Sum(x, Box::new(ts[1]))),
            _ => None,
        },
        OpModel::Let => match ts[0] {
            Term::Var(x) => Some(Term::Let(x, Box::new(ts[1]), Box::new(ts[2]))),
            _ => None,
        },
        OpModel::Ind => Some(Term::Ind(Box::new(ts[0]))),
        OpModel::Lt => Some(Term::Lt(Box::new(ts[0]), Box::new(ts[1]))),
        OpModel::Leq => Some(Term::Leq(Box::new(ts[0]), Box::new(ts[1]))),
        OpModel::Gt => Some(Term::Gt(Box::new(ts[0]), Box::new(ts[1]))),
        OpModel::Geq => Some(Term::Geq(Box::new(ts[0]), Box::new(ts[1]))),
        OpModel::Eq => Some(Term::Eq(Box::new(ts[0]), Box::new(ts[1]))),
        OpModel::Symbol(s) => Some(Term::App(s, seq![])),
        OpModel::Other(s) => Some(Term::App(s, ts)),
    }
}

/// A node with as many children as its operator takes, and a term for each child.
pub open spec fn well_shaped(node: NodeModel, n: nat) -> bool {
    &&& node.children.len() == n
    &&& arity_fits(node.op, n)
}

proof fn lemma_union_all_args(kids: Seq<Set<u32>>, ts: Seq<Term>, n: nat)
    requires
        n <= kids.len(),
        kids.len() == ts.len(),
        forall|i: int| 0 <= i < kids.len() ==> kids[i] == free_vars(#[trigger] ts[i]),
    ensures
        union_all(kids.take(n as int)) == args_free(ts, n),
    decreases n,
{
    if n > 0 {
        lemma_union_all_args(kids, ts, (n - 1) as nat);
        assert(kids.take(n as int).drop_last() =~= kids.take(n - 1));
    }
}

/// The free set the analysis gives a node is exactly the set of free variables of the
/// term the node stands for, when the children's sets are those of their terms.
pub proof fn lemma_free_of_is_exact(node: NodeModel, kids: Seq<Set<u32>>, ts: Seq<Term>, t: Term)
    requires
        well_shaped(node, ts.len()),
        kids.len() == ts.len(),
        forall|i: int| 0 <= i < kids.len() ==> kids[i] == free_vars(#[trigger] ts[i]),
        term_of(node, ts) == Some(t),
    ensures
        free_of(node, kids) == free_vars(t),
{
    match node.op {
        OpModel::Var => {},
        OpModel::Sum => {
            assert(kids[0] == free_vars(ts[0]));
            assert(kids[1] == free_vars(ts[1]));
            assert(free_of(node, kids) =~= free_vars(t));
        },
        OpModel::Let => {
            assert(kids[0] == free_vars(ts[0]));
            assert(kids[1] == free_vars(ts[1]));
            assert(kids[2] == free_vars(ts[2]));
            assert(free_of(node, kids) =~= free_vars(t));
        },
        OpModel::Rel | OpModel::Other(_) => {
            lemma_union_all_args(kids, ts, ts.len());
            assert(kids.take(kids.len() as int) =~= kids);
        },
        OpModel::Num(_) => {
            assert(union_all(kids) =~= Set::<u32>::empty());
        },
        OpModel::Symbol(_) => {
            assert(union_all(kids) =~= Set::<u32>::empty());
            assert(args_free(seq![], 0) =~= Set::<u32>::empty());
        },
        OpModel::Ind => {
            assert(kids[0] == free_vars(ts[0]));
            assert(kids.drop_last() =~= Seq::<Set<u32>>::empty());
            assert(union_all(kids.drop_last()) =~= Set::<u32>::empty());
            assert(union_all(kids) =~= free_vars(t));
        },
        _ => {
            assert(kids[0] == free_vars(ts[0]));
            assert(kids[1] == free_vars(ts[1]));
            assert(kids.drop_last().drop_last() =~= Seq::<Set<u32>>::empty());
            assert(union_all(kids.drop_last().drop_last()) =~= Set::<u32>::empty());
            assert(union_all(kids.drop_last()) =~= kids[0]);
            assert(union_all(kids) =~= free_vars(t));
        },
    }
}

/// The value of the term a node stands for depends only on the node's free set: two
/// environments that agree on it give it the same value.
pub proof fn lemma_free_of_covers_value(
    node: NodeModel,
    kids: Seq<Set<u32>>,
    ts: Seq<Term>,
    t: Term,
    e1: spec_fn(u32) -> int,
    e2: spec_fn(u32) -> int,
    m: Interp,
)
    requires
        well_shaped(node, ts.len()),
        kids.len() == ts.len(),
        forall|i: int| 0 <= i < kids.len() ==> kids[i] == free_vars(#[trigger] ts[i]),
        term_of(node, ts) == Some(t),
        agree(e1, e2, free_of(node, kids)),
    ensures
        value(t, e1, m) == value(t, e2, m),
{
    lemma_free_of_is_exact(node, kids, ts, t);
    lemma_value_depends_on_free_vars(t, e1, e2, m);
}

/// A constant folded for a node is the value of the term the node stands for, when
/// each child's known number is the value of its term.
pub proof fn lemma_folded_is_value(
    node: NodeModel,
    consts: Seq<Option<NodeModel>>,
    ts: Seq<Term>,
    t: Term,
    env: spec_fn(u32) -> int,
    m: Interp,
)
    requires
        well_shaped(node, ts.len()),
        consts.len() == ts.len(),
        forall|i: int|
            0 <= i < consts.len() && (#[trigger] number_of(consts[i])) is Some ==> value(ts[i], env, m)
                == number_of(consts[i])->0,
        fold_fits(node, consts),
        term_of(node, ts) == Some(t),
        folded(node, consts) is Some,
    ensures
        number_of(folded(node, consts)) is Some,
        value(t, env, m) == number_of(folded(node, consts))->0,
{
    match node.op {
        OpModel::Num(n) => {},
        _ => {
            assert(number_of(consts[0]) is Some);
            assert(number_of(consts[1]) is Some);
        },
    }
}

/// The terms `a` and `b` have the same value in every environment.
pub open spec fn same_value(a: Term, b: Term, m: Interp) -> bool {
    forall|env: spec_fn(u32) -> int| #[trigger] value(a, env, m) == value(b, env, m)
}

pub open spec fn plus(a: Term, b: Term) -> Term {
    Term::Add(Box::new(a), Box::new(b))
}

pub open spec fn minus(a: Term, b: Term) -> Term {
    Term::Min(Box::new(a), Box::new(b))
}

pub open spec fn times(a: Term, b: Term) -> Term {
    Term::Mul(Box::new(a), Box::new(b))
}

pub open spec fn sigma(x: u32, b: Term) -> Term {
    Term::Sum(x, Box::new(b))
}

pub open spec fn let_in(x: u32, e: Term, b: Term) -> Term {
    Term::Let(x, Box::new(e), Box::new(b))
}

pub open spec fn indicator(a: Term) -> Term {
    Term::Ind(Box::new(a))
}

pub open spec fn less(a: Term, b: Term) -> Term {
    Term::Lt(Box::new(a), Box::new(b))
}

pub open spec fn at_most(a: Term, b: Term) -> Term {
    Term::Leq(Box::new(a), Box::new(b))
}

pub open spec fn greater(a: Term, b: Term) -> Term {
    Term::Gt(Box::new(a), Box::new(b))
}

pub open spec fn equal(a: Term, b: Term) -> Term {
    Term::Eq(Box::new(a), Box::new(b))
}

/// `let-const`, and `let` of any term whose value does not depend on its variable:
/// `(let v e c)` is `c` where the value of `c` depends on no variable outside a set `s`
/// that lacks `v` (a constant depends on none).
pub proof fn lemma_let_not_free(x: u32, e: Term, c: Term, s: Set<u32>, m: Interp)
    requires
        depends_only_on(c, s, m),
        !s.contains(x),
    ensures
        same_value(let_in(x, e, c), c, m),
{
    reveal_with_fuel(value, 4);
    assert forall|env: spec_fn(u32) -> int| #[trigger] value(let_in(x, e, c), env, m) == value(c, env, m) by {
        assert(agree(upd(env, x, value(e, env, m)), env, s));
        assert(value(c, upd(env, x, value(e, env, m)), m) == value(c, env, m));
    }
}

/// `let-var-same`: `(let (var v) e (var v))` is `e`.
pub proof fn lemma_let_var_same(x: u32, e: Term, m: Interp)
    ensures
        same_value(let_in(x, e, Term::Var(x)), e, m),
{
    reveal_with_fuel(value, 4);
}

/// `let-var-diff`: `(let (var v1) e (var v2))` is `(var v2)` when `v1` and `v2` differ.
pub proof fn lemma_let_var_diff(x: u32, e: Term, y: u32, m: Interp)
    requires
        x != y,
    ensures
        same_value(let_in(x, e, Term::Var(y)), Term::Var(y), m),
{
    reveal_with_fuel(value, 4);
}

/// `let-sum-same`: `(let v e (sum v b))` is `(sum v b)`.
pub proof fn lemma_let_sum_same(x: u32, e: Term, b: Term, m: Interp)
    ensures
        same_value(let_in(x, e, sigma(x, b)), sigma(x, b), m),
{
    reveal_with_fuel(value, 4);
    lemma_depends_on_free_vars(sigma(x, b), m);
    lemma_let_not_free(x, e, sigma(x, b), free_vars(sigma(x, b)), m);
}

/// `let-add`: substitution goes into both sides of `+`.
pub proof fn lemma_let_add(x: u32, e: Term, a: Term, b: Term, m: Interp)
    ensures
        same_value(let_in(x, e, plus(a, b)), plus(let_in(x, e, a), let_in(x, e, b)), m),
{
    reveal_with_fuel(value, 4);
}

/// `let-eq`: substitution goes into both sides of `=`.
pub proof fn lemma_let_eq(x: u32, e: Term, a: Term, b: Term, m: Interp)
    ensures
        same_value(let_in(x, e, equal(a, b)), equal(let_in(x, e, a), let_in(x, e, b)), m),
{
    reveal_with_fuel(value, 4);
}

/// `add-comm`.
pub proof fn lemma_add_comm(a: Term, b: Term, m: Interp)
    ensures
        same_value(plus(a, b), plus(b, a), m),
{
    reveal_with_fuel(value, 4);
}

/// `add-assoc`.
pub proof fn lemma_add_assoc(a: Term, b: Term, c: Term, m: Interp)
    ensures
        same_value(plus(plus(a, b), c), plus(a, plus(b, c)), m),
{
    reveal_with_fuel(value, 4);
}

/// `mul-comm`.
pub proof fn lemma_mul_comm(a: Term, b: Term, m: Interp)
    ensures
        same_value(times(a, b), times(b, a), m),
{
    reveal_with_fuel(value, 4);
    assert forall|env: spec_fn(u32) -> int| #[trigger] value(times(a, b), env, m) == value(times(b, a), env, m) by {
        let (va, vb) = (value(a, env, m), value(b, env, m));
        assert(va * vb == vb * va) by (nonlinear_arith);
    }
}

/// `mul-assoc`.
pub proof fn lemma_mul_assoc(a: Term, b: Term, c: Term, m: Interp)
    ensures
        same_value(times(times(a, b), c), times(a, times(b, c)), m),
{
    reveal_with_fuel(value, 4);
    assert forall|env: spec_fn(u32) -> int|
        #[trigger] value(times(times(a, b), c), env, m) == value(times(a, times(b, c)), env, m) by {
        let (va, vb, vc) = (value(a, env, m), value(b, env, m), value(c, env, m));
        assert((va * vb) * vc == va * (vb * vc)) by (nonlinear_arith);
    }
}

/// `mul-1`: `(* a 1)` is `a`.
pub proof fn lemma_mul_one(a: Term, m: Interp)
    ensures
        same_value(times(a, Term::Num(1)), a, m),
{
    reveal_with_fuel(value, 4);
}

/// `subtract`: `(- a b)` is `(+ a (* -1 b))`.
pub proof fn lemma_subtract(a: Term, b: Term, m: Interp)
    ensures
        same_value(minus(a, b), plus(a, times(Term::Num(-1), b)), m),
{
    reveal_with_fuel(value, 4);
}

/// `eq-comm`.
pub proof fn lemma_eq_comm(a: Term, b: Term, m: Interp)
    ensures
        same_value(equal(a, b), equal(b, a), m),
{
    reveal_with_fuel(value, 4);
}

/// `add-mul-dist`: `(* (+ a b) c)` is `(+ (* a c) (* b c))`.
pub proof fn lemma_add_mul_dist(a: Term, b: Term, c: Term, m: Interp)
    ensures
        same_value(times(plus(a, b), c), plus(times(a, c), times(b, c)), m),
{
    reveal_with_fuel(value, 4);
    assert forall|env: spec_fn(u32) -> int|
        #[trigger] value(times(plus(a, b), c), env, m) == value(plus(times(a, c), times(b, c)), env, m) by {
        let (va, vb, vc) = (value(a, env, m), value(b, env, m), value(c, env, m));
        assert((va + vb) * vc == va * vc + vb * vc) by (nonlinear_arith);
    }
}

/// `pushdown-mul`: `(* a (+ b c))` is `(+ (* a b) (* a c))`.
pub proof fn lemma_pushdown_mul(a: Term, b: Term, c: Term, m: Interp)
    ensures
        same_value(times(a, plus(b, c)), plus(times(a, b), times(a, c)), m),
{
    reveal_with_fuel(value, 4);
    assert forall|env: spec_fn(u32) -> int|
        #[trigger] value(times(a, plus(b, c)), env, m) == value(plus(times(a, b), times(a, c)), env, m) by {
        let (va, vb, vc) = (value(a, env, m), value(b, env, m), value(c, env, m));
        assert(va * (vb + vc) == va * vb + va * vc) by (nonlinear_arith);
    }
}

/// `pushdown-mul-2`: `(* (+ b c) a)` is `(+ (* a b) (* a c))`.
pub proof fn lemma_pushdown_mul_2(a: Term, b: Term, c: Term, m: Interp)
    ensures
        same_value(times(plus(b, c), a), plus(times(a, b), times(a, c)), m),
{
    reveal_with_fuel(value, 4);
    assert forall|env: spec_fn(u32) -> int|
        #[trigger] value(times(plus(b, c), a), env, m) == value(plus(times(a, b), times(a, c)), env, m) by {
        let (va, vb, vc) = (value(a, env, m), value(b, env, m), value(c, env, m));
        assert((vb + vc) * va == va * vb + va * vc) by (nonlinear_arith);
    }
}

/// `l-49`: `(I (< j t))` is `(+ (I (< j (- t 1))) (I (= j (- t 1))))`.
pub proof fn lemma_l49(j: Term, t: Term, m: Interp)
    ensures
        same_value(
            indicator(less(j, t)),
            plus(indicator(less(j, minus(t, Term::Num(1)))), indicator(equal(j, minus(t, Term::Num(1))))),
            m,
        ),
{
    reveal_with_fuel(value, 6);
}

/// `l-51`: `(I (< j t))` is `(* (I (< j t)) (I (<= j t)))`.
pub proof fn lemma_l51(j: Term, t: Term, m: Interp)
    ensures
        same_value(indicator(less(j, t)), times(indicator(less(j, t)), indicator(at_most(j, t))), m),
{
    reveal_with_fuel(value, 4);
}

/// `l-52`: `(I (= j t))` is `(* (I (= j t)) (I (<= j t)))`.
pub proof fn lemma_l52(j: Term, t: Term, m: Interp)
    ensures
        same_value(indicator(equal(j, t)), times(indicator(equal(j, t)), indicator(at_most(j, t))), m),
{
    reveal_with_fuel(value, 4);
}

/// `l-53`: `(I (< j t))` is `(I (<= j (- t 1)))`.
pub proof fn lemma_l53(j: Term, t: Term, m: Interp)
    ensures
        same_value(indicator(less(j, t)), indicator(at_most(j, minus(t, Term::Num(1)))), m),
{
    reveal_with_fuel(value, 6);
}

/// `nat`: `(* (I (> (- a b) c)) (I (> a c)))` is `(I (> (- a b) c))` where `b` is never
/// negative.
pub proof fn lemma_nat(a: Term, b: Term, c: Term, m: Interp)
    requires
        forall|env: spec_fn(u32) -> int| #[trigger] value(b, env, m) >= 0,
    ensures
        same_value(times(indicator(greater(minus(a, b), c)), indicator(greater(a, c))), indicator(greater(minus(a, b), c)), m),
{
    reveal_with_fuel(value, 4);
    assert forall|env: spec_fn(u32) -> int|
        #[trigger] value(times(indicator(greater(minus(a, b), c)), indicator(greater(a, c))), env, m)
            == value(indicator(greater(minus(a, b), c)), env, m) by {
        assert(value(b, env, m) >= 0);
    }
}

/// `exclusion`: `(- 1 (I (<= a b)))` is `(I (> a b))`.
pub proof fn lemma_exclusion(a: Term, b: Term, m: Interp)
    ensures
        same_value(minus(Term::Num(1), indicator(at_most(a, b))), indicator(greater(a, b)), m),
{
    reveal_with_fuel(value, 4);
}

/// The uninterpreted function `pow` with second argument `0`.
pub open spec fn pow_zero(x: Term) -> Term {
    Term::App(seq!['p', 'o', 'w'], seq![x, Term::Num(0)])
}

/// What a reading gives `pow` of `v` and `0`.
pub open spec fn pow_zero_at(m: Interp, v: int) -> int {
    (m.apply)(seq!['p', 'o', 'w'], seq![v, 0])
}

/// `pow0`: `(pow x 0)` is `1`, for a reading in which `pow` of anything to `0` is `1`.
pub proof fn lemma_pow0(x: Term, m: Interp)
    requires
        forall|v: int| #[trigger] pow_zero_at(m, v) == 1,
    ensures
        same_value(pow_zero(x), Term::Num(1), m),
{
    reveal_with_fuel(value, 4);
    assert forall|env: spec_fn(u32) -> int|
        #[trigger] value(pow_zero(x), env, m) == value(Term::Num(1), env, m) by {
        let args = seq![x, Term::Num(0)];
        assert(values(args, env, m, 0) =~= Seq::<int>::empty());
        assert(values(args, env, m, 1) =~= seq![value(x, env, m)]);
        assert(value(args[1], env, m) == 0);
        assert(values(args, env, m, 2) =~= seq![value(x, env, m), 0]);
        assert(pow_zero_at(m, value(x, env, m)) == 1);
    }
}

proof fn lemma_sum_plus(x: u32, a: Term, b: Term, env: spec_fn(u32) -> int, m: Interp, n: nat)
    ensures
        sum_over(x, plus(a, b), env, m, n) == sum_over(x, a, env, m, n) + sum_over(x, b, env, m, n),
    decreases n,
{
    reveal_with_fuel(value, 4);
    if n > 0 && n <= m.dom.len() {
        lemma_sum_plus(x, a, b, env, m, (n - 1) as nat);
        let d = m.dom[n - 1];
        assert(value(plus(a, b), upd(env, x, d), m) == value(a, upd(env, x, d), m) + value(b, upd(env, x, d), m));
        assert(sum_over(x, plus(a, b), env, m, n) == sum_over(x, plus(a, b), env, m, (n - 1) as nat) + value(plus(a, b), upd(env, x, d), m));
        assert(sum_over(x, a, env, m, n) == sum_over(x, a, env, m, (n - 1) as nat) + value(a, upd(env, x, d), m));
    }
}

proof fn lemma_sum_scale(
    x: u32,
    b: Term,
    a: Term,
    s: Set<u32>,
    env: spec_fn(u32) -> int,
    m: Interp,
    n: nat,
)
    requires
        depends_only_on(b, s, m),
        !s.contains(x),
    ensures
        sum_over(x, times(b, a), env, m, n) == value(b, env, m) * sum_over(x, a, env, m, n),
    decreases n,
{
    reveal_with_fuel(value, 4);
    let vb = value(b, env, m);
    if n > 0 && n <= m.dom.len() {
        lemma_sum_scale(x, b, a, s, env, m, (n - 1) as nat);
        let d = m.dom[n - 1];
        assert(agree(upd(env, x, d), env, s));
        assert(value(b, upd(env, x, d), m) == vb);
        let rest = sum_over(x, a, env, m, (n - 1) as nat);
        let va = value(a, upd(env, x, d), m);
        assert(value(times(b, a), upd(env, x, d), m) == vb * va);
        assert(sum_over(x, times(b, a), env, m, n) == sum_over(x, times(b, a), env, m, (n - 1) as nat)
            + value(times(b, a), upd(env, x, d), m));
        assert(sum_over(x, a, env, m, n) == rest + va);
        assert(vb * (rest + va) == vb * rest + vb * va) by (nonlinear_arith);
    } else {
        assert(vb * 0 == 0);
    }
}

proof fn lemma_sum_congr(
    x1: u32,
    b1: Term,
    env1: spec_fn(u32) -> int,
    x2: u32,
    b2: Term,
    env2: spec_fn(u32) -> int,
    m: Interp,
    n: nat,
)
    requires
        forall|k: int|
            0 <= k < m.dom.len() ==> value(b1, upd(env1, x1, #[trigger] m.dom[k]), m) == value(
                b2,
                upd(env2, x2, m.dom[k]),
                m,
            ),
    ensures
        sum_over(x1, b1, env1, m, n) == sum_over(x2, b2, env2, m, n),
    decreases n,
{
    reveal_with_fuel(value, 4);
    if n > 0 && n <= m.dom.len() {
        lemma_sum_congr(x1, b1, env1, x2, b2, env2, m, (n - 1) as nat);
    }
}

/// Binding two different variables does not depend on the order.
proof fn lemma_upd_commute(e: Term, env: spec_fn(u32) -> int, m: Interp, x: u32, a: int, y: u32, b: int)
    requires
        x != y,
    ensures
        value(e, upd(upd(env, x, a), y, b), m) == value(e, upd(upd(env, y, b), x, a), m),
{
    reveal_with_fuel(value, 4);
    assert forall|z: u32| free_vars(e).contains(z) implies upd(upd(env, x, a), y, b)(z) == upd(
        upd(env, y, b),
        x,
        a,
    )(z) by {}
    lemma_value_depends_on_free_vars(e, upd(upd(env, x, a), y, b), upd(upd(env, y, b), x, a), m);
}

/// `add-sum-dist` and `pushdown-sum-add`: `(sum x (+ a b))` is `(+ (sum x a) (sum x b))`.
pub proof fn lemma_add_sum_dist(x: u32, a: Term, b: Term, m: Interp)
    ensures
        same_value(sigma(x, plus(a, b)), plus(sigma(x, a), sigma(x, b)), m),
{
    reveal_with_fuel(value, 4);
    assert forall|env: spec_fn(u32) -> int|
        #[trigger] value(sigma(x, plus(a, b)), env, m) == value(plus(sigma(x, a), sigma(x, b)), env, m) by {
        lemma_sum_plus(x, a, b, env, m, m.dom.len());
    }
}

/// `pushdown-sum-bound`: `(* b (sum x a))` is `(sum x (* b a))` where the value of `b`
/// depends on no variable outside a set `s` that lacks `x`, such as `b`'s free variables
/// or the free set the analysis gives `b`'s class.
pub proof fn lemma_pushdown_sum_bound(x: u32, b: Term, a: Term, s: Set<u32>, m: Interp)
    requires
        depends_only_on(b, s, m),
        !s.contains(x),
    ensures
        same_value(times(b, sigma(x, a)), sigma(x, times(b, a)), m),
{
    reveal_with_fuel(value, 4);
    assert forall|env: spec_fn(u32) -> int|
        #[trigger] value(times(b, sigma(x, a)), env, m) == value(sigma(x, times(b, a)), env, m) by {
        lemma_sum_scale(x, b, a, s, env, m, m.dom.len());
    }
}

/// `pushdown-sum-free`: `(* b (sum x a))` is `(sum f (* b (let x f a)))` for a variable
/// `f` free in neither `b` nor `a` (or `x` itself): the summed variable is renamed so
/// that `b` can move under the sum.
pub proof fn lemma_pushdown_sum_free(x: u32, b: Term, a: Term, f: u32, m: Interp)
    requires
        !free_vars(b).contains(f),
        f == x || !free_vars(a).contains(f),
    ensures
        same_value(times(b, sigma(x, a)), sigma(f, times(b, let_in(x, Term::Var(f), a))), m),
{
    reveal_with_fuel(value, 4);
    assert forall|env: spec_fn(u32) -> int|
        #[trigger] value(times(b, sigma(x, a)), env, m) == value(
            sigma(f, times(b, let_in(x, Term::Var(f), a))),
            env,
            m,
        ) by {
        let l = let_in(x, Term::Var(f), a);
        lemma_depends_on_free_vars(b, m);
        lemma_sum_scale(f, b, l, free_vars(b), env, m, m.dom.len());
        assert forall|k: int| 0 <= k < m.dom.len() implies value(
            a,
            upd(env, x, #[trigger] m.dom[k]),
            m,
        ) == value(l, upd(env, f, m.dom[k]), m) by {
            let d = m.dom[k];
            let e2 = upd(upd(env, f, d), x, d);
            assert(value(l, upd(env, f, d), m) == value(a, e2, m));
            assert forall|z: u32| free_vars(a).contains(z) implies upd(env, x, d)(z) == e2(z) by {}
            lemma_value_depends_on_free_vars(a, upd(env, x, d), e2, m);
        }
        lemma_sum_congr(x, a, env, f, l, env, m, m.dom.len());
    }
}

/// `let-sum-diff` where no variable is captured: `(let v1 e (sum v2 b))` is
/// `(sum v2 (let v1 e b))` when `v1` and `v2` differ and the value of `e` depends on no
/// variable outside a set `s` that lacks `v2`, such as `e`'s free variables or the free
/// set the analysis gives `e`'s class.
pub proof fn lemma_let_sum_diff(x: u32, e: Term, y: u32, b: Term, s: Set<u32>, m: Interp)
    requires
        x != y,
        depends_only_on(e, s, m),
        !s.contains(y),
    ensures
        same_value(let_in(x, e, sigma(y, b)), sigma(y, let_in(x, e, b)), m),
{
    reveal_with_fuel(value, 4);
    assert forall|env: spec_fn(u32) -> int|
        #[trigger] value(let_in(x, e, sigma(y, b)), env, m) == value(sigma(y, let_in(x, e, b)), env, m) by {
        let v = value(e, env, m);
        let env1 = upd(env, x, v);
        assert forall|k: int| 0 <= k < m.dom.len() implies value(b, upd(env1, y, #[trigger] m.dom[k]), m)
            == value(let_in(x, e, b), upd(env, y, m.dom[k]), m) by {
            let d = m.dom[k];
            assert(agree(upd(env, y, d), env, s));
            assert(value(e, upd(env, y, d), m) == v);
            lemma_upd_commute(b, env, m, x, v, y, d);
        }
        lemma_sum_congr(y, b, env1, y, let_in(x, e, b), env, m, m.dom.len());
    }
}

/// `let-sum-diff` where `v2` is free in `e`: `(let v1 e (sum v2 b))` is
/// `(sum f (let v1 e (let v2 f b)))` for a fresh variable `f`, one other than `v1` and
/// free in neither `e` nor `b` (or `v2` itself), so that `e` is not captured.
pub proof fn lemma_let_sum_rename(x: u32, e: Term, y: u32, b: Term, f: u32, m: Interp)
    requires
        x != y,
        f != x,
        !free_vars(e).contains(f),
        f == y || !free_vars(b).contains(f),
    ensures
        same_value(
            let_in(x, e, sigma(y, b)),
            sigma(f, let_in(x, e, let_in(y, Term::Var(f), b))),
            m,
        ),
{
    reveal_with_fuel(value, 4);
    assert forall|env: spec_fn(u32) -> int|
        #[trigger] value(let_in(x, e, sigma(y, b)), env, m) == value(
            sigma(f, let_in(x, e, let_in(y, Term::Var(f), b))),
            env,
            m,
        ) by {
        let v = value(e, env, m);
        let env1 = upd(env, x, v);
        let r = let_in(x, e, let_in(y, Term::Var(f), b));
        assert forall|k: int| 0 <= k < m.dom.len() implies value(b, upd(env1, y, #[trigger] m.dom[k]), m)
            == value(r, upd(env, f, m.dom[k]), m) by {
            let d = m.dom[k];
            lemma_update_not_free(e, env, m, f, d);
            let e2 = upd(upd(upd(env, f, d), x, v), y, d);
            assert(value(r, upd(env, f, d), m) == value(b, e2, m));
            assert forall|z: u32| free_vars(b).contains(z) implies upd(env1, y, d)(z) == e2(z) by {}
            lemma_value_depends_on_free_vars(b, upd(env1, y, d), e2, m);
        }
        lemma_sum_congr(y, b, env1, f, r, env, m, m.dom.len());
    }
}

/// The sum, over the first `p` values bound to `x`, of the sum of `e` over the first
/// `q` values bound to `y`.
pub open spec fn grid(x: u32, y: u32, e: Term, env: spec_fn(u32) -> int, m: Interp, p: nat, q: nat) -> int
    decreases p,
{
    if p == 0 || p > m.dom.len() {
        0
    } else {
        grid(x, y, e, env, m, (p - 1) as nat, q) + sum_over(y, e, upd(env, x, m.dom[p - 1]), m, q)
    }
}

proof fn lemma_grid_full(x: u32, y: u32, e: Term, env: spec_fn(u32) -> int, m: Interp, p: nat)
    ensures
        grid(x, y, e, env, m, p, m.dom.len()) == sum_over(x, sigma(y, e), env, m, p),
    decreases p,
{
    reveal_with_fuel(value, 2);
    if p > 0 && p <= m.dom.len() {
        lemma_grid_full(x, y, e, env, m, (p - 1) as nat);
        let d = m.dom[p - 1];
        assert(value(sigma(y, e), upd(env, x, d), m) == sum_over(y, e, upd(env, x, d), m, m.dom.len()));
        assert(sum_over(x, sigma(y, e), env, m, p) == sum_over(x, sigma(y, e), env, m, (p - 1) as nat)
            + value(sigma(y, e), upd(env, x, d), m));
    }
}

proof fn lemma_grid_empty(x: u32, y: u32, e: Term, env: spec_fn(u32) -> int, m: Interp, q: nat)
    ensures
        grid(x, y, e, env, m, q, 0) == 0,
    decreases q,
{
    if q > 0 && q <= m.dom.len() {
        lemma_grid_empty(x, y, e, env, m, (q - 1) as nat);
    }
}

/// Peeling the last value of the inner sum off a grid.
proof fn lemma_grid_peel(x: u32, y: u32, e: Term, env: spec_fn(u32) -> int, m: Interp, q: nat, p: nat)
    requires
        x != y,
        1 <= p <= m.dom.len(),
        q <= m.dom.len(),
    ensures
        grid(y, x, e, env, m, q, p) == grid(y, x, e, env, m, q, (p - 1) as nat) + sum_over(
            y,
            e,
            upd(env, x, m.dom[p - 1]),
            m,
            q,
        ),
    decreases q,
{
    reveal_with_fuel(value, 2);
    if q > 0 {
        lemma_grid_peel(x, y, e, env, m, (q - 1) as nat, p);
        let dq = m.dom[q - 1];
        let dp = m.dom[p - 1];
        lemma_upd_commute(e, env, m, y, dq, x, dp);
        assert(sum_over(x, e, upd(env, y, dq), m, p) == sum_over(x, e, upd(env, y, dq), m, (p - 1) as nat)
            + value(e, upd(upd(env, y, dq), x, dp), m));
        assert(sum_over(y, e, upd(env, x, dp), m, q) == sum_over(y, e, upd(env, x, dp), m, (q - 1) as nat)
            + value(e, upd(upd(env, x, dp), y, dq), m));
    }
}

proof fn lemma_grid_swap(x: u32, y: u32, e: Term, env: spec_fn(u32) -> int, m: Interp, p: nat, q: nat)
    requires
        x != y,
        p <= m.dom.len(),
        q <= m.dom.len(),
    ensures
        grid(x, y, e, env, m, p, q) == grid(y, x, e, env, m, q, p),
    decreases p,
{
    if p == 0 {
        lemma_grid_empty(y, x, e, env, m, q);
    } else {
        lemma_grid_swap(x, y, e, env, m, (p - 1) as nat, q);
        lemma_grid_peel(x, y, e, env, m, q, p);
    }
}

/// `swap-sum`: `(sum x (sum y e))` is `(sum y (sum x e))`.
pub proof fn lemma_swap_sum(x: u32, y: u32, e: Term, m: Interp)
    ensures
        same_value(sigma(x, sigma(y, e)), sigma(y, sigma(x, e)), m),
{
    if x != y {
        assert forall|env: spec_fn(u32) -> int|
            #[trigger] value(sigma(x, sigma(y, e)), env, m) == value(sigma(y, sigma(x, e)), env, m) by {
            let n = m.dom.len();
            lemma_grid_full(x, y, e, env, m, n);
            lemma_grid_full(y, x, e, env, m, n);
            lemma_grid_swap(x, y, e, env, m, n, n);
        }
    }
}

proof fn lemma_pick_sum(w: u32, x: Term, env: spec_fn(u32) -> int, m: Interp, n: nat)
    requires
        !free_vars(x).contains(w),
        m.dom.no_duplicates(),
        n <= m.dom.len(),
    ensures
        sum_over(w, times(Term::Var(w), indicator(equal(x, Term::Var(w)))), env, m, n) == if m.dom.take(
            n as int,
        ).contains(value(x, env, m)) {
            value(x, env, m)
        } else {
            0
        },
    decreases n,
{
    reveal_with_fuel(value, 5);
    let body = times(Term::Var(w), indicator(equal(x, Term::Var(w))));
    let v = value(x, env, m);
    if n > 0 {
        lemma_pick_sum(w, x, env, m, (n - 1) as nat);
        let d = m.dom[n - 1];
        lemma_update_not_free(x, env, m, w, d);
        assert(value(body, upd(env, w, d), m) == d * truth(truth(v == d) != 0));
        assert(value(body, upd(env, w, d), m) == if v == d { v } else { 0 });
        assert(m.dom.take(n as int) =~= m.dom.take(n - 1).push(d));
        if v == d {
            assert(!m.dom.take(n - 1).contains(v)) by {
                if m.dom.take(n - 1).contains(v) {
                    let k = choose|k: int| 0 <= k < n - 1 && #[trigger] m.dom.take(n - 1)[k] == v;
                    assert(m.dom[k] == m.dom[n - 1]);
                }
            }
        }
        assert(m.dom.take(n as int).contains(v) <==> (m.dom.take(n - 1).contains(v) || v == d)) by {
            if v == d {
                assert(m.dom.take(n as int)[n - 1] == d);
            }
            if m.dom.take(n - 1).contains(v) {
                let k = choose|k: int| 0 <= k < n - 1 && #[trigger] m.dom.take(n - 1)[k] == v;
                assert(m.dom.take(n as int)[k] == v);
            }
        }
    } else {
        assert(m.dom.take(0) =~= Seq::<int>::empty());
    }
}

/// `trivial`: `(sum w (* w (I (= x w))))` is `x`, when `w` is not free in `x`, no value
/// is summed over twice, and the value of `x` is among those summed over.
pub proof fn lemma_trivial(w: u32, x: Term, m: Interp)
    requires
        !free_vars(x).contains(w),
        m.dom.no_duplicates(),
    ensures
        forall|env: spec_fn(u32) -> int|
            m.dom.contains(value(x, env, m)) ==> #[trigger] value(
                sigma(w, times(Term::Var(w), indicator(equal(x, Term::Var(w))))),
                env,
                m,
            ) == value(x, env, m),
{
    assert forall|env: spec_fn(u32) -> int| m.dom.contains(value(x, env, m)) implies #[trigger] value(
        sigma(w, times(Term::Var(w), indicator(equal(x, Term::Var(w))))),
        env,
        m,
    ) == value(x, env, m) by {
        lemma_pick_sum(w, x, env, m, m.dom.len());
        assert(m.dom.take(m.dom.len() as int) =~= m.dom);
    }
}

/// The value of `t` depends on no variable outside `s`.
pub open spec fn depends_only_on(t: Term, s: Set<u32>, m: Interp) -> bool {
    forall|e1: spec_fn(u32) -> int, e2: spec_fn(u32) -> int|
        #![trigger value(t, e1, m), value(t, e2, m)]
        agree(e1, e2, s) ==> value(t, e1, m) == value(t, e2, m)
}

/// A term's value depends on no variable outside its free variables.
pub proof fn lemma_depends_on_free_vars(t: Term, m: Interp)
    ensures
        depends_only_on(t, free_vars(t), m),
{
    assert forall|e1: spec_fn(u32) -> int, e2: spec_fn(u32) -> int|
        #![trigger value(t, e1, m), value(t, e2, m)]
        agree(e1, e2, free_vars(t)) implies value(t, e1, m) == value(t, e2, m) by {
        lemma_value_depends_on_free_vars(t, e1, e2, m);
    }
}

/// Merging two classes keeps only the variables free in both; that loses nothing: if
/// two terms have the same value, and one depends only on `a` and the other only on `b`,
/// then each depends only on what `a` and `b` share.
pub proof fn lemma_merged_free_covers(t1: Term, t2: Term, a: Set<u32>, b: Set<u32>, m: Interp)
    requires
        same_value(t1, t2, m),
        depends_only_on(t1, a, m),
        depends_only_on(t2, b, m),
    ensures
        depends_only_on(t1, a.intersect(b), m),
        depends_only_on(t2, a.intersect(b), m),
{
    assert forall|e1: spec_fn(u32) -> int, e2: spec_fn(u32) -> int|
        #![trigger value(t1, e1, m), value(t1, e2, m)]
        #![trigger value(t2, e1, m), value(t2, e2, m)]
        agree(e1, e2, a.intersect(b)) implies value(t1, e1, m) == value(t1, e2, m) && value(t2, e1, m)
            == value(t2, e2, m) by {
        let e3 = |y: u32|
            if a.contains(y) {
                e1(y)
            } else {
                e2(y)
            };
        assert(agree(e1, e3, a));
        assert forall|y: u32| b.contains(y) implies e3(y) == e2(y) by {
            if a.contains(y) {
                assert(a.intersect(b).contains(y));
            }
        }
        assert(value(t1, e1, m) == value(t1, e3, m));
        assert(value(t2, e3, m) == value(t2, e2, m));
        assert(value(t1, e3, m) == value(t2, e3, m));
        assert(value(t1, e2, m) == value(t2, e2, m));
        assert(value(t1, e1, m) == value(t2, e1, m));
    }
}

} // verus!
