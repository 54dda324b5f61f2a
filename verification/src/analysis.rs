//! What is known of each e-class: the variables free in it and, where it folds
//! to one, its constant value.
use vstd::prelude::*;
use std::collections::HashSet;
use vstd::std_specs::iter::IteratorSpec;
use crate::lang::{NodeModel, OpModel, Semiring};

verus! {

broadcast use vstd::std_specs::hash::group_hash_axioms;

/// The data of an e-class.
#[derive(Debug)]
pub struct Data {
    /// The free variables, each named by the id of the symbol under its `var` tag.
    pub free: HashSet<u32>,
    /// The literal the class folds to, if any.
    pub constant: Option<Semiring>,
}

pub struct DataModel {
    pub free: Set<u32>,
    pub constant: Option<NodeModel>,
}

pub open spec fn node_opt_view(c: Option<Semiring>) -> Option<NodeModel> {
    match c {
        Some(n) => Some(n@),
        None => None,
    }
}

impl View for Data {
    type V = DataModel;

    open spec fn view(&self) -> DataModel {
        DataModel { free: self.free@, constant: node_opt_view(self.constant) }
    }
}

/// The union of a sequence of sets.
pub open spec fn union_all(sets: Seq<Set<u32>>) -> Set<u32>
    decreases sets.len(),
{
    if sets.len() == 0 {
        Set::empty()
    } else {
        union_all(sets.drop_last()).union(sets.last())
    }
}

/// The free variables of each child's data, in order.
pub open spec fn kid_free(kids: Seq<Data>) -> Seq<Set<u32>> {
    kids.map_values(|d: Data| d@.free)
}

/// The constant of each child's data, in order.
pub open spec fn kid_constants(kids: Seq<Data>) -> Seq<Option<NodeModel>> {
    kids.map_values(|d: Data| d@.constant)
}

/// The free variables of a node, from those of its children. A variable is named by
/// the id of the symbol class under its `var` tag, so `(var x)` has `x` free. A binder
/// is written with the tag, `(sum (var i) a)` and `(let (var v) e b)`: the binder class
/// has the bound variable free, and the binder's free variables are removed from the
/// body's. So `(let v e b)` has those of `b` but `v`'s, and those of `e`; `(sum v a)`
/// has those of `a` but `v`'s; any other node has those of all its children.
pub open spec fn free_of(node: NodeModel, kids: Seq<Set<u32>>) -> Set<u32> {
    match node.op {
        OpModel::Var => set![node.children[0]],
        OpModel::Let => kids[2].difference(kids[0]).union(kids[1]),
        OpModel::Sum => kids[1].difference(kids[0]),
        _ => union_all(kids),
    }
}

/// The number a constant is, if it is a literal.
pub open spec fn number_of(c: Option<NodeModel>) -> Option<i32> {
    match c {
        Some(node) => match node.op {
            OpModel::Num(n) => Some(n),
            _ => None,
        },
        None => None,
    }
}

pub open spec fn literal(n: i32) -> NodeModel {
    NodeModel { op: OpModel::Num(n), children: seq![] }
}

/// The integer value of `+`, `-` or `*` applied to `a` and `b`.
pub open spec fn apply_arith(op: OpModel, a: int, b: int) -> int {
    match op {
        OpModel::Add => a + b,
        OpModel::Min => a - b,
        _ => a * b,
    }
}

pub open spec fn is_arith(op: OpModel) -> bool {
    op == OpModel::Add || op == OpModel::Min || op == OpModel::Mul
}

/// Folding a node does not leave `i32`: where `+`, `-` or `*` has two literal children,
/// their result fits.
pub open spec fn fold_fits(node: NodeModel, consts: Seq<Option<NodeModel>>) -> bool {
    is_arith(node.op) && number_of(consts[0]) is Some && number_of(consts[1]) is Some ==> {
        let v = apply_arith(node.op, number_of(consts[0])->0 as int, number_of(consts[1])->0 as int);
        i32::MIN <= v <= i32::MAX
    }
}

/// The constant a node folds to: a literal is itself; `+`, `-` and `*` of two literal
/// children is the literal of their sum, difference or product; nothing else folds.
pub open spec fn folded(node: NodeModel, consts: Seq<Option<NodeModel>>) -> Option<NodeModel> {
    match node.op {
        OpModel::Num(n) => Some(literal(n)),
        _ => if is_arith(node.op) && number_of(consts[0]) is Some && number_of(consts[1]) is Some {
            Some(
                literal(
                    apply_arith(
                        node.op,
                        number_of(consts[0])->0 as int,
                        number_of(consts[1])->0 as int,
                    ) as i32,
                ),
            )
        } else {
            None
        },
    }
}

/// Every literal, negative ones included, folds to itself, whatever its children's data.
pub proof fn lemma_literal_folds_to_itself(node: NodeModel, consts: Seq<Option<NodeModel>>, n: i32)
    requires
        node.op == OpModel::Num(n),
    ensures
        folded(node, consts) == Some(NodeModel { op: OpModel::Num(n), children: seq![] }),
{
}

/// `+`, `-` and `*` of two children with known numbers `a` and `b` fold to the literal
/// of `a + b`, `a - b` or `a * b`, where it fits.
pub proof fn lemma_arith_of_literals_folds(node: NodeModel, consts: Seq<Option<NodeModel>>, a: i32, b: i32)
    requires
        node.op == OpModel::Add || node.op == OpModel::Min || node.op == OpModel::Mul,
        number_of(consts[0]) == Some(a),
        number_of(consts[1]) == Some(b),
        fold_fits(node, consts),
    ensures
        folded(node, consts) is Some,
        node.op == OpModel::Add ==> number_of(folded(node, consts)) == Some((a + b) as i32) && a + b
            == (a + b) as i32,
        node.op == OpModel::Min ==> number_of(folded(node, consts)) == Some((a - b) as i32) && a - b
            == (a - b) as i32,
        node.op == OpModel::Mul ==> number_of(folded(node, consts)) == Some((a * b) as i32) && a * b
            == (a * b) as i32,
{
}

/// Nothing else folds: a node has a constant only if it is a literal, or `+`, `-`, `*`
/// of two children with known numbers.
pub proof fn lemma_only_literals_fold(node: NodeModel, consts: Seq<Option<NodeModel>>)
    ensures
        folded(node, consts) is Some <==> (node.op is Num || ((node.op == OpModel::Add || node.op
            == OpModel::Min || node.op == OpModel::Mul) && number_of(consts[0]) is Some && number_of(
            consts[1],
        ) is Some)),
{
}

/// Whether two constants can be merged: they agree wherever both are known.
pub open spec fn constants_agree(a: Option<NodeModel>, b: Option<NodeModel>) -> bool {
    a is Some && b is Some ==> a == b
}

/// The constant a merge keeps: the one already there, else the incoming one.
pub open spec fn merged_constant(to: Option<NodeModel>, from: Option<NodeModel>) -> Option<
    NodeModel,
> {
    if to is Some {
        to
    } else {
        from
    }
}

/// A constant known of a class is always a literal.
pub open spec fn constant_is_literal(c: Option<NodeModel>) -> bool {
    c is Some ==> number_of(c) is Some && c == Some(literal(number_of(c)->0))
}

/// What a node folds to is a literal, if anything.
pub proof fn lemma_folds_to_literal(node: NodeModel, consts: Seq<Option<NodeModel>>)
    ensures
        constant_is_literal(folded(node, consts)),
{
}

/// Merging keeps constants literal: if both sides hold only literals, so does the result.
pub proof fn lemma_merge_keeps_literals(to: Option<NodeModel>, from: Option<NodeModel>)
    requires
        constant_is_literal(to),
        constant_is_literal(from),
    ensures
        constant_is_literal(merged_constant(to, from)),
{
}

/// Merging a class's data with equal data changes nothing.
pub proof fn lemma_merge_same_is_noop(d: DataModel)
    ensures
        d.free.intersect(d.free) == d.free,
        merged_constant(d.constant, d.constant) == d.constant,
{
    assert(d.free.intersect(d.free) =~= d.free);
}

/// Merging `b` into `a` and merging `a` into `b` give the same data, when their
/// constants agree.
pub proof fn lemma_merge_symmetric(a: DataModel, b: DataModel)
    requires
        constants_agree(a.constant, b.constant),
    ensures
        a.free.intersect(b.free) == b.free.intersect(a.free),
        merged_constant(a.constant, b.constant) == merged_constant(b.constant, a.constant),
{
    assert(a.free.intersect(b.free) =~= b.free.intersect(a.free));
}

/// Merging in two classes one after the other does not depend on their order, when
/// all constants agree.
pub proof fn lemma_merge_commutes(a: DataModel, b: DataModel, c: DataModel)
    requires
        constants_agree(a.constant, b.constant),
        constants_agree(a.constant, c.constant),
        constants_agree(b.constant, c.constant),
    ensures
        a.free.intersect(b.free).intersect(c.free) == a.free.intersect(c.free).intersect(b.free),
        merged_constant(merged_constant(a.constant, b.constant), c.constant) == merged_constant(
            merged_constant(a.constant, c.constant),
            b.constant,
        ),
{
    assert(a.free.intersect(b.free).intersect(c.free) =~= a.free.intersect(c.free).intersect(
        b.free,
    ));
}

/// Merging never adds free variables.
pub proof fn lemma_merge_shrinks_free(a: DataModel, b: DataModel)
    ensures
        a.free.intersect(b.free).subset_of(a.free),
        a.free.intersect(b.free).subset_of(b.free),
{
}

/// The variables a `sum` binds (those free in its binder `(var i)`) are not free in it.
pub proof fn lemma_sum_binds(node: NodeModel, kids: Seq<Set<u32>>, x: u32)
    requires
        node.op == OpModel::Sum,
        kids[0].contains(x),
    ensures
        !free_of(node, kids).contains(x),
{
}

/// The variables a `let` binds (those free in its binder `(var v)`) are free in it only
/// where they are free in the bound value.
pub proof fn lemma_let_binds(node: NodeModel, kids: Seq<Set<u32>>, x: u32)
    requires
        node.op == OpModel::Let,
        kids[0].contains(x),
    ensures
        free_of(node, kids).contains(x) <==> kids[1].contains(x),
{
}

/// A variable free in the body of a `sum` stays free unless its binder binds it.
pub proof fn lemma_sum_keeps_others(node: NodeModel, kids: Seq<Set<u32>>, x: u32)
    requires
        node.op == OpModel::Sum,
        kids[1].contains(x),
        !kids[0].contains(x),
    ensures
        free_of(node, kids).contains(x),
{
}

/// Whether two sets have an element in common.
pub open spec fn shares(a: Set<u32>, b: Set<u32>) -> bool {
    exists|x: u32| a.contains(x) && b.contains(x)
}

/// Removes every element of `from` from `into`.
fn remove_all(into: &mut HashSet<u32>, from: &HashSet<u32>)
    ensures
        final(into)@ == old(into)@.difference(from@),
{
    let ghost keys = from.iter().remaining().unref();
    let ghost start = into@;
    proof {
        assert(keys.to_set() == from@);
    }
    for x in it: from.iter()
        invariant
            it.seq().unref() == keys,
            into@ == start.difference(keys.take(it.index()).to_set()),
    {
        proof {
            assert(keys.take(it.index() + 1) == keys.take(it.index()).push(*x));
            broadcast use vstd::seq_lib::group_seq_properties;

        }
        into.remove(x);
        proof {
            assert(keys.take(it.index() + 1).to_set() =~= keys.take(it.index()).to_set().insert(*x));
            assert(into@ =~= start.difference(keys.take(it.index() + 1).to_set()));
        }
    }
    proof {
        assert(keys.take(keys.len() as int) == keys);
    }
}

/// Whether some element of `b` is in `a`.
fn meets(a: &HashSet<u32>, b: &HashSet<u32>) -> (r: bool)
    ensures
        r == shares(b@, a@),
{
    let ghost keys = b.iter().remaining().unref();
    proof {
        assert(keys.to_set() == b@);
    }
    for x in it: b.iter()
        invariant
            it.seq().unref() == keys,
            keys.to_set() == b@,
            forall|y: u32| keys.take(it.index()).to_set().contains(y) ==> !a@.contains(y),
    {
        proof {
            assert(keys.take(it.index() + 1) == keys.take(it.index()).push(*x));
            broadcast use vstd::seq_lib::group_seq_properties;

        }
        if a.contains(x) {
            proof {
                assert(keys.contains(*x));
                assert(b@.contains(*x));
            }
            return true;
        }
        proof {
            assert(keys.take(it.index() + 1).to_set() =~= keys.take(it.index()).to_set().insert(*x));
        }
    }
    proof {
        assert(keys.take(keys.len() as int) == keys);
    }
    false
}

/// Adds every element of `from` to `into`.
fn extend_set(into: &mut HashSet<u32>, from: &HashSet<u32>)
    ensures
        final(into)@ == old(into)@.union(from@),
{
    let ghost keys = from.iter().remaining().unref();
    let ghost start = into@;
    proof {
        assert(keys.to_set() == from@);
    }
    for x in it: from.iter()
        invariant
            it.seq().unref() == keys,
            into@ == start.union(keys.take(it.index()).to_set()),
    {
        proof {
            assert(keys.take(it.index() + 1) == keys.take(it.index()).push(*x));
            broadcast use vstd::seq_lib::group_seq_properties;

        }
        into.insert(*x);
        proof {
            assert(keys.take(it.index() + 1).to_set() =~= keys.take(it.index()).to_set().insert(*x));
            assert(into@ =~= start.union(keys.take(it.index() + 1).to_set()));
        }
    }
    proof {
        assert(keys.take(keys.len() as int) == keys);
    }
}

/// The elements of `a` that are also in `b`.
fn intersect_sets(a: &HashSet<u32>, b: &HashSet<u32>) -> (r: HashSet<u32>)
    ensures
        r@ == a@.intersect(b@),
{
    let mut r: HashSet<u32> = HashSet::new();
    let ghost keys = a.iter().remaining().unref();
    proof {
        assert(keys.to_set() == a@);
    }
    for x in it: a.iter()
        invariant
            it.seq().unref() == keys,
            r@ == keys.take(it.index()).to_set().intersect(b@),
    {
        proof {
            assert(keys.take(it.index() + 1) == keys.take(it.index()).push(*x));
            broadcast use vstd::seq_lib::group_seq_properties;

        }
        if b.contains(x) {
            r.insert(*x);
        }
        proof {
            assert(keys.take(it.index() + 1).to_set() =~= keys.take(it.index()).to_set().insert(*x));
        }
    }
    proof {
        assert(keys.take(keys.len() as int) == keys);
    }
    r
}

/// Whether every element of `a` is in `b`.
fn subset_of(a: &HashSet<u32>, b: &HashSet<u32>) -> (r: bool)
    ensures
        r == a@.subset_of(b@),
{
    let ghost keys = a.iter().remaining().unref();
    proof {
        assert(keys.to_set() == a@);
    }
    for x in it: a.iter()
        invariant
            it.seq().unref() == keys,
            keys.to_set() == a@,
            keys.take(it.index()).to_set().subset_of(b@),
    {
        proof {
            assert(keys.take(it.index() + 1) == keys.take(it.index()).push(*x));
            broadcast use vstd::seq_lib::group_seq_properties;

        }
        if !b.contains(x) {
            proof {
                assert(keys.contains(*x));
                assert(a@.contains(*x));
            }
            return false;
        }
        proof {
            assert(keys.take(it.index() + 1).to_set() =~= keys.take(it.index()).to_set().insert(*x));
        }
    }
    proof {
        assert(keys.take(keys.len() as int) == keys);
    }
    true
}

/// Whether two sets hold the same elements.
fn same_set(a: &HashSet<u32>, b: &HashSet<u32>) -> (r: bool)
    ensures
        r == (a@ == b@),
{
    let ab = subset_of(a, b);
    let ba = subset_of(b, a);
    proof {
        if ab && ba {
            assert(a@ =~= b@);
        }
    }
    ab && ba
}

fn same_constant(a: &Option<Semiring>, b: &Option<Semiring>) -> (r: bool)
    ensures
        r == (node_opt_view(*a) == node_opt_view(*b)),
{
    match (a, b) {
        (Some(x), Some(y)) => x.same_as(y),
        (None, None) => true,
        _ => false,
    }
}

/// The analysis of semiring e-classes: how data is made for a new node and how the
/// data of two merged classes is combined.
#[derive(Default, Clone, Copy)]
pub struct SemiringAnalysis;

/// The number the constant of `d` is, if it is a literal.
fn constant_number(d: &Data) -> (r: Option<i32>)
    ensures
        r == number_of(d@.constant),
{
    match &d.constant {
        Some(c) => c.num(),
        None => None,
    }
}

/// Whether folding `enode` over the constants of its children leaves `i32`.
pub fn fold_overflows(enode: &Semiring, kids: &Vec<Data>) -> (r: bool)
    requires
        kids@.len() == enode@.children.len(),
    ensures
        r == !fold_fits(enode@, kid_constants(kids@)),
{
    let arith = match enode {
        Semiring::Add(_) => true,
        Semiring::Min(_) => true,
        Semiring::Mul(_) => true,
        _ => false,
    };
    if !arith {
        return false;
    }
    let a = constant_number(&kids[0]);
    let b = constant_number(&kids[1]);
    match (a, b) {
        (Some(x), Some(y)) => {
            let x = x as i64;
            let y = y as i64;
            proof {
                assert(-0x4000_0000_0000_0000 <= x * y <= 0x4000_0000_0000_0000) by (nonlinear_arith)
                    requires
                        -0x8000_0000 <= x < 0x8000_0000,
                        -0x8000_0000 <= y < 0x8000_0000,
                ;
            }
            let v: i64 = match enode {
                Semiring::Add(_) => x + y,
                Semiring::Min(_) => x - y,
                _ => x * y,
            };
            v < -2147483648 || v > 2147483647
        },
        _ => false,
    }
}

/// The constant `enode` folds to, from the constants of its children: a literal is
/// itself, and `+`, `-`, `*` of two literals is the literal of the result.
pub fn eval(enode: &Semiring, kids: &Vec<Data>) -> (r: Option<Semiring>)
    requires
        kids@.len() == enode@.children.len(),
        fold_fits(enode@, kid_constants(kids@)),
    ensures
        node_opt_view(r) == folded(enode@, kid_constants(kids@)),
{
    proof {
        assert(seq![] =~= Seq::<u32>::empty());
    }
    match enode {
        Semiring::Num(n) => Some(Semiring::Num(*n)),
        Semiring::Add(_) | Semiring::Min(_) | Semiring::Mul(_) => {
            let a = constant_number(&kids[0]);
            let b = constant_number(&kids[1]);
            match (a, b) {
                (Some(x), Some(y)) => {
                    let v = match enode {
                        Semiring::Add(_) => x + y,
                        Semiring::Min(_) => x - y,
                        _ => x * y,
                    };
                    Some(Semiring::Num(v))
                },
                _ => None,
            }
        },
        _ => None,
    }
}

impl SemiringAnalysis {
    /// The data of a new node, from the data of its children (in the order of
    /// `enode.children()`): its free variables and the constant it folds to.
    pub fn make(enode: &Semiring, kids: &Vec<Data>) -> (r: Data)
        requires
            kids@.len() == enode@.children.len(),
            fold_fits(enode@, kid_constants(kids@)),
        ensures
            r@.free == free_of(enode@, kid_free(kids@)),
            r@.constant == folded(enode@, kid_constants(kids@)),
    {
        let mut free: HashSet<u32> = HashSet::new();
        match enode {
            Semiring::Var(v) => {
                free.insert(*v);
                proof {
                    assert(free@ =~= set![enode@.children[0]]);
                }
            },
            Semiring::Let(_) => {
                extend_set(&mut free, &kids[2].free);
                remove_all(&mut free, &kids[0].free);
                extend_set(&mut free, &kids[1].free);
                proof {
                    assert(free@ =~= kids@[2]@.free.difference(kids@[0]@.free).union(kids@[1]@.free));
                }
            },
            Semiring::Sum(_) => {
                extend_set(&mut free, &kids[1].free);
                remove_all(&mut free, &kids[0].free);
                proof {
                    assert(free@ =~= kids@[1]@.free.difference(kids@[0]@.free));
                }
            },
            _ => {
                let mut i: usize = 0;
                while i < kids.len()
                    invariant
                        i <= kids@.len(),
                        free@ == union_all(kid_free(kids@).take(i as int)),
                    decreases kids@.len() - i,
                {
                    proof {
                        assert(kid_free(kids@).take(i + 1).drop_last() =~= kid_free(kids@).take(i as int));
                    }
                    extend_set(&mut free, &kids[i].free);
                    i = i + 1;
                }
                proof {
                    assert(kid_free(kids@).take(kids@.len() as int) =~= kid_free(kids@));
                }
            },
        }
        let constant = eval(enode, kids);
        Data { free, constant }
    }

    /// Merges the data of class `from` into that of class `to`. The free variables kept
    /// are those free in both (they may differ where one side was folded to a constant);
    /// the constant kept is the one already there, else the incoming one. Returns whether
    /// the two data differed. Merged classes must agree on their constant where both
    /// have one.
    pub fn merge(&self, to: &mut Data, from: Data) -> (changed: bool)
        requires
            constants_agree(old(to)@.constant, from@.constant),
        ensures
            changed == (old(to)@ != from@),
            final(to)@.free == old(to)@.free.intersect(from@.free),
            final(to)@.constant == merged_constant(old(to)@.constant, from@.constant),
    {
        if to.same_as(&from) {
            proof {
                assert(old(to)@.free.intersect(from@.free) =~= old(to)@.free);
            }
            return false;
        }
        let kept = intersect_sets(&to.free, &from.free);
        to.free = kept;
        match from.constant {
            Some(c) => {
                if to.constant.is_none() {
                    to.constant = Some(c);
                }
            },
            None => {},
        }
        true
    }
}

impl Data {
    /// Whether two data are equal: the same free variables and the same constant.
    pub fn same_as(&self, other: &Data) -> (r: bool)
        ensures
            r == (self@ == other@),
    {
        let a = same_set(&self.free, &other.free);
        let b = same_constant(&self.constant, &other.constant);
        a && b
    }

    /// Whether a variable free in `var` (the class of a `(var x)` binder, whose free
    /// variable is `x`) is free in this class.
    pub fn has_free_of(&self, var: &Data) -> (r: bool)
        ensures
            r == shares(var@.free, self@.free),
    {
        meets(&self.free, &var.free)
    }

    /// Whether the class folds to a constant.
    pub fn is_const(&self) -> (r: bool)
        ensures
            r == (self@.constant is Some),
    {
        self.constant.is_some()
    }
}

} // verus!
