//! Support for deciding equalities outside the e-graph: grouping classes by their
//! fingerprint (candidates for being equal), and the Rosette query that checks an
//! equation over integers.
use vstd::prelude::*;
use crate::text::{nat_text, push_nat_text};

verus! {

/// A class id with its fingerprint, if it has one.
pub type ClassPrint = (u32, Option<Vec<i32>>);

pub open spec fn print_view(c: ClassPrint) -> (u32, Option<Seq<i32>>) {
    (
        c.0,
        match c.1 {
            Some(v) => Some(v@),
            None => None,
        },
    )
}

pub open spec fn prints_view(cs: Seq<ClassPrint>) -> Seq<(u32, Option<Seq<i32>>)> {
    cs.map_values(|c: ClassPrint| print_view(c))
}

/// The ids of the classes whose fingerprint is `key`, in order.
pub open spec fn ids_with(cs: Seq<(u32, Option<Seq<i32>>)>, key: Seq<i32>) -> Seq<u32>
    decreases cs.len(),
{
    if cs.len() == 0 {
        seq![]
    } else {
        let rest = ids_with(cs.drop_last(), key);
        if cs.last().1 == Some(key) {
            rest.push(cs.last().0)
        } else {
            rest
        }
    }
}

/// Whether some class has fingerprint `key`.
pub open spec fn has_print(cs: Seq<(u32, Option<Seq<i32>>)>, key: Seq<i32>) -> bool {
    exists|i: int| 0 <= i < cs.len() && cs[i].1 == Some(key)
}

/// The groups that classes `cs` fall into: one group per fingerprint that occurs,
/// holding the ids of all classes with that fingerprint in order. Classes without a
/// fingerprint are in no group.
pub open spec fn groups_of(
    cs: Seq<(u32, Option<Seq<i32>>)>,
    groups: Seq<(Seq<i32>, Seq<u32>)>,
) -> bool {
    &&& forall|g: int| 0 <= g < groups.len() ==> #[trigger] groups[g].1 == ids_with(cs, groups[g].0)
    &&& forall|g: int| 0 <= g < groups.len() ==> has_print(cs, #[trigger] groups[g].0)
    &&& forall|g: int, h: int|
        0 <= g < groups.len() && 0 <= h < groups.len() && g != h ==> #[trigger] groups[g].0
            != #[trigger] groups[h].0
    &&& forall|i: int|
        0 <= i < cs.len() && (#[trigger] cs[i]).1 is Some ==> exists|g: int|
            0 <= g < groups.len() && groups[g].0 == cs[i].1->0
}

/// Fingerprint `a` occurs in `cs` before fingerprint `b` first does.
pub open spec fn occurs_before(cs: Seq<(u32, Option<Seq<i32>>)>, a: Seq<i32>, b: Seq<i32>) -> bool {
    exists|i: int|
        0 <= i < cs.len() && cs[i].1 == Some(a) && forall|j: int| 0 <= j <= i ==> cs[j].1 != Some(b)
}

/// The groups come in the order in which their fingerprints first occur.
pub open spec fn in_first_occurrence_order(
    cs: Seq<(u32, Option<Seq<i32>>)>,
    groups: Seq<(Seq<i32>, Seq<u32>)>,
) -> bool {
    forall|g: int, h: int|
        0 <= g < h < groups.len() ==> occurs_before(cs, #[trigger] groups[g].0, #[trigger] groups[h].0)
}

pub open spec fn groups_view(gs: Seq<(Vec<i32>, Vec<u32>)>) -> Seq<(Seq<i32>, Seq<u32>)> {
    gs.map_values(|g: (Vec<i32>, Vec<u32>)| (g.0@, g.1@))
}

proof fn lemma_ids_with_absent(cs: Seq<(u32, Option<Seq<i32>>)>, key: Seq<i32>)
    requires
        !has_print(cs, key),
    ensures
        ids_with(cs, key) == Seq::<u32>::empty(),
    decreases cs.len(),
{
    if cs.len() > 0 {
        assert(!has_print(cs.drop_last(), key)) by {
            if has_print(cs.drop_last(), key) {
                let i = choose|i: int| 0 <= i < cs.drop_last().len() && cs.drop_last()[i].1 == Some(key);
                assert(cs[i].1 == Some(key));
            }
        }
        assert(cs[cs.len() - 1].1 != Some(key));
        lemma_ids_with_absent(cs.drop_last(), key);
    }
}

fn copy_ints(v: &Vec<i32>) -> (r: Vec<i32>)
    ensures
        r@ == v@,
{
    let mut r: Vec<i32> = Vec::new();
    let mut i: usize = 0;
    while i < v.len()
        invariant
            i <= v@.len(),
            r@ == v@.take(i as int),
        decreases v@.len() - i,
    {
        r.push(v[i]);
        i = i + 1;
        proof {
            assert(r@ =~= v@.take(i as int));
        }
    }
    proof {
        assert(v@.take(v@.len() as int) =~= v@);
    }
    r
}

fn same_ints(a: &Vec<i32>, b: &Vec<i32>) -> (r: bool)
    ensures
        r == (a@ == b@),
{
    if a.len() != b.len() {
        return false;
    }
    let mut i: usize = 0;
    while i < a.len()
        invariant
            a@.len() == b@.len(),
            i <= a@.len(),
            forall|k: int| 0 <= k < i ==> a@[k] == b@[k],
        decreases a@.len() - i,
    {
        if a[i] != b[i] {
            return false;
        }
        i = i + 1;
    }
    proof {
        assert(a@ =~= b@);
    }
    true
}

/// The index of the group with fingerprint `fp`, if there is one.
fn find_group(groups: &Vec<(Vec<i32>, Vec<u32>)>, fp: &Vec<i32>) -> (r: Option<usize>)
    ensures
        match r {
            Some(g) => g < groups@.len() && groups@[g as int].0@ == fp@,
            None => forall|h: int| 0 <= h < groups@.len() ==> (#[trigger] groups@[h]).0@ != fp@,
        },
{
    let mut g: usize = 0;
    while g < groups.len()
        invariant
            g <= groups@.len(),
            forall|h: int| 0 <= h < g ==> (#[trigger] groups@[h]).0@ != fp@,
        decreases groups@.len() - g,
    {
        if same_ints(&groups[g].0, fp) {
            return Some(g);
        }
        g = g + 1;
    }
    None
}

/// Groups classes by fingerprint: one group per fingerprint that occurs (in the order
/// of first occurrence), with the ids of all classes that have it, in order.
pub fn group_by_fingerprint(classes: &Vec<ClassPrint>) -> (r: Vec<(Vec<i32>, Vec<u32>)>)
    ensures
        groups_of(prints_view(classes@), groups_view(r@)),
        in_first_occurrence_order(prints_view(classes@), groups_view(r@)),
{
    let ghost cs = prints_view(classes@);
    let mut groups: Vec<(Vec<i32>, Vec<u32>)> = Vec::new();
    let mut i: usize = 0;
    while i < classes.len()
        invariant
            i <= classes@.len(),
            cs == prints_view(classes@),
            groups_of(cs.take(i as int), groups_view(groups@)),
            in_first_occurrence_order(cs.take(i as int), groups_view(groups@)),
        decreases classes@.len() - i,
    {
        let ghost pre = cs.take(i as int);
        let ghost post = cs.take(i + 1);
        let ghost old_groups = groups_view(groups@);
        proof {
            assert(post.drop_last() =~= pre);
            assert(post.last() == cs[i as int]);
            assert(cs[i as int] == print_view(classes@[i as int]));
        }
        let id = classes[i].0;
        match &classes[i].1 {
            None => {
                proof {
                    assert forall|g: int| 0 <= g < old_groups.len() implies #[trigger] old_groups[g].1
                        == ids_with(post, old_groups[g].0) by {}
                    assert forall|g: int| 0 <= g < old_groups.len() implies has_print(
                        post,
                        #[trigger] old_groups[g].0,
                    ) by {
                        let j = choose|j: int| 0 <= j < pre.len() && pre[j].1 == Some(old_groups[g].0);
                        assert(post[j] == pre[j]);
                    }
                    assert forall|j: int|
                        0 <= j < post.len() && (#[trigger] post[j]).1 is Some implies exists|g: int|
                        0 <= g < old_groups.len() && old_groups[g].0 == post[j].1->0 by {
                        assert(j < pre.len());
                        assert(post[j] == pre[j]);
                    }
                }
            },
            Some(fp) => {
                proof {
                    assert(post.last() == (id, Some(fp@)));
                    assert forall|j: int| 0 <= j < pre.len() implies post[j] == pre[j] by {}
                }
                match find_group(&groups, fp) {
                    Some(g) => {
                        let ghost key = old_groups[g as int].0;
                        let mut entry = groups.remove(g);
                        entry.1.push(id);
                        groups.insert(g, entry);
                        proof {
                            let ng = groups_view(groups@);
                            assert(ng =~= old_groups.update(g as int, (key, old_groups[g as int].1.push(id))));
                            assert forall|h: int| 0 <= h < ng.len() implies #[trigger] ng[h].1 == ids_with(
                                post,
                                ng[h].0,
                            ) by {
                                if h != g {
                                    assert(old_groups[h].0 != key);
                                }
                            }
                            assert forall|h: int| 0 <= h < ng.len() implies has_print(post, #[trigger] ng[h].0) by {
                                let j = choose|j: int| 0 <= j < pre.len() && pre[j].1 == Some(old_groups[h].0);
                                assert(post[j] == pre[j]);
                            }
                            assert forall|j: int|
                                0 <= j < post.len() && (#[trigger] post[j]).1 is Some implies exists|h: int|
                                0 <= h < ng.len() && ng[h].0 == post[j].1->0 by {
                                if j < pre.len() {
                                    assert(post[j] == pre[j]);
                                    let h = choose|h: int| 0 <= h < old_groups.len() && old_groups[h].0 == pre[j].1->0;
                                    assert(ng[h].0 == old_groups[h].0);
                                } else {
                                    assert(ng[g as int].0 == post[j].1->0);
                                }
                            }
                        }
                    },
                    None => {
                        proof {
                            assert(!has_print(pre, fp@)) by {
                                if has_print(pre, fp@) {
                                    let j = choose|j: int| 0 <= j < pre.len() && pre[j].1 == Some(fp@);
                                    assert(pre[j].1 is Some);
                                    let h = choose|h: int| 0 <= h < old_groups.len() && old_groups[h].0 == pre[j].1->0;
                                    assert(groups@[h].0@ == old_groups[h].0);
                                }
                            }
                            lemma_ids_with_absent(pre, fp@);
                        }
                        let key = copy_ints(fp);
                        let ids = vec![id];
                        proof {
                            assert(ids@ =~= seq![id]);
                        }
                        groups.push((key, ids));
                        proof {
                            let ng = groups_view(groups@);
                            assert(ng =~= old_groups.push((fp@, seq![id])));
                            assert(ids_with(post, fp@) =~= seq![id]);
                            assert forall|h: int| 0 <= h < ng.len() implies #[trigger] ng[h].1 == ids_with(
                                post,
                                ng[h].0,
                            ) by {
                                if h < old_groups.len() {
                                    assert(ng[h] == old_groups[h]);
                                }
                            }
                            assert forall|h: int| 0 <= h < ng.len() implies has_print(post, #[trigger] ng[h].0) by {
                                if h < old_groups.len() {
                                    let j = choose|j: int| 0 <= j < pre.len() && pre[j].1 == Some(old_groups[h].0);
                                    assert(post[j] == pre[j]);
                                } else {
                                    assert(post[post.len() - 1].1 == Some(fp@));
                                }
                            }
                            assert forall|j: int|
                                0 <= j < post.len() && (#[trigger] post[j]).1 is Some implies exists|h: int|
                                0 <= h < ng.len() && ng[h].0 == post[j].1->0 by {
                                if j < pre.len() {
                                    assert(post[j] == pre[j]);
                                    let h = choose|h: int| 0 <= h < old_groups.len() && old_groups[h].0 == pre[j].1->0;
                                    assert(ng[h].0 == old_groups[h].0);
                                } else {
                                    assert(ng[old_groups.len() as int].0 == post[j].1->0);
                                }
                            }
                        }
                    },
                }
            },
        }
        i = i + 1;
    }
    proof {
        assert(cs.take(classes@.len() as int) =~= cs);
    }
    groups
}

/// `p` pairs two classes of one group of `gs`.
pub open spec fn pair_in_a_group(gs: Seq<(Seq<i32>, Seq<u32>)>, p: (u32, u32)) -> bool {
    exists|g: int, i: int, j: int|
        0 <= g < gs.len() && 0 <= i < gs[g].1.len() && 0 <= j < gs[g].1.len() && p == (
            #[trigger] gs[g].1[i],
            #[trigger] gs[g].1[j],
        )
}

/// The number of ordered pairs within the first `n` groups: the sum of the squares of
/// their sizes.
pub open spec fn pair_count(gs: Seq<(Seq<i32>, Seq<u32>)>, n: nat) -> int
    decreases n,
{
    if n == 0 || n > gs.len() {
        0
    } else {
        pair_count(gs, (n - 1) as nat) + gs[n - 1].1.len() * gs[n - 1].1.len()
    }
}

proof fn lemma_square_len(ids: Seq<u32>, n: nat)
    requires
        n <= ids.len(),
    ensures
        square(ids, n).len() == n * ids.len(),
    decreases n,
{
    let l = ids.len();
    if n > 0 {
        lemma_square_len(ids, (n - 1) as nat);
        assert(row(ids[n - 1], ids).len() == l);
        assert(square(ids, n).len() == square(ids, (n - 1) as nat).len() + l);
        assert(n * l == (n - 1) * l + l) by (nonlinear_arith);
    } else {
        assert(0 * l == 0);
    }
}

/// Each ordered pair within a group is listed once: there are as many candidates as
/// the squares of the groups' sizes add up to.
pub proof fn lemma_pairs_count(gs: Seq<(Seq<i32>, Seq<u32>)>, n: nat)
    requires
        n <= gs.len(),
    ensures
        pairs_of(gs, n).len() == pair_count(gs, n),
    decreases n,
{
    if n > 0 {
        lemma_pairs_count(gs, (n - 1) as nat);
        lemma_square_len(gs[n - 1].1, gs[n - 1].1.len());
    }
}

/// Within one group, every ordered pair of its classes is listed.
proof fn lemma_square_contains(ids: Seq<u32>, n: nat, i: int, j: int)
    requires
        n <= ids.len(),
        0 <= i < n,
        0 <= j < ids.len(),
    ensures
        square(ids, n).contains((ids[i], ids[j])),
    decreases n,
{
    let sq = square(ids, n);
    if i == n - 1 {
        let rw = row(ids[n - 1], ids);
        assert(rw[j] == (ids[i], ids[j]));
        assert(sq[square(ids, (n - 1) as nat).len() + j] == rw[j]);
    } else {
        lemma_square_contains(ids, (n - 1) as nat, i, j);
        let k = choose|k: int| 0 <= k < square(ids, (n - 1) as nat).len() && #[trigger] square(ids, (n - 1) as nat)[k] == (ids[i], ids[j]);
        assert(sq[k] == (ids[i], ids[j]));
    }
}

proof fn lemma_square_only(ids: Seq<u32>, n: nat, k: int)
    requires
        n <= ids.len(),
        0 <= k < square(ids, n).len(),
    ensures
        exists|i: int, j: int| 0 <= i < n && 0 <= j < ids.len() && square(ids, n)[k] == (#[trigger] ids[i], #[trigger] ids[j]),
    decreases n,
{
    let prev = square(ids, (n - 1) as nat);
    if k < prev.len() {
        lemma_square_only(ids, (n - 1) as nat, k);
        let (i, j) = choose|i: int, j: int| 0 <= i < n - 1 && 0 <= j < ids.len() && prev[k] == (#[trigger] ids[i], #[trigger] ids[j]);
        assert(square(ids, n)[k] == (ids[i], ids[j]));
    } else {
        let j = k - prev.len();
        assert(square(ids, n)[k] == row(ids[n - 1], ids)[j]);
        assert(square(ids, n)[k] == (ids[n - 1], ids[j]));
    }
}

/// Every ordered pair of classes `(c, d)` of one of the first `n` groups, each class
/// with itself too, is among the candidates.
pub proof fn lemma_pairs_cover_groups(gs: Seq<(Seq<i32>, Seq<u32>)>, n: nat, g: int, i: int, j: int)
    requires
        n <= gs.len(),
        0 <= g < n,
        0 <= i < gs[g].1.len(),
        0 <= j < gs[g].1.len(),
    ensures
        pairs_of(gs, n).contains((gs[g].1[i], gs[g].1[j])),
    decreases n,
{
    let prev = pairs_of(gs, (n - 1) as nat);
    let ids = gs[n - 1].1;
    if g == n - 1 {
        lemma_square_contains(ids, ids.len(), i, j);
        let k = choose|k: int| 0 <= k < square(ids, ids.len()).len() && #[trigger] square(ids, ids.len())[k] == (ids[i], ids[j]);
        assert(pairs_of(gs, n)[prev.len() + k] == (ids[i], ids[j]));
    } else {
        lemma_pairs_cover_groups(gs, (n - 1) as nat, g, i, j);
        let k = choose|k: int| 0 <= k < prev.len() && #[trigger] prev[k] == (gs[g].1[i], gs[g].1[j]);
        assert(pairs_of(gs, n)[k] == prev[k]);
    }
}

/// Every candidate pair is a pair of classes of one of the first `n` groups.
pub proof fn lemma_pairs_within_groups(gs: Seq<(Seq<i32>, Seq<u32>)>, n: nat, k: int)
    requires
        n <= gs.len(),
        0 <= k < pairs_of(gs, n).len(),
    ensures
        exists|g: int, i: int, j: int|
            0 <= g < n && 0 <= i < gs[g].1.len() && 0 <= j < gs[g].1.len() && pairs_of(gs, n)[k] == (
                #[trigger] gs[g].1[i],
                #[trigger] gs[g].1[j],
            ),
    decreases n,
{
    let prev = pairs_of(gs, (n - 1) as nat);
    let ids = gs[n - 1].1;
    if k < prev.len() {
        lemma_pairs_within_groups(gs, (n - 1) as nat, k);
        let (g, i, j) = choose|g: int, i: int, j: int|
            0 <= g < n - 1 && 0 <= i < gs[g].1.len() && 0 <= j < gs[g].1.len() && prev[k] == (#[trigger] gs[g].1[i], #[trigger] gs[g].1[j]);
        assert(pairs_of(gs, n)[k] == (gs[g].1[i], gs[g].1[j]));
    } else {
        lemma_square_only(ids, ids.len(), k - prev.len());
        let (i, j) = choose|i: int, j: int| 0 <= i < ids.len() && 0 <= j < ids.len() && square(ids, ids.len())[k - prev.len()] == (#[trigger] ids[i], #[trigger] ids[j]);
        assert(pairs_of(gs, n)[k] == (ids[i], ids[j]));
        assert(gs[n - 1].1 == ids);
    }
}

/// The declaration of one class's variable is its name.
pub proof fn lemma_var_names_one(id: u32)
    ensures
        var_names(seq![id]) == var_name(id),
{
}

/// Declaring the variables of `a` then `b` writes `a`'s names, one space, then `b`'s: the
/// names are separated by single spaces.
pub proof fn lemma_var_names_join(a: Seq<u32>, b: Seq<u32>)
    requires
        a.len() > 0,
        b.len() > 0,
    ensures
        var_names(a + b) == var_names(a) + seq![' '] + var_names(b),
    decreases b.len(),
{
    assert((a + b).drop_last() =~= a + b.drop_last());
    assert((a + b).last() == b.last());
    if b.len() == 1 {
        assert(b.drop_last() =~= Seq::<u32>::empty());
        assert(a + b.drop_last() =~= a);
        assert(b =~= seq![b[0]]);
    } else {
        lemma_var_names_join(a, b.drop_last());
        assert(var_names(a + b) =~= var_names(a) + seq![' '] + var_names(b));
    }
}

/// The name given to the variable of class `id` in a Rosette query: `v_` and the id.
pub open spec fn var_name(id: u32) -> Seq<char> {
    seq!['v', '_'] + nat_text(id as nat)
}

/// The names of the variables of classes `ids`, separated by single spaces.
pub open spec fn var_names(ids: Seq<u32>) -> Seq<char>
    decreases ids.len(),
{
    if ids.len() == 0 {
        seq![]
    } else if ids.len() == 1 {
        var_name(ids[0])
    } else {
        var_names(ids.drop_last()) + seq![' '] + var_name(ids.last())
    }
}

/// The Rosette program that checks `lhs = rhs` for all integer values of the variables
/// of classes `fvs`, printing `true` where it holds.
pub open spec fn rosette_text(lhs: Seq<char>, rhs: Seq<char>, fvs: Seq<u32>) -> Seq<char> {
    "#lang rosette\n         (define (I b) (if b 1 0))\n         (define-symbolic "@
        + var_names(fvs) + " integer?)\n         (if (unsat? (verify (assert (eq? "@ + lhs + " "@
        + rhs + "))))\n             (display \"true\")\n             (display \"false\"))"@
}

/// Writes the Rosette program that checks `lhs = rhs` over integers, with a symbolic
/// integer `v_<id>` for each class id in `fvs`. The query is meaningful only where the
/// terms `lhs` and `rhs` name their variables that way, `v_` and the class id.
pub fn gen_rosette(lhs: &str, rhs: &str, fvs: &Vec<u32>) -> (r: String)
    ensures
        r@ == rosette_text(lhs@, rhs@, fvs@),
{
    let mut names = String::new();
    let mut i: usize = 0;
    while i < fvs.len()
        invariant
            i <= fvs@.len(),
            names@ == var_names(fvs@.take(i as int)),
        decreases fvs@.len() - i,
    {
        proof {
            reveal_strlit(" ");
            reveal_strlit("v_");
            assert(fvs@.take(i + 1).drop_last() =~= fvs@.take(i as int));
            assert(fvs@.take(i + 1).last() == fvs@[i as int]);
        }
        if i != 0 {
            names.append(" ");
        }
        names.append("v_");
        push_nat_text(&mut names, fvs[i]);
        i = i + 1;
        proof {
            assert(names@ =~= var_names(fvs@.take(i as int)));
        }
    }
    proof {
        assert(fvs@.take(fvs@.len() as int) =~= fvs@);
    }
    let mut out = String::new();
    out.append("#lang rosette\n         (define (I b) (if b 1 0))\n         (define-symbolic ");
    out.append(names.as_str());
    out.append(" integer?)\n         (if (unsat? (verify (assert (eq? ");
    out.append(lhs);
    out.append(" ");
    out.append(rhs);
    out.append("))))\n             (display \"true\")\n             (display \"false\"))");
    proof {
        assert(out@ =~= rosette_text(lhs@, rhs@, fvs@));
    }
    out
}

/// The pairs of class `c` with each class of `ids`, in order.
pub open spec fn row(c: u32, ids: Seq<u32>) -> Seq<(u32, u32)> {
    ids.map_values(|d: u32| (c, d))
}

/// The ordered pairs of the first `n` classes of `ids` with every class of `ids`, row
/// by row.
pub open spec fn square(ids: Seq<u32>, n: nat) -> Seq<(u32, u32)>
    decreases n,
{
    if n == 0 || n > ids.len() {
        seq![]
    } else {
        square(ids, (n - 1) as nat) + row(ids[n - 1], ids)
    }
}

/// All ordered pairs of classes within each of the first `n` groups, group by group.
pub open spec fn pairs_of(groups: Seq<(Seq<i32>, Seq<u32>)>, n: nat) -> Seq<(u32, u32)>
    decreases n,
{
    if n == 0 || n > groups.len() {
        seq![]
    } else {
        pairs_of(groups, (n - 1) as nat) + square(groups[n - 1].1, groups[n - 1].1.len())
    }
}

/// The pairs of classes to test for equality: every ordered pair of classes within a
/// group (each class with itself too), group by group, in the order of the groups and
/// of the classes in them.
pub fn candidate_pairs(groups: &Vec<(Vec<i32>, Vec<u32>)>) -> (r: Vec<(u32, u32)>)
    ensures
        r@ == pairs_of(groups_view(groups@), groups@.len()),
        forall|g: int, i: int, j: int|
            0 <= g < groups@.len() && 0 <= i < groups@[g].1@.len() && 0 <= j < groups@[g].1@.len()
                ==> r@.contains((#[trigger] groups@[g].1@[i], #[trigger] groups@[g].1@[j])),
        forall|k: int| 0 <= k < r@.len() ==> pair_in_a_group(groups_view(groups@), #[trigger] r@[k]),
        r@.len() == pair_count(groups_view(groups@), groups@.len()),
{
    let ghost gv = groups_view(groups@);
    let mut r: Vec<(u32, u32)> = Vec::new();
    let mut g: usize = 0;
    while g < groups.len()
        invariant
            g <= groups@.len(),
            gv == groups_view(groups@),
            r@ == pairs_of(gv, g as nat),
        decreases groups@.len() - g,
    {
        let ids = &groups[g].1;
        let ghost base = r@;
        proof {
            assert(gv[g as int].1 == ids@);
        }
        let mut a: usize = 0;
        while a < ids.len()
            invariant
                a <= ids@.len(),
                r@ == base + square(ids@, a as nat),
            decreases ids@.len() - a,
        {
            let ghost mid = r@;
            let mut b: usize = 0;
            while b < ids.len()
                invariant
                    a < ids@.len(),
                    b <= ids@.len(),
                    r@ == mid + row(ids@[a as int], ids@.take(b as int)),
                decreases ids@.len() - b,
            {
                r.push((ids[a], ids[b]));
                b = b + 1;
                proof {
                    assert(row(ids@[a as int], ids@.take(b as int)) =~= row(
                        ids@[a as int],
                        ids@.take(b - 1),
                    ).push((ids@[a as int], ids@[b - 1])));
                    assert(r@ =~= mid + row(ids@[a as int], ids@.take(b as int)));
                }
            }
            proof {
                assert(ids@.take(ids@.len() as int) =~= ids@);
                assert(square(ids@, (a + 1) as nat) == square(ids@, a as nat) + row(ids@[a as int], ids@));
                assert(r@ =~= base + square(ids@, (a + 1) as nat));
            }
            a = a + 1;
        }
        g = g + 1;
        proof {
            assert(pairs_of(gv, g as nat) == pairs_of(gv, (g - 1) as nat) + square(ids@, ids@.len()));
        }
    }
    proof {
        assert forall|g: int, i: int, j: int|
            0 <= g < groups@.len() && 0 <= i < groups@[g].1@.len() && 0 <= j < groups@[g].1@.len()
                implies r@.contains((#[trigger] groups@[g].1@[i], #[trigger] groups@[g].1@[j])) by {
            assert(gv[g].1 == groups@[g].1@);
            lemma_pairs_cover_groups(gv, groups@.len(), g, i, j);
        }
        lemma_pairs_count(gv, groups@.len());
        assert forall|k: int| 0 <= k < r@.len() implies pair_in_a_group(gv, #[trigger] r@[k]) by {
            lemma_pairs_within_groups(gv, groups@.len(), k);
        }
    }
    r
}

} // verus!
