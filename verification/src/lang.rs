//! The semiring expression language: its nodes, their operator text, and how an
//! operator and a list of children are read into a node.
use vstd::prelude::*;
use crate::text::{i32_of_text, i32_text, int_text, is_digit, lemma_i32_text_roundtrip, parse_i32};

verus! {

/// One node of a semiring expression. Children are e-class ids.
///
/// - a bare number is a literal;
/// - variables are tagged with `var`, e.g. `(var x)`, to tell them from relations;
/// - relations are tagged with `rel`, e.g. `(rel R (var x) (var y))`;
/// - `sum` binds a `(var i)` in its body, `let` substitutes: `let v1 v2 e` is `e[v1 |-> v2]`;
/// - `I` is the indicator: `(I true) = 1`, `(I false) = 0`;
/// - any other operator is kept as an uninterpreted function.
#[derive(Debug, Clone)]
pub enum Semiring {
    Num(i32),
    Var(u32),
    Rel(Vec<u32>),
    Add([u32; 2]),
    Min([u32; 2]),
    Mul([u32; 2]),
    Sum([u32; 2]),
    Let([u32; 3]),
    Ind(u32),
    Lt([u32; 2]),
    Leq([u32; 2]),
    Gt([u32; 2]),
    Geq([u32; 2]),
    Eq([u32; 2]),
    Symbol(String),
    Other(String, Vec<u32>),
}

/// The operator of a node, with its data.
pub enum OpModel {
    Num(i32),
    Var,
    Rel,
    Add,
    Min,
    Mul,
    Sum,
    Let,
    Ind,
    Lt,
    Leq,
    Gt,
    Geq,
    Eq,
    Symbol(Seq<char>),
    Other(Seq<char>),
}

/// A node as an operator and the sequence of its children.
pub struct NodeModel {
    pub op: OpModel,
    pub children: Seq<u32>,
}

impl View for Semiring {
    type V = NodeModel;

    open spec fn view(&self) -> NodeModel {
        match self {
            Semiring::Num(n) => NodeModel { op: OpModel::Num(*n), children: seq![] },
            Semiring::Var(v) => NodeModel { op: OpModel::Var, children: seq![*v] },
            Semiring::Rel(c) => NodeModel { op: OpModel::Rel, children: c@ },
            Semiring::Add(c) => NodeModel { op: OpModel::Add, children: c@ },
            Semiring::Min(c) => NodeModel { op: OpModel::Min, children: c@ },
            Semiring::Mul(c) => NodeModel { op: OpModel::Mul, children: c@ },
            Semiring::Sum(c) => NodeModel { op: OpModel::Sum, children: c@ },
            Semiring::Let(c) => NodeModel { op: OpModel::Let, children: c@ },
            Semiring::Ind(v) => NodeModel { op: OpModel::Ind, children: seq![*v] },
            Semiring::Lt(c) => NodeModel { op: OpModel::Lt, children: c@ },
            Semiring::Leq(c) => NodeModel { op: OpModel::Leq, children: c@ },
            Semiring::Gt(c) => NodeModel { op: OpModel::Gt, children: c@ },
            Semiring::Geq(c) => NodeModel { op: OpModel::Geq, children: c@ },
            Semiring::Eq(c) => NodeModel { op: OpModel::Eq, children: c@ },
            Semiring::Symbol(s) => NodeModel { op: OpModel::Symbol(s@), children: seq![] },
            Semiring::Other(s, c) => NodeModel { op: OpModel::Other(s@), children: c@ },
        }
    }
}

/// The text of an operator: the keyword of a tagged operator, the digits of a number,
/// the name of a symbol or of an uninterpreted function.
pub open spec fn op_text(op: OpModel) -> Seq<char> {
    match op {
        OpModel::Num(n) => int_text(n as int),
        OpModel::Var => seq!['v', 'a', 'r'],
        OpModel::Rel => seq!['r', 'e', 'l'],
        OpModel::Add => seq!['+'],
        OpModel::Min => seq!['-'],
        OpModel::Mul => seq!['*'],
        OpModel::Sum => seq!['s', 'u', 'm'],
        OpModel::Let => seq!['l', 'e', 't'],
        OpModel::Ind => seq!['I'],
        OpModel::Lt => seq!['<'],
        OpModel::Leq => seq!['<', '='],
        OpModel::Gt => seq!['>'],
        OpModel::Geq => seq!['>', '='],
        OpModel::Eq => seq!['='],
        OpModel::Symbol(s) => s,
        OpModel::Other(s) => s,
    }
}

/// How many children an operator takes.
pub open spec fn arity_fits(op: OpModel, n: nat) -> bool {
    match op {
        OpModel::Num(_) => n == 0,
        OpModel::Symbol(_) => n == 0,
        OpModel::Var => n == 1,
        OpModel::Ind => n == 1,
        OpModel::Let => n == 3,
        OpModel::Rel => true,
        OpModel::Other(_) => true,
        _ => n == 2,
    }
}

/// Whether the tagged operator `k` is read from text `s` with `n` children.
pub open spec fn keyword_reads(k: OpModel, s: Seq<char>, n: nat) -> bool {
    s == op_text(k) && arity_fits(k, n)
}

/// The node that operator text `s` with children `ch` is read as. The forms are tried
/// in order: a number (no children), each tagged operator with its number of children,
/// a symbol (no children), and last an uninterpreted function.
pub open spec fn node_of_op(s: Seq<char>, ch: Seq<u32>) -> NodeModel {
    let n = ch.len();
    let op = if n == 0 && i32_of_text(s) is Some {
        OpModel::Num(i32_of_text(s)->0)
    } else if keyword_reads(OpModel::Var, s, n) {
        OpModel::Var
    } else if keyword_reads(OpModel::Rel, s, n) {
        OpModel::Rel
    } else if keyword_reads(OpModel::Add, s, n) {
        OpModel::Add
    } else if keyword_reads(OpModel::Min, s, n) {
        OpModel::Min
    } else if keyword_reads(OpModel::Mul, s, n) {
        OpModel::Mul
    } else if keyword_reads(OpModel::Sum, s, n) {
        OpModel::Sum
    } else if keyword_reads(OpModel::Let, s, n) {
        OpModel::Let
    } else if keyword_reads(OpModel::Ind, s, n) {
        OpModel::Ind
    } else if keyword_reads(OpModel::Lt, s, n) {
        OpModel::Lt
    } else if keyword_reads(OpModel::Leq, s, n) {
        OpModel::Leq
    } else if keyword_reads(OpModel::Gt, s, n) {
        OpModel::Gt
    } else if keyword_reads(OpModel::Geq, s, n) {
        OpModel::Geq
    } else if keyword_reads(OpModel::Eq, s, n) {
        OpModel::Eq
    } else if n == 0 {
        OpModel::Symbol(s)
    } else {
        OpModel::Other(s)
    };
    NodeModel { op, children: ch }
}

/// Whether some tagged operator is read from text `s` with `n` children.
pub open spec fn is_keyword_with(s: Seq<char>, n: nat) -> bool {
    ||| keyword_reads(OpModel::Var, s, n)
    ||| keyword_reads(OpModel::Rel, s, n)
    ||| keyword_reads(OpModel::Add, s, n)
    ||| keyword_reads(OpModel::Min, s, n)
    ||| keyword_reads(OpModel::Mul, s, n)
    ||| keyword_reads(OpModel::Sum, s, n)
    ||| keyword_reads(OpModel::Let, s, n)
    ||| keyword_reads(OpModel::Ind, s, n)
    ||| keyword_reads(OpModel::Lt, s, n)
    ||| keyword_reads(OpModel::Leq, s, n)
    ||| keyword_reads(OpModel::Gt, s, n)
    ||| keyword_reads(OpModel::Geq, s, n)
    ||| keyword_reads(OpModel::Eq, s, n)
}

/// A node that its own text reads back as: its children fit its operator, a symbol is
/// neither a number nor a keyword that takes no children, and an uninterpreted function
/// has children and is not spelled like a tagged operator with as many children.
pub open spec fn canonical(node: NodeModel) -> bool {
    &&& arity_fits(node.op, node.children.len())
    &&& match node.op {
        OpModel::Symbol(s) => i32_of_text(s) is None && !is_keyword_with(s, 0),
        OpModel::Other(s) => node.children.len() > 0 && !is_keyword_with(s, node.children.len()),
        _ => true,
    }
}

/// Whether `op` is one of the tagged operators, spelled by a fixed keyword.
pub open spec fn is_keyword_op(op: OpModel) -> bool {
    match op {
        OpModel::Num(_) => false,
        OpModel::Symbol(_) => false,
        OpModel::Other(_) => false,
        _ => true,
    }
}

/// Distinct tagged operators are spelled differently.
pub proof fn lemma_keywords_distinct(a: OpModel, b: OpModel)
    requires
        is_keyword_op(a),
        is_keyword_op(b),
        a != b,
    ensures
        op_text(a) != op_text(b),
{
    assert(op_text(a).len() != op_text(b).len() || op_text(a)[0] != op_text(b)[0]);
}

/// No keyword is read as a number.
pub proof fn lemma_keyword_not_number(k: OpModel)
    requires
        is_keyword_op(k),
    ensures
        i32_of_text(op_text(k)) is None,
{
    let t = op_text(k);
    assert(!is_digit(t[0]));
    if t.len() > 1 {
        assert(!is_digit(t.drop_first()[0]));
    }
}

/// Reading keeps the children, and they fit the operator read.
pub proof fn lemma_read_keeps_children(s: Seq<char>, ch: Seq<u32>)
    ensures
        node_of_op(s, ch).children == ch,
        arity_fits(node_of_op(s, ch).op, ch.len()),
{
}

/// Whatever is read is canonical: printing it reads it back.
pub proof fn lemma_read_is_canonical(s: Seq<char>, ch: Seq<u32>)
    ensures
        canonical(node_of_op(s, ch)),
{
}

/// Printing a canonical node's operator and reading it with the node's children
/// gives the node back.
pub proof fn lemma_print_then_read(node: NodeModel)
    requires
        canonical(node),
    ensures
        node_of_op(op_text(node.op), node.children) == node,
{
    let t = op_text(node.op);
    let n = node.children.len();
    match node.op {
        OpModel::Num(v) => {
            lemma_i32_text_roundtrip(v);
        },
        OpModel::Symbol(_) => {},
        OpModel::Other(_) => {},
        _ => {
            lemma_keyword_not_number(node.op);
            assert forall|k: OpModel| is_keyword_op(k) && k != node.op implies !keyword_reads(
                k,
                t,
                n,
            ) by {
                lemma_keywords_distinct(k, node.op);
            }
        },
    }
}

/// Reading operator text, printing the node read and reading that again gives the
/// same node: text is normalized by one reading.
pub proof fn lemma_read_print_read(s: Seq<char>, ch: Seq<u32>)
    ensures
        node_of_op(op_text(node_of_op(s, ch).op), ch) == node_of_op(s, ch),
{
    lemma_read_is_canonical(s, ch);
    lemma_print_then_read(node_of_op(s, ch));
}

/// Whether two nodes match as e-graph nodes do: the same operator with the same data,
/// and as many children.
pub open spec fn nodes_match(a: NodeModel, b: NodeModel) -> bool {
    a.op == b.op && a.children.len() == b.children.len()
}

/// The string literals of the keywords spell the keyword texts.
proof fn lemma_keyword_texts()
    ensures
        "var"@ == op_text(OpModel::Var),
        "rel"@ == op_text(OpModel::Rel),
        "+"@ == op_text(OpModel::Add),
        "-"@ == op_text(OpModel::Min),
        "*"@ == op_text(OpModel::Mul),
        "sum"@ == op_text(OpModel::Sum),
        "let"@ == op_text(OpModel::Let),
        "I"@ == op_text(OpModel::Ind),
        "<"@ == op_text(OpModel::Lt),
        "<="@ == op_text(OpModel::Leq),
        ">"@ == op_text(OpModel::Gt),
        ">="@ == op_text(OpModel::Geq),
        "="@ == op_text(OpModel::Eq),
{
            reveal_strlit("var");
            reveal_strlit("rel");
            reveal_strlit("+");
            reveal_strlit("-");
            reveal_strlit("*");
            reveal_strlit("sum");
            reveal_strlit("let");
            reveal_strlit("I");
            reveal_strlit("<");
            reveal_strlit("<=");
            reveal_strlit(">");
            reveal_strlit(">=");
            reveal_strlit("=");
    assert("var"@ =~= op_text(OpModel::Var));
    assert("rel"@ =~= op_text(OpModel::Rel));
    assert("+"@ =~= op_text(OpModel::Add));
    assert("-"@ =~= op_text(OpModel::Min));
    assert("*"@ =~= op_text(OpModel::Mul));
    assert("sum"@ =~= op_text(OpModel::Sum));
    assert("let"@ =~= op_text(OpModel::Let));
    assert("I"@ =~= op_text(OpModel::Ind));
    assert("<"@ =~= op_text(OpModel::Lt));
    assert("<="@ =~= op_text(OpModel::Leq));
    assert(">"@ =~= op_text(OpModel::Gt));
    assert(">="@ =~= op_text(OpModel::Geq));
    assert("="@ =~= op_text(OpModel::Eq));
}

/// Matching is an equivalence on nodes, and matching nodes have as many children.
pub proof fn lemma_matches_equivalence(a: NodeModel, b: NodeModel, c: NodeModel)
    ensures
        nodes_match(a, a),
        nodes_match(a, b) ==> nodes_match(b, a),
        nodes_match(a, b) && nodes_match(b, c) ==> nodes_match(a, c),
        nodes_match(a, b) ==> a.children.len() == b.children.len(),
{
}

/// Whether the text of `s` equals that of `t`.
fn text_is(s: &str, t: &str) -> (r: bool)
    ensures
        r == (s@ == t@),
{
    let n = s.unicode_len();
    if n != t.unicode_len() {
        return false;
    }
    let mut i: usize = 0;
    while i < n
        invariant
            n == s@.len(),
            n == t@.len(),
            i <= n,
            forall|k: int| 0 <= k < i ==> s@[k] == t@[k],
        decreases n - i,
    {
        if s.get_char(i) != t.get_char(i) {
            return false;
        }
        i = i + 1;
    }
    proof {
        assert(s@ =~= t@);
    }
    true
}

fn pair(ch: &Vec<u32>) -> (r: [u32; 2])
    requires
        ch@.len() == 2,
    ensures
        r@ == ch@,
{
    let r = [ch[0], ch[1]];
    proof {
        assert(r@ =~= ch@);
    }
    r
}

fn triple(ch: &Vec<u32>) -> (r: [u32; 3])
    requires
        ch@.len() == 3,
    ensures
        r@ == ch@,
{
    let r = [ch[0], ch[1], ch[2]];
    proof {
        assert(r@ =~= ch@);
    }
    r
}

fn seq_eq(a: &Vec<u32>, b: &Vec<u32>) -> (r: bool)
    ensures
        r == (a@ == b@),
{
    if a.len() != b.len() {
        return false;
    }
    let mut i: usize = 0;
    while i < a.len()
        invariant
            a@.len() == b@.len(),
            i <= a@.len(),
            forall|k: int| 0 <= k < i ==> a@[k] == b@[k],
        decreases a@.len() - i,
    {
        if a[i] != b[i] {
            return false;
        }
        i = i + 1;
    }
    proof {
        assert(a@ =~= b@);
    }
    true
}

impl Semiring {
    /// The number of a literal node, `None` for any other node.
    pub fn num(&self) -> (r: Option<i32>)
        ensures
            r == (match self@.op {
                OpModel::Num(n) => Some(n),
                _ => None::<i32>,
            }),
    {
        match self {
            Semiring::Num(n) => Some(*n),
            _ => None,
        }
    }

    /// The children of the node, in order.
    pub fn children(&self) -> (r: Vec<u32>)
        ensures
            r@ == self@.children,
    {
        let r = match self {
            Semiring::Num(_) => Vec::new(),
            Semiring::Symbol(_) => Vec::new(),
            Semiring::Var(v) => vec![*v],
            Semiring::Ind(v) => vec![*v],
            Semiring::Rel(c) => c.clone(),
            Semiring::Other(_, c) => c.clone(),
            Semiring::Add(c) => vec![c[0], c[1]],
            Semiring::Min(c) => vec![c[0], c[1]],
            Semiring::Mul(c) => vec![c[0], c[1]],
            Semiring::Sum(c) => vec![c[0], c[1]],
            Semiring::Lt(c) => vec![c[0], c[1]],
            Semiring::Leq(c) => vec![c[0], c[1]],
            Semiring::Gt(c) => vec![c[0], c[1]],
            Semiring::Geq(c) => vec![c[0], c[1]],
            Semiring::Eq(c) => vec![c[0], c[1]],
            Semiring::Let(c) => vec![c[0], c[1], c[2]],
        };
        proof {
            assert(r@ =~= self@.children);
        }
        r
    }

    /// Whether two nodes match: the same operator with the same data, and as many children.
    pub fn matches(&self, other: &Semiring) -> (r: bool)
        ensures
            r == nodes_match(self@, other@),
    {
        match (self, other) {
            (Semiring::Num(a), Semiring::Num(b)) => *a == *b,
            (Semiring::Var(_), Semiring::Var(_)) => true,
            (Semiring::Rel(a), Semiring::Rel(b)) => a.len() == b.len(),
            (Semiring::Add(_), Semiring::Add(_)) => true,
            (Semiring::Min(_), Semiring::Min(_)) => true,
            (Semiring::Mul(_), Semiring::Mul(_)) => true,
            (Semiring::Sum(_), Semiring::Sum(_)) => true,
            (Semiring::Let(_), Semiring::Let(_)) => true,
            (Semiring::Ind(_), Semiring::Ind(_)) => true,
            (Semiring::Lt(_), Semiring::Lt(_)) => true,
            (Semiring::Leq(_), Semiring::Leq(_)) => true,
            (Semiring::Gt(_), Semiring::Gt(_)) => true,
            (Semiring::Geq(_), Semiring::Geq(_)) => true,
            (Semiring::Eq(_), Semiring::Eq(_)) => true,
            (Semiring::Symbol(a), Semiring::Symbol(b)) => *a == *b,
            (Semiring::Other(a, x), Semiring::Other(b, y)) => *a == *b && x.len() == y.len(),
            _ => false,
        }
    }

    /// Whether two nodes are the same: the same operator, data and children.
    pub fn same_as(&self, other: &Semiring) -> (r: bool)
        ensures
            r == (self@ == other@),
    {
        if !self.matches(other) {
            return false;
        }
        let a = self.children();
        let b = other.children();
        seq_eq(&a, &b)
    }

    /// The operator's text: its keyword, the digits of a number, or a symbol's name.
    pub fn op_text(&self) -> (r: String)
        ensures
            r@ == op_text(self@.op),
    {
        proof {
            lemma_keyword_texts();
        }
        match self {
            Semiring::Num(n) => i32_text(*n),
            Semiring::Var(_) => String::from_str("var"),
            Semiring::Rel(_) => String::from_str("rel"),
            Semiring::Add(_) => String::from_str("+"),
            Semiring::Min(_) => String::from_str("-"),
            Semiring::Mul(_) => String::from_str("*"),
            Semiring::Sum(_) => String::from_str("sum"),
            Semiring::Let(_) => String::from_str("let"),
            Semiring::Ind(_) => String::from_str("I"),
            Semiring::Lt(_) => String::from_str("<"),
            Semiring::Leq(_) => String::from_str("<="),
            Semiring::Gt(_) => String::from_str(">"),
            Semiring::Geq(_) => String::from_str(">="),
            Semiring::Eq(_) => String::from_str("="),
            Semiring::Symbol(s) => s.clone(),
            Semiring::Other(s, _) => s.clone(),
        }
    }

    /// Reads operator text `op` with `children` as a node, trying in order: a number
    /// (no children), each tagged operator with its number of children, a symbol
    /// (no children), and last an uninterpreted function. Every input is read.
    pub fn from_op(op: &str, children: Vec<u32>) -> (r: Semiring)
        ensures
            r@ == node_of_op(op@, children@),
    {
        proof {
            lemma_keyword_texts();
        }
        let n = children.len();
        if n == 0 {
            match parse_i32(op) {
                Some(v) => {
                    proof {
                        assert(children@ =~= Seq::<u32>::empty());
                    }
                    return Semiring::Num(v);
                },
                None => {},
            }
        }
        if text_is(op, "var") && n == 1 {
            proof {
                assert(children@ =~= seq![children@[0]]);
            }
            Semiring::Var(children[0])
        } else if text_is(op, "rel") {
            Semiring::Rel(children)
        } else if text_is(op, "+") && n == 2 {
            Semiring::Add(pair(&children))
        } else if text_is(op, "-") && n == 2 {
            Semiring::Min(pair(&children))
        } else if text_is(op, "*") && n == 2 {
            Semiring::Mul(pair(&children))
        } else if text_is(op, "sum") && n == 2 {
            Semiring::Sum(pair(&children))
        } else if text_is(op, "let") && n == 3 {
            Semiring::Let(triple(&children))
        } else if text_is(op, "I") && n == 1 {
            proof {
                assert(children@ =~= seq![children@[0]]);
            }
            Semiring::Ind(children[0])
        } else if text_is(op, "<") && n == 2 {
            Semiring::Lt(pair(&children))
        } else if text_is(op, "<=") && n == 2 {
            Semiring::Leq(pair(&children))
        } else if text_is(op, ">") && n == 2 {
            Semiring::Gt(pair(&children))
        } else if text_is(op, ">=") && n == 2 {
            Semiring::Geq(pair(&children))
        } else if text_is(op, "=") && n == 2 {
            Semiring::Eq(pair(&children))
        } else if n == 0 {
            proof {
                assert(children@ =~= Seq::<u32>::empty());
            }
            Semiring::Symbol(String::from_str(op))
        } else {
            Semiring::Other(String::from_str(op), children)
        }
    }
}

} // verus!
