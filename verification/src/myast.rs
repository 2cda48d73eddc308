//! The syntax tree consumed by the code generator.

use vstd::prelude::*;

verus! {

/// A node of the syntax tree.
///
/// `Call` holds the callee first (an `Ident`) and the argument expressions
/// after it. `FuncDef` holds the function name, the `(name, type name)` pairs
/// of its parameters, the name of its return type, and its body.
#[derive(Debug)]
pub enum Node {
    Empty,
    BinOp(Box<Node>, Op, Box<Node>),
    Number(i64),
    StrLiteral(String),
    Ident(String),
    Call(Vec<Node>),
    VarDef(String, Box<Node>),
    FuncDef(String, Vec<(String, String)>, String, Vec<Node>),
    If(Box<Node>, Box<Node>, Box<Node>),
    Ret(Box<Node>),
}

/// A binary operator of the language.
#[derive(Clone, Copy, Debug, PartialEq, Eq, Structural)]
pub enum Op {
    Add,
    Sub,
    Mul,
    Div,
    Eql,
    Neq,
    Lwt,
    Lwe,
    Grt,
    Gre,
    And,
    Or,
}

/// Two trees are alike: the same nodes with the same numbers, operators
/// and texts, in the same order.
pub open spec fn same_tree(a: Node, b: Node) -> bool
    decreases a, 0nat,
{
    match (a, b) {
        (Node::Empty, Node::Empty) => true,
        (Node::BinOp(l1, op1, r1), Node::BinOp(l2, op2, r2)) => same_tree(*l1, *l2) && op1 == op2
            && same_tree(*r1, *r2),
        (Node::Number(i), Node::Number(j)) => i == j,
        (Node::StrLiteral(s), Node::StrLiteral(t)) => s@ == t@,
        (Node::Ident(s), Node::Ident(t)) => s@ == t@,
        (Node::Call(l1), Node::Call(l2)) => same_trees(l1@, l2@, 0),
        (Node::VarDef(s, i1), Node::VarDef(t, i2)) => s@ == t@ && same_tree(*i1, *i2),
        (Node::FuncDef(n1, params1, r1, b1), Node::FuncDef(n2, params2, r2, b2)) => n1@ == n2@
            && same_params(params1@, params2@) && r1@ == r2@ && same_trees(b1@, b2@, 0),
        (Node::If(c1, t1, e1), Node::If(c2, t2, e2)) => same_tree(*c1, *c2) && same_tree(*t1, *t2)
            && same_tree(*e1, *e2),
        (Node::Ret(v1), Node::Ret(v2)) => same_tree(*v1, *v2),
        _ => false,
    }
}

/// Two lists of trees are alike from position `from` on.
pub open spec fn same_trees(a: Seq<Node>, b: Seq<Node>, from: int) -> bool
    decreases a, a.len() - from,
{
    a.len() == b.len() && (0 <= from < a.len() ==> same_tree(a[from], b[from]) && same_trees(
        a,
        b,
        from + 1,
    ))
}

/// Two parameter lists are alike: the same names and type names in order.
pub open spec fn same_params(a: Seq<(String, String)>, b: Seq<(String, String)>) -> bool {
    &&& a.len() == b.len()
    &&& forall|i: int|
        0 <= i < a.len() ==> (#[trigger] a[i]).0@ == b[i].0@ && a[i].1@ == b[i].1@
}

impl Clone for Node {
    /// A copy of the tree.
    fn clone(&self) -> (copy: Node)
        ensures
            same_tree(*self, copy),
        decreases node_size(*self), 1nat,
    {
        match self {
            Node::Empty => Node::Empty,
            Node::BinOp(lhs, op, rhs) => Node::BinOp(
                Box::new((**lhs).clone()),
                *op,
                Box::new((**rhs).clone()),
            ),
            Node::Number(i) => Node::Number(*i),
            Node::StrLiteral(text) => Node::StrLiteral(text.clone()),
            Node::Ident(name) => Node::Ident(name.clone()),
            Node::Call(list) => Node::Call(clone_nodes(list)),
            Node::VarDef(name, init) => Node::VarDef(name.clone(), Box::new((**init).clone())),
            Node::FuncDef(name, params, rettype, body) => {
                let mut copied: Vec<(String, String)> = Vec::new();
                let mut i: usize = 0;
                while i < params.len()
                    invariant
                        i <= params.len(),
                        copied.len() == i,
                        forall|j: int|
                            0 <= j < i ==> (#[trigger] params@[j]).0@ == copied@[j].0@
                                && params@[j].1@ == copied@[j].1@,
                    decreases params.len() - i,
                {
                    copied.push((params[i].0.clone(), params[i].1.clone()));
                    i += 1;
                }
                Node::FuncDef(name.clone(), copied, rettype.clone(), clone_nodes(body))
            },
            Node::If(cond, then, other) => Node::If(
                Box::new((**cond).clone()),
                Box::new((**then).clone()),
                Box::new((**other).clone()),
            ),
            Node::Ret(val) => Node::Ret(Box::new((**val).clone())),
        }
    }
}

/// Lists that are alike at every position are alike from any position on.
proof fn lemma_same_trees(a: Seq<Node>, b: Seq<Node>, from: int)
    requires
        a.len() == b.len(),
        0 <= from,
        forall|j: int| from <= j < a.len() ==> same_tree(#[trigger] a[j], b[j]),
    ensures
        same_trees(a, b, from),
    decreases a.len() - from,
{
    if from < a.len() {
        lemma_same_trees(a, b, from + 1);
    }
}

/// A copy of a list of nodes.
fn clone_nodes(list: &Vec<Node>) -> (copy: Vec<Node>)
    ensures
        same_trees(list@, copy@, 0),
    decreases nodes_size(list@, 0) + 1, 0nat,
{
    let mut copy: Vec<Node> = Vec::new();
    let mut i: usize = 0;
    while i < list.len()
        invariant
            i <= list.len(),
            copy.len() == i,
            forall|j: int| 0 <= j < i ==> same_tree(#[trigger] list@[j], copy@[j]),
        decreases list.len() - i,
    {
        proof {
            lemma_nodes_size_bounds(list@, 0, i as int);
        }
        copy.push(list[i].clone());
        i += 1;
    }
    proof {
        lemma_same_trees(list@, copy@, 0);
    }
    copy
}

impl Op {
    /// `+`, `-` and `*`.
    pub open spec fn is_arithmetic(self) -> bool {
        self == Op::Add || self == Op::Sub || self == Op::Mul
    }

    /// `==`, `!=`, `<`, `<=`, `>` and `>=`.
    pub open spec fn is_comparison(self) -> bool {
        self == Op::Eql || self == Op::Neq || self == Op::Lwt || self == Op::Lwe || self == Op::Grt
            || self == Op::Gre
    }

    /// `&&` and `||`.
    pub open spec fn is_logical(self) -> bool {
        self == Op::And || self == Op::Or
    }
}

/// Number of nodes in the tree rooted at `n`.
pub open spec fn node_size(n: Node) -> nat
    decreases n, 0nat,
{
    match n {
        Node::Empty => 1,
        Node::Number(_) => 1,
        Node::StrLiteral(_) => 1,
        Node::Ident(_) => 1,
        Node::BinOp(l, _, r) => 1 + node_size(*l) + node_size(*r),
        Node::Call(list) => 1 + nodes_size(list@, 0),
        Node::VarDef(_, init) => 1 + node_size(*init),
        Node::FuncDef(_, _, _, body) => 1 + nodes_size(body@, 0),
        Node::If(c, t, e) => 1 + node_size(*c) + node_size(*t) + node_size(*e),
        Node::Ret(v) => 1 + node_size(*v),
    }
}

/// Number of nodes in the trees `list[from..]`.
pub open spec fn nodes_size(list: Seq<Node>, from: int) -> nat
    decreases list, list.len() - from,
{
    if 0 <= from < list.len() {
        node_size(list[from]) + nodes_size(list, from + 1)
    } else {
        0
    }
}

/// Every tree of a list is smaller than the list from any earlier position.
pub proof fn lemma_nodes_size_bounds(list: Seq<Node>, from: int, i: int)
    requires
        0 <= from <= i < list.len(),
    ensures
        node_size(list[i]) <= nodes_size(list, from),
    decreases i - from,
{
    if from < i {
        lemma_nodes_size_bounds(list, from + 1, i);
    }
}

} // verus!
