use vstd::prelude::*;

verus! {

/// A node of the syntax tree. Evaluation reuses the same nodes as run-time
/// values: `Number`, `String_`, `Boolean` and `Function` are both syntax and
/// values, every other variant is reduced away by evaluation.
///
/// Numbers are 64-bit signed integers. A `Function` whose `native` field is
/// set names a host-supplied callable; its `body` is then unused.
///
/// Deep copies are made with [`AST::duplicate`], which is verified to
/// preserve the denoted tree.
#[derive(Debug)]
pub enum AST {
    Number(i64),
    String_(String),
    Boolean(bool),
    Variable(String),
    Function { parameters: Vec<String>, body: Box<AST>, native: Option<String> },
    Call { function: Box<AST>, arguments: Vec<AST> },
    If { condition: Box<AST>, then_branch: Box<AST>, otherwise: Option<Box<AST>> },
    Assign { operator: String, left: Box<AST>, right: Box<AST> },
    Binary { operator: String, left: Box<AST>, right: Box<AST> },
    Program(Vec<AST>),
}

/// The mathematical shape of a syntax tree: the same variants as [`AST`],
/// over `int`, `Seq<char>` and `Seq` instead of machine types. Contracts and
/// the specification interpreter speak entirely in this type.
pub ghost enum SpecAST {
    Number(int),
    StringLit(Seq<char>),
    Boolean(bool),
    Variable(Seq<char>),
    Function { parameters: Seq<Seq<char>>, body: Box<SpecAST>, native: Option<Seq<char>> },
    Call { function: Box<SpecAST>, arguments: Seq<SpecAST> },
    If { condition: Box<SpecAST>, then_branch: Box<SpecAST>, otherwise: Option<Box<SpecAST>> },
    Assign { operator: Seq<char>, left: Box<SpecAST>, right: Box<SpecAST> },
    Binary { operator: Seq<char>, left: Box<SpecAST>, right: Box<SpecAST> },
    Program(Seq<SpecAST>),
}

/// The views of a sequence of names.
pub open spec fn view_names(s: Seq<String>) -> Seq<Seq<char>> {
    Seq::new(s.len(), |i: int| s[i]@)
}

/// The views of a sequence of nodes, elementwise.
pub open spec fn view_ast_seq(s: Seq<AST>) -> Seq<SpecAST>
    decreases s,
{
    if s.len() == 0 {
        Seq::empty()
    } else {
        seq![s[0].spec_tree()] + view_ast_seq(s.drop_first())
    }
}

impl AST {
    /// The mathematical tree this node denotes.
    pub open spec fn spec_tree(&self) -> SpecAST
        decreases self,
    {
        match self {
            AST::Number(n) => SpecAST::Number(*n as int),
            AST::String_(s) => SpecAST::StringLit(s@),
            AST::Boolean(b) => SpecAST::Boolean(*b),
            AST::Variable(name) => SpecAST::Variable(name@),
            AST::Function { parameters, body, native } => SpecAST::Function {
                parameters: view_names(parameters@),
                body: Box::new(body.spec_tree()),
                native: match native {
                    Some(n) => Some(n@),
                    None => None,
                },
            },
            AST::Call { function, arguments } => SpecAST::Call {
                function: Box::new(function.spec_tree()),
                arguments: view_ast_seq(arguments@),
            },
            AST::If { condition, then_branch, otherwise } => SpecAST::If {
                condition: Box::new(condition.spec_tree()),
                then_branch: Box::new(then_branch.spec_tree()),
                otherwise: match otherwise {
                    Some(o) => Some(Box::new(o.spec_tree())),
                    None => None,
                },
            },
            AST::Assign { operator, left, right } => SpecAST::Assign {
                operator: operator@,
                left: Box::new(left.spec_tree()),
                right: Box::new(right.spec_tree()),
            },
            AST::Binary { operator, left, right } => SpecAST::Binary {
                operator: operator@,
                left: Box::new(left.spec_tree()),
                right: Box::new(right.spec_tree()),
            },
            AST::Program(stmts) => SpecAST::Program(view_ast_seq(stmts@)),
        }
    }
}

impl View for AST {
    type V = SpecAST;

    open spec fn view(&self) -> SpecAST {
        self.spec_tree()
    }
}

/// `view_ast_seq` is the elementwise view.
pub proof fn lemma_view_ast_seq(s: Seq<AST>)
    ensures
        view_ast_seq(s).len() == s.len(),
        forall|i: int| 0 <= i < s.len() ==> view_ast_seq(s)[i] == #[trigger] s[i]@,
    decreases s,
{
    if s.len() > 0 {
        lemma_view_ast_seq(s.drop_first());
        assert forall|i: int| 0 <= i < s.len() implies view_ast_seq(s)[i] == #[trigger] s[i]@ by {
            if i > 0 {
                assert(view_ast_seq(s)[i] == view_ast_seq(s.drop_first())[i - 1]);
                assert(s.drop_first()[i - 1] == s[i]);
            }
        }
    }
}


/// Structural equality of two mathematical trees, as the language's `==`
/// operator decides it. Two `Function` values compare equal only when both
/// are user-defined (no `native` tag) with equal parameter lists and bodies:
/// a native callable is never equal to anything, itself included.
pub open spec fn sp_ast_eq(a: SpecAST, b: SpecAST) -> bool
    decreases a,
{
    match (a, b) {
        (SpecAST::Number(x), SpecAST::Number(y)) => x == y,
        (SpecAST::StringLit(x), SpecAST::StringLit(y)) => x == y,
        (SpecAST::Boolean(x), SpecAST::Boolean(y)) => x == y,
        (SpecAST::Variable(x), SpecAST::Variable(y)) => x == y,
        (
            SpecAST::Function { parameters: p1, body: b1, native: n1 },
            SpecAST::Function { parameters: p2, body: b2, native: n2 },
        ) => p1 == p2 && n1 is None && n2 is None && sp_ast_eq(*b1, *b2),
        (
            SpecAST::Call { function: f1, arguments: a1 },
            SpecAST::Call { function: f2, arguments: a2 },
        ) => sp_ast_eq(*f1, *f2) && sp_ast_seq_eq(a1, a2),
        (
            SpecAST::If { condition: c1, then_branch: t1, otherwise: o1 },
            SpecAST::If { condition: c2, then_branch: t2, otherwise: o2 },
        ) => sp_ast_eq(*c1, *c2) && sp_ast_eq(*t1, *t2) && match (o1, o2) {
            (None, None) => true,
            (Some(x), Some(y)) => sp_ast_eq(*x, *y),
            _ => false,
        },
        (
            SpecAST::Assign { operator: op1, left: l1, right: r1 },
            SpecAST::Assign { operator: op2, left: l2, right: r2 },
        ) => op1 == op2 && sp_ast_eq(*l1, *l2) && sp_ast_eq(*r1, *r2),
        (
            SpecAST::Binary { operator: op1, left: l1, right: r1 },
            SpecAST::Binary { operator: op2, left: l2, right: r2 },
        ) => op1 == op2 && sp_ast_eq(*l1, *l2) && sp_ast_eq(*r1, *r2),
        (SpecAST::Program(x), SpecAST::Program(y)) => sp_ast_seq_eq(x, y),
        _ => false,
    }
}

/// Elementwise [`sp_ast_eq`] over two sequences of trees.
pub open spec fn sp_ast_seq_eq(x: Seq<SpecAST>, y: Seq<SpecAST>) -> bool
    decreases x,
{
    if x.len() != y.len() {
        false
    } else if x.len() == 0 {
        true
    } else {
        sp_ast_eq(x[0], y[0]) && sp_ast_seq_eq(x.drop_first(), y.drop_first())
    }
}

impl AST {
    /// A deep copy that denotes the same mathematical tree.
    pub fn duplicate(&self) -> (r: AST)
        ensures
            r@ == self@,
        decreases self,
    {
        match self {
            AST::Number(n) => AST::Number(*n),
            AST::String_(s) => AST::String_(s.clone()),
            AST::Boolean(b) => AST::Boolean(*b),
            AST::Variable(name) => AST::Variable(name.clone()),
            AST::Function { parameters, body, native } => AST::Function {
                parameters: duplicate_names(parameters),
                body: Box::new(body.duplicate()),
                native: match native {
                    Some(n) => Some(n.clone()),
                    None => None,
                },
            },
            AST::Call { function, arguments } => AST::Call {
                function: Box::new(function.duplicate()),
                arguments: duplicate_asts(arguments),
            },
            AST::If { condition, then_branch, otherwise } => AST::If {
                condition: Box::new(condition.duplicate()),
                then_branch: Box::new(then_branch.duplicate()),
                otherwise: match otherwise {
                    Some(o) => Some(Box::new(o.duplicate())),
                    None => None,
                },
            },
            AST::Assign { operator, left, right } => AST::Assign {
                operator: operator.clone(),
                left: Box::new(left.duplicate()),
                right: Box::new(right.duplicate()),
            },
            AST::Binary { operator, left, right } => AST::Binary {
                operator: operator.clone(),
                left: Box::new(left.duplicate()),
                right: Box::new(right.duplicate()),
            },
            AST::Program(stmts) => AST::Program(duplicate_asts(stmts)),
        }
    }
}

/// Copies a parameter list; the views are unchanged.
fn duplicate_names(v: &Vec<String>) -> (r: Vec<String>)
    ensures
        view_names(r@) == view_names(v@),
{
    let mut r: Vec<String> = Vec::new();
    let mut i: usize = 0;
    while i < v.len()
        invariant
            i <= v@.len(),
            r@.len() == i,
            forall|j: int| 0 <= j < i ==> r@[j]@ == #[trigger] v@[j]@,
        decreases v@.len() - i,
    {
        r.push(v[i].clone());
        i += 1;
    }
    proof {
        assert(view_names(r@) =~= view_names(v@));
    }
    r
}

/// Copies a node list; the views are unchanged.
fn duplicate_asts(v: &Vec<AST>) -> (r: Vec<AST>)
    ensures
        view_ast_seq(r@) == view_ast_seq(v@),
    decreases v@,
{
    let mut r: Vec<AST> = Vec::new();
    let mut i: usize = 0;
    while i < v.len()
        invariant
            i <= v@.len(),
            r@.len() == i,
            forall|j: int| 0 <= j < i ==> r@[j]@ == #[trigger] v@[j]@,
        decreases v@.len() - i,
    {
        r.push(v[i].duplicate());
        i += 1;
    }
    proof {
        lemma_view_ast_seq(r@);
        lemma_view_ast_seq(v@);
        assert forall|j: int| 0 <= j < v@.len() implies view_ast_seq(r@)[j] == view_ast_seq(
            v@,
        )[j] by {
            assert(r@[j]@ == v@[j]@);
        }
        assert(view_ast_seq(r@) =~= view_ast_seq(v@));
    }
    r
}

/// Decides the language's structural equality on two values.
pub fn ast_equals(a: &AST, b: &AST) -> (r: bool)
    ensures
        r == sp_ast_eq(a@, b@),
    decreases a,
{
    match (a, b) {
        (AST::Number(x), AST::Number(y)) => *x == *y,
        (AST::String_(x), AST::String_(y)) => *x == *y,
        (AST::Boolean(x), AST::Boolean(y)) => *x == *y,
        (AST::Variable(x), AST::Variable(y)) => *x == *y,
        (
            AST::Function { parameters: p1, body: b1, native: n1 },
            AST::Function { parameters: p2, body: b2, native: n2 },
        ) => names_equal(p1, p2) && n1.is_none() && n2.is_none() && ast_equals(b1, b2),
        (
            AST::Call { function: f1, arguments: a1 },
            AST::Call { function: f2, arguments: a2 },
        ) => ast_equals(f1, f2) && asts_equal(a1, a2),
        (
            AST::If { condition: c1, then_branch: t1, otherwise: o1 },
            AST::If { condition: c2, then_branch: t2, otherwise: o2 },
        ) => ast_equals(c1, c2) && ast_equals(t1, t2) && match (o1, o2) {
            (None, None) => true,
            (Some(x), Some(y)) => ast_equals(x, y),
            _ => false,
        },
        (
            AST::Assign { operator: op1, left: l1, right: r1 },
            AST::Assign { operator: op2, left: l2, right: r2 },
        ) => *op1 == *op2 && ast_equals(l1, l2) && ast_equals(r1, r2),
        (
            AST::Binary { operator: op1, left: l1, right: r1 },
            AST::Binary { operator: op2, left: l2, right: r2 },
        ) => *op1 == *op2 && ast_equals(l1, l2) && ast_equals(r1, r2),
        (AST::Program(x), AST::Program(y)) => asts_equal(x, y),
        _ => false,
    }
}

/// Compares two parameter lists by content.
fn names_equal(x: &Vec<String>, y: &Vec<String>) -> (r: bool)
    ensures
        r == (view_names(x@) == view_names(y@)),
{
    if x.len() != y.len() {
        proof {
            assert(view_names(x@).len() != view_names(y@).len());
        }
        return false;
    }
    let mut i: usize = 0;
    while i < x.len()
        invariant
            i <= x@.len(),
            x@.len() == y@.len(),
            forall|j: int| 0 <= j < i ==> x@[j]@ == #[trigger] y@[j]@,
        decreases x@.len() - i,
    {
        if !(x[i] == y[i]) {
            proof {
                assert(view_names(x@)[i as int] != view_names(y@)[i as int]);
            }
            return false;
        }
        i += 1;
    }
    proof {
        assert(view_names(x@) =~= view_names(y@));
    }
    true
}

/// Compares two node lists by [`sp_ast_eq`], elementwise.
fn asts_equal(x: &Vec<AST>, y: &Vec<AST>) -> (r: bool)
    ensures
        r == sp_ast_seq_eq(view_ast_seq(x@), view_ast_seq(y@)),
    decreases x@,
{
    proof {
        lemma_view_ast_seq(x@);
        lemma_view_ast_seq(y@);
    }
    if x.len() != y.len() {
        return false;
    }
    let mut i: usize = 0;
    while i < x.len()
        invariant
            i <= x@.len(),
            x@.len() == y@.len(),
            forall|j: int| 0 <= j < i ==> sp_ast_eq(#[trigger] x@[j]@, y@[j]@),
        decreases x@.len() - i,
    {
        if !ast_equals(&x[i], &y[i]) {
            proof {
                lemma_view_ast_seq(x@);
                lemma_view_ast_seq(y@);
                lemma_sp_ast_seq_eq_iff(view_ast_seq(x@), view_ast_seq(y@));
                assert(view_ast_seq(x@)[i as int] == x@[i as int]@);
                assert(view_ast_seq(y@)[i as int] == y@[i as int]@);
                assert(!sp_ast_eq(view_ast_seq(x@)[i as int], view_ast_seq(y@)[i as int]));
            }
            return false;
        }
        i += 1;
    }
    proof {
        lemma_sp_ast_seq_eq_iff(view_ast_seq(x@), view_ast_seq(y@));
        assert forall|j: int| 0 <= j < x@.len() implies sp_ast_eq(
            #[trigger] view_ast_seq(x@)[j],
            view_ast_seq(y@)[j],
        ) by {
            assert(view_ast_seq(x@)[j] == x@[j]@);
            assert(view_ast_seq(y@)[j] == y@[j]@);
            assert(sp_ast_eq(x@[j]@, y@[j]@));
        }
    }
    true
}

/// `sp_ast_seq_eq` holds exactly when the lengths agree and the elements
/// compare equal pairwise.
pub proof fn lemma_sp_ast_seq_eq_iff(x: Seq<SpecAST>, y: Seq<SpecAST>)
    ensures
        sp_ast_seq_eq(x, y) <==> (x.len() == y.len() && forall|i: int|
            0 <= i < x.len() ==> sp_ast_eq(#[trigger] x[i], y[i])),
    decreases x,
{
    if x.len() == y.len() && x.len() > 0 {
        lemma_sp_ast_seq_eq_iff(x.drop_first(), y.drop_first());
        assert forall|i: int| 0 <= i < x.drop_first().len() implies
            (#[trigger] x.drop_first()[i] == x[i + 1] && y.drop_first()[i] == y[i + 1]) by {}
        if sp_ast_seq_eq(x, y) {
            assert forall|i: int| 0 <= i < x.len() implies sp_ast_eq(#[trigger] x[i], y[i]) by {
                if i > 0 {
                    assert(sp_ast_eq(x.drop_first()[i - 1], y.drop_first()[i - 1]));
                }
            }
        } else {
            if sp_ast_eq(x[0], y[0]) {
                assert(!sp_ast_seq_eq(x.drop_first(), y.drop_first()));
            }
        }
    }
}

} // verus!
