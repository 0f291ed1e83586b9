//! The expression tree that predicates and result columns are made of.
//!
//! The optimizer receives expressions from the planner and moves them around
//! whole; it inspects their structure only to classify constants, to recognize
//! primary-key comparisons and to match shared sub-expressions. Subquery
//! bodies are opaque to the optimizer, so they are carried as rendered text:
//! two subqueries count as the same expression exactly when their text agrees.
use vstd::prelude::*;

verus! {

/// A literal value appearing in an expression.
#[derive(Debug, PartialEq)]
pub enum Literal {
    Null,
    /// A numeric literal, kept as written (e.g. `"0"`, `"1.5"`, `"2e10"`).
    Numeric(String),
    /// A string literal, kept with its surrounding quote characters.
    Str(String),
    /// A blob literal, kept as its hexadecimal spelling.
    Blob(String),
    CurrentDate,
    CurrentTime,
    CurrentTimestamp,
}

#[derive(Debug, Clone, Copy, PartialEq, Eq, Structural)]
pub enum UnaryOperator {
    BitwiseNot,
    Negative,
    Not,
    Positive,
}

#[derive(Debug, Clone, Copy, PartialEq, Eq, Structural)]
pub enum BinaryOperator {
    Add,
    And,
    Concat,
    Divide,
    Equals,
    Greater,
    GreaterEquals,
    Less,
    LessEquals,
    Modulus,
    Multiply,
    NotEquals,
    Or,
    Subtract,
}

#[derive(Debug, Clone, Copy, PartialEq, Eq, Structural)]
pub enum Direction {
    Ascending,
    Descending,
}

/// An expression tree node.
#[derive(Debug, PartialEq)]
pub enum Expr {
    Between { lhs: Box<Expr>, not: bool, start: Box<Expr>, end: Box<Expr> },
    Binary(Box<Expr>, BinaryOperator, Box<Expr>),
    Case {
        base: Option<Box<Expr>>,
        when_then_pairs: Vec<(Expr, Expr)>,
        else_expr: Option<Box<Expr>>,
    },
    Cast { expr: Box<Expr>, target_type: String },
    Collate(Box<Expr>, String),
    DoublyQualified(String, String, String),
    /// `EXISTS (...)`; the subquery body as text.
    Exists(String),
    FunctionCall { name: String, args: Option<Vec<Expr>> },
    FunctionCallStar { name: String },
    /// A bare identifier.
    Id(String),
    InList { lhs: Box<Expr>, not: bool, rhs: Option<Vec<Expr>> },
    /// `x IN (SELECT ...)`; the subquery body as text.
    InSelect { lhs: Box<Expr>, not: bool, subquery: String },
    IsNull(Box<Expr>),
    Like { lhs: Box<Expr>, not: bool, rhs: Box<Expr>, escape: Option<Box<Expr>> },
    Literal(Literal),
    NotNull(Box<Expr>),
    Parenthesized(Vec<Expr>),
    /// A table-qualified identifier `table.column`.
    Qualified(String, String),
    /// A scalar subquery; the subquery body as text.
    Subquery(String),
    Unary(UnaryOperator, Box<Expr>),
    Variable(String),
}

/// The mathematical value of a `Literal`.
pub enum LiteralV {
    Null,
    Numeric(Seq<char>),
    Str(Seq<char>),
    Blob(Seq<char>),
    CurrentDate,
    CurrentTime,
    CurrentTimestamp,
}

/// The mathematical value of an `Expr`.
pub enum ExprV {
    Between { lhs: Box<ExprV>, not: bool, start: Box<ExprV>, end: Box<ExprV> },
    Binary(Box<ExprV>, BinaryOperator, Box<ExprV>),
    Case {
        base: Option<Box<ExprV>>,
        when_then_pairs: Seq<(ExprV, ExprV)>,
        else_expr: Option<Box<ExprV>>,
    },
    Cast { expr: Box<ExprV>, target_type: Seq<char> },
    Collate(Box<ExprV>, Seq<char>),
    DoublyQualified(Seq<char>, Seq<char>, Seq<char>),
    Exists(Seq<char>),
    FunctionCall { name: Seq<char>, args: Option<Seq<ExprV>> },
    FunctionCallStar { name: Seq<char> },
    Id(Seq<char>),
    InList { lhs: Box<ExprV>, not: bool, rhs: Option<Seq<ExprV>> },
    InSelect { lhs: Box<ExprV>, not: bool, subquery: Seq<char> },
    IsNull(Box<ExprV>),
    Like { lhs: Box<ExprV>, not: bool, rhs: Box<ExprV>, escape: Option<Box<ExprV>> },
    Literal(LiteralV),
    NotNull(Box<ExprV>),
    Parenthesized(Seq<ExprV>),
    Qualified(Seq<char>, Seq<char>),
    Subquery(Seq<char>),
    Unary(UnaryOperator, Box<ExprV>),
    Variable(Seq<char>),
}

pub open spec fn literal_view(l: Literal) -> LiteralV {
    match l {
        Literal::Null => LiteralV::Null,
        Literal::Numeric(s) => LiteralV::Numeric(s@),
        Literal::Str(s) => LiteralV::Str(s@),
        Literal::Blob(s) => LiteralV::Blob(s@),
        Literal::CurrentDate => LiteralV::CurrentDate,
        Literal::CurrentTime => LiteralV::CurrentTime,
        Literal::CurrentTimestamp => LiteralV::CurrentTimestamp,
    }
}

pub open spec fn expr_view(e: Expr) -> ExprV
    decreases e,
{
    match e {
        Expr::Between { lhs, not, start, end } => ExprV::Between {
            lhs: Box::new(expr_view(*lhs)),
            not,
            start: Box::new(expr_view(*start)),
            end: Box::new(expr_view(*end)),
        },
        Expr::Binary(lhs, op, rhs) => ExprV::Binary(
            Box::new(expr_view(*lhs)),
            op,
            Box::new(expr_view(*rhs)),
        ),
        Expr::Case { base, when_then_pairs, else_expr } => ExprV::Case {
            base: match base {
                Option::None => Option::None,
                Option::Some(b) => Option::Some(Box::new(expr_view(*b))),
            },
            when_then_pairs: expr_pairs_view(when_then_pairs@),
            else_expr: match else_expr {
                Option::None => Option::None,
                Option::Some(b) => Option::Some(Box::new(expr_view(*b))),
            },
        },
        Expr::Cast { expr, target_type } => ExprV::Cast {
            expr: Box::new(expr_view(*expr)),
            target_type: target_type@,
        },
        Expr::Collate(expr, collation) => ExprV::Collate(Box::new(expr_view(*expr)), collation@),
        Expr::DoublyQualified(a, b, c) => ExprV::DoublyQualified(a@, b@, c@),
        Expr::Exists(s) => ExprV::Exists(s@),
        Expr::FunctionCall { name, args } => ExprV::FunctionCall {
            name: name@,
            args: match args {
                Option::None => Option::None,
                Option::Some(v) => Option::Some(exprs_view(v@)),
            },
        },
        Expr::FunctionCallStar { name } => ExprV::FunctionCallStar { name: name@ },
        Expr::Id(s) => ExprV::Id(s@),
        Expr::InList { lhs, not, rhs } => ExprV::InList {
            lhs: Box::new(expr_view(*lhs)),
            not,
            rhs: match rhs {
                Option::None => Option::None,
                Option::Some(v) => Option::Some(exprs_view(v@)),
            },
        },
        Expr::InSelect { lhs, not, subquery } => ExprV::InSelect {
            lhs: Box::new(expr_view(*lhs)),
            not,
            subquery: subquery@,
        },
        Expr::IsNull(expr) => ExprV::IsNull(Box::new(expr_view(*expr))),
        Expr::Like { lhs, not, rhs, escape } => ExprV::Like {
            lhs: Box::new(expr_view(*lhs)),
            not,
            rhs: Box::new(expr_view(*rhs)),
            escape: match escape {
                Option::None => Option::None,
                Option::Some(b) => Option::Some(Box::new(expr_view(*b))),
            },
        },
        Expr::Literal(l) => ExprV::Literal(literal_view(l)),
        Expr::NotNull(expr) => ExprV::NotNull(Box::new(expr_view(*expr))),
        Expr::Parenthesized(v) => ExprV::Parenthesized(exprs_view(v@)),
        Expr::Qualified(a, b) => ExprV::Qualified(a@, b@),
        Expr::Subquery(s) => ExprV::Subquery(s@),
        Expr::Unary(op, expr) => ExprV::Unary(op, Box::new(expr_view(*expr))),
        Expr::Variable(s) => ExprV::Variable(s@),
    }
}

pub open spec fn exprs_view(s: Seq<Expr>) -> Seq<ExprV>
    decreases s,
{
    if s.len() == 0 {
        Seq::empty()
    } else {
        seq![expr_view(s[0])] + exprs_view(s.drop_first())
    }
}

pub open spec fn expr_pairs_view(s: Seq<(Expr, Expr)>) -> Seq<(ExprV, ExprV)>
    decreases s,
{
    if s.len() == 0 {
        Seq::empty()
    } else {
        seq![(expr_view(s[0].0), expr_view(s[0].1))] + expr_pairs_view(s.drop_first())
    }
}

impl View for Literal {
    type V = LiteralV;

    open spec fn view(&self) -> LiteralV {
        literal_view(*self)
    }
}

impl View for Expr {
    type V = ExprV;

    open spec fn view(&self) -> ExprV {
        expr_view(*self)
    }
}

/// `exprs_view` agrees with a pointwise map of `expr_view`.
pub proof fn lemma_exprs_view_index(s: Seq<Expr>)
    ensures
        exprs_view(s).len() == s.len(),
        forall|i: int| 0 <= i < s.len() ==> exprs_view(s)[i] == expr_view(#[trigger] s[i]),
    decreases s,
{
    if s.len() > 0 {
        lemma_exprs_view_index(s.drop_first());
        assert forall|i: int| 0 <= i < s.len() implies exprs_view(s)[i] == expr_view(#[trigger] s[i]) by {
            if i > 0 {
                assert(s.drop_first()[i - 1] == s[i]);
            }
        }
    }
}

/// `expr_pairs_view` agrees with a pointwise map of `expr_view`.
pub proof fn lemma_expr_pairs_view_index(s: Seq<(Expr, Expr)>)
    ensures
        expr_pairs_view(s).len() == s.len(),
        forall|i: int| 0 <= i < s.len() ==> expr_pairs_view(s)[i]
            == (expr_view(#[trigger] s[i].0), expr_view(s[i].1)),
    decreases s,
{
    if s.len() > 0 {
        lemma_expr_pairs_view_index(s.drop_first());
        assert forall|i: int| 0 <= i < s.len() implies expr_pairs_view(s)[i]
            == (expr_view(#[trigger] s[i].0), expr_view(s[i].1)) by {
            if i > 0 {
                assert(s.drop_first()[i - 1] == s[i]);
            }
        }
    }
}


/// `exprs_view` commutes with appending one element.
pub proof fn lemma_exprs_view_push(s: Seq<Expr>, e: Expr)
    ensures
        exprs_view(s.push(e)) == exprs_view(s).push(expr_view(e)),
{
    lemma_exprs_view_index(s);
    lemma_exprs_view_index(s.push(e));
    assert forall|i: int| 0 <= i < s.push(e).len() implies exprs_view(s.push(e))[i]
        == exprs_view(s).push(expr_view(e))[i] by {
        if i < s.len() {
            assert(s.push(e)[i] == s[i]);
        } else {
            assert(s.push(e)[i] == e);
        }
    }
    assert(exprs_view(s.push(e)) =~= exprs_view(s).push(expr_view(e)));
}


/// Whether two optional boxed expressions have equal values.
fn opt_box_eq(a: &Option<Box<Expr>>, b: &Option<Box<Expr>>) -> (r: bool)
    ensures
        r == match (a, b) {
            (Option::None, Option::None) => true,
            (Option::Some(x), Option::Some(y)) => expr_view(**x) == expr_view(**y),
            _ => false,
        },
    decreases *a,
{
    match (a, b) {
        (Option::None, Option::None) => true,
        (Option::Some(x), Option::Some(y)) => expr_eq(x, y),
        _ => false,
    }
}

/// Whether two expression lists have equal values.
fn exprs_eq(a: &Vec<Expr>, b: &Vec<Expr>) -> (r: bool)
    ensures
        r == (exprs_view(a@) == exprs_view(b@)),
    decreases *a,
{
    proof {
        lemma_exprs_view_index(a@);
        lemma_exprs_view_index(b@);
    }
    if a.len() != b.len() {
        return false;
    }
    let n = a.len();
    let mut i: usize = 0;
    while i < n
        invariant
            i <= n,
            n == a@.len() == b@.len(),
            exprs_view(a@).len() == n,
            exprs_view(b@).len() == n,
            forall|k: int| 0 <= k < n ==> exprs_view(a@)[k] == expr_view(#[trigger] a@[k]),
            forall|k: int| 0 <= k < n ==> exprs_view(b@)[k] == expr_view(#[trigger] b@[k]),
            forall|k: int| 0 <= k < i ==> exprs_view(a@)[k] == exprs_view(b@)[k],
        decreases n - i,
    {
        if !expr_eq(&a[i], &b[i]) {
            proof {
                assert(exprs_view(a@)[i as int] != exprs_view(b@)[i as int]);
            }
            return false;
        }
        i = i + 1;
    }
    proof {
        assert(exprs_view(a@) =~= exprs_view(b@));
    }
    true
}

/// Whether two when/then pair lists have equal values.
fn expr_pairs_eq(a: &Vec<(Expr, Expr)>, b: &Vec<(Expr, Expr)>) -> (r: bool)
    ensures
        r == (expr_pairs_view(a@) == expr_pairs_view(b@)),
    decreases *a,
{
    proof {
        lemma_expr_pairs_view_index(a@);
        lemma_expr_pairs_view_index(b@);
    }
    if a.len() != b.len() {
        return false;
    }
    let n = a.len();
    let mut i: usize = 0;
    while i < n
        invariant
            i <= n,
            n == a@.len() == b@.len(),
            expr_pairs_view(a@).len() == n,
            expr_pairs_view(b@).len() == n,
            forall|k: int| 0 <= k < n ==> expr_pairs_view(a@)[k] == (expr_view(
                #[trigger] a@[k].0,
            ), expr_view(a@[k].1)),
            forall|k: int| 0 <= k < n ==> expr_pairs_view(b@)[k] == (expr_view(
                #[trigger] b@[k].0,
            ), expr_view(b@[k].1)),
            forall|k: int| 0 <= k < i ==> expr_pairs_view(a@)[k] == expr_pairs_view(b@)[k],
        decreases n - i,
    {
        if !expr_eq(&a[i].0, &b[i].0) || !expr_eq(&a[i].1, &b[i].1) {
            proof {
                assert(expr_pairs_view(a@)[i as int] != expr_pairs_view(b@)[i as int]);
            }
            return false;
        }
        i = i + 1;
    }
    proof {
        assert(expr_pairs_view(a@) =~= expr_pairs_view(b@));
    }
    true
}

/// Whether two optional expression lists have equal values.
fn opt_exprs_eq(a: &Option<Vec<Expr>>, b: &Option<Vec<Expr>>) -> (r: bool)
    ensures
        r == match (a, b) {
            (Option::None, Option::None) => true,
            (Option::Some(x), Option::Some(y)) => exprs_view(x@) == exprs_view(y@),
            _ => false,
        },
    decreases *a,
{
    match (a, b) {
        (Option::None, Option::None) => true,
        (Option::Some(x), Option::Some(y)) => exprs_eq(x, y),
        _ => false,
    }
}

/// Whether two literals have equal values.
fn literal_eq(a: &Literal, b: &Literal) -> (r: bool)
    ensures
        r == (literal_view(*a) == literal_view(*b)),
{
    match (a, b) {
        (Literal::Null, Literal::Null) => true,
        (Literal::Numeric(x), Literal::Numeric(y)) => *x == *y,
        (Literal::Str(x), Literal::Str(y)) => *x == *y,
        (Literal::Blob(x), Literal::Blob(y)) => *x == *y,
        (Literal::CurrentDate, Literal::CurrentDate) => true,
        (Literal::CurrentTime, Literal::CurrentTime) => true,
        (Literal::CurrentTimestamp, Literal::CurrentTimestamp) => true,
        _ => false,
    }
}

/// Whether two expressions have equal values: same shape, with string
/// contents compared character for character.
#[verifier::rlimit(100)]
pub fn expr_eq(a: &Expr, b: &Expr) -> (r: bool)
    ensures
        r == (expr_view(*a) == expr_view(*b)),
    decreases *a,
{
    match (a, b) {
        (
            Expr::Between { lhs: al, not: an, start: as_, end: ae },
            Expr::Between { lhs: bl, not: bn, start: bs, end: be },
        ) => *an == *bn && expr_eq(al, bl) && expr_eq(as_, bs) && expr_eq(ae, be),
        (Expr::Binary(al, ao, ar), Expr::Binary(bl, bo, br)) => *ao == *bo && expr_eq(al, bl)
            && expr_eq(ar, br),
        (
            Expr::Case { base: ab, when_then_pairs: aw, else_expr: ae },
            Expr::Case { base: bb, when_then_pairs: bw, else_expr: be },
        ) => opt_box_eq(ab, bb) && expr_pairs_eq(aw, bw) && opt_box_eq(ae, be),
        (
            Expr::Cast { expr: ax, target_type: at },
            Expr::Cast { expr: bx, target_type: bt },
        ) => *at == *bt && expr_eq(ax, bx),
        (Expr::Collate(ax, ac), Expr::Collate(bx, bc)) => *ac == *bc && expr_eq(ax, bx),
        (Expr::DoublyQualified(a1, a2, a3), Expr::DoublyQualified(b1, b2, b3)) => *a1 == *b1
            && *a2 == *b2 && *a3 == *b3,
        (Expr::Exists(x), Expr::Exists(y)) => *x == *y,
        (
            Expr::FunctionCall { name: an, args: aa },
            Expr::FunctionCall { name: bn, args: ba },
        ) => *an == *bn && opt_exprs_eq(aa, ba),
        (Expr::FunctionCallStar { name: an }, Expr::FunctionCallStar { name: bn }) => *an == *bn,
        (Expr::Id(x), Expr::Id(y)) => *x == *y,
        (
            Expr::InList { lhs: al, not: an, rhs: ar },
            Expr::InList { lhs: bl, not: bn, rhs: br },
        ) => *an == *bn && expr_eq(al, bl) && opt_exprs_eq(ar, br),
        (
            Expr::InSelect { lhs: al, not: an, subquery: aq },
            Expr::InSelect { lhs: bl, not: bn, subquery: bq },
        ) => *an == *bn && *aq == *bq && expr_eq(al, bl),
        (Expr::IsNull(ax), Expr::IsNull(bx)) => expr_eq(ax, bx),
        (
            Expr::Like { lhs: al, not: an, rhs: ar, escape: ae },
            Expr::Like { lhs: bl, not: bn, rhs: br, escape: be },
        ) => *an == *bn && expr_eq(al, bl) && expr_eq(ar, br) && opt_box_eq(ae, be),
        (Expr::Literal(x), Expr::Literal(y)) => literal_eq(x, y),
        (Expr::NotNull(ax), Expr::NotNull(bx)) => expr_eq(ax, bx),
        (Expr::Parenthesized(ax), Expr::Parenthesized(bx)) => exprs_eq(ax, bx),
        (Expr::Qualified(a1, a2), Expr::Qualified(b1, b2)) => *a1 == *b1 && *a2 == *b2,
        (Expr::Subquery(x), Expr::Subquery(y)) => *x == *y,
        (Expr::Unary(ao, ax), Expr::Unary(bo, bx)) => *ao == *bo && expr_eq(ax, bx),
        (Expr::Variable(x), Expr::Variable(y)) => *x == *y,
        _ => false,
    }
}

} // verus!


