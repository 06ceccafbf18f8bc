//! Recursive-descent parsing: turns the token sequence into a single
//! expression tree.
//!
//! The grammar has five parenthesized forms besides the three one-token
//! atoms: a call `( expr expr* )`, `( if expr expr expr )`,
//! `( def ident expr )` and `( lambda ( ident* ) expr )`.  Each routine
//! reports how many tokens it consumed so that siblings resume at the right
//! offset.  `spec_parse_expr` states the whole descent mathematically and
//! every executable routine is proved to agree with it.

use vstd::prelude::*;
use vstd::string::StringExecFns;

use crate::tokenizer::{Token, TokenV};

verus! {

/// One of the three primitive logical operators, as a first-class value.
#[derive(Debug, PartialEq, Eq, Clone, Copy, Structural)]
pub enum Operator {
    And,
    Or,
    Not,
}

/// Parsing failure, with a description of the malformed construct.
#[derive(Debug)]
pub enum ParserErr {
    Parse(String),
}

/// A conditional node: exactly one of `then`/`other` is ever evaluated.
#[derive(Debug, PartialEq, Eq)]
pub struct If {
    pub cond: Box<Expr>,
    pub then_branch: Box<Expr>,
    pub other: Box<Expr>,
}

impl If {
    /// Boxes the three parts of a conditional.
    pub fn new(cond: Expr, then_branch: Expr, other: Expr) -> (r: Self)
        ensures
            r.cond == cond,
            r.then_branch == then_branch,
            r.other == other,
    {
        Self { cond: Box::new(cond), then_branch: Box::new(then_branch), other: Box::new(other) }
    }
}

/// An expression tree node.
#[derive(Debug, PartialEq, Eq)]
pub enum Expr {
    Bool(bool),
    Operator(Operator),
    Call(Box<Expr>, Vec<Expr>),
    If(If),
    Def(String, Box<Expr>),
    Lambda(Vec<String>, Box<Expr>),
    Ident(String),
}

/// The mathematical model of an expression tree: identical in shape to
/// `Expr`, with names as character sequences.
pub enum ExprV {
    Bool(bool),
    Operator(Operator),
    Call(Box<ExprV>, Seq<ExprV>),
    If(Box<ExprV>, Box<ExprV>, Box<ExprV>),
    Def(Seq<char>, Box<ExprV>),
    Lambda(Seq<Seq<char>>, Box<ExprV>),
    Ident(Seq<char>),
}

/// The model of an expression.
pub open spec fn expr_view(e: Expr) -> ExprV
    decreases e,
{
    match e {
        Expr::Bool(b) => ExprV::Bool(b),
        Expr::Operator(op) => ExprV::Operator(op),
        Expr::Call(f, args) => ExprV::Call(Box::new(expr_view(*f)), exprs_view(args@)),
        Expr::If(i) => ExprV::If(
            Box::new(expr_view(*i.cond)),
            Box::new(expr_view(*i.then_branch)),
            Box::new(expr_view(*i.other)),
        ),
        Expr::Def(name, sub) => ExprV::Def(name@, Box::new(expr_view(*sub))),
        Expr::Lambda(params, body) => ExprV::Lambda(params.deep_view(), Box::new(expr_view(*body))),
        Expr::Ident(name) => ExprV::Ident(name@),
    }
}

/// The models of a sequence of expressions, elementwise.
pub open spec fn exprs_view(s: Seq<Expr>) -> Seq<ExprV>
    decreases s,
{
    if s.len() == 0 {
        Seq::empty()
    } else {
        seq![expr_view(s[0])] + exprs_view(s.drop_first())
    }
}

/// `exprs_view` is the elementwise image of `expr_view`.
pub proof fn lemma_exprs_view(s: Seq<Expr>)
    ensures
        exprs_view(s).len() == s.len(),
        forall|i: int| 0 <= i < s.len() ==> exprs_view(s)[i] == expr_view(s[i]),
    decreases s.len(),
{
    if s.len() > 0 {
        lemma_exprs_view(s.drop_first());
    }
}

impl View for Expr {
    type V = ExprV;

    open spec fn view(&self) -> ExprV {
        expr_view(*self)
    }
}

impl DeepView for Expr {
    type V = ExprV;

    open spec fn deep_view(&self) -> ExprV {
        expr_view(*self)
    }
}

/// How far an expression starting at offset `p` of `t` extends, and what it
/// means; `None` is a parse error.  An atom is one token; a `(` dispatches
/// on the following keyword.
pub open spec fn spec_parse_expr(t: Seq<TokenV>, p: int) -> Option<(ExprV, nat)>
    decreases t.len() - p, 1int,
{
    if p < 0 || p >= t.len() {
        None
    } else {
        match t[p] {
            TokenV::True => Some((ExprV::Bool(true), 1 as nat)),
            TokenV::False => Some((ExprV::Bool(false), 1 as nat)),
            TokenV::And => Some((ExprV::Operator(Operator::And), 1 as nat)),
            TokenV::Or => Some((ExprV::Operator(Operator::Or), 1 as nat)),
            TokenV::Not => Some((ExprV::Operator(Operator::Not), 1 as nat)),
            TokenV::Ident(name) => Some((ExprV::Ident(name), 1 as nat)),
            TokenV::Lparen => {
                if p + 1 < t.len() && t[p + 1] == TokenV::If {
                    spec_parse_if(t, p)
                } else if p + 1 < t.len() && t[p + 1] == TokenV::Def {
                    spec_parse_def(t, p)
                } else if p + 1 < t.len() && t[p + 1] == TokenV::Lambda {
                    spec_parse_lambda(t, p)
                } else {
                    spec_parse_call(t, p)
                }
            },
            _ => None,
        }
    }
}

/// A call form `( expr expr* )` starting at `p`.
pub open spec fn spec_parse_call(t: Seq<TokenV>, p: int) -> Option<(ExprV, nat)>
    decreases t.len() - p, 0int,
{
    if t.len() - p < 3 {
        None
    } else if t[p] != TokenV::Lparen {
        None
    } else {
        match spec_parse_expr(t, p + 1) {
            None => None,
            Some((op, n1)) => {
                // an expression always consumes between 1 token and the rest
                // of the input; the guard keeps the recursion well founded
                if n1 < 1 || p + 1 + n1 > t.len() {
                    None
                } else {
                    match spec_parse_operands(t, p + 1 + n1) {
                        None => None,
                        Some((args, n2)) => Some(
                            (ExprV::Call(Box::new(op), args), (1 + n1 + n2) as nat),
                        ),
                    }
                }
            },
        }
    }
}

/// Zero or more operand expressions followed by the closing `)`; the count
/// includes that `)`.
pub open spec fn spec_parse_operands(t: Seq<TokenV>, p: int) -> Option<(Seq<ExprV>, nat)>
    decreases t.len() - p, 2int,
{
    if p < 0 || p >= t.len() {
        None
    } else if t[p] == TokenV::Rparen {
        Some((Seq::empty(), 1 as nat))
    } else {
        match spec_parse_expr(t, p) {
            None => None,
            Some((e, k)) => {
                if k < 1 || p + k > t.len() {
                    None
                } else {
                    match spec_parse_operands(t, p + k) {
                        None => None,
                        Some((rest, m)) => Some((seq![e] + rest, (k + m) as nat)),
                    }
                }
            },
        }
    }
}

/// An if form `( if expr expr expr )` starting at `p`.
pub open spec fn spec_parse_if(t: Seq<TokenV>, p: int) -> Option<(ExprV, nat)>
    decreases t.len() - p, 0int,
{
    if t.len() - p < 6 {
        None
    } else if t[p] != TokenV::Lparen || t[p + 1] != TokenV::If {
        None
    } else {
        match spec_parse_expr(t, p + 2) {
            None => None,
            Some((cond, n1)) => {
                if p + 2 + n1 > t.len() {
                    None
                } else {
                    match spec_parse_expr(t, p + 2 + n1) {
                        None => None,
                        Some((thn, n2)) => {
                            if p + 2 + n1 + n2 > t.len() {
                                None
                            } else {
                                match spec_parse_expr(t, p + 2 + n1 + n2) {
                                    None => None,
                                    Some((other, n3)) => {
                                        let q = p + 2 + n1 + n2 + n3;
                                        if q >= t.len() || t[q] != TokenV::Rparen {
                                            None
                                        } else {
                                            Some(
                                                (
                                                    ExprV::If(
                                                        Box::new(cond),
                                                        Box::new(thn),
                                                        Box::new(other),
                                                    ),
                                                    (2 + n1 + n2 + n3 + 1) as nat,
                                                ),
                                            )
                                        }
                                    },
                                }
                            }
                        },
                    }
                }
            },
        }
    }
}

/// A def form `( def ident expr )` starting at `p`.
pub open spec fn spec_parse_def(t: Seq<TokenV>, p: int) -> Option<(ExprV, nat)>
    decreases t.len() - p, 0int,
{
    if t.len() - p < 5 {
        None
    } else if t[p] != TokenV::Lparen || t[p + 1] != TokenV::Def || !(t[p + 2] is Ident) {
        None
    } else {
        match spec_parse_expr(t, p + 3) {
            None => None,
            Some((sub, n)) => {
                let q = p + 3 + n;
                if q >= t.len() || t[q] != TokenV::Rparen {
                    None
                } else {
                    Some((ExprV::Def(t[p + 2]->Ident_0, Box::new(sub)), (3 + n + 1) as nat))
                }
            },
        }
    }
}

/// A lambda form `( lambda ( ident* ) expr )` starting at `p`.
pub open spec fn spec_parse_lambda(t: Seq<TokenV>, p: int) -> Option<(ExprV, nat)>
    decreases t.len() - p, 0int,
{
    if t.len() - p < 6 {
        None
    } else if t[p] != TokenV::Lparen || t[p + 1] != TokenV::Lambda || t[p + 2] != TokenV::Lparen {
        None
    } else {
        match spec_parse_params(t, p + 3) {
            None => None,
            Some((params, np)) => {
                if p + 3 + np > t.len() {
                    None
                } else {
                    match spec_parse_expr(t, p + 3 + np) {
                        None => None,
                        Some((body, nb)) => {
                            let q = p + 3 + np + nb;
                            if q >= t.len() || t[q] != TokenV::Rparen {
                                None
                            } else {
                                Some(
                                    (
                                        ExprV::Lambda(params, Box::new(body)),
                                        (3 + np + nb + 1) as nat,
                                    ),
                                )
                            }
                        },
                    }
                }
            },
        }
    }
}

/// The identifiers of a lambda's parameter list, up to and including the
/// closing `)`; any other token inside the list is a parse error.
pub open spec fn spec_parse_params(t: Seq<TokenV>, p: int) -> Option<(Seq<Seq<char>>, nat)>
    decreases t.len() - p, 0int,
{
    if p < 0 || p >= t.len() {
        None
    } else {
        match t[p] {
            TokenV::Rparen => Some((Seq::empty(), 1 as nat)),
            TokenV::Ident(name) => match spec_parse_params(t, p + 1) {
                None => None,
                Some((rest, m)) => Some((seq![name] + rest, (1 + m) as nat)),
            },
            _ => None,
        }
    }
}


/// `exprs_view` agrees with the pointwise `deep_view` of a vector.
pub proof fn lemma_exprs_view_is_deep_view(v: Vec<Expr>)
    ensures
        exprs_view(v@) == v.deep_view(),
{
    lemma_exprs_view(v@);
    assert(exprs_view(v@) =~= v.deep_view());
}

/// Wraps a static description in a parse error.
fn perr(msg: &str) -> ParserErr {
    ParserErr::Parse(msg.to_owned())
}

/// Decides whether a token is the closing parenthesis.
fn is_rparen(t: &Token) -> (r: bool)
    ensures
        r == (t@ is Rparen),
{
    matches!(t, Token::Rparen)
}

/// Parses one expression beginning at offset `p`, exactly as
/// `spec_parse_expr` prescribes, and reports how many tokens it consumed.
fn parse_at(tokens: &[Token], p: usize) -> (r: Result<(Expr, usize), ParserErr>)
    ensures
        match r {
            Ok((e, n)) => spec_parse_expr(tokens.deep_view(), p as int) == Some(
                (e@, n as nat),
            ) && 1 <= n && p + n <= tokens.len(),
            Err(_) => spec_parse_expr(tokens.deep_view(), p as int) is None,
        },
    decreases tokens.len() - p, 1int,
{
    if p >= tokens.len() {
        return Err(perr("no token"));
    }
    match &tokens[p] {
        Token::True => Ok((Expr::Bool(true), 1)),
        Token::False => Ok((Expr::Bool(false), 1)),
        Token::And => Ok((Expr::Operator(Operator::And), 1)),
        Token::Or => Ok((Expr::Operator(Operator::Or), 1)),
        Token::Not => Ok((Expr::Operator(Operator::Not), 1)),
        Token::Ident(name) => Ok((Expr::Ident(name.clone()), 1)),
        Token::Lparen => {
            if p + 1 < tokens.len() {
                match &tokens[p + 1] {
                    Token::If => {
                        return parse_if(tokens, p);
                    },
                    Token::Def => {
                        return parse_def(tokens, p);
                    },
                    Token::Lambda => {
                        return parse_lambda(tokens, p);
                    },
                    _ => {},
                }
            }
            parse_call(tokens, p)
        },
        tok => {
            let mut m = "invalid token ".to_owned();
            let text = tok.to_string();
            m.append(text.as_str());
            Err(ParserErr::Parse(m))
        },
    }
}

/// Parses a call form `( expr expr* )` beginning at offset `p`.
fn parse_call(tokens: &[Token], p: usize) -> (r: Result<(Expr, usize), ParserErr>)
    requires
        p < tokens.len(),
    ensures
        match r {
            Ok((e, n)) => spec_parse_call(tokens.deep_view(), p as int) == Some(
                (e@, n as nat),
            ) && 1 <= n && p + n <= tokens.len(),
            Err(_) => spec_parse_call(tokens.deep_view(), p as int) is None,
        },
    decreases tokens.len() - p, 0int,
{
    let ghost t = tokens.deep_view();
    if tokens.len() - p < 3 {
        return Err(perr("call is too short"));
    }
    if !matches!(&tokens[p], Token::Lparen) {
        return Err(perr("call must start with `(`"));
    }
    let (op, n1) = match parse_at(tokens, p + 1) {
        Ok(v) => v,
        Err(e) => {
            return Err(e);
        },
    };
    let ghost start = p + 1 + n1;
    let mut args: Vec<Expr> = Vec::new();
    let mut q: usize = p + 1 + n1;
    proof {
        assert(args.deep_view() =~= Seq::<ExprV>::empty());
        match spec_parse_operands(t, q as int) {
            Some((rest, m)) => {
                assert(args.deep_view() + rest =~= rest);
            },
            None => {},
        }
    }
    #[verifier::loop_isolation(false)]
    while q < tokens.len() && !is_rparen(&tokens[q])
        invariant
            start <= q <= tokens.len(),
            match spec_parse_operands(t, q as int) {
                Some((rest, m)) => spec_parse_operands(t, start as int) == Some(
                    (args.deep_view() + rest, (q - start + m) as nat),
                ),
                None => spec_parse_operands(t, start as int) is None,
            },
        decreases tokens.len() - q,
    {
        let (e, k) = match parse_at(tokens, q) {
            Ok(v) => v,
            Err(e) => {
                return Err(e);
            },
        };
        let ghost old_args = args.deep_view();
        args.push(e);
        proof {
            assert(args.deep_view() =~= old_args.push(e@));
            match spec_parse_operands(t, (q + k) as int) {
                Some((rest, m)) => {
                    assert(old_args + (seq![e@] + rest) =~= args.deep_view() + rest);
                },
                None => {},
            }
        }
        q = q + k;
    }
    if q >= tokens.len() {
        return Err(perr("call is not closed with `)`"));
    }
    proof {
        lemma_exprs_view_is_deep_view(args);
    }
    Ok((Expr::Call(Box::new(op), args), q - p + 1))
}

/// Parses an if form `( if expr expr expr )` beginning at offset `p`.
fn parse_if(tokens: &[Token], p: usize) -> (r: Result<(Expr, usize), ParserErr>)
    requires
        p < tokens.len(),
    ensures
        match r {
            Ok((e, n)) => spec_parse_if(tokens.deep_view(), p as int) == Some(
                (e@, n as nat),
            ) && 1 <= n && p + n <= tokens.len(),
            Err(_) => spec_parse_if(tokens.deep_view(), p as int) is None,
        },
    decreases tokens.len() - p, 0int,
{
    if tokens.len() - p < 6 {
        return Err(perr("if expression is too short"));
    }
    if !matches!(&tokens[p], Token::Lparen) || !matches!(&tokens[p + 1], Token::If) {
        return Err(perr("if expression must start with `( if`"));
    }
    let (cond, n1) = match parse_at(tokens, p + 2) {
        Ok(v) => v,
        Err(e) => {
            return Err(e);
        },
    };
    let (thn, n2) = match parse_at(tokens, p + 2 + n1) {
        Ok(v) => v,
        Err(e) => {
            return Err(e);
        },
    };
    let (oth, n3) = match parse_at(tokens, p + 2 + n1 + n2) {
        Ok(v) => v,
        Err(e) => {
            return Err(e);
        },
    };
    let q = p + 2 + n1 + n2 + n3;
    if q >= tokens.len() || !is_rparen(&tokens[q]) {
        return Err(perr("if expression is not closed with `)`"));
    }
    Ok((Expr::If(If::new(cond, thn, oth)), 2 + n1 + n2 + n3 + 1))
}

/// Parses a def form `( def ident expr )` beginning at offset `p`.
fn parse_def(tokens: &[Token], p: usize) -> (r: Result<(Expr, usize), ParserErr>)
    requires
        p < tokens.len(),
    ensures
        match r {
            Ok((e, n)) => spec_parse_def(tokens.deep_view(), p as int) == Some(
                (e@, n as nat),
            ) && 1 <= n && p + n <= tokens.len(),
            Err(_) => spec_parse_def(tokens.deep_view(), p as int) is None,
        },
    decreases tokens.len() - p, 0int,
{
    if tokens.len() - p < 5 {
        return Err(perr("def expression is too short"));
    }
    if !matches!(&tokens[p], Token::Lparen) || !matches!(&tokens[p + 1], Token::Def) {
        return Err(perr("def expression must start with `(def identifier`"));
    }
    let name = match &tokens[p + 2] {
        Token::Ident(name) => name.clone(),
        _ => {
            return Err(perr("def expression must start with `(def identifier`"));
        },
    };
    let (sub, n) = match parse_at(tokens, p + 3) {
        Ok(v) => v,
        Err(e) => {
            return Err(e);
        },
    };
    let q = p + 3 + n;
    if q >= tokens.len() || !is_rparen(&tokens[q]) {
        return Err(perr("def expression is not closed with `)`"));
    }
    Ok((Expr::Def(name, Box::new(sub)), 3 + n + 1))
}

/// Parses a lambda form `( lambda ( ident* ) expr )` beginning at offset `p`.
fn parse_lambda(tokens: &[Token], p: usize) -> (r: Result<(Expr, usize), ParserErr>)
    requires
        p < tokens.len(),
    ensures
        match r {
            Ok((e, n)) => spec_parse_lambda(tokens.deep_view(), p as int) == Some(
                (e@, n as nat),
            ) && 1 <= n && p + n <= tokens.len(),
            Err(_) => spec_parse_lambda(tokens.deep_view(), p as int) is None,
        },
    decreases tokens.len() - p, 0int,
{
    let ghost t = tokens.deep_view();
    if tokens.len() - p < 6 {
        return Err(perr("lambda is too short"));
    }
    if !matches!(&tokens[p], Token::Lparen) || !matches!(&tokens[p + 1], Token::Lambda)
        || !matches!(&tokens[p + 2], Token::Lparen) {
        return Err(perr("lambda must start with `(lambda (`"));
    }
    let ghost start = p + 3;
    let mut params: Vec<String> = Vec::new();
    let mut q: usize = p + 3;
    proof {
        assert(params.deep_view() =~= Seq::<Seq<char>>::empty());
        match spec_parse_params(t, q as int) {
            Some((rest, m)) => {
                assert(params.deep_view() + rest =~= rest);
            },
            None => {},
        }
    }
    #[verifier::loop_isolation(false)]
    while q < tokens.len() && !is_rparen(&tokens[q])
        invariant
            start <= q <= tokens.len(),
            match spec_parse_params(t, q as int) {
                Some((rest, m)) => spec_parse_params(t, start as int) == Some(
                    (params.deep_view() + rest, (q - start + m) as nat),
                ),
                None => spec_parse_params(t, start as int) is None,
            },
        decreases tokens.len() - q,
    {
        let name = match &tokens[q] {
            Token::Ident(name) => name.clone(),
            tok => {
                let mut m = tok.to_string();
                m.append(" is not an identifier");
                return Err(ParserErr::Parse(m));
            },
        };
        let ghost old_params = params.deep_view();
        params.push(name);
        proof {
            assert(params.deep_view() =~= old_params.push(name@));
            match spec_parse_params(t, (q + 1) as int) {
                Some((rest, m)) => {
                    assert(old_params + (seq![name@] + rest) =~= params.deep_view() + rest);
                },
                None => {},
            }
        }
        q = q + 1;
    }
    if q >= tokens.len() {
        return Err(perr("argument list of lambda is not closed with `)`"));
    }
    let (body, nb) = match parse_at(tokens, q + 1) {
        Ok(v) => v,
        Err(e) => {
            return Err(e);
        },
    };
    let end = q + 1 + nb;
    if end >= tokens.len() || !is_rparen(&tokens[end]) {
        return Err(perr("lambda is not closed with `)`"));
    }
    Ok((Expr::Lambda(params, Box::new(body)), end - p + 1))
}

/// Parses one expression from the front of the token sequence and reports
/// how many tokens it consumed; trailing tokens are left unexamined.
pub fn parse_internal(tokens: &[Token]) -> (r: Result<(Expr, usize), ParserErr>)
    ensures
        match r {
            Ok((e, n)) => spec_parse_expr(tokens.deep_view(), 0) == Some((e@, n as nat)) && 1 <= n
                <= tokens.len(),
            Err(_) => spec_parse_expr(tokens.deep_view(), 0) is None,
        },
{
    parse_at(tokens, 0)
}

/// Parses the token sequence into a single expression tree; trailing tokens
/// beyond one well-formed expression are not validated.
pub fn parse(tokens: &[Token]) -> (r: Result<Expr, ParserErr>)
    ensures
        match r {
            Ok(e) => (match spec_parse_expr(tokens.deep_view(), 0) {
                Some((ev, n)) => ev == e@,
                None => false,
            }),
            Err(_) => spec_parse_expr(tokens.deep_view(), 0) is None,
        },
{
    match parse_at(tokens, 0) {
        Ok((e, _)) => Ok(e),
        Err(e) => Err(e),
    }
}


/// Copies a vector of names; the copy's model is unchanged.
pub fn clone_strings(v: &Vec<String>) -> (r: Vec<String>)
    ensures
        r.deep_view() == v.deep_view(),
        r@.len() == v@.len(),
{
    let mut r: Vec<String> = Vec::new();
    let mut i: usize = 0;
    #[verifier::loop_isolation(false)]
    while i < v.len()
        invariant
            i <= v.len(),
            r@.len() == i,
            forall|j: int| 0 <= j < i ==> r@[j] == v@[j],
        decreases v.len() - i,
    {
        r.push(v[i].clone());
        i = i + 1;
    }
    proof {
        assert(r.deep_view() =~= v.deep_view());
    }
    r
}

/// Copies an expression tree; the copy's model is unchanged.
pub fn clone_expr(e: &Expr) -> (r: Expr)
    ensures
        r@ == e@,
    decreases e,
{
    match e {
        Expr::Bool(b) => Expr::Bool(*b),
        Expr::Operator(op) => Expr::Operator(*op),
        Expr::Call(f, args) => {
            let r = Expr::Call(Box::new(clone_expr(f)), clone_exprs(args));
            proof {
                assert(r@ =~~= e@);
            }
            r
        },
        Expr::If(i) => Expr::If(
            If::new(clone_expr(&i.cond), clone_expr(&i.then_branch), clone_expr(&i.other)),
        ),
        Expr::Def(name, sub) => Expr::Def(name.clone(), Box::new(clone_expr(sub))),
        Expr::Lambda(params, body) => {
            let r = Expr::Lambda(clone_strings(params), Box::new(clone_expr(body)));
            proof {
                assert(r@ =~~= e@);
            }
            r
        },
        Expr::Ident(name) => Expr::Ident(name.clone()),
    }
}

/// Copies a vector of expressions; the copy's model is unchanged.
pub fn clone_exprs(v: &Vec<Expr>) -> (r: Vec<Expr>)
    ensures
        r.deep_view() == v.deep_view(),
        exprs_view(r@) == exprs_view(v@),
        r@.len() == v@.len(),
    decreases v@,
{
    let mut r: Vec<Expr> = Vec::new();
    let mut i: usize = 0;
    #[verifier::loop_isolation(false)]
    while i < v.len()
        invariant
            i <= v.len(),
            r@.len() == i,
            forall|j: int| 0 <= j < i ==> #[trigger] expr_view(r@[j]) == expr_view(v@[j]),
        decreases v.len() - i,
    {
        r.push(clone_expr(&v[i]));
        i = i + 1;
    }
    proof {
        assert(r.deep_view() =~= v.deep_view());
        lemma_exprs_view(r@);
        lemma_exprs_view(v@);
        assert(exprs_view(r@) =~= exprs_view(v@));
    }
    r
}

impl Clone for Expr {
    /// A deep copy whose model is unchanged.
    fn clone(&self) -> (r: Self)
        ensures
            r@ == self@,
    {
        clone_expr(self)
    }
}


/// The source symbol of an operator.
pub open spec fn spec_print_op(op: Operator) -> Seq<char> {
    match op {
        Operator::And => seq!['&'],
        Operator::Or => seq!['|'],
        Operator::Not => seq!['^'],
    }
}

/// The source text of an expression: atoms as their own symbol, each
/// parenthesized form spelled the way the grammar reads it.
pub open spec fn spec_print_expr(e: ExprV) -> Seq<char>
    decreases e, 1int,
{
    match e {
        ExprV::Bool(b) => if b {
            seq!['T']
        } else {
            seq!['F']
        },
        ExprV::Operator(op) => spec_print_op(op),
        ExprV::Ident(name) => name,
        ExprV::Call(f, args) => seq!['('] + spec_print_expr(*f) + spec_print_args(args) + seq![')'],
        ExprV::If(cond, thn, oth) => "(if "@ + spec_print_expr(*cond) + seq![' ']
            + spec_print_expr(*thn) + seq![' '] + spec_print_expr(*oth) + seq![')'],
        ExprV::Def(name, sub) => "(def "@ + name + seq![' '] + spec_print_expr(*sub) + seq![')'],
        ExprV::Lambda(params, body) => "(lambda ("@ + spec_join_names(params) + ") "@
            + spec_print_expr(*body) + seq![')'],
    }
}

/// The operand texts of a call, each preceded by one space.
pub open spec fn spec_print_args(args: Seq<ExprV>) -> Seq<char>
    decreases args, 0int,
{
    if args.len() == 0 {
        Seq::empty()
    } else {
        spec_print_args(args.drop_last()) + seq![' '] + spec_print_expr(args.last())
    }
}

/// Names joined by single spaces.
pub open spec fn spec_join_names(names: Seq<Seq<char>>) -> Seq<char>
    decreases names.len(),
{
    if names.len() == 0 {
        Seq::empty()
    } else if names.len() == 1 {
        names[0]
    } else {
        spec_join_names(names.drop_last()) + seq![' '] + names.last()
    }
}

impl Operator {
    /// The operator's source symbol.
    pub fn to_string(&self) -> (r: String)
        ensures
            r@ == spec_print_op(*self),
    {
        proof {
            reveal_strlit("&");
            reveal_strlit("|");
            reveal_strlit("^");
        }
        let r = match self {
            Operator::And => "&".to_owned(),
            Operator::Or => "|".to_owned(),
            Operator::Not => "^".to_owned(),
        };
        proof {
            assert(r@ =~= spec_print_op(*self));
        }
        r
    }
}

/// Renders the parameter names joined by single spaces.
pub fn join_names(names: &Vec<String>) -> (r: String)
    ensures
        r@ == spec_join_names(names.deep_view()),
{
    let ghost ns = names.deep_view();
    let mut r = String::new();
    let mut i: usize = 0;
    proof {
        assert(ns.take(0) =~= Seq::<Seq<char>>::empty());
        assert(r@ =~= spec_join_names(ns.take(0)));
    }
    #[verifier::loop_isolation(false)]
    while i < names.len()
        invariant
            i <= names.len(),
            r@ == spec_join_names(ns.take(i as int)),
        decreases names.len() - i,
    {
        if i > 0 {
            r.append(" ");
            proof {
                reveal_strlit(" ");
                assert(" "@ =~= seq![' ']);
            }
        }
        r.append(names[i].as_str());
        proof {
            assert(ns.take(i + 1 as int).drop_last() =~= ns.take(i as int));
            assert(ns.take(i + 1 as int).last() == ns[i as int]);
            assert(r@ =~= spec_join_names(ns.take(i + 1 as int)));
        }
        i = i + 1;
    }
    proof {
        assert(ns.take(names@.len() as int) =~= ns);
    }
    r
}

impl Expr {
    /// Renders the expression as source text that tokenizes and parses back
    /// to the same tree.
    pub fn to_string(&self) -> (r: String)
        ensures
            r@ == spec_print_expr(self@),
        decreases self,
    {
        match self {
            Expr::Bool(b) => {
                proof {
                    reveal_strlit("T");
                    reveal_strlit("F");
                }
                let r = if *b {
                    "T".to_owned()
                } else {
                    "F".to_owned()
                };
                proof {
                    assert(r@ =~= spec_print_expr(self@));
                }
                r
            },
            Expr::Operator(op) => op.to_string(),
            Expr::Ident(name) => name.clone(),
            Expr::Call(f, args) => {
                proof {
                    reveal_strlit("(");
                    reveal_strlit(")");
                    assert("("@ =~= seq!['(']);
                    assert(")"@ =~= seq![')']);
                }
                let mut r = "(".to_owned();
                let sub = f.to_string();
                r.append(sub.as_str());
                let ghost avs = exprs_view(args@);
                proof {
                    lemma_exprs_view(args@);
                    assert(avs.take(0) =~= Seq::<ExprV>::empty());
                    assert(r@ =~= seq!['('] + spec_print_expr(expr_view(**f))
                        + spec_print_args(avs.take(0)));
                }
                let mut i: usize = 0;
                #[verifier::loop_isolation(false)]
                while i < args.len()
                    invariant
                        i <= args.len(),
                        r@ == seq!['('] + spec_print_expr(expr_view(**f)) + spec_print_args(
                            avs.take(i as int),
                        ),
                    decreases args.len() - i,
                {
                    r.append(" ");
                    let sub = args[i].to_string();
                    r.append(sub.as_str());
                    proof {
                        reveal_strlit(" ");
                        assert(" "@ =~= seq![' ']);
                        assert(avs.take(i + 1 as int).drop_last() =~= avs.take(i as int));
                        assert(avs.take(i + 1 as int).last() == avs[i as int]);
                        assert(r@ =~= seq!['('] + spec_print_expr(expr_view(**f))
                            + spec_print_args(avs.take(i + 1 as int)));
                    }
                    i = i + 1;
                }
                r.append(")");
                proof {
                    assert(avs.take(args@.len() as int) =~= avs);
                    assert(r@ =~= spec_print_expr(self@));
                }
                r
            },
            Expr::If(ifx) => {
                let mut r = "(if ".to_owned();
                let c = ifx.cond.to_string();
                r.append(c.as_str());
                r.append(" ");
                let t = ifx.then_branch.to_string();
                r.append(t.as_str());
                r.append(" ");
                let o = ifx.other.to_string();
                r.append(o.as_str());
                r.append(")");
                proof {
                    reveal_strlit(" ");
                    reveal_strlit(")");
                    assert(" "@ =~= seq![' ']);
                    assert(")"@ =~= seq![')']);
                    assert(r@ =~= spec_print_expr(self@));
                }
                r
            },
            Expr::Def(name, sub) => {
                let mut r = "(def ".to_owned();
                r.append(name.as_str());
                r.append(" ");
                let e = sub.to_string();
                r.append(e.as_str());
                r.append(")");
                proof {
                    reveal_strlit(" ");
                    reveal_strlit(")");
                    assert(" "@ =~= seq![' ']);
                    assert(")"@ =~= seq![')']);
                    assert(r@ =~= spec_print_expr(self@));
                }
                r
            },
            Expr::Lambda(params, body) => {
                let mut r = "(lambda (".to_owned();
                let names = join_names(params);
                r.append(names.as_str());
                r.append(") ");
                let b = body.to_string();
                r.append(b.as_str());
                r.append(")");
                proof {
                    reveal_strlit(")");
                    assert(")"@ =~= seq![')']);
                    assert(r@ =~= spec_print_expr(self@));
                }
                r
            },
        }
    }
}

} // verus!
