//! The parser: turns a token sequence into a program (top-level recursive
//! function definitions followed by one main expression), or reports the
//! first syntax error. Expression nesting is capped so that parsing is
//! total.
use crate::ast::{BinOp, Expr, FunDef, Program, SExpr, SFunDef, SProgram, Ty};
use crate::lex::{STok, Tok, tv};
use vstd::prelude::*;

verus! {

broadcast use crate::lex::lemma_tv_index, crate::lex::lemma_tv_len;

/// Ceiling on expression nesting depth.
pub const PARSE_DEPTH: usize = 200;

/// A syntax error, with the index of the offending token. `Internal` marks
/// the defensive branches of the grammar functions that guard their own
/// termination measure; the parser never returns it.
pub enum ParseErr {
    Unexpected(usize),
    UnexpectedEnd,
    TooDeep,
    Internal,
}

/// Ghost mirror of `ParseErr`, with unbounded indexes.
pub enum SParseErr {
    Unexpected(int),
    UnexpectedEnd,
    TooDeep,
    Internal,
}

impl View for ParseErr {
    type V = SParseErr;

    open spec fn view(&self) -> SParseErr {
        match *self {
            ParseErr::Unexpected(p) => SParseErr::Unexpected(p as int),
            ParseErr::UnexpectedEnd => SParseErr::UnexpectedEnd,
            ParseErr::TooDeep => SParseErr::TooDeep,
            ParseErr::Internal => SParseErr::Internal,
        }
    }
}

/// The type a type name stands for, if any.
pub open spec fn ty_name(s: Seq<char>) -> Option<Ty> {
    if s == "Int"@ {
        Option::Some(Ty::Int)
    } else if s == "Bool"@ {
        Option::Some(Ty::Bool)
    } else if s == "Str"@ {
        Option::Some(Ty::Str)
    } else {
        Option::None
    }
}

/// An atom: a literal, a variable, a call, or a parenthesised expression.
pub open spec fn parse_atom_s(toks: Seq<STok>, i: nat, d: nat) -> Result<(SExpr, nat), SParseErr>
    decreases d, toks.len() - i, 0nat,
{
    if i >= toks.len() {
        Result::Err(SParseErr::UnexpectedEnd)
    } else {
        match toks[i as int] {
            STok::Int(n) => Result::Ok((SExpr::IntLit(n), (i + 1) as nat)),
            STok::StrTok(s) => Result::Ok((SExpr::StrLit(s), (i + 1) as nat)),
            STok::KwTrue => Result::Ok((SExpr::BoolLit(true), (i + 1) as nat)),
            STok::KwFalse => Result::Ok((SExpr::BoolLit(false), (i + 1) as nat)),
            STok::Ident(x) => {
                if i + 1 < toks.len() && toks[i as int + 1] is LParen {
                    if d == 0 {
                        Result::Err(SParseErr::TooDeep)
                    } else {
                        match parse_expr_s(toks, i + 2, (d - 1) as nat) {
                            Result::Ok((a, j)) => if j < toks.len() && toks[j as int] is RParen {
                                Result::Ok((SExpr::Call(x, Box::new(a)), (j + 1) as nat))
                            } else if j >= toks.len() {
                                Result::Err(SParseErr::UnexpectedEnd)
                            } else {
                                Result::Err(SParseErr::Unexpected(j as int))
                            },
                            Result::Err(e) => Result::Err(e),
                        }
                    }
                } else {
                    Result::Ok((SExpr::Var(x), (i + 1) as nat))
                }
            },
            STok::LParen => {
                if d == 0 {
                    Result::Err(SParseErr::TooDeep)
                } else {
                    match parse_expr_s(toks, i + 1, (d - 1) as nat) {
                        Result::Ok((a, j)) => if j < toks.len() && toks[j as int] is RParen {
                            Result::Ok((a, (j + 1) as nat))
                        } else if j >= toks.len() {
                            Result::Err(SParseErr::UnexpectedEnd)
                        } else {
                            Result::Err(SParseErr::Unexpected(j as int))
                        },
                        Result::Err(e) => Result::Err(e),
                    }
                }
            },
            _ => Result::Err(SParseErr::Unexpected(i as int)),
        }
    }
}



/// The remaining `+`, `-` and `++` operators after a first term.
pub open spec fn parse_add_rest_s(toks: Seq<STok>, i: nat, d: nat, acc: SExpr) -> Result<
    (SExpr, nat),
    SParseErr,
>
    decreases d, toks.len() - i, 3nat,
{
    if i < toks.len() && (toks[i as int] is Plus || toks[i as int] is Minus || toks[i as int]
        is Cat || toks[i as int] is Star || toks[i as int] is Slash) {
        let op = if toks[i as int] is Plus {
            BinOp::Add
        } else if toks[i as int] is Minus {
            BinOp::Sub
        } else if toks[i as int] is Star {
            BinOp::Mul
        } else if toks[i as int] is Slash {
            BinOp::Div
        } else {
            BinOp::Cat
        };
        match parse_atom_s(toks, i + 1, d) {
            Result::Ok((b, j)) => if j <= i + 1 || j > toks.len() {
                Result::Err(SParseErr::Internal)
            } else {
                parse_add_rest_s(toks, j, d, SExpr::Bin(op, Box::new(acc), Box::new(b)))
            },
            Result::Err(e) => Result::Err(e),
        }
    } else {
        Result::Ok((acc, i))
    }
}

/// A sum of products.
pub open spec fn parse_add_s(toks: Seq<STok>, i: nat, d: nat) -> Result<(SExpr, nat), SParseErr>
    decreases d, toks.len() - i, 4nat,
{
    match parse_atom_s(toks, i, d) {
        Result::Ok((a, j)) => if j <= i || j > toks.len() {
            Result::Err(SParseErr::Internal)
        } else {
            parse_add_rest_s(toks, j, d, a)
        },
        Result::Err(e) => Result::Err(e),
    }
}

/// A sum, optionally compared with `==` or `<`.
pub open spec fn parse_cmp_s(toks: Seq<STok>, i: nat, d: nat) -> Result<(SExpr, nat), SParseErr>
    decreases d, toks.len() - i, 5nat,
{
    match parse_add_s(toks, i, d) {
        Result::Ok((a, j)) => if j < toks.len() && (toks[j as int] is CmpEq || toks[j as int]
            is CmpLt) {
            let op = if toks[j as int] is CmpEq {
                BinOp::CmpEq
            } else {
                BinOp::CmpLt
            };
            if j <= i {
                Result::Err(SParseErr::Internal)
            } else {
                match parse_add_s(toks, j + 1, d) {
                    Result::Ok((b, k)) => Result::Ok(
                        (SExpr::Bin(op, Box::new(a), Box::new(b)), k),
                    ),
                    Result::Err(e) => Result::Err(e),
                }
            }
        } else {
            Result::Ok((a, j))
        },
        Result::Err(e) => Result::Err(e),
    }
}

/// An expression: a `let` binding, an `if`, or a comparison.
pub open spec fn parse_expr_s(toks: Seq<STok>, i: nat, d: nat) -> Result<(SExpr, nat), SParseErr>
    decreases d, toks.len() - i, 6nat,
{
    if i >= toks.len() {
        Result::Err(SParseErr::UnexpectedEnd)
    } else if toks[i as int] is KwLet {
        if i + 1 >= toks.len() {
            Result::Err(SParseErr::UnexpectedEnd)
        } else {
            match toks[i as int + 1] {
                STok::Ident(x) => if i + 2 >= toks.len() {
                    Result::Err(SParseErr::UnexpectedEnd)
                } else if !(toks[i as int + 2] is Assign) {
                    Result::Err(SParseErr::Unexpected(i as int + 2))
                } else if d == 0 {
                    Result::Err(SParseErr::TooDeep)
                } else {
                    match parse_expr_s(toks, i + 3, (d - 1) as nat) {
                        Result::Ok((e1, j)) => if j < toks.len() && toks[j as int] is KwIn {
                            match parse_expr_s(toks, j + 1, (d - 1) as nat) {
                                Result::Ok((e2, k)) => Result::Ok(
                                    (SExpr::Let(x, Box::new(e1), Box::new(e2)), k),
                                ),
                                Result::Err(e) => Result::Err(e),
                            }
                        } else {
                            Result::Ok(
                                (SExpr::Let(x, Box::new(e1), Box::new(SExpr::Var(x))), j),
                            )
                        },
                        Result::Err(e) => Result::Err(e),
                    }
                },
                _ => Result::Err(SParseErr::Unexpected(i as int + 1)),
            }
        }
    } else if toks[i as int] is KwIf {
        if d == 0 {
            Result::Err(SParseErr::TooDeep)
        } else {
            match parse_expr_s(toks, i + 1, (d - 1) as nat) {
                Result::Ok((c, j)) => if j >= toks.len() {
                    Result::Err(SParseErr::UnexpectedEnd)
                } else if !(toks[j as int] is KwThen) {
                    Result::Err(SParseErr::Unexpected(j as int))
                } else {
                    match parse_expr_s(toks, j + 1, (d - 1) as nat) {
                        Result::Ok((t, k)) => if k >= toks.len() {
                            Result::Err(SParseErr::UnexpectedEnd)
                        } else if !(toks[k as int] is KwElse) {
                            Result::Err(SParseErr::Unexpected(k as int))
                        } else {
                            match parse_expr_s(toks, k + 1, (d - 1) as nat) {
                                Result::Ok((e2, m)) => Result::Ok(
                                    (SExpr::If(Box::new(c), Box::new(t), Box::new(e2)), m),
                                ),
                                Result::Err(e) => Result::Err(e),
                            }
                        },
                        Result::Err(e) => Result::Err(e),
                    }
                },
                Result::Err(e) => Result::Err(e),
            }
        }
    } else {
        parse_cmp_s(toks, i, d)
    }
}

/// One `rec f(x: T): T = body in` definition, starting at the `rec` keyword.
pub open spec fn parse_fundef_s(toks: Seq<STok>, i: nat) -> Result<(SFunDef, nat), SParseErr> {
    if i + 10 > toks.len() {
        Result::Err(SParseErr::UnexpectedEnd)
    } else {
        match (toks[i as int + 1], toks[i as int + 3], toks[i as int + 5], toks[i as int + 8]) {
            (STok::Ident(f), STok::Ident(x), STok::Ident(pt), STok::Ident(rt)) => if !(toks[
                i as int + 2
            ] is LParen) {
                Result::Err(SParseErr::Unexpected(i as int + 2))
            } else if !(toks[i as int + 4] is Colon) {
                Result::Err(SParseErr::Unexpected(i as int + 4))
            } else if !(toks[i as int + 6] is RParen) {
                Result::Err(SParseErr::Unexpected(i as int + 6))
            } else if !(toks[i as int + 7] is Colon) {
                Result::Err(SParseErr::Unexpected(i as int + 7))
            } else if !(toks[i as int + 9] is Assign) {
                Result::Err(SParseErr::Unexpected(i as int + 9))
            } else {
                match (ty_name(pt), ty_name(rt)) {
                    (Option::Some(t1), Option::Some(t2)) => match parse_expr_s(
                        toks,
                        i + 10,
                        PARSE_DEPTH as nat,
                    ) {
                        Result::Ok((body, j)) => if j >= toks.len() {
                            Result::Err(SParseErr::UnexpectedEnd)
                        } else if !(toks[j as int] is KwIn) {
                            Result::Err(SParseErr::Unexpected(j as int))
                        } else {
                            Result::Ok(
                                (
                                    SFunDef {
                                        name: f,
                                        param: x,
                                        param_ty: t1,
                                        ret_ty: t2,
                                        body,
                                    },
                                    (j + 1) as nat,
                                ),
                            )
                        },
                        Result::Err(e) => Result::Err(e),
                    },
                    (Option::None, _) => Result::Err(SParseErr::Unexpected(i as int + 5)),
                    (_, Option::None) => Result::Err(SParseErr::Unexpected(i as int + 8)),
                }
            },
            (STok::Ident(_), STok::Ident(_), STok::Ident(_), _) => Result::Err(
                SParseErr::Unexpected(i as int + 8),
            ),
            (STok::Ident(_), STok::Ident(_), _, _) => Result::Err(SParseErr::Unexpected(i as int + 5)),
            (STok::Ident(_), _, _, _) => Result::Err(SParseErr::Unexpected(i as int + 3)),
            _ => Result::Err(SParseErr::Unexpected(i as int + 1)),
        }
    }
}

/// The run of `rec` definitions that starts at `i`.
pub open spec fn parse_funs_s(toks: Seq<STok>, i: nat) -> Result<(Seq<SFunDef>, nat), SParseErr>
    decreases toks.len() - i,
{
    if i < toks.len() && toks[i as int] is KwRec {
        match parse_fundef_s(toks, i) {
            Result::Ok((fd, j)) => if j <= i || j > toks.len() {
                Result::Err(SParseErr::Internal)
            } else {
                match parse_funs_s(toks, j) {
                    Result::Ok((rest, k)) => Result::Ok((seq![fd] + rest, k)),
                    Result::Err(e) => Result::Err(e),
                }
            },
            Result::Err(e) => Result::Err(e),
        }
    } else {
        Result::Ok((Seq::empty(), i))
    }
}

/// A whole program: its definitions, then one main expression, then the end
/// of the input.
pub open spec fn parse_program_s(toks: Seq<STok>) -> Result<SProgram, SParseErr> {
    match parse_funs_s(toks, 0) {
        Result::Ok((fds, i)) => match parse_expr_s(toks, i, PARSE_DEPTH as nat) {
            Result::Ok((main, j)) => if j == toks.len() {
                Result::Ok(SProgram { funs: fds, main })
            } else {
                Result::Err(SParseErr::Unexpected(j as int))
            },
            Result::Err(e) => Result::Err(e),
        },
        Result::Err(e) => Result::Err(e),
    }
}


/// Whether a token may begin or continue a product tail.
fn exec_ty_name(s: &String) -> (r: Option<Ty>)
    ensures
        r == ty_name(s@),
{
    if *s == String::from_str("Int") {
        Option::Some(Ty::Int)
    } else if *s == String::from_str("Bool") {
        Option::Some(Ty::Bool)
    } else if *s == String::from_str("Str") {
        Option::Some(Ty::Str)
    } else {
        Option::None
    }
}

/// The atom that is a parenthesised expression.
#[verifier::rlimit(100)]
fn p_atom_group(toks: &Vec<Tok>, i: usize, d: usize) -> (r: Result<(Expr, usize), ParseErr>)
    requires
        i < toks@.len(),
        toks@[i as int] is LParen,
    ensures
        match r {
            Result::Ok(p) => parse_atom_s(tv(toks@), i as nat, d as nat) == Result::<
                (SExpr, nat),
                SParseErr,
            >::Ok((p.0@, p.1 as nat)) && i < p.1 <= toks@.len(),
            Result::Err(e) => parse_atom_s(tv(toks@), i as nat, d as nat) == Result::<
                (SExpr, nat),
                SParseErr,
            >::Err(e@),
        },
    decreases d, toks@.len() - i, 1int,
{
    proof {
        assert(tv(toks@)[i as int] is LParen);
    }
    let n = toks.len();
    if d == 0 {
        return Result::Err(ParseErr::TooDeep);
    }
    match p_expr(toks, i + 1, d - 1) {
        Result::Ok((a, j)) => if j < n && (match &toks[j] {
            Tok::RParen => true,
            _ => false,
        }) {
            Result::Ok((a, j + 1))
        } else if j >= n {
            Result::Err(ParseErr::UnexpectedEnd)
        } else {
            Result::Err(ParseErr::Unexpected(j))
        },
        Result::Err(e) => Result::Err(e),
    }
}

/// The atom that starts with an identifier: a call or a variable.
#[verifier::rlimit(100)]
fn p_atom_ident(toks: &Vec<Tok>, i: usize, d: usize, x: &String) -> (r: Result<
    (Expr, usize),
    ParseErr,
>)
    requires
        i < toks@.len(),
        toks@[i as int] == Tok::Ident(*x),
    ensures
        match r {
            Result::Ok(p) => parse_atom_s(tv(toks@), i as nat, d as nat) == Result::<
                (SExpr, nat),
                SParseErr,
            >::Ok((p.0@, p.1 as nat)) && i < p.1 <= toks@.len(),
            Result::Err(e) => parse_atom_s(tv(toks@), i as nat, d as nat) == Result::<
                (SExpr, nat),
                SParseErr,
            >::Err(e@),
        },
    decreases d, toks@.len() - i, 1int,
{
    proof {
        assert(tv(toks@)[i as int] == STok::Ident(x@));
    }
    let n = toks.len();
    let is_call = i + 1 < n && (match &toks[i + 1] {
        Tok::LParen => true,
        _ => false,
    });
    if is_call {
        if d == 0 {
            return Result::Err(ParseErr::TooDeep);
        }
        match p_expr(toks, i + 2, d - 1) {
            Result::Ok((a, j)) => if j < toks.len() && (match &toks[j] {
                Tok::RParen => true,
                _ => false,
            }) {
                Result::Ok((Expr::Call(x.clone(), Box::new(a)), j + 1))
            } else if j >= toks.len() {
                Result::Err(ParseErr::UnexpectedEnd)
            } else {
                Result::Err(ParseErr::Unexpected(j))
            },
            Result::Err(e) => Result::Err(e),
        }
    } else {
        Result::Ok((Expr::Var(x.clone()), i + 1))
    }
}

#[verifier::rlimit(100)]
fn p_atom(toks: &Vec<Tok>, i: usize, d: usize) -> (r: Result<(Expr, usize), ParseErr>)
    requires
        i <= toks@.len(),
    ensures
        match r {
            Result::Ok(p) => parse_atom_s(tv(toks@), i as nat, d as nat) == Result::<
                (SExpr, nat),
                SParseErr,
            >::Ok((p.0@, p.1 as nat)) && i < p.1 <= toks@.len(),
            Result::Err(e) => parse_atom_s(tv(toks@), i as nat, d as nat) == Result::<
                (SExpr, nat),
                SParseErr,
            >::Err(e@),
        },
    decreases d, toks@.len() - i, 2int,
{

    if i >= toks.len() {
        return Result::Err(ParseErr::UnexpectedEnd);
    }
    let t = &toks[i];
    proof {
        assert(tv(toks@)[i as int] == toks@[i as int]@);
    }
    match t {
        Tok::Int(n) => Result::Ok((Expr::IntLit(*n), i + 1)),
        Tok::StrTok(s) => Result::Ok((Expr::StrLit(s.clone()), i + 1)),
        Tok::KwTrue => Result::Ok((Expr::BoolLit(true), i + 1)),
        Tok::KwFalse => Result::Ok((Expr::BoolLit(false), i + 1)),
        Tok::Ident(x) => p_atom_ident(toks, i, d, x),
        Tok::LParen => p_atom_group(toks, i, d),
        _ => Result::Err(ParseErr::Unexpected(i)),
    }
}


#[verifier::rlimit(100)]
fn p_add(toks: &Vec<Tok>, i: usize, d: usize) -> (r: Result<(Expr, usize), ParseErr>)
    requires
        i <= toks@.len(),
    ensures
        match r {
            Result::Ok(p) => parse_add_s(tv(toks@), i as nat, d as nat) == Result::<
                (SExpr, nat),
                SParseErr,
            >::Ok((p.0@, p.1 as nat)) && i < p.1 <= toks@.len(),
            Result::Err(e) => parse_add_s(tv(toks@), i as nat, d as nat) == Result::<
                (SExpr, nat),
                SParseErr,
            >::Err(e@),
        },
    decreases d, toks@.len() - i, 4int,
{

    let first = p_atom(toks, i, d);
    let (mut acc, mut j) = match first {
        Result::Ok(p) => p,
        Result::Err(e) => {
            return Result::Err(e);
        },
    };
    loop
        invariant
            i < j <= toks@.len(),
            parse_add_s(tv(toks@), i as nat, d as nat) == parse_add_rest_s(
                tv(toks@),
                j as nat,
                d as nat,
                acc@,
            ),
        decreases toks@.len() - j,
    {
        let opk: Option<BinOp> = if j < toks.len() {
            match &toks[j] {
                Tok::Plus => Option::Some(BinOp::Add),
                Tok::Minus => Option::Some(BinOp::Sub),
                Tok::Cat => Option::Some(BinOp::Cat),
                Tok::Star => Option::Some(BinOp::Mul),
                Tok::Slash => Option::Some(BinOp::Div),
                _ => Option::None,
            }
        } else {
            Option::None
        };
        match opk {
            Option::None => {
                return Result::Ok((acc, j));
            },
            Option::Some(op) => {
                match p_atom(toks, j + 1, d) {
                    Result::Ok((b, k)) => {
                        acc = Expr::Bin(op, Box::new(acc), Box::new(b));
                        j = k;
                    },
                    Result::Err(e) => {
                        return Result::Err(e);
                    },
                }
            },
        }
    }
}

#[verifier::rlimit(100)]
fn p_cmp(toks: &Vec<Tok>, i: usize, d: usize) -> (r: Result<(Expr, usize), ParseErr>)
    requires
        i <= toks@.len(),
    ensures
        match r {
            Result::Ok(p) => parse_cmp_s(tv(toks@), i as nat, d as nat) == Result::<
                (SExpr, nat),
                SParseErr,
            >::Ok((p.0@, p.1 as nat)) && i < p.1 <= toks@.len(),
            Result::Err(e) => parse_cmp_s(tv(toks@), i as nat, d as nat) == Result::<
                (SExpr, nat),
                SParseErr,
            >::Err(e@),
        },
    decreases d, toks@.len() - i, 5int,
{

    let (a, j) = match p_add(toks, i, d) {
        Result::Ok(p) => p,
        Result::Err(e) => {
            return Result::Err(e);
        },
    };
    let opk: Option<BinOp> = if j < toks.len() {
        match &toks[j] {
            Tok::CmpEq => Option::Some(BinOp::CmpEq),
            Tok::CmpLt => Option::Some(BinOp::CmpLt),
            _ => Option::None,
        }
    } else {
        Option::None
    };
    match opk {
        Option::None => Result::Ok((a, j)),
        Option::Some(op) => match p_add(toks, j + 1, d) {
            Result::Ok((b, k)) => Result::Ok((Expr::Bin(op, Box::new(a), Box::new(b)), k)),
            Result::Err(e) => Result::Err(e),
        },
    }
}

#[verifier::rlimit(100)]
fn p_expr(toks: &Vec<Tok>, i: usize, d: usize) -> (r: Result<(Expr, usize), ParseErr>)
    requires
        i <= toks@.len(),
    ensures
        match r {
            Result::Ok(p) => parse_expr_s(tv(toks@), i as nat, d as nat) == Result::<
                (SExpr, nat),
                SParseErr,
            >::Ok((p.0@, p.1 as nat)) && i < p.1 <= toks@.len(),
            Result::Err(e) => parse_expr_s(tv(toks@), i as nat, d as nat) == Result::<
                (SExpr, nat),
                SParseErr,
            >::Err(e@),
        },
    decreases d, toks@.len() - i, 6int,
{

    if i >= toks.len() {
        return Result::Err(ParseErr::UnexpectedEnd);
    }
    let lead = &toks[i];
    match lead {
        Tok::KwLet => {
            if i + 1 >= toks.len() {
                return Result::Err(ParseErr::UnexpectedEnd);
            }
            let x: String = match &toks[i + 1] {
                Tok::Ident(x0) => x0.clone(),
                _ => {
                    return Result::Err(ParseErr::Unexpected(i + 1));
                },
            };
            if i + 2 >= toks.len() {
                return Result::Err(ParseErr::UnexpectedEnd);
            }
            let has_assign = match &toks[i + 2] {
                Tok::Assign => true,
                _ => false,
            };
            if !has_assign {
                return Result::Err(ParseErr::Unexpected(i + 2));
            }
            if d == 0 {
                return Result::Err(ParseErr::TooDeep);
            }
            match p_expr(toks, i + 3, d - 1) {
                Result::Ok((e1, j)) => {
                    let has_in = j < toks.len() && (match &toks[j] {
                        Tok::KwIn => true,
                        _ => false,
                    });
                    proof {
                        assert(has_in == ((j as nat) < tv(toks@).len() && tv(toks@)[j as int]
                            is KwIn));
                    }
                    if has_in {
                        match p_expr(toks, j + 1, d - 1) {
                            Result::Ok((e2, k)) => {
                                let r2 = Expr::Let(x, Box::new(e1), Box::new(e2));
                                assert(parse_expr_s(tv(toks@), i as nat, d as nat)
                                    == Result::<(SExpr, nat), SParseErr>::Ok((r2@, k as nat)));
                                Result::Ok((r2, k))
                            },
                            Result::Err(e) => Result::Err(e),
                        }
                    } else {
                        let body = Expr::Var(x.clone());
                        proof {
                            assert(body@ == SExpr::Var(x@));
                        }
                        let r2 = Expr::Let(x, Box::new(e1), Box::new(body));
                        assert(parse_expr_s(tv(toks@), i as nat, d as nat) == Result::<
                            (SExpr, nat),
                            SParseErr,
                        >::Ok((r2@, j as nat)));
                        Result::Ok((r2, j))
                    }
                },
                Result::Err(e) => Result::Err(e),
            }
        },
        Tok::KwIf => {
            if d == 0 {
                return Result::Err(ParseErr::TooDeep);
            }
            let (c, j) = match p_expr(toks, i + 1, d - 1) {
                Result::Ok(p) => p,
                Result::Err(e) => {
                    return Result::Err(e);
                },
            };
            if j >= toks.len() {
                return Result::Err(ParseErr::UnexpectedEnd);
            }
            let has_then = match &toks[j] {
                Tok::KwThen => true,
                _ => false,
            };
            if !has_then {
                return Result::Err(ParseErr::Unexpected(j));
            }
            let (t2, k) = match p_expr(toks, j + 1, d - 1) {
                Result::Ok(p) => p,
                Result::Err(e) => {
                    return Result::Err(e);
                },
            };
            if k >= toks.len() {
                return Result::Err(ParseErr::UnexpectedEnd);
            }
            let has_else = match &toks[k] {
                Tok::KwElse => true,
                _ => false,
            };
            if !has_else {
                return Result::Err(ParseErr::Unexpected(k));
            }
            match p_expr(toks, k + 1, d - 1) {
                Result::Ok((e2, m)) => {
                    let r2 = Expr::If(Box::new(c), Box::new(t2), Box::new(e2));
                    assert(parse_expr_s(tv(toks@), i as nat, d as nat) == Result::<
                        (SExpr, nat),
                        SParseErr,
                    >::Ok((r2@, m as nat)));
                    Result::Ok((r2, m))
                },
                Result::Err(e) => Result::Err(e),
            }
        },
        _ => {
            proof {
                assert(!(tv(toks@)[i as int] is KwLet));
                assert(!(tv(toks@)[i as int] is KwIf));
            }
            let rc = p_cmp(toks, i, d);
            assert(match rc {
                Result::Ok(p) => parse_expr_s(tv(toks@), i as nat, d as nat) == Result::<
                    (SExpr, nat),
                    SParseErr,
                >::Ok((p.0@, p.1 as nat)),
                Result::Err(e) => parse_expr_s(tv(toks@), i as nat, d as nat) == Result::<
                    (SExpr, nat),
                    SParseErr,
                >::Err(e@),
            });
            rc
        },
    }
}

#[verifier::rlimit(100)]
fn p_fundef(toks: &Vec<Tok>, i: usize) -> (r: Result<(FunDef, usize), ParseErr>)
    requires
        i <= toks@.len(),
    ensures
        match r {
            Result::Ok(p) => parse_fundef_s(tv(toks@), i as nat) == Result::<
                (SFunDef, nat),
                SParseErr,
            >::Ok((p.0@, p.1 as nat)) && i < p.1 <= toks@.len(),
            Result::Err(e) => parse_fundef_s(tv(toks@), i as nat) == Result::<
                (SFunDef, nat),
                SParseErr,
            >::Err(e@),
        },
{

    if toks.len() < 10 || i > toks.len() - 10 {
        return Result::Err(ParseErr::UnexpectedEnd);
    }
    let f: String = match &toks[i + 1] {
        Tok::Ident(s) => s.clone(),
        _ => {
            return Result::Err(ParseErr::Unexpected(i + 1));
        },
    };
    let x: String = match &toks[i + 3] {
        Tok::Ident(s) => s.clone(),
        _ => {
            return Result::Err(ParseErr::Unexpected(i + 3));
        },
    };
    let ptn: String = match &toks[i + 5] {
        Tok::Ident(s) => s.clone(),
        _ => {
            return Result::Err(ParseErr::Unexpected(i + 5));
        },
    };
    let rtn: String = match &toks[i + 8] {
        Tok::Ident(s) => s.clone(),
        _ => {
            return Result::Err(ParseErr::Unexpected(i + 8));
        },
    };
    let shape_ok = (match &toks[i + 2] {
        Tok::LParen => true,
        _ => false,
    });
    if !shape_ok {
        return Result::Err(ParseErr::Unexpected(i + 2));
    }
    let c4 = match &toks[i + 4] {
        Tok::Colon => true,
        _ => false,
    };
    if !c4 {
        return Result::Err(ParseErr::Unexpected(i + 4));
    }
    let c6 = match &toks[i + 6] {
        Tok::RParen => true,
        _ => false,
    };
    if !c6 {
        return Result::Err(ParseErr::Unexpected(i + 6));
    }
    let c7 = match &toks[i + 7] {
        Tok::Colon => true,
        _ => false,
    };
    if !c7 {
        return Result::Err(ParseErr::Unexpected(i + 7));
    }
    let c9 = match &toks[i + 9] {
        Tok::Assign => true,
        _ => false,
    };
    if !c9 {
        return Result::Err(ParseErr::Unexpected(i + 9));
    }
    let t1 = match exec_ty_name(&ptn) {
        Option::Some(t) => t,
        Option::None => {
            return Result::Err(ParseErr::Unexpected(i + 5));
        },
    };
    let t2 = match exec_ty_name(&rtn) {
        Option::Some(t) => t,
        Option::None => {
            return Result::Err(ParseErr::Unexpected(i + 8));
        },
    };
    match p_expr(toks, i + 10, PARSE_DEPTH) {
        Result::Ok((body, j)) => {
            if j >= toks.len() {
                return Result::Err(ParseErr::UnexpectedEnd);
            }
            let has_in = match &toks[j] {
                Tok::KwIn => true,
                _ => false,
            };
            if !has_in {
                return Result::Err(ParseErr::Unexpected(j));
            }
            Result::Ok(
                (FunDef { name: f, param: x, param_ty: t1, ret_ty: t2, body }, j + 1),
            )
        },
        Result::Err(e) => Result::Err(e),
    }
}

/// Parse a whole token sequence as a program.
#[verifier::rlimit(100)]
pub fn parse_program(toks: &Vec<Tok>) -> (r: Result<Program, ParseErr>)
    ensures
        match r {
            Result::Ok(p) => parse_program_s(tv(toks@)) == Result::<SProgram, SParseErr>::Ok(p@),
            Result::Err(e) => parse_program_s(tv(toks@)) == Result::<SProgram, SParseErr>::Err(e@),
        },
{

    let mut fds: Vec<FunDef> = Vec::new();
    let mut i: usize = 0;
    loop
        invariant
            i <= toks@.len(),
            parse_funs_s(tv(toks@), 0) == (match parse_funs_s(tv(toks@), i as nat) {
                Result::<(Seq<SFunDef>, nat), SParseErr>::Ok((rest, k)) => Result::<
                    (Seq<SFunDef>, nat),
                    SParseErr,
                >::Ok((fds@.map_values(|f: FunDef| f@) + rest, k)),
                Result::<(Seq<SFunDef>, nat), SParseErr>::Err(e) => Result::<
                    (Seq<SFunDef>, nat),
                    SParseErr,
                >::Err(e),
            }),
        ensures
            i <= toks@.len(),
            parse_funs_s(tv(toks@), 0) == Result::<(Seq<SFunDef>, nat), SParseErr>::Ok(
                (fds@.map_values(|f: FunDef| f@), i as nat),
            ),
        decreases toks@.len() - i,
    {
        let is_rec = i < toks.len() && (match &toks[i] {
            Tok::KwRec => true,
            _ => false,
        });
        if !is_rec {
            proof {
                assert(!((i as nat) < tv(toks@).len() && tv(toks@)[i as int] is KwRec));
                assert(parse_funs_s(tv(toks@), i as nat) == Result::<
                    (Seq<SFunDef>, nat),
                    SParseErr,
                >::Ok((Seq::<SFunDef>::empty(), i as nat)));
                assert(fds@.map_values(|f: FunDef| f@) + Seq::<SFunDef>::empty() =~= fds@.map_values(
                    |f: FunDef| f@,
                ));
            }
            break;
        }
        match p_fundef(toks, i) {
            Result::Ok((fd, j)) => {
                proof {
                    lemma_fun_push_view(fds@, fd);
                    assert(parse_funs_s(tv(toks@), i as nat) == (
                    match parse_funs_s(tv(toks@), j as nat) {
                        Result::<(Seq<SFunDef>, nat), SParseErr>::Ok((rest, k)) => Result::<
                            (Seq<SFunDef>, nat),
                            SParseErr,
                        >::Ok((seq![fd@] + rest, k)),
                        Result::<(Seq<SFunDef>, nat), SParseErr>::Err(e) => Result::<
                            (Seq<SFunDef>, nat),
                            SParseErr,
                        >::Err(e),
                    }));
                    assert forall|rest: Seq<SFunDef>|
                        fds@.map_values(|f: FunDef| f@) + (seq![fd@] + rest) =~= (fds@.map_values(
                            |f: FunDef| f@,
                        ) + seq![fd@]) + rest by {}
                }
                fds.push(fd);
                i = j;
            },
            Result::Err(e) => {
                return Result::Err(e);
            },
        }
    }
    assert(parse_funs_s(tv(toks@), 0) == Result::<(Seq<SFunDef>, nat), SParseErr>::Ok(
        (fds@.map_values(|f: FunDef| f@), i as nat),
    ));
    match p_expr(toks, i, PARSE_DEPTH) {
        Result::Ok((main, j)) => {
            if j != toks.len() {
                assert(parse_program_s(tv(toks@)) == Result::<SProgram, SParseErr>::Err(
                    SParseErr::Unexpected(j as int),
                ));
                return Result::Err(ParseErr::Unexpected(j));
            }
            let p = Program { funs: fds, main };
            assert(p@ == SProgram {
                funs: fds@.map_values(|f: FunDef| f@),
                main: main@,
            });
            assert(parse_program_s(tv(toks@)) == Result::<SProgram, SParseErr>::Ok(p@));
            Result::Ok(p)
        },
        Result::Err(e) => {
            assert(parse_program_s(tv(toks@)) == Result::<SProgram, SParseErr>::Err(e@));
            Result::Err(e)
        },
    }
}

/// Pushing a definition commutes with taking views.
proof fn lemma_fun_push_view(pre: Seq<FunDef>, f: FunDef)
    ensures
        pre.push(f).map_values(|f2: FunDef| f2@) == pre.map_values(|f2: FunDef| f2@) + seq![f@],
{
    let a = pre.push(f).map_values(|f2: FunDef| f2@);
    let b = pre.map_values(|f2: FunDef| f2@) + seq![f@];
    assert(a =~= b);
}

} // verus!
