//! The expression language of the sandbox: types, expressions, programs,
//! runtime values and runtime faults, each with a ghost mirror over
//! `Seq<char>` that the specifications speak of.
use vstd::prelude::*;

verus! {

/// The closed set of value types of the language.
#[derive(Clone, Copy, PartialEq, Eq, Structural)]
pub enum Ty {
    Int,
    Bool,
    Str,
}

/// The binary operators.
#[derive(Clone, Copy, PartialEq, Eq, Structural)]
pub enum BinOp {
    Add,
    Sub,
    Mul,
    Div,
    Cat,
    CmpEq,
    CmpLt,
}

/// The native operations a primitive module may export.
#[derive(Clone, Copy, PartialEq, Eq, Structural)]
pub enum PrimOp {
    IntAbs,
    IntNeg,
    StrLen,
}

/// An expression, as built by the parser.
pub enum Expr {
    IntLit(i64),
    BoolLit(bool),
    StrLit(String),
    Var(String),
    Bin(BinOp, Box<Expr>, Box<Expr>),
    If(Box<Expr>, Box<Expr>, Box<Expr>),
    Let(String, Box<Expr>, Box<Expr>),
    Call(String, Box<Expr>),
}

/// Ghost mirror of `Expr`, with names and literals as character sequences.
pub enum SExpr {
    IntLit(i64),
    BoolLit(bool),
    StrLit(Seq<char>),
    Var(Seq<char>),
    Bin(BinOp, Box<SExpr>, Box<SExpr>),
    If(Box<SExpr>, Box<SExpr>, Box<SExpr>),
    Let(Seq<char>, Box<SExpr>, Box<SExpr>),
    Call(Seq<char>, Box<SExpr>),
}

pub open spec fn expr_view(e: Expr) -> SExpr
    decreases e,
{
    match e {
        Expr::IntLit(n) => SExpr::IntLit(n),
        Expr::BoolLit(b) => SExpr::BoolLit(b),
        Expr::StrLit(s) => SExpr::StrLit(s@),
        Expr::Var(x) => SExpr::Var(x@),
        Expr::Bin(op, a, b) => SExpr::Bin(op, Box::new(expr_view(*a)), Box::new(expr_view(*b))),
        Expr::If(c, t, e2) => SExpr::If(
            Box::new(expr_view(*c)),
            Box::new(expr_view(*t)),
            Box::new(expr_view(*e2)),
        ),
        Expr::Let(x, e1, e2) => SExpr::Let(x@, Box::new(expr_view(*e1)), Box::new(expr_view(*e2))),
        Expr::Call(f, a) => SExpr::Call(f@, Box::new(expr_view(*a))),
    }
}

impl View for Expr {
    type V = SExpr;

    open spec fn view(&self) -> SExpr {
        expr_view(*self)
    }
}

/// Structural size of an expression, the measure for recursion over it.
pub open spec fn expr_size(e: SExpr) -> nat
    decreases e,
{
    match e {
        SExpr::IntLit(_) => 1,
        SExpr::BoolLit(_) => 1,
        SExpr::StrLit(_) => 1,
        SExpr::Var(_) => 1,
        SExpr::Bin(_, a, b) => 1 + expr_size(*a) + expr_size(*b),
        SExpr::If(c, t, e2) => 1 + expr_size(*c) + expr_size(*t) + expr_size(*e2),
        SExpr::Let(_, e1, e2) => 1 + expr_size(*e1) + expr_size(*e2),
        SExpr::Call(_, a) => 1 + expr_size(*a),
    }
}

/// One top-level recursive function definition.
pub struct FunDef {
    pub name: String,
    pub param: String,
    pub param_ty: Ty,
    pub ret_ty: Ty,
    pub body: Expr,
}

/// Ghost mirror of `FunDef`.
pub struct SFunDef {
    pub name: Seq<char>,
    pub param: Seq<char>,
    pub param_ty: Ty,
    pub ret_ty: Ty,
    pub body: SExpr,
}

impl View for FunDef {
    type V = SFunDef;

    open spec fn view(&self) -> SFunDef {
        SFunDef {
            name: self.name@,
            param: self.param@,
            param_ty: self.param_ty,
            ret_ty: self.ret_ty,
            body: self.body@,
        }
    }
}

/// A parsed program: its top-level function definitions and its main
/// expression.
pub struct Program {
    pub funs: Vec<FunDef>,
    pub main: Expr,
}

/// Ghost mirror of `Program`.
pub struct SProgram {
    pub funs: Seq<SFunDef>,
    pub main: SExpr,
}

impl View for Program {
    type V = SProgram;

    open spec fn view(&self) -> SProgram {
        SProgram { funs: self.funs@.map_values(|f: FunDef| f@), main: self.main@ }
    }
}

/// A runtime value.
pub enum Value {
    VInt(i64),
    VBool(bool),
    VStr(String),
}

/// Ghost mirror of `Value`.
pub enum VValue {
    VInt(i64),
    VBool(bool),
    VStr(Seq<char>),
}

impl View for Value {
    type V = VValue;

    open spec fn view(&self) -> VValue {
        match *self {
            Value::VInt(n) => VValue::VInt(n),
            Value::VBool(b) => VValue::VBool(b),
            Value::VStr(ref s) => VValue::VStr(s@),
        }
    }
}

/// The type a runtime value belongs to.
pub open spec fn ty_of_value(v: VValue) -> Ty {
    match v {
        VValue::VInt(_) => Ty::Int,
        VValue::VBool(_) => Ty::Bool,
        VValue::VStr(_) => Ty::Str,
    }
}

/// A fault raised while an expression is being executed. `TypeMismatch` is
/// raised when a call hands a function a value outside its declared
/// parameter type, or a body returns outside its declared return type.
/// `Internal` marks branches the evaluator's own contracts rule out (a tail
/// call escaping a non-tail position); no evaluation returns it.
pub enum Fault {
    Timeout,
    OutOfMemory,
    StackOverflow,
    DivideByZero,
    ArithOverflow,
    UnboundVar(String),
    UnknownFun(String),
    BadOperand,
    TypeMismatch,
    Internal,
}

/// Ghost mirror of `Fault`.
pub enum SFault {
    Timeout,
    OutOfMemory,
    StackOverflow,
    DivideByZero,
    ArithOverflow,
    UnboundVar(Seq<char>),
    UnknownFun(Seq<char>),
    BadOperand,
    TypeMismatch,
    Internal,
}

impl View for Fault {
    type V = SFault;

    open spec fn view(&self) -> SFault {
        match *self {
            Fault::Timeout => SFault::Timeout,
            Fault::OutOfMemory => SFault::OutOfMemory,
            Fault::StackOverflow => SFault::StackOverflow,
            Fault::DivideByZero => SFault::DivideByZero,
            Fault::ArithOverflow => SFault::ArithOverflow,
            Fault::UnboundVar(ref x) => SFault::UnboundVar(x@),
            Fault::UnknownFun(ref f) => SFault::UnknownFun(f@),
            Fault::BadOperand => SFault::BadOperand,
            Fault::TypeMismatch => SFault::TypeMismatch,
            Fault::Internal => SFault::Internal,
        }
    }
}

} // verus!
