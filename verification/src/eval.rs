//! The expression evaluator, run under the resource governor: every user
//! function call passes a cooperative time check point, every nested
//! (non-tail) call charges one stack frame, and every string built charges
//! its bytes against the heap ceiling. Tail-recursive calls are iterated, so
//! unbounded tail recursion runs until the deadline rather than the stack
//! ceiling.
use crate::ast::{ty_of_value, BinOp, Expr, Fault, FunDef, PrimOp, SExpr, SFault, Ty, Value,
    VValue};
use crate::gov::{charge, charge_fits, checkpoint, gov_charge, Gov, Limits, STEP_CAP};
use crate::registry::BaseEnvironment;
use vstd::prelude::*;

verus! {

/// One step of evaluation: a finished value, a pending tail call, or a
/// fault.
pub enum EStep {
    Val(Value),
    TailCall(String, Value),
    Fail(Fault),
}


/// The outcome the reference semantics assigns to an expression: a value or
/// a fault, each with the counters it leaves behind — or `SCall`, for an
/// expression whose evaluation reaches a user-function call and so passes
/// through a time check point, which makes its outcome depend on the clock.
pub enum SemOut {
    SVal(VValue, Gov),
    SFault(SFault, Gov),
    SCall,
}

/// The ghost view of a binding stack.
pub open spec fn env_v(env: Seq<(String, Value)>) -> Seq<(Seq<char>, VValue)> {
    env.map_values(|b: (String, Value)| (b.0@, b.1@))
}

/// The innermost binding of `x`, if any.
pub open spec fn env_find(env: Seq<(Seq<char>, VValue)>, x: Seq<char>) -> Option<VValue>
    decreases env.len(),
{
    if env.len() == 0 {
        Option::None
    } else if env.last().0 == x {
        Option::Some(env.last().1)
    } else {
        env_find(env.drop_last(), x)
    }
}

/// The heap units a string of `n` characters costs, saturated at the
/// counter's width.
pub open spec fn str_cost(n: nat) -> u64 {
    if n <= u64::MAX {
        n as u64
    } else {
        u64::MAX
    }
}

/// Division as the machine performs it, rounding the quotient toward zero:
/// the magnitudes are divided and the usual sign rule is applied
/// (spec-level `/` on `int` rounds toward negative infinity instead).
pub open spec fn tdiv(x: int, y: int) -> int
    recommends
        y != 0,
{
    let xm = if x < 0 {
        -x
    } else {
        x
    };
    let ym = if y < 0 {
        -y
    } else {
        y
    };
    if (x < 0) == (y < 0) {
        xm / ym
    } else {
        -(xm / ym)
    }
}

/// The reference semantics of one binary operation, from the operand values
/// and the counters before it.
#[verifier::opaque]
pub open spec fn sem_bin(op: BinOp, a: VValue, b: VValue, g: Gov, lim: Limits) -> SemOut {
    match op {
        BinOp::Add => match (a, b) {
            (VValue::VInt(x), VValue::VInt(y)) => if (y > 0 && x > i64::MAX - y) || (y < 0 && x
                < i64::MIN - y) {
                SemOut::SFault(SFault::ArithOverflow, g)
            } else {
                SemOut::SVal(VValue::VInt((x + y) as i64), g)
            },
            _ => SemOut::SFault(SFault::BadOperand, g),
        },
        BinOp::Sub => match (a, b) {
            (VValue::VInt(x), VValue::VInt(y)) => if (y < 0 && x > i64::MAX + y) || (y > 0 && x
                < i64::MIN + y) {
                SemOut::SFault(SFault::ArithOverflow, g)
            } else {
                SemOut::SVal(VValue::VInt((x - y) as i64), g)
            },
            _ => SemOut::SFault(SFault::BadOperand, g),
        },
        BinOp::Mul => match (a, b) {
            (VValue::VInt(x), VValue::VInt(y)) => if x * y > i64::MAX || x * y < i64::MIN {
                SemOut::SFault(SFault::ArithOverflow, g)
            } else {
                SemOut::SVal(VValue::VInt((x * y) as i64), g)
            },
            _ => SemOut::SFault(SFault::BadOperand, g),
        },
        BinOp::Div => match (a, b) {
            (VValue::VInt(x), VValue::VInt(y)) => if y == 0 {
                SemOut::SFault(SFault::DivideByZero, g)
            } else if x == i64::MIN && y == -1 {
                SemOut::SFault(SFault::ArithOverflow, g)
            } else {
                SemOut::SVal(VValue::VInt(tdiv(x as int, y as int) as i64), g)
            },
            _ => SemOut::SFault(SFault::BadOperand, g),
        },
        BinOp::Cat => match (a, b) {
            (VValue::VStr(x), VValue::VStr(y)) => {
                let cost = str_cost(x.len() + y.len());
                if charge_fits(g, lim, cost) {
                    SemOut::SVal(VValue::VStr(x + y), gov_charge(g, cost))
                } else {
                    SemOut::SFault(SFault::OutOfMemory, g)
                }
            },
            _ => SemOut::SFault(SFault::BadOperand, g),
        },
        BinOp::CmpEq => match (a, b) {
            (VValue::VInt(x), VValue::VInt(y)) => SemOut::SVal(VValue::VBool(x == y), g),
            _ => SemOut::SFault(SFault::BadOperand, g),
        },
        BinOp::CmpLt => match (a, b) {
            (VValue::VInt(x), VValue::VInt(y)) => SemOut::SVal(VValue::VBool(x < y), g),
            _ => SemOut::SFault(SFault::BadOperand, g),
        },
    }
}

/// The reference semantics of the clock-free fragment of the language: what
/// an expression evaluates to, with exact heap accounting, as long as no
/// call of a user-defined function is reached — primitive calls are settled
/// here too. A call of a defined function yields `SCall`: past the first
/// check point the outcome depends on the wall clock, so the semantics
/// claims nothing there.
#[verifier::opaque]
pub open spec fn sem(
    fnames: Seq<Seq<char>>,
    mods: Seq<crate::registry::Module>,
    env: Seq<(Seq<char>, VValue)>,
    g: Gov,
    lim: Limits,
    e: SExpr,
) -> SemOut
    decreases e,
{
    match e {
        SExpr::IntLit(n) => SemOut::SVal(VValue::VInt(n), g),
        SExpr::BoolLit(b) => SemOut::SVal(VValue::VBool(b), g),
        SExpr::StrLit(st) => {
            let cost = str_cost(st.len());
            if charge_fits(g, lim, cost) {
                SemOut::SVal(VValue::VStr(st), gov_charge(g, cost))
            } else {
                SemOut::SFault(SFault::OutOfMemory, g)
            }
        },
        SExpr::Var(x) => match env_find(env, x) {
            Option::Some(v) => SemOut::SVal(v, g),
            Option::None => SemOut::SFault(SFault::UnboundVar(x), g),
        },
        SExpr::Bin(op, a, b) => match sem(fnames, mods, env, g, lim, *a) {
            SemOut::SVal(va, g1) => match sem(fnames, mods, env, g1, lim, *b) {
                SemOut::SVal(vb, g2) => sem_bin(op, va, vb, g2, lim),
                SemOut::SFault(f, g2) => SemOut::SFault(f, g2),
                SemOut::SCall => SemOut::SCall,
            },
            SemOut::SFault(f, g1) => SemOut::SFault(f, g1),
            SemOut::SCall => SemOut::SCall,
        },
        SExpr::If(c, t, f2) => match sem(fnames, mods, env, g, lim, *c) {
            SemOut::SVal(VValue::VBool(bv), g1) => if bv {
                sem(fnames, mods, env, g1, lim, *t)
            } else {
                sem(fnames, mods, env, g1, lim, *f2)
            },
            SemOut::SVal(_, g1) => SemOut::SFault(SFault::BadOperand, g1),
            SemOut::SFault(f, g1) => SemOut::SFault(f, g1),
            SemOut::SCall => SemOut::SCall,
        },
        SExpr::Let(x, e1, e2) => match sem(fnames, mods, env, g, lim, *e1) {
            SemOut::SVal(v1, g1) => sem(fnames, mods, env.push((x, v1)), g1, lim, *e2),
            SemOut::SFault(f, g1) => SemOut::SFault(f, g1),
            SemOut::SCall => SemOut::SCall,
        },
        SExpr::Call(f, a) => match sem(fnames, mods, env, g, lim, *a) {
            SemOut::SVal(va, g1) => if fnames.contains(f) {
                SemOut::SCall
            } else {
                match prim_find(mods, f) {
                    Option::Some(op) => match sem_prim(op, va) {
                        Result::Ok(vv) => SemOut::SVal(vv, g1),
                        Result::Err(ff) => SemOut::SFault(ff, g1),
                    },
                    Option::None => SemOut::SFault(SFault::UnknownFun(f), g1),
                }
            },
            SemOut::SFault(f2, g1) => SemOut::SFault(f2, g1),
            SemOut::SCall => SemOut::SCall,
        },
    }
}

/// Whether a step is the internal fault that the evaluator's contracts rule
/// out.
pub open spec fn is_internal_fail(r: EStep) -> bool {
    match r {
        EStep::Fail(f) => f@ is Internal,
        _ => false,
    }
}

/// What the evaluator owes the semantics: where the semantics settles the
/// expression, the evaluator returns exactly that value or fault and leaves
/// exactly those counters.
pub open spec fn follows_sem(s0: SemOut, r: EStep, g: Gov) -> bool {
    match s0 {
        SemOut::SVal(v, g2) => (match r {
            EStep::Val(rv) => rv@ == v && g == g2,
            _ => false,
        }),
        SemOut::SFault(f, g2) => (match r {
            EStep::Fail(rf) => rf@ == f && g == g2,
            _ => false,
        }),
        SemOut::SCall => true,
    }
}

/// An owned copy of a runtime value.
pub fn clone_value(v: &Value) -> (r: Value)
    ensures
        r@ == v@,
{
    match v {
        Value::VInt(n) => Value::VInt(*n),
        Value::VBool(b) => Value::VBool(*b),
        Value::VStr(s) => Value::VStr(s.clone()),
    }
}

/// The value bound to `x`, innermost binding first.
fn lookup_var(env: &Vec<(String, Value)>, x: &String) -> (r: Option<Value>)
    ensures
        match r {
            Option::Some(v) => env_find(env_v(env@), x@) == Option::Some(v@),
            Option::None => env_find(env_v(env@), x@) is None,
        },
{
    let n = env.len();
    let mut i: usize = n;
    proof {
        assert(env_v(env@).take(n as int) =~= env_v(env@));
    }
    while i > 0
        invariant
            i <= n,
            n == env@.len(),
            env_find(env_v(env@), x@) == env_find(env_v(env@).take(i as int), x@),
        decreases i,
    {
        i = i - 1;
        let ghost pre = env_v(env@).take(i as int + 1);
        proof {
            assert(pre.last() == env_v(env@)[i as int]);
            assert(pre.drop_last() =~= env_v(env@).take(i as int));
        }
        if env[i].0 == *x {
            proof {
                assert(env_find(pre, x@) == Option::Some(env@[i as int].1@));
            }
            return Option::Some(clone_value(&env[i].1));
        }
        proof {
            assert(env_find(pre, x@) == env_find(env_v(env@).take(i as int), x@));
        }
    }
    proof {
        assert(env_v(env@).take(0) =~= Seq::empty());
    }
    Option::None
}

/// The names of the defined functions.
pub open spec fn fun_names(funs: Seq<FunDef>) -> Seq<Seq<char>> {
    funs.map_values(|fd: FunDef| fd.name@)
}

/// The index of the definition of `f`, if it is defined.
fn lookup_fun(funs: &Vec<FunDef>, f: &String) -> (r: Option<usize>)
    ensures
        match r {
            Option::Some(k) => k < funs@.len() && funs@[k as int].name@ == f@ && fun_names(
                funs@,
            ).contains(f@),
            Option::None => !fun_names(funs@).contains(f@),
        },
{
    let n = funs.len();
    let mut i: usize = 0;
    while i < n
        invariant
            i <= n,
            n == funs@.len(),
            forall|m: int| 0 <= m < i ==> fun_names(funs@)[m] != f@,
        decreases n - i,
    {
        if funs[i].name == *f {
            proof {
                assert(fun_names(funs@)[i as int] == f@);
            }
            return Option::Some(i);
        }
        i = i + 1;
    }
    proof {
        assert(forall|m: int| 0 <= m < funs@.len() ==> fun_names(funs@)[m] != f@);
    }
    Option::None
}

/// The qualified name of the `p`-th primitive of a module.
pub open spec fn qual_name(m: crate::registry::Module, p: int) -> Seq<char> {
    m.name@ + "."@ + m.prims@[p].name@
}

/// The registry lookup, scanning modules and their primitives in order; the
/// first primitive whose qualified name is `f` decides.
pub open spec fn prim_find_from(
    mods: Seq<crate::registry::Module>,
    mi: int,
    pi: int,
    f: Seq<char>,
) -> Option<PrimOp>
    decreases
            mods.len() - mi,
            (if 0 <= mi < mods.len() {
                mods[mi].prims@.len() + 1 - pi
            } else {
                0
            }),
{
    if mi < 0 || pi < 0 || mi >= mods.len() {
        Option::None
    } else if pi >= mods[mi].prims@.len() {
        prim_find_from(mods, mi + 1, 0, f)
    } else if qual_name(mods[mi], pi) == f {
        Option::Some(mods[mi].prims@[pi].op)
    } else {
        prim_find_from(mods, mi, pi + 1, f)
    }
}

/// The operation the registry maps the qualified name `f` to, if any.
pub open spec fn prim_find(mods: Seq<crate::registry::Module>, f: Seq<char>) -> Option<PrimOp> {
    prim_find_from(mods, 0, 0, f)
}

/// Whether `(i, p)` names a primitive of the registry.
pub open spec fn valid_pos(mods: Seq<crate::registry::Module>, i: int, p: int) -> bool {
    0 <= i < mods.len() && 0 <= p < mods[i].prims@.len()
}

/// Whether a scan standing at `(mi, pi)` has position `(i, p)` still ahead
/// of it.
pub open spec fn at_or_after(mi: int, pi: int, i: int, p: int) -> bool {
    i > mi || (i == mi && p >= pi)
}

/// Whether no two primitives of the registry share a qualified name.
pub open spec fn distinct_quals(mods: Seq<crate::registry::Module>) -> bool {
    forall|i1: int, p1: int, i2: int, p2: int|
        valid_pos(mods, i1, p1) && valid_pos(mods, i2, p2) && (i1 != i2 || p1 != p2)
            ==> #[trigger] qual_name(mods[i1], p1) != #[trigger] qual_name(mods[i2], p2)
}

/// A scan that comes back empty passed no primitive with that name.
proof fn lemma_prim_find_none(mods: Seq<crate::registry::Module>, mi: int, pi: int, f: Seq<char>)
    requires
        0 <= mi,
        0 <= pi,
        prim_find_from(mods, mi, pi, f) is None,
    ensures
        forall|i: int, p: int|
            valid_pos(mods, i, p) && at_or_after(mi, pi, i, p) ==> #[trigger] qual_name(mods[i], p)
                != f,
    decreases
            mods.len() - mi,
            (if 0 <= mi < mods.len() {
                mods[mi].prims@.len() + 1 - pi
            } else {
                0
            }),
{
    if mi >= mods.len() {
    } else if pi >= mods[mi].prims@.len() {
        lemma_prim_find_none(mods, mi + 1, 0, f);
    } else {
        lemma_prim_find_none(mods, mi, pi + 1, f);
    }
}

/// A scan that finds something found a primitive with that name, still ahead
/// of where it stood, and returns that primitive's operation.
proof fn lemma_prim_find_some(mods: Seq<crate::registry::Module>, mi: int, pi: int, f: Seq<char>)
    requires
        0 <= mi,
        0 <= pi,
        prim_find_from(mods, mi, pi, f) is Some,
    ensures
        exists|i: int, p: int|
            valid_pos(mods, i, p) && at_or_after(mi, pi, i, p) && #[trigger] qual_name(mods[i], p)
                == f && prim_find_from(mods, mi, pi, f) == Option::Some(mods[i].prims@[p].op),
    decreases
            mods.len() - mi,
            (if 0 <= mi < mods.len() {
                mods[mi].prims@.len() + 1 - pi
            } else {
                0
            }),
{
    if mi >= mods.len() {
    } else if pi >= mods[mi].prims@.len() {
        lemma_prim_find_some(mods, mi + 1, 0, f);
    } else if qual_name(mods[mi], pi) == f {
        assert(valid_pos(mods, mi, pi) && at_or_after(mi, pi, mi, pi) && qual_name(mods[mi], pi)
            == f && prim_find_from(mods, mi, pi, f) == Option::Some(mods[mi].prims@[pi].op));
    } else {
        lemma_prim_find_some(mods, mi, pi + 1, f);
    }
}

/// Registration order does not matter: as long as no two primitives share a
/// qualified name, the operation the registry yields for a name is fixed by
/// the set of (qualified name, operation) pairs alone — the lookup returns
/// `op` for `f` exactly when some module holds a primitive with qualified
/// name `f` and operation `op`, however the modules are ordered.
pub proof fn lemma_registry_mapping_order_free(
    mods: Seq<crate::registry::Module>,
    f: Seq<char>,
    op: PrimOp,
)
    requires
        distinct_quals(mods),
    ensures
        prim_find(mods, f) == Option::Some(op) <==> exists|i: int, p: int|
            valid_pos(mods, i, p) && #[trigger] qual_name(mods[i], p) == f && mods[i].prims@[p].op
                == op,
{
    if prim_find(mods, f) is None {
        lemma_prim_find_none(mods, 0, 0, f);
        assert(prim_find(mods, f) != Option::Some(op));
        if exists|i: int, p: int|
            valid_pos(mods, i, p) && #[trigger] qual_name(mods[i], p) == f && mods[i].prims@[p].op
                == op {
            let (i, p) = choose|i: int, p: int|
                valid_pos(mods, i, p) && #[trigger] qual_name(mods[i], p) == f
                    && mods[i].prims@[p].op == op;
            assert(qual_name(mods[i], p) != f);
        }
    } else {
        lemma_prim_find_some(mods, 0, 0, f);
        let (i2, p2) = choose|i2: int, p2: int|
            valid_pos(mods, i2, p2) && at_or_after(0, 0, i2, p2) && #[trigger] qual_name(
                mods[i2],
                p2,
            ) == f && prim_find(mods, f) == Option::Some(mods[i2].prims@[p2].op);
        if exists|i: int, p: int|
            valid_pos(mods, i, p) && #[trigger] qual_name(mods[i], p) == f && mods[i].prims@[p].op
                == op {
            let (i, p) = choose|i: int, p: int|
                valid_pos(mods, i, p) && #[trigger] qual_name(mods[i], p) == f
                    && mods[i].prims@[p].op == op;
            assert(i == i2 && p == p2);
            assert(prim_find(mods, f) == Option::Some(op));
        }
    }
}

/// The operation registered under the qualified name `f`, if any.
fn lookup_prim(base: &BaseEnvironment, f: &String) -> (r: Option<PrimOp>)
    ensures
        r == prim_find(base.modules@, f@),
{
    let nm = base.modules.len();
    let mut m: usize = 0;
    while m < nm
        invariant
            m <= nm,
            nm == base.modules@.len(),
            prim_find(base.modules@, f@) == prim_find_from(base.modules@, m as int, 0, f@),
        decreases nm - m,
    {
        let np = base.modules[m].prims.len();
        let mut p: usize = 0;
        while p < np
            invariant
                p <= np,
                m < nm,
                nm == base.modules@.len(),
                np == base.modules@[m as int].prims@.len(),
                prim_find(base.modules@, f@) == prim_find_from(
                    base.modules@,
                    m as int,
                    p as int,
                    f@,
                ),
            decreases np - p,
        {
            let full = base.modules[m].name.clone().concat(".").concat(
                base.modules[m].prims[p].name.as_str(),
            );
            proof {
                assert(full@ == qual_name(base.modules@[m as int], p as int));
            }
            if full == *f {
                return Option::Some(base.modules[m].prims[p].op);
            }
            p = p + 1;
        }
        m = m + 1;
    }
    Option::None
}

/// The exec type of a runtime value.
pub fn val_ty(v: &Value) -> (r: Ty)
    ensures
        r == ty_of_value(v@),
{
    match v {
        Value::VInt(_) => Ty::Int,
        Value::VBool(_) => Ty::Bool,
        Value::VStr(_) => Ty::Str,
    }
}

/// The reference semantics of one primitive operation. Primitives never
/// touch the governor: their results are bounded by their arguments.
pub open spec fn sem_prim(op: PrimOp, v: VValue) -> Result<VValue, SFault> {
    match op {
        PrimOp::IntAbs => match v {
            VValue::VInt(n) => if n == i64::MIN {
                Result::Err(SFault::ArithOverflow)
            } else if n < 0 {
                Result::Ok(VValue::VInt((-n) as i64))
            } else {
                Result::Ok(VValue::VInt(n))
            },
            _ => Result::Err(SFault::BadOperand),
        },
        PrimOp::IntNeg => match v {
            VValue::VInt(n) => if n == i64::MIN {
                Result::Err(SFault::ArithOverflow)
            } else {
                Result::Ok(VValue::VInt((-n) as i64))
            },
            _ => Result::Err(SFault::BadOperand),
        },
        PrimOp::StrLen => match v {
            VValue::VStr(s) => if s.len() > i64::MAX {
                Result::Err(SFault::ArithOverflow)
            } else {
                Result::Ok(VValue::VInt(s.len() as i64))
            },
            _ => Result::Err(SFault::BadOperand),
        },
    }
}

/// Apply one primitive operation to its argument.
fn apply_prim(op: PrimOp, v: Value) -> (r: EStep)
    ensures
        !(r is TailCall),
        !is_internal_fail(r),
        match sem_prim(op, v@) {
            Result::Ok(vv) => (match r {
                EStep::Val(rv) => rv@ == vv,
                _ => false,
            }),
            Result::Err(ff) => (match r {
                EStep::Fail(rf) => rf@ == ff,
                _ => false,
            }),
        },
{
    match op {
        PrimOp::IntAbs => match v {
            Value::VInt(n) => {
                if n == i64::MIN {
                    EStep::Fail(Fault::ArithOverflow)
                } else if n < 0 {
                    EStep::Val(Value::VInt(-n))
                } else {
                    EStep::Val(Value::VInt(n))
                }
            },
            _ => EStep::Fail(Fault::BadOperand),
        },
        PrimOp::IntNeg => match v {
            Value::VInt(n) => {
                if n == i64::MIN {
                    EStep::Fail(Fault::ArithOverflow)
                } else {
                    EStep::Val(Value::VInt(-n))
                }
            },
            _ => EStep::Fail(Fault::BadOperand),
        },
        PrimOp::StrLen => match v {
            Value::VStr(s) => {
                let n = s.as_str().unicode_len();
                if n as u64 > i64::MAX as u64 {
                    EStep::Fail(Fault::ArithOverflow)
                } else {
                    EStep::Val(Value::VInt(n as i64))
                }
            },
            _ => EStep::Fail(Fault::BadOperand),
        },
    }
}

/// Apply a binary operator, charging the heap for a concatenation.
fn apply_bin(op: BinOp, a: Value, b: Value, g: &mut Gov, lim: &Limits) -> (r: EStep)
    ensures
        final(g).steps == old(g).steps,
        final(g).depth == old(g).depth,
        final(g).heap >= old(g).heap,
        old(g).heap <= lim.max_heap_bytes ==> final(g).heap <= lim.max_heap_bytes,
        !(r is TailCall),
        !is_internal_fail(r),
        follows_sem(sem_bin(op, a@, b@, *old(g), *lim), r, *final(g)),
{
    reveal(sem_bin);
    match op {
        BinOp::Add => match (a, b) {
            (Value::VInt(x), Value::VInt(y)) => {
                if (y > 0 && x > i64::MAX - y) || (y < 0 && x < i64::MIN - y) {
                    EStep::Fail(Fault::ArithOverflow)
                } else {
                    EStep::Val(Value::VInt(x + y))
                }
            },
            _ => EStep::Fail(Fault::BadOperand),
        },
        BinOp::Sub => match (a, b) {
            (Value::VInt(x), Value::VInt(y)) => {
                if (y < 0 && x > i64::MAX + y) || (y > 0 && x < i64::MIN + y) {
                    EStep::Fail(Fault::ArithOverflow)
                } else {
                    EStep::Val(Value::VInt(x - y))
                }
            },
            _ => EStep::Fail(Fault::BadOperand),
        },
        BinOp::Mul => match (a, b) {
            (Value::VInt(x), Value::VInt(y)) => {
                proof {
                    assert(i128::MIN <= (x as int) * (y as int) <= i128::MAX) by (nonlinear_arith)
                        requires
                            i64::MIN <= x <= i64::MAX,
                            i64::MIN <= y <= i64::MAX,
                    ;
                }
                let p: i128 = (x as i128) * (y as i128);
                proof {
                    assert(p as int == (x as int) * (y as int));
                }
                if p > i64::MAX as i128 || p < i64::MIN as i128 {
                    EStep::Fail(Fault::ArithOverflow)
                } else {
                    proof {
                        assert(i64::MIN <= p <= i64::MAX);
                    }
                    EStep::Val(Value::VInt(p as i64))
                }
            },
            _ => EStep::Fail(Fault::BadOperand),
        },
        BinOp::Div => match (a, b) {
            (Value::VInt(x), Value::VInt(y)) => {
                if y == 0 {
                    EStep::Fail(Fault::DivideByZero)
                } else if x == i64::MIN && y == -1 {
                    EStep::Fail(Fault::ArithOverflow)
                } else {
                    let xm: u64 = if x < 0 {
                        (-(x as i128)) as u64
                    } else {
                        x as u64
                    };
                    let ym: u64 = if y < 0 {
                        (-(y as i128)) as u64
                    } else {
                        y as u64
                    };
                    let qm: u64 = xm / ym;
                    proof {
                        vstd::arithmetic::div_mod::lemma_div_is_ordered_by_denominator(
                            xm as int,
                            1,
                            ym as int,
                        );
                        assert(qm <= xm);
                        if (x < 0) == (y < 0) && xm > i64::MAX as u64 {
                            assert(x == i64::MIN && y < 0 && y != -1);
                            assert(ym >= 2);
                            vstd::arithmetic::div_mod::lemma_div_is_ordered_by_denominator(
                                xm as int,
                                2,
                                ym as int,
                            );
                            assert(xm as int / 2 == 0x4000_0000_0000_0000);
                            assert(qm <= 0x4000_0000_0000_0000);
                        }
                    }
                    let q: i64 = if (x < 0) == (y < 0) {
                        qm as i64
                    } else {
                        if qm == 9_223_372_036_854_775_808u64 {
                            i64::MIN
                        } else {
                            -(qm as i64)
                        }
                    };
                    proof {
                        assert(q as int == tdiv(x as int, y as int));
                    }
                    EStep::Val(Value::VInt(q))
                }
            },
            _ => EStep::Fail(Fault::BadOperand),
        },
        BinOp::Cat => match (a, b) {
            (Value::VStr(x), Value::VStr(y)) => {
                let nx = x.as_str().unicode_len();
                let ny = y.as_str().unicode_len();
                let cost: u64 = if nx as u64 <= u64::MAX - ny as u64 {
                    nx as u64 + ny as u64
                } else {
                    u64::MAX
                };
                proof {
                    assert(cost == str_cost(x@.len() + y@.len()));
                }
                if !charge(g, lim, cost) {
                    EStep::Fail(Fault::OutOfMemory)
                } else {
                    EStep::Val(Value::VStr(x.concat(y.as_str())))
                }
            },
            _ => EStep::Fail(Fault::BadOperand),
        },
        BinOp::CmpEq => match (a, b) {
            (Value::VInt(x), Value::VInt(y)) => EStep::Val(Value::VBool(x == y)),
            _ => EStep::Fail(Fault::BadOperand),
        },
        BinOp::CmpLt => match (a, b) {
            (Value::VInt(x), Value::VInt(y)) => EStep::Val(Value::VBool(x < y)),
            _ => EStep::Fail(Fault::BadOperand),
        },
    }
}

/// Evaluate one expression under the governor.
///
/// The contract states what the governor guarantees of every outcome: the
/// caller's bindings are restored, check points and heap charges only grow,
/// the heap ceiling is never crossed once respected, the nesting depth of the
/// caller is restored, and a pending tail call is handed back only in tail
/// position, always after at least one further check point (which bounds the
/// number of tail iterations by the step ceiling).
#[verifier::rlimit(100)]
pub fn eval_expr(
    funs: &Vec<FunDef>,
    base: &BaseEnvironment,
    env: &mut Vec<(String, Value)>,
    g: &mut Gov,
    lim: &Limits,
    clk: &std::time::Instant,
    e: &Expr,
    tail: bool,
) -> (r: EStep)
    ensures
        final(env)@ == old(env)@,
        final(g).steps >= old(g).steps,
        final(g).heap >= old(g).heap,
        final(g).depth == old(g).depth,
        old(g).heap <= lim.max_heap_bytes ==> final(g).heap <= lim.max_heap_bytes,
        r is TailCall ==> tail && final(g).steps > old(g).steps,
        !is_internal_fail(r),
        follows_sem(
            sem(fun_names(funs@), base.modules@, env_v(old(env)@), *old(g), *lim, e@),
            r,
            *final(g),
        ),
    decreases STEP_CAP - g.steps, crate::ast::expr_size(e@), 0int,
{
    reveal(sem);
    match e {
        Expr::IntLit(n) => EStep::Val(Value::VInt(*n)),
        Expr::BoolLit(b) => EStep::Val(Value::VBool(*b)),
        Expr::StrLit(s) => {
            let n = s.as_str().unicode_len();
            proof {
                assert(n as u64 == str_cost(s@.len()));
            }
            if !charge(g, lim, n as u64) {
                EStep::Fail(Fault::OutOfMemory)
            } else {
                EStep::Val(Value::VStr(s.clone()))
            }
        },
        Expr::Var(x) => match lookup_var(env, x) {
            Option::Some(v) => EStep::Val(v),
            Option::None => EStep::Fail(Fault::UnboundVar(x.clone())),
        },
        Expr::Bin(op, ea, eb) => {
            let ra = eval_expr(funs, base, env, g, lim, clk, ea, false);
            let va = match ra {
                EStep::Val(v) => v,
                EStep::TailCall(_, _) => {
                    proof {
                        assert(false);
                    }
                    return EStep::Fail(Fault::Internal);
                },
                EStep::Fail(ft) => {
                    return EStep::Fail(ft);
                },
            };
            let rb = eval_expr(funs, base, env, g, lim, clk, eb, false);
            let vb = match rb {
                EStep::Val(v) => v,
                EStep::TailCall(_, _) => {
                    proof {
                        assert(false);
                    }
                    return EStep::Fail(Fault::Internal);
                },
                EStep::Fail(ft) => {
                    return EStep::Fail(ft);
                },
            };
            apply_bin(*op, va, vb, g, lim)
        },
        Expr::If(c, t, f2) => {
            let rc = eval_expr(funs, base, env, g, lim, clk, c, false);
            let vc = match rc {
                EStep::Val(v) => v,
                EStep::TailCall(_, _) => {
                    proof {
                        assert(false);
                    }
                    return EStep::Fail(Fault::Internal);
                },
                EStep::Fail(ft) => {
                    return EStep::Fail(ft);
                },
            };
            match vc {
                Value::VBool(bv) => {
                    if bv {
                        eval_expr(funs, base, env, g, lim, clk, t, tail)
                    } else {
                        eval_expr(funs, base, env, g, lim, clk, f2, tail)
                    }
                },
                _ => EStep::Fail(Fault::BadOperand),
            }
        },
        Expr::Let(x, e1, e2) => {
            let r1 = eval_expr(funs, base, env, g, lim, clk, e1, false);
            let v1 = match r1 {
                EStep::Val(v) => v,
                EStep::TailCall(_, _) => {
                    proof {
                        assert(false);
                    }
                    return EStep::Fail(Fault::Internal);
                },
                EStep::Fail(ft) => {
                    return EStep::Fail(ft);
                },
            };
            let ghost v1v = v1@;
            env.push((x.clone(), v1));
            proof {
                assert(env_v(env@) =~= env_v(old(env)@).push((x@, v1v)));
            }
            let r2 = eval_expr(funs, base, env, g, lim, clk, e2, tail);
            let popped = env.pop();
            proof {
                assert(env@ =~= old(env)@);
            }
            r2
        },
        Expr::Call(f, ea) => {
            let ra = eval_expr(funs, base, env, g, lim, clk, ea, false);
            let va = match ra {
                EStep::Val(v) => v,
                EStep::TailCall(_, _) => {
                    proof {
                        assert(false);
                    }
                    return EStep::Fail(Fault::Internal);
                },
                EStep::Fail(ft) => {
                    return EStep::Fail(ft);
                },
            };
            match lookup_fun(funs, f) {
                Option::Some(idx0) => {
                    if val_ty(&va) != funs[idx0].param_ty {
                        return EStep::Fail(Fault::TypeMismatch);
                    }
                    if !checkpoint(g, lim, clk) {
                        return EStep::Fail(Fault::Timeout);
                    }
                    if tail {
                        return EStep::TailCall(f.clone(), va);
                    }
                    if g.depth >= lim.max_stack_depth {
                        return EStep::Fail(Fault::StackOverflow);
                    }
                    g.depth = g.depth + 1;
                    let ghost entry = *g;
                    let mut idx = idx0;
                    let mut va2 = va;
                    let mut ret: EStep = EStep::Fail(Fault::Internal);
                    loop
                        invariant
                            idx < funs@.len(),
                            g.steps > old(g).steps,
                            g.depth == entry.depth,
                            g.steps >= entry.steps,
                            g.heap >= entry.heap,
                            entry.heap <= lim.max_heap_bytes ==> g.heap <= lim.max_heap_bytes,
                            entry.depth >= 1,
                        ensures
                            g.depth == entry.depth,
                            g.steps >= entry.steps,
                            g.heap >= entry.heap,
                            entry.heap <= lim.max_heap_bytes ==> g.heap <= lim.max_heap_bytes,
                            ret is Val || ret is Fail,
                            !is_internal_fail(ret),
                        decreases STEP_CAP - g.steps,
                    {
                        let fd = &funs[idx];
                        let mut benv: Vec<(String, Value)> = Vec::new();
                        benv.push((fd.param.clone(), va2));
                        let rb = eval_expr(funs, base, &mut benv, g, lim, clk, &fd.body, true);
                        match rb {
                            EStep::Val(v) => {
                                if val_ty(&v) != fd.ret_ty {
                                    ret = EStep::Fail(Fault::TypeMismatch);
                                } else {
                                    ret = EStep::Val(v);
                                }
                                break;
                            },
                            EStep::Fail(ft) => {
                                ret = EStep::Fail(ft);
                                break;
                            },
                            EStep::TailCall(f2, v2) => match lookup_fun(funs, &f2) {
                                Option::Some(k) => {
                                    if val_ty(&v2) != funs[k].param_ty {
                                        ret = EStep::Fail(Fault::TypeMismatch);
                                        break;
                                    }
                                    idx = k;
                                    va2 = v2;
                                },
                                Option::None => {
                                    ret = EStep::Fail(Fault::UnknownFun(f2));
                                    break;
                                },
                            },
                        }
                    }
                    g.depth = g.depth - 1;
                    ret
                },
                Option::None => match lookup_prim(base, f) {
                    Option::Some(op) => apply_prim(op, va),
                    Option::None => EStep::Fail(Fault::UnknownFun(f.clone())),
                },
            }
        },
    }
}

} // verus!
