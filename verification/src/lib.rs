//! A resource-bounded expression evaluation sandbox: a small expression
//! language (integers, booleans, strings, `let` bindings, `if`, top-level
//! recursive functions and registered primitives) whose every evaluation
//! runs in a disposable session derived from a shared, immutable base
//! environment, under three independent ceilings: a heap allocation budget,
//! a call-stack depth budget and a cooperative wall-clock deadline. Every
//! outcome, including every fault, is returned to the caller as text.
pub mod ast;
pub mod eval;
pub mod gov;
pub mod lex;
pub mod parse;
pub mod registry;
pub mod render;

use vstd::prelude::*;

use crate::ast::{ty_of_value, Fault, SFault, Ty, Value, VValue};
use crate::eval::{env_v, eval_expr, fun_names, sem, val_ty, EStep, SemOut};
use crate::registry::Module;
use crate::gov::{default_limits, gov_zero, new_gov, Limits};
use crate::lex::{lex, lex_spec, SLexErr, STok};
use crate::parse::{parse_program, parse_program_s};
use crate::registry::BaseEnvironment;
use crate::render::{emit_from, fault_msg, fault_msg_s, lex_msg, lex_msg_s, parse_msg,
    parse_msg_s, ty_text, ty_text_s, value_text, value_text_s};

verus! {

/// The two shapes an evaluation can end in: a typed value, or a message.
/// Nothing else ever reaches the caller.
pub enum Outcome {
    Success { value: Value, ty: Ty },
    Failure { message: String },
}

/// The one-line rendering of a successful outcome: the value, a separator,
/// then its type.
pub open spec fn success_text(v: VValue, t: Ty) -> Seq<char> {
    value_text_s(v) + " : "@ + ty_text_s(t)
}

/// Render an outcome as text: `<value> : <type>` on success, the message
/// itself on failure. Never fails.
pub fn format_outcome(o: &Outcome) -> (r: String)
    ensures
        match *o {
            Outcome::Success { ref value, ty } => r@ == success_text(value@, ty),
            Outcome::Failure { ref message } => r@ == message@,
        },
{
    match o {
        Outcome::Success { value, ty } => {
            let mut r = value_text(value);
            r.append(" : ");
            let t = ty_text(*ty);
            r.append(t.as_str());
            proof {
                reveal_strlit(" : ");
            }
            r
        },
        Outcome::Failure { message } => message.clone(),
    }
}

/// What `evaluate` promises of its result: a lexical or syntax error is
/// reported with its exact message; a program whose main expression the
/// reference semantics settles (it reaches no call of a defined function, so
/// no check point and no clock) gets exactly the rendered `<value> : <type>`
/// line or exactly the message of its fault; a program whose outcome passes
/// through the clock gets either a `<value> : <type>` line whose type is the
/// value's, or the exact message of some fault.
pub open spec fn evaluate_post(mods: Seq<Module>, src: Seq<char>, lim: Limits, r: Seq<char>) -> bool {
    match lex_spec(src) {
        Result::Err(e) => r == lex_msg_s(e),
        Result::Ok(toks) => match parse_program_s(toks) {
            Result::Err(pe) => r == parse_msg_s(pe),
            Result::Ok(prog) => match sem(
                prog.funs.map_values(|fd: crate::ast::SFunDef| fd.name),
                mods,
                Seq::empty(),
                gov_zero(),
                lim,
                prog.main,
            ) {
                SemOut::SVal(v, _) => r == success_text(v, ty_of_value(v)),
                SemOut::SFault(f, _) => r == fault_msg_s(f),
                SemOut::SCall => (exists|v: VValue|
                    r == #[trigger] success_text(v, ty_of_value(v))) || (exists|f: SFault|
                    !(f is Internal) && r == #[trigger] fault_msg_s(f)),
            },
        },
    }
}

/// Whether the outcome of evaluating `src` under `lim` is settled by the
/// reference semantics alone: the text fails to lex or to parse, or its main
/// expression reaches no call of a defined function, so no check point and
/// no clock reading is involved.
pub open spec fn outcome_settled(mods: Seq<Module>, src: Seq<char>, lim: Limits) -> bool {
    match lex_spec(src) {
        Result::Err(_) => true,
        Result::Ok(toks) => match parse_program_s(toks) {
            Result::Err(_) => true,
            Result::Ok(prog) => !(sem(
                prog.funs.map_values(|fd: crate::ast::SFunDef| fd.name),
                mods,
                Seq::empty(),
                gov_zero(),
                lim,
                prog.main,
            ) is SCall),
        },
    }
}

/// Determinism: where no clock is involved — the source fails to lex or
/// parse, or its evaluation reaches no call of a defined function — two
/// evaluations of the same source under the same registry and limits return
/// the same text. Where the outcome passes through the clock this is not
/// claimed: the deadline may trip in one run and not in another.
pub proof fn lemma_settled_evaluation_deterministic(
    mods: Seq<Module>,
    src: Seq<char>,
    lim: Limits,
    r1: Seq<char>,
    r2: Seq<char>,
)
    requires
        outcome_settled(mods, src, lim),
        evaluate_post(mods, src, lim, r1),
        evaluate_post(mods, src, lim, r2),
    ensures
        r1 == r2,
{
}

/// Evaluate one source text in a fresh, disposable session derived from the
/// shared base environment, under the given limits. The session is destroyed
/// when this returns: no binding survives into any other evaluation, and two
/// sessions can never observe each other's state, since the result is a
/// function of the source text, the limits and the clock alone. All
/// outcomes, faults included, come back as a display string.
pub fn evaluate(base: &BaseEnvironment, src: &str, lim: &Limits) -> (r: String)
    ensures
        evaluate_post(base.modules@, src@, *lim, r@),
{
    let toks = match lex(src) {
        Result::Ok(ts) => ts,
        Result::Err(e) => {
            return lex_msg(&e);
        },
    };
    let prog = match parse_program(&toks) {
        Result::Ok(p) => p,
        Result::Err(e) => {
            return parse_msg(&e);
        },
    };
    let mut g = new_gov();
    let mut env: Vec<(String, Value)> = Vec::new();
    proof {
        assert(env_v(env@) =~= Seq::<(Seq<char>, VValue)>::empty());
        assert(prog@.main == prog.main@);
        assert(fun_names(prog.funs@) =~= prog@.funs.map_values(
            |fd: crate::ast::SFunDef| fd.name,
        ));
    }
    let ghost s0 = sem(
        fun_names(prog.funs@),
        base.modules@,
        Seq::empty(),
        gov_zero(),
        *lim,
        prog.main@,
    );
    let clk = crate::gov::clock_start();
    let step = eval_expr(&prog.funs, base, &mut env, &mut g, lim, &clk, &prog.main, false);
    let o = match step {
        EStep::Val(v) => {
            let t = val_ty(&v);
            Outcome::Success { value: v, ty: t }
        },
        EStep::TailCall(_, _) => {
            proof {
                assert(false);
            }
            Outcome::Failure { message: fault_msg(&Fault::Internal) }
        },
        EStep::Fail(f) => Outcome::Failure { message: fault_msg(&f) },
    };
    let r = format_outcome(&o);
    proof {
        match o {
            Outcome::Success { ref value, ty } => {
                assert(r@ == success_text(value@, ty));
                assert(ty == ty_of_value(value@));
                if s0 is SCall {
                    assert(exists|vv: VValue|
                        r@ == #[trigger] success_text(vv, ty_of_value(vv)));
                }
            },
            Outcome::Failure { ref message } => {
                if s0 is SCall {
                    assert(exists|ff: SFault| !(ff is Internal) && r@ == #[trigger] fault_msg_s(
                        ff,
                    ));
                }
            },
        }
    }
    r
}

/// Evaluate under the default ceilings.
pub fn evaluate_default(base: &BaseEnvironment, src: &str) -> (r: String)
    ensures
        evaluate_post(base.modules@, src@, default_limits(), r@),
{
    let lim = Limits::new_default();
    evaluate(base, src, &lim)
}

/// What reformatting does to a source text: the canonical emission of its
/// tokens where it lexes and parses, the exact error message otherwise.
pub open spec fn reformat_spec(src: Seq<char>) -> Result<Seq<char>, Seq<char>> {
    match lex_spec(src) {
        Result::Err(e) => Result::Err(lex_msg_s(e)),
        Result::Ok(toks) => match parse_program_s(toks) {
            Result::Err(pe) => Result::Err(parse_msg_s(pe)),
            Result::Ok(_) => Result::Ok(emit_from(toks, 0)),
        },
    }
}

/// Re-emit a source text in the fixed canonical style: its tokens separated
/// by single spaces. The text must lex and parse; either failure surfaces
/// the same message it would get from `evaluate`. No execution happens here,
/// so no session or limit is involved.
pub fn reformat(base: &BaseEnvironment, src: &str) -> (r: Result<String, String>)
    ensures
        match r {
            Result::Ok(s) => reformat_spec(src@) == Result::<Seq<char>, Seq<char>>::Ok(s@),
            Result::Err(m) => reformat_spec(src@) == Result::<Seq<char>, Seq<char>>::Err(m@),
        },
{
    let toks = match lex(src) {
        Result::Ok(ts) => ts,
        Result::Err(e) => {
            return Result::Err(lex_msg(&e));
        },
    };
    match parse_program(&toks) {
        Result::Ok(_) => Result::Ok(crate::render::emit(&toks)),
        Result::Err(e) => Result::Err(parse_msg(&e)),
    }
}

/// The canonical style is a fixed point, and reformatting preserves the
/// program: wherever the canonical emission of a parsed token sequence lexes
/// back to the same tokens, reformatting that emission returns it unchanged,
/// and it parses to the very same program as the original text. The
/// hypothesis — that the single-space emission re-lexes to the tokens it was
/// printed from — is the part of the round trip that is not proved here; it
/// is exercised by tests instead.
pub proof fn lemma_reformat_fixed_point(toks: Seq<STok>)
    requires
        lex_spec(emit_from(toks, 0)) == Result::<Seq<STok>, SLexErr>::Ok(toks),
        parse_program_s(toks) is Ok,
    ensures
        reformat_spec(emit_from(toks, 0)) == Result::<Seq<char>, Seq<char>>::Ok(
            emit_from(toks, 0),
        ),
        forall|src: Seq<char>|
            lex_spec(src) == Result::<Seq<STok>, SLexErr>::Ok(toks) ==> parse_program_s(
                #[trigger] lex_spec(src)->Ok_0,
            ) == parse_program_s(toks),
{
}

} // verus!
