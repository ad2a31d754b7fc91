//! The result formatter: exact textual renderings of values, types, tokens
//! and error messages. Every function here pins its output down to a
//! spec-level character sequence.
use crate::ast::{Fault, SFault, Ty, Value, VValue};
use crate::lex::{LexErr, SLexErr, STok, Tok};
use crate::parse::{ParseErr, SParseErr};
use vstd::prelude::*;

verus! {

broadcast use crate::lex::lemma_tv_index, crate::lex::lemma_tv_len;

/// The character of one decimal digit.
pub open spec fn digit_char(d: nat) -> char {
    if d == 0 {
        '0'
    } else if d == 1 {
        '1'
    } else if d == 2 {
        '2'
    } else if d == 3 {
        '3'
    } else if d == 4 {
        '4'
    } else if d == 5 {
        '5'
    } else if d == 6 {
        '6'
    } else if d == 7 {
        '7'
    } else if d == 8 {
        '8'
    } else {
        '9'
    }
}

/// The decimal digits of a natural number, most significant first.
pub open spec fn dec_digits(n: nat) -> Seq<char>
    decreases n,
{
    if n < 10 {
        seq![digit_char(n)]
    } else {
        dec_digits(n / 10) + seq![digit_char(n % 10)]
    }
}

/// The decimal rendering of an integer, with a leading minus where negative.
pub open spec fn int_text(i: int) -> Seq<char> {
    if i < 0 {
        seq!['-'] + dec_digits((-i) as nat)
    } else {
        dec_digits(i as nat)
    }
}

fn digit_str(d: u64) -> (r: String)
    requires
        d < 10,
    ensures
        r@ == seq![digit_char(d as nat)],
{
    let r = if d == 0 {
        String::from_str("0")
    } else if d == 1 {
        String::from_str("1")
    } else if d == 2 {
        String::from_str("2")
    } else if d == 3 {
        String::from_str("3")
    } else if d == 4 {
        String::from_str("4")
    } else if d == 5 {
        String::from_str("5")
    } else if d == 6 {
        String::from_str("6")
    } else if d == 7 {
        String::from_str("7")
    } else if d == 8 {
        String::from_str("8")
    } else {
        String::from_str("9")
    };
    proof {
        reveal_strlit("0");
        reveal_strlit("1");
        reveal_strlit("2");
        reveal_strlit("3");
        reveal_strlit("4");
        reveal_strlit("5");
        reveal_strlit("6");
        reveal_strlit("7");
        reveal_strlit("8");
        reveal_strlit("9");
        assert(r@ =~= seq![digit_char(d as nat)]);
    }
    r
}

/// The decimal rendering of an unsigned machine integer.
pub fn render_u64(n: u64) -> (r: String)
    ensures
        r@ == dec_digits(n as nat),
    decreases n,
{
    if n < 10 {
        digit_str(n)
    } else {
        let mut s = render_u64(n / 10);
        let d = digit_str(n % 10);
        s.append(d.as_str());
        s
    }
}

/// The decimal rendering of a signed machine integer.
pub fn render_i64(n: i64) -> (r: String)
    ensures
        r@ == int_text(n as int),
{
    if n >= 0 {
        render_u64(n as u64)
    } else {
        let mag: u64 = if n == i64::MIN {
            9223372036854775808u64
        } else {
            (-n) as u64
        };
        let mut s = String::from_str("-");
        let d = render_u64(mag);
        s.append(d.as_str());
        proof {
            reveal_strlit("-");
            assert(s@ =~= seq!['-'] + dec_digits(mag as nat));
        }
        s
    }
}

/// The name of a type.
pub open spec fn ty_text_s(t: Ty) -> Seq<char> {
    match t {
        Ty::Int => "Int"@,
        Ty::Bool => "Bool"@,
        Ty::Str => "Str"@,
    }
}

pub fn ty_text(t: Ty) -> (r: String)
    ensures
        r@ == ty_text_s(t),
{
    match t {
        Ty::Int => String::from_str("Int"),
        Ty::Bool => String::from_str("Bool"),
        Ty::Str => String::from_str("Str"),
    }
}

/// The escape of one character inside a rendered string value: quote,
/// backslash and line-control characters are escaped so that the rendering
/// stays on one line.
pub open spec fn esc_char(c: char) -> Seq<char> {
    if c == '\n' {
        seq!['\\', 'n']
    } else if c == '\r' {
        seq!['\\', 'r']
    } else if c == '\t' {
        seq!['\\', 't']
    } else if c == '"' {
        seq!['\\', '"']
    } else if c == '\\' {
        seq!['\\', '\\']
    } else {
        seq![c]
    }
}

/// The escaped text of a string value, from offset `i` on.
pub open spec fn esc_text(s: Seq<char>, i: int) -> Seq<char>
    decreases s.len() - i,
{
    if i < 0 || i >= s.len() {
        Seq::empty()
    } else {
        esc_char(s[i]) + esc_text(s, i + 1)
    }
}

/// Escape a string value for display.
fn esc_string(s: &str) -> (r: String)
    ensures
        r@ == esc_text(s@, 0),
{
    let n = s.unicode_len();
    let mut r = String::new();
    let mut i: usize = 0;
    while i < n
        invariant
            i <= n,
            n == s@.len(),
            esc_text(s@, 0) == r@ + esc_text(s@, i as int),
        decreases n - i,
    {
        let ghost r0 = r@;
        let c = s.get_char(i);
        if c == '\n' {
            r.append("\\n");
        } else if c == '\r' {
            r.append("\\r");
        } else if c == '\t' {
            r.append("\\t");
        } else if c == '"' {
            r.append("\\\"");
        } else if c == '\\' {
            r.append("\\\\");
        } else {
            let one = s.substring_char(i, i + 1);
            r.append(one);
        }
        proof {
            reveal_strlit("\\n");
            reveal_strlit("\\r");
            reveal_strlit("\\t");
            reveal_strlit("\\\"");
            reveal_strlit("\\\\");
            assert(s@.subrange(i as int, i as int + 1) =~= seq![s@[i as int]]);
            assert(r@ =~= r0 + esc_char(s@[i as int]));
            assert(esc_text(s@, i as int) =~= esc_char(s@[i as int]) + esc_text(s@, i as int + 1));
            assert(r0 + esc_text(s@, i as int) =~= r@ + esc_text(s@, i as int + 1));
        }
        i = i + 1;
    }
    proof {
        assert(esc_text(s@, n as int) =~= Seq::<char>::empty());
        assert(r@ + Seq::<char>::empty() =~= r@);
    }
    r
}

/// The textual rendering of a runtime value: integers in decimal, booleans
/// as their keywords, strings quoted with quote, backslash and line-control
/// characters escaped, so that the rendering is always a single line.
pub open spec fn value_text_s(v: VValue) -> Seq<char> {
    match v {
        VValue::VInt(n) => int_text(n as int),
        VValue::VBool(b) => if b {
            "true"@
        } else {
            "false"@
        },
        VValue::VStr(s) => seq!['"'] + esc_text(s, 0) + seq!['"'],
    }
}

pub fn value_text(v: &Value) -> (r: String)
    ensures
        r@ == value_text_s(v@),
{
    match v {
        Value::VInt(n) => render_i64(*n),
        Value::VBool(b) => {
            if *b {
                String::from_str("true")
            } else {
                String::from_str("false")
            }
        },
        Value::VStr(s) => {
            let mut r = String::from_str("\"");
            let e = esc_string(s.as_str());
            r.append(e.as_str());
            r.append("\"");
            proof {
                reveal_strlit("\"");
                assert(r@ =~= seq!['"'] + esc_text(s@, 0) + seq!['"']);
            }
            r
        },
    }
}

/// The message of a lexical error.
pub open spec fn lex_msg_s(e: SLexErr) -> Seq<char> {
    match e {
        SLexErr::BadChar(p) => "syntax error: unexpected character at offset "@ + int_text(p),
        SLexErr::Unterminated(p) => "syntax error: unterminated string literal at offset "@
            + int_text(p),
        SLexErr::IntTooBig(p) => "syntax error: integer literal out of range at offset "@
            + int_text(p),
    }
}

pub fn lex_msg(e: &LexErr) -> (r: String)
    ensures
        r@ == lex_msg_s(e@),
{
    match e {
        LexErr::BadChar(p) => {
            let mut r = String::from_str("syntax error: unexpected character at offset ");
            let d = render_u64(*p as u64);
            r.append(d.as_str());
            r
        },
        LexErr::Unterminated(p) => {
            let mut r = String::from_str("syntax error: unterminated string literal at offset ");
            let d = render_u64(*p as u64);
            r.append(d.as_str());
            r
        },
        LexErr::IntTooBig(p) => {
            let mut r = String::from_str("syntax error: integer literal out of range at offset ");
            let d = render_u64(*p as u64);
            r.append(d.as_str());
            r
        },
    }
}

/// The message of a syntax error.
pub open spec fn parse_msg_s(e: SParseErr) -> Seq<char> {
    match e {
        SParseErr::Unexpected(p) => "syntax error: unexpected token at index "@ + int_text(p),
        SParseErr::UnexpectedEnd => "syntax error: unexpected end of input"@,
        SParseErr::TooDeep => "syntax error: expression nested too deeply"@,
        SParseErr::Internal => "syntax error: internal parser fault"@,
    }
}

pub fn parse_msg(e: &ParseErr) -> (r: String)
    ensures
        r@ == parse_msg_s(e@),
{
    match e {
        ParseErr::Unexpected(p) => {
            let mut r = String::from_str("syntax error: unexpected token at index ");
            let d = render_u64(*p as u64);
            r.append(d.as_str());
            r
        },
        ParseErr::UnexpectedEnd => String::from_str("syntax error: unexpected end of input"),
        ParseErr::TooDeep => String::from_str("syntax error: expression nested too deeply"),
        ParseErr::Internal => String::from_str("syntax error: internal parser fault"),
    }
}

/// The message of a runtime fault or tripped resource ceiling.
pub open spec fn fault_msg_s(f: SFault) -> Seq<char> {
    match f {
        SFault::Timeout => "execution aborted: the evaluation exceeded the allowed execution time"@,
        SFault::OutOfMemory => "execution aborted: the evaluation exceeded the memory limit"@,
        SFault::StackOverflow
            => "execution aborted: the evaluation exceeded the call stack depth limit"@,
        SFault::DivideByZero => "runtime fault: division by zero"@,
        SFault::ArithOverflow => "runtime fault: integer overflow"@,
        SFault::UnboundVar(x) => "runtime fault: unbound variable: "@ + x,
        SFault::UnknownFun(g) => "runtime fault: unknown function: "@ + g,
        SFault::BadOperand => "runtime fault: ill-typed operands"@,
        SFault::TypeMismatch => "type error: value does not match its declared type"@,
        SFault::Internal => "internal evaluation fault"@,
    }
}

pub fn fault_msg(f: &Fault) -> (r: String)
    ensures
        r@ == fault_msg_s(f@),
{
    match f {
        Fault::Timeout => String::from_str(
            "execution aborted: the evaluation exceeded the allowed execution time",
        ),
        Fault::OutOfMemory => String::from_str(
            "execution aborted: the evaluation exceeded the memory limit",
        ),
        Fault::StackOverflow => String::from_str(
            "execution aborted: the evaluation exceeded the call stack depth limit",
        ),
        Fault::DivideByZero => String::from_str("runtime fault: division by zero"),
        Fault::ArithOverflow => String::from_str("runtime fault: integer overflow"),
        Fault::UnboundVar(x) => {
            let mut r = String::from_str("runtime fault: unbound variable: ");
            r.append(x.as_str());
            r
        },
        Fault::UnknownFun(g) => {
            let mut r = String::from_str("runtime fault: unknown function: ");
            r.append(g.as_str());
            r
        },
        Fault::BadOperand => String::from_str("runtime fault: ill-typed operands"),
        Fault::TypeMismatch => String::from_str(
            "type error: value does not match its declared type",
        ),
        Fault::Internal => String::from_str("internal evaluation fault"),
    }
}

/// The canonical text of one token.
pub open spec fn tok_text_s(t: STok) -> Seq<char> {
    match t {
        STok::Int(n) => int_text(n as int),
        STok::StrTok(s) => seq!['"'] + s + seq!['"'],
        STok::Ident(s) => s,
        STok::KwLet => "let"@,
        STok::KwIn => "in"@,
        STok::KwRec => "rec"@,
        STok::KwIf => "if"@,
        STok::KwThen => "then"@,
        STok::KwElse => "else"@,
        STok::KwTrue => "true"@,
        STok::KwFalse => "false"@,
        STok::Plus => "+"@,
        STok::Minus => "-"@,
        STok::Star => "*"@,
        STok::Slash => "/"@,
        STok::Cat => "++"@,
        STok::CmpEq => "=="@,
        STok::CmpLt => "<"@,
        STok::Assign => "="@,
        STok::LParen => "("@,
        STok::RParen => ")"@,
        STok::Colon => ":"@,
    }
}

pub fn tok_text(t: &Tok) -> (r: String)
    ensures
        r@ == tok_text_s(t@),
{
    match t {
        Tok::Int(n) => render_i64(*n),
        Tok::StrTok(s) => {
            let mut r = String::from_str("\"");
            r.append(s.as_str());
            r.append("\"");
            proof {
                reveal_strlit("\"");
                assert(r@ =~= seq!['"'] + s@ + seq!['"']);
            }
            r
        },
        Tok::Ident(s) => s.clone(),
        Tok::KwLet => String::from_str("let"),
        Tok::KwIn => String::from_str("in"),
        Tok::KwRec => String::from_str("rec"),
        Tok::KwIf => String::from_str("if"),
        Tok::KwThen => String::from_str("then"),
        Tok::KwElse => String::from_str("else"),
        Tok::KwTrue => String::from_str("true"),
        Tok::KwFalse => String::from_str("false"),
        Tok::Plus => String::from_str("+"),
        Tok::Minus => String::from_str("-"),
        Tok::Star => String::from_str("*"),
        Tok::Slash => String::from_str("/"),
        Tok::Cat => String::from_str("++"),
        Tok::CmpEq => String::from_str("=="),
        Tok::CmpLt => String::from_str("<"),
        Tok::Assign => String::from_str("="),
        Tok::LParen => String::from_str("("),
        Tok::RParen => String::from_str(")"),
        Tok::Colon => String::from_str(":"),
    }
}

/// The canonical form of a token sequence: the tokens' texts separated by
/// single spaces.
pub open spec fn emit_from(toks: Seq<STok>, i: nat) -> Seq<char>
    decreases toks.len() - i,
{
    if i >= toks.len() {
        Seq::empty()
    } else if i + 1 == toks.len() {
        tok_text_s(toks[i as int])
    } else {
        tok_text_s(toks[i as int]) + " "@ + emit_from(toks, i + 1)
    }
}

/// Re-emit a token sequence in the fixed canonical style.
pub fn emit(toks: &Vec<Tok>) -> (r: String)
    ensures
        r@ == emit_from(crate::lex::tv(toks@), 0),
{
    let n = toks.len();
    let mut r = String::new();
    let mut i: usize = 0;
    while i < n
        invariant
            i <= n,
            n == toks@.len(),
            emit_from(crate::lex::tv(toks@), 0) == r@ + emit_from(crate::lex::tv(toks@), i as nat),
        decreases n - i,
    {
        let ghost r0 = r@;
        let t = tok_text(&toks[i]);
        r.append(t.as_str());
        if i + 1 < n {
            r.append(" ");
            proof {
                reveal_strlit(" ");
                assert(emit_from(crate::lex::tv(toks@), i as nat) =~= tok_text_s(
                    crate::lex::tv(toks@)[i as int],
                ) + " "@ + emit_from(crate::lex::tv(toks@), (i + 1) as nat));
                assert(r0 + emit_from(crate::lex::tv(toks@), i as nat) =~= r@ + emit_from(
                    crate::lex::tv(toks@),
                    (i + 1) as nat,
                ));
            }
        } else {
            proof {
                assert(emit_from(crate::lex::tv(toks@), i as nat) =~= tok_text_s(
                    crate::lex::tv(toks@)[i as int],
                ));
                assert(emit_from(crate::lex::tv(toks@), (i + 1) as nat) =~= Seq::<char>::empty());
                assert(r0 + emit_from(crate::lex::tv(toks@), i as nat) =~= r@ + emit_from(
                    crate::lex::tv(toks@),
                    (i + 1) as nat,
                ));
            }
        }
        i = i + 1;
    }
    proof {
        assert(emit_from(crate::lex::tv(toks@), i as nat) =~= Seq::<char>::empty());
        assert(r@ + Seq::<char>::empty() =~= r@);
    }
    r
}

} // verus!
