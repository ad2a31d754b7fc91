//! The lexer: turns source text into a token sequence, or reports the first
//! lexical error with its character offset.
use vstd::prelude::*;

verus! {

/// A token.
pub enum Tok {
    Int(i64),
    StrTok(String),
    Ident(String),
    KwLet,
    KwIn,
    KwRec,
    KwIf,
    KwThen,
    KwElse,
    KwTrue,
    KwFalse,
    Plus,
    Minus,
    Star,
    Slash,
    Cat,
    CmpEq,
    CmpLt,
    Assign,
    LParen,
    RParen,
    Colon,
}

/// Ghost mirror of `Tok`.
pub enum STok {
    Int(i64),
    StrTok(Seq<char>),
    Ident(Seq<char>),
    KwLet,
    KwIn,
    KwRec,
    KwIf,
    KwThen,
    KwElse,
    KwTrue,
    KwFalse,
    Plus,
    Minus,
    Star,
    Slash,
    Cat,
    CmpEq,
    CmpLt,
    Assign,
    LParen,
    RParen,
    Colon,
}

impl View for Tok {
    type V = STok;

    open spec fn view(&self) -> STok {
        match *self {
            Tok::Int(n) => STok::Int(n),
            Tok::StrTok(ref s) => STok::StrTok(s@),
            Tok::Ident(ref s) => STok::Ident(s@),
            Tok::KwLet => STok::KwLet,
            Tok::KwIn => STok::KwIn,
            Tok::KwRec => STok::KwRec,
            Tok::KwIf => STok::KwIf,
            Tok::KwThen => STok::KwThen,
            Tok::KwElse => STok::KwElse,
            Tok::KwTrue => STok::KwTrue,
            Tok::KwFalse => STok::KwFalse,
            Tok::Plus => STok::Plus,
            Tok::Minus => STok::Minus,
            Tok::Star => STok::Star,
            Tok::Slash => STok::Slash,
            Tok::Cat => STok::Cat,
            Tok::CmpEq => STok::CmpEq,
            Tok::CmpLt => STok::CmpLt,
            Tok::Assign => STok::Assign,
            Tok::LParen => STok::LParen,
            Tok::RParen => STok::RParen,
            Tok::Colon => STok::Colon,
        }
    }
}

/// The views of a token vector, as the spec-level parser reads them.
pub open spec fn tv(toks: Seq<Tok>) -> Seq<STok> {
    toks.map_values(|t: Tok| t@)
}

/// Indexing the views of a token vector is viewing the indexed token.
pub broadcast proof fn lemma_tv_index(toks: Seq<Tok>, i: int)
    requires
        0 <= i < toks.len(),
    ensures
        #[trigger] tv(toks)[i] == toks[i]@,
{
}

/// Taking views keeps the length.
pub broadcast proof fn lemma_tv_len(toks: Seq<Tok>)
    ensures
        #[trigger] tv(toks).len() == toks.len(),
{
}

/// A lexical error, with the character offset it was found at.
pub enum LexErr {
    BadChar(usize),
    Unterminated(usize),
    IntTooBig(usize),
}

/// Ghost mirror of `LexErr`, with unbounded offsets.
pub enum SLexErr {
    BadChar(int),
    Unterminated(int),
    IntTooBig(int),
}

impl View for LexErr {
    type V = SLexErr;

    open spec fn view(&self) -> SLexErr {
        match *self {
            LexErr::BadChar(p) => SLexErr::BadChar(p as int),
            LexErr::Unterminated(p) => SLexErr::Unterminated(p as int),
            LexErr::IntTooBig(p) => SLexErr::IntTooBig(p as int),
        }
    }
}

pub open spec fn is_digit(c: char) -> bool {
    '0' <= c && c <= '9'
}

pub open spec fn is_alpha(c: char) -> bool {
    ('a' <= c && c <= 'z') || ('A' <= c && c <= 'Z') || c == '_'
}

pub open spec fn is_identc(c: char) -> bool {
    is_alpha(c) || is_digit(c) || c == '.'
}

pub open spec fn is_space(c: char) -> bool {
    c == ' ' || c == '\n' || c == '\t' || c == '\r'
}

/// The numeric value of one decimal digit character.
pub open spec fn digit_of(c: char) -> nat
    recommends
        is_digit(c),
{
    (c as int - '0' as int) as nat
}

/// End of the identifier run that starts at `i`.
pub open spec fn ident_end(src: Seq<char>, i: nat) -> nat
    decreases src.len() - i,
{
    if i < src.len() && is_identc(src[i as int]) {
        ident_end(src, i + 1)
    } else {
        i
    }
}

/// End of the digit run that starts at `i`.
pub open spec fn digit_end(src: Seq<char>, i: nat) -> nat
    decreases src.len() - i,
{
    if i < src.len() && is_digit(src[i as int]) {
        digit_end(src, i + 1)
    } else {
        i
    }
}

/// The decimal value of the digits `src[i..j)`.
pub open spec fn digits_val(src: Seq<char>, i: nat, j: nat) -> nat
    decreases j - i,
{
    if j <= i {
        0
    } else {
        digits_val(src, i, (j - 1) as nat) * 10 + digit_of(src[j - 1])
    }
}

/// Offset of the first `"` at or after `i`, if any.
pub open spec fn str_close(src: Seq<char>, i: nat) -> Option<nat>
    decreases src.len() - i,
{
    if i >= src.len() {
        Option::None
    } else if src[i as int] == '"' {
        Option::Some(i)
    } else {
        str_close(src, i + 1)
    }
}

/// The token an identifier-shaped word stands for: a keyword where the word
/// is one, the identifier itself otherwise.
pub open spec fn word_tok(s: Seq<char>) -> STok {
    if s == "let"@ {
        STok::KwLet
    } else if s == "in"@ {
        STok::KwIn
    } else if s == "rec"@ {
        STok::KwRec
    } else if s == "if"@ {
        STok::KwIf
    } else if s == "then"@ {
        STok::KwThen
    } else if s == "else"@ {
        STok::KwElse
    } else if s == "true"@ {
        STok::KwTrue
    } else if s == "false"@ {
        STok::KwFalse
    } else {
        STok::Ident(s)
    }
}

/// Prepend one token to a lexing result.
pub open spec fn cons_tok(t: STok, r: Result<Seq<STok>, SLexErr>) -> Result<Seq<STok>, SLexErr> {
    match r {
        Result::Ok(rest) => Result::Ok(seq![t] + rest),
        Result::Err(e) => Result::Err(e),
    }
}

/// The tokens of `src` from offset `i` on, or the first lexical error.
pub open spec fn lex_from(src: Seq<char>, i: nat) -> Result<Seq<STok>, SLexErr>
    decreases src.len() - i,
{
    if i >= src.len() {
        Result::Ok(Seq::empty())
    } else {
        let c = src[i as int];
        if is_space(c) {
            lex_from(src, i + 1)
        } else if is_digit(c) {
            let j = digit_end(src, i);
            if j <= i || j > src.len() {
                Result::Err(SLexErr::BadChar(i as int))
            } else {
                let val = digits_val(src, i, j);
                if val > i64::MAX as nat {
                    Result::Err(SLexErr::IntTooBig(i as int))
                } else {
                    cons_tok(STok::Int(val as i64), lex_from(src, j))
                }
            }
        } else if is_alpha(c) {
            let j = ident_end(src, i);
            if j <= i || j > src.len() {
                Result::Err(SLexErr::BadChar(i as int))
            } else {
                cons_tok(word_tok(src.subrange(i as int, j as int)), lex_from(src, j))
            }
        } else if c == '"' {
            match str_close(src, i + 1) {
                Option::None => Result::Err(SLexErr::Unterminated(i as int)),
                Option::Some(j) => if j < i + 1 || j >= src.len() {
                    Result::Err(SLexErr::BadChar(i as int))
                } else {
                    cons_tok(
                        STok::StrTok(src.subrange(i as int + 1, j as int)),
                        lex_from(src, j + 1),
                    )
                },
            }
        } else if c == '+' {
            if i + 1 < src.len() && src[i as int + 1] == '+' {
                cons_tok(STok::Cat, lex_from(src, i + 2))
            } else {
                cons_tok(STok::Plus, lex_from(src, i + 1))
            }
        } else if c == '=' {
            if i + 1 < src.len() && src[i as int + 1] == '=' {
                cons_tok(STok::CmpEq, lex_from(src, i + 2))
            } else {
                cons_tok(STok::Assign, lex_from(src, i + 1))
            }
        } else if c == '-' {
            cons_tok(STok::Minus, lex_from(src, i + 1))
        } else if c == '*' {
            cons_tok(STok::Star, lex_from(src, i + 1))
        } else if c == '/' {
            cons_tok(STok::Slash, lex_from(src, i + 1))
        } else if c == '<' {
            cons_tok(STok::CmpLt, lex_from(src, i + 1))
        } else if c == '(' {
            cons_tok(STok::LParen, lex_from(src, i + 1))
        } else if c == ')' {
            cons_tok(STok::RParen, lex_from(src, i + 1))
        } else if c == ':' {
            cons_tok(STok::Colon, lex_from(src, i + 1))
        } else {
            Result::Err(SLexErr::BadChar(i as int))
        }
    }
}

/// The tokens of the whole source text, or its first lexical error.
pub open spec fn lex_spec(src: Seq<char>) -> Result<Seq<STok>, SLexErr> {
    lex_from(src, 0)
}

/// Every character strictly inside a digit run is a digit.
proof fn lemma_digit_run(src: Seq<char>, i: nat, k: nat)
    requires
        i <= k < digit_end(src, i),
    ensures
        k < src.len() && is_digit(src[k as int]),
    decreases k - i,
{
    if i < src.len() && is_digit(src[i as int]) {
        if k > i {
            lemma_digit_run(src, i + 1, k);
        }
    }
}

/// The value of a longer digit run is at least the value of a prefix of it.
proof fn lemma_digits_val_mono(src: Seq<char>, i: nat, k: nat, j: nat)
    requires
        i <= k <= j,
    ensures
        digits_val(src, i, j) >= digits_val(src, i, k),
    decreases j - k,
{
    if k < j {
        lemma_digits_val_mono(src, i, k, (j - 1) as nat);
    }
}

fn exec_is_space(c: char) -> (r: bool)
    ensures
        r == is_space(c),
{
    c == ' ' || c == '\n' || c == '\t' || c == '\r'
}

fn exec_is_digit(c: char) -> (r: bool)
    ensures
        r == is_digit(c),
{
    '0' <= c && c <= '9'
}

fn exec_is_alpha(c: char) -> (r: bool)
    ensures
        r == is_alpha(c),
{
    ('a' <= c && c <= 'z') || ('A' <= c && c <= 'Z') || c == '_'
}

fn exec_is_identc(c: char) -> (r: bool)
    ensures
        r == is_identc(c),
{
    exec_is_alpha(c) || exec_is_digit(c) || c == '.'
}

/// The word of an identifier run, classified as keyword or identifier.
fn exec_word_tok(w: &str) -> (r: Tok)
    ensures
        r@ == word_tok(w@),
{
    let s = String::from_str(w);
    if s == String::from_str("let") {
        Tok::KwLet
    } else if s == String::from_str("in") {
        Tok::KwIn
    } else if s == String::from_str("rec") {
        Tok::KwRec
    } else if s == String::from_str("if") {
        Tok::KwIf
    } else if s == String::from_str("then") {
        Tok::KwThen
    } else if s == String::from_str("else") {
        Tok::KwElse
    } else if s == String::from_str("true") {
        Tok::KwTrue
    } else if s == String::from_str("false") {
        Tok::KwFalse
    } else {
        Tok::Ident(s)
    }
}

/// Lex the whole source text.
pub fn lex(src: &str) -> (r: Result<Vec<Tok>, LexErr>)
    ensures
        match r {
            Result::Ok(toks) => lex_spec(src@) == Result::<Seq<STok>, SLexErr>::Ok(
                toks@.map_values(|t: Tok| t@),
            ),
            Result::Err(e) => lex_spec(src@) == Result::<Seq<STok>, SLexErr>::Err(e@),
        },
{
    let n = src.unicode_len();
    let mut toks: Vec<Tok> = Vec::new();
    let mut i: usize = 0;
    loop
        invariant
            i <= n,
            n == src@.len(),
            lex_from(src@, 0) == cons_many(toks@.map_values(|t: Tok| t@), lex_from(src@, i as nat)),
        decreases n - i,
    {
        if i >= n {
            assert(lex_from(src@, i as nat) == Result::<Seq<STok>, SLexErr>::Ok(
                Seq::<STok>::empty(),
            ));
            assert(toks@.map_values(|t: Tok| t@) + Seq::<STok>::empty() =~= toks@.map_values(
                |t: Tok| t@,
            ));
            return Result::Ok(toks);
        }
        let c = src.get_char(i);
        if exec_is_space(c) {
            proof {
                assert(lex_from(src@, i as nat) == lex_from(src@, (i + 1) as nat));
            }
            i = i + 1;
        } else if exec_is_digit(c) {
            // scan the digit run
            let mut j = i;
            while j < n && exec_is_digit(src.get_char(j))
                invariant
                    i <= j <= n,
                    n == src@.len(),
                    digit_end(src@, i as nat) == digit_end(src@, j as nat),
                decreases n - j,
            {
                j = j + 1;
            }
            assert(digit_end(src@, j as nat) == j as nat);
            assert(j > i);
            // compute the value, watching for overflow
            let mut val: i64 = 0;
            let mut k = i;
            let mut too_big = false;
            while k < j && !too_big
                invariant
                    i <= k <= j <= n,
                    n == src@.len(),
                    digit_end(src@, i as nat) == j as nat,
                    0 <= val,
                    !too_big ==> val as nat == digits_val(src@, i as nat, k as nat) && val
                        <= i64::MAX,
                    too_big ==> digits_val(src@, i as nat, j as nat) > i64::MAX as nat,
                decreases j - k,
            {
                proof {
                    lemma_digit_run(src@, i as nat, k as nat);
                }
                let c2 = src.get_char(k);
                let d = (c2 as u32 - 48) as i64;
                assert(d as nat == digit_of(src@[k as int]));
                if val > (i64::MAX - d) / 10 {
                    too_big = true;
                    proof {
                        assert(digits_val(src@, i as nat, (k + 1) as nat) == val * 10 + d);
                        assert(val * 10 + d > i64::MAX) by (nonlinear_arith)
                            requires
                                val > (i64::MAX - d) / 10,
                                0 <= d <= 9,
                                val >= 0,
                        ;
                        lemma_digits_val_mono(src@, i as nat, (k + 1) as nat, j as nat);
                    }
                } else {
                    proof {
                        assert(val * 10 + d <= i64::MAX) by (nonlinear_arith)
                            requires
                                val <= (i64::MAX - d) / 10,
                                0 <= d <= 9,
                                0 <= val,
                        ;
                        assert(digits_val(src@, i as nat, (k + 1) as nat) == val * 10 + d);
                    }
                    val = val * 10 + d;
                }
                k = k + 1;
            }
            if too_big {
                assert(lex_from(src@, i as nat) == Result::<Seq<STok>, SLexErr>::Err(
                    SLexErr::IntTooBig(i as int),
                ));
                return Result::Err(LexErr::IntTooBig(i));
            }
            assert(val as nat == digits_val(src@, i as nat, j as nat));
            proof {
                assert(lex_from(src@, i as nat) == cons_tok(
                    STok::Int(val),
                    lex_from(src@, j as nat),
                ));
                lemma_cons_many_push(
                    toks@.map_values(|t: Tok| t@),
                    STok::Int(val),
                    lex_from(src@, j as nat),
                );
                lemma_push_view(toks@, Tok::Int(val));
            }
            toks.push(Tok::Int(val));
            i = j;
        } else if exec_is_alpha(c) {
            let mut j = i;
            while j < n && exec_is_identc(src.get_char(j))
                invariant
                    i <= j <= n,
                    n == src@.len(),
                    ident_end(src@, i as nat) == ident_end(src@, j as nat),
                decreases n - j,
            {
                j = j + 1;
            }
            assert(ident_end(src@, j as nat) == j as nat);
            assert(j > i);
            let w = src.substring_char(i, j);
            let t = exec_word_tok(w);
            proof {
                assert(lex_from(src@, i as nat) == cons_tok(
                    word_tok(src@.subrange(i as int, j as int)),
                    lex_from(src@, j as nat),
                ));
                lemma_cons_many_push(toks@.map_values(|t2: Tok| t2@), t@, lex_from(src@, j as nat));
                lemma_push_view(toks@, t);
            }
            toks.push(t);
            i = j;
        } else if c == '"' {
            let mut j = i + 1;
            while j < n && src.get_char(j) != '"'
                invariant
                    i + 1 <= j <= n,
                    n == src@.len(),
                    str_close(src@, (i + 1) as nat) == str_close(src@, j as nat),
                decreases n - j,
            {
                j = j + 1;
            }
            if j >= n {
                assert(str_close(src@, j as nat) is None);
                assert(lex_from(src@, i as nat) == Result::<Seq<STok>, SLexErr>::Err(
                    SLexErr::Unterminated(i as int),
                ));
                return Result::Err(LexErr::Unterminated(i));
            }
            assert(str_close(src@, j as nat) == Option::Some(j as nat));
            let w = src.substring_char(i + 1, j);
            let t = Tok::StrTok(String::from_str(w));
            proof {
                assert(lex_from(src@, i as nat) == cons_tok(
                    STok::StrTok(src@.subrange(i + 1, j as int)),
                    lex_from(src@, (j + 1) as nat),
                ));
                lemma_cons_many_push(
                    toks@.map_values(|t2: Tok| t2@),
                    t@,
                    lex_from(src@, (j + 1) as nat),
                );
                lemma_push_view(toks@, t);
            }
            toks.push(t);
            i = j + 1;
        } else {
            // symbol tokens
            let (t, adv): (Tok, usize) = if c == '+' {
                if i + 1 < n && src.get_char(i + 1) == '+' {
                    (Tok::Cat, 2)
                } else {
                    (Tok::Plus, 1)
                }
            } else if c == '=' {
                if i + 1 < n && src.get_char(i + 1) == '=' {
                    (Tok::CmpEq, 2)
                } else {
                    (Tok::Assign, 1)
                }
            } else if c == '-' {
                (Tok::Minus, 1)
            } else if c == '*' {
                (Tok::Star, 1)
            } else if c == '/' {
                (Tok::Slash, 1)
            } else if c == '<' {
                (Tok::CmpLt, 1)
            } else if c == '(' {
                (Tok::LParen, 1)
            } else if c == ')' {
                (Tok::RParen, 1)
            } else if c == ':' {
                (Tok::Colon, 1)
            } else {
                assert(lex_from(src@, i as nat) == Result::<Seq<STok>, SLexErr>::Err(
                    SLexErr::BadChar(i as int),
                ));
                return Result::Err(LexErr::BadChar(i));
            };
            proof {
                assert(lex_from(src@, i as nat) == cons_tok(
                    t@,
                    lex_from(src@, (i + adv) as nat),
                ));
                lemma_cons_many_push(
                    toks@.map_values(|t2: Tok| t2@),
                    t@,
                    lex_from(src@, (i + adv) as nat),
                );
                lemma_push_view(toks@, t);
            }
            toks.push(t);
            i = i + adv;
        }
    }
}

/// Prepend a sequence of already-lexed tokens to a lexing result.
pub open spec fn cons_many(pre: Seq<STok>, r: Result<Seq<STok>, SLexErr>) -> Result<
    Seq<STok>,
    SLexErr,
> {
    match r {
        Result::Ok(rest) => Result::Ok(pre + rest),
        Result::Err(e) => Result::Err(e),
    }
}

/// Pushing a token commutes with taking views.
proof fn lemma_push_view(pre: Seq<Tok>, t: Tok)
    ensures
        pre.push(t).map_values(|t2: Tok| t2@) == pre.map_values(|t2: Tok| t2@) + seq![t@],
{
    let a = pre.push(t).map_values(|t2: Tok| t2@);
    let b = pre.map_values(|t2: Tok| t2@) + seq![t@];
    assert(a =~= b);
}

/// Moving one token from the pending result into the prefix keeps the whole
/// result.
proof fn lemma_cons_many_push(pre: Seq<STok>, t: STok, r: Result<Seq<STok>, SLexErr>)
    ensures
        cons_many(pre, cons_tok(t, r)) == cons_many(pre + seq![t], r),
{
    match r {
        Result::Ok(rest) => {
            assert(pre + (seq![t] + rest) =~= (pre + seq![t]) + rest);
        },
        Result::Err(_) => {},
    }
}

} // verus!
