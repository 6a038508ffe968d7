//! The grammar of ResIR as a recursive-descent parser over token values:
//! each rule maps a token sequence and a position to the value it parses and
//! the position after it, or to a syntax error (a message, the position
//! of the token it is reported at, and the position where the parser
//! stops). The executable parser is proved to follow these rules exactly.

use vstd::prelude::*;
use crate::lexer::tokens::{TokenKind, TokenV};
use crate::text::dec;
use super::ir::{TypeV, PrimType, RetTypeV, DeclV, ExternTypeV, UnOp, BinOp, LiteralV, RhsV, StmtV, TermV, BlockV, FunctionV, ProgramV};
use super::literals::{spec_parse_i64, is_float_text};
use crate::semantic::debug_text::binop_name;

verus! {

/// A syntax error: its message, the index of the token whose line and
/// column it reports, and the index of the next token to read once the
/// parser has stopped.
pub struct SyntaxError {
    pub msg: Seq<char>,
    pub at: int,
    pub stop: int,
}

/// What a rule gives: a value and the position after it, or an error.
pub type Parse<X> = Result<(X, int), SyntaxError>;

/// The text of a syntax error:
/// `Syntax Error: {msg} at Line: {line}, Col: {col}`.
pub open spec fn render(ts: Seq<TokenV>, e: SyntaxError) -> Seq<char> {
    "Syntax Error: "@ + e.msg + " at Line: "@ + dec(ts[e.at].line) + ", Col: "@ + dec(ts[e.at].col)
}

/// The error reported at position `i`, where the parser stops.
pub open spec fn fail<X>(msg: Seq<char>, i: int) -> Parse<X> {
    Err(SyntaxError { msg, at: i, stop: i })
}

/// The token at `i` is the end of the input (or `i` is past the tokens).
pub open spec fn at_end(ts: Seq<TokenV>, i: int) -> bool {
    !(0 <= i < ts.len()) || ts[i].kind == TokenKind::EndOfFile
}

/// The token at `i` is of kind `k` (and is not the end of the input).
pub open spec fn check(ts: Seq<TokenV>, i: int, k: TokenKind) -> bool {
    !at_end(ts, i) && ts[i].kind == k
}

/// Takes a token of kind `k`, or reports `msg` where it should be.
pub open spec fn consume(ts: Seq<TokenV>, i: int, k: TokenKind, msg: Seq<char>) -> Parse<TokenV> {
    if check(ts, i, k) {
        Ok((ts[i], i + 1))
    } else {
        fail(msg, i)
    }
}

// ----------------------------- names -----------------------------

/// The number of UTF-8 bytes of a character.
pub open spec fn utf8_len(c: char) -> nat {
    if (c as u32) < 0x80 {
        1
    } else if (c as u32) < 0x800 {
        2
    } else if (c as u32) < 0x10000 {
        3
    } else {
        4
    }
}

/// The characters after the first `n` bytes of the UTF-8 encoding of `s`;
/// `None` where byte `n` is not the start of a character (or past the end).
pub open spec fn drop_bytes(s: Seq<char>, n: nat) -> Option<Seq<char>>
    decreases s.len(),
{
    if n == 0 {
        Some(s)
    } else if s.len() == 0 {
        None
    } else if utf8_len(s[0]) <= n {
        drop_bytes(s.drop_first(), (n - utf8_len(s[0])) as nat)
    } else {
        None
    }
}

/// `ident`
pub open spec fn p_ident(ts: Seq<TokenV>, i: int) -> Parse<Seq<char>> {
    match consume(ts, i, TokenKind::Identifier, "expected an identifier"@) {
        Ok((t, j)) => Ok((t.lexeme, j)),
        Err(e) => Err(e),
    }
}

/// `:: ident` repeated, after the first identifier of a path.
pub open spec fn p_path_rest(ts: Seq<TokenV>, i: int, acc: Seq<Seq<char>>) -> Parse<Seq<Seq<char>>>
    decreases ts.len() - i,
{
    if check(ts, i, TokenKind::PathSep) {
        match p_ident(ts, i + 1) {
            Ok((id, j)) => p_path_rest(ts, j, acc.push(id)),
            Err(e) => Err(e),
        }
    } else {
        Ok((acc, i))
    }
}

/// `ident (:: ident)*`
pub open spec fn p_path(ts: Seq<TokenV>, i: int) -> Parse<Seq<Seq<char>>> {
    match p_ident(ts, i) {
        Ok((id, j)) => p_path_rest(ts, j, seq![id]),
        Err(e) => Err(e),
    }
}

/// `%name`: the name is the lexeme without its first byte.
pub open spec fn p_local(ts: Seq<TokenV>, i: int) -> Parse<Seq<char>> {
    match consume(ts, i, TokenKind::Local, "expected a local (%name)"@) {
        Ok((t, j)) => Ok((drop_bytes(t.lexeme, 1).unwrap(), j)),
        Err(e) => Err(e),
    }
}

/// The value of an ASCII decimal digit.
pub open spec fn digit_value(c: char) -> Option<u32> {
    if '0' <= c && c <= '9' {
        Some((c as u32 - '0' as u32) as u32)
    } else {
        None
    }
}

/// The digits of a label's number, or the error for the first character
/// that is not a digit (reported at token `at`).
pub open spec fn label_digits(cs: Seq<char>, at: int) -> Result<Seq<u32>, SyntaxError>
    decreases cs.len(),
{
    if cs.len() == 0 {
        Ok(Seq::empty())
    } else {
        match digit_value(cs[0]) {
            None => Err(SyntaxError { msg: "invalid digit '"@ + seq![cs[0]] + "' in label"@, at, stop: at }),
            Some(d) => match label_digits(cs.drop_first(), at) {
                Ok(ds) => Ok(seq![d] + ds),
                Err(e) => Err(e),
            },
        }
    }
}

/// `bbN`: the digits of N (the lexeme without its first two bytes).
pub open spec fn p_label(ts: Seq<TokenV>, i: int) -> Parse<Seq<u32>> {
    match consume(ts, i, TokenKind::Label, "expected a label (bbN)"@) {
        Ok((t, j)) => match label_digits(drop_bytes(t.lexeme, 2).unwrap(), j) {
            Ok(ds) => Ok((ds, j)),
            Err(e) => Err(e),
        },
        Err(e) => Err(e),
    }
}

// ----------------------------- types -----------------------------

/// One of the primitive type names.
pub open spec fn p_primtype(ts: Seq<TokenV>, i: int) -> Parse<PrimType> {
    if check(ts, i, TokenKind::Bool) {
        Ok((PrimType::Bool, i + 1))
    } else if check(ts, i, TokenKind::I32) {
        Ok((PrimType::I32, i + 1))
    } else if check(ts, i, TokenKind::I64) {
        Ok((PrimType::I64, i + 1))
    } else if check(ts, i, TokenKind::U32) {
        Ok((PrimType::U32, i + 1))
    } else if check(ts, i, TokenKind::F64) {
        Ok((PrimType::F64, i + 1))
    } else {
        fail("expected a primitive type"@, i)
    }
}

/// The token at `i` names a primitive type.
pub open spec fn starts_primtype(ts: Seq<TokenV>, i: int) -> bool {
    check(ts, i, TokenKind::Bool) || check(ts, i, TokenKind::I32) || check(ts, i, TokenKind::I64)
        || check(ts, i, TokenKind::U32) || check(ts, i, TokenKind::F64)
}

/// `primtype | path | ptr < type >`
pub open spec fn p_type(ts: Seq<TokenV>, i: int) -> Parse<TypeV>
    decreases ts.len() - i,
{
    if starts_primtype(ts, i) {
        match p_primtype(ts, i) {
            Ok((p, j)) => Ok((TypeV::Prim(p), j)),
            Err(e) => Err(e),
        }
    } else if check(ts, i, TokenKind::Identifier) {
        match p_path(ts, i) {
            Ok((p, j)) => Ok((TypeV::Path(p), j)),
            Err(e) => Err(e),
        }
    } else if check(ts, i, TokenKind::Ptr) {
        if check(ts, i + 1, TokenKind::LessThan) {
            match p_type(ts, i + 2) {
                Ok((t, j)) => if check(ts, j, TokenKind::GreaterThan) {
                    Ok((TypeV::Ptr(Box::new(t)), j + 1))
                } else {
                    fail("expected >"@, j)
                },
                Err(e) => Err(e),
            }
        } else {
            fail("expected <"@, i + 1)
        }
    } else {
        fail("expected a type"@, i)
    }
}

/// `void | type`
pub open spec fn p_rettype(ts: Seq<TokenV>, i: int) -> Parse<RetTypeV> {
    if check(ts, i, TokenKind::Void) {
        Ok((RetTypeV::Void, i + 1))
    } else {
        match p_type(ts, i) {
            Ok((t, j)) => Ok((RetTypeV::Type(t), j)),
            Err(e) => Err(e),
        }
    }
}

// ----------------------------- declarations -----------------------------

/// `ident : type`
pub open spec fn p_field(ts: Seq<TokenV>, i: int) -> Parse<DeclV> {
    match p_ident(ts, i) {
        Ok((name, j)) => if check(ts, j, TokenKind::Colon) {
            match p_type(ts, j + 1) {
                Ok((t, k)) => Ok((DeclV { name, typ: t }, k)),
                Err(e) => Err(e),
            }
        } else {
            fail("expected :"@, j)
        },
        Err(e) => Err(e),
    }
}

/// `%local : type`
pub open spec fn p_param(ts: Seq<TokenV>, i: int) -> Parse<DeclV> {
    match p_local(ts, i) {
        Ok((name, j)) => if check(ts, j, TokenKind::Colon) {
            match p_type(ts, j + 1) {
                Ok((t, k)) => Ok((DeclV { name, typ: t }, k)),
                Err(e) => Err(e),
            }
        } else {
            fail("expected : between identifier and type"@, j)
        },
        Err(e) => Err(e),
    }
}

/// `, param` repeated.
pub open spec fn p_params_rest(ts: Seq<TokenV>, i: int, acc: Seq<DeclV>) -> Parse<Seq<DeclV>>
    decreases ts.len() - i,
{
    if check(ts, i, TokenKind::Comma) {
        match p_param(ts, i + 1) {
            Ok((p, j)) => {
                proof {
                    lemma_param_advances(ts, i + 1);
                }
                p_params_rest(ts, j, acc.push(p))
            },
            Err(e) => Err(e),
        }
    } else {
        Ok((acc, i))
    }
}

/// `param (, param)*`
pub open spec fn p_params(ts: Seq<TokenV>, i: int) -> Parse<Seq<DeclV>> {
    match p_param(ts, i) {
        Ok((p, j)) => p_params_rest(ts, j, seq![p]),
        Err(e) => Err(e),
    }
}

/// `field ;` repeated while an identifier comes.
pub open spec fn p_fields(ts: Seq<TokenV>, i: int, acc: Seq<DeclV>) -> Parse<Seq<DeclV>>
    decreases ts.len() - i,
{
    if check(ts, i, TokenKind::Identifier) {
        match p_field(ts, i) {
            Ok((f, j)) => if check(ts, j, TokenKind::SemiColon) {
                proof {
                    lemma_field_advances(ts, i);
                }
                p_fields(ts, j + 1, acc.push(f))
            } else {
                fail("expected ;"@, j)
            },
            Err(e) => Err(e),
        }
    } else {
        Ok((acc, i))
    }
}

/// `extern type path { fields }`
pub open spec fn p_externtype(ts: Seq<TokenV>, i: int) -> Parse<ExternTypeV> {
    if !check(ts, i, TokenKind::Extern) {
        fail("expected 'extern'"@, i)
    } else if !check(ts, i + 1, TokenKind::Type) {
        fail("expected 'type' after 'extern'"@, i + 1)
    } else {
        match p_path(ts, i + 2) {
            Ok((path, j)) => if !check(ts, j, TokenKind::LCurly) {
                fail("expected {"@, j)
            } else {
                match p_fields(ts, j + 1, Seq::empty()) {
                    Ok((fields, k)) => if !check(ts, k, TokenKind::RCurly) {
                        fail("expected }"@, k)
                    } else {
                        Ok((ExternTypeV { path, fields }, k + 1))
                    },
                    Err(e) => Err(e),
                }
            },
            Err(e) => Err(e),
        }
    }
}


// ----------------------------- progress -----------------------------

/// The position after a successful parse (0 after an error).
pub open spec fn end_of<X>(r: Parse<X>) -> int {
    match r {
        Ok((_, j)) => j,
        Err(_) => 0,
    }
}

/// A successful rule has taken at least one token, and no more than there are.
pub open spec fn advances<X>(r: Parse<X>, ts: Seq<TokenV>, i: int) -> bool {
    r is Ok ==> 0 <= i < end_of(r) <= ts.len()
}

/// A successful repetition stays within the tokens.
pub open spec fn keeps_within<X>(r: Parse<X>, ts: Seq<TokenV>, i: int) -> bool {
    r is Ok ==> i <= end_of(r) && (0 <= i <= ts.len() ==> end_of(r) <= ts.len())
}

pub proof fn lemma_path_advances(ts: Seq<TokenV>, i: int)
    ensures
        advances(p_path(ts, i), ts, i),
{
    if p_ident(ts, i) is Ok {
        lemma_path_rest_within(ts, i + 1, seq![ts[i].lexeme]);
    }
}

pub proof fn lemma_path_rest_within(ts: Seq<TokenV>, i: int, acc: Seq<Seq<char>>)
    ensures
        keeps_within(p_path_rest(ts, i, acc), ts, i),
    decreases ts.len() - i,
{
    if check(ts, i, TokenKind::PathSep) {
        if p_ident(ts, i + 1) is Ok {
            lemma_path_rest_within(ts, i + 2, acc.push(ts[i + 1].lexeme));
        }
    }
}

pub proof fn lemma_type_advances(ts: Seq<TokenV>, i: int)
    ensures
        advances(p_type(ts, i), ts, i),
    decreases ts.len() - i,
{
    if starts_primtype(ts, i) {
    } else if check(ts, i, TokenKind::Identifier) {
        lemma_path_advances(ts, i);
    } else if check(ts, i, TokenKind::Ptr) {
        if check(ts, i + 1, TokenKind::LessThan) {
            lemma_type_advances(ts, i + 2);
        }
    }
}

pub proof fn lemma_param_advances(ts: Seq<TokenV>, i: int)
    ensures
        advances(p_param(ts, i), ts, i),
{
    if p_local(ts, i) is Ok && check(ts, i + 1, TokenKind::Colon) {
        lemma_type_advances(ts, i + 2);
    }
}

pub proof fn lemma_field_advances(ts: Seq<TokenV>, i: int)
    ensures
        advances(p_field(ts, i), ts, i),
{
    if p_ident(ts, i) is Ok && check(ts, i + 1, TokenKind::Colon) {
        lemma_type_advances(ts, i + 2);
    }
}

pub proof fn lemma_fields_within(ts: Seq<TokenV>, i: int, acc: Seq<DeclV>)
    ensures
        keeps_within(p_fields(ts, i, acc), ts, i),
    decreases ts.len() - i,
{
    if check(ts, i, TokenKind::Identifier) {
        lemma_field_advances(ts, i);
        match p_field(ts, i) {
            Ok((f, j)) => if check(ts, j, TokenKind::SemiColon) {
                lemma_fields_within(ts, j + 1, acc.push(f));
            },
            Err(_) => {},
        }
    }
}

pub proof fn lemma_externtype_advances(ts: Seq<TokenV>, i: int)
    ensures
        advances(p_externtype(ts, i), ts, i),
{
    if check(ts, i, TokenKind::Extern) && check(ts, i + 1, TokenKind::Type) {
        lemma_path_advances(ts, i + 2);
        match p_path(ts, i + 2) {
            Ok((_, j)) => if check(ts, j, TokenKind::LCurly) {
                lemma_fields_within(ts, j + 1, Seq::empty());
            },
            Err(_) => {},
        }
    }
}

pub proof fn lemma_args_rest_within(ts: Seq<TokenV>, i: int, acc: Seq<Seq<char>>)
    ensures
        keeps_within(p_args_rest(ts, i, acc), ts, i),
    decreases ts.len() - i,
{
    if check(ts, i, TokenKind::Comma) {
        match p_local(ts, i + 1) {
            Ok((l, j)) => lemma_args_rest_within(ts, j, acc.push(l)),
            Err(_) => {},
        }
    }
}

pub proof fn lemma_call_advances(ts: Seq<TokenV>, i: int)
    ensures
        advances(p_call(ts, i), ts, i),
{
    lemma_path_advances(ts, i);
    match p_path(ts, i) {
        Ok((_, j)) => if check(ts, j, TokenKind::LBracket) && !check(ts, j + 1, TokenKind::RBracket) {
            match p_local(ts, j + 1) {
                Ok((l, k)) => lemma_args_rest_within(ts, k, seq![l]),
                Err(_) => {},
            }
        },
        Err(_) => {},
    }
}

pub proof fn lemma_rhs_advances(ts: Seq<TokenV>, i: int)
    ensures
        advances(p_rhs(ts, i), ts, i),
{
    if check(ts, i, TokenKind::Local) {
    } else if check(ts, i, TokenKind::Const) {
    } else if check(ts, i, TokenKind::Cast) {
        match p_local(ts, i + 1) {
            Ok((_, j)) => lemma_type_advances(ts, j + 1),
            Err(_) => {},
        }
    } else if check(ts, i, TokenKind::Call) {
        lemma_call_advances(ts, i + 1);
    }
}

pub proof fn lemma_stmt_advances(ts: Seq<TokenV>, i: int)
    ensures
        advances(p_stmt(ts, i), ts, i),
{
    lemma_rhs_advances(ts, i);
    lemma_rhs_advances(ts, i + 2);
}

pub proof fn lemma_stmts_within(ts: Seq<TokenV>, i: int, acc: Seq<StmtV>)
    ensures
        keeps_within(p_stmts(ts, i, acc), ts, i),
    decreases ts.len() - i,
{
    if !ends_statements(ts, i) {
        lemma_stmt_advances(ts, i);
        match p_stmt(ts, i) {
            Ok((s, j)) => if check(ts, j, TokenKind::SemiColon) {
                lemma_stmts_within(ts, j + 1, acc.push(s));
            },
            Err(_) => {},
        }
    }
}

pub proof fn lemma_term_advances(ts: Seq<TokenV>, i: int)
    ensures
        advances(p_term(ts, i), ts, i),
{
}

pub proof fn lemma_block_advances(ts: Seq<TokenV>, i: int)
    ensures
        advances(p_block(ts, i), ts, i),
{
    match p_label(ts, i) {
        Ok((_, j)) => if check(ts, j, TokenKind::Colon) {
            lemma_stmts_within(ts, j + 1, Seq::empty());
            match p_stmts(ts, j + 1, Seq::empty()) {
                Ok((_, k)) => lemma_term_advances(ts, k),
                Err(_) => {},
            }
        },
        Err(_) => {},
    }
}

// ----------------------------- statements -----------------------------

/// The operand of `un`: an identifier spelling `neg` or `not`.
pub open spec fn p_unop(ts: Seq<TokenV>, i: int) -> Parse<UnOp> {
    match consume(ts, i, TokenKind::Identifier, "expected a unary operator "@) {
        Ok((t, j)) => if t.lexeme == "neg"@ {
            Ok((UnOp::Neg, j))
        } else if t.lexeme == "not"@ {
            Ok((UnOp::Not, j))
        } else {
            Err(SyntaxError { msg: "unknown unary operator '"@ + t.lexeme + "'"@, at: i, stop: j })
        },
        Err(e) => Err(e),
    }
}

/// The binary operator that a word spells.
pub open spec fn binop_of(s: Seq<char>) -> Option<BinOp> {
    if s == "add"@ {
        Some(BinOp::Add)
    } else if s == "sub"@ {
        Some(BinOp::Sub)
    } else if s == "mul"@ {
        Some(BinOp::Mul)
    } else if s == "div"@ {
        Some(BinOp::Div)
    } else if s == "mod"@ {
        Some(BinOp::Mod)
    } else if s == "eq"@ {
        Some(BinOp::Eq)
    } else if s == "ne"@ {
        Some(BinOp::Ne)
    } else if s == "lt"@ {
        Some(BinOp::Lt)
    } else if s == "le"@ {
        Some(BinOp::Le)
    } else if s == "gt"@ {
        Some(BinOp::Gt)
    } else if s == "ge"@ {
        Some(BinOp::Ge)
    } else if s == "and"@ {
        Some(BinOp::And)
    } else if s == "or"@ {
        Some(BinOp::Or)
    } else {
        None
    }
}

/// An ASCII capital letter in lower case; any other character as it is.
pub open spec fn ascii_lower(c: char) -> char {
    if 'A' <= c && c <= 'Z' {
        ((c as u32) + 32) as char
    } else {
        c
    }
}

/// A text with its ASCII capital letters in lower case.
pub open spec fn ascii_lowercase(s: Seq<char>) -> Seq<char> {
    s.map_values(|c: char| ascii_lower(c))
}

/// The word after `bin` names its operator: a word is read as an operator
/// exactly when it is the operator's name in lower case (`ge` for `Ge`), so
/// different words give different operators and every operator has a word.
pub proof fn law_binop_words(w: Seq<char>, op: BinOp)
    ensures
        binop_of(w) == Some(op) <==> w == ascii_lowercase(binop_name(op)),
{
    reveal_strlit("add");
    reveal_strlit("Add");
    reveal_strlit("sub");
    reveal_strlit("Sub");
    reveal_strlit("mul");
    reveal_strlit("Mul");
    reveal_strlit("div");
    reveal_strlit("Div");
    reveal_strlit("mod");
    reveal_strlit("Mod");
    reveal_strlit("eq");
    reveal_strlit("Eq");
    reveal_strlit("ne");
    reveal_strlit("Ne");
    reveal_strlit("lt");
    reveal_strlit("Lt");
    reveal_strlit("le");
    reveal_strlit("Le");
    reveal_strlit("gt");
    reveal_strlit("Gt");
    reveal_strlit("ge");
    reveal_strlit("Ge");
    reveal_strlit("and");
    reveal_strlit("And");
    reveal_strlit("or");
    reveal_strlit("Or");
    assert(ascii_lowercase("Add"@) =~= "add"@);
    assert(ascii_lowercase("Sub"@) =~= "sub"@);
    assert(ascii_lowercase("Mul"@) =~= "mul"@);
    assert(ascii_lowercase("Div"@) =~= "div"@);
    assert(ascii_lowercase("Mod"@) =~= "mod"@);
    assert(ascii_lowercase("Eq"@) =~= "eq"@);
    assert(ascii_lowercase("Ne"@) =~= "ne"@);
    assert(ascii_lowercase("Lt"@) =~= "lt"@);
    assert(ascii_lowercase("Le"@) =~= "le"@);
    assert(ascii_lowercase("Gt"@) =~= "gt"@);
    assert(ascii_lowercase("Ge"@) =~= "ge"@);
    assert(ascii_lowercase("And"@) =~= "and"@);
    assert(ascii_lowercase("Or"@) =~= "or"@);
    assert("add"@.len() == 3 && "add"@[0] == 'a' && "add"@[1] == 'd' && "add"@[2] == 'd');
    assert("sub"@.len() == 3 && "sub"@[0] == 's' && "sub"@[1] == 'u' && "sub"@[2] == 'b');
    assert("mul"@.len() == 3 && "mul"@[0] == 'm' && "mul"@[1] == 'u' && "mul"@[2] == 'l');
    assert("div"@.len() == 3 && "div"@[0] == 'd' && "div"@[1] == 'i' && "div"@[2] == 'v');
    assert("mod"@.len() == 3 && "mod"@[0] == 'm' && "mod"@[1] == 'o' && "mod"@[2] == 'd');
    assert("eq"@.len() == 2 && "eq"@[0] == 'e' && "eq"@[1] == 'q');
    assert("ne"@.len() == 2 && "ne"@[0] == 'n' && "ne"@[1] == 'e');
    assert("lt"@.len() == 2 && "lt"@[0] == 'l' && "lt"@[1] == 't');
    assert("le"@.len() == 2 && "le"@[0] == 'l' && "le"@[1] == 'e');
    assert("gt"@.len() == 2 && "gt"@[0] == 'g' && "gt"@[1] == 't');
    assert("ge"@.len() == 2 && "ge"@[0] == 'g' && "ge"@[1] == 'e');
    assert("and"@.len() == 3 && "and"@[0] == 'a' && "and"@[1] == 'n' && "and"@[2] == 'd');
    assert("or"@.len() == 2 && "or"@[0] == 'o' && "or"@[1] == 'r');
    match op {
        BinOp::Add => {},
        BinOp::Sub => {},
        BinOp::Mul => {},
        BinOp::Div => {},
        BinOp::Mod => {},
        BinOp::Eq => {},
        BinOp::Ne => {},
        BinOp::Lt => {},
        BinOp::Le => {},
        BinOp::Gt => {},
        BinOp::Ge => {},
        BinOp::And => {},
        BinOp::Or => {},
    }
}

/// The operand of `bin`: an identifier spelling a binary operator.
pub open spec fn p_binop(ts: Seq<TokenV>, i: int) -> Parse<BinOp> {
    match consume(ts, i, TokenKind::Identifier, "expected a binary operator"@) {
        Ok((t, j)) => match binop_of(t.lexeme) {
            Some(op) => Ok((op, j)),
            None => Err(SyntaxError { msg: "unknown binary operator '"@ + t.lexeme + "'"@, at: i, stop: j }),
        },
        Err(e) => Err(e),
    }
}

/// `integer | float | true | false | null`
pub open spec fn p_literal(ts: Seq<TokenV>, i: int) -> Parse<LiteralV> {
    if check(ts, i, TokenKind::IntegerLiteral) {
        match spec_parse_i64(ts[i].lexeme) {
            Some(v) => Ok((LiteralV::Int(v), i + 1)),
            None => fail("invalid integer literal"@, i + 1),
        }
    } else if check(ts, i, TokenKind::FloatLiteral) {
        if is_float_text(ts[i].lexeme) {
            Ok((LiteralV::Float(ts[i].lexeme), i + 1))
        } else {
            fail("invalid float literal"@, i + 1)
        }
    } else if check(ts, i, TokenKind::True) {
        Ok((LiteralV::True, i + 1))
    } else if check(ts, i, TokenKind::False) {
        Ok((LiteralV::False, i + 1))
    } else if check(ts, i, TokenKind::Null) {
        Ok((LiteralV::Null, i + 1))
    } else {
        fail("expected a literal"@, i)
    }
}

/// `, %local` repeated.
pub open spec fn p_args_rest(ts: Seq<TokenV>, i: int, acc: Seq<Seq<char>>) -> Parse<Seq<Seq<char>>>
    decreases ts.len() - i,
{
    if check(ts, i, TokenKind::Comma) {
        match p_local(ts, i + 1) {
            Ok((l, j)) => p_args_rest(ts, j, acc.push(l)),
            Err(e) => Err(e),
        }
    } else {
        Ok((acc, i))
    }
}

/// `%local (, %local)*`
pub open spec fn p_args(ts: Seq<TokenV>, i: int) -> Parse<Seq<Seq<char>>> {
    match p_local(ts, i) {
        Ok((l, j)) => p_args_rest(ts, j, seq![l]),
        Err(e) => Err(e),
    }
}

/// Two locals separated by a comma: `%a , %b`.
pub open spec fn p_two_locals(ts: Seq<TokenV>, i: int) -> Parse<(Seq<char>, Seq<char>)> {
    match p_local(ts, i) {
        Ok((a, j)) => if !check(ts, j, TokenKind::Comma) {
            fail("expected ','"@, j)
        } else {
            match p_local(ts, j + 1) {
                Ok((b, k)) => Ok(((a, b), k)),
                Err(e) => Err(e),
            }
        },
        Err(e) => Err(e),
    }
}

/// `call path ( [args] )`, after the `call` keyword.
pub open spec fn p_call(ts: Seq<TokenV>, i: int) -> Parse<RhsV> {
    match p_path(ts, i) {
        Ok((path, j)) => if !check(ts, j, TokenKind::LBracket) {
            fail("expected '('"@, j)
        } else if check(ts, j + 1, TokenKind::RBracket) {
            Ok((RhsV::Call(path, None), j + 2))
        } else {
            match p_args(ts, j + 1) {
                Ok((args, k)) => if !check(ts, k, TokenKind::RBracket) {
                    fail("expected ')'"@, k)
                } else {
                    Ok((RhsV::Call(path, Some(args)), k + 1))
                },
                Err(e) => Err(e),
            }
        },
        Err(e) => Err(e),
    }
}

/// The right-hand side of a statement, chosen by its first token.
pub open spec fn p_rhs(ts: Seq<TokenV>, i: int) -> Parse<RhsV> {
    if check(ts, i, TokenKind::Local) {
        match p_local(ts, i) {
            Ok((l, j)) => Ok((RhsV::Use(l), j)),
            Err(e) => Err(e),
        }
    } else if check(ts, i, TokenKind::Const) {
        match p_literal(ts, i + 1) {
            Ok((lit, j)) => Ok((RhsV::Const(lit), j)),
            Err(e) => Err(e),
        }
    } else if check(ts, i, TokenKind::Cast) {
        match p_local(ts, i + 1) {
            Ok((l, j)) => if !check(ts, j, TokenKind::To) {
                fail("expected 'to'"@, j)
            } else {
                match p_type(ts, j + 1) {
                    Ok((t, k)) => Ok((RhsV::Cast(l, t), k)),
                    Err(e) => Err(e),
                }
            },
            Err(e) => Err(e),
        }
    } else if check(ts, i, TokenKind::Un) {
        match p_unop(ts, i + 1) {
            Ok((op, j)) => match p_local(ts, j) {
                Ok((l, k)) => Ok((RhsV::Un(op, l), k)),
                Err(e) => Err(e),
            },
            Err(e) => Err(e),
        }
    } else if check(ts, i, TokenKind::Bin) {
        match p_binop(ts, i + 1) {
            Ok((op, j)) => match p_two_locals(ts, j) {
                Ok(((a, b), k)) => Ok((RhsV::Bin(op, a, b), k)),
                Err(e) => Err(e),
            },
            Err(e) => Err(e),
        }
    } else if check(ts, i, TokenKind::Addr_of) {
        match p_local(ts, i + 1) {
            Ok((l, j)) => Ok((RhsV::AddrOf(l), j)),
            Err(e) => Err(e),
        }
    } else if check(ts, i, TokenKind::Member_ptr) {
        match p_local(ts, i + 1) {
            Ok((l, j)) => if !check(ts, j, TokenKind::Comma) {
                fail("expected ','"@, j)
            } else {
                match p_ident(ts, j + 1) {
                    Ok((f, k)) => Ok((RhsV::MemberPtr(l, f), k)),
                    Err(e) => Err(e),
                }
            },
            Err(e) => Err(e),
        }
    } else if check(ts, i, TokenKind::Load) {
        match p_local(ts, i + 1) {
            Ok((l, j)) => Ok((RhsV::Load(l), j)),
            Err(e) => Err(e),
        }
    } else if check(ts, i, TokenKind::Store) {
        match p_two_locals(ts, i + 1) {
            Ok(((a, b), k)) => Ok((RhsV::Store(a, b), k)),
            Err(e) => Err(e),
        }
    } else if check(ts, i, TokenKind::Call) {
        p_call(ts, i + 1)
    } else {
        fail("expected a statement"@, i)
    }
}

/// `[%local =] rhs`: a destination is there when `=` follows the first token.
pub open spec fn p_stmt(ts: Seq<TokenV>, i: int) -> Parse<StmtV> {
    let next = if at_end(ts, i) { i } else { i + 1 };
    if check(ts, next, TokenKind::Equals) {
        match p_local(ts, i) {
            Ok((l, j)) => if !check(ts, j, TokenKind::Equals) {
                fail("Expected = "@, j)
            } else {
                match p_rhs(ts, j + 1) {
                    Ok((rhs, k)) => Ok((StmtV { local: Some(l), rhs }, k)),
                    Err(e) => Err(e),
                }
            },
            Err(e) => Err(e),
        }
    } else {
        match p_rhs(ts, i) {
            Ok((rhs, k)) => Ok((StmtV { local: None, rhs }, k)),
            Err(e) => Err(e),
        }
    }
}

/// `jump label | cjump %local, label, label | return [%local]`
pub open spec fn p_term(ts: Seq<TokenV>, i: int) -> Parse<TermV> {
    if check(ts, i, TokenKind::Jump) {
        match p_label(ts, i + 1) {
            Ok((l, j)) => Ok((TermV::Jump(l), j)),
            Err(e) => Err(e),
        }
    } else if check(ts, i, TokenKind::CJump) {
        match p_local(ts, i + 1) {
            Ok((c, j)) => if !check(ts, j, TokenKind::Comma) {
                fail("expected ,"@, j)
            } else {
                match p_label(ts, j + 1) {
                    Ok((a, k)) => if !check(ts, k, TokenKind::Comma) {
                        fail("expected ,"@, k)
                    } else {
                        match p_label(ts, k + 1) {
                            Ok((b, m)) => Ok((TermV::CJump(c, a, b), m)),
                            Err(e) => Err(e),
                        }
                    },
                    Err(e) => Err(e),
                }
            },
            Err(e) => Err(e),
        }
    } else if check(ts, i, TokenKind::Return) {
        if check(ts, i + 1, TokenKind::Local) {
            match p_local(ts, i + 1) {
                Ok((l, j)) => Ok((TermV::Return(Some(l)), j)),
                Err(e) => Err(e),
            }
        } else {
            Ok((TermV::Return(None), i + 1))
        }
    } else {
        fail("expected a terminator (jump, cjump, or return)"@, i)
    }
}

/// The token at `i` ends the statements of a block.
pub open spec fn ends_statements(ts: Seq<TokenV>, i: int) -> bool {
    check(ts, i, TokenKind::Jump) || check(ts, i, TokenKind::CJump) || check(ts, i, TokenKind::Return)
        || at_end(ts, i)
}

/// `stmt ;` repeated until a terminator (or the end of the input).
pub open spec fn p_stmts(ts: Seq<TokenV>, i: int, acc: Seq<StmtV>) -> Parse<Seq<StmtV>>
    decreases ts.len() - i,
{
    if ends_statements(ts, i) {
        Ok((acc, i))
    } else {
        match p_stmt(ts, i) {
            Ok((s, j)) => if !check(ts, j, TokenKind::SemiColon) {
                fail("unterminated statement... perhaps you forgot a ;?"@, j)
            } else {
                proof {
                    lemma_stmt_advances(ts, i);
                }
                p_stmts(ts, j + 1, acc.push(s))
            },
            Err(e) => Err(e),
        }
    }
}

/// `label : stmts term ;`
pub open spec fn p_block(ts: Seq<TokenV>, i: int) -> Parse<BlockV> {
    match p_label(ts, i) {
        Ok((label, j)) => if !check(ts, j, TokenKind::Colon) {
            fail("expected  :"@, j)
        } else {
            match p_stmts(ts, j + 1, Seq::empty()) {
                Ok((stmts, k)) => match p_term(ts, k) {
                    Ok((term, m)) => if !check(ts, m, TokenKind::SemiColon) {
                        fail("expected ; after a block terminator!"@, m)
                    } else {
                        Ok((BlockV { label, stmts, term }, m + 1))
                    },
                    Err(e) => Err(e),
                },
                Err(e) => Err(e),
            }
        },
        Err(e) => Err(e),
    }
}

/// Blocks, while a label comes.
pub open spec fn p_blocks(ts: Seq<TokenV>, i: int, acc: Seq<BlockV>) -> Parse<Seq<BlockV>>
    decreases ts.len() - i,
{
    if check(ts, i, TokenKind::Label) {
        match p_block(ts, i) {
            Ok((b, j)) => {
                proof {
                    lemma_block_advances(ts, i);
                }
                p_blocks(ts, j, acc.push(b))
            },
            Err(e) => Err(e),
        }
    } else {
        Ok((acc, i))
    }
}

/// `%local : type ;` repeated while a local comes.
pub open spec fn p_locals(ts: Seq<TokenV>, i: int, acc: Seq<DeclV>) -> Parse<Seq<DeclV>>
    decreases ts.len() - i,
{
    if check(ts, i, TokenKind::Local) {
        match p_local(ts, i) {
            Ok((l, j)) => if !check(ts, j, TokenKind::Colon) {
                fail("expected : "@, j)
            } else {
                match p_type(ts, j + 1) {
                    Ok((t, k)) => if !check(ts, k, TokenKind::SemiColon) {
                        fail("expected ; after specifying type!"@, k)
                    } else {
                        proof {
                            lemma_type_advances(ts, j + 1);
                        }
                        p_locals(ts, k + 1, acc.push(DeclV { name: l, typ: t }))
                    },
                    Err(e) => Err(e),
                }
            },
            Err(e) => Err(e),
        }
    } else {
        Ok((acc, i))
    }
}

/// The parameter list between the brackets (absent when `)` comes at once),
/// up to and including `)`.
pub open spec fn p_param_list(ts: Seq<TokenV>, i: int) -> Parse<Option<Seq<DeclV>>> {
    if check(ts, i, TokenKind::RBracket) {
        Ok((None, i + 1))
    } else {
        match p_params(ts, i) {
            Ok((ps, j)) => if !check(ts, j, TokenKind::RBracket) {
                fail("expected )"@, j)
            } else {
                Ok((Some(ps), j + 1))
            },
            Err(e) => Err(e),
        }
    }
}

/// The body of a function from `locals` on: the locals, the entry label and
/// the blocks, up to and including the closing `}`.
pub open spec fn p_body(ts: Seq<TokenV>, i: int) -> Parse<(Seq<DeclV>, Seq<u32>, Seq<BlockV>)> {
    if !check(ts, i, TokenKind::Locals) {
        fail("expected Locals"@, i)
    } else if !check(ts, i + 1, TokenKind::LCurly) {
        fail("expected {"@, i + 1)
    } else {
        match p_locals(ts, i + 2, Seq::empty()) {
            Ok((locals, j)) => if !check(ts, j, TokenKind::RCurly) {
                fail("expected } "@, j)
            } else if !check(ts, j + 1, TokenKind::Entry) {
                fail("expected 'entry' "@, j + 1)
            } else {
                match p_label(ts, j + 2) {
                    Ok((entry, k)) => if !check(ts, k, TokenKind::SemiColon) {
                        fail("expected ; after entry label"@, k)
                    } else {
                        match p_blocks(ts, k + 1, Seq::empty()) {
                            Ok((blocks, m)) => if !check(ts, m, TokenKind::RCurly) {
                                fail("expected }"@, m)
                            } else {
                                Ok(((locals, entry, blocks), m + 1))
                            },
                            Err(e) => Err(e),
                        }
                    },
                    Err(e) => Err(e),
                }
            },
            Err(e) => Err(e),
        }
    }
}

/// `function path ( [params] ) -> rettype { locals { ... } entry label; blocks }`
pub open spec fn p_function(ts: Seq<TokenV>, i: int) -> Parse<FunctionV> {
    if !check(ts, i, TokenKind::Function) {
        fail("expected 'function'"@, i)
    } else {
        match p_path(ts, i + 1) {
            Ok((path, j)) => if !check(ts, j, TokenKind::LBracket) {
                fail("expected ("@, j)
            } else {
                match p_param_list(ts, j + 1) {
                    Ok((params, k)) => if !check(ts, k, TokenKind::Arrow) {
                        fail("expected Arrow"@, k)
                    } else {
                        match p_rettype(ts, k + 1) {
                            Ok((rettype, m)) => if !check(ts, m, TokenKind::LCurly) {
                                fail("expected {"@, m)
                            } else {
                                match p_body(ts, m + 1) {
                                    Ok(((locals, entry, blocks), n)) => Ok((
                                        FunctionV { path, params, rettype, locals, entry, blocks },
                                        n,
                                    )),
                                    Err(e) => Err(e),
                                }
                            },
                            Err(e) => Err(e),
                        }
                    },
                    Err(e) => Err(e),
                }
            },
            Err(e) => Err(e),
        }
    }
}

/// Extern types, while `extern` comes.
pub open spec fn p_externtypes(ts: Seq<TokenV>, i: int, acc: Seq<ExternTypeV>) -> Parse<Seq<ExternTypeV>>
    decreases ts.len() - i,
{
    if check(ts, i, TokenKind::Extern) {
        match p_externtype(ts, i) {
            Ok((x, j)) => {
                proof {
                    lemma_externtype_advances(ts, i);
                }
                p_externtypes(ts, j, acc.push(x))
            },
            Err(e) => Err(e),
        }
    } else {
        Ok((acc, i))
    }
}

/// `externtype* function`, and nothing after the function.
pub open spec fn p_program(ts: Seq<TokenV>, i: int) -> Parse<ProgramV> {
    match p_externtypes(ts, i, Seq::empty()) {
        Ok((externtypes, j)) => match p_function(ts, j) {
            Ok((function, k)) => if !at_end(ts, k) {
                fail("nothing should be written after function"@, k)
            } else {
                Ok((ProgramV { externtypes, function }, k))
            },
            Err(e) => Err(e),
        },
        Err(e) => Err(e),
    }
}

/// A program parses only up to the end of the input: nothing may follow
/// the function.
pub proof fn law_program_reads_to_end(ts: Seq<TokenV>, i: int)
    ensures
        p_program(ts, i) matches Ok((_, j)) ==> at_end(ts, j),
{
}

} // verus!
