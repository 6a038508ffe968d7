//! The recursive-descent parser: it reads the lexer's tokens with one token
//! of lookahead (two before `=` in a statement) and builds the program, or
//! reports the first syntax error with its line and column. Each parsing
//! method follows the rule of the same name in `grammar`.

use vstd::prelude::*;
use crate::lexer::tokens::{Token, TokenAttribute, TokenKind, TokenV, token_values};
use crate::text::{push_text, push_char, push_decimal, chars_of, string_from_chars, text_is};
use super::ir::{Args, BinOp, Block, BlockV, DeclV, Digit, ExternType, ExternTypeV, Field, Function, FunctionV, Ident, Label, Literal, LiteralV, Local, Param, Params, Path, PrimType, Program, ProgramV, RetType, RetTypeV, Rhs, RhsV, Stmt, StmtV, Term, TermV, Type, TypeV, UnOp, block_values, digit_values, extern_values, field_values, ident_values, local_decl_values, local_values, param_values, stmt_values, type_value};
use super::grammar::{SyntaxError, Parse, render, fail, at_end, check, consume, utf8_len, drop_bytes, p_ident, p_path_rest, p_path, p_local, digit_value, label_digits, p_label, p_primtype, starts_primtype, p_type, p_rettype, p_field, p_param, p_params_rest, p_params, p_fields, p_externtype, end_of, advances, keeps_within, lemma_path_advances, lemma_path_rest_within, lemma_type_advances, lemma_param_advances, lemma_field_advances, lemma_fields_within, lemma_externtype_advances, lemma_args_rest_within, lemma_call_advances, lemma_rhs_advances, lemma_stmt_advances, lemma_stmts_within, lemma_term_advances, lemma_block_advances, p_unop, binop_of, p_binop, p_literal, p_args_rest, p_args, p_two_locals, p_call, p_rhs, p_stmt, p_term, ends_statements, p_stmts, p_block, p_blocks, p_locals, p_param_list, p_body, p_function, p_externtypes, p_program};
use super::literals::{parse_i64, is_float_literal};
use crate::lexer::lexer_core::{scan_source, law_single_end_of_file};

verus! {

/// A parser over a sequence of tokens, at the index of the next token.
pub struct Parser {
    tokens: Vec<Token>,
    current: usize,
}

/// No token before `k` ends the input.
pub open spec fn before_end(ts: Seq<TokenV>, k: int) -> bool {
    forall|m: int| 0 <= m < k ==> (#[trigger] ts[m]).kind != TokenKind::EndOfFile
}

/// Some token at `i` or after ends the input.
pub open spec fn end_ahead(ts: Seq<TokenV>, i: int) -> bool {
    exists|k: int| i <= k < ts.len() && (#[trigger] ts[k]).kind == TokenKind::EndOfFile
}

/// The lexemes that the parser cuts are whole characters: a local's first
/// byte and a label's first two bytes (up to the end of the input).
pub open spec fn lexemes_cut_cleanly(ts: Seq<TokenV>) -> bool {
    forall|k: int|
        0 <= k < ts.len() && before_end(ts, k) ==> {
            &&& (#[trigger] ts[k]).kind == TokenKind::Local ==> drop_bytes(ts[k].lexeme, 1) is Some
            &&& ts[k].kind == TokenKind::Label ==> drop_bytes(ts[k].lexeme, 2) is Some
        }
}

/// The tokens a parser can read from position `i` without running off them:
/// an `EndOfFile` token comes at `i` or later, and the locals and labels
/// before it can be cut as the parser cuts them.
pub open spec fn readable_from(ts: Seq<TokenV>, i: int) -> bool {
    &&& 0 <= i < ts.len()
    &&& before_end(ts, i)
    &&& end_ahead(ts, i)
    &&& lexemes_cut_cleanly(ts)
}

/// An executable result agrees with what a grammar rule gives: the same
/// value and the parser at the rule's end position, or the rendered error
/// and the parser where the rule stops.
pub open spec fn agrees<X: View>(r: Result<X, String>, s: Parse<X::V>, ts: Seq<TokenV>, pos: int) -> bool {
    match s {
        Ok((v, j)) => r matches Ok(x) && x@ == v && pos == j,
        Err(e) => r matches Err(m) && m@ == render(ts, e) && pos == e.stop,
    }
}

proof fn lemma_step(ts: Seq<TokenV>, i: int)
    requires
        readable_from(ts, i),
        !at_end(ts, i),
    ensures
        readable_from(ts, i + 1),
{
    let k = choose|k: int| i <= k < ts.len() && (#[trigger] ts[k]).kind == TokenKind::EndOfFile;
    assert(k != i);
    assert(i + 1 <= k < ts.len() && ts[k].kind == TokenKind::EndOfFile);
}

/// The number of UTF-8 bytes of a character.
fn utf8_len_of(c: char) -> (n: usize)
    ensures
        n == utf8_len(c),
{
    let code = c as u32;
    if code < 0x80 {
        1
    } else if code < 0x800 {
        2
    } else if code < 0x10000 {
        3
    } else {
        4
    }
}

/// The characters after the first `n` bytes of `s`, if byte `n` starts one.
fn after_bytes(s: &str, n: usize) -> (r: Option<Vec<char>>)
    ensures
        match drop_bytes(s@, n as nat) {
            Some(rest) => r matches Some(v) && v@ == rest,
            None => r is None,
        },
{
    let cs = chars_of(s);
    let mut i: usize = 0;
    let mut left: usize = n;
    assert(cs@.skip(0) =~= cs@);
    while left > 0
        invariant
            cs@ == s@,
            i <= cs@.len(),
            drop_bytes(s@, n as nat) == drop_bytes(cs@.skip(i as int), left as nat),
        decreases left,
    {
        if i >= cs.len() {
            return None;
        }
        let w = utf8_len_of(cs[i]);
        if w > left {
            return None;
        }
        proof {
            assert(cs@.skip(i as int).drop_first() =~= cs@.skip(i + 1));
        }
        left = left - w;
        i = i + 1;
    }
    let mut rest: Vec<char> = Vec::new();
    let mut k: usize = i;
    while k < cs.len()
        invariant
            i <= k <= cs@.len(),
            rest@ == cs@.subrange(i as int, k as int),
        decreases cs@.len() - k,
    {
        rest.push(cs[k]);
        k = k + 1;
        proof {
            assert(rest@ =~= cs@.subrange(i as int, k as int));
        }
    }
    proof {
        assert(rest@ =~= cs@.skip(i as int));
    }
    Some(rest)
}

impl Parser {
    /// The values of the tokens.
    pub closed spec fn toks(&self) -> Seq<TokenV> {
        token_values(self.tokens@)
    }

    /// The index of the next token.
    pub closed spec fn pos(&self) -> int {
        self.current as int
    }

    /// The parser can go on reading.
    pub open spec fn wf(&self) -> bool {
        readable_from(self.toks(), self.pos())
    }

    /// A parser at the first of the given tokens.
    pub fn new(tokens: Vec<Token>) -> (p: Parser)
        ensures
            p.toks() == token_values(tokens@),
            p.pos() == 0,
    {
        Parser { tokens, current: 0 }
    }

    /// `Syntax Error: {message} at Line: {line}, Col: {col}` for the next token.
    fn yell_error(&self, message: &str) -> (s: String)
        requires
            self.wf(),
        ensures
            s@ == render(self.toks(), SyntaxError { msg: message@, at: self.pos(), stop: self.pos() }),
    {
        self.error_at(message, self.current)
    }

    /// `Syntax Error: {message} at Line: {line}, Col: {col}` for token `at`.
    fn error_at(&self, message: &str, at: usize) -> (s: String)
        requires
            at < self.tokens@.len(),
        ensures
            s@ == render(self.toks(), SyntaxError { msg: message@, at: at as int, stop: at as int }),
    {
        let t = &self.tokens[at];
        let mut s = String::new();
        push_text(&mut s, "Syntax Error: ");
        push_text(&mut s, message);
        push_text(&mut s, " at Line: ");
        push_decimal(&mut s, t.token_attribute.line as u64);
        push_text(&mut s, ", Col: ");
        push_decimal(&mut s, t.token_attribute.col as u64);
        proof {
            assert(self.toks()[at as int] == self.tokens@[at as int]@);
            assert(s@ =~= render(self.toks(), SyntaxError { msg: message@, at: at as int, stop: at as int }));
        }
        s
    }

    /// The next token, not consumed.
    fn peek(&self) -> (t: &Token)
        requires
            self.wf(),
        ensures
            t@ == self.toks()[self.pos()],
    {
        &self.tokens[self.current]
    }

    /// Whether the next token ends the input.
    fn is_at_end(&self) -> (r: bool)
        requires
            self.wf(),
        ensures
            r == at_end(self.toks(), self.pos()),
    {
        self.peek().token_kind == TokenKind::EndOfFile
    }

    /// Whether the next token is of kind `kind` (never at the end of input).
    fn check_tokenkind(&self, kind: TokenKind) -> (r: bool)
        requires
            self.wf(),
        ensures
            r == check(self.toks(), self.pos(), kind),
    {
        if self.is_at_end() {
            return false;
        }
        self.peek().token_kind == kind
    }

    /// The token just consumed.
    fn get_previous_token(&self) -> (t: &Token)
        requires
            0 < self.pos() <= self.tokens@.len(),
        ensures
            t@ == self.toks()[self.pos() - 1],
    {
        &self.tokens[self.current - 1]
    }

    /// Consumes the next token (which is not the end of the input) and
    /// returns a copy of it.
    fn advance(&mut self) -> (t: Token)
        requires
            old(self).wf(),
            !at_end(old(self).toks(), old(self).pos()),
        ensures
            final(self).wf(),
            final(self).toks() == old(self).toks(),
            final(self).pos() == old(self).pos() + 1,
            t@ == old(self).toks()[old(self).pos()],
    {
        proof {
            lemma_step(self.toks(), self.pos());
            assert(self.toks().len() == self.tokens@.len());
        }
        let n = self.tokens.len();
        if !self.is_at_end() {
            proof {
                assert(self.current < n);
            }
            self.current = self.current + 1;
        }
        let prev = self.get_previous_token();
        Token {
            token_kind: prev.token_kind,
            token_attribute: TokenAttribute {
                line: prev.token_attribute.line,
                col: prev.token_attribute.col,
                lexeme: prev.token_attribute.lexeme.clone(),
            },
        }
    }

    /// Consumes the next token if it is of kind `kind`.
    fn match_token(&mut self, kind: TokenKind) -> (r: bool)
        requires
            old(self).wf(),
        ensures
            final(self).wf(),
            final(self).toks() == old(self).toks(),
            r == check(old(self).toks(), old(self).pos(), kind),
            final(self).pos() == old(self).pos() + if r { 1int } else { 0int },
    {
        if self.check_tokenkind(kind) {
            self.advance();
            return true;
        }
        false
    }

    /// Consumes and returns the next token if it is of kind `kind`; else the
    /// error `message` at the next token.
    fn consume_token(&mut self, kind: TokenKind, message: &str) -> (r: Result<Token, String>)
        requires
            old(self).wf(),
        ensures
            final(self).wf(),
            final(self).toks() == old(self).toks(),
            agrees(r, consume(old(self).toks(), old(self).pos(), kind, message@), old(self).toks(), final(self).pos()),
    {
        if self.check_tokenkind(kind) {
            return Ok(self.advance());
        }
        Err(self.yell_error(message))
    }
}

impl Parser {
    /// `ident`
    fn parse_ident(&mut self) -> (r: Result<Ident, String>)
        requires
            old(self).wf(),
        ensures
            final(self).wf(),
            final(self).toks() == old(self).toks(),
            agrees(r, p_ident(old(self).toks(), old(self).pos()), old(self).toks(), final(self).pos()),
    {
        let t = self.consume_token(TokenKind::Identifier, "expected an identifier")?;
        let string = t.token_attribute.lexeme;
        Ok(Ident { string })
    }

    /// `ident (:: ident)*`
    fn parse_path(&mut self) -> (r: Result<Path, String>)
        requires
            old(self).wf(),
        ensures
            final(self).wf(),
            final(self).toks() == old(self).toks(),
            agrees(r, p_path(old(self).toks(), old(self).pos()), old(self).toks(), final(self).pos()),
    {
        let ghost ts = self.toks();
        let ghost start = self.pos();
        let mut ident: Vec<Ident> = Vec::new();
        let ident_one = self.parse_ident()?;
        ident.push(ident_one);
        proof {
            assert(ident_values(ident@) =~= seq![ts[start].lexeme]);
        }
        while self.check_tokenkind(TokenKind::PathSep)
            invariant
                self.wf(),
                self.toks() == ts,
                ts == old(self).toks(),
                start == old(self).pos(),
                p_path(ts, start) == p_path_rest(ts, self.pos(), ident_values(ident@)),
            decreases ts.len() - self.pos(),
        {
            let ghost here = self.pos();
            let ghost before = ident@;
            self.consume_token(TokenKind::PathSep, "expected ::")?;
            let ident_rest = self.parse_ident()?;
            ident.push(ident_rest);
            proof {
                assert(ident_values(ident@) =~= ident_values(before).push(ts[here + 1].lexeme));
            }
        }
        Ok(Path { ident })
    }

    /// `%name`: the name is the lexeme without the `%`.
    fn parse_local(&mut self) -> (r: Result<Local, String>)
        requires
            old(self).wf(),
        ensures
            final(self).wf(),
            final(self).toks() == old(self).toks(),
            agrees(r, p_local(old(self).toks(), old(self).pos()), old(self).toks(), final(self).pos()),
    {
        let ghost ts = self.toks();
        let ghost start = self.pos();
        let local = self.consume_token(TokenKind::Local, "expected a local (%name)")?;
        proof {
            assert(ts[start] == local@);
        }
        let rest = after_bytes(local.token_attribute.lexeme.as_str(), 1);
        let name = match rest {
            Some(chars) => string_from_chars(&chars),
            None => String::new(),
        };
        Ok(Local { ident: Ident { string: name } })
    }

    /// A decimal digit of a label; else an error at the next token.
    fn parse_digit(&self, c: char) -> (r: Result<Digit, String>)
        requires
            self.wf(),
        ensures
            match digit_value(c) {
                Some(d) => r matches Ok(x) && x.digit == d,
                None => r matches Err(m) && m@ == render(
                    self.toks(),
                    SyntaxError { msg: "invalid digit '"@ + seq![c] + "' in label"@, at: self.pos(), stop: self.pos() },
                ),
            },
    {
        if '0' <= c && c <= '9' {
            let digit: u32 = c as u32 - '0' as u32;
            return Ok(Digit { digit });
        }
        let mut message = String::new();
        push_text(&mut message, "invalid digit '");
        push_char(&mut message, c);
        push_text(&mut message, "' in label");
        proof {
            assert(message@ =~= "invalid digit '"@ + seq![c] + "' in label"@);
        }
        Err(self.yell_error(message.as_str()))
    }

    /// `bbN`: the digits of N.
    fn parse_label(&mut self) -> (r: Result<Label, String>)
        requires
            old(self).wf(),
        ensures
            final(self).wf(),
            final(self).toks() == old(self).toks(),
            agrees(r, p_label(old(self).toks(), old(self).pos()), old(self).toks(), final(self).pos()),
    {
        let ghost ts = self.toks();
        let ghost start = self.pos();
        let label = self.consume_token(TokenKind::Label, "expected a label (bbN)")?;
        proof {
            assert(readable_from(ts, start));
            assert(ts[start].kind == TokenKind::Label);
            assert(drop_bytes(ts[start].lexeme, 2) is Some);
            assert(ts[start] == label@);
        }
        let mut digits: Vec<Digit> = Vec::new();
        let chars = match after_bytes(label.token_attribute.lexeme.as_str(), 2) {
            Some(chars) => chars,
            None => Vec::new(),
        };
        let ghost text = chars@;
        let mut i: usize = 0;
        proof {
            assert(text.skip(0) =~= text);
            match label_digits(text, start + 1) {
                Ok(ds) => {
                    assert(digit_values(digits@) + ds =~= ds);
                },
                Err(_) => {},
            }
        }
        while i < chars.len()
            invariant
                self.wf(),
                self.toks() == ts,
                ts == old(self).toks(),
                start == old(self).pos(),
                self.pos() == start + 1,
                text == chars@,
                check(ts, start, TokenKind::Label),
                drop_bytes(ts[start].lexeme, 2) is Some,
                text == drop_bytes(ts[start].lexeme, 2).unwrap(),
                i <= chars@.len(),
                label_digits(text, start + 1) == match label_digits(text.skip(i as int), start + 1) {
                    Ok(ds) => Ok(digit_values(digits@) + ds),
                    Err(e) => Err(e),
                },
            decreases chars@.len() - i,
        {
            let ghost before = digits@;
            proof {
                assert(text.skip(i as int).drop_first() =~= text.skip(i + 1));
                assert(text.skip(i as int)[0] == chars@[i as int]);
            }
            let digit = match self.parse_digit(chars[i]) {
                Ok(d) => d,
                Err(e) => {
                    proof {
                        let rest = text.skip(i as int);
                        assert(digit_value(rest[0]) is None);
                        assert(label_digits(rest, start + 1) == Err::<Seq<u32>, SyntaxError>(SyntaxError {
                            msg: "invalid digit '"@ + seq![rest[0]] + "' in label"@,
                            at: start + 1,
                            stop: start + 1,
                        }));
                        assert(label_digits(text, start + 1) == label_digits(rest, start + 1));
                        assert(text == drop_bytes(ts[start].lexeme, 2).unwrap());
                        assert(p_label(ts, start) is Err);
                    }
                    return Err(e);
                },
            };
            digits.push(digit);
            proof {
                assert(digit_values(digits@) =~= digit_values(before) + seq![digit.digit]);
                match label_digits(text.skip(i + 1), start + 1) {
                    Ok(ds) => {
                        assert(digit_values(digits@) + ds =~= digit_values(before) + (seq![digit.digit] + ds));
                    },
                    Err(_) => {},
                }
            }
            i = i + 1;
        }
        proof {
            assert(text.skip(i as int) =~= Seq::<char>::empty());
            assert(digit_values(digits@) + Seq::<u32>::empty() =~= digit_values(digits@));
        }
        Ok(Label { digits })
    }

    /// One of the primitive type names.
    fn parse_primtype(&mut self) -> (r: Result<PrimType, String>)
        requires
            old(self).wf(),
        ensures
            final(self).wf(),
            final(self).toks() == old(self).toks(),
            agrees(r, p_primtype(old(self).toks(), old(self).pos()), old(self).toks(), final(self).pos()),
    {
        if self.check_tokenkind(TokenKind::Bool) {
            self.consume_token(TokenKind::Bool, "expected bool")?;
            return Ok(PrimType::Bool);
        }
        if self.check_tokenkind(TokenKind::I32) {
            self.consume_token(TokenKind::I32, "expected i32")?;
            return Ok(PrimType::I32);
        }
        if self.check_tokenkind(TokenKind::I64) {
            self.consume_token(TokenKind::I64, "expected i64")?;
            return Ok(PrimType::I64);
        }
        if self.check_tokenkind(TokenKind::U32) {
            self.consume_token(TokenKind::U32, "expected u32")?;
            return Ok(PrimType::U32);
        }
        if self.check_tokenkind(TokenKind::F64) {
            self.consume_token(TokenKind::F64, "expected f64")?;
            return Ok(PrimType::F64);
        }
        Err(self.yell_error("expected a primitive type"))
    }

    /// `primtype | path | ptr < type >`
    fn parse_type(&mut self) -> (r: Result<Type, String>)
        requires
            old(self).wf(),
        ensures
            final(self).wf(),
            final(self).toks() == old(self).toks(),
            agrees(r, p_type(old(self).toks(), old(self).pos()), old(self).toks(), final(self).pos()),
        decreases old(self).toks().len() - old(self).pos(),
    {
        let ghost ts = self.toks();
        let ghost start = self.pos();
        if self.check_tokenkind(TokenKind::Bool) || self.check_tokenkind(TokenKind::I32)
            || self.check_tokenkind(TokenKind::I64) || self.check_tokenkind(TokenKind::U32)
            || self.check_tokenkind(TokenKind::F64) {
            let primtype = self.parse_primtype()?;
            return Ok(Type::PrimType(primtype));
        }
        if self.check_tokenkind(TokenKind::Identifier) {
            let path = self.parse_path()?;
            return Ok(Type::Path(path));
        }
        if self.check_tokenkind(TokenKind::Ptr) {
            self.consume_token(TokenKind::Ptr, "expected ptr")?;
            self.consume_token(TokenKind::LessThan, "expected <")?;
            let typealt = self.parse_type()?;
            self.consume_token(TokenKind::GreaterThan, "expected >")?;
            return Ok(Type::Ptr(Box::new(typealt)));
        }
        Err(self.yell_error("expected a type"))
    }

    /// `void | type`
    fn parse_rettype(&mut self) -> (r: Result<RetType, String>)
        requires
            old(self).wf(),
        ensures
            final(self).wf(),
            final(self).toks() == old(self).toks(),
            agrees(r, p_rettype(old(self).toks(), old(self).pos()), old(self).toks(), final(self).pos()),
    {
        let is_void = self.match_token(TokenKind::Void);
        if is_void {
            return Ok(RetType::Void);
        }
        let typealt = self.parse_type()?;
        Ok(RetType::typealt(typealt))
    }

    /// `ident : type`
    fn parse_field(&mut self) -> (r: Result<Field, String>)
        requires
            old(self).wf(),
        ensures
            final(self).wf(),
            final(self).toks() == old(self).toks(),
            agrees(r, p_field(old(self).toks(), old(self).pos()), old(self).toks(), final(self).pos()),
    {
        let ident = self.parse_ident()?;
        self.consume_token(TokenKind::Colon, "expected :")?;
        let typealt = self.parse_type()?;
        Ok(Field { ident, typealt })
    }

    /// `%local : type`
    fn parse_param(&mut self) -> (r: Result<Param, String>)
        requires
            old(self).wf(),
        ensures
            final(self).wf(),
            final(self).toks() == old(self).toks(),
            agrees(r, p_param(old(self).toks(), old(self).pos()), old(self).toks(), final(self).pos()),
    {
        let local = self.parse_local()?;
        self.consume_token(TokenKind::Colon, "expected : between identifier and type")?;
        let typealt = self.parse_type()?;
        Ok(Param { local, typealt })
    }

    /// `param (, param)*`
    fn parse_params(&mut self) -> (r: Result<Params, String>)
        requires
            old(self).wf(),
        ensures
            final(self).wf(),
            final(self).toks() == old(self).toks(),
            agrees(r, p_params(old(self).toks(), old(self).pos()), old(self).toks(), final(self).pos()),
    {
        let ghost ts = self.toks();
        let ghost start = self.pos();
        let mut params: Vec<Param> = Vec::new();
        let first = self.parse_param()?;
        let ghost first_v = first@;
        params.push(first);
        proof {
            assert(param_values(params@) =~= seq![first_v]);
        }
        while self.check_tokenkind(TokenKind::Comma)
            invariant
                self.wf(),
                self.toks() == ts,
                ts == old(self).toks(),
                start == old(self).pos(),
                p_params(ts, start) == p_params_rest(ts, self.pos(), param_values(params@)),
            decreases ts.len() - self.pos(),
        {
            let ghost here = self.pos();
            let ghost before = params@;
            proof {
                lemma_param_advances(ts, here + 1);
            }
            self.consume_token(TokenKind::Comma, "expected ,")?;
            let param = self.parse_param()?;
            let ghost pv = param@;
            params.push(param);
            proof {
                assert(param_values(params@) =~= param_values(before).push(pv));
            }
        }
        Ok(Params { params })
    }
}

/// The message for an operator word that is not known: the opening text,
/// the word, and a closing quote.
fn unknown_operator(opening: &str, word: &str) -> (s: String)
    ensures
        s@ == opening@ + word@ + "'"@,
{
    let mut s = String::new();
    push_text(&mut s, opening);
    push_text(&mut s, word);
    push_text(&mut s, "'");
    s
}

impl Parser {
    /// `neg | not`
    fn parse_unop(&mut self) -> (r: Result<UnOp, String>)
        requires
            old(self).wf(),
        ensures
            final(self).wf(),
            final(self).toks() == old(self).toks(),
            agrees(r, p_unop(old(self).toks(), old(self).pos()), old(self).toks(), final(self).pos()),
    {
        let at = self.current;
        let t = self.consume_token(TokenKind::Identifier, "expected a unary operator ")?;
        let lexeme = t.token_attribute.lexeme.as_str();
        if text_is(lexeme, "neg") {
            Ok(UnOp::Neg)
        } else if text_is(lexeme, "not") {
            Ok(UnOp::Not)
        } else {
            let message = unknown_operator("unknown unary operator '", lexeme);
            proof {
                assert(message@ =~= "unknown unary operator '"@ + t@.lexeme + "'"@);
                assert(at < self.tokens@.len());
            }
            Err(self.error_at(message.as_str(), at))
        }
    }

    /// `add | sub | mul | div | mod | eq | ne | lt | le | gt | ge | and | or`
    fn parse_binop(&mut self) -> (r: Result<BinOp, String>)
        requires
            old(self).wf(),
        ensures
            final(self).wf(),
            final(self).toks() == old(self).toks(),
            agrees(r, p_binop(old(self).toks(), old(self).pos()), old(self).toks(), final(self).pos()),
    {
        let at = self.current;
        let t = self.consume_token(TokenKind::Identifier, "expected a binary operator")?;
        let lexeme = t.token_attribute.lexeme.as_str();
        let op = if text_is(lexeme, "add") {
            Some(BinOp::Add)
        } else if text_is(lexeme, "sub") {
            Some(BinOp::Sub)
        } else if text_is(lexeme, "mul") {
            Some(BinOp::Mul)
        } else if text_is(lexeme, "div") {
            Some(BinOp::Div)
        } else if text_is(lexeme, "mod") {
            Some(BinOp::Mod)
        } else if text_is(lexeme, "eq") {
            Some(BinOp::Eq)
        } else if text_is(lexeme, "ne") {
            Some(BinOp::Ne)
        } else if text_is(lexeme, "lt") {
            Some(BinOp::Lt)
        } else if text_is(lexeme, "le") {
            Some(BinOp::Le)
        } else if text_is(lexeme, "gt") {
            Some(BinOp::Gt)
        } else if text_is(lexeme, "ge") {
            Some(BinOp::Ge)
        } else if text_is(lexeme, "and") {
            Some(BinOp::And)
        } else if text_is(lexeme, "or") {
            Some(BinOp::Or)
        } else {
            None
        };
        match op {
            Some(op) => Ok(op),
            None => {
                let message = unknown_operator("unknown binary operator '", lexeme);
                proof {
                    assert(message@ =~= "unknown binary operator '"@ + t@.lexeme + "'"@);
                    assert(at < self.tokens@.len());
                }
                Err(self.error_at(message.as_str(), at))
            },
        }
    }

    /// `integer | float | true | false | null`
    fn parse_literal(&mut self) -> (r: Result<Literal, String>)
        requires
            old(self).wf(),
        ensures
            final(self).wf(),
            final(self).toks() == old(self).toks(),
            agrees(r, p_literal(old(self).toks(), old(self).pos()), old(self).toks(), final(self).pos()),
    {
        if self.check_tokenkind(TokenKind::IntegerLiteral) {
            let integer = self.consume_token(TokenKind::IntegerLiteral, "expected an integer")?;
            let parsed_int = parse_i64(integer.token_attribute.lexeme.as_str());
            return match parsed_int {
                Some(int_val) => Ok(Literal::IntegerLiteral(int_val)),
                None => Err(self.yell_error("invalid integer literal")),
            };
        }
        if self.check_tokenkind(TokenKind::FloatLiteral) {
            let float = self.consume_token(TokenKind::FloatLiteral, "expected a float")?;
            if !is_float_literal(float.token_attribute.lexeme.as_str()) {
                return Err(self.yell_error("invalid float literal"));
            }
            return Ok(Literal::FloatLiteral(float.token_attribute.lexeme));
        }
        if self.check_tokenkind(TokenKind::True) {
            self.consume_token(TokenKind::True, "expected 'true'")?;
            return Ok(Literal::True);
        }
        if self.check_tokenkind(TokenKind::False) {
            self.consume_token(TokenKind::False, "expected 'false'")?;
            return Ok(Literal::False);
        }
        if self.check_tokenkind(TokenKind::Null) {
            self.consume_token(TokenKind::Null, "expected 'null'")?;
            return Ok(Literal::Null);
        }
        Err(self.yell_error("expected a literal"))
    }

    /// `%local (, %local)*`
    fn parse_args(&mut self) -> (r: Result<Args, String>)
        requires
            old(self).wf(),
        ensures
            final(self).wf(),
            final(self).toks() == old(self).toks(),
            agrees(r, p_args(old(self).toks(), old(self).pos()), old(self).toks(), final(self).pos()),
    {
        let ghost ts = self.toks();
        let ghost start = self.pos();
        let mut locals: Vec<Local> = Vec::new();
        let local_one = self.parse_local()?;
        let ghost first = local_one@;
        locals.push(local_one);
        proof {
            assert(local_values(locals@) =~= seq![first]);
        }
        while self.check_tokenkind(TokenKind::Comma)
            invariant
                self.wf(),
                self.toks() == ts,
                ts == old(self).toks(),
                start == old(self).pos(),
                p_args(ts, start) == p_args_rest(ts, self.pos(), local_values(locals@)),
            decreases ts.len() - self.pos(),
        {
            let ghost before = locals@;
            self.consume_token(TokenKind::Comma, "expected ,")?;
            let local_rest = self.parse_local()?;
            let ghost lv = local_rest@;
            locals.push(local_rest);
            proof {
                assert(local_values(locals@) =~= local_values(before).push(lv));
            }
        }
        Ok(Args { locals })
    }
}

impl Parser {
    /// The right-hand side of a statement, chosen by its first token.
    #[verifier::rlimit(30)]
    fn parse_rhs(&mut self) -> (r: Result<Rhs, String>)
        requires
            old(self).wf(),
        ensures
            final(self).wf(),
            final(self).toks() == old(self).toks(),
            agrees(r, p_rhs(old(self).toks(), old(self).pos()), old(self).toks(), final(self).pos()),
    {
        if self.check_tokenkind(TokenKind::Local) {
            let local = self.parse_local()?;
            return Ok(Rhs::Use(local));
        }
        if self.check_tokenkind(TokenKind::Const) {
            self.consume_token(TokenKind::Const, "expected 'const'")?;
            let literal = self.parse_literal()?;
            return Ok(Rhs::Const(literal));
        }
        if self.check_tokenkind(TokenKind::Cast) {
            self.consume_token(TokenKind::Cast, "expected 'cast'")?;
            let local = self.parse_local()?;
            self.consume_token(TokenKind::To, "expected 'to'")?;
            let typealt = self.parse_type()?;
            return Ok(Rhs::Cast(local, typealt));
        }
        if self.check_tokenkind(TokenKind::Un) {
            self.consume_token(TokenKind::Un, "expected 'un'")?;
            let unop = self.parse_unop()?;
            let local = self.parse_local()?;
            return Ok(Rhs::Un(unop, local));
        }
        if self.check_tokenkind(TokenKind::Bin) {
            self.consume_token(TokenKind::Bin, "expected 'bin'")?;
            let binop = self.parse_binop()?;
            let local_one = self.parse_local()?;
            self.consume_token(TokenKind::Comma, "expected ','")?;
            let local_two = self.parse_local()?;
            return Ok(Rhs::Bin(binop, local_one, local_two));
        }
        if self.check_tokenkind(TokenKind::Addr_of) {
            self.consume_token(TokenKind::Addr_of, "expected 'addr_of'")?;
            let local = self.parse_local()?;
            return Ok(Rhs::Addr_of(local));
        }
        if self.check_tokenkind(TokenKind::Member_ptr) {
            self.consume_token(TokenKind::Member_ptr, "expected 'member_ptr'")?;
            let local = self.parse_local()?;
            self.consume_token(TokenKind::Comma, "expected ','")?;
            let ident = self.parse_ident()?;
            return Ok(Rhs::Member_ptr(local, ident));
        }
        if self.check_tokenkind(TokenKind::Load) {
            self.consume_token(TokenKind::Load, "expected 'load'")?;
            let local = self.parse_local()?;
            return Ok(Rhs::Load(local));
        }
        if self.check_tokenkind(TokenKind::Store) {
            self.consume_token(TokenKind::Store, "expected 'store'")?;
            let local_one = self.parse_local()?;
            self.consume_token(TokenKind::Comma, "expected ','")?;
            let local_two = self.parse_local()?;
            return Ok(Rhs::Store(local_one, local_two));
        }
        if self.check_tokenkind(TokenKind::Call) {
            self.consume_token(TokenKind::Call, "expected 'call'")?;
            let path = self.parse_path()?;
            self.consume_token(TokenKind::LBracket, "expected '('")?;
            let rbrack_present = self.check_tokenkind(TokenKind::RBracket);
            let mut args = None;
            if !rbrack_present {
                args = Some(self.parse_args()?);
            }
            self.consume_token(TokenKind::RBracket, "expected ')'")?;
            return Ok(Rhs::Call(path, args));
        }
        Err(self.yell_error("expected a statement"))
    }

    /// `[%local =] rhs`: looks one token past the next for `=`.
    fn parse_stmt(&mut self) -> (r: Result<Stmt, String>)
        requires
            old(self).wf(),
            !at_end(old(self).toks(), old(self).pos()),
        ensures
            final(self).wf(),
            final(self).toks() == old(self).toks(),
            agrees(r, p_stmt(old(self).toks(), old(self).pos()), old(self).toks(), final(self).pos()),
    {
        let checkpoint = self.current;
        self.advance();
        let equals_present = self.check_tokenkind(TokenKind::Equals);
        self.current = checkpoint;
        let mut local = None;
        if equals_present {
            local = Some(self.parse_local()?);
            self.consume_token(TokenKind::Equals, "Expected = ")?;
        }
        let rhs = self.parse_rhs()?;
        Ok(Stmt { local, rhs })
    }

    /// `jump label | cjump %local, label, label | return [%local]`
    fn parse_term(&mut self) -> (r: Result<Term, String>)
        requires
            old(self).wf(),
        ensures
            final(self).wf(),
            final(self).toks() == old(self).toks(),
            agrees(r, p_term(old(self).toks(), old(self).pos()), old(self).toks(), final(self).pos()),
    {
        if self.check_tokenkind(TokenKind::Jump) {
            self.consume_token(TokenKind::Jump, "expected jump")?;
            let label = self.parse_label()?;
            return Ok(Term::Jump(label));
        }
        if self.check_tokenkind(TokenKind::CJump) {
            self.consume_token(TokenKind::CJump, "expected cjump")?;
            let local = self.parse_local()?;
            self.consume_token(TokenKind::Comma, "expected ,")?;
            let label_one = self.parse_label()?;
            self.consume_token(TokenKind::Comma, "expected ,")?;
            let label_two = self.parse_label()?;
            return Ok(Term::CJump(local, label_one, label_two));
        }
        if self.check_tokenkind(TokenKind::Return) {
            self.consume_token(TokenKind::Return, "expected return")?;
            let local_present = self.check_tokenkind(TokenKind::Local);
            let mut local = None;
            if local_present {
                local = Some(self.parse_local()?);
            }
            return Ok(Term::Return(local));
        }
        Err(self.yell_error("expected a terminator (jump, cjump, or return)"))
    }
}

impl Parser {
    /// `label : stmts term ;`
    fn parse_block(&mut self) -> (r: Result<Block, String>)
        requires
            old(self).wf(),
        ensures
            final(self).wf(),
            final(self).toks() == old(self).toks(),
            agrees(r, p_block(old(self).toks(), old(self).pos()), old(self).toks(), final(self).pos()),
    {
        let ghost ts = self.toks();
        let ghost start = self.pos();
        let label = self.parse_label()?;
        self.consume_token(TokenKind::Colon, "expected  :")?;
        let ghost body = self.pos();
        let mut stmt: Vec<Stmt> = Vec::new();
        proof {
            assert(stmt_values(stmt@) =~= Seq::<StmtV>::empty());
        }
        while !self.check_tokenkind(TokenKind::Jump) && !self.check_tokenkind(TokenKind::CJump)
            && !self.check_tokenkind(TokenKind::Return) && !self.is_at_end()
            invariant
                self.wf(),
                self.toks() == ts,
                ts == old(self).toks(),
                start == old(self).pos(),
                p_label(ts, start) matches Ok((_, j)) && body == j + 1 && check(ts, j, TokenKind::Colon),
                p_stmts(ts, body, Seq::empty()) == p_stmts(ts, self.pos(), stmt_values(stmt@)),
            decreases ts.len() - self.pos(),
        {
            let ghost here = self.pos();
            let ghost before = stmt@;
            proof {
                lemma_stmt_advances(ts, here);
            }
            let s = self.parse_stmt()?;
            let ghost sv = s@;
            stmt.push(s);
            self.consume_token(TokenKind::SemiColon, "unterminated statement... perhaps you forgot a ;?")?;
            proof {
                assert(stmt_values(stmt@) =~= stmt_values(before).push(sv));
            }
        }
        let term = self.parse_term()?;
        self.consume_token(TokenKind::SemiColon, "expected ; after a block terminator!")?;
        Ok(Block { label, stmt, term })
    }

    /// `extern type path { (field ;)* }`
    fn parse_externtype(&mut self) -> (r: Result<ExternType, String>)
        requires
            old(self).wf(),
        ensures
            final(self).wf(),
            final(self).toks() == old(self).toks(),
            agrees(r, p_externtype(old(self).toks(), old(self).pos()), old(self).toks(), final(self).pos()),
    {
        let ghost ts = self.toks();
        let ghost start = self.pos();
        self.consume_token(TokenKind::Extern, "expected 'extern'")?;
        self.consume_token(TokenKind::Type, "expected 'type' after 'extern'")?;
        let path = self.parse_path()?;
        self.consume_token(TokenKind::LCurly, "expected {")?;
        let ghost body = self.pos();
        let mut fields: Vec<Field> = Vec::new();
        proof {
            assert(field_values(fields@) =~= Seq::<DeclV>::empty());
        }
        while self.check_tokenkind(TokenKind::Identifier)
            invariant
                self.wf(),
                self.toks() == ts,
                ts == old(self).toks(),
                start == old(self).pos(),
                check(ts, start, TokenKind::Extern),
                check(ts, start + 1, TokenKind::Type),
                p_path(ts, start + 2) matches Ok((_, j)) && body == j + 1 && check(ts, j, TokenKind::LCurly),
                p_fields(ts, body, Seq::empty()) == p_fields(ts, self.pos(), field_values(fields@)),
            decreases ts.len() - self.pos(),
        {
            let ghost here = self.pos();
            let ghost before = fields@;
            proof {
                lemma_field_advances(ts, here);
            }
            let field = self.parse_field()?;
            let ghost fv = field@;
            fields.push(field);
            self.consume_token(TokenKind::SemiColon, "expected ;")?;
            proof {
                assert(field_values(fields@) =~= field_values(before).push(fv));
            }
        }
        self.consume_token(TokenKind::RCurly, "expected }")?;
        Ok(ExternType { path, fields })
    }
}

impl Parser {
    /// `function path ( [params] ) -> rettype { locals { ... } entry label; blocks }`
    fn parse_function(&mut self) -> (r: Result<Function, String>)
        requires
            old(self).wf(),
        ensures
            final(self).wf(),
            final(self).toks() == old(self).toks(),
            agrees(r, p_function(old(self).toks(), old(self).pos()), old(self).toks(), final(self).pos()),
    {
        self.consume_token(TokenKind::Function, "expected 'function'")?;
        let path = self.parse_path()?;
        self.consume_token(TokenKind::LBracket, "expected (")?;
        let params = self.parse_param_list()?;
        self.consume_token(TokenKind::Arrow, "expected Arrow")?;
        let rettype = self.parse_rettype()?;
        self.consume_token(TokenKind::LCurly, "expected {")?;
        let (locals, entry, blocks) = self.parse_function_body()?;
        Ok(Function { path, params, rettype, locals, entry, blocks })
    }

    /// The parameters after `(`, up to and including `)`; none when `)`
    /// comes at once.
    fn parse_param_list(&mut self) -> (r: Result<Option<Params>, String>)
        requires
            old(self).wf(),
        ensures
            final(self).wf(),
            final(self).toks() == old(self).toks(),
            match p_param_list(old(self).toks(), old(self).pos()) {
                Ok((params, j)) => r matches Ok(ps) && final(self).pos() == j && match params {
                    Some(v) => ps matches Some(p) && p@ == v,
                    None => ps is None,
                },
                Err(e) => r matches Err(m) && m@ == render(old(self).toks(), e) && final(self).pos() == e.stop,
            },
    {
        let rbrack_present = self.check_tokenkind(TokenKind::RBracket);
        let mut params = None;
        if !rbrack_present {
            params = Some(self.parse_params()?);
        }
        self.consume_token(TokenKind::RBracket, "expected )")?;
        Ok(params)
    }

    /// The body of a function from `locals` on: `locals { (%local : type ;)* }
    /// entry label ; blocks }`.
    fn parse_function_body(&mut self) -> (r: Result<(Vec<(Local, Type)>, Label, Vec<Block>), String>)
        requires
            old(self).wf(),
        ensures
            final(self).wf(),
            final(self).toks() == old(self).toks(),
            match p_body(old(self).toks(), old(self).pos()) {
                Ok(((locals, entry, blocks), j)) => r matches Ok((ls, e, bs)) && local_decl_values(ls@) == locals
                    && e@ == entry && block_values(bs@) == blocks && final(self).pos() == j,
                Err(e) => r matches Err(m) && m@ == render(old(self).toks(), e) && final(self).pos() == e.stop,
            },
    {
        let ghost ts = self.toks();
        let ghost start = self.pos();
        self.consume_token(TokenKind::Locals, "expected Locals")?;
        self.consume_token(TokenKind::LCurly, "expected {")?;
        let mut locals: Vec<(Local, Type)> = Vec::new();
        proof {
            assert(local_decl_values(locals@) =~= Seq::<DeclV>::empty());
        }
        while self.check_tokenkind(TokenKind::Local)
            invariant
                self.wf(),
                self.toks() == ts,
                ts == old(self).toks(),
                start == old(self).pos(),
                check(ts, start, TokenKind::Locals),
                check(ts, start + 1, TokenKind::LCurly),
                p_locals(ts, start + 2, Seq::empty()) == p_locals(ts, self.pos(), local_decl_values(locals@)),
            decreases ts.len() - self.pos(),
        {
            let ghost before = locals@;
            let local = self.parse_local()?;
            self.consume_token(TokenKind::Colon, "expected : ")?;
            let ghost after_colon = self.pos();
            proof {
                lemma_type_advances(ts, after_colon);
            }
            let typealt = self.parse_type()?;
            self.consume_token(TokenKind::SemiColon, "expected ; after specifying type!")?;
            let ghost lv = local@;
            let ghost tv = typealt@;
            locals.push((local, typealt));
            proof {
                assert(local_decl_values(locals@) =~= local_decl_values(before).push(DeclV { name: lv, typ: tv }));
            }
        }
        self.consume_token(TokenKind::RCurly, "expected } ")?;
        self.consume_token(TokenKind::Entry, "expected 'entry' ")?;
        let entry = self.parse_label()?;
        self.consume_token(TokenKind::SemiColon, "expected ; after entry label")?;
        let ghost blocks_start = self.pos();
        let mut blocks: Vec<Block> = Vec::new();
        proof {
            assert(block_values(blocks@) =~= Seq::<BlockV>::empty());
        }
        while self.check_tokenkind(TokenKind::Label)
            invariant
                self.wf(),
                self.toks() == ts,
                ts == old(self).toks(),
                start == old(self).pos(),
                check(ts, start, TokenKind::Locals),
                check(ts, start + 1, TokenKind::LCurly),
                p_locals(ts, start + 2, Seq::empty()) matches Ok((_, j)) && check(ts, j, TokenKind::RCurly)
                    && check(ts, j + 1, TokenKind::Entry) && {
                    p_label(ts, j + 2) matches Ok((_, k)) && check(ts, k, TokenKind::SemiColon)
                        && blocks_start == k + 1
                },
                p_blocks(ts, blocks_start, Seq::empty()) == p_blocks(ts, self.pos(), block_values(blocks@)),
            decreases ts.len() - self.pos(),
        {
            let ghost here = self.pos();
            let ghost before = blocks@;
            proof {
                lemma_block_advances(ts, here);
            }
            let block = self.parse_block()?;
            let ghost bv = block@;
            blocks.push(block);
            proof {
                assert(block_values(blocks@) =~= block_values(before).push(bv));
            }
        }
        self.consume_token(TokenKind::RCurly, "expected }")?;
        Ok((locals, entry, blocks))
    }

    /// Parses a whole program from the next token on: extern types, then
    /// the function, then nothing but the end of the input.
    pub fn parse_program(&mut self) -> (r: Result<Program, String>)
        requires
            old(self).wf(),
        ensures
            final(self).wf(),
            final(self).toks() == old(self).toks(),
            agrees(r, p_program(old(self).toks(), old(self).pos()), old(self).toks(), final(self).pos()),
    {
        let ghost ts = self.toks();
        let ghost start = self.pos();
        let mut externtypes: Vec<ExternType> = Vec::new();
        proof {
            assert(extern_values(externtypes@) =~= Seq::<ExternTypeV>::empty());
        }
        while self.check_tokenkind(TokenKind::Extern)
            invariant
                self.wf(),
                self.toks() == ts,
                ts == old(self).toks(),
                start == old(self).pos(),
                p_externtypes(ts, start, Seq::empty()) == p_externtypes(ts, self.pos(), extern_values(externtypes@)),
            decreases ts.len() - self.pos(),
        {
            let ghost here = self.pos();
            let ghost before = externtypes@;
            proof {
                lemma_externtype_advances(ts, here);
            }
            let x = self.parse_externtype()?;
            let ghost xv = x@;
            externtypes.push(x);
            proof {
                assert(extern_values(externtypes@) =~= extern_values(before).push(xv));
            }
        }
        let function = self.parse_function()?;
        if !self.is_at_end() {
            return Err(self.yell_error("nothing should be written after function"));
        }
        Ok(Program { externtypes, function })
    }
}

/// Whatever text the lexer reads, a parser at the first of its tokens can
/// go on reading: the last token is `EndOfFile`, every local's lexeme starts
/// with the one-byte `%` and every label's with the one-byte `bb`.
pub proof fn law_lexed_tokens_are_readable(src: Seq<char>)
    ensures
        readable_from(scan_source(src).0, 0),
{
    let ts = scan_source(src).0;
    law_single_end_of_file(src);
    let last = ts.len() - 1;
    assert(0 <= last < ts.len() && ts[last].kind == TokenKind::EndOfFile);
    assert forall|k: int| 0 <= k < ts.len() && before_end(ts, k) implies {
        &&& (#[trigger] ts[k]).kind == TokenKind::Local ==> drop_bytes(ts[k].lexeme, 1) is Some
        &&& ts[k].kind == TokenKind::Label ==> drop_bytes(ts[k].lexeme, 2) is Some
    } by {
        reveal_with_fuel(drop_bytes, 3);
        if k < last {
            let lex = ts[k].lexeme;
            assert(lex.len() > 0);
            if ts[k].kind == TokenKind::Local {
                assert(lex[0] == '%');
                assert(('%' as u32) < 0x80);
                assert(utf8_len(lex[0]) == 1);
                assert(drop_bytes(lex.drop_first(), 0) is Some);
            }
            if ts[k].kind == TokenKind::Label {
                assert(lex[0] == 'b' && lex[1] == 'b');
                assert(utf8_len(lex[0]) == 1);
                assert(lex.drop_first()[0] == 'b');
                assert(utf8_len(lex.drop_first()[0]) == 1);
                assert(drop_bytes(lex.drop_first().drop_first(), 0) is Some);
            }
        }
    }
}

impl Parser {
    /// Whether the parser can go on reading (see `wf`): some token from the
    /// next one on is `EndOfFile`, and the locals and labels up to the first
    /// `EndOfFile` can be cut.
    pub fn is_readable(&self) -> (r: bool)
        ensures
            r == self.wf(),
    {
        let ghost ts = self.toks();
        let n = self.tokens.len();
        proof {
            assert(ts.len() == n);
        }
        if self.current >= n {
            return false;
        }
        let mut k: usize = 0;
        while k < n
            invariant
                ts == self.toks(),
                ts.len() == n,
                n == self.tokens@.len(),
                self.current < n,
                k <= n,
                before_end(ts, k as int),
                forall|m: int| 0 <= m < k ==> {
                    &&& (#[trigger] ts[m]).kind == TokenKind::Local ==> drop_bytes(ts[m].lexeme, 1) is Some
                    &&& ts[m].kind == TokenKind::Label ==> drop_bytes(ts[m].lexeme, 2) is Some
                },
            decreases n - k,
        {
            let t = &self.tokens[k];
            proof {
                assert(ts[k as int] == t@);
            }
            if t.token_kind == TokenKind::Local && after_bytes(t.token_attribute.lexeme.as_str(), 1).is_none() {
                return false;
            }
            if t.token_kind == TokenKind::Label && after_bytes(t.token_attribute.lexeme.as_str(), 2).is_none() {
                return false;
            }
            if t.token_kind == TokenKind::EndOfFile {
                // every token after this one lies past the end of the input
                proof {
                    assert forall|j: int| 0 <= j < ts.len() && before_end(ts, j) implies j <= k by {
                        if j > k {
                            assert(ts[k as int].kind == TokenKind::EndOfFile);
                        }
                    }
                }
                if self.current <= k {
                    proof {
                        assert(self.current <= k < ts.len() && ts[k as int].kind == TokenKind::EndOfFile);
                        assert(before_end(ts, self.current as int));
                    }
                    return true;
                }
                proof {
                    assert(!before_end(ts, self.current as int)) by {
                        assert(ts[k as int].kind == TokenKind::EndOfFile);
                    }
                }
                return false;
            }
            k = k + 1;
        }
        proof {
            assert(!end_ahead(ts, self.current as int));
        }
        false
    }
}

} // verus!
