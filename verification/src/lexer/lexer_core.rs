//! The lexer: it turns the source text into tokens by running the automaton
//! of `table` with the longest-match rule, then sorting identifiers into
//! keywords, labels and plain identifiers.

use vstd::prelude::*;
use super::tokens::{Token, TokenAttribute, TokenKind, TokenV, token_values};
use super::table::{
    State, Cat, STATE_COUNT, CAT_COUNT, is_accepting, char_to_cat, build_transition_table,
    state_to_token, state_index, cat_index, spec_is_accepting, spec_char_to_cat, delta,
    spec_state_to_token, spec_state_index, spec_cat_index, is_transition_table,
};
use crate::text::{string_from_chars, text_is, chars_of, push_text, push_char, push_decimal, dec};

verus! {

// ======================= the automaton on strings =======================

/// The state the automaton reaches from the start state on `s`.
pub open spec fn dfa_run(s: Seq<char>) -> State
    decreases s.len(),
{
    if s.len() == 0 {
        State::StartState
    } else {
        delta(dfa_run(s.drop_last()), spec_char_to_cat(Some(s.last())))
    }
}

/// The characters `src[pos..end]` form a token.
pub open spec fn accepts(src: Seq<char>, pos: int, end: int) -> bool {
    spec_is_accepting(dfa_run(src.subrange(pos, end)))
}

/// `src[pos..end]` is the longest token that starts at `pos`.
pub open spec fn is_longest_match(src: Seq<char>, pos: int, end: int) -> bool {
    &&& 0 <= pos < end <= src.len()
    &&& accepts(src, pos, end)
    &&& forall|j: int| end < j <= src.len() ==> !#[trigger] accepts(src, pos, j)
}

/// No token starts at `pos`.
pub open spec fn has_no_match(src: Seq<char>, pos: int) -> bool {
    forall|j: int| pos < j <= src.len() ==> !#[trigger] accepts(src, pos, j)
}

/// The end of the longest token that starts at `pos`, if there is one.
pub open spec fn longest_match(src: Seq<char>, pos: int) -> Option<int> {
    if exists|end: int| is_longest_match(src, pos, end) {
        Some(choose|end: int| is_longest_match(src, pos, end))
    } else {
        None
    }
}

/// The kind of token that ends in `state` (an identifier where there is none).
pub open spec fn kind_of_state(state: State) -> TokenKind {
    match spec_state_to_token(state) {
        Some(k) => k,
        None => TokenKind::Identifier,
    }
}

/// The error state is never left.
pub proof fn lemma_error_absorbs(src: Seq<char>, pos: int, i: int, j: int)
    requires
        0 <= pos <= i <= j <= src.len(),
        dfa_run(src.subrange(pos, i)) == State::ErrorState,
    ensures
        dfa_run(src.subrange(pos, j)) == State::ErrorState,
    decreases j - i,
{
    if j > i {
        lemma_error_absorbs(src, pos, i, j - 1);
        assert(src.subrange(pos, j).drop_last() =~= src.subrange(pos, j - 1));
    }
}

/// There is at most one longest match.
pub proof fn lemma_longest_match_unique(src: Seq<char>, pos: int, end: int)
    requires
        is_longest_match(src, pos, end),
    ensures
        longest_match(src, pos) == Some(end),
{
    let e = choose|e: int| is_longest_match(src, pos, e);
    assert(is_longest_match(src, pos, e));
    if e < end {
        assert(accepts(src, pos, end));
    } else if e > end {
        assert(accepts(src, pos, e));
    }
}

/// Where no token starts there is no longest match.
pub proof fn lemma_no_match(src: Seq<char>, pos: int)
    requires
        has_no_match(src, pos),
    ensures
        longest_match(src, pos) is None,
{
    if exists|end: int| is_longest_match(src, pos, end) {
        let e = choose|end: int| is_longest_match(src, pos, end);
        assert(accepts(src, pos, e));
    }
}

/// Every accepting state names a kind of token.
proof fn lemma_accepting_has_kind(state: State)
    requires
        spec_is_accepting(state),
    ensures
        spec_state_to_token(state) is Some,
{
}

/// Scans the longest token that starts at `*pos`, with the automaton of
/// `t_table`: on success `*pos` moves past it and the kind of its final
/// state and its text are returned; where no token starts there, `*pos`
/// moves one character on and `None` is returned.
fn next_token(source: &Vec<char>, pos: &mut usize, t_table: &[[State; CAT_COUNT]; STATE_COUNT])
    -> (r: Option<(TokenKind, String)>)
    requires
        *old(pos) < source@.len(),
        is_transition_table(*t_table),
    ensures
        match r {
            Some((kind, lexeme)) => {
                &&& is_longest_match(source@, *old(pos) as int, *final(pos) as int)
                &&& lexeme@ == source@.subrange(*old(pos) as int, *final(pos) as int)
                &&& kind == kind_of_state(dfa_run(lexeme@))
                &&& spec_state_to_token(dfa_run(lexeme@)) == Some(kind)
            },
            None => {
                &&& has_no_match(source@, *old(pos) as int)
                &&& *final(pos) == *old(pos) + 1
            },
        },
{
    let ghost src = source@;
    let mut p: usize = *pos;
    let ghost p0: int = p as int;
    let mut state = State::StartState;
    let mut lexeme: Vec<char> = Vec::new();
    let mut stack: Vec<State> = Vec::new();
    // index of the state at the bottom of the stack
    let ghost mut b: int = p0;

    // scanning: follow the edges until the error state or the end of input
    while state != State::ErrorState && p < source.len()
        invariant
            src == source@,
            is_transition_table(*t_table),
            0 <= p0 <= b <= p <= src.len(),
            lexeme@ == src.subrange(p0, p as int),
            state == dfa_run(src.subrange(p0, p as int)),
            stack@.len() == p - b,
            forall|k: int|
                0 <= k < stack@.len() ==> #[trigger] stack@[k] == dfa_run(
                    src.subrange(p0, b + k),
                ),
            b == p0 || spec_is_accepting(dfa_run(src.subrange(p0, b))),
            forall|q: int| b < q < p ==> !#[trigger] accepts(src, p0, q),
        decreases src.len() - p,
    {
        let current_char = source[p];
        let ghost old_pos: int = p as int;
        let ghost old_state = state;
        p = p + 1;
        lexeme.push(current_char);
        if is_accepting(state) {
            stack.clear();
            proof {
                b = old_pos;
            }
        }
        stack.push(state);
        let cat = char_to_cat(Some(current_char));
        state = t_table[state_index(state)][cat_index(cat)];
        proof {
            assert(t_table[spec_state_index(old_state)][spec_cat_index(cat)] == delta(old_state, cat));
            assert(src.subrange(p0, p as int).drop_last() =~= src.subrange(p0, old_pos));
            assert(lexeme@ =~= src.subrange(p0, p as int));
            assert forall|k: int| 0 <= k < stack@.len() implies #[trigger] stack@[k] == dfa_run(
                src.subrange(p0, b + k),
            ) by {
                if k == stack@.len() - 1 {
                    assert(b + k == old_pos);
                }
            }
            assert forall|q: int| b < q < p implies !#[trigger] accepts(src, p0, q) by {
                if q == old_pos {
                    assert(src.subrange(p0, q) == src.subrange(p0, old_pos));
                }
            }
        }
    }

    // nothing beyond the scanned part is a token
    proof {
        assert forall|j: int| p < j <= src.len() implies !#[trigger] accepts(src, p0, j) by {
            lemma_error_absorbs(src, p0, p as int, j);
        }
    }

    // rollback: give back characters until the last accepting state
    while !is_accepting(state) && stack.len() > 0
        invariant
            src == source@,
            0 <= p0 <= b <= p <= src.len(),
            lexeme@ == src.subrange(p0, p as int),
            state == dfa_run(src.subrange(p0, p as int)),
            stack@.len() == p - b,
            forall|k: int|
                0 <= k < stack@.len() ==> #[trigger] stack@[k] == dfa_run(
                    src.subrange(p0, b + k),
                ),
            b == p0 || spec_is_accepting(dfa_run(src.subrange(p0, b))),
            forall|j: int| p < j <= src.len() ==> !#[trigger] accepts(src, p0, j),
        decreases stack@.len(),
    {
        let ghost old_pos: int = p as int;
        assert(!accepts(src, p0, old_pos));
        let top = stack.pop();
        state = match top {
            Some(s) => s,
            None => state,
        };
        lexeme.pop();
        p = p - 1;
        proof {
            assert(lexeme@ =~= src.subrange(p0, p as int));
        }
    }

    if is_accepting(state) {
        *pos = p;
        let lexeme_string: String = string_from_chars(&lexeme);
        proof {
            lemma_accepting_has_kind(state);
        }
        match state_to_token(state) {
            Some(found_kind) => Some((found_kind, lexeme_string)),
            None => None,
        }
    } else {
        proof {
            assert(p == p0);
            assert(src.subrange(p0, p0) =~= Seq::<char>::empty());
        }
        *pos = p + 1;
        None
    }
}


// ======================= keywords and labels =======================

/// The kind of a word: the keyword it spells, else `Identifier`.
pub open spec fn keyword_kind(s: Seq<char>) -> TokenKind {
    if s == "function"@ {
        TokenKind::Function
    } else if s == "locals"@ {
        TokenKind::Locals
    } else if s == "entry"@ {
        TokenKind::Entry
    } else if s == "const"@ {
        TokenKind::Const
    } else if s == "cast"@ {
        TokenKind::Cast
    } else if s == "un"@ {
        TokenKind::Un
    } else if s == "bin"@ {
        TokenKind::Bin
    } else if s == "addr_of"@ {
        TokenKind::Addr_of
    } else if s == "member_ptr"@ {
        TokenKind::Member_ptr
    } else if s == "load"@ {
        TokenKind::Load
    } else if s == "store"@ {
        TokenKind::Store
    } else if s == "call"@ {
        TokenKind::Call
    } else if s == "jump"@ {
        TokenKind::Jump
    } else if s == "cjump"@ {
        TokenKind::CJump
    } else if s == "return"@ {
        TokenKind::Return
    } else if s == "void"@ {
        TokenKind::Void
    } else if s == "ptr"@ {
        TokenKind::Ptr
    } else if s == "true"@ {
        TokenKind::True
    } else if s == "false"@ {
        TokenKind::False
    } else if s == "null"@ {
        TokenKind::Null
    } else if s == "to"@ {
        TokenKind::To
    } else if s == "extern"@ {
        TokenKind::Extern
    } else if s == "type"@ {
        TokenKind::Type
    } else if s == "bool"@ {
        TokenKind::Bool
    } else if s == "i32"@ {
        TokenKind::I32
    } else if s == "i64"@ {
        TokenKind::I64
    } else if s == "u32"@ {
        TokenKind::U32
    } else if s == "f64"@ {
        TokenKind::F64
    } else {
        TokenKind::Identifier
    }
}

/// Reserved words are keywords; any other word is an identifier
/// (labels are told apart later, by `which_kind`).
fn classify_lexeme(lexeme: &str) -> (k: TokenKind)
    ensures
        k == keyword_kind(lexeme@),
{
    if text_is(lexeme, "function") {
        TokenKind::Function
    } else if text_is(lexeme, "locals") {
        TokenKind::Locals
    } else if text_is(lexeme, "entry") {
        TokenKind::Entry
    } else if text_is(lexeme, "const") {
        TokenKind::Const
    } else if text_is(lexeme, "cast") {
        TokenKind::Cast
    } else if text_is(lexeme, "un") {
        TokenKind::Un
    } else if text_is(lexeme, "bin") {
        TokenKind::Bin
    } else if text_is(lexeme, "addr_of") {
        TokenKind::Addr_of
    } else if text_is(lexeme, "member_ptr") {
        TokenKind::Member_ptr
    } else if text_is(lexeme, "load") {
        TokenKind::Load
    } else if text_is(lexeme, "store") {
        TokenKind::Store
    } else if text_is(lexeme, "call") {
        TokenKind::Call
    } else if text_is(lexeme, "jump") {
        TokenKind::Jump
    } else if text_is(lexeme, "cjump") {
        TokenKind::CJump
    } else if text_is(lexeme, "return") {
        TokenKind::Return
    } else if text_is(lexeme, "void") {
        TokenKind::Void
    } else if text_is(lexeme, "ptr") {
        TokenKind::Ptr
    } else if text_is(lexeme, "true") {
        TokenKind::True
    } else if text_is(lexeme, "false") {
        TokenKind::False
    } else if text_is(lexeme, "null") {
        TokenKind::Null
    } else if text_is(lexeme, "to") {
        TokenKind::To
    } else if text_is(lexeme, "extern") {
        TokenKind::Extern
    } else if text_is(lexeme, "type") {
        TokenKind::Type
    } else if text_is(lexeme, "bool") {
        TokenKind::Bool
    } else if text_is(lexeme, "i32") {
        TokenKind::I32
    } else if text_is(lexeme, "i64") {
        TokenKind::I64
    } else if text_is(lexeme, "u32") {
        TokenKind::U32
    } else if text_is(lexeme, "f64") {
        TokenKind::F64
    } else {
        TokenKind::Identifier
    }
}

/// An ASCII decimal digit.
pub open spec fn is_ascii_digit(c: char) -> bool {
    '0' <= c && c <= '9'
}

/// A label: `bb` followed by one or more ASCII digits.
pub open spec fn spec_is_label(s: Seq<char>) -> bool {
    &&& s.len() > 2
    &&& s[0] == 'b'
    &&& s[1] == 'b'
    &&& forall|i: int| 2 <= i < s.len() ==> is_ascii_digit(#[trigger] s[i])
}

/// Whether a word is a label (`bb` then one or more ASCII digits).
fn is_label(lexeme: &str) -> (r: bool)
    ensures
        r == spec_is_label(lexeme@),
{
    let chars = chars_of(lexeme);
    if chars.len() < 3 || chars[0] != 'b' || chars[1] != 'b' {
        return false;
    }
    let mut i: usize = 2;
    while i < chars.len()
        invariant
            chars@ == lexeme@,
            2 <= i <= chars.len(),
            forall|k: int| 2 <= k < i ==> is_ascii_digit(#[trigger] chars@[k]),
        decreases chars.len() - i,
    {
        let c = chars[i];
        if !('0' <= c && c <= '9') {
            return false;
        }
        i = i + 1;
    }
    true
}

/// The final kind of a token: the automaton's kind, except that a word the
/// automaton calls an identifier may be a keyword or a label.
pub open spec fn spec_which_kind(kind: TokenKind, lexeme: Seq<char>) -> TokenKind {
    if kind != TokenKind::Identifier {
        kind
    } else if keyword_kind(lexeme) != TokenKind::Identifier {
        keyword_kind(lexeme)
    } else if spec_is_label(lexeme) {
        TokenKind::Label
    } else {
        TokenKind::Identifier
    }
}

/// How a word is sorted: a kind other than identifier stays; an identifier
/// that spells a reserved word becomes that keyword; one that is `bb`
/// followed by one or more ASCII digits, and no reserved word, becomes a
/// label; any other stays an identifier.
pub proof fn law_identifier_sorting(kind: TokenKind, lexeme: Seq<char>)
    ensures
        kind != TokenKind::Identifier ==> spec_which_kind(kind, lexeme) == kind,
        kind == TokenKind::Identifier ==> {
            &&& keyword_kind(lexeme) != TokenKind::Identifier ==> spec_which_kind(kind, lexeme) == keyword_kind(lexeme)
            &&& (spec_which_kind(kind, lexeme) == TokenKind::Label
                <==> (keyword_kind(lexeme) == TokenKind::Identifier && spec_is_label(lexeme)))
            &&& (spec_which_kind(kind, lexeme) == TokenKind::Identifier
                <==> (keyword_kind(lexeme) == TokenKind::Identifier && !spec_is_label(lexeme)))
        },
        spec_is_label(lexeme) ==> keyword_kind(lexeme) == TokenKind::Identifier,
{
    if spec_is_label(lexeme) {
        assert(is_ascii_digit(lexeme[2]));
        reveal_strlit("function");
        reveal_strlit("locals");
        reveal_strlit("entry");
        reveal_strlit("const");
        reveal_strlit("cast");
        reveal_strlit("un");
        reveal_strlit("bin");
        reveal_strlit("addr_of");
        reveal_strlit("member_ptr");
        reveal_strlit("load");
        reveal_strlit("store");
        reveal_strlit("call");
        reveal_strlit("jump");
        reveal_strlit("cjump");
        reveal_strlit("return");
        reveal_strlit("void");
        reveal_strlit("ptr");
        reveal_strlit("true");
        reveal_strlit("false");
        reveal_strlit("null");
        reveal_strlit("to");
        reveal_strlit("extern");
        reveal_strlit("type");
        reveal_strlit("bool");
        reveal_strlit("i32");
        reveal_strlit("i64");
        reveal_strlit("u32");
        reveal_strlit("f64");
    }
}

/// Sorts an identifier into keyword, label or identifier; other kinds stay.
fn which_kind(kind: TokenKind, lexeme: &str) -> (k: TokenKind)
    ensures
        k == spec_which_kind(kind, lexeme@),
{
    if kind != TokenKind::Identifier {
        return kind;
    }
    let keyword = classify_lexeme(lexeme);
    if keyword != TokenKind::Identifier {
        return keyword;
    }
    if is_label(lexeme) {
        return TokenKind::Label;
    }
    TokenKind::Identifier
}

// ======================= the whole input =======================

/// A character that starts no token, with its line and column.
#[derive(Debug, Clone, Copy, PartialEq, Eq, Structural)]
pub struct LexicalError {
    pub character: char,
    pub line: usize,
    pub col: usize,
}

/// The mathematical value of a lexical error.
pub struct LexicalErrorV {
    pub character: char,
    pub line: nat,
    pub col: nat,
}

impl View for LexicalError {
    type V = LexicalErrorV;

    open spec fn view(&self) -> LexicalErrorV {
        LexicalErrorV { character: self.character, line: self.line as nat, col: self.col as nat }
    }
}

/// The values of a sequence of lexical errors.
pub open spec fn error_values(es: Seq<LexicalError>) -> Seq<LexicalErrorV> {
    es.map_values(|e: LexicalError| e@)
}

proof fn lemma_error_values_push(s: Seq<LexicalError>, e: LexicalError)
    ensures
        error_values(s.push(e)) == error_values(s) + seq![e@],
{
    assert(error_values(s.push(e)) =~= error_values(s) + seq![e@]);
}

proof fn lemma_error_values_push_then(s: Seq<LexicalError>, e: LexicalError, rest: Seq<LexicalErrorV>)
    ensures
        error_values(s.push(e)) + rest == error_values(s) + (seq![e@] + rest),
{
    lemma_error_values_push(s, e);
    assert(error_values(s.push(e)) + rest =~= error_values(s) + (seq![e@] + rest));
}

/// Space, tab, carriage return and newline separate tokens.
pub open spec fn is_whitespace(c: char) -> bool {
    c == ' ' || c == '\t' || c == '\r' || c == '\n'
}

/// The token that `src[pos..end]` forms at the given line and column.
pub open spec fn token_at(src: Seq<char>, pos: int, end: int, line: nat, col: nat) -> TokenV {
    let lexeme = src.subrange(pos, end);
    TokenV {
        kind: spec_which_kind(kind_of_state(dfa_run(lexeme)), lexeme),
        line: line,
        col: col,
        lexeme: lexeme,
    }
}

/// The tokens and lexical errors of `src` from `pos` on, where `pos` is at
/// the given line and column: whitespace is skipped (a newline starts the
/// next line at column 1); at the end of the input comes an `EndOfFile`
/// token with an empty lexeme; elsewhere the longest token is taken, or, if
/// none starts there, the character is reported and skipped.
pub open spec fn scan_from(src: Seq<char>, pos: int, line: nat, col: nat) -> (
    Seq<TokenV>,
    Seq<LexicalErrorV>,
)
    decreases src.len() - pos,
{
    if pos < 0 || pos >= src.len() {
        (
            seq![TokenV { kind: TokenKind::EndOfFile, line: line, col: col, lexeme: Seq::empty() }],
            Seq::empty(),
        )
    } else if is_whitespace(src[pos]) {
        if src[pos] == '\n' {
            scan_from(src, pos + 1, line + 1, 1)
        } else {
            scan_from(src, pos + 1, line, col + 1)
        }
    } else {
        match longest_match(src, pos) {
            Some(end) => {
                let rest = scan_from(src, end, line, (col + (end - pos)) as nat);
                (seq![token_at(src, pos, end, line, col)] + rest.0, rest.1)
            },
            None => {
                let rest = scan_from(src, pos + 1, line, col + 1);
                (rest.0, seq![LexicalErrorV { character: src[pos], line: line, col: col }] + rest.1)
            },
        }
    }
}

/// The tokens and lexical errors of a whole source text, which starts at
/// line 1, column 1.
pub open spec fn scan_source(src: Seq<char>) -> (Seq<TokenV>, Seq<LexicalErrorV>) {
    scan_from(src, 0, 1, 1)
}

/// Lexes the whole input: its tokens, ending with `EndOfFile`, and the
/// characters that start no token.
pub fn scan(input: &str) -> (r: (Vec<Token>, Vec<LexicalError>))
    requires
        input@.len() < usize::MAX,
    ensures
        token_values(r.0@) == scan_source(input@).0,
        error_values(r.1@) == scan_source(input@).1,
{
    let mut pos_in_source: usize = 0;
    let t_table = build_transition_table();
    let source: Vec<char> = chars_of(input);
    let mut tokens: Vec<Token> = Vec::new();
    let mut errors: Vec<LexicalError> = Vec::new();
    let mut line: usize = 1;
    let mut col: usize = 1;
    let ghost src = source@;
    let ghost whole = scan_source(src);
    let mut eof_detected: bool = false;

    while !eof_detected
        invariant
            src == source@,
            src == input@,
            src.len() < usize::MAX,
            is_transition_table(t_table),
            pos_in_source <= src.len(),
            1 <= line <= pos_in_source + 1,
            1 <= col <= pos_in_source + 1,
            !eof_detected ==> whole.0 == token_values(tokens@) + scan_from(
                src,
                pos_in_source as int,
                line as nat,
                col as nat,
            ).0,
            !eof_detected ==> whole.1 == error_values(errors@) + scan_from(
                src,
                pos_in_source as int,
                line as nat,
                col as nat,
            ).1,
            eof_detected ==> whole.0 == token_values(tokens@),
            eof_detected ==> whole.1 == error_values(errors@),
        decreases src.len() - pos_in_source + (if eof_detected { 0int } else { 1int }),
    {
        let ghost round_start: int = pos_in_source as int;
        // skip whitespace
        while pos_in_source < source.len() && (source[pos_in_source] == ' '
            || source[pos_in_source] == '\t' || source[pos_in_source] == '\r'
            || source[pos_in_source] == '\n')
            invariant
                src == source@,
                src.len() < usize::MAX,
                round_start <= pos_in_source <= src.len(),
                1 <= line <= pos_in_source + 1,
                1 <= col <= pos_in_source + 1,
                whole.0 == token_values(tokens@) + scan_from(
                    src,
                    pos_in_source as int,
                    line as nat,
                    col as nat,
                ).0,
                whole.1 == error_values(errors@) + scan_from(
                    src,
                    pos_in_source as int,
                    line as nat,
                    col as nat,
                ).1,
            decreases src.len() - pos_in_source,
        {
            if source[pos_in_source] == '\n' {
                line = line + 1;
                col = 1;
            } else {
                col = col + 1;
            }
            pos_in_source = pos_in_source + 1;
        }

        if pos_in_source >= source.len() {
            eof_detected = true;
            let ghost before = tokens@;
            tokens.push(
                Token {
                    token_kind: TokenKind::EndOfFile,
                    token_attribute: TokenAttribute { line, col, lexeme: String::new() },
                },
            );
            proof {
                assert(token_values(tokens@) =~= token_values(before) + seq![tokens@.last()@]);
            }
        } else {
            let start_col = col;
            let ghost start: int = pos_in_source as int;
            let token = next_token(&source, &mut pos_in_source, &t_table);
            match token {
                Some((found_kind, found_lexeme)) => {
                    let length = found_lexeme.as_str().unicode_len();
                    col = col + length;
                    let kind = which_kind(found_kind, found_lexeme.as_str());
                    proof {
                        lemma_longest_match_unique(src, start, pos_in_source as int);
                    }
                    let ghost before = tokens@;
                    tokens.push(
                        Token {
                            token_kind: kind,
                            token_attribute: TokenAttribute {
                                line,
                                col: start_col,
                                lexeme: found_lexeme,
                            },
                        },
                    );
                    proof {
                        assert(token_values(tokens@) =~= token_values(before) + seq![tokens@.last()@]);
                    }
                },
                None => {
                    let offending_char = source[pos_in_source - 1];
                    proof {
                        lemma_no_match(src, start);
                    }
                    assert(scan_from(src, start, line as nat, start_col as nat) == (
                        scan_from(src, start + 1, line as nat, start_col as nat + 1).0,
                        seq![LexicalErrorV { character: src[start], line: line as nat, col: start_col as nat }]
                            + scan_from(src, start + 1, line as nat, start_col as nat + 1).1,
                    ));
                    let ghost before = errors@;
                    let e = LexicalError { character: offending_char, line, col: start_col };
                    errors.push(e);
                    col = col + 1;
                    proof {
                        assert(errors@ == before.push(e));
                        let rest = scan_from(src, start + 1, line as nat, col as nat).1;
                        assert(scan_from(src, start, line as nat, start_col as nat).1 == seq![e@] + rest);
                        lemma_error_values_push_then(before, e, rest);
                    }
                },
            }
        }
    }
    (tokens, errors)
}

/// The report of one lexical error.
pub open spec fn error_line(e: LexicalErrorV) -> Seq<char> {
    "Lexical Error: Unexpected Character '"@ + seq![e.character] + "' at line "@ + dec(e.line)
        + ", col "@ + dec(e.col)
}

/// The reports of several lexical errors, one per line.
pub open spec fn error_report(es: Seq<LexicalErrorV>) -> Seq<char>
    decreases es.len(),
{
    if es.len() == 0 {
        Seq::empty()
    } else if es.len() == 1 {
        error_line(es[0])
    } else {
        error_report(es.drop_last()) + seq!['\n'] + error_line(es.last())
    }
}

impl LexicalError {
    /// The report of this error:
    /// `Lexical Error: Unexpected Character '{c}' at line {line}, col {col}`.
    pub fn message(&self) -> (s: String)
        ensures
            s@ == error_line(self@),
    {
        let mut s = String::new();
        push_text(&mut s, "Lexical Error: Unexpected Character '");
        push_char(&mut s, self.character);
        push_text(&mut s, "' at line ");
        push_decimal(&mut s, self.line as u64);
        push_text(&mut s, ", col ");
        push_decimal(&mut s, self.col as u64);
        assert(s@ =~= error_line(self@));
        s
    }
}

/// The tokens of the input, ending with `EndOfFile`; characters that start
/// no token are left out.
pub fn produce_token(input: &str) -> (tokens: Vec<Token>)
    requires
        input@.len() < usize::MAX,
    ensures
        token_values(tokens@) == scan_source(input@).0,
{
    let (tokens, _errors) = scan(input);
    tokens
}

/// The tokens of the input, ending with `EndOfFile`, if every character
/// belongs to a token or to whitespace; else the report of every character
/// that starts no token, one per line, in order.
pub fn produce_tokens(input: &str) -> (r: Result<Vec<Token>, String>)
    requires
        input@.len() < usize::MAX,
    ensures
        scan_source(input@).1.len() == 0 <==> r is Ok,
        r matches Ok(tokens) ==> token_values(tokens@) == scan_source(input@).0,
        r matches Err(report) ==> report@ == error_report(scan_source(input@).1),
{
    let (tokens, errors) = scan(input);
    if errors.len() == 0 {
        return Ok(tokens);
    }
    let mut report = String::new();
    let mut i: usize = 0;
    while i < errors.len()
        invariant
            0 <= i <= errors.len(),
            errors@.len() > 0,
            report@ == error_report(error_values(errors@).take(i as int)),
        decreases errors.len() - i,
    {
        if i > 0 {
            push_char(&mut report, '\n');
        }
        let line = errors[i].message();
        push_text(&mut report, line.as_str());
        proof {
            let ev = error_values(errors@);
            assert(ev.take(i + 1).drop_last() =~= ev.take(i as int));
            if i == 0 {
                assert(report@ =~= error_report(ev.take(1)));
            } else {
                assert(report@ =~= error_report(ev.take(i + 1)));
            }
        }
        i = i + 1;
    }
    proof {
        assert(error_values(errors@).take(i as int) =~= error_values(errors@));
    }
    Err(report)
}

// ======================= laws of the lexer =======================

proof fn lemma_scan_from_shape(src: Seq<char>, pos: int, line: nat, col: nat)
    ensures
        scan_from(src, pos, line, col).0.len() >= 1,
        scan_from(src, pos, line, col).0.last().kind == TokenKind::EndOfFile,
        scan_from(src, pos, line, col).0.last().lexeme.len() == 0,
        forall|i: int|
            0 <= i < scan_from(src, pos, line, col).0.len() - 1 ==> {
                let t = #[trigger] scan_from(src, pos, line, col).0[i];
                &&& t.kind != TokenKind::EndOfFile
                &&& t.lexeme.len() > 0
                &&& forall|k: int| 0 <= k < t.lexeme.len() ==> !is_whitespace(#[trigger] t.lexeme[k])
                &&& t.kind == TokenKind::Local ==> t.lexeme[0] == '%'
                &&& t.kind == TokenKind::Label ==> spec_is_label(t.lexeme)
            },
    decreases src.len() - pos,
{
    if pos < 0 || pos >= src.len() {
    } else if is_whitespace(src[pos]) {
        if src[pos] == '\n' {
            lemma_scan_from_shape(src, pos + 1, line + 1, 1);
        } else {
            lemma_scan_from_shape(src, pos + 1, line, col + 1);
        }
    } else {
        match longest_match(src, pos) {
            Some(end) => {
                let rest = scan_from(src, end, line, (col + (end - pos)) as nat);
                lemma_scan_from_shape(src, end, line, (col + (end - pos)) as nat);
                let t = token_at(src, pos, end, line, col);
                lemma_token_not_whitespace(src, pos, end);
                assert(scan_from(src, pos, line, col).0 == seq![t] + rest.0);
                lemma_local_starts_with_percent(t.lexeme);
                assert forall|i: int| 0 <= i < scan_from(src, pos, line, col).0.len() - 1 implies {
                    let u = #[trigger] scan_from(src, pos, line, col).0[i];
                    &&& u.kind != TokenKind::EndOfFile
                    &&& u.lexeme.len() > 0
                    &&& forall|k: int| 0 <= k < u.lexeme.len() ==> !is_whitespace(#[trigger] u.lexeme[k])
                    &&& u.kind == TokenKind::Local ==> u.lexeme[0] == '%'
                    &&& u.kind == TokenKind::Label ==> spec_is_label(u.lexeme)
                } by {
                    if i > 0 {
                        assert(scan_from(src, pos, line, col).0[i] == rest.0[i - 1]);
                    }
                }
            },
            None => {
                lemma_scan_from_shape(src, pos + 1, line, col + 1);
            },
        }
    }
}

/// No token holds whitespace: a whitespace character leads every state to
/// the error state.
proof fn lemma_token_not_whitespace(src: Seq<char>, pos: int, end: int)
    requires
        is_longest_match(src, pos, end),
    ensures
        forall|k: int| 0 <= k < end - pos ==> !is_whitespace(#[trigger] src.subrange(pos, end)[k]),
{
    assert forall|k: int| 0 <= k < end - pos implies !is_whitespace(#[trigger] src.subrange(pos, end)[k]) by {
        if is_whitespace(src.subrange(pos, end)[k]) {
            // the prefix that ends with the whitespace character runs into the error state
            let pre = src.subrange(pos, pos + k + 1);
            assert(pre.drop_last() =~= src.subrange(pos, pos + k));
            assert(pre.last() == src.subrange(pos, end)[k]);
            assert(dfa_run(pre) == State::ErrorState);
            lemma_error_absorbs(src, pos, pos + k + 1, end);
        }
    }
}

/// The lexer's output always ends with an `EndOfFile` token (with an empty
/// lexeme), and no other token is `EndOfFile`; every other token has a
/// non-empty lexeme without whitespace; a local's lexeme starts with `%`,
/// and a label's is `bb` and digits.
pub proof fn law_single_end_of_file(src: Seq<char>)
    ensures
        scan_source(src).0.len() >= 1,
        scan_source(src).0.last().kind == TokenKind::EndOfFile,
        scan_source(src).0.last().lexeme.len() == 0,
        forall|i: int|
            0 <= i < scan_source(src).0.len() - 1 ==> {
                let t = #[trigger] scan_source(src).0[i];
                &&& t.kind != TokenKind::EndOfFile
                &&& t.lexeme.len() > 0
                &&& forall|k: int| 0 <= k < t.lexeme.len() ==> !is_whitespace(#[trigger] t.lexeme[k])
                &&& t.kind == TokenKind::Local ==> t.lexeme[0] == '%'
                &&& t.kind == TokenKind::Label ==> spec_is_label(t.lexeme)
            },
{
    lemma_scan_from_shape(src, 0, 1, 1);
}

/// The characters of a text that are not whitespace, in order.
pub open spec fn without_whitespace(s: Seq<char>) -> Seq<char>
    decreases s.len(),
{
    if s.len() == 0 {
        Seq::empty()
    } else if is_whitespace(s[0]) {
        without_whitespace(s.drop_first())
    } else {
        seq![s[0]] + without_whitespace(s.drop_first())
    }
}

/// The lexemes of a list of tokens, one after the other.
pub open spec fn all_lexemes(ts: Seq<TokenV>) -> Seq<char>
    decreases ts.len(),
{
    if ts.len() == 0 {
        Seq::empty()
    } else {
        ts[0].lexeme + all_lexemes(ts.drop_first())
    }
}

proof fn lemma_without_whitespace_concat(a: Seq<char>, b: Seq<char>)
    ensures
        without_whitespace(a + b) == without_whitespace(a) + without_whitespace(b),
    decreases a.len(),
{
    if a.len() > 0 {
        assert((a + b).drop_first() =~= a.drop_first() + b);
        assert((a + b)[0] == a[0]);
        lemma_without_whitespace_concat(a.drop_first(), b);
        assert(without_whitespace(a + b) =~= without_whitespace(a) + without_whitespace(b));
    } else {
        assert(a + b =~= b);
        assert(without_whitespace(a) + without_whitespace(b) =~= without_whitespace(b));
    }
}

proof fn lemma_without_whitespace_keeps(a: Seq<char>)
    requires
        forall|k: int| 0 <= k < a.len() ==> !is_whitespace(#[trigger] a[k]),
    ensures
        without_whitespace(a) == a,
    decreases a.len(),
{
    if a.len() > 0 {
        assert forall|k: int| 0 <= k < a.drop_first().len() implies !is_whitespace(#[trigger] a.drop_first()[k]) by {
            assert(a.drop_first()[k] == a[k + 1]);
        }
        lemma_without_whitespace_keeps(a.drop_first());
        assert(seq![a[0]] + a.drop_first() =~= a);
    }
}

/// Where no token starts, the character `c` there is reported.
proof fn lemma_scan_from_reports(src: Seq<char>, pos: int, line: nat, col: nat, c: char)
    requires
        0 <= pos < src.len(),
        c == src[pos],
        !is_whitespace(c),
        longest_match(src, pos) is None,
    ensures
        scan_from(src, pos, line, col).1.len() > 0,
{
    let rest = scan_from(src, pos + 1, line, col + 1);
    let e = seq![LexicalErrorV { character: c, line: line, col: col }];
    assert(e.len() == 1);
    assert(scan_from(src, pos, line, col).1 == e + rest.1);
}

proof fn lemma_scan_from_lexemes(src: Seq<char>, pos: int, line: nat, col: nat)
    requires
        0 <= pos <= src.len(),
    ensures
        scan_from(src, pos, line, col).1.len() == 0 ==>
            all_lexemes(scan_from(src, pos, line, col).0) == without_whitespace(src.skip(pos)),
    decreases src.len() - pos,
{
    let r = scan_from(src, pos, line, col);
    if pos >= src.len() {
        assert(src.skip(pos) =~= Seq::<char>::empty());
        assert(r.0.drop_first() =~= Seq::<TokenV>::empty());
        assert(all_lexemes(r.0.drop_first()) == Seq::<char>::empty());
        assert(r.0[0].lexeme =~= Seq::<char>::empty());
        assert(all_lexemes(r.0) =~= Seq::<char>::empty());
        assert(without_whitespace(src.skip(pos)) =~= Seq::<char>::empty());
        assert(all_lexemes(r.0) == without_whitespace(src.skip(pos)));
    } else {
        assert(src.skip(pos)[0] == src[pos]);
        assert(src.skip(pos).drop_first() =~= src.skip(pos + 1));
        if is_whitespace(src[pos]) {
            if src[pos] == '\n' {
                lemma_scan_from_lexemes(src, pos + 1, line + 1, 1);
                assert(r == scan_from(src, pos + 1, line + 1, 1));
            } else {
                lemma_scan_from_lexemes(src, pos + 1, line, col + 1);
                assert(r == scan_from(src, pos + 1, line, col + 1));
            }
            assert(without_whitespace(src.skip(pos)) == without_whitespace(src.skip(pos + 1)));
            assert(r.1.len() == 0 ==> all_lexemes(r.0) == without_whitespace(src.skip(pos)));
        } else {
            match longest_match(src, pos) {
                Some(end) => {
                    let rest = scan_from(src, end, line, (col + (end - pos)) as nat);
                    assert(exists|e: int| is_longest_match(src, pos, e));
                    assert(is_longest_match(src, pos, end));
                    lemma_scan_from_lexemes(src, end, line, (col + (end - pos)) as nat);
                    let t = token_at(src, pos, end, line, col);
                    assert(r.0 == seq![t] + rest.0);
                    assert((seq![t] + rest.0).drop_first() =~= rest.0);
                    assert((seq![t] + rest.0)[0] == t);
                    assert(all_lexemes(r.0) == t.lexeme + all_lexemes(rest.0));
                    lemma_token_not_whitespace(src, pos, end);
                    lemma_without_whitespace_keeps(src.subrange(pos, end));
                    assert(src.skip(pos) =~= src.subrange(pos, end) + src.skip(end));
                    lemma_without_whitespace_concat(src.subrange(pos, end), src.skip(end));
                    assert(r.1 == rest.1);
                    assert(rest.1.len() == 0 ==> all_lexemes(r.0) == without_whitespace(src.skip(pos)));
                },
                None => {
                    lemma_scan_from_reports(src, pos, line, col, src[pos]);
                },
            }
        }
    }
}

/// What the lexer reads without error it reads whole: the lexemes of its
/// tokens, one after the other, are the source text with its whitespace
/// left out.
pub proof fn law_lexing_loses_only_whitespace(src: Seq<char>)
    ensures
        scan_source(src).1.len() == 0 ==> all_lexemes(scan_source(src).0) == without_whitespace(src),
{
    lemma_scan_from_lexemes(src, 0, 1, 1);
    assert(src.skip(0) =~= src);
}

/// Every character is an ASCII digit.
pub open spec fn all_ascii_digits(s: Seq<char>) -> bool {
    forall|i: int| 0 <= i < s.len() ==> is_ascii_digit(#[trigger] s[i])
}

proof fn lemma_digits_run(d: Seq<char>)
    requires
        d.len() > 0,
        all_ascii_digits(d),
    ensures
        dfa_run(d) == State::ConsumedDigit,
    decreases d.len(),
{
    let prev = d.drop_last();
    assert(is_ascii_digit(d[d.len() - 1]));
    assert(spec_char_to_cat(Some(d.last())) == Cat::Digit);
    if prev.len() > 0 {
        assert forall|i: int| 0 <= i < prev.len() implies is_ascii_digit(#[trigger] prev[i]) by {
            assert(prev[i] == d[i]);
        }
        lemma_digits_run(prev);
    } else {
        assert(prev =~= Seq::<char>::empty());
    }
}

proof fn lemma_fraction_run(whole: Seq<char>, frac: Seq<char>)
    requires
        whole.len() > 0,
        all_ascii_digits(whole),
        frac.len() > 0,
        all_ascii_digits(frac),
    ensures
        dfa_run(whole + seq!['.'] + frac) == State::ConsumedFloat,
    decreases frac.len(),
{
    let s = whole + seq!['.'] + frac;
    assert(is_ascii_digit(frac[frac.len() - 1]));
    assert(s.last() == frac.last());
    assert(spec_char_to_cat(Some(s.last())) == Cat::Digit);
    let shorter = frac.drop_last();
    assert(s.drop_last() =~= whole + seq!['.'] + shorter);
    if shorter.len() > 0 {
        assert forall|i: int| 0 <= i < shorter.len() implies is_ascii_digit(#[trigger] shorter[i]) by {
            assert(shorter[i] == frac[i]);
        }
        lemma_fraction_run(whole, shorter);
    } else {
        let point = whole + seq!['.'];
        assert(whole + seq!['.'] + shorter =~= point);
        assert(point.drop_last() =~= whole);
        assert(point.last() == '.');
        lemma_digits_run(whole);
        assert(dfa_run(point) == State::ConsumedFullstop);
    }
}

/// A decimal fraction (one or more digits, a `.`, one or more digits) is
/// read whole as a single float literal: the lexer gives that one token,
/// whose lexeme is the whole text, then the end of the input, and no error.
pub proof fn law_decimal_fraction_is_one_float(whole: Seq<char>, frac: Seq<char>)
    requires
        whole.len() > 0,
        all_ascii_digits(whole),
        frac.len() > 0,
        all_ascii_digits(frac),
    ensures
        scan_source(whole + seq!['.'] + frac).0.len() == 2,
        scan_source(whole + seq!['.'] + frac).0[0].kind == TokenKind::FloatLiteral,
        scan_source(whole + seq!['.'] + frac).0[0].lexeme == whole + seq!['.'] + frac,
        scan_source(whole + seq!['.'] + frac).0[1].kind == TokenKind::EndOfFile,
        scan_source(whole + seq!['.'] + frac).1.len() == 0,
{
    let s = whole + seq!['.'] + frac;
    let n = s.len() as int;
    lemma_fraction_run(whole, frac);
    assert(s.subrange(0, n) =~= s);
    assert(accepts(s, 0, n));
    assert(is_longest_match(s, 0, n));
    lemma_longest_match_unique(s, 0, n);
    assert(s[0] == whole[0]);
    assert(is_ascii_digit(whole[0]));
    assert(!is_whitespace(s[0]));
    let rest = scan_from(s, n, 1, (1 + n) as nat);
    let t = token_at(s, 0, n, 1, 1);
    assert(scan_from(s, 0, 1, 1).0 == seq![t] + rest.0);
    assert(scan_from(s, 0, 1, 1).1 == rest.1);
    assert(t.kind == TokenKind::FloatLiteral);
}

/// Only `%` leads the automaton to the states of a local.
proof fn lemma_local_starts_with_percent(s: Seq<char>)
    ensures
        (dfa_run(s) == State::ConsumedPercent || dfa_run(s) == State::ConsumedLocal) ==> s.len() > 0 && s[0] == '%',
    decreases s.len(),
{
    if s.len() > 0 {
        let prev = s.drop_last();
        lemma_local_starts_with_percent(prev);
        lemma_start_only_empty(prev);
        if prev.len() == 0 {
            assert(s.last() == s[0]);
        } else {
            assert(prev[0] == s[0]);
        }
    }
}

/// The start state is reached on the empty text only: no edge leads to it.
proof fn lemma_start_only_empty(s: Seq<char>)
    ensures
        dfa_run(s) == State::StartState ==> s.len() == 0,
{
}

} // verus!
