//! The deterministic finite automaton that recognises ResIR's tokens:
//! its states, the character categories on its edges, and its transition
//! table (`table[state][category]` is the next state).

use vstd::prelude::*;
use super::tokens::TokenKind;

verus! {

/// A state of the automaton.
#[derive(Copy, Clone, PartialEq, Eq, Structural)]
pub enum State {
    StartState,
    // not accepting: more characters are needed
    ConsumedMinus,
    ConsumedPercent,
    ConsumedFullstop,
    // accepting, may continue
    ConsumedLocal,
    ConsumedIdent,
    ConsumedDigit,
    ConsumedFloat,
    ConsumedColon,
    // accepting, cannot continue
    ConsumedPathSep,
    ConsumedArrow,
    ConsumedLBrack,
    ConsumedRBrack,
    ConsumedLCurly,
    ConsumedRCurly,
    ConsumedSemiColon,
    ConsumedGreaterThan,
    ConsumedLessThan,
    ConsumedEquals,
    ConsumedComma,
    // the error state, which no edge leaves
    ErrorState,
}

/// The number of states (rows of the table).
pub const STATE_COUNT: usize = 21;

/// A category of characters (columns of the table).
#[derive(Copy, Clone, PartialEq, Eq, Structural)]
pub enum Cat {
    Letter,
    Digit,
    LBrack,
    RBrack,
    LCurly,
    RCurly,
    Percent,
    Colon,
    SemiColon,
    Whitespace,
    Minus,
    GreaterThan,
    LessThan,
    Equals,
    Comma,
    Fullstop,
    EndOfFile,
    Invalid,
}

/// The number of categories (columns of the table).
pub const CAT_COUNT: usize = 18;

/// The states in which a token may end.
pub open spec fn spec_is_accepting(state: State) -> bool {
    match state {
        State::StartState | State::ConsumedMinus | State::ConsumedPercent
        | State::ConsumedFullstop | State::ErrorState => false,
        _ => true,
    }
}

/// Whether a token may end in `state`.
pub fn is_accepting(state: State) -> (r: bool)
    ensures
        r == spec_is_accepting(state),
{
    match state {
        State::StartState | State::ConsumedMinus | State::ConsumedPercent
        | State::ConsumedFullstop | State::ErrorState => false,
        _ => true,
    }
}

/// The kind of the token that ends in an accepting state; `None` for the
/// other states.
pub open spec fn spec_state_to_token(state: State) -> Option<TokenKind> {
    match state {
        State::ConsumedIdent => Some(TokenKind::Identifier),
        State::ConsumedLocal => Some(TokenKind::Local),
        State::ConsumedDigit => Some(TokenKind::IntegerLiteral),
        State::ConsumedFloat => Some(TokenKind::FloatLiteral),
        State::ConsumedColon => Some(TokenKind::Colon),
        State::ConsumedPathSep => Some(TokenKind::PathSep),
        State::ConsumedArrow => Some(TokenKind::Arrow),
        State::ConsumedLBrack => Some(TokenKind::LBracket),
        State::ConsumedRBrack => Some(TokenKind::RBracket),
        State::ConsumedLCurly => Some(TokenKind::LCurly),
        State::ConsumedRCurly => Some(TokenKind::RCurly),
        State::ConsumedSemiColon => Some(TokenKind::SemiColon),
        State::ConsumedGreaterThan => Some(TokenKind::GreaterThan),
        State::ConsumedLessThan => Some(TokenKind::LessThan),
        State::ConsumedEquals => Some(TokenKind::Equals),
        State::ConsumedComma => Some(TokenKind::Comma),
        _ => None,
    }
}

/// The kind of the token that ends in `state`, if it is accepting.
pub fn state_to_token(state: State) -> (r: Option<TokenKind>)
    ensures
        r == spec_state_to_token(state),
{
    match state {
        State::ConsumedIdent => Some(TokenKind::Identifier),
        State::ConsumedLocal => Some(TokenKind::Local),
        State::ConsumedDigit => Some(TokenKind::IntegerLiteral),
        State::ConsumedFloat => Some(TokenKind::FloatLiteral),
        State::ConsumedColon => Some(TokenKind::Colon),
        State::ConsumedPathSep => Some(TokenKind::PathSep),
        State::ConsumedArrow => Some(TokenKind::Arrow),
        State::ConsumedLBrack => Some(TokenKind::LBracket),
        State::ConsumedRBrack => Some(TokenKind::RBracket),
        State::ConsumedLCurly => Some(TokenKind::LCurly),
        State::ConsumedRCurly => Some(TokenKind::RCurly),
        State::ConsumedSemiColon => Some(TokenKind::SemiColon),
        State::ConsumedGreaterThan => Some(TokenKind::GreaterThan),
        State::ConsumedLessThan => Some(TokenKind::LessThan),
        State::ConsumedEquals => Some(TokenKind::Equals),
        State::ConsumedComma => Some(TokenKind::Comma),
        _ => None,
    }
}

/// The category of a character; `None` stands for the end of the input.
pub open spec fn spec_char_to_cat(c: Option<char>) -> Cat {
    match c {
        None => Cat::EndOfFile,
        Some(ch) => {
            if ('A' <= ch && ch <= 'Z') || ('a' <= ch && ch <= 'z') || ch == '_' {
                Cat::Letter
            } else if '0' <= ch && ch <= '9' {
                Cat::Digit
            } else if ch == '(' {
                Cat::LBrack
            } else if ch == ')' {
                Cat::RBrack
            } else if ch == '{' {
                Cat::LCurly
            } else if ch == '}' {
                Cat::RCurly
            } else if ch == '%' {
                Cat::Percent
            } else if ch == ':' {
                Cat::Colon
            } else if ch == ';' {
                Cat::SemiColon
            } else if ch == ' ' || ch == '\t' || ch == '\r' || ch == '\n' {
                Cat::Whitespace
            } else if ch == '-' {
                Cat::Minus
            } else if ch == '>' {
                Cat::GreaterThan
            } else if ch == '<' {
                Cat::LessThan
            } else if ch == '=' {
                Cat::Equals
            } else if ch == ',' {
                Cat::Comma
            } else if ch == '.' {
                Cat::Fullstop
            } else {
                Cat::Invalid
            }
        },
    }
}

/// The category of a character; `None` stands for the end of the input.
pub fn char_to_cat(c: Option<char>) -> (r: Cat)
    ensures
        r == spec_char_to_cat(c),
{
    match c {
        None => Cat::EndOfFile,
        Some(ch) => {
            if ('A' <= ch && ch <= 'Z') || ('a' <= ch && ch <= 'z') || ch == '_' {
                Cat::Letter
            } else if '0' <= ch && ch <= '9' {
                Cat::Digit
            } else if ch == '(' {
                Cat::LBrack
            } else if ch == ')' {
                Cat::RBrack
            } else if ch == '{' {
                Cat::LCurly
            } else if ch == '}' {
                Cat::RCurly
            } else if ch == '%' {
                Cat::Percent
            } else if ch == ':' {
                Cat::Colon
            } else if ch == ';' {
                Cat::SemiColon
            } else if ch == ' ' || ch == '\t' || ch == '\r' || ch == '\n' {
                Cat::Whitespace
            } else if ch == '-' {
                Cat::Minus
            } else if ch == '>' {
                Cat::GreaterThan
            } else if ch == '<' {
                Cat::LessThan
            } else if ch == '=' {
                Cat::Equals
            } else if ch == ',' {
                Cat::Comma
            } else if ch == '.' {
                Cat::Fullstop
            } else {
                Cat::Invalid
            }
        },
    }
}

/// The edges of the automaton: the state reached from `s` on a character of
/// category `c`. Every edge not listed leads to the error state.
pub open spec fn delta(s: State, c: Cat) -> State {
    match (s, c) {
        // identifiers: a letter, then letters and digits
        (State::StartState, Cat::Letter) => State::ConsumedIdent,
        (State::ConsumedIdent, Cat::Letter) => State::ConsumedIdent,
        (State::ConsumedIdent, Cat::Digit) => State::ConsumedIdent,
        // locals: `%`, a letter, then letters and digits
        (State::StartState, Cat::Percent) => State::ConsumedPercent,
        (State::ConsumedPercent, Cat::Letter) => State::ConsumedLocal,
        (State::ConsumedLocal, Cat::Letter) => State::ConsumedLocal,
        (State::ConsumedLocal, Cat::Digit) => State::ConsumedLocal,
        // integer and float literals
        (State::StartState, Cat::Digit) => State::ConsumedDigit,
        (State::ConsumedDigit, Cat::Digit) => State::ConsumedDigit,
        (State::ConsumedDigit, Cat::Fullstop) => State::ConsumedFullstop,
        (State::ConsumedFullstop, Cat::Digit) => State::ConsumedFloat,
        (State::ConsumedFloat, Cat::Digit) => State::ConsumedFloat,
        // `:` and `::`
        (State::StartState, Cat::Colon) => State::ConsumedColon,
        (State::ConsumedColon, Cat::Colon) => State::ConsumedPathSep,
        // `->`
        (State::StartState, Cat::Minus) => State::ConsumedMinus,
        (State::ConsumedMinus, Cat::GreaterThan) => State::ConsumedArrow,
        // one-character punctuation
        (State::StartState, Cat::LBrack) => State::ConsumedLBrack,
        (State::StartState, Cat::RBrack) => State::ConsumedRBrack,
        (State::StartState, Cat::LCurly) => State::ConsumedLCurly,
        (State::StartState, Cat::RCurly) => State::ConsumedRCurly,
        (State::StartState, Cat::SemiColon) => State::ConsumedSemiColon,
        (State::StartState, Cat::GreaterThan) => State::ConsumedGreaterThan,
        (State::StartState, Cat::LessThan) => State::ConsumedLessThan,
        (State::StartState, Cat::Equals) => State::ConsumedEquals,
        (State::StartState, Cat::Comma) => State::ConsumedComma,
        _ => State::ErrorState,
    }
}

/// The row of a state in the table.
pub open spec fn spec_state_index(s: State) -> int {
    match s {
        State::StartState => 0,
        State::ConsumedMinus => 1,
        State::ConsumedPercent => 2,
        State::ConsumedFullstop => 3,
        State::ConsumedLocal => 4,
        State::ConsumedIdent => 5,
        State::ConsumedDigit => 6,
        State::ConsumedFloat => 7,
        State::ConsumedColon => 8,
        State::ConsumedPathSep => 9,
        State::ConsumedArrow => 10,
        State::ConsumedLBrack => 11,
        State::ConsumedRBrack => 12,
        State::ConsumedLCurly => 13,
        State::ConsumedRCurly => 14,
        State::ConsumedSemiColon => 15,
        State::ConsumedGreaterThan => 16,
        State::ConsumedLessThan => 17,
        State::ConsumedEquals => 18,
        State::ConsumedComma => 19,
        State::ErrorState => 20,
    }
}

/// The row of a state in the table (its position in the declaration).
pub fn state_index(s: State) -> (i: usize)
    ensures
        i == spec_state_index(s),
        i < STATE_COUNT,
{
    match s {
        State::StartState => 0,
        State::ConsumedMinus => 1,
        State::ConsumedPercent => 2,
        State::ConsumedFullstop => 3,
        State::ConsumedLocal => 4,
        State::ConsumedIdent => 5,
        State::ConsumedDigit => 6,
        State::ConsumedFloat => 7,
        State::ConsumedColon => 8,
        State::ConsumedPathSep => 9,
        State::ConsumedArrow => 10,
        State::ConsumedLBrack => 11,
        State::ConsumedRBrack => 12,
        State::ConsumedLCurly => 13,
        State::ConsumedRCurly => 14,
        State::ConsumedSemiColon => 15,
        State::ConsumedGreaterThan => 16,
        State::ConsumedLessThan => 17,
        State::ConsumedEquals => 18,
        State::ConsumedComma => 19,
        State::ErrorState => 20,
    }
}

/// The column of a category in the table.
pub open spec fn spec_cat_index(c: Cat) -> int {
    match c {
        Cat::Letter => 0,
        Cat::Digit => 1,
        Cat::LBrack => 2,
        Cat::RBrack => 3,
        Cat::LCurly => 4,
        Cat::RCurly => 5,
        Cat::Percent => 6,
        Cat::Colon => 7,
        Cat::SemiColon => 8,
        Cat::Whitespace => 9,
        Cat::Minus => 10,
        Cat::GreaterThan => 11,
        Cat::LessThan => 12,
        Cat::Equals => 13,
        Cat::Comma => 14,
        Cat::Fullstop => 15,
        Cat::EndOfFile => 16,
        Cat::Invalid => 17,
    }
}

/// The column of a category in the table (its position in the declaration).
pub fn cat_index(c: Cat) -> (i: usize)
    ensures
        i == spec_cat_index(c),
        i < CAT_COUNT,
{
    match c {
        Cat::Letter => 0,
        Cat::Digit => 1,
        Cat::LBrack => 2,
        Cat::RBrack => 3,
        Cat::LCurly => 4,
        Cat::RCurly => 5,
        Cat::Percent => 6,
        Cat::Colon => 7,
        Cat::SemiColon => 8,
        Cat::Whitespace => 9,
        Cat::Minus => 10,
        Cat::GreaterThan => 11,
        Cat::LessThan => 12,
        Cat::Equals => 13,
        Cat::Comma => 14,
        Cat::Fullstop => 15,
        Cat::EndOfFile => 16,
        Cat::Invalid => 17,
    }
}

/// The table holds the automaton: each cell is the edge from its row's state
/// on its column's category.
pub open spec fn is_transition_table(t: [[State; CAT_COUNT]; STATE_COUNT]) -> bool {
    forall|s: State, c: Cat|
        #[trigger] t[spec_state_index(s)][spec_cat_index(c)] == delta(s, c)
}

/// Builds the transition table of the automaton.
pub fn build_transition_table() -> (t: [[State; CAT_COUNT]; STATE_COUNT])
    ensures
        is_transition_table(t),
{
    let mut t = [[State::ErrorState; CAT_COUNT]; STATE_COUNT];
    // identifiers
    t[0][0] = State::ConsumedIdent;
    t[5][0] = State::ConsumedIdent;
    t[5][1] = State::ConsumedIdent;
    // locals
    t[0][6] = State::ConsumedPercent;
    t[2][0] = State::ConsumedLocal;
    t[4][0] = State::ConsumedLocal;
    t[4][1] = State::ConsumedLocal;
    // integers and floats
    t[0][1] = State::ConsumedDigit;
    t[6][1] = State::ConsumedDigit;
    t[6][15] = State::ConsumedFullstop;
    t[3][1] = State::ConsumedFloat;
    t[7][1] = State::ConsumedFloat;
    // colon and path separator
    t[0][7] = State::ConsumedColon;
    t[8][7] = State::ConsumedPathSep;
    // arrow
    t[0][10] = State::ConsumedMinus;
    t[1][11] = State::ConsumedArrow;
    // punctuation
    t[0][2] = State::ConsumedLBrack;
    t[0][3] = State::ConsumedRBrack;
    t[0][4] = State::ConsumedLCurly;
    t[0][5] = State::ConsumedRCurly;
    t[0][8] = State::ConsumedSemiColon;
    t[0][11] = State::ConsumedGreaterThan;
    t[0][12] = State::ConsumedLessThan;
    t[0][13] = State::ConsumedEquals;
    t[0][14] = State::ConsumedComma;
    assert forall|s: State, c: Cat|
        #[trigger] t[spec_state_index(s)][spec_cat_index(c)] == delta(s, c) by {
        match s {
            State::StartState => { match c { _ => {} } },
            _ => {},
        }
    }
    t
}

} // verus!
