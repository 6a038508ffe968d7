//! The tokens that the lexer hands to the parser.

use vstd::prelude::*;
use crate::text::{push_char, push_decimal, push_text, dec};

verus! {

/// A token: its kind and where and how it was written.
#[derive(Debug, Clone, PartialEq, Eq)]
pub struct Token {
    pub token_kind: TokenKind,
    pub token_attribute: TokenAttribute,
}

/// The position (1-based line and column of the first character) and the
/// lexeme (the source text) of a token.
#[derive(Debug, Clone, PartialEq, Eq)]
pub struct TokenAttribute {
    pub line: usize,
    pub col: usize,
    pub lexeme: String,
}

/// Every kind of token of ResIR.
#[allow(non_camel_case_types)]
#[derive(Debug, Clone, Copy, PartialEq, Eq, Structural)]
pub enum TokenKind {
    // keywords
    Function,
    Locals,
    Entry,
    Const,
    Cast,
    Un,
    Bin,
    Addr_of,
    Member_ptr,
    Load,
    Store,
    Call,
    Jump,
    CJump,
    Return,
    Void,
    Ptr,
    True,
    False,
    Null,
    To,
    Extern,
    Type,
    // primitive type names
    Bool,
    I32,
    I64,
    U32,
    F64,
    // identifiers, locals (`%name`) and labels (`bbN`)
    Identifier,
    Local,
    Label,
    // literals
    IntegerLiteral,
    FloatLiteral,
    // punctuation
    LBracket,
    RBracket,
    LCurly,
    RCurly,
    Arrow,
    Colon,
    SemiColon,
    Equals,
    Comma,
    LessThan,
    GreaterThan,
    PathSep,
    // end of input
    EndOfFile,
}

/// The mathematical value of a token.
pub struct TokenV {
    pub kind: TokenKind,
    pub line: nat,
    pub col: nat,
    pub lexeme: Seq<char>,
}

impl View for Token {
    type V = TokenV;

    open spec fn view(&self) -> TokenV {
        TokenV {
            kind: self.token_kind,
            line: self.token_attribute.line as nat,
            col: self.token_attribute.col as nat,
            lexeme: self.token_attribute.lexeme@,
        }
    }
}

/// The values of a sequence of tokens.
pub open spec fn token_values(ts: Seq<Token>) -> Seq<TokenV> {
    ts.map_values(|t: Token| t@)
}

/// The name of a token kind, as `Debug` writes it.
pub open spec fn kind_name(k: TokenKind) -> Seq<char> {
    match k {
        TokenKind::Function => "Function"@,
        TokenKind::Locals => "Locals"@,
        TokenKind::Entry => "Entry"@,
        TokenKind::Const => "Const"@,
        TokenKind::Cast => "Cast"@,
        TokenKind::Un => "Un"@,
        TokenKind::Bin => "Bin"@,
        TokenKind::Addr_of => "Addr_of"@,
        TokenKind::Member_ptr => "Member_ptr"@,
        TokenKind::Load => "Load"@,
        TokenKind::Store => "Store"@,
        TokenKind::Call => "Call"@,
        TokenKind::Jump => "Jump"@,
        TokenKind::CJump => "CJump"@,
        TokenKind::Return => "Return"@,
        TokenKind::Void => "Void"@,
        TokenKind::Ptr => "Ptr"@,
        TokenKind::True => "True"@,
        TokenKind::False => "False"@,
        TokenKind::Null => "Null"@,
        TokenKind::To => "To"@,
        TokenKind::Extern => "Extern"@,
        TokenKind::Type => "Type"@,
        TokenKind::Bool => "Bool"@,
        TokenKind::I32 => "I32"@,
        TokenKind::I64 => "I64"@,
        TokenKind::U32 => "U32"@,
        TokenKind::F64 => "F64"@,
        TokenKind::Identifier => "Identifier"@,
        TokenKind::Local => "Local"@,
        TokenKind::Label => "Label"@,
        TokenKind::IntegerLiteral => "IntegerLiteral"@,
        TokenKind::FloatLiteral => "FloatLiteral"@,
        TokenKind::LBracket => "LBracket"@,
        TokenKind::RBracket => "RBracket"@,
        TokenKind::LCurly => "LCurly"@,
        TokenKind::RCurly => "RCurly"@,
        TokenKind::Arrow => "Arrow"@,
        TokenKind::Colon => "Colon"@,
        TokenKind::SemiColon => "SemiColon"@,
        TokenKind::Equals => "Equals"@,
        TokenKind::Comma => "Comma"@,
        TokenKind::LessThan => "LessThan"@,
        TokenKind::GreaterThan => "GreaterThan"@,
        TokenKind::PathSep => "PathSep"@,
        TokenKind::EndOfFile => "EndOfFile"@,
    }
}

/// The name of a token kind, as `Debug` writes it.
pub fn kind_text(k: TokenKind) -> (s: &'static str)
    ensures
        s@ == kind_name(k),
{
    match k {
        TokenKind::Function => "Function",
        TokenKind::Locals => "Locals",
        TokenKind::Entry => "Entry",
        TokenKind::Const => "Const",
        TokenKind::Cast => "Cast",
        TokenKind::Un => "Un",
        TokenKind::Bin => "Bin",
        TokenKind::Addr_of => "Addr_of",
        TokenKind::Member_ptr => "Member_ptr",
        TokenKind::Load => "Load",
        TokenKind::Store => "Store",
        TokenKind::Call => "Call",
        TokenKind::Jump => "Jump",
        TokenKind::CJump => "CJump",
        TokenKind::Return => "Return",
        TokenKind::Void => "Void",
        TokenKind::Ptr => "Ptr",
        TokenKind::True => "True",
        TokenKind::False => "False",
        TokenKind::Null => "Null",
        TokenKind::To => "To",
        TokenKind::Extern => "Extern",
        TokenKind::Type => "Type",
        TokenKind::Bool => "Bool",
        TokenKind::I32 => "I32",
        TokenKind::I64 => "I64",
        TokenKind::U32 => "U32",
        TokenKind::F64 => "F64",
        TokenKind::Identifier => "Identifier",
        TokenKind::Local => "Local",
        TokenKind::Label => "Label",
        TokenKind::IntegerLiteral => "IntegerLiteral",
        TokenKind::FloatLiteral => "FloatLiteral",
        TokenKind::LBracket => "LBracket",
        TokenKind::RBracket => "RBracket",
        TokenKind::LCurly => "LCurly",
        TokenKind::RCurly => "RCurly",
        TokenKind::Arrow => "Arrow",
        TokenKind::Colon => "Colon",
        TokenKind::SemiColon => "SemiColon",
        TokenKind::Equals => "Equals",
        TokenKind::Comma => "Comma",
        TokenKind::LessThan => "LessThan",
        TokenKind::GreaterThan => "GreaterThan",
        TokenKind::PathSep => "PathSep",
        TokenKind::EndOfFile => "EndOfFile",
    }
}

/// `n` spaces.
pub open spec fn spaces(n: nat) -> Seq<char>
    decreases n,
{
    if n == 0 { Seq::empty() } else { spaces((n - 1) as nat).push(' ') }
}

/// Left-aligned text in a field of at least `width` characters
/// (what the format spec `{:<width}` gives).
pub open spec fn pad_right(s: Seq<char>, width: nat) -> Seq<char> {
    if s.len() < width { s + spaces((width - s.len()) as nat) } else { s }
}

/// The one-line description of a token:
/// `Token Kind: {kind:<12} Lexeme: {lexeme:<25} Line: {line:<3} Col: {col:<3}`.
pub open spec fn token_line(t: TokenV) -> Seq<char> {
    "Token Kind: "@ + pad_right(kind_name(t.kind), 12) + " Lexeme: "@ + pad_right(t.lexeme, 25)
        + " Line: "@ + pad_right(dec(t.line), 3) + " Col: "@ + pad_right(dec(t.col), 3)
}

/// Appends the characters of `t`, then spaces up to `width` characters in all.
fn push_padded(s: &mut String, t: &str, width: usize)
    ensures
        final(s)@ == old(s)@ + pad_right(t@, width as nat),
{
    push_text(s, t);
    let n = t.unicode_len();
    assert(s@ =~= old(s)@ + t@ + spaces(0));
    let mut k: usize = n;
    while k < width
        invariant
            n == t@.len(),
            n <= k,
            k <= width || k == n,
            s@ == old(s)@ + t@ + spaces((k - n) as nat),
        decreases width - k,
    {
        push_char(s, ' ');
        k = k + 1;
        assert(spaces((k - n) as nat) == spaces((k - 1 - n) as nat).push(' '));
        assert(s@ =~= old(s)@ + t@ + spaces((k - n) as nat));
    }
    assert(final(s)@ =~= old(s)@ + pad_right(t@, width as nat));
}

impl Token {
    /// The one-line description of this token used when listing tokens.
    pub fn describe(&self) -> (s: String)
        ensures
            s@ == token_line(self@),
    {
        let mut s = String::new();
        push_text(&mut s, "Token Kind: ");
        push_padded(&mut s, kind_text(self.token_kind), 12);
        push_text(&mut s, " Lexeme: ");
        push_padded(&mut s, self.token_attribute.lexeme.as_str(), 25);
        push_text(&mut s, " Line: ");
        let line = crate::text::decimal_string(self.token_attribute.line as u64);
        push_padded(&mut s, line.as_str(), 3);
        push_text(&mut s, " Col: ");
        let col = crate::text::decimal_string(self.token_attribute.col as u64);
        push_padded(&mut s, col.as_str(), 3);
        assert(s@ =~= token_line(self@));
        s
    }
}

} // verus!
