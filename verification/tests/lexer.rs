use resir::lexer::lexer_core::{produce_token, produce_tokens, scan};
use resir::lexer::table::{
    build_transition_table, char_to_cat, is_accepting, state_to_token, Cat, State, CAT_COUNT, STATE_COUNT,
};
use resir::lexer::tokens::{kind_text, Token, TokenAttribute, TokenKind};

const INVALID_BAD_SYNTAX: &str = "
bla bla nonsense !!! @function $$$
";

fn lex(input: &str) -> Result<String, String> {
    let tokens = produce_tokens(input)?;
    let mut kinds = Vec::new();

    for token in &tokens {
        kinds.push(token.token_kind.clone());
    }

    Ok(format!("{:?}", kinds))
}

const QUICK_LEXER: &[(&str, &str)] = &[
    ("%x = const 0;", "[Local, Equals, Const, IntegerLiteral, SemiColon, EndOfFile]"),
    (
        "ptr<i32> Custom::Struct::Point bb3:",
        "[Ptr, LessThan, I32, GreaterThan, Identifier, PathSep, Identifier, PathSep, Identifier, Label, Colon, EndOfFile]",
    ),
];

#[test]
fn lexer_produces_correct_tokens() {
    for &(input, expected) in QUICK_LEXER {
        assert_eq!(lex(input).unwrap(), expected, "for input:\n{}", input);
    }
}

#[test]
fn lexer_returns_error_for_bad_characters() {
    let result = produce_tokens(INVALID_BAD_SYNTAX);

    assert!(result.is_err());

    let message = result.unwrap_err();
    assert!(message.contains("Lexical Error"));
}

#[test]
fn bad_characters_are_each_reported_in_order() {
    let report = produce_tokens(INVALID_BAD_SYNTAX).unwrap_err();
    let expected = [
        "Lexical Error: Unexpected Character '!' at line 2, col 18",
        "Lexical Error: Unexpected Character '!' at line 2, col 19",
        "Lexical Error: Unexpected Character '!' at line 2, col 20",
        "Lexical Error: Unexpected Character '@' at line 2, col 22",
        "Lexical Error: Unexpected Character '$' at line 2, col 32",
        "Lexical Error: Unexpected Character '$' at line 2, col 33",
        "Lexical Error: Unexpected Character '$' at line 2, col 34",
    ]
    .join("\n");
    assert_eq!(report, expected);
}

#[test]
fn lone_percent_and_minus_are_errors() {
    assert_eq!(
        produce_tokens("%").unwrap_err(),
        "Lexical Error: Unexpected Character '%' at line 1, col 1"
    );
    assert_eq!(
        produce_tokens("a -").unwrap_err(),
        "Lexical Error: Unexpected Character '-' at line 1, col 3"
    );
}

#[test]
fn produce_token_skips_bad_characters() {
    let tokens = produce_token("a ! b");
    let kinds: Vec<TokenKind> = tokens.iter().map(|t| t.token_kind).collect();
    assert_eq!(kinds, vec![TokenKind::Identifier, TokenKind::Identifier, TokenKind::EndOfFile]);
    assert_eq!(tokens[1].token_attribute.col, 5);
    let (tokens, errors) = scan("a ! b");
    assert_eq!(tokens.len(), 3);
    assert_eq!(errors.len(), 1);
    assert_eq!(errors[0].character, '!');
    assert_eq!(errors[0].line, 1);
    assert_eq!(errors[0].col, 3);
    assert_eq!(errors[0].message(), "Lexical Error: Unexpected Character '!' at line 1, col 3");
}

#[test]
fn tokens_carry_lexeme_line_and_column() {
    let tokens = produce_tokens("%x = const 0;\n  bb12:").unwrap();
    let seen: Vec<(TokenKind, String, usize, usize)> = tokens
        .iter()
        .map(|t| (t.token_kind, t.token_attribute.lexeme.clone(), t.token_attribute.line, t.token_attribute.col))
        .collect();
    assert_eq!(
        seen,
        vec![
            (TokenKind::Local, "%x".to_string(), 1, 1),
            (TokenKind::Equals, "=".to_string(), 1, 4),
            (TokenKind::Const, "const".to_string(), 1, 6),
            (TokenKind::IntegerLiteral, "0".to_string(), 1, 12),
            (TokenKind::SemiColon, ";".to_string(), 1, 13),
            (TokenKind::Label, "bb12".to_string(), 2, 3),
            (TokenKind::Colon, ":".to_string(), 2, 7),
            (TokenKind::EndOfFile, "".to_string(), 2, 8),
        ]
    );
}

#[test]
fn empty_input_is_only_end_of_file() {
    let tokens = produce_tokens("").unwrap();
    assert_eq!(tokens.len(), 1);
    assert_eq!(tokens[0].token_kind, TokenKind::EndOfFile);
    assert_eq!(tokens[0].token_attribute.line, 1);
    assert_eq!(tokens[0].token_attribute.col, 1);
    assert_eq!(tokens[0].token_attribute.lexeme, "");
    let tokens = produce_tokens(" \t\r\n\n ").unwrap();
    assert_eq!(tokens.len(), 1);
    assert_eq!(tokens[0].token_attribute.line, 3);
    assert_eq!(tokens[0].token_attribute.col, 2);
}

#[test]
fn longest_match_wins() {
    assert_eq!(lex("->::").unwrap(), "[Arrow, PathSep, EndOfFile]");
    assert_eq!(lex(":: : :").unwrap(), "[PathSep, Colon, Colon, EndOfFile]");
    assert_eq!(lex("12.5 7").unwrap(), "[FloatLiteral, IntegerLiteral, EndOfFile]");
    assert_eq!(lex("bb12 bbx bb b1 functions").unwrap(), "[Label, Identifier, Identifier, Identifier, Identifier, EndOfFile]");
    assert_eq!(lex("%a_1b").unwrap(), "[Local, EndOfFile]");
    let tokens = produce_tokens("12.5").unwrap();
    assert_eq!(tokens[0].token_attribute.lexeme, "12.5");
}

#[test]
fn keywords_are_recognised() {
    assert_eq!(
        lex("function locals entry const cast un bin addr_of member_ptr load store call").unwrap(),
        "[Function, Locals, Entry, Const, Cast, Un, Bin, Addr_of, Member_ptr, Load, Store, Call, EndOfFile]"
    );
    assert_eq!(
        lex("jump cjump return void ptr true false null to extern type bool i32 i64 u32 f64").unwrap(),
        "[Jump, CJump, Return, Void, Ptr, True, False, Null, To, Extern, Type, Bool, I32, I64, U32, F64, EndOfFile]"
    );
    assert_eq!(lex("( ) { } , = < >").unwrap(), "[LBracket, RBracket, LCurly, RCurly, Comma, Equals, LessThan, GreaterThan, EndOfFile]");
}

#[test]
fn incomplete_float_is_an_error() {
    let report = produce_tokens("123.").unwrap_err();
    assert!(report.starts_with("Lexical Error: Unexpected Character '.'"));
}

#[test]
fn token_describe_pads_columns() {
    let token = Token {
        token_kind: TokenKind::Local,
        token_attribute: TokenAttribute { line: 3, col: 14, lexeme: "%x".to_string() },
    };
    let expected = format!(
        "Token Kind: {:<12} Lexeme: {:<25} Line: {:<3} Col: {:<3}",
        "Local", "%x", 3, 14
    );
    assert_eq!(token.describe(), expected);
    assert_eq!(kind_text(TokenKind::Member_ptr), "Member_ptr");
}

#[test]
fn automaton_tables() {
    assert!(!is_accepting(State::StartState));
    assert!(!is_accepting(State::ConsumedPercent));
    assert!(is_accepting(State::ConsumedColon));
    assert!(state_to_token(State::ConsumedArrow) == Some(TokenKind::Arrow));
    assert!(state_to_token(State::ConsumedMinus).is_none());
    assert!(char_to_cat(Some('q')) == Cat::Letter);
    assert!(char_to_cat(Some('_')) == Cat::Letter);
    assert!(char_to_cat(Some('7')) == Cat::Digit);
    assert!(char_to_cat(Some('!')) == Cat::Invalid);
    assert!(char_to_cat(None) == Cat::EndOfFile);
    let t = build_transition_table();
    assert_eq!(t.len(), STATE_COUNT);
    assert_eq!(t[0].len(), CAT_COUNT);
    assert!(t[0][6] == State::ConsumedPercent);
    assert!(t[2][0] == State::ConsumedLocal);
    assert!(t[8][7] == State::ConsumedPathSep);
    assert!(t[20][0] == State::ErrorState);
}

#[test]
fn lexemes_rebuild_the_source_without_whitespace() {
    let source = "function Math::abs_diff(%a: i32) -> i32 {\n\tlocals { %r : ptr<i32>; }\n entry bb0;\n bb0: return %r; }";
    let tokens = produce_tokens(source).unwrap();
    let joined: String = tokens.iter().map(|t| t.token_attribute.lexeme.as_str()).collect();
    let stripped: String = source.chars().filter(|c| !matches!(c, ' ' | '\t' | '\r' | '\n')).collect();
    assert_eq!(joined, stripped);
    let ends = tokens.iter().filter(|t| t.token_kind == TokenKind::EndOfFile).count();
    assert_eq!(ends, 1);
    assert_eq!(tokens.last().unwrap().token_kind, TokenKind::EndOfFile);
}
