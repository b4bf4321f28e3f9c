use lsi_parser::lexer::tokenize;
use lsi_parser::ll1_table::{Nonterminal, Symbol};
use lsi_parser::parser::{parse, SyntaxError};
use lsi_parser::token::{Terminal, Token};

fn chars(s: &str) -> Vec<char> {
    s.chars().collect()
}

fn keywords() -> Vec<Vec<char>> {
    vec![
        chars("if"),
        chars("else"),
        chars("return"),
        chars("int"),
        chars("def"),
        chars("num"),
        chars("print"),
    ]
}

fn lex(src: &str) -> Vec<Token> {
    let mut st: Vec<Vec<char>> = Vec::new();
    tokenize(&chars(src), &keywords(), &mut st).unwrap()
}

#[test]
fn dangling_else_program_parses() {
    let tokens = lex("if ( x < 1 ) if ( y < 2 ) print x ; else print y ;");
    let trace = parse(&tokens).unwrap();
    // The match trace of an accepted parse is the full terminal sequence;
    // the `else` is matched right after the inner statement's tokens.
    let expected: Vec<Terminal> = tokens.iter().map(|t| t.terminal).collect();
    assert_eq!(trace, expected);
    assert_eq!(trace[15], Terminal::Else);
    assert_eq!(trace[14], Terminal::Semicolon);
}

#[test]
fn assignment_from_function_call_parses() {
    let tokens = lex("x := f ( y ) ;");
    let trace = parse(&tokens).unwrap();
    assert_eq!(trace.len(), tokens.len());
}

#[test]
fn assignment_from_expression_parses() {
    let tokens = lex("x := y + 1 ;");
    let trace = parse(&tokens).unwrap();
    assert_eq!(trace.len(), tokens.len());
}

#[test]
fn assignment_without_right_hand_side_is_rejected() {
    let tokens = lex("x := ;");
    let err = parse(&tokens).unwrap_err();
    assert_eq!(
        err,
        SyntaxError::ExpectedFound {
            expected: Symbol::Nonterm(Nonterminal::Expr),
            found: Terminal::Semicolon,
            at_token: 3,
        }
    );
}

#[test]
fn empty_input_is_accepted() {
    let tokens = lex("");
    let trace = parse(&tokens).unwrap();
    assert!(trace.is_empty());
}

#[test]
fn declaration_statement_parses() {
    let tokens = lex("int x , y ;");
    let trace = parse(&tokens).unwrap();
    assert_eq!(
        trace,
        vec![
            Terminal::Int,
            Terminal::Id,
            Terminal::Comma,
            Terminal::Id,
            Terminal::Semicolon,
        ]
    );
}

#[test]
fn function_definitions_parse() {
    let tokens = lex("def f ( int a , int b ) { return a ; } def g ( ) { print 1 ; }");
    let trace = parse(&tokens).unwrap();
    assert_eq!(trace.len(), tokens.len());
}

#[test]
fn parenthesized_expression_parses() {
    let tokens = lex("x := ( y + 2 ) * 3 ;");
    let trace = parse(&tokens).unwrap();
    assert_eq!(trace.len(), tokens.len());
}

#[test]
fn block_statement_parses() {
    let tokens = lex("{ int x ; x := 1 ; print x ; }");
    let trace = parse(&tokens).unwrap();
    assert_eq!(trace.len(), tokens.len());
}

#[test]
fn trailing_tokens_are_rejected() {
    let tokens = lex("; ;");
    let err = parse(&tokens).unwrap_err();
    assert_eq!(err, SyntaxError::TrailingTokens);
}

#[test]
fn unfinished_statement_is_rejected_at_end() {
    let tokens = lex("if ( x < 1 )");
    let err = parse(&tokens).unwrap_err();
    assert_eq!(
        err,
        SyntaxError::UnresolvedAtEnd { symbol: Symbol::Nonterm(Nonterminal::Stmt) }
    );
}

#[test]
fn mismatched_terminal_reports_position() {
    let tokens = lex("if ( x < 1 ; print x ;");
    let err = parse(&tokens).unwrap_err();
    match err {
        SyntaxError::ExpectedFound { found, at_token, .. } => {
            assert_eq!(found, Terminal::Semicolon);
            assert_eq!(at_token, 6);
        },
        other => panic!("wrong error: {:?}", other),
    }
}

#[test]
fn missing_semicolon_is_rejected() {
    let tokens = lex("x := 1 print x ;");
    let err = parse(&tokens).unwrap_err();
    assert!(matches!(err, SyntaxError::ExpectedFound { .. }));
}

#[test]
fn return_without_value_parses() {
    let tokens = lex("return ;");
    let trace = parse(&tokens).unwrap();
    assert_eq!(trace, vec![Terminal::Return, Terminal::Semicolon]);
}

#[test]
fn relational_expression_statement_parses() {
    let tokens = lex("if ( a <= b ) print a ;");
    let trace = parse(&tokens).unwrap();
    assert_eq!(trace.len(), tokens.len());
}

#[test]
fn semicolon_statements_in_a_block_parse() {
    let tokens = lex("{ ; ; }");
    let trace = parse(&tokens).unwrap();
    assert_eq!(
        trace,
        vec![
            Terminal::LeftBrace,
            Terminal::Semicolon,
            Terminal::Semicolon,
            Terminal::RightBrace,
        ]
    );
}

#[test]
fn equality_condition_with_else_block_parses() {
    let tokens = lex("if ( x == 1 ) { print x ; } else { print y ; }");
    let trace = parse(&tokens).unwrap();
    assert_eq!(trace.len(), tokens.len());
}

#[test]
fn parse_is_deterministic() {
    let tokens = lex("if ( x < 1 ) print x ; else print y ;");
    let r1 = parse(&tokens);
    let r2 = parse(&tokens);
    assert_eq!(r1, r2);
}
