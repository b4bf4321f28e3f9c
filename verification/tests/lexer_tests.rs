use lsi_parser::lexer::{tokenize, LexError};
use lsi_parser::token::{Terminal, TokenType, TokenValue};

fn chars(s: &str) -> Vec<char> {
    s.chars().collect()
}

fn keywords() -> Vec<Vec<char>> {
    vec![
        chars("if"),
        chars("else"),
        chars("return"),
        chars("int"),
        chars("def"),
        chars("num"),
        chars("print"),
    ]
}

#[test]
fn single_identifier_is_one_token() {
    let mut st: Vec<Vec<char>> = Vec::new();
    let toks = tokenize(&chars("id1"), &keywords(), &mut st).unwrap();
    assert_eq!(toks.len(), 1);
    assert!(matches!(toks[0].token_type, TokenType::Id));
    assert_eq!(toks[0].lexeme, chars("id1"));
    assert_eq!(toks[0].terminal, Terminal::Id);
}

#[test]
fn digits_followed_by_letters_is_a_lexical_error() {
    let mut st: Vec<Vec<char>> = Vec::new();
    let err = tokenize(&chars("123abc"), &keywords(), &mut st).unwrap_err();
    assert_eq!(err, LexError { ch: '1', line: 1, col: 1 });
}

#[test]
fn identifier_with_trailing_digits_never_splits() {
    let mut st: Vec<Vec<char>> = Vec::new();
    let toks = tokenize(&chars("x1 y22z"), &keywords(), &mut st).unwrap();
    assert_eq!(toks.len(), 2);
    assert_eq!(toks[0].lexeme, chars("x1"));
    assert_eq!(toks[1].lexeme, chars("y22z"));
}

#[test]
fn keyword_is_reclassified() {
    let mut st: Vec<Vec<char>> = Vec::new();
    let toks = tokenize(&chars("if"), &keywords(), &mut st).unwrap();
    assert_eq!(toks.len(), 1);
    assert!(matches!(toks[0].token_type, TokenType::Keyword));
    assert_eq!(toks[0].terminal, Terminal::If);
    assert_eq!(toks[0].lexeme, chars("if"));
}

#[test]
fn keyword_prefix_stays_one_identifier() {
    let mut st: Vec<Vec<char>> = Vec::new();
    let toks = tokenize(&chars("iffy"), &keywords(), &mut st).unwrap();
    assert_eq!(toks.len(), 1);
    assert!(matches!(toks[0].token_type, TokenType::Id));
    assert_eq!(toks[0].terminal, Terminal::Id);
    assert_eq!(toks[0].lexeme, chars("iffy"));
}

#[test]
fn all_six_relational_operators() {
    let cases = [
        ("==", "EQ", Terminal::Equal),
        ("!=", "NE", Terminal::NotEqual),
        ("<", "LT", Terminal::LessThan),
        ("<=", "LE", Terminal::LessEqual),
        (">", "GT", Terminal::GreaterThan),
        (">=", "GE", Terminal::GreaterEqual),
    ];
    for (src, label, term) in cases {
        let mut st: Vec<Vec<char>> = Vec::new();
        let toks = tokenize(&chars(src), &keywords(), &mut st).unwrap();
        assert_eq!(toks.len(), 1, "source {:?}", src);
        assert!(matches!(toks[0].token_type, TokenType::Relop));
        assert_eq!(toks[0].terminal, term);
        match &toks[0].value {
            TokenValue::RelopLabel(l) => assert_eq!(*l, chars(label)),
            other => panic!("wrong value for {:?}: {:?}", src, other),
        }
    }
}

#[test]
fn bare_equals_is_a_lexical_error() {
    let mut st: Vec<Vec<char>> = Vec::new();
    let err = tokenize(&chars("="), &keywords(), &mut st).unwrap_err();
    assert_eq!(err, LexError { ch: '=', line: 1, col: 1 });
}

#[test]
fn bare_bang_is_a_lexical_error() {
    let mut st: Vec<Vec<char>> = Vec::new();
    let err = tokenize(&chars("x ! y"), &keywords(), &mut st).unwrap_err();
    assert_eq!(err, LexError { ch: '!', line: 1, col: 3 });
}

#[test]
fn tokenizing_twice_is_deterministic() {
    let src = chars("def f ( int a ) { return a ; }");
    let kws = keywords();
    let mut st1: Vec<Vec<char>> = Vec::new();
    let mut st2: Vec<Vec<char>> = Vec::new();
    let r1 = tokenize(&src, &kws, &mut st1);
    let r2 = tokenize(&src, &kws, &mut st2);
    assert_eq!(r1, r2);
    assert_eq!(st1, st2);
}

#[test]
fn hash_is_reported_with_line_and_column() {
    let mut st: Vec<Vec<char>> = Vec::new();
    let err = tokenize(&chars("x := 1 # 2"), &keywords(), &mut st).unwrap_err();
    assert_eq!(err, LexError { ch: '#', line: 1, col: 8 });
}

#[test]
fn error_position_tracks_newlines() {
    let mut st: Vec<Vec<char>> = Vec::new();
    let err = tokenize(&chars("ab\ncd @"), &keywords(), &mut st).unwrap_err();
    assert_eq!(err, LexError { ch: '@', line: 2, col: 4 });
}

#[test]
fn symbol_table_records_distinct_identifiers() {
    let mut st: Vec<Vec<char>> = vec![chars("if")];
    let toks = tokenize(&chars("x y x if"), &keywords(), &mut st).unwrap();
    assert_eq!(toks.len(), 4);
    // `if` is a keyword token, so the tokenizer does not insert it again;
    // the caller seeded it.  `x` appears once despite two occurrences.
    assert_eq!(st, vec![chars("if"), chars("x"), chars("y")]);
}

#[test]
fn symbol_table_keeps_entries_recorded_before_a_failure() {
    let mut st: Vec<Vec<char>> = Vec::new();
    let err = tokenize(&chars("a b # c"), &keywords(), &mut st).unwrap_err();
    assert_eq!(err.ch, '#');
    assert_eq!(st, vec![chars("a"), chars("b")]);
}

#[test]
fn number_token_decodes_its_value() {
    let mut st: Vec<Vec<char>> = Vec::new();
    let toks = tokenize(&chars("42"), &keywords(), &mut st).unwrap();
    assert_eq!(toks.len(), 1);
    assert!(matches!(toks[0].token_type, TokenType::Int));
    assert_eq!(toks[0].terminal, Terminal::Num);
    match toks[0].value {
        TokenValue::Number(n) => assert_eq!(n, 42),
        ref other => panic!("wrong value: {:?}", other),
    }
}

#[test]
fn huge_number_saturates_at_i32_max() {
    let mut st: Vec<Vec<char>> = Vec::new();
    let toks = tokenize(&chars("2147483647 2147483648 99999999999999"), &keywords(), &mut st)
        .unwrap();
    let values: Vec<i32> = toks
        .iter()
        .map(|t| match t.value {
            TokenValue::Number(n) => n,
            ref other => panic!("wrong value: {:?}", other),
        })
        .collect();
    assert_eq!(values, vec![i32::MAX, i32::MAX, i32::MAX]);
}

#[test]
fn assignment_operator_tokenizes() {
    let mut st: Vec<Vec<char>> = Vec::new();
    let toks = tokenize(&chars("x := 1"), &keywords(), &mut st).unwrap();
    assert_eq!(toks.len(), 3);
    assert!(matches!(toks[1].token_type, TokenType::Assign));
    assert_eq!(toks[1].terminal, Terminal::Equals);
    assert_eq!(toks[1].lexeme, chars(":="));
}

#[test]
fn bare_colon_is_a_lexical_error() {
    let mut st: Vec<Vec<char>> = Vec::new();
    let err = tokenize(&chars("x : 1"), &keywords(), &mut st).unwrap_err();
    assert_eq!(err, LexError { ch: ':', line: 1, col: 3 });
}

#[test]
fn punctuation_and_operators_tokenize() {
    let mut st: Vec<Vec<char>> = Vec::new();
    let toks = tokenize(&chars("( ) { } , ; + - * /"), &keywords(), &mut st).unwrap();
    let terms: Vec<Terminal> = toks.iter().map(|t| t.terminal).collect();
    assert_eq!(
        terms,
        vec![
            Terminal::LeftParen,
            Terminal::RightParen,
            Terminal::LeftBrace,
            Terminal::RightBrace,
            Terminal::Comma,
            Terminal::Semicolon,
            Terminal::Plus,
            Terminal::Minus,
            Terminal::Multiply,
            Terminal::Divide,
        ]
    );
}

#[test]
fn whitespace_only_input_gives_no_tokens() {
    let mut st: Vec<Vec<char>> = Vec::new();
    let toks = tokenize(&chars("  \t\n  \r\n"), &keywords(), &mut st).unwrap();
    assert!(toks.is_empty());
    assert!(st.is_empty());
}

#[test]
fn longest_match_prefers_two_char_operators() {
    let mut st: Vec<Vec<char>> = Vec::new();
    let toks = tokenize(&chars("a<=b"), &keywords(), &mut st).unwrap();
    assert_eq!(toks.len(), 3);
    assert_eq!(toks[1].terminal, Terminal::LessEqual);
    assert_eq!(toks[1].lexeme, chars("<="));
}

#[test]
fn unknown_keyword_in_set_rejects_its_lexeme() {
    // A keyword whose spelling is not a terminal of the grammar cannot be
    // classified, so its first character is a lexical error.
    let kws = vec![chars("while")];
    let mut st: Vec<Vec<char>> = Vec::new();
    let err = tokenize(&chars("while"), &kws, &mut st).unwrap_err();
    assert_eq!(err, LexError { ch: 'w', line: 1, col: 1 });
}
