//! Tokens and terminal symbols of the language.

use vstd::prelude::*;

verus! {

/// Lexical category of a token.
#[derive(Debug, Clone, Copy, PartialEq, Eq, Structural)]
pub enum TokenType {
    Id,
    Int,
    Relop,
    Keyword,
    ArithOp,
    Assign,
    Paren,
    Comma,
    Bracket,
    Semicolon,
}

/// Terminal symbols of the grammar, each with a unique canonical spelling.
#[derive(Debug, Clone, Copy, PartialEq, Eq, Hash, Structural)]
pub enum Terminal {
    Int,
    Id,
    Print,
    Return,
    If,
    Def,
    Plus,
    Minus,
    Multiply,
    Divide,
    LeftBrace,
    RightBrace,
    LeftParen,
    RightParen,
    Comma,
    Semicolon,
    Num,
    Equals,
    LessThan,
    LessEqual,
    GreaterThan,
    GreaterEqual,
    Equal,
    NotEqual,
    Else,
    DollarSign,
    Epsilon,
}

/// The canonical spelling of each terminal, as a sequence of characters.
pub open spec fn spec_spelling(t: Terminal) -> Seq<char> {
    match t {
        Terminal::Int => seq!['i', 'n', 't'],
        Terminal::Id => seq!['i', 'd'],
        Terminal::Print => seq!['p', 'r', 'i', 'n', 't'],
        Terminal::Return => seq!['r', 'e', 't', 'u', 'r', 'n'],
        Terminal::If => seq!['i', 'f'],
        Terminal::Def => seq!['d', 'e', 'f'],
        Terminal::Plus => seq!['+'],
        Terminal::Minus => seq!['-'],
        Terminal::Multiply => seq!['*'],
        Terminal::Divide => seq!['/'],
        Terminal::LeftBrace => seq!['{'],
        Terminal::RightBrace => seq!['}'],
        Terminal::LeftParen => seq!['('],
        Terminal::RightParen => seq![')'],
        Terminal::Comma => seq![','],
        Terminal::Semicolon => seq![';'],
        Terminal::Num => seq!['n', 'u', 'm'],
        Terminal::Equals => seq![':', '='],
        Terminal::LessThan => seq!['<'],
        Terminal::LessEqual => seq!['<', '='],
        Terminal::GreaterThan => seq!['>'],
        Terminal::GreaterEqual => seq!['>', '='],
        Terminal::Equal => seq!['=', '='],
        Terminal::NotEqual => seq!['<', '>'],
        Terminal::Else => seq!['e', 'l', 's', 'e'],
        Terminal::DollarSign => seq!['$'],
        Terminal::Epsilon => seq!['\u{03b5}'],
    }
}

/// The inverse of `spec_spelling`: the terminal whose canonical spelling
/// is `s`, if any.
pub open spec fn spec_terminal_from(s: Seq<char>) -> Option<Terminal> {
    if s == spec_spelling(Terminal::Int) {
        Some(Terminal::Int)
    } else if s == spec_spelling(Terminal::Id) {
        Some(Terminal::Id)
    } else if s == spec_spelling(Terminal::Print) {
        Some(Terminal::Print)
    } else if s == spec_spelling(Terminal::Return) {
        Some(Terminal::Return)
    } else if s == spec_spelling(Terminal::If) {
        Some(Terminal::If)
    } else if s == spec_spelling(Terminal::Def) {
        Some(Terminal::Def)
    } else if s == spec_spelling(Terminal::Plus) {
        Some(Terminal::Plus)
    } else if s == spec_spelling(Terminal::Minus) {
        Some(Terminal::Minus)
    } else if s == spec_spelling(Terminal::Multiply) {
        Some(Terminal::Multiply)
    } else if s == spec_spelling(Terminal::Divide) {
        Some(Terminal::Divide)
    } else if s == spec_spelling(Terminal::LeftBrace) {
        Some(Terminal::LeftBrace)
    } else if s == spec_spelling(Terminal::RightBrace) {
        Some(Terminal::RightBrace)
    } else if s == spec_spelling(Terminal::LeftParen) {
        Some(Terminal::LeftParen)
    } else if s == spec_spelling(Terminal::RightParen) {
        Some(Terminal::RightParen)
    } else if s == spec_spelling(Terminal::Comma) {
        Some(Terminal::Comma)
    } else if s == spec_spelling(Terminal::Semicolon) {
        Some(Terminal::Semicolon)
    } else if s == spec_spelling(Terminal::Num) {
        Some(Terminal::Num)
    } else if s == spec_spelling(Terminal::Equals) {
        Some(Terminal::Equals)
    } else if s == spec_spelling(Terminal::LessThan) {
        Some(Terminal::LessThan)
    } else if s == spec_spelling(Terminal::LessEqual) {
        Some(Terminal::LessEqual)
    } else if s == spec_spelling(Terminal::GreaterThan) {
        Some(Terminal::GreaterThan)
    } else if s == spec_spelling(Terminal::GreaterEqual) {
        Some(Terminal::GreaterEqual)
    } else if s == spec_spelling(Terminal::Equal) {
        Some(Terminal::Equal)
    } else if s == spec_spelling(Terminal::NotEqual) {
        Some(Terminal::NotEqual)
    } else if s == spec_spelling(Terminal::Else) {
        Some(Terminal::Else)
    } else if s == spec_spelling(Terminal::DollarSign) {
        Some(Terminal::DollarSign)
    } else if s == spec_spelling(Terminal::Epsilon) {
        Some(Terminal::Epsilon)
    } else {
        None
    }
}

impl Terminal {
    /// The canonical spelling of this terminal.
    pub fn as_str(&self) -> (r: &'static str)
        ensures
            r@ == spec_spelling(*self),
    {
        let r = match *self {
            Terminal::Int => "int",
            Terminal::Id => "id",
            Terminal::Print => "print",
            Terminal::Return => "return",
            Terminal::If => "if",
            Terminal::Def => "def",
            Terminal::LeftBrace => "{",
            Terminal::RightBrace => "}",
            Terminal::LeftParen => "(",
            Terminal::RightParen => ")",
            Terminal::Comma => ",",
            Terminal::Semicolon => ";",
            Terminal::Num => "num",
            Terminal::Equals => ":=",
            Terminal::LessThan => "<",
            Terminal::LessEqual => "<=",
            Terminal::GreaterThan => ">",
            Terminal::GreaterEqual => ">=",
            Terminal::Equal => "==",
            Terminal::NotEqual => "<>",
            Terminal::Else => "else",
            Terminal::DollarSign => "$",
            Terminal::Epsilon => "\u{03b5}",
            Terminal::Plus => "+",
            Terminal::Minus => "-",
            Terminal::Multiply => "*",
            Terminal::Divide => "/",
        };
        proof {
            reveal_strlit("int");
            reveal_strlit("id");
            reveal_strlit("print");
            reveal_strlit("return");
            reveal_strlit("if");
            reveal_strlit("def");
            reveal_strlit("{");
            reveal_strlit("}");
            reveal_strlit("(");
            reveal_strlit(")");
            reveal_strlit(",");
            reveal_strlit(";");
            reveal_strlit("num");
            reveal_strlit(":=");
            reveal_strlit("<");
            reveal_strlit("<=");
            reveal_strlit(">");
            reveal_strlit(">=");
            reveal_strlit("==");
            reveal_strlit("<>");
            reveal_strlit("else");
            reveal_strlit("$");
            reveal_strlit("\u{03b5}");
            reveal_strlit("+");
            reveal_strlit("-");
            reveal_strlit("*");
            reveal_strlit("/");
            assert(r@ =~= spec_spelling(*self));
        }
        r
    }

    /// The terminal whose canonical spelling is `s`, if any.
    pub fn from_str(s: &Vec<char>) -> (r: Option<Terminal>)
        ensures
            r == spec_terminal_from(s@),
    {
        if chars_eq(s, &Self::spelling_chars(Terminal::Int)) {
            Some(Terminal::Int)
        } else if chars_eq(s, &Self::spelling_chars(Terminal::Id)) {
            Some(Terminal::Id)
        } else if chars_eq(s, &Self::spelling_chars(Terminal::Print)) {
            Some(Terminal::Print)
        } else if chars_eq(s, &Self::spelling_chars(Terminal::Return)) {
            Some(Terminal::Return)
        } else if chars_eq(s, &Self::spelling_chars(Terminal::If)) {
            Some(Terminal::If)
        } else if chars_eq(s, &Self::spelling_chars(Terminal::Def)) {
            Some(Terminal::Def)
        } else if chars_eq(s, &Self::spelling_chars(Terminal::Plus)) {
            Some(Terminal::Plus)
        } else if chars_eq(s, &Self::spelling_chars(Terminal::Minus)) {
            Some(Terminal::Minus)
        } else if chars_eq(s, &Self::spelling_chars(Terminal::Multiply)) {
            Some(Terminal::Multiply)
        } else if chars_eq(s, &Self::spelling_chars(Terminal::Divide)) {
            Some(Terminal::Divide)
        } else if chars_eq(s, &Self::spelling_chars(Terminal::LeftBrace)) {
            Some(Terminal::LeftBrace)
        } else if chars_eq(s, &Self::spelling_chars(Terminal::RightBrace)) {
            Some(Terminal::RightBrace)
        } else if chars_eq(s, &Self::spelling_chars(Terminal::LeftParen)) {
            Some(Terminal::LeftParen)
        } else if chars_eq(s, &Self::spelling_chars(Terminal::RightParen)) {
            Some(Terminal::RightParen)
        } else if chars_eq(s, &Self::spelling_chars(Terminal::Comma)) {
            Some(Terminal::Comma)
        } else if chars_eq(s, &Self::spelling_chars(Terminal::Semicolon)) {
            Some(Terminal::Semicolon)
        } else if chars_eq(s, &Self::spelling_chars(Terminal::Num)) {
            Some(Terminal::Num)
        } else if chars_eq(s, &Self::spelling_chars(Terminal::Equals)) {
            Some(Terminal::Equals)
        } else if chars_eq(s, &Self::spelling_chars(Terminal::LessThan)) {
            Some(Terminal::LessThan)
        } else if chars_eq(s, &Self::spelling_chars(Terminal::LessEqual)) {
            Some(Terminal::LessEqual)
        } else if chars_eq(s, &Self::spelling_chars(Terminal::GreaterThan)) {
            Some(Terminal::GreaterThan)
        } else if chars_eq(s, &Self::spelling_chars(Terminal::GreaterEqual)) {
            Some(Terminal::GreaterEqual)
        } else if chars_eq(s, &Self::spelling_chars(Terminal::Equal)) {
            Some(Terminal::Equal)
        } else if chars_eq(s, &Self::spelling_chars(Terminal::NotEqual)) {
            Some(Terminal::NotEqual)
        } else if chars_eq(s, &Self::spelling_chars(Terminal::Else)) {
            Some(Terminal::Else)
        } else if chars_eq(s, &Self::spelling_chars(Terminal::DollarSign)) {
            Some(Terminal::DollarSign)
        } else if chars_eq(s, &Self::spelling_chars(Terminal::Epsilon)) {
            Some(Terminal::Epsilon)
        } else {
            None
        }
    }

    /// The canonical spelling of this terminal, as a vector of characters.
    pub fn spelling_chars(t: Terminal) -> (r: Vec<char>)
        ensures
            r@ == spec_spelling(t),
    {
        let r = match t {
            Terminal::Int => vec!['i', 'n', 't'],
            Terminal::Id => vec!['i', 'd'],
            Terminal::Print => vec!['p', 'r', 'i', 'n', 't'],
            Terminal::Return => vec!['r', 'e', 't', 'u', 'r', 'n'],
            Terminal::If => vec!['i', 'f'],
            Terminal::Def => vec!['d', 'e', 'f'],
            Terminal::Plus => vec!['+'],
            Terminal::Minus => vec!['-'],
            Terminal::Multiply => vec!['*'],
            Terminal::Divide => vec!['/'],
            Terminal::LeftBrace => vec!['{'],
            Terminal::RightBrace => vec!['}'],
            Terminal::LeftParen => vec!['('],
            Terminal::RightParen => vec![')'],
            Terminal::Comma => vec![','],
            Terminal::Semicolon => vec![';'],
            Terminal::Num => vec!['n', 'u', 'm'],
            Terminal::Equals => vec![':', '='],
            Terminal::LessThan => vec!['<'],
            Terminal::LessEqual => vec!['<', '='],
            Terminal::GreaterThan => vec!['>'],
            Terminal::GreaterEqual => vec!['>', '='],
            Terminal::Equal => vec!['=', '='],
            Terminal::NotEqual => vec!['<', '>'],
            Terminal::Else => vec!['e', 'l', 's', 'e'],
            Terminal::DollarSign => vec!['$'],
            Terminal::Epsilon => vec!['\u{03b5}'],
        };
        proof {
            assert(r@ =~= spec_spelling(t));
        }
        r
    }
}

/// Character-wise equality of two vectors of characters.
pub fn chars_eq(a: &Vec<char>, b: &Vec<char>) -> (r: bool)
    ensures
        r == (a@ == b@),
{
    if a.len() != b.len() {
        proof {
            assert(a@ != b@);
        }
        return false;
    }
    let mut i: usize = 0;
    while i < a.len()
        invariant
            i <= a.len(),
            a@.len() == b@.len(),
            forall|j: int| 0 <= j < i ==> a@[j] == b@[j],
        decreases a.len() - i,
    {
        if a[i] != b[i] {
            proof {
                assert(a@ != b@);
            }
            return false;
        }
        i = i + 1;
    }
    proof {
        assert(a@ =~= b@);
    }
    true
}

/// The decoded payload carried by a token.
#[derive(Debug, PartialEq, Eq)]
pub enum TokenValue {
    /// A general lexeme, such as an identifier name.
    Lexeme(Vec<char>),
    /// A decoded integer literal.
    Number(i32),
    /// The label of a relational operator (EQ, NE, LT, LE, GT, GE).
    RelopLabel(Vec<char>),
    /// The label of an arithmetic operator.
    ArithOpLabel(Vec<char>),
}

/// The mathematical model of a `TokenValue`.
pub enum ValueModel {
    Lexeme(Seq<char>),
    Number(int),
    RelopLabel(Seq<char>),
    ArithOpLabel(Seq<char>),
}

impl View for TokenValue {
    type V = ValueModel;

    open spec fn view(&self) -> ValueModel {
        match self {
            TokenValue::Lexeme(s) => ValueModel::Lexeme(s@),
            TokenValue::Number(n) => ValueModel::Number(*n as int),
            TokenValue::RelopLabel(s) => ValueModel::RelopLabel(s@),
            TokenValue::ArithOpLabel(s) => ValueModel::ArithOpLabel(s@),
        }
    }
}

/// A token produced by lexical analysis and consumed by the parser.
#[derive(Debug, PartialEq, Eq)]
pub struct Token {
    /// The lexical category of the token.
    pub token_type: TokenType,
    /// The exact source substring consumed.
    pub lexeme: Vec<char>,
    /// The decoded payload.
    pub value: TokenValue,
    /// The terminal symbol driving the parser.
    pub terminal: Terminal,
}

/// The mathematical model of a `Token`.
pub struct TokenModel {
    pub token_type: TokenType,
    pub lexeme: Seq<char>,
    pub value: ValueModel,
    pub terminal: Terminal,
}

impl View for Token {
    type V = TokenModel;

    open spec fn view(&self) -> TokenModel {
        TokenModel {
            token_type: self.token_type,
            lexeme: self.lexeme@,
            value: self.value@,
            terminal: self.terminal,
        }
    }
}

impl DeepView for Token {
    type V = TokenModel;

    open spec fn deep_view(&self) -> TokenModel {
        self.view()
    }
}

} // verus!
