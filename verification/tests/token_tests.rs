use lsi_parser::token::{chars_eq, Terminal};

fn chars(s: &str) -> Vec<char> {
    s.chars().collect()
}

const ALL_TERMINALS: [Terminal; 27] = [
    Terminal::Int,
    Terminal::Id,
    Terminal::Print,
    Terminal::Return,
    Terminal::If,
    Terminal::Def,
    Terminal::Plus,
    Terminal::Minus,
    Terminal::Multiply,
    Terminal::Divide,
    Terminal::LeftBrace,
    Terminal::RightBrace,
    Terminal::LeftParen,
    Terminal::RightParen,
    Terminal::Comma,
    Terminal::Semicolon,
    Terminal::Num,
    Terminal::Equals,
    Terminal::LessThan,
    Terminal::LessEqual,
    Terminal::GreaterThan,
    Terminal::GreaterEqual,
    Terminal::Equal,
    Terminal::NotEqual,
    Terminal::Else,
    Terminal::DollarSign,
    Terminal::Epsilon,
];

#[test]
fn spelling_round_trips_through_from_str() {
    for t in ALL_TERMINALS {
        let spelled = chars(t.as_str());
        assert_eq!(Terminal::from_str(&spelled), Some(t), "terminal {:?}", t);
    }
}

#[test]
fn spellings_are_distinct() {
    for a in ALL_TERMINALS {
        for b in ALL_TERMINALS {
            if a != b {
                assert_ne!(a.as_str(), b.as_str());
            }
        }
    }
}

#[test]
fn from_str_rejects_unknown_text() {
    assert_eq!(Terminal::from_str(&chars("while")), None);
    assert_eq!(Terminal::from_str(&chars("!=")), None);
    assert_eq!(Terminal::from_str(&chars("")), None);
}

#[test]
fn not_equal_has_its_canonical_spelling() {
    assert_eq!(Terminal::NotEqual.as_str(), "<>");
    assert_eq!(Terminal::from_str(&chars("<>")), Some(Terminal::NotEqual));
}

#[test]
fn chars_eq_compares_by_contents() {
    assert!(chars_eq(&chars("abc"), &chars("abc")));
    assert!(!chars_eq(&chars("abc"), &chars("abd")));
    assert!(!chars_eq(&chars("abc"), &chars("ab")));
    assert!(chars_eq(&chars(""), &chars("")));
}
