use lsi_parser::ll1_table::{ll1_transition_table, Nonterminal, Symbol};
use lsi_parser::token::Terminal;

#[test]
fn function_definition_production() {
    let prod = ll1_transition_table(Nonterminal::Fdef, Terminal::Def).unwrap();
    assert_eq!(
        prod,
        vec![
            Symbol::Term(Terminal::Def),
            Symbol::Term(Terminal::Id),
            Symbol::Term(Terminal::LeftParen),
            Symbol::Nonterm(Nonterminal::Parlist),
            Symbol::Term(Terminal::RightParen),
            Symbol::Term(Terminal::LeftBrace),
            Symbol::Nonterm(Nonterminal::Stmtlist),
            Symbol::Term(Terminal::RightBrace),
        ]
    );
}

#[test]
fn main_epsilon_at_end_of_input() {
    let prod = ll1_transition_table(Nonterminal::Main, Terminal::DollarSign).unwrap();
    assert!(prod.is_empty());
}

#[test]
fn statement_dispatch_rows() {
    let prod = ll1_transition_table(Nonterminal::Stmt, Terminal::Int).unwrap();
    assert_eq!(
        prod,
        vec![
            Symbol::Term(Terminal::Int),
            Symbol::Nonterm(Nonterminal::Varlist),
            Symbol::Term(Terminal::Semicolon),
        ]
    );
    let prod = ll1_transition_table(Nonterminal::Stmt, Terminal::If).unwrap();
    assert_eq!(prod, vec![Symbol::Nonterm(Nonterminal::Ifstmt)]);
}

#[test]
fn absent_entry_is_none() {
    assert!(ll1_transition_table(Nonterminal::Atribst, Terminal::Print).is_none());
    assert!(ll1_transition_table(Nonterminal::Fcall, Terminal::Num).is_none());
    assert!(ll1_transition_table(Nonterminal::Expr, Terminal::Semicolon).is_none());
}

#[test]
fn expression_tails_are_epsilon_before_closers() {
    assert!(ll1_transition_table(Nonterminal::ExprTail, Terminal::RightParen).unwrap().is_empty());
    assert!(
        ll1_transition_table(Nonterminal::NumexprTail, Terminal::Semicolon).unwrap().is_empty()
    );
    assert!(ll1_transition_table(Nonterminal::TermTail, Terminal::RightParen).unwrap().is_empty());
}

#[test]
fn statement_list_tail_continues_on_semicolon() {
    let prod = ll1_transition_table(Nonterminal::StmtlistTail, Terminal::Semicolon).unwrap();
    assert_eq!(prod, vec![Symbol::Nonterm(Nonterminal::Stmtlist)]);
}

#[test]
fn relational_rows_cover_all_six_operators() {
    for term in [
        Terminal::LessThan,
        Terminal::LessEqual,
        Terminal::GreaterThan,
        Terminal::GreaterEqual,
        Terminal::Equal,
        Terminal::NotEqual,
    ] {
        let prod = ll1_transition_table(Nonterminal::ExprTail, term).unwrap();
        assert_eq!(
            prod,
            vec![Symbol::Term(term), Symbol::Nonterm(Nonterminal::Numexpr)]
        );
    }
}
