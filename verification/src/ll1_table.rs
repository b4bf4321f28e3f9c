//! The static LL(1) grammar table.
//!
//! The table maps a nonterminal and a lookahead terminal to the
//! production to substitute, derived offline from the FIRST and FOLLOW
//! sets of the grammar.  An empty production is an epsilon entry; an
//! absent entry is a syntax error.  The table is conflict-free: each
//! pair has at most one production.

use vstd::prelude::*;

use crate::token::Terminal;

verus! {

/// The nonterminals of the grammar.  A `Tail` nonterminal plays the part
/// of a primed symbol in the usual presentation: the rest of a list or of
/// an expression at the same precedence level.
#[derive(Debug, Clone, Copy, PartialEq, Eq, Structural)]
pub enum Nonterminal {
    Main,
    Flist,
    FlistTail,
    Fdef,
    Parlist,
    ParlistTail,
    Varlist,
    VarlistTail,
    Stmt,
    Atribst,
    AtribstTail,
    Fcall,
    Parlistcall,
    ParlistcallTail,
    Printst,
    Returnst,
    ReturnstTail,
    Ifstmt,
    IfstmtTail,
    Stmtlist,
    StmtlistTail,
    Expr,
    ExprTail,
    Numexpr,
    NumexprTail,
    Term,
    TermTail,
    Fact,
}

/// A grammar symbol: a terminal of the input or a nonterminal to expand.
#[derive(Debug, Clone, Copy, PartialEq, Eq, Structural)]
pub enum Symbol {
    Term(Terminal),
    Nonterm(Nonterminal),
}

/// The production for `nt` under lookahead `la`: `Some` of the ordered
/// right-hand side (empty for epsilon), or `None` when the table has no
/// entry there.
pub open spec fn spec_table(nt: Nonterminal, la: Terminal) -> Option<Seq<Symbol>> {
    match nt {
        Nonterminal::Main => match la {
            Terminal::Int | Terminal::Id | Terminal::Print | Terminal::Return | Terminal::If
                | Terminal::LeftBrace | Terminal::Semicolon => Some(
                seq![Symbol::Nonterm(Nonterminal::Stmt)],
            ),
            Terminal::Def => Some(seq![Symbol::Nonterm(Nonterminal::Flist)]),
            Terminal::DollarSign => Some(Seq::empty()),
            _ => None,
        },
        Nonterminal::Flist => match la {
            Terminal::Def => Some(
                seq![
                    Symbol::Nonterm(Nonterminal::Fdef),
                    Symbol::Nonterm(Nonterminal::FlistTail),
                ],
            ),
            Terminal::DollarSign => Some(Seq::empty()),
            _ => None,
        },
        Nonterminal::FlistTail => match la {
            Terminal::Def => Some(
                seq![
                    Symbol::Nonterm(Nonterminal::Fdef),
                    Symbol::Nonterm(Nonterminal::FlistTail),
                ],
            ),
            Terminal::DollarSign => Some(Seq::empty()),
            _ => None,
        },
        Nonterminal::Fdef => match la {
            Terminal::Def => Some(
                seq![
                    Symbol::Term(Terminal::Def),
                    Symbol::Term(Terminal::Id),
                    Symbol::Term(Terminal::LeftParen),
                    Symbol::Nonterm(Nonterminal::Parlist),
                    Symbol::Term(Terminal::RightParen),
                    Symbol::Term(Terminal::LeftBrace),
                    Symbol::Nonterm(Nonterminal::Stmtlist),
                    Symbol::Term(Terminal::RightBrace),
                ],
            ),
            _ => None,
        },
        Nonterminal::Parlist => match la {
            Terminal::Int => Some(
                seq![
                    Symbol::Term(Terminal::Int),
                    Symbol::Term(Terminal::Id),
                    Symbol::Nonterm(Nonterminal::ParlistTail),
                ],
            ),
            Terminal::RightParen => Some(Seq::empty()),
            _ => None,
        },
        Nonterminal::ParlistTail => match la {
            Terminal::Comma => Some(
                seq![Symbol::Term(Terminal::Comma), Symbol::Nonterm(Nonterminal::Parlist)],
            ),
            Terminal::RightParen => Some(Seq::empty()),
            _ => None,
        },
        Nonterminal::Varlist => match la {
            Terminal::Id => Some(
                seq![Symbol::Term(Terminal::Id), Symbol::Nonterm(Nonterminal::VarlistTail)],
            ),
            _ => None,
        },
        Nonterminal::VarlistTail => match la {
            Terminal::Comma => Some(
                seq![Symbol::Term(Terminal::Comma), Symbol::Nonterm(Nonterminal::Varlist)],
            ),
            Terminal::Semicolon => Some(Seq::empty()),
            _ => None,
        },
        Nonterminal::Stmt => match la {
            Terminal::Int => Some(
                seq![
                    Symbol::Term(Terminal::Int),
                    Symbol::Nonterm(Nonterminal::Varlist),
                    Symbol::Term(Terminal::Semicolon),
                ],
            ),
            Terminal::Id => Some(
                seq![
                    Symbol::Nonterm(Nonterminal::Atribst),
                    Symbol::Term(Terminal::Semicolon),
                ],
            ),
            Terminal::Print => Some(
                seq![
                    Symbol::Nonterm(Nonterminal::Printst),
                    Symbol::Term(Terminal::Semicolon),
                ],
            ),
            Terminal::Return => Some(
                seq![
                    Symbol::Nonterm(Nonterminal::Returnst),
                    Symbol::Term(Terminal::Semicolon),
                ],
            ),
            Terminal::If => Some(seq![Symbol::Nonterm(Nonterminal::Ifstmt)]),
            Terminal::LeftBrace => Some(
                seq![
                    Symbol::Term(Terminal::LeftBrace),
                    Symbol::Nonterm(Nonterminal::Stmtlist),
                    Symbol::Term(Terminal::RightBrace),
                ],
            ),
            Terminal::Semicolon => Some(seq![Symbol::Term(Terminal::Semicolon)]),
            _ => None,
        },
        Nonterminal::Atribst => match la {
            Terminal::Id => Some(
                seq![
                    Symbol::Term(Terminal::Id),
                    Symbol::Term(Terminal::Equals),
                    Symbol::Nonterm(Nonterminal::AtribstTail),
                ],
            ),
            _ => None,
        },
        Nonterminal::AtribstTail => match la {
            Terminal::Num | Terminal::LeftParen => Some(seq![Symbol::Nonterm(Nonterminal::Expr)]),
            Terminal::Id => Some(seq![Symbol::Nonterm(Nonterminal::Fcall)]),
            _ => None,
        },
        Nonterminal::Fcall => match la {
            Terminal::Id => Some(
                seq![
                    Symbol::Term(Terminal::Id),
                    Symbol::Term(Terminal::LeftParen),
                    Symbol::Nonterm(Nonterminal::Parlistcall),
                    Symbol::Term(Terminal::RightParen),
                ],
            ),
            _ => None,
        },
        Nonterminal::Parlistcall => match la {
            Terminal::Id => Some(
                seq![
                    Symbol::Term(Terminal::Id),
                    Symbol::Nonterm(Nonterminal::ParlistcallTail),
                ],
            ),
            Terminal::RightParen => Some(Seq::empty()),
            _ => None,
        },
        Nonterminal::ParlistcallTail => match la {
            Terminal::Comma => Some(
                seq![
                    Symbol::Term(Terminal::Comma),
                    Symbol::Nonterm(Nonterminal::Parlistcall),
                ],
            ),
            Terminal::RightParen => Some(Seq::empty()),
            _ => None,
        },
        Nonterminal::Printst => match la {
            Terminal::Print => Some(
                seq![Symbol::Term(Terminal::Print), Symbol::Nonterm(Nonterminal::Expr)],
            ),
            _ => None,
        },
        Nonterminal::Returnst => match la {
            Terminal::Return => Some(
                seq![
                    Symbol::Term(Terminal::Return),
                    Symbol::Nonterm(Nonterminal::ReturnstTail),
                ],
            ),
            _ => None,
        },
        Nonterminal::ReturnstTail => match la {
            Terminal::Id => Some(seq![Symbol::Term(Terminal::Id)]),
            Terminal::Semicolon => Some(Seq::empty()),
            _ => None,
        },
        Nonterminal::Ifstmt => match la {
            Terminal::If => Some(
                seq![
                    Symbol::Term(Terminal::If),
                    Symbol::Term(Terminal::LeftParen),
                    Symbol::Nonterm(Nonterminal::Expr),
                    Symbol::Term(Terminal::RightParen),
                    Symbol::Nonterm(Nonterminal::Stmt),
                    Symbol::Nonterm(Nonterminal::IfstmtTail),
                ],
            ),
            _ => None,
        },
        Nonterminal::IfstmtTail => match la {
            Terminal::Else => Some(
                seq![Symbol::Term(Terminal::Else), Symbol::Nonterm(Nonterminal::Stmt)],
            ),
            Terminal::Int | Terminal::Id | Terminal::Print | Terminal::Return | Terminal::If
                | Terminal::LeftBrace | Terminal::Semicolon | Terminal::DollarSign => Some(
                Seq::empty(),
            ),
            _ => None,
        },
        Nonterminal::Stmtlist => match la {
            Terminal::Int | Terminal::Id | Terminal::Print | Terminal::Return | Terminal::If
                | Terminal::LeftBrace | Terminal::Semicolon => Some(
                seq![
                    Symbol::Nonterm(Nonterminal::Stmt),
                    Symbol::Nonterm(Nonterminal::StmtlistTail),
                ],
            ),
            Terminal::RightBrace => Some(Seq::empty()),
            _ => None,
        },
        Nonterminal::StmtlistTail => match la {
            Terminal::Int | Terminal::Id | Terminal::Print | Terminal::Return | Terminal::If
                | Terminal::LeftBrace | Terminal::Semicolon => Some(
                seq![Symbol::Nonterm(Nonterminal::Stmtlist)],
            ),
            Terminal::RightBrace => Some(Seq::empty()),
            _ => None,
        },
        Nonterminal::Expr => match la {
            Terminal::Num | Terminal::LeftParen | Terminal::Id => Some(
                seq![
                    Symbol::Nonterm(Nonterminal::Numexpr),
                    Symbol::Nonterm(Nonterminal::ExprTail),
                ],
            ),
            _ => None,
        },
        Nonterminal::ExprTail => match la {
            Terminal::LessThan => Some(
                seq![
                    Symbol::Term(Terminal::LessThan),
                    Symbol::Nonterm(Nonterminal::Numexpr),
                ],
            ),
            Terminal::LessEqual => Some(
                seq![
                    Symbol::Term(Terminal::LessEqual),
                    Symbol::Nonterm(Nonterminal::Numexpr),
                ],
            ),
            Terminal::GreaterThan => Some(
                seq![
                    Symbol::Term(Terminal::GreaterThan),
                    Symbol::Nonterm(Nonterminal::Numexpr),
                ],
            ),
            Terminal::GreaterEqual => Some(
                seq![
                    Symbol::Term(Terminal::GreaterEqual),
                    Symbol::Nonterm(Nonterminal::Numexpr),
                ],
            ),
            Terminal::Equal => Some(
                seq![Symbol::Term(Terminal::Equal), Symbol::Nonterm(Nonterminal::Numexpr)],
            ),
            Terminal::NotEqual => Some(
                seq![
                    Symbol::Term(Terminal::NotEqual),
                    Symbol::Nonterm(Nonterminal::Numexpr),
                ],
            ),
            Terminal::Semicolon | Terminal::RightParen => Some(Seq::empty()),
            _ => None,
        },
        Nonterminal::Numexpr => match la {
            Terminal::Num | Terminal::LeftParen | Terminal::Id => Some(
                seq![
                    Symbol::Nonterm(Nonterminal::Term),
                    Symbol::Nonterm(Nonterminal::NumexprTail),
                ],
            ),
            _ => None,
        },
        Nonterminal::NumexprTail => match la {
            Terminal::Plus => Some(
                seq![
                    Symbol::Term(Terminal::Plus),
                    Symbol::Nonterm(Nonterminal::Term),
                    Symbol::Nonterm(Nonterminal::NumexprTail),
                ],
            ),
            Terminal::Minus => Some(
                seq![
                    Symbol::Term(Terminal::Minus),
                    Symbol::Nonterm(Nonterminal::Term),
                    Symbol::Nonterm(Nonterminal::NumexprTail),
                ],
            ),
            Terminal::LessThan | Terminal::LessEqual | Terminal::GreaterThan
                | Terminal::GreaterEqual | Terminal::Equal | Terminal::NotEqual
                | Terminal::Semicolon | Terminal::RightParen => Some(Seq::empty()),
            _ => None,
        },
        Nonterminal::Term => match la {
            Terminal::Num | Terminal::LeftParen | Terminal::Id => Some(
                seq![
                    Symbol::Nonterm(Nonterminal::Fact),
                    Symbol::Nonterm(Nonterminal::TermTail),
                ],
            ),
            _ => None,
        },
        Nonterminal::TermTail => match la {
            Terminal::Multiply => Some(
                seq![
                    Symbol::Term(Terminal::Multiply),
                    Symbol::Nonterm(Nonterminal::Fact),
                    Symbol::Nonterm(Nonterminal::TermTail),
                ],
            ),
            Terminal::Divide => Some(
                seq![
                    Symbol::Term(Terminal::Divide),
                    Symbol::Nonterm(Nonterminal::Fact),
                    Symbol::Nonterm(Nonterminal::TermTail),
                ],
            ),
            Terminal::Plus | Terminal::Minus | Terminal::LessThan | Terminal::LessEqual
                | Terminal::GreaterThan | Terminal::GreaterEqual | Terminal::Equal
                | Terminal::NotEqual | Terminal::Semicolon | Terminal::RightParen => Some(
                Seq::empty(),
            ),
            _ => None,
        },
        Nonterminal::Fact => match la {
            Terminal::Num => Some(seq![Symbol::Term(Terminal::Num)]),
            Terminal::LeftParen => Some(
                seq![
                    Symbol::Term(Terminal::LeftParen),
                    Symbol::Nonterm(Nonterminal::Expr),
                    Symbol::Term(Terminal::RightParen),
                ],
            ),
            Terminal::Id => Some(seq![Symbol::Term(Terminal::Id)]),
            _ => None,
        },
    }
}

/// Look up the production for `nt` under lookahead `la`.
#[verifier::rlimit(30)]
pub fn ll1_transition_table(nt: Nonterminal, la: Terminal) -> (r: Option<Vec<Symbol>>)
    ensures
        match r {
            Some(v) => spec_table(nt, la) matches Some(p) && p =~= v@,
            None => spec_table(nt, la) is None,
        },
{
    match nt {
        Nonterminal::Main => match la {
            Terminal::Int | Terminal::Id | Terminal::Print | Terminal::Return | Terminal::If
                | Terminal::LeftBrace | Terminal::Semicolon => Some(
                vec![Symbol::Nonterm(Nonterminal::Stmt)],
            ),
            Terminal::Def => Some(vec![Symbol::Nonterm(Nonterminal::Flist)]),
            Terminal::DollarSign => Some(Vec::new()),
            _ => None,
        },
        Nonterminal::Flist => match la {
            Terminal::Def => Some(
                vec![
                    Symbol::Nonterm(Nonterminal::Fdef),
                    Symbol::Nonterm(Nonterminal::FlistTail),
                ],
            ),
            Terminal::DollarSign => Some(Vec::new()),
            _ => None,
        },
        Nonterminal::FlistTail => match la {
            Terminal::Def => Some(
                vec![
                    Symbol::Nonterm(Nonterminal::Fdef),
                    Symbol::Nonterm(Nonterminal::FlistTail),
                ],
            ),
            Terminal::DollarSign => Some(Vec::new()),
            _ => None,
        },
        Nonterminal::Fdef => match la {
            Terminal::Def => Some(
                vec![
                    Symbol::Term(Terminal::Def),
                    Symbol::Term(Terminal::Id),
                    Symbol::Term(Terminal::LeftParen),
                    Symbol::Nonterm(Nonterminal::Parlist),
                    Symbol::Term(Terminal::RightParen),
                    Symbol::Term(Terminal::LeftBrace),
                    Symbol::Nonterm(Nonterminal::Stmtlist),
                    Symbol::Term(Terminal::RightBrace),
                ],
            ),
            _ => None,
        },
        Nonterminal::Parlist => match la {
            Terminal::Int => Some(
                vec![
                    Symbol::Term(Terminal::Int),
                    Symbol::Term(Terminal::Id),
                    Symbol::Nonterm(Nonterminal::ParlistTail),
                ],
            ),
            Terminal::RightParen => Some(Vec::new()),
            _ => None,
        },
        Nonterminal::ParlistTail => match la {
            Terminal::Comma => Some(
                vec![Symbol::Term(Terminal::Comma), Symbol::Nonterm(Nonterminal::Parlist)],
            ),
            Terminal::RightParen => Some(Vec::new()),
            _ => None,
        },
        Nonterminal::Varlist => match la {
            Terminal::Id => Some(
                vec![Symbol::Term(Terminal::Id), Symbol::Nonterm(Nonterminal::VarlistTail)],
            ),
            _ => None,
        },
        Nonterminal::VarlistTail => match la {
            Terminal::Comma => Some(
                vec![Symbol::Term(Terminal::Comma), Symbol::Nonterm(Nonterminal::Varlist)],
            ),
            Terminal::Semicolon => Some(Vec::new()),
            _ => None,
        },
        Nonterminal::Stmt => match la {
            Terminal::Int => Some(
                vec![
                    Symbol::Term(Terminal::Int),
                    Symbol::Nonterm(Nonterminal::Varlist),
                    Symbol::Term(Terminal::Semicolon),
                ],
            ),
            Terminal::Id => Some(
                vec![
                    Symbol::Nonterm(Nonterminal::Atribst),
                    Symbol::Term(Terminal::Semicolon),
                ],
            ),
            Terminal::Print => Some(
                vec![
                    Symbol::Nonterm(Nonterminal::Printst),
                    Symbol::Term(Terminal::Semicolon),
                ],
            ),
            Terminal::Return => Some(
                vec![
                    Symbol::Nonterm(Nonterminal::Returnst),
                    Symbol::Term(Terminal::Semicolon),
                ],
            ),
            Terminal::If => Some(vec![Symbol::Nonterm(Nonterminal::Ifstmt)]),
            Terminal::LeftBrace => Some(
                vec![
                    Symbol::Term(Terminal::LeftBrace),
                    Symbol::Nonterm(Nonterminal::Stmtlist),
                    Symbol::Term(Terminal::RightBrace),
                ],
            ),
            Terminal::Semicolon => Some(vec![Symbol::Term(Terminal::Semicolon)]),
            _ => None,
        },
        Nonterminal::Atribst => match la {
            Terminal::Id => Some(
                vec![
                    Symbol::Term(Terminal::Id),
                    Symbol::Term(Terminal::Equals),
                    Symbol::Nonterm(Nonterminal::AtribstTail),
                ],
            ),
            _ => None,
        },
        Nonterminal::AtribstTail => match la {
            Terminal::Num | Terminal::LeftParen => Some(vec![Symbol::Nonterm(Nonterminal::Expr)]),
            Terminal::Id => Some(vec![Symbol::Nonterm(Nonterminal::Fcall)]),
            _ => None,
        },
        Nonterminal::Fcall => match la {
            Terminal::Id => Some(
                vec![
                    Symbol::Term(Terminal::Id),
                    Symbol::Term(Terminal::LeftParen),
                    Symbol::Nonterm(Nonterminal::Parlistcall),
                    Symbol::Term(Terminal::RightParen),
                ],
            ),
            _ => None,
        },
        Nonterminal::Parlistcall => match la {
            Terminal::Id => Some(
                vec![
                    Symbol::Term(Terminal::Id),
                    Symbol::Nonterm(Nonterminal::ParlistcallTail),
                ],
            ),
            Terminal::RightParen => Some(Vec::new()),
            _ => None,
        },
        Nonterminal::ParlistcallTail => match la {
            Terminal::Comma => Some(
                vec![
                    Symbol::Term(Terminal::Comma),
                    Symbol::Nonterm(Nonterminal::Parlistcall),
                ],
            ),
            Terminal::RightParen => Some(Vec::new()),
            _ => None,
        },
        Nonterminal::Printst => match la {
            Terminal::Print => Some(
                vec![Symbol::Term(Terminal::Print), Symbol::Nonterm(Nonterminal::Expr)],
            ),
            _ => None,
        },
        Nonterminal::Returnst => match la {
            Terminal::Return => Some(
                vec![
                    Symbol::Term(Terminal::Return),
                    Symbol::Nonterm(Nonterminal::ReturnstTail),
                ],
            ),
            _ => None,
        },
        Nonterminal::ReturnstTail => match la {
            Terminal::Id => Some(vec![Symbol::Term(Terminal::Id)]),
            Terminal::Semicolon => Some(Vec::new()),
            _ => None,
        },
        Nonterminal::Ifstmt => match la {
            Terminal::If => Some(
                vec![
                    Symbol::Term(Terminal::If),
                    Symbol::Term(Terminal::LeftParen),
                    Symbol::Nonterm(Nonterminal::Expr),
                    Symbol::Term(Terminal::RightParen),
                    Symbol::Nonterm(Nonterminal::Stmt),
                    Symbol::Nonterm(Nonterminal::IfstmtTail),
                ],
            ),
            _ => None,
        },
        Nonterminal::IfstmtTail => match la {
            Terminal::Else => Some(
                vec![Symbol::Term(Terminal::Else), Symbol::Nonterm(Nonterminal::Stmt)],
            ),
            Terminal::Int | Terminal::Id | Terminal::Print | Terminal::Return | Terminal::If
                | Terminal::LeftBrace | Terminal::Semicolon | Terminal::DollarSign => Some(
                Vec::new(),
            ),
            _ => None,
        },
        Nonterminal::Stmtlist => match la {
            Terminal::Int | Terminal::Id | Terminal::Print | Terminal::Return | Terminal::If
                | Terminal::LeftBrace | Terminal::Semicolon => Some(
                vec![
                    Symbol::Nonterm(Nonterminal::Stmt),
                    Symbol::Nonterm(Nonterminal::StmtlistTail),
                ],
            ),
            Terminal::RightBrace => Some(Vec::new()),
            _ => None,
        },
        Nonterminal::StmtlistTail => match la {
            Terminal::Int | Terminal::Id | Terminal::Print | Terminal::Return | Terminal::If
                | Terminal::LeftBrace | Terminal::Semicolon => Some(
                vec![Symbol::Nonterm(Nonterminal::Stmtlist)],
            ),
            Terminal::RightBrace => Some(Vec::new()),
            _ => None,
        },
        Nonterminal::Expr => match la {
            Terminal::Num | Terminal::LeftParen | Terminal::Id => Some(
                vec![
                    Symbol::Nonterm(Nonterminal::Numexpr),
                    Symbol::Nonterm(Nonterminal::ExprTail),
                ],
            ),
            _ => None,
        },
        Nonterminal::ExprTail => match la {
            Terminal::LessThan => Some(
                vec![
                    Symbol::Term(Terminal::LessThan),
                    Symbol::Nonterm(Nonterminal::Numexpr),
                ],
            ),
            Terminal::LessEqual => Some(
                vec![
                    Symbol::Term(Terminal::LessEqual),
                    Symbol::Nonterm(Nonterminal::Numexpr),
                ],
            ),
            Terminal::GreaterThan => Some(
                vec![
                    Symbol::Term(Terminal::GreaterThan),
                    Symbol::Nonterm(Nonterminal::Numexpr),
                ],
            ),
            Terminal::GreaterEqual => Some(
                vec![
                    Symbol::Term(Terminal::GreaterEqual),
                    Symbol::Nonterm(Nonterminal::Numexpr),
                ],
            ),
            Terminal::Equal => Some(
                vec![Symbol::Term(Terminal::Equal), Symbol::Nonterm(Nonterminal::Numexpr)],
            ),
            Terminal::NotEqual => Some(
                vec![
                    Symbol::Term(Terminal::NotEqual),
                    Symbol::Nonterm(Nonterminal::Numexpr),
                ],
            ),
            Terminal::Semicolon | Terminal::RightParen => Some(Vec::new()),
            _ => None,
        },
        Nonterminal::Numexpr => match la {
            Terminal::Num | Terminal::LeftParen | Terminal::Id => Some(
                vec![
                    Symbol::Nonterm(Nonterminal::Term),
                    Symbol::Nonterm(Nonterminal::NumexprTail),
                ],
            ),
            _ => None,
        },
        Nonterminal::NumexprTail => match la {
            Terminal::Plus => Some(
                vec![
                    Symbol::Term(Terminal::Plus),
                    Symbol::Nonterm(Nonterminal::Term),
                    Symbol::Nonterm(Nonterminal::NumexprTail),
                ],
            ),
            Terminal::Minus => Some(
                vec![
                    Symbol::Term(Terminal::Minus),
                    Symbol::Nonterm(Nonterminal::Term),
                    Symbol::Nonterm(Nonterminal::NumexprTail),
                ],
            ),
            Terminal::LessThan | Terminal::LessEqual | Terminal::GreaterThan
                | Terminal::GreaterEqual | Terminal::Equal | Terminal::NotEqual
                | Terminal::Semicolon | Terminal::RightParen => Some(Vec::new()),
            _ => None,
        },
        Nonterminal::Term => match la {
            Terminal::Num | Terminal::LeftParen | Terminal::Id => Some(
                vec![
                    Symbol::Nonterm(Nonterminal::Fact),
                    Symbol::Nonterm(Nonterminal::TermTail),
                ],
            ),
            _ => None,
        },
        Nonterminal::TermTail => match la {
            Terminal::Multiply => Some(
                vec![
                    Symbol::Term(Terminal::Multiply),
                    Symbol::Nonterm(Nonterminal::Fact),
                    Symbol::Nonterm(Nonterminal::TermTail),
                ],
            ),
            Terminal::Divide => Some(
                vec![
                    Symbol::Term(Terminal::Divide),
                    Symbol::Nonterm(Nonterminal::Fact),
                    Symbol::Nonterm(Nonterminal::TermTail),
                ],
            ),
            Terminal::Plus | Terminal::Minus | Terminal::LessThan | Terminal::LessEqual
                | Terminal::GreaterThan | Terminal::GreaterEqual | Terminal::Equal
                | Terminal::NotEqual | Terminal::Semicolon | Terminal::RightParen => Some(
                Vec::new(),
            ),
            _ => None,
        },
        Nonterminal::Fact => match la {
            Terminal::Num => Some(vec![Symbol::Term(Terminal::Num)]),
            Terminal::LeftParen => Some(
                vec![
                    Symbol::Term(Terminal::LeftParen),
                    Symbol::Nonterm(Nonterminal::Expr),
                    Symbol::Term(Terminal::RightParen),
                ],
            ),
            Terminal::Id => Some(vec![Symbol::Term(Terminal::Id)]),
            _ => None,
        },
    }
}

} // verus!
