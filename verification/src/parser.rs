//! The predictive parser: a stack machine driven by the LL(1) table,
//! with two lookahead overrides the table alone cannot express.
//!
//! The machine starts from the stack `[$, MAIN]` and a cursor at the
//! first token.  Each step pops the stack top: the end marker decides
//! acceptance, a nonterminal is replaced by the production the table
//! (or an override) selects, and a terminal must match the lookahead,
//! which is then consumed and recorded in the match trace.

use vstd::prelude::*;

use crate::ll1_table::{ll1_transition_table, spec_table, Nonterminal, Symbol};
use crate::token::{Terminal, Token};

verus! {

/// A syntax error, fatal for the parse.
#[derive(Debug, Clone, Copy, PartialEq, Eq, Structural)]
pub enum SyntaxError {
    /// The stack top could not be resolved against the lookahead: the
    /// expected symbol, the terminal found, and its 1-based position.
    ExpectedFound { expected: Symbol, found: Terminal, at_token: usize },
    /// A grammar symbol was left on the stack when the input ended.
    UnresolvedAtEnd { symbol: Symbol },
    /// Tokens remained after the end marker was reached.
    TrailingTokens,
}

/// The state of the parser machine: the symbol stack (top last), the
/// cursor into the terminal sequence, and the match trace so far.
pub struct MachState {
    pub stack: Seq<Symbol>,
    pub cursor: int,
    pub trace: Seq<Terminal>,
}

/// The effect of one machine step.
pub enum MachStep {
    Next(MachState),
    Accept(Seq<Terminal>),
    Fail(SyntaxError),
}

/// The result of running the machine for a bounded number of steps.
pub enum RunResult {
    Running(MachState),
    Accepted(Seq<Terminal>),
    Rejected(SyntaxError),
}

/// The initial machine state: end marker below the start symbol.
pub open spec fn init_state() -> MachState {
    MachState {
        stack: seq![
            Symbol::Term(Terminal::DollarSign),
            Symbol::Nonterm(Nonterminal::Main),
        ],
        cursor: 0,
        trace: Seq::empty(),
    }
}

/// The terminal symbols of a token sequence, in order.
pub open spec fn token_terminals(ts: Seq<Token>) -> Seq<Terminal> {
    Seq::new(ts.len(), |i: int| ts[i].terminal)
}

/// One step of the parser machine on lookahead sequence `toks`.
pub open spec fn mach_step(toks: Seq<Terminal>, st: MachState) -> MachStep {
    if st.stack.len() == 0 {
        MachStep::Accept(st.trace)
    } else {
        let top = st.stack.last();
        let rest = st.stack.drop_last();
        if top == Symbol::Term(Terminal::DollarSign) {
            if st.cursor == toks.len() {
                MachStep::Accept(st.trace)
            } else {
                MachStep::Fail(SyntaxError::TrailingTokens)
            }
        } else if st.cursor >= toks.len() {
            match top {
                Symbol::Nonterm(nt) => match spec_table(nt, Terminal::DollarSign) {
                    Some(prod) => MachStep::Next(
                        MachState { stack: rest + prod.reverse(), cursor: st.cursor, trace: st.trace },
                    ),
                    None => MachStep::Fail(SyntaxError::UnresolvedAtEnd { symbol: top }),
                },
                Symbol::Term(_) => MachStep::Fail(SyntaxError::UnresolvedAtEnd { symbol: top }),
            }
        } else {
            let la = toks[st.cursor];
            if top == Symbol::Nonterm(Nonterminal::IfstmtTail) {
                // Dangling else: an `else` in the lookahead binds to the
                // nearest unmatched `if`; otherwise the branch is empty.
                if la == Terminal::Else {
                    MachStep::Next(
                        MachState {
                            stack: rest + seq![
                                Symbol::Nonterm(Nonterminal::Stmt),
                                Symbol::Term(Terminal::Else),
                            ],
                            cursor: st.cursor,
                            trace: st.trace,
                        },
                    )
                } else {
                    MachStep::Next(MachState { stack: rest, cursor: st.cursor, trace: st.trace })
                }
            } else if top == Symbol::Nonterm(Nonterminal::AtribstTail) {
                // Assignment tail: one token of extra lookahead decides
                // between a function call and an expression.
                if st.cursor + 1 < toks.len() && toks[st.cursor + 1] == Terminal::LeftParen {
                    MachStep::Next(
                        MachState {
                            stack: rest.push(Symbol::Nonterm(Nonterminal::Fcall)),
                            cursor: st.cursor,
                            trace: st.trace,
                        },
                    )
                } else {
                    MachStep::Next(
                        MachState {
                            stack: rest.push(Symbol::Nonterm(Nonterminal::Expr)),
                            cursor: st.cursor,
                            trace: st.trace,
                        },
                    )
                }
            } else {
                match top {
                    Symbol::Nonterm(nt) => match spec_table(nt, la) {
                        Some(prod) => MachStep::Next(
                            MachState {
                                stack: rest + prod.reverse(),
                                cursor: st.cursor,
                                trace: st.trace,
                            },
                        ),
                        None => MachStep::Fail(
                            SyntaxError::ExpectedFound {
                                expected: top,
                                found: la,
                                at_token: (st.cursor + 1) as usize,
                            },
                        ),
                    },
                    Symbol::Term(t) => {
                        if t == la {
                            MachStep::Next(
                                MachState {
                                    stack: rest,
                                    cursor: st.cursor + 1,
                                    trace: st.trace.push(t),
                                },
                            )
                        } else {
                            MachStep::Fail(
                                SyntaxError::ExpectedFound {
                                    expected: top,
                                    found: la,
                                    at_token: (st.cursor + 1) as usize,
                                },
                            )
                        }
                    },
                }
            }
        }
    }
}

/// Run the machine for at most `fuel` steps.
pub open spec fn mach_run(toks: Seq<Terminal>, st: MachState, fuel: nat) -> RunResult
    decreases fuel,
{
    if fuel == 0 {
        RunResult::Running(st)
    } else {
        match mach_step(toks, st) {
            MachStep::Next(s2) => mach_run(toks, s2, (fuel - 1) as nat),
            MachStep::Accept(tr) => RunResult::Accepted(tr),
            MachStep::Fail(e) => RunResult::Rejected(e),
        }
    }
}

proof fn lemma_run_extend(toks: Seq<Terminal>, st: MachState, n: nat)
    ensures
        mach_run(toks, st, n) matches RunResult::Running(s) ==> mach_run(toks, st, n + 1) == (
        match mach_step(toks, s) {
            MachStep::Next(s2) => RunResult::Running(s2),
            MachStep::Accept(tr) => RunResult::Accepted(tr),
            MachStep::Fail(e) => RunResult::Rejected(e),
        }),
    decreases n,
{
    if n == 0 {
        assert(mach_run(toks, st, 0) == RunResult::Running(st));
        match mach_step(toks, st) {
            MachStep::Next(s2) => {
                assert(mach_run(toks, st, 1) == mach_run(toks, s2, 0));
                assert(mach_run(toks, s2, 0) == RunResult::Running(s2));
            },
            MachStep::Accept(tr) => {
                assert(mach_run(toks, st, 1) == RunResult::Accepted(tr));
            },
            MachStep::Fail(e) => {
                assert(mach_run(toks, st, 1) == RunResult::Rejected(e));
            },
        }
    } else {
        match mach_step(toks, st) {
            MachStep::Next(s2) => {
                lemma_run_extend(toks, s2, (n - 1) as nat);
                assert(mach_run(toks, st, n) == mach_run(toks, s2, (n - 1) as nat));
                assert(mach_run(toks, st, n + 1) == mach_run(toks, s2, n));
                assert(n == (n - 1) as nat + 1);
            },
            _ => {},
        }
    }
}

/// Once the machine has accepted or rejected, more fuel changes
/// nothing: the outcome at any sufficient fuel is the outcome.
pub proof fn lemma_mach_run_monotone(toks: Seq<Terminal>, st: MachState, n: nat, m: nat)
    requires
        n <= m,
        !(mach_run(toks, st, n) is Running),
    ensures
        mach_run(toks, st, m) == mach_run(toks, st, n),
    decreases n,
{
    if n > 0 {
        match mach_step(toks, st) {
            MachStep::Next(s2) => {
                lemma_mach_run_monotone(toks, s2, (n - 1) as nat, (m - 1) as nat);
            },
            _ => {},
        }
    }
}

/// Determinism of the machine: any two fuels at which it has finished
/// give the same outcome, so a parse result is a function of the token
/// sequence alone.
pub proof fn lemma_mach_result_unique(toks: Seq<Terminal>, st: MachState, n: nat, m: nat)
    requires
        !(mach_run(toks, st, n) is Running),
        !(mach_run(toks, st, m) is Running),
    ensures
        mach_run(toks, st, n) == mach_run(toks, st, m),
{
    if n <= m {
        lemma_mach_run_monotone(toks, st, n, m);
    } else {
        lemma_mach_run_monotone(toks, st, m, n);
    }
}

// ---------------------------------------------------------------------------
// Termination structure of the grammar
// ---------------------------------------------------------------------------
//
// Between two consumed tokens the machine only descends along left
// corners: when a production's first symbol is a nonterminal, that
// nonterminal sits strictly lower in the rank below, and its own entry
// under the same lookahead is never epsilon.  These finite facts about
// the table bound the work of the parser loop.

/// A rank on nonterminals that strictly decreases along left corners:
/// whenever the table expands `nt` into a production whose first symbol
/// is the nonterminal `m`, the rank of `m` is below the rank of `nt`.
pub open spec fn nt_rank(nt: Nonterminal) -> nat {
    match nt {
        Nonterminal::Main => 3,
        Nonterminal::Flist => 2,
        Nonterminal::FlistTail => 2,
        Nonterminal::Fdef => 1,
        Nonterminal::Parlist => 1,
        Nonterminal::ParlistTail => 1,
        Nonterminal::Varlist => 1,
        Nonterminal::VarlistTail => 1,
        Nonterminal::Stmt => 2,
        Nonterminal::Atribst => 1,
        Nonterminal::AtribstTail => 5,
        Nonterminal::Fcall => 1,
        Nonterminal::Parlistcall => 1,
        Nonterminal::ParlistcallTail => 1,
        Nonterminal::Printst => 1,
        Nonterminal::Returnst => 1,
        Nonterminal::ReturnstTail => 1,
        Nonterminal::Ifstmt => 1,
        Nonterminal::IfstmtTail => 1,
        Nonterminal::Stmtlist => 3,
        Nonterminal::StmtlistTail => 4,
        Nonterminal::Expr => 4,
        Nonterminal::ExprTail => 1,
        Nonterminal::Numexpr => 3,
        Nonterminal::NumexprTail => 1,
        Nonterminal::Term => 2,
        Nonterminal::TermTail => 1,
        Nonterminal::Fact => 1,
    }
}

/// The rank of a grammar symbol; terminals are below every nonterminal.
pub open spec fn sym_rank(s: Symbol) -> nat {
    match s {
        Symbol::Term(_) => 0,
        Symbol::Nonterm(m) => nt_rank(m),
    }
}

/// The entry for `m` under `la` is either absent or a non-empty
/// production.
pub open spec fn entry_nonempty(m: Nonterminal, la: Terminal) -> bool {
    match spec_table(m, la) {
        Some(p) => p.len() > 0,
        None => true,
    }
}

/// At the end of the input every table entry is an epsilon entry, so the
/// stack only shrinks there.
proof fn lemma_end_entries(nt: Nonterminal)
    ensures
        spec_table(nt, Terminal::DollarSign) matches Some(p) ==> p.len() == 0,
{
}

/// Left-corner descent: a non-empty production's first nonterminal has a
/// smaller rank, is never one of the two override nonterminals, and its
/// own entry under the same lookahead is never epsilon.
proof fn lemma_chain_step(nt: Nonterminal, la: Terminal)
    ensures
        spec_table(nt, la) matches Some(p) ==> (p.len() > 0 ==> (p[0] matches Symbol::Nonterm(m)
            ==> nt_rank(m) < nt_rank(nt) && m != Nonterminal::IfstmtTail && m
            != Nonterminal::AtribstTail && entry_nonempty(m, la))),
{
}

/// The two override targets of the assignment tail always have either a
/// missing entry or a non-empty production.
proof fn lemma_override_targets(la: Terminal)
    ensures
        entry_nonempty(Nonterminal::Expr, la),
        entry_nonempty(Nonterminal::Fcall, la),
{
}

/// A symbol held at the top of the expansion loop: overrides are never
/// reached there, and its entry under the current lookahead is never
/// epsilon.
pub open spec fn chain_ok(cur: Symbol, la: Terminal) -> bool {
    match cur {
        Symbol::Term(_) => true,
        Symbol::Nonterm(m) => m != Nonterminal::IfstmtTail && m != Nonterminal::AtribstTail
            && entry_nonempty(m, la),
    }
}

/// A state reachable from the start: the end marker sits at the bottom
/// of a non-empty stack, and the trace holds exactly the consumed
/// prefix of the input.
pub open spec fn good_state(toks: Seq<Terminal>, st: MachState) -> bool {
    &&& st.stack.len() > 0
    &&& st.stack[0] == Symbol::Term(Terminal::DollarSign)
    &&& 0 <= st.cursor <= toks.len()
    &&& st.trace == toks.take(st.cursor)
}

proof fn lemma_step_preserves_good(toks: Seq<Terminal>, st: MachState)
    requires
        good_state(toks, st),
    ensures
        mach_step(toks, st) matches MachStep::Next(s2) ==> good_state(toks, s2),
        mach_step(toks, st) matches MachStep::Accept(tr) ==> tr == toks,
{
    let top = st.stack.last();
    let rest = st.stack.drop_last();
    if st.stack.len() == 1 {
        assert(top == st.stack[0]);
    } else {
        assert(rest[0] == st.stack[0]);
    }
    match mach_step(toks, st) {
        MachStep::Next(s2) => {
            assert(st.stack.len() >= 2);
            if s2.trace != st.trace {
                // the only step that extends the trace is a terminal match
                assert(s2.trace == st.trace.push(toks[st.cursor]));
                assert(st.trace.push(toks[st.cursor]) =~= toks.take(st.cursor + 1));
            }
        },
        MachStep::Accept(tr) => {
            assert(st.cursor == toks.len());
            assert(toks.take(st.cursor) =~= toks);
        },
        MachStep::Fail(_) => {},
    }
}

proof fn lemma_accept_trace_from(toks: Seq<Terminal>, st: MachState, n: nat)
    requires
        good_state(toks, st),
    ensures
        mach_run(toks, st, n) matches RunResult::Accepted(tr) ==> tr == toks,
    decreases n,
{
    if n > 0 {
        lemma_step_preserves_good(toks, st);
        match mach_step(toks, st) {
            MachStep::Next(s2) => {
                lemma_accept_trace_from(toks, s2, (n - 1) as nat);
            },
            _ => {},
        }
    }
}

/// The match trace of an accepted parse is the whole input: every
/// terminal was matched, in order, and nothing else was recorded.
pub proof fn lemma_trace_is_input(toks: Seq<Terminal>, n: nat)
    ensures
        mach_run(toks, init_state(), n) matches RunResult::Accepted(tr) ==> tr == toks,
{
    assert(init_state().trace =~= toks.take(0));
    lemma_accept_trace_from(toks, init_state(), n);
}

/// Parse a token sequence against the grammar.  Returns the match trace
/// (the matched terminals, in order) when the machine accepts, or the
/// syntax error when it rejects: in either case exactly the outcome of
/// the parser machine run to completion on the tokens' terminals.
pub fn parse(tokens: &Vec<Token>) -> (r: Result<Vec<Terminal>, SyntaxError>)
    ensures
        ({
            let toks = token_terminals(tokens@);
            match r {
                Ok(trace) => exists|n: nat|
                    mach_run(toks, init_state(), n) == RunResult::Accepted(trace@),
                Err(e) => exists|n: nat|
                    mach_run(toks, init_state(), n) == RunResult::Rejected(e),
            }
        }),
{
    let ghost toks = token_terminals(tokens@);
    let mut stack: Vec<Symbol> = Vec::new();
    stack.push(Symbol::Term(Terminal::DollarSign));
    stack.push(Symbol::Nonterm(Nonterminal::Main));
    let mut index: usize = 0;
    let mut trace: Vec<Terminal> = Vec::new();
    let ghost mut steps: nat = 0;
    proof {
        assert(stack@ =~= init_state().stack);
        assert(trace@ =~= init_state().trace);
        assert(init_state() == (MachState { stack: stack@, cursor: index as int, trace: trace@ }));
    }
    let end: usize = tokens.len();
    while stack.len() > 0
        invariant
            toks == token_terminals(tokens@),
            toks.len() == tokens@.len(),
            end == tokens@.len(),
            index <= tokens@.len(),
            mach_run(toks, init_state(), steps) == RunResult::Running(
                MachState { stack: stack@, cursor: index as int, trace: trace@ },
            ),
        decreases tokens@.len() - index, stack@.len(),
    {
        let ghost pre = MachState { stack: stack@, cursor: index as int, trace: trace@ };
        proof {
            lemma_run_extend(toks, init_state(), steps);
        }
        let top = stack.pop().unwrap();
        proof {
            assert(pre.stack.last() == top);
            assert(pre.stack.drop_last() =~= stack@);
            assert(stack@.push(top) =~= pre.stack);
        }
        if top == Symbol::Term(Terminal::DollarSign) {
            if index == end {
                proof {
                    assert(mach_step(toks, pre) == MachStep::Accept(trace@));
                    assert(mach_run(toks, init_state(), steps + 1) == RunResult::Accepted(trace@));
                }
                return Ok(trace);
            } else {
                proof {
                    assert(mach_step(toks, pre) == MachStep::Fail(SyntaxError::TrailingTokens));
                    assert(mach_run(toks, init_state(), steps + 1) == RunResult::Rejected(
                        SyntaxError::TrailingTokens,
                    ));
                }
                return Err(SyntaxError::TrailingTokens);
            }
        } else if index == end {
            match top {
                Symbol::Nonterm(nt) => match ll1_transition_table(nt, Terminal::DollarSign) {
                    Some(prod) => {
                        proof {
                            lemma_end_entries(nt);
                            let p = spec_table(nt, Terminal::DollarSign).unwrap();
                            assert(p.len() == 0);
                            assert(stack@ + p.reverse() =~= stack@);
                            assert(mach_step(toks, pre) == MachStep::Next(
                                MachState { stack: stack@, cursor: index as int, trace: trace@ },
                            ));
                            steps = steps + 1;
                        }
                    },
                    None => {
                        proof {
                            assert(mach_step(toks, pre) == MachStep::Fail(
                                SyntaxError::UnresolvedAtEnd { symbol: top },
                            ));
                        }
                        return Err(SyntaxError::UnresolvedAtEnd { symbol: top });
                    },
                },
                Symbol::Term(_) => {
                    proof {
                        assert(mach_step(toks, pre) == MachStep::Fail(
                            SyntaxError::UnresolvedAtEnd { symbol: top },
                        ));
                    }
                    return Err(SyntaxError::UnresolvedAtEnd { symbol: top });
                },
            }
        } else {
            let la = tokens[index].terminal;
            proof {
                assert(toks[index as int] == la);
            }
            if top == Symbol::Nonterm(Nonterminal::IfstmtTail) {
                if la == Terminal::Else {
                    stack.push(Symbol::Nonterm(Nonterminal::Stmt));
                    let ghost mid = MachState {
                        stack: stack@.push(Symbol::Term(Terminal::Else)),
                        cursor: index as int,
                        trace: trace@,
                    };
                    proof {
                        assert(pre.stack.drop_last() + seq![
                            Symbol::Nonterm(Nonterminal::Stmt),
                            Symbol::Term(Terminal::Else),
                        ] =~= mid.stack);
                        assert(mach_step(toks, pre) == MachStep::Next(mid));
                        steps = steps + 1;
                        lemma_run_extend(toks, init_state(), steps);
                    }
                    trace.push(Terminal::Else);
                    index = index + 1;
                    proof {
                        assert(mid.stack.last() == Symbol::Term(Terminal::Else));
                        assert(mid.stack.drop_last() =~= stack@);
                        assert(mach_step(toks, mid) == MachStep::Next(
                            MachState { stack: stack@, cursor: index as int, trace: trace@ },
                        ));
                        steps = steps + 1;
                    }
                } else {
                    proof {
                        assert(mach_step(toks, pre) == MachStep::Next(
                            MachState { stack: stack@, cursor: index as int, trace: trace@ },
                        ));
                        steps = steps + 1;
                    }
                }
            } else {
                // A plain symbol: an epsilon entry only pops; a missing
                // entry for a nonterminal rejects; everything else goes
                // through the expansion loop below, which ends by
                // consuming one token or rejecting.
                let mut cur: Symbol = top;
                let mut expanding: bool = false;
                if top == Symbol::Nonterm(Nonterminal::AtribstTail) {
                    let next_is_paren = index + 1 < end && tokens[index + 1].terminal
                        == Terminal::LeftParen;
                    cur = if next_is_paren {
                        Symbol::Nonterm(Nonterminal::Fcall)
                    } else {
                        Symbol::Nonterm(Nonterminal::Expr)
                    };
                    expanding = true;
                    proof {
                        if index + 1 < tokens@.len() {
                            assert(toks[index + 1] == tokens@[index + 1].terminal);
                        }
                        assert(mach_step(toks, pre) == MachStep::Next(
                            MachState {
                                stack: stack@.push(cur),
                                cursor: index as int,
                                trace: trace@,
                            },
                        ));
                        steps = steps + 1;
                        lemma_override_targets(la);
                    }
                } else {
                    match top {
                        Symbol::Nonterm(m) => match ll1_transition_table(m, la) {
                            None => {
                                proof {
                                    assert(mach_step(toks, pre) == MachStep::Fail(
                                        SyntaxError::ExpectedFound {
                                            expected: top,
                                            found: la,
                                            at_token: (index + 1) as usize,
                                        },
                                    ));
                                }
                                return Err(
                                    SyntaxError::ExpectedFound {
                                        expected: top,
                                        found: la,
                                        at_token: index + 1,
                                    },
                                );
                            },
                            Some(prod) => {
                                if prod.len() == 0 {
                                    proof {
                                        let p = spec_table(m, la).unwrap();
                                        assert(p.len() == 0);
                                        assert(stack@ + p.reverse() =~= stack@);
                                        assert(mach_step(toks, pre) == MachStep::Next(
                                            MachState {
                                                stack: stack@,
                                                cursor: index as int,
                                                trace: trace@,
                                            },
                                        ));
                                        steps = steps + 1;
                                    }
                                } else {
                                    expanding = true;
                                }
                            },
                        },
                        Symbol::Term(_) => {
                            expanding = true;
                        },
                    }
                }
                if expanding {
                    let ghost index0 = index as int;
                    let mut done: bool = false;
                    while !done
                        invariant
                            toks == token_terminals(tokens@),
                            toks.len() == tokens@.len(),
                            end == tokens@.len(),
                            !done ==> index as int == index0,
                            !done ==> index < tokens@.len(),
                            !done ==> toks[index as int] == la,
                            !done ==> chain_ok(cur, la),
                            !done ==> mach_run(toks, init_state(), steps) == RunResult::Running(
                                MachState {
                                    stack: stack@.push(cur),
                                    cursor: index as int,
                                    trace: trace@,
                                },
                            ),
                            done ==> index as int == index0 + 1 && index <= tokens@.len(),
                            done ==> mach_run(toks, init_state(), steps) == RunResult::Running(
                                MachState { stack: stack@, cursor: index as int, trace: trace@ },
                            ),
                        decreases sym_rank(cur) + (if done {
                            0nat
                        } else {
                            1nat
                        }),
                    {
                        let ghost inpre = MachState {
                            stack: stack@.push(cur),
                            cursor: index as int,
                            trace: trace@,
                        };
                        proof {
                            lemma_run_extend(toks, init_state(), steps);
                            assert(inpre.stack.last() == cur);
                            assert(inpre.stack.drop_last() =~= stack@);
                        }
                        match cur {
                            Symbol::Term(t) => {
                                if t == Terminal::DollarSign {
                                    proof {
                                        assert(mach_step(toks, inpre) == MachStep::Fail(
                                            SyntaxError::TrailingTokens,
                                        ));
                                    }
                                    return Err(SyntaxError::TrailingTokens);
                                } else if t == la {
                                    trace.push(t);
                                    index = index + 1;
                                    proof {
                                        assert(mach_step(toks, inpre) == MachStep::Next(
                                            MachState {
                                                stack: stack@,
                                                cursor: index as int,
                                                trace: trace@,
                                            },
                                        ));
                                        steps = steps + 1;
                                    }
                                    done = true;
                                } else {
                                    proof {
                                        assert(mach_step(toks, inpre) == MachStep::Fail(
                                            SyntaxError::ExpectedFound {
                                                expected: cur,
                                                found: la,
                                                at_token: (index + 1) as usize,
                                            },
                                        ));
                                    }
                                    return Err(
                                        SyntaxError::ExpectedFound {
                                            expected: cur,
                                            found: la,
                                            at_token: index + 1,
                                        },
                                    );
                                }
                            },
                            Symbol::Nonterm(m) => {
                                if matches!(m, Nonterminal::IfstmtTail) || matches!(
                                    m,
                                    Nonterminal::AtribstTail,
                                ) {
                                    proof {
                                        assert(false);
                                    }
                                    return unreached();
                                }
                                match ll1_transition_table(m, la) {
                                    None => {
                                        proof {
                                            assert(mach_step(toks, inpre) == MachStep::Fail(
                                                SyntaxError::ExpectedFound {
                                                    expected: cur,
                                                    found: la,
                                                    at_token: (index + 1) as usize,
                                                },
                                            ));
                                        }
                                        return Err(
                                            SyntaxError::ExpectedFound {
                                                expected: cur,
                                                found: la,
                                                at_token: index + 1,
                                            },
                                        );
                                    },
                                    Some(prod) => {
                                        proof {
                                            assert(prod@.len() > 0);
                                        }
                                        let ghost base = stack@;
                                        let ghost p = spec_table(m, la).unwrap();
                                        let mut k: usize = prod.len();
                                        proof {
                                            assert(prod@.skip(k as int).reverse()
                                                =~= Seq::<Symbol>::empty());
                                            assert(stack@ =~= base + prod@.skip(k as int).reverse());
                                        }
                                        while k > 1
                                            invariant
                                                1 <= k <= prod@.len(),
                                                stack@ =~= base + prod@.skip(k as int).reverse(),
                                            decreases k,
                                        {
                                            k = k - 1;
                                            stack.push(prod[k]);
                                            proof {
                                                assert(prod@.skip(k as int) =~= seq![
                                                    prod@[k as int],
                                                ] + prod@.skip(k + 1));
                                                assert(prod@.skip(k as int).reverse() =~= prod@.skip(
                                                    k + 1,
                                                ).reverse().push(prod@[k as int]));
                                                assert(stack@ =~= base + prod@.skip(
                                                    k as int,
                                                ).reverse());
                                            }
                                        }
                                        proof {
                                            assert(p =~= prod@);
                                            assert(p.reverse() =~= p.skip(1).reverse().push(p[0]));
                                            assert(base + p.reverse() =~= (base + prod@.skip(
                                                1,
                                            ).reverse()).push(prod@[0]));
                                            assert(mach_step(toks, inpre) == MachStep::Next(
                                                MachState {
                                                    stack: stack@.push(prod@[0]),
                                                    cursor: index as int,
                                                    trace: trace@,
                                                },
                                            ));
                                            steps = steps + 1;
                                            lemma_chain_step(m, la);
                                        }
                                        cur = prod[0];
                                    },
                                }
                            },
                        }
                    }
                }
            }
        }
    }
    proof {
        lemma_run_extend(toks, init_state(), steps);
        let fin = MachState { stack: stack@, cursor: index as int, trace: trace@ };
        assert(fin.stack.len() == 0);
        assert(mach_step(toks, fin) == MachStep::Accept(trace@));
        assert(mach_run(toks, init_state(), steps + 1) == RunResult::Accepted(trace@));
    }
    Ok(trace)
}

} // verus!
