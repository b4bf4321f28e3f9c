//! Maximal-munch tokenizer for the language.
//!
//! At each position the tokenizer tries every recognizer against the
//! remaining input and keeps the candidate that consumes the most
//! characters; ties go to the earliest-registered recognizer.  Identifier
//! and number recognizers reject outright when the character following
//! their run is alphanumeric, so a lexeme is never cut short.

use vstd::prelude::*;

use crate::token::{Token, TokenModel, TokenType, TokenValue, Terminal, ValueModel};
use crate::token::{spec_terminal_from, chars_eq};

verus! {

// ---------------------------------------------------------------------------
// Character classes
// ---------------------------------------------------------------------------

/// Whitespace characters skipped between tokens.
pub open spec fn is_space(c: char) -> bool {
    c == ' ' || c == '\t' || c == '\n' || c == '\r' || c == '\u{b}' || c == '\u{c}'
}

/// ASCII letters, the characters that may start an identifier.
pub open spec fn is_alpha(c: char) -> bool {
    ('a' <= c && c <= 'z') || ('A' <= c && c <= 'Z')
}

/// ASCII decimal digits.
pub open spec fn is_digit(c: char) -> bool {
    '0' <= c && c <= '9'
}

/// Letters and digits, the characters that may continue an identifier.
pub open spec fn is_alnum(c: char) -> bool {
    is_alpha(c) || is_digit(c)
}

/// The numeric value of a decimal digit.
pub open spec fn digit_val(c: char) -> int {
    c as int - '0' as int
}

fn exec_is_space(c: char) -> (r: bool)
    ensures
        r == is_space(c),
{
    c == ' ' || c == '\t' || c == '\n' || c == '\r' || c == '\u{b}' || c == '\u{c}'
}

fn exec_is_alpha(c: char) -> (r: bool)
    ensures
        r == is_alpha(c),
{
    ('a' <= c && c <= 'z') || ('A' <= c && c <= 'Z')
}

fn exec_is_digit(c: char) -> (r: bool)
    ensures
        r == is_digit(c),
{
    '0' <= c && c <= '9'
}

fn exec_is_alnum(c: char) -> (r: bool)
    ensures
        r == is_alnum(c),
{
    exec_is_alpha(c) || exec_is_digit(c)
}

// ---------------------------------------------------------------------------
// Runs of characters
// ---------------------------------------------------------------------------

/// Length of the longest prefix of `s` made of letters and digits.
pub open spec fn alnum_run(s: Seq<char>) -> nat
    decreases s.len(),
{
    if s.len() == 0 || !is_alnum(s[0]) {
        0
    } else {
        (1 + alnum_run(s.skip(1))) as nat
    }
}

/// Length of the longest prefix of `s` made of digits.
pub open spec fn digit_run(s: Seq<char>) -> nat
    decreases s.len(),
{
    if s.len() == 0 || !is_digit(s[0]) {
        0
    } else {
        (1 + digit_run(s.skip(1))) as nat
    }
}

/// Length of the longest identifier-shaped prefix of `s`: a letter
/// followed by letters and digits.
pub open spec fn ident_run(s: Seq<char>) -> nat {
    if s.len() == 0 || !is_alpha(s[0]) {
        0
    } else {
        (1 + alnum_run(s.skip(1))) as nat
    }
}

pub proof fn lemma_alnum_run(s: Seq<char>)
    ensures
        alnum_run(s) <= s.len(),
        forall|i: int| 0 <= i < alnum_run(s) ==> is_alnum(s[i]),
        alnum_run(s) < s.len() ==> !is_alnum(s[alnum_run(s) as int]),
    decreases s.len(),
{
    if s.len() > 0 && is_alnum(s[0]) {
        lemma_alnum_run(s.skip(1));
        assert forall|i: int| 0 <= i < alnum_run(s) implies is_alnum(s[i]) by {
            if i > 0 {
                assert(is_alnum(s.skip(1)[i - 1]));
            }
        }
    }
}

pub proof fn lemma_alnum_run_is(s: Seq<char>, k: nat)
    requires
        k <= s.len(),
        forall|i: int| 0 <= i < k ==> is_alnum(s[i]),
        k < s.len() ==> !is_alnum(s[k as int]),
    ensures
        alnum_run(s) == k,
    decreases s.len(),
{
    if k == 0 {
    } else {
        assert(is_alnum(s[0]));
        assert forall|i: int| 0 <= i < k - 1 implies is_alnum(s.skip(1)[i]) by {
            assert(s.skip(1)[i] == s[i + 1]);
        }
        lemma_alnum_run_is(s.skip(1), (k - 1) as nat);
    }
}

pub proof fn lemma_digit_run(s: Seq<char>)
    ensures
        digit_run(s) <= s.len(),
        forall|i: int| 0 <= i < digit_run(s) ==> is_digit(s[i]),
        digit_run(s) < s.len() ==> !is_digit(s[digit_run(s) as int]),
    decreases s.len(),
{
    if s.len() > 0 && is_digit(s[0]) {
        lemma_digit_run(s.skip(1));
        assert forall|i: int| 0 <= i < digit_run(s) implies is_digit(s[i]) by {
            if i > 0 {
                assert(is_digit(s.skip(1)[i - 1]));
            }
        }
    }
}

pub proof fn lemma_digit_run_is(s: Seq<char>, k: nat)
    requires
        k <= s.len(),
        forall|i: int| 0 <= i < k ==> is_digit(s[i]),
        k < s.len() ==> !is_digit(s[k as int]),
    ensures
        digit_run(s) == k,
    decreases s.len(),
{
    if k == 0 {
    } else {
        assert(is_digit(s[0]));
        assert forall|i: int| 0 <= i < k - 1 implies is_digit(s.skip(1)[i]) by {
            assert(s.skip(1)[i] == s[i + 1]);
        }
        lemma_digit_run_is(s.skip(1), (k - 1) as nat);
    }
}

// ---------------------------------------------------------------------------
// Recognizer candidates
// ---------------------------------------------------------------------------
//
// Each recognizer either fails (candidate length 0) or proposes to consume
// a positive number of characters from the front of the remaining input.

/// Identifier candidate: the identifier run, rejected entirely when the
/// character after the run is alphanumeric.
pub open spec fn ident_cand(s: Seq<char>) -> nat {
    let l = ident_run(s);
    if l > 0 && (l == s.len() || !is_alnum(s[l as int])) {
        l
    } else {
        0
    }
}

/// Number candidate: the digit run, rejected entirely when the character
/// after the run is alphanumeric (so `123abc` yields no number token).
pub open spec fn number_cand(s: Seq<char>) -> nat {
    let l = digit_run(s);
    if l > 0 && (l == s.len() || !is_alnum(s[l as int])) {
        l
    } else {
        0
    }
}

/// Relational-operator candidate: `==` and `!=` need the second `=`;
/// `<` and `>` take an optional `=`; a bare `=` or `!` is no candidate.
pub open spec fn relop_cand(s: Seq<char>) -> nat {
    if s.len() == 0 {
        0
    } else if s[0] == '=' || s[0] == '!' {
        if s.len() >= 2 && s[1] == '=' {
            2
        } else {
            0
        }
    } else if s[0] == '<' || s[0] == '>' {
        if s.len() >= 2 && s[1] == '=' {
            2
        } else {
            1
        }
    } else {
        0
    }
}

/// Arithmetic-operator candidate.
pub open spec fn arith_cand(s: Seq<char>) -> nat {
    if s.len() > 0 && (s[0] == '+' || s[0] == '-' || s[0] == '*' || s[0] == '/') {
        1
    } else {
        0
    }
}

/// Parenthesis candidate.
pub open spec fn paren_cand(s: Seq<char>) -> nat {
    if s.len() > 0 && (s[0] == '(' || s[0] == ')') {
        1
    } else {
        0
    }
}

/// Assignment candidate: exactly `:=`.
pub open spec fn assign_cand(s: Seq<char>) -> nat {
    if s.len() >= 2 && s[0] == ':' && s[1] == '=' {
        2
    } else {
        0
    }
}

/// Comma candidate.
pub open spec fn comma_cand(s: Seq<char>) -> nat {
    if s.len() > 0 && s[0] == ',' {
        1
    } else {
        0
    }
}

/// Brace candidate.
pub open spec fn bracket_cand(s: Seq<char>) -> nat {
    if s.len() > 0 && (s[0] == '{' || s[0] == '}') {
        1
    } else {
        0
    }
}

/// Semicolon candidate.
pub open spec fn semicolon_cand(s: Seq<char>) -> nat {
    if s.len() > 0 && s[0] == ';' {
        1
    } else {
        0
    }
}

// ---------------------------------------------------------------------------
// Tokens proposed by each recognizer
// ---------------------------------------------------------------------------

/// Membership of a character sequence in a set of character sequences.
pub open spec fn seq_set_contains(ss: Seq<Seq<char>>, x: Seq<char>) -> bool {
    exists|i: int| 0 <= i < ss.len() && ss[i] == x
}

/// The token proposed by the identifier recognizer: an identifier, or a
/// keyword when the lexeme is in the keyword set.  A keyword whose
/// spelling is not a terminal of the grammar yields no token.
pub open spec fn ident_token(s: Seq<char>, kws: Seq<Seq<char>>) -> Option<TokenModel> {
    let l = ident_cand(s);
    if l == 0 {
        None
    } else {
        let lex = s.take(l as int);
        if seq_set_contains(kws, lex) {
            match spec_terminal_from(lex) {
                Some(t) => Some(
                    TokenModel {
                        token_type: TokenType::Keyword,
                        lexeme: lex,
                        value: ValueModel::Lexeme(lex),
                        terminal: t,
                    },
                ),
                None => None,
            }
        } else {
            Some(
                TokenModel {
                    token_type: TokenType::Id,
                    lexeme: lex,
                    value: ValueModel::Lexeme(lex),
                    terminal: Terminal::Id,
                },
            )
        }
    }
}

/// The value of a digit string, decoded left to right and saturated at
/// `i32::MAX`.
pub open spec fn sat_decode(ds: Seq<char>) -> int
    decreases ds.len(),
{
    if ds.len() == 0 {
        0
    } else {
        let p = sat_decode(ds.drop_last());
        let v = p * 10 + digit_val(ds.last());
        if v > i32::MAX as int {
            i32::MAX as int
        } else {
            v
        }
    }
}

/// The exact mathematical value of a digit string.
pub open spec fn digits_value(ds: Seq<char>) -> int
    decreases ds.len(),
{
    if ds.len() == 0 {
        0
    } else {
        digits_value(ds.drop_last()) * 10 + digit_val(ds.last())
    }
}

/// The saturating decode is the exact decimal value, capped at
/// `i32::MAX`.
pub proof fn lemma_sat_decode_is_capped(ds: Seq<char>)
    requires
        forall|i: int| 0 <= i < ds.len() ==> is_digit(ds[i]),
    ensures
        digits_value(ds) >= 0,
        sat_decode(ds) == if digits_value(ds) <= i32::MAX as int {
            digits_value(ds)
        } else {
            i32::MAX as int
        },
    decreases ds.len(),
{
    if ds.len() > 0 {
        assert forall|i: int| 0 <= i < ds.drop_last().len() implies is_digit(
            ds.drop_last()[i],
        ) by {
            assert(ds.drop_last()[i] == ds[i]);
        }
        lemma_sat_decode_is_capped(ds.drop_last());
        let p = digits_value(ds.drop_last());
        let d = digit_val(ds.last());
        assert(is_digit(ds[ds.len() - 1]));
        assert(0 <= d <= 9);
        assert(p * 10 + d >= 0) by (nonlinear_arith)
            requires
                p >= 0,
                d >= 0,
        ;
        if p > i32::MAX as int {
            assert(p * 10 + d > i32::MAX as int) by (nonlinear_arith)
                requires
                    p > i32::MAX as int,
                    d >= 0,
            ;
        }
    }
}

/// The token proposed by the number recognizer.
pub open spec fn number_token(s: Seq<char>) -> Option<TokenModel> {
    let l = number_cand(s);
    if l == 0 {
        None
    } else {
        let lex = s.take(l as int);
        Some(
            TokenModel {
                token_type: TokenType::Int,
                lexeme: lex,
                value: ValueModel::Number(sat_decode(lex)),
                terminal: Terminal::Num,
            },
        )
    }
}

/// The diagnostic label of a relational operator lexeme.
pub open spec fn relop_label(lex: Seq<char>) -> Seq<char> {
    if lex.len() == 2 && lex[0] == '=' {
        seq!['E', 'Q']
    } else if lex.len() == 2 && lex[0] == '!' {
        seq!['N', 'E']
    } else if lex.len() == 1 && lex[0] == '<' {
        seq!['L', 'T']
    } else if lex.len() == 2 && lex[0] == '<' {
        seq!['L', 'E']
    } else if lex.len() == 1 && lex[0] == '>' {
        seq!['G', 'T']
    } else {
        seq!['G', 'E']
    }
}

/// The terminal of a relational operator lexeme.  `!=` and `<>` are the
/// same terminal: `<>` is its canonical spelling, `!=` the source form.
pub open spec fn relop_terminal(lex: Seq<char>) -> Terminal {
    if lex.len() == 2 && lex[0] == '=' {
        Terminal::Equal
    } else if lex.len() == 2 && lex[0] == '!' {
        Terminal::NotEqual
    } else if lex.len() == 1 && lex[0] == '<' {
        Terminal::LessThan
    } else if lex.len() == 2 && lex[0] == '<' {
        Terminal::LessEqual
    } else if lex.len() == 1 && lex[0] == '>' {
        Terminal::GreaterThan
    } else {
        Terminal::GreaterEqual
    }
}

/// The token proposed by the relational-operator recognizer.
pub open spec fn relop_token(s: Seq<char>) -> Option<TokenModel> {
    let l = relop_cand(s);
    if l == 0 {
        None
    } else {
        let lex = s.take(l as int);
        Some(
            TokenModel {
                token_type: TokenType::Relop,
                lexeme: lex,
                value: ValueModel::RelopLabel(relop_label(lex)),
                terminal: relop_terminal(lex),
            },
        )
    }
}

/// The terminal of an arithmetic operator character.
pub open spec fn arith_terminal(c: char) -> Terminal {
    if c == '+' {
        Terminal::Plus
    } else if c == '-' {
        Terminal::Minus
    } else if c == '*' {
        Terminal::Multiply
    } else {
        Terminal::Divide
    }
}

/// The token proposed by the arithmetic-operator recognizer.
pub open spec fn arith_token(s: Seq<char>) -> Option<TokenModel> {
    if arith_cand(s) == 0 {
        None
    } else {
        let lex = s.take(1);
        Some(
            TokenModel {
                token_type: TokenType::ArithOp,
                lexeme: lex,
                value: ValueModel::ArithOpLabel(lex),
                terminal: arith_terminal(s[0]),
            },
        )
    }
}

/// The token proposed by the parenthesis recognizer.
pub open spec fn paren_token(s: Seq<char>) -> Option<TokenModel> {
    if paren_cand(s) == 0 {
        None
    } else {
        let lex = s.take(1);
        Some(
            TokenModel {
                token_type: TokenType::Paren,
                lexeme: lex,
                value: ValueModel::Lexeme(lex),
                terminal: if s[0] == '(' {
                    Terminal::LeftParen
                } else {
                    Terminal::RightParen
                },
            },
        )
    }
}

/// The token proposed by the assignment recognizer.
pub open spec fn assign_token(s: Seq<char>) -> Option<TokenModel> {
    if assign_cand(s) == 0 {
        None
    } else {
        let lex = s.take(2);
        Some(
            TokenModel {
                token_type: TokenType::Assign,
                lexeme: lex,
                value: ValueModel::Lexeme(lex),
                terminal: Terminal::Equals,
            },
        )
    }
}

/// The token proposed by the comma recognizer.
pub open spec fn comma_token(s: Seq<char>) -> Option<TokenModel> {
    if comma_cand(s) == 0 {
        None
    } else {
        let lex = s.take(1);
        Some(
            TokenModel {
                token_type: TokenType::Comma,
                lexeme: lex,
                value: ValueModel::Lexeme(lex),
                terminal: Terminal::Comma,
            },
        )
    }
}

/// The token proposed by the brace recognizer.
pub open spec fn bracket_token(s: Seq<char>) -> Option<TokenModel> {
    if bracket_cand(s) == 0 {
        None
    } else {
        let lex = s.take(1);
        Some(
            TokenModel {
                token_type: TokenType::Bracket,
                lexeme: lex,
                value: ValueModel::Lexeme(lex),
                terminal: if s[0] == '{' {
                    Terminal::LeftBrace
                } else {
                    Terminal::RightBrace
                },
            },
        )
    }
}

/// The token proposed by the semicolon recognizer.
pub open spec fn semicolon_token(s: Seq<char>) -> Option<TokenModel> {
    if semicolon_cand(s) == 0 {
        None
    } else {
        let lex = s.take(1);
        Some(
            TokenModel {
                token_type: TokenType::Semicolon,
                lexeme: lex,
                value: ValueModel::Lexeme(lex),
                terminal: Terminal::Semicolon,
            },
        )
    }
}

/// The token selected at the front of `s`: the candidate that consumes
/// the most characters, ties broken in favour of the earliest-registered
/// recognizer.  The recognizers touch disjoint leading characters, so the
/// selection reduces to a dispatch on the first character.
pub open spec fn token_at(s: Seq<char>, kws: Seq<Seq<char>>) -> Option<TokenModel> {
    if s.len() == 0 {
        None
    } else if is_alpha(s[0]) {
        ident_token(s, kws)
    } else if is_digit(s[0]) {
        number_token(s)
    } else if relop_cand(s) > 0 {
        relop_token(s)
    } else if arith_cand(s) > 0 {
        arith_token(s)
    } else if paren_cand(s) > 0 {
        paren_token(s)
    } else if assign_cand(s) > 0 {
        assign_token(s)
    } else if comma_cand(s) > 0 {
        comma_token(s)
    } else if bracket_cand(s) > 0 {
        bracket_token(s)
    } else if semicolon_cand(s) > 0 {
        semicolon_token(s)
    } else {
        None
    }
}

// ---------------------------------------------------------------------------
// Executable recognizers
// ---------------------------------------------------------------------------

/// A lexical error: the one unrecognized character with its 1-based
/// line and column.
#[derive(Debug, Clone, Copy, PartialEq, Eq, Structural)]
pub struct LexError {
    pub ch: char,
    pub line: usize,
    pub col: usize,
}

proof fn lemma_deep_view_chars(v: Seq<Vec<char>>)
    ensures
        forall|i: int| 0 <= i < v.len() ==> #[trigger] v[i].deep_view() == v[i]@,
{
    assert forall|i: int| 0 <= i < v.len() implies #[trigger] v[i].deep_view() == v[i]@ by {
        assert(v[i].deep_view() =~= v[i]@);
    }
}

/// Whether `x` occurs in `set`, compared character by character.
pub fn contains_chars(set: &Vec<Vec<char>>, x: &Vec<char>) -> (r: bool)
    ensures
        r == seq_set_contains(set.deep_view(), x@),
{
    proof {
        lemma_deep_view_chars(set@);
    }
    let mut i: usize = 0;
    while i < set.len()
        invariant
            i <= set.len(),
            set.deep_view().len() == set@.len(),
            forall|j: int| 0 <= j < set@.len() ==> #[trigger] set@[j].deep_view() == set@[j]@,
            forall|j: int| 0 <= j < i ==> set@[j]@ != x@,
        decreases set.len() - i,
    {
        if chars_eq(&set[i], x) {
            proof {
                assert(set.deep_view()[i as int] == set@[i as int].deep_view());
                assert(set.deep_view()[i as int] == x@);
            }
            return true;
        }
        i = i + 1;
    }
    false
}

/// A copy of `input[from..to]`.
fn copy_range(input: &Vec<char>, from: usize, to: usize) -> (r: Vec<char>)
    requires
        from <= to <= input.len(),
    ensures
        r@ == input@.subrange(from as int, to as int),
{
    let mut r: Vec<char> = Vec::new();
    let mut k: usize = from;
    while k < to
        invariant
            from <= k <= to <= input.len(),
            r@ == input@.subrange(from as int, k as int),
        decreases to - k,
    {
        r.push(input[k]);
        proof {
            assert(r@ =~= input@.subrange(from as int, k + 1));
        }
        k = k + 1;
    }
    r
}

/// Recognizer for identifiers and keywords: a letter followed by letters
/// and digits, rejected entirely when the next character is alphanumeric.
/// A lexeme in the keyword set becomes a keyword token, with its terminal
/// resolved from the keyword text.
pub fn parse_identifier(input: &Vec<char>, pos: usize, keywords: &Vec<Vec<char>>) -> (r: Option<
    Token,
>)
    requires
        pos <= input@.len(),
    ensures
        match r {
            None => ident_token(input@.skip(pos as int), keywords.deep_view()) is None,
            Some(t) => ident_token(input@.skip(pos as int), keywords.deep_view()) == Some(t@),
        },
{
    let ghost s = input@.skip(pos as int);
    if pos == input.len() {
        return None;
    }
    if !exec_is_alpha(input[pos]) {
        assert(!is_alpha(s[0]));
        return None;
    }
    let mut j: usize = pos + 1;
    while j < input.len() && exec_is_alnum(input[j])
        invariant
            pos < j <= input@.len(),
            forall|i: int| pos < i < j ==> is_alnum(input@[i]),
        decreases input@.len() - j,
    {
        j = j + 1;
    }
    proof {
        assert forall|i: int| 0 <= i < j - pos - 1 implies is_alnum(s.skip(1)[i]) by {
            assert(s.skip(1)[i] == input@[pos + 1 + i]);
        }
        if j < input@.len() {
            assert(s.skip(1)[j - pos - 1] == input@[j as int]);
        }
        lemma_alnum_run_is(s.skip(1), (j - pos - 1) as nat);
        assert(ident_run(s) == j - pos);
        assert(ident_cand(s) == j - pos);
    }
    // Maximal-munch guard: reject when the run is followed by an
    // alphanumeric character.  The run above is already maximal, so this
    // cannot fire; it restates the recognizer's contract in code.
    if j < input.len() && exec_is_alnum(input[j]) {
        return None;
    }
    let lexeme = copy_range(input, pos, j);
    proof {
        assert(lexeme@ =~= s.take(ident_cand(s) as int));
        lemma_deep_view_chars(keywords@);
    }
    if contains_chars(keywords, &lexeme) {
        match Terminal::from_str(&lexeme) {
            Some(t) => {
                let lex2 = copy_range(input, pos, j);
                Some(
                    Token {
                        token_type: TokenType::Keyword,
                        lexeme: lex2,
                        value: TokenValue::Lexeme(lexeme),
                        terminal: t,
                    },
                )
            },
            None => None,
        }
    } else {
        let lex2 = copy_range(input, pos, j);
        Some(
            Token {
                token_type: TokenType::Id,
                lexeme: lex2,
                value: TokenValue::Lexeme(lexeme),
                terminal: Terminal::Id,
            },
        )
    }
}

/// The decimal value of a digit string, saturated at `i32::MAX`.
fn decode_digits(ds: &Vec<char>) -> (v: i32)
    requires
        forall|i: int| 0 <= i < ds@.len() ==> is_digit(ds@[i]),
    ensures
        v as int == sat_decode(ds@),
{
    let mut acc: u64 = 0;
    let mut k: usize = 0;
    while k < ds.len()
        invariant
            k <= ds@.len(),
            forall|i: int| 0 <= i < ds@.len() ==> is_digit(ds@[i]),
            acc as int == sat_decode(ds@.take(k as int)),
            acc <= i32::MAX as u64,
        decreases ds@.len() - k,
    {
        let d: u64 = (ds[k] as u32 - '0' as u32) as u64;
        let next: u64 = acc * 10 + d;
        let new_acc: u64 = if next > i32::MAX as u64 {
            i32::MAX as u64
        } else {
            next
        };
        proof {
            assert(ds@.take(k + 1).drop_last() =~= ds@.take(k as int));
            assert(ds@.take(k + 1).last() == ds@[k as int]);
        }
        acc = new_acc;
        k = k + 1;
    }
    proof {
        assert(ds@.take(ds@.len() as int) =~= ds@);
    }
    acc as i32
}

/// Recognizer for integer literals: a run of digits, rejected entirely
/// when the next character is alphanumeric (`123abc` yields no number).
pub fn parse_number(input: &Vec<char>, pos: usize) -> (r: Option<Token>)
    requires
        pos <= input@.len(),
    ensures
        match r {
            None => number_token(input@.skip(pos as int)) is None,
            Some(t) => number_token(input@.skip(pos as int)) == Some(t@),
        },
{
    let ghost s = input@.skip(pos as int);
    if pos == input.len() {
        return None;
    }
    if !exec_is_digit(input[pos]) {
        assert(!is_digit(s[0]));
        return None;
    }
    let mut j: usize = pos + 1;
    while j < input.len() && exec_is_digit(input[j])
        invariant
            pos < j <= input@.len(),
            forall|i: int| pos <= i < j ==> is_digit(input@[i]),
        decreases input@.len() - j,
    {
        j = j + 1;
    }
    proof {
        assert forall|i: int| 0 <= i < j - pos implies is_digit(s[i]) by {
            assert(s[i] == input@[pos + i]);
        }
        if j < input@.len() {
            assert(s[j - pos] == input@[j as int]);
        }
        lemma_digit_run_is(s, (j - pos) as nat);
        assert(digit_run(s) == j - pos);
    }
    // Maximal-munch guard: a digit run followed by a letter is no number.
    if j < input.len() && exec_is_alnum(input[j]) {
        proof {
            assert(is_alnum(s[digit_run(s) as int]));
            assert(number_cand(s) == 0);
        }
        return None;
    }
    proof {
        assert(number_cand(s) == j - pos);
    }
    let lexeme = copy_range(input, pos, j);
    proof {
        assert(lexeme@ =~= s.take(number_cand(s) as int));
        assert forall|i: int| 0 <= i < lexeme@.len() implies is_digit(lexeme@[i]) by {
            assert(lexeme@[i] == s[i]);
        }
    }
    let value = decode_digits(&lexeme);
    let lex2 = copy_range(input, pos, j);
    Some(
        Token {
            token_type: TokenType::Int,
            lexeme: lex2,
            value: TokenValue::Number(value),
            terminal: Terminal::Num,
        },
    )
}

/// Recognizer for relational operators: `==` and `!=` need their second
/// character; `<` and `>` take an optional `=`; a bare `=` or `!` is no
/// token at all.
pub fn parse_relop(input: &Vec<char>, pos: usize) -> (r: Option<Token>)
    requires
        pos <= input@.len(),
    ensures
        match r {
            None => relop_token(input@.skip(pos as int)) is None,
            Some(t) => relop_token(input@.skip(pos as int)) == Some(t@),
        },
{
    let ghost s = input@.skip(pos as int);
    if pos == input.len() {
        return None;
    }
    let c = input[pos];
    assert(c == s[0]);
    if c == '=' || c == '!' {
        if pos + 1 < input.len() && input[pos + 1] == '=' {
            proof {
                assert(s[1] == input@[pos + 1]);
            }
            let lexeme = vec![c, '='];
            let lex2 = vec![c, '='];
            proof {
                assert(lexeme@ =~= s.take(2));
            }
            let label = if c == '=' {
                vec!['E', 'Q']
            } else {
                vec!['N', 'E']
            };
            let terminal = if c == '=' {
                Terminal::Equal
            } else {
                Terminal::NotEqual
            };
            proof {
                assert(label@ =~= relop_label(lexeme@));
            }
            Some(
                Token {
                    token_type: TokenType::Relop,
                    lexeme: lex2,
                    value: TokenValue::RelopLabel(label),
                    terminal,
                },
            )
        } else {
            proof {
                if s.len() >= 2 {
                    assert(s[1] == input@[pos + 1]);
                }
            }
            None
        }
    } else if c == '<' || c == '>' {
        if pos + 1 < input.len() && input[pos + 1] == '=' {
            proof {
                assert(s[1] == input@[pos + 1]);
            }
            let lexeme = vec![c, '='];
            let lex2 = vec![c, '='];
            proof {
                assert(lexeme@ =~= s.take(2));
            }
            let label = if c == '<' {
                vec!['L', 'E']
            } else {
                vec!['G', 'E']
            };
            let terminal = if c == '<' {
                Terminal::LessEqual
            } else {
                Terminal::GreaterEqual
            };
            proof {
                assert(label@ =~= relop_label(lexeme@));
            }
            Some(
                Token {
                    token_type: TokenType::Relop,
                    lexeme: lex2,
                    value: TokenValue::RelopLabel(label),
                    terminal,
                },
            )
        } else {
            proof {
                if s.len() >= 2 {
                    assert(s[1] == input@[pos + 1]);
                }
            }
            let lexeme = vec![c];
            let lex2 = vec![c];
            proof {
                assert(lexeme@ =~= s.take(1));
            }
            let label = if c == '<' {
                vec!['L', 'T']
            } else {
                vec!['G', 'T']
            };
            let terminal = if c == '<' {
                Terminal::LessThan
            } else {
                Terminal::GreaterThan
            };
            proof {
                assert(label@ =~= relop_label(lexeme@));
            }
            Some(
                Token {
                    token_type: TokenType::Relop,
                    lexeme: lex2,
                    value: TokenValue::RelopLabel(label),
                    terminal,
                },
            )
        }
    } else {
        None
    }
}

/// Recognizer for the arithmetic operators `+ - * /`.
pub fn parse_arith_op(input: &Vec<char>, pos: usize) -> (r: Option<Token>)
    requires
        pos <= input@.len(),
    ensures
        match r {
            None => arith_token(input@.skip(pos as int)) is None,
            Some(t) => arith_token(input@.skip(pos as int)) == Some(t@),
        },
{
    let ghost s = input@.skip(pos as int);
    if pos == input.len() {
        return None;
    }
    let c = input[pos];
    assert(c == s[0]);
    if c == '+' || c == '-' || c == '*' || c == '/' {
        let lexeme = vec![c];
        let lex2 = vec![c];
        proof {
            assert(lexeme@ =~= s.take(1));
        }
        let terminal = if c == '+' {
            Terminal::Plus
        } else if c == '-' {
            Terminal::Minus
        } else if c == '*' {
            Terminal::Multiply
        } else {
            Terminal::Divide
        };
        Some(
            Token {
                token_type: TokenType::ArithOp,
                lexeme: lex2,
                value: TokenValue::ArithOpLabel(lexeme),
                terminal,
            },
        )
    } else {
        None
    }
}

/// Recognizer for parentheses.
pub fn parse_paren(input: &Vec<char>, pos: usize) -> (r: Option<Token>)
    requires
        pos <= input@.len(),
    ensures
        match r {
            None => paren_token(input@.skip(pos as int)) is None,
            Some(t) => paren_token(input@.skip(pos as int)) == Some(t@),
        },
{
    let ghost s = input@.skip(pos as int);
    if pos == input.len() {
        return None;
    }
    let c = input[pos];
    assert(c == s[0]);
    if c == '(' || c == ')' {
        let lexeme = vec![c];
        let lex2 = vec![c];
        proof {
            assert(lexeme@ =~= s.take(1));
        }
        let terminal = if c == '(' {
            Terminal::LeftParen
        } else {
            Terminal::RightParen
        };
        Some(
            Token {
                token_type: TokenType::Paren,
                lexeme: lex2,
                value: TokenValue::Lexeme(lexeme),
                terminal,
            },
        )
    } else {
        None
    }
}

/// Recognizer for the assignment operator `:=`.
pub fn parse_assignment(input: &Vec<char>, pos: usize) -> (r: Option<Token>)
    requires
        pos <= input@.len(),
    ensures
        match r {
            None => assign_token(input@.skip(pos as int)) is None,
            Some(t) => assign_token(input@.skip(pos as int)) == Some(t@),
        },
{
    let ghost s = input@.skip(pos as int);
    if pos == input.len() {
        return None;
    }
    let c = input[pos];
    assert(c == s[0]);
    if c == ':' && pos + 1 < input.len() && input[pos + 1] == '=' {
        proof {
            assert(s[1] == input@[pos + 1]);
        }
        let lexeme = vec![':', '='];
        let lex2 = vec![':', '='];
        proof {
            assert(lexeme@ =~= s.take(2));
        }
        Some(
            Token {
                token_type: TokenType::Assign,
                lexeme: lex2,
                value: TokenValue::Lexeme(lexeme),
                terminal: Terminal::Equals,
            },
        )
    } else {
        proof {
            if s.len() >= 2 {
                assert(s[1] == input@[pos + 1]);
            }
        }
        None
    }
}

/// Recognizer for the comma.
pub fn parse_comma(input: &Vec<char>, pos: usize) -> (r: Option<Token>)
    requires
        pos <= input@.len(),
    ensures
        match r {
            None => comma_token(input@.skip(pos as int)) is None,
            Some(t) => comma_token(input@.skip(pos as int)) == Some(t@),
        },
{
    let ghost s = input@.skip(pos as int);
    if pos == input.len() {
        return None;
    }
    let c = input[pos];
    assert(c == s[0]);
    if c == ',' {
        let lexeme = vec![c];
        let lex2 = vec![c];
        proof {
            assert(lexeme@ =~= s.take(1));
        }
        Some(
            Token {
                token_type: TokenType::Comma,
                lexeme: lex2,
                value: TokenValue::Lexeme(lexeme),
                terminal: Terminal::Comma,
            },
        )
    } else {
        None
    }
}

/// Recognizer for braces.
pub fn parse_bracket(input: &Vec<char>, pos: usize) -> (r: Option<Token>)
    requires
        pos <= input@.len(),
    ensures
        match r {
            None => bracket_token(input@.skip(pos as int)) is None,
            Some(t) => bracket_token(input@.skip(pos as int)) == Some(t@),
        },
{
    let ghost s = input@.skip(pos as int);
    if pos == input.len() {
        return None;
    }
    let c = input[pos];
    assert(c == s[0]);
    if c == '{' || c == '}' {
        let lexeme = vec![c];
        let lex2 = vec![c];
        proof {
            assert(lexeme@ =~= s.take(1));
        }
        let terminal = if c == '{' {
            Terminal::LeftBrace
        } else {
            Terminal::RightBrace
        };
        Some(
            Token {
                token_type: TokenType::Bracket,
                lexeme: lex2,
                value: TokenValue::Lexeme(lexeme),
                terminal,
            },
        )
    } else {
        None
    }
}

/// Recognizer for the semicolon.
pub fn parse_semicolon(input: &Vec<char>, pos: usize) -> (r: Option<Token>)
    requires
        pos <= input@.len(),
    ensures
        match r {
            None => semicolon_token(input@.skip(pos as int)) is None,
            Some(t) => semicolon_token(input@.skip(pos as int)) == Some(t@),
        },
{
    let ghost s = input@.skip(pos as int);
    if pos == input.len() {
        return None;
    }
    let c = input[pos];
    assert(c == s[0]);
    if c == ';' {
        let lexeme = vec![c];
        let lex2 = vec![c];
        proof {
            assert(lexeme@ =~= s.take(1));
        }
        Some(
            Token {
                token_type: TokenType::Semicolon,
                lexeme: lex2,
                value: TokenValue::Lexeme(lexeme),
                terminal: Terminal::Semicolon,
            },
        )
    } else {
        None
    }
}

/// The error raised when no recognizer matches: the offending character
/// with its 1-based line and column.
pub fn parse_wildcard(input: &Vec<char>, pos: usize, line: usize, col: usize) -> (r: Option<
    LexError,
>)
    requires
        pos <= input@.len(),
    ensures
        match r {
            None => pos == input@.len(),
            Some(e) => pos < input@.len() && e == (LexError {
                ch: input@[pos as int],
                line,
                col,
            }),
        },
{
    if pos < input.len() {
        Some(LexError { ch: input[pos], line, col })
    } else {
        None
    }
}

// ---------------------------------------------------------------------------
// The tokenizer
// ---------------------------------------------------------------------------

/// One more, saturated at `usize::MAX`.
pub open spec fn sat_inc(x: int) -> int {
    if x < usize::MAX as int {
        x + 1
    } else {
        x
    }
}

/// Line and column after consuming one character: a newline starts the
/// next line at column 1, anything else moves one column right.
pub open spec fn advance_char(line: int, col: int, c: char) -> (int, int) {
    if c == '\n' {
        (sat_inc(line), 1)
    } else {
        (line, sat_inc(col))
    }
}

/// Line and column after consuming a sequence of characters.
pub open spec fn advance_text(line: int, col: int, cs: Seq<char>) -> (int, int)
    decreases cs.len(),
{
    if cs.len() == 0 {
        (line, col)
    } else {
        let lc = advance_text(line, col, cs.drop_last());
        advance_char(lc.0, lc.1, cs.last())
    }
}

/// The outcome of tokenization: the token sequence on success, or the
/// tokens produced before the failing character together with that
/// character and its position.
pub enum LexOutcome {
    Done { tokens: Seq<TokenModel> },
    Fail { tokens: Seq<TokenModel>, ch: char, line: int, col: int },
}

/// The tokens of an outcome, whether or not it failed.
pub open spec fn lex_tokens(o: LexOutcome) -> Seq<TokenModel> {
    match o {
        LexOutcome::Done { tokens } => tokens,
        LexOutcome::Fail { tokens, .. } => tokens,
    }
}

/// An outcome with `ts` prepended to its tokens.
pub open spec fn prepend_tokens(ts: Seq<TokenModel>, o: LexOutcome) -> LexOutcome {
    match o {
        LexOutcome::Done { tokens } => LexOutcome::Done { tokens: ts + tokens },
        LexOutcome::Fail { tokens, ch, line, col } => LexOutcome::Fail {
            tokens: ts + tokens,
            ch,
            line,
            col,
        },
    }
}

/// The outcome of tokenizing `s` with keyword set `kws`, starting at the
/// given 1-based line and column: skip whitespace, take the selected
/// token, or fail at the first character no recognizer accepts.
pub open spec fn spec_tokenize(s: Seq<char>, kws: Seq<Seq<char>>, line: int, col: int) -> LexOutcome
    decreases s.len(),
{
    if s.len() == 0 {
        LexOutcome::Done { tokens: Seq::empty() }
    } else if is_space(s[0]) {
        let lc = advance_char(line, col, s[0]);
        spec_tokenize(s.skip(1), kws, lc.0, lc.1)
    } else {
        match token_at(s, kws) {
            Some(t) => {
                let n: int = if 0 < t.lexeme.len() <= s.len() {
                    t.lexeme.len() as int
                } else {
                    1
                };
                let lc = advance_text(line, col, t.lexeme);
                prepend_tokens(seq![t], spec_tokenize(s.skip(n), kws, lc.0, lc.1))
            },
            None => LexOutcome::Fail { tokens: Seq::empty(), ch: s[0], line, col },
        }
    }
}

/// A selected token is never empty and never longer than the remaining
/// input, and its lexeme is exactly the prefix it consumes.
pub proof fn lemma_token_at_some(s: Seq<char>, kws: Seq<Seq<char>>)
    ensures
        token_at(s, kws) matches Some(t) ==> 0 < t.lexeme.len() <= s.len(),
{
    if s.len() > 0 {
        if is_alpha(s[0]) {
            lemma_alnum_run(s.skip(1));
        } else if is_digit(s[0]) {
            lemma_digit_run(s);
        }
    }
}

/// One step of symbol recording: a token of identifier category adds its
/// lexeme to the table unless it is already there.
pub open spec fn record_one(st: Seq<Seq<char>>, t: TokenModel) -> Seq<Seq<char>> {
    if t.token_type == TokenType::Id && !seq_set_contains(st, t.lexeme) {
        st.push(t.lexeme)
    } else {
        st
    }
}

/// The symbol table after recording the identifiers of `toks`, in order.
pub open spec fn record_symbols(st: Seq<Seq<char>>, toks: Seq<TokenModel>) -> Seq<Seq<char>>
    decreases toks.len(),
{
    if toks.len() == 0 {
        st
    } else {
        record_one(record_symbols(st, toks.drop_last()), toks.last())
    }
}

proof fn lemma_record_symbols_push(st: Seq<Seq<char>>, ts: Seq<TokenModel>, t: TokenModel)
    ensures
        record_symbols(st, ts.push(t)) == record_one(record_symbols(st, ts), t),
{
    assert(ts.push(t).drop_last() =~= ts);
    assert(ts.push(t).last() == t);
}

proof fn lemma_prepend_empty(o: LexOutcome)
    ensures
        prepend_tokens(Seq::empty(), o) == o,
{
    match o {
        LexOutcome::Done { tokens } => {
            assert(Seq::empty() + tokens =~= tokens);
        },
        LexOutcome::Fail { tokens, .. } => {
            assert(Seq::empty() + tokens =~= tokens);
        },
    }
}

proof fn lemma_prepend_assoc(acc: Seq<TokenModel>, x: TokenModel, o: LexOutcome)
    ensures
        prepend_tokens(acc, prepend_tokens(seq![x], o)) == prepend_tokens(acc.push(x), o),
{
    match o {
        LexOutcome::Done { tokens } => {
            assert(acc + (seq![x] + tokens) =~= acc.push(x) + tokens);
        },
        LexOutcome::Fail { tokens, .. } => {
            assert(acc + (seq![x] + tokens) =~= acc.push(x) + tokens);
        },
    }
}

/// Tokenize `input` against the given keyword set, recording every
/// distinct identifier lexeme in the symbol table.  Returns the ordered
/// token sequence, or the first unrecognized character with its 1-based
/// line and column.  The symbol table keeps whatever was recorded before
/// a failure.
pub fn tokenize(
    input: &Vec<char>,
    keywords: &Vec<Vec<char>>,
    symbol_table: &mut Vec<Vec<char>>,
) -> (r: Result<Vec<Token>, LexError>)
    ensures
        ({
            let out = spec_tokenize(input@, keywords.deep_view(), 1, 1);
            &&& match r {
                Ok(tokens) => out == (LexOutcome::Done { tokens: tokens.deep_view() }),
                Err(e) => out matches LexOutcome::Fail { tokens: _, ch, line, col } && e.ch == ch
                    && e.line as int == line && e.col as int == col,
            }
            &&& final(symbol_table).deep_view() == record_symbols(
                old(symbol_table).deep_view(),
                lex_tokens(out),
            )
        }),
{
    let ghost kws = keywords.deep_view();
    let ghost st0 = symbol_table.deep_view();
    let ghost full = spec_tokenize(input@, kws, 1, 1);
    let mut tokens: Vec<Token> = Vec::new();
    let mut pos: usize = 0;
    let mut line: usize = 1;
    let mut col: usize = 1;
    proof {
        assert(input@.skip(0) =~= input@);
        assert(tokens.deep_view() =~= Seq::<TokenModel>::empty());
        lemma_prepend_empty(full);
    }
    while pos < input.len()
        invariant
            pos <= input@.len(),
            kws == keywords.deep_view(),
            st0 == old(symbol_table).deep_view(),
            full == spec_tokenize(input@, kws, 1, 1),
            full == prepend_tokens(
                tokens.deep_view(),
                spec_tokenize(input@.skip(pos as int), kws, line as int, col as int),
            ),
            symbol_table.deep_view() == record_symbols(st0, tokens.deep_view()),
        decreases input@.len() - pos,
    {
        let ghost s = input@.skip(pos as int);
        let ghost line0 = line as int;
        let ghost col0 = col as int;
        let c = input[pos];
        assert(c == s[0]);
        if exec_is_space(c) {
            if c == '\n' {
                line = line.saturating_add(1);
                col = 1;
            } else {
                col = col.saturating_add(1);
            }
            pos = pos + 1;
            proof {
                assert(s.skip(1) =~= input@.skip(pos as int));
            }
        } else {
            let mut max_token: Option<Token> = None;
            let mut max_length: usize = 0;
            if let Some(t) = parse_identifier(input, pos, keywords) {
                if t.lexeme.len() > max_length {
                    max_length = t.lexeme.len();
                    max_token = Some(t);
                }
            }
            if let Some(t) = parse_number(input, pos) {
                if t.lexeme.len() > max_length {
                    max_length = t.lexeme.len();
                    max_token = Some(t);
                }
            }
            if let Some(t) = parse_relop(input, pos) {
                if t.lexeme.len() > max_length {
                    max_length = t.lexeme.len();
                    max_token = Some(t);
                }
            }
            if let Some(t) = parse_arith_op(input, pos) {
                if t.lexeme.len() > max_length {
                    max_length = t.lexeme.len();
                    max_token = Some(t);
                }
            }
            if let Some(t) = parse_paren(input, pos) {
                if t.lexeme.len() > max_length {
                    max_length = t.lexeme.len();
                    max_token = Some(t);
                }
            }
            if let Some(t) = parse_assignment(input, pos) {
                if t.lexeme.len() > max_length {
                    max_length = t.lexeme.len();
                    max_token = Some(t);
                }
            }
            if let Some(t) = parse_comma(input, pos) {
                if t.lexeme.len() > max_length {
                    max_length = t.lexeme.len();
                    max_token = Some(t);
                }
            }
            if let Some(t) = parse_bracket(input, pos) {
                if t.lexeme.len() > max_length {
                    max_length = t.lexeme.len();
                    max_token = Some(t);
                }
            }
            if let Some(t) = parse_semicolon(input, pos) {
                if t.lexeme.len() > max_length {
                    max_length = t.lexeme.len();
                    max_token = Some(t);
                }
            }
            proof {
                lemma_token_at_some(s, kws);
            }
            if let Some(t) = max_token {
                proof {
                    assert(token_at(s, kws) == Some(t@));
                }
                let ghost toks0 = tokens.deep_view();
                let ghost n = t@.lexeme.len() as int;
                let mut k: usize = 0;
                while k < t.lexeme.len()
                    invariant
                        k <= t.lexeme@.len(),
                        (line as int, col as int) == advance_text(
                            line0,
                            col0,
                            t.lexeme@.take(k as int),
                        ),
                    decreases t.lexeme@.len() - k,
                {
                    let ghost pre = t.lexeme@.take(k as int);
                    if t.lexeme[k] == '\n' {
                        line = line.saturating_add(1);
                        col = 1;
                    } else {
                        col = col.saturating_add(1);
                    }
                    proof {
                        let post = t.lexeme@.take(k + 1);
                        lemma_advance_text_push(line0, col0, pre, t.lexeme@[k as int]);
                        assert(pre.push(t.lexeme@[k as int]) =~= post);
                    }
                    k = k + 1;
                }
                proof {
                    assert(t.lexeme@.take(t.lexeme@.len() as int) =~= t.lexeme@);
                }
                pos = pos + t.lexeme.len();
                if matches!(t.token_type, TokenType::Id) {
                    if !contains_chars(symbol_table, &t.lexeme) {
                        let lx = copy_range(&t.lexeme, 0, t.lexeme.len());
                        proof {
                            assert(lx@ =~= t.lexeme@);
                        }
                        symbol_table.push(lx);
                        proof {
                            lemma_deep_view_chars(symbol_table@);
                            assert(symbol_table.deep_view() =~= record_symbols(st0, toks0).push(
                                t.lexeme@,
                            ));
                        }
                    }
                }
                tokens.push(t);
                proof {
                    assert(tokens.deep_view() =~= toks0.push(tokens@[toks0.len() as int]@));
                    lemma_record_symbols_push(st0, toks0, tokens.deep_view().last());
                    assert(s.skip(n) =~= input@.skip(pos as int));
                    lemma_prepend_assoc(
                        toks0,
                        tokens.deep_view().last(),
                        spec_tokenize(input@.skip(pos as int), kws, line as int, col as int),
                    );
                }
            } else {
                match parse_wildcard(input, pos, line, col) {
                    Some(err) => {
                        proof {
                            assert(token_at(s, kws) is None);
                            assert(tokens.deep_view() + Seq::<TokenModel>::empty()
                                =~= tokens.deep_view());
                        }
                        return Err(err);
                    },
                    None => {
                        return unreached();
                    },
                }
            }
        }
    }
    proof {
        assert(input@.skip(input@.len() as int) =~= Seq::<char>::empty());
        assert(tokens.deep_view() + Seq::<TokenModel>::empty() =~= tokens.deep_view());
    }
    Ok(tokens)
}

proof fn lemma_advance_text_push(line: int, col: int, cs: Seq<char>, c: char)
    ensures
        advance_text(line, col, cs.push(c)) == ({
            let lc = advance_text(line, col, cs);
            advance_char(lc.0, lc.1, c)
        }),
{
    assert(cs.push(c).drop_last() =~= cs);
    assert(cs.push(c).last() == c);
}

// ---------------------------------------------------------------------------
// Laws of the tokenizer
// ---------------------------------------------------------------------------

/// Longest match: the token selected at the front of the input is at
/// least as long as the candidate of every recognizer, so no recognizer
/// that could consume more characters is ever passed over.  Identifier,
/// keyword and number tokens are additionally maximal: the character
/// after the lexeme, if any, is not alphanumeric, so a lexeme such as
/// `id1` is never split.
pub proof fn lemma_longest_match(s: Seq<char>, kws: Seq<Seq<char>>)
    ensures
        token_at(s, kws) matches Some(t) ==> {
            let n = t.lexeme.len();
            &&& ident_cand(s) <= n
            &&& number_cand(s) <= n
            &&& relop_cand(s) <= n
            &&& arith_cand(s) <= n
            &&& paren_cand(s) <= n
            &&& assign_cand(s) <= n
            &&& comma_cand(s) <= n
            &&& bracket_cand(s) <= n
            &&& semicolon_cand(s) <= n
        },
        token_at(s, kws) matches Some(t) ==> ((t.token_type == TokenType::Id || t.token_type
            == TokenType::Keyword || t.token_type == TokenType::Int) ==> {
            let n = t.lexeme.len();
            n == s.len() || !is_alnum(s[n as int])
        }),
{
    lemma_token_at_some(s, kws);
    if s.len() > 0 {
        if is_alpha(s[0]) {
            lemma_alnum_run(s.skip(1));
        } else if is_digit(s[0]) {
            lemma_digit_run(s);
        }
    }
}

/// Keyword precedence: a selected token is a keyword exactly when its
/// lexeme is identifier-shaped and belongs to the keyword set; an
/// identifier-shaped lexeme outside the keyword set is a plain
/// identifier.  So `if` with the usual keyword set is a keyword, while
/// `iffy` is one identifier token, never the keyword `if` and `fy`.
pub proof fn lemma_keyword_precedence(s: Seq<char>, kws: Seq<Seq<char>>)
    ensures
        token_at(s, kws) matches Some(t) ==> (t.token_type == TokenType::Keyword <==> ident_cand(s)
            > 0 && seq_set_contains(kws, t.lexeme)),
        token_at(s, kws) matches Some(t) ==> ((ident_cand(s) > 0 && !seq_set_contains(
            kws,
            s.take(ident_cand(s) as int),
        )) ==> t.token_type == TokenType::Id && t.terminal == Terminal::Id && t.lexeme == s.take(
            ident_cand(s) as int,
        )),
{
    lemma_token_at_some(s, kws);
    if s.len() > 0 && !is_alpha(s[0]) {
        assert(ident_run(s) == 0);
    }
}

/// Determinism: the outcome of tokenization, and the symbol table it
/// leaves behind, are functions of the source text, the keyword set and
/// the starting symbol table alone, so tokenizing the same text twice
/// with the same keyword set yields identical token sequences and
/// symbol tables.  `tokenize` ensures its result and its symbol-table
/// update equal exactly these functions of its inputs.
pub proof fn lemma_tokenize_deterministic(
    s: Seq<char>,
    kws: Seq<Seq<char>>,
    st: Seq<Seq<char>>,
    out1: LexOutcome,
    out2: LexOutcome,
)
    requires
        out1 == spec_tokenize(s, kws, 1, 1),
        out2 == spec_tokenize(s, kws, 1, 1),
    ensures
        out1 == out2,
        record_symbols(st, lex_tokens(out1)) == record_symbols(st, lex_tokens(out2)),
{
}

} // verus!
