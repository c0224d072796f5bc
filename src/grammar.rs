//! The lexical grammar, stated as spec functions over the source characters.
//!
//! `scan_from` is the meaning of a scan: the tokens and the errors that the
//! source yields from a position on, given the line counter there.
use vstd::prelude::*;

use crate::lox_error::{ErrorKind, ErrorView};
use crate::token::{LexemeView, TokenType, TokenView};

verus! {

/// Whether `c` is an ASCII decimal digit.
pub open spec fn is_digit_char(c: char) -> bool {
    '0' <= c && c <= '9'
}

/// Whether `c` may begin an identifier: an ASCII letter or `_`.
pub open spec fn is_alpha_char(c: char) -> bool {
    ('a' <= c && c <= 'z') || ('A' <= c && c <= 'Z') || c == '_'
}

/// Whether `c` may continue an identifier.
pub open spec fn is_alpha_numeric_char(c: char) -> bool {
    is_alpha_char(c) || is_digit_char(c)
}

/// The kind of a character that is a token on its own, whatever follows it.
pub open spec fn single_char_kind(c: char) -> Option<TokenType> {
    if c == '(' {
        Some(TokenType::LEFT_PAREN)
    } else if c == ')' {
        Some(TokenType::RIGHT_PAREN)
    } else if c == '{' {
        Some(TokenType::LEFT_BRACE)
    } else if c == '}' {
        Some(TokenType::RIGHT_BRACE)
    } else if c == ',' {
        Some(TokenType::COMMA)
    } else if c == '.' {
        Some(TokenType::DOT)
    } else if c == '-' {
        Some(TokenType::MINUS)
    } else if c == '+' {
        Some(TokenType::PLUS)
    } else if c == ';' {
        Some(TokenType::SEMICOLIN)
    } else if c == '*' {
        Some(TokenType::STAR)
    } else {
        None
    }
}

/// For an operator character that may take a following `=`, its kind alone
/// and its kind together with the `=`.
pub open spec fn equal_pair_kinds(c: char) -> Option<(TokenType, TokenType)> {
    if c == '!' {
        Some((TokenType::BANG, TokenType::BANG_EQUAL))
    } else if c == '=' {
        Some((TokenType::EQUAL, TokenType::EQUAL_EQUAL))
    } else if c == '<' {
        Some((TokenType::LESS, TokenType::LESS_EQUAL))
    } else if c == '>' {
        Some((TokenType::GREATER, TokenType::GREATER_EQUAL))
    } else {
        None
    }
}

/// The reserved words with their kinds.
pub open spec fn keyword_table_spec() -> Seq<(Seq<char>, TokenType)> {
    seq![
        (seq!['a', 'n', 'd'], TokenType::AND),
        (seq!['c', 'l', 'a', 's', 's'], TokenType::CLASS),
        (seq!['e', 'l', 's', 'e'], TokenType::ELSE),
        (seq!['f', 'a', 'l', 's', 'e'], TokenType::FALSE),
        (seq!['f', 'o', 'r'], TokenType::FOR),
        (seq!['f', 'u', 'n'], TokenType::FUN),
        (seq!['i', 'f'], TokenType::IF),
        (seq!['n', 'i', 'l'], TokenType::NIL),
        (seq!['o', 'r'], TokenType::OR),
        (seq!['p', 'r', 'i', 'n', 't'], TokenType::PRINT),
        (seq!['r', 'e', 't', 'u', 'r', 'n'], TokenType::RETURN),
        (seq!['s', 'u', 'p', 'e', 'r'], TokenType::SUPER),
        (seq!['t', 'h', 'i', 's'], TokenType::THIS),
        (seq!['t', 'r', 'u', 'e'], TokenType::TRUE),
        (seq!['v', 'a', 'r'], TokenType::VAR),
        (seq!['w', 'h', 'i', 'l', 'e'], TokenType::WHILE),
    ]
}

/// The kind of the first entry of `table` at or after `i` spelled `text`.
pub open spec fn lookup_from(table: Seq<(Seq<char>, TokenType)>, text: Seq<char>, i: int) -> Option<
    TokenType,
>
    decreases table.len() - i,
{
    if i < 0 || i >= table.len() {
        None
    } else if table[i].0 == text {
        Some(table[i].1)
    } else {
        lookup_from(table, text, i + 1)
    }
}

/// The keyword kind spelled `text`, if `text` is a reserved word.
pub open spec fn keyword_kind(text: Seq<char>) -> Option<TokenType> {
    lookup_from(keyword_table_spec(), text, 0)
}

/// The runs of characters that the scanner consumes greedily.
#[derive(Clone, Copy)]
pub enum Run {
    Digits,
    Word,
    StringBody,
    CommentBody,
}

/// Whether a run of the given sort goes on over `c`.
pub open spec fn keeps(run: Run, c: char) -> bool {
    match run {
        Run::Digits => is_digit_char(c),
        Run::Word => is_alpha_numeric_char(c),
        Run::StringBody => c != '"',
        Run::CommentBody => c != '\n',
    }
}

/// The end of the longest run of sort `run` that starts at `i`.
pub open spec fn run_end(src: Seq<char>, i: int, run: Run) -> int
    decreases src.len() - i,
{
    if 0 <= i < src.len() && keeps(run, src[i]) {
        run_end(src, i + 1, run)
    } else {
        i
    }
}

/// The end of the number literal that starts at `i`: a run of digits,
/// then a dot and a second run of digits only where a digit follows the dot.
pub open spec fn number_end(src: Seq<char>, i: int) -> int {
    let e = run_end(src, i, Run::Digits);
    if e + 1 < src.len() && src[e] == '.' && is_digit_char(src[e + 1]) {
        run_end(src, e + 1, Run::Digits)
    } else {
        e
    }
}

/// The number of newline characters in `s`.
pub open spec fn count_newlines(s: Seq<char>) -> nat
    decreases s.len(),
{
    if s.len() == 0 {
        0
    } else {
        count_newlines(s.drop_last()) + if s.last() == '\n' {
            1nat
        } else {
            0nat
        }
    }
}

/// What one step of the scan does at a position: the token or the error it
/// yields, if any, and where and on which line the scan goes on.
pub struct Step {
    pub token: Option<TokenView>,
    pub error: Option<ErrorView>,
    pub next: int,
    pub next_line: int,
}

pub open spec fn emit(
    kind: TokenType,
    lexeme: Seq<char>,
    literal: Option<LexemeView>,
    line: int,
    next: int,
) -> Step {
    Step {
        token: Some(TokenView { kind, lexeme, literal, line }),
        error: None,
        next,
        next_line: line,
    }
}

pub open spec fn skip(next: int, next_line: int) -> Step {
    Step { token: None, error: None, next, next_line }
}

pub open spec fn fail(kind: ErrorKind, line: int, next: int, next_line: int) -> Step {
    Step { token: None, error: Some(ErrorView { kind, line }), next, next_line }
}

/// The step that the scan takes at `pos`, a position inside `src`, with the
/// line counter at `line`.
pub open spec fn step(src: Seq<char>, pos: int, line: int) -> Step {
    let c = src[pos];
    let equal_follows = pos + 1 < src.len() && src[pos + 1] == '=';
    if single_char_kind(c) is Some {
        emit(single_char_kind(c)->0, src.subrange(pos, pos + 1), None, line, pos + 1)
    } else if equal_pair_kinds(c) is Some {
        let (alone, paired) = equal_pair_kinds(c)->0;
        if equal_follows {
            emit(paired, src.subrange(pos, pos + 2), None, line, pos + 2)
        } else {
            emit(alone, src.subrange(pos, pos + 1), None, line, pos + 1)
        }
    } else if c == '/' {
        if pos + 1 < src.len() && src[pos + 1] == '/' {
            let e = run_end(src, pos + 2, Run::CommentBody);
            if e < src.len() {
                skip(e + 1, line + 1)
            } else {
                skip(e, line)
            }
        } else {
            emit(TokenType::SLASH, src.subrange(pos, pos + 1), None, line, pos + 1)
        }
    } else if c == ' ' || c == '\t' || c == '\r' {
        skip(pos + 1, line)
    } else if c == '\n' {
        skip(pos + 1, line + 1)
    } else if c == '"' {
        let e = run_end(src, pos + 1, Run::StringBody);
        let closed_line = line + count_newlines(src.subrange(pos + 1, e));
        if e < src.len() {
            emit(
                TokenType::STRING,
                src.subrange(pos, e + 1),
                Some(LexemeView::Char(src.subrange(pos + 1, e))),
                closed_line,
                e + 1,
            )
        } else {
            fail(ErrorKind::UnterminatedString, line, e, closed_line)
        }
    } else if is_digit_char(c) {
        let e = number_end(src, pos);
        let text = src.subrange(pos, e);
        emit(TokenType::NUMBER, text, Some(LexemeView::Num(text)), line, e)
    } else if is_alpha_char(c) {
        let e = run_end(src, pos + 1, Run::Word);
        let text = src.subrange(pos, e);
        match keyword_kind(text) {
            Some(k) => emit(k, text, None, line, e),
            None => emit(TokenType::IDENTIFIER, text, Some(LexemeView::Char(text)), line, e),
        }
    } else {
        fail(ErrorKind::UnrecognizedCharacter(c), line, pos + 1, line)
    }
}

/// The end-of-input token on the given line.
pub open spec fn eof_token(line: int) -> TokenView {
    TokenView { kind: TokenType::EOF, lexeme: Seq::empty(), literal: None, line }
}

pub open spec fn option_seq<T>(o: Option<T>) -> Seq<T> {
    match o {
        Some(x) => seq![x],
        None => Seq::empty(),
    }
}

/// A run ends at or after its start and not past the end of the source.
pub proof fn lemma_run_end_bounds(src: Seq<char>, i: int, run: Run)
    requires
        0 <= i <= src.len(),
    ensures
        i <= run_end(src, i, run) <= src.len(),
    decreases src.len() - i,
{
    if i < src.len() && keeps(run, src[i]) {
        lemma_run_end_bounds(src, i + 1, run);
    }
}

/// There are no more newlines in `s` than characters.
pub proof fn lemma_count_newlines_bound(s: Seq<char>)
    ensures
        count_newlines(s) <= s.len(),
    decreases s.len(),
{
    if s.len() > 0 {
        lemma_count_newlines_bound(s.drop_last());
    }
}

/// Each step moves forward inside the source, and the line counter never
/// goes back nor runs ahead of the position.
pub proof fn lemma_step_advances(src: Seq<char>, pos: int, line: int)
    requires
        0 <= pos < src.len(),
    ensures
        pos < step(src, pos, line).next <= src.len(),
        line <= step(src, pos, line).next_line <= line + (step(src, pos, line).next - pos),
        step(src, pos, line).token matches Some(t) ==> line <= t.line <= step(
            src,
            pos,
            line,
        ).next_line,
{
    let c = src[pos];
    if c == '/' && pos + 1 < src.len() && src[pos + 1] == '/' {
        lemma_run_end_bounds(src, pos + 2, Run::CommentBody);
    } else if c == '"' {
        lemma_run_end_bounds(src, pos + 1, Run::StringBody);
        let e = run_end(src, pos + 1, Run::StringBody);
        lemma_count_newlines_bound(src.subrange(pos + 1, e));
    } else if is_digit_char(c) {
        lemma_run_end_bounds(src, pos, Run::Digits);
        let e = run_end(src, pos, Run::Digits);
        if e + 1 < src.len() && src[e] == '.' && is_digit_char(src[e + 1]) {
            lemma_run_end_bounds(src, e + 1, Run::Digits);
        }
        assert(run_end(src, pos, Run::Digits) == run_end(src, pos + 1, Run::Digits));
        lemma_run_end_bounds(src, pos + 1, Run::Digits);
    } else if is_alpha_char(c) {
        lemma_run_end_bounds(src, pos + 1, Run::Word);
    }
}

/// The tokens and the errors that `src` yields from `pos` on, with the line
/// counter at `line`. The tokens always end with the end-of-input token.
pub open spec fn scan_from(src: Seq<char>, pos: int, line: int) -> (Seq<TokenView>, Seq<ErrorView>)
    decreases src.len() - pos,
{
    if pos < 0 || pos >= src.len() {
        (seq![eof_token(line)], Seq::empty())
    } else {
        let s = step(src, pos, line);
        proof {
            lemma_step_advances(src, pos, line);
        }
        let rest = scan_from(src, s.next, s.next_line);
        (option_seq(s.token) + rest.0, option_seq(s.error) + rest.1)
    }
}

/// The tokens and the errors of a whole source, scanned from line 1.
pub open spec fn scan_spec(src: Seq<char>) -> (Seq<TokenView>, Seq<ErrorView>) {
    scan_from(src, 0, 1)
}

} // verus!
