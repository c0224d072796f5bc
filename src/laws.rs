//! Properties that every scan has, proved over the grammar.
use vstd::prelude::*;

use crate::grammar::{
    eof_token, equal_pair_kinds, is_alpha_char, is_digit_char, keyword_kind, keyword_table_spec,
    lemma_step_advances, lookup_from, option_seq, scan_from, scan_spec, single_char_kind, step,
};
use crate::token::{TokenType, TokenView};

verus! {

/// The scan from any position ends with the end-of-input token, whose lexeme
/// is empty.
proof fn lemma_scan_from_ends_with_eof(src: Seq<char>, pos: int, line: int)
    ensures
        scan_from(src, pos, line).0.len() > 0,
        scan_from(src, pos, line).0.last().kind == TokenType::EOF,
        scan_from(src, pos, line).0.last().lexeme.len() == 0,
    decreases src.len() - pos,
{
    if 0 <= pos < src.len() {
        let s = step(src, pos, line);
        lemma_step_advances(src, pos, line);
        lemma_scan_from_ends_with_eof(src, s.next, s.next_line);
        let rest = scan_from(src, s.next, s.next_line).0;
        assert((option_seq(s.token) + rest).last() == rest.last());
    }
}

/// Every scan ends with the end-of-input token, and that token's lexeme is
/// empty.
pub proof fn lemma_scan_ends_with_eof(src: Seq<char>)
    ensures
        scan_spec(src).0.len() > 0,
        scan_spec(src).0.last().kind == TokenType::EOF,
        scan_spec(src).0.last().lexeme.len() == 0,
{
    lemma_scan_from_ends_with_eof(src, 0, 1);
}

/// Whether the lines of `ts` never decrease and none is below `line`.
pub open spec fn lines_sorted_from(ts: Seq<TokenView>, line: int) -> bool {
    &&& forall|i: int| 0 <= i < ts.len() ==> line <= #[trigger] ts[i].line
    &&& forall|i: int, j: int| 0 <= i <= j < ts.len() ==> #[trigger] ts[i].line <= #[trigger] ts[j].line
}

proof fn lemma_scan_from_lines_sorted(src: Seq<char>, pos: int, line: int)
    ensures
        lines_sorted_from(scan_from(src, pos, line).0, line),
    decreases src.len() - pos,
{
    if 0 <= pos < src.len() {
        let s = step(src, pos, line);
        lemma_step_advances(src, pos, line);
        lemma_scan_from_lines_sorted(src, s.next, s.next_line);
        let rest = scan_from(src, s.next, s.next_line).0;
        let all = option_seq(s.token) + rest;
        assert forall|i: int, j: int| 0 <= i <= j < all.len() implies #[trigger] all[i].line
            <= #[trigger] all[j].line by {
            if s.token is Some && i == 0 {
                if j > 0 {
                    assert(all[j] == rest[j - 1]);
                }
            } else {
                let k = if s.token is Some { 1int } else { 0int };
                assert(all[i] == rest[i - k]);
                assert(all[j] == rest[j - k]);
            }
        }
        assert forall|i: int| 0 <= i < all.len() implies line <= #[trigger] all[i].line by {
            if !(s.token is Some && i == 0) {
                let k = if s.token is Some { 1int } else { 0int };
                assert(all[i] == rest[i - k]);
            }
        }
    }
}

/// The line numbers of the tokens of a scan never decrease, and none is
/// below the first line.
pub proof fn lemma_scan_lines_sorted(src: Seq<char>)
    ensures
        lines_sorted_from(scan_spec(src).0, 1),
{
    lemma_scan_from_lines_sorted(src, 0, 1);
}

/// The canonical spelling of each punctuation and operator kind.
pub open spec fn operator_spelling(k: TokenType) -> Option<Seq<char>> {
    match k {
        TokenType::LEFT_PAREN => Some(seq!['(']),
        TokenType::RIGHT_PAREN => Some(seq![')']),
        TokenType::LEFT_BRACE => Some(seq!['{']),
        TokenType::RIGHT_BRACE => Some(seq!['}']),
        TokenType::COMMA => Some(seq![',']),
        TokenType::DOT => Some(seq!['.']),
        TokenType::MINUS => Some(seq!['-']),
        TokenType::PLUS => Some(seq!['+']),
        TokenType::SEMICOLIN => Some(seq![';']),
        TokenType::SLASH => Some(seq!['/']),
        TokenType::STAR => Some(seq!['*']),
        TokenType::BANG => Some(seq!['!']),
        TokenType::BANG_EQUAL => Some(seq!['!', '=']),
        TokenType::EQUAL => Some(seq!['=']),
        TokenType::EQUAL_EQUAL => Some(seq!['=', '=']),
        TokenType::GREATER => Some(seq!['>']),
        TokenType::GREATER_EQUAL => Some(seq!['>', '=']),
        TokenType::LESS => Some(seq!['<']),
        TokenType::LESS_EQUAL => Some(seq!['<', '=']),
        _ => None,
    }
}

/// Scanning the spelling of a punctuation or operator kind on its own gives
/// exactly one token of that kind, whose lexeme is that spelling, followed
/// by the end-of-input token, and no error.
pub proof fn lemma_operator_round_trip(k: TokenType)
    requires
        operator_spelling(k) is Some,
    ensures
        scan_spec(operator_spelling(k)->0).0 == seq![
            TokenView { kind: k, lexeme: operator_spelling(k)->0, literal: None, line: 1 },
            eof_token(1),
        ],
        scan_spec(operator_spelling(k)->0).1.len() == 0,
{
    let src = operator_spelling(k)->0;
    let s = step(src, 0, 1);
    assert(src.subrange(0, src.len() as int) =~= src);
    assert(s.next == src.len());
    assert(scan_from(src, s.next, s.next_line).0 == seq![eof_token(1)]);
    assert(scan_spec(src).0 =~= seq![
        TokenView { kind: k, lexeme: src, literal: None, line: 1 },
        eof_token(1),
    ]);
    assert(scan_spec(src).1 =~= Seq::empty());
}

/// A reserved word never has a punctuation or operator kind.
proof fn lemma_lookup_is_keyword(text: Seq<char>, i: int)
    ensures
        lookup_from(keyword_table_spec(), text, i) matches Some(k) ==> operator_spelling(k) is None,
    decreases keyword_table_spec().len() - i,
{
    if 0 <= i < keyword_table_spec().len() {
        lemma_lookup_is_keyword(text, i + 1);
    }
}

/// A token of punctuation or operator kind that one step yields has that
/// kind's spelling as its lexeme.
proof fn lemma_step_operator_lexeme(src: Seq<char>, pos: int, line: int)
    requires
        0 <= pos < src.len(),
    ensures
        step(src, pos, line).token matches Some(t) ==> (operator_spelling(t.kind) matches Some(
            sp,
        ) ==> t.lexeme == sp),
{
    let c = src[pos];
    if single_char_kind(c) is Some {
        assert(src.subrange(pos, pos + 1) =~= seq![c]);
    } else if equal_pair_kinds(c) is Some {
        assert(src.subrange(pos, pos + 1) =~= seq![c]);
        if pos + 1 < src.len() && src[pos + 1] == '=' {
            assert(src.subrange(pos, pos + 2) =~= seq![c, '=']);
        }
    } else if c == '/' {
        assert(src.subrange(pos, pos + 1) =~= seq![c]);
    } else if is_alpha_char(c) && !is_digit_char(c) && c != '"' {
        let e = crate::grammar::run_end(src, pos + 1, crate::grammar::Run::Word);
        lemma_lookup_is_keyword(src.subrange(pos, e), 0);
    }
}

proof fn lemma_scan_from_operator_lexemes(src: Seq<char>, pos: int, line: int)
    ensures
        forall|i: int|
            0 <= i < scan_from(src, pos, line).0.len() ==> (operator_spelling(
                #[trigger] scan_from(src, pos, line).0[i].kind,
            ) matches Some(sp) ==> scan_from(src, pos, line).0[i].lexeme == sp),
    decreases src.len() - pos,
{
    if 0 <= pos < src.len() {
        let s = step(src, pos, line);
        lemma_step_advances(src, pos, line);
        lemma_step_operator_lexeme(src, pos, line);
        lemma_scan_from_operator_lexemes(src, s.next, s.next_line);
        let rest = scan_from(src, s.next, s.next_line).0;
        let all = option_seq(s.token) + rest;
        assert forall|i: int| 0 <= i < all.len() implies (operator_spelling(
            #[trigger] all[i].kind,
        ) matches Some(sp) ==> all[i].lexeme == sp) by {
            if !(s.token is Some && i == 0) {
                let k = if s.token is Some { 1int } else { 0int };
                assert(all[i] == rest[i - k]);
            }
        }
    }
}

/// In every scan, each punctuation or operator token has exactly its
/// kind's spelling as its lexeme: the characters it was scanned from.
pub proof fn lemma_operator_lexemes(src: Seq<char>)
    ensures
        forall|i: int|
            0 <= i < scan_spec(src).0.len() ==> (operator_spelling(
                #[trigger] scan_spec(src).0[i].kind,
            ) matches Some(sp) ==> scan_spec(src).0[i].lexeme == sp),
{
    lemma_scan_from_operator_lexemes(src, 0, 1);
}

/// Whether `text` is the slice of `src` between some two positions.
pub open spec fn is_slice_of(text: Seq<char>, src: Seq<char>) -> bool {
    exists|a: int, b: int| 0 <= a <= b <= src.len() && text == src.subrange(a, b)
}

proof fn lemma_step_lexeme_is_slice(src: Seq<char>, pos: int, line: int)
    requires
        0 <= pos < src.len(),
    ensures
        step(src, pos, line).token matches Some(t) ==> is_slice_of(t.lexeme, src),
{
    lemma_step_advances(src, pos, line);
    let s = step(src, pos, line);
    if s.token is Some {
        let t = s.token->0;
        let c = src[pos];
        if c == '"' {
            let e = crate::grammar::run_end(src, pos + 1, crate::grammar::Run::StringBody);
            assert(t.lexeme == src.subrange(pos, e + 1));
        } else {
            assert(t.lexeme == src.subrange(pos, s.next));
        }
    }
}

proof fn lemma_scan_from_lexemes_are_slices(src: Seq<char>, pos: int, line: int)
    ensures
        forall|i: int|
            0 <= i < scan_from(src, pos, line).0.len() ==> is_slice_of(
                #[trigger] scan_from(src, pos, line).0[i].lexeme,
                src,
            ),
    decreases src.len() - pos,
{
    if 0 <= pos < src.len() {
        let s = step(src, pos, line);
        lemma_step_advances(src, pos, line);
        lemma_step_lexeme_is_slice(src, pos, line);
        lemma_scan_from_lexemes_are_slices(src, s.next, s.next_line);
        let rest = scan_from(src, s.next, s.next_line).0;
        let all = option_seq(s.token) + rest;
        assert forall|i: int| 0 <= i < all.len() implies is_slice_of(#[trigger] all[i].lexeme, src) by {
            if !(s.token is Some && i == 0) {
                let k = if s.token is Some { 1int } else { 0int };
                assert(all[i] == rest[i - k]);
            }
        }
    } else {
        assert(eof_token(line).lexeme == src.subrange(0, 0));
    }
}

/// In every scan, the lexeme of each token is a slice of the source: the
/// text it was scanned from, reproduced exactly.
pub proof fn lemma_lexemes_are_source_text(src: Seq<char>)
    ensures
        forall|i: int|
            0 <= i < scan_spec(src).0.len() ==> is_slice_of(#[trigger] scan_spec(src).0[i].lexeme, src),
{
    lemma_scan_from_lexemes_are_slices(src, 0, 1);
}

} // verus!
