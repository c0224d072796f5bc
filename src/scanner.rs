use vstd::prelude::*;

use crate::grammar::{
    count_newlines, equal_pair_kinds, is_alpha_char, is_alpha_numeric_char, is_digit_char,
    keeps, keyword_kind, keyword_table_spec, lookup_from, number_end, run_end, scan_from,
    scan_spec, single_char_kind, step, Run,
};
use crate::lox_error::{errors_view, ErrorKind, ErrorView, LoxError, LoxTokenizationError};
use crate::text::push_char;
use crate::token::{tokens_view, Lexeme, Token, TokenType, TokenView};

verus! {

broadcast use vstd::string::group_string_axioms;

/// The characters of `s`, in order.
fn chars_of(s: &str) -> (r: Vec<char>)
    ensures
        r@ == s@,
{
    let mut it = s.chars();
    let mut r: Vec<char> = Vec::new();
    loop
        invariant
            r@ + vstd::std_specs::iter::IteratorSpec::remaining(&it) == s@,
            vstd::std_specs::iter::IteratorSpec::decrease(&it) is Some,
        ensures
            r@ == s@,
        decreases vstd::std_specs::iter::IteratorSpec::decrease(&it)->0,
    {
        match it.next() {
            Some(c) => {
                r.push(c);
                assert(r@ + vstd::std_specs::iter::IteratorSpec::remaining(&it) =~= s@);
            },
            None => {
                assert(r@ =~= s@);
                break ;
            },
        }
    }
    r
}

/// The characters of `src` from `start` up to `end`, as a string.
fn text_of(src: &Vec<char>, start: usize, end: usize) -> (r: String)
    requires
        start <= end <= src@.len(),
    ensures
        r@ == src@.subrange(start as int, end as int),
{
    let mut r = String::new();
    let mut j: usize = start;
    while j < end
        invariant
            start <= j <= end <= src@.len(),
            r@ == src@.subrange(start as int, j as int),
        decreases end - j,
    {
        push_char(&mut r, src[j]);
        assert(src@.subrange(start as int, j + 1) =~= src@.subrange(start as int, j as int).push(
            src@[j as int],
        ));
        j = j + 1;
    }
    r
}

/// Whether a run of sort `run` goes on over `c`.
fn keeps_char(run: Run, c: char) -> (r: bool)
    ensures
        r == keeps(run, c),
{
    match run {
        Run::Digits => Scanner::is_digit(c),
        Run::Word => Scanner::is_alpha_numeric(c),
        Run::StringBody => c != '"',
        Run::CommentBody => c != '\n',
    }
}

/// The end of the longest run of sort `run` that starts at `i`.
fn find_run_end(src: &Vec<char>, i: usize, run: Run) -> (e: usize)
    requires
        i <= src@.len(),
    ensures
        e == run_end(src@, i as int, run),
        i <= e <= src@.len(),
{
    let mut j: usize = i;
    while j < src.len() && keeps_char(run, src[j])
        invariant
            i <= j <= src@.len(),
            run_end(src@, i as int, run) == run_end(src@, j as int, run),
        decreases src@.len() - j,
    {
        j = j + 1;
    }
    j
}

/// The end of the number literal that starts at `i`.
fn find_number_end(src: &Vec<char>, i: usize) -> (e: usize)
    requires
        i <= src@.len(),
    ensures
        e == number_end(src@, i as int),
        i <= e <= src@.len(),
{
    let e = find_run_end(src, i, Run::Digits);
    if e < src.len() && e + 1 < src.len() && src[e] == '.' && Scanner::is_digit(src[e + 1]) {
        find_run_end(src, e + 1, Run::Digits)
    } else {
        e
    }
}

/// The number of newlines among the characters of `src` from `start` up to `end`.
fn newlines_between(src: &Vec<char>, start: usize, end: usize) -> (n: usize)
    requires
        start <= end <= src@.len(),
    ensures
        n == count_newlines(src@.subrange(start as int, end as int)),
        n <= end - start,
{
    let mut n: usize = 0;
    let mut j: usize = start;
    while j < end
        invariant
            start <= j <= end <= src@.len(),
            n == count_newlines(src@.subrange(start as int, j as int)),
            n <= j - start,
        decreases end - j,
    {
        assert(src@.subrange(start as int, j + 1).drop_last() =~= src@.subrange(
            start as int,
            j as int,
        ));
        if src[j] == '\n' {
            n = n + 1;
        }
        j = j + 1;
    }
    n
}

/// The kind of a character that is a token on its own.
fn single_char_kind_of(c: char) -> (r: Option<TokenType>)
    ensures
        r == single_char_kind(c),
{
    if c == '(' {
        Some(TokenType::LEFT_PAREN)
    } else if c == ')' {
        Some(TokenType::RIGHT_PAREN)
    } else if c == '{' {
        Some(TokenType::LEFT_BRACE)
    } else if c == '}' {
        Some(TokenType::RIGHT_BRACE)
    } else if c == ',' {
        Some(TokenType::COMMA)
    } else if c == '.' {
        Some(TokenType::DOT)
    } else if c == '-' {
        Some(TokenType::MINUS)
    } else if c == '+' {
        Some(TokenType::PLUS)
    } else if c == ';' {
        Some(TokenType::SEMICOLIN)
    } else if c == '*' {
        Some(TokenType::STAR)
    } else {
        None
    }
}

/// The kinds of an operator character alone and followed by `=`.
fn equal_pair_kinds_of(c: char) -> (r: Option<(TokenType, TokenType)>)
    ensures
        r == equal_pair_kinds(c),
{
    if c == '!' {
        Some((TokenType::BANG, TokenType::BANG_EQUAL))
    } else if c == '=' {
        Some((TokenType::EQUAL, TokenType::EQUAL_EQUAL))
    } else if c == '<' {
        Some((TokenType::LESS, TokenType::LESS_EQUAL))
    } else if c == '>' {
        Some((TokenType::GREATER, TokenType::GREATER_EQUAL))
    } else {
        None
    }
}

/// Whether `table` holds the reserved words of the language, entry for entry.
spec fn is_keyword_table(table: Seq<(Vec<char>, TokenType)>) -> bool {
    &&& table.len() == keyword_table_spec().len()
    &&& forall|i: int|
        0 <= i < table.len() ==> #[trigger] table[i].0@ == keyword_table_spec()[i].0
            && table[i].1 == keyword_table_spec()[i].1
}

/// The table of reserved words, built once per scan.
fn keyword_table() -> (r: Vec<(Vec<char>, TokenType)>)
    ensures
        is_keyword_table(r@),
{
    let r = vec![
        (vec!['a', 'n', 'd'], TokenType::AND),
        (vec!['c', 'l', 'a', 's', 's'], TokenType::CLASS),
        (vec!['e', 'l', 's', 'e'], TokenType::ELSE),
        (vec!['f', 'a', 'l', 's', 'e'], TokenType::FALSE),
        (vec!['f', 'o', 'r'], TokenType::FOR),
        (vec!['f', 'u', 'n'], TokenType::FUN),
        (vec!['i', 'f'], TokenType::IF),
        (vec!['n', 'i', 'l'], TokenType::NIL),
        (vec!['o', 'r'], TokenType::OR),
        (vec!['p', 'r', 'i', 'n', 't'], TokenType::PRINT),
        (vec!['r', 'e', 't', 'u', 'r', 'n'], TokenType::RETURN),
        (vec!['s', 'u', 'p', 'e', 'r'], TokenType::SUPER),
        (vec!['t', 'h', 'i', 's'], TokenType::THIS),
        (vec!['t', 'r', 'u', 'e'], TokenType::TRUE),
        (vec!['v', 'a', 'r'], TokenType::VAR),
        (vec!['w', 'h', 'i', 'l', 'e'], TokenType::WHILE),
    ];
    r
}

/// Whether the characters of `src` from `start` up to `end` spell `word`.
fn span_equals(src: &Vec<char>, start: usize, end: usize, word: &Vec<char>) -> (r: bool)
    requires
        start <= end <= src@.len(),
    ensures
        r == (src@.subrange(start as int, end as int) == word@),
{
    if end - start != word.len() {
        return false;
    }
    let mut k: usize = 0;
    while k < word.len()
        invariant
            end - start == word@.len(),
            start <= end <= src@.len(),
            k <= word@.len(),
            forall|m: int| 0 <= m < k ==> src@[start + m] == word@[m],
        decreases word@.len() - k,
    {
        if src[start + k] != word[k] {
            assert(src@.subrange(start as int, end as int)[k as int] != word@[k as int]);
            return false;
        }
        k = k + 1;
    }
    assert(src@.subrange(start as int, end as int) =~= word@);
    true
}

/// The keyword kind spelled by the characters of `src` from `start` up to `end`.
fn keyword_kind_of(table: &Vec<(Vec<char>, TokenType)>, src: &Vec<char>, start: usize, end: usize) -> (r:
    Option<TokenType>)
    requires
        start <= end <= src@.len(),
        is_keyword_table(table@),
    ensures
        r == keyword_kind(src@.subrange(start as int, end as int)),
{
    let ghost text = src@.subrange(start as int, end as int);
    let mut i: usize = 0;
    while i < table.len()
        invariant
            i <= table@.len(),
            is_keyword_table(table@),
            start <= end <= src@.len(),
            text == src@.subrange(start as int, end as int),
            keyword_kind(text) == lookup_from(keyword_table_spec(), text, i as int),
        decreases table@.len() - i,
    {
        assert(table@[i as int].0@ == keyword_table_spec()[i as int].0);
        assert(i < keyword_table_spec().len());
        if span_equals(src, start, end, &table[i].0) {
            return Some(table[i].1);
        }
        i = i + 1;
    }
    None
}

spec fn token_opt_view(t: Option<Token>) -> Option<TokenView> {
    match t {
        Some(t) => Some(t@),
        None => None,
    }
}

spec fn error_opt_view(e: Option<LoxTokenizationError>) -> Option<ErrorView> {
    match e {
        Some(e) => Some(e@),
        None => None,
    }
}

/// One step of the scan at `pos`: the token or the error found there, if any,
/// and the position and line at which the scan goes on.
fn scan_step(
    src: &Vec<char>,
    table: &Vec<(Vec<char>, TokenType)>,
    pos: usize,
    line: usize,
) -> (r: (Option<Token>, Option<LoxTokenizationError>, usize, usize))
    requires
        pos < src@.len() < usize::MAX,
        1 <= line <= pos + 1,
        is_keyword_table(table@),
    ensures
        token_opt_view(r.0) == step(src@, pos as int, line as int).token,
        error_opt_view(r.1) == step(src@, pos as int, line as int).error,
        r.2 == step(src@, pos as int, line as int).next,
        r.3 == step(src@, pos as int, line as int).next_line,
{
    proof {
        crate::grammar::lemma_step_advances(src@, pos as int, line as int);
    }
    let c = src[pos];
    let equal_follows = pos + 1 < src.len() && src[pos + 1] == '=';
    if let Some(kind) = single_char_kind_of(c) {
        let t = Token::new(kind, text_of(src, pos, pos + 1), None, line);
        (Some(t), None, pos + 1, line)
    } else if let Some((alone, paired)) = equal_pair_kinds_of(c) {
        if equal_follows {
            (Some(Token::new(paired, text_of(src, pos, pos + 2), None, line)), None, pos + 2, line)
        } else {
            (Some(Token::new(alone, text_of(src, pos, pos + 1), None, line)), None, pos + 1, line)
        }
    } else if c == '/' {
        if pos + 1 < src.len() && src[pos + 1] == '/' {
            let e = find_run_end(src, pos + 2, Run::CommentBody);
            if e < src.len() {
                (None, None, e + 1, line + 1)
            } else {
                (None, None, e, line)
            }
        } else {
            let t = Token::new(TokenType::SLASH, text_of(src, pos, pos + 1), None, line);
            (Some(t), None, pos + 1, line)
        }
    } else if c == ' ' || c == '\t' || c == '\r' {
        (None, None, pos + 1, line)
    } else if c == '\n' {
        (None, None, pos + 1, line + 1)
    } else if c == '"' {
        let e = find_run_end(src, pos + 1, Run::StringBody);
        let closed_line = line + newlines_between(src, pos + 1, e);
        if e < src.len() {
            let contents = text_of(src, pos + 1, e);
            let t = Token::new(
                TokenType::STRING,
                text_of(src, pos, e + 1),
                Some(Lexeme::Char(contents)),
                closed_line,
            );
            (Some(t), None, e + 1, closed_line)
        } else {
            let err = LoxTokenizationError { kind: ErrorKind::UnterminatedString, line };
            (None, Some(err), e, closed_line)
        }
    } else if Scanner::is_digit(c) {
        let e = find_number_end(src, pos);
        let text = text_of(src, pos, e);
        let t = Token::new(TokenType::NUMBER, text.clone(), Some(Lexeme::Num(text)), line);
        (Some(t), None, e, line)
    } else if Scanner::is_alpha(c) {
        let e = find_run_end(src, pos + 1, Run::Word);
        let text = text_of(src, pos, e);
        match keyword_kind_of(table, src, pos, e) {
            Some(k) => (Some(Token::new(k, text, None, line)), None, e, line),
            None => {
                let literal = Some(Lexeme::Char(text.clone()));
                (Some(Token::new(TokenType::IDENTIFIER, text, literal, line)), None, e, line)
            },
        }
    } else {
        let err = LoxTokenizationError { kind: ErrorKind::UnrecognizedCharacter(c), line };
        (None, Some(err), pos + 1, line)
    }
}

/// Scans the whole of `src`: every token, ending with the end-of-input token,
/// and every lexical error, each in source order.
fn scan_chars(src: &Vec<char>) -> (r: (Vec<Token>, Vec<LoxTokenizationError>))
    requires
        src@.len() < usize::MAX,
    ensures
        tokens_view(r.0@) == scan_spec(src@).0,
        errors_view(r.1@) == scan_spec(src@).1,
{
    let table = keyword_table();
    let mut tokens: Vec<Token> = Vec::new();
    let mut errors: Vec<LoxTokenizationError> = Vec::new();
    let mut pos: usize = 0;
    let mut line: usize = 1;
    assert(tokens_view(tokens@) =~= Seq::<TokenView>::empty());
    assert(errors_view(errors@) =~= Seq::<ErrorView>::empty());
    assert(scan_spec(src@).0 =~= tokens_view(tokens@) + scan_from(src@, 0, 1).0);
    assert(scan_spec(src@).1 =~= errors_view(errors@) + scan_from(src@, 0, 1).1);
    while pos < src.len()
        invariant
            pos <= src@.len() < usize::MAX,
            1 <= line <= pos + 1,
            is_keyword_table(table@),
            scan_spec(src@).0 == tokens_view(tokens@) + scan_from(src@, pos as int, line as int).0,
            scan_spec(src@).1 == errors_view(errors@) + scan_from(src@, pos as int, line as int).1,
        decreases src@.len() - pos,
    {
        proof {
            crate::grammar::lemma_step_advances(src@, pos as int, line as int);
        }
        let ghost before_tokens = tokens_view(tokens@);
        let ghost before_errors = errors_view(errors@);
        let ghost rest = scan_from(src@, pos as int, line as int);
        let (token, error, next, next_line) = scan_step(src, &table, pos, line);
        let ghost after = scan_from(src@, next as int, next_line as int);
        match token {
            Some(t) => {
                tokens.push(t);
                assert(tokens_view(tokens@) =~= before_tokens.push(t@));
            },
            None => {},
        }
        match error {
            Some(e) => {
                errors.push(e);
                assert(errors_view(errors@) =~= before_errors.push(e@));
            },
            None => {},
        }
        assert(tokens_view(tokens@) + after.0 =~= before_tokens + rest.0);
        assert(errors_view(errors@) + after.1 =~= before_errors + rest.1);
        pos = next;
        line = next_line;
    }
    let ghost before_tokens = tokens_view(tokens@);
    tokens.push(Token::new(TokenType::EOF, String::new(), None, line));
    assert(tokens_view(tokens@) =~= before_tokens.push(crate::grammar::eof_token(line as int)));
    assert(errors_view(errors@) =~= errors_view(errors@) + Seq::<ErrorView>::empty());
    (tokens, errors)
}

/// A scanner over one source text.
pub struct Scanner {
    source: String,
}

impl View for Scanner {
    type V = Seq<char>;

    closed spec fn view(&self) -> Seq<char> {
        self.source@
    }
}

impl Scanner {
    /// A scanner that owns `source`.
    pub fn new(source: String) -> (r: Scanner)
        ensures
            r@ == source@,
    {
        Scanner { source }
    }

    /// Scans the source into tokens.
    ///
    /// With no lexical error the result is `Ok` with the tokens, which end
    /// with the end-of-input token. Otherwise it is `Err`, with every error in
    /// source order and, beside them, the tokens that were still produced.
    /// The source must be shorter than `usize::MAX` characters, so that the
    /// line counter fits in a `usize`.
    pub fn scan_tokens(&self) -> (r: Result<Vec<Token>, LoxError>)
        requires
            self@.len() < usize::MAX,
        ensures
            match r {
                Ok(tokens) => {
                    &&& scan_spec(self@).1.len() == 0
                    &&& tokens_view(tokens@) == scan_spec(self@).0
                },
                Err(e) => {
                    &&& scan_spec(self@).1.len() > 0
                    &&& errors_view(e.errors@) == scan_spec(self@).1
                    &&& tokens_view(e.tokens@) == scan_spec(self@).0
                },
            },
    {
        let src = chars_of(self.source.as_str());
        let (tokens, errors) = scan_chars(&src);
        if errors.len() == 0 {
            Ok(tokens)
        } else {
            Err(LoxError { errors, tokens })
        }
    }

    /// Whether `c` may begin an identifier: an ASCII letter or `_`.
    pub fn is_alpha(c: char) -> (r: bool)
        ensures
            r == is_alpha_char(c),
    {
        ('a' <= c && c <= 'z') || ('A' <= c && c <= 'Z') || c == '_'
    }

    /// Whether `c` may continue an identifier: an ASCII letter, digit or `_`.
    pub fn is_alpha_numeric(c: char) -> (r: bool)
        ensures
            r == is_alpha_numeric_char(c),
    {
        Self::is_alpha(c) || Self::is_digit(c)
    }

    /// Whether `c` is an ASCII decimal digit.
    pub fn is_digit(c: char) -> (r: bool)
        ensures
            r == is_digit_char(c),
    {
        '0' <= c && c <= '9'
    }
}

} // verus!
