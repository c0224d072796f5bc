use vstd::prelude::*;
use vstd::string::StringExecFns;

use crate::text::{append_decimal, decimal, push_char};
use crate::token::Token;

verus! {

/// What went wrong at one place of the source.
#[derive(Clone, Copy, Debug, PartialEq, Eq, Structural)]
pub enum ErrorKind {
    /// A character that begins no token and is not whitespace.
    UnrecognizedCharacter(char),
    /// A string literal whose closing quote never comes.
    UnterminatedString,
}

/// One lexical error, with the line it refers to.
///
/// For an unrecognized character that is the character's line; for an
/// unterminated string it is the line on which the string began.
#[derive(Clone, Copy, Debug, PartialEq, Eq, Structural)]
pub struct LoxTokenizationError {
    pub kind: ErrorKind,
    pub line: usize,
}

/// The mathematical value of a `LoxTokenizationError`.
pub struct ErrorView {
    pub kind: ErrorKind,
    pub line: int,
}

impl View for LoxTokenizationError {
    type V = ErrorView;

    open spec fn view(&self) -> ErrorView {
        ErrorView { kind: self.kind, line: self.line as int }
    }
}

/// The views of a sequence of errors, one for one.
pub open spec fn errors_view(es: Seq<LoxTokenizationError>) -> Seq<ErrorView> {
    es.map_values(|e: LoxTokenizationError| e@)
}

/// A scan that met at least one lexical error.
///
/// It keeps every error in source order, and beside them the tokens that
/// were still produced, for diagnostics.
#[derive(Clone, Debug)]
pub struct LoxError {
    pub errors: Vec<LoxTokenizationError>,
    pub tokens: Vec<Token>,
}

/// The report of one error: its line, then what went wrong.
pub open spec fn error_text(e: ErrorView) -> Seq<char> {
    "[line "@ + decimal(e.line as nat) + "] Error: "@ + match e.kind {
        ErrorKind::UnrecognizedCharacter(c) => "Unexpected character '"@ + seq![c] + "'."@,
        ErrorKind::UnterminatedString => "Unterminated string."@,
    }
}

/// The reports of several errors, one per line.
pub open spec fn errors_text(es: Seq<ErrorView>) -> Seq<char>
    decreases es.len(),
{
    if es.len() == 0 {
        Seq::empty()
    } else if es.len() == 1 {
        error_text(es[0])
    } else {
        errors_text(es.drop_last()) + "\n"@ + error_text(es.last())
    }
}

impl LoxTokenizationError {
    /// The report of this error, such as `[line 3] Error: Unterminated string.`
    pub fn message(&self) -> (r: String)
        ensures
            r@ == error_text(self@),
    {
        let mut r = "[line ".to_owned();
        append_decimal(&mut r, self.line);
        r.append("] Error: ");
        match self.kind {
            ErrorKind::UnrecognizedCharacter(c) => {
                r.append("Unexpected character '");
                push_char(&mut r, c);
                r.append("'.");
            },
            ErrorKind::UnterminatedString => {
                r.append("Unterminated string.");
            },
        }
        proof {
            assert(r@ =~= error_text(self@));
        }
        r
    }
}

impl LoxError {
    /// The reports of all the errors, one per line, in source order.
    pub fn message(&self) -> (r: String)
        ensures
            r@ == errors_text(errors_view(self.errors@)),
    {
        let mut r = String::new();
        let mut i: usize = 0;
        while i < self.errors.len()
            invariant
                i <= self.errors@.len(),
                r@ == errors_text(errors_view(self.errors@.take(i as int))),
            decreases self.errors@.len() - i,
        {
            let ghost before = r@;
            if i > 0 {
                r.append("\n");
            }
            let m = self.errors[i].message();
            r.append(m.as_str());
            proof {
                let es = errors_view(self.errors@.take(i + 1));
                assert(es.drop_last() =~= errors_view(self.errors@.take(i as int)));
                assert(es.last() == self.errors@[i as int]@);
                if i == 0 {
                    assert(es.len() == 1);
                    assert(r@ =~= error_text(es[0]));
                } else {
                    assert(r@ =~= before + "\n"@ + error_text(es.last()));
                }
            }
            i = i + 1;
        }
        assert(self.errors@.take(self.errors@.len() as int) =~= self.errors@);
        r
    }
}

} // verus!
