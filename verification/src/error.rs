//! Error kinds reserved for the lexing layer, and the textual rendering of
//! source locations. The lexer itself is total and never produces these;
//! unrecognized characters surface later as parser or validator
//! diagnostics.

use vstd::prelude::*;
use vstd::string::*;
use crate::lexer::{Span, SpanModel};
use crate::text::{dec_str, usize_to_string};

verus! {

/// Lexing failures. Kept for completeness of the error taxonomy: the lexer
/// is a total function, so none of these is ever raised by this crate.
#[derive(Debug)]
pub enum LexerError {
    UnexpectedCharacter { character: char, span: Span },
    UnterminatedString { span: Span },
    UnterminatedComment { span: Span },
    InvalidNumber { text: String, span: Span },
}

/// The rendering of a source location: `file:line:column`.
pub open spec fn location_str(s: SpanModel) -> Seq<char> {
    s.file + seq![':'] + dec_str(s.line) + seq![':'] + dec_str(s.column)
}

impl Span {
    /// Renders this location as `file:line:column`.
    pub fn location_string(&self) -> (r: String)
        ensures
            r@ == location_str(self@),
    {
        proof {
            reveal_strlit(":");
        }
        let mut r = self.file.clone();
        r.append(":");
        r.append(usize_to_string(self.line).as_str());
        r.append(":");
        r.append(usize_to_string(self.column).as_str());
        proof {
            assert(r@ =~= location_str(self@));
        }
        r
    }
}

} // verus!
