use crate::common::text::owned;
use crate::common::token::{signed_decimal, signed_text, Token};
use crate::scanner::Scanner;
use vstd::prelude::*;
use vstd::string::{StrSliceExecFns, StringExecFns};


verus! {

/// A diagnostic. `line_index` and `column` are -1 when the diagnostic
/// belongs to no place in the source.
#[derive(Debug, Eq, PartialEq)]
pub struct Error {
    pub line_index: i32,
    pub line_string: String,
    pub column: i32,
    pub msg: String,
}

pub struct ErrorView {
    pub line_index: int,
    pub line_string: Seq<char>,
    pub column: int,
    pub msg: Seq<char>,
}

impl View for Error {
    type V = ErrorView;

    open spec fn view(&self) -> ErrorView {
        ErrorView {
            line_index: self.line_index as int,
            line_string: self.line_string@,
            column: self.column as int,
            msg: self.msg@,
        }
    }
}

impl Clone for Error {
    fn clone(&self) -> (r: Self)
        ensures
            r == *self,
    {
        Error {
            line_index: self.line_index,
            line_string: self.line_string.clone(),
            column: self.column,
            msg: self.msg.clone(),
        }
    }
}

/// The views of a sequence of errors, in order.
pub open spec fn error_views(errors: Seq<Error>) -> Seq<ErrorView> {
    errors.map_values(|e: Error| e@)
}

impl ErrorView {
    /// The diagnostic with message `msg` at the place of token `t`.
    pub open spec fn at(t: crate::common::token::TokenView, msg: Seq<char>) -> ErrorView {
        ErrorView { line_index: t.line_index, line_string: t.line_string, column: t.column, msg }
    }

    /// A diagnostic that belongs to no place in the source.
    pub open spec fn nowhere(msg: Seq<char>) -> ErrorView {
        ErrorView { line_index: -1, line_string: Seq::empty(), column: -1, msg }
    }

    pub open spec fn missing_entrypoint() -> ErrorView {
        ErrorView::nowhere("Can't find main() entrypoint to program."@)
    }

    /// Number of blanks in front of the caret.
    pub open spec fn caret_indent(self) -> nat {
        let n = self.column + signed_decimal(self.line_index).len() - 1;
        if n > 0 {
            n as nat
        } else {
            0
        }
    }

    /// The diagnostic as it is shown: the message and, if the diagnostic
    /// has a place, the source line with a caret under the column.
    pub open spec fn rendered(self) -> Seq<char> {
        let head = "Error: "@ + self.msg + "\n"@;
        if self.line_index == -1 {
            head
        } else {
            head + "|\n"@ + signed_decimal(self.line_index) + " "@ + self.line_string + "\n"@
                + "|"@ + Seq::new(self.caret_indent(), |i: int| ' ') + "^\n"@
        }
    }
}

impl Error {
    pub fn new(t: &Token, msg: &str) -> (r: Self)
        ensures
            r@ == ErrorView::at(t@, msg@),
    {
        Error {
            line_index: t.line_index,
            line_string: t.line_string.clone(),
            column: t.column,
            msg: owned(msg),
        }
    }

    /// The diagnostic with message `msg` at the place of token `t`.
    pub fn with_message(t: &Token, msg: String) -> (r: Self)
        ensures
            r@ == ErrorView::at(t@, msg@),
    {
        Error {
            line_index: t.line_index,
            line_string: t.line_string.clone(),
            column: t.column,
            msg,
        }
    }

    /// A diagnostic with message `msg` that belongs to no place in the
    /// source.
    pub fn nowhere_message(msg: String) -> (r: Self)
        ensures
            r@ == ErrorView::nowhere(msg@),
    {
        Error { line_index: -1, line_string: String::new(), column: -1, msg }
    }

    /// A diagnostic that belongs to no place in the source.
    pub fn nowhere(msg: &str) -> (r: Self)
        ensures
            r@ == ErrorView::nowhere(msg@),
    {
        Error { line_index: -1, line_string: String::new(), column: -1, msg: owned(msg) }
    }

    /// The diagnostic with message `msg` at the place where `scanner` stands.
    pub fn new_scan_error(scanner: &Scanner, msg: &str) -> (r: Self)
        requires
            1 <= scanner.line <= scanner.raw_source.len(),
        ensures
            r@ == (ErrorView {
                line_index: scanner@.at.line,
                line_string: scanner@.lines[scanner@.at.line - 1],
                column: scanner@.at.column,
                msg: msg@,
            }),
    {
        Error {
            line_index: scanner.line,
            line_string: scanner.raw_source[(scanner.line - 1) as usize].clone(),
            column: scanner.column,
            msg: owned(msg),
        }
    }

    pub fn missing_entrypoint() -> (r: Self)
        ensures
            r@ == ErrorView::missing_entrypoint(),
    {
        Error::nowhere("Can't find main() entrypoint to program.")
    }

    /// The text that shows the diagnostic.
    pub fn render(&self) -> (r: String)
        ensures
            r@ == self@.rendered(),
    {
        let mut out = owned("Error: ");
        out.append(self.msg.as_str());
        out.append("\n");
        if self.line_index != -1 {
            out.append("|\n");
            let number = signed_text(self.line_index as i64);
            let width: usize = number.as_str().unicode_len();
            out.append(number.as_str());
            out.append(" ");
            out.append(self.line_string.as_str());
            out.append("\n");
            out.append("|");
            let ghost frame = out@;
            let total: i128 = self.column as i128 + width as i128 - 1;
            let mut i: i128 = 0;
            while i < total
                invariant
                    0 <= i,
                    i <= total || total < 0,
                    total < 0 ==> i == 0,
                    out@ == frame + Seq::new(i as nat, |k: int| ' '),
                decreases total - i,
            {
                out.push(' ');
                i = i + 1;
                assert(out@ =~= frame + Seq::new(i as nat, |k: int| ' '));
            }
            assert(i as nat == self@.caret_indent());
            out.append("^\n");
        }
        out
    }
}

} // verus!
