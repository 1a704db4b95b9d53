//! Diagnostics: what went wrong, on which line, and how it is shown.

use crate::runtime::Object;
use crate::text::{decimal, decimal_string};
use colored::Colorize;
use vstd::prelude::*;

verus! {

/// The two families of diagnostics.
#[derive(Clone, Copy, Debug, PartialEq, Eq, Structural)]
pub enum ErrorKind {
    /// Found while scanning or parsing.
    Syntax,
    /// Found while evaluating.
    Runtime,
}

/// One diagnostic: its family, the source line that it is attached to, and
/// its message.
#[derive(Debug)]
pub struct Diagnostic {
    pub kind: ErrorKind,
    pub line: usize,
    pub message: String,
}

/// A diagnostic as a mathematical value.
pub struct DiagnosticView {
    pub kind: ErrorKind,
    pub line: nat,
    pub message: Seq<char>,
}

impl View for Diagnostic {
    type V = DiagnosticView;

    open spec fn view(&self) -> DiagnosticView {
        DiagnosticView { kind: self.kind, line: self.line as nat, message: self.message@ }
    }
}

impl Clone for Diagnostic {
    fn clone(&self) -> (r: Self)
        ensures
            r@ == self@,
    {
        Diagnostic { kind: self.kind, line: self.line, message: self.message.clone() }
    }
}

/// The views of a list of diagnostics, in order.
pub open spec fn diagnostics_view(ds: Seq<Diagnostic>) -> Seq<DiagnosticView> {
    ds.map_values(|d: Diagnostic| d@)
}

/// The tag that names a family.
pub open spec fn tag_text(kind: ErrorKind) -> Seq<char> {
    match kind {
        ErrorKind::Syntax => "SyntaxError"@,
        ErrorKind::Runtime => "RuntimeError"@,
    }
}

/// `text` between the terminal's escape sequences for bold red and for reset.
pub open spec fn bold_red_text(text: Seq<char>) -> Seq<char> {
    "\x1B[1;31m"@ + text + "\x1B[0m"@
}

/// The line shown for a diagnostic whose tag is already styled:
/// a line break, the tag, the line number in brackets, the message and a full stop.
pub open spec fn diagnostic_text(tag: Seq<char>, line: nat, message: Seq<char>) -> Seq<char> {
    "\n"@ + tag + " [line "@ + decimal(line) + "]: "@ + message + "."@
}

/// Whether `shown` is how a diagnostic of this family, line and message may be shown:
/// with a plain tag, or with the tag in bold red.
pub open spec fn shows(shown: Seq<char>, kind: ErrorKind, line: nat, message: Seq<char>) -> bool {
    ||| shown == diagnostic_text(tag_text(kind), line, message)
    ||| shown == diagnostic_text(bold_red_text(tag_text(kind)), line, message)
}

/// Calls `colored`'s `bold` and `red` on `text` and renders the result.
///
/// `colored` decides from the process environment whether to colour at all, so
/// either outcome is possible: the text unchanged, or the text between the
/// escape sequence for bold red and the reset sequence. A text that holds an
/// escape character is left out, since `colored` rewrites reset sequences
/// found inside its input.
#[verifier::external_body]
fn bold_red(text: &str) -> (r: String)
    requires
        !text@.contains('\x1B'),
    ensures
        r@ == text@ || r@ == bold_red_text(text@),
{
    text.bold().red().to_string()
}

/// Builds the shown line of a diagnostic from a tag that is already styled.
pub fn format_diagnostic(tag: &str, line: usize, message: &str) -> (r: String)
    ensures
        r@ == diagnostic_text(tag@, line as nat, message@),
{
    let mut out = String::from_str("\n");
    out.append(tag);
    out.append(" [line ");
    let number = decimal_string(line);
    out.append(number.as_str());
    out.append("]: ");
    out.append(message);
    out.append(".");
    assert(out@ =~= diagnostic_text(tag@, line as nat, message@));
    out
}

fn tag_of(kind: ErrorKind) -> (r: &'static str)
    ensures
        r@ == tag_text(kind),
        !r@.contains('\x1B'),
{
    proof {
        reveal_strlit("SyntaxError");
        reveal_strlit("RuntimeError");
    }
    match kind {
        ErrorKind::Syntax => "SyntaxError",
        ErrorKind::Runtime => "RuntimeError",
    }
}

/// Shows a diagnostic of the given family.
pub fn show(kind: ErrorKind, line: usize, message: &str) -> (r: String)
    ensures
        shows(r@, kind, line as nat, message@),
{
    let tag = bold_red(tag_of(kind));
    format_diagnostic(tag.as_str(), line, message)
}

/// Shows a diagnostic of the syntax family.
pub fn syntax_error(line: &usize, msg: &str) -> (r: String)
    ensures
        shows(r@, ErrorKind::Syntax, *line as nat, msg@),
{
    show(ErrorKind::Syntax, *line, msg)
}

/// Shows a diagnostic of the runtime family.
pub fn runtime_error(line: &usize, msg: &str) -> (r: String)
    ensures
        shows(r@, ErrorKind::Runtime, *line as nat, msg@),
{
    show(ErrorKind::Runtime, *line, msg)
}

impl Diagnostic {
    /// A diagnostic of the syntax family.
    pub fn syntax(line: usize, message: String) -> (r: Self)
        ensures
            r@ == (DiagnosticView { kind: ErrorKind::Syntax, line: line as nat, message: message@ }),
    {
        Diagnostic { kind: ErrorKind::Syntax, line, message }
    }

    /// A diagnostic of the runtime family.
    pub fn runtime(line: usize, message: String) -> (r: Self)
        ensures
            r@ == (DiagnosticView { kind: ErrorKind::Runtime, line: line as nat, message: message@ }),
    {
        Diagnostic { kind: ErrorKind::Runtime, line, message }
    }

    /// The line shown to the user for this diagnostic.
    pub fn to_string(&self) -> (r: String)
        ensures
            shows(r@, self.kind, self.line as nat, self.message@),
    {
        show(self.kind, self.line, self.message.as_str())
    }
}

/// What a `return` statement hands to the call that it ends: the value, if
/// the statement names one.
#[derive(Debug)]
pub struct Return {
    pub value: Option<Object>,
}

impl Return {
    /// What a `return` with this value hands over.
    pub fn new(value: Option<Object>) -> (r: Self)
        ensures
            r.value == value,
    {
        Self { value }
    }
}

} // verus!
