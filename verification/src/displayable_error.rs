//! The diagnostic trace a failed parse produces.
//!
//! Every production is wrapped with a label; when a production fails, its
//! label and the position where it was invoked are appended to the failure's
//! entry list. Because the innermost failure appends first, the list reads
//! innermost-first, like a call stack: the root cause on top, the grammar
//! root at the bottom. When an alternation fails as a whole, the trace kept
//! is that of the last alternative tried.
use vstd::prelude::*;

use crate::input::Input;

verus! {

/// The name of a production or token attempt, surfaced in diagnostics.
#[derive(Debug, Clone, Copy, PartialEq, Eq, Structural)]
pub enum ContextLabel {
    Letter,
    Number,
    EmptyNumeral,
    Overflow,
    ReservedKeyword,
    Identifier,
    Parameter,
    ParameterList,
    FunctionInvocation,
    Expression,
    Operator,
    Arithmetic,
    LetIn,
    Assignment,
    FunctionName,
    EqualsSign,
    TypeSignature,
    ReturnTypeArrow,
    FatArrow,
    FunctionBody,
    FunctionDefinition,
    UnparsedInput,
    ProgramRoot,
}

impl ContextLabel {
    /// The label's wording, for rendering a diagnostic row.
    pub open spec fn text_spec(self) -> Seq<char> {
        match self {
            ContextLabel::Letter => "letter"@,
            ContextLabel::Number => "number"@,
            ContextLabel::EmptyNumeral => "empty numeral"@,
            ContextLabel::Overflow => "numeric overflow"@,
            ContextLabel::ReservedKeyword => "reserved keyword"@,
            ContextLabel::Identifier => "identifier"@,
            ContextLabel::Parameter => "parameter"@,
            ContextLabel::ParameterList => "parameter list"@,
            ContextLabel::FunctionInvocation => "function invocation"@,
            ContextLabel::Expression => "expression"@,
            ContextLabel::Operator => "operator"@,
            ContextLabel::Arithmetic => "arithmetic"@,
            ContextLabel::LetIn => "let-in"@,
            ContextLabel::Assignment => "assignment"@,
            ContextLabel::FunctionName => "function name"@,
            ContextLabel::EqualsSign => "= between function name and definition"@,
            ContextLabel::TypeSignature => "type signature"@,
            ContextLabel::ReturnTypeArrow => "return type arrow ->"@,
            ContextLabel::FatArrow => "=> between function header and body"@,
            ContextLabel::FunctionBody => "function body"@,
            ContextLabel::FunctionDefinition => "function definition"@,
            ContextLabel::UnparsedInput => "remaining unparsed input"@,
            ContextLabel::ProgramRoot => "program root"@,
        }
    }

    /// The label's wording, for rendering a diagnostic row.
    pub fn text(&self) -> (r: &'static str)
        ensures
            r@ == self.text_spec(),
    {
        match self {
            ContextLabel::Letter => "letter",
            ContextLabel::Number => "number",
            ContextLabel::EmptyNumeral => "empty numeral",
            ContextLabel::Overflow => "numeric overflow",
            ContextLabel::ReservedKeyword => "reserved keyword",
            ContextLabel::Identifier => "identifier",
            ContextLabel::Parameter => "parameter",
            ContextLabel::ParameterList => "parameter list",
            ContextLabel::FunctionInvocation => "function invocation",
            ContextLabel::Expression => "expression",
            ContextLabel::Operator => "operator",
            ContextLabel::Arithmetic => "arithmetic",
            ContextLabel::LetIn => "let-in",
            ContextLabel::Assignment => "assignment",
            ContextLabel::FunctionName => "function name",
            ContextLabel::EqualsSign => "= between function name and definition",
            ContextLabel::TypeSignature => "type signature",
            ContextLabel::ReturnTypeArrow => "return type arrow ->",
            ContextLabel::FatArrow => "=> between function header and body",
            ContextLabel::FunctionBody => "function body",
            ContextLabel::FunctionDefinition => "function definition",
            ContextLabel::UnparsedInput => "remaining unparsed input",
            ContextLabel::ProgramRoot => "program root",
        }
    }
}

/// What one diagnostic entry says: a literal scalar value the parser
/// expected and did not find, or the name of the production it was
/// attempting.
#[derive(Debug, Clone, Copy, PartialEq, Eq, Structural)]
pub enum ErrorLabel {
    Char(char),
    Context(ContextLabel),
}

/// One row of the diagnostic trace: where the parser stood when the attempt
/// began, and what it was attempting there.
#[derive(Debug, Clone, Copy)]
pub struct DisplayableError {
    pub pos: Input,
    pub label: ErrorLabel,
}

impl DisplayableError {
    /// The entry's position lies within the source, with line and column
    /// consistent with its offset.
    pub open spec fn wf(self, s: Seq<char>) -> bool {
        self.pos.wf(s)
    }
}

/// Every entry of a trace is well-formed for the source.
pub open spec fn trace_wf(t: Seq<DisplayableError>, s: Seq<char>) -> bool {
    forall|j: int| 0 <= j < t.len() ==> #[trigger] t[j].wf(s)
}

/// The entry a context wrapper appends on failure.
pub open spec fn context_entry(i: Input, label: ContextLabel) -> DisplayableError {
    DisplayableError { pos: i, label: ErrorLabel::Context(label) }
}

/// Append a context label to a failing trace: the wrapped production was
/// invoked at `i` and carried `label`.
pub fn push_context(t: Vec<DisplayableError>, i: Input, label: ContextLabel) -> (r: Vec<
    DisplayableError,
>)
    ensures
        r@ == t@.push(context_entry(i, label)),
{
    let mut t = t;
    t.push(DisplayableError { pos: i, label: ErrorLabel::Context(label) });
    t
}

/// A fresh one-entry trace bearing a context label.
pub fn context_error(i: Input, label: ContextLabel) -> (r: Vec<DisplayableError>)
    ensures
        r@.len() == 1,
        r@[0] == context_entry(i, label),
{
    let mut t: Vec<DisplayableError> = Vec::new();
    t.push(DisplayableError { pos: i, label: ErrorLabel::Context(label) });
    t
}

/// A fresh one-entry trace: the scalar value `c` was expected at `i`.
pub fn char_error(i: Input, c: char) -> (r: Vec<DisplayableError>)
    ensures
        r@.len() == 1,
        r@[0] == (DisplayableError { pos: i, label: ErrorLabel::Char(c) }),
{
    let mut t: Vec<DisplayableError> = Vec::new();
    t.push(DisplayableError { pos: i, label: ErrorLabel::Char(c) });
    t
}

} // verus!
