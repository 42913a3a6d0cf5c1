//! A front-end parser for a small declarative language of parametric
//! function definitions. Source text is parsed into an abstract syntax tree;
//! a failed parse yields a diagnostic trace of what the parser was
//! attempting at each nesting level, innermost attempt first.
//!
//! The grammar's meaning is the spec-level parser in [`grammar`]; every
//! executable production is proved to return exactly what that parser says.
use vstd::prelude::*;

pub mod ast;
pub mod displayable_error;
pub mod grammar;
pub mod input;
pub mod laws;
pub mod parser;
pub mod semantics;
pub mod unicode;

pub use ast::AbstractSyntaxTree;

use displayable_error::{ContextLabel, ErrorLabel};
use input::Input;
use parser::ParseResult;

verus! {

/// Parse a whole source text.
///
/// On success, returns the cursor after the parse — always at the end of the
/// source, since a program consumes everything — and the AST: exactly the
/// program that [`grammar::spec_parse`] gives the text. On failure, returns
/// the trace of all productions that were attempting to parse when the
/// deepest one failed, ordered deepest first, ending at the program root.
pub fn parse(source_code: &str) -> (r: ParseResult<AbstractSyntaxTree>)
    ensures
        match r {
            Ok(t) => {
                &&& grammar::spec_parse(source_code@) == Some(t.1@)
                &&& t.0.offset == source_code@.len()
                &&& t.0.wf(source_code@)
                &&& forall|j: int|
                    0 <= j < t.1.functions@.len() ==> (
                    #[trigger] t.1.functions@[j]).fn_name.pos.wf(source_code@)
            },
            Err(e) => {
                &&& grammar::spec_parse(source_code@) is None
                &&& e@.len() >= 1
                &&& e@.last().label == ErrorLabel::Context(ContextLabel::ProgramRoot)
                &&& e@.last().pos.offset == 0
                &&& displayable_error::trace_wf(e@, source_code@)
            },
        },
{
    let chars = unicode::chars_of(source_code);
    let start = Input::new();
    AbstractSyntaxTree::parse(&chars, start)
}

} // verus!
