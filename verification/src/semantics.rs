//! What can be read off a successfully parsed program: the list of its
//! function definitions, each with the source range of its name.
use vstd::prelude::*;

use crate::ast::AbstractSyntaxTree;

verus! {

/// Where a name stands in the source: its 1-based starting line and column
/// (both counted in Unicode scalar values) and its length in scalar values.
#[derive(Debug)]
pub struct SourceRange {
    pub start_line: usize,
    pub start_column: usize,
    pub length: usize,
}

/// The scalar values of `v`, as a fresh owned vector.
fn clone_chars(v: &Vec<char>) -> (r: Vec<char>)
    ensures
        r@ == v@,
{
    let mut r: Vec<char> = Vec::new();
    let mut k: usize = 0;
    while k < v.len()
        invariant
            k <= v@.len(),
            r@ =~= v@.subrange(0, k as int),
        decreases v@.len() - k,
    {
        r.push(v[k]);
        proof {
            assert(r@ =~= v@.subrange(0, k + 1));
        }
        k = k + 1;
    }
    proof {
        assert(v@.subrange(0, v@.len() as int) =~= v@);
    }
    r
}

impl AbstractSyntaxTree {
    /// All functions in the file, in order: each function's name, and the
    /// source range where that name is found.
    pub fn all_functions(&self) -> (r: Vec<(Vec<char>, SourceRange)>)
        ensures
            r@.len() == self.functions@.len(),
            forall|j: int|
                0 <= j < r@.len() ==> {
                    &&& (#[trigger] r@[j]).0@ == self.functions@[j].fn_name.text@
                    &&& r@[j].1.start_line == self.functions@[j].fn_name.pos.line
                    &&& r@[j].1.start_column == self.functions@[j].fn_name.pos.column
                    &&& r@[j].1.length == self.functions@[j].fn_name.text@.len()
                },
    {
        let mut r: Vec<(Vec<char>, SourceRange)> = Vec::new();
        let mut j: usize = 0;
        while j < self.functions.len()
            invariant
                j <= self.functions@.len(),
                r@.len() == j,
                forall|k: int|
                    0 <= k < j ==> {
                        &&& (#[trigger] r@[k]).0@ == self.functions@[k].fn_name.text@
                        &&& r@[k].1.start_line == self.functions@[k].fn_name.pos.line
                        &&& r@[k].1.start_column == self.functions@[k].fn_name.pos.column
                        &&& r@[k].1.length == self.functions@[k].fn_name.text@.len()
                    },
            decreases self.functions@.len() - j,
        {
            let name = clone_chars(&self.functions[j].fn_name.text);
            let range = SourceRange {
                start_line: self.functions[j].fn_name.pos.line,
                start_column: self.functions[j].fn_name.pos.column,
                length: self.functions[j].fn_name.text.len(),
            };
            r.push((name, range));
            j = j + 1;
        }
        r
    }
}

} // verus!
