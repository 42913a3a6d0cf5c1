//! The grammar, stated mathematically.
//!
//! Each production is a spec function from the source sequence and a start
//! position to the position after the production together with the node's
//! view, or `None` where the production does not match there. These
//! functions are the single meaning of the language: every executable
//! production is proved to return exactly what its spec production says.
//!
//! Alternatives are tried in a fixed order; a failed alternative consumes
//! nothing (the following alternative is consulted at the same position).
//! Position arguments are guarded so that each production is total; the
//! guards hold on every reachable call, which the executable proofs show.
use vstd::prelude::*;

use crate::ast::{AssignView, ExprView, FnDefView, FnInvocationView, Operator, ParamView};
use crate::unicode::{is_letter, is_letter_or_digit};

verus! {

// ---------------------------------------------------------------------------
// Character classes and literal tokens
// ---------------------------------------------------------------------------

/// A decimal digit: a scalar value between `'0'` (48) and `'9'` (57).
pub open spec fn is_digit_char(c: char) -> bool {
    48 <= c as u32 && c as u32 <= 57
}

/// A scalar value that may appear in a numeral: a digit or an underscore.
pub open spec fn is_number_char(c: char) -> bool {
    is_digit_char(c) || c == '_'
}

/// Whitespace as the grammar knows it.
pub open spec fn is_space_char(c: char) -> bool {
    c == ' ' || c == '\t' || c == '\r' || c == '\n'
}

/// The reserved keyword `let`.
pub open spec fn kw_let() -> Seq<char> {
    seq!['l', 'e', 't']
}

/// The reserved keyword `in`.
pub open spec fn kw_in() -> Seq<char> {
    seq!['i', 'n']
}

/// The literal ` = ` between a name and what is bound to it.
pub open spec fn tag_eq() -> Seq<char> {
    seq![' ', '=', ' ']
}

/// The literal ` -> ` before a return type.
pub open spec fn tag_arrow() -> Seq<char> {
    seq![' ', '-', '>', ' ']
}

/// The literal ` =>` between a function header and its body.
pub open spec fn tag_fat_arrow() -> Seq<char> {
    seq![' ', '=', '>']
}

/// The literal `: ` between a parameter name and its type.
pub open spec fn tag_colon() -> Seq<char> {
    seq![':', ' ']
}

/// The literal `, ` between list elements.
pub open spec fn tag_comma() -> Seq<char> {
    seq![',', ' ']
}

/// A word that is identifier-shaped but cannot be used as a name.
pub open spec fn is_reserved_keyword(t: Seq<char>) -> bool {
    t == kw_let() || t == kw_in()
}

// ---------------------------------------------------------------------------
// Maximal runs of a character class
// ---------------------------------------------------------------------------

/// The end of the longest run of letters starting at `pos`.
pub open spec fn letter_run_end(s: Seq<char>, pos: int) -> int
    decreases s.len() - pos,
{
    if pos < 0 || pos >= s.len() {
        pos
    } else if is_letter(s[pos]) {
        letter_run_end(s, pos + 1)
    } else {
        pos
    }
}

/// The end of the longest run of letters-or-digits starting at `pos`.
pub open spec fn alnum_run_end(s: Seq<char>, pos: int) -> int
    decreases s.len() - pos,
{
    if pos < 0 || pos >= s.len() {
        pos
    } else if is_letter_or_digit(s[pos]) {
        alnum_run_end(s, pos + 1)
    } else {
        pos
    }
}

/// The end of the longest run of numeral characters starting at `pos`.
pub open spec fn number_run_end(s: Seq<char>, pos: int) -> int
    decreases s.len() - pos,
{
    if pos < 0 || pos >= s.len() {
        pos
    } else if is_number_char(s[pos]) {
        number_run_end(s, pos + 1)
    } else {
        pos
    }
}

/// The end of the longest run of whitespace starting at `pos`.
pub open spec fn space_run_end(s: Seq<char>, pos: int) -> int
    decreases s.len() - pos,
{
    if pos < 0 || pos >= s.len() {
        pos
    } else if is_space_char(s[pos]) {
        space_run_end(s, pos + 1)
    } else {
        pos
    }
}

pub proof fn lemma_letter_run_end(s: Seq<char>, pos: int)
    requires
        0 <= pos <= s.len(),
    ensures
        pos <= letter_run_end(s, pos) <= s.len(),
        forall|k: int| pos <= k < letter_run_end(s, pos) ==> is_letter(s[k]),
        letter_run_end(s, pos) < s.len() ==> !is_letter(s[letter_run_end(s, pos)]),
    decreases s.len() - pos,
{
    if pos < s.len() && is_letter(s[pos]) {
        lemma_letter_run_end(s, pos + 1);
    }
}

pub proof fn lemma_alnum_run_end(s: Seq<char>, pos: int)
    requires
        0 <= pos <= s.len(),
    ensures
        pos <= alnum_run_end(s, pos) <= s.len(),
        forall|k: int| pos <= k < alnum_run_end(s, pos) ==> is_letter_or_digit(s[k]),
        alnum_run_end(s, pos) < s.len() ==> !is_letter_or_digit(s[alnum_run_end(s, pos)]),
    decreases s.len() - pos,
{
    if pos < s.len() && is_letter_or_digit(s[pos]) {
        lemma_alnum_run_end(s, pos + 1);
    }
}

pub proof fn lemma_number_run_end(s: Seq<char>, pos: int)
    requires
        0 <= pos <= s.len(),
    ensures
        pos <= number_run_end(s, pos) <= s.len(),
        forall|k: int| pos <= k < number_run_end(s, pos) ==> is_number_char(s[k]),
        number_run_end(s, pos) < s.len() ==> !is_number_char(s[number_run_end(s, pos)]),
    decreases s.len() - pos,
{
    if pos < s.len() && is_number_char(s[pos]) {
        lemma_number_run_end(s, pos + 1);
    }
}

pub proof fn lemma_space_run_end(s: Seq<char>, pos: int)
    requires
        0 <= pos <= s.len(),
    ensures
        pos <= space_run_end(s, pos) <= s.len(),
        forall|k: int| pos <= k < space_run_end(s, pos) ==> is_space_char(s[k]),
        space_run_end(s, pos) < s.len() ==> !is_space_char(s[space_run_end(s, pos)]),
    decreases s.len() - pos,
{
    if pos < s.len() && is_space_char(s[pos]) {
        lemma_space_run_end(s, pos + 1);
    }
}

// ---------------------------------------------------------------------------
// Numerals
// ---------------------------------------------------------------------------

/// The value of one decimal digit.
pub open spec fn digit_val(c: char) -> int {
    c as u32 - 48
}

/// The digits of a numeral, with the underscores dropped.
pub open spec fn digits_of(t: Seq<char>) -> Seq<char>
    decreases t.len(),
{
    if t.len() == 0 {
        Seq::empty()
    } else if is_digit_char(t.last()) {
        digits_of(t.drop_last()).push(t.last())
    } else {
        digits_of(t.drop_last())
    }
}

/// The value of a digit string read in base ten.
pub open spec fn digits_val(ds: Seq<char>) -> int
    decreases ds.len(),
{
    if ds.len() == 0 {
        0
    } else {
        digits_val(ds.drop_last()) * 10 + digit_val(ds.last())
    }
}

// ---------------------------------------------------------------------------
// Single characters and literal tokens
// ---------------------------------------------------------------------------

/// One exact scalar value.
pub open spec fn spec_char(s: Seq<char>, pos: int, c: char) -> Option<int> {
    if 0 <= pos < s.len() && s[pos] == c {
        Some(pos + 1)
    } else {
        None
    }
}

/// One exact literal token.
pub open spec fn spec_tag(s: Seq<char>, pos: int, t: Seq<char>) -> Option<int> {
    if 0 <= pos && pos + t.len() <= s.len() && s.subrange(pos, pos + t.len()) == t {
        Some(pos + t.len())
    } else {
        None
    }
}

// ---------------------------------------------------------------------------
// Leaf productions
// ---------------------------------------------------------------------------

/// An identifier's raw shape: one or more letters, then zero or more
/// letters-or-digits, both runs maximal. Yields the combined text.
pub open spec fn spec_identifier_raw(s: Seq<char>, pos: int) -> Option<(int, Seq<char>)> {
    let e1 = letter_run_end(s, pos);
    if e1 == pos {
        None
    } else {
        let e2 = alnum_run_end(s, e1);
        Some((e2, s.subrange(pos, e2)))
    }
}

/// An identifier: the raw shape, refused when it spells a reserved keyword.
pub open spec fn spec_identifier(s: Seq<char>, pos: int) -> Option<(int, Seq<char>)> {
    match spec_identifier_raw(s, pos) {
        None => None,
        Some((p, t)) => if is_reserved_keyword(t) {
            None
        } else {
            Some((p, t))
        },
    }
}

/// A numeral: a maximal nonempty run of digits and underscores, read as an
/// unsigned 64-bit value of its digits. No digits at all, or a value beyond
/// `u64::MAX`, is a failure.
pub open spec fn spec_number(s: Seq<char>, pos: int) -> Option<(int, u64)> {
    let e = number_run_end(s, pos);
    if e == pos {
        None
    } else {
        let ds = digits_of(s.subrange(pos, e));
        if ds.len() == 0 {
            None
        } else if digits_val(ds) > u64::MAX {
            None
        } else {
            Some((e, digits_val(ds) as u64))
        }
    }
}

/// What operator a single scalar value denotes, if any.
pub open spec fn char_operator(c: char) -> Option<Operator> {
    if c == '+' {
        Some(Operator::Add)
    } else if c == '-' {
        Some(Operator::Sub)
    } else if c == '*' {
        Some(Operator::Mul)
    } else if c == '/' {
        Some(Operator::Div)
    } else {
        None
    }
}

/// An arithmetic operator: one scalar value out of `+ - * /`.
pub open spec fn spec_operator(s: Seq<char>, pos: int) -> Option<(int, Operator)> {
    if 0 <= pos < s.len() {
        match char_operator(s[pos]) {
            Some(op) => Some((pos + 1, op)),
            None => None,
        }
    } else {
        None
    }
}

/// A parameter: `name: Type`.
pub open spec fn spec_parameter(s: Seq<char>, pos: int) -> Option<(int, ParamView)> {
    match spec_identifier(s, pos) {
        None => None,
        Some((p1, n)) => match spec_tag(s, p1, tag_colon()) {
            None => None,
            Some(p2) => match spec_identifier(s, p2) {
                None => None,
                Some((p3, t)) => Some((p3, ParamView { name: n, kcl_type: t })),
            },
        },
    }
}

/// The comma-separated parameters after the first one. A separator whose
/// following parameter fails is left unconsumed.
pub open spec fn spec_param_more(s: Seq<char>, pos: int, acc: Seq<ParamView>) -> (int, Seq<
    ParamView,
>)
    decreases s.len() - pos,
{
    if !(0 <= pos <= s.len()) {
        (pos, acc)
    } else {
        match spec_tag(s, pos, tag_comma()) {
            None => (pos, acc),
            Some(p1) => match spec_parameter(s, p1) {
                None => (pos, acc),
                Some((p2, p)) => if !(p1 <= p2 <= s.len()) {
                    (pos, acc)
                } else {
                    spec_param_more(s, p2, acc.push(p))
                },
            },
        }
    }
}

/// A possibly empty comma-separated parameter list.
pub open spec fn spec_param_list(s: Seq<char>, pos: int) -> (int, Seq<ParamView>) {
    match spec_parameter(s, pos) {
        None => (pos, Seq::empty()),
        Some((p1, p)) => if !(pos < p1 <= s.len()) {
            (p1, seq![p])
        } else {
            spec_param_more(s, p1, seq![p])
        },
    }
}

// ---------------------------------------------------------------------------
// Expressions and everything above them
// ---------------------------------------------------------------------------

/// An expression. The alternatives are tried in this fixed order:
/// parenthesized arithmetic, numeral, let-in block, function invocation,
/// bare name. The first that matches decides.
pub open spec fn spec_expression(s: Seq<char>, pos: int) -> Option<(int, ExprView)>
    decreases s.len() - pos, 40int,
{
    if !(0 <= pos <= s.len()) {
        None
    } else {
        match spec_arithmetic(s, pos) {
            Some(r) => Some(r),
            None => match spec_number(s, pos) {
                Some((p, n)) => Some((p, ExprView::Number(n))),
                None => match spec_let_in(s, pos) {
                    Some(r) => Some(r),
                    None => match spec_invocation(s, pos) {
                        Some((p, inv)) => Some((p, ExprView::FnInvocation(inv))),
                        None => match spec_identifier(s, pos) {
                            Some((p, t)) => Some((p, ExprView::Name(t))),
                            None => None,
                        },
                    },
                },
            },
        }
    }
}

/// Parenthesized arithmetic: `(` expression ` ` operator ` ` expression `)`.
pub open spec fn spec_arithmetic(s: Seq<char>, pos: int) -> Option<(int, ExprView)>
    decreases s.len() - pos, 30int,
{
    match spec_char(s, pos, '(') {
        None => None,
        Some(p1) => match spec_expression(s, p1) {
            None => None,
            Some((p2, lhs)) => if !(p1 <= p2 <= s.len()) {
                None
            } else {
                match spec_char(s, p2, ' ') {
                    None => None,
                    Some(p3) => match spec_operator(s, p3) {
                        None => None,
                        Some((p4, op)) => match spec_char(s, p4, ' ') {
                            None => None,
                            Some(p5) => match spec_expression(s, p5) {
                                None => None,
                                Some((p6, rhs)) => match spec_char(s, p6, ')') {
                                    None => None,
                                    Some(p7) => Some(
                                        (
                                            p7,
                                            ExprView::Arithmetic {
                                                lhs: Box::new(lhs),
                                                op,
                                                rhs: Box::new(rhs),
                                            },
                                        ),
                                    ),
                                },
                            },
                        },
                    },
                }
            },
        },
    }
}

/// A let-in block: `let`, a newline, one or more binding lines, then
/// (whitespace) `in` (whitespace) and the body expression. Each binding line
/// is optional whitespace, an assignment, and a newline.
pub open spec fn spec_let_in(s: Seq<char>, pos: int) -> Option<(int, ExprView)>
    decreases s.len() - pos, 30int,
{
    match spec_tag(s, pos, kw_let()) {
        None => None,
        Some(p1) => match spec_char(s, p1, '\n') {
            None => None,
            Some(p2) => match spec_bindings(s, p2, Seq::empty()) {
                None => None,
                Some((p3, bs)) => if !(p2 <= p3 <= s.len()) {
                    None
                } else {
                    let p4 = space_run_end(s, p3);
                    if !(p3 <= p4 <= s.len()) {
                        None
                    } else {
                        match spec_tag(s, p4, kw_in()) {
                            None => None,
                            Some(p5) => {
                                let p6 = space_run_end(s, p5);
                                if !(pos < p6 <= s.len()) {
                                    None
                                } else {
                                    match spec_expression(s, p6) {
                                        None => None,
                                        Some((p7, body)) => Some(
                                            (
                                                p7,
                                                ExprView::LetIn {
                                                    bindings: bs,
                                                    body: Box::new(body),
                                                },
                                            ),
                                        ),
                                    }
                                }
                            },
                        }
                    }
                },
            },
        },
    }
}

/// One or more binding lines. A line is optional whitespace, an assignment,
/// and a newline; the first line that does not fit this shape ends the list,
/// consuming nothing of it. With no complete line at all the production
/// fails.
pub open spec fn spec_bindings(s: Seq<char>, pos: int, acc: Seq<AssignView>) -> Option<
    (int, Seq<AssignView>),
>
    decreases s.len() - pos, 50int,
{
    if !(0 <= pos <= s.len()) {
        None
    } else {
        let sp = space_run_end(s, pos);
        if !(pos <= sp <= s.len()) {
            None
        } else {
            match spec_assignment(s, sp) {
                None => if acc.len() == 0 {
                    None
                } else {
                    Some((pos, acc))
                },
                Some((p1, a)) => if !(sp < p1 <= s.len()) {
                    None
                } else {
                    match spec_char(s, p1, '\n') {
                        None => if acc.len() == 0 {
                            None
                        } else {
                            Some((pos, acc))
                        },
                        Some(p2) => spec_bindings(s, p2, acc.push(a)),
                    }
                },
            }
        }
    }
}

/// An assignment: identifier ` = ` expression.
pub open spec fn spec_assignment(s: Seq<char>, pos: int) -> Option<(int, AssignView)>
    decreases s.len() - pos, 45int,
{
    match spec_identifier(s, pos) {
        None => None,
        Some((p1, id)) => if !(pos < p1 <= s.len()) {
            None
        } else {
            match spec_tag(s, p1, tag_eq()) {
                None => None,
                Some(p2) => match spec_expression(s, p2) {
                    None => None,
                    Some((p3, v)) => Some((p3, AssignView { identifier: id, value: v })),
                },
            }
        },
    }
}

/// A function invocation: identifier `(` arguments `)`.
pub open spec fn spec_invocation(s: Seq<char>, pos: int) -> Option<(int, FnInvocationView)>
    decreases s.len() - pos, 20int,
{
    match spec_identifier(s, pos) {
        None => None,
        Some((p1, name)) => if !(pos < p1 <= s.len()) {
            None
        } else {
            match spec_char(s, p1, '(') {
                None => None,
                Some(p2) => {
                    let (p3, args) = spec_arg_list(s, p2);
                    if !(p2 <= p3 <= s.len()) {
                        None
                    } else {
                        match spec_char(s, p3, ')') {
                            None => None,
                            Some(p4) => Some((p4, FnInvocationView { fn_name: name, args })),
                        }
                    }
                },
            }
        },
    }
}

/// A possibly empty comma-separated argument list.
pub open spec fn spec_arg_list(s: Seq<char>, pos: int) -> (int, Seq<ExprView>)
    decreases s.len() - pos, 50int,
{
    if !(0 <= pos <= s.len()) {
        (pos, Seq::empty())
    } else {
        match spec_expression(s, pos) {
            None => (pos, Seq::empty()),
            Some((p1, e)) => if !(pos < p1 <= s.len()) {
                (p1, seq![e])
            } else {
                spec_arg_more(s, p1, seq![e])
            },
        }
    }
}

/// The comma-separated arguments after the first one. A separator whose
/// following argument fails is left unconsumed.
pub open spec fn spec_arg_more(s: Seq<char>, pos: int, acc: Seq<ExprView>) -> (int, Seq<ExprView>)
    decreases s.len() - pos, 50int,
{
    if !(0 <= pos <= s.len()) {
        (pos, acc)
    } else {
        match spec_tag(s, pos, tag_comma()) {
            None => (pos, acc),
            Some(p1) => match spec_expression(s, p1) {
                None => (pos, acc),
                Some((p2, e)) => if !(p1 <= p2 <= s.len()) {
                    (pos, acc)
                } else {
                    spec_arg_more(s, p2, acc.push(e))
                },
            },
        }
    }
}

/// A function definition:
/// name ` = ` `(` parameters ` -> ` return type `)` ` =>` whitespace body.
pub open spec fn spec_fndef(s: Seq<char>, pos: int) -> Option<(int, FnDefView)> {
    match spec_identifier(s, pos) {
        None => None,
        Some((p1, name)) => if !(pos < p1 <= s.len()) {
            None
        } else {
            match spec_tag(s, p1, tag_eq()) {
                None => None,
                Some(p2) => match spec_char(s, p2, '(') {
                    None => None,
                    Some(p3) => {
                        let (p4, params) = spec_param_list(s, p3);
                        if !(p3 <= p4 <= s.len()) {
                            None
                        } else {
                            match spec_tag(s, p4, tag_arrow()) {
                                None => None,
                                Some(p5) => match spec_identifier(s, p5) {
                                    None => None,
                                    Some((p6, ret)) => match spec_char(s, p6, ')') {
                                        None => None,
                                        Some(p7) => match spec_tag(s, p7, tag_fat_arrow()) {
                                            None => None,
                                            Some(p8) => {
                                                let p9 = space_run_end(s, p8);
                                                if !(pos < p9 <= s.len()) {
                                                    None
                                                } else {
                                                    match spec_expression(s, p9) {
                                                        None => None,
                                                        Some((p10, body)) => Some(
                                                            (
                                                                p10,
                                                                FnDefView {
                                                                    fn_name: name,
                                                                    params,
                                                                    return_type: ret,
                                                                    body,
                                                                },
                                                            ),
                                                        ),
                                                    }
                                                }
                                            },
                                        },
                                    },
                                },
                            }
                        }
                    },
                },
            }
        },
    }
}

/// A whole program: function definitions until one fails to match, which
/// must leave nothing behind — trailing text that no definition consumes is
/// a failure, never silently ignored. `acc` carries the definitions already
/// recognized.
pub open spec fn spec_program(s: Seq<char>, pos: int, acc: Seq<FnDefView>) -> Option<
    Seq<FnDefView>,
>
    decreases s.len() - pos,
{
    if !(0 <= pos <= s.len()) {
        None
    } else {
        match spec_fndef(s, pos) {
            None => if pos == s.len() {
                Some(acc)
            } else {
                None
            },
            Some((p1, d)) => if !(pos < p1 <= s.len()) {
                None
            } else {
                spec_program(s, p1, acc.push(d))
            },
        }
    }
}

/// What parsing a whole source means.
pub open spec fn spec_parse(s: Seq<char>) -> Option<Seq<FnDefView>> {
    spec_program(s, 0, Seq::empty())
}

} // verus!
