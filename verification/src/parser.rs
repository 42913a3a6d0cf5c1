//! Parse source text into its AST.
//!
//! Every production takes the source and a cursor and returns either the
//! cursor after the node together with the node, or a diagnostic trace. The
//! `ensures` of each production states an exact equivalence with the
//! corresponding spec production of `crate::grammar`: it succeeds if and
//! only if the spec production matches, and then returns exactly the spec
//! production's node and end position. A failed production never consumes
//! input: the caller's cursor is untouched and may be handed to the next
//! alternative.
use vstd::prelude::*;

use crate::ast::{
    assign_view, assigns_view_from, expr_view, exprs_view_from, invocation_view,
    lemma_assigns_view_push, lemma_exprs_view_push, lemma_fndefs_view_push,
    lemma_params_view_push, param_view, params_view_from, fndef_view, fndefs_view_from,
    AbstractSyntaxTree, Assignment, AssignView, Expression, ExprView, FnDef, FnDefView,
    FnInvocation, Identifier, Operator, Parameter, ParamView,
};
use crate::displayable_error::{
    char_error, context_entry, context_error, push_context, trace_wf, ContextLabel,
    DisplayableError, ErrorLabel,
};
use crate::grammar::{
    digit_val, digits_of, digits_val, is_digit_char, lemma_number_run_end, lemma_space_run_end,
    spec_arg_list, spec_arg_more, spec_arithmetic, spec_assignment, spec_bindings,
    spec_expression, spec_invocation, spec_let_in, spec_fndef, spec_param_list,
    spec_param_more, spec_parameter, spec_program,
    is_number_char, is_reserved_keyword, is_space_char, kw_in, kw_let, letter_run_end,
    alnum_run_end, number_run_end, space_run_end, spec_char, spec_identifier, spec_number,
    spec_identifier_raw, spec_operator, spec_tag, tag_arrow, tag_colon, tag_comma, tag_eq,
    tag_fat_arrow,
};
use crate::input::Input;
use crate::unicode::{char_is_letter, char_is_letter_or_digit};

verus! {

/// What a production yields: the cursor after the node and the node, or the
/// diagnostic trace of the failure, innermost entry first.
pub type ParseResult<T> = Result<(Input, T), Vec<DisplayableError>>;

/// Take source code as input and parse it into an AST node.
pub trait Parser: Sized {
    fn parse(src: &Vec<char>, i: Input) -> (r: ParseResult<Self>)
        requires
            i.wf(src@),
            src@.len() < usize::MAX,
        ensures
            r matches Ok(t) ==> t.0.wf(src@) && i.offset <= t.0.offset <= src@.len(),
    ;
}

// ---------------------------------------------------------------------------
// Small executable helpers
// ---------------------------------------------------------------------------

/// The scalar values of `src` from `from` (inclusive) to `to` (exclusive),
/// as an owned vector.
fn copy_range(src: &Vec<char>, from: usize, to: usize) -> (r: Vec<char>)
    requires
        from <= to <= src@.len(),
    ensures
        r@ == src@.subrange(from as int, to as int),
{
    let mut r: Vec<char> = Vec::new();
    let mut k: usize = from;
    while k < to
        invariant
            from <= k <= to <= src@.len(),
            r@ =~= src@.subrange(from as int, k as int),
        decreases to - k,
    {
        r.push(src[k]);
        proof {
            assert(r@ =~= src@.subrange(from as int, k + 1));
        }
        k = k + 1;
    }
    r
}

/// The end of the maximal run of letters starting at `from`.
fn scan_letters(src: &Vec<char>, from: usize) -> (r: usize)
    requires
        from <= src@.len(),
    ensures
        r == letter_run_end(src@, from as int),
        from <= r <= src@.len(),
    decreases src@.len() - from,
{
    if from < src.len() {
        let c = src[from];
        if char_is_letter(c) {
            return scan_letters(src, from + 1);
        }
    }
    from
}

/// The end of the maximal run of letters-or-digits starting at `from`.
fn scan_alnums(src: &Vec<char>, from: usize) -> (r: usize)
    requires
        from <= src@.len(),
    ensures
        r == alnum_run_end(src@, from as int),
        from <= r <= src@.len(),
    decreases src@.len() - from,
{
    if from < src.len() {
        let c = src[from];
        if char_is_letter_or_digit(c) {
            return scan_alnums(src, from + 1);
        }
    }
    from
}

/// Whether `c` may appear in a numeral.
fn is_number_char_exec(c: char) -> (r: bool)
    ensures
        r == is_number_char(c),
{
    let u = c as u32;
    (48 <= u && u <= 57) || c == '_'
}

/// The end of the maximal run of numeral characters starting at `from`.
fn scan_numbers(src: &Vec<char>, from: usize) -> (r: usize)
    requires
        from <= src@.len(),
    ensures
        r == number_run_end(src@, from as int),
        from <= r <= src@.len(),
    decreases src@.len() - from,
{
    if from < src.len() {
        let c = src[from];
        if is_number_char_exec(c) {
            return scan_numbers(src, from + 1);
        }
    }
    from
}

/// Whether `c` is whitespace to the grammar.
fn is_space_char_exec(c: char) -> (r: bool)
    ensures
        r == is_space_char(c),
{
    c == ' ' || c == '\t' || c == '\r' || c == '\n'
}

/// The end of the maximal run of whitespace starting at `from`.
fn scan_spaces(src: &Vec<char>, from: usize) -> (r: usize)
    requires
        from <= src@.len(),
    ensures
        r == space_run_end(src@, from as int),
        from <= r <= src@.len(),
    decreases src@.len() - from,
{
    if from < src.len() {
        let c = src[from];
        if is_space_char_exec(c) {
            return scan_spaces(src, from + 1);
        }
    }
    from
}

/// One exact scalar value, as `spec_char` has it. On failure the trace holds
/// the one entry: `c` was expected at `i`.
fn expect_char(src: &Vec<char>, i: Input, c: char) -> (r: Result<Input, Vec<DisplayableError>>)
    requires
        i.wf(src@),
        src@.len() < usize::MAX,
    ensures
        match r {
            Ok(i2) => {
                &&& spec_char(src@, i.offset as int, c) == Some(i2.offset as int)
                &&& i2.wf(src@)
                &&& i2.offset == i.offset + 1
            },
            Err(t) => {
                &&& spec_char(src@, i.offset as int, c) is None
                &&& t@.len() == 1
                &&& t@[0] == (DisplayableError { pos: i, label: ErrorLabel::Char(c) })
                &&& trace_wf(t@, src@)
            },
        },
{
    if i.offset < src.len() {
        let g = src[i.offset];
        if g == c {
            return Ok(i.advance(src, 1));
        }
    }
    Err(char_error(i, c))
}

/// One exact literal token, as `spec_tag` has it. On failure the trace holds
/// one entry: the first scalar value of the token that did not match, at its
/// own position.
fn expect_tag(src: &Vec<char>, i: Input, tag: &Vec<char>) -> (r: Result<
    Input,
    Vec<DisplayableError>,
>)
    requires
        i.wf(src@),
        src@.len() < usize::MAX,
    ensures
        match r {
            Ok(i2) => {
                &&& spec_tag(src@, i.offset as int, tag@) == Some(i2.offset as int)
                &&& i2.wf(src@)
                &&& i2.offset == i.offset + tag@.len()
            },
            Err(t) => {
                &&& spec_tag(src@, i.offset as int, tag@) is None
                &&& t@.len() == 1
                &&& t@[0].label matches ErrorLabel::Char(_)
                &&& trace_wf(t@, src@)
            },
        },
{
    let ghost s = src@;
    let ghost pos = i.offset as int;
    let mut k: usize = 0;
    while k < tag.len()
        invariant
            i.wf(src@),
            src@.len() < usize::MAX,
            k <= tag@.len(),
            i.offset + k <= src@.len(),
            forall|j: int| 0 <= j < k ==> s[pos + j] == tag@[j],
            s == src@,
            pos == i.offset as int,
        decreases tag@.len() - k,
    {
        if i.offset + k >= src.len() {
            proof {
                assert(pos + tag@.len() > s.len());
            }
            return Err(char_error(i.advance(src, k), tag[k]));
        }
        let c = src[i.offset + k];
        if c != tag[k] {
            proof {
                if pos + tag@.len() <= s.len() {
                    assert(s.subrange(pos, pos + tag@.len())[k as int] == s[pos + k]);
                    assert(s.subrange(pos, pos + tag@.len()) != tag@);
                }
            }
            return Err(char_error(i.advance(src, k), tag[k]));
        }
        k = k + 1;
    }
    proof {
        assert(s.subrange(pos, pos + tag@.len()) =~= tag@);
    }
    Ok(i.advance(src, tag.len()))
}

// ---------------------------------------------------------------------------
// Literal tokens of the grammar, as runtime values
// ---------------------------------------------------------------------------

/// The token ` = `.
fn lit_eq() -> (r: Vec<char>)
    ensures
        r@ == tag_eq(),
{
    let t = vec![' ', '=', ' '];
    proof {
        assert(t@ =~= tag_eq());
    }
    t
}

/// The token ` -> `.
fn lit_arrow() -> (r: Vec<char>)
    ensures
        r@ == tag_arrow(),
{
    let t = vec![' ', '-', '>', ' '];
    proof {
        assert(t@ =~= tag_arrow());
    }
    t
}

/// The token ` =>`.
fn lit_fat_arrow() -> (r: Vec<char>)
    ensures
        r@ == tag_fat_arrow(),
{
    let t = vec![' ', '=', '>'];
    proof {
        assert(t@ =~= tag_fat_arrow());
    }
    t
}

/// The token `: `.
fn lit_colon() -> (r: Vec<char>)
    ensures
        r@ == tag_colon(),
{
    let t = vec![':', ' '];
    proof {
        assert(t@ =~= tag_colon());
    }
    t
}

/// The token `, `.
fn lit_comma() -> (r: Vec<char>)
    ensures
        r@ == tag_comma(),
{
    let t = vec![',', ' '];
    proof {
        assert(t@ =~= tag_comma());
    }
    t
}

/// The keyword `let`.
fn lit_let() -> (r: Vec<char>)
    ensures
        r@ == kw_let(),
{
    let t = vec!['l', 'e', 't'];
    proof {
        assert(t@ =~= kw_let());
    }
    t
}

/// The keyword `in`.
fn lit_in() -> (r: Vec<char>)
    ensures
        r@ == kw_in(),
{
    let t = vec!['i', 'n'];
    proof {
        assert(t@ =~= kw_in());
    }
    t
}

/// Whether `text` spells a reserved keyword.
fn is_reserved(text: &Vec<char>) -> (r: bool)
    ensures
        r == is_reserved_keyword(text@),
{
    proof {
        assert(kw_let().len() == 3 && kw_let()[0] == 'l' && kw_let()[1] == 'e' && kw_let()[2]
            == 't');
        assert(kw_in().len() == 2 && kw_in()[0] == 'i' && kw_in()[1] == 'n');
    }
    if text.len() == 3 && text[0] == 'l' && text[1] == 'e' && text[2] == 't' {
        proof {
            assert(text@ =~= kw_let());
        }
        true
    } else if text.len() == 2 && text[0] == 'i' && text[1] == 'n' {
        proof {
            assert(text@ =~= kw_in());
        }
        true
    } else {
        proof {
            if text@ == kw_let() {
                assert(text@.len() == 3 && text@[0] == 'l' && text@[1] == 'e' && text@[2] == 't');
            }
            if text@ == kw_in() {
                assert(text@.len() == 2 && text@[0] == 'i' && text@[1] == 'n');
            }
        }
        false
    }
}

// ---------------------------------------------------------------------------
// Identifiers
// ---------------------------------------------------------------------------

impl Identifier {
    /// Like identifier parsing except that it does not refuse the reserved
    /// keywords: one or more letters, then zero or more letters-or-digits.
    /// The identifier's position is the cursor where it begins.
    pub fn parse_maybe_reserved(src: &Vec<char>, i: Input) -> (r: ParseResult<Identifier>)
        requires
            i.wf(src@),
            src@.len() < usize::MAX,
        ensures
            match r {
                Ok(t) => {
                    &&& spec_identifier_raw(src@, i.offset as int) == Some(
                        (t.0.offset as int, t.1@),
                    )
                    &&& t.0.wf(src@)
                    &&& i.offset < t.0.offset <= src@.len()
                    &&& t.1.pos == i
                },
                Err(e) => {
                    &&& spec_identifier_raw(src@, i.offset as int) is None
                    &&& e@.len() == 1
                    &&& e@[0] == context_entry(i, ContextLabel::Letter)
                    &&& trace_wf(e@, src@)
                },
            },
    {
        let e1 = scan_letters(src, i.offset);
        if e1 == i.offset {
            Err(context_error(i, ContextLabel::Letter))
        } else {
            let e2 = scan_alnums(src, e1);
            let text = copy_range(src, i.offset, e2);
            let i2 = i.advance(src, e2 - i.offset);
            Ok((i2, Identifier { text, pos: i }))
        }
    }

    /// An identifier: the raw shape, refused with a reserved-keyword
    /// diagnostic when it spells `let` or `in`.
    pub fn parse(src: &Vec<char>, i: Input) -> (r: ParseResult<Identifier>)
        requires
            i.wf(src@),
            src@.len() < usize::MAX,
        ensures
            match r {
                Ok(t) => {
                    &&& spec_identifier(src@, i.offset as int) == Some((t.0.offset as int, t.1@))
                    &&& t.0.wf(src@)
                    &&& i.offset < t.0.offset <= src@.len()
                    &&& t.1.pos == i
                },
                Err(e) => {
                    &&& spec_identifier(src@, i.offset as int) is None
                    &&& e@.len() >= 1
                    &&& e@.last() == context_entry(i, ContextLabel::Identifier)
                    &&& trace_wf(e@, src@)
                },
            },
    {
        match Self::parse_maybe_reserved(src, i) {
            Err(e) => Err(push_context(e, i, ContextLabel::Identifier)),
            Ok((i2, id)) => {
                if is_reserved(&id.text) {
                    let e = context_error(i, ContextLabel::ReservedKeyword);
                    Err(push_context(e, i, ContextLabel::Identifier))
                } else {
                    Ok((i2, id))
                }
            },
        }
    }
}

// ---------------------------------------------------------------------------
// Operators
// ---------------------------------------------------------------------------

impl Operator {
    /// A single scalar value out of `+ - * /`. On failure the trace reads as
    /// the alternation left it: the last alternative's expectation, then the
    /// operator context.
    pub fn parse(src: &Vec<char>, i: Input) -> (r: ParseResult<Operator>)
        requires
            i.wf(src@),
            src@.len() < usize::MAX,
        ensures
            match r {
                Ok(t) => {
                    &&& spec_operator(src@, i.offset as int) == Some((t.0.offset as int, t.1))
                    &&& t.0.wf(src@)
                    &&& t.0.offset == i.offset + 1
                },
                Err(e) => {
                    &&& spec_operator(src@, i.offset as int) is None
                    &&& e@.len() >= 1
                    &&& e@.last() == context_entry(i, ContextLabel::Operator)
                    &&& trace_wf(e@, src@)
                },
            },
    {
        if i.offset < src.len() {
            let c = src[i.offset];
            if c == '+' {
                return Ok((i.advance(src, 1), Operator::Add));
            }
            if c == '-' {
                return Ok((i.advance(src, 1), Operator::Sub));
            }
            if c == '*' {
                return Ok((i.advance(src, 1), Operator::Mul));
            }
            if c == '/' {
                return Ok((i.advance(src, 1), Operator::Div));
            }
        }
        let e = char_error(i, '/');
        Err(push_context(e, i, ContextLabel::Operator))
    }
}

// ---------------------------------------------------------------------------
// Numerals
// ---------------------------------------------------------------------------

impl Expression {
    /// A numeral: a maximal nonempty run of digits and underscores, its
    /// underscores ignored, read as an unsigned 64-bit value. A run with no
    /// digit at all, or a value beyond `u64::MAX`, is a failure whose trace
    /// says which of the two happened.
    pub fn parse_num(src: &Vec<char>, i: Input) -> (r: ParseResult<Expression>)
        requires
            i.wf(src@),
            src@.len() < usize::MAX,
        ensures
            match r {
                Ok(t) => {
                    &&& t.1 matches Expression::Number(n) && spec_number(
                        src@,
                        i.offset as int,
                    ) == Some((t.0.offset as int, n))
                    &&& t.0.wf(src@)
                    &&& i.offset < t.0.offset <= src@.len()
                },
                Err(e) => {
                    &&& spec_number(src@, i.offset as int) is None
                    &&& e@.len() >= 1
                    &&& e@.last() == context_entry(i, ContextLabel::Number)
                    &&& trace_wf(e@, src@)
                    &&& digits_val(
                        digits_of(
                            src@.subrange(
                                i.offset as int,
                                number_run_end(src@, i.offset as int),
                            ),
                        ),
                    ) > u64::MAX ==> e@[0] == context_entry(i, ContextLabel::Overflow)
                },
            },
    {
        let pos = i.offset;
        let e_run = scan_numbers(src, pos);
        proof {
            lemma_number_run_end(src@, pos as int);
        }
        if e_run == pos {
            proof {
                assert(src@.subrange(pos as int, pos as int) =~= Seq::<char>::empty());
            }
            return Err(context_error(i, ContextLabel::Number));
        }
        let mut val: u64 = 0;
        let mut any = false;
        let mut ok = true;
        let mut k = pos;
        while k < e_run
            invariant
                pos <= k <= e_run <= src@.len(),
                ({
                    let ds = digits_of(src@.subrange(pos as int, k as int));
                    &&& any == (ds.len() > 0)
                    &&& ok ==> val == digits_val(ds)
                    &&& !ok ==> digits_val(ds) > u64::MAX
                    &&& digits_val(ds) >= 0
                }),
            decreases e_run - k,
        {
            let ghost ds_k = digits_of(src@.subrange(pos as int, k as int));
            proof {
                assert(src@.subrange(pos as int, k + 1) =~= src@.subrange(
                    pos as int,
                    k as int,
                ).push(src@[k as int]));
            }
            let c = src[k];
            let u = c as u32;
            if 48 <= u && u <= 57 {
                let d: u64 = (u - 48) as u64;
                proof {
                    assert(is_digit_char(c));
                    assert(digit_val(c) == d as int);
                    assert(src@.subrange(pos as int, k + 1).drop_last() =~= src@.subrange(
                        pos as int,
                        k as int,
                    ));
                    assert(digits_of(src@.subrange(pos as int, k + 1)) == ds_k.push(c));
                    assert(ds_k.push(c).drop_last() =~= ds_k);
                    assert(digits_val(ds_k.push(c)) == digits_val(ds_k) * 10 + d);
                }
                any = true;
                if ok {
                    let limit = (u64::MAX - d) / 10;
                    proof {
                        vstd::arithmetic::div_mod::lemma_fundamental_div_mod(
                            (u64::MAX - d) as int,
                            10,
                        );
                        vstd::arithmetic::div_mod::lemma_mod_bound((u64::MAX - d) as int, 10);
                    }
                    if val <= limit {
                        val = val * 10 + d;
                    } else {
                        ok = false;
                    }
                }
            } else {
                proof {
                    assert(!is_digit_char(c));
                    assert(src@.subrange(pos as int, k + 1).drop_last() =~= src@.subrange(
                        pos as int,
                        k as int,
                    ));
                    assert(digits_of(src@.subrange(pos as int, k + 1)) == ds_k);
                }
            }
            k = k + 1;
        }
        if !any {
            let e = context_error(i, ContextLabel::EmptyNumeral);
            return Err(push_context(e, i, ContextLabel::Number));
        }
        if !ok {
            let e = context_error(i, ContextLabel::Overflow);
            return Err(push_context(e, i, ContextLabel::Number));
        }
        let i2 = i.advance(src, e_run - pos);
        Ok((i2, Expression::Number(val)))
    }
}

// ---------------------------------------------------------------------------
// Expressions and everything below them
// ---------------------------------------------------------------------------

impl Expression {
    /// An expression: the alternatives in their fixed order — parenthesized
    /// arithmetic, numeral, let-in block, function invocation, bare name.
    /// Each failed alternative leaves the cursor untouched; when all fail,
    /// the trace kept is the last alternative's, under the expression
    /// context.
    pub fn parse(src: &Vec<char>, i: Input) -> (r: ParseResult<Expression>)
        requires
            i.wf(src@),
            src@.len() < usize::MAX,
        ensures
            match r {
                Ok(t) => {
                    &&& spec_expression(src@, i.offset as int) == Some((t.0.offset as int, t.1@))
                    &&& t.0.wf(src@)
                    &&& i.offset < t.0.offset <= src@.len()
                },
                Err(e) => {
                    &&& spec_expression(src@, i.offset as int) is None
                    &&& e@.len() >= 1
                    &&& e@.last() == context_entry(i, ContextLabel::Expression)
                    &&& trace_wf(e@, src@)
                },
            },
        decreases src@.len() - i.offset, 40int,
    {
        let r1 = Self::parse_arithmetic(src, i);
        match r1 {
            Ok(t) => {
                return Ok(t);
            },
            Err(_) => {},
        }
        let r2 = Self::parse_num(src, i);
        match r2 {
            Ok(t) => {
                return Ok(t);
            },
            Err(_) => {},
        }
        let r3 = Self::parse_let_in(src, i);
        match r3 {
            Ok(t) => {
                return Ok(t);
            },
            Err(_) => {},
        }
        let r4 = FnInvocation::parse(src, i);
        match r4 {
            Ok((i2, inv)) => {
                return Ok((i2, Expression::FnInvocation(inv)));
            },
            Err(_) => {},
        }
        match Identifier::parse(src, i) {
            Ok((i2, id)) => Ok((i2, Expression::Name(id))),
            Err(e) => Err(push_context(e, i, ContextLabel::Expression)),
        }
    }

    /// Parenthesized arithmetic:
    /// `(` expression ` ` operator ` ` expression `)`.
    pub fn parse_arithmetic(src: &Vec<char>, i: Input) -> (r: ParseResult<Expression>)
        requires
            i.wf(src@),
            src@.len() < usize::MAX,
        ensures
            match r {
                Ok(t) => {
                    &&& spec_arithmetic(src@, i.offset as int) == Some((t.0.offset as int, t.1@))
                    &&& t.0.wf(src@)
                    &&& i.offset < t.0.offset <= src@.len()
                },
                Err(e) => {
                    &&& spec_arithmetic(src@, i.offset as int) is None
                    &&& e@.len() >= 1
                    &&& e@.last() == context_entry(i, ContextLabel::Arithmetic)
                    &&& trace_wf(e@, src@)
                },
            },
        decreases src@.len() - i.offset, 30int,
    {
        let i1 = match expect_char(src, i, '(') {
            Ok(x) => x,
            Err(e) => {
                return Err(push_context(e, i, ContextLabel::Arithmetic));
            },
        };
        let (i2, lhs) = match Expression::parse(src, i1) {
            Ok(t) => t,
            Err(e) => {
                return Err(push_context(e, i, ContextLabel::Arithmetic));
            },
        };
        let i3 = match expect_char(src, i2, ' ') {
            Ok(x) => x,
            Err(e) => {
                return Err(push_context(e, i, ContextLabel::Arithmetic));
            },
        };
        let (i4, op) = match Operator::parse(src, i3) {
            Ok(t) => t,
            Err(e) => {
                return Err(push_context(e, i, ContextLabel::Arithmetic));
            },
        };
        let i5 = match expect_char(src, i4, ' ') {
            Ok(x) => x,
            Err(e) => {
                return Err(push_context(e, i, ContextLabel::Arithmetic));
            },
        };
        let (i6, rhs) = match Expression::parse(src, i5) {
            Ok(t) => t,
            Err(e) => {
                return Err(push_context(e, i, ContextLabel::Arithmetic));
            },
        };
        let i7 = match expect_char(src, i6, ')') {
            Ok(x) => x,
            Err(e) => {
                return Err(push_context(e, i, ContextLabel::Arithmetic));
            },
        };
        Ok((i7, Expression::Arithmetic { lhs: Box::new(lhs), op, rhs: Box::new(rhs) }))
    }

    /// A let-in block: `let`, a newline, one or more binding lines, then
    /// (whitespace) `in` (whitespace) and the body expression.
    pub fn parse_let_in(src: &Vec<char>, i: Input) -> (r: ParseResult<Expression>)
        requires
            i.wf(src@),
            src@.len() < usize::MAX,
        ensures
            match r {
                Ok(t) => {
                    &&& spec_let_in(src@, i.offset as int) == Some((t.0.offset as int, t.1@))
                    &&& t.0.wf(src@)
                    &&& i.offset < t.0.offset <= src@.len()
                },
                Err(e) => {
                    &&& spec_let_in(src@, i.offset as int) is None
                    &&& e@.len() >= 1
                    &&& e@.last() == context_entry(i, ContextLabel::LetIn)
                    &&& trace_wf(e@, src@)
                },
            },
        decreases src@.len() - i.offset, 30int,
    {
        let t_let = lit_let();
        let i1 = match expect_tag(src, i, &t_let) {
            Ok(x) => x,
            Err(e) => {
                return Err(push_context(e, i, ContextLabel::LetIn));
            },
        };
        let i2 = match expect_char(src, i1, '\n') {
            Ok(x) => x,
            Err(e) => {
                return Err(push_context(e, i, ContextLabel::LetIn));
            },
        };
        let empty_bindings: Vec<Assignment> = Vec::new();
        proof {
            assert(assigns_view_from(empty_bindings@, 0) == Seq::<AssignView>::empty());
        }
        let (i3, bs) = match parse_bindings(src, i2, empty_bindings) {
            Ok(t) => t,
            Err(e) => {
                return Err(push_context(e, i, ContextLabel::LetIn));
            },
        };
        let sp = scan_spaces(src, i3.offset);
        let i4 = i3.advance(src, sp - i3.offset);
        let t_in = lit_in();
        let i5 = match expect_tag(src, i4, &t_in) {
            Ok(x) => x,
            Err(e) => {
                return Err(push_context(e, i, ContextLabel::LetIn));
            },
        };
        let sp2 = scan_spaces(src, i5.offset);
        let i6 = i5.advance(src, sp2 - i5.offset);
        let (i7, body) = match Expression::parse(src, i6) {
            Ok(t) => t,
            Err(e) => {
                return Err(push_context(e, i, ContextLabel::LetIn));
            },
        };
        Ok((i7, Expression::LetIn { bindings: bs, body: Box::new(body) }))
    }
}

/// One or more binding lines, appended to `bindings`: each line is optional
/// whitespace, an assignment, and a newline. The first line that does not
/// fit ends the list, consuming nothing of it; with no complete line at all
/// (and nothing collected before) the production fails with the failing
/// line's trace.
fn parse_bindings(src: &Vec<char>, i: Input, bindings: Vec<Assignment>) -> (r: Result<
    (Input, Vec<Assignment>),
    Vec<DisplayableError>,
>)
    requires
        i.wf(src@),
        src@.len() < usize::MAX,
    ensures
        match r {
            Ok(t) => {
                &&& spec_bindings(src@, i.offset as int, assigns_view_from(bindings@, 0)) == Some(
                    (t.0.offset as int, assigns_view_from(t.1@, 0)),
                )
                &&& t.0.wf(src@)
                &&& i.offset <= t.0.offset <= src@.len()
            },
            Err(e) => {
                &&& spec_bindings(src@, i.offset as int, assigns_view_from(bindings@, 0)) is None
                &&& e@.len() >= 1
                &&& trace_wf(e@, src@)
            },
        },
    decreases src@.len() - i.offset, 50int,
{
    let sp = scan_spaces(src, i.offset);
    let i_sp = i.advance(src, sp - i.offset);
    proof {
        if bindings@.len() > 0 {
            assert(assigns_view_from(bindings@, 0).len() > 0);
        }
    }
    match Assignment::parse(src, i_sp) {
        Err(e) => {
            if bindings.len() == 0 {
                Err(e)
            } else {
                Ok((i, bindings))
            }
        },
        Ok((i1, a)) => {
            match expect_char(src, i1, '\n') {
                Err(e) => {
                    if bindings.len() == 0 {
                        Err(e)
                    } else {
                        Ok((i, bindings))
                    }
                },
                Ok(i2) => {
                    let ghost old_bindings = bindings@;
                    let mut bindings = bindings;
                    bindings.push(a);
                    proof {
                        lemma_assigns_view_push(old_bindings, a, 0);
                    }
                    parse_bindings(src, i2, bindings)
                },
            }
        },
    }
}

impl Assignment {
    /// An assignment: identifier ` = ` expression.
    pub fn parse(src: &Vec<char>, i: Input) -> (r: ParseResult<Assignment>)
        requires
            i.wf(src@),
            src@.len() < usize::MAX,
        ensures
            match r {
                Ok(t) => {
                    &&& spec_assignment(src@, i.offset as int) == Some((t.0.offset as int, t.1@))
                    &&& t.0.wf(src@)
                    &&& i.offset < t.0.offset <= src@.len()
                    &&& t.1.identifier.pos == i
                },
                Err(e) => {
                    &&& spec_assignment(src@, i.offset as int) is None
                    &&& e@.len() >= 1
                    &&& e@.last() == context_entry(i, ContextLabel::Assignment)
                    &&& trace_wf(e@, src@)
                },
            },
        decreases src@.len() - i.offset, 45int,
    {
        let (i1, id) = match Identifier::parse(src, i) {
            Ok(t) => t,
            Err(e) => {
                return Err(push_context(e, i, ContextLabel::Assignment));
            },
        };
        let t_eq = lit_eq();
        let i2 = match expect_tag(src, i1, &t_eq) {
            Ok(x) => x,
            Err(e) => {
                return Err(push_context(e, i, ContextLabel::Assignment));
            },
        };
        let (i3, v) = match Expression::parse(src, i2) {
            Ok(t) => t,
            Err(e) => {
                return Err(push_context(e, i, ContextLabel::Assignment));
            },
        };
        Ok((i3, Assignment { identifier: id, value: v }))
    }
}

impl FnInvocation {
    /// A function invocation: identifier `(` arguments `)`.
    pub fn parse(src: &Vec<char>, i: Input) -> (r: ParseResult<FnInvocation>)
        requires
            i.wf(src@),
            src@.len() < usize::MAX,
        ensures
            match r {
                Ok(t) => {
                    &&& spec_invocation(src@, i.offset as int) == Some((t.0.offset as int, t.1@))
                    &&& t.0.wf(src@)
                    &&& i.offset < t.0.offset <= src@.len()
                    &&& t.1.fn_name.pos == i
                },
                Err(e) => {
                    &&& spec_invocation(src@, i.offset as int) is None
                    &&& e@.len() >= 1
                    &&& e@.last() == context_entry(i, ContextLabel::FunctionInvocation)
                    &&& trace_wf(e@, src@)
                },
            },
        decreases src@.len() - i.offset, 20int,
    {
        let (i1, id) = match Identifier::parse(src, i) {
            Ok(t) => t,
            Err(e) => {
                return Err(push_context(e, i, ContextLabel::FunctionInvocation));
            },
        };
        let i2 = match expect_char(src, i1, '(') {
            Ok(x) => x,
            Err(e) => {
                return Err(push_context(e, i, ContextLabel::FunctionInvocation));
            },
        };
        let (i3, args) = parse_arg_list(src, i2);
        let i4 = match expect_char(src, i3, ')') {
            Ok(x) => x,
            Err(e) => {
                return Err(push_context(e, i, ContextLabel::FunctionInvocation));
            },
        };
        Ok((i4, FnInvocation { fn_name: id, args }))
    }
}

/// A possibly empty comma-separated argument list. Never fails: with no
/// expression at the cursor the list is empty.
fn parse_arg_list(src: &Vec<char>, i: Input) -> (r: (Input, Vec<Expression>))
    requires
        i.wf(src@),
        src@.len() < usize::MAX,
    ensures
        spec_arg_list(src@, i.offset as int) == (r.0.offset as int, exprs_view_from(r.1@, 0)),
        r.0.wf(src@),
        i.offset <= r.0.offset <= src@.len(),
    decreases src@.len() - i.offset, 50int,
{
    match Expression::parse(src, i) {
        Err(_) => {
            let args: Vec<Expression> = Vec::new();
            proof {
                assert(exprs_view_from(args@, 0) == Seq::<ExprView>::empty());
            }
            (i, args)
        },
        Ok((i1, e)) => {
            let mut args: Vec<Expression> = Vec::new();
            args.push(e);
            proof {
                assert(exprs_view_from(args@, 1) == Seq::<ExprView>::empty());
                assert(exprs_view_from(args@, 0) =~= seq![expr_view(args@[0])]);
            }
            parse_arg_more(src, i1, args)
        },
    }
}

/// The comma-separated arguments after those already in `args`. A separator
/// whose following argument fails is left unconsumed. Never fails.
fn parse_arg_more(src: &Vec<char>, i: Input, args: Vec<Expression>) -> (r: (
    Input,
    Vec<Expression>,
))
    requires
        i.wf(src@),
        src@.len() < usize::MAX,
    ensures
        spec_arg_more(src@, i.offset as int, exprs_view_from(args@, 0)) == (
            r.0.offset as int,
            exprs_view_from(r.1@, 0),
        ),
        r.0.wf(src@),
        i.offset <= r.0.offset <= src@.len(),
    decreases src@.len() - i.offset, 50int,
{
    let t_comma = lit_comma();
    match expect_tag(src, i, &t_comma) {
        Err(_) => (i, args),
        Ok(i1) => match Expression::parse(src, i1) {
            Err(_) => (i, args),
            Ok((i2, e)) => {
                let ghost old_args = args@;
                let mut args = args;
                args.push(e);
                proof {
                    lemma_exprs_view_push(old_args, e, 0);
                }
                parse_arg_more(src, i2, args)
            },
        },
    }
}

// ---------------------------------------------------------------------------
// Parameters, function definitions, and the program
// ---------------------------------------------------------------------------

impl Parameter {
    /// A parameter: `name: Type`.
    pub fn parse(src: &Vec<char>, i: Input) -> (r: ParseResult<Parameter>)
        requires
            i.wf(src@),
            src@.len() < usize::MAX,
        ensures
            match r {
                Ok(t) => {
                    &&& spec_parameter(src@, i.offset as int) == Some((t.0.offset as int, t.1@))
                    &&& t.0.wf(src@)
                    &&& i.offset < t.0.offset <= src@.len()
                    &&& t.1.name.pos == i
                },
                Err(e) => {
                    &&& spec_parameter(src@, i.offset as int) is None
                    &&& e@.len() >= 1
                    &&& e@.last() == context_entry(i, ContextLabel::Parameter)
                    &&& trace_wf(e@, src@)
                },
            },
    {
        let (i1, name) = match Identifier::parse(src, i) {
            Ok(t) => t,
            Err(e) => {
                return Err(push_context(e, i, ContextLabel::Parameter));
            },
        };
        let t_colon = lit_colon();
        let i2 = match expect_tag(src, i1, &t_colon) {
            Ok(x) => x,
            Err(e) => {
                return Err(push_context(e, i, ContextLabel::Parameter));
            },
        };
        let (i3, kcl_type) = match Identifier::parse(src, i2) {
            Ok(t) => t,
            Err(e) => {
                return Err(push_context(e, i, ContextLabel::Parameter));
            },
        };
        Ok((i3, Parameter { name, kcl_type }))
    }
}

/// A possibly empty comma-separated parameter list. Never fails: with no
/// parameter at the cursor the list is empty.
fn parse_param_list(src: &Vec<char>, i: Input) -> (r: (Input, Vec<Parameter>))
    requires
        i.wf(src@),
        src@.len() < usize::MAX,
    ensures
        spec_param_list(src@, i.offset as int) == (r.0.offset as int, params_view_from(r.1@, 0)),
        r.0.wf(src@),
        i.offset <= r.0.offset <= src@.len(),
{
    match Parameter::parse(src, i) {
        Err(_) => {
            let params: Vec<Parameter> = Vec::new();
            proof {
                assert(params_view_from(params@, 0) == Seq::<ParamView>::empty());
            }
            (i, params)
        },
        Ok((i1, p)) => {
            let mut params: Vec<Parameter> = Vec::new();
            params.push(p);
            proof {
                assert(params_view_from(params@, 1) == Seq::<ParamView>::empty());
                assert(params_view_from(params@, 0) =~= seq![param_view(params@[0])]);
            }
            parse_param_more(src, i1, params)
        },
    }
}

/// The comma-separated parameters after those already in `params`. A
/// separator whose following parameter fails is left unconsumed.
fn parse_param_more(src: &Vec<char>, i: Input, params: Vec<Parameter>) -> (r: (
    Input,
    Vec<Parameter>,
))
    requires
        i.wf(src@),
        src@.len() < usize::MAX,
    ensures
        spec_param_more(src@, i.offset as int, params_view_from(params@, 0)) == (
            r.0.offset as int,
            params_view_from(r.1@, 0),
        ),
        r.0.wf(src@),
        i.offset <= r.0.offset <= src@.len(),
    decreases src@.len() - i.offset,
{
    let t_comma = lit_comma();
    match expect_tag(src, i, &t_comma) {
        Err(_) => (i, params),
        Ok(i1) => match Parameter::parse(src, i1) {
            Err(_) => (i, params),
            Ok((i2, p)) => {
                let ghost old_params = params@;
                let mut params = params;
                params.push(p);
                proof {
                    lemma_params_view_push(old_params, p, 0);
                }
                parse_param_more(src, i2, params)
            },
        },
    }
}

impl FnDef {
    /// A function definition:
    /// name ` = ` `(` parameters ` -> ` return type `)` ` =>` whitespace
    /// body, e.g.
    /// `myCircle = (radius: Distance -> Solid2D) => circle(radius)`.
    pub fn parse(src: &Vec<char>, i: Input) -> (r: ParseResult<FnDef>)
        requires
            i.wf(src@),
            src@.len() < usize::MAX,
        ensures
            match r {
                Ok(t) => {
                    &&& spec_fndef(src@, i.offset as int) == Some((t.0.offset as int, t.1@))
                    &&& t.0.wf(src@)
                    &&& i.offset < t.0.offset <= src@.len()
                    &&& t.1.fn_name.pos == i
                },
                Err(e) => {
                    &&& spec_fndef(src@, i.offset as int) is None
                    &&& e@.len() >= 1
                    &&& e@.last() == context_entry(i, ContextLabel::FunctionDefinition)
                    &&& trace_wf(e@, src@)
                },
            },
    {
        let (i1, fn_name) = match Identifier::parse(src, i) {
            Ok(t) => t,
            Err(e) => {
                let e = push_context(e, i, ContextLabel::FunctionName);
                return Err(push_context(e, i, ContextLabel::FunctionDefinition));
            },
        };
        let t_eq = lit_eq();
        let i2 = match expect_tag(src, i1, &t_eq) {
            Ok(x) => x,
            Err(e) => {
                let e = push_context(e, i1, ContextLabel::EqualsSign);
                return Err(push_context(e, i, ContextLabel::FunctionDefinition));
            },
        };
        let i3 = match expect_char(src, i2, '(') {
            Ok(x) => x,
            Err(e) => {
                let e = push_context(e, i2, ContextLabel::TypeSignature);
                return Err(push_context(e, i, ContextLabel::FunctionDefinition));
            },
        };
        let (i4, params) = parse_param_list(src, i3);
        let t_arrow = lit_arrow();
        let i5 = match expect_tag(src, i4, &t_arrow) {
            Ok(x) => x,
            Err(e) => {
                let e = push_context(e, i4, ContextLabel::ReturnTypeArrow);
                let e = push_context(e, i2, ContextLabel::TypeSignature);
                return Err(push_context(e, i, ContextLabel::FunctionDefinition));
            },
        };
        let (i6, return_type) = match Identifier::parse(src, i5) {
            Ok(t) => t,
            Err(e) => {
                let e = push_context(e, i2, ContextLabel::TypeSignature);
                return Err(push_context(e, i, ContextLabel::FunctionDefinition));
            },
        };
        let i7 = match expect_char(src, i6, ')') {
            Ok(x) => x,
            Err(e) => {
                let e = push_context(e, i2, ContextLabel::TypeSignature);
                return Err(push_context(e, i, ContextLabel::FunctionDefinition));
            },
        };
        let t_fat = lit_fat_arrow();
        let i8 = match expect_tag(src, i7, &t_fat) {
            Ok(x) => x,
            Err(e) => {
                let e = push_context(e, i7, ContextLabel::FatArrow);
                return Err(push_context(e, i, ContextLabel::FunctionDefinition));
            },
        };
        let sp = scan_spaces(src, i8.offset);
        let i9 = i8.advance(src, sp - i8.offset);
        let (i10, body) = match Expression::parse(src, i9) {
            Ok(t) => t,
            Err(e) => {
                let e = push_context(e, i9, ContextLabel::FunctionBody);
                return Err(push_context(e, i, ContextLabel::FunctionDefinition));
            },
        };
        Ok((i10, FnDef { fn_name, params, return_type, body }))
    }
}

impl AbstractSyntaxTree {
    /// A whole program: function definitions until one fails to match. If
    /// the failure is not at the end of the source, the parse fails: the
    /// failed definition's trace is kept, under an unparsed-input entry at
    /// the position the definitions stopped, under the program root. On
    /// success the whole source has been consumed.
    pub fn parse(src: &Vec<char>, i: Input) -> (r: ParseResult<AbstractSyntaxTree>)
        requires
            i.wf(src@),
            src@.len() < usize::MAX,
        ensures
            match r {
                Ok(t) => {
                    &&& spec_program(src@, i.offset as int, Seq::empty()) == Some(t.1@)
                    &&& t.0.offset == src@.len()
                    &&& t.0.wf(src@)
                    &&& forall|j: int|
                        0 <= j < t.1.functions@.len() ==> (
                        #[trigger] t.1.functions@[j]).fn_name.pos.wf(src@)
                },
                Err(e) => {
                    &&& spec_program(src@, i.offset as int, Seq::empty()) is None
                    &&& e@.len() >= 3
                    &&& e@.last() == context_entry(i, ContextLabel::ProgramRoot)
                    &&& e@[e@.len() - 2].label == ErrorLabel::Context(ContextLabel::UnparsedInput)
                    &&& trace_wf(e@, src@)
                },
            },
    {
        let mut cur = i;
        let mut funcs: Vec<FnDef> = Vec::new();
        proof {
            assert(fndefs_view_from(funcs@, 0) == Seq::<FnDefView>::empty());
        }
        loop
            invariant
                i.wf(src@),
                cur.wf(src@),
                src@.len() < usize::MAX,
                i.offset <= cur.offset <= src@.len(),
                spec_program(src@, i.offset as int, Seq::empty()) == spec_program(
                    src@,
                    cur.offset as int,
                    fndefs_view_from(funcs@, 0),
                ),
                forall|j: int|
                    0 <= j < funcs@.len() ==> (#[trigger] funcs@[j]).fn_name.pos.wf(src@),
            decreases src@.len() - cur.offset,
        {
            match FnDef::parse(src, cur) {
                Err(e) => {
                    if cur.is_empty(src) {
                        return Ok((cur, AbstractSyntaxTree { functions: funcs }));
                    } else {
                        let e = push_context(e, cur, ContextLabel::UnparsedInput);
                        return Err(push_context(e, i, ContextLabel::ProgramRoot));
                    }
                },
                Ok((i2, d)) => {
                    let ghost old_funcs = funcs@;
                    funcs.push(d);
                    proof {
                        lemma_fndefs_view_push(old_funcs, d, 0);
                    }
                    cur = i2;
                },
            }
        }
    }
}

// ---------------------------------------------------------------------------
// The Parser trait, implemented by every node type
// ---------------------------------------------------------------------------

impl Parser for Identifier {
    fn parse(src: &Vec<char>, i: Input) -> (r: ParseResult<Self>) {
        Identifier::parse(src, i)
    }
}

impl Parser for Operator {
    fn parse(src: &Vec<char>, i: Input) -> (r: ParseResult<Self>) {
        Operator::parse(src, i)
    }
}

impl Parser for Expression {
    fn parse(src: &Vec<char>, i: Input) -> (r: ParseResult<Self>) {
        Expression::parse(src, i)
    }
}

impl Parser for Assignment {
    fn parse(src: &Vec<char>, i: Input) -> (r: ParseResult<Self>) {
        Assignment::parse(src, i)
    }
}

impl Parser for Parameter {
    fn parse(src: &Vec<char>, i: Input) -> (r: ParseResult<Self>) {
        Parameter::parse(src, i)
    }
}

impl Parser for FnInvocation {
    fn parse(src: &Vec<char>, i: Input) -> (r: ParseResult<Self>) {
        FnInvocation::parse(src, i)
    }
}

impl Parser for FnDef {
    fn parse(src: &Vec<char>, i: Input) -> (r: ParseResult<Self>) {
        FnDef::parse(src, i)
    }
}

impl Parser for AbstractSyntaxTree {
    fn parse(src: &Vec<char>, i: Input) -> (r: ParseResult<Self>) {
        AbstractSyntaxTree::parse(src, i)
    }
}

} // verus!
