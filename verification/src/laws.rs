//! Laws the grammar obeys, stated and proved once and for all.
use vstd::prelude::*;

use crate::ast::{AssignView, ExprView, FnDefView, FnInvocationView, ParamView};
use crate::grammar::{
    alnum_run_end, char_operator, digit_val, digits_of, digits_val, is_digit_char,
    is_number_char, is_reserved_keyword, is_space_char, kw_in, kw_let, lemma_alnum_run_end,
    lemma_letter_run_end, letter_run_end, number_run_end, space_run_end, spec_arg_list,
    spec_arg_more, spec_arithmetic, spec_assignment, spec_bindings, spec_char, spec_expression,
    spec_fndef, spec_identifier, spec_identifier_raw, spec_invocation, spec_let_in, spec_number,
    spec_operator, spec_param_list, spec_param_more, spec_parameter, spec_parse, spec_program,
    spec_tag, tag_arrow, tag_colon, tag_comma, tag_eq, tag_fat_arrow,
};
use crate::unicode::{is_letter, is_letter_or_digit};

verus! {

/// The character of one decimal digit.
pub open spec fn digit_char(d: nat) -> char {
    if d == 0 {
        '0'
    } else if d == 1 {
        '1'
    } else if d == 2 {
        '2'
    } else if d == 3 {
        '3'
    } else if d == 4 {
        '4'
    } else if d == 5 {
        '5'
    } else if d == 6 {
        '6'
    } else if d == 7 {
        '7'
    } else if d == 8 {
        '8'
    } else {
        '9'
    }
}

/// The canonical decimal rendering of a number: its digits, no underscores,
/// no leading zeros (except for zero itself).
pub open spec fn dec_digits(n: nat) -> Seq<char>
    decreases n,
{
    if n < 10 {
        seq![digit_char(n)]
    } else {
        dec_digits(n / 10).push(digit_char(n % 10))
    }
}

proof fn lemma_digit_char_val(d: nat)
    requires
        d < 10,
    ensures
        is_digit_char(digit_char(d)),
        digit_val(digit_char(d)) == d,
{
}

/// A canonical rendering is nonempty and made of digits alone.
proof fn lemma_dec_digits_shape(n: nat)
    ensures
        dec_digits(n).len() >= 1,
        forall|k: int| 0 <= k < dec_digits(n).len() ==> is_digit_char(#[trigger] dec_digits(n)[k]),
    decreases n,
{
    if n < 10 {
        lemma_digit_char_val(n);
    } else {
        lemma_dec_digits_shape(n / 10);
        lemma_digit_char_val(n % 10);
        assert forall|k: int| 0 <= k < dec_digits(n).len() implies is_digit_char(
            #[trigger] dec_digits(n)[k],
        ) by {
            if k < dec_digits(n / 10).len() {
                assert(dec_digits(n)[k] == dec_digits(n / 10)[k]);
            }
        }
    }
}

/// Reading a canonical rendering back gives the number it renders.
proof fn lemma_dec_digits_val(n: nat)
    ensures
        digits_val(dec_digits(n)) == n,
    decreases n,
{
    assert(digits_val(Seq::<char>::empty()) == 0);
    if n < 10 {
        lemma_digit_char_val(n);
        assert(dec_digits(n) == seq![digit_char(n)]);
        assert(seq![digit_char(n)].drop_last() =~= Seq::<char>::empty());
        assert(seq![digit_char(n)].last() == digit_char(n));
        assert(digits_val(seq![digit_char(n)]) == digits_val(Seq::<char>::empty()) * 10
            + digit_val(digit_char(n)));
    } else {
        lemma_dec_digits_val(n / 10);
        lemma_digit_char_val(n % 10);
        vstd::arithmetic::div_mod::lemma_fundamental_div_mod(n as int, 10);
        assert(dec_digits(n / 10).push(digit_char(n % 10)).drop_last() =~= dec_digits(n / 10));
        assert(digits_val(dec_digits(n)) == digits_val(dec_digits(n / 10)) * 10 + digit_val(
            digit_char(n % 10),
        ));
    }
}

/// Filtering out underscores leaves an all-digit string unchanged.
proof fn lemma_digits_of_all_digits(s: Seq<char>)
    requires
        forall|k: int| 0 <= k < s.len() ==> is_digit_char(#[trigger] s[k]),
    ensures
        digits_of(s) == s,
    decreases s.len(),
{
    if s.len() > 0 {
        lemma_digits_of_all_digits(s.drop_last());
        assert(digits_of(s) =~= s);
    }
}

/// What the filter keeps are digits.
proof fn lemma_digits_of_digits(t: Seq<char>)
    ensures
        forall|k: int|
            0 <= k < digits_of(t).len() ==> is_digit_char(#[trigger] digits_of(t)[k]),
    decreases t.len(),
{
    if t.len() > 0 {
        lemma_digits_of_digits(t.drop_last());
        if is_digit_char(t.last()) {
            assert forall|k: int| 0 <= k < digits_of(t).len() implies is_digit_char(
                #[trigger] digits_of(t)[k],
            ) by {
                if k < digits_of(t.drop_last()).len() {
                    assert(digits_of(t)[k] == digits_of(t.drop_last())[k]);
                }
            }
        }
    }
}

/// A digit string's value is never negative.
proof fn lemma_digits_val_nonneg(ds: Seq<char>)
    requires
        forall|k: int| 0 <= k < ds.len() ==> is_digit_char(#[trigger] ds[k]),
    ensures
        digits_val(ds) >= 0,
    decreases ds.len(),
{
    if ds.len() > 0 {
        assert(forall|k: int|
            0 <= k < ds.drop_last().len() ==> is_digit_char(#[trigger] ds.drop_last()[k]));
        lemma_digits_val_nonneg(ds.drop_last());
    }
}

/// A maximal numeral run over an all-numeral string reaches its end.
proof fn lemma_number_run_full(s: Seq<char>, pos: int)
    requires
        0 <= pos <= s.len(),
        forall|k: int| pos <= k < s.len() ==> is_number_char(#[trigger] s[k]),
    ensures
        number_run_end(s, pos) == s.len(),
    decreases s.len() - pos,
{
    if pos < s.len() {
        lemma_number_run_full(s, pos + 1);
    }
}

/// A maximal letter run over an all-letter string reaches its end.
proof fn lemma_letter_run_full(s: Seq<char>, pos: int)
    requires
        0 <= pos <= s.len(),
        forall|k: int| pos <= k < s.len() ==> is_letter(#[trigger] s[k]),
    ensures
        letter_run_end(s, pos) == s.len(),
    decreases s.len() - pos,
{
    if pos < s.len() {
        lemma_letter_run_full(s, pos + 1);
    }
}

/// For every numeral string of digits and underscores with at least one
/// digit: if the value of its digits (underscores ignored) fits in 64 bits,
/// the numeral production reads the whole string to exactly that value, and
/// re-rendering that value and reading it back round-trips to the same
/// value; if the value exceeds `u64::MAX`, the numeral production fails.
pub proof fn lemma_numeral_round_trip(s: Seq<char>)
    requires
        s.len() > 0,
        forall|k: int| 0 <= k < s.len() ==> is_number_char(#[trigger] s[k]),
        digits_of(s).len() > 0,
    ensures
        digits_val(digits_of(s)) <= u64::MAX ==> spec_number(s, 0) == Some(
            (s.len() as int, digits_val(digits_of(s)) as u64),
        ),
        digits_val(digits_of(s)) <= u64::MAX ==> digits_val(
            dec_digits(digits_val(digits_of(s)) as nat),
        ) == digits_val(digits_of(s)),
        digits_val(digits_of(s)) > u64::MAX ==> spec_number(s, 0) is None,
{
    lemma_number_run_full(s, 0);
    assert(s.subrange(0, s.len() as int) =~= s);
    lemma_digits_of_digits(s);
    lemma_digits_val_nonneg(digits_of(s));
    if digits_val(digits_of(s)) <= u64::MAX {
        lemma_dec_digits_val(digits_val(digits_of(s)) as nat);
    }
}

/// For every text spelling a reserved keyword, identifier parsing fails —
/// even though the same text satisfies the raw letter/alphanumeric shape
/// rule, which reads it whole.
pub proof fn lemma_reserved_keyword_rejected(s: Seq<char>)
    requires
        s == kw_let() || s == kw_in(),
    ensures
        spec_identifier(s, 0) is None,
        spec_identifier_raw(s, 0) == Some((s.len() as int, s)),
{
    assert(forall|k: int| 0 <= k < s.len() ==> is_letter(#[trigger] s[k])) by {
        if s == kw_let() {
            assert(s[0] == 'l' && s[1] == 'e' && s[2] == 't');
        } else {
            assert(s[0] == 'i' && s[1] == 'n');
        }
    }
    lemma_letter_run_full(s, 0);
    assert(alnum_run_end(s, s.len() as int) == s.len());
    assert(s.subrange(0, s.len() as int) =~= s);
    assert(is_reserved_keyword(s));
}

/// Text with the exact shape of a usable identifier: a maximal letter run of
/// at least one letter, the rest letters-or-digits, the whole text consumed,
/// and not a reserved keyword.
pub open spec fn is_valid_identifier_text(t: Seq<char>) -> bool {
    &&& letter_run_end(t, 0) >= 1
    &&& alnum_run_end(t, letter_run_end(t, 0)) == t.len()
    &&& !is_reserved_keyword(t)
}

// ---------------------------------------------------------------------------
// Canonical rendering of an expression, and parse-after-render idempotence
// ---------------------------------------------------------------------------

/// The scalar value of an operator.
pub open spec fn op_char(op: crate::ast::Operator) -> char {
    match op {
        crate::ast::Operator::Add => '+',
        crate::ast::Operator::Sub => '-',
        crate::ast::Operator::Mul => '*',
        crate::ast::Operator::Div => '/',
    }
}

/// The canonical text of an expression: the exact literal form the
/// per-production tests use.
pub open spec fn render_expr(v: ExprView) -> Seq<char>
    decreases v, 0int, 0int,
{
    match v {
        ExprView::Number(n) => dec_digits(n as nat),
        ExprView::Name(t) => t,
        ExprView::FnInvocation(inv) => inv.fn_name + seq!['('] + render_args(inv.args) + seq![')'],
        ExprView::LetIn { bindings, body } => seq!['l', 'e', 't', '\n'] + render_bindings(
            bindings,
            0,
        ) + seq!['i', 'n', ' '] + render_expr(*body),
        ExprView::Arithmetic { lhs, op, rhs } => seq!['('] + render_expr(*lhs) + seq![' '] + seq![
            op_char(op),
        ] + seq![' '] + render_expr(*rhs) + seq![')'],
    }
}

/// The canonical text of an argument list.
pub open spec fn render_args(args: Seq<ExprView>) -> Seq<char>
    decreases args, args.len(), 1int,
{
    if args.len() == 0 {
        Seq::empty()
    } else {
        render_expr(args[0]) + render_args_rest(args, 1)
    }
}

/// The canonical text of the arguments after the first: each preceded by a
/// comma and a space.
pub open spec fn render_args_rest(args: Seq<ExprView>, i: int) -> Seq<char>
    decreases args, args.len() - i, 2int,
{
    if 0 <= i < args.len() {
        seq![',', ' '] + render_expr(args[i]) + render_args_rest(args, i + 1)
    } else {
        Seq::empty()
    }
}

/// The canonical text of the binding lines from `i` on: each indented,
/// ended by a newline.
pub open spec fn render_bindings(bs: Seq<AssignView>, i: int) -> Seq<char>
    decreases bs, bs.len() - i, 0int,
{
    if 0 <= i < bs.len() {
        seq![' ', ' ', ' ', ' '] + bs[i].identifier + seq![' ', '=', ' '] + render_expr(
            bs[i].value,
        ) + seq!['\n'] + render_bindings(bs, i + 1)
    } else {
        Seq::empty()
    }
}

/// A well-formed expression view: one the parser could have produced.
/// Identifiers have valid non-reserved text, and a let-in block binds at
/// least one name.
pub open spec fn wf_expr(v: ExprView) -> bool
    decreases v, 0int, 0int,
{
    match v {
        ExprView::Number(_) => true,
        ExprView::Name(t) => is_valid_identifier_text(t),
        ExprView::FnInvocation(inv) => is_valid_identifier_text(inv.fn_name) && wf_exprs(
            inv.args,
            0,
        ),
        ExprView::LetIn { bindings, body } => bindings.len() >= 1 && wf_bindings(bindings, 0)
            && wf_expr(*body),
        ExprView::Arithmetic { lhs, op: _, rhs } => wf_expr(*lhs) && wf_expr(*rhs),
    }
}

pub open spec fn wf_exprs(args: Seq<ExprView>, i: int) -> bool
    decreases args, args.len() - i, 1int,
{
    if 0 <= i < args.len() {
        wf_expr(args[i]) && wf_exprs(args, i + 1)
    } else {
        true
    }
}

pub open spec fn wf_bindings(bs: Seq<AssignView>, i: int) -> bool
    decreases bs, bs.len() - i, 0int,
{
    if 0 <= i < bs.len() {
        is_valid_identifier_text(bs[i].identifier) && wf_expr(bs[i].value) && wf_bindings(
            bs,
            i + 1,
        )
    } else {
        true
    }
}

/// A position at which no expression can begin and no token run can
/// continue: the end of the source, or a space, comma, closing parenthesis
/// or newline.
pub open spec fn safe_follow(s: Seq<char>, q: int) -> bool {
    q == s.len() || (0 <= q < s.len() && (s[q] == ' ' || s[q] == ',' || s[q] == ')' || s[q]
        == '\n'))
}

// --- localization of runs and tokens -------------------------------------

/// A letter run over letters up to `q`, with `q` not a letter, ends at `q`.
proof fn lemma_letter_run_localize(s: Seq<char>, p: int, q: int)
    requires
        0 <= p <= q <= s.len(),
        forall|k: int| p <= k < q ==> is_letter(#[trigger] s[k]),
        q < s.len() ==> !is_letter(s[q]),
    ensures
        letter_run_end(s, p) == q,
    decreases q - p,
{
    if p < q {
        lemma_letter_run_localize(s, p + 1, q);
    }
}

proof fn lemma_alnum_run_localize(s: Seq<char>, p: int, q: int)
    requires
        0 <= p <= q <= s.len(),
        forall|k: int| p <= k < q ==> is_letter_or_digit(#[trigger] s[k]),
        q < s.len() ==> !is_letter_or_digit(s[q]),
    ensures
        alnum_run_end(s, p) == q,
    decreases q - p,
{
    if p < q {
        lemma_alnum_run_localize(s, p + 1, q);
    }
}

proof fn lemma_number_run_localize(s: Seq<char>, p: int, q: int)
    requires
        0 <= p <= q <= s.len(),
        forall|k: int| p <= k < q ==> is_number_char(#[trigger] s[k]),
        q < s.len() ==> !is_number_char(s[q]),
    ensures
        number_run_end(s, p) == q,
    decreases q - p,
{
    if p < q {
        lemma_number_run_localize(s, p + 1, q);
    }
}

proof fn lemma_space_run_localize(s: Seq<char>, p: int, q: int)
    requires
        0 <= p <= q <= s.len(),
        forall|k: int| p <= k < q ==> is_space_char(#[trigger] s[k]),
        q < s.len() ==> !is_space_char(s[q]),
    ensures
        space_run_end(s, p) == q,
    decreases q - p,
{
    if p < q {
        lemma_space_run_localize(s, p + 1, q);
    }
}

/// A region that is the concatenation of two pieces splits into the two
/// pieces.
proof fn lemma_subrange_split(s: Seq<char>, p: int, a: Seq<char>, b: Seq<char>)
    requires
        0 <= p,
        p + a.len() + b.len() <= s.len(),
        s.subrange(p, p + a.len() + b.len()) == a + b,
    ensures
        s.subrange(p, p + a.len()) == a,
        s.subrange(p + a.len(), p + a.len() + b.len()) == b,
{
    assert forall|k: int| 0 <= k < a.len() implies s.subrange(p, p + a.len())[k] == a[k] by {
        assert(s.subrange(p, p + a.len())[k] == s[p + k]);
        assert(s.subrange(p, p + a.len() + b.len())[k] == s[p + k]);
        assert((a + b)[k] == a[k]);
    }
    assert(s.subrange(p, p + a.len()) =~= a);
    assert forall|k: int|
        0 <= k < b.len() implies s.subrange(p + a.len(), p + a.len() + b.len())[k] == b[k] by {
        assert(s.subrange(p + a.len(), p + a.len() + b.len())[k] == s[p + a.len() + k]);
        assert(s.subrange(p, p + a.len() + b.len())[a.len() + k] == s[p + a.len() + k]);
        assert((a + b)[a.len() + k] == b[k]);
    }
    assert(s.subrange(p + a.len(), p + a.len() + b.len()) =~= b);
}

/// A rendered expression is nonempty and never begins with whitespace.
proof fn lemma_render_head(v: ExprView)
    requires
        wf_expr(v),
    ensures
        render_expr(v).len() >= 1,
        !is_space_char(render_expr(v)[0]),
    decreases v, 0int, 0int,
{
    match v {
        ExprView::Number(n) => {
            lemma_dec_digits_shape(n as nat);
            assert(is_digit_char(dec_digits(n as nat)[0]));
        },
        ExprView::Name(t) => {
            lemma_letter_run_end(t, 0);
            assert(is_letter(t[0]));
        },
        ExprView::FnInvocation(inv) => {
            lemma_letter_run_end(inv.fn_name, 0);
            assert(is_letter(inv.fn_name[0]));
            assert(render_expr(v)[0] == inv.fn_name[0]);
        },
        ExprView::LetIn { bindings, body } => {
            assert(render_expr(v)[0] == 'l');
        },
        ExprView::Arithmetic { lhs, op, rhs } => {
            assert(render_expr(v)[0] == '(');
        },
    }
}

/// At a safe-follow position no expression alternative can begin.
proof fn lemma_expression_fails_at_safe(s: Seq<char>, p: int)
    requires
        0 <= p <= s.len(),
        safe_follow(s, p),
    ensures
        spec_expression(s, p) is None,
{
    assert(spec_char(s, p, '(') is None);
    assert(number_run_end(s, p) == p);
    assert(spec_number(s, p) is None);
    assert(spec_tag(s, p, kw_let()) is None) by {
        if p + 3 <= s.len() {
            assert(s.subrange(p, p + 3)[0] == s[p]);
            assert(kw_let()[0] == 'l');
        }
    }
    assert(spec_let_in(s, p) is None);
    assert(letter_run_end(s, p) == p);
    assert(spec_identifier_raw(s, p) is None);
    assert(spec_invocation(s, p) is None);
    assert(spec_identifier(s, p) is None);
}

/// A valid identifier's text at `p`, with nothing alphanumeric after it,
/// parses as exactly that identifier.
proof fn lemma_identifier_at(s: Seq<char>, p: int, t: Seq<char>)
    requires
        is_valid_identifier_text(t),
        0 <= p,
        p + t.len() <= s.len(),
        s.subrange(p, p + t.len()) == t,
        p + t.len() < s.len() ==> !is_letter_or_digit(s[p + t.len()]),
    ensures
        spec_identifier(s, p) == Some((p + t.len(), t)),
        spec_identifier_raw(s, p) == Some((p + t.len(), t)),
{
    let e1 = letter_run_end(t, 0);
    lemma_letter_run_end(t, 0);
    lemma_alnum_run_end(t, e1);
    assert forall|k: int| p <= k < p + e1 implies is_letter(s[k]) by {
        assert(s.subrange(p, p + t.len())[k - p] == s[k]);
        assert(t[k - p] == s[k]);
        assert(is_letter(t[k - p]));
    }
    assert(e1 < t.len() ==> !is_letter(s[p + e1])) by {
        if e1 < t.len() {
            assert(s.subrange(p, p + t.len())[e1] == s[p + e1]);
        }
    }
    lemma_letter_run_localize(s, p, p + e1);
    assert forall|k: int| p + e1 <= k < p + t.len() implies is_letter_or_digit(s[k]) by {
        assert(s.subrange(p, p + t.len())[k - p] == s[k]);
        assert(t[k - p] == s[k]);
        assert(is_letter_or_digit(t[k - p]));
    }
    lemma_alnum_run_localize(s, p + e1, p + t.len());
    assert(s.subrange(p, p + t.len()) == t);
}

/// A canonical numeral at `p`, with no numeral character after it, parses as
/// exactly its number.
proof fn lemma_number_at(s: Seq<char>, p: int, n: u64)
    requires
        0 <= p,
        p + dec_digits(n as nat).len() <= s.len(),
        s.subrange(p, p + dec_digits(n as nat).len()) == dec_digits(n as nat),
        p + dec_digits(n as nat).len() < s.len() ==> !is_number_char(
            s[p + dec_digits(n as nat).len()],
        ),
    ensures
        spec_number(s, p) == Some((p + dec_digits(n as nat).len(), n)),
{
    let t = dec_digits(n as nat);
    lemma_dec_digits_shape(n as nat);
    lemma_dec_digits_val(n as nat);
    assert forall|k: int| p <= k < p + t.len() implies is_number_char(s[k]) by {
        assert(s.subrange(p, p + t.len())[k - p] == s[k]);
        assert(t[k - p] == s[k]);
        assert(is_digit_char(t[k - p]));
    }
    lemma_number_run_localize(s, p, p + t.len());
    lemma_digits_of_all_digits(t);
}

// --- the round-trip induction ---------------------------------------------

/// Parsing re-reads a rendered expression: at any position of any source
/// that carries the canonical text of a well-formed expression, followed by
/// a position at which no expression can continue, the expression
/// production yields exactly that expression, consuming exactly its text.
#[verifier::rlimit(60)]
pub proof fn lemma_expr_round_trip_at(s: Seq<char>, p: int, v: ExprView)
    requires
        wf_expr(v),
        0 <= p,
        p + render_expr(v).len() <= s.len(),
        s.subrange(p, p + render_expr(v).len()) == render_expr(v),
        safe_follow(s, p + render_expr(v).len()),
    ensures
        spec_expression(s, p) == Some((p + render_expr(v).len(), v)),
    decreases v, 0int, 40int,
{
    let r = render_expr(v);
    let q = p + r.len();
    match v {
        ExprView::Number(n) => {
            lemma_dec_digits_shape(n as nat);
            assert(s.subrange(p, q)[0] == s[p]);
            assert(is_digit_char(s[p]));
            assert(spec_char(s, p, '(') is None);
            lemma_number_at(s, p, n);
        },
        ExprView::Name(t) => {
            lemma_name_alternatives(s, p, t);
        },
        ExprView::FnInvocation(inv) => {
            lemma_invocation_at(s, p, inv);
            lemma_name_prefix_alternatives(s, p, inv.fn_name);
        },
        ExprView::LetIn { bindings, body } => {
            let rb = render_bindings(bindings, 0);
            let x1 = seq!['l', 'e', 't', '\n'];
            let x2 = x1 + rb;
            let x3 = x2 + seq!['i', 'n', ' '];
            assert(r == x3 + render_expr(*body));
            lemma_subrange_split(s, p, x3, render_expr(*body));
            lemma_subrange_split(s, p, x2, seq!['i', 'n', ' ']);
            lemma_subrange_split(s, p, x1, rb);
            let qb = p + 4 + rb.len();
            assert(s[p] == 'l' && s[p + 1] == 'e' && s[p + 2] == 't' && s[p + 3] == '\n') by {
                assert(s.subrange(p, p + 4)[0] == s[p]);
                assert(s.subrange(p, p + 4)[1] == s[p + 1]);
                assert(s.subrange(p, p + 4)[2] == s[p + 2]);
                assert(s.subrange(p, p + 4)[3] == s[p + 3]);
            }
            assert(s[qb] == 'i' && s[qb + 1] == 'n' && s[qb + 2] == ' ') by {
                assert(s.subrange(qb, qb + 3)[0] == s[qb]);
                assert(s.subrange(qb, qb + 3)[1] == s[qb + 1]);
                assert(s.subrange(qb, qb + 3)[2] == s[qb + 2]);
            }
            // the `let` keyword and its newline
            assert(s.subrange(p, p + 3) =~= kw_let());
            assert(spec_tag(s, p, kw_let()) == Some(p + 3));
            assert(spec_char(s, p + 3, '\n') == Some(p + 4));
            // the binding lines
            assert(bindings.take(0) =~= Seq::<AssignView>::empty());
            lemma_bindings_at(s, p + 4, bindings, 0);
            assert(spec_bindings(s, p + 4, Seq::empty()) == Some((qb, bindings)));
            // whitespace, `in`, whitespace, then the body
            assert(space_run_end(s, qb) == qb);
            assert(s.subrange(qb, qb + 2) =~= kw_in());
            assert(spec_tag(s, qb, kw_in()) == Some(qb + 2));
            lemma_render_head(*body);
            assert(s[qb + 3] == render_expr(*body)[0]) by {
                assert(s.subrange(qb + 3, q)[0] == s[qb + 3]);
            }
            lemma_space_run_localize(s, qb + 2, qb + 3);
            lemma_expr_round_trip_at(s, qb + 3, *body);
            assert(spec_let_in(s, p) == Some((q, ExprView::LetIn { bindings, body })));
            // no earlier alternative can match a `let` keyword
            assert(spec_char(s, p, '(') is None);
            assert(number_run_end(s, p) == p);
            assert(spec_number(s, p) is None);
        },
        ExprView::Arithmetic { lhs, op, rhs } => {
            let rl = render_expr(*lhs);
            let rr = render_expr(*rhs);
            let x1 = seq!['('];
            let x2 = x1 + rl;
            let x3 = x2 + seq![' '];
            let x4 = x3 + seq![op_char(op)];
            let x5 = x4 + seq![' '];
            let x6 = x5 + rr;
            assert(r == x6 + seq![')']);
            lemma_subrange_split(s, p, x6, seq![')']);
            lemma_subrange_split(s, p, x5, rr);
            lemma_subrange_split(s, p, x4, seq![' ']);
            lemma_subrange_split(s, p, x3, seq![op_char(op)]);
            lemma_subrange_split(s, p, x2, seq![' ']);
            lemma_subrange_split(s, p, x1, rl);
            let pl = p + 1;
            let ql = pl + rl.len();
            let pr = ql + 3;
            let qr = pr + rr.len();
            assert(s[p] == '(') by {
                assert(s.subrange(p, p + 1)[0] == s[p]);
            }
            assert(s[ql] == ' ') by {
                assert(s.subrange(ql, ql + 1)[0] == s[ql]);
            }
            assert(s[ql + 1] == op_char(op)) by {
                assert(s.subrange(ql + 1, ql + 2)[0] == s[ql + 1]);
            }
            assert(s[ql + 2] == ' ') by {
                assert(s.subrange(ql + 2, ql + 3)[0] == s[ql + 2]);
            }
            assert(s[qr] == ')') by {
                assert(s.subrange(qr, qr + 1)[0] == s[qr]);
            }
            assert(spec_char(s, p, '(') == Some(pl));
            lemma_expr_round_trip_at(s, pl, *lhs);
            assert(spec_char(s, ql, ' ') == Some(ql + 1));
            assert(char_operator(op_char(op)) == Some(op));
            assert(spec_operator(s, ql + 1) == Some((ql + 2, op)));
            assert(spec_char(s, ql + 2, ' ') == Some(pr));
            lemma_expr_round_trip_at(s, pr, *rhs);
            assert(spec_char(s, qr, ')') == Some(q));
            assert(spec_arithmetic(s, p) == Some(
                (q, ExprView::Arithmetic { lhs, op, rhs }),
            ));
        },
    }
}

/// For text beginning with a valid identifier's characters, neither the
/// numeral nor the let-in alternative can match, and the arithmetic
/// alternative cannot either.
proof fn lemma_name_prefix_alternatives(s: Seq<char>, p: int, t: Seq<char>)
    requires
        is_valid_identifier_text(t),
        0 <= p,
        p + t.len() <= s.len(),
        s.subrange(p, p + t.len()) == t,
        // whatever follows the identifier cannot be mistaken for the rest of
        // a `let` keyword or its newline
        t.len() < 3 ==> (p + t.len() == s.len() || s[p + t.len()] == '(' || safe_follow(
            s,
            p + t.len(),
        )),
    ensures
        spec_char(s, p, '(') is None,
        spec_number(s, p) is None,
        spec_let_in(s, p) is None,
{
    let e1 = letter_run_end(t, 0);
    lemma_letter_run_end(t, 0);
    lemma_alnum_run_end(t, e1);
    assert forall|k: int| 0 <= k < t.len() implies s[p + k] == t[k] by {
        assert(s.subrange(p, p + t.len())[k] == s[p + k]);
    }
    assert(is_letter(t[0]));
    assert(s[p] == t[0]);
    assert(spec_char(s, p, '(') is None);
    assert(number_run_end(s, p) == p);
    assert(spec_number(s, p) is None);
    if spec_tag(s, p, kw_let()) is Some {
        assert(s.subrange(p, p + 3)[0] == s[p] && s.subrange(p, p + 3)[1] == s[p + 1]
            && s.subrange(p, p + 3)[2] == s[p + 2]);
        assert(s[p] == 'l' && s[p + 1] == 'e' && s[p + 2] == 't');
        if t.len() == 1 {
            assert(p + 1 < s.len());
            assert(s[p + 1] == '(' || safe_follow(s, p + 1));
            assert(false);
        } else if t.len() == 2 {
            assert(t[1] == 'e');
            assert(p + 2 < s.len());
            assert(s[p + 2] == '(' || safe_follow(s, p + 2));
            assert(false);
        } else if t.len() == 3 {
            assert(t =~= kw_let());
            assert(false);
        } else {
            // the text goes on with a letter or digit, never a newline
            assert(t[3] == s[p + 3]);
            if 3 < e1 {
                assert(is_letter(t[3]));
            } else {
                assert(is_letter_or_digit(t[3]));
            }
            assert(spec_char(s, p + 3, '\n') is None);
        }
    }
    assert(spec_let_in(s, p) is None);
}

/// A bare name at `p` with a safe follower parses as exactly that name
/// expression.
proof fn lemma_name_alternatives(s: Seq<char>, p: int, t: Seq<char>)
    requires
        is_valid_identifier_text(t),
        0 <= p,
        p + t.len() <= s.len(),
        s.subrange(p, p + t.len()) == t,
        safe_follow(s, p + t.len()),
    ensures
        spec_expression(s, p) == Some((p + t.len(), ExprView::Name(t))),
{
    lemma_name_prefix_alternatives(s, p, t);
    lemma_identifier_at(s, p, t);
    assert(spec_char(s, p + t.len(), '(') is None);
    assert(spec_invocation(s, p) is None);
}

/// A rendered invocation at `p` parses as exactly that invocation.
proof fn lemma_invocation_at(s: Seq<char>, p: int, inv: FnInvocationView)
    requires
        wf_expr(ExprView::FnInvocation(inv)),
        0 <= p,
        p + render_expr(ExprView::FnInvocation(inv)).len() <= s.len(),
        s.subrange(p, p + render_expr(ExprView::FnInvocation(inv)).len()) == render_expr(
            ExprView::FnInvocation(inv),
        ),
    ensures
        spec_invocation(s, p) == Some(
            (p + render_expr(ExprView::FnInvocation(inv)).len(), inv),
        ),
    decreases inv, 0int, 20int,
{
    let r = render_expr(ExprView::FnInvocation(inv));
    let q = p + r.len();
    let name = inv.fn_name;
    let ra = render_args(inv.args);
    let x1 = name + seq!['('];
    let x2 = x1 + ra;
    assert(r == x2 + seq![')']);
    lemma_subrange_split(s, p, x2, seq![')']);
    lemma_subrange_split(s, p, x1, ra);
    lemma_subrange_split(s, p, name, seq!['(']);
    let pn = p + name.len();
    let pa = pn + 1;
    let qa = pa + ra.len();
    assert(s[pn] == '(') by {
        assert(s.subrange(pn, pn + 1)[0] == s[pn]);
    }
    assert(s[qa] == ')') by {
        assert(s.subrange(qa, qa + 1)[0] == s[qa]);
    }
    lemma_identifier_at(s, p, name);
    assert(spec_char(s, pn, '(') == Some(pa));
    if inv.args.len() == 0 {
        assert(ra =~= Seq::<char>::empty());
        assert(safe_follow(s, pa));
        lemma_expression_fails_at_safe(s, pa);
        assert(spec_arg_list(s, pa) == (pa, Seq::<ExprView>::empty()));
        assert(inv.args =~= Seq::<ExprView>::empty());
    } else {
        let r0 = render_expr(inv.args[0]);
        let rest = render_args_rest(inv.args, 1);
        assert(ra == r0 + rest);
        lemma_subrange_split(s, pa, r0, rest);
        let q0 = pa + r0.len();
        assert(wf_exprs(inv.args, 0));
        assert(wf_expr(inv.args[0]) && wf_exprs(inv.args, 1));
        if inv.args.len() > 1 {
            assert(rest == seq![',', ' '] + render_expr(inv.args[1]) + render_args_rest(
                inv.args,
                2,
            ));
            assert(s[q0] == ',') by {
                assert(s.subrange(q0, qa)[0] == s[q0]);
                assert((seq![',', ' '] + render_expr(inv.args[1]) + render_args_rest(
                    inv.args,
                    2,
                ))[0] == ',');
            }
        } else {
            assert(rest =~= Seq::<char>::empty());
            assert(q0 == qa);
        }
        assert(safe_follow(s, q0));
        lemma_expr_round_trip_at(s, pa, inv.args[0]);
        lemma_render_head(inv.args[0]);
        assert(seq![inv.args[0]] =~= inv.args.take(1));
        lemma_args_rest_at(s, q0, inv.args, 1);
        assert(spec_arg_list(s, pa) == (qa, inv.args));
    }
    assert(spec_char(s, qa, ')') == Some(q));
}

/// The arguments after the first re-parse: with the already-collected
/// prefix as accumulator, the remaining rendered arguments extend it to the
/// whole list, stopping at the closing parenthesis.
proof fn lemma_args_rest_at(s: Seq<char>, p: int, args: Seq<ExprView>, i: int)
    requires
        1 <= i <= args.len(),
        wf_exprs(args, i),
        0 <= p,
        p + render_args_rest(args, i).len() < s.len(),
        s.subrange(p, p + render_args_rest(args, i).len()) == render_args_rest(args, i),
        s[p + render_args_rest(args, i).len()] == ')',
    ensures
        spec_arg_more(s, p, args.take(i)) == (p + render_args_rest(args, i).len(), args),
    decreases args, args.len() - i, 50int,
{
    let rest = render_args_rest(args, i);
    let q = p + rest.len();
    if i == args.len() {
        assert(rest =~= Seq::<char>::empty());
        if spec_tag(s, p, tag_comma()) is Some {
            assert(s.subrange(p, p + 2)[0] == s[p]);
            assert(tag_comma()[0] == ',');
            assert(false);
        }
        assert(args.take(i) =~= args);
    } else {
        let ri = render_expr(args[i]);
        let rest2 = render_args_rest(args, i + 1);
        let x1 = seq![',', ' '];
        let x2 = x1 + ri;
        assert(rest == x2 + rest2);
        lemma_subrange_split(s, p, x2, rest2);
        lemma_subrange_split(s, p, x1, ri);
        assert(s.subrange(p, p + 2) =~= tag_comma());
        assert(spec_tag(s, p, tag_comma()) == Some(p + 2));
        let pe = p + 2;
        let qe = pe + ri.len();
        assert(wf_exprs(args, i));
        assert(wf_expr(args[i]) && wf_exprs(args, i + 1));
        if i + 1 < args.len() {
            assert(rest2 == seq![',', ' '] + render_expr(args[i + 1]) + render_args_rest(
                args,
                i + 2,
            ));
            assert(s[qe] == ',') by {
                assert(s.subrange(qe, q)[0] == s[qe]);
                assert((seq![',', ' '] + render_expr(args[i + 1]) + render_args_rest(
                    args,
                    i + 2,
                ))[0] == ',');
            }
        } else {
            assert(rest2 =~= Seq::<char>::empty());
            assert(qe == q);
        }
        assert(safe_follow(s, qe));
        lemma_expr_round_trip_at(s, pe, args[i]);
        lemma_render_head(args[i]);
        assert(args.take(i).push(args[i]) =~= args.take(i + 1));
        lemma_args_rest_at(s, qe, args, i + 1);
    }
}

/// The binding lines re-parse: with the already-collected prefix as
/// accumulator, the remaining rendered lines extend it to the whole list,
/// stopping exactly where the `in` keyword begins.
proof fn lemma_bindings_at(s: Seq<char>, p: int, bs: Seq<AssignView>, i: int)
    requires
        0 <= i <= bs.len(),
        bs.len() >= 1,
        wf_bindings(bs, i),
        0 <= p,
        p + render_bindings(bs, i).len() + 3 <= s.len(),
        s.subrange(p, p + render_bindings(bs, i).len()) == render_bindings(bs, i),
        s[p + render_bindings(bs, i).len()] == 'i',
        s[p + render_bindings(bs, i).len() + 1] == 'n',
        s[p + render_bindings(bs, i).len() + 2] == ' ',
    ensures
        spec_bindings(s, p, bs.take(i)) == Some((p + render_bindings(bs, i).len(), bs)),
    decreases bs, bs.len() - i, 50int,
{
    let region = render_bindings(bs, i);
    let q = p + region.len();
    if i == bs.len() {
        assert(region =~= Seq::<char>::empty());
        assert(q == p);
        // whitespace: none — the next scalar value is the `i` of `in`
        assert(space_run_end(s, p) == p);
        // the would-be next binding name reads `in`, which is reserved
        lemma_letter_run_localize(s, p, p + 2);
        lemma_alnum_run_localize(s, p + 2, p + 2);
        assert(s.subrange(p, p + 2) =~= kw_in());
        assert(spec_identifier_raw(s, p) == Some((p + 2, kw_in())));
        assert(is_reserved_keyword(kw_in()));
        assert(spec_identifier(s, p) is None);
        assert(spec_assignment(s, p) is None);
        assert(bs.take(i) =~= bs);
    } else {
        let ident = bs[i].identifier;
        let rv = render_expr(bs[i].value);
        let x1 = seq![' ', ' ', ' ', ' '];
        let x2 = x1 + ident;
        let x3 = x2 + seq![' ', '=', ' '];
        let x4 = x3 + rv;
        let x5 = x4 + seq!['\n'];
        assert(region == x5 + render_bindings(bs, i + 1));
        lemma_subrange_split(s, p, x5, render_bindings(bs, i + 1));
        lemma_subrange_split(s, p, x4, seq!['\n']);
        lemma_subrange_split(s, p, x3, rv);
        lemma_subrange_split(s, p, x2, seq![' ', '=', ' ']);
        lemma_subrange_split(s, p, x1, ident);
        let pi = p + 4;
        let qi = pi + ident.len();
        let pv = qi + 3;
        let qv = pv + rv.len();
        assert(wf_bindings(bs, i));
        assert(wf_expr(bs[i].value) && is_valid_identifier_text(ident) && wf_bindings(
            bs,
            i + 1,
        ));
        assert(s[p] == ' ' && s[p + 1] == ' ' && s[p + 2] == ' ' && s[p + 3] == ' ') by {
            assert(s.subrange(p, p + 4)[0] == s[p]);
            assert(s.subrange(p, p + 4)[1] == s[p + 1]);
            assert(s.subrange(p, p + 4)[2] == s[p + 2]);
            assert(s.subrange(p, p + 4)[3] == s[p + 3]);
        }
        assert(s[qi] == ' ' && s[qi + 1] == '=' && s[qi + 2] == ' ') by {
            assert(s.subrange(qi, qi + 3)[0] == s[qi]);
            assert(s.subrange(qi, qi + 3)[1] == s[qi + 1]);
            assert(s.subrange(qi, qi + 3)[2] == s[qi + 2]);
        }
        assert(s[qv] == '\n') by {
            assert(s.subrange(qv, qv + 1)[0] == s[qv]);
        }
        // leading whitespace: exactly the four spaces of the indent
        lemma_letter_run_end(ident, 0);
        assert(is_letter(ident[0]));
        assert(s[pi] == ident[0]) by {
            assert(s.subrange(pi, qi)[0] == s[pi]);
        }
        assert(!is_space_char(s[pi]));
        lemma_space_run_localize(s, p, pi);
        // the assignment: name, ` = `, value
        lemma_identifier_at(s, pi, ident);
        assert(s.subrange(qi, qi + 3) =~= tag_eq());
        assert(spec_tag(s, qi, tag_eq()) == Some(pv));
        assert(safe_follow(s, qv));
        lemma_expr_round_trip_at(s, pv, bs[i].value);
        assert(spec_assignment(s, pi) == Some(
            (qv, AssignView { identifier: ident, value: bs[i].value }),
        ));
        assert(AssignView { identifier: ident, value: bs[i].value } == bs[i]);
        assert(spec_char(s, qv, '\n') == Some(qv + 1));
        assert(bs.take(i).push(bs[i]) =~= bs.take(i + 1));
        lemma_bindings_at(s, qv + 1, bs, i + 1);
    }
}

/// Parsing is idempotent on canonical output: rendering any well-formed
/// expression and parsing the result yields exactly that expression,
/// consuming the whole text.
pub proof fn lemma_expression_round_trip(v: ExprView)
    requires
        wf_expr(v),
    ensures
        spec_expression(render_expr(v), 0) == Some((render_expr(v).len() as int, v)),
{
    let s = render_expr(v);
    assert(s.subrange(0, s.len() as int) =~= s);
    lemma_expr_round_trip_at(s, 0, v);
}

// --- function definitions and whole programs ------------------------------

/// The canonical text of one parameter.
pub open spec fn render_param(pv: ParamView) -> Seq<char> {
    pv.name + seq![':', ' '] + pv.kcl_type
}

/// The canonical text of a parameter list.
pub open spec fn render_params(ps: Seq<ParamView>) -> Seq<char> {
    if ps.len() == 0 {
        Seq::empty()
    } else {
        render_param(ps[0]) + render_params_rest(ps, 1)
    }
}

/// The canonical text of the parameters after the first.
pub open spec fn render_params_rest(ps: Seq<ParamView>, i: int) -> Seq<char>
    decreases ps.len() - i,
{
    if 0 <= i < ps.len() {
        seq![',', ' '] + render_param(ps[i]) + render_params_rest(ps, i + 1)
    } else {
        Seq::empty()
    }
}

/// The canonical text of a function definition.
pub open spec fn render_fndef(d: FnDefView) -> Seq<char> {
    d.fn_name + tag_eq() + seq!['('] + render_params(d.params) + tag_arrow() + d.return_type
        + seq![')'] + tag_fat_arrow() + seq![' '] + render_expr(d.body)
}

pub open spec fn wf_params(ps: Seq<ParamView>, i: int) -> bool
    decreases ps.len() - i,
{
    if 0 <= i < ps.len() {
        is_valid_identifier_text(ps[i].name) && is_valid_identifier_text(ps[i].kcl_type)
            && wf_params(ps, i + 1)
    } else {
        true
    }
}

/// A well-formed function definition view: one the parser could have
/// produced.
pub open spec fn wf_fndef(d: FnDefView) -> bool {
    &&& is_valid_identifier_text(d.fn_name)
    &&& wf_params(d.params, 0)
    &&& is_valid_identifier_text(d.return_type)
    &&& wf_expr(d.body)
}

/// A rendered parameter re-parses, stopping before what follows it.
proof fn lemma_param_at(s: Seq<char>, p: int, pv: ParamView)
    requires
        is_valid_identifier_text(pv.name),
        is_valid_identifier_text(pv.kcl_type),
        0 <= p,
        p + render_param(pv).len() < s.len(),
        s.subrange(p, p + render_param(pv).len()) == render_param(pv),
        s[p + render_param(pv).len()] == ',' || s[p + render_param(pv).len()] == ' ',
    ensures
        spec_parameter(s, p) == Some((p + render_param(pv).len(), pv)),
{
    let x1 = pv.name;
    let x2 = x1 + seq![':', ' '];
    assert(render_param(pv) == x2 + pv.kcl_type);
    lemma_subrange_split(s, p, x2, pv.kcl_type);
    lemma_subrange_split(s, p, x1, seq![':', ' ']);
    let qn = p + pv.name.len();
    let pt = qn + 2;
    let qt = pt + pv.kcl_type.len();
    assert(s[qn] == ':' && s[qn + 1] == ' ') by {
        assert(s.subrange(qn, pt)[0] == s[qn]);
        assert(s.subrange(qn, pt)[1] == s[qn + 1]);
    }
    lemma_identifier_at(s, p, pv.name);
    assert(s.subrange(qn, pt) =~= tag_colon());
    assert(spec_tag(s, qn, tag_colon()) == Some(pt));
    lemma_identifier_at(s, pt, pv.kcl_type);
    assert(pv == (ParamView { name: pv.name, kcl_type: pv.kcl_type }));
}

/// The parameters after the first re-parse, stopping at the space before
/// the return-type arrow.
proof fn lemma_params_rest_at(s: Seq<char>, p: int, ps: Seq<ParamView>, i: int)
    requires
        1 <= i <= ps.len(),
        wf_params(ps, i),
        0 <= p,
        p + render_params_rest(ps, i).len() < s.len(),
        s.subrange(p, p + render_params_rest(ps, i).len()) == render_params_rest(ps, i),
        s[p + render_params_rest(ps, i).len()] == ' ',
    ensures
        spec_param_more(s, p, ps.take(i)) == (p + render_params_rest(ps, i).len(), ps),
    decreases ps.len() - i,
{
    let rest = render_params_rest(ps, i);
    let q = p + rest.len();
    if i == ps.len() {
        assert(rest =~= Seq::<char>::empty());
        if spec_tag(s, p, tag_comma()) is Some {
            assert(s.subrange(p, p + 2)[0] == s[p]);
            assert(tag_comma()[0] == ',');
            assert(false);
        }
        assert(ps.take(i) =~= ps);
    } else {
        let ri = render_param(ps[i]);
        let rest2 = render_params_rest(ps, i + 1);
        let x1 = seq![',', ' '];
        let x2 = x1 + ri;
        assert(rest == x2 + rest2);
        lemma_subrange_split(s, p, x2, rest2);
        lemma_subrange_split(s, p, x1, ri);
        assert(s.subrange(p, p + 2) =~= tag_comma());
        assert(spec_tag(s, p, tag_comma()) == Some(p + 2));
        let pe = p + 2;
        let qe = pe + ri.len();
        assert(wf_params(ps, i));
        assert(is_valid_identifier_text(ps[i].name) && is_valid_identifier_text(ps[i].kcl_type)
            && wf_params(ps, i + 1));
        if i + 1 < ps.len() {
            assert(rest2 == seq![',', ' '] + render_param(ps[i + 1]) + render_params_rest(
                ps,
                i + 2,
            ));
            assert(s[qe] == ',') by {
                assert(s.subrange(qe, q)[0] == s[qe]);
                assert((seq![',', ' '] + render_param(ps[i + 1]) + render_params_rest(
                    ps,
                    i + 2,
                ))[0] == ',');
            }
        } else {
            assert(rest2 =~= Seq::<char>::empty());
            assert(qe == q);
        }
        lemma_param_at(s, pe, ps[i]);
        assert(ps.take(i).push(ps[i]) =~= ps.take(i + 1));
        lemma_params_rest_at(s, qe, ps, i + 1);
    }
}

/// A rendered function definition at `p` with a safe follower parses as
/// exactly that definition.
#[verifier::rlimit(60)]
pub proof fn lemma_fndef_round_trip_at(s: Seq<char>, p: int, d: FnDefView)
    requires
        wf_fndef(d),
        0 <= p,
        p + render_fndef(d).len() <= s.len(),
        s.subrange(p, p + render_fndef(d).len()) == render_fndef(d),
        safe_follow(s, p + render_fndef(d).len()),
    ensures
        spec_fndef(s, p) == Some((p + render_fndef(d).len(), d)),
{
    let r = render_fndef(d);
    let q = p + r.len();
    let rp = render_params(d.params);
    let rb = render_expr(d.body);
    let x1 = d.fn_name;
    let x2 = x1 + tag_eq();
    let x3 = x2 + seq!['('];
    let x4 = x3 + rp;
    let x5 = x4 + tag_arrow();
    let x6 = x5 + d.return_type;
    let x7 = x6 + seq![')'];
    let x8 = x7 + tag_fat_arrow();
    let x9 = x8 + seq![' '];
    assert(r == x9 + rb);
    lemma_subrange_split(s, p, x9, rb);
    lemma_subrange_split(s, p, x8, seq![' ']);
    lemma_subrange_split(s, p, x7, tag_fat_arrow());
    lemma_subrange_split(s, p, x6, seq![')']);
    lemma_subrange_split(s, p, x5, d.return_type);
    lemma_subrange_split(s, p, x4, tag_arrow());
    lemma_subrange_split(s, p, x3, rp);
    lemma_subrange_split(s, p, x2, seq!['(']);
    lemma_subrange_split(s, p, x1, tag_eq());
    let qn = p + d.fn_name.len();
    let pp = qn + 4;
    let qp = pp + rp.len();
    let pt = qp + 4;
    let qt = pt + d.return_type.len();
    let pb = qt + 5;
    assert(s[qn] == ' ') by {
        assert(s.subrange(qn, qn + 3)[0] == s[qn]);
        assert(tag_eq()[0] == ' ');
    }
    assert(s[qn + 3] == '(') by {
        assert(s.subrange(qn + 3, pp)[0] == s[qn + 3]);
    }
    assert(s[qp] == ' ') by {
        assert(s.subrange(qp, pt)[0] == s[qp]);
        assert(tag_arrow()[0] == ' ');
    }
    assert(s[qt] == ')') by {
        assert(s.subrange(qt, qt + 1)[0] == s[qt]);
    }
    assert(s[pb - 1] == ' ') by {
        assert(s.subrange(pb - 1, pb)[0] == s[pb - 1]);
    }
    lemma_identifier_at(s, p, d.fn_name);
    assert(spec_tag(s, qn, tag_eq()) == Some(qn + 3));
    assert(spec_char(s, qn + 3, '(') == Some(pp));
    // the parameter list
    if d.params.len() == 0 {
        assert(rp =~= Seq::<char>::empty());
        assert(qp == pp);
        assert(!is_letter(s[pp]));
        assert(letter_run_end(s, pp) == pp);
        assert(spec_identifier_raw(s, pp) is None);
        assert(spec_parameter(s, pp) is None);
        assert(spec_param_list(s, pp) == (pp, Seq::<ParamView>::empty()));
        assert(d.params =~= Seq::<ParamView>::empty());
    } else {
        let r0 = render_param(d.params[0]);
        let rest = render_params_rest(d.params, 1);
        assert(rp == r0 + rest);
        lemma_subrange_split(s, pp, r0, rest);
        let q0 = pp + r0.len();
        assert(wf_params(d.params, 0));
        assert(is_valid_identifier_text(d.params[0].name) && is_valid_identifier_text(
            d.params[0].kcl_type,
        ) && wf_params(d.params, 1));
        if d.params.len() > 1 {
            assert(rest == seq![',', ' '] + render_param(d.params[1]) + render_params_rest(
                d.params,
                2,
            ));
            assert(s[q0] == ',') by {
                assert(s.subrange(q0, qp)[0] == s[q0]);
                assert((seq![',', ' '] + render_param(d.params[1]) + render_params_rest(
                    d.params,
                    2,
                ))[0] == ',');
            }
        } else {
            assert(rest =~= Seq::<char>::empty());
            assert(q0 == qp);
        }
        lemma_param_at(s, pp, d.params[0]);
        assert(render_param(d.params[0]).len() >= 1);
        assert(seq![d.params[0]] =~= d.params.take(1));
        lemma_params_rest_at(s, q0, d.params, 1);
        assert(spec_param_list(s, pp) == (qp, d.params));
    }
    // arrow, return type, closing parenthesis, fat arrow, and the body
    assert(spec_tag(s, qp, tag_arrow()) == Some(pt));
    lemma_identifier_at(s, pt, d.return_type);
    assert(spec_char(s, qt, ')') == Some(qt + 1));
    assert(spec_tag(s, qt + 1, tag_fat_arrow()) == Some(pb - 1));
    lemma_render_head(d.body);
    assert(s[pb] == rb[0]) by {
        assert(s.subrange(pb, q)[0] == s[pb]);
    }
    lemma_space_run_localize(s, pb - 1, pb);
    lemma_expr_round_trip_at(s, pb, d.body);
    assert(d == (FnDefView {
        fn_name: d.fn_name,
        params: d.params,
        return_type: d.return_type,
        body: d.body,
    }));
}

/// Parsing is idempotent on a canonical program of one function definition:
/// rendering any well-formed definition and parsing the result as a whole
/// program yields exactly that one definition.
pub proof fn lemma_program_round_trip(d: FnDefView)
    requires
        wf_fndef(d),
    ensures
        spec_parse(render_fndef(d)) == Some(seq![d]),
{
    let s = render_fndef(d);
    assert(s.subrange(0, s.len() as int) =~= s);
    lemma_fndef_round_trip_at(s, 0, d);
    assert(s.len() >= 1) by {
        lemma_letter_run_end(d.fn_name, 0);
    }
    // after the definition the source ends: no further definition begins
    assert(letter_run_end(s, s.len() as int) == s.len());
    assert(spec_identifier_raw(s, s.len() as int) is None);
    assert(spec_fndef(s, s.len() as int) is None);
    assert(spec_program(s, s.len() as int, seq![d]) == Some(seq![d]));
    assert(Seq::<FnDefView>::empty().push(d) =~= seq![d]);
}

} // verus!
