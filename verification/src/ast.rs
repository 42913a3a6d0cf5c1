//! Abstract syntax tree that source files get parsed into, together with the
//! mathematical view of each node.
//!
//! Every node type carries, besides its content, the position metadata of the
//! identifiers in it. Views — and therefore equality — are by text content
//! only, not position.
use vstd::prelude::*;

use crate::input::Input;
use crate::unicode::chars_of;

verus! {

// ---------------------------------------------------------------------------
// Ghost views: the mathematical shape of an AST, over sequences of scalar
// values. Position metadata does not appear here.
// ---------------------------------------------------------------------------

#[verifier::ext_equal]
pub struct ParamView {
    pub name: Seq<char>,
    pub kcl_type: Seq<char>,
}

#[verifier::ext_equal]
pub struct FnInvocationView {
    pub fn_name: Seq<char>,
    pub args: Seq<ExprView>,
}

#[verifier::ext_equal]
pub enum ExprView {
    Number(u64),
    FnInvocation(FnInvocationView),
    Name(Seq<char>),
    LetIn { bindings: Seq<AssignView>, body: Box<ExprView> },
    Arithmetic { lhs: Box<ExprView>, op: Operator, rhs: Box<ExprView> },
}

#[verifier::ext_equal]
pub struct AssignView {
    pub identifier: Seq<char>,
    pub value: ExprView,
}

#[verifier::ext_equal]
pub struct FnDefView {
    pub fn_name: Seq<char>,
    pub params: Seq<ParamView>,
    pub return_type: Seq<char>,
    pub body: ExprView,
}

// ---------------------------------------------------------------------------
// Executable AST
// ---------------------------------------------------------------------------

/// Anything that can be used as the name of a constant, function or type,
/// e.g. in `x = 1` the identifier is the name `x`. The position records where
/// in the source the identifier's text begins; it takes no part in equality.
#[derive(Debug, Clone)]
pub struct Identifier {
    pub text: Vec<char>,
    pub pos: Input,
}

/// The operator of an arithmetic expression.
#[derive(Debug, Clone, Copy, PartialEq, Eq, Structural)]
pub enum Operator {
    Add,
    Sub,
    Mul,
    Div,
}

/// A declared parameter of a function definition, e.g. `radius: Distance`.
#[derive(Debug, Clone)]
pub struct Parameter {
    pub name: Identifier,
    pub kcl_type: Identifier,
}

/// A function invocation, e.g. `circle(radius)`.
#[derive(Debug)]
pub struct FnInvocation {
    pub fn_name: Identifier,
    pub args: Vec<Expression>,
}

/// Expressions can be evaluated (producing a value) or bound to identifiers
/// by assignments.
#[derive(Debug)]
pub enum Expression {
    /// Numbers are expressions.
    Number(u64),
    /// Function invocations evaluate to their return value.
    FnInvocation(FnInvocation),
    /// A value bound to a name is an expression.
    Name(Identifier),
    /// Let-in expressions evaluate to their body under the bindings.
    LetIn { bindings: Vec<Assignment>, body: Box<Expression> },
    /// Arithmetic between two sub-expressions.
    Arithmetic { lhs: Box<Expression>, op: Operator, rhs: Box<Expression> },
}

/// Assigning a value to a binding, e.g. `n = 100`.
#[derive(Debug)]
pub struct Assignment {
    pub identifier: Identifier,
    pub value: Expression,
}

/// A function definition, e.g.
/// `myCircle = (radius: Distance -> Solid2D) => circle(radius)`.
#[derive(Debug)]
pub struct FnDef {
    pub fn_name: Identifier,
    pub params: Vec<Parameter>,
    pub return_type: Identifier,
    pub body: Expression,
}

/// A program is a series of function definitions.
#[derive(Debug)]
pub struct AbstractSyntaxTree {
    pub functions: Vec<FnDef>,
}

// ---------------------------------------------------------------------------
// View functions
// ---------------------------------------------------------------------------

impl View for Identifier {
    type V = Seq<char>;

    open spec fn view(&self) -> Seq<char> {
        self.text@
    }
}

pub open spec fn param_view(p: Parameter) -> ParamView {
    ParamView { name: p.name@, kcl_type: p.kcl_type@ }
}

pub open spec fn expr_view(e: Expression) -> ExprView
    decreases e, 0int,
{
    match e {
        Expression::Number(n) => ExprView::Number(n),
        Expression::FnInvocation(inv) => ExprView::FnInvocation(invocation_view(inv)),
        Expression::Name(id) => ExprView::Name(id@),
        Expression::LetIn { bindings, body } => ExprView::LetIn {
            bindings: assigns_view_from(bindings@, 0),
            body: Box::new(expr_view(*body)),
        },
        Expression::Arithmetic { lhs, op, rhs } => ExprView::Arithmetic {
            lhs: Box::new(expr_view(*lhs)),
            op,
            rhs: Box::new(expr_view(*rhs)),
        },
    }
}

pub open spec fn invocation_view(inv: FnInvocation) -> FnInvocationView
    decreases inv, 0int,
{
    FnInvocationView { fn_name: inv.fn_name@, args: exprs_view_from(inv.args@, 0) }
}

pub open spec fn exprs_view_from(es: Seq<Expression>, i: int) -> Seq<ExprView>
    decreases es, es.len() - i,
{
    if 0 <= i < es.len() {
        seq![expr_view(es[i])] + exprs_view_from(es, i + 1)
    } else {
        Seq::empty()
    }
}

pub open spec fn assign_view(a: Assignment) -> AssignView
    decreases a, 0int,
{
    AssignView { identifier: a.identifier@, value: expr_view(a.value) }
}

pub open spec fn assigns_view_from(vs: Seq<Assignment>, i: int) -> Seq<AssignView>
    decreases vs, vs.len() - i,
{
    if 0 <= i < vs.len() {
        seq![assign_view(vs[i])] + assigns_view_from(vs, i + 1)
    } else {
        Seq::empty()
    }
}

impl View for Expression {
    type V = ExprView;

    open spec fn view(&self) -> ExprView {
        expr_view(*self)
    }
}

impl View for FnInvocation {
    type V = FnInvocationView;

    open spec fn view(&self) -> FnInvocationView {
        invocation_view(*self)
    }
}

impl View for Assignment {
    type V = AssignView;

    open spec fn view(&self) -> AssignView {
        assign_view(*self)
    }
}

impl View for Parameter {
    type V = ParamView;

    open spec fn view(&self) -> ParamView {
        param_view(*self)
    }
}

pub open spec fn params_view_from(ps: Seq<Parameter>, i: int) -> Seq<ParamView>
    decreases ps.len() - i,
{
    if 0 <= i < ps.len() {
        seq![param_view(ps[i])] + params_view_from(ps, i + 1)
    } else {
        Seq::empty()
    }
}

pub open spec fn fndef_view(d: FnDef) -> FnDefView {
    FnDefView {
        fn_name: d.fn_name@,
        params: params_view_from(d.params@, 0),
        return_type: d.return_type@,
        body: expr_view(d.body),
    }
}

impl View for FnDef {
    type V = FnDefView;

    open spec fn view(&self) -> FnDefView {
        fndef_view(*self)
    }
}

pub open spec fn fndefs_view_from(fs: Seq<FnDef>, i: int) -> Seq<FnDefView>
    decreases fs.len() - i,
{
    if 0 <= i < fs.len() {
        seq![fndef_view(fs[i])] + fndefs_view_from(fs, i + 1)
    } else {
        Seq::empty()
    }
}

impl View for AbstractSyntaxTree {
    type V = Seq<FnDefView>;

    open spec fn view(&self) -> Seq<FnDefView> {
        fndefs_view_from(self.functions@, 0)
    }
}

// ---------------------------------------------------------------------------
// Facts about the view functions
// ---------------------------------------------------------------------------

/// Prepending an element commutes with appending one.
proof fn lemma_cons_push<A>(a: A, s: Seq<A>, x: A)
    ensures
        seq![a] + s.push(x) == (seq![a] + s).push(x),
{
    assert(seq![a] + s.push(x) =~= (seq![a] + s).push(x));
}

pub proof fn lemma_exprs_view_push(es: Seq<Expression>, e: Expression, i: int)
    requires
        0 <= i <= es.len(),
    ensures
        exprs_view_from(es.push(e), i) == exprs_view_from(es, i).push(expr_view(e)),
    decreases es.len() - i,
{
    if i < es.len() {
        assert(es.push(e)[i] == es[i]);
        lemma_exprs_view_push(es, e, i + 1);
        lemma_cons_push(expr_view(es[i]), exprs_view_from(es, i + 1), expr_view(e));
    } else {
        assert(es.push(e)[i] == e);
        assert(exprs_view_from(es.push(e), i + 1) == Seq::<ExprView>::empty());
        assert(exprs_view_from(es.push(e), i) =~~= exprs_view_from(es, i).push(expr_view(e)));
    }
}

pub proof fn lemma_assigns_view_push(vs: Seq<Assignment>, a: Assignment, i: int)
    requires
        0 <= i <= vs.len(),
    ensures
        assigns_view_from(vs.push(a), i) == assigns_view_from(vs, i).push(assign_view(a)),
    decreases vs.len() - i,
{
    if i < vs.len() {
        assert(vs.push(a)[i] == vs[i]);
        lemma_assigns_view_push(vs, a, i + 1);
        lemma_cons_push(assign_view(vs[i]), assigns_view_from(vs, i + 1), assign_view(a));
    } else {
        assert(vs.push(a)[i] == a);
        assert(assigns_view_from(vs.push(a), i + 1) == Seq::<AssignView>::empty());
        assert(assigns_view_from(vs.push(a), i) =~~= assigns_view_from(vs, i).push(
            assign_view(a),
        ));
    }
}

pub proof fn lemma_params_view_push(ps: Seq<Parameter>, p: Parameter, i: int)
    requires
        0 <= i <= ps.len(),
    ensures
        params_view_from(ps.push(p), i) == params_view_from(ps, i).push(param_view(p)),
    decreases ps.len() - i,
{
    if i < ps.len() {
        assert(ps.push(p)[i] == ps[i]);
        lemma_params_view_push(ps, p, i + 1);
        lemma_cons_push(param_view(ps[i]), params_view_from(ps, i + 1), param_view(p));
    } else {
        assert(ps.push(p)[i] == p);
        assert(params_view_from(ps.push(p), i + 1) == Seq::<ParamView>::empty());
        assert(params_view_from(ps.push(p), i) =~~= params_view_from(ps, i).push(param_view(p)));
    }
}

pub proof fn lemma_fndefs_view_push(fs: Seq<FnDef>, d: FnDef, i: int)
    requires
        0 <= i <= fs.len(),
    ensures
        fndefs_view_from(fs.push(d), i) == fndefs_view_from(fs, i).push(fndef_view(d)),
    decreases fs.len() - i,
{
    if i < fs.len() {
        assert(fs.push(d)[i] == fs[i]);
        lemma_fndefs_view_push(fs, d, i + 1);
        lemma_cons_push(fndef_view(fs[i]), fndefs_view_from(fs, i + 1), fndef_view(d));
    } else {
        assert(fs.push(d)[i] == d);
        assert(fndefs_view_from(fs.push(d), i + 1) == Seq::<FnDefView>::empty());
        assert(fndefs_view_from(fs.push(d), i) =~~= fndefs_view_from(fs, i).push(fndef_view(d)));
    }
}

pub proof fn lemma_exprs_view_props(es: Seq<Expression>, i: int)
    requires
        0 <= i <= es.len(),
    ensures
        exprs_view_from(es, i).len() == es.len() - i,
        forall|j: int|
            0 <= j < es.len() - i ==> #[trigger] exprs_view_from(es, i)[j] == expr_view(
                es[i + j],
            ),
    decreases es.len() - i,
{
    if i < es.len() {
        lemma_exprs_view_props(es, i + 1);
        assert forall|j: int| 0 <= j < es.len() - i implies #[trigger] exprs_view_from(es, i)[j]
            == expr_view(es[i + j]) by {
            if j > 0 {
                assert(exprs_view_from(es, i)[j] == exprs_view_from(es, i + 1)[j - 1]);
            }
        }
    }
}

pub proof fn lemma_assigns_view_props(vs: Seq<Assignment>, i: int)
    requires
        0 <= i <= vs.len(),
    ensures
        assigns_view_from(vs, i).len() == vs.len() - i,
        forall|j: int|
            0 <= j < vs.len() - i ==> #[trigger] assigns_view_from(vs, i)[j] == assign_view(
                vs[i + j],
            ),
    decreases vs.len() - i,
{
    if i < vs.len() {
        lemma_assigns_view_props(vs, i + 1);
        assert forall|j: int| 0 <= j < vs.len() - i implies #[trigger] assigns_view_from(vs, i)[j]
            == assign_view(vs[i + j]) by {
            if j > 0 {
                assert(assigns_view_from(vs, i)[j] == assigns_view_from(vs, i + 1)[j - 1]);
            }
        }
    }
}

pub proof fn lemma_params_view_props(ps: Seq<Parameter>, i: int)
    requires
        0 <= i <= ps.len(),
    ensures
        params_view_from(ps, i).len() == ps.len() - i,
        forall|j: int|
            0 <= j < ps.len() - i ==> #[trigger] params_view_from(ps, i)[j] == param_view(
                ps[i + j],
            ),
    decreases ps.len() - i,
{
    if i < ps.len() {
        lemma_params_view_props(ps, i + 1);
        assert forall|j: int| 0 <= j < ps.len() - i implies #[trigger] params_view_from(ps, i)[j]
            == param_view(ps[i + j]) by {
            if j > 0 {
                assert(params_view_from(ps, i)[j] == params_view_from(ps, i + 1)[j - 1]);
            }
        }
    }
}

pub proof fn lemma_fndefs_view_props(fs: Seq<FnDef>, i: int)
    requires
        0 <= i <= fs.len(),
    ensures
        fndefs_view_from(fs, i).len() == fs.len() - i,
        forall|j: int|
            0 <= j < fs.len() - i ==> #[trigger] fndefs_view_from(fs, i)[j] == fndef_view(
                fs[i + j],
            ),
    decreases fs.len() - i,
{
    if i < fs.len() {
        lemma_fndefs_view_props(fs, i + 1);
        assert forall|j: int| 0 <= j < fs.len() - i implies #[trigger] fndefs_view_from(fs, i)[j]
            == fndef_view(fs[i + j]) by {
            if j > 0 {
                assert(fndefs_view_from(fs, i)[j] == fndefs_view_from(fs, i + 1)[j - 1]);
            }
        }
    }
}

// ---------------------------------------------------------------------------
// Structural equality: by text content, never by position
// ---------------------------------------------------------------------------

/// Whether two character vectors hold the same text.
fn chars_eq(a: &Vec<char>, b: &Vec<char>) -> (r: bool)
    ensures
        r == (a@ == b@),
{
    if a.len() != b.len() {
        return false;
    }
    let mut k: usize = 0;
    while k < a.len()
        invariant
            k <= a@.len(),
            a@.len() == b@.len(),
            forall|j: int| 0 <= j < k ==> a@[j] == b@[j],
        decreases a@.len() - k,
    {
        if a[k] != b[k] {
            return false;
        }
        k = k + 1;
    }
    proof {
        assert(a@ =~= b@);
    }
    true
}

/// Whether two expressions are structurally equal, ignoring positions.
fn expr_eq(x: &Expression, y: &Expression) -> (r: bool)
    ensures
        r == (expr_view(*x) == expr_view(*y)),
    decreases *x, 0int,
{
    match (x, y) {
        (Expression::Number(a), Expression::Number(b)) => *a == *b,
        (Expression::FnInvocation(ia), Expression::FnInvocation(ib)) => invocation_eq(ia, ib),
        (Expression::Name(a), Expression::Name(b)) => chars_eq(&a.text, &b.text),
        (
            Expression::LetIn { bindings: ba, body: ea },
            Expression::LetIn { bindings: bb, body: eb },
        ) => assigns_eq(ba, bb) && expr_eq(ea, eb),
        (
            Expression::Arithmetic { lhs: la, op: oa, rhs: ra },
            Expression::Arithmetic { lhs: lb, op: ob, rhs: rb },
        ) => expr_eq(la, lb) && *oa == *ob && expr_eq(ra, rb),
        _ => false,
    }
}

/// Whether two invocations are structurally equal, ignoring positions.
fn invocation_eq(a: &FnInvocation, b: &FnInvocation) -> (r: bool)
    ensures
        r == (invocation_view(*a) == invocation_view(*b)),
    decreases *a, 1int,
{
    chars_eq(&a.fn_name.text, &b.fn_name.text) && exprs_eq(&a.args, &b.args)
}

/// Whether two expression lists are elementwise structurally equal.
fn exprs_eq(a: &Vec<Expression>, b: &Vec<Expression>) -> (r: bool)
    ensures
        r == (exprs_view_from(a@, 0) == exprs_view_from(b@, 0)),
    decreases *a, 2int,
{
    proof {
        lemma_exprs_view_props(a@, 0);
        lemma_exprs_view_props(b@, 0);
    }
    if a.len() != b.len() {
        return false;
    }
    let mut k: usize = 0;
    while k < a.len()
        invariant
            k <= a@.len(),
            a@.len() == b@.len(),
            forall|j: int| 0 <= j < k ==> expr_view(a@[j]) == expr_view(b@[j]),
            exprs_view_from(a@, 0).len() == a@.len(),
            exprs_view_from(b@, 0).len() == b@.len(),
            forall|j: int|
                0 <= j < a@.len() ==> #[trigger] exprs_view_from(a@, 0)[j] == expr_view(a@[j]),
            forall|j: int|
                0 <= j < b@.len() ==> #[trigger] exprs_view_from(b@, 0)[j] == expr_view(b@[j]),
        decreases a@.len() - k, 3int,
    {
        if !expr_eq(&a[k], &b[k]) {
            proof {
                assert(exprs_view_from(a@, 0)[k as int] == expr_view(a@[k as int]));
                assert(exprs_view_from(b@, 0)[k as int] == expr_view(b@[k as int]));
            }
            return false;
        }
        k = k + 1;
    }
    proof {
        assert(exprs_view_from(a@, 0) =~= exprs_view_from(b@, 0));
    }
    true
}

/// Whether two assignments are structurally equal, ignoring positions.
fn assign_eq(a: &Assignment, b: &Assignment) -> (r: bool)
    ensures
        r == (assign_view(*a) == assign_view(*b)),
    decreases *a, 1int,
{
    chars_eq(&a.identifier.text, &b.identifier.text) && expr_eq(&a.value, &b.value)
}

/// Whether two binding lists are elementwise structurally equal.
fn assigns_eq(a: &Vec<Assignment>, b: &Vec<Assignment>) -> (r: bool)
    ensures
        r == (assigns_view_from(a@, 0) == assigns_view_from(b@, 0)),
    decreases *a, 2int,
{
    proof {
        lemma_assigns_view_props(a@, 0);
        lemma_assigns_view_props(b@, 0);
    }
    if a.len() != b.len() {
        return false;
    }
    let mut k: usize = 0;
    while k < a.len()
        invariant
            k <= a@.len(),
            a@.len() == b@.len(),
            forall|j: int| 0 <= j < k ==> assign_view(a@[j]) == assign_view(b@[j]),
            assigns_view_from(a@, 0).len() == a@.len(),
            assigns_view_from(b@, 0).len() == b@.len(),
            forall|j: int|
                0 <= j < a@.len() ==> #[trigger] assigns_view_from(a@, 0)[j] == assign_view(
                    a@[j],
                ),
            forall|j: int|
                0 <= j < b@.len() ==> #[trigger] assigns_view_from(b@, 0)[j] == assign_view(
                    b@[j],
                ),
        decreases a@.len() - k, 3int,
    {
        if !assign_eq(&a[k], &b[k]) {
            proof {
                assert(assigns_view_from(a@, 0)[k as int] == assign_view(a@[k as int]));
                assert(assigns_view_from(b@, 0)[k as int] == assign_view(b@[k as int]));
            }
            return false;
        }
        k = k + 1;
    }
    proof {
        assert(assigns_view_from(a@, 0) =~= assigns_view_from(b@, 0));
    }
    true
}

/// Whether two parameters are structurally equal, ignoring positions.
fn param_eq(a: &Parameter, b: &Parameter) -> (r: bool)
    ensures
        r == (param_view(*a) == param_view(*b)),
{
    chars_eq(&a.name.text, &b.name.text) && chars_eq(&a.kcl_type.text, &b.kcl_type.text)
}

/// Whether two parameter lists are elementwise structurally equal.
fn params_eq(a: &Vec<Parameter>, b: &Vec<Parameter>) -> (r: bool)
    ensures
        r == (params_view_from(a@, 0) == params_view_from(b@, 0)),
{
    proof {
        lemma_params_view_props(a@, 0);
        lemma_params_view_props(b@, 0);
    }
    if a.len() != b.len() {
        return false;
    }
    let mut k: usize = 0;
    while k < a.len()
        invariant
            k <= a@.len(),
            a@.len() == b@.len(),
            forall|j: int| 0 <= j < k ==> param_view(a@[j]) == param_view(b@[j]),
            params_view_from(a@, 0).len() == a@.len(),
            params_view_from(b@, 0).len() == b@.len(),
            forall|j: int|
                0 <= j < a@.len() ==> #[trigger] params_view_from(a@, 0)[j] == param_view(a@[j]),
            forall|j: int|
                0 <= j < b@.len() ==> #[trigger] params_view_from(b@, 0)[j] == param_view(b@[j]),
        decreases a@.len() - k,
    {
        if !param_eq(&a[k], &b[k]) {
            proof {
                assert(params_view_from(a@, 0)[k as int] == param_view(a@[k as int]));
                assert(params_view_from(b@, 0)[k as int] == param_view(b@[k as int]));
            }
            return false;
        }
        k = k + 1;
    }
    proof {
        assert(params_view_from(a@, 0) =~= params_view_from(b@, 0));
    }
    true
}

/// Whether two function definitions are structurally equal, ignoring
/// positions.
fn fndef_eq(a: &FnDef, b: &FnDef) -> (r: bool)
    ensures
        r == (fndef_view(*a) == fndef_view(*b)),
{
    chars_eq(&a.fn_name.text, &b.fn_name.text) && params_eq(&a.params, &b.params) && chars_eq(
        &a.return_type.text,
        &b.return_type.text,
    ) && expr_eq(&a.body, &b.body)
}

/// Whether two definition lists are elementwise structurally equal.
fn fndefs_eq(a: &Vec<FnDef>, b: &Vec<FnDef>) -> (r: bool)
    ensures
        r == (fndefs_view_from(a@, 0) == fndefs_view_from(b@, 0)),
{
    proof {
        lemma_fndefs_view_props(a@, 0);
        lemma_fndefs_view_props(b@, 0);
    }
    if a.len() != b.len() {
        return false;
    }
    let mut k: usize = 0;
    while k < a.len()
        invariant
            k <= a@.len(),
            a@.len() == b@.len(),
            forall|j: int| 0 <= j < k ==> fndef_view(a@[j]) == fndef_view(b@[j]),
            fndefs_view_from(a@, 0).len() == a@.len(),
            fndefs_view_from(b@, 0).len() == b@.len(),
            forall|j: int|
                0 <= j < a@.len() ==> #[trigger] fndefs_view_from(a@, 0)[j] == fndef_view(a@[j]),
            forall|j: int|
                0 <= j < b@.len() ==> #[trigger] fndefs_view_from(b@, 0)[j] == fndef_view(b@[j]),
        decreases a@.len() - k,
    {
        if !fndef_eq(&a[k], &b[k]) {
            proof {
                assert(fndefs_view_from(a@, 0)[k as int] == fndef_view(a@[k as int]));
                assert(fndefs_view_from(b@, 0)[k as int] == fndef_view(b@[k as int]));
            }
            return false;
        }
        k = k + 1;
    }
    proof {
        assert(fndefs_view_from(a@, 0) =~= fndefs_view_from(b@, 0));
    }
    true
}

impl Identifier {
    /// An identifier holding the given text, positioned at the start of a
    /// source. The parser is the only way to obtain an identifier with a
    /// meaningful position; this is for building expected values by hand.
    pub fn from_text(text: &str) -> (r: Identifier)
        ensures
            r@ == text@,
            r.pos.offset == 0,
    {
        Identifier { text: chars_of(text), pos: Input::new() }
    }
}

impl PartialEq for Identifier {
    fn eq(&self, other: &Self) -> (r: bool) {
        chars_eq(&self.text, &other.text)
    }
}

impl vstd::std_specs::cmp::PartialEqSpecImpl for Identifier {
    open spec fn obeys_eq_spec() -> bool {
        true
    }

    open spec fn eq_spec(&self, other: &Self) -> bool {
        self.text@ == other.text@
    }
}

impl PartialEq for Expression {
    fn eq(&self, other: &Self) -> (r: bool) {
        expr_eq(self, other)
    }
}

impl vstd::std_specs::cmp::PartialEqSpecImpl for Expression {
    open spec fn obeys_eq_spec() -> bool {
        true
    }

    open spec fn eq_spec(&self, other: &Self) -> bool {
        expr_view(*self) == expr_view(*other)
    }
}

impl PartialEq for FnInvocation {
    fn eq(&self, other: &Self) -> (r: bool) {
        invocation_eq(self, other)
    }
}

impl vstd::std_specs::cmp::PartialEqSpecImpl for FnInvocation {
    open spec fn obeys_eq_spec() -> bool {
        true
    }

    open spec fn eq_spec(&self, other: &Self) -> bool {
        invocation_view(*self) == invocation_view(*other)
    }
}

impl PartialEq for Assignment {
    fn eq(&self, other: &Self) -> (r: bool) {
        assign_eq(self, other)
    }
}

impl vstd::std_specs::cmp::PartialEqSpecImpl for Assignment {
    open spec fn obeys_eq_spec() -> bool {
        true
    }

    open spec fn eq_spec(&self, other: &Self) -> bool {
        assign_view(*self) == assign_view(*other)
    }
}

impl PartialEq for Parameter {
    fn eq(&self, other: &Self) -> (r: bool) {
        param_eq(self, other)
    }
}

impl vstd::std_specs::cmp::PartialEqSpecImpl for Parameter {
    open spec fn obeys_eq_spec() -> bool {
        true
    }

    open spec fn eq_spec(&self, other: &Self) -> bool {
        param_view(*self) == param_view(*other)
    }
}

impl PartialEq for FnDef {
    fn eq(&self, other: &Self) -> (r: bool) {
        fndef_eq(self, other)
    }
}

impl vstd::std_specs::cmp::PartialEqSpecImpl for FnDef {
    open spec fn obeys_eq_spec() -> bool {
        true
    }

    open spec fn eq_spec(&self, other: &Self) -> bool {
        fndef_view(*self) == fndef_view(*other)
    }
}

impl PartialEq for AbstractSyntaxTree {
    fn eq(&self, other: &Self) -> (r: bool) {
        fndefs_eq(&self.functions, &other.functions)
    }
}

impl vstd::std_specs::cmp::PartialEqSpecImpl for AbstractSyntaxTree {
    open spec fn obeys_eq_spec() -> bool {
        true
    }

    open spec fn eq_spec(&self, other: &Self) -> bool {
        fndefs_view_from(self.functions@, 0) == fndefs_view_from(other.functions@, 0)
    }
}

} // verus!
