use vstd::prelude::*;
use crate::lexing::tokens::{AssignOp, Span, TokenKind};

verus! {

/// The integer type that all arena indices are made of.
pub type AstIds = usize;

/// The index of an expression in the `AstArena`.
#[derive(Clone, Copy, PartialEq, Eq, Debug, Hash, Structural)]
pub struct ExprId(pub AstIds);

/// The index of a pattern in the `AstArena`.
#[derive(Clone, Copy, PartialEq, Eq, Debug, Hash, Structural)]
pub struct PatternId(pub AstIds);

/// The whole abstract syntax tree: nodes refer to their children by index.
pub struct AstArena {
    pub exprs: Vec<Expr>,
    pub expr_spans: Vec<Span>,
    pub patterns: Vec<Pattern>,
    pub pattern_spans: Vec<Span>,
    /// A rank for each expression and pattern: every node ranks above its children, so that
    /// walking from a node to its children always ends.
    pub expr_ranks: Ghost<Seq<nat>>,
    pub pattern_ranks: Ghost<Seq<nat>>,
}

/// Everything is an expression.
#[allow(inconsistent_fields)]
#[derive(Debug)]
pub enum Expr {
    Literal { val: AstValue },
    Prefix { op: TokenKind, right: ExprId },
    Infix { op: TokenKind, op_span: Span, left: ExprId, right: ExprId },
    Block { exprs: Vec<ExprId>, label: Option<String> },
    IdentifierRef { name: String, mutable: bool },
    Assign { pattern: PatternId, value: ExprId, extra_op: Option<AssignOp>, op_span: Span },
    EmptyLet { pattern: PatternId },
    Const { pattern: PatternId, value: ExprId },
    CustomType { name: String, value: ExprId },
    Move { expr: ExprId },
    Borrow { expr: ExprId, mutable: bool },
    MemberAccess { left: ExprId, member: String },
    TypeMemberAccess { left: ExprId, member: String },
    TemplateString { elems: Vec<ExprId> },
    Tuple { elems: Vec<AstTupleElement> },
    TupleArr { elem: ExprId, length: ExprId },
    Index { left: ExprId, index: ExprId },
    If { condition: ExprId, then: ExprId, alt: ExprId, never_alt: bool },
    Is { value: ExprId, pattern: PatternId },
    Match { match_value: ExprId, arms: Vec<AstMatchArm> },
    While { condition: ExprId, body: ExprId, label: String },
    For { pattern: PatternId, iter_expr: ExprId, body: ExprId, label: String },
    Loop { body: ExprId, label: String },
    FnDefinition { name: String, closure: AstClosure },
    Closure { closure: AstClosure, requires_type_annotation: bool },
    Call { callee: ExprId, arguments: Vec<ExprId> },
    TypeInstantiation { typ: ExprId, data: ExprId },
    EnumDefinition { variants: Vec<AstEnumExpression> },
    EnumVariant { data: AstEnumExpression },
    ImplBlock { typ: ExprId, const_exprs: Vec<ExprId> },
    ImplSelf,
    Return { expr: ExprId },
    Break { label: Option<String>, expr: ExprId },
    Continue { label: Option<String> },
    Void,
    ParserError,
}

/// A literal value. A float literal is kept as its source text.
#[derive(Debug)]
pub enum AstValue {
    NumInt(i64),
    NumFloat(String),
    Str(String),
    Bool(bool),
}

#[derive(Debug)]
pub enum Pattern {
    Wildcard,
    Not(PatternId),
    Or(Vec<PatternId>),
    Tuple(Vec<AstTuplePattern>),
    String { before: String, hole_parts: Vec<(PatternId, String)> },
    Binding { name: String, mutable: bool },
    TypeDestructor { typ: ExprId, data: PatternId },
    EnumVariant { name: String, attached_tuple: Option<PatternId> },
    Conditional { pattern: PatternId, cond: ExprId },
    Typed { pattern: PatternId, typ: ExprId },
    CompareExpr(ExprId),
    PlacePointer(ExprId),
}

#[derive(Debug)]
pub struct AstClosure {
    pub params: Vec<PatternId>,
    pub return_type: Option<ExprId>,
    pub body: ExprId,
}

#[derive(Debug)]
pub struct AstTupleElement {
    pub label: String,
    pub expr: ExprId,
}

#[derive(Debug)]
pub struct AstTuplePattern {
    pub label: String,
    pub pattern: PatternId,
}

#[derive(Debug)]
pub struct AstMatchArm {
    pub pattern: PatternId,
    pub body: ExprId,
}

#[derive(Debug)]
pub struct AstEnumExpression {
    pub variant_name: String,
    pub attached_tuple: Option<ExprId>,
}

pub open spec fn opt_expr_lt(o: Option<ExprId>, n: nat) -> bool {
    match o { Some(e) => e.0 < n, None => true }
}

pub open spec fn opt_pat_lt(o: Option<PatternId>, n: nat) -> bool {
    match o { Some(p) => p.0 < n, None => true }
}

pub open spec fn closure_children_lt(c: AstClosure, ne: nat, np: nat) -> bool {
    &&& forall|i: int| 0 <= i < c.params@.len() ==> (#[trigger] c.params@[i]).0 < np
    &&& opt_expr_lt(c.return_type, ne)
    &&& c.body.0 < ne
}

/// Every expression that `e` refers to has an index below `ne`, every pattern one below `np`.
pub open spec fn expr_children_lt(e: Expr, ne: nat, np: nat) -> bool {
    match e {
        Expr::Literal { .. } | Expr::IdentifierRef { .. } | Expr::ImplSelf | Expr::Continue { .. }
        | Expr::Void | Expr::ParserError => true,
        Expr::Prefix { right, .. } => right.0 < ne,
        Expr::Infix { left, right, .. } => left.0 < ne && right.0 < ne,
        Expr::Block { exprs, .. } => forall|i: int| 0 <= i < exprs@.len() ==> (#[trigger] exprs@[i]).0 < ne,
        Expr::Assign { pattern, value, .. } => pattern.0 < np && value.0 < ne,
        Expr::EmptyLet { pattern } => pattern.0 < np,
        Expr::Const { pattern, value } => pattern.0 < np && value.0 < ne,
        Expr::CustomType { value, .. } => value.0 < ne,
        Expr::Move { expr } => expr.0 < ne,
        Expr::Borrow { expr, .. } => expr.0 < ne,
        Expr::MemberAccess { left, .. } => left.0 < ne,
        Expr::TypeMemberAccess { left, .. } => left.0 < ne,
        Expr::TemplateString { elems } => forall|i: int| 0 <= i < elems@.len() ==> (#[trigger] elems@[i]).0 < ne,
        Expr::Tuple { elems } => forall|i: int| 0 <= i < elems@.len() ==> (#[trigger] elems@[i]).expr.0 < ne,
        Expr::TupleArr { elem, length } => elem.0 < ne && length.0 < ne,
        Expr::Index { left, index } => left.0 < ne && index.0 < ne,
        Expr::If { condition, then, alt, .. } => condition.0 < ne && then.0 < ne && alt.0 < ne,
        Expr::Is { value, pattern } => value.0 < ne && pattern.0 < np,
        Expr::Match { match_value, arms } => match_value.0 < ne
            && forall|i: int| 0 <= i < arms@.len() ==> (#[trigger] arms@[i]).pattern.0 < np && arms@[i].body.0 < ne,
        Expr::While { condition, body, .. } => condition.0 < ne && body.0 < ne,
        Expr::For { pattern, iter_expr, body, .. } => pattern.0 < np && iter_expr.0 < ne && body.0 < ne,
        Expr::Loop { body, .. } => body.0 < ne,
        Expr::FnDefinition { closure, .. } => closure_children_lt(closure, ne, np),
        Expr::Closure { closure, .. } => closure_children_lt(closure, ne, np),
        Expr::Call { callee, arguments } => callee.0 < ne
            && forall|i: int| 0 <= i < arguments@.len() ==> (#[trigger] arguments@[i]).0 < ne,
        Expr::TypeInstantiation { typ, data } => typ.0 < ne && data.0 < ne,
        Expr::EnumDefinition { variants } =>
            forall|i: int| 0 <= i < variants@.len() ==> opt_expr_lt((#[trigger] variants@[i]).attached_tuple, ne),
        Expr::EnumVariant { data } => opt_expr_lt(data.attached_tuple, ne),
        Expr::ImplBlock { typ, const_exprs } => typ.0 < ne
            && forall|i: int| 0 <= i < const_exprs@.len() ==> (#[trigger] const_exprs@[i]).0 < ne,
        Expr::Return { expr } => expr.0 < ne,
        Expr::Break { expr, .. } => expr.0 < ne,
    }
}

/// Every expression that `p` refers to has an index below `ne`, every pattern one below `np`.
pub open spec fn pattern_children_lt(p: Pattern, ne: nat, np: nat) -> bool {
    match p {
        Pattern::Wildcard | Pattern::Binding { .. } => true,
        Pattern::Not(q) => q.0 < np,
        Pattern::Or(ps) => forall|i: int| 0 <= i < ps@.len() ==> (#[trigger] ps@[i]).0 < np,
        Pattern::Tuple(elems) => forall|i: int| 0 <= i < elems@.len() ==> (#[trigger] elems@[i]).pattern.0 < np,
        Pattern::String { hole_parts, .. } => forall|i: int| 0 <= i < hole_parts@.len() ==> (#[trigger] hole_parts@[i]).0.0 < np,
        Pattern::TypeDestructor { typ, data } => typ.0 < ne && data.0 < np,
        Pattern::EnumVariant { attached_tuple, .. } => opt_pat_lt(attached_tuple, np),
        Pattern::Conditional { pattern, cond } => pattern.0 < np && cond.0 < ne,
        Pattern::Typed { pattern, typ } => pattern.0 < np && typ.0 < ne,
        Pattern::CompareExpr(e) => e.0 < ne,
        Pattern::PlacePointer(e) => e.0 < ne,
    }
}


pub open spec fn opt_expr_all(o: Option<ExprId>, fe: spec_fn(ExprId) -> bool) -> bool {
    match o { Some(e) => fe(e), None => true }
}

pub open spec fn opt_pat_all(o: Option<PatternId>, fp: spec_fn(PatternId) -> bool) -> bool {
    match o { Some(p) => fp(p), None => true }
}

pub open spec fn closure_children_all(c: AstClosure, fe: spec_fn(ExprId) -> bool, fp: spec_fn(PatternId) -> bool) -> bool {
    &&& forall|i: int| 0 <= i < c.params@.len() ==> fp(#[trigger] c.params@[i])
    &&& opt_expr_all(c.return_type, fe)
    &&& fe(c.body)
}

/// Every expression that `e` refers to satisfies `fe`, every pattern `fp`.
pub open spec fn expr_children_all(e: Expr, fe: spec_fn(ExprId) -> bool, fp: spec_fn(PatternId) -> bool) -> bool {
    match e {
        Expr::Literal { .. } | Expr::IdentifierRef { .. } | Expr::ImplSelf | Expr::Continue { .. }
        | Expr::Void | Expr::ParserError => true,
        Expr::Prefix { right, .. } => fe(right),
        Expr::Infix { left, right, .. } => fe(left) && fe(right),
        Expr::Block { exprs, .. } => forall|i: int| 0 <= i < exprs@.len() ==> fe(#[trigger] exprs@[i]),
        Expr::Assign { pattern, value, .. } => fp(pattern) && fe(value),
        Expr::EmptyLet { pattern } => fp(pattern),
        Expr::Const { pattern, value } => fp(pattern) && fe(value),
        Expr::CustomType { value, .. } => fe(value),
        Expr::Move { expr } => fe(expr),
        Expr::Borrow { expr, .. } => fe(expr),
        Expr::MemberAccess { left, .. } => fe(left),
        Expr::TypeMemberAccess { left, .. } => fe(left),
        Expr::TemplateString { elems } => forall|i: int| 0 <= i < elems@.len() ==> fe(#[trigger] elems@[i]),
        Expr::Tuple { elems } => forall|i: int| 0 <= i < elems@.len() ==> fe((#[trigger] elems@[i]).expr),
        Expr::TupleArr { elem, length } => fe(elem) && fe(length),
        Expr::Index { left, index } => fe(left) && fe(index),
        Expr::If { condition, then, alt, .. } => fe(condition) && fe(then) && fe(alt),
        Expr::Is { value, pattern } => fe(value) && fp(pattern),
        Expr::Match { match_value, arms } => fe(match_value)
            && forall|i: int| 0 <= i < arms@.len() ==> fp((#[trigger] arms@[i]).pattern) && fe(arms@[i].body),
        Expr::While { condition, body, .. } => fe(condition) && fe(body),
        Expr::For { pattern, iter_expr, body, .. } => fp(pattern) && fe(iter_expr) && fe(body),
        Expr::Loop { body, .. } => fe(body),
        Expr::FnDefinition { closure, .. } => closure_children_all(closure, fe, fp),
        Expr::Closure { closure, .. } => closure_children_all(closure, fe, fp),
        Expr::Call { callee, arguments } => fe(callee)
            && forall|i: int| 0 <= i < arguments@.len() ==> fe(#[trigger] arguments@[i]),
        Expr::TypeInstantiation { typ, data } => fe(typ) && fe(data),
        Expr::EnumDefinition { variants } =>
            forall|i: int| 0 <= i < variants@.len() ==> opt_expr_all((#[trigger] variants@[i]).attached_tuple, fe),
        Expr::EnumVariant { data } => opt_expr_all(data.attached_tuple, fe),
        Expr::ImplBlock { typ, const_exprs } => fe(typ)
            && forall|i: int| 0 <= i < const_exprs@.len() ==> fe(#[trigger] const_exprs@[i]),
        Expr::Return { expr } => fe(expr),
        Expr::Break { expr, .. } => fe(expr),
    }
}

/// Every expression that `p` refers to satisfies `fe`, every pattern `fp`.
pub open spec fn pattern_children_all(p: Pattern, fe: spec_fn(ExprId) -> bool, fp: spec_fn(PatternId) -> bool) -> bool {
    match p {
        Pattern::Wildcard | Pattern::Binding { .. } => true,
        Pattern::Not(q) => fp(q),
        Pattern::Or(ps) => forall|i: int| 0 <= i < ps@.len() ==> fp(#[trigger] ps@[i]),
        Pattern::Tuple(elems) => forall|i: int| 0 <= i < elems@.len() ==> fp((#[trigger] elems@[i]).pattern),
        Pattern::String { hole_parts, .. } => forall|i: int| 0 <= i < hole_parts@.len() ==> fp((#[trigger] hole_parts@[i]).0),
        Pattern::TypeDestructor { typ, data } => fe(typ) && fp(data),
        Pattern::EnumVariant { attached_tuple, .. } => opt_pat_all(attached_tuple, fp),
        Pattern::Conditional { pattern, cond } => fp(pattern) && fe(cond),
        Pattern::Typed { pattern, typ } => fp(pattern) && fe(typ),
        Pattern::CompareExpr(e) => fe(e),
        Pattern::PlacePointer(e) => fe(e),
    }
}

/// What holds of all the ids below the bounds holds of the children of a node whose children are below them.
pub proof fn lemma_children_lt_all(e: Expr, ne: nat, np: nat, fe: spec_fn(ExprId) -> bool, fp: spec_fn(PatternId) -> bool)
    requires
        expr_children_lt(e, ne, np),
        forall|c: ExprId| c.0 < ne ==> #[trigger] fe(c),
        forall|q: PatternId| q.0 < np ==> #[trigger] fp(q),
    ensures
        expr_children_all(e, fe, fp),
{
}

/// Children below the bounds that satisfy `fe`/`fp` there also satisfy `ge`/`gp`, where those follow below the bounds.
pub proof fn lemma_children_all_transfer(e: Expr, ne: nat, np: nat, fe: spec_fn(ExprId) -> bool, fp: spec_fn(PatternId) -> bool,
    ge: spec_fn(ExprId) -> bool, gp: spec_fn(PatternId) -> bool)
    requires
        expr_children_lt(e, ne, np),
        expr_children_all(e, fe, fp),
        forall|c: ExprId| c.0 < ne && #[trigger] fe(c) ==> ge(c),
        forall|q: PatternId| q.0 < np && #[trigger] fp(q) ==> gp(q),
    ensures
        expr_children_all(e, ge, gp),
{
}

/// Children below the bounds that satisfy `fe`/`fp` there also satisfy `ge`/`gp`, where those follow below the bounds.
pub proof fn lemma_pattern_children_all_transfer(p: Pattern, ne: nat, np: nat, fe: spec_fn(ExprId) -> bool, fp: spec_fn(PatternId) -> bool,
    ge: spec_fn(ExprId) -> bool, gp: spec_fn(PatternId) -> bool)
    requires
        pattern_children_lt(p, ne, np),
        pattern_children_all(p, fe, fp),
        forall|c: ExprId| c.0 < ne && #[trigger] fe(c) ==> ge(c),
        forall|q: PatternId| q.0 < np && #[trigger] fp(q) ==> gp(q),
    ensures
        pattern_children_all(p, ge, gp),
{
}


/// A node whose children satisfy two pairs of conditions satisfies their conjunction.
pub proof fn lemma_children_all_and(e: Expr, fe: spec_fn(ExprId) -> bool, fp: spec_fn(PatternId) -> bool,
    ge: spec_fn(ExprId) -> bool, gp: spec_fn(PatternId) -> bool)
    requires
        expr_children_all(e, fe, fp),
        expr_children_all(e, ge, gp),
    ensures
        expr_children_all(e, |c: ExprId| fe(c) && ge(c), |q: PatternId| fp(q) && gp(q)),
{
}

/// A pattern whose children satisfy two pairs of conditions satisfies their conjunction.
pub proof fn lemma_pattern_children_all_and(p: Pattern, fe: spec_fn(ExprId) -> bool, fp: spec_fn(PatternId) -> bool,
    ge: spec_fn(ExprId) -> bool, gp: spec_fn(PatternId) -> bool)
    requires
        pattern_children_all(p, fe, fp),
        pattern_children_all(p, ge, gp),
    ensures
        pattern_children_all(p, |c: ExprId| fe(c) && ge(c), |q: PatternId| fp(q) && gp(q)),
{
}

/// What holds of all the ids below the bounds holds of the children of a pattern whose children are below them.
pub proof fn lemma_pattern_children_lt_all(p: Pattern, ne: nat, np: nat, fe: spec_fn(ExprId) -> bool, fp: spec_fn(PatternId) -> bool)
    requires
        pattern_children_lt(p, ne, np),
        forall|c: ExprId| c.0 < ne ==> #[trigger] fe(c),
        forall|q: PatternId| q.0 < np ==> #[trigger] fp(q),
    ensures
        pattern_children_all(p, fe, fp),
{
}

/// Raising the bounds keeps children below them.
pub proof fn lemma_expr_children_lt_mono(e: Expr, ne: nat, np: nat, ne2: nat, np2: nat)
    requires
        expr_children_lt(e, ne, np),
        ne <= ne2,
        np <= np2,
    ensures
        expr_children_lt(e, ne2, np2),
{
}

/// Raising the bounds keeps children below them.
pub proof fn lemma_pattern_children_lt_mono(p: Pattern, ne: nat, np: nat, ne2: nat, np2: nat)
    requires
        pattern_children_lt(p, ne, np),
        ne <= ne2,
        np <= np2,
    ensures
        pattern_children_lt(p, ne2, np2),
{
}

/// Moving the last expression of a built arena into slot 0 (dropping what was there, which nothing
/// refers to) keeps every reference inside the arena and keeps the ranks.
pub proof fn lemma_root_moved_to_front(before: AstArena, after: AstArena)
    requires
        before.built(),
        before.no_ref_to_first(),
        before.exprs@.len() >= 2,
        forall|i: int| 0 <= i < before.patterns@.len() ==>
            pattern_children_lt(#[trigger] before.patterns@[i], (before.exprs@.len() - 1) as nat, before.patterns@.len()),
        after.exprs@ == before.exprs@.update(0, before.exprs@.last()).drop_last(),
        after.expr_spans@ == before.expr_spans@.update(0, before.expr_spans@.last()).drop_last(),
        after.expr_ranks@ == before.expr_ranks@.update(0, before.expr_ranks@.last()).drop_last(),
        after.patterns@ == before.patterns@,
        after.pattern_spans@ == before.pattern_spans@,
        after.pattern_ranks@ == before.pattern_ranks@,
    ensures
        after.wf(),
        after.ranked_with_gap(64),
        after.no_ref_to_first(),
        after.exprs@.len() == before.exprs@.len() - 1,
        after.exprs@[0] == before.exprs@.last(),
{
    reveal(AstArena::built);
    let n = before.exprs@.len();
    let np = before.patterns@.len();
    assert forall|i: int| 0 <= i < after.exprs@.len() implies
        expr_children_all(#[trigger] after.exprs@[i], |c: ExprId| c.0 >= 1, |q: PatternId| true) by {
        if i == 0 {
            assert(after.exprs@[0] == before.exprs@[n - 1]);
        } else {
            assert(after.exprs@[i] == before.exprs@[i]);
        }
    }
    assert forall|j: int| 0 <= j < after.patterns@.len() implies
        pattern_children_all(#[trigger] after.patterns@[j], |c: ExprId| c.0 >= 1, |q: PatternId| true) by {
        assert(after.patterns@[j] == before.patterns@[j]);
    }
    assert forall|i: int| 0 <= i < after.exprs@.len()
        implies expr_children_lt(#[trigger] after.exprs@[i], after.exprs@.len(), after.patterns@.len()) by {
        if i == 0 {
            assert(after.exprs@[0] == before.exprs@[n - 1]);
            assert(expr_children_lt(before.exprs@[n - 1], (n - 1) as nat, np));
        } else {
            assert(after.exprs@[i] == before.exprs@[i]);
            assert(expr_children_lt(before.exprs@[i], i as nat, np));
            lemma_expr_children_lt_mono(before.exprs@[i], i as nat, np, (n - 1) as nat, np);
        }
    }
    assert forall|i: int| 0 <= i < after.patterns@.len()
        implies pattern_children_lt(#[trigger] after.patterns@[i], after.exprs@.len(), after.patterns@.len()) by {
        assert(pattern_children_lt(before.patterns@[i], (n - 1) as nat, np));
    }
    assert forall|i: int| 0 <= i < after.exprs@.len() implies expr_children_all(#[trigger] after.exprs@[i],
        |c: ExprId| after.er(c.0 as int) + 64 <= after.er(i), |q: PatternId| after.pr(q.0 as int) + 64 <= after.er(i)) by {
        let k = if i == 0 { n - 1 } else { i };
        assert(after.exprs@[i] == before.exprs@[k]);
        assert(after.er(i) == before.er(k));
        let e = before.exprs@[k];
        assert(expr_children_lt(e, k as nat, np));
        lemma_expr_children_lt_mono(e, k as nat, np, (n - 1) as nat, np);
        lemma_children_all_and(e,
            |c: ExprId| before.er(c.0 as int) + 64 <= before.er(k), |q: PatternId| before.pr(q.0 as int) + 64 <= before.er(k),
            |c: ExprId| c.0 >= 1, |q: PatternId| true);
        lemma_children_all_transfer(e, (n - 1) as nat, np,
            |c: ExprId| before.er(c.0 as int) + 64 <= before.er(k) && c.0 >= 1,
            |q: PatternId| before.pr(q.0 as int) + 64 <= before.er(k) && true,
            |c: ExprId| after.er(c.0 as int) + 64 <= after.er(i), |q: PatternId| after.pr(q.0 as int) + 64 <= after.er(i));
    }
    assert forall|j: int| 0 <= j < np implies pattern_children_all(#[trigger] after.patterns@[j],
        |c: ExprId| after.er(c.0 as int) + 64 <= after.pr(j), |q: PatternId| after.pr(q.0 as int) + 64 <= after.pr(j)) by {
        let p = before.patterns@[j];
        assert(pattern_children_lt(p, (n - 1) as nat, np));
        lemma_pattern_children_all_and(p,
            |c: ExprId| before.er(c.0 as int) + 64 <= before.pr(j), |q: PatternId| before.pr(q.0 as int) + 64 <= before.pr(j),
            |c: ExprId| c.0 >= 1, |q: PatternId| true);
        lemma_pattern_children_all_transfer(p, (n - 1) as nat, np,
            |c: ExprId| before.er(c.0 as int) + 64 <= before.pr(j) && c.0 >= 1,
            |q: PatternId| before.pr(q.0 as int) + 64 <= before.pr(j) && true,
            |c: ExprId| after.er(c.0 as int) + 64 <= after.pr(j), |q: PatternId| after.pr(q.0 as int) + 64 <= after.pr(j));
    }
}

/// A larger gap between ranks gives any smaller one.
pub proof fn lemma_ranked_gap_weaken(a: AstArena, gap: nat, smaller: nat)
    requires
        a.ranked_with_gap(gap),
        smaller <= gap,
    ensures
        a.ranked_with_gap(smaller),
{
    assert forall|i: int| 0 <= i < a.exprs@.len() implies expr_children_all(#[trigger] a.exprs@[i],
        |c: ExprId| a.er(c.0 as int) + smaller <= a.er(i), |q: PatternId| a.pr(q.0 as int) + smaller <= a.er(i)) by {
        lemma_children_all_weaken(a.exprs@[i],
            |c: ExprId| a.er(c.0 as int) + gap <= a.er(i), |q: PatternId| a.pr(q.0 as int) + gap <= a.er(i),
            |c: ExprId| a.er(c.0 as int) + smaller <= a.er(i), |q: PatternId| a.pr(q.0 as int) + smaller <= a.er(i));
    }
    assert forall|j: int| 0 <= j < a.patterns@.len() implies pattern_children_all(#[trigger] a.patterns@[j],
        |c: ExprId| a.er(c.0 as int) + smaller <= a.pr(j), |q: PatternId| a.pr(q.0 as int) + smaller <= a.pr(j)) by {
        lemma_pattern_children_all_weaken(a.patterns@[j],
            |c: ExprId| a.er(c.0 as int) + gap <= a.pr(j), |q: PatternId| a.pr(q.0 as int) + gap <= a.pr(j),
            |c: ExprId| a.er(c.0 as int) + smaller <= a.pr(j), |q: PatternId| a.pr(q.0 as int) + smaller <= a.pr(j));
    }
}

/// Weaker conditions hold of children that satisfy stronger ones.
pub proof fn lemma_children_all_weaken(e: Expr, fe: spec_fn(ExprId) -> bool, fp: spec_fn(PatternId) -> bool,
    ge: spec_fn(ExprId) -> bool, gp: spec_fn(PatternId) -> bool)
    requires
        expr_children_all(e, fe, fp),
        forall|c: ExprId| #[trigger] fe(c) ==> ge(c),
        forall|q: PatternId| #[trigger] fp(q) ==> gp(q),
    ensures
        expr_children_all(e, ge, gp),
{
}

/// Weaker conditions hold of children that satisfy stronger ones.
pub proof fn lemma_pattern_children_all_weaken(p: Pattern, fe: spec_fn(ExprId) -> bool, fp: spec_fn(PatternId) -> bool,
    ge: spec_fn(ExprId) -> bool, gp: spec_fn(PatternId) -> bool)
    requires
        pattern_children_all(p, fe, fp),
        forall|c: ExprId| #[trigger] fe(c) ==> ge(c),
        forall|q: PatternId| #[trigger] fp(q) ==> gp(q),
    ensures
        pattern_children_all(p, ge, gp),
{
}

impl AstArena {
    /// The spans run in step with the nodes, and every reference between nodes points into the arena.
    pub open spec fn wf(&self) -> bool {
        &&& self.exprs@.len() == self.expr_spans@.len()
        &&& self.patterns@.len() == self.pattern_spans@.len()
        &&& forall|i: int| 0 <= i < self.exprs@.len() ==>
            expr_children_lt(#[trigger] self.exprs@[i], self.exprs@.len(), self.patterns@.len())
        &&& forall|i: int| 0 <= i < self.patterns@.len() ==>
            pattern_children_lt(#[trigger] self.patterns@[i], self.exprs@.len(), self.patterns@.len())
    }

    /// As `wf`, and every node only refers to nodes of its own kind that were added before it.
    pub open spec fn ordered(&self) -> bool {
        &&& self.wf()
        &&& forall|i: int| 0 <= i < self.exprs@.len() ==>
            expr_children_lt(#[trigger] self.exprs@[i], i as nat, self.patterns@.len())
        &&& forall|i: int| 0 <= i < self.patterns@.len() ==>
            pattern_children_lt(#[trigger] self.patterns@[i], self.exprs@.len(), i as nat)
    }

    /// The rank of expression `i`.
    pub open spec fn er(&self, i: int) -> nat {
        self.expr_ranks@[i]
    }

    /// The rank of pattern `i`.
    pub open spec fn pr(&self, i: int) -> nat {
        self.pattern_ranks@[i]
    }

    /// Every node ranks at least `gap` above each of its children.
    pub open spec fn ranked_with_gap(&self, gap: nat) -> bool {
        &&& self.expr_ranks@.len() == self.exprs@.len()
        &&& self.pattern_ranks@.len() == self.patterns@.len()
        &&& forall|i: int| 0 <= i < self.exprs@.len() ==> expr_children_all(#[trigger] self.exprs@[i],
                |c: ExprId| self.er(c.0 as int) + gap <= self.er(i),
                |q: PatternId| self.pr(q.0 as int) + gap <= self.er(i))
        &&& forall|j: int| 0 <= j < self.patterns@.len() ==> pattern_children_all(#[trigger] self.patterns@[j],
                |c: ExprId| self.er(c.0 as int) + gap <= self.pr(j),
                |q: PatternId| self.pr(q.0 as int) + gap <= self.pr(j))
    }

    /// Every node ranks above each of its children: the arena holds no cycle.
    pub open spec fn ranked(&self) -> bool {
        &&& self.wf()
        &&& self.ranked_with_gap(1)
    }

    /// No node refers to expression 0 (the slot the parser keeps for the main block).
    pub open spec fn no_ref_to_first(&self) -> bool {
        &&& forall|i: int| 0 <= i < self.exprs@.len() ==>
                expr_children_all(#[trigger] self.exprs@[i], |c: ExprId| c.0 >= 1, |q: PatternId| true)
        &&& forall|j: int| 0 <= j < self.patterns@.len() ==>
                pattern_children_all(#[trigger] self.patterns@[j], |c: ExprId| c.0 >= 1, |q: PatternId| true)
    }

    /// The rank the next node gets while the tree is being built.
    pub open spec fn clock(&self) -> nat {
        64 * (self.exprs@.len() + self.patterns@.len())
    }

    /// As the parser builds the tree: ordered, and ranked by the time of adding, 64 apart.
    #[verifier::opaque]
    pub open spec fn built(&self) -> bool {
        &&& self.ordered()
        &&& self.ranked_with_gap(64)
        &&& forall|i: int| 0 <= i < self.exprs@.len() ==> #[trigger] self.er(i) + 64 <= self.clock()
        &&& forall|j: int| 0 <= j < self.patterns@.len() ==> #[trigger] self.pr(j) + 64 <= self.clock()
    }

    /// A built arena is ordered.
    pub proof fn lemma_built_ordered(&self)
        requires
            self.built(),
        ensures
            self.ordered(),
            self.wf(),
    {
        reveal(AstArena::built);
    }

    /// An arena with nothing in it.
    pub fn new() -> (r: Self)
        ensures
            r.exprs@.len() == 0,
            r.patterns@.len() == 0,
            r.built(),
    {
        proof { reveal(AstArena::built); }
        AstArena {
            exprs: Vec::new(),
            expr_spans: Vec::new(),
            patterns: Vec::new(),
            pattern_spans: Vec::new(),
            expr_ranks: Ghost(Seq::empty()),
            pattern_ranks: Ghost(Seq::empty()),
        }
    }

    /// Appends an expression and its span; returns its index.
    pub fn add_expr(&mut self, span: Span, expr: Expr) -> (id: ExprId)
        requires
            old(self).exprs@.len() == old(self).expr_spans@.len(),
        ensures
            id.0 == old(self).exprs@.len(),
            final(self).exprs@ == old(self).exprs@.push(expr),
            final(self).expr_spans@ == old(self).expr_spans@.push(span),
            final(self).patterns@ == old(self).patterns@,
            final(self).pattern_spans@ == old(self).pattern_spans@,
            final(self).expr_ranks@ == old(self).expr_ranks@.push(0),
            final(self).pattern_ranks@ == old(self).pattern_ranks@,
    {
        self.add_expr_ranked(span, expr, Ghost(0))
    }

    /// Appends an expression with the given rank.
    pub(crate) fn add_expr_ranked(&mut self, span: Span, expr: Expr, rank: Ghost<nat>) -> (id: ExprId)
        requires
            old(self).exprs@.len() == old(self).expr_spans@.len(),
        ensures
            id.0 == old(self).exprs@.len(),
            final(self).exprs@ == old(self).exprs@.push(expr),
            final(self).expr_spans@ == old(self).expr_spans@.push(span),
            final(self).patterns@ == old(self).patterns@,
            final(self).pattern_spans@ == old(self).pattern_spans@,
            final(self).expr_ranks@ == old(self).expr_ranks@.push(rank@),
            final(self).pattern_ranks@ == old(self).pattern_ranks@,
    {
        let id = self.exprs.len();
        self.exprs.push(expr);
        self.expr_spans.push(span);
        self.expr_ranks = Ghost(self.expr_ranks@.push(rank@));
        ExprId(id)
    }

    /// Appends an expression whose children are already in the arena; it stays built.
    pub fn push_expr(&mut self, span: Span, expr: Expr) -> (id: ExprId)
        requires
            old(self).built(),
            expr_children_lt(expr, old(self).exprs@.len(), old(self).patterns@.len()),
        ensures
            final(self).built(),
            id.0 == old(self).exprs@.len(),
            final(self).exprs@ == old(self).exprs@.push(expr),
            final(self).expr_spans@ == old(self).expr_spans@.push(span),
            final(self).patterns@ == old(self).patterns@,
            final(self).pattern_spans@ == old(self).pattern_spans@,
            final(self).expr_ranks@ == old(self).expr_ranks@.push(old(self).clock()),
            final(self).pattern_ranks@ == old(self).pattern_ranks@,
    {
        proof { self.lemma_built_ordered(); }
        let ghost o = *self;
        let ghost rank = self.clock();
        let id = self.add_expr_ranked(span, expr, Ghost(rank));
        proof { Self::lemma_push_expr_built(o, *self, expr); }
        id
    }

    proof fn lemma_push_expr_built(o: AstArena, s: AstArena, expr: Expr)
        requires
            o.built(),
            expr_children_lt(expr, o.exprs@.len(), o.patterns@.len()),
            s.exprs@ == o.exprs@.push(expr),
            s.expr_spans@.len() == o.expr_spans@.len() + 1,
            s.patterns@ == o.patterns@,
            s.pattern_spans@ == o.pattern_spans@,
            s.expr_ranks@ == o.expr_ranks@.push(o.clock()),
            s.pattern_ranks@ == o.pattern_ranks@,
        ensures
            s.built(),
    {
        reveal(AstArena::built);
        let n = s.exprs@.len();
        let np = s.patterns@.len();
        assert forall|i: int| 0 <= i < n implies expr_children_lt(#[trigger] s.exprs@[i], i as nat, np) by {
            if i < n - 1 {
                assert(s.exprs@[i] == o.exprs@[i]);
            }
        }
        assert forall|i: int| 0 <= i < n implies expr_children_lt(#[trigger] s.exprs@[i], n, np) by {
            assert(expr_children_lt(s.exprs@[i], i as nat, np));
            lemma_expr_children_lt_mono(s.exprs@[i], i as nat, np, n, np);
        }
        assert forall|i: int| 0 <= i < np implies pattern_children_lt(#[trigger] s.patterns@[i], n, i as nat) by {
            assert(pattern_children_lt(o.patterns@[i], (n - 1) as nat, i as nat));
            lemma_pattern_children_lt_mono(s.patterns@[i], (n - 1) as nat, i as nat, n, i as nat);
        }
        assert forall|i: int| 0 <= i < np implies pattern_children_lt(#[trigger] s.patterns@[i], n, np) by {
            assert(pattern_children_lt(s.patterns@[i], n, i as nat));
            lemma_pattern_children_lt_mono(s.patterns@[i], n, i as nat, n, np);
        }
        assert forall|i: int| 0 <= i < n implies expr_children_all(#[trigger] s.exprs@[i],
            |c: ExprId| s.er(c.0 as int) + 64 <= s.er(i), |q: PatternId| s.pr(q.0 as int) + 64 <= s.er(i)) by {
            if i < n - 1 {
                assert(s.exprs@[i] == o.exprs@[i]);
                assert(expr_children_lt(o.exprs@[i], (n - 1) as nat, np));
                lemma_children_all_transfer(o.exprs@[i], (n - 1) as nat, np,
                    |c: ExprId| o.er(c.0 as int) + 64 <= o.er(i), |q: PatternId| o.pr(q.0 as int) + 64 <= o.er(i),
                    |c: ExprId| s.er(c.0 as int) + 64 <= s.er(i), |q: PatternId| s.pr(q.0 as int) + 64 <= s.er(i));
            } else {
                assert forall|c: ExprId| c.0 < n - 1 implies s.er(c.0 as int) + 64 <= s.er(i) by {
                    assert(o.er(c.0 as int) + 64 <= o.clock());
                }
                assert forall|q: PatternId| q.0 < np implies s.pr(q.0 as int) + 64 <= s.er(i) by {
                    assert(o.pr(q.0 as int) + 64 <= o.clock());
                }
                lemma_children_lt_all(expr, (n - 1) as nat, np,
                    |c: ExprId| s.er(c.0 as int) + 64 <= s.er(i), |q: PatternId| s.pr(q.0 as int) + 64 <= s.er(i));
            }
        }
        assert forall|j: int| 0 <= j < np implies pattern_children_all(#[trigger] s.patterns@[j],
            |c: ExprId| s.er(c.0 as int) + 64 <= s.pr(j), |q: PatternId| s.pr(q.0 as int) + 64 <= s.pr(j)) by {
            assert(pattern_children_lt(o.patterns@[j], (n - 1) as nat, np));
            lemma_pattern_children_all_transfer(o.patterns@[j], (n - 1) as nat, np,
                |c: ExprId| o.er(c.0 as int) + 64 <= o.pr(j), |q: PatternId| o.pr(q.0 as int) + 64 <= o.pr(j),
                |c: ExprId| s.er(c.0 as int) + 64 <= s.pr(j), |q: PatternId| s.pr(q.0 as int) + 64 <= s.pr(j));
        }
        assert forall|i: int| 0 <= i < n implies #[trigger] s.er(i) + 64 <= s.clock() by {
            if i < n - 1 {
                assert(o.er(i) + 64 <= o.clock());
            }
        }
        assert forall|j: int| 0 <= j < np implies #[trigger] s.pr(j) + 64 <= s.clock() by {
            assert(o.pr(j) + 64 <= o.clock());
        }
    }

    /// Appends a pattern whose children are already in the arena; it stays built.
    pub fn push_pattern(&mut self, span: Span, pattern: Pattern) -> (id: PatternId)
        requires
            old(self).built(),
            pattern_children_lt(pattern, old(self).exprs@.len(), old(self).patterns@.len()),
        ensures
            final(self).built(),
            id.0 == old(self).patterns@.len(),
            final(self).patterns@ == old(self).patterns@.push(pattern),
            final(self).pattern_spans@ == old(self).pattern_spans@.push(span),
            final(self).exprs@ == old(self).exprs@,
            final(self).expr_spans@ == old(self).expr_spans@,
            final(self).expr_ranks@ == old(self).expr_ranks@,
            final(self).pattern_ranks@ == old(self).pattern_ranks@.push(old(self).clock()),
    {
        proof { self.lemma_built_ordered(); }
        let ghost o = *self;
        let ghost rank = self.clock();
        let id = self.add_pattern_ranked(span, pattern, Ghost(rank));
        proof { Self::lemma_push_pattern_built(o, *self, pattern); }
        id
    }

    proof fn lemma_push_pattern_built(o: AstArena, s: AstArena, pattern: Pattern)
        requires
            o.built(),
            pattern_children_lt(pattern, o.exprs@.len(), o.patterns@.len()),
            s.patterns@ == o.patterns@.push(pattern),
            s.pattern_spans@.len() == o.pattern_spans@.len() + 1,
            s.exprs@ == o.exprs@,
            s.expr_spans@ == o.expr_spans@,
            s.pattern_ranks@ == o.pattern_ranks@.push(o.clock()),
            s.expr_ranks@ == o.expr_ranks@,
        ensures
            s.built(),
    {
        reveal(AstArena::built);
        let n = s.exprs@.len();
        let np = s.patterns@.len();
        assert forall|i: int| 0 <= i < np implies pattern_children_lt(#[trigger] s.patterns@[i], n, i as nat) by {
            if i < np - 1 {
                assert(s.patterns@[i] == o.patterns@[i]);
            }
        }
        assert forall|i: int| 0 <= i < np implies pattern_children_lt(#[trigger] s.patterns@[i], n, np) by {
            assert(pattern_children_lt(s.patterns@[i], n, i as nat));
            lemma_pattern_children_lt_mono(s.patterns@[i], n, i as nat, n, np);
        }
        assert forall|i: int| 0 <= i < n implies expr_children_lt(#[trigger] s.exprs@[i], i as nat, np) by {
            assert(expr_children_lt(o.exprs@[i], i as nat, (np - 1) as nat));
            lemma_expr_children_lt_mono(s.exprs@[i], i as nat, (np - 1) as nat, i as nat, np);
        }
        assert forall|i: int| 0 <= i < n implies expr_children_lt(#[trigger] s.exprs@[i], n, np) by {
            assert(expr_children_lt(s.exprs@[i], i as nat, np));
            lemma_expr_children_lt_mono(s.exprs@[i], i as nat, np, n, np);
        }
        assert forall|i: int| 0 <= i < n implies expr_children_all(#[trigger] s.exprs@[i],
            |c: ExprId| s.er(c.0 as int) + 64 <= s.er(i), |q: PatternId| s.pr(q.0 as int) + 64 <= s.er(i)) by {
            assert(expr_children_lt(o.exprs@[i], n, (np - 1) as nat));
            lemma_children_all_transfer(o.exprs@[i], n, (np - 1) as nat,
                |c: ExprId| o.er(c.0 as int) + 64 <= o.er(i), |q: PatternId| o.pr(q.0 as int) + 64 <= o.er(i),
                |c: ExprId| s.er(c.0 as int) + 64 <= s.er(i), |q: PatternId| s.pr(q.0 as int) + 64 <= s.er(i));
        }
        assert forall|j: int| 0 <= j < np implies pattern_children_all(#[trigger] s.patterns@[j],
            |c: ExprId| s.er(c.0 as int) + 64 <= s.pr(j), |q: PatternId| s.pr(q.0 as int) + 64 <= s.pr(j)) by {
            if j < np - 1 {
                assert(s.patterns@[j] == o.patterns@[j]);
                assert(pattern_children_lt(o.patterns@[j], n, (np - 1) as nat));
                lemma_pattern_children_all_transfer(o.patterns@[j], n, (np - 1) as nat,
                    |c: ExprId| o.er(c.0 as int) + 64 <= o.pr(j), |q: PatternId| o.pr(q.0 as int) + 64 <= o.pr(j),
                    |c: ExprId| s.er(c.0 as int) + 64 <= s.pr(j), |q: PatternId| s.pr(q.0 as int) + 64 <= s.pr(j));
            } else {
                assert forall|c: ExprId| c.0 < n implies s.er(c.0 as int) + 64 <= s.pr(j) by {
                    assert(o.er(c.0 as int) + 64 <= o.clock());
                }
                assert forall|q: PatternId| q.0 < np - 1 implies s.pr(q.0 as int) + 64 <= s.pr(j) by {
                    assert(o.pr(q.0 as int) + 64 <= o.clock());
                }
                lemma_pattern_children_lt_all(pattern, n, (np - 1) as nat,
                    |c: ExprId| s.er(c.0 as int) + 64 <= s.pr(j), |q: PatternId| s.pr(q.0 as int) + 64 <= s.pr(j));
            }
        }
        assert forall|i: int| 0 <= i < n implies #[trigger] s.er(i) + 64 <= s.clock() by {
            assert(o.er(i) + 64 <= o.clock());
        }
        assert forall|j: int| 0 <= j < np implies #[trigger] s.pr(j) + 64 <= s.clock() by {
            if j < np - 1 {
                assert(o.pr(j) + 64 <= o.clock());
            }
        }
    }

    /// Moves the last expression into slot 0, dropping the expression that was there.
    pub(crate) fn move_last_to_front(self) -> (r: AstArena)
        requires
            self.built(),
            self.no_ref_to_first(),
            self.exprs@.len() >= 2,
            forall|i: int| 0 <= i < self.patterns@.len() ==>
                pattern_children_lt(#[trigger] self.patterns@[i], (self.exprs@.len() - 1) as nat, self.patterns@.len()),
        ensures
            r.ranked(),
            r.ranked_with_gap(64),
            r.no_ref_to_first(),
            r.exprs@.len() == self.exprs@.len() - 1,
            r.exprs@[0] == self.exprs@.last(),
    {
        proof { self.lemma_built_ordered(); }
        let ghost before = self;
        let mut ast = self;
        ast.exprs.swap_remove(0);
        ast.expr_spans.swap_remove(0);
        ast.expr_ranks = Ghost(before.expr_ranks@.update(0, before.expr_ranks@.last()).drop_last());
        proof {
            lemma_root_moved_to_front(before, ast);
            lemma_ranked_gap_weaken(ast, 64, 1);
        }
        ast
    }

    pub fn get_expr(&self, id: ExprId) -> (r: &Expr)
        requires
            id.0 < self.exprs@.len(),
        ensures
            *r == self.exprs@[id.0 as int],
    {
        &self.exprs[id.0 as usize]
    }

    pub fn get_expr_span(&self, id: ExprId) -> (r: Span)
        requires
            id.0 < self.expr_spans@.len(),
        ensures
            r == self.expr_spans@[id.0 as int],
    {
        self.expr_spans[id.0 as usize]
    }

    /// Appends a pattern and its span; returns its index.
    pub fn add_pattern(&mut self, span: Span, pattern: Pattern) -> (id: PatternId)
        requires
            old(self).patterns@.len() == old(self).pattern_spans@.len(),
        ensures
            id.0 == old(self).patterns@.len(),
            final(self).patterns@ == old(self).patterns@.push(pattern),
            final(self).pattern_spans@ == old(self).pattern_spans@.push(span),
            final(self).exprs@ == old(self).exprs@,
            final(self).expr_spans@ == old(self).expr_spans@,
            final(self).expr_ranks@ == old(self).expr_ranks@,
            final(self).pattern_ranks@ == old(self).pattern_ranks@.push(0),
    {
        self.add_pattern_ranked(span, pattern, Ghost(0))
    }

    /// Appends a pattern with the given rank.
    pub(crate) fn add_pattern_ranked(&mut self, span: Span, pattern: Pattern, rank: Ghost<nat>) -> (id: PatternId)
        requires
            old(self).patterns@.len() == old(self).pattern_spans@.len(),
        ensures
            id.0 == old(self).patterns@.len(),
            final(self).patterns@ == old(self).patterns@.push(pattern),
            final(self).pattern_spans@ == old(self).pattern_spans@.push(span),
            final(self).exprs@ == old(self).exprs@,
            final(self).expr_spans@ == old(self).expr_spans@,
            final(self).expr_ranks@ == old(self).expr_ranks@,
            final(self).pattern_ranks@ == old(self).pattern_ranks@.push(rank@),
    {
        let id = self.patterns.len();
        self.patterns.push(pattern);
        self.pattern_spans.push(span);
        self.pattern_ranks = Ghost(self.pattern_ranks@.push(rank@));
        PatternId(id)
    }

    pub fn get_pattern(&self, id: PatternId) -> (r: &Pattern)
        requires
            id.0 < self.patterns@.len(),
        ensures
            *r == self.patterns@[id.0 as int],
    {
        &self.patterns[id.0 as usize]
    }

    pub fn get_pattern_span(&self, id: PatternId) -> (r: Span)
        requires
            id.0 < self.pattern_spans@.len(),
        ensures
            r == self.pattern_spans@[id.0 as int],
    {
        self.pattern_spans[id.0 as usize]
    }
}

} // verus!
