use vstd::prelude::*;
use crate::lexing::tokens::{Span, TokenKind};
use crate::parsing::ast::{
    AstArena, AstClosure, AstTupleElement, AstTuplePattern, Expr, ExprId, Pattern, PatternId,
    expr_children_lt, pattern_children_lt,
};
use crate::text::{lex_le, lemma_lex_le_antisym, lemma_lex_le_total, lemma_lex_le_trans, str_lex_le};

verus! {

/// The bytes of a label, which `String`'s order compares.
pub open spec fn label_key(s: String) -> Seq<u8> {
    vstd::utf8::encode_utf8(s@)
}

/// The elements of a tuple expression come in the order of their labels.
pub open spec fn elems_sorted(s: Seq<AstTupleElement>) -> bool {
    forall|i: int, j: int| 0 <= i < j < s.len() ==> #[trigger] lex_le(label_key(s[i].label), label_key(s[j].label))
}

/// The elements of a tuple pattern come in the order of their labels.
pub open spec fn pats_sorted(s: Seq<AstTuplePattern>) -> bool {
    forall|i: int, j: int| 0 <= i < j < s.len() ==> #[trigger] lex_le(label_key(s[i].label), label_key(s[j].label))
}

/// The tuple elements whose label has the bytes `k`.
pub open spec fn elem_label_is(k: Seq<u8>) -> spec_fn(AstTupleElement) -> bool {
    |e: AstTupleElement| label_key(e.label) == k
}

/// The tuple pattern elements whose label has the bytes `k`.
pub open spec fn pat_label_is(k: Seq<u8>) -> spec_fn(AstTuplePattern) -> bool {
    |e: AstTuplePattern| label_key(e.label) == k
}

/// `r` is a stable sort of the tuple elements `s` by label: in label order, and the elements of
/// each label in the order they had in `s`.
pub open spec fn elems_stably_sorted(s: Seq<AstTupleElement>, r: Seq<AstTupleElement>) -> bool {
    &&& elems_sorted(r)
    &&& r.len() == s.len()
    &&& forall|k: Seq<u8>| #[trigger] r.filter(elem_label_is(k)) == s.filter(elem_label_is(k))
}

/// `r` is a stable sort of the tuple pattern elements `s` by label.
pub open spec fn pats_stably_sorted(s: Seq<AstTuplePattern>, r: Seq<AstTuplePattern>) -> bool {
    &&& pats_sorted(r)
    &&& r.len() == s.len()
    &&& forall|k: Seq<u8>| #[trigger] r.filter(pat_label_is(k)) == s.filter(pat_label_is(k))
}

/// A stable sort of tuple elements that are in label order already leaves them as they are.
proof fn lemma_stable_sort_of_sorted_elems(s: Seq<AstTupleElement>, r: Seq<AstTupleElement>)
    requires
        elems_sorted(s),
        elems_stably_sorted(s, r),
    ensures
        r == s,
    decreases s.len(),
{
    if s.len() == 0 {
        assert(r =~= s);
    } else {
        let n = s.len() - 1;
        let x = s[n];
        let y = r[n];
        let kx = label_key(x.label);
        let ky = label_key(y.label);
        let s1 = s.drop_last();
        let r1 = r.drop_last();
        assert(s =~= s1.push(x));
        assert(r =~= r1.push(y));
        let px = elem_label_is(kx);
        let py = elem_label_is(ky);
        s1.lemma_filter_push(x, px);
        r1.lemma_filter_push(y, py);
        assert(r.filter(px) == s.filter(px));
        assert(r.filter(py) == s.filter(py));
        // the last element of each carries the largest label, so both carry the same one
        assert(s.filter(px).contains(x)) by {
            assert(s1.filter(px).push(x)[s1.filter(px).len() as int] == x);
        }
        r.lemma_filter_contains_rev(px, x);
        let m = choose|m: int| 0 <= m < r.len() && r[m] == x;
        if m < n {
            assert(lex_le(label_key(r[m].label), label_key(r[n].label)));
        }
        assert(lex_le(kx, ky)) by {
            if m == n { lemma_lex_le_total(kx, ky); }
        }
        assert(r.filter(py).contains(y)) by {
            assert(r1.filter(py).push(y)[r1.filter(py).len() as int] == y);
        }
        s.lemma_filter_contains_rev(py, y);
        let q = choose|q: int| 0 <= q < s.len() && s[q] == y;
        if q < n {
            assert(lex_le(label_key(s[q].label), label_key(s[n].label)));
        }
        assert(lex_le(ky, kx)) by {
            if q == n { lemma_lex_le_total(kx, ky); }
        }
        lemma_lex_le_antisym(kx, ky);
        assert(px == py);
        s1.lemma_filter_push(x, px);
        r1.lemma_filter_push(y, px);
        assert(s.filter(px).last() == x);
        assert(r.filter(px).last() == y);
        assert(s1.filter(px) =~= s.filter(px).drop_last());
        assert(r1.filter(px) =~= r.filter(px).drop_last());
        assert forall|k: Seq<u8>| #[trigger] r1.filter(elem_label_is(k)) == s1.filter(elem_label_is(k)) by {
            s1.lemma_filter_push(x, elem_label_is(k));
            r1.lemma_filter_push(y, elem_label_is(k));
            assert(r.filter(elem_label_is(k)) == s.filter(elem_label_is(k)));
            if k == kx {
                assert(elem_label_is(k) == px);
            }
        }
        assert forall|i: int, j: int| 0 <= i < j < s1.len() implies
            #[trigger] lex_le(label_key(s1[i].label), label_key(s1[j].label)) by {
            assert(s1[i] == s[i] && s1[j] == s[j]);
            assert(lex_le(label_key(s[i].label), label_key(s[j].label)));
        }
        assert forall|i: int, j: int| 0 <= i < j < r1.len() implies
            #[trigger] lex_le(label_key(r1[i].label), label_key(r1[j].label)) by {
            assert(r1[i] == r[i] && r1[j] == r[j]);
            assert(lex_le(label_key(r[i].label), label_key(r[j].label)));
        }
        lemma_stable_sort_of_sorted_elems(s1, r1);
    }
}

/// A stable sort of tuple pattern elements that are in label order already leaves them as they are.
proof fn lemma_stable_sort_of_sorted_pats(s: Seq<AstTuplePattern>, r: Seq<AstTuplePattern>)
    requires
        pats_sorted(s),
        pats_stably_sorted(s, r),
    ensures
        r == s,
    decreases s.len(),
{
    if s.len() == 0 {
        assert(r =~= s);
    } else {
        let n = s.len() - 1;
        let x = s[n];
        let y = r[n];
        let kx = label_key(x.label);
        let ky = label_key(y.label);
        let s1 = s.drop_last();
        let r1 = r.drop_last();
        assert(s =~= s1.push(x));
        assert(r =~= r1.push(y));
        let px = pat_label_is(kx);
        let py = pat_label_is(ky);
        s1.lemma_filter_push(x, px);
        r1.lemma_filter_push(y, py);
        assert(r.filter(px) == s.filter(px));
        assert(r.filter(py) == s.filter(py));
        // the last element of each carries the largest label, so both carry the same one
        assert(s.filter(px).contains(x)) by {
            assert(s1.filter(px).push(x)[s1.filter(px).len() as int] == x);
        }
        r.lemma_filter_contains_rev(px, x);
        let m = choose|m: int| 0 <= m < r.len() && r[m] == x;
        if m < n {
            assert(lex_le(label_key(r[m].label), label_key(r[n].label)));
        }
        assert(lex_le(kx, ky)) by {
            if m == n { lemma_lex_le_total(kx, ky); }
        }
        assert(r.filter(py).contains(y)) by {
            assert(r1.filter(py).push(y)[r1.filter(py).len() as int] == y);
        }
        s.lemma_filter_contains_rev(py, y);
        let q = choose|q: int| 0 <= q < s.len() && s[q] == y;
        if q < n {
            assert(lex_le(label_key(s[q].label), label_key(s[n].label)));
        }
        assert(lex_le(ky, kx)) by {
            if q == n { lemma_lex_le_total(kx, ky); }
        }
        lemma_lex_le_antisym(kx, ky);
        assert(px == py);
        s1.lemma_filter_push(x, px);
        r1.lemma_filter_push(y, px);
        assert(s.filter(px).last() == x);
        assert(r.filter(px).last() == y);
        assert(s1.filter(px) =~= s.filter(px).drop_last());
        assert(r1.filter(px) =~= r.filter(px).drop_last());
        assert forall|k: Seq<u8>| #[trigger] r1.filter(pat_label_is(k)) == s1.filter(pat_label_is(k)) by {
            s1.lemma_filter_push(x, pat_label_is(k));
            r1.lemma_filter_push(y, pat_label_is(k));
            assert(r.filter(pat_label_is(k)) == s.filter(pat_label_is(k)));
            if k == kx {
                assert(pat_label_is(k) == px);
            }
        }
        assert forall|i: int, j: int| 0 <= i < j < s1.len() implies
            #[trigger] lex_le(label_key(s1[i].label), label_key(s1[j].label)) by {
            assert(s1[i] == s[i] && s1[j] == s[j]);
            assert(lex_le(label_key(s[i].label), label_key(s[j].label)));
        }
        assert forall|i: int, j: int| 0 <= i < j < r1.len() implies
            #[trigger] lex_le(label_key(r1[i].label), label_key(r1[j].label)) by {
            assert(r1[i] == r[i] && r1[j] == r[j]);
            assert(lex_le(label_key(r[i].label), label_key(r[j].label)));
        }
        lemma_stable_sort_of_sorted_pats(s1, r1);
    }
}

/// Inserting `x` where no later element satisfies `pred` (when `x` does) adds `x` at the end of
/// the elements that satisfy `pred`.
proof fn lemma_insert_filter<A>(r: Seq<A>, pos: int, x: A, pred: spec_fn(A) -> bool)
    requires
        0 <= pos <= r.len(),
        pred(x) ==> forall|m: int| pos <= m < r.len() ==> !pred(#[trigger] r[m]),
    ensures
        r.insert(pos, x).filter(pred) == (if pred(x) { r.filter(pred).push(x) } else { r.filter(pred) }),
{
    let a = r.take(pos);
    let b = r.skip(pos);
    assert(r.insert(pos, x) =~= a + seq![x] + b);
    assert(r =~= a + b);
    Seq::filter_distributes_over_add(a + seq![x], b, pred);
    Seq::filter_distributes_over_add(a, seq![x], pred);
    Seq::filter_distributes_over_add(a, b, pred);
    Seq::<A>::empty().lemma_filter_push(x, pred);
    assert(Seq::<A>::empty().push(x) =~= seq![x]);
    reveal(Seq::filter);
    assert(Seq::<A>::empty().filter(pred) =~= Seq::<A>::empty());
    if pred(x) {
        assert forall|m: int| 0 <= m < b.len() implies !pred(#[trigger] b[m]) by {
            assert(b[m] == r[pos + m]);
        }
        assert(b.all(|y: A| !pred(y)));
        b.lemma_all_neg_filter_empty(pred);
        assert(b.filter(pred) =~= Seq::<A>::empty());
        assert(a.filter(pred) + seq![x] + Seq::<A>::empty() =~= a.filter(pred).push(x));
        assert(a.filter(pred) + Seq::<A>::empty() =~= a.filter(pred));
    } else {
        assert(a.filter(pred) + Seq::<A>::empty() + b.filter(pred) =~= a.filter(pred) + b.filter(pred));
    }
}

/// An expression that desugaring rewrites: `while`, `for`, `fn` definitions and `!=`, `<=`, `>=`.
pub open spec fn is_sugar(e: Expr) -> bool {
    match e {
        Expr::While { .. } | Expr::For { .. } | Expr::FnDefinition { .. } => true,
        Expr::Infix { op, .. } => op == TokenKind::NotEqual || op == TokenKind::LessEqual || op == TokenKind::GreaterEqual,
        _ => false,
    }
}

/// An expression as desugaring leaves it: no sugar, and a tuple's elements in label order.
pub open spec fn is_desugared_expr(e: Expr) -> bool {
    &&& !is_sugar(e)
    &&& (e matches Expr::Tuple { elems } ==> elems_sorted(elems@))
}

/// A pattern as desugaring leaves it: a tuple pattern's elements in label order.
pub open spec fn is_desugared_pattern(p: Pattern) -> bool {
    p matches Pattern::Tuple(elems) ==> pats_sorted(elems@)
}

/// How much work an expression leaves for the desugaring loop.
spec fn weight(e: Expr) -> nat {
    match e {
        Expr::For { .. } => 12,
        Expr::While { .. } => 4,
        Expr::FnDefinition { .. } => 2,
        Expr::Infix { op, .. } => if is_sugar(e) { 2 } else { 1 },
        _ => 1,
    }
}

/// The work left in the expressions from index `i` on.
spec fn work_from(s: Seq<Expr>, i: int) -> nat
    decreases s.len() - i,
{
    if i < 0 || i >= s.len() {
        0
    } else {
        weight(s[i]) + work_from(s, i + 1)
    }
}

proof fn lemma_work_push(s: Seq<Expr>, x: Expr, i: int)
    requires
        0 <= i <= s.len(),
    ensures
        work_from(s.push(x), i) == work_from(s, i) + weight(x),
    decreases s.len() - i,
{
    if i < s.len() {
        lemma_work_push(s, x, i + 1);
        assert(s.push(x)[i] == s[i]);
    } else {
        assert(s.push(x)[i] == x);
        assert(work_from(s.push(x), i + 1) == 0);
    }
}

proof fn lemma_work_update_before(s: Seq<Expr>, k: int, x: Expr, i: int)
    requires
        0 <= k < i,
        k < s.len(),
    ensures
        work_from(s.update(k, x), i) == work_from(s, i),
    decreases s.len() - i,
{
    if 0 <= i < s.len() {
        lemma_work_update_before(s, k, x, i + 1);
        assert(s.update(k, x)[i] == s[i]);
    }
}

/// How many expressions desugaring appends for `e`, counting those that its own new nodes need:
/// a `for` makes eight and a `while` (which makes three more), a `while` three, a `fn`
/// definition one, and `!=`, `<=`, `>=` one.
pub open spec fn exprs_added(e: Expr) -> nat {
    match e {
        Expr::For { .. } => 11,
        Expr::While { .. } => 3,
        Expr::FnDefinition { .. } => 1,
        Expr::Infix { .. } => if is_sugar(e) { 1 } else { 0 },
        _ => 0,
    }
}

/// How many patterns desugaring appends for `e`: three for a `for`, one for a `fn` definition.
pub open spec fn patterns_added(e: Expr) -> nat {
    match e {
        Expr::For { .. } => 3,
        Expr::FnDefinition { .. } => 1,
        _ => 0,
    }
}

/// The expressions that desugaring appends for those of `s` from index `i` on.
pub open spec fn exprs_added_from(s: Seq<Expr>, i: int) -> nat
    decreases s.len() - i,
{
    if i < 0 || i >= s.len() {
        0
    } else {
        exprs_added(s[i]) + exprs_added_from(s, i + 1)
    }
}

/// The patterns that desugaring appends for the expressions of `s` from index `i` on.
pub open spec fn patterns_added_from(s: Seq<Expr>, i: int) -> nat
    decreases s.len() - i,
{
    if i < 0 || i >= s.len() {
        0
    } else {
        patterns_added(s[i]) + patterns_added_from(s, i + 1)
    }
}

proof fn lemma_added_push(s: Seq<Expr>, x: Expr, i: int)
    requires
        0 <= i <= s.len(),
    ensures
        exprs_added_from(s.push(x), i) == exprs_added_from(s, i) + exprs_added(x),
        patterns_added_from(s.push(x), i) == patterns_added_from(s, i) + patterns_added(x),
    decreases s.len() - i,
{
    if i < s.len() {
        lemma_added_push(s, x, i + 1);
        assert(s.push(x)[i] == s[i]);
    } else {
        assert(s.push(x)[i] == x);
        assert(exprs_added_from(s.push(x), i + 1) == 0);
        assert(patterns_added_from(s.push(x), i + 1) == 0);
    }
}

proof fn lemma_added_update_before(s: Seq<Expr>, k: int, x: Expr, i: int)
    requires
        0 <= k < i,
        k < s.len(),
    ensures
        exprs_added_from(s.update(k, x), i) == exprs_added_from(s, i),
        patterns_added_from(s.update(k, x), i) == patterns_added_from(s, i),
    decreases s.len() - i,
{
    if 0 <= i < s.len() {
        lemma_added_update_before(s, k, x, i + 1);
        assert(s.update(k, x)[i] == s[i]);
    }
}

/// Where no expression from `i` on is sugar, desugaring appends nothing for them.
proof fn lemma_nothing_added(s: Seq<Expr>, i: int)
    requires
        0 <= i,
        forall|k: int| i <= k < s.len() ==> !is_sugar(#[trigger] s[k]),
    ensures
        exprs_added_from(s, i) == 0,
        patterns_added_from(s, i) == 0,
    decreases s.len() - i,
{
    if i < s.len() {
        lemma_nothing_added(s, i + 1);
        assert(!is_sugar(s[i]));
    }
}

/// The two expressions are the same, a tuple's elements compared by their contents.
pub open spec fn same_expr(a: Expr, b: Expr) -> bool {
    ||| a == b
    ||| (a matches Expr::Tuple { elems: x } && b matches Expr::Tuple { elems: y } && x@ == y@)
}

/// The two patterns are the same, a tuple pattern's elements compared by their contents.
pub open spec fn same_pattern(a: Pattern, b: Pattern) -> bool {
    ||| a == b
    ||| (a matches Pattern::Tuple(x) && b matches Pattern::Tuple(y) && x@ == y@)
}

/// The arena has a span for each expression and each pattern.
pub open spec fn spans_match(a: AstArena) -> bool {
    &&& a.exprs@.len() == a.expr_spans@.len()
    &&& a.patterns@.len() == a.pattern_spans@.len()
}

/// The operator that `a OP b` is the negation of, for `!=`, `<=` and `>=`.
pub open spec fn inverted_op(op: TokenKind) -> TokenKind {
    if op == TokenKind::NotEqual {
        TokenKind::EqualEqual
    } else if op == TokenKind::LessEqual {
        TokenKind::Greater
    } else {
        TokenKind::Less
    }
}

/// `while CONDITION { BODY }` stands at `i` of `a` as `loop { if CONDITION { BODY } else break }`.
pub open spec fn while_done(a: AstArena, i: int, condition: ExprId, body: ExprId, label: String) -> bool {
    let lp = a.exprs@[i];
    let if_id = lp->Loop_body.0 as int;
    let ife = a.exprs@[if_id];
    let brk = ife->If_alt.0 as int;
    let br = a.exprs@[brk];
    let v = br->Break_expr.0 as int;
    &&& lp is Loop && lp->Loop_label == label
    &&& if_id < a.exprs@.len()
    &&& ife is If && ife->If_condition == condition && ife->If_then == body && !ife->If_never_alt
    &&& brk < a.exprs@.len()
    &&& br is Break && br->Break_label is None
    &&& v < a.exprs@.len() && a.exprs@[v] is Void
}

/// `c` is the condition `i.next() is .Some(PATTERN)` in `a`.
pub open spec fn next_some_cond(a: AstArena, c: ExprId, pattern: PatternId) -> bool {
    let is_e = a.exprs@[c.0 as int];
    let call = is_e->Is_value.0 as int;
    let some = is_e->Is_pattern.0 as int;
    let call_e = a.exprs@[call];
    let acc = call_e->Call_callee.0 as int;
    let acc_e = a.exprs@[acc];
    let r = acc_e->MemberAccess_left.0 as int;
    let r_e = a.exprs@[r];
    let some_p = a.patterns@[some];
    let tp_id: PatternId = some_p->EnumVariant_attached_tuple->0;
    let tp = tp_id.0 as int;
    let tp_p = a.patterns@[tp];
    &&& c.0 < a.exprs@.len() && is_e is Is
    &&& call < a.exprs@.len() && call_e is Call && call_e->Call_arguments@.len() == 0
    &&& acc < a.exprs@.len() && acc_e is MemberAccess && acc_e->MemberAccess_member@ == seq!['n', 'e', 'x', 't']
    &&& r < a.exprs@.len() && r_e is IdentifierRef && r_e->IdentifierRef_name@ == seq!['i'] && r_e->IdentifierRef_mutable
    &&& some < a.patterns@.len() && some_p is EnumVariant && some_p->EnumVariant_name@ == seq!['S', 'o', 'm', 'e']
    &&& some_p->EnumVariant_attached_tuple is Some
    &&& tp < a.patterns@.len() && tp_p is Tuple && tp_p->Tuple_0@.len() == 1
    &&& tp_p->Tuple_0@[0].label@ == seq!['0'] && tp_p->Tuple_0@[0].pattern == pattern
}

/// The loop at `w` (already rewritten from a `while` where `w < done`) runs `BODY` while
/// `i.next() is .Some(PATTERN)`.
pub open spec fn for_loop_done(a: AstArena, w: int, pattern: PatternId, body: ExprId, label: String, done: int) -> bool {
    let we = a.exprs@[w];
    &&& w < done ==> (we is Loop && we->Loop_body.0 < a.exprs@.len()
        && a.exprs@[we->Loop_body.0 as int] is If
        && while_done(a, w, a.exprs@[we->Loop_body.0 as int]->If_condition, body, label)
        && next_some_cond(a, a.exprs@[we->Loop_body.0 as int]->If_condition, pattern))
    &&& w >= done ==> (we is While && we->While_body == body && we->While_label == label
        && next_some_cond(a, we->While_condition, pattern))
}

/// `for PATTERN in ITER { BODY }` stands at `i` of `a` as
/// `{ let mut i = ITER.iter(); while i.next() is .Some(PATTERN) { BODY } }`.
pub open spec fn for_done(a: AstArena, i: int, pattern: PatternId, iter_expr: ExprId, body: ExprId, label: String, done: int) -> bool {
    let blk = a.exprs@[i];
    let es = blk->Block_exprs@;
    let asg = a.exprs@[es[0].0 as int];
    let ip = asg->Assign_pattern.0 as int;
    let ip_p = a.patterns@[ip];
    let call = asg->Assign_value.0 as int;
    let call_e = a.exprs@[call];
    let acc = call_e->Call_callee.0 as int;
    let acc_e = a.exprs@[acc];
    &&& blk is Block && blk->Block_label is None && es.len() == 2
    &&& es[0].0 < a.exprs@.len() && asg is Assign && asg->Assign_extra_op is None
    &&& i < a.expr_spans@.len() && asg->Assign_op_span == a.expr_spans@[i]
    &&& ip < a.patterns@.len() && ip_p is Binding && ip_p->Binding_name@ == seq!['i'] && ip_p->Binding_mutable
    &&& call < a.exprs@.len() && call_e is Call && call_e->Call_arguments@.len() == 0
    &&& acc < a.exprs@.len() && acc_e is MemberAccess && acc_e->MemberAccess_left == iter_expr
    &&& acc_e->MemberAccess_member@ == seq!['i', 't', 'e', 'r']
    &&& es[1].0 < a.exprs@.len()
    &&& for_loop_done(a, es[1].0 as int, pattern, body, label, done)
}

/// `fn NAME CLOSURE` stands at `i` of `a` as `const NAME = CLOSURE`.
pub open spec fn fn_done(a: AstArena, i: int, name: String, closure: AstClosure) -> bool {
    let ce = a.exprs@[i];
    let p = ce->Const_pattern.0 as int;
    let v = ce->Const_value.0 as int;
    &&& ce is Const
    &&& p < a.patterns@.len() && a.patterns@[p] is Binding
    &&& a.patterns@[p]->Binding_name == name && !a.patterns@[p]->Binding_mutable
    &&& v < a.exprs@.len() && a.exprs@[v] is Closure
    &&& a.exprs@[v]->Closure_closure == closure && a.exprs@[v]->Closure_requires_type_annotation
}

/// `LEFT OP RIGHT` with `OP` one of `!=`, `<=`, `>=` stands at `i` of `a` as
/// `!(LEFT INVERTED RIGHT)`.
pub open spec fn infix_done(a: AstArena, i: int, op: TokenKind, op_span: Span, left: ExprId, right: ExprId) -> bool {
    let pe = a.exprs@[i];
    let inner = pe->Prefix_right.0 as int;
    &&& pe is Prefix && pe->Prefix_op == TokenKind::Exclamation
    &&& i < inner < a.exprs@.len()
    &&& a.exprs@[inner] == (Expr::Infix { op: inverted_op(op), op_span, left, right })
    &&& a.expr_spans@[inner] == a.expr_spans@[i]
}

/// What desugaring made at `i` of `a` of the expression `e` that stood there: the rewrite of a
/// sugar form, a tuple's elements stably sorted by label, and anything else unchanged. `done`
/// is how far the desugaring got.
#[verifier::opaque]
pub open spec fn desugared_as(e: Expr, a: AstArena, i: int, done: int) -> bool {
    match e {
        Expr::While { condition, body, label } => while_done(a, i, condition, body, label),
        Expr::For { pattern, iter_expr, body, label } => for_done(a, i, pattern, iter_expr, body, label, done),
        Expr::FnDefinition { name, closure } => fn_done(a, i, name, closure),
        Expr::Infix { op, op_span, left, right } =>
            if is_sugar(e) { infix_done(a, i, op, op_span, left, right) } else { a.exprs@[i] == e },
        Expr::Tuple { elems } => (a.exprs@[i] matches Expr::Tuple { elems: sorted } && elems_stably_sorted(elems@, sorted@)),
        _ => a.exprs@[i] == e,
    }
}

/// Appends an expression.
fn append_expr(ast: &mut AstArena, span: Span, expr: Expr, from: Ghost<int>) -> (id: ExprId)
    requires
        spans_match(*old(ast)),
        0 <= from@ <= old(ast).exprs@.len(),
    ensures
        spans_match(*final(ast)),
        id.0 == old(ast).exprs@.len(),
        final(ast).exprs@ == old(ast).exprs@.push(expr),
        final(ast).expr_spans@ == old(ast).expr_spans@.push(span),
        final(ast).patterns@ == old(ast).patterns@,
        final(ast).pattern_spans@ == old(ast).pattern_spans@,
        work_from(final(ast).exprs@, from@) == work_from(old(ast).exprs@, from@) + weight(expr),
        exprs_added_from(final(ast).exprs@, from@) == exprs_added_from(old(ast).exprs@, from@) + exprs_added(expr),
        patterns_added_from(final(ast).exprs@, from@) == patterns_added_from(old(ast).exprs@, from@) + patterns_added(expr),
        old(ast).wf() && expr_children_lt(expr, old(ast).exprs@.len(), old(ast).patterns@.len()) ==> final(ast).wf(),
{
    let ghost a = *ast;
    let id = ast.add_expr(span, expr);
    proof {
        lemma_work_push(a.exprs@, expr, from@);
        lemma_added_push(a.exprs@, expr, from@);
        if a.wf() && expr_children_lt(expr, a.exprs@.len(), a.patterns@.len()) {
            let b = *ast;
            let n = a.exprs@.len();
            let np = a.patterns@.len();
            assert forall|k: int| 0 <= k < n + 1 implies expr_children_lt(#[trigger] b.exprs@[k], n + 1, np) by {
                if k < n {
                    assert(b.exprs@[k] == a.exprs@[k]);
                    crate::parsing::ast::lemma_expr_children_lt_mono(a.exprs@[k], n, np, n + 1, np);
                } else {
                    crate::parsing::ast::lemma_expr_children_lt_mono(expr, n, np, n + 1, np);
                }
            }
            assert forall|k: int| 0 <= k < np implies pattern_children_lt(#[trigger] b.patterns@[k], n + 1, np) by {
                crate::parsing::ast::lemma_pattern_children_lt_mono(a.patterns@[k], n, np, n + 1, np);
            }
        }
    }
    id
}

/// Appends a pattern.
fn append_pattern(ast: &mut AstArena, span: Span, pattern: Pattern) -> (id: PatternId)
    requires
        spans_match(*old(ast)),
    ensures
        spans_match(*final(ast)),
        id.0 == old(ast).patterns@.len(),
        final(ast).patterns@ == old(ast).patterns@.push(pattern),
        final(ast).pattern_spans@ == old(ast).pattern_spans@.push(span),
        final(ast).exprs@ == old(ast).exprs@,
        final(ast).expr_spans@ == old(ast).expr_spans@,
        old(ast).wf() && pattern_children_lt(pattern, old(ast).exprs@.len(), old(ast).patterns@.len()) ==> final(ast).wf(),
{
    let ghost a = *ast;
    let id = ast.add_pattern(span, pattern);
    proof {
        if a.wf() && pattern_children_lt(pattern, a.exprs@.len(), a.patterns@.len()) {
            let b = *ast;
            let n = a.exprs@.len();
            let np = a.patterns@.len();
            assert forall|k: int| 0 <= k < np + 1 implies pattern_children_lt(#[trigger] b.patterns@[k], n, np + 1) by {
                if k < np {
                    assert(b.patterns@[k] == a.patterns@[k]);
                    crate::parsing::ast::lemma_pattern_children_lt_mono(a.patterns@[k], n, np, n, np + 1);
                } else {
                    crate::parsing::ast::lemma_pattern_children_lt_mono(pattern, n, np, n, np + 1);
                }
            }
            assert forall|k: int| 0 <= k < n implies expr_children_lt(#[trigger] b.exprs@[k], n, np + 1) by {
                crate::parsing::ast::lemma_expr_children_lt_mono(a.exprs@[k], n, np, n, np + 1);
            }
        }
    }
    id
}

/// Puts `expr` at index `i`.
fn set_expr(ast: &mut AstArena, i: usize, expr: Expr)
    requires
        spans_match(*old(ast)),
        i < old(ast).exprs@.len(),
    ensures
        spans_match(*final(ast)),
        final(ast).exprs@ == old(ast).exprs@.update(i as int, expr),
        final(ast).expr_spans@ == old(ast).expr_spans@,
        final(ast).patterns@ == old(ast).patterns@,
        final(ast).pattern_spans@ == old(ast).pattern_spans@,
        old(ast).wf() && expr_children_lt(expr, old(ast).exprs@.len(), old(ast).patterns@.len()) ==> final(ast).wf(),
{
    let ghost a = *ast;
    ast.exprs.set(i, expr);
    proof {
        if a.wf() && expr_children_lt(expr, a.exprs@.len(), a.patterns@.len()) {
            let b = *ast;
            assert forall|k: int| 0 <= k < b.exprs@.len() implies
                expr_children_lt(#[trigger] b.exprs@[k], b.exprs@.len(), b.patterns@.len()) by {
                if k != i {
                    assert(b.exprs@[k] == a.exprs@[k]);
                }
            }
        }
    }
}

/// Takes the expression at index `i` out, leaving `Void` there.
fn take_expr(ast: &mut AstArena, i: usize) -> (r: Expr)
    requires
        spans_match(*old(ast)),
        i < old(ast).exprs@.len(),
    ensures
        spans_match(*final(ast)),
        r == old(ast).exprs@[i as int],
        final(ast).exprs@ == old(ast).exprs@.update(i as int, Expr::Void),
        final(ast).expr_spans@ == old(ast).expr_spans@,
        final(ast).patterns@ == old(ast).patterns@,
        final(ast).pattern_spans@ == old(ast).pattern_spans@,
        old(ast).wf() ==> final(ast).wf() && expr_children_lt(r, old(ast).exprs@.len(), old(ast).patterns@.len()),
{
    let ghost a = *ast;
    let mut e = Expr::Void;
    ast.exprs.set_and_swap(i, &mut e);
    proof {
        if a.wf() {
            let b = *ast;
            assert forall|k: int| 0 <= k < b.exprs@.len() implies
                expr_children_lt(#[trigger] b.exprs@[k], b.exprs@.len(), b.patterns@.len()) by {
                if k != i {
                    assert(b.exprs@[k] == a.exprs@[k]);
                }
            }
            assert(expr_children_lt(a.exprs@[i as int], a.exprs@.len(), a.patterns@.len()));
        }
    }
    e
}

/// Puts `pattern` at index `i`.
fn set_pattern(ast: &mut AstArena, i: usize, pattern: Pattern)
    requires
        spans_match(*old(ast)),
        i < old(ast).patterns@.len(),
    ensures
        spans_match(*final(ast)),
        final(ast).patterns@ == old(ast).patterns@.update(i as int, pattern),
        final(ast).pattern_spans@ == old(ast).pattern_spans@,
        final(ast).exprs@ == old(ast).exprs@,
        final(ast).expr_spans@ == old(ast).expr_spans@,
        old(ast).wf() && pattern_children_lt(pattern, old(ast).exprs@.len(), old(ast).patterns@.len()) ==> final(ast).wf(),
{
    let ghost a = *ast;
    ast.patterns.set(i, pattern);
    proof {
        if a.wf() && pattern_children_lt(pattern, a.exprs@.len(), a.patterns@.len()) {
            let b = *ast;
            assert forall|k: int| 0 <= k < b.patterns@.len() implies
                pattern_children_lt(#[trigger] b.patterns@[k], b.exprs@.len(), b.patterns@.len()) by {
                if k != i {
                    assert(b.patterns@[k] == a.patterns@[k]);
                }
            }
        }
    }
}

/// Takes the pattern at index `i` out, leaving `Wildcard` there.
fn take_pattern(ast: &mut AstArena, i: usize) -> (r: Pattern)
    requires
        spans_match(*old(ast)),
        i < old(ast).patterns@.len(),
    ensures
        spans_match(*final(ast)),
        r == old(ast).patterns@[i as int],
        final(ast).patterns@ == old(ast).patterns@.update(i as int, Pattern::Wildcard),
        final(ast).pattern_spans@ == old(ast).pattern_spans@,
        final(ast).exprs@ == old(ast).exprs@,
        final(ast).expr_spans@ == old(ast).expr_spans@,
        old(ast).wf() ==> final(ast).wf() && pattern_children_lt(r, old(ast).exprs@.len(), old(ast).patterns@.len()),
{
    let ghost a = *ast;
    let mut p = Pattern::Wildcard;
    ast.patterns.set_and_swap(i, &mut p);
    proof {
        if a.wf() {
            let b = *ast;
            assert forall|k: int| 0 <= k < b.patterns@.len() implies
                pattern_children_lt(#[trigger] b.patterns@[k], b.exprs@.len(), b.patterns@.len()) by {
                if k != i {
                    assert(b.patterns@[k] == a.patterns@[k]);
                }
            }
            assert(pattern_children_lt(a.patterns@[i as int], a.exprs@.len(), a.patterns@.len()));
        }
    }
    p
}

/// What desugaring made of the pattern `p`: a tuple pattern's elements stably sorted by label,
/// any other pattern unchanged.
pub open spec fn pattern_desugared_as(p: Pattern, q: Pattern) -> bool {
    match p {
        Pattern::Tuple(elems) => (q matches Pattern::Tuple(sorted) && pats_stably_sorted(elems@, sorted@)),
        _ => q == p,
    }
}

/// How one desugaring step at `i` changes the arena: nothing else at an index below the old
/// length, and nothing at `i` unless it held sugar or a tuple; it only appends patterns and spans.
spec fn step_frame(a: AstArena, b: AstArena, i: int) -> bool {
    &&& b.exprs@.len() >= a.exprs@.len()
    &&& b.patterns@.len() >= a.patterns@.len()
    &&& b.expr_spans@.len() >= a.expr_spans@.len()
    &&& forall|k: int| 0 <= k < a.exprs@.len() && k != i ==> #[trigger] b.exprs@[k] == a.exprs@[k]
    &&& (!is_sugar(a.exprs@[i]) && !(a.exprs@[i] is Tuple) ==> b.exprs@[i] == a.exprs@[i])
    &&& forall|k: int| 0 <= k < a.patterns@.len() ==> #[trigger] b.patterns@[k] == a.patterns@[k]
    &&& forall|k: int| 0 <= k < a.expr_spans@.len() ==> #[trigger] b.expr_spans@[k] == a.expr_spans@[k]
}

/// What a step keeps of the rewrites made before it; a `while` that a `for` made is rewritten in
/// the step at its index.
proof fn lemma_desugared_step(e: Expr, a: AstArena, b: AstArena, j: int, i: int)
    requires
        0 <= j < i < a.exprs@.len(),
        a.exprs@.len() == a.expr_spans@.len(),
        desugared_as(e, a, j, i),
        step_frame(a, b, i),
        a.exprs@[i] matches Expr::While { condition, body, label } ==> while_done(b, i, condition, body, label),
    ensures
        desugared_as(e, b, j, i + 1),
{
    reveal(desugared_as);
    match e {
        Expr::For { pattern, iter_expr, body, label } => {
            let es = a.exprs@[j]->Block_exprs;
            let w = es@[1].0 as int;
            assert(b.exprs@[j] == a.exprs@[j]);
            if w == i {
                let c = a.exprs@[i]->While_condition;
                let if_id = b.exprs@[i]->Loop_body;
                assert(b.exprs@[if_id.0 as int]->If_condition == c);
            }
        },
        _ => {},
    }
}

/// A tuple pattern of one element stays as it is when sorted.
proof fn lemma_single_pattern_sorted(s: Seq<AstTuplePattern>, r: Seq<AstTuplePattern>)
    requires
        pats_stably_sorted(s, r),
        s.len() == 1,
    ensures
        r == s,
{
    let k = label_key(s[0].label);
    let p = pat_label_is(k);
    assert(s =~= Seq::<AstTuplePattern>::empty().push(s[0]));
    assert(r =~= Seq::<AstTuplePattern>::empty().push(r[0]));
    Seq::<AstTuplePattern>::empty().lemma_filter_push(s[0], p);
    Seq::<AstTuplePattern>::empty().lemma_filter_push(r[0], p);
    reveal(Seq::filter);
    assert(Seq::<AstTuplePattern>::empty().filter(p) =~= Seq::<AstTuplePattern>::empty());
    assert(r.filter(p) == s.filter(p));
    assert(s.filter(p).len() == 1);
    assert(r.filter(p)[0] == r[0]);
}

/// The rewrites stay true when only tuple patterns are sorted.
proof fn lemma_desugared_patterns_sorted(e: Expr, a: AstArena, b: AstArena, j: int, done: int)
    requires
        desugared_as(e, a, j, done),
        b.exprs@ == a.exprs@,
        b.expr_spans@ == a.expr_spans@,
        b.patterns@.len() == a.patterns@.len(),
        forall|k: int| 0 <= k < a.patterns@.len() ==> pattern_desugared_as(a.patterns@[k], #[trigger] b.patterns@[k]),
    ensures
        desugared_as(e, b, j, done),
{
    reveal(desugared_as);
    assert forall|k: int| 0 <= k < a.patterns@.len() && !(a.patterns@[k] is Tuple) implies
        #[trigger] b.patterns@[k] == a.patterns@[k] by {
        assert(pattern_desugared_as(a.patterns@[k], b.patterns@[k]));
    }
    assert forall|k: int| 0 <= k < a.patterns@.len() && (a.patterns@[k] matches Pattern::Tuple(el) && el@.len() == 1) implies
        (#[trigger] b.patterns@[k] matches Pattern::Tuple(el2) && el2@ == a.patterns@[k]->Tuple_0@) by {
        assert(pattern_desugared_as(a.patterns@[k], b.patterns@[k]));
        lemma_single_pattern_sorted(a.patterns@[k]->Tuple_0@, b.patterns@[k]->Tuple_0@);
    }
}

/// Rewrites the syntax sugar of the tree into core forms:
/// `while C { B }` into `loop { if C { B } else break }`,
/// `for P in I { B }` into `{ let mut i = I.iter(); while i.next() is .Some(P) { B } }`,
/// `fn x(..) ..` into `const x = |..| ..`, `a != b` into `!(a == b)`, `a <= b` into `!(a > b)`,
/// `a >= b` into `!(a < b)`; and puts the elements of every tuple in the order of their labels
/// (a stable sort). Expressions made here are desugared too. Nodes are only appended, and the
/// spans of the old ones stay.
#[verifier::rlimit(100)]
#[verifier::spinoff_prover]
pub fn desugar_after_parsing(ast: &mut AstArena)
    requires
        spans_match(*old(ast)),
    ensures
        spans_match(*final(ast)),
        old(ast).wf() ==> final(ast).wf(),
        // each sugar form appends a fixed number of nodes
        final(ast).exprs@.len() == old(ast).exprs@.len() + exprs_added_from(old(ast).exprs@, 0),
        final(ast).patterns@.len() == old(ast).patterns@.len() + patterns_added_from(old(ast).exprs@, 0),
        // without sugar, nothing is appended
        (forall|i: int| 0 <= i < old(ast).exprs@.len() ==> !is_sugar(#[trigger] old(ast).exprs@[i])) ==>
            final(ast).exprs@.len() == old(ast).exprs@.len() && final(ast).patterns@.len() == old(ast).patterns@.len(),
        // on a desugared tree it changes nothing: desugaring twice is desugaring once
        (forall|i: int| 0 <= i < old(ast).exprs@.len() ==> is_desugared_expr(#[trigger] old(ast).exprs@[i]))
            && (forall|j: int| 0 <= j < old(ast).patterns@.len() ==> is_desugared_pattern(#[trigger] old(ast).patterns@[j])) ==> {
            &&& final(ast).exprs@.len() == old(ast).exprs@.len()
            &&& final(ast).patterns@.len() == old(ast).patterns@.len()
            &&& forall|i: int| 0 <= i < old(ast).exprs@.len() ==> same_expr(#[trigger] final(ast).exprs@[i], old(ast).exprs@[i])
            &&& forall|j: int| 0 <= j < old(ast).patterns@.len() ==> same_pattern(#[trigger] final(ast).patterns@[j], old(ast).patterns@[j])
        },
        forall|i: int| 0 <= i < old(ast).exprs@.len() ==> #[trigger] final(ast).expr_spans@[i] == old(ast).expr_spans@[i],
        forall|j: int| 0 <= j < old(ast).patterns@.len() ==> #[trigger] final(ast).pattern_spans@[j] == old(ast).pattern_spans@[j],
        // no sugar is left, and every tuple is in label order, new nodes included
        forall|i: int| 0 <= i < final(ast).exprs@.len() ==> is_desugared_expr(#[trigger] final(ast).exprs@[i]),
        forall|j: int| 0 <= j < final(ast).patterns@.len() ==> is_desugared_pattern(#[trigger] final(ast).patterns@[j]),
        // each expression and pattern that was there became its rewrite
        forall|i: int| 0 <= i < old(ast).exprs@.len() ==>
            desugared_as(#[trigger] old(ast).exprs@[i], *final(ast), i, final(ast).exprs@.len() as int),
        forall|j: int| 0 <= j < old(ast).patterns@.len() ==>
            pattern_desugared_as(#[trigger] old(ast).patterns@[j], final(ast).patterns@[j]),
{
    let ghost orig = *ast;
    // what each expression was when the loop came to it
    let ghost mut pre: Seq<Expr> = ast.exprs@;

    // this loops until the end of `exprs`, which grows: new expressions get desugared too
    let mut i: usize = 0;
    while i < ast.exprs.len()
        invariant
            spans_match(*ast),
            orig.wf() ==> ast.wf(),
            0 <= i <= ast.exprs@.len(),
            pre.len() == ast.exprs@.len(),
            ast.exprs@.len() >= orig.exprs@.len(),
            ast.patterns@.len() >= orig.patterns@.len(),
            forall|j: int| 0 <= j < orig.exprs@.len() ==> #[trigger] pre[j] == orig.exprs@[j],
            forall|j: int| i <= j < ast.exprs@.len() ==> #[trigger] ast.exprs@[j] == pre[j],
            forall|j: int| 0 <= j < i ==> is_desugared_expr(#[trigger] ast.exprs@[j]),
            forall|j: int| 0 <= j < i ==> desugared_as(#[trigger] pre[j], *ast, j, i as int),
            forall|k: int| 0 <= k < orig.patterns@.len() ==> #[trigger] ast.patterns@[k] == orig.patterns@[k],
            forall|k: int| 0 <= k < orig.exprs@.len() ==> #[trigger] ast.expr_spans@[k] == orig.expr_spans@[k],
            forall|k: int| 0 <= k < orig.patterns@.len() ==> #[trigger] ast.pattern_spans@[k] == orig.pattern_spans@[k],
            ast.exprs@.len() + exprs_added_from(ast.exprs@, i as int) == orig.exprs@.len() + exprs_added_from(orig.exprs@, 0),
            ast.patterns@.len() + patterns_added_from(ast.exprs@, i as int)
                == orig.patterns@.len() + patterns_added_from(orig.exprs@, 0),
        decreases work_from(ast.exprs@, i as int),
    {
        let ghost a0 = *ast;
        let ghost from = (i + 1) as int;
        let span = ast.expr_spans[i];
        let expr = take_expr(ast, i);
        proof {
            lemma_work_update_before(a0.exprs@, i as int, Expr::Void, from);
            lemma_added_update_before(a0.exprs@, i as int, Expr::Void, from);
        }
        match expr {
            Expr::While { condition, body, label } => {
                // `while COND { BODY }`  -->  `loop { if COND { BODY } else break }`
                let void = append_expr(ast, span, Expr::Void, Ghost(from));
                let brk = append_expr(ast, span, Expr::Break { label: None, expr: void }, Ghost(from));
                let if_expr = append_expr(ast, span, Expr::If { condition, then: body, alt: brk, never_alt: false }, Ghost(from));
                let ghost before_replace = ast.exprs@;
                set_expr(ast, i, Expr::Loop { label, body: if_expr });
                proof {
                    lemma_work_update_before(before_replace, i as int, ast.exprs@[i as int], from);
                    lemma_added_update_before(before_replace, i as int, ast.exprs@[i as int], from);
                    reveal(desugared_as);
                    assert(desugared_as(a0.exprs@[i as int], *ast, i as int, i + 1));
                }
            },
            Expr::For { pattern, iter_expr, body, label } => {
                // `for PATT in ITER_EXPR { BODY }`
                // -->  `{ let mut i = ITER_EXPR.iter(); while i.next() is .Some(PATT) { BODY } }`
                let i_pattern = append_pattern(ast, span, Pattern::Binding { name: "i".to_string(), mutable: true });
                let iter_access = append_expr(ast, span, Expr::MemberAccess { left: iter_expr, member: "iter".to_string() }, Ghost(from));
                let iter_call = append_expr(ast, span, Expr::Call { callee: iter_access, arguments: Vec::new() }, Ghost(from));
                let assign = append_expr(ast, span, Expr::Assign { pattern: i_pattern, value: iter_call, extra_op: None, op_span: span },
                    Ghost(from));
                let i_ref = append_expr(ast, span, Expr::IdentifierRef { name: "i".to_string(), mutable: true }, Ghost(from));
                let next_access = append_expr(ast, span, Expr::MemberAccess { left: i_ref, member: "next".to_string() }, Ghost(from));
                let next_call = append_expr(ast, span, Expr::Call { callee: next_access, arguments: Vec::new() }, Ghost(from));
                let tuple_pattern = append_pattern(ast, span,
                    Pattern::Tuple(vec![AstTuplePattern { label: "0".to_string(), pattern }]));
                let some_pattern = append_pattern(ast, span,
                    Pattern::EnumVariant { name: "Some".to_string(), attached_tuple: Some(tuple_pattern) });
                let is_expr = append_expr(ast, span, Expr::Is { value: next_call, pattern: some_pattern }, Ghost(from));
                let while_expr = append_expr(ast, span, Expr::While { body, label, condition: is_expr }, Ghost(from));
                let ghost before_replace = ast.exprs@;
                set_expr(ast, i, Expr::Block { label: None, exprs: vec![assign, while_expr] });
                proof {
                    lemma_work_update_before(before_replace, i as int, ast.exprs@[i as int], from);
                    lemma_added_update_before(before_replace, i as int, ast.exprs@[i as int], from);
                    reveal_strlit("i");
                    reveal_strlit("iter");
                    reveal_strlit("next");
                    reveal_strlit("Some");
                    reveal_strlit("0");
                    reveal(desugared_as);
                    let a = *ast;
                    assert(a.patterns@[i_pattern.0 as int] is Binding);
                    assert(a.patterns@[i_pattern.0 as int]->Binding_name@ == seq!['i']);
                    assert(a.exprs@[iter_access.0 as int]->MemberAccess_member@ == seq!['i', 't', 'e', 'r']);
                    assert(a.exprs@[is_expr.0 as int] is Is);
                    assert(a.exprs@[next_call.0 as int] is Call);
                    assert(a.exprs@[next_access.0 as int]->MemberAccess_member@ == seq!['n', 'e', 'x', 't']);
                    assert(a.exprs@[i_ref.0 as int]->IdentifierRef_name@ == seq!['i']);
                    assert(a.patterns@[some_pattern.0 as int]->EnumVariant_name@ == seq!['S', 'o', 'm', 'e']);
                    assert(a.patterns@[tuple_pattern.0 as int]->Tuple_0@.len() == 1);
                    assert(a.patterns@[tuple_pattern.0 as int]->Tuple_0@[0].label@ == seq!['0']);
                    assert(next_some_cond(a, is_expr, pattern));
                    assert(for_loop_done(a, while_expr.0 as int, pattern, body, label, i + 1));
                    assert(desugared_as(a0.exprs@[i as int], *ast, i as int, i + 1));
                }
            },
            Expr::FnDefinition { name, closure } => {
                // `fn x() { ... }`  -->  `const x = |-> ...`
                let name_pattern = append_pattern(ast, span, Pattern::Binding { name, mutable: false });
                let value = append_expr(ast, span, Expr::Closure { closure, requires_type_annotation: true }, Ghost(from));
                let ghost before_replace = ast.exprs@;
                set_expr(ast, i, Expr::Const { pattern: name_pattern, value });
                proof {
                    lemma_work_update_before(before_replace, i as int, ast.exprs@[i as int], from);
                    lemma_added_update_before(before_replace, i as int, ast.exprs@[i as int], from);
                    reveal(desugared_as);
                    assert(desugared_as(a0.exprs@[i as int], *ast, i as int, i + 1));
                }
            },
            Expr::Infix { op, op_span, left, right } => {
                let inverted = if op == TokenKind::NotEqual {
                    Some(TokenKind::EqualEqual)  // `a != b`  -->  `!(a == b)`
                } else if op == TokenKind::LessEqual {
                    Some(TokenKind::Greater)  // `a <= b`  -->  `!(a > b)`
                } else if op == TokenKind::GreaterEqual {
                    Some(TokenKind::Less)  // `a >= b`  -->  `!(a < b)`
                } else {
                    None
                };
                match inverted {
                    Some(inverted_op) => {
                        let inner = append_expr(ast, span, Expr::Infix { op: inverted_op, op_span, left, right }, Ghost(from));
                        let ghost before_replace = ast.exprs@;
                        set_expr(ast, i, Expr::Prefix { op: TokenKind::Exclamation, right: inner });
                        proof {
                            lemma_work_update_before(before_replace, i as int, ast.exprs@[i as int], from);
                            lemma_added_update_before(before_replace, i as int, ast.exprs@[i as int], from);
                            reveal(desugared_as);
                            assert(desugared_as(a0.exprs@[i as int], *ast, i as int, i + 1));
                        }
                    },
                    None => {
                        let ghost before_replace = ast.exprs@;
                        set_expr(ast, i, Expr::Infix { op, op_span, left, right });
                        proof {
                            lemma_work_update_before(before_replace, i as int, ast.exprs@[i as int], from);
                            lemma_added_update_before(before_replace, i as int, ast.exprs@[i as int], from);
                            reveal(desugared_as);
                            assert(desugared_as(a0.exprs@[i as int], *ast, i as int, i + 1));
                        }
                    },
                }
            },
            Expr::Tuple { elems } => {
                // `(b: ..., a: ...)`  -->  `(a: ..., b: ...)`
                let ghost old_elems = elems@;
                let sorted = sort_tuple_elements(elems);
                proof {
                    assert forall|k: int| 0 <= k < sorted@.len() implies
                        exists|m: int| 0 <= m < old_elems.len() && old_elems[m] == #[trigger] sorted@[k] by {
                        vstd::seq_lib::to_multiset_contains(sorted@, sorted@[k]);
                        vstd::seq_lib::to_multiset_contains(old_elems, sorted@[k]);
                        assert(sorted@.contains(sorted@[k]));
                    }
                }
                let ghost before_replace = ast.exprs@;
                set_expr(ast, i, Expr::Tuple { elems: sorted });
                proof {
                    lemma_work_update_before(before_replace, i as int, ast.exprs@[i as int], from);
                    lemma_added_update_before(before_replace, i as int, ast.exprs@[i as int], from);
                    reveal(desugared_as);
                    assert(desugared_as(a0.exprs@[i as int], *ast, i as int, i + 1));
                }
            },
            other => {
                let ghost before_replace = ast.exprs@;
                set_expr(ast, i, other);
                proof {
                    lemma_work_update_before(before_replace, i as int, ast.exprs@[i as int], from);
                    lemma_added_update_before(before_replace, i as int, ast.exprs@[i as int], from);
                    reveal(desugared_as);
                    assert(desugared_as(a0.exprs@[i as int], *ast, i as int, i + 1));
                }
            },
        }
        proof {
            let b = *ast;
            assert(exprs_added_from(a0.exprs@, i as int) == exprs_added(a0.exprs@[i as int]) + exprs_added_from(a0.exprs@, i + 1));
            assert(patterns_added_from(a0.exprs@, i as int)
                == patterns_added(a0.exprs@[i as int]) + patterns_added_from(a0.exprs@, i + 1));
            assert(step_frame(a0, b, i as int));
            assert(desugared_as(pre[i as int], b, i as int, i + 1));
            assert forall|j: int| 0 <= j < i implies desugared_as(#[trigger] pre[j], b, j, i + 1) by {
                lemma_desugared_step(pre[j], a0, b, j, i as int);
            }
            pre = pre + b.exprs@.subrange(a0.exprs@.len() as int, b.exprs@.len() as int);
        }
        i = i + 1;
    }

    proof {
        assert(exprs_added_from(ast.exprs@, i as int) == 0);
        assert(patterns_added_from(ast.exprs@, i as int) == 0);
    }
    // put the elements of tuple patterns in label order too
    let ghost mid = *ast;
    let mut j: usize = 0;
    while j < ast.patterns.len()
        invariant
            spans_match(*ast),
            orig.wf() ==> ast.wf(),
            0 <= j <= ast.patterns@.len(),
            ast.exprs@ == mid.exprs@,
            ast.expr_spans@ == mid.expr_spans@,
            ast.pattern_spans@ == mid.pattern_spans@,
            ast.patterns@.len() == mid.patterns@.len(),
            forall|k: int| 0 <= k < j ==> is_desugared_pattern(#[trigger] ast.patterns@[k]),
            forall|k: int| j <= k < ast.patterns@.len() ==> #[trigger] ast.patterns@[k] == mid.patterns@[k],
            forall|k: int| 0 <= k < j ==> pattern_desugared_as(mid.patterns@[k], #[trigger] ast.patterns@[k]),
        decreases ast.patterns@.len() - j,
    {
        let pattern = take_pattern(ast, j);
        match pattern {
            Pattern::Tuple(elems) => {
                let ghost old_elems = elems@;
                let sorted = sort_tuple_patterns(elems);
                proof {
                    assert forall|k: int| 0 <= k < sorted@.len() implies
                        exists|m: int| 0 <= m < old_elems.len() && old_elems[m] == #[trigger] sorted@[k] by {
                        vstd::seq_lib::to_multiset_contains(sorted@, sorted@[k]);
                        vstd::seq_lib::to_multiset_contains(old_elems, sorted@[k]);
                        assert(sorted@.contains(sorted@[k]));
                    }
                }
                set_pattern(ast, j, Pattern::Tuple(sorted));
            },
            other => {
                set_pattern(ast, j, other);
            },
        }
        j = j + 1;
    }
    proof {
        let fin = *ast;
        if forall|k: int| 0 <= k < orig.exprs@.len() ==> !is_sugar(#[trigger] orig.exprs@[k]) {
            lemma_nothing_added(orig.exprs@, 0);
        }
        assert forall|k: int| 0 <= k < mid.patterns@.len() implies
            pattern_desugared_as(mid.patterns@[k], #[trigger] fin.patterns@[k]) by {}
        assert forall|i: int| 0 <= i < orig.exprs@.len() implies
            desugared_as(#[trigger] orig.exprs@[i], fin, i, fin.exprs@.len() as int) by {
            assert(pre[i] == orig.exprs@[i]);
            lemma_desugared_patterns_sorted(orig.exprs@[i], mid, fin, i, fin.exprs@.len() as int);
        }
        assert forall|k: int| 0 <= k < orig.patterns@.len() implies
            pattern_desugared_as(#[trigger] orig.patterns@[k], fin.patterns@[k]) by {
            assert(mid.patterns@[k] == orig.patterns@[k]);
        }
        if (forall|i: int| 0 <= i < orig.exprs@.len() ==> is_desugared_expr(#[trigger] orig.exprs@[i]))
            && (forall|j: int| 0 <= j < orig.patterns@.len() ==> is_desugared_pattern(#[trigger] orig.patterns@[j])) {
            assert forall|i: int| 0 <= i < orig.exprs@.len() implies same_expr(#[trigger] fin.exprs@[i], orig.exprs@[i]) by {
                assert(desugared_as(orig.exprs@[i], fin, i, fin.exprs@.len() as int));
                assert(is_desugared_expr(orig.exprs@[i]));
                reveal(desugared_as);
                match orig.exprs@[i] {
                    Expr::Tuple { elems } => {
                        lemma_stable_sort_of_sorted_elems(elems@, fin.exprs@[i]->Tuple_elems@);
                    },
                    _ => {},
                }
            }
            assert forall|j: int| 0 <= j < orig.patterns@.len() implies same_pattern(#[trigger] fin.patterns@[j], orig.patterns@[j]) by {
                assert(pattern_desugared_as(orig.patterns@[j], fin.patterns@[j]));
                assert(is_desugared_pattern(orig.patterns@[j]));
                match orig.patterns@[j] {
                    Pattern::Tuple(elems) => {
                        lemma_stable_sort_of_sorted_pats(elems@, fin.patterns@[j]->Tuple_0@);
                    },
                    _ => {},
                }
            }
        }
    }
}

/// Sorts tuple elements by label; elements with equal labels keep their order.
pub fn sort_tuple_elements(elems: Vec<AstTupleElement>) -> (r: Vec<AstTupleElement>)
    ensures
        elems_stably_sorted(elems@, r@),
        r@.to_multiset() == elems@.to_multiset(),
{
    let ghost given = elems@;
    let mut input = elems;
    let mut result: Vec<AstTupleElement> = Vec::new();
    let ghost mut taken: int = 0;
    proof {
        assert(given.take(0) =~= result@);
    }
    while input.len() > 0
        invariant
            0 <= taken <= given.len(),
            input@ == given.subrange(taken, given.len() as int),
            result@.to_multiset() == given.take(taken).to_multiset(),
            result@.len() == taken,
            elems_sorted(result@),
            forall|k: Seq<u8>| #[trigger] result@.filter(elem_label_is(k)) == given.take(taken).filter(elem_label_is(k)),
        decreases input@.len(),
    {
        let x = input.remove(0);
        let mut pos: usize = 0;
        while pos < result.len() && str_lex_le(result[pos].label.as_str(), x.label.as_str())
            invariant
                0 <= pos <= result@.len(),
                forall|k: int| 0 <= k < pos ==> lex_le(label_key(#[trigger] result@[k].label), label_key(x.label)),
            decreases result@.len() - pos,
        {
            pos = pos + 1;
        }
        proof {
            let r = result@;
            let r2 = r.insert(pos as int, x);
            if pos < r.len() {
                lemma_lex_le_total(label_key(r[pos as int].label), label_key(x.label));
            }
            assert forall|i: int, j: int| 0 <= i < j < r2.len() implies
                #[trigger] lex_le(label_key(r2[i].label), label_key(r2[j].label)) by {
                if j < pos {
                } else if j == pos {
                } else if i < pos {
                    // r2[i] <= x <= r[pos] <= r2[j]
                    assert(lex_le(label_key(x.label), label_key(r[pos as int].label)));
                    if j - 1 > pos {
                        lemma_lex_le_trans(label_key(x.label), label_key(r[pos as int].label), label_key(r[j - 1].label));
                    }
                    lemma_lex_le_trans(label_key(r2[i].label), label_key(x.label), label_key(r2[j].label));
                } else if i == pos {
                    if j - 1 > pos {
                        lemma_lex_le_trans(label_key(x.label), label_key(r[pos as int].label), label_key(r[j - 1].label));
                    }
                } else {
                }
            }
            assert(given.take(taken + 1) =~= given.take(taken).push(x));
            assert forall|k: Seq<u8>| #[trigger] r2.filter(elem_label_is(k)) == given.take(taken + 1).filter(elem_label_is(k)) by {
                let p = elem_label_is(k);
                if p(x) {
                    assert forall|m: int| pos <= m < r.len() implies !p(#[trigger] r[m]) by {
                        lemma_lex_le_total(label_key(x.label), label_key(x.label));
                        if m > pos {
                            assert(lex_le(label_key(r[pos as int].label), label_key(r[m].label)));
                        }
                    }
                }
                lemma_insert_filter(r, pos as int, x, p);
                given.take(taken).lemma_filter_push(x, p);
            }
            vstd::seq_lib::to_multiset_build(given.take(taken), x);
            vstd::seq_lib::to_multiset_insert(r, pos as int, x);
            assert(input@ =~= given.subrange(taken + 1, given.len() as int));
        }
        result.insert(pos, x);
        proof { taken = taken + 1; }
    }
    proof {
        assert(given.take(taken) =~= given);
    }
    result
}

/// Sorts tuple pattern elements by label; elements with equal labels keep their order.
pub fn sort_tuple_patterns(elems: Vec<AstTuplePattern>) -> (r: Vec<AstTuplePattern>)
    ensures
        pats_stably_sorted(elems@, r@),
        r@.to_multiset() == elems@.to_multiset(),
{
    let ghost given = elems@;
    let mut input = elems;
    let mut result: Vec<AstTuplePattern> = Vec::new();
    let ghost mut taken: int = 0;
    proof {
        assert(given.take(0) =~= result@);
    }
    while input.len() > 0
        invariant
            0 <= taken <= given.len(),
            input@ == given.subrange(taken, given.len() as int),
            result@.to_multiset() == given.take(taken).to_multiset(),
            result@.len() == taken,
            pats_sorted(result@),
            forall|k: Seq<u8>| #[trigger] result@.filter(pat_label_is(k)) == given.take(taken).filter(pat_label_is(k)),
        decreases input@.len(),
    {
        let x = input.remove(0);
        let mut pos: usize = 0;
        while pos < result.len() && str_lex_le(result[pos].label.as_str(), x.label.as_str())
            invariant
                0 <= pos <= result@.len(),
                forall|k: int| 0 <= k < pos ==> lex_le(label_key(#[trigger] result@[k].label), label_key(x.label)),
            decreases result@.len() - pos,
        {
            pos = pos + 1;
        }
        proof {
            let r = result@;
            let r2 = r.insert(pos as int, x);
            if pos < r.len() {
                lemma_lex_le_total(label_key(r[pos as int].label), label_key(x.label));
            }
            assert forall|i: int, j: int| 0 <= i < j < r2.len() implies
                #[trigger] lex_le(label_key(r2[i].label), label_key(r2[j].label)) by {
                if j < pos {
                } else if j == pos {
                } else if i < pos {
                    assert(lex_le(label_key(x.label), label_key(r[pos as int].label)));
                    if j - 1 > pos {
                        lemma_lex_le_trans(label_key(x.label), label_key(r[pos as int].label), label_key(r[j - 1].label));
                    }
                    lemma_lex_le_trans(label_key(r2[i].label), label_key(x.label), label_key(r2[j].label));
                } else if i == pos {
                    if j - 1 > pos {
                        lemma_lex_le_trans(label_key(x.label), label_key(r[pos as int].label), label_key(r[j - 1].label));
                    }
                } else {
                }
            }
            assert(given.take(taken + 1) =~= given.take(taken).push(x));
            assert forall|k: Seq<u8>| #[trigger] r2.filter(pat_label_is(k)) == given.take(taken + 1).filter(pat_label_is(k)) by {
                let p = pat_label_is(k);
                if p(x) {
                    assert forall|m: int| pos <= m < r.len() implies !p(#[trigger] r[m]) by {
                        lemma_lex_le_total(label_key(x.label), label_key(x.label));
                        if m > pos {
                            assert(lex_le(label_key(r[pos as int].label), label_key(r[m].label)));
                        }
                    }
                }
                lemma_insert_filter(r, pos as int, x, p);
                given.take(taken).lemma_filter_push(x, p);
            }
            vstd::seq_lib::to_multiset_build(given.take(taken), x);
            vstd::seq_lib::to_multiset_insert(r, pos as int, x);
            assert(input@ =~= given.subrange(taken + 1, given.len() as int));
        }
        result.insert(pos, x);
        proof { taken = taken + 1; }
    }
    proof {
        assert(given.take(taken) =~= given);
    }
    result
}

} // verus!
