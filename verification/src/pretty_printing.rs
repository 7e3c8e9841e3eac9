use vstd::prelude::*;
use crate::lexing::token_tables::{spec_token_text, token_text};
use crate::lexing::tokens::AssignOp;
use crate::parsing::ast::{AstArena, AstClosure, AstEnumExpression, AstMatchArm, AstTupleElement, AstTuplePattern, AstValue, Expr, ExprId, Pattern, PatternId};
use crate::text::{push_decimal, push_signed_decimal, push_str, spec_decimal, spec_signed_decimal, string_push};

verus! {

/// The parts one after the other, with `sep` between each two.
pub open spec fn joined(parts: Seq<Seq<char>>, sep: Seq<char>) -> Seq<char>
    decreases parts.len(),
{
    if parts.len() == 0 {
        Seq::empty()
    } else if parts.len() == 1 {
        parts[0]
    } else {
        joined(parts.drop_last(), sep) + sep + parts.last()
    }
}

/// The texts of the strings.
pub open spec fn texts(v: Seq<String>) -> Seq<Seq<char>> {
    v.map_values(|s: String| s@)
}

/// How `{:?}` shows a string: quoted, with escapes.
pub uninterp spec fn debug_text(s: Seq<char>) -> Seq<char>;

/// Calls `<str as Debug>::fmt` through `format!("{:?}")`; the result is named `debug_text`.
#[verifier::external_body]
fn debug_string(s: &str) -> (r: String)
    ensures
        r@ == debug_text(s@),
{
    format!("{:?}", s)
}

/// The first `count` strings one after the other, with `sep` between each two.
fn join_first(vec: &[String], count: usize, sep: &str) -> (r: String)
    requires
        count <= vec@.len(),
    ensures
        r@ == joined(texts(vec@.take(count as int)), sep@),
{
    let mut s = String::new();
    let mut i: usize = 0;
    while i < count
        invariant
            0 <= i <= count <= vec@.len(),
            s@ == joined(texts(vec@.take(i as int)), sep@),
        decreases count - i,
    {
        proof {
            assert(texts(vec@.take(i + 1)).drop_last() =~= texts(vec@.take(i as int)));
            assert(texts(vec@.take(i + 1)).last() == vec@[i as int]@);
            assert(texts(vec@.take(i + 1)).len() == i + 1);
        }
        if i > 0 {
            push_str(&mut s, sep);
        } else {
            proof { assert(texts(vec@.take(1))[0] == vec@[0]@); }
        }
        push_str(&mut s, vec[i].as_str());
        i = i + 1;
    }
    s
}

/// The strings one after the other, with `sep` between each two.
pub fn slice_to_string(vec: &[String], sep: &str) -> (r: String)
    ensures
        r@ == joined(texts(vec@), sep@),
{
    proof { assert(vec@.take(vec@.len() as int) =~= vec@); }
    join_first(vec, vec.len(), sep)
}

/// The strings as `{:?}` shows them, one after the other, with `sep` between each two.
pub fn slice_to_debug_string(vec: &[String], sep: &str) -> (r: String)
    ensures
        r@ == joined(texts(vec@).map_values(|t: Seq<char>| debug_text(t)), sep@),
{
    let mut s = String::new();
    let mut i: usize = 0;
    while i < vec.len()
        invariant
            0 <= i <= vec@.len(),
            s@ == joined(texts(vec@.take(i as int)).map_values(|t: Seq<char>| debug_text(t)), sep@),
        decreases vec@.len() - i,
    {
        proof {
            let d = |t: Seq<char>| debug_text(t);
            assert(texts(vec@.take(i + 1)).map_values(d).drop_last() =~= texts(vec@.take(i as int)).map_values(d));
            assert(texts(vec@.take(i + 1)).map_values(d).last() == debug_text(vec@[i as int]@));
            assert(texts(vec@.take(i + 1)).map_values(d).len() == i + 1);
        }
        if i > 0 {
            push_str(&mut s, sep);
        } else {
            proof { assert(texts(vec@.take(1)).map_values(|t: Seq<char>| debug_text(t))[0] == debug_text(vec@[0]@)); }
        }
        let shown = debug_string(vec[i].as_str());
        push_str(&mut s, shown.as_str());
        i = i + 1;
    }
    proof { assert(vec@.take(vec@.len() as int) =~= vec@); }
    s
}

/// An enumeration in words: `a, b or c` for the strings `a`, `b`, `c` and `sep` "or"; the one
/// string itself for one, nothing for none.
pub fn slice_to_or_string(vec: &[String], sep: &str) -> (r: String)
    ensures
        vec@.len() == 0 ==> r@ == Seq::<char>::empty(),
        vec@.len() == 1 ==> r@ == vec@[0]@,
        vec@.len() >= 2 ==> r@ == joined(texts(vec@.drop_last()), ", "@) + " "@ + sep@ + " "@ + vec@.last()@,
{
    let n = vec.len();
    if n == 0 {
        return String::new();
    }
    if n == 1 {
        return vec[0].clone();
    }
    let mut s = join_first(vec, n - 1, ", ");
    proof { assert(vec@.take(n - 1) =~= vec@.drop_last()); }
    push_str(&mut s, " ");
    push_str(&mut s, sep);
    push_str(&mut s, " ");
    push_str(&mut s, vec[n - 1].as_str());
    proof {
        reveal_strlit(", ");
        reveal_strlit(" ");
    }
    s
}


// ---------- the tree rendering of an AST ----------

/// Two spaces per indentation level.
pub open spec fn indent(ind: nat) -> Seq<char>
    decreases ind,
{
    if ind == 0 { Seq::empty() } else { indent((ind - 1) as nat) + "  "@ }
}

/// The branch drawn before a node: none at the top, a corner for the last child.
pub open spec fn branch(ind: nat, is_last: bool) -> Seq<char> {
    if ind == 0 { Seq::empty() } else if is_last { "└─"@ } else { "├─"@ }
}

/// `prefix: ` where there is a prefix.
pub open spec fn prefix_part(prefix: Seq<char>) -> Seq<char> {
    if prefix.len() == 0 { Seq::empty() } else { prefix + ": "@ }
}

/// The start of a node's line: indentation, branch, prefix and the node's kind.
pub open spec fn line_head(ind: nat, is_last: bool, prefix: Seq<char>, name: Seq<char>) -> Seq<char> {
    indent(ind) + branch(ind, is_last) + " "@ + prefix_part(prefix) + name
}

pub open spec fn bool_text(b: bool) -> Seq<char> {
    if b { "true"@ } else { "false"@ }
}

/// A label, or `none`.
pub open spec fn label_text(label: Option<String>) -> Seq<char> {
    match label { Some(l) => l@, None => "none"@ }
}

/// `mut ` for a mutable name.
pub open spec fn mut_text(mutable: bool) -> Seq<char> {
    if mutable { "mut "@ } else { Seq::empty() }
}

/// An assignment's extra operator as `{:?}` shows it.
pub open spec fn assign_op_debug(op: Option<AssignOp>) -> Seq<char> {
    match op {
        None => "None"@,
        Some(AssignOp::Plus) => "Some(Plus)"@,
        Some(AssignOp::Minus) => "Some(Minus)"@,
        Some(AssignOp::Star) => "Some(Star)"@,
        Some(AssignOp::Slash) => "Some(Slash)"@,
        Some(AssignOp::Percent) => "Some(Percent)"@,
        Some(AssignOp::QuestQuest) => "Some(QuestQuest)"@,
    }
}

/// A literal as `{:?}` shows it (a float by its source text).
pub open spec fn literal_text(v: AstValue) -> Seq<char> {
    match v {
        AstValue::NumInt(n) => "NumInt("@ + spec_signed_decimal(n as int) + ")"@,
        AstValue::NumFloat(t) => "NumFloat("@ + t@ + ")"@,
        AstValue::Str(s) => "Str("@ + debug_text(s@) + ")"@,
        AstValue::Bool(b) => "Bool("@ + bool_text(b) + ")"@,
    }
}

/// The name of an expression's kind.
pub open spec fn expr_name(e: Expr) -> Seq<char> {
    match e {
        Expr::Literal { .. } => "Literal"@,
        Expr::Prefix { .. } => "Prefix"@,
        Expr::Infix { .. } => "Infix"@,
        Expr::Block { .. } => "Block"@,
        Expr::IdentifierRef { .. } => "IdentifierRef"@,
        Expr::Assign { .. } => "Assign"@,
        Expr::EmptyLet { .. } => "EmptyLet"@,
        Expr::Const { .. } => "Const"@,
        Expr::CustomType { .. } => "CustomType"@,
        Expr::Move { .. } => "Move"@,
        Expr::Borrow { .. } => "Borrow"@,
        Expr::MemberAccess { .. } => "MemberAccess"@,
        Expr::TypeMemberAccess { .. } => "TypeMemberAccess"@,
        Expr::TemplateString { .. } => "TemplateString"@,
        Expr::Tuple { .. } => "Tuple"@,
        Expr::TupleArr { .. } => "TupleArr"@,
        Expr::Index { .. } => "Index"@,
        Expr::If { .. } => "If"@,
        Expr::Is { .. } => "Is"@,
        Expr::Match { .. } => "Match"@,
        Expr::While { .. } => "While"@,
        Expr::For { .. } => "For"@,
        Expr::Loop { .. } => "Loop"@,
        Expr::FnDefinition { .. } => "FnDefinition"@,
        Expr::Closure { .. } => "Closure"@,
        Expr::Call { .. } => "Call"@,
        Expr::TypeInstantiation { .. } => "TypeInstantiation"@,
        Expr::EnumDefinition { .. } => "EnumDefinition"@,
        Expr::EnumVariant { .. } => "EnumVariant"@,
        Expr::ImplBlock { .. } => "ImplBlock"@,
        Expr::ImplSelf => "ImplSelf"@,
        Expr::Return { .. } => "Return"@,
        Expr::Break { .. } => "Break"@,
        Expr::Continue { .. } => "Continue"@,
        Expr::Void => "Void"@,
        Expr::ParserError => "ParserError"@,
    }
}

/// The name of a pattern's kind.
pub open spec fn pattern_name(p: Pattern) -> Seq<char> {
    match p {
        Pattern::Wildcard => "Wildcard"@,
        Pattern::Not(_) => "Not"@,
        Pattern::Or(_) => "Or"@,
        Pattern::Tuple(_) => "Tuple"@,
        Pattern::String { .. } => "String"@,
        Pattern::Binding { .. } => "Binding"@,
        Pattern::TypeDestructor { .. } => "TypeDestructor"@,
        Pattern::EnumVariant { .. } => "EnumVariant"@,
        Pattern::Conditional { .. } => "Conditional"@,
        Pattern::Typed { .. } => "Typed"@,
        Pattern::CompareExpr(_) => "CompareExpr"@,
        Pattern::PlacePointer(_) => "PlacePointer"@,
    }
}

/// The tree of expression `id`: a line for the node, then its children one level deeper,
/// down to `fuel` levels.
pub open spec fn render_expr(a: AstArena, id: ExprId, ind: nat, prefix: Seq<char>, is_last: bool, fuel: nat) -> Seq<char>
    decreases fuel, 1nat,
{
    if fuel == 0 || id.0 >= a.exprs@.len() {
        Seq::empty()
    } else {
        let e = a.exprs@[id.0 as int];
        line_head(ind, is_last, prefix, expr_name(e)) + render_expr_body(a, e, ind, prefix, fuel)
    }
}

/// What follows the kind on a node's line: its details, then its children one level deeper.
pub open spec fn render_expr_body(a: AstArena, e: Expr, ind: nat, prefix: Seq<char>, fuel: nat) -> Seq<char>
    decreases fuel, 0nat,
{
    if fuel == 0 {
        Seq::empty()
    } else {
        let f = (fuel - 1) as nat;
        let d = ind + 1;
        match e {
            Expr::Literal { val } => " - "@ + literal_text(val) + "\n"@,
            Expr::IdentifierRef { name, mutable } => " - "@ + mut_text(mutable) + "\""@ + name@ + "\""@ + "\n"@,
            Expr::Prefix { op, right } => " - "@ + spec_token_text(op) + "\n"@ + render_expr(a, right, d, "right"@, true, f),
            Expr::Infix { op, left, right, .. } => " - "@ + spec_token_text(op) + "\n"@
                + render_expr(a, left, d, "left"@, false, f) + render_expr(a, right, d, "right"@, true, f),
            Expr::Block { exprs, label } => " - #"@ + label_text(label) + "\n"@ + render_expr_list(a, exprs@, 0, d, ""@, f),
            Expr::Assign { pattern, value, extra_op, .. } => " - extra_op: "@ + assign_op_debug(extra_op) + "\n"@
                + render_pattern(a, pattern, d, "pattern"@, false, f) + render_expr(a, value, d, "value"@, true, f),
            Expr::EmptyLet { pattern } => "\n"@ + render_pattern(a, pattern, d, "pattern"@, true, f),
            Expr::Const { pattern, value } => "\n"@ + render_pattern(a, pattern, d, "pattern"@, false, f)
                + render_expr(a, value, d, "value"@, true, f),
            Expr::CustomType { name, value } => " - name: "@ + name@ + "\n"@ + render_expr(a, value, d, "value"@, true, f),
            Expr::Move { expr } => "\n"@ + render_expr(a, expr, d, "expr"@, true, f),
            Expr::Borrow { expr, mutable } => "mutable: "@ + bool_text(mutable) + "\n"@ + render_expr(a, expr, d, "expr"@, true, f),
            Expr::MemberAccess { left, member } => " - ."@ + member@ + "\n"@ + render_expr(a, left, d, "object"@, true, f),
            Expr::TypeMemberAccess { left, member } => " - ."@ + member@ + "\n"@ + render_expr(a, left, d, "object"@, true, f),
            Expr::TemplateString { elems } => "\n"@ + render_expr_list(a, elems@, 0, d, ""@, f),
            Expr::Tuple { elems } => "\n"@ + render_tuple_elems(a, elems@, 0, d, f),
            Expr::TupleArr { elem, length } => "\n"@ + render_expr(a, elem, d, "elem"@, false, f)
                + render_expr(a, length, d, "length"@, true, f),
            Expr::Index { left, index } => "\n"@ + render_expr(a, left, d, "arr"@, false, f) + render_expr(a, index, d, "idx"@, true, f),
            Expr::If { condition, then, alt, .. } => "\n"@ + render_expr(a, condition, d, "cond"@, false, f)
                + render_expr(a, then, d, "then"@, false, f) + render_expr(a, alt, d, "else"@, true, f),
            Expr::Is { value, pattern } => "\n"@ + render_expr(a, value, d, "value:"@, false, f)
                + render_pattern(a, pattern, d, "pattern:"@, true, f),
            Expr::Match { match_value, arms } => "\n"@ + render_expr(a, match_value, d, "match value"@, false, f)
                + render_arms(a, arms@, 0, d, f),
            Expr::While { condition, body, label } => " - #"@ + label@ + "\n"@ + render_expr(a, condition, d, "cond"@, false, f)
                + render_expr(a, body, d, "body"@, true, f),
            Expr::For { pattern, iter_expr, body, label } => " - #"@ + label@ + "\n"@
                + render_pattern(a, pattern, d, "pattern"@, false, f) + render_expr(a, iter_expr, d, "iter_expr"@, false, f)
                + render_expr(a, body, d, "body"@, true, f),
            Expr::Loop { body, label } => " - #"@ + label@ + "\n"@ + render_expr(a, body, d, "body"@, true, f),
            Expr::FnDefinition { name, closure } => " - "@ + name@ + "\n"@ + render_closure(a, closure, d, true, f),
            Expr::Closure { closure, requires_type_annotation } => " - requires_type_annotation: "@
                + bool_text(requires_type_annotation) + "\n"@ + render_closure(a, closure, d, true, f),
            Expr::Call { callee, arguments } => "\n"@ + render_expr(a, callee, d, "func"@, false, f)
                + render_expr_list(a, arguments@, 0, d, "arg"@, f),
            Expr::TypeInstantiation { typ, data } => "\n"@ + render_expr(a, typ, d, "typ"@, false, f)
                + render_expr(a, data, d, "typ"@, true, f),
            Expr::EnumDefinition { variants } => "\n"@ + render_variants(a, variants@, 0, ind, prefix, f),
            Expr::EnumVariant { data } => " - ."@ + data.variant_name@ + "\n"@ + match data.attached_tuple {
                Some(t) => render_expr(a, t, d, "data"@, true, f),
                None => Seq::empty(),
            },
            Expr::ImplBlock { typ, const_exprs } => "\n"@ + render_expr(a, typ, d, "typ"@, false, f)
                + render_expr_list(a, const_exprs@, 0, d, ""@, f),
            Expr::ImplSelf => "\n"@,
            Expr::Return { expr } => "\n"@ + render_expr(a, expr, d, "val"@, true, f),
            Expr::Break { label, expr } => " - #"@ + label_text(label) + "\n"@ + render_expr(a, expr, d, "val"@, true, f),
            Expr::Continue { label } => " - #"@ + label_text(label) + "\n"@,
            Expr::Void | Expr::ParserError => "\n"@,
        }
    }
}

/// The trees of the expressions from index `k` on, all with the same prefix; the last is drawn last.
pub open spec fn render_expr_list(a: AstArena, ids: Seq<ExprId>, k: nat, ind: nat, prefix: Seq<char>, fuel: nat) -> Seq<char>
    decreases fuel, ids.len() - k + 1,
{
    if k >= ids.len() {
        Seq::empty()
    } else {
        render_expr(a, ids[k as int], ind, prefix, k == ids.len() - 1, fuel)
            + render_expr_list(a, ids, k + 1, ind, prefix, fuel)
    }
}

/// The trees of a tuple's elements from index `k` on, each prefixed with `.label`.
pub open spec fn render_tuple_elems(a: AstArena, elems: Seq<AstTupleElement>, k: nat, ind: nat, fuel: nat) -> Seq<char>
    decreases fuel, elems.len() - k + 1,
{
    if k >= elems.len() {
        Seq::empty()
    } else {
        render_expr(a, elems[k as int].expr, ind, "."@ + elems[k as int].label@, k == elems.len() - 1, fuel)
            + render_tuple_elems(a, elems, k + 1, ind, fuel)
    }
}

/// The arms of a match from index `k` on: each arm's pattern, then its body.
pub open spec fn render_arms(a: AstArena, arms: Seq<AstMatchArm>, k: nat, ind: nat, fuel: nat) -> Seq<char>
    decreases fuel, arms.len() - k + 1,
{
    if k >= arms.len() {
        Seq::empty()
    } else {
        render_pattern(a, arms[k as int].pattern, ind, "arm pattern"@, false, fuel)
            + render_expr(a, arms[k as int].body, ind, "arm body"@, k == arms.len() - 1, fuel)
            + render_arms(a, arms, k + 1, ind, fuel)
    }
}

/// The variants of an enum definition from index `k` on: a line each, then its data type.
pub open spec fn render_variants(a: AstArena, vs: Seq<AstEnumExpression>, k: nat, ind: nat, prefix: Seq<char>, fuel: nat) -> Seq<char>
    decreases fuel, vs.len() - k + 1,
{
    if k >= vs.len() {
        Seq::empty()
    } else {
        indent(ind) + "  "@ + (if k == vs.len() - 1 { "└─"@ } else { "├─"@ }) + " "@ + prefix + "::"@
            + vs[k as int].variant_name@ + "\n"@
            + match vs[k as int].attached_tuple {
                Some(t) => render_expr(a, t, ind + 2, "data"@, true, fuel),
                None => Seq::empty(),
            }
            + render_variants(a, vs, k + 1, ind, prefix, fuel)
    }
}

/// A function's parameters (from index `k` on), return type and body.
pub open spec fn render_closure(a: AstArena, c: AstClosure, ind: nat, is_last: bool, fuel: nat) -> Seq<char>
    decreases fuel, c.params@.len() + 2,
{
    render_params(a, c.params@, 0, ind, fuel)
        + match c.return_type {
            Some(r) => render_expr(a, r, ind, "return type"@, false, fuel),
            None => Seq::empty(),
        }
        + render_expr(a, c.body, ind, "body"@, is_last, fuel)
}

/// A function's parameters from index `k` on.
pub open spec fn render_params(a: AstArena, ps: Seq<PatternId>, k: nat, ind: nat, fuel: nat) -> Seq<char>
    decreases fuel, ps.len() - k + 1,
{
    if k >= ps.len() {
        Seq::empty()
    } else {
        render_pattern(a, ps[k as int], ind, "param"@, false, fuel) + render_params(a, ps, k + 1, ind, fuel)
    }
}

/// The tree of pattern `id`, down to `fuel` levels.
pub open spec fn render_pattern(a: AstArena, id: PatternId, ind: nat, prefix: Seq<char>, is_last: bool, fuel: nat) -> Seq<char>
    decreases fuel, 1nat,
{
    if fuel == 0 || id.0 >= a.patterns@.len() {
        Seq::empty()
    } else {
        let p = a.patterns@[id.0 as int];
        line_head(ind, is_last, prefix, pattern_name(p)) + render_pattern_body(a, p, ind, fuel)
    }
}

/// What follows the kind on a pattern's line: its details, then its children one level deeper.
pub open spec fn render_pattern_body(a: AstArena, p: Pattern, ind: nat, fuel: nat) -> Seq<char>
    decreases fuel, 0nat,
{
    if fuel == 0 {
        Seq::empty()
    } else {
        let f = (fuel - 1) as nat;
        let d = ind + 1;
        match p {
            Pattern::Wildcard => " - _\n"@,
            Pattern::Not(q) => "\n"@ + render_pattern(a, q, d, "not"@, true, f),
            Pattern::Binding { name, mutable } => " - "@ + mut_text(mutable) + "\""@ + name@ + "\""@ + "\n"@,
            Pattern::Or(ps) => "\n"@ + render_pattern_list(a, ps@, 0, d, f),
            Pattern::Tuple(elems) => "\n"@ + render_tuple_patterns(a, elems@, 0, d, f),
            Pattern::String { before, hole_parts } => " - \""@ + before@ + "\""@ + "\n"@ + render_holes(a, hole_parts@, 0, d, f),
            Pattern::TypeDestructor { typ, data } => render_expr(a, typ, d, "typ"@, false, f) + render_pattern(a, data, d, "data"@, true, f),
            Pattern::EnumVariant { name, attached_tuple } => " - "@ + name@ + "\n"@ + match attached_tuple {
                Some(t) => render_pattern(a, t, d, "data"@, true, f),
                None => Seq::empty(),
            },
            Pattern::Conditional { pattern, cond } => "\n"@ + render_pattern(a, pattern, d, "pattern"@, false, f)
                + render_expr(a, cond, d, "cond"@, true, f),
            Pattern::Typed { pattern, typ } => "\n"@ + render_pattern(a, pattern, d, "pattern"@, false, f)
                + render_expr(a, typ, d, "type"@, true, f),
            Pattern::CompareExpr(e) => "\n"@ + render_expr(a, e, d, "expr"@, true, f),
            Pattern::PlacePointer(e) => "\n"@ + render_expr(a, e, d, "placepointer"@, true, f),
        }
    }
}

/// The alternatives of an or-pattern from index `k` on.
pub open spec fn render_pattern_list(a: AstArena, ps: Seq<PatternId>, k: nat, ind: nat, fuel: nat) -> Seq<char>
    decreases fuel, ps.len() - k + 1,
{
    if k >= ps.len() {
        Seq::empty()
    } else {
        render_pattern(a, ps[k as int], ind, ""@, k == ps.len() - 1, fuel) + render_pattern_list(a, ps, k + 1, ind, fuel)
    }
}

/// The elements of a tuple pattern from index `k` on, each prefixed with `.label`.
pub open spec fn render_tuple_patterns(a: AstArena, elems: Seq<AstTuplePattern>, k: nat, ind: nat, fuel: nat) -> Seq<char>
    decreases fuel, elems.len() - k + 1,
{
    if k >= elems.len() {
        Seq::empty()
    } else {
        render_pattern(a, elems[k as int].pattern, ind, "."@ + elems[k as int].label@, k == elems.len() - 1, fuel)
            + render_tuple_patterns(a, elems, k + 1, ind, fuel)
    }
}

/// The holes of a string pattern from index `k` on: each hole's pattern, then the text after it quoted.
pub open spec fn render_holes(a: AstArena, holes: Seq<(PatternId, String)>, k: nat, ind: nat, fuel: nat) -> Seq<char>
    decreases fuel, holes.len() - k + 1,
{
    if k >= holes.len() {
        Seq::empty()
    } else {
        render_pattern(a, holes[k as int].0, ind, "hole"@, k == holes.len() - 1, fuel)
            + "\""@ + holes[k as int].1@ + "\""@
            + render_holes(a, holes, k + 1, ind, fuel)
    }
}


/// Appends the indentation of level `ind`.
fn push_indent(s: &mut String, ind: usize)
    ensures
        final(s)@ == old(s)@ + indent(ind as nat),
{
    let mut i: usize = 0;
    proof { assert(old(s)@ + indent(0) =~= old(s)@); }
    while i < ind
        invariant
            0 <= i <= ind,
            s@ == old(s)@ + indent(i as nat),
        decreases ind - i,
    {
        push_str(s, "  ");
        proof { assert(s@ =~= old(s)@ + indent((i + 1) as nat)); }
        i = i + 1;
    }
}

/// Appends the start of a node's line.
fn push_line_head(s: &mut String, ind: usize, is_last: bool, prefix: &str, name: &str)
    ensures
        final(s)@ == old(s)@ + line_head(ind as nat, is_last, prefix@, name@),
{
    push_indent(s, ind);
    let ghost s1 = s@;
    if ind == 0 {
    } else if is_last {
        push_str(s, "└─");
    } else {
        push_str(s, "├─");
    }
    proof { assert(s@ =~= s1 + branch(ind as nat, is_last)); }
    push_str(s, " ");
    let ghost s2 = s@;
    if !prefix.is_empty() {
        push_str(s, prefix);
        push_str(s, ": ");
    }
    proof { assert(s@ =~= s2 + prefix_part(prefix@)); }
    push_str(s, name);
    proof {
        assert(s@ =~= old(s)@ + line_head(ind as nat, is_last, prefix@, name@));
    }
}

/// The name of an expression's kind.
fn expr_name_text(e: &Expr) -> (r: &'static str)
    ensures
        r@ == expr_name(*e),
{
    match e {
        Expr::Literal { .. } => "Literal",
        Expr::Prefix { .. } => "Prefix",
        Expr::Infix { .. } => "Infix",
        Expr::Block { .. } => "Block",
        Expr::IdentifierRef { .. } => "IdentifierRef",
        Expr::Assign { .. } => "Assign",
        Expr::EmptyLet { .. } => "EmptyLet",
        Expr::Const { .. } => "Const",
        Expr::CustomType { .. } => "CustomType",
        Expr::Move { .. } => "Move",
        Expr::Borrow { .. } => "Borrow",
        Expr::MemberAccess { .. } => "MemberAccess",
        Expr::TypeMemberAccess { .. } => "TypeMemberAccess",
        Expr::TemplateString { .. } => "TemplateString",
        Expr::Tuple { .. } => "Tuple",
        Expr::TupleArr { .. } => "TupleArr",
        Expr::Index { .. } => "Index",
        Expr::If { .. } => "If",
        Expr::Is { .. } => "Is",
        Expr::Match { .. } => "Match",
        Expr::While { .. } => "While",
        Expr::For { .. } => "For",
        Expr::Loop { .. } => "Loop",
        Expr::FnDefinition { .. } => "FnDefinition",
        Expr::Closure { .. } => "Closure",
        Expr::Call { .. } => "Call",
        Expr::TypeInstantiation { .. } => "TypeInstantiation",
        Expr::EnumDefinition { .. } => "EnumDefinition",
        Expr::EnumVariant { .. } => "EnumVariant",
        Expr::ImplBlock { .. } => "ImplBlock",
        Expr::ImplSelf => "ImplSelf",
        Expr::Return { .. } => "Return",
        Expr::Break { .. } => "Break",
        Expr::Continue { .. } => "Continue",
        Expr::Void => "Void",
        Expr::ParserError => "ParserError",
    }
}

/// The name of a pattern's kind.
fn pattern_name_text(p: &Pattern) -> (r: &'static str)
    ensures
        r@ == pattern_name(*p),
{
    match p {
        Pattern::Wildcard => "Wildcard",
        Pattern::Not(_) => "Not",
        Pattern::Or(_) => "Or",
        Pattern::Tuple(_) => "Tuple",
        Pattern::String { .. } => "String",
        Pattern::Binding { .. } => "Binding",
        Pattern::TypeDestructor { .. } => "TypeDestructor",
        Pattern::EnumVariant { .. } => "EnumVariant",
        Pattern::Conditional { .. } => "Conditional",
        Pattern::Typed { .. } => "Typed",
        Pattern::CompareExpr(_) => "CompareExpr",
        Pattern::PlacePointer(_) => "PlacePointer",
    }
}

fn push_bool(s: &mut String, b: bool)
    ensures
        final(s)@ == old(s)@ + bool_text(b),
{
    if b { push_str(s, "true"); } else { push_str(s, "false"); }
}

fn push_label(s: &mut String, label: &Option<String>)
    ensures
        final(s)@ == old(s)@ + label_text(*label),
{
    match label {
        Some(l) => push_str(s, l.as_str()),
        None => push_str(s, "none"),
    }
}

fn push_mut(s: &mut String, mutable: bool)
    ensures
        final(s)@ == old(s)@ + mut_text(mutable),
{
    if mutable {
        push_str(s, "mut ");
    } else {
        proof { assert(old(s)@ + mut_text(mutable) =~= old(s)@); }
    }
}

fn push_assign_op(s: &mut String, op: Option<AssignOp>)
    ensures
        final(s)@ == old(s)@ + assign_op_debug(op),
{
    match op {
        None => push_str(s, "None"),
        Some(AssignOp::Plus) => push_str(s, "Some(Plus)"),
        Some(AssignOp::Minus) => push_str(s, "Some(Minus)"),
        Some(AssignOp::Star) => push_str(s, "Some(Star)"),
        Some(AssignOp::Slash) => push_str(s, "Some(Slash)"),
        Some(AssignOp::Percent) => push_str(s, "Some(Percent)"),
        Some(AssignOp::QuestQuest) => push_str(s, "Some(QuestQuest)"),
    }
}

fn push_literal(s: &mut String, v: &AstValue)
    ensures
        final(s)@ == old(s)@ + literal_text(*v),
{
    match v {
        AstValue::NumInt(n) => {
            push_str(s, "NumInt(");
            push_signed_decimal(s, *n);
            push_str(s, ")");
        },
        AstValue::NumFloat(t) => {
            push_str(s, "NumFloat(");
            push_str(s, t.as_str());
            push_str(s, ")");
        },
        AstValue::Str(text) => {
            push_str(s, "Str(");
            let shown = debug_string(text.as_str());
            push_str(s, shown.as_str());
            push_str(s, ")");
        },
        AstValue::Bool(b) => {
            push_str(s, "Bool(");
            push_bool(s, *b);
            push_str(s, ")");
        },
    }
    proof { assert(s@ =~= old(s)@ + literal_text(*v)); }
}

/// The text `.label`.
fn dot_label(label: &String) -> (r: String)
    ensures
        r@ == "."@ + label@,
{
    let mut p = String::new();
    push_str(&mut p, ".");
    push_str(&mut p, label.as_str());
    proof { assert(p@ =~= "."@ + label@); }
    p
}

/// Which of the printer's groups an expression's kind falls in.
pub open spec fn spec_expr_group(e: Expr) -> int {
    match e {
        Expr::Literal { .. } | Expr::IdentifierRef { .. } | Expr::Block { .. } => 0,
        Expr::Prefix { .. } | Expr::Infix { .. } => 6,
        Expr::Assign { .. } | Expr::EmptyLet { .. } | Expr::Const { .. } | Expr::CustomType { .. } => 4,
        Expr::Move { .. } | Expr::Borrow { .. } | Expr::MemberAccess { .. } | Expr::TypeMemberAccess { .. }
        | Expr::TemplateString { .. } | Expr::Tuple { .. } | Expr::TupleArr { .. } | Expr::Index { .. } | Expr::If { .. } => 1,
        Expr::Is { .. } | Expr::Match { .. } | Expr::While { .. } | Expr::For { .. } => 2,
        Expr::Loop { .. } | Expr::FnDefinition { .. } | Expr::Closure { .. } | Expr::Call { .. } | Expr::TypeInstantiation { .. } => 5,
        _ => 3,
    }
}

fn expr_group(e: &Expr) -> (r: u8)
    ensures
        r as int == spec_expr_group(*e),
{
    match e {
        Expr::Literal { .. } | Expr::IdentifierRef { .. } | Expr::Block { .. } => 0,
        Expr::Prefix { .. } | Expr::Infix { .. } => 6,
        Expr::Assign { .. } | Expr::EmptyLet { .. } | Expr::Const { .. } | Expr::CustomType { .. } => 4,
        Expr::Move { .. } | Expr::Borrow { .. } | Expr::MemberAccess { .. } | Expr::TypeMemberAccess { .. }
        | Expr::TemplateString { .. } | Expr::Tuple { .. } | Expr::TupleArr { .. } | Expr::Index { .. } | Expr::If { .. } => 1,
        Expr::Is { .. } | Expr::Match { .. } | Expr::While { .. } | Expr::For { .. } => 2,
        Expr::Loop { .. } | Expr::FnDefinition { .. } | Expr::Closure { .. } | Expr::Call { .. } | Expr::TypeInstantiation { .. } => 5,
        _ => 3,
    }
}

/// How deep the tree of a whole AST is drawn: deep enough for any tree that the parser builds.
pub open spec fn display_fuel(a: AstArena) -> nat {
    let n = a.exprs@.len() + a.patterns@.len();
    if n <= (usize::MAX - 4) / 2 { n as nat } else { ((usize::MAX - 4) / 2) as nat }
}

impl AstArena {
    /// The tree of expression `expr` and everything below it, one node per line.
    pub fn display_expr(&self, expr: ExprId) -> (r: String)
        ensures
            r@ == render_expr(*self, expr, 0, ""@, true, display_fuel(*self)),
    {
        let n_e = self.exprs.len();
        let n_p = self.patterns.len();
        let limit: usize = (usize::MAX - 4) / 2;
        let fuel = if n_e <= limit && n_p <= limit - n_e { n_e + n_p } else { limit };
        let mut s = String::new();
        self.format_expr_recursive(expr, &mut s, 0, "", true, fuel);
        proof {
            assert(s@ =~= render_expr(*self, expr, 0, ""@, true, display_fuel(*self)));
        }
        s
    }
}

impl AstArena {
    /// Appends the tree of expression `id` (see `render_expr`).
    /// Appends the tree of expression `id` (see `render_expr`).
    fn format_expr_recursive(&self, id: ExprId, s: &mut String, ind: usize, prefix: &str, is_last: bool, fuel: usize)
        requires
            ind + 2 * fuel + 4 <= usize::MAX,
        ensures
            final(s)@ == old(s)@ + render_expr(*self, id, ind as nat, prefix@, is_last, fuel as nat),
        decreases fuel, 1nat,
    {
        if fuel == 0 || id.0 >= self.exprs.len() {
            proof { assert(old(s)@ + render_expr(*self, id, ind as nat, prefix@, is_last, fuel as nat) =~= old(s)@); }
            return;
        }
        let e = self.get_expr(id);
        push_line_head(s, ind, is_last, prefix, expr_name_text(e));
        let ghost s1 = s@;
        match expr_group(e) {
            0 => self.format_expr_body_a(e, s, ind, prefix, fuel),
            1 => self.format_expr_body_b(e, s, ind, prefix, fuel),
            2 => self.format_expr_body_c(e, s, ind, prefix, fuel),
            4 => self.format_expr_body_e(e, s, ind, prefix, fuel),
            5 => self.format_expr_body_f(e, s, ind, prefix, fuel),
            6 => self.format_expr_body_g(e, s, ind, prefix, fuel),
            _ => self.format_expr_body_d(e, s, ind, prefix, fuel),
        }
        proof { assert(s@ =~= old(s)@ + render_expr(*self, id, ind as nat, prefix@, is_last, fuel as nat)); }
    }

    /// Appends the body of an expression of one group 0 (see `render_expr_body`).
    #[verifier::rlimit(100)]
    #[verifier::spinoff_prover]
    fn format_expr_body_a(&self, e: &Expr, s: &mut String, ind: usize, prefix: &str, fuel: usize)
        requires
            ind + 2 * fuel + 4 <= usize::MAX,
            fuel > 0,
            spec_expr_group(*e) == 0,
        ensures
            final(s)@ == old(s)@ + render_expr_body(*self, *e, ind as nat, prefix@, fuel as nat),
        decreases fuel, 0nat,
    {
        let f = fuel - 1;
        let d = ind + 1;
        match e {
            Expr::Literal { val } => {
                push_str(s, " - ");
                push_literal(s, val);
                push_str(s, "\n");
                proof { assert(s@ =~= old(s)@ + render_expr_body(*self, *e, ind as nat, prefix@, fuel as nat)); }
            },
            Expr::IdentifierRef { name, mutable } => {
                push_str(s, " - ");
                push_mut(s, *mutable);
                push_str(s, "\"");
                push_str(s, name.as_str());
                push_str(s, "\"");
                push_str(s, "\n");
                proof { assert(s@ =~= old(s)@ + render_expr_body(*self, *e, ind as nat, prefix@, fuel as nat)); }
            },
            Expr::Block { exprs, label } => {
                push_str(s, " - #");
                push_label(s, label);
                push_str(s, "\n");
                self.format_expr_list(exprs, 0, s, d, "", f);
                proof { assert(s@ =~= old(s)@ + render_expr_body(*self, *e, ind as nat, prefix@, fuel as nat)); }
            },
            _ => {},
        }
    }

    #[verifier::rlimit(100)]
    #[verifier::spinoff_prover]
    fn format_expr_body_g(&self, e: &Expr, s: &mut String, ind: usize, prefix: &str, fuel: usize)
        requires
            ind + 2 * fuel + 4 <= usize::MAX,
            fuel > 0,
            spec_expr_group(*e) == 6,
        ensures
            final(s)@ == old(s)@ + render_expr_body(*self, *e, ind as nat, prefix@, fuel as nat),
        decreases fuel, 0nat,
    {
        let f = fuel - 1;
        let d = ind + 1;
        match e {
            Expr::Prefix { op, right } => {
                push_str(s, " - ");
                push_str(s, token_text(*op).as_str());
                push_str(s, "\n");
                self.format_expr_recursive(*right, s, d, "right", true, f);
                proof { assert(s@ =~= old(s)@ + render_expr_body(*self, *e, ind as nat, prefix@, fuel as nat)); }
            },
            Expr::Infix { op, left, right, .. } => {
                push_str(s, " - ");
                push_str(s, token_text(*op).as_str());
                push_str(s, "\n");
                self.format_expr_recursive(*left, s, d, "left", false, f);
                self.format_expr_recursive(*right, s, d, "right", true, f);
                proof { assert(s@ =~= old(s)@ + render_expr_body(*self, *e, ind as nat, prefix@, fuel as nat)); }
            },
            _ => {},
        }
    }

    #[verifier::rlimit(100)]
    #[verifier::spinoff_prover]
    fn format_expr_body_e(&self, e: &Expr, s: &mut String, ind: usize, prefix: &str, fuel: usize)
        requires
            ind + 2 * fuel + 4 <= usize::MAX,
            fuel > 0,
            spec_expr_group(*e) == 4,
        ensures
            final(s)@ == old(s)@ + render_expr_body(*self, *e, ind as nat, prefix@, fuel as nat),
        decreases fuel, 0nat,
    {
        let f = fuel - 1;
        let d = ind + 1;
        match e {
            Expr::Assign { pattern, value, extra_op, .. } => {
                push_str(s, " - extra_op: ");
                push_assign_op(s, *extra_op);
                push_str(s, "\n");
                self.format_pattern_recursive(*pattern, s, d, "pattern", false, f);
                self.format_expr_recursive(*value, s, d, "value", true, f);
                proof { assert(s@ =~= old(s)@ + render_expr_body(*self, *e, ind as nat, prefix@, fuel as nat)); }
            },
            Expr::EmptyLet { pattern } => {
                push_str(s, "\n");
                self.format_pattern_recursive(*pattern, s, d, "pattern", true, f);
                proof { assert(s@ =~= old(s)@ + render_expr_body(*self, *e, ind as nat, prefix@, fuel as nat)); }
            },
            Expr::Const { pattern, value } => {
                push_str(s, "\n");
                self.format_pattern_recursive(*pattern, s, d, "pattern", false, f);
                self.format_expr_recursive(*value, s, d, "value", true, f);
                proof { assert(s@ =~= old(s)@ + render_expr_body(*self, *e, ind as nat, prefix@, fuel as nat)); }
            },
            Expr::CustomType { name, value } => {
                push_str(s, " - name: ");
                push_str(s, name.as_str());
                push_str(s, "\n");
                self.format_expr_recursive(*value, s, d, "value", true, f);
                proof { assert(s@ =~= old(s)@ + render_expr_body(*self, *e, ind as nat, prefix@, fuel as nat)); }
            },
            _ => {},
        }
    }

    /// Appends the body of an expression of one group 1 (see `render_expr_body`).
    #[verifier::rlimit(100)]
    #[verifier::spinoff_prover]
    fn format_expr_body_b(&self, e: &Expr, s: &mut String, ind: usize, prefix: &str, fuel: usize)
        requires
            ind + 2 * fuel + 4 <= usize::MAX,
            fuel > 0,
            spec_expr_group(*e) == 1,
        ensures
            final(s)@ == old(s)@ + render_expr_body(*self, *e, ind as nat, prefix@, fuel as nat),
        decreases fuel, 0nat,
    {
        let f = fuel - 1;
        let d = ind + 1;
        match e {
            Expr::Move { expr } => {
                push_str(s, "\n");
                self.format_expr_recursive(*expr, s, d, "expr", true, f);
                proof { assert(s@ =~= old(s)@ + render_expr_body(*self, *e, ind as nat, prefix@, fuel as nat)); }
            },
            Expr::Borrow { expr, mutable } => {
                push_str(s, "mutable: ");
                push_bool(s, *mutable);
                push_str(s, "\n");
                self.format_expr_recursive(*expr, s, d, "expr", true, f);
                proof { assert(s@ =~= old(s)@ + render_expr_body(*self, *e, ind as nat, prefix@, fuel as nat)); }
            },
            Expr::MemberAccess { left, member } => {
                push_str(s, " - .");
                push_str(s, member.as_str());
                push_str(s, "\n");
                self.format_expr_recursive(*left, s, d, "object", true, f);
                proof { assert(s@ =~= old(s)@ + render_expr_body(*self, *e, ind as nat, prefix@, fuel as nat)); }
            },
            Expr::TypeMemberAccess { left, member } => {
                push_str(s, " - .");
                push_str(s, member.as_str());
                push_str(s, "\n");
                self.format_expr_recursive(*left, s, d, "object", true, f);
                proof { assert(s@ =~= old(s)@ + render_expr_body(*self, *e, ind as nat, prefix@, fuel as nat)); }
            },
            Expr::TemplateString { elems } => {
                push_str(s, "\n");
                self.format_expr_list(elems, 0, s, d, "", f);
                proof { assert(s@ =~= old(s)@ + render_expr_body(*self, *e, ind as nat, prefix@, fuel as nat)); }
            },
            Expr::Tuple { elems } => {
                push_str(s, "\n");
                self.format_tuple_elems(elems, 0, s, d, f);
                proof { assert(s@ =~= old(s)@ + render_expr_body(*self, *e, ind as nat, prefix@, fuel as nat)); }
            },
            Expr::TupleArr { elem, length } => {
                push_str(s, "\n");
                self.format_expr_recursive(*elem, s, d, "elem", false, f);
                self.format_expr_recursive(*length, s, d, "length", true, f);
                proof { assert(s@ =~= old(s)@ + render_expr_body(*self, *e, ind as nat, prefix@, fuel as nat)); }
            },
            Expr::Index { left, index } => {
                push_str(s, "\n");
                self.format_expr_recursive(*left, s, d, "arr", false, f);
                self.format_expr_recursive(*index, s, d, "idx", true, f);
                proof { assert(s@ =~= old(s)@ + render_expr_body(*self, *e, ind as nat, prefix@, fuel as nat)); }
            },
            Expr::If { condition, then, alt, .. } => {
                push_str(s, "\n");
                self.format_expr_recursive(*condition, s, d, "cond", false, f);
                self.format_expr_recursive(*then, s, d, "then", false, f);
                self.format_expr_recursive(*alt, s, d, "else", true, f);
                proof { assert(s@ =~= old(s)@ + render_expr_body(*self, *e, ind as nat, prefix@, fuel as nat)); }
            },
            _ => {},
        }
    }

    /// Appends the body of an expression of one group 2 (see `render_expr_body`).
    #[verifier::rlimit(100)]
    #[verifier::spinoff_prover]
    fn format_expr_body_c(&self, e: &Expr, s: &mut String, ind: usize, prefix: &str, fuel: usize)
        requires
            ind + 2 * fuel + 4 <= usize::MAX,
            fuel > 0,
            spec_expr_group(*e) == 2,
        ensures
            final(s)@ == old(s)@ + render_expr_body(*self, *e, ind as nat, prefix@, fuel as nat),
        decreases fuel, 0nat,
    {
        let f = fuel - 1;
        let d = ind + 1;
        match e {
            Expr::Is { value, pattern } => {
                push_str(s, "\n");
                self.format_expr_recursive(*value, s, d, "value:", false, f);
                self.format_pattern_recursive(*pattern, s, d, "pattern:", true, f);
                proof { assert(s@ =~= old(s)@ + render_expr_body(*self, *e, ind as nat, prefix@, fuel as nat)); }
            },
            Expr::Match { match_value, arms } => {
                push_str(s, "\n");
                self.format_expr_recursive(*match_value, s, d, "match value", false, f);
                self.format_arms(arms, 0, s, d, f);
                proof { assert(s@ =~= old(s)@ + render_expr_body(*self, *e, ind as nat, prefix@, fuel as nat)); }
            },
            Expr::While { condition, body, label } => {
                push_str(s, " - #");
                push_str(s, label.as_str());
                push_str(s, "\n");
                self.format_expr_recursive(*condition, s, d, "cond", false, f);
                self.format_expr_recursive(*body, s, d, "body", true, f);
                proof { assert(s@ =~= old(s)@ + render_expr_body(*self, *e, ind as nat, prefix@, fuel as nat)); }
            },
            Expr::For { pattern, iter_expr, body, label } => {
                push_str(s, " - #");
                push_str(s, label.as_str());
                push_str(s, "\n");
                self.format_pattern_recursive(*pattern, s, d, "pattern", false, f);
                self.format_expr_recursive(*iter_expr, s, d, "iter_expr", false, f);
                self.format_expr_recursive(*body, s, d, "body", true, f);
                proof { assert(s@ =~= old(s)@ + render_expr_body(*self, *e, ind as nat, prefix@, fuel as nat)); }
            },
            _ => {},
        }
    }

    #[verifier::rlimit(100)]
    #[verifier::spinoff_prover]
    fn format_expr_body_f(&self, e: &Expr, s: &mut String, ind: usize, prefix: &str, fuel: usize)
        requires
            ind + 2 * fuel + 4 <= usize::MAX,
            fuel > 0,
            spec_expr_group(*e) == 5,
        ensures
            final(s)@ == old(s)@ + render_expr_body(*self, *e, ind as nat, prefix@, fuel as nat),
        decreases fuel, 0nat,
    {
        let f = fuel - 1;
        let d = ind + 1;
        match e {
            Expr::Loop { body, label } => {
                push_str(s, " - #");
                push_str(s, label.as_str());
                push_str(s, "\n");
                self.format_expr_recursive(*body, s, d, "body", true, f);
                proof { assert(s@ =~= old(s)@ + render_expr_body(*self, *e, ind as nat, prefix@, fuel as nat)); }
            },
            Expr::FnDefinition { name, closure } => {
                push_str(s, " - ");
                push_str(s, name.as_str());
                push_str(s, "\n");
                self.format_closure_recursive(closure, s, d, true, f);
                proof { assert(s@ =~= old(s)@ + render_expr_body(*self, *e, ind as nat, prefix@, fuel as nat)); }
            },
            Expr::Closure { closure, requires_type_annotation } => {
                push_str(s, " - requires_type_annotation: ");
                push_bool(s, *requires_type_annotation);
                push_str(s, "\n");
                self.format_closure_recursive(closure, s, d, true, f);
                proof { assert(s@ =~= old(s)@ + render_expr_body(*self, *e, ind as nat, prefix@, fuel as nat)); }
            },
            Expr::Call { callee, arguments } => {
                push_str(s, "\n");
                self.format_expr_recursive(*callee, s, d, "func", false, f);
                self.format_expr_list(arguments, 0, s, d, "arg", f);
                proof { assert(s@ =~= old(s)@ + render_expr_body(*self, *e, ind as nat, prefix@, fuel as nat)); }
            },
            Expr::TypeInstantiation { typ, data } => {
                push_str(s, "\n");
                self.format_expr_recursive(*typ, s, d, "typ", false, f);
                self.format_expr_recursive(*data, s, d, "typ", true, f);
                proof { assert(s@ =~= old(s)@ + render_expr_body(*self, *e, ind as nat, prefix@, fuel as nat)); }
            },
            _ => {},
        }
    }

    /// Appends the body of an expression of one group 3 (see `render_expr_body`).
    fn format_expr_body_d(&self, e: &Expr, s: &mut String, ind: usize, prefix: &str, fuel: usize)
        requires
            ind + 2 * fuel + 4 <= usize::MAX,
            fuel > 0,
            spec_expr_group(*e) == 3,
        ensures
            final(s)@ == old(s)@ + render_expr_body(*self, *e, ind as nat, prefix@, fuel as nat),
        decreases fuel, 0nat,
    {
        let f = fuel - 1;
        let d = ind + 1;
        match e {
            Expr::EnumDefinition { variants } => {
                push_str(s, "\n");
                self.format_variants(variants, 0, s, ind, prefix, f);
                proof { assert(s@ =~= old(s)@ + render_expr_body(*self, *e, ind as nat, prefix@, fuel as nat)); }
            },
            Expr::EnumVariant { data } => {
                push_str(s, " - .");
                push_str(s, data.variant_name.as_str());
                push_str(s, "\n");
                match data.attached_tuple {
                    Some(t) => self.format_expr_recursive(t, s, d, "data", true, f),
                    None => {},
                }
                proof { assert(s@ =~= old(s)@ + render_expr_body(*self, *e, ind as nat, prefix@, fuel as nat)); }
            },
            Expr::ImplBlock { typ, const_exprs } => {
                push_str(s, "\n");
                self.format_expr_recursive(*typ, s, d, "typ", false, f);
                self.format_expr_list(const_exprs, 0, s, d, "", f);
                proof { assert(s@ =~= old(s)@ + render_expr_body(*self, *e, ind as nat, prefix@, fuel as nat)); }
            },
            Expr::ImplSelf => { push_str(s, "\n"); proof { assert(s@ =~= old(s)@ + render_expr_body(*self, *e, ind as nat, prefix@, fuel as nat)); } },
            Expr::Return { expr } => {
                push_str(s, "\n");
                self.format_expr_recursive(*expr, s, d, "val", true, f);
                proof { assert(s@ =~= old(s)@ + render_expr_body(*self, *e, ind as nat, prefix@, fuel as nat)); }
            },
            Expr::Break { label, expr } => {
                push_str(s, " - #");
                push_label(s, label);
                push_str(s, "\n");
                self.format_expr_recursive(*expr, s, d, "val", true, f);
                proof { assert(s@ =~= old(s)@ + render_expr_body(*self, *e, ind as nat, prefix@, fuel as nat)); }
            },
            Expr::Continue { label } => {
                push_str(s, " - #");
                push_label(s, label);
                push_str(s, "\n");
                proof { assert(s@ =~= old(s)@ + render_expr_body(*self, *e, ind as nat, prefix@, fuel as nat)); }
            },
            Expr::Void => { push_str(s, "\n"); proof { assert(s@ =~= old(s)@ + render_expr_body(*self, *e, ind as nat, prefix@, fuel as nat)); } },
            Expr::ParserError => { push_str(s, "\n"); proof { assert(s@ =~= old(s)@ + render_expr_body(*self, *e, ind as nat, prefix@, fuel as nat)); } },
            _ => {},
        }
    }

    /// Appends the trees of the expressions from index `k` on (see `render_expr_list`).
    fn format_expr_list(&self, ids: &Vec<ExprId>, k: usize, s: &mut String, ind: usize, prefix: &str, fuel: usize)
        requires
            ind + 2 * fuel + 4 <= usize::MAX,
        ensures
            final(s)@ == old(s)@ + render_expr_list(*self, ids@, k as nat, ind as nat, prefix@, fuel as nat),
        decreases fuel, ids@.len() - k + 1,
    {
        if k >= ids.len() {
            proof { assert(old(s)@ + render_expr_list(*self, ids@, k as nat, ind as nat, prefix@, fuel as nat) =~= old(s)@); }
            return;
        }
        self.format_expr_recursive(ids[k], s, ind, prefix, k + 1 == ids.len(), fuel);
        self.format_expr_list(ids, k + 1, s, ind, prefix, fuel);
        proof { assert(s@ =~= old(s)@ + render_expr_list(*self, ids@, k as nat, ind as nat, prefix@, fuel as nat)); }
    }

    /// Appends the trees of a tuple's elements from index `k` on.
    fn format_tuple_elems(&self, elems: &Vec<AstTupleElement>, k: usize, s: &mut String, ind: usize, fuel: usize)
        requires
            ind + 2 * fuel + 4 <= usize::MAX,
        ensures
            final(s)@ == old(s)@ + render_tuple_elems(*self, elems@, k as nat, ind as nat, fuel as nat),
        decreases fuel, elems@.len() - k + 1,
    {
        if k >= elems.len() {
            proof { assert(old(s)@ + render_tuple_elems(*self, elems@, k as nat, ind as nat, fuel as nat) =~= old(s)@); }
            return;
        }
        let p = dot_label(&elems[k].label);
        self.format_expr_recursive(elems[k].expr, s, ind, p.as_str(), k + 1 == elems.len(), fuel);
        self.format_tuple_elems(elems, k + 1, s, ind, fuel);
        proof { assert(s@ =~= old(s)@ + render_tuple_elems(*self, elems@, k as nat, ind as nat, fuel as nat)); }
    }

    /// Appends the arms of a match from index `k` on.
    fn format_arms(&self, arms: &Vec<AstMatchArm>, k: usize, s: &mut String, ind: usize, fuel: usize)
        requires
            ind + 2 * fuel + 4 <= usize::MAX,
        ensures
            final(s)@ == old(s)@ + render_arms(*self, arms@, k as nat, ind as nat, fuel as nat),
        decreases fuel, arms@.len() - k + 1,
    {
        if k >= arms.len() {
            proof { assert(old(s)@ + render_arms(*self, arms@, k as nat, ind as nat, fuel as nat) =~= old(s)@); }
            return;
        }
        self.format_pattern_recursive(arms[k].pattern, s, ind, "arm pattern", false, fuel);
        self.format_expr_recursive(arms[k].body, s, ind, "arm body", k + 1 == arms.len(), fuel);
        self.format_arms(arms, k + 1, s, ind, fuel);
        proof { assert(s@ =~= old(s)@ + render_arms(*self, arms@, k as nat, ind as nat, fuel as nat)); }
    }

    /// Appends the variants of an enum definition from index `k` on.
    fn format_variants(&self, vs: &Vec<AstEnumExpression>, k: usize, s: &mut String, ind: usize, prefix: &str, fuel: usize)
        requires
            ind + 2 * fuel + 6 <= usize::MAX,
        ensures
            final(s)@ == old(s)@ + render_variants(*self, vs@, k as nat, ind as nat, prefix@, fuel as nat),
        decreases fuel, vs@.len() - k + 1,
    {
        if k >= vs.len() {
            proof { assert(old(s)@ + render_variants(*self, vs@, k as nat, ind as nat, prefix@, fuel as nat) =~= old(s)@); }
            return;
        }
        push_indent(s, ind);
        push_str(s, "  ");
        if k + 1 == vs.len() { push_str(s, "└─"); } else { push_str(s, "├─"); }
        push_str(s, " ");
        push_str(s, prefix);
        push_str(s, "::");
        push_str(s, vs[k].variant_name.as_str());
        push_str(s, "\n");
        let ghost line_end = s@;
        proof {
            assert(line_end =~= old(s)@ + (indent(ind as nat) + "  "@ + (if k == vs@.len() - 1 { "└─"@ } else { "├─"@ })
                + " "@ + prefix@ + "::"@ + vs@[k as int].variant_name@ + "\n"@));
        }
        match vs[k].attached_tuple {
            Some(t) => self.format_expr_recursive(t, s, ind + 2, "data", true, fuel),
            None => {},
        }
        let ghost data_end = s@;
        proof {
            assert(data_end =~= line_end + match vs@[k as int].attached_tuple {
                Some(t) => render_expr(*self, t, (ind + 2) as nat, "data"@, true, fuel as nat),
                None => Seq::empty(),
            });
        }
        self.format_variants(vs, k + 1, s, ind, prefix, fuel);
        proof { assert(s@ =~= old(s)@ + render_variants(*self, vs@, k as nat, ind as nat, prefix@, fuel as nat)); }
    }

    /// Appends a function's parameters, return type and body.
    fn format_closure_recursive(&self, closure: &AstClosure, s: &mut String, ind: usize, is_last: bool, fuel: usize)
        requires
            ind + 2 * fuel + 4 <= usize::MAX,
        ensures
            final(s)@ == old(s)@ + render_closure(*self, *closure, ind as nat, is_last, fuel as nat),
        decreases fuel, closure.params@.len() + 2,
    {
        self.format_params(&closure.params, 0, s, ind, fuel);
        match closure.return_type {
            Some(r) => self.format_expr_recursive(r, s, ind, "return type", false, fuel),
            None => {},
        }
        self.format_expr_recursive(closure.body, s, ind, "body", is_last, fuel);
        proof { assert(s@ =~= old(s)@ + render_closure(*self, *closure, ind as nat, is_last, fuel as nat)); }
    }

    /// Appends a function's parameters from index `k` on.
    fn format_params(&self, ps: &Vec<PatternId>, k: usize, s: &mut String, ind: usize, fuel: usize)
        requires
            ind + 2 * fuel + 4 <= usize::MAX,
        ensures
            final(s)@ == old(s)@ + render_params(*self, ps@, k as nat, ind as nat, fuel as nat),
        decreases fuel, ps@.len() - k + 1,
    {
        if k >= ps.len() {
            proof { assert(old(s)@ + render_params(*self, ps@, k as nat, ind as nat, fuel as nat) =~= old(s)@); }
            return;
        }
        self.format_pattern_recursive(ps[k], s, ind, "param", false, fuel);
        self.format_params(ps, k + 1, s, ind, fuel);
        proof { assert(s@ =~= old(s)@ + render_params(*self, ps@, k as nat, ind as nat, fuel as nat)); }
    }

    /// Appends the tree of pattern `id` (see `render_pattern`).
    /// Appends the tree of pattern `id` (see `render_pattern`).
    fn format_pattern_recursive(&self, id: PatternId, s: &mut String, ind: usize, prefix: &str, is_last: bool, fuel: usize)
        requires
            ind + 2 * fuel + 4 <= usize::MAX,
        ensures
            final(s)@ == old(s)@ + render_pattern(*self, id, ind as nat, prefix@, is_last, fuel as nat),
        decreases fuel, 1nat,
    {
        if fuel == 0 || id.0 >= self.patterns.len() {
            proof { assert(old(s)@ + render_pattern(*self, id, ind as nat, prefix@, is_last, fuel as nat) =~= old(s)@); }
            return;
        }
        let p = self.get_pattern(id);
        push_line_head(s, ind, is_last, prefix, pattern_name_text(p));
        self.format_pattern_body(p, s, ind, fuel);
        proof { assert(s@ =~= old(s)@ + render_pattern(*self, id, ind as nat, prefix@, is_last, fuel as nat)); }
    }

    /// Appends the body of a pattern (see `render_pattern_body`).
    #[verifier::rlimit(100)]
    #[verifier::spinoff_prover]
    fn format_pattern_body(&self, p: &Pattern, s: &mut String, ind: usize, fuel: usize)
        requires
            ind + 2 * fuel + 4 <= usize::MAX,
            fuel > 0,
        ensures
            final(s)@ == old(s)@ + render_pattern_body(*self, *p, ind as nat, fuel as nat),
        decreases fuel, 0nat,
    {
        let f = fuel - 1;
        let d = ind + 1;
        match p {
            Pattern::Wildcard => { push_str(s, " - _\n"); proof { assert(s@ =~= old(s)@ + render_pattern_body(*self, *p, ind as nat, fuel as nat)); } },
            Pattern::Not(q) => {
                push_str(s, "\n");
                self.format_pattern_recursive(*q, s, d, "not", true, f);
                proof { assert(s@ =~= old(s)@ + render_pattern_body(*self, *p, ind as nat, fuel as nat)); }
            },
            Pattern::Binding { name, mutable } => {
                push_str(s, " - ");
                push_mut(s, *mutable);
                push_str(s, "\"");
                push_str(s, name.as_str());
                push_str(s, "\"");
                push_str(s, "\n");
                proof { assert(s@ =~= old(s)@ + render_pattern_body(*self, *p, ind as nat, fuel as nat)); }
            },
            Pattern::Or(ps) => {
                push_str(s, "\n");
                self.format_pattern_list(ps, 0, s, d, f);
                proof { assert(s@ =~= old(s)@ + render_pattern_body(*self, *p, ind as nat, fuel as nat)); }
            },
            Pattern::Tuple(elems) => {
                push_str(s, "\n");
                self.format_tuple_patterns(elems, 0, s, d, f);
                proof { assert(s@ =~= old(s)@ + render_pattern_body(*self, *p, ind as nat, fuel as nat)); }
            },
            Pattern::String { before, hole_parts } => {
                push_str(s, " - \"");
                push_str(s, before.as_str());
                push_str(s, "\"");
                push_str(s, "\n");
                self.format_holes(hole_parts, 0, s, d, f);
                proof { assert(s@ =~= old(s)@ + render_pattern_body(*self, *p, ind as nat, fuel as nat)); }
            },
            Pattern::TypeDestructor { typ, data } => {
                self.format_expr_recursive(*typ, s, d, "typ", false, f);
                self.format_pattern_recursive(*data, s, d, "data", true, f);
                proof { assert(s@ =~= old(s)@ + render_pattern_body(*self, *p, ind as nat, fuel as nat)); }
            },
            Pattern::EnumVariant { name, attached_tuple } => {
                push_str(s, " - ");
                push_str(s, name.as_str());
                push_str(s, "\n");
                match attached_tuple {
                    Some(t) => self.format_pattern_recursive(*t, s, d, "data", true, f),
                    None => {},
                }
                proof { assert(s@ =~= old(s)@ + render_pattern_body(*self, *p, ind as nat, fuel as nat)); }
            },
            Pattern::Conditional { pattern, cond } => {
                push_str(s, "\n");
                self.format_pattern_recursive(*pattern, s, d, "pattern", false, f);
                self.format_expr_recursive(*cond, s, d, "cond", true, f);
                proof { assert(s@ =~= old(s)@ + render_pattern_body(*self, *p, ind as nat, fuel as nat)); }
            },
            Pattern::Typed { pattern, typ } => {
                push_str(s, "\n");
                self.format_pattern_recursive(*pattern, s, d, "pattern", false, f);
                self.format_expr_recursive(*typ, s, d, "type", true, f);
                proof { assert(s@ =~= old(s)@ + render_pattern_body(*self, *p, ind as nat, fuel as nat)); }
            },
            Pattern::CompareExpr(e) => {
                push_str(s, "\n");
                self.format_expr_recursive(*e, s, d, "expr", true, f);
                proof { assert(s@ =~= old(s)@ + render_pattern_body(*self, *p, ind as nat, fuel as nat)); }
            },
            Pattern::PlacePointer(e) => {
                push_str(s, "\n");
                self.format_expr_recursive(*e, s, d, "placepointer", true, f);
                proof { assert(s@ =~= old(s)@ + render_pattern_body(*self, *p, ind as nat, fuel as nat)); }
            },
        }
    }

    /// Appends the alternatives of an or-pattern from index `k` on.
    fn format_pattern_list(&self, ps: &Vec<PatternId>, k: usize, s: &mut String, ind: usize, fuel: usize)
        requires
            ind + 2 * fuel + 4 <= usize::MAX,
        ensures
            final(s)@ == old(s)@ + render_pattern_list(*self, ps@, k as nat, ind as nat, fuel as nat),
        decreases fuel, ps@.len() - k + 1,
    {
        if k >= ps.len() {
            proof { assert(old(s)@ + render_pattern_list(*self, ps@, k as nat, ind as nat, fuel as nat) =~= old(s)@); }
            return;
        }
        self.format_pattern_recursive(ps[k], s, ind, "", k + 1 == ps.len(), fuel);
        self.format_pattern_list(ps, k + 1, s, ind, fuel);
        proof { assert(s@ =~= old(s)@ + render_pattern_list(*self, ps@, k as nat, ind as nat, fuel as nat)); }
    }

    /// Appends the elements of a tuple pattern from index `k` on.
    fn format_tuple_patterns(&self, elems: &Vec<AstTuplePattern>, k: usize, s: &mut String, ind: usize, fuel: usize)
        requires
            ind + 2 * fuel + 4 <= usize::MAX,
        ensures
            final(s)@ == old(s)@ + render_tuple_patterns(*self, elems@, k as nat, ind as nat, fuel as nat),
        decreases fuel, elems@.len() - k + 1,
    {
        if k >= elems.len() {
            proof { assert(old(s)@ + render_tuple_patterns(*self, elems@, k as nat, ind as nat, fuel as nat) =~= old(s)@); }
            return;
        }
        let p = dot_label(&elems[k].label);
        self.format_pattern_recursive(elems[k].pattern, s, ind, p.as_str(), k + 1 == elems.len(), fuel);
        self.format_tuple_patterns(elems, k + 1, s, ind, fuel);
        proof { assert(s@ =~= old(s)@ + render_tuple_patterns(*self, elems@, k as nat, ind as nat, fuel as nat)); }
    }

    /// Appends the holes of a string pattern from index `k` on.
    fn format_holes(&self, holes: &Vec<(PatternId, String)>, k: usize, s: &mut String, ind: usize, fuel: usize)
        requires
            ind + 2 * fuel + 4 <= usize::MAX,
        ensures
            final(s)@ == old(s)@ + render_holes(*self, holes@, k as nat, ind as nat, fuel as nat),
        decreases fuel, holes@.len() - k + 1,
    {
        if k >= holes.len() {
            proof { assert(old(s)@ + render_holes(*self, holes@, k as nat, ind as nat, fuel as nat) =~= old(s)@); }
            return;
        }
        self.format_pattern_recursive(holes[k].0, s, ind, "hole", k + 1 == holes.len(), fuel);
        push_str(s, "\"");
        push_str(s, holes[k].1.as_str());
        push_str(s, "\"");
        self.format_holes(holes, k + 1, s, ind, fuel);
        proof { assert(s@ =~= old(s)@ + render_holes(*self, holes@, k as nat, ind as nat, fuel as nat)); }
    }
}


} // verus!
