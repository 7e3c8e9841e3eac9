use vstd::prelude::*;
use crate::ErrType;
use crate::lexing::tokens::{AssignOp, Span, TokenKind};
use crate::parsing::ast::{AstClosure, AstValue, Expr, ExprId, PatternId};
use crate::typing::{CustomTypeId, EnumId, ResolvedMemberAccess, ResolvedTypeInstantiation, Type, TypeChecker, TypeId, TypeTuple, TypeVarId, UnifyMode};
use crate::typing::type_arena::copy_ids;
use crate::typing::type_vars::{DefineVarMode, PatternOrVarId, DefineVarScope, SnapshotVarsState, TypeVarConstVal, TypeVarScope, variant_index};
use crate::vm_compiling::VmValue;

verus! {

/// How far a value that is a reference is dereferenced where it is used.
#[derive(Clone, Copy, PartialEq, Eq, Debug, Structural)]
pub enum AutoDerefMode {
    Never,
    /// one reference is followed (tuple elements)
    Once,
    /// all references but the last are followed (indexing keeps a reference into the array)
    LeaveOnePointer,
    /// all references are followed (operands, callees)
    Fully,
}

/// What an expression is checked in the context of.
#[derive(Clone, Copy)]
pub struct CheckExprCtx {
    pub expected_type: Option<TypeId>,
    /// `if option is let :Some{ x } { ... }` may bind variables
    pub allow_is_expr_bindings: bool,
    /// `tup.x = 4` borrows `tup` mutably: set by assignments and passed through indexing and members
    pub auto_borrow_mut: bool,
    pub deref_mode: AutoDerefMode,
    /// in a constant, runtime values aren't available: `let x = 5; let y: x = ...` is refused
    pub is_const: bool,
}

impl CheckExprCtx {
    /// Nothing expected, nothing allowed, no dereferencing.
    pub fn new() -> (r: Self)
        ensures
            r.expected_type is None,
            !r.allow_is_expr_bindings,
            !r.auto_borrow_mut,
            r.deref_mode == AutoDerefMode::Never,
            !r.is_const,
    {
        CheckExprCtx { expected_type: None, allow_is_expr_bindings: false, auto_borrow_mut: false, deref_mode: AutoDerefMode::Never, is_const: false }
    }

    pub fn expect(self, typ: TypeId) -> (r: Self)
        ensures
            r == (CheckExprCtx { expected_type: Some(typ), ..self }),
    {
        CheckExprCtx { expected_type: Some(typ), ..self }
    }

    pub fn maybe_expect(self, typ: Option<TypeId>) -> (r: Self)
        ensures
            r == (CheckExprCtx { expected_type: typ, ..self }),
    {
        CheckExprCtx { expected_type: typ, ..self }
    }

    pub fn allow_is_bindings(self, maybe: bool) -> (r: Self)
        ensures
            r == (CheckExprCtx { allow_is_expr_bindings: maybe, ..self }),
    {
        CheckExprCtx { allow_is_expr_bindings: maybe, ..self }
    }

    pub fn auto_borrow_mut(self, maybe: bool) -> (r: Self)
        ensures
            r == (CheckExprCtx { auto_borrow_mut: maybe, ..self }),
    {
        CheckExprCtx { auto_borrow_mut: maybe, ..self }
    }

    pub fn auto_deref(self, mode: AutoDerefMode) -> (r: Self)
        ensures
            r == (CheckExprCtx { deref_mode: mode, ..self }),
    {
        CheckExprCtx { deref_mode: mode, ..self }
    }

    pub fn is_const(self) -> (r: Self)
        ensures
            r == (CheckExprCtx { is_const: true, ..self }),
    {
        CheckExprCtx { is_const: true, ..self }
    }
}


/// The index of the first element from the `k`-th on that is labelled `label`.
pub open spec fn first_label_from(elems: Seq<TypeTuple>, label: Seq<char>, k: int) -> Option<int>
    decreases elems.len() - k,
{
    if k < 0 || k >= elems.len() {
        None
    } else if elems[k].label@ == label {
        Some(k)
    } else {
        first_label_from(elems, label, k + 1)
    }
}

/// Two lists of tuple elements with the same labels and types find the same labels.
pub proof fn lemma_first_label_matching(a: Seq<TypeTuple>, b: Seq<TypeTuple>, label: Seq<char>, k: int)
    requires
        crate::typing::type_arena::tuple_elems_match(a, b),
        0 <= k,
    ensures
        first_label_from(a, label, k) == first_label_from(b, label, k),
    decreases a.len() - k,
{
    if k < a.len() {
        assert(a[k].label@ == b[k].label@);
        lemma_first_label_matching(a, b, label, k + 1);
    }
}

/// The index of the first element labelled `label`, if there is one.
pub fn find_label(elems: &Vec<TypeTuple>, label: &str) -> (r: Option<usize>)
    ensures
        r matches Some(i) ==> i < elems@.len() && elems@[i as int].label@ == label@,
        r is None ==> forall|k: int| 0 <= k < elems@.len() ==> (#[trigger] elems@[k]).label@ != label@,
        r matches Some(i) ==> first_label_from(elems@, label@, 0) == Some(i as int),
        r is None ==> first_label_from(elems@, label@, 0) is None,
{
    let mut i: usize = 0;
    while i < elems.len()
        invariant
            0 <= i <= elems@.len(),
            forall|k: int| 0 <= k < i ==> (#[trigger] elems@[k]).label@ != label@,
            first_label_from(elems@, label@, 0) == first_label_from(elems@, label@, i as int),
        decreases elems@.len() - i,
    {
        if crate::text::str_eq(elems[i].label.as_str(), label) {
            return Some(i);
        }
        i = i + 1;
    }
    None
}

/// The element of a tuple type that `label` names: by label in a tuple, by number in a
/// tuple array. Gives its index and type.
pub fn extract_tup_label_type(left_type: &Type, label: &str) -> (r: Option<(usize, TypeId)>)
    ensures
        left_type matches Type::Tup(elems) ==> (r matches Some((i, t)) ==> i < elems@.len()
            && elems@[i as int].label@ == label@ && elems@[i as int].typ == t
            && first_label_from(elems@, label@, 0) == Some(i as int)),
        left_type matches Type::Tup(elems) ==> (r is None ==> first_label_from(elems@, label@, 0) is None),
        left_type matches Type::Tup(elems) ==> (r is None ==>
            forall|k: int| 0 <= k < elems@.len() ==> (#[trigger] elems@[k]).label@ != label@),
        left_type matches Type::TupArr(elem, len) ==> (r matches Some((i, t)) ==> i < *len && t == *elem),
        !(left_type is Tup) && !(left_type is TupArr) ==> r is None,
{
    match left_type {
        Type::Tup(elems) => {
            match find_label(elems, label) {
                Some(i) => Some((i, elems[i].typ)),
                None => None,
            }
        },
        Type::TupArr(elem, len) => {
            match crate::lexing::parse_decimal_usize(label) {
                Some(i) => if i < *len { Some((i, *elem)) } else { None },
                None => None,
            }
        },
        _ => None,
    }
}

impl<'a> TypeChecker<'a> {
    /// Checks the expression `check_expr` in the context `old_ctx` and records its type; gives
    /// its type after the context's dereferencing and coercion to the expected type. A
    /// subexpression that never finishes sets `is_never`.
    #[verifier::rlimit(100)]
    #[verifier::spinoff_prover]
    pub(crate) fn check_expression(&mut self, check_expr: ExprId, is_never: &mut bool, old_ctx: CheckExprCtx, fuel: u64) -> (r: TypeId)
        requires
            old(self).inv(),
            check_expr.0 < old(self).ast.exprs@.len(),
        ensures
            final(self).keeps(old(self)),
            // with nothing expected and no references followed, the type found is the one recorded
            fuel > 0 && old_ctx.expected_type is None && old_ctx.deref_mode == AutoDerefMode::Never ==> ({
                &&& final(self).typed_ast.expr_types@[check_expr.0 as int] == r
                &&& *final(is_never) ==> r == TypeId(1)
                &&& !*old(is_never) ==> (old(self).ast.exprs@[check_expr.0 as int] matches Expr::Literal { val } ==>
                    r == literal_type_id(val) && final(self).error_data == old(self).error_data)
            }),
        decreases fuel,
    {
        if fuel == 0 {
            return TypeId::error_type();
        }
        let f = fuel - 1;
        let ctx = CheckExprCtx { is_const: old_ctx.is_const, ..CheckExprCtx::new() };
        let ast = self.ast;
        let span = ast.get_expr_span(check_expr);
        let mut inferred_type = match ast.get_expr(check_expr) {
            Expr::Literal { val } => self.check_literal(val),

            Expr::IdentifierRef { name, mutable } => {
                let mutable = *mutable || old_ctx.auto_borrow_mut;
                self.make_variable_ref(name.as_str(), mutable, old_ctx.is_const, check_expr, f)
            },

            Expr::TemplateString { elems } => {
                let mut i: usize = 0;
                while i < elems.len()
                    invariant
                        f < fuel,
                        self.keeps(old(self)),
                        ast == old(self).ast,
                        0 <= i <= elems@.len(),
                        forall|k: int| 0 <= k < elems@.len() ==> (#[trigger] elems@[k]).0 < ast.exprs@.len(),
                    decreases elems@.len() - i,
                {
                    self.check_expression(elems[i], is_never, ctx, f);
                    i = i + 1;
                }
                TypeId::str_type()
            },

            Expr::Tuple { elems } => {
                let expected_elems = match old_ctx.expected_type {
                    Some(t) => Some(self.prune_type_once(t)),
                    None => None,
                };
                let mut tuple_types: Vec<TypeTuple> = Vec::new();
                let mut i: usize = 0;
                while i < elems.len()
                    invariant
                        f < fuel,
                        self.keeps(old(self)),
                        ast == old(self).ast,
                        0 <= i <= elems@.len(),
                        forall|k: int| 0 <= k < elems@.len() ==> (#[trigger] elems@[k]).expr.0 < ast.exprs@.len(),
                    decreases elems@.len() - i,
                {
                    let elem_expected = match &expected_elems {
                        Some(Type::MetaType) => Some(TypeId::meta_type()),
                        Some(tup) => match extract_tup_label_type(tup, elems[i].label.as_str()) {
                            Some((_, t)) => Some(t),
                            None => None,
                        },
                        None => None,
                    };
                    let elem_ctx = ctx.maybe_expect(elem_expected).auto_deref(AutoDerefMode::Once);
                    let typ = self.check_expression(elems[i].expr, is_never, elem_ctx, f);
                    tuple_types.push(TypeTuple { label: elems[i].label.clone(), typ });
                    i = i + 1;
                }
                self.add_type(Type::Tup(tuple_types))
            },

            Expr::TupleArr { elem, length } => {
                let elem_type = self.check_expression(*elem, is_never, ctx.auto_deref(AutoDerefMode::Once), f);
                let length_ctx = ctx.auto_deref(AutoDerefMode::Fully).expect(TypeId::int_type()).is_const();
                self.check_expression(*length, is_never, length_ctx, f);
                match self.evaluate_expr(*length, f) {
                    Some(VmValue::Int(num)) => {
                        if num >= 0 && (num as u64) <= (usize::MAX as u64) {
                            self.add_type(Type::TupArr(elem_type, num as usize))
                        } else {
                            self.error(ErrType::RuntimeError { msg: "a tuple's length can't be negative".to_string() }, span)
                        }
                    },
                    _ => TypeId::error_type(),
                }
            },

            Expr::Index { left, index } => self.check_index(*left, *index, span, is_never, ctx, old_ctx.auto_borrow_mut, f),

            Expr::Block { exprs, label } => self.check_block(check_expr, exprs, label, is_never, ctx, old_ctx.expected_type, f),

            Expr::Prefix { op, right } => {
                match op {
                    TokenKind::Exclamation => self.check_expression(*right, is_never, ctx.expect(TypeId::bool_type()), f),
                    TokenKind::Op(AssignOp::Minus) => {
                        let right_type = self.check_expression(*right, is_never, ctx.auto_deref(AutoDerefMode::Fully), f);
                        self.check_prefix_minus(right_type, span, 64)
                    },
                    _ => TypeId::error_type(),
                }
            },

            Expr::Infix { op, op_span, left, right } => {
                let infix_ctx = ctx
                    .allow_is_bindings(*op == TokenKind::And && old_ctx.allow_is_expr_bindings)
                    .auto_deref(AutoDerefMode::Fully);
                let left_type = self.check_expression(*left, is_never, infix_ctx, f);
                // with short-circuiting the right side might not run, so its never doesn't count
                let mut right_is_never = false;
                let right_type = self.check_expression(*right, &mut right_is_never, infix_ctx, f);
                if right_is_never && !(*op == TokenKind::And || *op == TokenKind::Or) {
                    *is_never = true;
                }
                self.operator_type(*op, *op_span, left_type, right_type)
            },

            Expr::If { condition, then, alt, never_alt } =>
                self.check_if(*condition, *then, *alt, *never_alt, span, is_never, ctx, old_ctx.expected_type, f),

            Expr::Match { match_value, arms } => {
                let match_val_type = self.check_expression(*match_value, is_never, ctx, f);
                self.check_match_arms(arms, match_val_type, span, is_never, ctx, old_ctx.expected_type, f)
            },

            Expr::Loop { body, label } => {
                let loop_break_type = match old_ctx.expected_type {
                    Some(t) => t,
                    None => self.new_infer_type(),
                };
                let snap_before_loop = self.before_check_label_logic(check_expr, label.as_str(), loop_break_type);
                let mut body_never = false;
                self.check_expression(*body, &mut body_never, ctx.expect(TypeId::void_type()), f);
                match self.curr_label_infos.pop() {
                    Some(label_info) => {
                        self.merge_vars_states(&snap_before_loop, &label_info.break_snapshots);
                        if label_info.break_snapshots.len() == 0 {
                            // a loop without a break never ends
                            TypeId::never_type()
                        } else {
                            loop_break_type
                        }
                    },
                    None => TypeId::error_type(),
                }
            },

            Expr::Assign { pattern, value, extra_op, op_span } => {
                let value_type = self.check_assign_pattern_and_value(*pattern, Some(*value), is_never, true, false, extra_op.is_some(), None, f);
                match extra_op {
                    Some(op) => {
                        let infixed = self.operator_type(TokenKind::Op(*op), *op_span, value_type, value_type);
                        self.unify_types(value_type, infixed, *op_span, UnifyMode::Subtype);
                    },
                    None => {},
                }
                TypeId::void_type()
            },

            Expr::EmptyLet { pattern } => {
                self.check_assign_pattern_and_value(*pattern, None, is_never, true, false, false, None, f);
                TypeId::void_type()
            },

            Expr::Is { value, pattern } => {
                self.check_assign_pattern_and_value(*pattern, Some(*value), is_never, old_ctx.allow_is_expr_bindings, true, false, None, f);
                TypeId::bool_type()
            },

            Expr::Move { expr } => {
                let expr_type = self.check_expression(*expr, is_never, ctx, f);
                match self.prune_type_once_infer_err(expr_type, span) {
                    Type::Borrow { inner, borrows_var, .. } => {
                        self.check_deref_memory_rules(inner, borrows_var, span);
                        inner
                    },
                    Type::Error => TypeId::error_type(),
                    _ => {
                        let typ = self.fmt_type(expr_type);
                        self.error(ErrType::TyperCantDerefNonPointerType { typ }, span)
                    },
                }
            },

            Expr::Borrow { expr, .. } => {
                let borrow_ctx = ctx.auto_deref(AutoDerefMode::Fully).expect(TypeId::meta_type()).is_const();
                self.check_expression(*expr, is_never, borrow_ctx, f)
            },

            Expr::Closure { closure, requires_type_annotation } => self.get_fn_type(closure, *requires_type_annotation, f),

            Expr::Return { expr } => {
                let curr_return_type = match self.curr_function_return_type {
                    Some(t) => t,
                    None => self.error(ErrType::TyperReturnOutsideFunction, span),
                };
                let mut return_never = false;
                self.check_expression(*expr, &mut return_never, ctx.expect(curr_return_type), f);
                TypeId::never_type()
            },

            Expr::Break { expr, label } => {
                // none where it couldn't find where to break to (already an error)
                let target = self.find_loop_label(label, span);
                let expected = match target {
                    Some(k) => if k < self.curr_label_infos.len() { Some(self.curr_label_infos[k].typ) } else { None },
                    None => None,
                };
                let mut expr_is_never = false;
                self.check_expression(*expr, &mut expr_is_never, ctx.maybe_expect(expected), f);
                // the variables' state here is one of the states after the loop
                let snap = self.snapshot_branch_vars_state(expr_is_never);
                match target {
                    Some(k) => {
                        if k < self.curr_label_infos.len() {
                            self.curr_label_infos[k].break_snapshots.push(snap);
                        }
                    },
                    None => {},
                }
                TypeId::never_type()
            },

            Expr::Continue { label } => {
                self.find_loop_label(label, span);
                TypeId::never_type()
            },

            Expr::Call { callee, arguments } => self.check_call(*callee, arguments, span, is_never, ctx, f),

            Expr::MemberAccess { left, .. } => {
                let member_ctx = ctx.auto_borrow_mut(old_ctx.auto_borrow_mut);
                let left_type = self.check_expression(*left, is_never, member_ctx, f);
                self.check_member_access(left_type, check_expr, None, false, old_ctx.expected_type, f)
            },

            Expr::EnumVariant { data } => {
                // `:Variant` needs the expected enum type
                match self.check_enum_variant(data.variant_name.as_str(), old_ctx.expected_type, Some(span)) {
                    Some((_, _, attached_type, refine_type)) => {
                        match data.attached_tuple {
                            Some(tup) => { self.check_expression(tup, is_never, ctx.expect(attached_type), f); },
                            // a variant without data has to be defined without data
                            None => { self.unify_types(TypeId::void_type(), attached_type, span, UnifyMode::Subtype); },
                        }
                        refine_type
                    },
                    None => TypeId::error_type(),
                }
            },

            Expr::TypeInstantiation { typ, data } => self.check_type_instantiation(check_expr, *typ, *data, span, is_never, ctx, f),

            Expr::ImplBlock { typ, const_exprs } => {
                let meta_type = self.check_annotation_meta_type_id(*typ, true, f);
                match self.prune_type_once_infer_err(meta_type, span) {
                    Type::CustomType(custom_id, _) => {
                        if custom_id.0 < self.custom_types.len() {
                            let self_before = self.curr_impl_self;
                            self.curr_impl_self = Some(meta_type);
                            // the impl scope is a scope of its own: its constants end up there
                            let mut impl_scope = TypeVarScope::new();
                            std::mem::swap(&mut impl_scope, &mut self.custom_types[custom_id.0].impls);
                            self.var_scopes.push(impl_scope);
                            self.hoisting_pass(const_exprs, false, f);
                            match self.var_scopes.pop() {
                                Some(scope) => {
                                    if custom_id.0 < self.custom_types.len() {
                                        self.custom_types[custom_id.0].impls = scope;
                                    }
                                },
                                None => {},
                            }
                            self.curr_impl_self = self_before;
                        }
                    },
                    _ => {
                        let typ_text = self.fmt_type(meta_type);
                        self.error(ErrType::TyperCantImplNonCustomType { typ: typ_text }, span);
                    },
                }
                TypeId::void_type()
            },

            Expr::ImplSelf => {
                match self.curr_impl_self {
                    Some(_) => TypeId::meta_type(),
                    None => self.error(ErrType::TyperSelfOutsideImplBlock, span),
                }
            },

            Expr::TypeMemberAccess { left, member } => {
                let left_type = self.check_expression(*left, is_never, ctx, f);
                let typ = self.fmt_type(left_type);
                self.error(ErrType::TyperTypeDoesntHaveMember { typ, member: member.clone() }, span)
            },

            Expr::ParserError => TypeId::error_type(),

            // constants and custom types were handled in the hoisting pass
            Expr::Void | Expr::Const { .. } | Expr::CustomType { .. } => TypeId::void_type(),

            Expr::EnumDefinition { variants } => {
                // the enum type itself is made when the constant is evaluated
                let mut i: usize = 0;
                while i < variants.len()
                    invariant
                        f < fuel,
                        self.keeps(old(self)),
                        ast == old(self).ast,
                        0 <= i <= variants@.len(),
                        forall|k: int| 0 <= k < variants@.len() ==>
                            crate::parsing::ast::opt_expr_lt((#[trigger] variants@[k]).attached_tuple, ast.exprs@.len()),
                    decreases variants@.len() - i,
                {
                    match variants[i].attached_tuple {
                        Some(tup) => { self.check_expression(tup, is_never, ctx.expect(TypeId::meta_type()).is_const(), f); },
                        None => {},
                    }
                    i = i + 1;
                }
                TypeId::meta_type()
            },

            // desugared before checking
            Expr::While { .. } | Expr::For { .. } | Expr::FnDefinition { .. } => TypeId::error_type(),
        };

        if inferred_type.0 == 1 {
            *is_never = true;
        }
        if *is_never {
            inferred_type = TypeId::never_type();
        }
        self.typed_ast.expr_types.set(check_expr.0, inferred_type);

        inferred_type = self.handle_deref_mode(old_ctx.deref_mode, inferred_type, span);

        // unify it with the expected type, if one was expected
        match old_ctx.expected_type {
            Some(expected) => {
                let coerced = self.coerce_to_expected_type(inferred_type, expected, span);
                if coerced.0 != inferred_type.0 && coerced.0 == TypeId::meta_type().0 {
                    // a tuple of types taken as a type: it is evaluated as one
                    self.typed_ast.expr_types.set(check_expr.0, coerced);
                }
                inferred_type = coerced;
                self.unify_types(expected, inferred_type, span, UnifyMode::Subtype);
            },
            None => {},
        }
        inferred_type
    }

    /// The type that the operator gives for operands of types `left` and `right`, as
    /// `check_infix` finds it.
    fn operator_type(&mut self, op: TokenKind, op_span: Span, left: TypeId, right: TypeId) -> (r: TypeId)
        requires
            old(self).inv(),
        ensures
            final(self).keeps(old(self)),
    {
        self.check_infix(op, op_span, left, right, 64)
    }

    /// The type of a literal.
    pub(crate) fn check_literal(&mut self, val: &AstValue) -> (r: TypeId)
        requires
            old(self).inv(),
        ensures
            final(self).keeps(old(self)),
            *final(self) == *old(self),
            r == literal_type_id(*val),
    {
        match val {
            AstValue::NumInt(_) => TypeId::int_type(),
            AstValue::NumFloat(_) => TypeId::float_type(),
            AstValue::Str(_) => TypeId::str_type(),
            AstValue::Bool(_) => TypeId::bool_type(),
        }
    }

    /// The type of `left op right`: both sides have to have the same type; comparisons and `&&`,
    /// `||` give `bool`, arithmetic gives the operands' type, which has to be a number (or a
    /// custom type of one, which it keeps).
    pub(crate) fn check_infix(&mut self, op: TokenKind, op_span: Span, left: TypeId, right: TypeId, depth: u64) -> (r: TypeId)
        requires
            old(self).inv(),
        ensures
            final(self).keeps(old(self)),
            // both sides already the same type, and no custom type: the operator decides
            old(self).pruned_id(left) == old(self).pruned_id(right) && is_plain_type(old(self).type_of(left)) ==> ({
                let t = old(self).type_of(left);
                &&& is_comparison_op(op) ==> r == TypeId(6) && *final(self) == *old(self)
                &&& !is_comparison_op(op) && !is_arithmetic_op(op) ==> r == TypeId(0) && *final(self) == *old(self)
                &&& is_arithmetic_op(op) && (t is NumInt || t is NumFloat) ==> r == left && *final(self) == *old(self)
                &&& is_arithmetic_op(op) && t is Error ==> r == TypeId(0) && *final(self) == *old(self)
                &&& is_arithmetic_op(op) && !(t is NumInt || t is NumFloat || t is Error) ==>
                    r == TypeId(0) && mismatch_added(*old(self), *final(self), TypeId(4), left, op_span)
            }),
            // arithmetic on two values of one custom type of a number gives that custom type:
            // `N{ 2 } * N{ 3 }` is an `N`
            depth > 0 && is_arithmetic_op(op) && old(self).pruned_id(left) == old(self).pruned_id(right)
                && old(self).type_of(left) is CustomType
                && (old(self).type_of(old(self).type_of(left)->CustomType_1) is NumInt
                    || old(self).type_of(old(self).type_of(left)->CustomType_1) is NumFloat) ==>
                r == left && *final(self) == *old(self),
            // comparing two values of one custom type of a number gives a boolean
            depth > 0 && is_comparison_op(op) && old(self).pruned_id(left) == old(self).pruned_id(right)
                && old(self).type_of(left) is CustomType
                && (old(self).type_of(old(self).type_of(left)->CustomType_1) is NumInt
                    || old(self).type_of(old(self).type_of(left)->CustomType_1) is NumFloat) ==>
                r == TypeId(6) && *final(self) == *old(self),
        decreases depth,
    {
        // for now both sides have to have the same type
        self.unify_types(left, right, op_span, UnifyMode::Subtype);
        let left_type = self.prune_type_once_infer_err(left, op_span);

        match left_type {
            Type::CustomType(_, inner) => {
                if depth == 0 {
                    return TypeId::error_type();
                }
                let infixed = self.check_infix(op, op_span, inner, inner, depth - 1);
                // an operation that gives the inner type gives the custom type: `N{ 2 } * N{ 2 }` is an `N`
                return if self.are_types_equivalent(infixed, inner, 64) { left } else { infixed };
            },
            _ => {},
        }

        match op {
            TokenKind::EqualEqual | TokenKind::Greater | TokenKind::Less | TokenKind::And | TokenKind::Or => TypeId::bool_type(),
            TokenKind::Op(AssignOp::Plus) | TokenKind::Op(AssignOp::Minus) | TokenKind::Op(AssignOp::Star)
            | TokenKind::Op(AssignOp::Slash) | TokenKind::Op(AssignOp::Percent) => {
                match left_type {
                    Type::NumFloat | Type::NumInt => left,
                    Type::Error => TypeId::error_type(),
                    _ => self.type_mismatch(TypeId::int_type(), left, op_span),
                }
            },
            _ => TypeId::error_type(),
        }
    }

    /// The type of `-x` for `x` of type `typ`: a number, or a custom type of one.
    pub(crate) fn check_prefix_minus(&mut self, typ: TypeId, span: Span, depth: u64) -> (r: TypeId)
        requires
            old(self).inv(),
        ensures
            final(self).keeps(old(self)),
            ({
                let t = old(self).type_of(typ);
                &&& t is NumInt || t is NumFloat ==> r == typ && *final(self) == *old(self)
                &&& t is Error ==> r == TypeId(0) && *final(self) == *old(self)
                &&& is_plain_type(t) && !(t is NumInt || t is NumFloat || t is Error) ==>
                    r == TypeId(0) && mismatch_added(*old(self), *final(self), TypeId(4), typ, span)
            }),
        decreases depth,
    {
        let pruned = self.prune_type_once_infer_err(typ, span);
        match pruned {
            Type::CustomType(_, inner) => {
                if depth == 0 {
                    return TypeId::error_type();
                }
                let inner_res = self.check_prefix_minus(inner, span, depth - 1);
                if self.are_types_equivalent(inner_res, inner, 64) { typ } else { inner_res }
            },
            Type::NumFloat | Type::NumInt => typ,
            Type::Error => TypeId::error_type(),
            _ => self.type_mismatch(TypeId::int_type(), typ, span),
        }
    }

    /// `left[index]`: `left` is a reference to a tuple array, or to a tuple whose elements all have
    /// the same type; gives a reference to the element.
    fn check_index(&mut self, left: ExprId, index: ExprId, span: Span, is_never: &mut bool, ctx: CheckExprCtx, auto_borrow_mut: bool, fuel: u64) -> (r: TypeId)
        requires
            old(self).inv(),
            left.0 < old(self).ast.exprs@.len(),
            index.0 < old(self).ast.exprs@.len(),
        ensures
            final(self).keeps(old(self)),
            // a reference to an element, or the error type
            r == TypeId(0) || (r.0 < final(self).type_arena.types@.len() && final(self).type_arena.types@[r.0 as int] is Borrow),
        decreases fuel,
    {
        if fuel == 0 {
            return TypeId::error_type();
        }
        let arr_ctx = if auto_borrow_mut { ctx.auto_borrow_mut(true) } else { ctx };
        let left_pointer_type = self.check_expression(left, is_never, arr_ctx.auto_deref(AutoDerefMode::LeaveOnePointer), fuel - 1);
        let left_span = self.ast.get_expr_span(left);
        match self.index_element_type(left_pointer_type, left_span, span) {
            Some((arr_inner_type, mutable, borrows_var)) => {
                self.check_expression(index, is_never, ctx.expect(TypeId::int_type()), fuel - 1);
                self.add_type(Type::Borrow { inner: arr_inner_type, mutable, borrows_var })
            },
            None => TypeId::error_type(),
        }
    }

    /// What indexing a value of type `left_pointer_type` (dereferenced down to one reference)
    /// gives: the element type, with the mutability and the borrowed variable of the reference.
    /// A tuple can be indexed where it has elements and all of them have one type. None where
    /// the value is no reference (an error unless its type is the error type).
    fn index_element_type(&mut self, left_pointer_type: TypeId, left_span: Span, span: Span)
        -> (r: Option<(TypeId, bool, Option<TypeVarId>)>)
        requires
            old(self).inv(),
        ensures
            final(self).keeps(old(self)),
            final(self).typed_ast == old(self).typed_ast,
            final(self).var_scopes == old(self).var_scopes,
            final(self).curr_label_infos == old(self).curr_label_infos,
            ({
                let lt = old(self).type_of(left_pointer_type);
                let inner = lt->Borrow_inner;
                let it = old(self).type_of(inner);
                &&& lt is Borrow ==> (r matches Some((_, m, b)) && m == lt->Borrow_mutable && b == lt->Borrow_borrows_var)
                // a reference to a tuple array: its element type
                &&& lt is Borrow && it is TupArr ==>
                    r->Some_0.0 == it->TupArr_0 && final(self).error_data == old(self).error_data
                // a reference to a tuple: its one element type, else an error
                &&& lt is Borrow && it is Tup && it->Tup_0@.len() == 0 ==>
                    r->Some_0.0 == TypeId(0)
                    && final(self).error_data.errors@.len() == old(self).error_data.errors@.len() + 1
                    && final(self).error_data.errors@.last().span == span
                    && (final(self).error_data.errors@.last().err_type matches ErrType::TyperCantIndexEmptyTuple { typ }
                        && typ@ == old(self).shown_type(inner))
                &&& lt is Borrow && it is Tup && it->Tup_0@.len() > 0
                    && (forall|k: int| 0 <= k < it->Tup_0@.len() ==> (#[trigger] it->Tup_0@[k]).typ == it->Tup_0@[0].typ) ==>
                    r->Some_0.0 == it->Tup_0@[0].typ && final(self).error_data == old(self).error_data
                &&& lt is Borrow && it is Tup && it->Tup_0@.len() > 0
                    && !(forall|k: int| 0 <= k < it->Tup_0@.len() ==> (#[trigger] it->Tup_0@[k]).typ == it->Tup_0@[0].typ) ==>
                    r->Some_0.0 == TypeId(0)
                    && final(self).error_data.errors@.len() == old(self).error_data.errors@.len() + 1
                    && final(self).error_data.errors@.last().span == span
                    && (final(self).error_data.errors@.last().err_type matches ErrType::TyperCantIndexHeterogenousTuple { typ }
                        && typ@ == old(self).shown_type(inner))
                // anything else than a reference
                &&& lt is Error ==> r is None && *final(self) == *old(self)
                &&& !(lt is Borrow) && !(lt is Error) && !(lt is Infer) ==> r is None
                    && final(self).error_data.errors@.len() == old(self).error_data.errors@.len() + 1
                    && final(self).error_data.errors@.last().span == span
                    && final(self).error_data.errors@.last().err_type is TyperMismatch
            }),
    {
        match self.prune_type_once_infer_err(left_pointer_type, left_span) {
            Type::Borrow { inner, mutable, borrows_var } => {
                let arr_inner_type = match self.prune_type_once_infer_err(inner, left_span) {
                    Type::TupArr(elem, _) => elem,
                    Type::Tup(elems) => {
                        proof {
                            let it = self.type_of(inner)->Tup_0@;
                            assert(forall|k: int| 0 <= k < elems@.len() ==> #[trigger] elems@[k].typ == it[k].typ);
                            if elems@.len() > 0 && !(forall|k: int| 0 <= k < it.len() ==> (#[trigger] it[k]).typ == it[0].typ) {
                                let k = choose|k: int| !(0 <= k < it.len() ==> (#[trigger] it[k]).typ == it[0].typ);
                                assert(elems@[k].typ != elems@[0].typ);
                            }
                        }
                        if elems.len() == 0 {
                            let typ = self.fmt_type(inner);
                            self.error(ErrType::TyperCantIndexEmptyTuple { typ }, span)
                        } else if all_elems_same_type(&elems) {
                            // a tuple can be indexed if all its elements have the same type
                            elems[0].typ
                        } else {
                            let typ = self.fmt_type(inner);
                            self.error(ErrType::TyperCantIndexHeterogenousTuple { typ }, span)
                        }
                    },
                    Type::Error => TypeId::error_type(),
                    _ => {
                        let typ = self.fmt_type(inner);
                        self.error(ErrType::TyperCantIndexNonArrType { typ }, span)
                    },
                };
                Some((arr_inner_type, mutable, borrows_var))
            },
            Type::Error => None,
            _ => {
                let arr_type = self.add_type(Type::TupArr(TypeId::error_type(), 1));
                self.type_mismatch(arr_type, left_pointer_type, span);
                None
            },
        }
    }

    /// A block: a scope of its own, whose constants are hoisted; its type is the type of its last
    /// expression (void for none). A labelled block can be left with `break`.
    fn check_block(&mut self, check_expr: ExprId, exprs: &Vec<ExprId>, label: &Option<String>, is_never: &mut bool,
        ctx: CheckExprCtx, expected_type: Option<TypeId>, fuel: u64) -> (r: TypeId)
        requires
            old(self).inv(),
            forall|k: int| 0 <= k < exprs@.len() ==> (#[trigger] exprs@[k]).0 < old(self).ast.exprs@.len(),
        ensures
            final(self).keeps(old(self)),
            // an empty block is `void`
            fuel > 0 && exprs@.len() == 0 ==> r == TypeId(2),
        decreases fuel,
    {
        if fuel == 0 {
            return TypeId::error_type();
        }
        let f = fuel - 1;
        self.enter_scope();
        // collects constants, custom types and functions first
        self.hoisting_pass(exprs, true, f);

        let n = exprs.len();
        let last_type = if n == 0 {
            // an empty block gives void
            TypeId::void_type()
        } else {
            let snap_before_block = match label {
                Some(l) => {
                    let block_break_type = match expected_type {
                        Some(t) => t,
                        None => self.new_infer_type(),
                    };
                    Some(self.before_check_label_logic(check_expr, l.as_str(), block_break_type))
                },
                None => None,
            };
            let mut i: usize = 0;
            while i < n - 1
                invariant
                    n > 0,
                    f < fuel,
                    self.keeps(old(self)),
                    n == exprs@.len(),
                    0 <= i <= n,
                    forall|k: int| 0 <= k < exprs@.len() ==> (#[trigger] exprs@[k]).0 < old(self).ast.exprs@.len(),
                decreases n - i,
            {
                self.check_expression(exprs[i], is_never, ctx, f);
                i = i + 1;
            }
            let last_expr = exprs[n - 1];
            let last_ctx = ctx.maybe_expect(expected_type).allow_is_bindings(true);
            let last_type = self.check_expression(last_expr, is_never, last_ctx, f);

            match snap_before_block {
                Some(snap) => {
                    match self.curr_label_infos.pop() {
                        Some(mut label_info) => {
                            // one more state: after the whole block ran
                            let end_snap = self.snapshot_branch_vars_state(*is_never);
                            label_info.break_snapshots.push(end_snap);
                            self.merge_vars_states(&snap, &label_info.break_snapshots);
                            *is_never = false;
                            let last_span = self.ast.get_expr_span(last_expr);
                            self.unify_types(label_info.typ, last_type, last_span, UnifyMode::FindParentType)
                        },
                        None => last_type,
                    }
                },
                None => last_type,
            }
        };
        self.exit_scope();
        last_type
    }

    /// `if condition { then } else { alt }`: variables bound by the condition are only in scope in
    /// `then`; the variables' states after it join those of the two branches.
    fn check_if(&mut self, condition: ExprId, then: ExprId, alt: ExprId, never_alt: bool, span: Span, is_never: &mut bool,
        ctx: CheckExprCtx, expected_type: Option<TypeId>, fuel: u64) -> (r: TypeId)
        requires
            old(self).inv(),
            condition.0 < old(self).ast.exprs@.len(),
            then.0 < old(self).ast.exprs@.len(),
            alt.0 < old(self).ast.exprs@.len(),
        ensures
            final(self).keeps(old(self)),
        decreases fuel,
    {
        if fuel == 0 {
            return TypeId::error_type();
        }
        let f = fuel - 1;
        let snap_before = self.snapshot_vars_state();
        self.enter_scope();
        self.check_expression(condition, is_never, ctx.expect(TypeId::bool_type()).allow_is_bindings(true), f);

        let branch_ctx = ctx.maybe_expect(expected_type);
        let mut then_is_never = false;
        let then_type = self.check_expression(then, &mut then_is_never, branch_ctx, f);
        let then_snap = self.snapshot_branch_vars_state(then_is_never);

        self.exit_scope();
        self.restore_vars_state(&snap_before);

        let mut alt_is_never = false;
        let alt_type = self.check_expression(alt, &mut alt_is_never, branch_ctx, f);
        if never_alt && !alt_is_never {
            // no cascading errors
            alt_is_never = true;
            let alt_span = self.ast.get_expr_span(alt);
            self.type_mismatch(TypeId::never_type(), alt_type, alt_span);
        }
        let alt_snap = self.snapshot_branch_vars_state(alt_is_never);
        let mut snaps: Vec<Option<SnapshotVarsState>> = Vec::new();
        snaps.push(then_snap);
        snaps.push(alt_snap);
        self.merge_vars_states(&snap_before, &snaps);

        self.unify_types(then_type, alt_type, span, UnifyMode::FindParentType)
    }

    /// The arms of `match value is ...`: each arm's pattern binds in a scope of its own; the
    /// arms together have to cover every value; the type is the parent type of the arms' types.
    fn check_match_arms(&mut self, arms: &Vec<crate::parsing::ast::AstMatchArm>, match_val_type: TypeId, span: Span,
        is_never: &mut bool, ctx: CheckExprCtx, expected_type: Option<TypeId>, fuel: u64) -> (r: TypeId)
        requires
            old(self).inv(),
            forall|k: int| 0 <= k < arms@.len() ==> (#[trigger] arms@[k]).pattern.0 < old(self).ast.patterns@.len()
                && arms@[k].body.0 < old(self).ast.exprs@.len(),
        ensures
            final(self).keeps(old(self)),
            // no arm covers nothing: an error, and a type still to be inferred
            fuel > 0 && arms@.len() == 0 ==> final(self).error_data.errors@.len() == old(self).error_data.errors@.len() + 1
                && final(self).error_data.errors@.last().span == span
                && final(self).error_data.errors@.last().err_type is TyperPatternDoesntCoverAllCases
                && r.0 < final(self).type_arena.types@.len() && final(self).type_arena.types@[r.0 as int] is Infer,
        decreases fuel,
    {
        if fuel == 0 {
            return TypeId::error_type();
        }
        let f = fuel - 1;
        let start_snap = self.snapshot_vars_state();
        let mut arm_snapshots: Vec<Option<SnapshotVarsState>> = Vec::new();
        let mut arm_expr_types: Vec<TypeId> = Vec::new();
        let mut coverage = crate::typing::check_patterns::Coverage::Nothing;
        let mut all_arms_never = true;
        let mut i: usize = 0;
        while i < arms.len()
            invariant
                f < fuel,
                self.keeps(old(self)),
                0 <= i <= arms@.len(),
                arms@.len() == 0 ==> (coverage is Nothing && *self == *old(self)),
                arm_expr_types@.len() == i,
                forall|k: int| 0 <= k < arms@.len() ==> (#[trigger] arms@[k]).pattern.0 < old(self).ast.patterns@.len()
                    && arms@[k].body.0 < old(self).ast.exprs@.len(),
            decreases arms@.len() - i,
        {
            self.enter_scope();
            let mut bound: Vec<String> = Vec::new();
            let (_, arm_cover) = self.check_match_pattern(arms[i].pattern, Some(match_val_type), false, true, &None, &mut bound, f);
            coverage = self.join_coverage(coverage, arm_cover, match_val_type);
            let mut arm_never = false;
            let t = self.check_expression(arms[i].body, &mut arm_never, ctx.maybe_expect(expected_type), f);
            arm_expr_types.push(t);
            if !arm_never {
                all_arms_never = false;
            }
            self.exit_scope();
            arm_snapshots.push(self.snapshot_branch_vars_state(arm_never));
            self.restore_vars_state(&start_snap);
            i = i + 1;
        }
        if all_arms_never {
            *is_never = true;
        }
        if !self.covers_all(&coverage, match_val_type) {
            self.error(ErrType::TyperPatternDoesntCoverAllCases { remaining: "_".to_string() }, span);
        }
        self.merge_vars_states(&start_snap, &arm_snapshots);
        self.unify_type_vec(&arm_expr_types, span)
    }

    /// `callee(arguments)`: the callee has to be a function taking as many arguments; with
    /// `x.f(...)` the value `x` is the first one.
    fn check_call(&mut self, callee: ExprId, arguments: &Vec<ExprId>, span: Span, is_never: &mut bool, ctx: CheckExprCtx, fuel: u64) -> (r: TypeId)
        requires
            old(self).inv(),
            callee.0 < old(self).ast.exprs@.len(),
            forall|k: int| 0 <= k < arguments@.len() ==> (#[trigger] arguments@[k]).0 < old(self).ast.exprs@.len(),
        ensures
            final(self).keeps(old(self)),
        decreases fuel,
    {
        if fuel == 0 {
            return TypeId::error_type();
        }
        let f = fuel - 1;
        let callee_type = self.check_expression(callee, is_never, ctx.auto_deref(AutoDerefMode::Fully), f);
        let callee_span = self.ast.get_expr_span(callee);
        match self.prune_type_once_infer_err(callee_type, callee_span) {
            Type::Fn { param_types, return_type } => {
                // `4.square()` passes `4` as the first argument
                let extra_arg: usize = match self.self_sugar_of(callee) {
                    Some(self_expr) => {
                        if param_types.len() > 0 && self_expr.0 < self.typed_ast.expr_types.len() {
                            let first_arg_type = self.typed_ast.expr_types[self_expr.0];
                            let self_span = self.ast.get_expr_span(self_expr);
                            self.unify_types(param_types[0], first_arg_type, self_span, UnifyMode::Subtype);
                        }
                        1
                    },
                    None => 0,
                };
                if self.check_argument_count(param_types.len(), arguments.len(), extra_arg, span) {
                    let mut i: usize = 0;
                    while i < arguments.len()
                        invariant
                            f < fuel,
                            self.keeps(old(self)),
                            0 <= i <= arguments@.len(),
                            param_types@.len() == arguments@.len() + extra_arg,
                            extra_arg <= 1,
                            forall|k: int| 0 <= k < arguments@.len() ==> (#[trigger] arguments@[k]).0 < old(self).ast.exprs@.len(),
                        decreases arguments@.len() - i,
                    {
                        self.check_expression(arguments[i], is_never, ctx.expect(param_types[i + extra_arg]), f);
                        i = i + 1;
                    }
                }
                return_type
            },
            Type::Error => TypeId::error_type(),
            _ => {
                let typ = self.fmt_type(callee_type);
                self.error(ErrType::TyperCantCallNonFnType { typ }, callee_span)
            },
        }
    }

    /// Whether a function of `expected` parameters gets as many: `found` arguments, one more
    /// with `extra` (for `x.f(..)`, which passes `x` first). Where not, the error says both counts.
    fn check_argument_count(&mut self, expected: usize, found: usize, extra: usize, span: Span) -> (ok: bool)
        requires
            old(self).inv(),
            extra <= 1,
        ensures
            final(self).keeps(old(self)),
            final(self).typed_ast == old(self).typed_ast,
            final(self).type_arena == old(self).type_arena,
            final(self).var_scopes == old(self).var_scopes,
            final(self).curr_label_infos == old(self).curr_label_infos,
            final(self).inference_types == old(self).inference_types,
            ok == (found + extra == expected && found < usize::MAX),
            ok ==> final(self).error_data == old(self).error_data,
            !ok ==> final(self).error_data.errors@ == old(self).error_data.errors@.push(crate::ProgramError { span,
                err_type: ErrType::TyperWrongNumberOfArguments {
                    expected, found: if found < usize::MAX { (found + extra) as usize } else { found } } }),
    {
        if found < usize::MAX && expected == found + extra {
            true
        } else {
            let total = if found < usize::MAX { found + extra } else { found };
            self.error(ErrType::TyperWrongNumberOfArguments { expected, found: total }, span);
            false
        }
    }

    /// The expression passed as first argument when `member_expr` (`x.f`) is called, if any:
    /// the latest resolution of the member access says.
    fn self_sugar_of(&self, member_expr: ExprId) -> (r: Option<ExprId>)
        ensures
            r == self_sugar_in(self.typed_ast.resolved_member_access@, member_expr,
                self.typed_ast.resolved_member_access@.len() as int),
    {
        let mut i = self.typed_ast.resolved_member_access.len();
        while i > 0
            invariant
                0 <= i <= self.typed_ast.resolved_member_access@.len(),
                self_sugar_in(self.typed_ast.resolved_member_access@, member_expr,
                    self.typed_ast.resolved_member_access@.len() as int)
                    == self_sugar_in(self.typed_ast.resolved_member_access@, member_expr, i as int),
            decreases i,
        {
            i = i - 1;
            if self.typed_ast.resolved_member_access[i].0.0 == member_expr.0 {
                return match &self.typed_ast.resolved_member_access[i].1 {
                    ResolvedMemberAccess::MemberWithSelfSugar { self_sugar_expr, .. } => Some(*self_sugar_expr),
                    _ => None,
                };
            }
        }
        None
    }

    /// `left.member` on a value of type `left_type_id`: a tuple element by label, an enum variant
    /// or impl constant of a type, and otherwise a member found inside custom types, references
    /// and variant refinements. Through a reference the result is a reference too.
    fn check_member_access(&mut self, left_type_id: TypeId, member_expr: ExprId, came_from_ref: Option<(bool, Option<TypeVarId>)>,
        came_from_meta: bool, expected_type: Option<TypeId>, fuel: u64) -> (r: TypeId)
        requires
            old(self).inv(),
            member_expr.0 < old(self).ast.exprs@.len(),
        ensures
            final(self).keeps(old(self)),
            fuel > 0 ==> (old(self).ast.exprs@[member_expr.0 as int] matches Expr::MemberAccess { left, member } ==> ({
                let t = old(self).type_of(left_type_id);
                // a labelled element of a tuple
                &&& (!came_from_meta && came_from_ref is None && (t matches Type::Tup(elems)
                        && first_label_from(elems@, member@, 0) is Some)) ==> ({
                    let elems = t->Tup_0@;
                    let i = first_label_from(elems, member@, 0)->0;
                    &&& r == elems[i].typ
                    &&& final(self).error_data == old(self).error_data
                    &&& final(self).typed_ast.resolved_member_access@ == old(self).typed_ast.resolved_member_access@
                            .push((member_expr, ResolvedMemberAccess::TupleIndex { index: i as usize }))
                })
                // a type without members, or a tuple without that label
                &&& (has_no_members(t) || (t matches Type::Tup(elems)
                        && (came_from_meta || first_label_from(elems@, member@, 0) is None))) ==> ({
                    &&& r == TypeId(0)
                    &&& final(self).error_data.errors@.len() == old(self).error_data.errors@.len() + 1
                    &&& final(self).error_data.errors@.last().span == old(self).ast.expr_spans@[left.0 as int]
                    &&& final(self).error_data.errors@.last().err_type matches ErrType::TyperTypeDoesntHaveMember { typ, member: m }
                        && typ@ == old(self).shown_type(left_type_id) && m@ == member@
                })
                // a labelled element of a tuple behind a reference is a reference to the element
                &&& (!came_from_meta && came_from_ref is Some && (t matches Type::Tup(elems)
                        && first_label_from(elems@, member@, 0) is Some)) ==> ({
                    let elems = t->Tup_0@;
                    let i = first_label_from(elems, member@, 0)->0;
                    &&& r.0 < final(self).type_arena.types@.len()
                    &&& final(self).type_arena.types@[r.0 as int] == (Type::Borrow { inner: elems[i].typ,
                            mutable: (came_from_ref->0).0, borrows_var: (came_from_ref->0).1 })
                    &&& final(self).error_data == old(self).error_data
                    &&& final(self).typed_ast.resolved_member_access@ == old(self).typed_ast.resolved_member_access@
                            .push((member_expr, ResolvedMemberAccess::TupleRefIndex { index: i as usize }))
                })
                // nothing more is reported of the error type
                &&& t is Error ==> r == TypeId(0) && *final(self) == *old(self)
                // an evaluated constant of the custom type's `impl` is used, with the value as first argument
                &&& (!came_from_meta && t is CustomType && old(self).check_impl_const_of(t, member@) is Some) ==> ({
                    &&& final(self).error_data == old(self).error_data
                    &&& final(self).typed_ast.resolved_member_access@.len() == old(self).typed_ast.resolved_member_access@.len() + 1
                    &&& final(self).typed_ast.resolved_member_access@.last().0 == member_expr
                    &&& final(self).typed_ast.resolved_member_access@.last().1 matches
                            ResolvedMemberAccess::MemberWithSelfSugar { self_sugar_expr, .. } && self_sugar_expr == left
                })
            })),
        decreases fuel,
    {
        if fuel == 0 {
            return TypeId::error_type();
        }
        let f = fuel - 1;
        let ast = self.ast;
        let (left, member) = match ast.get_expr(member_expr) {
            Expr::MemberAccess { left, member } => (*left, member),
            _ => { return TypeId::error_type(); },
        };
        let left_span = ast.get_expr_span(left);
        let left_type = self.prune_type_once_infer_err(left_type_id, left_span);

        // the special types first
        match &left_type {
            Type::Tup(_) | Type::TupArr(_, _) => {
                if !came_from_meta {
                    // `(1, 2).0` or `(x: 1, y: 2).y`
                    proof {
                        if left_type is Tup && old(self).type_of(left_type_id) is Tup {
                            lemma_first_label_matching(left_type->Tup_0@, old(self).type_of(left_type_id)->Tup_0@, member@, 0);
                        }
                    }
                    match extract_tup_label_type(&left_type, member.as_str()) {
                        Some((index, elem_type)) => {
                            return match came_from_ref {
                                Some((mutable, borrows_var)) => {
                                    self.typed_ast.resolved_member_access.push((member_expr, ResolvedMemberAccess::TupleRefIndex { index }));
                                    self.add_type(Type::Borrow { inner: elem_type, mutable, borrows_var })
                                },
                                None => {
                                    self.typed_ast.resolved_member_access.push((member_expr, ResolvedMemberAccess::TupleIndex { index }));
                                    elem_type
                                },
                            };
                        },
                        None => {},
                    }
                }
            },
            Type::MetaType => {
                if !came_from_meta {
                    // the member of a type: `E.Variant` or an impl constant
                    let meta_type_id = self.check_annotation_meta_type_id(left, false, f);
                    match self.check_enum_variant(member.as_str(), Some(meta_type_id), None) {
                        Some((_, variant_index, attached_type, refined_type)) => {
                                return if expected_type == Some(TypeId::meta_type()) {
                                // a type is expected: the refined type `Option.Some`
                                let constant = VmValue::Type(refined_type);
                                self.typed_ast.resolved_member_access.push((member_expr, ResolvedMemberAccess::Member { constant }));
                                self.add_type(Type::Borrow { inner: TypeId::meta_type(), mutable: false, borrows_var: None })
                            } else {
                                match self.prune_type_once(attached_type) {
                                    // a variant without data is a value
                                    Type::Void => {
                                        self.typed_ast.resolved_member_access.push((member_expr, ResolvedMemberAccess::EnumWithNoData { i: variant_index }));
                                        refined_type
                                    },
                                    _ => self.error(ErrType::TyperVariantRequiresData { variant: member.clone() }, left_span),
                                }
                            };
                        },
                        None => {},
                    }
                    return self.check_member_access(meta_type_id, member_expr, None, true, expected_type, f);
                }
            },
            Type::Error => { return TypeId::error_type(); },
            _ => {},
        }

        // then the type's impl constants
        match self.check_type_impl_const(&left_type, member.as_str()) {
            Some(member_var) => {
                let constant = match &self.typed_ast.vars[member_var.0].const_val {
                    TypeVarConstVal::Evaluated(v) => v.copy_value(usize::MAX),
                    _ => VmValue::Empty,
                };
                let resolved = if came_from_meta {
                    // `int.square(5)`
                    ResolvedMemberAccess::Member { constant }
                } else {
                    // `5.square()` passes `5` as the first argument
                    ResolvedMemberAccess::MemberWithSelfSugar { constant, self_sugar_expr: left }
                };
                self.typed_ast.resolved_member_access.push((member_expr, resolved));
                return self.make_var_id_ref(member_var, false);
            },
            None => {},
        }

        // and the types inside
        match left_type {
            Type::CustomType(custom_id, custom_inner) => {
                let resolved = self.check_member_access(custom_inner, member_expr, came_from_ref, came_from_meta, expected_type, f);
                self.member_access_wrapping(resolved, custom_id, custom_inner)
            },
            Type::Borrow { inner, mutable, borrows_var } => {
                self.check_member_access(inner, member_expr, Some((mutable, borrows_var)), came_from_meta, expected_type, f)
            },
            Type::EnumVariant { inner, .. } => {
                self.check_member_access(inner, member_expr, came_from_ref, came_from_meta, expected_type, f)
            },
            _ => {
                let typ = self.fmt_type(left_type_id);
                self.error(ErrType::TyperTypeDoesntHaveMember { typ, member: member.clone() }, left_span)
            },
        }
    }

    /// The evaluated constant `member` of the `impl` of the custom type `typ`, if there is one.
    pub open spec fn check_impl_const_of(&self, typ: Type, member: Seq<char>) -> Option<TypeVarId> {
        match typ {
            Type::CustomType(c, _) => if c.0 < self.custom_types@.len() {
                match crate::typing::type_vars::scope_lookup(self.custom_types@[c.0 as int].impls.scope@, member) {
                    Some(v) => if v.0 < self.typed_ast.vars@.len() && self.typed_ast.vars@[v.0 as int].const_val is Evaluated {
                        Some(v)
                    } else {
                        None
                    },
                    None => None,
                }
            } else {
                None
            },
            _ => None,
        }
    }

    /// The impl constant `member` of a custom type, if it has one and it was evaluated.
    fn check_type_impl_const(&self, typ: &Type, member: &str) -> (r: Option<TypeVarId>)
        ensures
            r matches Some(v) ==> v.0 < self.typed_ast.vars@.len(),
            r == self.check_impl_const_of(*typ, member@),
    {
        match typ {
            Type::CustomType(custom_id, _) => {
                if custom_id.0 < self.custom_types.len() {
                    match self.custom_types[custom_id.0].impls.get(member) {
                        Some(v) => {
                            if v.0 < self.typed_ast.vars.len() {
                                match self.typed_ast.vars[v.0].const_val {
                                    TypeVarConstVal::Evaluated(_) => Some(v),
                                    _ => None,
                                }
                            } else {
                                None
                            }
                        },
                        None => None,
                    }
                } else {
                    None
                }
            },
            _ => None,
        }
    }

    /// A member found inside a custom type that gives the inner type gives the custom type
    /// again; in a function type, each such parameter and the return type do.
    fn member_access_wrapping(&mut self, resolved_type: TypeId, custom_id: CustomTypeId, custom_inner: TypeId) -> (r: TypeId)
        requires
            old(self).inv(),
        ensures
            final(self).keeps(old(self)),
            old(self).types_equivalent(custom_inner, resolved_type, 64) ==> r.0 < final(self).type_arena.types@.len()
                && final(self).type_arena.types@[r.0 as int] == Type::CustomType(custom_id, resolved_type),
            !old(self).types_equivalent(custom_inner, resolved_type, 64) && !(old(self).type_of(resolved_type) is Fn) ==>
                r == resolved_type && *final(self) == *old(self),
            !old(self).types_equivalent(custom_inner, resolved_type, 64) && old(self).type_of(resolved_type) is Fn ==>
                r.0 < final(self).type_arena.types@.len()
                && crate::typing::checker::same_shape(old(self).type_of(resolved_type), final(self).type_arena.types@[r.0 as int]),
    {
        if self.are_types_equivalent(custom_inner, resolved_type, 64) {
            return self.add_type(Type::CustomType(custom_id, resolved_type));
        }
        match self.prune_type_once(resolved_type) {
            Type::Fn { param_types, return_type } => {
                let new_return = if self.are_types_equivalent(custom_inner, return_type, 64) {
                    self.add_type(Type::CustomType(custom_id, return_type))
                } else {
                    return_type
                };
                let mut new_params: Vec<TypeId> = Vec::new();
                let mut i: usize = 0;
                while i < param_types.len()
                    invariant
                        self.keeps(old(self)),
                        0 <= i <= param_types@.len(),
                        new_params@.len() == i,
                    decreases param_types@.len() - i,
                {
                    let p = param_types[i];
                    let wrapped = if self.are_types_equivalent(custom_inner, p, 64) {
                        self.add_type(Type::CustomType(custom_id, p))
                    } else {
                        p
                    };
                    new_params.push(wrapped);
                    i = i + 1;
                }
                self.add_type(Type::Fn { param_types: new_params, return_type: new_return })
            },
            _ => resolved_type,
        }
    }

    /// The variant `variant_name` of the enum that `expected_type` is (through custom types and
    /// refinements): its enum, index, data type and the refined type. Errors are only reported
    /// where `err_span` is given.
    pub(crate) fn check_enum_variant(&mut self, variant_name: &str, expected_type: Option<TypeId>, err_span: Option<Span>)
        -> (r: Option<(EnumId, usize, TypeId, TypeId)>)
        requires
            old(self).inv(),
        ensures
            final(self).keeps(old(self)),
            err_span is None ==> final(self).error_data == old(self).error_data,
            expected_type is None ==> r is None,
            r matches Some((e, v, attached, _)) ==> e.0 < final(self).typed_ast.enum_defs@.len()
                && v < final(self).typed_ast.enum_defs@[e.0 as int].variants@.len()
                && final(self).typed_ast.enum_defs@[e.0 as int].variants@[v as int].0@ == variant_name@
                && final(self).typed_ast.enum_defs@[e.0 as int].variants@[v as int].1 == attached,
            expected_type is None && err_span is Some ==> final(self).error_data.errors@ == old(self).error_data.errors@.push(
                crate::ProgramError { span: err_span->0, err_type: ErrType::TyperRequiresTypeAnnotation }),
            // a variant of the enum that the expected type wraps is found, and refines that type
            expected_type is Some && old(self).wrapped_enum(expected_type->0, old(self).type_arena.types@.len()) is Ok
                && ({
                    let e = old(self).wrapped_enum(expected_type->0, old(self).type_arena.types@.len())->Ok_0;
                    e.0 < old(self).typed_ast.enum_defs@.len()
                    && exists|k: int| 0 <= k < old(self).typed_ast.enum_defs@[e.0 as int].variants@.len()
                        && (#[trigger] old(self).typed_ast.enum_defs@[e.0 as int].variants@[k]).0@ == variant_name@
                })
                ==> ({
                    let t = expected_type->0;
                    let e = old(self).wrapped_enum(t, old(self).type_arena.types@.len())->Ok_0;
                    r matches Some((e2, v, _, refined)) && e2 == e && refined.0 < final(self).type_arena.types@.len()
                        && final(self).type_arena.types@[refined.0 as int] == Type::EnumVariant { inner: t, variant: v }
                }),
            r matches Some((e, _, _, _)) ==> expected_type matches Some(t)
                && old(self).wrapped_enum(t, old(self).type_arena.types@.len()) == Ok::<EnumId, Type>(e),
    {
        // `:Variant` needs the enum type
        let expected = match expected_type {
            Some(t) => t,
            None => {
                match err_span {
                    Some(span) => { self.error(ErrType::TyperRequiresTypeAnnotation, span); },
                    None => {},
                }
                return None;
            },
        };
        match self.get_wrapped_enum_id(expected) {
            Ok(enum_id) => {
                if enum_id.0 >= self.typed_ast.enum_defs.len() {
                    return None;
                }
                match variant_index(&self.typed_ast.enum_defs[enum_id.0], variant_name) {
                    Some(variant) => {
                        let attached_type = self.typed_ast.enum_defs[enum_id.0].variants[variant].1;
                        // refine the type: `Option` becomes `Option.Some`
                        let refine_type = self.add_type(Type::EnumVariant { inner: expected, variant });
                        Some((enum_id, variant, attached_type, refine_type))
                    },
                    None => {
                        match err_span {
                            Some(span) => {
                                let enum_text = self.fmt_type(expected);
                                self.error(ErrType::TyperEnumDoesntHaveVariant { enum_: enum_text, variant: variant_name.to_string() }, span);
                            },
                            None => {},
                        }
                        None
                    },
                }
            },
            Err(typ) => {
                match (typ, err_span) {
                    (Type::Error, _) => {},
                    (_, Some(span)) => {
                        let typ_text = self.fmt_type(expected);
                        self.error(ErrType::TyperExpectedTypeIsntAnEnum { typ: typ_text }, span);
                    },
                    _ => {},
                }
                None
            },
        }
    }

    /// `T{ data }`: a custom type made of `data`, or a refined enum variant with `data`.
    fn check_type_instantiation(&mut self, check_expr: ExprId, typ: ExprId, data: ExprId, span: Span, is_never: &mut bool,
        ctx: CheckExprCtx, fuel: u64) -> (r: TypeId)
        requires
            old(self).inv(),
            typ.0 < old(self).ast.exprs@.len(),
            data.0 < old(self).ast.exprs@.len(),
        ensures
            final(self).keeps(old(self)),
            // once there are errors the type can't be evaluated: the instance has the error type
            old(self).error_data.errors@.len() > 0 ==> r == TypeId(0),
        decreases fuel,
    {
        if fuel == 0 {
            return TypeId::error_type();
        }
        let f = fuel - 1;
        let meta_id = self.check_annotation_meta_type_id(typ, true, f);
        match self.prune_type_once_infer_err(meta_id, span) {
            Type::EnumVariant { inner, variant } => {
                // a refined constructor: `type X = Opt.Some; X{ 3 }`
                match self.get_wrapped_enum_id(inner) {
                    Ok(enum_id) => {
                        if enum_id.0 < self.typed_ast.enum_defs.len() && variant < self.typed_ast.enum_defs[enum_id.0].variants.len() {
                            let attached_type = self.typed_ast.enum_defs[enum_id.0].variants[variant].1;
                            self.check_instantiation_payload(check_expr, attached_type, data, span, is_never, ctx, f);
                            self.typed_ast.resolved_type_instantiation.push((check_expr, ResolvedTypeInstantiation::EnumVariant(variant)));
                        }
                    },
                    Err(_) => {},
                }
                meta_id
            },
            Type::CustomType(custom_id, inner_new_type) => {
                let inner = self.check_instantiation_payload(check_expr, inner_new_type, data, span, is_never, ctx, f);
                // `N{ 2 }` has the type `N`
                self.add_type(Type::CustomType(custom_id, inner))
            },
            Type::Error => TypeId::error_type(),
            _ => {
                let typ_text = self.fmt_type(meta_id);
                let typ_span = self.ast.get_expr_span(typ);
                self.error(ErrType::TyperMustBeCustomtypeType { typ: typ_text }, typ_span)
            },
        }
    }

    /// The data of `T{ data }` for an instance of type `instance_type`: a tuple type takes the
    /// tuple; any other type takes exactly one unlabelled element.
    fn check_instantiation_payload(&mut self, check_expr: ExprId, instance_type: TypeId, data: ExprId, span: Span, is_never: &mut bool,
        ctx: CheckExprCtx, fuel: u64) -> (r: TypeId)
        requires
            old(self).inv(),
            data.0 < old(self).ast.exprs@.len(),
        ensures
            final(self).keeps(old(self)),
            old(self).type_of(instance_type) is Error ==> r == TypeId(0),
            // a type still to be inferred can't be instantiated
            fuel > 0 && old(self).type_of(instance_type) is Infer ==> r == TypeId(0)
                && final(self).error_data.errors@.len() == old(self).error_data.errors@.len() + 1
                && final(self).error_data.errors@.last().err_type is TyperTypeMustBeKnownHere,
            // a type that is no tuple takes its value as the one element of a tuple
            fuel > 0 && !(old(self).type_of(instance_type) is Error || old(self).type_of(instance_type) is Infer
                || old(self).type_of(instance_type) is Tup || old(self).type_of(instance_type) is TupArr)
                && !(old(self).ast.exprs@[data.0 as int] is Tuple) ==> r == TypeId(0)
                && final(self).error_data.errors@ == old(self).error_data.errors@.push(
                    crate::ProgramError { span, err_type: ErrType::TyperNewTypesExpectOneUnlabeledExpr }),
        decreases fuel,
    {
        if fuel == 0 {
            return TypeId::error_type();
        }
        let f = fuel - 1;
        let ast = self.ast;
        match self.prune_type_once_infer_err(instance_type, span) {
            Type::Error => TypeId::error_type(),
            Type::Tup(_) | Type::TupArr(_, _) => {
                // `type Point = (int, int); Point{ 1, 2 }`: the data is the tuple
                self.typed_ast.resolved_type_instantiation.push((check_expr, ResolvedTypeInstantiation::Tuple));
                self.check_expression(data, is_never, ctx.expect(instance_type), f)
            },
            _ => {
                // `type N = int; N{ 3 }`: the one element is the value
                match ast.get_expr(data) {
                    Expr::Tuple { elems } => {
                        if elems.len() == 1 && crate::text::str_eq(elems[0].label.as_str(), "0") {
                            self.typed_ast.resolved_type_instantiation.push((check_expr, ResolvedTypeInstantiation::NewType));
                            self.check_expression(elems[0].expr, is_never, ctx.expect(instance_type), f)
                        } else {
                            self.error(ErrType::TyperNewTypesExpectOneUnlabeledExpr, span)
                        }
                    },
                    _ => self.error(ErrType::TyperNewTypesExpectOneUnlabeledExpr, span),
                }
            },
        }
    }

    /// Defines the constants, custom types and functions of a block before the block is checked,
    /// then checks each of them that no other one checked first. Outside a block (in `impl`) only
    /// those are allowed.
    pub(crate) fn hoisting_pass(&mut self, exprs: &Vec<ExprId>, allow_non_const: bool, fuel: u64)
        requires
            old(self).inv(),
            forall|k: int| 0 <= k < exprs@.len() ==> (#[trigger] exprs@[k]).0 < old(self).ast.exprs@.len(),
        ensures
            final(self).keeps(old(self)),
            // outside a block, a value that is neither a constant nor a custom type is refused
            fuel > 0 && !allow_non_const && (exists|k: int| 0 <= k < exprs@.len()
                && !(old(self).ast.exprs@[(#[trigger] exprs@[k]).0 as int] is Const)
                && !(old(self).ast.exprs@[exprs@[k].0 as int] is CustomType)) ==>
                exists|m: int| old(self).error_data.errors@.len() <= m < final(self).error_data.errors@.len()
                    && (#[trigger] final(self).error_data.errors@[m]).err_type is TyperRuntimeValuesArentAllowedInImplBlocks,
        decreases fuel,
    {
        if fuel == 0 {
            return;
        }
        let f = fuel - 1;
        let ast = self.ast;
        // 1. define every constant as not yet checked
        let mut i: usize = 0;
        while i < exprs.len()
            invariant
                f < fuel,
                self.keeps(old(self)),
                ast == old(self).ast,
                0 <= i <= exprs@.len(),
                forall|k: int| 0 <= k < exprs@.len() ==> (#[trigger] exprs@[k]).0 < old(self).ast.exprs@.len(),
                !allow_non_const && (exists|k: int| 0 <= k < i
                    && !(old(self).ast.exprs@[(#[trigger] exprs@[k]).0 as int] is Const)
                    && !(old(self).ast.exprs@[exprs@[k].0 as int] is CustomType)) ==>
                    exists|m: int| old(self).error_data.errors@.len() <= m < self.error_data.errors@.len()
                        && (#[trigger] self.error_data.errors@[m]).err_type is TyperRuntimeValuesArentAllowedInImplBlocks,
            decreases exprs@.len() - i,
        {
            let expr = exprs[i];
            let expr_span = ast.get_expr_span(expr);
            let ghost pre = *self;
            match ast.get_expr(expr) {
                Expr::Const { pattern, value } => {
                    let state = TypeVarConstVal::NotYetTypechecked { value: *value, bind_to: PatternOrVarId::Pattern(*pattern, DefineVarScope::CurrScope) };
                    self.mark_vars_in_pattern_as_const(*pattern, &state, 64);
                },
                Expr::CustomType { name, value } => {
                    let var_id = TypeVarId(self.typed_ast.vars.len());
                    let state = TypeVarConstVal::NotYetTypechecked { value: *value, bind_to: PatternOrVarId::CustomTypeVarId(var_id) };
                    self.define_variable(name.as_str(), TypeId::meta_type(), true, expr_span, DefineVarMode::Const(state));
                },
                _ => {
                    if !allow_non_const {
                        self.error(ErrType::TyperRuntimeValuesArentAllowedInImplBlocks, expr_span);
                        assert(self.error_data.errors@[pre.error_data.errors@.len() as int].err_type
                            is TyperRuntimeValuesArentAllowedInImplBlocks);
                    }
                },
            }
            proof {
                if !allow_non_const && (exists|k: int| 0 <= k < i
                    && !(old(self).ast.exprs@[(#[trigger] exprs@[k]).0 as int] is Const)
                    && !(old(self).ast.exprs@[exprs@[k].0 as int] is CustomType)) {
                    let m = choose|m: int| old(self).error_data.errors@.len() <= m < pre.error_data.errors@.len()
                        && (#[trigger] pre.error_data.errors@[m]).err_type is TyperRuntimeValuesArentAllowedInImplBlocks;
                    assert(self.error_data.errors@[m] == pre.error_data.errors@[m]);
                }
            }
            i = i + 1;
        }

        // 2. check each one that is still unchecked; one that depends on another checks that first
        let ghost mid = *self;
        let ghost refused = !allow_non_const && (exists|k: int| 0 <= k < exprs@.len()
            && !(old(self).ast.exprs@[(#[trigger] exprs@[k]).0 as int] is Const)
            && !(old(self).ast.exprs@[exprs@[k].0 as int] is CustomType));
        let n_scopes = self.var_scopes.len();
        if n_scopes == 0 {
            return;
        }
        let n_vars = self.var_scopes[n_scopes - 1].scope.len();
        let mut k: usize = 0;
        while k < n_vars
            invariant
                f < fuel,
                self.keeps(old(self)),
                0 <= k <= n_vars,
                self.error_data.errors@.len() >= mid.error_data.errors@.len(),
                forall|m: int| 0 <= m < mid.error_data.errors@.len() ==>
                    #[trigger] self.error_data.errors@[m] == mid.error_data.errors@[m],
            decreases n_vars - k,
        {
            let n = self.var_scopes.len();
            if n > 0 && k < self.var_scopes[n - 1].scope.len() {
                let var_id = self.var_scopes[n - 1].scope[k].1;
                if var_id.0 < self.typed_ast.vars.len() {
                    let state = self.typed_ast.vars[var_id.0].const_val.copy_const_val();
                    match state {
                        TypeVarConstVal::NotYetTypechecked { value, bind_to } => {
                            self.check_evaluate_and_bind_const(value, bind_to, f);
                        },
                        _ => {},
                    }
                }
            }
            k = k + 1;
        }
        proof {
            if refused {
                let m = choose|m: int| old(self).error_data.errors@.len() <= m < mid.error_data.errors@.len()
                    && (#[trigger] mid.error_data.errors@[m]).err_type is TyperRuntimeValuesArentAllowedInImplBlocks;
                assert(self.error_data.errors@[m] == mid.error_data.errors@[m]);
            }
        }
    }

    /// `pattern = value` (or `let pattern`, or `value is pattern`): the value is checked against
    /// the pattern's annotation, then the pattern against the value's type. A pattern that might
    /// not match is an error unless `can_fail`; one that binds variables is an error unless
    /// `can_bind_vars`. For a constant, `const_update` is its state once checked.
    pub(crate) fn check_assign_pattern_and_value(&mut self, pattern: PatternId, value: Option<ExprId>, is_never: &mut bool,
        can_bind_vars: bool, can_fail: bool, fully_deref_value: bool, const_update: Option<TypeVarConstVal>, fuel: u64) -> (r: TypeId)
        requires
            old(self).inv(),
            pattern.0 < old(self).ast.patterns@.len(),
            value matches Some(v) ==> v.0 < old(self).ast.exprs@.len(),
        ensures
            final(self).keeps(old(self)),
            // a binding where none may stand is refused
            fuel > 1 && old(self).ast.patterns@[pattern.0 as int] is Binding && !can_bind_vars ==>
                final(self).error_data.errors@.len() > old(self).error_data.errors@.len()
                && final(self).error_data.errors@.last() == (crate::ProgramError {
                    span: old(self).ast.pattern_spans@[pattern.0 as int], err_type: ErrType::TyperInvalidBindingIsExpr }),
            // a pattern that can fail where it may not is refused
            fuel > 1 && old(self).ast.patterns@[pattern.0 as int] is Conditional && !can_fail ==>
                exists|m: int| old(self).error_data.errors@.len() <= m < final(self).error_data.errors@.len()
                    && (#[trigger] final(self).error_data.errors@[m]).err_type is TyperFailableAssignPattern,
        decreases fuel,
    {
        if fuel == 0 {
            return TypeId::error_type();
        }
        let f = fuel - 1;
        let explicit_type = self.get_pattern_type(pattern, f);
        let mut pattern_type = explicit_type;
        match value {
            Some(val) => {
                let mut ctx = CheckExprCtx::new().maybe_expect(pattern_type);
                if const_update.is_some() {
                    ctx = ctx.is_const();
                }
                if fully_deref_value {
                    ctx = ctx.auto_deref(AutoDerefMode::Fully);
                }
                let check_typ = self.check_expression(val, is_never, ctx, f);
                // the value's type only counts where there is no annotation
                if pattern_type.is_none() {
                    pattern_type = Some(check_typ);
                }
            },
            None => {},
        }
        let mut vars_defined: Vec<String> = Vec::new();
        let (typ, cover) = self.check_match_pattern(pattern, pattern_type, explicit_type.is_some(), value.is_some(),
            &const_update, &mut vars_defined, f);
        let span = self.ast.get_pattern_span(pattern);
        let covered = match pattern_type {
            Some(t) => self.covers_all(&cover, t),
            None => self.covers_all(&cover, TypeId::error_type()),
        };
        let ghost pre = *self;
        if !can_fail && !covered {
            self.error(ErrType::TyperFailableAssignPattern { remaining: "_".to_string() }, span);
        }
        let ghost mid = *self;
        if !can_bind_vars && vars_defined.len() > 0 {
            self.error(ErrType::TyperInvalidBindingIsExpr, span);
        }
        proof {
            if !can_fail && !covered {
                let m = pre.error_data.errors@.len() as int;
                assert(mid.error_data.errors@[m].err_type is TyperFailableAssignPattern);
                assert(self.error_data.errors@[m] == mid.error_data.errors@[m]);
            }
        }
        typ
    }

    /// The type of a function: its parameters' annotations (required for `fn`, else inferred)
    /// and its return annotation (void for `fn` without one, else inferred).
    pub(crate) fn get_fn_type(&mut self, closure: &AstClosure, type_annotation_required: bool, fuel: u64) -> (r: TypeId)
        requires
            old(self).inv(),
            crate::parsing::ast::closure_children_lt(*closure, old(self).ast.exprs@.len(), old(self).ast.patterns@.len()),
        ensures
            final(self).keeps(old(self)),
            // a function type with a parameter type for each parameter
            fuel > 0 ==> r.0 < final(self).type_arena.types@.len()
                && (final(self).type_arena.types@[r.0 as int] matches Type::Fn { param_types, return_type }
                    && param_types@.len() == closure.params@.len()
                    && (closure.return_type is None && type_annotation_required ==> return_type == TypeId(2))),
        decreases fuel,
    {
        if fuel == 0 {
            return TypeId::error_type();
        }
        let f = fuel - 1;
        let mut param_types: Vec<TypeId> = Vec::new();
        let mut i: usize = 0;
        while i < closure.params.len()
            invariant
                f < fuel,
                self.keeps(old(self)),
                0 <= i <= closure.params@.len(),
                param_types@.len() == i,
                crate::parsing::ast::closure_children_lt(*closure, old(self).ast.exprs@.len(), old(self).ast.patterns@.len()),
            decreases closure.params@.len() - i,
        {
            let param = closure.params[i];
            let t = match self.get_pattern_type(param, f) {
                Some(t) => t,
                None => {
                    if type_annotation_required {
                        let param_span = self.ast.get_pattern_span(param);
                        self.error(ErrType::TyperRequiresTypeAnnotation, param_span)
                    } else {
                        self.new_infer_type()
                    }
                },
            };
            param_types.push(t);
            i = i + 1;
        }
        let return_type = match closure.return_type {
            Some(ret) => self.check_annotation_meta_type_id(ret, true, f),
            None => if type_annotation_required { TypeId::void_type() } else { self.new_infer_type() },
        };
        self.add_type(Type::Fn { param_types, return_type })
    }

    /// The body of a function of type `fn_type`: the parameters are bound in a scope of their own,
    /// `return` returns from it, and `break` can't leave it.
    pub(crate) fn check_fn_expression(&mut self, closure: &AstClosure, fn_type: TypeId, fuel: u64) -> (r: TypeId)
        requires
            old(self).inv(),
            crate::parsing::ast::closure_children_lt(*closure, old(self).ast.exprs@.len(), old(self).ast.patterns@.len()),
        ensures
            final(self).keeps(old(self)),
            r == fn_type,
            // only a function type with as many parameters as the closure gets its body checked
            fuel == 0 || !(fn_type.0 < old(self).type_arena.types@.len()
                && (old(self).type_arena.types@[fn_type.0 as int] matches Type::Fn { param_types, .. }
                && param_types@.len() == closure.params@.len())) ==> *final(self) == *old(self),
        decreases fuel,
    {
        if fuel == 0 {
            return fn_type;
        }
        let f = fuel - 1;
        let (param_types, return_type) = match self.type_at(fn_type) {
            Type::Fn { param_types, return_type } => (param_types, return_type),
            _ => { return fn_type; },
        };
        if param_types.len() != closure.params.len() {
            return fn_type;
        }
        self.enter_scope();
        let mut i: usize = 0;
        while i < closure.params.len()
            invariant
                f < fuel,
                self.keeps(old(self)),
                0 <= i <= closure.params@.len(),
                param_types@.len() == closure.params@.len(),
                crate::parsing::ast::closure_children_lt(*closure, old(self).ast.exprs@.len(), old(self).ast.patterns@.len()),
            decreases closure.params@.len() - i,
        {
            let param = closure.params[i];
            let mut bound: Vec<String> = Vec::new();
            let (_, cover) = self.check_match_pattern(param, Some(param_types[i]), true, true, &None, &mut bound, f);
            if !self.covers_all(&cover, param_types[i]) {
                let param_span = self.ast.get_pattern_span(param);
                self.error(ErrType::TyperPatternDoesntCoverAllCases { remaining: "_".to_string() }, param_span);
            }
            i = i + 1;
        }

        // `return` goes to this function; labels outside can't be broken to
        let saved_return = self.curr_function_return_type;
        self.curr_function_return_type = Some(return_type);
        let mut saved_labels: Vec<crate::typing::LabelInfo> = Vec::new();
        std::mem::swap(&mut saved_labels, &mut self.curr_label_infos);

        let mut body_never = false;
        self.check_expression(closure.body, &mut body_never, CheckExprCtx::new().expect(return_type), f);
        self.exit_scope();

        std::mem::swap(&mut saved_labels, &mut self.curr_label_infos);
        self.curr_function_return_type = saved_return;
        fn_type
    }

    /// The type that a type annotation stands for: it is checked as a constant of type `type`
    /// (where `do_check`) and evaluated; the error type where it can't be.
    pub(crate) fn check_annotation_meta_type_id(&mut self, expr: ExprId, do_check: bool, fuel: u64) -> (r: TypeId)
        requires
            old(self).inv(),
            expr.0 < old(self).ast.exprs@.len(),
        ensures
            final(self).keeps(old(self)),
            // nothing is evaluated once there are errors
            fuel == 0 || old(self).error_data.errors@.len() > 0 ==> r == TypeId(0),
            fuel > 1 && !do_check && old(self).error_data.errors@.len() == 0 && old(self).ast.exprs@[expr.0 as int] is EnumDefinition ==>
                r.0 < final(self).type_arena.types@.len() && final(self).type_arena.types@[r.0 as int] is Enum,
        decreases fuel,
    {
        if fuel == 0 {
            return TypeId::error_type();
        }
        let f = fuel - 1;
        if do_check {
            let mut is_never = false;
            let ctx = CheckExprCtx::new().auto_deref(AutoDerefMode::Fully).expect(TypeId::meta_type()).is_const();
            self.check_expression(expr, &mut is_never, ctx, f);
        }
        match self.evaluate_expr(expr, f) {
            Some(VmValue::Type(t)) => t,
            _ => TypeId::error_type(),
        }
    }

    /// Follows references as far as `mode` says, using (copying or moving) what each points to.
    pub(crate) fn handle_deref_mode(&mut self, mode: AutoDerefMode, typ: TypeId, span: Span) -> (r: TypeId)
        requires
            old(self).inv(),
        ensures
            final(self).keeps(old(self)),
            mode == AutoDerefMode::Never ==> r == typ && *final(self) == *old(self),
            r == old(self).deref_result(mode, typ),
            final(self).type_arena == old(self).type_arena,
            final(self).inference_types == old(self).inference_types,
    {
        reveal(TypeChecker::deref_result);
        match mode {
            AutoDerefMode::Never => typ,
            AutoDerefMode::Once => {
                match self.prune_type_once(typ) {
                    Type::Borrow { inner, borrows_var, .. } => {
                        self.check_deref_memory_rules(inner, borrows_var, span);
                        inner
                    },
                    _ => typ,
                }
            },
            AutoDerefMode::LeaveOnePointer | AutoDerefMode::Fully => {
                let leave_one = mode == AutoDerefMode::LeaveOnePointer;
                let mut t = typ;
                let mut steps: usize = 0;
                let bound = self.type_arena.types.len();
                while steps < bound
                    invariant
                        self.keeps(old(self)),
                        mode != AutoDerefMode::Never,
                        mode != AutoDerefMode::Once,
                        leave_one == (mode == AutoDerefMode::LeaveOnePointer),
                        bound == old(self).type_arena.types@.len(),
                        0 <= steps <= bound,
                        self.type_arena == old(self).type_arena,
                        self.inference_types == old(self).inference_types,
                        old(self).deref_result(mode, typ) == old(self).deref_chain(t, leave_one, (bound - steps) as nat),
                    decreases bound - steps,
                {
                    match self.prune_type_once(t) {
                        Type::Borrow { inner, borrows_var, .. } => {
                            if leave_one {
                                match self.prune_type_once(inner) {
                                    Type::Borrow { .. } => {},
                                    _ => { return t; },
                                }
                            }
                            self.check_deref_memory_rules(inner, borrows_var, span);
                            t = inner;
                        },
                        _ => { return t; },
                    }
                    steps = steps + 1;
                }
                t
            },
        }
    }

    /// Where following references from `id`, at most `n` of them, ends: at the first type that is
    /// no reference, or (with `leave_one`) at the last reference.
    pub open spec fn deref_chain(&self, id: TypeId, leave_one: bool, n: nat) -> TypeId
        decreases n,
    {
        if n == 0 {
            id
        } else {
            match self.type_of(id) {
                Type::Borrow { inner, .. } =>
                    if leave_one && !(self.type_of(inner) is Borrow) { id } else { self.deref_chain(inner, leave_one, (n - 1) as nat) },
                _ => id,
            }
        }
    }

    /// The type that a value of type `typ` has once references are followed as `mode` says.
    #[verifier::opaque]
    pub open spec fn deref_result(&self, mode: AutoDerefMode, typ: TypeId) -> TypeId {
        match mode {
            AutoDerefMode::Never => typ,
            AutoDerefMode::Once => match self.type_of(typ) {
                Type::Borrow { inner, .. } => inner,
                _ => typ,
            },
            AutoDerefMode::LeaveOnePointer => self.deref_chain(typ, true, self.type_arena.types@.len()),
            AutoDerefMode::Fully => self.deref_chain(typ, false, self.type_arena.types@.len()),
        }
    }

    /// Using the value behind a reference to variable `borrows_var`: a value of a copy type is
    /// copied, any other is moved out of the variable. Moving out of a reference that belongs to
    /// no known variable is an error. Gives whether it was copied.
    pub(crate) fn check_deref_memory_rules(&mut self, inner: TypeId, borrows_var: Option<TypeVarId>, span: Span) -> (r: bool)
        requires
            old(self).inv(),
        ensures
            final(self).keeps(old(self)),
            r && borrows_var is None ==> final(self).error_data == old(self).error_data,
            !r && borrows_var is None ==> final(self).error_data.errors@.len() == old(self).error_data.errors@.len() + 1
                && final(self).error_data.errors@.last().err_type is TyperCantDerefUnknownPointerType,
            r == old(self).copy_type(inner, 64),
            final(self).type_arena == old(self).type_arena,
            final(self).inference_types == old(self).inference_types,
    {
        let copy = self.is_copy_type(inner, 64);
        match borrows_var {
            Some(var) => {
                if copy {
                    self.clone_variable(var, span);
                } else {
                    self.move_variable(var, span);
                }
            },
            None => {
                if !copy {
                    self.error(ErrType::TyperCantDerefUnknownPointerType, span);
                }
            },
        }
        copy
    }

    /// The value as the expected type takes it: where a type is expected, a tuple of types is one;
    /// where something other than a reference is expected, references are followed.
    pub(crate) fn coerce_to_expected_type(&mut self, typ: TypeId, expected: TypeId, span: Span) -> (r: TypeId)
        requires
            old(self).inv(),
        ensures
            final(self).keeps(old(self)),
            old(self).type_of(expected) is MetaType && old(self).tuple_of_types(typ) ==> r == TypeId(3)
                && *final(self) == *old(self),
            !(old(self).type_of(expected) is MetaType && old(self).tuple_of_types(typ))
                && (old(self).type_of(expected) is Borrow || old(self).type_of(expected) is Infer
                    || old(self).type_of(expected) is Error || !(old(self).type_of(typ) is Borrow))
                ==> r == typ && *final(self) == *old(self),
            !(old(self).type_of(expected) is MetaType && old(self).tuple_of_types(typ))
                && !(old(self).type_of(expected) is Borrow || old(self).type_of(expected) is Infer
                    || old(self).type_of(expected) is Error) && old(self).type_of(typ) is Borrow
                ==> r == old(self).deref_result(AutoDerefMode::Fully, typ),
    {
        let expected_type = self.prune_type_once(expected);
        match expected_type {
            Type::MetaType => {
                if self.is_tuple_of_types(typ) {
                    return TypeId::meta_type();
                }
            },
            _ => {},
        }
        match expected_type {
            Type::Borrow { .. } | Type::Infer(_) | Type::Error => typ,
            _ => {
                match self.prune_type_once(typ) {
                    Type::Borrow { .. } => self.handle_deref_mode(AutoDerefMode::Fully, typ, span),
                    _ => typ,
                }
            },
        }
    }

    /// A tuple all of whose elements are types, or a tuple array of types.
    #[verifier::opaque]
    pub open spec fn tuple_of_types(&self, typ: TypeId) -> bool {
        match self.type_of(typ) {
            Type::Tup(elems) => forall|j: int| 0 <= j < elems@.len() ==> self.type_of(#[trigger] elems@[j].typ) is MetaType,
            Type::TupArr(inner, _) => self.type_of(inner) is MetaType,
            _ => false,
        }
    }

    /// A tuple (or tuple array) all of whose elements are types.
    fn is_tuple_of_types(&self, typ: TypeId) -> (r: bool)
        requires
            self.inv(),
        ensures
            r == self.tuple_of_types(typ),
    {
        reveal(TypeChecker::tuple_of_types);
        match self.prune_type_once(typ) {
            Type::Tup(elems) => {
                let mut i: usize = 0;
                while i < elems.len()
                    invariant
                        self.inv(),
                        0 <= i <= elems@.len(),
                        self.type_of(typ) matches Type::Tup(te) && crate::typing::type_arena::tuple_elems_match(elems@, te@),
                        forall|j: int| 0 <= j < i ==> self.type_of(#[trigger] elems@[j].typ) is MetaType,
                    decreases elems@.len() - i,
                {
                    match self.prune_type_once(elems[i].typ) {
                        Type::MetaType => {},
                        _ => {
                            proof {
                                reveal(TypeChecker::tuple_of_types);
                                let te = self.type_of(typ)->Tup_0;
                                assert(te@[i as int].typ == elems@[i as int].typ);
                                assert(!(self.type_of(te@[i as int].typ) is MetaType));
                            }
                            return false;
                        },
                    }
                    i = i + 1;
                }
                proof {
                    reveal(TypeChecker::tuple_of_types);
                    let te = self.type_of(typ)->Tup_0;
                    assert forall|j: int| 0 <= j < te@.len() implies self.type_of(#[trigger] te@[j].typ) is MetaType by {
                        assert(te@[j].typ == elems@[j].typ);
                    }
                }
                true
            },
            Type::TupArr(inner, _) => match self.prune_type_once(inner) {
                Type::MetaType => true,
                _ => false,
            },
            _ => false,
        }
    }
}

/// The self-sugar argument of the last resolution of `e` among the first `n` member-access
/// resolutions, if that one has it.
pub open spec fn self_sugar_in(ram: Seq<(ExprId, ResolvedMemberAccess)>, e: ExprId, n: int) -> Option<ExprId>
    decreases n,
{
    if n <= 0 || n > ram.len() {
        None
    } else if ram[n - 1].0 == e {
        match ram[n - 1].1 {
            ResolvedMemberAccess::MemberWithSelfSugar { self_sugar_expr, .. } => Some(self_sugar_expr),
            _ => None,
        }
    } else {
        self_sugar_in(ram, e, n - 1)
    }
}

/// A type that has no members: numbers, booleans, strings, `void`, `never`, enums and functions.
pub open spec fn has_no_members(t: Type) -> bool {
    t is NumInt || t is NumFloat || t is Bool || t is Str || t is Void || t is Never || t is Enum || t is Fn
}

/// The type of a literal: `int`, `float`, `str` or `bool`.
pub open spec fn literal_type_id(val: AstValue) -> TypeId {
    match val {
        AstValue::NumInt(_) => TypeId(4),
        AstValue::NumFloat(_) => TypeId(5),
        AstValue::Str(_) => TypeId(7),
        AstValue::Bool(_) => TypeId(6),
    }
}

/// `==`, `>`, `<`, `&&` and `||`, which give a `bool`.
pub open spec fn is_comparison_op(op: TokenKind) -> bool {
    op == TokenKind::EqualEqual || op == TokenKind::Greater || op == TokenKind::Less || op == TokenKind::And || op == TokenKind::Or
}

/// `+`, `-`, `*`, `/` and `%`, which need numbers.
pub open spec fn is_arithmetic_op(op: TokenKind) -> bool {
    op == TokenKind::Op(AssignOp::Plus) || op == TokenKind::Op(AssignOp::Minus) || op == TokenKind::Op(AssignOp::Star)
        || op == TokenKind::Op(AssignOp::Slash) || op == TokenKind::Op(AssignOp::Percent)
}

/// A type that is neither a custom type nor an unresolved inference variable.
pub open spec fn is_plain_type(t: Type) -> bool {
    !(t is CustomType) && !(t is Infer)
}

/// From `old` to `new`, exactly one error was added: the mismatch of `found` against `expected` at `span`.
pub open spec fn mismatch_added(old: TypeChecker, new: TypeChecker, expected: TypeId, found: TypeId, span: Span) -> bool {
    &&& new.error_data.errors@.len() == old.error_data.errors@.len() + 1
    &&& new.error_data.errors@.last().span == span
    &&& new.error_data.errors@.last().err_type matches ErrType::TyperMismatch { expected: e, found: f }
        && e@ == old.shown_type(expected) && f@ == old.shown_type(found)
}

/// All elements of the tuple type have the same type.
pub fn all_elems_same_type(elems: &Vec<TypeTuple>) -> (r: bool)
    requires
        elems@.len() > 0,
    ensures
        r == forall|k: int| 0 <= k < elems@.len() ==> (#[trigger] elems@[k]).typ == elems@[0].typ,
{
    let first = elems[0].typ;
    let mut i: usize = 1;
    while i < elems.len()
        invariant
            1 <= i <= elems@.len(),
            first == elems@[0].typ,
            forall|k: int| 0 <= k < i ==> (#[trigger] elems@[k]).typ == first,
        decreases elems@.len() - i,
    {
        if elems[i].typ.0 != first.0 {
            return false;
        }
        i = i + 1;
    }
    true
}

} // verus!
