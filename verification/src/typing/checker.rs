use vstd::prelude::*;
use crate::{ErrType, ProgramError, ProgramErrorData, WarnType};
use crate::lexing::tokens::Span;
use crate::parsing::ast::{AstArena, ExprId};
use crate::text::{push_str, spec_decimal, usize_to_string};
use crate::typing::{CustomTypeId, EnumId, ResolvedMemberAccess, ResolvedTypeInstantiation, Type, TypeId, TypeInferId, TypeTuple, TypeVarId};
use crate::typing::type_arena::{TypeArena, clone_type, copy_ids};
use crate::typing::type_vars::{TypeVar, TypeVarIsUsed, TypeVarMemState, TypeVarScope};
use crate::typing::check_expressions::CheckExprCtx;

verus! {

/// The definition of an enum: each variant's name and the type of the data it carries
/// (`Void` for none).
pub struct EnumDefinition {
    pub variants: Vec<(String, TypeId)>,
}

/// A loop or labelled block that `break` and `continue` can refer to.
pub struct LabelInfo {
    pub label: String,
    pub expr: ExprId,
    pub typ: TypeId,
    pub break_snapshots: Vec<Option<Vec<(TypeVarId, TypeVarMemState)>>>,
}

/// A type made with `type X = ...`, with the constants of its `impl` blocks.
pub struct CustomType {
    pub name: String,
    pub impls: TypeVarScope,
}

#[derive(Clone, Copy, PartialEq, Eq, Debug, Structural)]
pub enum UnifyMode {
    /// For assignments and arguments: `Option` takes an `Option.Some`, but not the other way round.
    Subtype,
    /// `Option.Some` and `Option` give `Option`.
    FindParentType,
}

/// What the type checker finds out: the type of each expression, the enums and the variables.
pub struct TypedAst {
    /// indexed with `ExprId`
    pub expr_types: Vec<TypeId>,
    /// indexed with `EnumId`
    pub enum_defs: Vec<EnumDefinition>,
    /// indexed with `TypeVarId`
    pub vars: Vec<TypeVar>,
    /// the variable each identifier expression refers to (indexed with `ExprId`)
    pub expr_vars: Vec<Option<TypeVarId>>,
    /// the variable each binding pattern defines (indexed with `PatternId`)
    pub pattern_vars: Vec<Option<TypeVarId>>,
    /// what each member access expression was resolved to (the latest entry counts)
    pub resolved_member_access: Vec<(ExprId, ResolvedMemberAccess)>,
    /// what each type instantiation expression makes (the latest entry counts)
    pub resolved_type_instantiation: Vec<(ExprId, ResolvedTypeInstantiation)>,
}

impl TypedAst {
    /// Every one of the `ast_exprs` expressions has the error type until checked, and no
    /// expression or pattern refers to a variable yet.
    pub fn new(ast_exprs: usize, ast_patterns: usize) -> (r: Self)
        ensures
            r.expr_types@.len() == ast_exprs,
            forall|i: int| 0 <= i < ast_exprs ==> #[trigger] r.expr_types@[i] == TypeId(0),
            r.expr_vars@.len() == ast_exprs,
            forall|i: int| 0 <= i < ast_exprs ==> #[trigger] r.expr_vars@[i] == None::<TypeVarId>,
            r.pattern_vars@.len() == ast_patterns,
            forall|i: int| 0 <= i < ast_patterns ==> #[trigger] r.pattern_vars@[i] == None::<TypeVarId>,
            r.enum_defs@.len() == 0,
            r.vars@.len() == 0,
            r.resolved_member_access@.len() == 0,
            r.resolved_type_instantiation@.len() == 0,
    {
        let mut expr_types: Vec<TypeId> = Vec::new();
        let mut expr_vars: Vec<Option<TypeVarId>> = Vec::new();
        let mut i: usize = 0;
        while i < ast_exprs
            invariant
                0 <= i <= ast_exprs,
                expr_types@.len() == i,
                expr_vars@.len() == i,
                forall|k: int| 0 <= k < i ==> #[trigger] expr_types@[k] == TypeId(0),
                forall|k: int| 0 <= k < i ==> #[trigger] expr_vars@[k] == None::<TypeVarId>,
            decreases ast_exprs - i,
        {
            expr_types.push(TypeId(0));
            expr_vars.push(None);
            i = i + 1;
        }
        let mut pattern_vars: Vec<Option<TypeVarId>> = Vec::new();
        let mut j: usize = 0;
        while j < ast_patterns
            invariant
                0 <= j <= ast_patterns,
                pattern_vars@.len() == j,
                forall|k: int| 0 <= k < j ==> #[trigger] pattern_vars@[k] == None::<TypeVarId>,
            decreases ast_patterns - j,
        {
            pattern_vars.push(None);
            j = j + 1;
        }
        TypedAst { expr_types, enum_defs: Vec::new(), vars: Vec::new(), expr_vars, pattern_vars,
            resolved_member_access: Vec::new(), resolved_type_instantiation: Vec::new() }
    }

    pub fn get_expr_type(&self, id: ExprId) -> (r: TypeId)
        requires
            id.0 < self.expr_types@.len(),
        ensures
            r == self.expr_types@[id.0 as int],
    {
        self.expr_types[id.0]
    }

    pub fn get_var(&self, id: TypeVarId) -> (r: &TypeVar)
        requires
            id.0 < self.vars@.len(),
        ensures
            *r == self.vars@[id.0 as int],
    {
        &self.vars[id.0]
    }

    pub fn get_var_mut(&mut self, id: TypeVarId) -> (r: &mut TypeVar)
        requires
            id.0 < old(self).vars@.len(),
        ensures
            *r == old(self).vars@[id.0 as int],
            final(self).vars@ == old(self).vars@.update(id.0 as int, *final(r)),
            final(self).expr_types@ == old(self).expr_types@,
            final(self).expr_vars@ == old(self).expr_vars@,
            final(self).pattern_vars@ == old(self).pattern_vars@,
            final(self).enum_defs@ == old(self).enum_defs@,
    {
        &mut self.vars[id.0]
    }
}

/// The id that `id` stands for after following at most `steps` resolved inference variables.
pub open spec fn follow_resolved(types: Seq<Type>, inference: Seq<Option<TypeId>>, id: TypeId, steps: nat) -> TypeId
    decreases steps,
{
    if steps == 0 || id.0 >= types.len() {
        id
    } else {
        match types[id.0 as int] {
            Type::Infer(infer_id) => {
                if infer_id.0 < inference.len() && inference[infer_id.0 as int] is Some {
                    follow_resolved(types, inference, inference[infer_id.0 as int]->0, (steps - 1) as nat)
                } else {
                    id
                }
            },
            _ => id,
        }
    }
}

/// Which transformation `transform_parts` applies to the parts of a type.
#[derive(Clone, Copy)]
pub enum PartTransform {
    Decay,
    Zonk(Span),
}

/// The warning a variable gets once the program checks without errors, as where it is declared,
/// whether it is about a `mut` that nothing changed, and its name: none for a value of the native
/// library; one for a variable that is never used, unless its name starts with `_`; one for a
/// `mut` variable that is only read.
pub open spec fn var_warning(v: TypeVar) -> Option<(Span, bool, Seq<char>)> {
    let name = vstd::utf8::encode_utf8(v.name@);
    if v.declared_at.byte_offset == usize::MAX {
        None
    } else if v.is_used == TypeVarIsUsed::No && !(name.len() > 0 && name[0] == 95u8) {
        Some((v.declared_at, false, v.name@))
    } else if v.is_used == TypeVarIsUsed::Immut && v.is_declared_mut {
        Some((v.declared_at, true, v.name@))
    } else {
        None
    }
}

/// The warnings of the first `n` variables, in order.
pub open spec fn var_warnings(vars: Seq<TypeVar>, n: int) -> Seq<(Span, bool, Seq<char>)>
    decreases n,
{
    if n <= 0 || n > vars.len() {
        Seq::empty()
    } else {
        var_warnings(vars, n - 1) + match var_warning(vars[n - 1]) {
            Some(w) => seq![w],
            None => Seq::empty(),
        }
    }
}

/// What an unused-variable warning says: where, whether about a `mut`, and the variable's name.
pub open spec fn warning_summary(w: ProgramError<WarnType>) -> (Span, bool, Seq<char>) {
    match w.err_type {
        WarnType::UnusedVar { var } => (w.span, false, var.name@),
        WarnType::UnusedMutVar { var } => (w.span, true, var.name@),
        _ => (w.span, false, Seq::empty()),
    }
}

/// A type made of other types, which `transform_parts` rebuilds.
pub open spec fn has_parts(t: Type) -> bool {
    t is CustomType || t is Tup || t is TupArr || t is Borrow || t is EnumVariant || t is Fn
}

/// `b` is `a` rebuilt from other parts: the same kind of type, with the same custom type, tuple
/// labels, array length, reference kind, variant or number of parameters.
pub open spec fn same_shape(a: Type, b: Type) -> bool {
    match a {
        Type::CustomType(c, _) => (b matches Type::CustomType(d, _) && d == c),
        Type::Tup(x) => (b matches Type::Tup(y) && y@.len() == x@.len()
            && forall|i: int| 0 <= i < x@.len() ==> (#[trigger] y@[i]).label@ == x@[i].label@),
        Type::TupArr(_, n) => (b matches Type::TupArr(_, m) && m == n),
        Type::Borrow { mutable, borrows_var, .. } =>
            (b matches Type::Borrow { mutable: m, borrows_var: v, .. } && m == mutable && v == borrows_var),
        Type::EnumVariant { variant, .. } => (b matches Type::EnumVariant { variant: w, .. } && w == variant),
        Type::Fn { param_types, .. } => (b matches Type::Fn { param_types: q, .. } && q@.len() == param_types@.len()),
        _ => b == a,
    }
}

/// A type without parts, that only unifies with itself.
pub open spec fn is_atomic(t: Type) -> bool {
    t is NumInt || t is NumFloat || t is Bool || t is Str || t is Void || t is MetaType
}

/// A tuple element's label is shown unless it is empty or starts with a digit (a position
/// that was filled in).
pub open spec fn label_shown(label: Seq<char>) -> bool {
    let b = vstd::utf8::encode_utf8(label);
    b.len() > 0 && !(48u8 <= b[0] && b[0] <= 57u8)
}

/// Checks the types of a desugared program.
pub struct TypeChecker<'a> {
    pub error_data: ProgramErrorData,
    pub ast: &'a AstArena,
    pub typed_ast: TypedAst,
    /// maps variable names to their id, innermost scope last
    pub var_scopes: Vec<TypeVarScope>,
    pub type_arena: TypeArena,
    /// what each inference variable was resolved to (indexed with `TypeInferId`)
    pub inference_types: Vec<Option<TypeId>>,
    /// indexed with `CustomTypeId`
    pub custom_types: Vec<CustomType>,
    /// for `return`
    pub curr_function_return_type: Option<TypeId>,
    /// for `break` and `continue`
    pub curr_label_infos: Vec<LabelInfo>,
    /// for `Self` inside `impl`
    pub curr_impl_self: Option<TypeId>,
}

impl<'a> TypeChecker<'a> {
    /// The tree stays in place, every expression has a type slot, and the type arena is sound.
    pub open spec fn inv(&self) -> bool {
        &&& self.ast.wf()
        &&& self.typed_ast.expr_types@.len() == self.ast.exprs@.len()
        &&& self.typed_ast.expr_vars@.len() == self.ast.exprs@.len()
        &&& self.typed_ast.pattern_vars@.len() == self.ast.patterns@.len()
        &&& self.type_arena.wf()
    }

    /// The id that `id` stands for once resolved inference variables are followed.
    pub open spec fn pruned_id(&self, id: TypeId) -> TypeId {
        follow_resolved(self.type_arena.types@, self.inference_types@, id, self.inference_types@.len())
    }

    /// Unifying `expected` with `other` binds an inference variable: `expected` stands for an
    /// unresolved one (that `other` is not), `other` is not `never`, and there is fuel left.
    pub open spec fn binds_infer(&self, expected: TypeId, other: TypeId, fuel: nat) -> bool {
        &&& fuel > 0
        &&& self.pruned_id(expected) != self.pruned_id(other)
        &&& self.type_of(expected) matches Type::Infer(v) && v.0 < self.inference_types@.len()
        &&& !(self.type_of(other) is Never)
    }

    /// `new` is this checker with the inference variable that `expected` stands for resolved to
    /// what `other` stands for, and nothing else changed.
    pub open spec fn bound_by(&self, new: Self, expected: TypeId, other: TypeId) -> bool {
        let v = self.type_of(expected)->Infer_0;
        &&& new.inference_types@ == self.inference_types@.update(v.0 as int, Some(self.pruned_id(other)))
        &&& new.type_arena == self.type_arena
        &&& new.error_data == self.error_data
        &&& new.typed_ast == self.typed_ast
        &&& new.custom_types == self.custom_types
    }

    /// The type that `id` stands for: the arena's entry at its pruned id (`Error` where there is none).
    pub open spec fn type_of(&self, id: TypeId) -> Type {
        let p = self.pruned_id(id);
        if p.0 < self.type_arena.types@.len() { self.type_arena.types@[p.0 as int] } else { Type::Error }
    }

    /// The enum inside the custom types and variant refinements of `id`, looking through at most
    /// `steps` of them, or the type found instead.
    pub open spec fn wrapped_enum(&self, id: TypeId, steps: nat) -> Result<EnumId, Type>
        decreases steps,
    {
        if steps == 0 {
            Err(Type::Error)
        } else {
            match self.type_of(id) {
                Type::CustomType(_, inner) => self.wrapped_enum(inner, (steps - 1) as nat),
                Type::EnumVariant { inner, .. } => self.wrapped_enum(inner, (steps - 1) as nat),
                Type::Enum(e) => Ok(e),
                t => Err(t),
            }
        }
    }

    /// Two types are the same: the same id, or custom types of the same definition over
    /// equivalent types (looking `fuel` levels deep).
    pub open spec fn types_equivalent(&self, left: TypeId, right: TypeId, fuel: nat) -> bool
        decreases fuel,
    {
        left == right || (fuel > 0 && match (self.type_of(left), self.type_of(right)) {
            (Type::CustomType(l, li), Type::CustomType(r, ri)) => l == r && self.types_equivalent(li, ri, (fuel - 1) as nat),
            _ => false,
        })
    }

    /// The name of variant `variant` of the enum inside `inner` (empty where there is none).
    pub open spec fn variant_text(&self, inner: TypeId, variant: usize) -> Seq<char> {
        match self.wrapped_enum(inner, self.type_arena.types@.len()) {
            Ok(e) => if e.0 < self.typed_ast.enum_defs@.len() && variant < self.typed_ast.enum_defs@[e.0 as int].variants@.len() {
                self.typed_ast.enum_defs@[e.0 as int].variants@[variant as int].0@
            } else {
                Seq::empty()
            },
            Err(_) => Seq::empty(),
        }
    }

    /// How errors show the type `id`: in full, as deep as its parts go (a type nests no deeper than
    /// there are types, unless it holds itself, which is cut off as `...`).
    pub open spec fn shown_type(&self, id: TypeId) -> Seq<char> {
        self.type_text(id, self.type_arena.types@.len())
    }

    /// How errors show the type `id`; parts deeper than `fuel` show as `...`.
    pub open spec fn type_text(&self, id: TypeId, fuel: nat) -> Seq<char>
        decreases fuel, 0nat,
    {
        if fuel == 0 {
            "..."@
        } else {
            let f = (fuel - 1) as nat;
            match self.type_of(id) {
                Type::NumInt => "int"@,
                Type::NumFloat => "float"@,
                Type::Str => "str"@,
                Type::Bool => "bool"@,
                Type::Void => "void"@,
                Type::Never => "never"@,
                Type::MetaType => "type"@,
                Type::Error => "error"@,
                Type::Infer(i) => "?"@ + spec_decimal(i.0 as nat),
                Type::Enum(e) => "enum<EnumId("@ + spec_decimal(e.0 as nat) + ")>"@,
                Type::CustomType(c, _) => if c.0 < self.custom_types@.len() {
                    self.custom_types@[c.0 as int].name@
                } else {
                    Seq::empty()
                },
                Type::EnumVariant { inner, variant } => self.type_text(inner, f) + "."@ + self.variant_text(inner, variant),
                Type::Tup(elems) => "tup<"@ + self.elems_text(elems@, 0, f) + ">"@,
                Type::TupArr(inner, n) => "tupArr<"@ + self.type_text(inner, f) + "; "@ + spec_decimal(n as nat) + ">"@,
                Type::Fn { param_types, return_type } =>
                    "|"@ + self.params_text(param_types@, 0, f) + " -> "@ + self.type_text(return_type, f),
                Type::Borrow { inner, mutable, borrows_var } =>
                    (if mutable { "mut "@ } else { Seq::empty() }) + "ref "@ + self.type_text(inner, f)
                    + match borrows_var {
                        Some(v) => if v.0 < self.typed_ast.vars@.len() {
                            " ("@ + self.typed_ast.vars@[v.0 as int].name@ + ")"@
                        } else {
                            Seq::empty()
                        },
                        None => Seq::empty(),
                    },
            }
        }
    }

    /// The elements of a tuple type from the `k`-th on, joined by `, `, each with its label where
    /// `label_shown` says so.
    pub open spec fn elems_text(&self, elems: Seq<TypeTuple>, k: nat, fuel: nat) -> Seq<char>
        decreases fuel, elems.len() - k + 1,
    {
        if k >= elems.len() {
            Seq::empty()
        } else {
            (if k > 0 { ", "@ } else { Seq::empty() })
                + (if label_shown(elems[k as int].label@) { elems[k as int].label@ + ": "@ } else { Seq::empty() })
                + self.type_text(elems[k as int].typ, fuel)
                + self.elems_text(elems, k + 1, fuel)
        }
    }

    /// The parameter types from the `k`-th on, joined by `, `.
    pub open spec fn params_text(&self, params: Seq<TypeId>, k: nat, fuel: nat) -> Seq<char>
        decreases fuel, params.len() - k + 1,
    {
        if k >= params.len() {
            Seq::empty()
        } else {
            (if k > 0 { ", "@ } else { Seq::empty() }) + self.type_text(params[k as int], fuel) + self.params_text(params, k + 1, fuel)
        }
    }

    /// `new` has this checker's types and more, and the same inference variables.
    pub open spec fn types_grow(&self, new: &Self) -> bool {
        &&& new.type_arena.types@.len() >= self.type_arena.types@.len()
        &&& forall|i: int| 0 <= i < self.type_arena.types@.len() ==>
                #[trigger] new.type_arena.types@[i] == self.type_arena.types@[i]
        &&& new.inference_types == self.inference_types
    }

    /// The type with id `id` is an inference variable that was never resolved.
    pub open spec fn unresolved_at(&self, id: TypeId) -> bool {
        &&& id.0 < self.type_arena.types@.len()
        &&& self.type_arena.types@[id.0 as int] matches Type::Infer(v)
        &&& (v.0 >= self.inference_types@.len() || self.inference_types@[v.0 as int] is None)
    }

    /// `z` may be what `id` becomes once inference variables are replaced: a type without parts
    /// stays itself, an unresolved inference variable becomes the error type, and a type with
    /// parts is rebuilt in its shape.
    pub open spec fn zonk_fits(&self, id: TypeId, z: TypeId) -> bool {
        id.0 < self.type_arena.types@.len() ==> {
            let t = self.type_arena.types@[id.0 as int];
            &&& !has_parts(t) && !(t is Infer) ==> z == id
            &&& self.unresolved_at(id) ==> z == TypeId(0)
            &&& has_parts(t) ==> z.0 < self.type_arena.types@.len() && same_shape(t, self.type_arena.types@[z.0 as int])
        }
    }

    /// Every entry of the zonking cache fits the type it is for.
    pub open spec fn cache_fits(&self, cache: Seq<Option<TypeId>>) -> bool {
        &&& cache.len() <= self.type_arena.types@.len()
        &&& forall|i: int| 0 <= i < cache.len() && (#[trigger] cache[i]) is Some ==>
                self.zonk_fits(TypeId(i as usize), cache[i]->0)
    }

    /// Unifying `expected` with `other` fails at once, with nothing else done: a refined variant
    /// (`Option.Some`) is expected as a subtype of a type that is no refined variant (only the
    /// parent type takes a refinement), two tuples or two tuple arrays have different lengths, or
    /// two custom types differ.
    pub open spec fn plain_mismatch(&self, expected: TypeId, other: TypeId, mode: UnifyMode) -> bool {
        let a = self.type_of(expected);
        let b = self.type_of(other);
        &&& self.pruned_id(expected) != self.pruned_id(other)
        &&& {
            ||| (a is EnumVariant && !(b is EnumVariant || b is Never || b is Infer || b is Error) && mode == UnifyMode::Subtype)
            ||| (a is Tup && b is Tup && a->Tup_0@.len() != b->Tup_0@.len())
            ||| (a matches Type::TupArr(_, n) && b matches Type::TupArr(_, m) && n != m)
            ||| (a matches Type::CustomType(c, _) && b matches Type::CustomType(d, _) && c != d)
        }
    }

    /// `fuel` suffices to take every variant refinement off the top of the type `id`.
    pub open spec fn strips_variants(&self, id: TypeId, fuel: nat) -> bool
        decreases fuel,
    {
        fuel > 0 && (self.type_of(id) matches Type::EnumVariant { inner, .. } ==> self.strips_variants(inner, (fuel - 1) as nat))
    }

    /// What a checking step keeps: the tree, the invariant and the warnings; errors are only added.
    pub open spec fn keeps(&self, old: &Self) -> bool {
        &&& self.ast == old.ast
        &&& self.inv()
        &&& self.error_data.errors@.len() >= old.error_data.errors@.len()
        &&& forall|i: int| 0 <= i < old.error_data.errors@.len() ==>
                #[trigger] self.error_data.errors@[i] == old.error_data.errors@[i]
        &&& forall|i: int| old.error_data.errors@.len() <= i < self.error_data.errors@.len() ==>
                crate::is_checker_error((#[trigger] self.error_data.errors@[i]).err_type)
        &&& self.error_data.warnings@ == old.error_data.warnings@
    }

    /// Checks the program `ast` (expression 0 is the main block). Errors and warnings are appended
    /// to `error_data`.
    pub fn start(error_data: &mut ProgramErrorData, ast: &AstArena) -> (r: TypedAst)
        requires
            ast.wf(),
            ast.exprs@.len() >= 1,
        ensures
            r.expr_types@.len() == ast.exprs@.len(),
            final(error_data).errors@.len() >= old(error_data).errors@.len(),
            forall|i: int| 0 <= i < old(error_data).errors@.len() ==>
                #[trigger] final(error_data).errors@[i] == old(error_data).errors@[i],
            forall|i: int| old(error_data).errors@.len() <= i < final(error_data).errors@.len() ==>
                crate::is_checker_error((#[trigger] final(error_data).errors@[i]).err_type),
            final(error_data).warnings@.len() >= old(error_data).warnings@.len(),
            forall|i: int| 0 <= i < old(error_data).warnings@.len() ==>
                #[trigger] final(error_data).warnings@[i] == old(error_data).warnings@[i],
            // the checker warns only of unused variables, and only where there are no errors
            forall|k: int| old(error_data).warnings@.len() <= k < final(error_data).warnings@.len() ==>
                (#[trigger] final(error_data).warnings@[k]).err_type is UnusedVar
                || final(error_data).warnings@[k].err_type is UnusedMutVar,
            final(error_data).errors@.len() > 0 ==> final(error_data).warnings@ == old(error_data).warnings@,
            // without errors, each variable of the result that is unused (or a `mut` that is never
            // changed) is warned of, in order
            final(error_data).errors@.len() == 0 ==>
                final(error_data).warnings@.skip(old(error_data).warnings@.len() as int).map_values(|w: ProgramError<WarnType>| warning_summary(w))
                == var_warnings(r.vars@, r.vars@.len() as int),
    {
        let mut data = ProgramErrorData::new();
        std::mem::swap(&mut data, error_data);
        let mut tc = TypeChecker {
            error_data: data,
            ast,
            typed_ast: TypedAst::new(ast.exprs.len(), ast.patterns.len()),
            var_scopes: vec![TypeVarScope::new()],
            type_arena: TypeArena::new(),
            inference_types: Vec::new(),
            custom_types: Vec::new(),
            curr_function_return_type: None,
            curr_label_infos: Vec::new(),
            curr_impl_self: None,
        };
        let native_lib = crate::nativelib::get_native_lib(&mut tc.type_arena);
        tc.load_prelude_from_lib(&native_lib, 8);

        // check the main expression
        let mut is_never = false;
        tc.check_expression(ExprId(0), &mut is_never, CheckExprCtx::new(), u64::MAX);

        tc.finalize_types_and_vars();

        std::mem::swap(&mut tc.error_data, error_data);
        tc.typed_ast
    }

    /// Records an error; gives the error type.
    pub(crate) fn error(&mut self, err_type: ErrType, span: Span) -> (r: TypeId)
        requires
            old(self).inv(),
            crate::is_checker_error(err_type),
        ensures
            final(self).keeps(old(self)),
            r == TypeId(0),
            final(self).error_data.errors@ == old(self).error_data.errors@.push(ProgramError { span, err_type }),
            final(self).error_data.warnings@ == old(self).error_data.warnings@,
            final(self).typed_ast == old(self).typed_ast,
            final(self).type_arena == old(self).type_arena,
            final(self).var_scopes == old(self).var_scopes,
            final(self).curr_label_infos == old(self).curr_label_infos,
            final(self).inference_types == old(self).inference_types,
    {
        self.error_data.errors.push(ProgramError { span, err_type });
        TypeId(0)
    }

    /// Records that `found` was found where `expected` was; gives the error type.
    pub(crate) fn type_mismatch(&mut self, expected: TypeId, found: TypeId, span: Span) -> (r: TypeId)
        requires
            old(self).inv(),
        ensures
            final(self).keeps(old(self)),
            r == TypeId(0),
            final(self).error_data.errors@.len() == old(self).error_data.errors@.len() + 1,
            final(self).error_data.errors@.last().span == span,
            final(self).error_data.errors@.last().err_type matches ErrType::TyperMismatch { expected: e, found: f }
                && e@ == old(self).shown_type(expected) && f@ == old(self).shown_type(found),
            final(self).typed_ast == old(self).typed_ast,
            final(self).type_arena == old(self).type_arena,
            final(self).var_scopes == old(self).var_scopes,
            final(self).curr_label_infos == old(self).curr_label_infos,
            final(self).inference_types == old(self).inference_types,
    {
        let expected = self.fmt_type(expected);
        let found = self.fmt_type(found);
        self.error(ErrType::TyperMismatch { expected, found }, span)
    }

    /// The type at `id`, or the error type for an id outside the arena.
    pub(crate) fn type_at(&self, id: TypeId) -> (r: Type)
        requires
            self.inv(),
        ensures
            id.0 < self.type_arena.types@.len() ==> crate::typing::type_matches(r, self.type_arena.types@[id.0 as int]),
            id.0 >= self.type_arena.types@.len() ==> r == Type::Error,
    {
        if id.0 < self.type_arena.types.len() {
            self.type_arena.get_type(id)
        } else {
            Type::Error
        }
    }

    /// Adds a type to the arena.
    pub(crate) fn add_type(&mut self, typ: Type) -> (r: TypeId)
        requires
            old(self).inv(),
        ensures
            final(self).keeps(old(self)),
            final(self).error_data == old(self).error_data,
            final(self).typed_ast == old(self).typed_ast,
            final(self).var_scopes == old(self).var_scopes,
            final(self).curr_label_infos == old(self).curr_label_infos,
            final(self).inference_types == old(self).inference_types,
            final(self).custom_types == old(self).custom_types,
            final(self).curr_function_return_type == old(self).curr_function_return_type,
            final(self).curr_impl_self == old(self).curr_impl_self,
            r.0 < final(self).type_arena.types@.len(),
            crate::typing::type_matches(final(self).type_arena.types@[r.0 as int], typ),
            forall|i: int| 0 <= i < old(self).type_arena.types@.len()
                && crate::typing::type_matches(#[trigger] old(self).type_arena.types@[i], typ) ==> r.0 == i,
            final(self).type_arena.types@.len() >= old(self).type_arena.types@.len(),
            forall|i: int| 0 <= i < old(self).type_arena.types@.len() ==>
                #[trigger] final(self).type_arena.types@[i] == old(self).type_arena.types@[i],
    {
        self.type_arena.add_type(typ)
    }

    /// A fresh inference variable.
    pub fn new_infer_type(&mut self) -> (r: TypeId)
        requires
            old(self).inv(),
        ensures
            final(self).keeps(old(self)),
            final(self).error_data == old(self).error_data,
            final(self).typed_ast == old(self).typed_ast,
            final(self).var_scopes == old(self).var_scopes,
            final(self).curr_label_infos == old(self).curr_label_infos,
            final(self).inference_types@ == old(self).inference_types@.push(None),
            r.0 < final(self).type_arena.types@.len(),
            final(self).type_arena.types@[r.0 as int] == Type::Infer(TypeInferId(old(self).inference_types@.len() as usize)),
    {
        let id = TypeInferId(self.inference_types.len());
        self.inference_types.push(None);  // unresolved initially
        self.add_type(Type::Infer(id))
    }

    /// Follows resolved inference variables to the type they stand for.
    pub fn prune_id_once(&self, id: TypeId) -> (r: TypeId)
        requires
            self.inv(),
        ensures
            r == self.pruned_id(id),
    {
        let mut cur = id;
        let mut steps: usize = 0;
        // a chain of resolved inference variables visits each at most once
        while steps < self.inference_types.len()
            invariant
                self.inv(),
                0 <= steps <= self.inference_types@.len(),
                self.pruned_id(id) == follow_resolved(self.type_arena.types@, self.inference_types@, cur,
                    (self.inference_types@.len() - steps) as nat),
            decreases self.inference_types@.len() - steps,
        {
            let t = self.type_at(cur);
            proof {
                if cur.0 < self.type_arena.types@.len() {
                    if t is Infer || self.type_arena.types@[cur.0 as int] is Infer {
                        assert(t == self.type_arena.types@[cur.0 as int]);
                    }
                }
            }
            match t {
                Type::Infer(infer_id) => {
                    if infer_id.0 < self.inference_types.len() {
                        match self.inference_types[infer_id.0] {
                            Some(resolved_id) => { cur = resolved_id; },
                            None => { return cur; },
                        }
                    } else {
                        return cur;
                    }
                },
                _ => { return cur; },
            }
            steps = steps + 1;
        }
        cur
    }

    /// The type that `id` stands for once resolved inference variables are followed.
    pub fn prune_type_once(&self, id: TypeId) -> (r: Type)
        requires
            self.inv(),
        ensures
            crate::typing::type_matches(r, self.type_of(id)),
    {
        let id = self.prune_id_once(id);
        self.type_at(id)
    }

    /// As `prune_type_once`, but an unresolved inference variable is an error here.
    pub fn prune_type_once_infer_err(&mut self, id: TypeId, err_span: Span) -> (r: Type)
        requires
            old(self).inv(),
        ensures
            final(self).keeps(old(self)),
            final(self).typed_ast == old(self).typed_ast,
            final(self).var_scopes == old(self).var_scopes,
            final(self).curr_label_infos == old(self).curr_label_infos,
            !(old(self).type_of(id) is Infer) ==>
                *final(self) == *old(self) && crate::typing::type_matches(r, old(self).type_of(id)),
            old(self).type_of(id) is Infer ==> ({
                &&& r == Type::Error
                &&& final(self).error_data.errors@.len() == old(self).error_data.errors@.len() + 1
                &&& final(self).error_data.errors@.last().span == err_span
                &&& final(self).error_data.errors@.last().err_type matches ErrType::TyperTypeMustBeKnownHere { typ }
                    && typ@ == old(self).shown_type(id)
            }),
    {
        let typ = self.prune_type_once(id);
        if let Type::Infer(_) = typ {
            let typ_text = self.fmt_type(id);
            self.error(ErrType::TyperTypeMustBeKnownHere { typ: typ_text }, err_span);
            Type::Error
        } else {
            typ
        }
    }

    /// Unifies `other` with `expected`; a mismatch is reported once, as an error. Two types that
    /// already stand for the same type unify to it, and nothing changes.
    pub fn unify_types(&mut self, expected: TypeId, other: TypeId, span: Span, mode: UnifyMode) -> (r: TypeId)
        requires
            old(self).inv(),
        ensures
            final(self).keeps(old(self)),
            old(self).pruned_id(expected) == old(self).pruned_id(other) ==>
                *final(self) == *old(self) && r == old(self).pruned_id(expected),
            // two different plain types are a mismatch, reported once
            old(self).pruned_id(expected) != old(self).pruned_id(other)
                && is_atomic(old(self).type_of(expected)) && is_atomic(old(self).type_of(other)) ==>
                r == TypeId(0) && crate::typing::check_expressions::mismatch_added(*old(self), *final(self), expected, other, span),
            // an unresolved inference variable is resolved to the other type
            old(self).binds_infer(expected, other, old(self).type_arena.types@.len()) ==>
                old(self).bound_by(*final(self), expected, other) && r == old(self).pruned_id(other),
            // `never` gives way to the other type
            old(self).pruned_id(expected) != old(self).pruned_id(other) && old(self).type_of(expected) is Never ==>
                *final(self) == *old(self) && r == old(self).pruned_id(other),
            old(self).pruned_id(expected) != old(self).pruned_id(other) && !(old(self).type_of(expected) is Never)
                && old(self).type_of(other) is Never ==>
                *final(self) == *old(self) && r == old(self).pruned_id(expected),
            old(self).plain_mismatch(expected, other, mode) ==>
                r == TypeId(0) && crate::typing::check_expressions::mismatch_added(*old(self), *final(self), expected, other, span),
            // two different enums are a mismatch
            old(self).pruned_id(expected) != old(self).pruned_id(other) &&
                old(self).type_of(expected) is Enum && old(self).type_of(other) is Enum ==>
                (if old(self).type_of(expected)->Enum_0 == old(self).type_of(other)->Enum_0 { *final(self) == *old(self) && r == old(self).pruned_id(expected) }
                    else { r == TypeId(0) && crate::typing::check_expressions::mismatch_added(*old(self), *final(self), expected, other, span) }),
            final(self).typed_ast == old(self).typed_ast,
            final(self).var_scopes == old(self).var_scopes,
            final(self).curr_label_infos == old(self).curr_label_infos,
    {
        let fuel = self.type_arena.types.len();
        self.unify_fuel(expected, other, span, mode, fuel)
    }

    fn unify_fuel(&mut self, expected: TypeId, other: TypeId, span: Span, mode: UnifyMode, fuel: usize) -> (r: TypeId)
        requires
            old(self).inv(),
        ensures
            final(self).keeps(old(self)),
            old(self).pruned_id(expected) == old(self).pruned_id(other) ==>
                *final(self) == *old(self) && r == old(self).pruned_id(expected),
            old(self).pruned_id(expected) != old(self).pruned_id(other)
                && is_atomic(old(self).type_of(expected)) && is_atomic(old(self).type_of(other)) ==>
                r == TypeId(0) && crate::typing::check_expressions::mismatch_added(*old(self), *final(self), expected, other, span),
            old(self).binds_infer(expected, other, fuel as nat) ==>
                old(self).bound_by(*final(self), expected, other) && r == old(self).pruned_id(other),
            // `never` gives way to the other type
            old(self).pruned_id(expected) != old(self).pruned_id(other) && fuel > 0 && old(self).type_of(expected) is Never ==>
                *final(self) == *old(self) && r == old(self).pruned_id(other),
            old(self).pruned_id(expected) != old(self).pruned_id(other) && fuel > 0 && !(old(self).type_of(expected) is Never)
                && old(self).type_of(other) is Never ==>
                *final(self) == *old(self) && r == old(self).pruned_id(expected),
            old(self).plain_mismatch(expected, other, mode) && fuel > 0 ==>
                r == TypeId(0) && crate::typing::check_expressions::mismatch_added(*old(self), *final(self), expected, other, span),
            // two different enums are a mismatch
            old(self).pruned_id(expected) != old(self).pruned_id(other) && fuel > 0 &&
                old(self).type_of(expected) is Enum && old(self).type_of(other) is Enum ==>
                (if old(self).type_of(expected)->Enum_0 == old(self).type_of(other)->Enum_0 { *final(self) == *old(self) && r == old(self).pruned_id(expected) }
                    else { r == TypeId(0) && crate::typing::check_expressions::mismatch_added(*old(self), *final(self), expected, other, span) }),
            final(self).typed_ast == old(self).typed_ast,
            final(self).var_scopes == old(self).var_scopes,
            final(self).curr_label_infos == old(self).curr_label_infos,
        decreases fuel, 1nat,
    {
        let mut mismatch = false;
        let result = self.internal_unify_types(expected, other, span, mode, &mut mismatch, fuel);
        if mismatch {
            // with this flag, each unify can only trigger one error
            self.type_mismatch(expected, other, span);
        }
        result
    }

    fn internal_unify_types(&mut self, expected: TypeId, other: TypeId, span: Span, mode: UnifyMode, mismatch: &mut bool, fuel: usize) -> (r: TypeId)
        requires
            old(self).inv(),
        ensures
            final(self).keeps(old(self)),
            old(self).pruned_id(expected) == old(self).pruned_id(other) ==>
                *final(self) == *old(self) && r == old(self).pruned_id(expected) && *final(mismatch) == *old(mismatch),
            old(self).pruned_id(expected) != old(self).pruned_id(other)
                && is_atomic(old(self).type_of(expected)) && is_atomic(old(self).type_of(other)) ==>
                *final(self) == *old(self) && r == TypeId(0) && *final(mismatch),
            old(self).binds_infer(expected, other, fuel as nat) ==>
                old(self).bound_by(*final(self), expected, other) && r == old(self).pruned_id(other) && *final(mismatch) == *old(mismatch),
            // `never` gives way to the other type
            old(self).pruned_id(expected) != old(self).pruned_id(other) && fuel > 0 && old(self).type_of(expected) is Never ==>
                *final(self) == *old(self) && r == old(self).pruned_id(other) && *final(mismatch) == *old(mismatch),
            old(self).pruned_id(expected) != old(self).pruned_id(other) && fuel > 0 && !(old(self).type_of(expected) is Never)
                && old(self).type_of(other) is Never ==>
                *final(self) == *old(self) && r == old(self).pruned_id(expected) && *final(mismatch) == *old(mismatch),
            old(self).plain_mismatch(expected, other, mode) && fuel > 0 ==>
                *final(self) == *old(self) && r == TypeId(0) && *final(mismatch),
            // two different refinements of an enum are its parent type, but no subtype of each other
            old(self).pruned_id(expected) != old(self).pruned_id(other) && fuel > 0 && mode == UnifyMode::Subtype
                && old(self).type_of(expected) is EnumVariant && old(self).type_of(other) is EnumVariant
                && old(self).type_of(expected)->EnumVariant_variant != old(self).type_of(other)->EnumVariant_variant ==>
                r == TypeId(0) && *final(mismatch),
            // two enums unify only if they are the same enum
            old(self).pruned_id(expected) != old(self).pruned_id(other) && fuel > 0
                && old(self).type_of(expected) is Enum && old(self).type_of(other) is Enum ==>
                *final(self) == *old(self) && (if old(self).type_of(expected)->Enum_0 == old(self).type_of(other)->Enum_0 { r == old(self).pruned_id(expected) && *final(mismatch) == *old(mismatch) }
                    else { r == TypeId(0) && *final(mismatch) }),
            // two tuples of one length unify to a tuple of that length with the expected labels;
            // a label that differs is a mismatch
            old(self).pruned_id(expected) != old(self).pruned_id(other) && fuel > 0
                && old(self).type_of(expected) is Tup && old(self).type_of(other) is Tup
                && old(self).type_of(expected)->Tup_0@.len() == old(self).type_of(other)->Tup_0@.len() ==> ({
                let ea = old(self).type_of(expected)->Tup_0@;
                let eb = old(self).type_of(other)->Tup_0@;
                &&& r.0 < final(self).type_arena.types@.len()
                &&& final(self).type_arena.types@[r.0 as int] is Tup
                &&& final(self).type_arena.types@[r.0 as int]->Tup_0@.len() == ea.len()
                &&& forall|k: int| 0 <= k < ea.len() ==>
                        (#[trigger] final(self).type_arena.types@[r.0 as int]->Tup_0@[k]).label@ == ea[k].label@
                &&& (exists|k: int| 0 <= k < ea.len() && (#[trigger] ea[k]).label@ != eb[k].label@) ==> *final(mismatch)
            }),
            // two tuple arrays of one length unify to one of that length
            old(self).pruned_id(expected) != old(self).pruned_id(other) && fuel > 0
                && old(self).type_of(expected) is TupArr && old(self).type_of(other) is TupArr
                && old(self).type_of(expected)->TupArr_1 == old(self).type_of(other)->TupArr_1 ==>
                r.0 < final(self).type_arena.types@.len()
                && final(self).type_arena.types@[r.0 as int] is TupArr
                && final(self).type_arena.types@[r.0 as int]->TupArr_1 == old(self).type_of(expected)->TupArr_1,
            // two references unify to a reference like the expected one; a shared one and a
            // `mut` one are a mismatch
            old(self).pruned_id(expected) != old(self).pruned_id(other) && fuel > 0
                && old(self).type_of(expected) is Borrow && old(self).type_of(other) is Borrow ==>
                r.0 < final(self).type_arena.types@.len()
                && final(self).type_arena.types@[r.0 as int] is Borrow
                && final(self).type_arena.types@[r.0 as int]->Borrow_mutable == old(self).type_of(expected)->Borrow_mutable
                && final(self).type_arena.types@[r.0 as int]->Borrow_borrows_var == old(self).type_of(expected)->Borrow_borrows_var
                && (old(self).type_of(expected)->Borrow_mutable != old(self).type_of(other)->Borrow_mutable ==> *final(mismatch)),
            // two functions unify parameter by parameter; a different number of parameters is a mismatch
            old(self).pruned_id(expected) != old(self).pruned_id(other) && fuel > 0
                && old(self).type_of(expected) is Fn && old(self).type_of(other) is Fn ==> ({
                let la = old(self).type_of(expected)->Fn_param_types@.len();
                let lb = old(self).type_of(other)->Fn_param_types@.len();
                &&& r.0 < final(self).type_arena.types@.len()
                &&& final(self).type_arena.types@[r.0 as int] is Fn
                &&& final(self).type_arena.types@[r.0 as int]->Fn_param_types@.len() == (if la <= lb { la } else { lb })
                &&& la != lb ==> *final(mismatch)
            }),
            final(self).typed_ast == old(self).typed_ast,
            final(self).var_scopes == old(self).var_scopes,
            final(self).curr_label_infos == old(self).curr_label_infos,
        decreases fuel, 0nat,
    {
        let id_a = self.prune_id_once(expected);
        let id_b = self.prune_id_once(other);

        // already equal -> do nothing
        if id_a.0 == id_b.0 {
            return id_a;
        }
        if fuel == 0 {
            // only types that contain themselves nest this deep
            *mismatch = true;
            return TypeId(0);
        }

        let a = self.type_at(id_a);
        let b = self.type_at(id_b);

        match (a, b) {
            (Type::Never, _) => id_b,
            (_, Type::Never) => id_a,

            // if one is an inference variable, bind it to the other type.
            (Type::Infer(id), _) => {
                if id.0 < self.inference_types.len() {
                    self.inference_types.set(id.0, Some(id_b));
                }
                id_b
            },
            (_, Type::Infer(id)) => {
                if id.0 < self.inference_types.len() {
                    self.inference_types.set(id.0, Some(id_a));
                }
                id_a
            },

            (Type::Error, _) | (_, Type::Error) => TypeId(0),

            (Type::TupArr(inner_a, len_a), Type::TupArr(inner_b, len_b)) => {
                if len_a == len_b {
                    let merged = self.unify_fuel(inner_a, inner_b, span, mode, fuel - 1);
                    self.add_type(Type::TupArr(merged, len_a))
                } else {
                    *mismatch = true;
                    TypeId(0)
                }
            },

            (Type::Tup(elems_a), Type::Tup(elems_b)) => {
                if elems_a.len() == elems_b.len() {
                    let mut new_elems: Vec<TypeTuple> = Vec::new();
                    let mut i: usize = 0;
                    while i < elems_a.len()
                        invariant
                            self.keeps(old(self)),
                            self.typed_ast == old(self).typed_ast,
                            self.var_scopes == old(self).var_scopes,
                            self.curr_label_infos == old(self).curr_label_infos,
                            elems_a@.len() == elems_b@.len(),
                            0 <= i <= elems_a@.len(),
                            fuel > 0,
                            new_elems@.len() == i,
                            forall|k: int| 0 <= k < i ==> (#[trigger] new_elems@[k]).label@ == elems_a@[k].label@,
                            (exists|k: int| 0 <= k < i && (#[trigger] elems_a@[k]).label@ != elems_b@[k].label@) ==> *mismatch,
                        decreases elems_a@.len() - i,
                    {
                        if elems_a[i].label != elems_b[i].label {
                            *mismatch = true;
                        }
                        let id = self.unify_fuel(elems_a[i].typ, elems_b[i].typ, span, mode, fuel - 1);
                        new_elems.push(TypeTuple { label: elems_a[i].label.clone(), typ: id });
                        i = i + 1;
                    }
                    proof {
                        let ea = old(self).type_of(expected)->Tup_0@;
                        let eb = old(self).type_of(other)->Tup_0@;
                        if exists|k: int| 0 <= k < ea.len() && (#[trigger] ea[k]).label@ != eb[k].label@ {
                            let k = choose|k: int| 0 <= k < ea.len() && (#[trigger] ea[k]).label@ != eb[k].label@;
                            assert(elems_a@[k].label@ == ea[k].label@);
                            assert(elems_b@[k].label@ == eb[k].label@);
                        }
                    }
                    self.add_type(Type::Tup(new_elems))
                } else {
                    *mismatch = true;
                    TypeId(0)
                }
            },

            (Type::TupArr(inner_a, len_a), Type::Tup(elems_b)) => {
                if len_a == elems_b.len() {
                    let mut new_elems: Vec<TypeTuple> = Vec::new();
                    let mut i: usize = 0;
                    while i < elems_b.len()
                        invariant
                            self.keeps(old(self)),
                            self.typed_ast == old(self).typed_ast,
                            self.var_scopes == old(self).var_scopes,
                            self.curr_label_infos == old(self).curr_label_infos,
                            0 <= i <= elems_b@.len(),
                            fuel > 0,
                        decreases elems_b@.len() - i,
                    {
                        let id = self.unify_fuel(elems_b[i].typ, inner_a, span, mode, fuel - 1);
                        new_elems.push(TypeTuple { label: elems_b[i].label.clone(), typ: id });
                        i = i + 1;
                    }
                    self.add_type(Type::Tup(new_elems))
                } else {
                    *mismatch = true;
                    TypeId(0)
                }
            },
            (Type::Tup(elems_a), Type::TupArr(inner_b, len_b)) => {
                if elems_a.len() == len_b {
                    let mut new_elems: Vec<TypeTuple> = Vec::new();
                    let mut i: usize = 0;
                    while i < elems_a.len()
                        invariant
                            self.keeps(old(self)),
                            self.typed_ast == old(self).typed_ast,
                            self.var_scopes == old(self).var_scopes,
                            self.curr_label_infos == old(self).curr_label_infos,
                            0 <= i <= elems_a@.len(),
                            fuel > 0,
                        decreases elems_a@.len() - i,
                    {
                        let id = self.unify_fuel(elems_a[i].typ, inner_b, span, mode, fuel - 1);
                        new_elems.push(TypeTuple { label: elems_a[i].label.clone(), typ: id });
                        i = i + 1;
                    }
                    self.add_type(Type::Tup(new_elems))
                } else {
                    *mismatch = true;
                    TypeId(0)
                }
            },

            (Type::CustomType(custom_a, inner_a), Type::CustomType(custom_b, inner_b)) => {
                if custom_a.0 == custom_b.0 {
                    let merged_inner = self.unify_fuel(inner_a, inner_b, span, mode, fuel - 1);
                    self.add_type(Type::CustomType(custom_a, merged_inner))
                } else {
                    // different custom types never unify: `type N1 = int; type N2 = int; N1{ 2 } + N2{ 2 }`
                    *mismatch = true;
                    TypeId(0)
                }
            },

            (Type::Enum(enum_a), Type::Enum(enum_b)) => {
                if enum_a.0 == enum_b.0 {
                    id_a
                } else {
                    *mismatch = true;
                    TypeId(0)
                }
            },

            (Type::EnumVariant { inner: inner_a, variant: variant_a }, Type::EnumVariant { inner: inner_b, variant: variant_b }) => {
                let merged_inner = self.unify_fuel(inner_a, inner_b, span, mode, fuel - 1);
                if variant_a == variant_b {
                    self.add_type(Type::EnumVariant { inner: merged_inner, variant: variant_a })
                } else {
                    match mode {
                        UnifyMode::FindParentType => merged_inner,
                        UnifyMode::Subtype => {
                            *mismatch = true;
                            TypeId(0)
                        },
                    }
                }
            },

            // this direction is always allowed regardless of mode
            (_, Type::EnumVariant { inner, .. }) => self.unify_fuel(id_a, inner, span, mode, fuel - 1),
            (Type::EnumVariant { inner, .. }, _) => {
                // this direction is only allowed when looking for the parent type
                match mode {
                    UnifyMode::FindParentType => self.unify_fuel(inner, id_b, span, mode, fuel - 1),
                    UnifyMode::Subtype => {
                        *mismatch = true;
                        TypeId(0)
                    },
                }
            },

            (Type::Borrow { mutable: mut_a, inner: inner_a, borrows_var: borrows_a },
             Type::Borrow { mutable: mut_b, inner: inner_b, borrows_var: _ }) => {
                let new_inner = self.unify_fuel(inner_a, inner_b, span, mode, fuel - 1);
                if mut_a != mut_b {
                    *mismatch = true;
                }
                self.add_type(Type::Borrow { inner: new_inner, mutable: mut_a, borrows_var: borrows_a })
            },

            (Type::Fn { param_types: params_a, return_type: return_a },
             Type::Fn { param_types: params_b, return_type: return_b }) => {
                if params_a.len() != params_b.len() {
                    *mismatch = true;
                }
                let mut new_params: Vec<TypeId> = Vec::new();
                let mut i: usize = 0;
                while i < params_a.len() && i < params_b.len()
                    invariant
                        self.keeps(old(self)),
                        self.typed_ast == old(self).typed_ast,
                        self.var_scopes == old(self).var_scopes,
                        self.curr_label_infos == old(self).curr_label_infos,
                        0 <= i <= params_a@.len(),
                        i <= params_b@.len(),
                        new_params@.len() == i,
                        params_a@.len() != params_b@.len() ==> *mismatch,
                        fuel > 0,
                    decreases params_a@.len() - i,
                {
                    new_params.push(self.unify_fuel(params_b[i], params_a[i], span, mode, fuel - 1));
                    i = i + 1;
                }
                let new_return = self.unify_fuel(return_a, return_b, span, mode, fuel - 1);
                self.add_type(Type::Fn { param_types: new_params, return_type: new_return })
            },

            // any other case is a mismatch
            _ => {
                *mismatch = true;
                TypeId(0)
            },
        }
    }

    /// The parent type of all of `types` (a fresh inference variable for none).
    pub(crate) fn unify_type_vec(&mut self, types: &Vec<TypeId>, span: Span) -> (r: TypeId)
        requires
            old(self).inv(),
        ensures
            final(self).keeps(old(self)),
            final(self).typed_ast == old(self).typed_ast,
            final(self).var_scopes == old(self).var_scopes,
            final(self).curr_label_infos == old(self).curr_label_infos,
            types@.len() == 0 ==> final(self).error_data == old(self).error_data,
            types@.len() == 0 ==> r.0 < final(self).type_arena.types@.len()
                && final(self).type_arena.types@[r.0 as int] == Type::Infer(TypeInferId(old(self).inference_types@.len() as usize))
                && final(self).inference_types@ == old(self).inference_types@.push(None),
            types@.len() == 1 ==> r == types@[0] && *final(self) == *old(self),
    {
        if types.len() == 0 {
            return self.new_infer_type();
        }
        let first = types[0];
        let mut merged = first;
        let mut i: usize = 1;
        while i < types.len()
            invariant
                self.keeps(old(self)),
                self.typed_ast == old(self).typed_ast,
                self.var_scopes == old(self).var_scopes,
                self.curr_label_infos == old(self).curr_label_infos,
                1 <= i <= types@.len(),
                types@.len() == 1 ==> (*self == *old(self) && merged == types@[0]),
            decreases types@.len() - i,
        {
            merged = self.unify_types(first, types[i], span, UnifyMode::FindParentType);
            i = i + 1;
        }
        merged
    }

    /// Whether the two types are the same, looking through custom types.
    pub(crate) fn are_types_equivalent(&self, left: TypeId, right: TypeId, fuel: usize) -> (r: bool)
        requires
            self.inv(),
        ensures
            r == self.types_equivalent(left, right, fuel as nat),
        decreases fuel,
    {
        if left.0 == right.0 {
            return true;
        }
        if fuel == 0 {
            return false;
        }
        match (self.prune_type_once(left), self.prune_type_once(right)) {
            (Type::CustomType(left_id, left_inner), Type::CustomType(right_id, right_inner)) => {
                left_id.0 == right_id.0 && self.are_types_equivalent(left_inner, right_inner, fuel - 1)
            },
            _ => false,
        }
    }

    /// The type as text, as errors show it.
    pub(crate) fn fmt_type(&self, typ: TypeId) -> (r: String)
        requires
            self.inv(),
        ensures
            r@ == self.shown_type(typ),
    {
        let mut s = String::new();
        self.write_type(typ, &mut s, self.type_arena.types.len());
        proof { assert(s@ =~= self.shown_type(typ)); }
        s
    }

    /// Appends how errors show the type `id`, down to `fuel` levels.
    #[verifier::rlimit(100)]
    #[verifier::spinoff_prover]
    fn write_type(&self, id: TypeId, s: &mut String, fuel: usize)
        requires
            self.inv(),
        ensures
            final(s)@ == old(s)@ + self.type_text(id, fuel as nat),
        decreases fuel, 0nat,
    {
        if fuel == 0 {
            push_str(s, "...");
            return;
        }
        let f = fuel - 1;
        let pruned = self.prune_id_once(id);
        let ghost t = self.type_of(id);
        match self.type_at(pruned) {
            Type::NumInt => push_str(s, "int"),
            Type::NumFloat => push_str(s, "float"),
            Type::Str => push_str(s, "str"),
            Type::Bool => push_str(s, "bool"),
            Type::Void => push_str(s, "void"),
            Type::Never => push_str(s, "never"),
            Type::MetaType => push_str(s, "type"),
            Type::Error => push_str(s, "error"),
            Type::Infer(infer) => {
                push_str(s, "?");
                push_str(s, usize_to_string(infer.0).as_str());
                proof { assert(s@ =~= old(s)@ + self.type_text(id, fuel as nat)); }
            },
            Type::Enum(enum_id) => {
                push_str(s, "enum<EnumId(");
                push_str(s, usize_to_string(enum_id.0).as_str());
                push_str(s, ")>");
                proof { assert(s@ =~= old(s)@ + self.type_text(id, fuel as nat)); }
            },
            Type::CustomType(custom_id, _) => {
                if custom_id.0 < self.custom_types.len() {
                    push_str(s, self.custom_types[custom_id.0].name.as_str());
                } else {
                    proof { assert(s@ =~= old(s)@ + self.type_text(id, fuel as nat)); }
                }
            },
            Type::EnumVariant { inner, variant } => {
                self.write_type(inner, s, f);
                push_str(s, ".");
                match self.get_wrapped_enum_id(inner) {
                    Ok(enum_id) => {
                        if enum_id.0 < self.typed_ast.enum_defs.len()
                            && variant < self.typed_ast.enum_defs[enum_id.0].variants.len() {
                            push_str(s, self.typed_ast.enum_defs[enum_id.0].variants[variant].0.as_str());
                        }
                    },
                    Err(_) => {},
                }
                proof { assert(s@ =~= old(s)@ + self.type_text(id, fuel as nat)); }
            },
            Type::Tup(elems) => {
                let ghost te: Seq<TypeTuple> = match t { Type::Tup(x) => x@, _ => Seq::empty() };
                push_str(s, "tup<");
                self.write_elems(&elems, Ghost(te), s, f);
                push_str(s, ">");
                proof { assert(s@ =~= old(s)@ + self.type_text(id, fuel as nat)); }
            },
            Type::TupArr(inner, length) => {
                push_str(s, "tupArr<");
                self.write_type(inner, s, f);
                push_str(s, "; ");
                push_str(s, usize_to_string(length).as_str());
                push_str(s, ">");
                proof { assert(s@ =~= old(s)@ + self.type_text(id, fuel as nat)); }
            },
            Type::Fn { param_types, return_type } => {
                push_str(s, "|");
                self.write_params(&param_types, s, f);
                push_str(s, " -> ");
                self.write_type(return_type, s, f);
                proof { assert(s@ =~= old(s)@ + self.type_text(id, fuel as nat)); }
            },
            Type::Borrow { inner, mutable, borrows_var } => {
                if mutable {
                    push_str(s, "mut ");
                }
                push_str(s, "ref ");
                self.write_type(inner, s, f);
                if let Some(var) = borrows_var {
                    if var.0 < self.typed_ast.vars.len() {
                        push_str(s, " (");
                        push_str(s, self.typed_ast.vars[var.0].name.as_str());
                        push_str(s, ")");
                    }
                }
                proof { assert(s@ =~= old(s)@ + self.type_text(id, fuel as nat)); }
            },
        }
    }

    /// Appends the elements of a tuple type (`te` is the arena's copy of them).
    fn write_elems(&self, elems: &Vec<TypeTuple>, Ghost(te): Ghost<Seq<TypeTuple>>, s: &mut String, fuel: usize)
        requires
            self.inv(),
            crate::typing::type_arena::tuple_elems_match(elems@, te),
        ensures
            final(s)@ == old(s)@ + self.elems_text(te, 0, fuel as nat),
        decreases fuel, 1nat,
    {
        let ghost goal = old(s)@ + self.elems_text(te, 0, fuel as nat);
        let mut i: usize = 0;
        while i < elems.len()
            invariant
                self.inv(),
                0 <= i <= elems@.len(),
                crate::typing::type_arena::tuple_elems_match(elems@, te),
                s@ + self.elems_text(te, i as nat, fuel as nat) == goal,
            decreases elems@.len() - i,
        {
            let ghost before = s@;
            if i > 0 {
                push_str(s, ", ");
            }
            // only labels that aren't filled-in positions are shown
            let label = elems[i].label.as_str();
            let bytes = label.as_bytes();
            if bytes.len() > 0 && !(48u8 <= bytes[0] && bytes[0] <= 57u8) {
                push_str(s, label);
                push_str(s, ": ");
            }
            self.write_type(elems[i].typ, s, fuel);
            proof {
                assert(te[i as int].label@ == elems@[i as int].label@);
                let piece = (if i > 0 { ", "@ } else { Seq::<char>::empty() })
                    + (if label_shown(te[i as int].label@) { te[i as int].label@ + ": "@ } else { Seq::<char>::empty() })
                    + self.type_text(te[i as int].typ, fuel as nat);
                assert(s@ =~= before + piece);
                assert(self.elems_text(te, i as nat, fuel as nat) =~= piece + self.elems_text(te, (i + 1) as nat, fuel as nat));
                assert(s@ + self.elems_text(te, (i + 1) as nat, fuel as nat) =~= goal);
            }
            i = i + 1;
        }
        proof { assert(s@ =~= goal); }
    }

    /// Appends the parameter types of a function type, joined by `, `.
    fn write_params(&self, params: &Vec<TypeId>, s: &mut String, fuel: usize)
        requires
            self.inv(),
        ensures
            final(s)@ == old(s)@ + self.params_text(params@, 0, fuel as nat),
        decreases fuel, 1nat,
    {
        let ghost goal = old(s)@ + self.params_text(params@, 0, fuel as nat);
        let mut i: usize = 0;
        while i < params.len()
            invariant
                self.inv(),
                0 <= i <= params@.len(),
                s@ + self.params_text(params@, i as nat, fuel as nat) == goal,
            decreases params@.len() - i,
        {
            let ghost before = s@;
            if i > 0 {
                push_str(s, ", ");
            }
            self.write_type(params[i], s, fuel);
            proof {
                let piece = (if i > 0 { ", "@ } else { Seq::<char>::empty() }) + self.type_text(params@[i as int], fuel as nat);
                assert(s@ =~= before + piece);
                assert(self.params_text(params@, i as nat, fuel as nat)
                    =~= piece + self.params_text(params@, (i + 1) as nat, fuel as nat));
                assert(s@ + self.params_text(params@, (i + 1) as nat, fuel as nat) =~= goal);
            }
            i = i + 1;
        }
        proof { assert(s@ =~= goal); }
    }

    /// The enum inside custom types and variant refinements, or the type found instead.
    pub(crate) fn get_wrapped_enum_id(&self, id: TypeId) -> (r: Result<EnumId, Type>)
        requires
            self.inv(),
        ensures
            r matches Ok(e) ==> self.wrapped_enum(id, self.type_arena.types@.len()) == Ok::<EnumId, Type>(e),
            r matches Err(t) ==> self.wrapped_enum(id, self.type_arena.types@.len()) matches Err(u)
                && crate::typing::type_matches(t, u),
    {
        let mut cur = id;
        let mut steps: usize = 0;
        // every wrapping step goes to a part of the type
        while steps < self.type_arena.types.len()
            invariant
                self.inv(),
                0 <= steps <= self.type_arena.types@.len(),
                self.wrapped_enum(id, self.type_arena.types@.len())
                    == self.wrapped_enum(cur, (self.type_arena.types@.len() - steps) as nat),
            decreases self.type_arena.types@.len() - steps,
        {
            match self.prune_type_once(cur) {
                Type::CustomType(_, inner) => { cur = inner; },
                Type::EnumVariant { inner, .. } => { cur = inner; },
                Type::Enum(enum_id) => { return Ok(enum_id); },
                typ => { return Err(typ); },
            }
            steps = steps + 1;
        }
        Err(Type::Error)
    }

    /// Entries of the zonking cache still fit once more types are added.
    proof fn lemma_cache_fits_grow(&self, new: &Self, cache: Seq<Option<TypeId>>)
        requires
            self.types_grow(new),
            self.cache_fits(cache),
        ensures
            new.cache_fits(cache),
    {
        assert forall|i: int| 0 <= i < cache.len() && (#[trigger] cache[i]) is Some implies
            new.zonk_fits(TypeId(i as usize), cache[i]->0) by {
            let z = cache[i]->0;
            assert(self.zonk_fits(TypeId(i as usize), z));
            assert(new.type_arena.types@[i] == self.type_arena.types@[i]);
            if has_parts(self.type_arena.types@[i]) {
                assert(new.type_arena.types@[z.0 as int] == self.type_arena.types@[z.0 as int]);
            }
        }
    }

    /// What an existing type may become once inference variables are replaced stays so once more
    /// types are added.
    proof fn lemma_zonk_fits_grow(&self, new: &Self, id: TypeId, z: TypeId)
        requires
            self.types_grow(new),
            id.0 < self.type_arena.types@.len(),
            self.zonk_fits(id, z),
        ensures
            new.zonk_fits(id, z),
    {
        assert(new.type_arena.types@[id.0 as int] == self.type_arena.types@[id.0 as int]);
        if has_parts(self.type_arena.types@[id.0 as int]) {
            assert(new.type_arena.types@[z.0 as int] == self.type_arena.types@[z.0 as int]);
        }
    }

    /// Removes the variant refinements (`Option.Some` becomes `Option`) from a type and its parts.
    pub fn decay_soft_types(&mut self, id: TypeId, fuel: usize) -> (r: TypeId)
        requires
            old(self).inv(),
        ensures
            final(self).keeps(old(self)),
            final(self).typed_ast == old(self).typed_ast,
            final(self).var_scopes == old(self).var_scopes,
            final(self).curr_label_infos == old(self).curr_label_infos,
            final(self).error_data.warnings@ == old(self).error_data.warnings@,
            old(self).types_grow(&*final(self)),
            fuel == 0 || !has_parts(old(self).type_of(id)) ==> r == id && *final(self) == *old(self),
            fuel > 0 && has_parts(old(self).type_of(id)) && !(old(self).type_of(id) is EnumVariant) ==>
                r.0 < final(self).type_arena.types@.len() && same_shape(old(self).type_of(id), final(self).type_arena.types@[r.0 as int]),
            // with fuel for each refinement on top, the type has none left on top
            old(self).strips_variants(id, fuel as nat) ==> !(final(self).type_of(r) is EnumVariant),
        decreases fuel, 0nat,
    {
        if fuel == 0 {
            return id;
        }
        let typ = self.prune_type_once(id);
        match typ {
            Type::EnumVariant { inner, variant: _ } => self.decay_soft_types(inner, fuel - 1),
            _ => {
                let mut unused_cache: Vec<Option<TypeId>> = Vec::new();
                self.transform_parts(id, PartTransform::Decay, &mut unused_cache, fuel - 1)
            },
        }
    }

    /// The type with `transform` applied to each of its parts.
    fn transform_parts(&mut self, typ: TypeId, transform: PartTransform, cache: &mut Vec<Option<TypeId>>, fuel: usize) -> (r: TypeId)
        requires
            old(self).inv(),
        ensures
            final(self).keeps(old(self)),
            final(self).typed_ast == old(self).typed_ast,
            final(self).var_scopes == old(self).var_scopes,
            final(self).curr_label_infos == old(self).curr_label_infos,
            final(self).error_data.warnings@ == old(self).error_data.warnings@,
            old(self).types_grow(&*final(self)),
            old(self).cache_fits(old(cache)@) ==> final(self).cache_fits(final(cache)@),
            !has_parts(old(self).type_of(typ)) ==> r == typ && *final(self) == *old(self) && final(cache)@ == old(cache)@,
            has_parts(old(self).type_of(typ)) ==>
                r.0 < final(self).type_arena.types@.len() && same_shape(old(self).type_of(typ), final(self).type_arena.types@[r.0 as int]),
        decreases fuel, 2nat,
    {
        match self.prune_type_once(typ) {
            Type::CustomType(custom_id, inner) => {
                let inner = self.transform_one(inner, transform, cache, fuel);
                let ghost mid = *self;
                let r = self.add_type(Type::CustomType(custom_id, inner));
                proof { if old(self).cache_fits(old(cache)@) { mid.lemma_cache_fits_grow(&*self, cache@); } }
                r
            },
            Type::Tup(elems) => {
                let mut new_elems: Vec<TypeTuple> = Vec::new();
                let mut i: usize = 0;
                while i < elems.len()
                    invariant
                        self.keeps(old(self)),
                        self.typed_ast == old(self).typed_ast,
                        self.var_scopes == old(self).var_scopes,
                        self.curr_label_infos == old(self).curr_label_infos,
                        self.error_data.warnings@ == old(self).error_data.warnings@,
                        old(self).types_grow(&*self),
                        old(self).cache_fits(old(cache)@) ==> self.cache_fits(cache@),
                        0 <= i <= elems@.len(),
                        new_elems@.len() == i,
                        forall|j: int| 0 <= j < i ==> (#[trigger] new_elems@[j]).label@ == elems@[j].label@,
                    decreases elems@.len() - i,
                {
                    let t = self.transform_one(elems[i].typ, transform, cache, fuel);
                    new_elems.push(TypeTuple { label: elems[i].label.clone(), typ: t });
                    i = i + 1;
                }
                let ghost mid = *self;
                let r = self.add_type(Type::Tup(new_elems));
                proof { if old(self).cache_fits(old(cache)@) { mid.lemma_cache_fits_grow(&*self, cache@); } }
                r
            },
            Type::TupArr(inner, len) => {
                let inner = self.transform_one(inner, transform, cache, fuel);
                let ghost mid = *self;
                let r = self.add_type(Type::TupArr(inner, len));
                proof { if old(self).cache_fits(old(cache)@) { mid.lemma_cache_fits_grow(&*self, cache@); } }
                r
            },
            Type::Borrow { inner, mutable, borrows_var } => {
                let inner = self.transform_one(inner, transform, cache, fuel);
                let ghost mid = *self;
                let r = self.add_type(Type::Borrow { inner, mutable, borrows_var });
                proof { if old(self).cache_fits(old(cache)@) { mid.lemma_cache_fits_grow(&*self, cache@); } }
                r
            },
            Type::EnumVariant { inner, variant } => {
                let inner = self.transform_one(inner, transform, cache, fuel);
                let ghost mid = *self;
                let r = self.add_type(Type::EnumVariant { inner, variant });
                proof { if old(self).cache_fits(old(cache)@) { mid.lemma_cache_fits_grow(&*self, cache@); } }
                r
            },
            Type::Fn { param_types, return_type } => {
                let mut new_params: Vec<TypeId> = Vec::new();
                let mut i: usize = 0;
                while i < param_types.len()
                    invariant
                        self.keeps(old(self)),
                        self.typed_ast == old(self).typed_ast,
                        self.var_scopes == old(self).var_scopes,
                        self.curr_label_infos == old(self).curr_label_infos,
                        self.error_data.warnings@ == old(self).error_data.warnings@,
                        old(self).types_grow(&*self),
                        old(self).cache_fits(old(cache)@) ==> self.cache_fits(cache@),
                        0 <= i <= param_types@.len(),
                        new_params@.len() == i,
                    decreases param_types@.len() - i,
                {
                    new_params.push(self.transform_one(param_types[i], transform, cache, fuel));
                    i = i + 1;
                }
                let return_type = self.transform_one(return_type, transform, cache, fuel);
                let ghost mid = *self;
                let r = self.add_type(Type::Fn { param_types: new_params, return_type });
                proof { if old(self).cache_fits(old(cache)@) { mid.lemma_cache_fits_grow(&*self, cache@); } }
                r
            },
            _ => typ,
        }
    }

    fn transform_one(&mut self, inner: TypeId, transform: PartTransform, cache: &mut Vec<Option<TypeId>>, fuel: usize) -> (r: TypeId)
        requires
            old(self).inv(),
        ensures
            final(self).keeps(old(self)),
            final(self).typed_ast == old(self).typed_ast,
            final(self).var_scopes == old(self).var_scopes,
            final(self).curr_label_infos == old(self).curr_label_infos,
            final(self).error_data.warnings@ == old(self).error_data.warnings@,
            old(self).types_grow(&*final(self)),
            old(self).cache_fits(old(cache)@) ==> final(self).cache_fits(final(cache)@),
            transform is Decay ==> final(cache)@ == old(cache)@,
            transform is Decay && (fuel == 0 || !has_parts(old(self).type_of(inner))) ==> r == inner && *final(self) == *old(self),
            transform is Zonk && old(self).cache_fits(old(cache)@)
                && (fuel > 0 || (inner.0 < old(cache)@.len() && old(cache)@[inner.0 as int] is Some))
                ==> final(self).zonk_fits(inner, r),
        decreases fuel, 1nat,
    {
        match transform {
            PartTransform::Decay => {
                let r = self.decay_soft_types(inner, fuel);
                proof { if old(self).cache_fits(old(cache)@) { old(self).lemma_cache_fits_grow(&*self, cache@); } }
                r
            },
            PartTransform::Zonk(span) => self.zonk_type(inner, span, cache, fuel),
        }
    }

    /// Replaces every resolved inference variable in the type by what it stands for; an
    /// unresolved one is the error `TyperCantInferType`.
    fn zonk_type(&mut self, id: TypeId, span: Span, cache: &mut Vec<Option<TypeId>>, fuel: usize) -> (r: TypeId)
        requires
            old(self).inv(),
        ensures
            final(self).keeps(old(self)),
            final(self).typed_ast == old(self).typed_ast,
            final(self).var_scopes == old(self).var_scopes,
            final(self).curr_label_infos == old(self).curr_label_infos,
            final(self).error_data.warnings@ == old(self).error_data.warnings@,
            old(self).types_grow(&*final(self)),
            old(self).cache_fits(old(cache)@) ==> final(self).cache_fits(final(cache)@),
            // a type is zonked once; later it comes from the cache
            id.0 < old(cache)@.len() && old(cache)@[id.0 as int] is Some ==> r == old(cache)@[id.0 as int]->0
                && *final(self) == *old(self) && final(cache)@ == old(cache)@,
            old(self).cache_fits(old(cache)@) && (fuel > 0 || (id.0 < old(cache)@.len() && old(cache)@[id.0 as int] is Some))
                ==> final(self).zonk_fits(id, r),
            fuel > 0 && id.0 < final(self).type_arena.types@.len() ==> id.0 < final(cache)@.len() && final(cache)@[id.0 as int] == Some(r),
            // an unresolved inference variable is reported
            fuel > 0 && !(id.0 < old(cache)@.len() && old(cache)@[id.0 as int] is Some) && old(self).unresolved_at(id) ==>
                final(self).error_data.errors@.len() == old(self).error_data.errors@.len() + 1
                && final(self).error_data.errors@.last().err_type is TyperCantInferType
                && final(self).error_data.errors@.last().span == span,
        decreases fuel, 0nat,
    {
        if id.0 < cache.len() {
            if let Some(zonked) = cache[id.0] {
                return zonked;
            }
        }
        if fuel == 0 {
            return id;
        }

        let typ = self.type_at(id);
        let zonked_id = match typ {
            // try to resolve this inference variable
            Type::Infer(infer_id) => {
                let resolved = if infer_id.0 < self.inference_types.len() { self.inference_types[infer_id.0] } else { None };
                match resolved {
                    // resolved! keep zonking
                    Some(resolved_id) => self.zonk_type(resolved_id, span, cache, fuel - 1),
                    None => {
                        let typ_text = self.fmt_type(id);
                        self.error(ErrType::TyperCantInferType { typ: typ_text }, span)
                    },
                }
            },
            _ => self.transform_parts(id, PartTransform::Zonk(span), cache, fuel - 1),
        };

        // `add_type` might have added types
        let ghost fits_before = old(self).cache_fits(old(cache)@);
        let ghost cache_before = cache@;
        while cache.len() < self.type_arena.types.len()
            invariant
                self.keeps(old(self)),
                self.typed_ast == old(self).typed_ast,
                self.var_scopes == old(self).var_scopes,
                self.curr_label_infos == old(self).curr_label_infos,
                self.error_data.warnings@ == old(self).error_data.warnings@,
                old(self).types_grow(&*self),
                fits_before ==> self.cache_fits(cache@),
                fits_before ==> self.zonk_fits(id, zonked_id),
                cache@.len() >= cache_before.len(),
                forall|k: int| 0 <= k < cache_before.len() ==> #[trigger] cache@[k] == cache_before[k],
            decreases self.type_arena.types@.len() - cache@.len(),
        {
            cache.push(None);
        }
        if id.0 < cache.len() {
            cache.set(id.0, Some(zonked_id));
        }
        zonked_id
    }

    /// The last phase: every inference variable is replaced by what it was resolved to (an
    /// unresolved one is an error), and unused variables get warnings if there were no errors.
    pub(crate) fn finalize_types_and_vars(&mut self)
        requires
            old(self).inv(),
        ensures
            final(self).ast == old(self).ast,
            final(self).inv(),
            final(self).error_data.errors@.len() >= old(self).error_data.errors@.len(),
            forall|i: int| 0 <= i < old(self).error_data.errors@.len() ==>
                #[trigger] final(self).error_data.errors@[i] == old(self).error_data.errors@[i],
            forall|i: int| old(self).error_data.errors@.len() <= i < final(self).error_data.errors@.len() ==>
                crate::is_checker_error((#[trigger] final(self).error_data.errors@[i]).err_type),
            final(self).error_data.warnings@.len() >= old(self).error_data.warnings@.len(),
            forall|i: int| 0 <= i < old(self).error_data.warnings@.len() ==>
                #[trigger] final(self).error_data.warnings@[i] == old(self).error_data.warnings@[i],
            // unused variables are only reported where the types check without errors
            final(self).error_data.errors@.len() > 0 ==> final(self).error_data.warnings@ == old(self).error_data.warnings@,
            forall|k: int| old(self).error_data.warnings@.len() <= k < final(self).error_data.warnings@.len() ==>
                (#[trigger] final(self).error_data.warnings@[k]).err_type is UnusedVar
                || final(self).error_data.warnings@[k].err_type is UnusedMutVar,
            // without errors, each variable that is unused (or a `mut` that is never changed) is
            // warned of, in order
            final(self).error_data.errors@.len() == 0 ==>
                final(self).error_data.warnings@.skip(old(self).error_data.warnings@.len() as int).map_values(|w: ProgramError<WarnType>| warning_summary(w))
                == var_warnings(final(self).typed_ast.vars@, final(self).typed_ast.vars@.len() as int),
            // every expression's type is replaced by what it zonks to
            final(self).typed_ast.expr_types@.len() == old(self).typed_ast.expr_types@.len(),
            forall|i: int| 0 <= i < old(self).typed_ast.expr_types@.len()
                && (#[trigger] old(self).typed_ast.expr_types@[i]).0 < old(self).type_arena.types@.len() ==>
                final(self).zonk_fits(old(self).typed_ast.expr_types@[i], final(self).typed_ast.expr_types@[i]),
    {
        // a cache so that the same type is not zonked again and again
        let mut cache: Vec<Option<TypeId>> = Vec::new();
        let ghost before = old(self).typed_ast.expr_types@;

        // zonk expression types
        let mut i: usize = 0;
        while i < self.typed_ast.expr_types.len()
            invariant
                self.keeps(old(self)),
                self.error_data.warnings@ == old(self).error_data.warnings@,
                0 <= i <= self.typed_ast.expr_types@.len(),
                old(self).types_grow(&*self),
                self.cache_fits(cache@),
                self.typed_ast.expr_types@.len() == before.len(),
                forall|j: int| i <= j < before.len() ==> #[trigger] self.typed_ast.expr_types@[j] == before[j],
                forall|j: int| 0 <= j < i && (#[trigger] before[j]).0 < old(self).type_arena.types@.len() ==>
                    self.zonk_fits(before[j], self.typed_ast.expr_types@[j]),
            decreases self.typed_ast.expr_types@.len() - i,
        {
            let span = self.ast.expr_spans[i];
            let t = self.typed_ast.expr_types[i];
            let ghost pre = *self;
            let z = self.zonk_type(t, span, &mut cache, 1024);
            proof {
                assert forall|j: int| 0 <= j < i && (#[trigger] before[j]).0 < old(self).type_arena.types@.len() implies
                    self.zonk_fits(before[j], self.typed_ast.expr_types@[j]) by {
                    pre.lemma_zonk_fits_grow(&*self, before[j], self.typed_ast.expr_types@[j]);
                }
            }
            self.typed_ast.expr_types.set(i, z);
            i = i + 1;
        }
        let ghost zonked = self.typed_ast.expr_types@;
        // zonk variable types
        let mut i: usize = 0;
        while i < self.typed_ast.vars.len()
            invariant
                self.keeps(old(self)),
                self.error_data.warnings@ == old(self).error_data.warnings@,
                0 <= i <= self.typed_ast.vars@.len(),
                old(self).types_grow(&*self),
                self.cache_fits(cache@),
                self.typed_ast.expr_types@ == zonked,
                zonked.len() == before.len(),
                forall|j: int| 0 <= j < before.len() && (#[trigger] before[j]).0 < old(self).type_arena.types@.len() ==>
                    self.zonk_fits(before[j], zonked[j]),
            decreases self.typed_ast.vars@.len() - i,
        {
            let span = self.typed_ast.vars[i].declared_at;
            let t = self.typed_ast.vars[i].typ;
            let ghost pre = *self;
            let z = self.zonk_type(t, span, &mut cache, 1024);
            proof {
                assert forall|j: int| 0 <= j < before.len() && (#[trigger] before[j]).0 < old(self).type_arena.types@.len() implies
                    self.zonk_fits(before[j], zonked[j]) by {
                    pre.lemma_zonk_fits_grow(&*self, before[j], zonked[j]);
                }
            }
            self.typed_ast.vars[i].typ = z;
            i = i + 1;
        }
        // zonk enum variant types
        let mut i: usize = 0;
        let n_enums = self.typed_ast.enum_defs.len();
        while i < n_enums
            invariant
                self.keeps(old(self)),
                self.error_data.warnings@ == old(self).error_data.warnings@,
                n_enums == self.typed_ast.enum_defs@.len(),
                0 <= i <= n_enums,
                old(self).types_grow(&*self),
                self.cache_fits(cache@),
                self.typed_ast.expr_types@ == zonked,
                zonked.len() == before.len(),
                forall|j: int| 0 <= j < before.len() && (#[trigger] before[j]).0 < old(self).type_arena.types@.len() ==>
                    self.zonk_fits(before[j], zonked[j]),
            decreases n_enums - i,
        {
            let mut j: usize = 0;
            while j < self.typed_ast.enum_defs[i].variants.len()
                invariant
                    self.keeps(old(self)),
                    self.error_data.warnings@ == old(self).error_data.warnings@,
                    n_enums == self.typed_ast.enum_defs@.len(),
                    0 <= i < self.typed_ast.enum_defs@.len(),
                    0 <= j <= self.typed_ast.enum_defs@[i as int].variants@.len(),
                    old(self).types_grow(&*self),
                    self.cache_fits(cache@),
                    self.typed_ast.expr_types@ == zonked,
                    zonked.len() == before.len(),
                    forall|k: int| 0 <= k < before.len() && (#[trigger] before[k]).0 < old(self).type_arena.types@.len() ==>
                        self.zonk_fits(before[k], zonked[k]),
                decreases self.typed_ast.enum_defs@[i as int].variants@.len() - j,
            {
                let t = self.typed_ast.enum_defs[i].variants[j].1;
                let ghost pre = *self;
                let z = self.zonk_type(t, Span::invalid(), &mut cache, 1024);
                proof {
                    assert forall|k: int| 0 <= k < before.len() && (#[trigger] before[k]).0 < old(self).type_arena.types@.len() implies
                        self.zonk_fits(before[k], zonked[k]) by {
                        pre.lemma_zonk_fits_grow(&*self, before[k], zonked[k]);
                    }
                }
                self.typed_ast.enum_defs[i].variants[j].1 = z;
                j = j + 1;
            }
            i = i + 1;
        }

        let ghost fin = *self;
        // warnings for unused variables
        if self.error_data.errors.len() == 0 {
            let mut i: usize = 0;
            proof {
                assert(self.error_data.warnings@.skip(old(self).error_data.warnings@.len() as int) =~= Seq::empty());
                assert(self.error_data.warnings@.skip(old(self).error_data.warnings@.len() as int)
                    .map_values(|w: ProgramError<WarnType>| warning_summary(w)) =~= Seq::empty());
            }
            while i < self.typed_ast.vars.len()
                invariant
                    self.ast == old(self).ast,
                    self.inv(),
                    self.typed_ast.expr_types@ == zonked,
                    self.type_arena == fin.type_arena,
                    self.inference_types == fin.inference_types,
                    self.error_data.errors@.len() == 0,
                    self.error_data.errors@.len() >= old(self).error_data.errors@.len(),
                    self.error_data.warnings@.len() >= old(self).error_data.warnings@.len(),
                    forall|k: int| 0 <= k < old(self).error_data.warnings@.len() ==>
                        #[trigger] self.error_data.warnings@[k] == old(self).error_data.warnings@[k],
                    forall|k: int| old(self).error_data.warnings@.len() <= k < self.error_data.warnings@.len() ==>
                        (#[trigger] self.error_data.warnings@[k]).err_type is UnusedVar
                        || self.error_data.warnings@[k].err_type is UnusedMutVar,
                    0 <= i <= self.typed_ast.vars@.len(),
                    self.typed_ast.vars@ == fin.typed_ast.vars@,
                    fin.error_data.warnings@ == old(self).error_data.warnings@,
                    self.error_data.warnings@.skip(old(self).error_data.warnings@.len() as int).map_values(|w: ProgramError<WarnType>| warning_summary(w))
                        == var_warnings(self.typed_ast.vars@, i as int),
                decreases self.typed_ast.vars@.len() - i,
            {
                let ghost w0 = self.error_data.warnings@;
                let var = &self.typed_ast.vars[i];
                // the native library's values have no place in the source
                if var.declared_at.byte_offset != usize::MAX {
                    let unused = var.is_used == TypeVarIsUsed::No
                        && !crate::parsing::parse_patterns::starts_with_underscore(var.name.as_str());
                    let unused_mut = var.is_used == TypeVarIsUsed::Immut && var.is_declared_mut;
                    if unused {
                        let copy = var.copy_var();
                        let span = var.declared_at;
                        self.error_data.warn(WarnType::UnusedVar { var: copy }, span);
                    } else if unused_mut {
                        let copy = var.copy_var();
                        let span = var.declared_at;
                        self.error_data.warn(WarnType::UnusedMutVar { var: copy }, span);
                    }
                }
                proof {
                    let base = old(self).error_data.warnings@.len() as int;
                    let f = |w: ProgramError<WarnType>| warning_summary(w);
                    let w1 = self.error_data.warnings@;
                    if w1.len() > w0.len() {
                        assert(w1.skip(base) =~= w0.skip(base).push(w1.last()));
                    } else {
                        assert(w1 =~= w0);
                    }
                    assert(w1.skip(base).map_values(f) =~= var_warnings(self.typed_ast.vars@, i + 1));
                }
                i = i + 1;
            }
        }
    }
}

} // verus!
