use vstd::prelude::*;
use crate::ErrType;
use crate::parsing::ast::{AstArena, Expr, Pattern, PatternId};
use crate::typing::{EnumId, Type, TypeChecker, TypeId, TypeTuple, TypeVarId, UnifyMode};
use crate::typing::check_expressions::{AutoDerefMode, CheckExprCtx};
use crate::typing::type_vars::{DefineVarMode, TypeVarConstVal};

verus! {

/// Which values of the matched type a pattern (or several) surely matches.
pub enum Coverage {
    /// none that can be told
    Nothing,
    /// every value
    All,
    /// the booleans `true` and/or `false`
    Bools { t: bool, f: bool },
    /// every value of these enum variants (by index)
    Variants(Vec<usize>),
}

/// Whether `pattern`, looked at through at most `fuel` conditions on it, carries a type annotation.
pub open spec fn pattern_annotated(ast: &AstArena, pattern: PatternId, fuel: nat) -> bool
    decreases fuel,
{
    if fuel == 0 || pattern.0 >= ast.patterns@.len() {
        false
    } else {
        match ast.patterns@[pattern.0 as int] {
            Pattern::Typed { .. } => true,
            Pattern::Conditional { pattern: inner, .. } => pattern_annotated(ast, inner, (fuel - 1) as nat),
            _ => false,
        }
    }
}

/// The coverage of two alternatives together.
pub fn join_coverage_values(a: Coverage, b: Coverage) -> (r: Coverage)
    ensures
        (a is All || b is All) ==> (r is All),
        (a is Nothing) ==> (r == b),
        (a is Bools && b is Bools) ==> (r == (Coverage::Bools { t: a->t || b->t, f: a->f || b->f })),
        (b is Nothing && !(a is All)) ==> (r == a),
        (a is Variants && b is Variants) ==> (r is Variants && r->Variants_0@ == a->Variants_0@ + b->Variants_0@),
        ((a is Bools && b is Variants) || (a is Variants && b is Bools)) ==> (r == a),
{
    match (a, b) {
        (Coverage::All, _) | (_, Coverage::All) => Coverage::All,
        (Coverage::Nothing, other) => other,
        (other, Coverage::Nothing) => other,
        (Coverage::Bools { t: at, f: af }, Coverage::Bools { t: bt, f: bf }) => Coverage::Bools { t: at || bt, f: af || bf },
        (Coverage::Variants(mut va), Coverage::Variants(vb)) => {
            let ghost start = va@;
            let mut i: usize = 0;
            while i < vb.len()
                invariant
                    0 <= i <= vb@.len(),
                    va@ == start + vb@.take(i as int),
                decreases vb@.len() - i,
            {
                va.push(vb[i]);
                proof { assert(start + vb@.take(i + 1) =~= (start + vb@.take(i as int)).push(vb@[i as int])); }
                i = i + 1;
            }
            proof { assert(vb@.take(vb@.len() as int) =~= vb@); }
            Coverage::Variants(va)
        },
        (other, _) => other,
    }
}

/// Whether `v` is one of `vs`.
pub fn contains_index(vs: &Vec<usize>, v: usize) -> (r: bool)
    ensures
        r == vs@.contains(v),
{
    let mut i: usize = 0;
    while i < vs.len()
        invariant
            0 <= i <= vs@.len(),
            forall|k: int| 0 <= k < i ==> vs@[k] != v,
        decreases vs@.len() - i,
    {
        if vs[i] == v {
            proof { assert(vs@[i as int] == v); }
            return true;
        }
        i = i + 1;
    }
    false
}

impl<'a> TypeChecker<'a> {
    /// The coverage of two match arms together.
    pub(crate) fn join_coverage(&self, a: Coverage, b: Coverage, typ: TypeId) -> (r: Coverage)
        ensures
            (a is All || b is All) ==> (r is All),
            (a is Nothing) ==> (r == b),
            (a is Bools && b is Bools) ==> (r == (Coverage::Bools { t: a->t || b->t, f: a->f || b->f })),
            (b is Nothing && !(a is All)) ==> (r == a),
            (a is Variants && b is Variants) ==> (r is Variants && r->Variants_0@ == a->Variants_0@ + b->Variants_0@),
            ((a is Bools && b is Variants) || (a is Variants && b is Bools)) ==> (r == a),
    {
        join_coverage_values(a, b)
    }

    /// Whether the coverage takes in every value of `typ`: all values, both booleans, or every
    /// variant of the enum (the one variant of a refined enum type).
    pub(crate) fn covers_all(&self, cover: &Coverage, typ: TypeId) -> (r: bool)
        requires
            self.inv(),
        ensures
            (cover is All) ==> r,
            (cover is Nothing) ==> !r,
            cover matches Coverage::Bools { t, f } ==> r == (*t && *f),
            // a refined enum type has its one variant to cover
            cover is Variants && self.type_of(typ) is EnumVariant ==>
                r == cover->Variants_0@.contains(self.type_of(typ)->EnumVariant_variant),
            // an enum type has all its variants to cover
            cover is Variants && !(self.type_of(typ) is EnumVariant)
                && self.wrapped_enum(typ, self.type_arena.types@.len()) is Ok
                && self.wrapped_enum(typ, self.type_arena.types@.len())->Ok_0.0 < self.typed_ast.enum_defs@.len() ==>
                r == forall|v: usize| v < self.typed_ast.enum_defs@[self.wrapped_enum(typ, self.type_arena.types@.len())->Ok_0.0 as int].variants@.len()
                    ==> #[trigger] cover->Variants_0@.contains(v),
    {
        match cover {
            Coverage::All => true,
            Coverage::Nothing => false,
            Coverage::Bools { t, f } => *t && *f,
            Coverage::Variants(vs) => {
                match self.prune_type_once(typ) {
                    Type::EnumVariant { variant, .. } => contains_index(vs, variant),
                    _ => {
                        match self.get_wrapped_enum_id(typ) {
                            Ok(enum_id) => {
                                if enum_id.0 >= self.typed_ast.enum_defs.len() {
                                    return false;
                                }
                                let n = self.typed_ast.enum_defs[enum_id.0].variants.len();
                                let mut v: usize = 0;
                                while v < n
                                    invariant
                                        0 <= v <= n,
                                        cover is Variants,
                                        n == self.typed_ast.enum_defs@[enum_id.0 as int].variants@.len(),
                                        enum_id.0 < self.typed_ast.enum_defs@.len(),
                                        forall|w: usize| w < v ==> #[trigger] vs@.contains(w),
                                        vs@ == cover->Variants_0@,
                                        !(self.type_of(typ) is EnumVariant),
                                        self.wrapped_enum(typ, self.type_arena.types@.len()) == Ok::<EnumId, Type>(enum_id),
                                    decreases n - v,
                                {
                                    if !contains_index(vs, v) {
                                        return false;
                                    }
                                    v = v + 1;
                                }
                                true
                            },
                            Err(_) => false,
                        }
                    },
                }
            },
        }
    }

    /// A value of type `typ` is copied (not moved) when used: numbers, booleans, types, functions,
    /// shared references and what is made only of those, looking `depth` levels deep.
    pub open spec fn copy_type(&self, typ: TypeId, depth: nat) -> bool
        decreases depth,
    {
        if depth == 0 {
            false
        } else {
            let d = (depth - 1) as nat;
            match self.type_of(typ) {
                Type::Str => false,
                Type::Borrow { mutable, .. } => !mutable,
                Type::Tup(elems) => forall|i: int| 0 <= i < elems@.len() ==> self.copy_type(#[trigger] elems@[i].typ, d),
                Type::TupArr(inner, _) => self.copy_type(inner, d),
                Type::CustomType(_, inner) => self.copy_type(inner, d),
                Type::EnumVariant { inner, .. } => self.copy_type(inner, d),
                Type::Enum(e) => e.0 >= self.typed_ast.enum_defs@.len()
                    || forall|v: int| 0 <= v < self.typed_ast.enum_defs@[e.0 as int].variants@.len()
                        ==> self.copy_type(#[trigger] self.typed_ast.enum_defs@[e.0 as int].variants@[v].1, d),
                _ => true,
            }
        }
    }

    /// An enum whose variant `v` holds a moved type is moved itself.
    proof fn lemma_enum_with_moved_variant(&self, typ: TypeId, depth: nat, e: EnumId, v: int)
        requires
            depth > 0,
            self.type_of(typ) == Type::Enum(e),
            e.0 < self.typed_ast.enum_defs@.len(),
            0 <= v < self.typed_ast.enum_defs@[e.0 as int].variants@.len(),
            !self.copy_type(self.typed_ast.enum_defs@[e.0 as int].variants@[v].1, (depth - 1) as nat),
        ensures
            !self.copy_type(typ, depth),
    {
        let d = (depth - 1) as nat;
        assert(!(forall|w: int| 0 <= w < self.typed_ast.enum_defs@[e.0 as int].variants@.len()
            ==> self.copy_type(#[trigger] self.typed_ast.enum_defs@[e.0 as int].variants@[w].1, d)));
    }

    /// Whether a value of the type is copied (not moved) when used, looking `depth` levels deep.
    #[verifier::spinoff_prover]
    pub(crate) fn is_copy_type(&self, typ: TypeId, depth: u64) -> (r: bool)
        requires
            self.inv(),
        ensures
            r == self.copy_type(typ, depth as nat),
        decreases depth,
    {
        if depth == 0 {
            return false;
        }
        match self.prune_type_once(typ) {
            Type::Str => false,
            Type::Borrow { mutable, .. } => !mutable,
            Type::Tup(elems) => {
                let mut i: usize = 0;
                let ghost te: Seq<TypeTuple> = match self.type_of(typ) { Type::Tup(x) => x@, _ => Seq::empty() };
                while i < elems.len()
                    invariant
                        self.inv(),
                        0 <= i <= elems@.len(),
                        depth > 0,
                        crate::typing::type_arena::tuple_elems_match(elems@, te),
                        self.type_of(typ) is Tup,
                        te == (match self.type_of(typ) { Type::Tup(x) => x@, _ => Seq::empty() }),
                        forall|k: int| 0 <= k < i ==> self.copy_type(#[trigger] te[k].typ, (depth - 1) as nat),
                    decreases elems@.len() - i,
                {
                    if !self.is_copy_type(elems[i].typ, depth - 1) {
                        proof {
                            assert(te[i as int].typ == elems@[i as int].typ);
                            assert(!self.copy_type(te[i as int].typ, (depth - 1) as nat));
                        }
                        return false;
                    }
                    i = i + 1;
                }
                true
            },
            Type::TupArr(inner, _) => self.is_copy_type(inner, depth - 1),
            Type::CustomType(_, inner) => self.is_copy_type(inner, depth - 1),
            Type::EnumVariant { inner, .. } => self.is_copy_type(inner, depth - 1),
            Type::Enum(enum_id) => {
                if enum_id.0 >= self.typed_ast.enum_defs.len() {
                    return true;
                }
                let n = self.typed_ast.enum_defs[enum_id.0].variants.len();
                let mut v: usize = 0;
                while v < n
                    invariant
                        self.inv(),
                        0 <= v <= n,
                        enum_id.0 < self.typed_ast.enum_defs@.len(),
                        n == self.typed_ast.enum_defs@[enum_id.0 as int].variants@.len(),
                        depth > 0,
                        self.type_of(typ) == Type::Enum(enum_id),
                        forall|k: int| 0 <= k < v ==>
                            self.copy_type(#[trigger] self.typed_ast.enum_defs@[enum_id.0 as int].variants@[k].1, (depth - 1) as nat),
                    decreases n - v,
                {
                    if !self.is_copy_type(self.typed_ast.enum_defs[enum_id.0].variants[v].1, depth - 1) {
                        proof {
                            self.lemma_enum_with_moved_variant(typ, depth as nat, enum_id, v as int);
                        }
                        return false;
                    }
                    v = v + 1;
                }
                true
            },
            _ => true,
        }
    }

    /// Defines (as constants in the given state) the variables that the binding patterns in
    /// `pattern` name. A constant can't be `mut`.
    pub(crate) fn mark_vars_in_pattern_as_const(&mut self, pattern: PatternId, state: &TypeVarConstVal, depth: u64)
        requires
            old(self).inv(),
        ensures
            final(self).keeps(old(self)),
            // a binding defines a new constant, which can't be `mut`
            depth > 0 && pattern.0 < old(self).ast.patterns@.len() && old(self).ast.patterns@[pattern.0 as int] is Binding ==> ({
                let v = old(self).typed_ast.vars@.len();
                &&& final(self).typed_ast.pattern_vars@[pattern.0 as int] == Some(TypeVarId(v as usize))
                &&& final(self).typed_ast.vars@.len() == v + 1
                &&& final(self).typed_ast.vars@[v as int].name@ == old(self).ast.patterns@[pattern.0 as int]->Binding_name@
                &&& !final(self).typed_ast.vars@[v as int].is_declared_mut
                &&& old(self).ast.patterns@[pattern.0 as int]->Binding_mutable ==>
                    final(self).error_data.errors@[old(self).error_data.errors@.len() as int].err_type is TyperConstCantBeMutable
            }),
        decreases depth,
    {
        if depth == 0 || pattern.0 >= self.ast.patterns.len() {
            return;
        }
        let ast = self.ast;
        let span = ast.get_pattern_span(pattern);
        match ast.get_pattern(pattern) {
            Pattern::Binding { name, mutable } => {
                if *mutable {
                    self.error(ErrType::TyperConstCantBeMutable, span);
                }
                let typ = self.new_infer_type();
                let var_id = self.define_variable(name.as_str(), typ, true, span, DefineVarMode::Const(state.copy_const_val()));
                self.typed_ast.pattern_vars.set(pattern.0, Some(var_id));
            },
            Pattern::Tuple(elems) => {
                let mut i: usize = 0;
                while i < elems.len()
                    invariant
                        self.keeps(old(self)),
                        0 <= i <= elems@.len(),
                        depth > 0,
                    decreases elems@.len() - i,
                {
                    self.mark_vars_in_pattern_as_const(elems[i].pattern, state, depth - 1);
                    i = i + 1;
                }
            },
            Pattern::Or(alts) => {
                let mut i: usize = 0;
                while i < alts.len()
                    invariant
                        self.keeps(old(self)),
                        0 <= i <= alts@.len(),
                        depth > 0,
                    decreases alts@.len() - i,
                {
                    self.mark_vars_in_pattern_as_const(alts[i], state, depth - 1);
                    i = i + 1;
                }
            },
            Pattern::Typed { pattern: inner, .. } => self.mark_vars_in_pattern_as_const(*inner, state, depth - 1),
            Pattern::Conditional { pattern: inner, .. } => self.mark_vars_in_pattern_as_const(*inner, state, depth - 1),
            _ => {},
        }
    }

    /// The type that the pattern's annotation (`x: T`) gives, if it has one.
    pub(crate) fn get_pattern_type(&mut self, pattern: PatternId, fuel: u64) -> (r: Option<TypeId>)
        requires
            old(self).inv(),
            pattern.0 < old(self).ast.patterns@.len(),
        ensures
            final(self).keeps(old(self)),
            r is Some == pattern_annotated(old(self).ast, pattern, fuel as nat),
        decreases fuel,
    {
        if fuel == 0 {
            return None;
        }
        let ast = self.ast;
        match ast.get_pattern(pattern) {
            Pattern::Typed { typ, .. } => Some(self.check_annotation_meta_type_id(*typ, true, fuel - 1)),
            Pattern::Conditional { pattern: inner, .. } => self.get_pattern_type(*inner, fuel - 1),
            _ => None,
        }
    }

    /// The type behind any references.
    fn deref_type(&self, typ: TypeId) -> (r: TypeId)
        requires
            self.inv(),
        ensures
            r == self.deref_result(AutoDerefMode::Fully, typ),
    {
        reveal(TypeChecker::deref_result);
        let mut t = typ;
        let mut steps: usize = 0;
        let bound = self.type_arena.types.len();
        while steps < bound
            invariant
                self.inv(),
                bound == self.type_arena.types@.len(),
                0 <= steps <= bound,
                self.deref_result(AutoDerefMode::Fully, typ) == self.deref_chain(t, false, (bound - steps) as nat),
            decreases bound - steps,
        {
            match self.prune_type_once(t) {
                Type::Borrow { inner, .. } => { t = inner; },
                _ => { return t; },
            }
            steps = steps + 1;
        }
        t
    }

    /// Checks `pattern` against a value of type `expected` (none: the pattern decides); gives the
    /// pattern's type and the values it surely matches. Binding patterns define variables (or, for
    /// a constant, `const_update` gives their state) and add their names to `bound`;
    /// `annotation_checked` says that an annotation on top was checked already.
    pub(crate) fn check_match_pattern(&mut self, pattern: PatternId, expected: Option<TypeId>, annotation_checked: bool,
        value_given: bool, const_update: &Option<TypeVarConstVal>, bound: &mut Vec<String>, fuel: u64) -> (r: (TypeId, Coverage))
        requires
            old(self).inv(),
            pattern.0 < old(self).ast.patterns@.len(),
        ensures
            final(self).keeps(old(self)),
            old(bound)@.len() <= final(bound)@.len(),
            fuel > 0 ==> match old(self).ast.patterns@[pattern.0 as int] {
                // `_` and a binding match every value, of the expected type
                Pattern::Wildcard => r.1 is All && (expected is Some ==> r.0 == expected->0),
                Pattern::Binding { name, mutable } => {
                    &&& r.1 is All
                    &&& expected is Some ==> r.0 == expected->0
                    &&& final(bound)@.len() == old(bound)@.len() + 1
                    &&& final(bound)@.last()@ == name@
                    &&& const_update is None ==> ({
                        let v = old(self).typed_ast.vars@.len();
                        &&& final(self).typed_ast.pattern_vars@[pattern.0 as int] == Some(TypeVarId(v as usize))
                        &&& final(self).typed_ast.vars@.len() == v + 1
                        &&& final(self).typed_ast.vars@[v as int].name@ == name@
                        &&& final(self).typed_ast.vars@[v as int].is_declared_mut == mutable
                    })
                },
                // a condition can fail, so it surely matches nothing
                Pattern::Conditional { .. } => r.1 is Nothing,
                _ => true,
            },
        decreases fuel,
    {
        if fuel == 0 {
            return (TypeId::error_type(), Coverage::Nothing);
        }
        let f = fuel - 1;
        let ast = self.ast;
        let span = ast.get_pattern_span(pattern);
        let expected_or_infer = match expected {
            Some(t) => t,
            None => self.new_infer_type(),
        };
        match ast.get_pattern(pattern) {
            Pattern::Wildcard => (expected_or_infer, Coverage::All),

            Pattern::Binding { name, mutable } => {
                match const_update {
                    Some(state) => {
                        // a constant: the variable was defined when it was hoisted
                        match self.typed_ast.pattern_vars[pattern.0] {
                            Some(v) => {
                                if v.0 < self.typed_ast.vars.len() {
                                    let typ = if annotation_checked { expected_or_infer } else { self.decay_soft_types(expected_or_infer, 64) };
                                    self.typed_ast.vars[v.0].typ = typ;
                                    self.typed_ast.vars[v.0].const_val = state.copy_const_val();
                                }
                            },
                            None => {},
                        }
                    },
                    None => {
                        let var_id = self.define_variable(name.as_str(), expected_or_infer, annotation_checked, span,
                            DefineVarMode::Var { mutable: *mutable, is_init: value_given });
                        self.typed_ast.pattern_vars.set(pattern.0, Some(var_id));
                    },
                }
                bound.push(name.clone());
                (expected_or_infer, Coverage::All)
            },

            Pattern::Typed { pattern: inner, typ } => {
                let annotated = if annotation_checked {
                    expected_or_infer
                } else {
                    let t = self.check_annotation_meta_type_id(*typ, true, f);
                    match expected {
                        Some(e) => { self.unify_types(t, e, span, UnifyMode::Subtype); },
                        None => {},
                    }
                    t
                };
                self.check_match_pattern(*inner, Some(annotated), true, value_given, const_update, bound, f)
            },

            Pattern::Conditional { pattern: inner, cond } => {
                let (t, _) = self.check_match_pattern(*inner, expected, annotation_checked, value_given, const_update, bound, f);
                let mut is_never = false;
                let cond_ctx = CheckExprCtx::new().expect(TypeId::bool_type()).allow_is_bindings(true);
                self.check_expression(*cond, &mut is_never, cond_ctx, f);
                (t, Coverage::Nothing)
            },

            Pattern::Tuple(elems) => {
                let value_type = self.deref_type(expected_or_infer);
                let pruned = self.prune_type_once(value_type);
                let n = elems.len();
                let mut elem_types: Vec<TypeTuple> = Vec::new();
                let mut all_covered = true;
                let mut mismatch = false;
                let shape_ok = match &pruned {
                    Type::Tup(types) => types.len() == n,
                    Type::TupArr(_, len) => *len == n,
                    Type::Infer(_) | Type::Error => true,
                    _ => false,
                };
                let mut i: usize = 0;
                while i < n
                    invariant
                        f < fuel,
                        self.keeps(old(self)),
                        ast == old(self).ast,
                        n == elems@.len(),
                        0 <= i <= n,
                        forall|k: int| 0 <= k < elems@.len() ==> (#[trigger] elems@[k]).pattern.0 < ast.patterns@.len(),
                        old(bound)@.len() <= bound@.len(),
                    decreases n - i,
                {
                    let elem_expected = if !shape_ok {
                        Some(TypeId::error_type())
                    } else {
                        match &pruned {
                            Type::Tup(types) => {
                                if i < types.len() {
                                    if !crate::text::str_eq(types[i].label.as_str(), elems[i].label.as_str()) {
                                        mismatch = true;
                                    }
                                    Some(types[i].typ)
                                } else {
                                    None
                                }
                            },
                            Type::TupArr(inner, _) => Some(*inner),
                            Type::Error => Some(TypeId::error_type()),
                            _ => None,
                        }
                    };
                    let (t, cover) = self.check_match_pattern(elems[i].pattern, elem_expected, false, value_given, const_update, bound, f);
                    if !matches!(cover, Coverage::All) {
                        all_covered = false;
                    }
                    elem_types.push(TypeTuple { label: elems[i].label.clone(), typ: t });
                    i = i + 1;
                }
                let tuple_type = self.add_type(Type::Tup(elem_types));
                if !shape_ok || mismatch {
                    self.type_mismatch(expected_or_infer, tuple_type, span);
                } else {
                    match pruned {
                        Type::Infer(_) => { self.unify_types(value_type, tuple_type, span, UnifyMode::Subtype); },
                        _ => {},
                    }
                }
                (expected_or_infer, if all_covered { Coverage::All } else { Coverage::Nothing })
            },

            Pattern::CompareExpr(e) => {
                let value_type = self.deref_type(expected_or_infer);
                let mut is_never = false;
                let ctx = CheckExprCtx::new().expect(value_type).auto_deref(AutoDerefMode::Fully);
                self.check_expression(*e, &mut is_never, ctx, f);
                let cover = match ast.get_expr(*e) {
                    Expr::Literal { val: crate::parsing::ast::AstValue::Bool(b) } => Coverage::Bools { t: *b, f: !*b },
                    _ => Coverage::Nothing,
                };
                (expected_or_infer, cover)
            },

            Pattern::PlacePointer(e) => {
                // `x = value`, `tup[0] = value`: a mutable place
                let mut is_never = false;
                let ctx = CheckExprCtx::new().auto_borrow_mut(true);
                let place_type = self.check_expression(*e, &mut is_never, ctx, f);
                let e_span = ast.get_expr_span(*e);
                match self.prune_type_once_infer_err(place_type, e_span) {
                    Type::Borrow { inner, borrows_var, .. } => {
                        match borrows_var {
                            Some(var) => self.update_variable(var, span),
                            None => {},
                        }
                        match expected {
                            Some(value_type) => { self.unify_types(inner, value_type, span, UnifyMode::Subtype); },
                            None => {},
                        }
                        (inner, Coverage::All)
                    },
                    Type::Error => (TypeId::error_type(), Coverage::All),
                    _ => {
                        let typ = self.fmt_type(place_type);
                        self.error(ErrType::TyperCantDerefNonPointerType { typ }, e_span);
                        (TypeId::error_type(), Coverage::All)
                    },
                }
            },

            Pattern::Not(inner) => {
                let mut inner_bound: Vec<String> = Vec::new();
                self.check_match_pattern(*inner, expected, annotation_checked, value_given, const_update, &mut inner_bound, f);
                if inner_bound.len() > 0 {
                    self.error(ErrType::TyperNotPatternCantBindVars, span);
                }
                (expected_or_infer, Coverage::Nothing)
            },

            Pattern::Or(alts) => {
                let mut cover = Coverage::Nothing;
                let mut first_bound: Vec<String> = Vec::new();
                let mut i: usize = 0;
                while i < alts.len()
                    invariant
                        f < fuel,
                        self.keeps(old(self)),
                        ast == old(self).ast,
                        0 <= i <= alts@.len(),
                        forall|k: int| 0 <= k < alts@.len() ==> (#[trigger] alts@[k]).0 < ast.patterns@.len(),
                        old(bound)@.len() <= bound@.len(),
                    decreases alts@.len() - i,
                {
                    let mut alt_bound: Vec<String> = Vec::new();
                    let (_, alt_cover) = self.check_match_pattern(alts[i], Some(expected_or_infer), annotation_checked, value_given,
                        const_update, &mut alt_bound, f);
                    cover = join_coverage_values(cover, alt_cover);
                    let alt_span = ast.get_pattern_span(alts[i]);
                    if i == 0 {
                        first_bound = clone_names(&alt_bound);
                    } else {
                        // every alternative has to bind the same variables as the first
                        let missing = names_not_in(&first_bound, &alt_bound);
                        if missing.len() > 0 {
                            self.error(ErrType::TyperOrPatternDoesntBindVars { vars: missing }, alt_span);
                        }
                        let extra = names_not_in(&alt_bound, &first_bound);
                        if extra.len() > 0 {
                            self.error(ErrType::TyperOrPatternBindsVarsTooMuch { vars: extra }, alt_span);
                        }
                    }
                    let mut j: usize = 0;
                    while j < alt_bound.len()
                        invariant
                            f < fuel,
                            0 <= j <= alt_bound@.len(),
                            old(bound)@.len() <= bound@.len(),
                        decreases alt_bound@.len() - j,
                    {
                        bound.push(alt_bound[j].clone());
                        j = j + 1;
                    }
                    i = i + 1;
                }
                (expected_or_infer, cover)
            },

            Pattern::String { hole_parts, .. } => {
                let value_type = self.deref_type(expected_or_infer);
                self.unify_types(value_type, TypeId::str_type(), span, UnifyMode::Subtype);
                let n = hole_parts.len();
                let mut i: usize = 0;
                while i < n
                    invariant
                        f < fuel,
                        self.keeps(old(self)),
                        ast == old(self).ast,
                        n == hole_parts@.len(),
                        0 <= i <= n,
                        forall|k: int| 0 <= k < hole_parts@.len() ==> (#[trigger] hole_parts@[k]).0.0 < ast.patterns@.len(),
                        old(bound)@.len() <= bound@.len(),
                    decreases n - i,
                {
                    // two holes need text between them
                    if i + 1 < n && hole_parts[i].1.as_str().as_bytes().len() == 0 {
                        self.error(ErrType::TyperPatternStringHolesInARow, span);
                    }
                    self.check_match_pattern(hole_parts[i].0, Some(TypeId::str_type()), false, value_given, const_update, bound, f);
                    i = i + 1;
                }
                (expected_or_infer, Coverage::Nothing)
            },

            Pattern::EnumVariant { name, attached_tuple } => {
                let value_type = self.deref_type(expected_or_infer);
                match self.check_enum_variant(name.as_str(), Some(value_type), Some(span)) {
                    Some((_, variant, attached_type, refine_type)) => {
                        let attached_all = match attached_tuple {
                            Some(tp) => {
                                let (_, c) = self.check_match_pattern(*tp, Some(attached_type), false, value_given, const_update, bound, f);
                                matches!(c, Coverage::All)
                            },
                            None => true,
                        };
                        let mut vs: Vec<usize> = Vec::new();
                        vs.push(variant);
                        (refine_type, if attached_all { Coverage::Variants(vs) } else { Coverage::Nothing })
                    },
                    None => (TypeId::error_type(), Coverage::Nothing),
                }
            },

            Pattern::TypeDestructor { typ, data } => {
                let meta = self.check_annotation_meta_type_id(*typ, true, f);
                let value_type = self.deref_type(expected_or_infer);
                match self.prune_type_once_infer_err(meta, span) {
                    Type::CustomType(_, inner) => {
                        self.unify_types(meta, value_type, span, UnifyMode::Subtype);
                        let data_cover = self.check_destructor_data(*data, inner, value_given, const_update, bound, f);
                        (meta, if data_cover { Coverage::All } else { Coverage::Nothing })
                    },
                    Type::Error => (TypeId::error_type(), Coverage::Nothing),
                    _ => {
                        let typ_text = self.fmt_type(meta);
                        self.error(ErrType::TyperMustBeCustomtypeType { typ: typ_text }, span);
                        (TypeId::error_type(), Coverage::Nothing)
                    },
                }
            },
        }
    }

    /// The data pattern of `N{ ... }` against the custom type's inner type: a tuple type takes the
    /// tuple pattern, any other type its one unlabelled element. Gives whether it matches every value.
    fn check_destructor_data(&mut self, data: PatternId, inner: TypeId, value_given: bool, const_update: &Option<TypeVarConstVal>,
        bound: &mut Vec<String>, fuel: u64) -> (r: bool)
        requires
            old(self).inv(),
            data.0 < old(self).ast.patterns@.len(),
        ensures
            final(self).keeps(old(self)),
            old(bound)@.len() <= final(bound)@.len(),
            fuel == 0 ==> !r,
            // `_` or a binding takes all of the data; a condition on it none
            fuel > 1 && (old(self).ast.patterns@[data.0 as int] is Wildcard || old(self).ast.patterns@[data.0 as int] is Binding) ==> r,
            fuel > 1 && old(self).ast.patterns@[data.0 as int] is Conditional ==> !r,
        decreases fuel,
    {
        if fuel == 0 {
            return false;
        }
        let f = fuel - 1;
        let ast = self.ast;
        match self.prune_type_once(inner) {
            Type::Tup(_) | Type::TupArr(_, _) => {
                let (_, c) = self.check_match_pattern(data, Some(inner), false, value_given, const_update, bound, f);
                matches!(c, Coverage::All)
            },
            _ => {
                match ast.get_pattern(data) {
                    Pattern::Tuple(elems) => {
                        if elems.len() == 1 && crate::text::str_eq(elems[0].label.as_str(), "0") {
                            let (_, c) = self.check_match_pattern(elems[0].pattern, Some(inner), false, value_given, const_update, bound, f);
                            matches!(c, Coverage::All)
                        } else {
                            let span = ast.get_pattern_span(data);
                            self.error(ErrType::TyperNewTypesExpectOneUnlabeledExpr, span);
                            false
                        }
                    },
                    _ => {
                        let (_, c) = self.check_match_pattern(data, Some(inner), false, value_given, const_update, bound, f);
                        matches!(c, Coverage::All)
                    },
                }
            },
        }
    }
}

/// A copy of the names.
pub fn clone_names(names: &Vec<String>) -> (r: Vec<String>)
    ensures
        r@.len() == names@.len(),
        forall|k: int| 0 <= k < names@.len() ==> (#[trigger] r@[k])@ == names@[k]@,
{
    let mut r: Vec<String> = Vec::new();
    let mut i: usize = 0;
    while i < names.len()
        invariant
            0 <= i <= names@.len(),
            r@.len() == i,
            forall|k: int| 0 <= k < i ==> (#[trigger] r@[k])@ == names@[k]@,
        decreases names@.len() - i,
    {
        r.push(names[i].clone());
        i = i + 1;
    }
    r
}

/// `names` has the name `n`.
pub open spec fn has_name(names: Seq<String>, n: Seq<char>) -> bool {
    exists|i: int| 0 <= i < names.len() && (#[trigger] names[i])@ == n
}

/// Whether `names` has the name `n`.
pub fn contains_name(names: &Vec<String>, n: &str) -> (r: bool)
    ensures
        r == has_name(names@, n@),
{
    let mut j: usize = 0;
    while j < names.len()
        invariant
            0 <= j <= names@.len(),
            forall|m: int| 0 <= m < j ==> (#[trigger] names@[m])@ != n@,
        decreases names@.len() - j,
    {
        if crate::text::str_eq(names[j].as_str(), n) {
            proof { assert(names@[j as int]@ == n@); }
            return true;
        }
        j = j + 1;
    }
    false
}

/// The names of `a` that `b` doesn't have, in order.
pub fn names_not_in(a: &Vec<String>, b: &Vec<String>) -> (r: Vec<String>)
    ensures
        forall|k: int| 0 <= k < r@.len() ==> has_name(a@, (#[trigger] r@[k])@) && !has_name(b@, r@[k]@),
        forall|i: int| 0 <= i < a@.len() && !has_name(b@, (#[trigger] a@[i])@) ==> has_name(r@, a@[i]@),
{
    let mut r: Vec<String> = Vec::new();
    let mut i: usize = 0;
    while i < a.len()
        invariant
            0 <= i <= a@.len(),
            forall|k: int| 0 <= k < r@.len() ==> has_name(a@, (#[trigger] r@[k])@) && !has_name(b@, r@[k]@),
            forall|m: int| 0 <= m < i && !has_name(b@, (#[trigger] a@[m])@) ==> has_name(r@, a@[m]@),
        decreases a@.len() - i,
    {
        let ghost old_r = r@;
        if !contains_name(b, a[i].as_str()) {
            r.push(a[i].clone());
            proof {
                assert(r@[r@.len() - 1]@ == a@[i as int]@);
                assert(has_name(a@, a@[i as int]@));
                assert forall|k: int| 0 <= k < r@.len() implies has_name(a@, (#[trigger] r@[k])@) && !has_name(b@, r@[k]@) by {
                    if k < old_r.len() {
                        assert(r@[k] == old_r[k]);
                    }
                }
                assert forall|m: int| 0 <= m < i + 1 && !has_name(b@, (#[trigger] a@[m])@) implies has_name(r@, a@[m]@) by {
                    if m < i {
                        let k = choose|k: int| 0 <= k < old_r.len() && (#[trigger] old_r[k])@ == a@[m]@;
                        assert(r@[k] == old_r[k]);
                    } else {
                        assert(r@[r@.len() - 1]@ == a@[m]@);
                    }
                }
            }
        }
        i = i + 1;
    }
    r
}

} // verus!
