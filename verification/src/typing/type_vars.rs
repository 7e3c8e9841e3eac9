use vstd::prelude::*;
use crate::{ErrType, ProgramError};
use crate::lexing::tokens::Span;
use crate::nativelib::{ThrumModule, ThrumValue};
use crate::parsing::ast::{AstEnumExpression, AstValue, Expr, ExprId, Pattern, PatternId};
use crate::typing::{CustomType, CustomTypeId, EnumDefinition, EnumId, LabelInfo, Type, TypeChecker, TypeId, TypeVarId, UnifyMode};
use crate::typing::check_expressions::CheckExprCtx;
use crate::typing::type_arena::clone_type;
use crate::vm_compiling::VmValue;

verus! {

/// The variables defined in one scope, by name; a later entry of a name shadows an earlier one.
#[derive(Debug)]
pub struct TypeVarScope {
    pub scope: Vec<(String, TypeVarId)>,
}

impl TypeVarScope {
    pub fn new() -> (r: Self)
        ensures
            r.scope@.len() == 0,
    {
        TypeVarScope { scope: Vec::new() }
    }

    /// The variable that `name` stands for in this scope: the latest entry of that name.
    pub fn get(&self, name: &str) -> (r: Option<TypeVarId>)
        ensures
            r == scope_lookup(self.scope@, name@),
    {
        let mut k = self.scope.len();
        proof { assert(self.scope@.take(k as int) =~= self.scope@); }
        while k > 0
            invariant
                0 <= k <= self.scope@.len(),
                scope_lookup(self.scope@, name@) == scope_lookup(self.scope@.take(k as int), name@),
            decreases k,
        {
            proof {
                assert(self.scope@.take(k as int).drop_last() =~= self.scope@.take(k - 1));
            }
            k = k - 1;
            if crate::text::str_eq(self.scope[k].0.as_str(), name) {
                return Some(self.scope[k].1);
            }
        }
        None
    }

    /// Records that `name` stands for `id` from now on; gives what it stood for before.
    pub fn insert(&mut self, name: String, id: TypeVarId) -> (r: Option<TypeVarId>)
        ensures
            final(self).scope@ == old(self).scope@.push((name, id)),
            r == scope_lookup(old(self).scope@, name@),
    {
        let previous = self.get(name.as_str());
        self.scope.push((name, id));
        previous
    }
}

/// What `name` stands for in the scope entries: the latest entry of that name.
pub open spec fn scope_lookup(entries: Seq<(String, TypeVarId)>, name: Seq<char>) -> Option<TypeVarId>
    decreases entries.len(),
{
    if entries.len() == 0 {
        None
    } else if entries.last().0@ == name {
        Some(entries.last().1)
    } else {
        scope_lookup(entries.drop_last(), name)
    }
}

/// A name is found in a scope exactly when some entry has it.
pub proof fn lemma_scope_lookup_some(entries: Seq<(String, TypeVarId)>, name: Seq<char>)
    ensures
        scope_lookup(entries, name) is Some <==> exists|k: int| 0 <= k < entries.len() && (#[trigger] entries[k]).0@ == name,
    decreases entries.len(),
{
    if entries.len() > 0 {
        lemma_scope_lookup_some(entries.drop_last(), name);
        if scope_lookup(entries.drop_last(), name) is Some {
            let k = choose|k: int| 0 <= k < entries.drop_last().len() && (#[trigger] entries.drop_last()[k]).0@ == name;
            assert(entries[k] == entries.drop_last()[k]);
        }
        if exists|k: int| 0 <= k < entries.len() && (#[trigger] entries[k]).0@ == name {
            let k = choose|k: int| 0 <= k < entries.len() && (#[trigger] entries[k]).0@ == name;
            if k < entries.len() - 1 {
                assert(entries.drop_last()[k] == entries[k]);
            }
        }
    }
}

/// After a variable is defined under a name, the name stands for it.
pub proof fn law_scope_defined_name_found(entries: Seq<(String, TypeVarId)>, name: String, id: TypeVarId)
    ensures
        scope_lookup(entries.push((name, id)), name@) == Some(id),
{
    assert(entries.push((name, id)).last() == (name, id));
}

/// Defining a variable under one name leaves what every other name stands for unchanged.
pub proof fn law_scope_other_names_unchanged(entries: Seq<(String, TypeVarId)>, name: String, id: TypeVarId, other: Seq<char>)
    requires
        other != name@,
    ensures
        scope_lookup(entries.push((name, id)), other) == scope_lookup(entries, other),
{
    assert(entries.push((name, id)).drop_last() =~= entries);
}

/// A variable (or constant) known to the type checker.
#[derive(Debug)]
pub struct TypeVar {
    pub name: String,
    pub typ: TypeId,
    /// Source code location, for error messages
    pub declared_at: Span,
    pub is_declared_mut: bool,
    pub is_init: TypeVarMemState,
    pub const_val: TypeVarConstVal,
    /// for unused variable warnings
    pub is_used: TypeVarIsUsed,
    pub immut_borrows_count: usize,
    pub mut_borrows_count: usize,
}

#[derive(Debug)]
pub enum TypeVarConstVal {
    /// it's a runtime variable
    No,
    NotYetTypechecked { value: ExprId, bind_to: PatternOrVarId },
    CurrTypechecking,
    NotYetEvaluated { value: ExprId, bind_to: PatternOrVarId },
    Evaluated(VmValue),
}

/// `b` is a copy of the constant state `a`: the same state, an evaluated value copied.
pub open spec fn const_val_copy(a: TypeVarConstVal, b: TypeVarConstVal) -> bool {
    &&& !(a is Evaluated) ==> b == a
    &&& a matches TypeVarConstVal::Evaluated(v) ==>
        (b matches TypeVarConstVal::Evaluated(w) && crate::vm_compiling::copy_of(v, w, usize::MAX as nat))
}

#[derive(Debug, Clone, Copy)]
pub enum PatternOrVarId {
    Pattern(PatternId, DefineVarScope),
    CustomTypeVarId(TypeVarId),
}

/// Whether a variable is initialized. `Maybe...` arises when only some branches initialize or move it.
#[derive(Clone, Copy, Debug, PartialEq, Eq, Structural)]
pub enum TypeVarMemState {
    NotInit,
    Init,
    MaybeInit,
    Moved,
    MaybeMoved,
}

#[derive(Clone, Copy, Debug, PartialEq, Eq, Structural)]
pub enum TypeVarIsUsed {
    No,
    Immut,
    Mut,
}

pub enum DefineVarMode {
    Const(TypeVarConstVal),
    Var { mutable: bool, is_init: bool },
}

#[derive(Debug, Clone, Copy)]
pub enum DefineVarScope {
    CurrScope,
    Impl { typ: TypeId },
}

impl TypeVarConstVal {
    /// A copy of the constant state.
    pub fn copy_const_val(&self) -> (r: TypeVarConstVal)
        ensures
            !(self is Evaluated) ==> r == *self,
            self matches TypeVarConstVal::Evaluated(v) ==>
                (r matches TypeVarConstVal::Evaluated(w) && crate::vm_compiling::copy_of(*v, w, usize::MAX as nat)),
    {
        match self {
            TypeVarConstVal::No => TypeVarConstVal::No,
            TypeVarConstVal::NotYetTypechecked { value, bind_to } => TypeVarConstVal::NotYetTypechecked { value: *value, bind_to: *bind_to },
            TypeVarConstVal::CurrTypechecking => TypeVarConstVal::CurrTypechecking,
            TypeVarConstVal::NotYetEvaluated { value, bind_to } => TypeVarConstVal::NotYetEvaluated { value: *value, bind_to: *bind_to },
            TypeVarConstVal::Evaluated(v) => TypeVarConstVal::Evaluated(v.copy_value(usize::MAX)),
        }
    }
}

impl TypeVar {
    /// A copy of the variable, as errors carry it.
    pub fn copy_var(&self) -> (r: TypeVar)
        ensures
            r.name@ == self.name@,
            r.typ == self.typ,
            r.declared_at == self.declared_at,
            r.is_declared_mut == self.is_declared_mut,
            r.is_init == self.is_init,
            r.is_used == self.is_used,
            r.immut_borrows_count == self.immut_borrows_count,
            r.mut_borrows_count == self.mut_borrows_count,
            !(self.const_val is Evaluated) ==> r.const_val == self.const_val,
            self.const_val matches TypeVarConstVal::Evaluated(v) ==>
                (r.const_val matches TypeVarConstVal::Evaluated(w) && crate::vm_compiling::copy_of(v, w, usize::MAX as nat)),
    {
        TypeVar {
            name: self.name.clone(),
            typ: self.typ,
            declared_at: self.declared_at,
            is_declared_mut: self.is_declared_mut,
            is_init: self.is_init,
            const_val: self.const_val.copy_const_val(),
            is_used: self.is_used,
            immut_borrows_count: self.immut_borrows_count,
            mut_borrows_count: self.mut_borrows_count,
        }
    }
}

/// Why using or assigning a variable is refused, if it is.
#[derive(Clone, Copy, Debug, PartialEq, Eq, Structural)]
pub enum VarRefusal {
    Fine,
    Uninitialized,
    MaybeInitialized,
    Moved,
    MaybeMoved,
    NotMutable,
}

/// What assigning to a variable in `state` meets: a variable not declared `mut` may only be
/// assigned while it is surely uninitialized.
pub open spec fn spec_assign_refusal(declared_mut: bool, state: TypeVarMemState) -> VarRefusal {
    if declared_mut {
        VarRefusal::Fine
    } else {
        match state {
            TypeVarMemState::NotInit => VarRefusal::Fine,
            TypeVarMemState::MaybeInit => VarRefusal::MaybeInitialized,
            _ => VarRefusal::NotMutable,
        }
    }
}

/// What using (reading) a variable in `state` meets: only an initialized one can be used.
pub open spec fn spec_use_refusal(state: TypeVarMemState) -> VarRefusal {
    match state {
        TypeVarMemState::Moved => VarRefusal::Moved,
        TypeVarMemState::NotInit => VarRefusal::Uninitialized,
        TypeVarMemState::MaybeMoved => VarRefusal::MaybeMoved,
        TypeVarMemState::MaybeInit => VarRefusal::MaybeInitialized,
        TypeVarMemState::Init => VarRefusal::Fine,
    }
}

/// What assigning to a variable meets.
pub fn assign_refusal(declared_mut: bool, state: TypeVarMemState) -> (r: VarRefusal)
    ensures
        r == spec_assign_refusal(declared_mut, state),
{
    if declared_mut {
        VarRefusal::Fine
    } else {
        match state {
            TypeVarMemState::NotInit => VarRefusal::Fine,
            TypeVarMemState::MaybeInit => VarRefusal::MaybeInitialized,
            _ => VarRefusal::NotMutable,
        }
    }
}

/// What using a variable meets.
pub fn use_refusal(state: TypeVarMemState) -> (r: VarRefusal)
    ensures
        r == spec_use_refusal(state),
{
    match state {
        TypeVarMemState::Moved => VarRefusal::Moved,
        TypeVarMemState::NotInit => VarRefusal::Uninitialized,
        TypeVarMemState::MaybeMoved => VarRefusal::MaybeMoved,
        TypeVarMemState::MaybeInit => VarRefusal::MaybeInitialized,
        TypeVarMemState::Init => VarRefusal::Fine,
    }
}

/// A variable declared `mut` can always be assigned; one that isn't only while it surely has no
/// value yet, so assigning it a second time is refused.
pub proof fn law_assign_refusal(state: TypeVarMemState)
    ensures
        spec_assign_refusal(true, state) == VarRefusal::Fine,
        spec_assign_refusal(false, TypeVarMemState::NotInit) == VarRefusal::Fine,
        spec_assign_refusal(false, TypeVarMemState::Init) == VarRefusal::NotMutable,
{
}

/// Exactly a surely initialized variable can be used: an assigned one can, a moved one can't.
pub proof fn law_use_refusal(state: TypeVarMemState)
    ensures
        spec_use_refusal(state) == VarRefusal::Fine <==> state == TypeVarMemState::Init,
        spec_use_refusal(TypeVarMemState::Moved) == VarRefusal::Moved,
{
}

/// The state gives the variable a value in that branch, surely or maybe.
pub open spec fn state_gives_value(s: TypeVarMemState) -> bool {
    s == TypeVarMemState::MaybeInit || s == TypeVarMemState::MaybeMoved || s == TypeVarMemState::Init
}

/// The state leaves the variable without a value in some way.
pub open spec fn state_lacks_value(s: TypeVarMemState) -> bool {
    s != TypeVarMemState::Init
}

/// The state has the variable moved out, surely or maybe.
pub open spec fn state_moved(s: TypeVarMemState) -> bool {
    s == TypeVarMemState::MaybeMoved || s == TypeVarMemState::Moved
}

/// The state of a variable after branches that end in `states` join again
/// (branches that never finish are left out before).
pub open spec fn spec_merge_states(states: Seq<TypeVarMemState>) -> TypeVarMemState {
    let any_init = exists|i: int| 0 <= i < states.len() && state_gives_value(#[trigger] states[i]);
    let all_init = forall|i: int| 0 <= i < states.len() ==> !state_lacks_value(#[trigger] states[i]);
    let moved = exists|i: int| 0 <= i < states.len() && state_moved(#[trigger] states[i]);
    if all_init && any_init {
        TypeVarMemState::Init
    } else if (!all_init && any_init) || (all_init && !any_init) {
        if moved { TypeVarMemState::MaybeMoved } else { TypeVarMemState::MaybeInit }
    } else if !moved {
        TypeVarMemState::NotInit
    } else {
        TypeVarMemState::Moved
    }
}

/// The state of a variable after branches that end in `states` join again.
pub fn merge_mem_states(states: &Vec<TypeVarMemState>) -> (r: TypeVarMemState)
    ensures
        r == spec_merge_states(states@),
{
    let mut any_init = false;
    let mut all_init = true;
    let mut moved = false;
    let mut i: usize = 0;
    while i < states.len()
        invariant
            0 <= i <= states@.len(),
            any_init == exists|k: int| 0 <= k < i && state_gives_value(#[trigger] states@[k]),
            all_init == forall|k: int| 0 <= k < i ==> !state_lacks_value(#[trigger] states@[k]),
            moved == exists|k: int| 0 <= k < i && state_moved(#[trigger] states@[k]),
        decreases states@.len() - i,
    {
        let s = states[i];
        if s == TypeVarMemState::MaybeInit || s == TypeVarMemState::MaybeMoved || s == TypeVarMemState::Init {
            any_init = true;
        }
        if s != TypeVarMemState::Init {
            all_init = false;
        }
        if s == TypeVarMemState::MaybeMoved || s == TypeVarMemState::Moved {
            moved = true;
        }
        i = i + 1;
    }
    if all_init && any_init {
        TypeVarMemState::Init
    } else if (!all_init && any_init) || (all_init && !any_init) {
        if moved { TypeVarMemState::MaybeMoved } else { TypeVarMemState::MaybeInit }
    } else if !moved {
        TypeVarMemState::NotInit
    } else {
        TypeVarMemState::Moved
    }
}

/// Joining the end of a single finished branch changes nothing: the variable keeps that branch's state.
pub proof fn law_merge_single_branch(s: TypeVarMemState)
    ensures
        spec_merge_states(seq![s]) == s,
{
    assert(seq![s][0] == s);
}

/// Joining branches that all end in the same state keeps that state.
pub proof fn law_merge_same_states(states: Seq<TypeVarMemState>, s: TypeVarMemState)
    requires
        states.len() > 0,
        forall|i: int| 0 <= i < states.len() ==> states[i] == s,
    ensures
        spec_merge_states(states) == s,
{
    assert(states[0] == s);
}

/// The join does not depend on the order of the branches.
pub proof fn law_merge_order_free(a: Seq<TypeVarMemState>, b: Seq<TypeVarMemState>)
    requires
        a.to_multiset() == b.to_multiset(),
    ensures
        spec_merge_states(a) == spec_merge_states(b),
{
    assert forall|x: TypeVarMemState| a.contains(x) <==> b.contains(x) by {
        vstd::seq_lib::to_multiset_contains(a, x);
        vstd::seq_lib::to_multiset_contains(b, x);
    }
    assert((exists|i: int| 0 <= i < a.len() && state_gives_value(#[trigger] a[i]))
        == (exists|i: int| 0 <= i < b.len() && state_gives_value(#[trigger] b[i]))) by {
        if exists|i: int| 0 <= i < a.len() && state_gives_value(#[trigger] a[i]) {
            let i = choose|i: int| 0 <= i < a.len() && state_gives_value(#[trigger] a[i]);
            assert(a.contains(a[i]));
            assert(b.contains(a[i]));
        }
        if exists|i: int| 0 <= i < b.len() && state_gives_value(#[trigger] b[i]) {
            let i = choose|i: int| 0 <= i < b.len() && state_gives_value(#[trigger] b[i]);
            assert(b.contains(b[i]));
            assert(a.contains(b[i]));
        }
    }
    assert((forall|i: int| 0 <= i < a.len() ==> !state_lacks_value(#[trigger] a[i]))
        == (forall|i: int| 0 <= i < b.len() ==> !state_lacks_value(#[trigger] b[i]))) by {
        if exists|i: int| 0 <= i < a.len() && state_lacks_value(#[trigger] a[i]) {
            let i = choose|i: int| 0 <= i < a.len() && state_lacks_value(#[trigger] a[i]);
            assert(a.contains(a[i]));
            assert(b.contains(a[i]));
        }
        if exists|i: int| 0 <= i < b.len() && state_lacks_value(#[trigger] b[i]) {
            let i = choose|i: int| 0 <= i < b.len() && state_lacks_value(#[trigger] b[i]);
            assert(b.contains(b[i]));
            assert(a.contains(b[i]));
        }
    }
    assert((exists|i: int| 0 <= i < a.len() && state_moved(#[trigger] a[i]))
        == (exists|i: int| 0 <= i < b.len() && state_moved(#[trigger] b[i]))) by {
        if exists|i: int| 0 <= i < a.len() && state_moved(#[trigger] a[i]) {
            let i = choose|i: int| 0 <= i < a.len() && state_moved(#[trigger] a[i]);
            assert(a.contains(a[i]));
            assert(b.contains(a[i]));
        }
        if exists|i: int| 0 <= i < b.len() && state_moved(#[trigger] b[i]) {
            let i = choose|i: int| 0 <= i < b.len() && state_moved(#[trigger] b[i]);
            assert(b.contains(b[i]));
            assert(a.contains(b[i]));
        }
    }
}

/// A variable initialized in one finished branch and not in another is maybe initialized after them.
pub proof fn law_merge_init_and_uninit(states: Seq<TypeVarMemState>, i: int, j: int)
    requires
        0 <= i < states.len(),
        0 <= j < states.len(),
        states[i] == TypeVarMemState::Init,
        states[j] == TypeVarMemState::NotInit,
        forall|k: int| 0 <= k < states.len() ==> !state_moved(#[trigger] states[k]),
    ensures
        spec_merge_states(states) == TypeVarMemState::MaybeInit,
{
    assert(state_gives_value(states[i]));
    assert(state_lacks_value(states[j]));
}

/// The state of each variable in scope, to restore or join after branches.
pub type SnapshotVarsState = Vec<(TypeVarId, TypeVarMemState)>;

impl<'a> TypeChecker<'a> {
    /// A block opens a new scope.
    pub(crate) fn enter_scope(&mut self)
        requires
            old(self).inv(),
        ensures
            final(self).keeps(old(self)),
            final(self).var_scopes@.len() == old(self).var_scopes@.len() + 1,
    {
        self.var_scopes.push(TypeVarScope::new());
    }

    /// Leaving a block drops its scope.
    pub(crate) fn exit_scope(&mut self)
        requires
            old(self).inv(),
        ensures
            final(self).keeps(old(self)),
            old(self).var_scopes@.len() > 0 ==> final(self).var_scopes@ == old(self).var_scopes@.drop_last(),
    {
        self.var_scopes.pop();
    }

    /// Adds a variable (or constant) named `name` of type `typ` to the innermost scope and gives
    /// its id. Without an explicit annotation, variant refinements of `typ` are dropped
    /// (`let x = Option.Some{ 1 }` makes `x` an `Option`). A constant may not share its name
    /// with another of the same scope.
    pub(crate) fn define_variable(&mut self, name: &str, typ: TypeId, explicit_type_anot: bool, span: Span, define_mode: DefineVarMode) -> (r: TypeVarId)
        requires
            old(self).inv(),
        ensures
            final(self).keeps(old(self)),
            r.0 == old(self).typed_ast.vars@.len(),
            final(self).typed_ast.vars@.len() == old(self).typed_ast.vars@.len() + 1,
            final(self).typed_ast.vars@[r.0 as int].name@ == name@,
            final(self).typed_ast.vars@[r.0 as int].declared_at == span,
            final(self).typed_ast.vars@[r.0 as int].is_used == TypeVarIsUsed::No,
            define_mode matches DefineVarMode::Var { mutable, is_init } ==> {
                &&& final(self).typed_ast.vars@[r.0 as int].is_declared_mut == mutable
                &&& final(self).typed_ast.vars@[r.0 as int].is_init
                    == (if is_init { TypeVarMemState::Init } else { TypeVarMemState::NotInit })
            },
            define_mode is Const ==> final(self).typed_ast.vars@[r.0 as int].is_init == TypeVarMemState::Init
                && !final(self).typed_ast.vars@[r.0 as int].is_declared_mut,
            forall|i: int| 0 <= i < old(self).typed_ast.vars@.len() ==>
                #[trigger] final(self).typed_ast.vars@[i] == old(self).typed_ast.vars@[i],
            old(self).var_scopes@.len() > 0 ==> final(self).var_scopes@.len() == old(self).var_scopes@.len(),
    {
        let final_type = if explicit_type_anot { typ } else { self.decay_soft_types(typ, 64) };
        let (mutable, is_init, const_val, shadowable) = match define_mode {
            DefineVarMode::Var { mutable, is_init } => (mutable, is_init, TypeVarConstVal::No, true),
            DefineVarMode::Const(const_val) => (false, true, const_val, false),
        };
        let new_var = TypeVar {
            name: name.to_string(),
            typ: final_type,
            declared_at: span,
            is_declared_mut: mutable,
            is_init: if is_init { TypeVarMemState::Init } else { TypeVarMemState::NotInit },
            const_val,
            is_used: TypeVarIsUsed::No,
            immut_borrows_count: 0,
            mut_borrows_count: 0,
        };
        let var_id = TypeVarId(self.typed_ast.vars.len());
        self.typed_ast.vars.push(new_var);

        let last = self.var_scopes.len();
        if last > 0 {
            let previous = self.var_scopes[last - 1].insert(name.to_string(), var_id);
            if !shadowable && previous.is_some() {
                self.error(ErrType::TyperConstNameAlreadyExists { name: name.to_string() }, span);
            }
        }
        var_id
    }

    /// Records an enum definition; gives its id.
    pub(crate) fn add_enum_def(&mut self, def: EnumDefinition) -> (r: EnumId)
        requires
            old(self).inv(),
        ensures
            final(self).keeps(old(self)),
            r.0 == old(self).typed_ast.enum_defs@.len(),
            final(self).typed_ast.enum_defs@ == old(self).typed_ast.enum_defs@.push(def),
    {
        let id = EnumId(self.typed_ast.enum_defs.len());
        self.typed_ast.enum_defs.push(def);
        id
    }

    /// A reference to the variable: a borrow of its type, mutable or not. The variable counts as
    /// used (mutably if the borrow is mutable).
    pub(crate) fn make_var_id_ref(&mut self, var_id: TypeVarId, mutable: bool) -> (r: TypeId)
        requires
            old(self).inv(),
        ensures
            final(self).keeps(old(self)),
            final(self).typed_ast.vars@.len() == old(self).typed_ast.vars@.len(),
            var_id.0 < old(self).typed_ast.vars@.len() ==> {
                &&& final(self).typed_ast.vars@[var_id.0 as int].is_used
                    == (if mutable { TypeVarIsUsed::Mut }
                        else if old(self).typed_ast.vars@[var_id.0 as int].is_used == TypeVarIsUsed::No { TypeVarIsUsed::Immut }
                        else { old(self).typed_ast.vars@[var_id.0 as int].is_used })
                &&& final(self).typed_ast.vars@[var_id.0 as int].is_init == old(self).typed_ast.vars@[var_id.0 as int].is_init
                &&& crate::typing::type_matches(final(self).type_arena.types@[r.0 as int],
                        Type::Borrow { inner: old(self).typed_ast.vars@[var_id.0 as int].typ, mutable, borrows_var: Some(var_id) })
            },
            var_id.0 >= old(self).typed_ast.vars@.len() ==> r == TypeId(0),
            r.0 < final(self).type_arena.types@.len(),
            forall|i: int| 0 <= i < old(self).typed_ast.vars@.len() && i != var_id.0 ==>
                #[trigger] final(self).typed_ast.vars@[i] == old(self).typed_ast.vars@[i],
            final(self).error_data == old(self).error_data,
            final(self).typed_ast.resolved_member_access == old(self).typed_ast.resolved_member_access,
    {
        if var_id.0 >= self.typed_ast.vars.len() {
            return TypeId(0);
        }
        let v = var_id.0;
        let inner = self.typed_ast.vars[v].typ;
        if mutable {
            let count = self.typed_ast.vars[v].mut_borrows_count;
            self.typed_ast.vars[v].mut_borrows_count = count.saturating_add(1);
            self.typed_ast.vars[v].is_used = TypeVarIsUsed::Mut;
        } else {
            let count = self.typed_ast.vars[v].immut_borrows_count;
            self.typed_ast.vars[v].immut_borrows_count = count.saturating_add(1);
            if self.typed_ast.vars[v].is_used == TypeVarIsUsed::No {
                self.typed_ast.vars[v].is_used = TypeVarIsUsed::Immut;
            }
        }
        self.add_type(Type::Borrow { mutable, inner, borrows_var: Some(var_id) })
    }

    /// Assigning to the variable: refused (as an error) unless it is declared `mut` or surely
    /// uninitialized; afterwards it is initialized and counts as used mutably.
    pub(crate) fn update_variable(&mut self, var_id: TypeVarId, span: Span)
        requires
            old(self).inv(),
        ensures
            final(self).keeps(old(self)),
            final(self).typed_ast.vars@.len() == old(self).typed_ast.vars@.len(),
            var_id.0 < old(self).typed_ast.vars@.len() ==> {
                let old_var = old(self).typed_ast.vars@[var_id.0 as int];
                let refusal = spec_assign_refusal(old_var.is_declared_mut, old_var.is_init);
                &&& final(self).typed_ast.vars@[var_id.0 as int].is_init == TypeVarMemState::Init
                &&& final(self).typed_ast.vars@[var_id.0 as int].is_used == TypeVarIsUsed::Mut
                &&& refusal == VarRefusal::Fine ==> final(self).error_data.errors@ == old(self).error_data.errors@
                &&& refusal == VarRefusal::NotMutable ==> final(self).error_data.errors@.len() == old(self).error_data.errors@.len() + 1
                    && final(self).error_data.errors@.last().err_type is TyperVarIsntDeclaredMut
                    && final(self).error_data.errors@.last().span == span
                &&& refusal == VarRefusal::MaybeInitialized ==> final(self).error_data.errors@.len() == old(self).error_data.errors@.len() + 1
                    && final(self).error_data.errors@.last().err_type is TyperCantUseMaybeInitializedVar
                    && final(self).error_data.errors@.last().span == span
            },
            forall|i: int| 0 <= i < old(self).typed_ast.vars@.len() && i != var_id.0 ==>
                #[trigger] final(self).typed_ast.vars@[i] == old(self).typed_ast.vars@[i],
    {
        if var_id.0 >= self.typed_ast.vars.len() {
            return;
        }
        let refusal = assign_refusal(self.typed_ast.vars[var_id.0].is_declared_mut, self.typed_ast.vars[var_id.0].is_init);
        let copy = self.typed_ast.vars[var_id.0].copy_var();
        self.typed_ast.vars[var_id.0].is_used = TypeVarIsUsed::Mut;
        // assigning to a moved variable gives it a value again
        self.typed_ast.vars[var_id.0].is_init = TypeVarMemState::Init;
        match refusal {
            VarRefusal::NotMutable => { self.error(ErrType::TyperVarIsntDeclaredMut { var: copy }, span); },
            VarRefusal::MaybeInitialized => { self.error(ErrType::TyperCantUseMaybeInitializedVar { var: copy }, span); },
            _ => {},
        }
    }

    /// Reading (copying) the variable: refused, as an error, unless it is surely initialized.
    pub(crate) fn clone_variable(&mut self, var_id: TypeVarId, span: Span)
        requires
            old(self).inv(),
        ensures
            final(self).keeps(old(self)),
            final(self).typed_ast.vars@ == old(self).typed_ast.vars@,
            var_id.0 < old(self).typed_ast.vars@.len() ==> {
                let refusal = spec_use_refusal(old(self).typed_ast.vars@[var_id.0 as int].is_init);
                &&& refusal == VarRefusal::Fine ==> final(self).error_data.errors@ == old(self).error_data.errors@
                &&& refusal != VarRefusal::Fine ==> final(self).error_data.errors@.len() == old(self).error_data.errors@.len() + 1
                    && final(self).error_data.errors@.last().span == span
                &&& refusal == VarRefusal::Moved ==> final(self).error_data.errors@.last().err_type is TyperCantUseMovedVar
                &&& refusal == VarRefusal::Uninitialized ==> final(self).error_data.errors@.last().err_type is TyperCantUseUninitializedVar
                &&& refusal == VarRefusal::MaybeMoved ==> final(self).error_data.errors@.last().err_type is TyperCantUseMaybeMovedVar
                &&& refusal == VarRefusal::MaybeInitialized ==> final(self).error_data.errors@.last().err_type is TyperCantUseMaybeInitializedVar
            },
            var_id.0 >= old(self).typed_ast.vars@.len() ==> final(self).error_data.errors@ == old(self).error_data.errors@,
            final(self).var_scopes == old(self).var_scopes,
            final(self).type_arena == old(self).type_arena,
            final(self).inference_types == old(self).inference_types,
    {
        if var_id.0 >= self.typed_ast.vars.len() {
            return;
        }
        let refusal = use_refusal(self.typed_ast.vars[var_id.0].is_init);
        let copy = self.typed_ast.vars[var_id.0].copy_var();
        match refusal {
            VarRefusal::Moved => { self.error(ErrType::TyperCantUseMovedVar { var: copy }, span); },
            VarRefusal::Uninitialized => { self.error(ErrType::TyperCantUseUninitializedVar { var: copy }, span); },
            VarRefusal::MaybeMoved => { self.error(ErrType::TyperCantUseMaybeMovedVar { var: copy }, span); },
            VarRefusal::MaybeInitialized => { self.error(ErrType::TyperCantUseMaybeInitializedVar { var: copy }, span); },
            _ => {},
        }
    }

    /// Moving out of the variable: as reading it, and afterwards it is moved.
    pub(crate) fn move_variable(&mut self, var_id: TypeVarId, span: Span)
        requires
            old(self).inv(),
        ensures
            final(self).keeps(old(self)),
            final(self).typed_ast.vars@.len() == old(self).typed_ast.vars@.len(),
            var_id.0 < old(self).typed_ast.vars@.len() ==> {
                let refusal = spec_use_refusal(old(self).typed_ast.vars@[var_id.0 as int].is_init);
                &&& final(self).typed_ast.vars@[var_id.0 as int].is_init == TypeVarMemState::Moved
                &&& refusal == VarRefusal::Fine ==> final(self).error_data.errors@ == old(self).error_data.errors@
                &&& refusal == VarRefusal::Moved ==> final(self).error_data.errors@.last().err_type is TyperCantUseMovedVar
                &&& refusal == VarRefusal::MaybeMoved ==> final(self).error_data.errors@.last().err_type is TyperCantUseMaybeMovedVar
            },
            forall|i: int| 0 <= i < old(self).typed_ast.vars@.len() && i != var_id.0 ==>
                #[trigger] final(self).typed_ast.vars@[i] == old(self).typed_ast.vars@[i],
            final(self).type_arena == old(self).type_arena,
            final(self).inference_types == old(self).inference_types,
    {
        self.clone_variable(var_id, span);
        if var_id.0 < self.typed_ast.vars.len() {
            self.typed_ast.vars[var_id.0].is_init = TypeVarMemState::Moved;
        }
    }

    /// The state of every variable in scope.
    pub(crate) fn snapshot_vars_state(&self) -> (r: SnapshotVarsState)
        ensures
            forall|i: int| 0 <= i < r@.len() ==> (#[trigger] r@[i]).0.0 < self.typed_ast.vars@.len()
                && r@[i].1 == self.typed_ast.vars@[r@[i].0.0 as int].is_init,
    {
        let mut vars_state: SnapshotVarsState = Vec::new();
        let mut i: usize = 0;
        while i < self.var_scopes.len()
            invariant
                0 <= i <= self.var_scopes@.len(),
                forall|k: int| 0 <= k < vars_state@.len() ==> (#[trigger] vars_state@[k]).0.0 < self.typed_ast.vars@.len()
                    && vars_state@[k].1 == self.typed_ast.vars@[vars_state@[k].0.0 as int].is_init,
            decreases self.var_scopes@.len() - i,
        {
            let mut j: usize = 0;
            while j < self.var_scopes[i].scope.len()
                invariant
                    0 <= i < self.var_scopes@.len(),
                    0 <= j <= self.var_scopes@[i as int].scope@.len(),
                    forall|k: int| 0 <= k < vars_state@.len() ==> (#[trigger] vars_state@[k]).0.0 < self.typed_ast.vars@.len()
                        && vars_state@[k].1 == self.typed_ast.vars@[vars_state@[k].0.0 as int].is_init,
                decreases self.var_scopes@[i as int].scope@.len() - j,
            {
                let var_id = self.var_scopes[i].scope[j].1;
                if var_id.0 < self.typed_ast.vars.len() {
                    vars_state.push((var_id, self.typed_ast.vars[var_id.0].is_init));
                }
                j = j + 1;
            }
            i = i + 1;
        }
        vars_state
    }

    /// The state of every variable in scope at the end of a branch; none for a branch that never
    /// finishes, which then takes no part when the branches join.
    pub(crate) fn snapshot_branch_vars_state(&self, branch_was_never: bool) -> (r: Option<SnapshotVarsState>)
        ensures
            branch_was_never <==> r is None,
    {
        if branch_was_never { None } else { Some(self.snapshot_vars_state()) }
    }

    /// Sets every variable of the snapshot back to its state there.
    pub(crate) fn restore_vars_state(&mut self, snap: &SnapshotVarsState)
        requires
            old(self).inv(),
        ensures
            final(self).keeps(old(self)),
            final(self).error_data == old(self).error_data,
            final(self).typed_ast.vars@.len() == old(self).typed_ast.vars@.len(),
            // a variable gets the state of its last entry in the snapshot
            forall|v: int| 0 <= v < old(self).typed_ast.vars@.len() ==>
                (#[trigger] final(self).typed_ast.vars@[v]).is_init == match last_state_in(snap@, TypeVarId(v as usize), snap@.len() as int) {
                    Some(st) => st,
                    None => old(self).typed_ast.vars@[v].is_init,
                },
    {
        let mut i: usize = 0;
        while i < snap.len()
            invariant
                self.keeps(old(self)),
                self.error_data == old(self).error_data,
                self.typed_ast.vars@.len() == old(self).typed_ast.vars@.len(),
                0 <= i <= snap@.len(),
                forall|v: int| 0 <= v < old(self).typed_ast.vars@.len() ==>
                    (#[trigger] self.typed_ast.vars@[v]).is_init == match last_state_in(snap@, TypeVarId(v as usize), i as int) {
                        Some(st) => st,
                        None => old(self).typed_ast.vars@[v].is_init,
                    },
            decreases snap@.len() - i,
        {
            let (var_id, state) = snap[i];
            if var_id.0 < self.typed_ast.vars.len() {
                self.typed_ast.vars[var_id.0].is_init = state;
            }
            i = i + 1;
        }
    }

    /// After branches join: every variable of `start_snap` gets the state that its states at
    /// the ends of the branches that finished give together (`spec_merge_states`).
    pub(crate) fn merge_vars_states(&mut self, start_snap: &SnapshotVarsState, branch_snaps: &Vec<Option<SnapshotVarsState>>)
        requires
            old(self).inv(),
        ensures
            final(self).keeps(old(self)),
            final(self).error_data == old(self).error_data,
            final(self).typed_ast.vars@.len() == old(self).typed_ast.vars@.len(),
            // a variable of the snapshot gets its merged state, any other keeps its own
            forall|v: int| 0 <= v < old(self).typed_ast.vars@.len() ==>
                (#[trigger] final(self).typed_ast.vars@[v]).is_init == if (exists|k: int| 0 <= k < start_snap@.len()
                    && (#[trigger] start_snap@[k]).0 == TypeVarId(v as usize)) {
                    spec_merge_states(branch_states(branch_snaps@, TypeVarId(v as usize), branch_snaps@.len() as int))
                } else {
                    old(self).typed_ast.vars@[v].is_init
                },
    {
        let mut i: usize = 0;
        while i < start_snap.len()
            invariant
                self.keeps(old(self)),
                self.error_data == old(self).error_data,
                self.typed_ast.vars@.len() == old(self).typed_ast.vars@.len(),
                0 <= i <= start_snap@.len(),
                forall|v: int| 0 <= v < old(self).typed_ast.vars@.len() ==>
                    (#[trigger] self.typed_ast.vars@[v]).is_init == if (exists|k: int| 0 <= k < i
                        && (#[trigger] start_snap@[k]).0 == TypeVarId(v as usize)) {
                        spec_merge_states(branch_states(branch_snaps@, TypeVarId(v as usize), branch_snaps@.len() as int))
                    } else {
                        old(self).typed_ast.vars@[v].is_init
                    },
            decreases start_snap@.len() - i,
        {
            let var_id = start_snap[i].0;
            // the state of the variable at the end of each finished branch
            let mut states: Vec<TypeVarMemState> = Vec::new();
            let mut b: usize = 0;
            while b < branch_snaps.len()
                invariant
                    0 <= b <= branch_snaps@.len(),
                    states@ == branch_states(branch_snaps@, var_id, b as int),
                decreases branch_snaps@.len() - b,
            {
                match &branch_snaps[b] {
                    Some(snap) => {
                        match snapshot_state_of(snap, var_id) {
                            Some(state) => states.push(state),
                            None => {},
                        }
                    },
                    None => {},
                }
                b = b + 1;
            }
            if var_id.0 < self.typed_ast.vars.len() {
                self.typed_ast.vars[var_id.0].is_init = merge_mem_states(&states);
            }
            i = i + 1;
        }
    }

    /// Opens a loop or labelled block: its label is pushed so `break` can find it; gives the
    /// state of the variables before it.
    pub(crate) fn before_check_label_logic(&mut self, expr: ExprId, label: &str, typ: TypeId) -> (r: SnapshotVarsState)
        requires
            old(self).inv(),
        ensures
            final(self).keeps(old(self)),
            final(self).error_data == old(self).error_data,
            final(self).typed_ast == old(self).typed_ast,
            final(self).var_scopes == old(self).var_scopes,
            final(self).curr_label_infos@.len() == old(self).curr_label_infos@.len() + 1,
            final(self).curr_label_infos@.last().label@ == label@,
            final(self).curr_label_infos@.last().expr == expr,
            final(self).curr_label_infos@.last().typ == typ,
            final(self).curr_label_infos@.last().break_snapshots@.len() == 0,
            forall|i: int| 0 <= i < old(self).curr_label_infos@.len() ==>
                #[trigger] final(self).curr_label_infos@[i] == old(self).curr_label_infos@[i],
    {
        self.curr_label_infos.push(LabelInfo { label: label.to_string(), expr, typ, break_snapshots: Vec::new() });
        self.snapshot_vars_state()
    }

    /// The loop that a `break` or `continue` goes to: the innermost one, or the innermost one
    /// with the given label. Outside any loop, and for a label that no enclosing loop has, that
    /// is an error and there is none.
    pub(crate) fn find_loop_label(&mut self, label: &Option<String>, span: Span) -> (r: Option<usize>)
        requires
            old(self).inv(),
        ensures
            final(self).keeps(old(self)),
            final(self).typed_ast == old(self).typed_ast,
            final(self).var_scopes == old(self).var_scopes,
            final(self).curr_label_infos == old(self).curr_label_infos,
            old(self).curr_label_infos@.len() == 0 ==> r is None
                && final(self).error_data.errors@ == old(self).error_data.errors@.push(
                    crate::ProgramError { span, err_type: ErrType::TyperBreakOutsideLoop }),
            r matches Some(i) ==> i < old(self).curr_label_infos@.len(),
            old(self).curr_label_infos@.len() > 0 && label is None ==> r == Some((old(self).curr_label_infos@.len() - 1) as usize),
            label is Some ==> (r matches Some(i) ==> old(self).curr_label_infos@[i as int].label@ == label->0@
                && forall|k: int| i < k < old(self).curr_label_infos@.len() ==> (#[trigger] old(self).curr_label_infos@[k]).label@ != label->0@),
            old(self).curr_label_infos@.len() > 0 && label is Some && r is None ==> {
                &&& forall|k: int| 0 <= k < old(self).curr_label_infos@.len() ==> (#[trigger] old(self).curr_label_infos@[k]).label@ != label->0@
                &&& final(self).error_data.errors@.len() == old(self).error_data.errors@.len() + 1
                &&& final(self).error_data.errors@.last().span == span
                // the error names the label and lists the labels there are, outermost first
                &&& final(self).error_data.errors@.last().err_type matches ErrType::TyperUndefinedLoopLabel { label: l, available }
                    && l@ == label->0@ && available@.len() == old(self).curr_label_infos@.len()
                    && forall|k: int| 0 <= k < available@.len() ==> (#[trigger] available@[k])@ == old(self).curr_label_infos@[k].label@
            },
    {
        let n = self.curr_label_infos.len();
        if n == 0 {
            self.error(ErrType::TyperBreakOutsideLoop, span);
            return None;
        }
        match label {
            None => Some(n - 1),
            Some(target) => {
                let found = innermost_label(&self.curr_label_infos, target.as_str());
                if found.is_some() {
                    return found;
                }
                let mut available: Vec<String> = Vec::new();
                let mut j: usize = 0;
                while j < n
                    invariant
                        0 <= j <= n,
                        n == self.curr_label_infos@.len(),
                        available@.len() == j,
                        forall|k: int| 0 <= k < j ==> (#[trigger] available@[k])@ == self.curr_label_infos@[k].label@,
                    decreases n - j,
                {
                    available.push(self.curr_label_infos[j].label.clone());
                    j = j + 1;
                }
                self.error(ErrType::TyperUndefinedLoopLabel { label: target.clone(), available }, span);
                None
            },
        }
    }

    /// Defines the values of the module and of its submodules (depth first) that are in the
    /// prelude as constants of the innermost scope.
    pub(crate) fn load_prelude_from_lib(&mut self, module: &ThrumModule, depth: usize)
        requires
            old(self).inv(),
        ensures
            final(self).keeps(old(self)),
            // a constant for each prelude value, in order, after the variables there were
            final(self).typed_ast.vars@.len() >= old(self).typed_ast.vars@.len(),
            forall|k: int| 0 <= k < old(self).typed_ast.vars@.len() ==>
                #[trigger] final(self).typed_ast.vars@[k] == old(self).typed_ast.vars@[k],
            final(self).typed_ast.vars@.subrange(old(self).typed_ast.vars@.len() as int, final(self).typed_ast.vars@.len() as int)
                .map_values(|v: TypeVar| v.name@) == prelude_names(*module, depth as nat),
        decreases depth, 1nat, 0nat,
    {
        let ghost start = self.typed_ast.vars@.len();
        let mut i: usize = 0;
        while i < module.values.len()
            invariant
                self.keeps(old(self)),
                0 <= i <= module.values@.len(),
                start == old(self).typed_ast.vars@.len(),
                self.typed_ast.vars@.len() >= start,
                forall|k: int| 0 <= k < start ==> #[trigger] self.typed_ast.vars@[k] == old(self).typed_ast.vars@[k],
                self.typed_ast.vars@.subrange(start as int, self.typed_ast.vars@.len() as int).map_values(|v: TypeVar| v.name@)
                    == prelude_value_names(module.values@, i as int),
            decreases module.values@.len() - i,
        {
            let (name, value) = (&module.values[i].0, &module.values[i].1);
            let ghost before = self.typed_ast.vars@;
            if value.is_prelude {
                let id = self.add_type(clone_type(&value.typ));
                self.define_variable(name.as_str(), id, true, Span::invalid(),
                    DefineVarMode::Const(TypeVarConstVal::Evaluated(value.val.copy_value(usize::MAX))));
                proof {
                    assert(self.typed_ast.vars@.subrange(start as int, self.typed_ast.vars@.len() as int).map_values(|v: TypeVar| v.name@)
                        =~= before.subrange(start as int, before.len() as int).map_values(|v: TypeVar| v.name@) + seq![name@]);
                }
            }
            proof {
                assert(prelude_value_names(module.values@, i + 1) == prelude_value_names(module.values@, i as int)
                    + (if module.values@[i as int].1.is_prelude { seq![module.values@[i as int].0@] } else { Seq::empty() }));
            }
            i = i + 1;
        }
        proof {
            assert(module.values@.len() == i);
        }
        let ghost mid = self.typed_ast.vars@;
        if depth > 0 {
            let mut j: usize = 0;
            while j < module.sub_modules.len()
                invariant
                    self.keeps(old(self)),
                    0 <= j <= module.sub_modules@.len(),
                    depth > 0,
                    start == old(self).typed_ast.vars@.len(),
                    mid.len() >= start,
                    self.typed_ast.vars@.len() >= mid.len(),
                    forall|k: int| 0 <= k < mid.len() ==> #[trigger] self.typed_ast.vars@[k] == mid[k],
                    forall|k: int| 0 <= k < start ==> #[trigger] mid[k] == old(self).typed_ast.vars@[k],
                    mid.subrange(start as int, mid.len() as int).map_values(|v: TypeVar| v.name@)
                        == prelude_value_names(module.values@, module.values@.len() as int),
                    self.typed_ast.vars@.subrange(mid.len() as int, self.typed_ast.vars@.len() as int).map_values(|v: TypeVar| v.name@)
                        == prelude_sub_names(module.sub_modules@, j as int, (depth - 1) as nat),
                decreases module.sub_modules@.len() - j,
            {
                let ghost before = self.typed_ast.vars@;
                self.load_prelude_from_lib(&module.sub_modules[j].1, depth - 1);
                proof {
                    assert(self.typed_ast.vars@.subrange(mid.len() as int, self.typed_ast.vars@.len() as int).map_values(|v: TypeVar| v.name@)
                        =~= before.subrange(mid.len() as int, before.len() as int).map_values(|v: TypeVar| v.name@)
                        + self.typed_ast.vars@.subrange(before.len() as int, self.typed_ast.vars@.len() as int).map_values(|v: TypeVar| v.name@));
                }
                j = j + 1;
            }
            proof {
                assert(self.typed_ast.vars@.subrange(start as int, self.typed_ast.vars@.len() as int).map_values(|v: TypeVar| v.name@)
                    =~= mid.subrange(start as int, mid.len() as int).map_values(|v: TypeVar| v.name@)
                    + self.typed_ast.vars@.subrange(mid.len() as int, self.typed_ast.vars@.len() as int).map_values(|v: TypeVar| v.name@));
            }
        } else {
            proof {
                assert(prelude_names(*module, depth as nat) == prelude_value_names(module.values@, module.values@.len() as int));
                assert(prelude_names(*module, depth as nat) =~= prelude_value_names(module.values@, module.values@.len() as int) + Seq::empty());
            }
        }
    }
}

/// The names of the prelude values among the first `n` values of a module, in order.
pub open spec fn prelude_value_names(values: Seq<(String, ThrumValue)>, n: int) -> Seq<Seq<char>>
    decreases n,
{
    if n <= 0 || n > values.len() {
        Seq::empty()
    } else {
        prelude_value_names(values, n - 1) + (if values[n - 1].1.is_prelude { seq![values[n - 1].0@] } else { Seq::empty() })
    }
}

/// The names of the prelude values of a module and (down to `depth` levels) of its submodules,
/// in the order they are loaded.
pub open spec fn prelude_names(module: ThrumModule, depth: nat) -> Seq<Seq<char>>
    decreases depth, 1nat, 0nat,
{
    prelude_value_names(module.values@, module.values@.len() as int)
        + (if depth > 0 { prelude_sub_names(module.sub_modules@, module.sub_modules@.len() as int, (depth - 1) as nat) } else { Seq::empty() })
}

/// The prelude names of the first `n` submodules, each down to `depth` levels.
pub open spec fn prelude_sub_names(subs: Seq<(String, ThrumModule)>, n: int, depth: nat) -> Seq<Seq<char>>
    decreases depth + 1, 0nat, n,
{
    if n <= 0 || n > subs.len() {
        Seq::empty()
    } else {
        prelude_sub_names(subs, n - 1, depth) + prelude_names(subs[n - 1].1, depth)
    }
}

/// The variable that `name` refers to in the scopes: the latest of that name in the innermost
/// scope that has one.
pub fn find_in_scopes(scopes: &Vec<TypeVarScope>, name: &str) -> (r: Option<TypeVarId>)
    ensures
        r is None <==> forall|i: int, k: int| 0 <= i < scopes@.len()
            && 0 <= k < scopes@[i].scope@.len() ==> (#[trigger] scopes@[i].scope@[k]).0@ != name@,
{
    let mut i = scopes.len();
    while i > 0
        invariant
            0 <= i <= scopes@.len(),
            forall|m: int, k: int| i <= m < scopes@.len()
                && 0 <= k < scopes@[m].scope@.len() ==> (#[trigger] scopes@[m].scope@[k]).0@ != name@,
        decreases i,
    {
        i = i - 1;
        let found = scopes[i].get(name);
        proof { lemma_scope_lookup_some(scopes@[i as int].scope@, name@); }
        match found {
            Some(var_id) => { return Some(var_id); },
            None => {},
        }
    }
    None
}

/// The index of the innermost (last) label info with the label `target`, if any.
pub fn innermost_label(infos: &Vec<LabelInfo>, target: &str) -> (r: Option<usize>)
    ensures
        r matches Some(i) ==> i < infos@.len() && infos@[i as int].label@ == target@
            && forall|m: int| i < m < infos@.len() ==> (#[trigger] infos@[m]).label@ != target@,
        r is None ==> forall|m: int| 0 <= m < infos@.len() ==> (#[trigger] infos@[m]).label@ != target@,
{
    let mut k = infos.len();
    while k > 0
        invariant
            0 <= k <= infos@.len(),
            forall|m: int| k <= m < infos@.len() ==> (#[trigger] infos@[m]).label@ != target@,
        decreases k,
    {
        k = k - 1;
        if crate::text::str_eq(infos[k].label.as_str(), target) {
            return Some(k);
        }
    }
    None
}

/// The state of `var` at its first entry in `snap` from position `k` on, if it has one there.
pub open spec fn first_state_in(snap: Seq<(TypeVarId, TypeVarMemState)>, var: TypeVarId, k: int) -> Option<TypeVarMemState>
    decreases snap.len() - k,
{
    if k < 0 || k >= snap.len() {
        None
    } else if snap[k].0 == var {
        Some(snap[k].1)
    } else {
        first_state_in(snap, var, k + 1)
    }
}

/// The state of `var` at its last entry among the first `n` entries of `snap`, if it has one there.
pub open spec fn last_state_in(snap: Seq<(TypeVarId, TypeVarMemState)>, var: TypeVarId, n: int) -> Option<TypeVarMemState>
    decreases n,
{
    if n <= 0 || n > snap.len() {
        None
    } else if snap[n - 1].0 == var {
        Some(snap[n - 1].1)
    } else {
        last_state_in(snap, var, n - 1)
    }
}

/// The states of `var` at the ends of the first `b` branches that finished and have it.
pub open spec fn branch_states(branches: Seq<Option<SnapshotVarsState>>, var: TypeVarId, b: int) -> Seq<TypeVarMemState>
    decreases b,
{
    if b <= 0 || b > branches.len() {
        Seq::empty()
    } else {
        let prev = branch_states(branches, var, b - 1);
        match branches[b - 1] {
            Some(snap) => match first_state_in(snap@, var, 0) {
                Some(st) => prev.push(st),
                None => prev,
            },
            None => prev,
        }
    }
}

/// The state of `var_id` in the snapshot, if it has one.
pub fn snapshot_state_of(snap: &SnapshotVarsState, var_id: TypeVarId) -> (r: Option<TypeVarMemState>)
    ensures
        r matches Some(s) ==> exists|k: int| 0 <= k < snap@.len() && (#[trigger] snap@[k]) == (var_id, s),
        r is None ==> forall|k: int| 0 <= k < snap@.len() ==> (#[trigger] snap@[k]).0 != var_id,
        r == first_state_in(snap@, var_id, 0),
{
    let mut k: usize = 0;
    while k < snap.len()
        invariant
            0 <= k <= snap@.len(),
            forall|m: int| 0 <= m < k ==> (#[trigger] snap@[m]).0 != var_id,
            first_state_in(snap@, var_id, 0) == first_state_in(snap@, var_id, k as int),
        decreases snap@.len() - k,
    {
        if snap[k].0.0 == var_id.0 {
            return Some(snap[k].1);
        }
        k = k + 1;
    }
    None
}

impl<'a> TypeChecker<'a> {
    /// The variable that `name` refers to: the latest one of that name in the innermost scope
    /// that has one. A constant found there is checked and evaluated first, if it wasn't yet.
    pub(crate) fn lookup_variable(&mut self, name: &str, fuel: u64) -> (r: Option<TypeVarId>)
        requires
            old(self).inv(),
        ensures
            final(self).keeps(old(self)),
            r is None <==> forall|i: int, k: int| 0 <= i < old(self).var_scopes@.len()
                && 0 <= k < old(self).var_scopes@[i].scope@.len() ==> (#[trigger] old(self).var_scopes@[i].scope@[k]).0@ != name@,
            r is None ==> *final(self) == *old(self),
        decreases fuel,
    {
        let found = find_in_scopes(&self.var_scopes, name);
        match found {
            Some(var_id) => {
                // on lookup, make sure that a constant was checked and evaluated
                if fuel > 0 {
                    self.resolve_const_val(var_id, fuel - 1);
                }
            },
            None => {},
        }
        found
    }

    /// Checks and evaluates the constant `var_id`, if it wasn't yet; one that is being checked
    /// right now depends on itself, which is the error `TyperConstResolvingCycle`.
    pub(crate) fn resolve_const_val(&mut self, var_id: TypeVarId, fuel: u64)
        requires
            old(self).inv(),
        ensures
            final(self).keeps(old(self)),
            fuel == 0 || var_id.0 >= old(self).typed_ast.vars@.len() ==> *final(self) == *old(self),
            fuel > 0 && var_id.0 < old(self).typed_ast.vars@.len() ==> match old(self).typed_ast.vars@[var_id.0 as int].const_val {
                TypeVarConstVal::CurrTypechecking => final(self).error_data.errors@ == old(self).error_data.errors@.push(
                    ProgramError { span: old(self).typed_ast.vars@[var_id.0 as int].declared_at, err_type: ErrType::TyperConstResolvingCycle }),
                TypeVarConstVal::No | TypeVarConstVal::Evaluated(_) => *final(self) == *old(self),
                _ => true,
            },
        decreases fuel,
    {
        if fuel == 0 || var_id.0 >= self.typed_ast.vars.len() {
            return;
        }
        let state = self.typed_ast.vars[var_id.0].const_val.copy_const_val();
        match state {
            TypeVarConstVal::NotYetTypechecked { value, bind_to } => {
                self.check_evaluate_and_bind_const(value, bind_to, fuel - 1);
            },
            TypeVarConstVal::CurrTypechecking => {
                let span = self.typed_ast.vars[var_id.0].declared_at;
                self.error(ErrType::TyperConstResolvingCycle, span);
            },
            TypeVarConstVal::NotYetEvaluated { value, bind_to } => {
                self.evaluate_and_bind_const(value, bind_to, fuel - 1);
            },
            _ => {},
        }
    }

    /// Sets the constant state of every variable that the binding patterns in `pattern` define.
    pub(crate) fn set_pattern_consts(&mut self, pattern: PatternId, state: &TypeVarConstVal, depth: u64)
        requires
            old(self).inv(),
        ensures
            final(self).keeps(old(self)),
            final(self).error_data == old(self).error_data,
            depth > 0 && pattern.0 < old(self).ast.patterns@.len() && old(self).ast.patterns@[pattern.0 as int] is Binding ==>
                match old(self).typed_ast.pattern_vars@[pattern.0 as int] {
                    Some(v) => v.0 < old(self).typed_ast.vars@.len() ==>
                        const_val_copy(*state, final(self).typed_ast.vars@[v.0 as int].const_val),
                    None => true,
                },
        decreases depth,
    {
        if depth == 0 || pattern.0 >= self.ast.patterns.len() {
            return;
        }
        let ast = self.ast;
        match ast.get_pattern(pattern) {
            Pattern::Binding { .. } => {
                match self.typed_ast.pattern_vars[pattern.0] {
                    Some(v) => {
                        if v.0 < self.typed_ast.vars.len() {
                            self.typed_ast.vars[v.0].const_val = state.copy_const_val();
                        }
                    },
                    None => {},
                }
            },
            Pattern::Tuple(elems) => {
                let mut i: usize = 0;
                while i < elems.len()
                    invariant
                        self.keeps(old(self)),
                        self.error_data == old(self).error_data,
                        0 <= i <= elems@.len(),
                        depth > 0,
                    decreases elems@.len() - i,
                {
                    self.set_pattern_consts(elems[i].pattern, state, depth - 1);
                    i = i + 1;
                }
            },
            Pattern::Or(alts) => {
                let mut i: usize = 0;
                while i < alts.len()
                    invariant
                        self.keeps(old(self)),
                        self.error_data == old(self).error_data,
                        0 <= i <= alts@.len(),
                        depth > 0,
                    decreases alts@.len() - i,
                {
                    self.set_pattern_consts(alts[i], state, depth - 1);
                    i = i + 1;
                }
            },
            Pattern::Typed { pattern: inner, .. } => self.set_pattern_consts(*inner, state, depth - 1),
            Pattern::Conditional { pattern: inner, .. } => self.set_pattern_consts(*inner, state, depth - 1),
            _ => {},
        }
    }

    /// Gives the constants that `pattern` defines the parts of `val` that they stand for: a
    /// binding gets the whole value, the elements of a tuple pattern the elements of a tuple value.
    pub(crate) fn bind_const_value(&mut self, pattern: PatternId, val: &VmValue, depth: u64)
        requires
            old(self).inv(),
        ensures
            final(self).keeps(old(self)),
            final(self).error_data == old(self).error_data,
            depth > 0 && pattern.0 < old(self).ast.patterns@.len() && old(self).ast.patterns@[pattern.0 as int] is Binding ==>
                match old(self).typed_ast.pattern_vars@[pattern.0 as int] {
                    Some(v) => v.0 < old(self).typed_ast.vars@.len() ==>
                        (final(self).typed_ast.vars@[v.0 as int].const_val matches TypeVarConstVal::Evaluated(w)
                            && crate::vm_compiling::copy_of(*val, w, usize::MAX as nat)),
                    None => true,
                },
        decreases depth,
    {
        if depth == 0 || pattern.0 >= self.ast.patterns.len() {
            return;
        }
        let ast = self.ast;
        match ast.get_pattern(pattern) {
            Pattern::Binding { .. } => {
                match self.typed_ast.pattern_vars[pattern.0] {
                    Some(v) => {
                        if v.0 < self.typed_ast.vars.len() {
                            self.typed_ast.vars[v.0].const_val = TypeVarConstVal::Evaluated(val.copy_value(usize::MAX));
                        }
                    },
                    None => {},
                }
            },
            Pattern::Tuple(elems) => {
                match val {
                    VmValue::Tup(vals) => {
                        let mut i: usize = 0;
                        while i < elems.len() && i < vals.len()
                            invariant
                                self.keeps(old(self)),
                                self.error_data == old(self).error_data,
                                0 <= i <= elems@.len(),
                                depth > 0,
                            decreases elems@.len() - i,
                        {
                            self.bind_const_value(elems[i].pattern, &vals[i], depth - 1);
                            i = i + 1;
                        }
                    },
                    _ => {},
                }
            },
            Pattern::Typed { pattern: inner, .. } => self.bind_const_value(*inner, val, depth - 1),
            _ => {},
        }
    }

    /// Checks the value of a constant, binds its type to the pattern (or defines the custom type),
    /// and evaluates it. While it is being checked it counts as `CurrTypechecking`, so that a
    /// constant that depends on itself is found; `return` and `break` inside it can't leave it.
    pub(crate) fn check_evaluate_and_bind_const(&mut self, value: ExprId, bind_to: PatternOrVarId, fuel: u64)
        requires
            old(self).inv(),
        ensures
            final(self).keeps(old(self)),
            fuel == 0 || value.0 >= old(self).ast.exprs@.len() ==> *final(self) == *old(self),
            // the `impl` that the constant belongs to is only current while it is checked
            final(self).curr_impl_self == old(self).curr_impl_self,
        decreases fuel,
    {
        if fuel == 0 || value.0 >= self.ast.exprs.len() {
            return;
        }
        let impl_self_before = self.curr_impl_self;
        match bind_to {
            PatternOrVarId::Pattern(_, DefineVarScope::Impl { typ }) => { self.curr_impl_self = Some(typ); },
            _ => {},
        }

        // mark it as being checked, so that cycles are found
        match bind_to {
            PatternOrVarId::Pattern(pattern, _) => {
                self.set_pattern_consts(pattern, &TypeVarConstVal::CurrTypechecking, 64);
            },
            PatternOrVarId::CustomTypeVarId(var_id) => {
                if var_id.0 < self.typed_ast.vars.len() {
                    self.typed_ast.vars[var_id.0].const_val = TypeVarConstVal::CurrTypechecking;
                }
            },
        }

        // a constant can't `return` or `break` out of where it is defined
        let mut saved_labels: Vec<LabelInfo> = Vec::new();
        std::mem::swap(&mut saved_labels, &mut self.curr_label_infos);
        let saved_return = self.curr_function_return_type;
        self.curr_function_return_type = None;

        let mut is_never = false;
        match bind_to {
            PatternOrVarId::Pattern(pattern, _) => {
                if pattern.0 < self.ast.patterns.len() {
                    self.check_assign_pattern_and_value(pattern, Some(value), &mut is_never, true, false, false,
                        Some(TypeVarConstVal::NotYetEvaluated { value, bind_to }), fuel - 1);
                }
            },
            PatternOrVarId::CustomTypeVarId(var_id) => {
                self.check_expression(value, &mut is_never, CheckExprCtx::new().expect(TypeId::meta_type()), fuel - 1);
                if var_id.0 < self.typed_ast.vars.len() {
                    self.typed_ast.vars[var_id.0].const_val = TypeVarConstVal::NotYetEvaluated { value, bind_to };
                }
            },
        }

        std::mem::swap(&mut saved_labels, &mut self.curr_label_infos);
        self.curr_function_return_type = saved_return;

        self.evaluate_and_bind_const(value, bind_to, fuel - 1);

        self.curr_impl_self = impl_self_before;
    }

    /// Evaluates a checked constant and binds the value. A closure is bound first and its body
    /// checked after, so that functions can call themselves; `type X = ...` makes a new custom type.
    pub(crate) fn evaluate_and_bind_const(&mut self, value: ExprId, bind_to: PatternOrVarId, fuel: u64)
        requires
            old(self).inv(),
        ensures
            final(self).keeps(old(self)),
            fuel == 0 || value.0 >= old(self).ast.exprs@.len() ==> *final(self) == *old(self),
            // once there are errors, only a function is bound (and its body checked)
            value.0 < old(self).ast.exprs@.len() && !(old(self).ast.exprs@[value.0 as int] is Closure)
                && old(self).error_data.errors@.len() > 0 ==> *final(self) == *old(self),
        decreases fuel,
    {
        if fuel == 0 || value.0 >= self.ast.exprs.len() {
            return;
        }
        let ast = self.ast;
        let value_expr = ast.get_expr(value);
        let evaluated = match value_expr {
            Expr::Closure { .. } => Some(VmValue::Fn { slot: value.0 }),
            _ => self.evaluate_expr(value, fuel - 1),
        };

        match evaluated {
            Some(val) => {
                match bind_to {
                    PatternOrVarId::Pattern(pattern, _) => {
                        self.bind_const_value(pattern, &val, 64);
                    },
                    PatternOrVarId::CustomTypeVarId(var_id) => {
                        match val {
                            VmValue::Type(meta_type_id) => {
                                if var_id.0 < self.typed_ast.vars.len() {
                                    // a new custom type
                                    let new_type_id = CustomTypeId(self.custom_types.len());
                                    let name = self.typed_ast.vars[var_id.0].name.clone();
                                    self.custom_types.push(CustomType { name, impls: TypeVarScope::new() });
                                    let new_type = self.add_type(Type::CustomType(new_type_id, meta_type_id));
                                    self.typed_ast.vars[var_id.0].const_val = TypeVarConstVal::Evaluated(VmValue::Type(new_type));
                                }
                            },
                            _ => {},
                        }
                    },
                }
            },
            None => {},
        }

        match value_expr {
            Expr::Closure { closure, .. } => {
                // after binding, check the body
                let fn_type = self.typed_ast.expr_types[value.0];
                self.check_fn_expression(closure, fn_type, fuel - 1);
            },
            _ => {},
        }
    }

    /// The value of a checked constant expression: an enum definition makes a new enum type, any
    /// other expression is evaluated at compile time. Once there are errors nothing is evaluated.
    pub(crate) fn evaluate_expr(&mut self, expr: ExprId, fuel: u64) -> (r: Option<VmValue>)
        requires
            old(self).inv(),
        ensures
            final(self).keeps(old(self)),
            old(self).error_data.errors@.len() > 0 ==> r is None && *final(self) == *old(self),
            // an enum definition is always a type
            old(self).error_data.errors@.len() == 0 && fuel > 0 && expr.0 < old(self).ast.exprs@.len()
                && old(self).ast.exprs@[expr.0 as int] is EnumDefinition ==>
                (r matches Some(VmValue::Type(t)) && t.0 < final(self).type_arena.types@.len()
                    && final(self).type_arena.types@[t.0 as int] is Enum),
            // a value that can't be had is reported
            old(self).error_data.errors@.len() == 0 && fuel > 0 && expr.0 < old(self).ast.exprs@.len()
                && !(old(self).ast.exprs@[expr.0 as int] is EnumDefinition) && r is None ==>
                final(self).error_data.errors@.len() == 1
                && final(self).error_data.errors@[0].err_type is RuntimeError
                && final(self).error_data.errors@[0].span == old(self).ast.expr_spans@[expr.0 as int],
        decreases fuel,
    {
        if self.error_data.errors.len() > 0 || fuel == 0 || expr.0 >= self.ast.exprs.len() {
            return None;
        }
        let ast = self.ast;
        match ast.get_expr(expr) {
            Expr::EnumDefinition { variants } => {
                let mut defs: Vec<(String, TypeId)> = Vec::new();
                let mut i: usize = 0;
                while i < variants.len()
                    invariant
                        self.keeps(old(self)),
                        0 <= i <= variants@.len(),
                        fuel > 0,
                    decreases variants@.len() - i,
                {
                    let attached = match variants[i].attached_tuple {
                        Some(tup) => {
                            if tup.0 < self.ast.exprs.len() {
                                self.check_annotation_meta_type_id(tup, false, fuel - 1)
                            } else {
                                TypeId::error_type()
                            }
                        },
                        None => TypeId::void_type(),
                    };
                    defs.push((variants[i].variant_name.clone(), attached));
                    i = i + 1;
                }
                let enum_id = self.add_enum_def(EnumDefinition { variants: defs });
                let enum_type = self.add_type(Type::Enum(enum_id));
                Some(VmValue::Type(enum_type))
            },
            _ => {
                match self.comptime_eval(expr, 64) {
                    Some(v) => Some(v),
                    None => {
                        let span = ast.get_expr_span(expr);
                        self.error(ErrType::RuntimeError { msg: "this expression can't be evaluated at compile time".to_string() }, span);
                        None
                    },
                }
            },
        }
    }

    /// The compile-time value of a checked expression made of literals, constants, tuples,
    /// type expressions (`&T`, `Self`, `E.Variant`, custom type members) and integer and boolean
    /// operators; none for anything else and for an integer operation that overflows.
    pub(crate) fn comptime_eval(&mut self, expr: ExprId, depth: u64) -> (r: Option<VmValue>)
        requires
            old(self).inv(),
        ensures
            final(self).keeps(old(self)),
            final(self).error_data == old(self).error_data,
            final(self).typed_ast == old(self).typed_ast,
            // a constant integer or boolean expression has its value
            scalar_value(*old(self).ast, old(self).typed_ast, expr, depth as nat) is Some ==>
                r == scalar_value(*old(self).ast, old(self).typed_ast, expr, depth as nat),
            depth == 0 || expr.0 >= old(self).ast.exprs@.len() ==> r is None,
            depth > 0 && expr.0 < old(self).ast.exprs@.len() ==> match old(self).ast.exprs@[expr.0 as int] {
                Expr::Literal { val: AstValue::NumInt(n) } => r == Some(VmValue::Int(n)),
                Expr::Literal { val: AstValue::Bool(b) } => r == Some(VmValue::Bool(b)),
                Expr::Literal { val: AstValue::Str(t) } => r matches Some(VmValue::Str(u)) && u@ == t@,
                Expr::Literal { val: AstValue::NumFloat(_) } => r is None,
                Expr::ImplSelf => r == (match old(self).curr_impl_self { Some(t) => Some(VmValue::Type(t)), None => None }),
                Expr::IdentifierRef { .. } => match old(self).typed_ast.expr_vars@[expr.0 as int] {
                    Some(v) => if v.0 < old(self).typed_ast.vars@.len() {
                        match old(self).typed_ast.vars@[v.0 as int].const_val {
                            TypeVarConstVal::Evaluated(val) => r matches Some(w) && crate::vm_compiling::copy_of(val, w, usize::MAX as nat),
                            _ => r is None,
                        }
                    } else { r is None },
                    None => r is None,
                },
                _ => true,
            },
        decreases depth,
    {
        if depth == 0 || expr.0 >= self.ast.exprs.len() {
            return None;
        }
        let ast = self.ast;
        match ast.get_expr(expr) {
            Expr::Literal { val } => match val {
                crate::parsing::ast::AstValue::NumInt(n) => Some(VmValue::Int(*n)),
                crate::parsing::ast::AstValue::Bool(b) => Some(VmValue::Bool(*b)),
                crate::parsing::ast::AstValue::Str(s) => Some(VmValue::Str(s.clone())),
                crate::parsing::ast::AstValue::NumFloat(_) => None,
            },
            Expr::IdentifierRef { .. } => {
                match self.typed_ast.expr_vars[expr.0] {
                    Some(v) => {
                        if v.0 < self.typed_ast.vars.len() {
                            match &self.typed_ast.vars[v.0].const_val {
                                TypeVarConstVal::Evaluated(val) => Some(val.copy_value(usize::MAX)),
                                _ => None,
                            }
                        } else {
                            None
                        }
                    },
                    None => None,
                }
            },
            Expr::Move { expr: inner } => self.comptime_eval(*inner, depth - 1),
            Expr::Tuple { elems } => {
                // a tuple of types is a tuple type
                let tuple_type = self.typed_ast.expr_types[expr.0];
                let is_type = match self.prune_type_once(tuple_type) {
                    Type::MetaType => true,
                    _ => false,
                };
                let mut vals: Vec<VmValue> = Vec::new();
                let mut elem_types: Vec<crate::typing::TypeTuple> = Vec::new();
                let mut i: usize = 0;
                while i < elems.len()
                    invariant
                        self.keeps(old(self)),
                        self.error_data == old(self).error_data,
                        self.typed_ast == old(self).typed_ast,
                        0 <= i <= elems@.len(),
                        depth > 0,
                        expr.0 < old(self).ast.exprs@.len(),
                        old(self).ast.exprs@[expr.0 as int] is Tuple,
                    decreases elems@.len() - i,
                {
                    match self.comptime_eval(elems[i].expr, depth - 1) {
                        Some(v) => {
                            if is_type {
                                match v {
                                    VmValue::Type(t) => {
                                        elem_types.push(crate::typing::TypeTuple { label: elems[i].label.clone(), typ: t });
                                    },
                                    _ => { return None; },
                                }
                            } else {
                                vals.push(v);
                            }
                        },
                        None => { return None; },
                    }
                    i = i + 1;
                }
                if is_type {
                    let t = self.add_type(Type::Tup(elem_types));
                    Some(VmValue::Type(t))
                } else {
                    Some(VmValue::Tup(vals))
                }
            },
            Expr::TupleArr { elem, length } => {
                let len_val = self.comptime_eval(*length, depth - 1);
                let elem_val = self.comptime_eval(*elem, depth - 1);
                match (len_val, elem_val) {
                    (Some(VmValue::Int(n)), Some(VmValue::Type(t))) => {
                        if n >= 0 && (n as u64) <= (usize::MAX as u64) {
                            let arr = self.add_type(Type::TupArr(t, n as usize));
                            Some(VmValue::Type(arr))
                        } else {
                            None
                        }
                    },
                    _ => None,
                }
            },
            Expr::Borrow { expr: inner, mutable } => {
                match self.comptime_eval(*inner, depth - 1) {
                    Some(VmValue::Type(t)) => {
                        let b = self.add_type(Type::Borrow { inner: t, mutable: *mutable, borrows_var: None });
                        Some(VmValue::Type(b))
                    },
                    _ => None,
                }
            },
            Expr::ImplSelf => {
                match self.curr_impl_self {
                    Some(t) => Some(VmValue::Type(t)),
                    None => None,
                }
            },
            Expr::MemberAccess { left, member } => {
                match self.comptime_eval(*left, depth - 1) {
                    Some(VmValue::Type(t)) => {
                        // an enum variant as a type: `Option.Some`
                        match self.get_wrapped_enum_id(t) {
                            Ok(enum_id) => {
                                if enum_id.0 < self.typed_ast.enum_defs.len() {
                                    match variant_index(&self.typed_ast.enum_defs[enum_id.0], member.as_str()) {
                                        Some(variant) => {
                                            let refined = self.add_type(Type::EnumVariant { inner: t, variant });
                                            return Some(VmValue::Type(refined));
                                        },
                                        None => {},
                                    }
                                }
                            },
                            Err(_) => {},
                        }
                        // a constant of the type's `impl`
                        match self.prune_type_once(t) {
                            Type::CustomType(custom_id, _) => {
                                if custom_id.0 < self.custom_types.len() {
                                    match self.custom_types[custom_id.0].impls.get(member.as_str()) {
                                        Some(v) => {
                                            if v.0 < self.typed_ast.vars.len() {
                                                match &self.typed_ast.vars[v.0].const_val {
                                                    TypeVarConstVal::Evaluated(val) => Some(val.copy_value(usize::MAX)),
                                                    _ => None,
                                                }
                                            } else {
                                                None
                                            }
                                        },
                                        None => None,
                                    }
                                } else {
                                    None
                                }
                            },
                            _ => None,
                        }
                    },
                    _ => None,
                }
            },
            Expr::Prefix { op, right } => {
                match (op, self.comptime_eval(*right, depth - 1)) {
                    (crate::lexing::tokens::TokenKind::Op(crate::lexing::tokens::AssignOp::Minus), Some(VmValue::Int(n))) => {
                        if n == i64::MIN { None } else { Some(VmValue::Int(-n)) }
                    },
                    (crate::lexing::tokens::TokenKind::Exclamation, Some(VmValue::Bool(b))) => Some(VmValue::Bool(!b)),
                    _ => None,
                }
            },
            Expr::Infix { op, left, right, .. } => {
                let l = self.comptime_eval(*left, depth - 1);
                let r = self.comptime_eval(*right, depth - 1);
                match (l, r) {
                    (Some(VmValue::Int(a)), Some(VmValue::Int(b))) => eval_int_infix(*op, a, b),
                    (Some(VmValue::Bool(a)), Some(VmValue::Bool(b))) => eval_bool_infix(*op, a, b),
                    _ => None,
                }
            },
            Expr::Closure { .. } => Some(VmValue::Fn { slot: expr.0 }),
            _ => None,
        }
    }

    /// A reference to the variable `name` (see `make_var_id_ref`); an undefined name, and a
    /// runtime variable where a constant is needed, are errors.
    pub(crate) fn make_variable_ref(&mut self, name: &str, mutable: bool, is_const: bool, expr: ExprId, fuel: u64) -> (r: TypeId)
        requires
            old(self).inv(),
        ensures
            final(self).keeps(old(self)),
            fuel > 0 && (forall|i: int, k: int| 0 <= i < old(self).var_scopes@.len()
                && 0 <= k < old(self).var_scopes@[i].scope@.len() ==> (#[trigger] old(self).var_scopes@[i].scope@[k]).0@ != name@)
                ==> r == TypeId(0) && final(self).error_data.errors@.len() == old(self).error_data.errors@.len() + 1
                    && final(self).error_data.errors@.last().err_type is TyperUndefinedIdentifier,
        decreases fuel,
    {
        let span = if expr.0 < self.ast.expr_spans.len() { self.ast.expr_spans[expr.0] } else { Span::invalid() };
        if fuel == 0 {
            return TypeId::error_type();
        }
        match self.lookup_variable(name, fuel - 1) {
            Some(var_id) => {
                if expr.0 < self.typed_ast.expr_vars.len() {
                    self.typed_ast.expr_vars.set(expr.0, Some(var_id));
                }
                let runtime = var_id.0 < self.typed_ast.vars.len()
                    && match self.typed_ast.vars[var_id.0].const_val { TypeVarConstVal::No => true, _ => false };
                if is_const && runtime {
                    self.error(ErrType::TyperExpectedConstFoundRuntimeValue { name: name.to_string() }, span)
                } else {
                    self.make_var_id_ref(var_id, mutable)
                }
            },
            None => self.error(ErrType::TyperUndefinedIdentifier { name: name.to_string() }, span),
        }
    }
}

/// The index of the variant named `name`, if the enum has one.
pub fn variant_index(def: &EnumDefinition, name: &str) -> (r: Option<usize>)
    ensures
        r matches Some(i) ==> i < def.variants@.len() && def.variants@[i as int].0@ == name@
            && forall|k: int| 0 <= k < i ==> (#[trigger] def.variants@[k]).0@ != name@,
        r is None ==> forall|k: int| 0 <= k < def.variants@.len() ==> (#[trigger] def.variants@[k]).0@ != name@,
{
    let mut i: usize = 0;
    while i < def.variants.len()
        invariant
            0 <= i <= def.variants@.len(),
            forall|k: int| 0 <= k < i ==> (#[trigger] def.variants@[k]).0@ != name@,
        decreases def.variants@.len() - i,
    {
        if crate::text::str_eq(def.variants[i].0.as_str(), name) {
            return Some(i);
        }
        i = i + 1;
    }
    None
}

/// The operators that integers have at compile time.
pub open spec fn is_int_infix_op(op: crate::lexing::tokens::TokenKind) -> bool {
    op == crate::lexing::tokens::TokenKind::Op(crate::lexing::tokens::AssignOp::Plus)
        || op == crate::lexing::tokens::TokenKind::Op(crate::lexing::tokens::AssignOp::Minus)
        || op == crate::lexing::tokens::TokenKind::Op(crate::lexing::tokens::AssignOp::Star)
        || op == crate::lexing::tokens::TokenKind::Op(crate::lexing::tokens::AssignOp::Slash)
        || op == crate::lexing::tokens::TokenKind::Op(crate::lexing::tokens::AssignOp::Percent)
        || op == crate::lexing::tokens::TokenKind::EqualEqual
        || op == crate::lexing::tokens::TokenKind::Less
        || op == crate::lexing::tokens::TokenKind::Greater
}

/// The value of an integer operation at compile time: none where it overflows, divides by zero
/// or isn't one; division and remainder truncate toward zero.
pub open spec fn int_infix_value(op: crate::lexing::tokens::TokenKind, a: i64, b: i64) -> Option<VmValue> {
    if op == crate::lexing::tokens::TokenKind::Op(crate::lexing::tokens::AssignOp::Plus) {
        if i64::MIN <= a + b <= i64::MAX { Some(VmValue::Int((a + b) as i64)) } else { None }
    } else if op == crate::lexing::tokens::TokenKind::Op(crate::lexing::tokens::AssignOp::Minus) {
        if i64::MIN <= a - b <= i64::MAX { Some(VmValue::Int((a - b) as i64)) } else { None }
    } else if op == crate::lexing::tokens::TokenKind::Op(crate::lexing::tokens::AssignOp::Star) {
        if i64::MIN <= a * b <= i64::MAX { Some(VmValue::Int((a * b) as i64)) } else { None }
    } else if op == crate::lexing::tokens::TokenKind::Op(crate::lexing::tokens::AssignOp::Slash) {
        match a.checked_div(b) { Some(n) => Some(VmValue::Int(n)), None => None }
    } else if op == crate::lexing::tokens::TokenKind::Op(crate::lexing::tokens::AssignOp::Percent) {
        match a.checked_rem(b) { Some(n) => Some(VmValue::Int(n)), None => None }
    } else if op == crate::lexing::tokens::TokenKind::EqualEqual {
        Some(VmValue::Bool(a == b))
    } else if op == crate::lexing::tokens::TokenKind::Less {
        Some(VmValue::Bool(a < b))
    } else if op == crate::lexing::tokens::TokenKind::Greater {
        Some(VmValue::Bool(a > b))
    } else {
        None
    }
}

/// The value of a boolean operation at compile time; none where it isn't one.
pub open spec fn bool_infix_value(op: crate::lexing::tokens::TokenKind, a: bool, b: bool) -> Option<VmValue> {
    if op == crate::lexing::tokens::TokenKind::And {
        Some(VmValue::Bool(a && b))
    } else if op == crate::lexing::tokens::TokenKind::Or {
        Some(VmValue::Bool(a || b))
    } else if op == crate::lexing::tokens::TokenKind::EqualEqual {
        Some(VmValue::Bool(a == b))
    } else {
        None
    }
}

/// The integer or boolean value of a constant expression made of literals, evaluated constants,
/// `-`, `!` and the integer and boolean operators (looking `depth` levels deep); none for any
/// other expression, and where an operation has no value.
pub open spec fn scalar_value(ast: crate::parsing::ast::AstArena, ta: crate::typing::TypedAst, e: ExprId, depth: nat) -> Option<VmValue>
    decreases depth,
{
    if depth == 0 || e.0 >= ast.exprs@.len() {
        None
    } else {
        let d = (depth - 1) as nat;
        match ast.exprs@[e.0 as int] {
            Expr::Literal { val: AstValue::NumInt(n) } => Some(VmValue::Int(n)),
            Expr::Literal { val: AstValue::Bool(b) } => Some(VmValue::Bool(b)),
            Expr::IdentifierRef { .. } => match ta.expr_vars@[e.0 as int] {
                Some(v) => if v.0 < ta.vars@.len() {
                    match ta.vars@[v.0 as int].const_val {
                        TypeVarConstVal::Evaluated(VmValue::Int(n)) => Some(VmValue::Int(n)),
                        TypeVarConstVal::Evaluated(VmValue::Bool(b)) => Some(VmValue::Bool(b)),
                        _ => None,
                    }
                } else { None },
                None => None,
            },
            Expr::Move { expr } => scalar_value(ast, ta, expr, d),
            Expr::Prefix { op, right } => match scalar_value(ast, ta, right, d) {
                Some(VmValue::Int(n)) => if op == crate::lexing::tokens::TokenKind::Op(crate::lexing::tokens::AssignOp::Minus) && n != i64::MIN { Some(VmValue::Int((-n) as i64)) } else { None },
                Some(VmValue::Bool(b)) => if op == crate::lexing::tokens::TokenKind::Exclamation { Some(VmValue::Bool(!b)) } else { None },
                _ => None,
            },
            Expr::Infix { op, left, right, .. } => match (scalar_value(ast, ta, left, d), scalar_value(ast, ta, right, d)) {
                (Some(VmValue::Int(a)), Some(VmValue::Int(b))) => int_infix_value(op, a, b),
                (Some(VmValue::Bool(a)), Some(VmValue::Bool(b))) => bool_infix_value(op, a, b),
                _ => None,
            },
            _ => None,
        }
    }
}

/// Negating a constant integer gives its negation: `-e` is `-n` where `e` is `n`.
pub proof fn law_constant_negation(ast: crate::parsing::ast::AstArena, ta: crate::typing::TypedAst, e: ExprId, right: ExprId, depth: nat, n: i64)
    requires
        depth > 0,
        e.0 < ast.exprs@.len(),
        ast.exprs@[e.0 as int] == (Expr::Prefix { op: crate::lexing::tokens::TokenKind::Op(crate::lexing::tokens::AssignOp::Minus), right }),
        scalar_value(ast, ta, right, (depth - 1) as nat) == Some(VmValue::Int(n)),
        n != i64::MIN,
    ensures
        scalar_value(ast, ta, e, depth) == Some(VmValue::Int((-n) as i64)),
{
}

/// A constant sum, difference or product of two constant integers is their sum, difference or
/// product where it fits in an `i64`; a comparison of them is their comparison.
pub proof fn law_constant_arithmetic(ast: crate::parsing::ast::AstArena, ta: crate::typing::TypedAst, e: ExprId, depth: nat, a: i64, b: i64)
    requires
        depth > 0,
        e.0 < ast.exprs@.len(),
        ast.exprs@[e.0 as int] is Infix,
        scalar_value(ast, ta, ast.exprs@[e.0 as int]->Infix_left, (depth - 1) as nat) == Some(VmValue::Int(a)),
        scalar_value(ast, ta, ast.exprs@[e.0 as int]->Infix_right, (depth - 1) as nat) == Some(VmValue::Int(b)),
    ensures
        ast.exprs@[e.0 as int]->Infix_op == crate::lexing::tokens::TokenKind::Op(crate::lexing::tokens::AssignOp::Plus) && i64::MIN <= a + b <= i64::MAX ==>
            scalar_value(ast, ta, e, depth) == Some(VmValue::Int((a + b) as i64)),
        ast.exprs@[e.0 as int]->Infix_op == crate::lexing::tokens::TokenKind::Op(crate::lexing::tokens::AssignOp::Minus) && i64::MIN <= a - b <= i64::MAX ==>
            scalar_value(ast, ta, e, depth) == Some(VmValue::Int((a - b) as i64)),
        ast.exprs@[e.0 as int]->Infix_op == crate::lexing::tokens::TokenKind::Op(crate::lexing::tokens::AssignOp::Star) && i64::MIN <= a * b <= i64::MAX ==>
            scalar_value(ast, ta, e, depth) == Some(VmValue::Int((a * b) as i64)),
        ast.exprs@[e.0 as int]->Infix_op == crate::lexing::tokens::TokenKind::Less ==> scalar_value(ast, ta, e, depth) == Some(VmValue::Bool(a < b)),
{
}

/// An integer operation at compile time; none where it overflows, divides by zero, or isn't one.
pub fn eval_int_infix(op: crate::lexing::tokens::TokenKind, a: i64, b: i64) -> (r: Option<VmValue>)
    ensures
        op == crate::lexing::tokens::TokenKind::Op(crate::lexing::tokens::AssignOp::Plus) ==>
            (r matches Some(VmValue::Int(n)) ==> n == a + b) && (r is None <==> !(i64::MIN <= a + b <= i64::MAX)),
        op == crate::lexing::tokens::TokenKind::Op(crate::lexing::tokens::AssignOp::Minus) ==>
            (r matches Some(VmValue::Int(n)) ==> n == a - b) && (r is None <==> !(i64::MIN <= a - b <= i64::MAX)),
        op == crate::lexing::tokens::TokenKind::Op(crate::lexing::tokens::AssignOp::Star) ==>
            (r matches Some(VmValue::Int(n)) ==> n == a * b) && (r is None <==> !(i64::MIN <= a * b <= i64::MAX)),
        op == crate::lexing::tokens::TokenKind::EqualEqual ==> r == Some(VmValue::Bool(a == b)),
        op == crate::lexing::tokens::TokenKind::Less ==> r == Some(VmValue::Bool(a < b)),
        op == crate::lexing::tokens::TokenKind::Greater ==> r == Some(VmValue::Bool(a > b)),
        // division and remainder truncate toward zero, as Rust's do
        op == crate::lexing::tokens::TokenKind::Op(crate::lexing::tokens::AssignOp::Slash) ==>
            r == (match a.checked_div(b) { Some(n) => Some(VmValue::Int(n)), None => None }),
        op == crate::lexing::tokens::TokenKind::Op(crate::lexing::tokens::AssignOp::Percent) ==>
            r == (match a.checked_rem(b) { Some(n) => Some(VmValue::Int(n)), None => None }),
        !is_int_infix_op(op) ==> r is None,
        r == int_infix_value(op, a, b),
{
    match op {
        crate::lexing::tokens::TokenKind::Op(crate::lexing::tokens::AssignOp::Plus) => match a.checked_add(b) { Some(n) => Some(VmValue::Int(n)), None => None },
        crate::lexing::tokens::TokenKind::Op(crate::lexing::tokens::AssignOp::Minus) => match a.checked_sub(b) { Some(n) => Some(VmValue::Int(n)), None => None },
        crate::lexing::tokens::TokenKind::Op(crate::lexing::tokens::AssignOp::Star) => match a.checked_mul(b) { Some(n) => Some(VmValue::Int(n)), None => None },
        crate::lexing::tokens::TokenKind::Op(crate::lexing::tokens::AssignOp::Slash) => match a.checked_div(b) { Some(n) => Some(VmValue::Int(n)), None => None },
        crate::lexing::tokens::TokenKind::Op(crate::lexing::tokens::AssignOp::Percent) => match a.checked_rem(b) { Some(n) => Some(VmValue::Int(n)), None => None },
        crate::lexing::tokens::TokenKind::EqualEqual => Some(VmValue::Bool(a == b)),
        crate::lexing::tokens::TokenKind::Less => Some(VmValue::Bool(a < b)),
        crate::lexing::tokens::TokenKind::Greater => Some(VmValue::Bool(a > b)),
        _ => None,
    }
}

/// A boolean operation at compile time; none where it isn't one.
pub fn eval_bool_infix(op: crate::lexing::tokens::TokenKind, a: bool, b: bool) -> (r: Option<VmValue>)
    ensures
        op == crate::lexing::tokens::TokenKind::And ==> r == Some(VmValue::Bool(a && b)),
        op == crate::lexing::tokens::TokenKind::Or ==> r == Some(VmValue::Bool(a || b)),
        op == crate::lexing::tokens::TokenKind::EqualEqual ==> r == Some(VmValue::Bool(a == b)),
        !(op == crate::lexing::tokens::TokenKind::And || op == crate::lexing::tokens::TokenKind::Or
            || op == crate::lexing::tokens::TokenKind::EqualEqual) ==> r is None,
        r == bool_infix_value(op, a, b),
{
    match op {
        crate::lexing::tokens::TokenKind::And => Some(VmValue::Bool(a && b)),
        crate::lexing::tokens::TokenKind::Or => Some(VmValue::Bool(a || b)),
        crate::lexing::tokens::TokenKind::EqualEqual => Some(VmValue::Bool(a == b)),
        _ => None,
    }
}

} // verus!
