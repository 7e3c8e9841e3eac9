use vstd::prelude::*;
use crate::parsing::ast::{AstIds, ExprId};
use crate::vm_compiling::VmValue;

pub mod type_vars;
pub mod type_arena;
pub mod checker;
pub mod check_expressions;
pub mod check_patterns;

pub use type_arena::{TypeArena, type_matches};
pub use checker::{TypeChecker, TypedAst, EnumDefinition, LabelInfo, UnifyMode, CustomType};

verus! {

/// The index of a type in the `TypeArena`.
#[derive(Clone, Copy, PartialEq, Eq, Debug, Hash, Structural)]
pub struct TypeId(pub AstIds);

/// The index of an enum definition.
#[derive(Clone, Copy, PartialEq, Eq, Debug, Hash, Structural)]
pub struct EnumId(pub AstIds);

/// The index of a custom (new-)type.
#[derive(Clone, Copy, PartialEq, Eq, Debug, Hash, Structural)]
pub struct CustomTypeId(pub AstIds);

/// The index of an inference variable.
#[derive(Clone, Copy, PartialEq, Eq, Debug, Hash, Structural)]
pub struct TypeInferId(pub AstIds);

/// The index of a variable in the `TypedAst`.
#[derive(Clone, Copy, PartialEq, Eq, Debug, Hash, Structural)]
pub struct TypeVarId(pub AstIds);

impl TypeId {
    /// The type of what failed to check.
    pub fn error_type() -> (r: TypeId) ensures r == TypeId(0) { TypeId(0) }
    /// The type of what never gives a value (`return`, `break`, ...).
    pub fn never_type() -> (r: TypeId) ensures r == TypeId(1) { TypeId(1) }
    pub fn void_type() -> (r: TypeId) ensures r == TypeId(2) { TypeId(2) }
    /// The type of types.
    pub fn meta_type() -> (r: TypeId) ensures r == TypeId(3) { TypeId(3) }
    pub fn int_type() -> (r: TypeId) ensures r == TypeId(4) { TypeId(4) }
    pub fn float_type() -> (r: TypeId) ensures r == TypeId(5) { TypeId(5) }
    pub fn bool_type() -> (r: TypeId) ensures r == TypeId(6) { TypeId(6) }
    pub fn str_type() -> (r: TypeId) ensures r == TypeId(7) { TypeId(7) }
}

/// A type of the language. Compound types refer to their parts by `TypeId`.
#[derive(Debug)]
pub enum Type {
    NumInt,
    NumFloat,
    Str,
    Bool,
    /// 0-bit type
    Void,
    /// something that never happens at runtime, e.g. the type of `return`
    Never,
    /// the type of types: `const X = bool` gives `X` this type
    MetaType,
    Enum(EnumId),
    EnumVariant { inner: TypeId, variant: usize },
    CustomType(CustomTypeId, TypeId),
    Tup(Vec<TypeTuple>),
    TupArr(TypeId, usize),
    Fn { param_types: Vec<TypeId>, return_type: TypeId },
    Borrow { inner: TypeId, mutable: bool, borrows_var: Option<TypeVarId> },
    Infer(TypeInferId),
    Error,
}

/// What a member access `x.m` turned out to be.
#[derive(Debug)]
pub enum ResolvedMemberAccess {
    /// `tup.0` through a reference
    TupleRefIndex { index: usize },
    /// `tup^.0`
    TupleIndex { index: usize },
    /// `Point.distance`, `Option.Some` as a type
    Member { constant: VmValue },
    /// `p.distance()`: `p` is passed as the first argument
    MemberWithSelfSugar { constant: VmValue, self_sugar_expr: ExprId },
    /// `Option.None`
    EnumWithNoData { i: usize },
}

/// What a type instantiation `T{ ... }` makes.
#[derive(Debug)]
pub enum ResolvedTypeInstantiation {
    NewType,
    Tuple,
    EnumVariant(usize),
}

/// One labelled element of a tuple type.
#[derive(Debug)]
pub struct TypeTuple {
    pub label: String,
    pub typ: TypeId,
}

} // verus!
