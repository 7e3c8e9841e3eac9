use vstd::prelude::*;
use crate::typing::{Type, TypeId, TypeTuple};

verus! {

/// Two tuple element lists with the same labels and element types.
pub open spec fn tuple_elems_match(a: Seq<TypeTuple>, b: Seq<TypeTuple>) -> bool {
    &&& a.len() == b.len()
    &&& forall|i: int| 0 <= i < a.len() ==> (#[trigger] a[i]).label@ == b[i].label@ && a[i].typ == b[i].typ
}

/// Two types are the same type: the same variant with the same parts.
pub open spec fn type_matches(a: Type, b: Type) -> bool {
    match (a, b) {
        (Type::Tup(x), Type::Tup(y)) => tuple_elems_match(x@, y@),
        (Type::Fn { param_types: p, return_type: r }, Type::Fn { param_types: q, return_type: s }) => p@ == q@ && r == s,
        (Type::Tup(_), _) | (_, Type::Tup(_)) | (Type::Fn { .. }, _) | (_, Type::Fn { .. }) => false,
        _ => a == b,
    }
}

/// Copies a list of type ids.
pub fn copy_ids(v: &Vec<TypeId>) -> (r: Vec<TypeId>)
    ensures
        r@ == v@,
{
    let mut r: Vec<TypeId> = Vec::new();
    let mut i: usize = 0;
    while i < v.len()
        invariant
            0 <= i <= v@.len(),
            r@ == v@.take(i as int),
        decreases v@.len() - i,
    {
        r.push(v[i]);
        i = i + 1;
        proof { assert(r@ =~= v@.take(i as int)); }
    }
    proof { assert(v@.take(v@.len() as int) =~= v@); }
    r
}

/// Copies the elements of a tuple type.
pub fn copy_tuple_elems(v: &Vec<TypeTuple>) -> (r: Vec<TypeTuple>)
    ensures
        tuple_elems_match(r@, v@),
{
    let mut r: Vec<TypeTuple> = Vec::new();
    let mut i: usize = 0;
    while i < v.len()
        invariant
            0 <= i <= v@.len(),
            r@.len() == i,
            forall|k: int| 0 <= k < i ==> (#[trigger] r@[k]).label@ == v@[k].label@ && r@[k].typ == v@[k].typ,
        decreases v@.len() - i,
    {
        r.push(TypeTuple { label: v[i].label.clone(), typ: v[i].typ });
        i = i + 1;
    }
    r
}

/// A copy of `t`.
pub fn clone_type(t: &Type) -> (r: Type)
    ensures
        type_matches(r, *t),
{
    match t {
        Type::NumInt => Type::NumInt,
        Type::NumFloat => Type::NumFloat,
        Type::Str => Type::Str,
        Type::Bool => Type::Bool,
        Type::Void => Type::Void,
        Type::Never => Type::Never,
        Type::MetaType => Type::MetaType,
        Type::Enum(e) => Type::Enum(*e),
        Type::EnumVariant { inner, variant } => Type::EnumVariant { inner: *inner, variant: *variant },
        Type::CustomType(c, inner) => Type::CustomType(*c, *inner),
        Type::Tup(elems) => Type::Tup(copy_tuple_elems(elems)),
        Type::TupArr(inner, len) => Type::TupArr(*inner, *len),
        Type::Fn { param_types, return_type } => Type::Fn { param_types: copy_ids(param_types), return_type: *return_type },
        Type::Borrow { inner, mutable, borrows_var } => Type::Borrow { inner: *inner, mutable: *mutable, borrows_var: *borrows_var },
        Type::Infer(i) => Type::Infer(*i),
        Type::Error => Type::Error,
    }
}

/// Whether `a` and `b` are the same type.
pub fn type_eq(a: &Type, b: &Type) -> (r: bool)
    ensures
        r == type_matches(*a, *b),
{
    match (a, b) {
        (Type::NumInt, Type::NumInt) | (Type::NumFloat, Type::NumFloat) | (Type::Str, Type::Str)
        | (Type::Bool, Type::Bool) | (Type::Void, Type::Void) | (Type::Never, Type::Never)
        | (Type::MetaType, Type::MetaType) | (Type::Error, Type::Error) => true,
        (Type::Enum(x), Type::Enum(y)) => x.0 == y.0,
        (Type::EnumVariant { inner: i1, variant: v1 }, Type::EnumVariant { inner: i2, variant: v2 }) => i1.0 == i2.0 && *v1 == *v2,
        (Type::CustomType(c1, i1), Type::CustomType(c2, i2)) => c1.0 == c2.0 && i1.0 == i2.0,
        (Type::TupArr(i1, l1), Type::TupArr(i2, l2)) => i1.0 == i2.0 && *l1 == *l2,
        (Type::Borrow { inner: i1, mutable: m1, borrows_var: b1 }, Type::Borrow { inner: i2, mutable: m2, borrows_var: b2 }) => {
            let same_var = match (b1, b2) {
                (Some(x), Some(y)) => x.0 == y.0,
                (None, None) => true,
                _ => false,
            };
            i1.0 == i2.0 && *m1 == *m2 && same_var
        },
        (Type::Infer(x), Type::Infer(y)) => x.0 == y.0,
        (Type::Tup(x), Type::Tup(y)) => {
            if x.len() != y.len() {
                return false;
            }
            let mut i: usize = 0;
            while i < x.len()
                invariant
                    x@.len() == y@.len(),
                    type_matches(*a, *b) == tuple_elems_match(x@, y@),
                    0 <= i <= x@.len(),
                    forall|k: int| 0 <= k < i ==> (#[trigger] x@[k]).label@ == y@[k].label@ && x@[k].typ == y@[k].typ,
                decreases x@.len() - i,
            {
                if x[i].label != y[i].label || x[i].typ.0 != y[i].typ.0 {
                    proof {
                        assert(!(x@[i as int].label@ == y@[i as int].label@ && x@[i as int].typ == y@[i as int].typ));
                    }
                    return false;
                }
                i = i + 1;
            }
            true
        },
        (Type::Fn { param_types: p, return_type: r1 }, Type::Fn { param_types: q, return_type: r2 }) => {
            if p.len() != q.len() || r1.0 != r2.0 {
                return false;
            }
            let mut i: usize = 0;
            while i < p.len()
                invariant
                    p@.len() == q@.len(),
                    type_matches(*a, *b) == (p@ == q@),
                    0 <= i <= p@.len(),
                    forall|k: int| 0 <= k < i ==> p@[k] == q@[k],
                decreases p@.len() - i,
            {
                if p[i].0 != q[i].0 {
                    proof { assert(p@[i as int] != q@[i as int]); }
                    return false;
                }
                i = i + 1;
            }
            proof { assert(p@ =~= q@); }
            true
        },
        _ => false,
    }
}

/// All types, by `TypeId`. The same type is stored once.
pub struct TypeArena {
    pub types: Vec<Type>,
}

impl TypeArena {
    /// Every type is stored once, and ids 0 to 7 hold the built-in types.
    pub open spec fn wf(&self) -> bool {
        &&& self.types@.len() >= 8
        &&& self.types@[0] == Type::Error
        &&& self.types@[1] == Type::Never
        &&& self.types@[2] == Type::Void
        &&& self.types@[3] == Type::MetaType
        &&& self.types@[4] == Type::NumInt
        &&& self.types@[5] == Type::NumFloat
        &&& self.types@[6] == Type::Bool
        &&& self.types@[7] == Type::Str
        &&& forall|i: int, j: int| 0 <= i < j < self.types@.len() ==>
                !type_matches(#[trigger] self.types@[i], #[trigger] self.types@[j])
    }

    /// An arena with the built-in types at their fixed ids.
    pub fn new() -> (r: Self)
        ensures
            r.wf(),
            r.types@.len() == 8,
    {
        let mut types: Vec<Type> = Vec::new();
        types.push(Type::Error);
        types.push(Type::Never);
        types.push(Type::Void);
        types.push(Type::MetaType);
        types.push(Type::NumInt);
        types.push(Type::NumFloat);
        types.push(Type::Bool);
        types.push(Type::Str);
        TypeArena { types }
    }

    /// The type with id `id`.
    pub fn get_type(&self, id: TypeId) -> (r: Type)
        requires
            id.0 < self.types@.len(),
        ensures
            type_matches(r, self.types@[id.0 as int]),
    {
        clone_type(&self.types[id.0])
    }

    /// The id of `typ`: the one it already has, or a new one.
    pub fn add_type(&mut self, typ: Type) -> (r: TypeId)
        requires
            old(self).wf(),
        ensures
            final(self).wf(),
            r.0 < final(self).types@.len(),
            type_matches(final(self).types@[r.0 as int], typ),
            (exists|i: int| 0 <= i < old(self).types@.len() && type_matches(#[trigger] old(self).types@[i], typ))
                ==> final(self).types@ == old(self).types@,
            !(exists|i: int| 0 <= i < old(self).types@.len() && type_matches(#[trigger] old(self).types@[i], typ))
                ==> final(self).types@ == old(self).types@.push(typ) && r.0 == old(self).types@.len(),
            // a type that is stored already keeps its id
            forall|i: int| 0 <= i < old(self).types@.len() && type_matches(#[trigger] old(self).types@[i], typ) ==> r.0 == i,
    {
        let mut i: usize = 0;
        while i < self.types.len()
            invariant
                self.wf(),
                0 <= i <= self.types@.len(),
                forall|k: int| 0 <= k < i ==> !type_matches(#[trigger] self.types@[k], typ),
            decreases self.types@.len() - i,
        {
            if type_eq(&self.types[i], &typ) {
                proof {
                    lemma_type_matches_symmetric(typ, self.types@[i as int]);
                    assert forall|j: int| 0 <= j < self.types@.len() && type_matches(#[trigger] self.types@[j], typ) implies j == i by {
                        if j != i {
                            lemma_type_matches_symmetric(self.types@[j], typ);
                            lemma_type_matches_transitive(self.types@[i as int], typ, self.types@[j]);
                            if j < i {
                                lemma_type_matches_symmetric(self.types@[i as int], self.types@[j]);
                            }
                        }
                    }
                }
                return TypeId(i);
            }
            i = i + 1;
        }
        let id = self.types.len();
        let ghost old_types = self.types@;
        self.types.push(typ);
        proof {
            lemma_type_matches_reflexive(typ);
            assert forall|a: int, b: int| 0 <= a < b < self.types@.len() implies
                !type_matches(#[trigger] self.types@[a], #[trigger] self.types@[b]) by {
                if b == old_types.len() {
                    assert(!type_matches(old_types[a], typ));
                } else {
                    assert(self.types@[a] == old_types[a]);
                    assert(self.types@[b] == old_types[b]);
                }
            }
        }
        TypeId(id)
    }
}

pub proof fn lemma_type_matches_reflexive(t: Type)
    ensures
        type_matches(t, t),
{
}

pub proof fn lemma_type_matches_transitive(a: Type, b: Type, c: Type)
    requires
        type_matches(a, b),
        type_matches(b, c),
    ensures
        type_matches(a, c),
{
    match (a, b, c) {
        (Type::Tup(x), Type::Tup(y), Type::Tup(z)) => {
            assert forall|i: int| 0 <= i < x@.len() implies (#[trigger] x@[i]).label@ == z@[i].label@ && x@[i].typ == z@[i].typ by {
                assert(x@[i].label@ == y@[i].label@);
                assert(y@[i].label@ == z@[i].label@);
            }
        },
        _ => {},
    }
}

pub proof fn lemma_type_matches_symmetric(a: Type, b: Type)
    requires
        type_matches(a, b),
    ensures
        type_matches(b, a),
{
}

} // verus!
