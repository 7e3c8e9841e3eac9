use vstd::prelude::*;
use crate::typing::TypeId;

verus! {

/// The native functions that the standard library provides.
#[derive(Clone, Copy, PartialEq, Eq, Debug, Structural)]
pub enum NativeFn {
    Print,
    Panic,
    StrLen,
}

/// A value at run time (and of an evaluated constant).
/// Float values and raw value pointers are not held here.
#[derive(Debug)]
pub enum VmValue {
    Int(i64),
    Str(String),
    Bool(bool),
    Void,
    Tup(Vec<VmValue>),
    Type(TypeId),
    Fn { slot: usize },
    NativeFn(NativeFn),
    Empty,
}

/// `b` is a copy of `a` down to `depth` levels of nested tuples: a string has the same text, a
/// non-empty tuple deeper than that is `Empty`, and any other value is the same.
pub open spec fn copy_of(a: VmValue, b: VmValue, depth: nat) -> bool
    decreases depth,
{
    match a {
        VmValue::Str(s) => b matches VmValue::Str(t) && t@ == s@,
        VmValue::Tup(elems) => if elems@.len() == 0 {
            b matches VmValue::Tup(c) && c@.len() == 0
        } else if depth == 0 {
            b == VmValue::Empty
        } else {
            b matches VmValue::Tup(c) && c@.len() == elems@.len()
                && forall|i: int| 0 <= i < elems@.len() ==> copy_of(#[trigger] elems@[i], c@[i], (depth - 1) as nat)
        },
        _ => b == a,
    }
}

impl VmValue {
    /// A copy of the value, nested tuples copied down to `depth` levels.
    pub fn copy_value(&self, depth: usize) -> (r: VmValue)
        ensures
            copy_of(*self, r, depth as nat),
        decreases depth,
    {
        match self {
            VmValue::Int(i) => VmValue::Int(*i),
            VmValue::Str(s) => VmValue::Str(s.clone()),
            VmValue::Bool(b) => VmValue::Bool(*b),
            VmValue::Void => VmValue::Void,
            VmValue::Tup(elems) => {
                let mut copied: Vec<VmValue> = Vec::new();
                let mut i: usize = 0;
                while i < elems.len()
                    invariant
                        0 <= i <= elems@.len(),
                        *self == VmValue::Tup(*elems),
                        copied@.len() == i,
                        i > 0 ==> depth > 0,
                        forall|k: int| 0 <= k < i ==> copy_of(#[trigger] elems@[k], copied@[k], (depth - 1) as nat),
                    decreases elems@.len() - i,
                {
                    if depth == 0 {
                        return VmValue::Empty;
                    }
                    copied.push(elems[i].copy_value(depth - 1));
                    i = i + 1;
                }
                VmValue::Tup(copied)
            },
            VmValue::Type(t) => VmValue::Type(*t),
            VmValue::Fn { slot } => VmValue::Fn { slot: *slot },
            VmValue::NativeFn(f) => VmValue::NativeFn(*f),
            VmValue::Empty => VmValue::Empty,
        }
    }
}

} // verus!
