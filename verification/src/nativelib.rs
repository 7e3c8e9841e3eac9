use vstd::prelude::*;
use vstd::string::StringSliceAdditionalSpecFns;
use crate::ErrType;
use crate::typing::{Type, TypeArena, TypeId};
use crate::vm_compiling::{NativeFn, VmValue};

verus! {

/// A value of the native library, with its type.
pub struct ThrumValue {
    pub typ: Type,
    pub val: VmValue,
    pub is_prelude: bool,
}

/// A module of the native library: its submodules, values and the values implemented on types.
pub struct ThrumModule {
    pub sub_modules: Vec<(String, ThrumModule)>,
    pub values: Vec<(String, ThrumValue)>,
    pub type_impls: Vec<(TypeId, Vec<(String, ThrumValue)>)>,
}

impl ThrumModule {
    pub fn new() -> (r: Self)
        ensures
            r.sub_modules@.len() == 0,
            r.values@.len() == 0,
            r.type_impls@.len() == 0,
    {
        ThrumModule { sub_modules: Vec::new(), values: Vec::new(), type_impls: Vec::new() }
    }
}

/// A one-parameter function type.
fn fn_type(param: TypeId, ret: TypeId) -> (r: Type)
    ensures
        r matches Type::Fn { param_types, return_type } && param_types@ == seq![param] && return_type == ret,
{
    let mut params: Vec<TypeId> = Vec::new();
    params.push(param);
    Type::Fn { param_types: params, return_type: ret }
}

/// The native library: `io.print` and `io.panic`, the type names `int`, `float`, `bool`, `str`,
/// and `len` on `str`. Every value is in the prelude.
pub fn get_native_lib(_type_arena: &mut TypeArena) -> (r: ThrumModule)
    ensures
        *final(_type_arena) == *old(_type_arena),
        r.values@.len() == 4,
        r.values@[0].0@ == "int"@ && r.values@[0].1.val == VmValue::Type(TypeId(4)) && r.values@[0].1.typ == Type::MetaType,
        r.values@[1].0@ == "float"@ && r.values@[1].1.val == VmValue::Type(TypeId(5)) && r.values@[1].1.typ == Type::MetaType,
        r.values@[2].0@ == "bool"@ && r.values@[2].1.val == VmValue::Type(TypeId(6)) && r.values@[2].1.typ == Type::MetaType,
        r.values@[3].0@ == "str"@ && r.values@[3].1.val == VmValue::Type(TypeId(7)) && r.values@[3].1.typ == Type::MetaType,
        forall|i: int| 0 <= i < 4 ==> (#[trigger] r.values@[i]).1.is_prelude,
        r.sub_modules@.len() == 1,
        r.sub_modules@[0].0@ == "io"@,
        r.sub_modules@[0].1.values@.len() == 2,
        r.sub_modules@[0].1.values@[0].0@ == "print"@ && r.sub_modules@[0].1.values@[0].1.val == VmValue::NativeFn(NativeFn::Print),
        r.sub_modules@[0].1.values@[1].0@ == "panic"@ && r.sub_modules@[0].1.values@[1].1.val == VmValue::NativeFn(NativeFn::Panic),
        r.sub_modules@[0].1.values@[0].1.typ matches Type::Fn { param_types, return_type }
            && param_types@ == seq![TypeId(7)] && return_type == TypeId(2),
        r.sub_modules@[0].1.values@[1].1.typ matches Type::Fn { param_types, return_type }
            && param_types@ == seq![TypeId(7)] && return_type == TypeId(1),
        r.sub_modules@[0].1.values@[0].1.is_prelude && r.sub_modules@[0].1.values@[1].1.is_prelude,
        r.sub_modules@[0].1.sub_modules@.len() == 0,
        r.type_impls@.len() == 1,
        r.type_impls@[0].0 == TypeId(7),
        r.type_impls@[0].1@.len() == 1,
        r.type_impls@[0].1@[0].0@ == "len"@ && r.type_impls@[0].1@[0].1.val == VmValue::NativeFn(NativeFn::StrLen),
        r.type_impls@[0].1@[0].1.typ matches Type::Fn { param_types, return_type }
            && param_types@ == seq![TypeId(7)] && return_type == TypeId(7),
        r.type_impls@[0].1@[0].1.is_prelude,
{
    let mut std_module = ThrumModule::new();

    let mut io_module = ThrumModule::new();
    io_module.values.push(("print".to_string(), ThrumValue {
        typ: fn_type(TypeId::str_type(), TypeId::void_type()),
        val: VmValue::NativeFn(NativeFn::Print),
        is_prelude: true,
    }));
    io_module.values.push(("panic".to_string(), ThrumValue {
        typ: fn_type(TypeId::str_type(), TypeId::never_type()),
        val: VmValue::NativeFn(NativeFn::Panic),
        is_prelude: true,
    }));
    std_module.sub_modules.push(("io".to_string(), io_module));

    std_module.values.push(("int".to_string(), ThrumValue { typ: Type::MetaType, val: VmValue::Type(TypeId::int_type()), is_prelude: true }));
    std_module.values.push(("float".to_string(), ThrumValue { typ: Type::MetaType, val: VmValue::Type(TypeId::float_type()), is_prelude: true }));
    std_module.values.push(("bool".to_string(), ThrumValue { typ: Type::MetaType, val: VmValue::Type(TypeId::bool_type()), is_prelude: true }));
    std_module.values.push(("str".to_string(), ThrumValue { typ: Type::MetaType, val: VmValue::Type(TypeId::str_type()), is_prelude: true }));

    let mut str_methods: Vec<(String, ThrumValue)> = Vec::new();
    str_methods.push(("len".to_string(), ThrumValue {
        typ: fn_type(TypeId::str_type(), TypeId::str_type()),
        val: VmValue::NativeFn(NativeFn::StrLen),
        is_prelude: true,
    }));
    std_module.type_impls.push((TypeId::str_type(), str_methods));

    proof {
        reveal_strlit("int");
        reveal_strlit("float");
        reveal_strlit("bool");
        reveal_strlit("str");
        reveal_strlit("io");
        reveal_strlit("print");
        reveal_strlit("panic");
        reveal_strlit("len");
    }
    std_module
}

/// The length in bytes of the string argument.
pub fn native_str_len(val: &[VmValue]) -> (r: Result<VmValue, ErrType>)
    requires
        val@.len() >= 1,
        val@[0] is Str,
        vstd::utf8::encode_utf8(val@[0]->Str_0@).len() <= i64::MAX,
    ensures
        r matches Ok(VmValue::Int(n)) && n == vstd::utf8::encode_utf8(val@[0]->Str_0@).len(),
{
    match &val[0] {
        VmValue::Str(s) => {
            let n = s.as_str().as_bytes().len();
            Ok(VmValue::Int(n as i64))
        },
        _ => {
            proof { assert(false); }
            Ok(VmValue::Int(0))
        },
    }
}

} // verus!
