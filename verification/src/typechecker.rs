//! The registry of types that a later analysis fills.
//!
//! The front end only names types. What is here is what it shares with the
//! analysis: the description of a type and the type that a builtin names.

use vstd::prelude::*;
use crate::ast::ParsedType;

use crate::model::builtin_type;

use crate::token::PrimitiveType;

verus! {

/// The index of a type in the registry.
pub type TypeID = usize;

/// What is known of a type: a builtin type with its size in bytes, a struct
/// with its fields, an enum with its variants, or one variant with its
/// fields. Fields are listed in the order they were declared in, each name
/// once.
pub enum TypeInfo {
    Primitive(PrimitiveType, usize),
    Struct(String, Vec<(String, Box<TypeInfo>)>),
    Enum(String, Vec<Box<TypeInfo>>),
    EnumVariant(String, Vec<(String, Box<TypeInfo>)>),
}

impl TypeInfo {
    /// The name of the type: the spelling of a builtin type, or the name a
    /// struct, an enum or a variant was declared with.
    pub open spec fn spec_name(&self) -> Seq<char> {
        match self {
            TypeInfo::Primitive(primitive, _) => primitive.name(),
            TypeInfo::Struct(name, _) => name@,
            TypeInfo::Enum(name, _) => name@,
            TypeInfo::EnumVariant(name, _) => name@,
        }
    }

    /// The name of the type.
    pub fn name(&self) -> (r: String)
        ensures
            r@ == self.spec_name(),
    {
        match self {
            TypeInfo::Primitive(primitive, _) => primitive.as_str().to_owned(),
            TypeInfo::Struct(name, _) => name.clone(),
            TypeInfo::Enum(name, _) => name.clone(),
            TypeInfo::EnumVariant(name, _) => name.clone(),
        }
    }
}

/// The registry of the types that are known.
pub struct Typechecker {
    registry: Vec<TypeInfo>,
}

impl Typechecker {
    /// The types that are registered, in the order of their ids.
    pub closed spec fn registry(&self) -> Seq<TypeInfo> {
        self.registry@
    }

    /// A registry without types.
    pub fn new() -> (r: Typechecker)
        ensures
            r.registry().len() == 0,
    {
        Typechecker { registry: Vec::new() }
    }

    /// The type that a builtin names: no path, and the spelling of the
    /// builtin as the name.
    pub fn primitive(ty: PrimitiveType) -> (r: ParsedType)
        ensures
            r@ == builtin_type(ty),
    {
        ParsedType::builtin(ty)
    }
}

} // verus!
