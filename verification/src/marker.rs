//! The structural type grammar: a recursive tagged value describing every
//! representable type (primitives, compounds, structs, enums, unresolved
//! type pointers).

use vstd::prelude::*;

verus! {

/// One named field of a struct-shaped type (also used for the named
/// variants of an enum, where the order of the fields is the
/// discriminant order).
#[derive(Debug, PartialEq, Eq)]
pub struct StructField {
    pub name: String,
    pub ty: RustTypeMarker,
}

/// The variants of an enum type: either a list of bare variant names, or
/// a list of named variants each carrying a payload type.  Variant order
/// is significant: it is the discriminant.
#[derive(Debug, PartialEq, Eq)]
pub enum RustEnum {
    Unit(Vec<String>),
    Struct(Vec<StructField>),
}

/// A structural type.  `TypePointer` is the only unresolved form; every
/// other variant is self-describing.
#[derive(Debug, PartialEq, Eq)]
pub enum RustTypeMarker {
    /// The unit type.
    Null,
    /// A named primitive (`u8` ... `u128`, `i8` ... `i128`, `bool`,
    /// `String`, `Bytes`, or a chain-specific named primitive).
    Primitive(String),
    /// A sequence of one inner type.
    VecOf(Box<RustTypeMarker>),
    /// A fixed-length array of one inner type.
    FixedArray(Box<RustTypeMarker>, u32),
    /// An ordered tuple of types.
    Tuple(Vec<RustTypeMarker>),
    /// An ordered sequence of named fields.
    Struct(Vec<StructField>),
    /// An enum; variant order is the discriminant.
    Enum(RustEnum),
    /// An optional value of one inner type.
    OptionOf(Box<RustTypeMarker>),
    /// A compact-encoded value of one inner type.
    CompactOf(Box<RustTypeMarker>),
    /// An unresolved symbolic reference into the registry.
    TypePointer(String),
}

} // verus!
