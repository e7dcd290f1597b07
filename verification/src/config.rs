//! Configurations used for serializing values.

use vstd::prelude::*;

verus! {

/// The representation to serialize structs to.
#[derive(Default, Clone, Copy, Eq, PartialEq, Debug, Structural)]
pub enum StructRepr {
    /// Serialize as sequence of fields.
    #[default]
    Sequence,
    /// Serialize as map of fields.
    Mapping,
}

/// The representation to serialize enums to.
#[derive(Default, Clone, Copy, Eq, PartialEq, Debug, Structural)]
pub enum EnumVariantRepr {
    /// Serialize variant index as discriminant.
    #[default]
    Index,
    /// Serialize variant name as discriminant.
    Name,
}

/// Configuration used for serializing values, with the low-level
/// configuration `E` of the encoder carried along.
#[derive(Clone, Debug)]
pub struct SerializerConfig<E> {
    /// The representation to serialize structs to.
    pub struct_repr: StructRepr,
    /// The representation to serialize enums to.
    pub enum_variant_repr: EnumVariantRepr,
    /// Low-level configuration for encoding values.
    pub encoder: E,
}

impl<E: Default> Default for SerializerConfig<E> {
    fn default() -> (r: Self)
        ensures
            r.struct_repr == StructRepr::Sequence,
            r.enum_variant_repr == EnumVariantRepr::Index,
    {
        SerializerConfig {
            struct_repr: StructRepr::Sequence,
            enum_variant_repr: EnumVariantRepr::Index,
            encoder: E::default(),
        }
    }
}

impl<E> SerializerConfig<E> {
    /// Sets struct-repr to `struct_repr`, returning `self`.
    pub fn with_struct_repr(self, struct_repr: StructRepr) -> (r: Self)
        ensures
            r == (SerializerConfig { struct_repr, ..self }),
    {
        SerializerConfig { struct_repr, ..self }
    }

    /// Sets enum-variant-repr to `enum_variant_repr`, returning `self`.
    pub fn with_enum_variant_repr(self, enum_variant_repr: EnumVariantRepr) -> (r: Self)
        ensures
            r == (SerializerConfig { enum_variant_repr, ..self }),
    {
        SerializerConfig { enum_variant_repr, ..self }
    }

    /// Sets encoder to `encoder`, returning `self`.
    pub fn with_encoder(self, encoder: E) -> (r: Self)
        ensures
            r == (SerializerConfig { encoder, ..self }),
    {
        SerializerConfig { encoder, ..self }
    }
}

} // verus!
