//! The state of a serializer and the decisions it makes from its
//! configuration.

use vstd::prelude::*;

pub use crate::config::{EnumVariantRepr, SerializerConfig, StructRepr};

verus! {

/// A serializer writing to `W`, configured by a `SerializerConfig` whose
/// encoder configuration is of type `E`.
pub struct Serializer<W, E> {
    /// Where the encoded values go.
    pub writer: W,
    /// How values are represented.
    pub config: SerializerConfig<E>,
}

impl<W, E> Serializer<W, E> {
    /// Creates a serializer writing to `writer` with `config`.
    pub fn from_writer(writer: W, config: SerializerConfig<E>) -> (r: Self)
        ensures
            r.writer == writer,
            r.config == config,
    {
        Serializer { writer, config }
    }
}

/// What identifies an enum variant in the encoded form.
#[derive(Clone, Copy, Debug, PartialEq, Eq)]
pub enum VariantTag<'a> {
    /// The variant's index.
    Index(u32),
    /// The variant's name.
    Name(&'a str),
}

impl<E> SerializerConfig<E> {
    /// The tag that identifies the variant with index `variant_index` and
    /// name `variant`: its index or its name, as the configuration says.
    pub fn variant_tag<'a>(&self, variant_index: u32, variant: &'a str) -> (r: VariantTag<'a>)
        ensures
            self.enum_variant_repr == EnumVariantRepr::Index ==> r == VariantTag::Index(
                variant_index,
            ),
            self.enum_variant_repr == EnumVariantRepr::Name ==> r == VariantTag::Name(variant),
    {
        match self.enum_variant_repr {
            EnumVariantRepr::Index => VariantTag::Index(variant_index),
            EnumVariantRepr::Name => VariantTag::Name(variant),
        }
    }
}

} // verus!
