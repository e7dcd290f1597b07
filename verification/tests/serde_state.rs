use lilliput::config::{EnumVariantRepr, SerializerConfig, StructRepr};
use lilliput::de::{
    plan_enum, plan_variant_key, DepthLimitExceeded, Deserializer, EnumStart, ItemKind, VariantKey,
};
use lilliput::ser::{Serializer, VariantTag};

#[test]
fn serializer_config_builders() {
    let config: SerializerConfig<u8> = SerializerConfig::default();
    assert_eq!(config.struct_repr, StructRepr::Sequence);
    assert_eq!(config.enum_variant_repr, EnumVariantRepr::Index);
    let config = config
        .with_struct_repr(StructRepr::Mapping)
        .with_enum_variant_repr(EnumVariantRepr::Name)
        .with_encoder(7);
    assert_eq!(config.struct_repr, StructRepr::Mapping);
    assert_eq!(config.enum_variant_repr, EnumVariantRepr::Name);
    assert_eq!(config.encoder, 7);
}

#[test]
fn serializer_from_writer_and_variant_tags() {
    let config: SerializerConfig<()> = SerializerConfig::default();
    let serializer = Serializer::from_writer(Vec::<u8>::new(), config);
    assert!(serializer.writer.is_empty());
    assert_eq!(serializer.config.variant_tag(3, "Three"), VariantTag::Index(3));
    let named = serializer.config.with_enum_variant_repr(EnumVariantRepr::Name);
    assert_eq!(named.variant_tag(3, "Three"), VariantTag::Name("Three"));
}

#[test]
fn depth_limit_allows_127_levels() {
    let mut de = Deserializer::from_reader(&[0u8][..]);
    for _ in 0..127 {
        assert_eq!(de.enter_nested(), Ok(()));
    }
    assert_eq!(de.enter_nested(), Err(DepthLimitExceeded));
}

#[test]
fn leaving_a_level_makes_room_again() {
    let mut de = Deserializer::from_reader(());
    for _ in 0..127 {
        assert_eq!(de.enter_nested(), Ok(()));
    }
    de.leave_nested();
    assert_eq!(de.enter_nested(), Ok(()));
    for _ in 0..127 {
        de.leave_nested();
    }
    for _ in 0..127 {
        assert_eq!(de.enter_nested(), Ok(()));
    }
}

#[test]
fn disabled_depth_limit_never_refuses() {
    let mut de = Deserializer::from_reader(());
    de.disable_depth_limit();
    for _ in 0..1000 {
        assert_eq!(de.enter_nested(), Ok(()));
    }
}

#[test]
fn enum_start_follows_the_first_item() {
    assert_eq!(plan_enum(ItemKind::Int, 2, 0, 3), EnumStart::Index(2));
    assert_eq!(plan_enum(ItemKind::String, 0, 0, 3), EnumStart::Name);
    assert_eq!(plan_enum(ItemKind::Mapping, 0, 1, 3), EnumStart::SingleEntryMap);
    assert_eq!(plan_enum(ItemKind::Mapping, 0, 0, 3), EnumStart::NotSingleEntry);
    assert_eq!(plan_enum(ItemKind::Mapping, 0, 2, 3), EnumStart::NotSingleEntry);
    for kind in [
        ItemKind::Sequence,
        ItemKind::Float,
        ItemKind::Bytes,
        ItemKind::Bool,
        ItemKind::Unit,
        ItemKind::Null,
    ] {
        assert_eq!(plan_enum(kind, 0, 1, 3), EnumStart::Unexpected(kind));
    }
}

#[test]
fn variant_key_is_an_index_or_a_name() {
    assert_eq!(plan_variant_key(ItemKind::Int), Ok(VariantKey::Index));
    assert_eq!(plan_variant_key(ItemKind::String), Ok(VariantKey::Name));
    assert_eq!(plan_variant_key(ItemKind::Mapping), Err(ItemKind::Mapping));
    assert_eq!(plan_variant_key(ItemKind::Null), Err(ItemKind::Null));
}
