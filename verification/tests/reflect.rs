use adar::reflect::{EnumVariant, ReflectEnum};
use std::any::TypeId;

#[derive(Debug, Eq, PartialEq)]
enum MixedTestEnum {
    Elem1,
    Elem2(u32),
    Elem3 { a: u32, b: u32 },
}

impl ReflectEnum for MixedTestEnum {
    type Type = u32;

    fn variants() -> &'static [EnumVariant<MixedTestEnum>] {
        const VARIANTS: &[EnumVariant<MixedTestEnum>] = &[
            EnumVariant { name: "Elem1", value: Some(MixedTestEnum::Elem1) },
            EnumVariant { name: "Elem2", value: None },
            EnumVariant { name: "Elem3", value: None },
        ];
        VARIANTS
    }

    fn count() -> usize {
        3
    }

    fn name(&self) -> &'static str {
        match self {
            Self::Elem1 { .. } => "Elem1",
            Self::Elem2 { .. } => "Elem2",
            Self::Elem3 { .. } => "Elem3",
        }
    }
}

#[derive(Debug, Eq, PartialEq)]
enum EmptyTestEnum {}

impl ReflectEnum for EmptyTestEnum {
    type Type = u32;

    fn variants() -> &'static [EnumVariant<EmptyTestEnum>] {
        const VARIANTS: &[EnumVariant<EmptyTestEnum>] = &[];
        VARIANTS
    }

    fn count() -> usize {
        0
    }

    fn name(&self) -> &'static str {
        ""
    }
}

#[derive(Debug, Eq, PartialEq)]
enum SingleTestEnum {
    E1,
}

impl ReflectEnum for SingleTestEnum {
    type Type = u32;

    fn variants() -> &'static [EnumVariant<SingleTestEnum>] {
        const VARIANTS: &[EnumVariant<SingleTestEnum>] =
            &[EnumVariant { name: "E1", value: Some(SingleTestEnum::E1) }];
        VARIANTS
    }

    fn count() -> usize {
        1
    }

    fn name(&self) -> &'static str {
        match self {
            Self::E1 { .. } => "E1",
        }
    }
}

#[derive(Debug, Eq, PartialEq)]
enum ByteTestEnum {
    E1,
}

impl ReflectEnum for ByteTestEnum {
    type Type = u8;

    fn variants() -> &'static [EnumVariant<ByteTestEnum>] {
        const VARIANTS: &[EnumVariant<ByteTestEnum>] =
            &[EnumVariant { name: "E1", value: Some(ByteTestEnum::E1) }];
        VARIANTS
    }

    fn count() -> usize {
        1
    }

    fn name(&self) -> &'static str {
        match self {
            Self::E1 { .. } => "E1",
        }
    }
}

#[test]
fn test_empty_enum() {
    let elements = EmptyTestEnum::variants();
    assert_eq!(elements.iter().next(), None);
    assert_eq!(EmptyTestEnum::count(), 0);
}

#[test]
fn test_enum_iter() {
    let elements = MixedTestEnum::variants();
    let mut i = elements.iter();
    assert_eq!(
        i.next(),
        Some(&EnumVariant::new("Elem1", Some(MixedTestEnum::Elem1))),
    );
    assert_eq!(i.next(), Some(&EnumVariant::new("Elem2", None)));
    assert_eq!(i.next(), Some(&EnumVariant::new("Elem3", None)));
    assert_eq!(i.next(), None);
    assert_eq!(MixedTestEnum::count(), 3);
}

#[test]
fn test_enum_name() {
    assert_eq!(MixedTestEnum::Elem1.name(), "Elem1");
    assert_eq!(MixedTestEnum::Elem2(0).name(), "Elem2");
    assert_eq!(MixedTestEnum::Elem3 { a: 0, b: 0 }.name(), "Elem3");
}

#[test]
fn test_enum_repr() {
    assert_eq!(
        TypeId::of::<<SingleTestEnum as ReflectEnum>::Type>(),
        TypeId::of::<u32>()
    );
    assert_eq!(SingleTestEnum::E1.name(), "E1");

    assert_eq!(
        TypeId::of::<<ByteTestEnum as ReflectEnum>::Type>(),
        TypeId::of::<u8>()
    );
    assert_eq!(ByteTestEnum::E1.name(), "E1");
}

#[test]
fn enum_variant_keeps_name_and_value() {
    let variant = EnumVariant::new("Elem1", Some(7u8));
    assert_eq!(variant.name, "Elem1");
    assert_eq!(variant.value, Some(7));
    let bare: EnumVariant<u8> = EnumVariant::new("Elem2", None);
    assert_eq!(bare.name, "Elem2");
    assert_eq!(bare.value, None);
    assert_ne!(variant, bare);
}
