use adar::flags::{FlagEnum, Flags};
use adar::reflect::{EnumVariant, ReflectEnum};
use std::ops::BitOr;

#[derive(Debug, Clone, Copy)]
enum TestEmpty {}

impl ReflectEnum for TestEmpty {
    type Type = u32;

    fn variants() -> &'static [EnumVariant<TestEmpty>] {
        const VARIANTS: &[EnumVariant<TestEmpty>] = &[];
        VARIANTS
    }

    fn count() -> usize {
        0
    }

    fn name(&self) -> &'static str {
        ""
    }
}

impl FlagEnum for TestEmpty {
    fn bits(self) -> u64 {
        match self {}
    }
}

#[derive(Debug, Clone, Copy)]
enum TestSmallU8 {
    F1,
    F2,
}

impl ReflectEnum for TestSmallU8 {
    type Type = u32;

    fn variants() -> &'static [EnumVariant<TestSmallU8>] {
        const VARIANTS: &[EnumVariant<TestSmallU8>] = &[
            EnumVariant { name: "F1", value: Some(TestSmallU8::F1) },
            EnumVariant { name: "F2", value: Some(TestSmallU8::F2) },
        ];
        VARIANTS
    }

    fn count() -> usize {
        2
    }

    fn name(&self) -> &'static str {
        match self {
            Self::F1 => "F1",
            Self::F2 => "F2",
        }
    }
}

impl FlagEnum for TestSmallU8 {
    fn bits(self) -> u64 {
        1u64 << (self as u32)
    }
}

#[derive(Debug, Eq, PartialEq, Clone, Copy)]
enum TestU8 {
    F1,
    F2,
    F3,
    F4,
    F5,
    F6,
    F7,
    F8,
}

impl ReflectEnum for TestU8 {
    type Type = u32;

    fn variants() -> &'static [EnumVariant<TestU8>] {
        const VARIANTS: &[EnumVariant<TestU8>] = &[
            EnumVariant { name: "F1", value: Some(TestU8::F1) },
            EnumVariant { name: "F2", value: Some(TestU8::F2) },
            EnumVariant { name: "F3", value: Some(TestU8::F3) },
            EnumVariant { name: "F4", value: Some(TestU8::F4) },
            EnumVariant { name: "F5", value: Some(TestU8::F5) },
            EnumVariant { name: "F6", value: Some(TestU8::F6) },
            EnumVariant { name: "F7", value: Some(TestU8::F7) },
            EnumVariant { name: "F8", value: Some(TestU8::F8) },
        ];
        VARIANTS
    }

    fn count() -> usize {
        8
    }

    fn name(&self) -> &'static str {
        match self {
            Self::F1 => "F1",
            Self::F2 => "F2",
            Self::F3 => "F3",
            Self::F4 => "F4",
            Self::F5 => "F5",
            Self::F6 => "F6",
            Self::F7 => "F7",
            Self::F8 => "F8",
        }
    }
}

impl FlagEnum for TestU8 {
    fn bits(self) -> u64 {
        1u64 << (self as u32)
    }
}

impl BitOr for TestU8 {
    type Output = Flags<TestU8>;

    fn bitor(self, rhs: Self) -> Self::Output {
        Flags::empty() | self | rhs
    }
}

#[derive(Debug, Eq, PartialEq, Clone, Copy)]
enum TestU16 {
    F1,
    F2,
    F3,
    F4,
    F5,
    F6,
    F7,
    F8,
    F9,
}

impl ReflectEnum for TestU16 {
    type Type = u32;

    fn variants() -> &'static [EnumVariant<TestU16>] {
        const VARIANTS: &[EnumVariant<TestU16>] = &[
            EnumVariant { name: "F1", value: Some(TestU16::F1) },
            EnumVariant { name: "F2", value: Some(TestU16::F2) },
            EnumVariant { name: "F3", value: Some(TestU16::F3) },
            EnumVariant { name: "F4", value: Some(TestU16::F4) },
            EnumVariant { name: "F5", value: Some(TestU16::F5) },
            EnumVariant { name: "F6", value: Some(TestU16::F6) },
            EnumVariant { name: "F7", value: Some(TestU16::F7) },
            EnumVariant { name: "F8", value: Some(TestU16::F8) },
            EnumVariant { name: "F9", value: Some(TestU16::F9) },
        ];
        VARIANTS
    }

    fn count() -> usize {
        9
    }

    fn name(&self) -> &'static str {
        match self {
            Self::F1 => "F1",
            Self::F2 => "F2",
            Self::F3 => "F3",
            Self::F4 => "F4",
            Self::F5 => "F5",
            Self::F6 => "F6",
            Self::F7 => "F7",
            Self::F8 => "F8",
            Self::F9 => "F9",
        }
    }
}

impl FlagEnum for TestU16 {
    fn bits(self) -> u64 {
        1u64 << (self as u32)
    }
}

impl BitOr for TestU16 {
    type Output = Flags<TestU16>;

    fn bitor(self, rhs: Self) -> Self::Output {
        Flags::empty() | self | rhs
    }
}

#[test]
fn test_flag_default() {
    let flags = Flags::<TestU8>::default();
    assert!(!flags.any(TestU8::F1));
    assert!(!flags.any(TestU8::F2));
    assert!(!flags.any(TestU8::F3));
    assert!(flags.is_empty());
}

#[test]
fn test_flag_empty() {
    let flags = Flags::<TestU8>::empty();
    assert!(!flags.any(TestU8::F1));
    assert!(!flags.any(TestU8::F2));
    assert!(!flags.any(TestU8::F3));
    assert!(flags.is_empty());
}

#[test]
fn test_flag_full() {
    let flags = Flags::<TestU8>::full();
    assert!(flags.any(TestU8::F1));
    assert!(flags.any(TestU8::F2));
    assert!(flags.any(TestU8::F3));
    assert!(!flags.is_empty());
}

#[test]
fn test_flag_from_enum() {
    let flags = Flags::from(TestU8::F1);
    assert!(flags.any(TestU8::F1));
    assert!(!flags.any(TestU8::F2));
    let flags = Flags::from(TestU8::F2);
    assert!(!flags.any(TestU8::F1));
    assert!(flags.any(TestU8::F2));
}

#[test]
fn test_flag_raw() {
    let flags = Flags::<TestU8>::try_from_raw(0b10).unwrap();
    assert_eq!(flags.into_raw(), 0b10);
    assert!(!flags.any(TestU8::F1));
    assert!(flags.any(TestU8::F2));
    assert!(!flags.any(TestU8::F3));
    let flags = Flags::<TestU8>::try_from_raw(0b111).unwrap();
    assert_eq!(flags.into_raw(), 0b111);
    assert!(flags.any(TestU8::F1));
    assert!(flags.any(TestU8::F2));
    assert!(flags.any(TestU8::F3));

    assert!(Flags::<TestSmallU8>::try_from_raw(0b11).is_some());
    assert!(Flags::<TestSmallU8>::try_from_raw(0b111).is_none());
    assert!(Flags::<TestU8>::try_from_raw(0b11111111).is_some());
}

#[test]
fn test_flag_from_iter() {
    let flags = Flags::<TestU8>::from_iter(&[]);
    assert!(!flags.any(TestU8::F1));
    assert!(!flags.any(TestU8::F3));

    let flags = Flags::from_iter(&[TestU8::F1]);
    assert!(flags.any(TestU8::F1));
    assert!(!flags.any(TestU8::F3));

    let flags = Flags::from_iter(&[TestU8::F3]);
    assert!(!flags.any(TestU8::F1));
    assert!(flags.any(TestU8::F3));

    let flags = Flags::from_iter(&[TestU8::F1, TestU8::F3]);
    assert!(flags.any(TestU8::F1));
    assert!(flags.any(TestU8::F3));

    let flags = Flags::from_iter(&vec![TestU8::F3]);
    assert!(!flags.any(TestU8::F1));
    assert!(flags.any(TestU8::F3));
}

#[test]
fn test_flag_set() {
    let mut flags = Flags::<TestU8>::empty();
    flags.set(TestU8::F1);
    assert_eq!(flags, TestU8::F1);
    assert_ne!(flags, TestU8::F1 | TestU8::F2);
    flags.set(TestU8::F2);
    assert_eq!(flags, TestU8::F1 | TestU8::F2);
}

#[test]
fn test_flag_reset() {
    let mut flags = TestU8::F1 | TestU8::F2 | TestU8::F7;
    assert_eq!(flags, TestU8::F1 | TestU8::F2 | TestU8::F7);
    flags.reset(TestU8::F2);
    assert_eq!(flags, TestU8::F1 | TestU8::F7);
    flags.reset(TestU8::F7);
    assert_eq!(flags, TestU8::F1);
    assert!(!flags.is_empty());
    flags.reset(TestU8::F1);
    assert!(flags.is_empty());
}

#[test]
fn test_flag_toggle() {
    let mut flags = Flags::<TestU8>::empty();
    flags.toggle(TestU8::F6);
    assert_eq!(flags, TestU8::F6);
    flags.toggle(TestU8::F2);
    assert_eq!(flags, TestU8::F2 | TestU8::F6);
    flags.toggle(TestU8::F2);
    assert_eq!(flags, TestU8::F6);
    flags.toggle(TestU8::F6);
    assert!(flags.is_empty());
}

#[test]
fn test_flag_all() {
    let flags = TestU16::F1 | TestU16::F3 | TestU16::F5 | TestU16::F7 | TestU16::F9;

    assert!(flags.all(Flags::empty()));
    assert!(flags.all(TestU16::F1));
    assert!(flags.all(TestU16::F1 | TestU16::F5));
    assert!(flags.all(TestU16::F1 | TestU16::F5 | TestU16::F9));
    assert!(!flags.all(TestU16::F4 | TestU16::F5));
    assert!(!flags.all(TestU16::F2 | TestU16::F5));
    assert!(!flags.all(TestU16::F2));
}

#[test]
fn test_flag_any() {
    let flags = TestU16::F1 | TestU16::F3 | TestU16::F5 | TestU16::F7 | TestU16::F9;

    assert!(!flags.any(Flags::empty()));
    assert!(flags.any(TestU16::F1));
    assert!(flags.any(TestU16::F1 | TestU16::F5));
    assert!(flags.any(TestU16::F1 | TestU16::F5 | TestU16::F9));
    assert!(!flags.any(TestU16::F2 | TestU16::F4));
    assert!(!flags.any(TestU16::F2 | TestU16::F8));
    assert!(!flags.any(TestU16::F2));
}

#[test]
fn test_flag_union() {
    let flags = (TestU16::F1 | TestU16::F3).union(TestU16::F5 | TestU16::F7 | TestU16::F9);
    assert_eq!(
        flags,
        TestU16::F1 | TestU16::F3 | TestU16::F5 | TestU16::F7 | TestU16::F9
    );
    assert_eq!(flags.union(flags), flags);
}

#[test]
fn test_flag_intersect() {
    let flags = (TestU16::F1 | TestU16::F3).intersect(TestU16::F3 | TestU16::F7 | TestU16::F9);
    assert_eq!(flags, TestU16::F3);
    assert_eq!(flags.intersect(flags), flags);
}

#[test]
fn test_flag_iter() {
    let flags = TestU8::F2 | TestU8::F4 | TestU8::F6;
    let mut i = flags.iter();
    assert_eq!(i.next(), Some(&EnumVariant::new("F2", Some(TestU8::F2))));
    assert_eq!(i.next(), Some(&EnumVariant::new("F4", Some(TestU8::F4))));
    assert_eq!(i.next(), Some(&EnumVariant::new("F6", Some(TestU8::F6))));
    assert_eq!(i.next(), None);
    assert_eq!(flags.len(), 3);
}

#[test]
fn test_flag_len() {
    assert_eq!((TestU8::F2 | TestU8::F4 | TestU8::F6).len(), 3);
    assert_eq!(Flags::<TestEmpty>::empty().len(), 0);
    assert_eq!(Flags::<TestEmpty>::full().len(), 0);
    assert_eq!(Flags::<TestU8>::empty().len(), 0);
    assert_eq!(Flags::<TestU8>::full().len(), 8);
}

#[test]
fn test_flag_debug() {
    let flags = TestU16::F1 | TestU16::F3 | TestU16::F5 | TestU16::F7;
    assert_eq!(flags.to_text(), "(F1,F3,F5,F7)".to_string());
}

#[test]
fn flags_in_words() {
    assert_eq!(Flags::<TestU8>::empty().to_text(), "()");
    assert_eq!(Flags::single(TestU8::F8).to_text(), "(F8)");
    assert_eq!(Flags::<TestSmallU8>::full().to_text(), "(F1,F2)");
    assert_eq!(Flags::<TestEmpty>::full().to_text(), "()");
}

#[test]
fn full_sets_one_bit_for_each_variant() {
    assert_eq!(Flags::<TestEmpty>::full().into_raw(), 0);
    assert_eq!(Flags::<TestSmallU8>::full().into_raw(), 0b11);
    assert_eq!(Flags::<TestU8>::full().into_raw(), 255);
    assert_eq!(Flags::<TestU16>::full().into_raw(), 511);
    assert_eq!(Flags::<TestU16>::full().len(), 9);
}

#[test]
fn raw_bits_outside_the_variants_are_refused() {
    assert!(Flags::<TestEmpty>::try_from_raw(0).is_some());
    assert!(Flags::<TestEmpty>::try_from_raw(1).is_none());
    assert!(Flags::<TestU16>::try_from_raw(511).is_some());
    assert!(Flags::<TestU16>::try_from_raw(512).is_none());
    assert!(Flags::<TestU8>::try_from_raw(1 << 63).is_none());
    assert_eq!(Flags::<TestU16>::try_from_raw(0b1_0000_0001).unwrap().into_raw(), 257);
}

#[test]
fn len_counts_the_bits_that_are_set() {
    assert_eq!(Flags::<TestU8>::try_from_raw(42).unwrap().len(), 3);
    assert_eq!(Flags::<TestU8>::try_from_raw(128).unwrap().len(), 1);
    assert_eq!(Flags::<TestU16>::try_from_raw(0b1_1111_1110).unwrap().len(), 8);
}

#[test]
fn single_and_unit_convert_to_flags() {
    assert_eq!(Flags::single(TestU8::F4).into_raw(), 8);
    assert_eq!(Flags::from(TestU8::F4).into_raw(), 8);
    let none: Flags<TestU8> = Flags::from(());
    assert_eq!(none.into_raw(), 0);
    assert_eq!(none, ());
    let mut flags = TestU8::F1 | TestU8::F2;
    flags.reset(());
    assert_eq!(flags.into_raw(), 3);
    flags.set(Flags::full());
    assert_eq!(flags.into_raw(), 255);
    flags.toggle(TestU8::F1 | TestU8::F8);
    assert_eq!(flags.into_raw(), 0b0111_1110);
    assert_eq!(flags.clone().into_raw(), 0b0111_1110);
    assert_eq!((Flags::empty() | TestU8::F3).into_raw(), 4);
}

#[test]
fn from_iter_joins_the_flags() {
    assert_eq!(Flags::<TestU8>::from_iter(&[]).into_raw(), 0);
    assert_eq!(
        Flags::from_iter(&[TestU8::F1, TestU8::F3, TestU8::F1]).into_raw(),
        0b101
    );
}

#[test]
fn iterator_skips_the_flags_that_are_not_set() {
    let flags = Flags::single(TestU16::F9);
    let mut i = flags.iter();
    assert_eq!(i.next(), Some(&EnumVariant::new("F9", Some(TestU16::F9))));
    assert_eq!(i.next(), None);
    assert_eq!(i.next(), None);
    let none = Flags::<TestU16>::empty();
    assert_eq!(none.iter().next(), None);
    assert_eq!(TestU16::F3.name(), "F3");
    assert_eq!(TestU16::count(), 9);
}
