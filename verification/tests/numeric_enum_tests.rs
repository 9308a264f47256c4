use slang::enum_derive::{derive_numeric_enum, Discriminant, EnumInput, NameAttribute, NumericEnum, VariantInput};

fn variant(ident: &str, discriminant: Discriminant) -> VariantInput {
    VariantInput {
        ident: ident.to_string(),
        name_attribute: NameAttribute::Absent,
        discriminant,
        has_fields: false,
    }
}

// Test that the numeric enum derivation works with both explicit and implicit values
#[derive(Debug, PartialEq, Clone, Copy)]
enum TestEnum {
    Explicit1, // 10
    Explicit2, // 20
    Implicit1, // 21
    Implicit2, // 22
    Explicit3, // 30
    Implicit3, // 31
}

const VARIANTS: [TestEnum; 6] = [
    TestEnum::Explicit1,
    TestEnum::Explicit2,
    TestEnum::Implicit1,
    TestEnum::Implicit2,
    TestEnum::Explicit3,
    TestEnum::Implicit3,
];

fn numbers() -> NumericEnum {
    derive_numeric_enum(&EnumInput {
        is_enum: true,
        variants: vec![
            variant("Explicit1", Discriminant::Integer(10)),
            variant("Explicit2", Discriminant::Integer(20)),
            variant("Implicit1", Discriminant::Implicit),
            variant("Implicit2", Discriminant::Implicit),
            variant("Explicit3", Discriminant::Integer(30)),
            variant("Implicit3", Discriminant::Implicit),
        ],
    })
    .unwrap()
}

impl TestEnum {
    fn from_int<T: Into<usize>>(value: T) -> Option<TestEnum> {
        numbers().from_int(value.into()).map(|i| VARIANTS[i])
    }
}

#[test]
fn test_explicit_values() {
    assert_eq!(TestEnum::from_int(10u8), Some(TestEnum::Explicit1));
    assert_eq!(TestEnum::from_int(20u16), Some(TestEnum::Explicit2));
    assert_eq!(TestEnum::from_int(30u8), Some(TestEnum::Explicit3));
}

#[test]
fn test_implicit_values() {
    assert_eq!(TestEnum::from_int(21u8), Some(TestEnum::Implicit1));
    assert_eq!(TestEnum::from_int(22u16), Some(TestEnum::Implicit2));
    assert_eq!(TestEnum::from_int(31u8), Some(TestEnum::Implicit3));
}

#[test]
fn test_invalid_values() {
    assert_eq!(TestEnum::from_int(0u8), None);
    assert_eq!(TestEnum::from_int(11u8), None);
    assert_eq!(TestEnum::from_int(255u8), None);
}
