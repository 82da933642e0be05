use ende::flags::AllModifiers;
use ende::flags::Flag;
use ende::flags::FlagError;
use ende::flags::FlagTarget;
use ende::flags::Flags;
use ende::flags::Function;
use ende::flags::ModTarget;
use ende::flags::Modifier;
use ende::flags::ModifierGroup;
use ende::flags::Param;
use ende::flags::Scope;
use ende::BitWidth;
use ende::Endianness;
use ende::NumEncoding;

fn field() -> Flags<&'static str> {
    Flags::new(FlagTarget::Field, "ende", "Default::default()")
}

fn item() -> Flags<&'static str> {
    Flags::new(FlagTarget::Item, "ende", "Default::default()")
}

#[test]
fn params() {
    assert!(Param::Default(1).is_default());
    assert!(!Param::Other(1).is_default());
    assert!(Function::<u8>::Default.is_default());
    assert!(!Function::Serde(1u8).is_default());
}

#[test]
fn no_modifier_twice() {
    let mut g: ModifierGroup<&str> = ModifierGroup::new(ModTarget::Size);
    assert!(g.empty());
    g.apply(Modifier::Encoding(NumEncoding::Leb128)).unwrap();
    g.apply(Modifier::Order(Endianness::BigEndian)).unwrap();
    g.apply(Modifier::Max("100")).unwrap();
    g.apply(Modifier::Width(BitWidth::Bit16)).unwrap();
    assert!(!g.empty());
    assert_eq!(g.num_encoding, Some(NumEncoding::Leb128));
    assert_eq!(g.endianness, Some(Endianness::BigEndian));
    assert_eq!(g.max, Some("100"));
    assert_eq!(g.bit_width, Some(BitWidth::Bit16));
    assert_eq!(
        g.apply(Modifier::Encoding(NumEncoding::Fixed)),
        Err(FlagError::RepeatedNumEncoding)
    );
    assert_eq!(
        g.apply(Modifier::Order(Endianness::BigEndian)),
        Err(FlagError::RepeatedEndianness)
    );
    assert_eq!(g.apply(Modifier::Max("1")), Err(FlagError::RepeatedMax));
    assert_eq!(g.apply(Modifier::Width(BitWidth::Bit8)), Err(FlagError::RepeatedBitWidth));
    assert_eq!(g.num_encoding, Some(NumEncoding::Leb128));
    assert_eq!(g.max, Some("100"));
}

#[test]
fn targets_take_what_they_can_carry() {
    assert_eq!(ModTarget::Num.tier(), 0);
    assert_eq!(ModTarget::Variant.tier(), 1);
    assert_eq!(ModTarget::Size.tier(), 2);
    let mut num: ModifierGroup<&str> = ModifierGroup::new(ModTarget::Num);
    assert_eq!(num.apply(Modifier::Max("1")), Err(FlagError::OnlySize));
    assert_eq!(num.apply(Modifier::Width(BitWidth::Bit8)), Err(FlagError::OnlyVariantAndSize));
    assert!(num.empty());
    let mut variant: ModifierGroup<&str> = ModifierGroup::new(ModTarget::Variant);
    assert_eq!(variant.apply(Modifier::Max("1")), Err(FlagError::OnlySize));
    variant.apply(Modifier::Width(BitWidth::Bit8)).unwrap();
}

#[test]
fn each_target_has_its_group() {
    let mut all: AllModifiers<&str> = AllModifiers::new();
    assert!(all.empty());
    all.apply(ModTarget::Size, Modifier::Max("9")).unwrap();
    all.apply(ModTarget::Variant, Modifier::Width(BitWidth::Bit64)).unwrap();
    all.apply(ModTarget::Num, Modifier::Encoding(NumEncoding::ProtobufZigzag)).unwrap();
    assert_eq!(all.size.max, Some("9"));
    assert_eq!(all.variant.bit_width, Some(BitWidth::Bit64));
    assert_eq!(all.num.num_encoding, Some(NumEncoding::ProtobufZigzag));
    assert_eq!(all.apply(ModTarget::Num, Modifier::Max("9")), Err(FlagError::OnlySize));
    assert!(!all.empty());
}

#[test]
fn flags_are_declared_once() {
    let mut f = item();
    f.apply(Flag::Crate("enderman"), Scope::Both).unwrap();
    assert_eq!(f.apply(Flag::Crate("other"), Scope::Both), Err(FlagError::RepeatedCrate));
    assert!(matches!(f.crate_name, Param::Other("enderman")));
    f.apply(Flag::Default("7"), Scope::Both).unwrap();
    assert_eq!(f.apply(Flag::Default("8"), Scope::Both), Err(FlagError::RepeatedDefault));
    f.apply(Flag::Validate("x > 1", Some("too small")), Scope::Both).unwrap();
    assert_eq!(
        f.apply(Flag::Validate("x > 2", None), Scope::Both),
        Err(FlagError::RepeatedValidate)
    );
    f.apply(Flag::Flatten("3"), Scope::Both).unwrap();
    assert_eq!(f.apply(Flag::Flatten("4"), Scope::Both), Err(FlagError::RepeatedFlatten));
    assert_eq!(f.mods.flatten, Some("3"));
    assert_eq!(f.apply(Flag::If("c"), Scope::Both), Err(FlagError::IfOnItem));

    let mut f = field();
    assert_eq!(f.apply(Flag::Crate("x"), Scope::Both), Err(FlagError::CrateOnField));
    f.apply(Flag::If("present"), Scope::Both).unwrap();
    assert_eq!(f.apply(Flag::If("again"), Scope::Both), Err(FlagError::RepeatedIf));
    assert_eq!(f.condition, Some("present"));
}

#[test]
fn one_way_to_encode() {
    let mut f = field();
    f.apply(Flag::With("path::to", ), Scope::Encode).unwrap();
    assert!(matches!(f.function, Function::With("path::to", Scope::Encode)));
    assert_eq!(f.apply(Flag::Serde("serde"), Scope::Both), Err(FlagError::SerdeIncompatible));
    assert_eq!(f.apply(Flag::With("p"), Scope::Both), Err(FlagError::WithIncompatible));
    assert_eq!(f.apply(Flag::Expr("e"), Scope::Encode), Err(FlagError::ExprIncompatible));
    assert_eq!(f.apply(Flag::As("u8"), Scope::Both), Err(FlagError::AsIncompatible));
    assert_eq!(f.apply(Flag::Secret(None), Scope::Both), Err(FlagError::SecretIncompatible));

    let mut f = field();
    assert_eq!(f.apply(Flag::Expr("e"), Scope::Both), Err(FlagError::UnscopedExpr));
    f.apply(Flag::Expr("e"), Scope::Decode).unwrap();
    assert!(matches!(f.function, Function::Expr("e")));
}

#[test]
fn scope_flags_must_come_first() {
    let mut f = field();
    assert_eq!(f.apply(Flag::En, Scope::Both), Err(FlagError::ScopeNotFirst));
    assert_eq!(f.apply(Flag::De, Scope::Both), Err(FlagError::ScopeNotFirst));
}

#[test]
fn skip_goes_with_little() {
    let mut f = field();
    assert!(f.skip_compatible());
    f.apply(Flag::Skip, Scope::Both).unwrap();
    assert_eq!(f.apply(Flag::Skip, Scope::Both), Err(FlagError::RepeatedSkip));
    f.apply(Flag::Default("100"), Scope::Both).unwrap();
    f.apply(Flag::Validate("v", None), Scope::Both).unwrap();
    assert_eq!(f.apply(Flag::Compressed(Some("gzip(9)")), Scope::Both), Err(FlagError::SkipIncompatible));
    assert_eq!(f.stream_modifiers.len(), 1);
    assert!(!f.skip_compatible());

    let mut f = field();
    f.apply(Flag::If("c"), Scope::Both).unwrap();
    assert_eq!(f.apply(Flag::Skip, Scope::Both), Err(FlagError::SkipIncompatible));
    assert!(f.skip);
}

#[test]
fn layers_are_kept_in_order() {
    let mut f = field();
    f.apply(Flag::Compressed(Some("gzip(9)")), Scope::Both).unwrap();
    f.apply(Flag::Encrypted(None), Scope::Both).unwrap();
    assert_eq!(f.stream_modifiers.len(), 2);
    assert!(matches!(f.stream_modifiers[0], ende::flags::StreamModifier::Compressed(Some("gzip(9)"))));
    assert!(matches!(f.stream_modifiers[1], ende::flags::StreamModifier::Encrypted(None)));
}

#[test]
fn a_run_of_modifiers_stops_at_the_first_that_fails() {
    let mut f = field();
    let r = f.apply_modifiers(
        ModTarget::Variant,
        vec![
            Modifier::Width(BitWidth::Bit8),
            Modifier::Encoding(NumEncoding::Fixed),
            Modifier::Max("3"),
            Modifier::Order(Endianness::BigEndian),
        ],
    );
    assert_eq!(r, Err(FlagError::OnlySize));
    assert_eq!(f.mods.variant.bit_width, Some(BitWidth::Bit8));
    assert_eq!(f.mods.variant.num_encoding, Some(NumEncoding::Fixed));
    assert_eq!(f.mods.variant.endianness, None);
    f.apply_modifiers(ModTarget::Size, vec![Modifier::Max("3")]).unwrap();
    f.apply_modifiers(ModTarget::Num, Vec::new()).unwrap();
    assert_eq!(f.apply(Flag::Skip, Scope::Both), Err(FlagError::SkipIncompatible));
}

#[test]
fn every_error_has_its_message() {
    assert_eq!(
        FlagError::RepeatedMax.message(),
        "Max size modifier declared twice for the same target"
    );
    assert_eq!(
        FlagError::OnlySize.message(),
        "This modifier can only be applied to the \"size\" target"
    );
    assert_eq!(FlagError::ScopeNotFirst.message(), "The flags \"en\" and \"de\" must be the first");
    assert_eq!(FlagError::UnscopedExpr.message(), "\"expr\" flag must be scoped");
}
