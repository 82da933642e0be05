//! The flags that a type declaration can carry to steer how its codec is
//! made, and the rules by which they combine. The pieces of source text that
//! a flag carries (expressions, paths, type names) are opaque here: the rules
//! only ask whether one is there.

use vstd::prelude::*;
use crate::settings::BitWidth;
use crate::settings::Endianness;
use crate::settings::NumEncoding;

verus! {

/// What a set of flags is attached to.
#[derive(Clone, Copy, Debug, PartialEq, Eq, Structural)]
pub enum FlagTarget {
    Item,
    Field,
}

/// A parameter that is either the default or was given.
#[derive(Debug)]
pub enum Param<T> {
    Default(T),
    Other(T),
}

impl<T> Param<T> {
    /// Whether the parameter is the default.
    pub fn is_default(&self) -> (r: bool)
        ensures
            r == (*self is Default),
    {
        match self {
            Param::Default(_) => true,
            _ => false,
        }
    }
}

/// Which of the two directions a flag applies to.
#[derive(Clone, Copy, Debug, PartialEq, Eq, Structural)]
pub enum Scope {
    Encode,
    Decode,
    Both,
}

/// Which representation record a setting modifier aims at.
#[derive(Clone, Copy, Debug, PartialEq, Eq, Structural)]
pub enum ModTarget {
    Num,
    Variant,
    Size,
}

impl ModTarget {
    /// How much a target can carry: numbers carry an encoding and a byte
    /// order, variants a bit width too, and sizes a maximum as well.
    pub open spec fn spec_tier(&self) -> nat {
        match self {
            ModTarget::Num => 0,
            ModTarget::Variant => 1,
            ModTarget::Size => 2,
        }
    }

    /// Returns how much the target can carry, from 0 to 2.
    pub fn tier(&self) -> (r: u8)
        ensures
            r == self.spec_tier(),
    {
        match self {
            ModTarget::Num => 0,
            ModTarget::Variant => 1,
            ModTarget::Size => 2,
        }
    }
}

/// One setting modifier.
#[derive(Debug)]
pub enum Modifier<X> {
    /// A number encoding.
    Encoding(NumEncoding),
    /// A byte order.
    Order(Endianness),
    /// A greatest size, as an expression.
    Max(X),
    /// A bit width.
    Width(BitWidth),
}

/// Why a flag cannot be applied.
#[derive(Clone, Copy, Debug, PartialEq, Eq, Structural)]
pub enum FlagError {
    RepeatedNumEncoding,
    RepeatedEndianness,
    RepeatedMax,
    RepeatedBitWidth,
    OnlySize,
    OnlyVariantAndSize,
    CrateOnField,
    RepeatedCrate,
    SerdeIncompatible,
    RepeatedSkip,
    RepeatedDefault,
    WithIncompatible,
    UnscopedExpr,
    ExprIncompatible,
    AsIncompatible,
    RepeatedFlatten,
    RepeatedValidate,
    SecretIncompatible,
    IfOnItem,
    RepeatedIf,
    ScopeNotFirst,
    SkipIncompatible,
}

impl FlagError {
    /// The text of the message.
    pub open spec fn spec_message(&self) -> Seq<char> {
        match self {
            FlagError::RepeatedNumEncoding => "Num encoding modifier declared twice for the same target"@,
            FlagError::RepeatedEndianness => "Endianness modifier declared twice for the same target"@,
            FlagError::RepeatedMax => "Max size modifier declared twice for the same target"@,
            FlagError::RepeatedBitWidth => "Bit width modifier declared twice for the same target"@,
            FlagError::OnlySize => "This modifier can only be applied to the \"size\" target"@,
            FlagError::OnlyVariantAndSize => "This modifier can only be applied to the \"size\" and \"variant\" targets"@,
            FlagError::CrateOnField => "\"crate\" flag can only be applied at the item level"@,
            FlagError::RepeatedCrate => "\"crate\" flag declared more than once"@,
            FlagError::SerdeIncompatible => "\"serde\" flag is incompatible with \"as\", \"secret\", \"with\", \"expr\" flags"@,
            FlagError::RepeatedSkip => "\"skip\" flag declared more than once"@,
            FlagError::RepeatedDefault => "\"default\" flag declared more than once"@,
            FlagError::WithIncompatible => "\"with\" flag is incompatible with \"as\", \"secret\", \"serde\", \"expr\" flags"@,
            FlagError::UnscopedExpr => "\"expr\" flag must be scoped"@,
            FlagError::ExprIncompatible => "\"expr\" flag is incompatible with \"as\", \"secret\", \"serde\", \"with\" flags"@,
            FlagError::AsIncompatible => "\"as\" flag is incompatible with \"with\", \"secret\", \"serde\", \"expr\" flags"@,
            FlagError::RepeatedFlatten => "\"flatten\" flag declared more than once"@,
            FlagError::RepeatedValidate => "\"validate\" flag declared more than once"@,
            FlagError::SecretIncompatible => "\"secret\" flag is incompatible with \"with\", \"as\", \"serde\" flags"@,
            FlagError::IfOnItem => "\"if\" flag can only be applied to fields"@,
            FlagError::RepeatedIf => "\"if\" flag declared more than once"@,
            FlagError::ScopeNotFirst => "The flags \"en\" and \"de\" must be the first"@,
            FlagError::SkipIncompatible => "\"skip\" flag can only be accompanied by \"default\" or \"validate\" flag"@,
        }
    }

    /// What to tell the user.
    pub fn message(&self) -> (r: &'static str)
        ensures
            r@ == self.spec_message(),
    {
        match self {
            FlagError::RepeatedNumEncoding => "Num encoding modifier declared twice for the same target",
            FlagError::RepeatedEndianness => "Endianness modifier declared twice for the same target",
            FlagError::RepeatedMax => "Max size modifier declared twice for the same target",
            FlagError::RepeatedBitWidth => "Bit width modifier declared twice for the same target",
            FlagError::OnlySize => "This modifier can only be applied to the \"size\" target",
            FlagError::OnlyVariantAndSize => "This modifier can only be applied to the \"size\" and \"variant\" targets",
            FlagError::CrateOnField => "\"crate\" flag can only be applied at the item level",
            FlagError::RepeatedCrate => "\"crate\" flag declared more than once",
            FlagError::SerdeIncompatible => "\"serde\" flag is incompatible with \"as\", \"secret\", \"with\", \"expr\" flags",
            FlagError::RepeatedSkip => "\"skip\" flag declared more than once",
            FlagError::RepeatedDefault => "\"default\" flag declared more than once",
            FlagError::WithIncompatible => "\"with\" flag is incompatible with \"as\", \"secret\", \"serde\", \"expr\" flags",
            FlagError::UnscopedExpr => "\"expr\" flag must be scoped",
            FlagError::ExprIncompatible => "\"expr\" flag is incompatible with \"as\", \"secret\", \"serde\", \"with\" flags",
            FlagError::AsIncompatible => "\"as\" flag is incompatible with \"with\", \"secret\", \"serde\", \"expr\" flags",
            FlagError::RepeatedFlatten => "\"flatten\" flag declared more than once",
            FlagError::RepeatedValidate => "\"validate\" flag declared more than once",
            FlagError::SecretIncompatible => "\"secret\" flag is incompatible with \"with\", \"as\", \"serde\" flags",
            FlagError::IfOnItem => "\"if\" flag can only be applied to fields",
            FlagError::RepeatedIf => "\"if\" flag declared more than once",
            FlagError::ScopeNotFirst => "The flags \"en\" and \"de\" must be the first",
            FlagError::SkipIncompatible => "\"skip\" flag can only be accompanied by \"default\" or \"validate\" flag",
        }
    }
}

/// The setting modifiers of one target. No modifier may be given twice; only
/// sizes take a maximum, and only sizes and variants a bit width.
#[derive(Debug)]
pub struct ModifierGroup<X> {
    pub target: ModTarget,
    pub num_encoding: Option<NumEncoding>,
    pub endianness: Option<Endianness>,
    pub max: Option<X>,
    pub bit_width: Option<BitWidth>,
}

impl<X> ModifierGroup<X> {
    /// Whether no modifier has been given.
    pub open spec fn spec_empty(&self) -> bool {
        self.num_encoding is None && self.endianness is None && self.max is None
            && self.bit_width is None
    }

    /// What stands in the way of applying the modifier, if anything.
    pub open spec fn objection(&self, modifier: Modifier<X>) -> Option<FlagError> {
        match modifier {
            Modifier::Encoding(_) => if self.num_encoding is Some {
                Some(FlagError::RepeatedNumEncoding)
            } else {
                None
            },
            Modifier::Order(_) => if self.endianness is Some {
                Some(FlagError::RepeatedEndianness)
            } else {
                None
            },
            Modifier::Max(_) => if self.target.spec_tier() < 2 {
                Some(FlagError::OnlySize)
            } else if self.max is Some {
                Some(FlagError::RepeatedMax)
            } else {
                None
            },
            Modifier::Width(_) => if self.target.spec_tier() < 1 {
                Some(FlagError::OnlyVariantAndSize)
            } else if self.bit_width is Some {
                Some(FlagError::RepeatedBitWidth)
            } else {
                None
            },
        }
    }

    /// The group with the modifier taken in.
    pub open spec fn with(self, modifier: Modifier<X>) -> Self {
        match modifier {
            Modifier::Encoding(e) => ModifierGroup { num_encoding: Some(e), ..self },
            Modifier::Order(o) => ModifierGroup { endianness: Some(o), ..self },
            Modifier::Max(m) => ModifierGroup { max: Some(m), ..self },
            Modifier::Width(w) => ModifierGroup { bit_width: Some(w), ..self },
        }
    }

    /// A group for the target with no modifier given.
    pub fn new(target: ModTarget) -> (r: Self)
        ensures
            r.target == target,
            r.spec_empty(),
    {
        ModifierGroup { target, num_encoding: None, endianness: None, max: None, bit_width: None }
    }

    /// Whether no modifier has been given.
    pub fn empty(&self) -> (r: bool)
        ensures
            r == self.spec_empty(),
    {
        self.num_encoding.is_none() && self.endianness.is_none() && self.max.is_none()
            && self.bit_width.is_none()
    }

    /// Takes the modifier in, unless something stands in the way: then the
    /// group is as it was.
    pub fn apply(&mut self, modifier: Modifier<X>) -> (r: Result<(), FlagError>)
        ensures
            match old(self).objection(modifier) {
                Some(e) => r == Err::<(), FlagError>(e) && *final(self) == *old(self),
                None => r is Ok && *final(self) == old(self).with(modifier),
            },
    {
        match modifier {
            Modifier::Encoding(e) => {
                if self.num_encoding.is_some() {
                    return Err(FlagError::RepeatedNumEncoding);
                }
                self.num_encoding = Some(e);
            },
            Modifier::Order(o) => {
                if self.endianness.is_some() {
                    return Err(FlagError::RepeatedEndianness);
                }
                self.endianness = Some(o);
            },
            Modifier::Max(m) => {
                if self.target.tier() < 2 {
                    return Err(FlagError::OnlySize);
                }
                if self.max.is_some() {
                    return Err(FlagError::RepeatedMax);
                }
                self.max = Some(m);
            },
            Modifier::Width(w) => {
                if self.target.tier() < 1 {
                    return Err(FlagError::OnlyVariantAndSize);
                }
                if self.bit_width.is_some() {
                    return Err(FlagError::RepeatedBitWidth);
                }
                self.bit_width = Some(w);
            },
        }
        Ok(())
    }
}

/// The setting modifiers of every target, and the flatten expression.
#[derive(Debug)]
pub struct AllModifiers<X> {
    pub num: ModifierGroup<X>,
    pub size: ModifierGroup<X>,
    pub variant: ModifierGroup<X>,
    pub flatten: Option<X>,
}

impl<X> AllModifiers<X> {
    /// Whether nothing has been given.
    pub open spec fn spec_empty(&self) -> bool {
        self.num.spec_empty() && self.size.spec_empty() && self.variant.spec_empty()
            && self.flatten is None
    }

    /// The group of a target.
    pub open spec fn group(&self, target: ModTarget) -> ModifierGroup<X> {
        match target {
            ModTarget::Num => self.num,
            ModTarget::Size => self.size,
            ModTarget::Variant => self.variant,
        }
    }

    /// These modifiers with `group` in the place of the group of `target`.
    pub open spec fn with_group(self, target: ModTarget, group: ModifierGroup<X>) -> Self {
        match target {
            ModTarget::Num => AllModifiers { num: group, ..self },
            ModTarget::Size => AllModifiers { size: group, ..self },
            ModTarget::Variant => AllModifiers { variant: group, ..self },
        }
    }

    /// A group for each target, each aimed at its own, with nothing given.
    pub fn new() -> (r: Self)
        ensures
            r.spec_empty(),
            r.num.target == ModTarget::Num,
            r.size.target == ModTarget::Size,
            r.variant.target == ModTarget::Variant,
    {
        AllModifiers {
            num: ModifierGroup::new(ModTarget::Num),
            size: ModifierGroup::new(ModTarget::Size),
            variant: ModifierGroup::new(ModTarget::Variant),
            flatten: None,
        }
    }

    /// Whether nothing has been given.
    pub fn empty(&self) -> (r: bool)
        ensures
            r == self.spec_empty(),
    {
        self.num.empty() && self.size.empty() && self.variant.empty() && self.flatten.is_none()
    }

    /// Applies the modifier to the group of the target, by the rules of
    /// that group.
    pub fn apply(&mut self, target: ModTarget, modifier: Modifier<X>) -> (r: Result<(), FlagError>)
        requires
            old(self).group(target).target == target,
        ensures
            match old(self).group(target).objection(modifier) {
                Some(e) => r == Err::<(), FlagError>(e) && *final(self) == *old(self),
                None => r is Ok && *final(self) == old(self).with_group(
                    target,
                    old(self).group(target).with(modifier),
                ),
            },
    {
        match target {
            ModTarget::Num => self.num.apply(modifier),
            ModTarget::Size => self.size.apply(modifier),
            ModTarget::Variant => self.variant.apply(modifier),
        }
    }
}

/// How a field or item is encoded and decoded.
#[derive(Debug)]
pub enum Function<X> {
    /// By its own codec.
    Default,
    /// Through a serialization framework, named by its crate.
    Serde(X),
    /// By the functions at a path.
    With(X, Scope),
    /// By an expression.
    Expr(X),
    /// As another type, by a conversion.
    As(X),
    /// Through an asymmetric cipher.
    Secret(Option<X>),
}

impl<X> Function<X> {
    /// Whether the field or item is encoded by its own codec.
    pub fn is_default(&self) -> (r: bool)
        ensures
            r == (*self is Default),
    {
        match self {
            Function::Default => true,
            _ => false,
        }
    }
}

/// A layer over the stream.
#[derive(Debug)]
pub enum StreamModifier<X> {
    Encrypted(Option<X>),
    Compressed(Option<X>),
}

/// One flag, as it was written.
#[derive(Debug)]
pub enum Flag<X> {
    Crate(X),
    Serde(X),
    Skip,
    Default(X),
    With(X),
    Expr(X),
    As(X),
    Flatten(X),
    Validate(X, Option<X>),
    Secret(Option<X>),
    Encrypted(Option<X>),
    Compressed(Option<X>),
    If(X),
    En,
    De,
}

/// All the flags of a field or item.
pub struct Flags<X> {
    /// Whether this is an item or a field.
    pub target: FlagTarget,
    /// The name of the library crate.
    pub crate_name: Param<X>,
    /// Whether the field is left out of the codec.
    pub skip: bool,
    /// The value to fall back on.
    pub default: Param<X>,
    /// How the field or item is encoded and decoded.
    pub function: Function<X>,
    /// The setting modifiers.
    pub mods: AllModifiers<X>,
    /// The validation, with its message if it has one.
    pub validate: Option<(X, Option<X>)>,
    /// The condition under which the field is there at all.
    pub condition: Option<X>,
    /// The layers over the stream, outermost first.
    pub stream_modifiers: Vec<StreamModifier<X>>,
}

impl<X> Flags<X> {
    /// Whether the flags can go together with `skip`: nothing says how or
    /// when to encode what is skipped.
    pub open spec fn spec_skip_compatible(&self) -> bool {
        self.function is Default && self.mods.spec_empty() && self.condition is None
            && self.stream_modifiers@.len() == 0
    }

    /// What stands in the way of applying the flag, if anything, before the
    /// flag is looked at together with `skip`.
    pub open spec fn objection(&self, flag: Flag<X>, scope: Scope) -> Option<FlagError> {
        match flag {
            Flag::Crate(_) => if self.target == FlagTarget::Field {
                Some(FlagError::CrateOnField)
            } else if !(self.crate_name is Default) {
                Some(FlagError::RepeatedCrate)
            } else {
                None
            },
            Flag::Serde(_) => if !(self.function is Default) {
                Some(FlagError::SerdeIncompatible)
            } else {
                None
            },
            Flag::Skip => if self.skip {
                Some(FlagError::RepeatedSkip)
            } else {
                None
            },
            Flag::Default(_) => if !(self.default is Default) {
                Some(FlagError::RepeatedDefault)
            } else {
                None
            },
            Flag::With(_) => if !(self.function is Default) {
                Some(FlagError::WithIncompatible)
            } else {
                None
            },
            Flag::Expr(_) => if scope == Scope::Both {
                Some(FlagError::UnscopedExpr)
            } else if !(self.function is Default) {
                Some(FlagError::ExprIncompatible)
            } else {
                None
            },
            Flag::As(_) => if !(self.function is Default) {
                Some(FlagError::AsIncompatible)
            } else {
                None
            },
            Flag::Flatten(_) => if self.mods.flatten is Some {
                Some(FlagError::RepeatedFlatten)
            } else {
                None
            },
            Flag::Validate(_, _) => if self.validate is Some {
                Some(FlagError::RepeatedValidate)
            } else {
                None
            },
            Flag::Secret(_) => if !(self.function is Default) {
                Some(FlagError::SecretIncompatible)
            } else {
                None
            },
            Flag::Encrypted(_) => None,
            Flag::Compressed(_) => None,
            Flag::If(_) => if self.target == FlagTarget::Item {
                Some(FlagError::IfOnItem)
            } else if self.condition is Some {
                Some(FlagError::RepeatedIf)
            } else {
                None
            },
            Flag::En => Some(FlagError::ScopeNotFirst),
            Flag::De => Some(FlagError::ScopeNotFirst),
        }
    }

    /// Whether `after` is `before` with the flag taken in.
    pub open spec fn taken_in(before: Self, after: Self, flag: Flag<X>, scope: Scope) -> bool {
        &&& after.target == before.target
        &&& after.crate_name == (match flag {
            Flag::Crate(name) => Param::Other(name),
            _ => before.crate_name,
        })
        &&& after.skip == (flag is Skip || before.skip)
        &&& after.default == (match flag {
            Flag::Default(expr) => Param::Other(expr),
            _ => before.default,
        })
        &&& after.function == (match flag {
            Flag::Serde(name) => Function::Serde(name),
            Flag::With(path) => Function::With(path, scope),
            Flag::Expr(expr) => Function::Expr(expr),
            Flag::As(ty) => Function::As(ty),
            Flag::Secret(data) => Function::Secret(data),
            _ => before.function,
        })
        &&& after.mods == (match flag {
            Flag::Flatten(expr) => AllModifiers { flatten: Some(expr), ..before.mods },
            _ => before.mods,
        })
        &&& after.validate == (match flag {
            Flag::Validate(expr, fmt) => Some((expr, fmt)),
            _ => before.validate,
        })
        &&& after.condition == (match flag {
            Flag::If(expr) => Some(expr),
            _ => before.condition,
        })
        &&& after.stream_modifiers@ == (match flag {
            Flag::Encrypted(data) => before.stream_modifiers@.push(StreamModifier::Encrypted(data)),
            Flag::Compressed(data) => before.stream_modifiers@.push(
                StreamModifier::Compressed(data),
            ),
            _ => before.stream_modifiers@,
        })
    }

    /// The flags of a target with nothing given yet: the defaults for the
    /// crate name and the fallback value, the field's own codec, no skip.
    pub fn new(target: FlagTarget, crate_name: X, default: X) -> (r: Self)
        ensures
            r.target == target,
            r.crate_name == Param::Default(crate_name),
            !r.skip,
            r.default == Param::Default(default),
            r.function is Default,
            r.mods.spec_empty(),
            r.validate is None,
            r.condition is None,
            r.stream_modifiers@.len() == 0,
    {
        Flags {
            target,
            crate_name: Param::Default(crate_name),
            skip: false,
            default: Param::Default(default),
            function: Function::Default,
            mods: AllModifiers::new(),
            validate: None,
            condition: None,
            stream_modifiers: Vec::new(),
        }
    }

    /// Whether the flags can go together with `skip`.
    pub fn skip_compatible(&self) -> (r: bool)
        ensures
            r == self.spec_skip_compatible(),
    {
        self.function.is_default() && self.mods.empty() && self.condition.is_none()
            && self.stream_modifiers.len() == 0
    }

    /// Applies a flag.
    ///
    /// Where something stands in the way, the flags are as they were and the
    /// error says what. Otherwise the flag is taken in; if the field is
    /// skipped and the flags no longer go together with that, the flag stays
    /// taken in and the error is `SkipIncompatible`.
    pub fn apply(&mut self, flag: Flag<X>, scope: Scope) -> (r: Result<(), FlagError>)
        ensures
            match old(self).objection(flag, scope) {
                Some(e) => r == Err::<(), FlagError>(e) && *final(self) == *old(self),
                None => Self::taken_in(*old(self), *final(self), flag, scope) && r == (if final(self).skip && !final(self).spec_skip_compatible() {
                    Err::<(), FlagError>(FlagError::SkipIncompatible)
                } else {
                    Ok::<(), FlagError>(())
                }),
            },
    {
        match flag {
            Flag::Crate(name) => {
                if self.target == FlagTarget::Field {
                    return Err(FlagError::CrateOnField);
                }
                if !self.crate_name.is_default() {
                    return Err(FlagError::RepeatedCrate);
                }
                self.crate_name = Param::Other(name);
            },
            Flag::Serde(name) => {
                if !self.function.is_default() {
                    return Err(FlagError::SerdeIncompatible);
                }
                self.function = Function::Serde(name);
            },
            Flag::Skip => {
                if self.skip {
                    return Err(FlagError::RepeatedSkip);
                }
                self.skip = true;
            },
            Flag::Default(expr) => {
                if !self.default.is_default() {
                    return Err(FlagError::RepeatedDefault);
                }
                self.default = Param::Other(expr);
            },
            Flag::With(path) => {
                if !self.function.is_default() {
                    return Err(FlagError::WithIncompatible);
                }
                self.function = Function::With(path, scope);
            },
            Flag::Expr(expr) => {
                if scope == Scope::Both {
                    return Err(FlagError::UnscopedExpr);
                }
                if !self.function.is_default() {
                    return Err(FlagError::ExprIncompatible);
                }
                self.function = Function::Expr(expr);
            },
            Flag::As(ty) => {
                if !self.function.is_default() {
                    return Err(FlagError::AsIncompatible);
                }
                self.function = Function::As(ty);
            },
            Flag::Flatten(expr) => {
                if self.mods.flatten.is_some() {
                    return Err(FlagError::RepeatedFlatten);
                }
                self.mods.flatten = Some(expr);
            },
            Flag::Validate(expr, fmt) => {
                if self.validate.is_some() {
                    return Err(FlagError::RepeatedValidate);
                }
                self.validate = Some((expr, fmt));
            },
            Flag::Secret(data) => {
                if !self.function.is_default() {
                    return Err(FlagError::SecretIncompatible);
                }
                self.function = Function::Secret(data);
            },
            Flag::Encrypted(data) => {
                self.stream_modifiers.push(StreamModifier::Encrypted(data));
            },
            Flag::Compressed(data) => {
                self.stream_modifiers.push(StreamModifier::Compressed(data));
            },
            Flag::If(expr) => {
                if self.target == FlagTarget::Item {
                    return Err(FlagError::IfOnItem);
                }
                if self.condition.is_some() {
                    return Err(FlagError::RepeatedIf);
                }
                self.condition = Some(expr);
            },
            Flag::En => {
                return Err(FlagError::ScopeNotFirst);
            },
            Flag::De => {
                return Err(FlagError::ScopeNotFirst);
            },
        }
        if self.skip && !self.skip_compatible() {
            return Err(FlagError::SkipIncompatible);
        }
        Ok(())
    }

    /// Applies a run of setting modifiers to one target, in order, and stops
    /// at the first that cannot be applied: the modifiers before it stay
    /// applied. If all can be applied, the field is skipped and the flags no
    /// longer go together with that, the error is `SkipIncompatible`.
    pub fn apply_modifiers(&mut self, target: ModTarget, modifiers: Vec<Modifier<X>>) -> (r: Result<
        (),
        FlagError,
    >)
        requires
            old(self).mods.group(target).target == target,
        ensures
            final(self).target == old(self).target,
            final(self).crate_name == old(self).crate_name,
            final(self).skip == old(self).skip,
            final(self).default == old(self).default,
            final(self).function == old(self).function,
            final(self).validate == old(self).validate,
            final(self).condition == old(self).condition,
            final(self).stream_modifiers == old(self).stream_modifiers,
            final(self).mods == run(old(self).mods, target, modifiers@).0,
            r == (match run(old(self).mods, target, modifiers@).1 {
                Some(e) => Err::<(), FlagError>(e),
                None => if final(self).skip && !final(self).spec_skip_compatible() {
                    Err::<(), FlagError>(FlagError::SkipIncompatible)
                } else {
                    Ok::<(), FlagError>(())
                },
            }),
    {
        let mut rest = modifiers;
        let ghost all = rest@;
        while rest.len() > 0
            invariant
                self.target == old(self).target,
                self.crate_name == old(self).crate_name,
                self.skip == old(self).skip,
                self.default == old(self).default,
                self.function == old(self).function,
                self.validate == old(self).validate,
                self.condition == old(self).condition,
                self.stream_modifiers == old(self).stream_modifiers,
                self.mods.group(target).target == target,
                all == modifiers@,
                run(old(self).mods, target, all) == run(self.mods, target, rest@),
            decreases rest@.len(),
        {
            let ghost before = rest@;
            let modifier = rest.remove(0);
            assert(rest@ =~= before.drop_first());
            assert(before[0] == modifier);
            match self.mods.apply(target, modifier) {
                Ok(()) => {},
                Err(e) => {
                    return Err(e);
                },
            }
        }
        if self.skip && !self.skip_compatible() {
            return Err(FlagError::SkipIncompatible);
        }
        Ok(())
    }
}

/// The modifiers after a run of setting modifiers was applied to one target
/// in order, up to the first that could not be, and the error of that one if
/// there was one.
pub open spec fn run<X>(mods: AllModifiers<X>, target: ModTarget, modifiers: Seq<Modifier<X>>) -> (
    AllModifiers<X>,
    Option<FlagError>,
)
    decreases modifiers.len(),
{
    if modifiers.len() == 0 {
        (mods, None)
    } else {
        match mods.group(target).objection(modifiers[0]) {
            Some(e) => (mods, Some(e)),
            None => run(
                mods.with_group(target, mods.group(target).with(modifiers[0])),
                target,
                modifiers.drop_first(),
            ),
        }
    }
}

} // verus!
