//! The state that travels with every operation: the settings, the three
//! flatten channels, and a slot for data of the caller's own.

use vstd::prelude::*;
use crate::opaque::Opaque;
use crate::settings::BinSettings;

verus! {

/// The state of an encoder.
///
/// An operation that succeeds leaves `settings` as it found them. A flatten
/// channel that is armed stands for a value that is known from the
/// surroundings: the next read of that kind returns it without touching the
/// stream, and the next write of that kind must agree with it and writes
/// nothing. Either way the channel is empty afterwards.
pub struct Context<'a, U> {
    /// Data of the caller's own, which the codec carries and never looks at.
    pub user: Option<&'a U>,
    /// How numbers, sizes, variants and strings are represented.
    pub settings: BinSettings,
    /// The boolean known from the surroundings, if any.
    pub bool_flatten: Option<bool>,
    /// The variant known from the surroundings, if any.
    pub variant_flatten: Option<Opaque>,
    /// The size known from the surroundings, if any.
    pub size_flatten: Option<usize>,
}

/// What of a context bears on the bytes: the settings and the three flatten
/// channels, without the user data.
#[derive(Clone, Copy, Debug, PartialEq, Eq, Structural)]
pub struct State {
    /// How numbers, sizes, variants and strings are represented.
    pub settings: BinSettings,
    /// The boolean known from the surroundings, if any.
    pub bool_flatten: Option<bool>,
    /// The variant known from the surroundings, if any.
    pub variant_flatten: Option<Opaque>,
    /// The size known from the surroundings, if any.
    pub size_flatten: Option<usize>,
}

impl State {
    /// This state with the boolean channel emptied.
    pub open spec fn without_bool(self) -> Self {
        State { bool_flatten: None, ..self }
    }

    /// This state with the variant channel emptied.
    pub open spec fn without_variant(self) -> Self {
        State { variant_flatten: None, ..self }
    }

    /// This state with the size channel emptied.
    pub open spec fn without_size(self) -> Self {
        State { size_flatten: None, ..self }
    }
}

impl<'a, U> Clone for Context<'a, U> {
    fn clone(&self) -> (r: Self)
        ensures
            r == *self,
    {
        Context {
            user: self.user,
            settings: self.settings,
            bool_flatten: self.bool_flatten,
            variant_flatten: self.variant_flatten,
            size_flatten: self.size_flatten,
        }
    }
}

impl<'a, U> Copy for Context<'a, U> {

}

impl<'a, U> Context<'a, U> {
    /// The context with the given settings and user data and no channel armed.
    pub open spec fn fresh(settings: BinSettings, user: Option<&'a U>) -> Self {
        Context {
            user,
            settings,
            bool_flatten: None,
            variant_flatten: None,
            size_flatten: None,
        }
    }

    /// The settings and the channels of this context.
    pub open spec fn spec_state(&self) -> State {
        State {
            settings: self.settings,
            bool_flatten: self.bool_flatten,
            variant_flatten: self.variant_flatten,
            size_flatten: self.size_flatten,
        }
    }

    /// Returns the settings and the channels of this context.
    pub fn state(&self) -> (r: State)
        ensures
            r == self.spec_state(),
    {
        State {
            settings: self.settings,
            bool_flatten: self.bool_flatten,
            variant_flatten: self.variant_flatten,
            size_flatten: self.size_flatten,
        }
    }

    /// This context with the boolean channel emptied.
    pub open spec fn without_bool(self) -> Self {
        Context { bool_flatten: None, ..self }
    }

    /// This context with the variant channel emptied.
    pub open spec fn without_variant(self) -> Self {
        Context { variant_flatten: None, ..self }
    }

    /// This context with the size channel emptied.
    pub open spec fn without_size(self) -> Self {
        Context { size_flatten: None, ..self }
    }

    /// A context with the default settings, no user data and no channel armed.
    pub fn new() -> (r: Self)
        ensures
            r == Self::fresh(BinSettings::spec_new(), None),
    {
        Context {
            user: None,
            settings: BinSettings::new(),
            bool_flatten: None,
            variant_flatten: None,
            size_flatten: None,
        }
    }

    /// A context with the given settings, no user data and no channel armed.
    pub fn with_settings(settings: BinSettings) -> (r: Self)
        ensures
            r == Self::fresh(settings, None),
    {
        Context {
            user: None,
            settings,
            bool_flatten: None,
            variant_flatten: None,
            size_flatten: None,
        }
    }

    /// A context with the given settings and user data and no channel armed.
    pub fn with_user_data(settings: BinSettings, data: &'a U) -> (r: Self)
        ensures
            r == Self::fresh(settings, Some(data)),
    {
        Context {
            user: Some(data),
            settings,
            bool_flatten: None,
            variant_flatten: None,
            size_flatten: None,
        }
    }

    /// Puts everything back to its default and then takes the given settings.
    pub fn reset(&mut self, settings: BinSettings)
        ensures
            *final(self) == Self::fresh(settings, None),
    {
        self.user = None;
        self.settings = settings;
        self.bool_flatten = None;
        self.variant_flatten = None;
        self.size_flatten = None;
    }

    /// Takes the boolean out of its channel, leaving the channel empty.
    pub fn bool_flatten(&mut self) -> (r: Option<bool>)
        ensures
            r == old(self).bool_flatten,
            *final(self) == old(self).without_bool(),
    {
        let taken = self.bool_flatten;
        self.bool_flatten = None;
        taken
    }

    /// Takes the variant out of its channel, leaving the channel empty.
    pub fn variant_flatten(&mut self) -> (r: Option<Opaque>)
        ensures
            r == old(self).variant_flatten,
            *final(self) == old(self).without_variant(),
    {
        let taken = self.variant_flatten;
        self.variant_flatten = None;
        taken
    }

    /// Takes the size out of its channel, leaving the channel empty.
    pub fn size_flatten(&mut self) -> (r: Option<usize>)
        ensures
            r == old(self).size_flatten,
            *final(self) == old(self).without_size(),
    {
        let taken = self.size_flatten;
        self.size_flatten = None;
        taken
    }
}

} // verus!
