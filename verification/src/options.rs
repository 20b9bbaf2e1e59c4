//! How strictly a replay is checked after it has been decoded.
use vstd::prelude::*;

verus! {

/// Which validation rules apply.
#[derive(Debug, Clone, Copy, PartialEq, Eq)]
pub enum ValidationProfile {
    /// Every rule; violations of the format's rules are errors.
    Strict,
    /// Only the version rule, and only as a warning.
    StructuralOnly,
}

impl Default for ValidationProfile {
    fn default() -> (p: Self)
        ensures
            p == ValidationProfile::Strict,
    {
        ValidationProfile::Strict
    }
}

/// Options of [`crate::decode_with_options`].
#[derive(Debug, Clone, PartialEq, Eq)]
pub struct DecodeOptions {
    pub validation_profile: ValidationProfile,
    /// Keep events of an unknown type, with the rest of the stream as their payload,
    /// instead of failing.
    pub allow_unknown_event_types: bool,
}

impl Default for DecodeOptions {
    fn default() -> (o: Self)
        ensures
            o.validation_profile == ValidationProfile::Strict,
            !o.allow_unknown_event_types,
    {
        DecodeOptions { validation_profile: ValidationProfile::Strict, allow_unknown_event_types: false }
    }
}

} // verus!
