//! The compatibility quirks: three switches between the conventions of
//! historical interpreters.

use vstd::prelude::*;
use config::Config;

verus! {

/// Which historical convention the processor follows where interpreters
/// disagree. Fixed when the processor is built.
#[derive(Debug, Clone, Copy, PartialEq, Eq, Structural)]
pub struct Quirks {
    /// Shifts copy `Vy` into `Vx` before shifting.
    pub shift_quirk: bool,
    /// The jump with offset adds `V0` instead of `Vx`.
    pub jump_quirk: bool,
    /// Storing and loading registers moves the index register past the block.
    pub memory_quirk: bool,
}

/// `config::Config`: a set of loaded settings, a map from keys to values.
/// Opaque here: what it holds is read through [`setting_flags`].
#[verifier::external_type_specification]
#[verifier::external_body]
pub struct ExConfig(config::Config);

/// The boolean settings that a set of loaded settings yields, by key: a key is
/// in the map exactly when reading it as a boolean succeeds, and the map then
/// holds the boolean that was read.
pub uninterp spec fn setting_flags(settings: Config) -> Map<Seq<char>, bool>;

/// The entry of `flags` under `key`, if there is one.
pub open spec fn flag_at(flags: Map<Seq<char>, bool>, key: Seq<char>) -> Option<bool> {
    if flags.contains_key(key) {
        Some(flags[key])
    } else {
        None
    }
}

/// The quirks made of the three switches, if each of them is given.
pub open spec fn quirks_from(
    shift_quirk: Option<bool>,
    jump_quirk: Option<bool>,
    memory_quirk: Option<bool>,
) -> Option<Quirks> {
    match (shift_quirk, jump_quirk, memory_quirk) {
        (Some(shift_quirk), Some(jump_quirk), Some(memory_quirk)) => Some(
            Quirks { shift_quirk, jump_quirk, memory_quirk },
        ),
        _ => None,
    }
}

/// The quirks that a map of boolean settings describes: all three of
/// `shift_quirk`, `jump_quirk` and `memory_quirk` must be present.
pub open spec fn quirks_of(flags: Map<Seq<char>, bool>) -> Option<Quirks> {
    quirks_from(
        flag_at(flags, "shift_quirk"@),
        flag_at(flags, "jump_quirk"@),
        flag_at(flags, "memory_quirk"@),
    )
}

/// Reads one boolean setting with `config::Config::get::<bool>`. The call
/// looks `key` up in the settings and converts the value found to a boolean
/// (a boolean as it is, a number by whether it is not zero, and the words
/// `true`, `on`, `yes`, `1` and their opposites); it fails where the key is
/// absent or the value converts to no boolean, and the failure becomes `None`.
/// The call depends on the settings and the key alone. The contract takes its
/// outcome, for every key, as the meaning of [`setting_flags`]: nothing is
/// claimed about which settings exist.
#[verifier::external_body]
fn setting_flag(settings: &Config, key: &str) -> (flag: Option<bool>)
    ensures
        flag == flag_at(setting_flags(*settings), key@),
{
    settings.get::<bool>(key).ok()
}

impl Quirks {
    /// All quirks off.
    pub fn none() -> (quirks: Quirks)
        ensures
            quirks == (Quirks { shift_quirk: false, jump_quirk: false, memory_quirk: false }),
    {
        Quirks { shift_quirk: false, jump_quirk: false, memory_quirk: false }
    }

    /// The quirks made of the three switches as they were read from settings;
    /// `None` if one of them is missing.
    pub fn from_flags(
        shift_quirk: Option<bool>,
        jump_quirk: Option<bool>,
        memory_quirk: Option<bool>,
    ) -> (quirks: Option<Quirks>)
        ensures
            quirks == quirks_from(shift_quirk, jump_quirk, memory_quirk),
    {
        match (shift_quirk, jump_quirk, memory_quirk) {
            (Some(shift_quirk), Some(jump_quirk), Some(memory_quirk)) => Some(
                Quirks { shift_quirk, jump_quirk, memory_quirk },
            ),
            _ => None,
        }
    }

    /// The quirks recorded in loaded settings under the keys `shift_quirk`,
    /// `jump_quirk` and `memory_quirk`; `None` unless all three are there.
    pub fn from_settings(settings: &Config) -> (quirks: Option<Quirks>)
        ensures
            quirks == quirks_of(setting_flags(*settings)),
    {
        let shift_quirk = setting_flag(settings, "shift_quirk");
        let jump_quirk = setting_flag(settings, "jump_quirk");
        let memory_quirk = setting_flag(settings, "memory_quirk");
        Quirks::from_flags(shift_quirk, jump_quirk, memory_quirk)
    }
}

} // verus!
