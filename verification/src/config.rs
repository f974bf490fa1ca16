//! The settings the bot reads from its environment.

use vstd::prelude::*;
use crate::decimal::{decimal, law_decimal_round_trip, parse_u64, parse_u64_spec};

verus! {

/// The prefix of the bot's text commands.
pub const COMMAND_PREFIX: &'static str = "$";

/// A setting as read from the environment: not set, set to a value that
/// parses, or set to a value that does not.
#[derive(Clone, Copy, Debug, PartialEq, Eq)]
pub enum EnvSetting<T> {
    Unset,
    Parsed(T),
    Invalid,
}

impl<T: Copy> EnvSetting<T> {
    /// The value of a setting that parsed; nothing otherwise.
    pub fn ok(self) -> (value: Option<T>)
        ensures
            self matches EnvSetting::Parsed(v) ==> value == Some(v),
            !(self is Parsed) ==> value is None,
    {
        match self {
            EnvSetting::Parsed(v) => Some(v),
            _ => None,
        }
    }

    /// The value of a setting that parsed; `default` otherwise.
    pub fn value_or(self, default: T) -> (value: T)
        ensures
            self matches EnvSetting::Parsed(v) ==> value == v,
            !(self is Parsed) ==> value == default,
    {
        match self {
            EnvSetting::Parsed(v) => v,
            _ => default,
        }
    }

    /// Whether the setting was given a value that does not parse (and is worth a warning).
    pub fn is_invalid(&self) -> (invalid: bool)
        ensures
            invalid == (*self is Invalid),
    {
        match self {
            EnvSetting::Invalid => true,
            _ => false,
        }
    }
}

/// The owner id that an environment value gives: a `u64` as `str::parse` reads it.
pub open spec fn spec_owner_id_setting(value: Option<Seq<char>>) -> EnvSetting<u64> {
    match value {
        None => EnvSetting::Unset,
        Some(text) => match parse_u64_spec(text) {
            Some(id) => EnvSetting::Parsed(id),
            None => EnvSetting::Invalid,
        },
    }
}

/// The switch that an environment value gives: exactly `true` or `false`,
/// as `str::parse::<bool>` reads it.
pub open spec fn spec_bool_setting(value: Option<Seq<char>>) -> EnvSetting<bool> {
    match value {
        None => EnvSetting::Unset,
        Some(text) => if text == "true"@ {
            EnvSetting::Parsed(true)
        } else if text == "false"@ {
            EnvSetting::Parsed(false)
        } else {
            EnvSetting::Invalid
        },
    }
}

/// Reads the owner's user id from the value of its environment variable.
pub fn owner_id_setting(value: Option<&str>) -> (setting: EnvSetting<u64>)
    ensures
        setting == spec_owner_id_setting(match value {
            Some(v) => Some(v@),
            None => None,
        }),
{
    match value {
        None => EnvSetting::Unset,
        Some(text) => match parse_u64(text) {
            Some(id) => EnvSetting::Parsed(id),
            None => EnvSetting::Invalid,
        },
    }
}

/// Reads a switch from the value of its environment variable.
pub fn bool_setting(value: Option<&str>) -> (setting: EnvSetting<bool>)
    ensures
        setting == spec_bool_setting(match value {
            Some(v) => Some(v@),
            None => None,
        }),
{
    match value {
        None => EnvSetting::Unset,
        Some(text) => {
            let s = String::from_str(text);
            if s == String::from_str("true") {
                EnvSetting::Parsed(true)
            } else if s == String::from_str("false") {
                EnvSetting::Parsed(false)
            } else {
                EnvSetting::Invalid
            }
        },
    }
}


/// An owner id written out in decimal, as Discord shows it, is read back as that id.
pub proof fn law_owner_id_reads_decimal(id: u64)
    ensures
        spec_owner_id_setting(Some(decimal(id as nat))) == EnvSetting::Parsed(id),
{
    law_decimal_round_trip(id);
}


/// A switch is read as on exactly from the text `true` and as off exactly from
/// the text `false`; every other text is invalid (and so reads as off by
/// default), and an unset switch is unset.
pub proof fn law_bool_setting_exact(text: Seq<char>)
    ensures
        spec_bool_setting(Some(text)) == EnvSetting::Parsed(true) <==> text == "true"@,
        spec_bool_setting(Some(text)) == EnvSetting::Parsed(false) <==> text == "false"@,
        spec_bool_setting(Some(text)) == EnvSetting::<bool>::Invalid <==> (text != "true"@ && text != "false"@),
        spec_bool_setting(None) == EnvSetting::<bool>::Unset,
{
    reveal_strlit("true");
    reveal_strlit("false");
    assert("true"@.len() != "false"@.len());
}

} // verus!
