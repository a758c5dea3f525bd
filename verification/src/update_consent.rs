//! Whether the user has agreed to Heddle checking GitHub for new releases.
//!
//! Three states, not two. "Not asked yet" and "said no" both mean no network request, but
//! only the first should ever show the prompt. The persisted form is the snake_case name
//! of the state; an unknown stored value decodes to nothing, and the settings loader then
//! falls back to the default, which asks again rather than permitting.

use vstd::prelude::*;
use crate::settings_value::{round_trips, FileModel, FileValue, SettingsValue};
use crate::text::str_eq;

verus! {

/// Whether Heddle may check for new releases.
#[derive(PartialEq, Eq, Hash, Clone, Copy, Debug, Structural)]
pub enum UpdateConsent {
    /// Never asked. Show the prompt once; make no network request until answered.
    Unanswered,
    /// The user agreed. Check on launch.
    Enabled,
    /// The user declined. Never check, and never ask again.
    Disabled,
}

impl Default for UpdateConsent {
    /// Unanswered: no request is made until the user chooses.
    fn default() -> (r: Self)
        ensures
            r == UpdateConsent::Unanswered,
    {
        UpdateConsent::Unanswered
    }
}

/// The name a consent state is stored under in the settings file.
pub open spec fn consent_file_name(c: UpdateConsent) -> Seq<char> {
    match c {
        UpdateConsent::Unanswered => "unanswered"@,
        UpdateConsent::Enabled => "enabled"@,
        UpdateConsent::Disabled => "disabled"@,
    }
}

/// The state a stored name decodes to, if any.
pub open spec fn consent_from_file_name(s: Seq<char>) -> Option<UpdateConsent> {
    if s == "unanswered"@ {
        Some(UpdateConsent::Unanswered)
    } else if s == "enabled"@ {
        Some(UpdateConsent::Enabled)
    } else if s == "disabled"@ {
        Some(UpdateConsent::Disabled)
    } else {
        None
    }
}

impl UpdateConsent {
    /// The single place that decides whether an update network request is permitted:
    /// only an explicit yes permits one.
    pub fn should_check(&self) -> (r: bool)
        ensures
            r <==> *self == UpdateConsent::Enabled,
    {
        match self {
            UpdateConsent::Enabled => true,
            _ => false,
        }
    }

    /// Whether the one-time prompt should be shown: only while unanswered.
    pub fn needs_prompt(&self) -> (r: bool)
        ensures
            r <==> *self == UpdateConsent::Unanswered,
    {
        match self {
            UpdateConsent::Unanswered => true,
            _ => false,
        }
    }

    /// The name this state is persisted under: its snake_case name.
    pub fn file_name(&self) -> (r: &'static str)
        ensures
            r@ == consent_file_name(*self),
    {
        match self {
            UpdateConsent::Unanswered => "unanswered",
            UpdateConsent::Enabled => "enabled",
            UpdateConsent::Disabled => "disabled",
        }
    }

    /// Decodes a persisted name. Anything but the three names decodes to `None`.
    pub fn from_file_name(value: &str) -> (r: Option<Self>)
        ensures
            r == consent_from_file_name(value@),
    {
        if str_eq(value, "unanswered") {
            Some(UpdateConsent::Unanswered)
        } else if str_eq(value, "enabled") {
            Some(UpdateConsent::Enabled)
        } else if str_eq(value, "disabled") {
            Some(UpdateConsent::Disabled)
        } else {
            None
        }
    }
}

impl SettingsValue for UpdateConsent {
    open spec fn encode(&self) -> FileModel {
        FileModel::Str(consent_file_name(*self))
    }

    open spec fn decodable(m: FileModel) -> bool {
        m matches FileModel::Str(s) && consent_from_file_name(s) is Some
    }

    open spec fn decodes_to(m: FileModel, x: UpdateConsent) -> bool {
        m matches FileModel::Str(s) && consent_from_file_name(s) == Some(x)
    }

    /// The state's name, as a string.
    fn to_file_value(&self) -> (r: FileValue) {
        FileValue::String(self.file_name().to_owned())
    }

    /// A string holding one of the three names; anything else reads as nothing.
    fn from_file_value(value: &FileValue) -> (r: Option<UpdateConsent>) {
        match value {
            FileValue::String(s) => UpdateConsent::from_file_name(s.as_str()),
            _ => None,
        }
    }
}

/// Law: every state survives a round trip through its persisted form, and no two states
/// share a name.
pub proof fn lemma_consent_round_trip(c: UpdateConsent)
    ensures
        consent_from_file_name(consent_file_name(c)) == Some(c),
        round_trips(c),
{
    reveal_strlit("unanswered");
    reveal_strlit("enabled");
    reveal_strlit("disabled");
    assert("unanswered"@[0] != "enabled"@[0]);
    assert("unanswered"@[0] != "disabled"@[0]);
    assert("enabled"@[0] != "disabled"@[0]);
}

/// Law: a stored value becomes consent only when it is exactly the name of the `Enabled`
/// state. A corrupt or unknown value never manufactures permission.
pub proof fn lemma_only_enabled_name_permits(s: Seq<char>)
    ensures
        consent_from_file_name(s) == Some(UpdateConsent::Enabled) <==> s == "enabled"@,
{
    reveal_strlit("unanswered");
    reveal_strlit("enabled");
    assert("unanswered"@[0] != "enabled"@[0]);
}

} // verus!
