//! The process-wide setting: which profile is current by default.

use vstd::prelude::*;

verus! {

/// The persisted configuration record.  `None` means no default profile has
/// ever been selected; consumers then fall back to the built-in `"default"`.
pub struct Config {
    pub default_profile: Option<String>,
}

/// The mathematical value of a configuration record.
pub ghost struct ConfigView {
    pub default_profile: Option<Seq<char>>,
}

impl View for Config {
    type V = ConfigView;

    open spec fn view(&self) -> ConfigView {
        ConfigView {
            default_profile: match self.default_profile {
                Some(ref s) => Some(s@),
                None => None,
            },
        }
    }
}

/// Selects `name` as the default profile.  Persisting the changed record is
/// the caller's business; the record itself changes in exactly one way.
pub fn set_default_profile(config: &mut Config, name: String)
    ensures
        final(config)@.default_profile == Some(name@),
{
    config.default_profile = Some(name);
}

} // verus!
