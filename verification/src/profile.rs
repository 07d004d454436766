//! Environment-specific configuration profiles.
//!
//! Profiles are selected by name: `dev` enables debug logging and verbose
//! output, `prod` disables them, `fast` also caps the token limit and raises
//! the temperature.
use vstd::prelude::*;

use crate::text::{lowercase, owned, str_eq, to_lowercase};

verus! {

/// The part of the application configuration that profiles and the loader
/// act on. The temperature is held in thousandths (`600` stands for `0.6`).
#[derive(Debug, Clone)]
pub struct AppConfig {
    pub model_provider: String,
    pub model: String,
    pub max_tokens: u64,
    pub temperature_millis: u32,
    pub verbose: bool,
    pub debug_logging: bool,
}

impl Default for AppConfig {
    fn default() -> (r: Self)
        ensures
            r.model_provider@ == "fireworks"@,
            r.model@ == Seq::<char>::empty(),
            r.max_tokens == 16384,
            r.temperature_millis == 600,
            !r.verbose,
            !r.debug_logging,
    {
        AppConfig {
            model_provider: owned("fireworks"),
            model: String::new(),
            max_tokens: 16384,
            temperature_millis: 600,
            verbose: false,
            debug_logging: false,
        }
    }
}

/// Known profile names.
#[derive(Debug, Clone, Copy, PartialEq, Eq, Structural)]
pub enum Profile {
    Dev,
    Prod,
    Fast,
}

/// The profile that an already lower-cased name denotes.
pub open spec fn profile_from_lower(s: Seq<char>) -> Option<Profile> {
    if s == "dev"@ || s == "development"@ {
        Some(Profile::Dev)
    } else if s == "prod"@ || s == "production"@ {
        Some(Profile::Prod)
    } else if s == "fast"@ || s == "quick"@ {
        Some(Profile::Fast)
    } else {
        None
    }
}

/// The display name of a profile.
pub open spec fn profile_name(p: Profile) -> Seq<char> {
    match p {
        Profile::Dev => "dev"@,
        Profile::Prod => "prod"@,
        Profile::Fast => "fast"@,
    }
}

/// The token cap that the `fast` profile applies.
pub open spec fn fast_max_tokens() -> u64 {
    4096
}

/// The configuration after `p` is applied to `c`.
pub open spec fn with_profile(c: AppConfig, p: Profile) -> AppConfig {
    match p {
        Profile::Dev => AppConfig { verbose: true, debug_logging: true, ..c },
        Profile::Prod => AppConfig { verbose: false, debug_logging: false, ..c },
        Profile::Fast => AppConfig {
            verbose: false,
            debug_logging: false,
            max_tokens: if c.max_tokens > fast_max_tokens() {
                fast_max_tokens()
            } else {
                c.max_tokens
            },
            temperature_millis: 800,
            ..c
        },
    }
}

impl Profile {
    /// Parse an already lower-cased profile name.
    pub fn from_lowercase(lower: &str) -> (r: Option<Self>)
        ensures
            r == profile_from_lower(lower@),
    {
        if str_eq(lower, "dev") || str_eq(lower, "development") {
            Some(Profile::Dev)
        } else if str_eq(lower, "prod") || str_eq(lower, "production") {
            Some(Profile::Prod)
        } else if str_eq(lower, "fast") || str_eq(lower, "quick") {
            Some(Profile::Fast)
        } else {
            None
        }
    }

    /// Parse a profile name from a string (case-insensitive).
    pub fn from_str_loose(s: &str) -> (r: Option<Self>)
        ensures
            r == profile_from_lower(lowercase(s@)),
    {
        let lower = to_lowercase(s);
        Self::from_lowercase(lower.as_str())
    }

    /// Display name.
    pub fn as_str(self) -> (r: &'static str)
        ensures
            r@ == profile_name(self),
    {
        match self {
            Profile::Dev => "dev",
            Profile::Prod => "prod",
            Profile::Fast => "fast",
        }
    }

    /// The display name as an owned string.
    pub fn to_string(&self) -> (r: String)
        ensures
            r@ == profile_name(*self),
    {
        owned(self.as_str())
    }

    /// All known profiles.
    pub fn all() -> (r: &'static [Profile])
        ensures
            r@ == seq![Profile::Dev, Profile::Prod, Profile::Fast],
    {
        let r: &'static [Profile] = &[Profile::Dev, Profile::Prod, Profile::Fast];
        assert(r@ =~= seq![Profile::Dev, Profile::Prod, Profile::Fast]);
        r
    }
}

/// Apply the profile named `profile_name` to `config`.
///
/// Returns true if a valid profile was applied, false if the name was
/// unrecognized (the configuration is then left unchanged).
pub fn apply_profile(config: &mut AppConfig, profile_name: &str) -> (r: bool)
    ensures
        r == profile_from_lower(lowercase(profile_name@)) is Some,
        *final(config) == (match profile_from_lower(lowercase(profile_name@)) {
            Some(p) => with_profile(*old(config), p),
            None => *old(config),
        }),
{
    let profile = match Profile::from_str_loose(profile_name) {
        Some(p) => p,
        None => {
            return false;
        },
    };
    match profile {
        Profile::Dev => {
            config.verbose = true;
            config.debug_logging = true;
        },
        Profile::Prod => {
            config.verbose = false;
            config.debug_logging = false;
        },
        Profile::Fast => {
            config.verbose = false;
            config.debug_logging = false;
            if config.max_tokens > 4096 {
                config.max_tokens = 4096;
            }
            config.temperature_millis = 800;
        },
    }
    true
}

/// Every profile name round-trips: the display name of `p`, which is already
/// lower case, parses back to `p`.
pub proof fn law_profile_name_roundtrip(p: Profile)
    ensures
        profile_from_lower(profile_name(p)) == Some(p),
{
    reveal_strlit("dev");
    reveal_strlit("development");
    reveal_strlit("prod");
    reveal_strlit("production");
    reveal_strlit("fast");
    reveal_strlit("quick");
    match p {
        Profile::Dev => {},
        Profile::Prod => {
            assert("prod"@.len() != "dev"@.len());
            assert("prod"@.len() != "development"@.len());
        },
        Profile::Fast => {
            assert("fast"@.len() != "dev"@.len());
            assert("fast"@.len() != "development"@.len());
            assert("fast"@[0] != "prod"@[0]);
            assert("fast"@.len() != "production"@.len());
        },
    }
}

} // verus!
