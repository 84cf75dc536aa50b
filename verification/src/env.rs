//! The environment the application runs in.

use vstd::prelude::*;
use vstd::string::*;
use crate::support::text::{ascii_lowercase, ascii_lowercase_equals};

verus! {

/// The kind of environment: local development, production, or another one by name.
#[derive(Debug, PartialEq)]
pub enum AppEnv {
    Local,
    Production,
    Other(String),
}

/// The environment that a name stands for: `local` and `production` in any ASCII
/// case, else another environment under the name as given.
pub open spec fn app_env_from(value: String) -> AppEnv {
    if ascii_lowercase(value@) == "local"@ {
        AppEnv::Local
    } else if ascii_lowercase(value@) == "production"@ {
        AppEnv::Production
    } else {
        AppEnv::Other(value)
    }
}

impl vstd::std_specs::convert::FromSpecImpl<String> for AppEnv {
    open spec fn obeys_from_spec() -> bool {
        true
    }

    open spec fn from_spec(value: String) -> AppEnv {
        app_env_from(value)
    }
}

impl From<String> for AppEnv {
    fn from(value: String) -> (r: AppEnv) {
        if ascii_lowercase_equals(value.as_str(), "local") {
            AppEnv::Local
        } else if ascii_lowercase_equals(value.as_str(), "production") {
            AppEnv::Production
        } else {
            AppEnv::Other(value)
        }
    }
}

/// The application's environment and whether debugging is on.
#[derive(Debug)]
pub struct Env {
    env: AppEnv,
    debug: bool,
}

/// The boolean that an environment setting spells: `true` or `false` in any
/// ASCII case; anything else spells none.
pub open spec fn bool_setting(value: Seq<char>) -> Option<bool> {
    if ascii_lowercase(value) == "true"@ {
        Some(true)
    } else if ascii_lowercase(value) == "false"@ {
        Some(false)
    } else {
        None
    }
}

impl Env {
    /// The environment from the values of `APP_ENV` and `APP_DEBUG`; `APP_DEBUG`
    /// must spell a boolean.
    pub fn init(app_env: String, app_debug: &str) -> (e: Env)
        requires
            bool_setting(app_debug@) is Some,
        ensures
            *e.env() == app_env_from(app_env),
            bool_setting(app_debug@) == Some(e.debug()),
    {
        Env { env: AppEnv::from(app_env), debug: Self::parse_bool(app_debug) }
    }

    /// The environment kind.
    pub closed spec fn env_spec(&self) -> &AppEnv {
        &self.env
    }

    pub closed spec fn debug_spec(&self) -> bool {
        self.debug
    }

    #[verifier::when_used_as_spec(env_spec)]
    pub fn env(&self) -> (e: &AppEnv)
        ensures
            *e == self.env_spec(),
    {
        &self.env
    }

    #[verifier::when_used_as_spec(debug_spec)]
    pub fn debug(&self) -> (d: bool)
        ensures
            d == self.debug_spec(),
    {
        self.debug
    }

    /// Whether the environment is local development.
    pub fn is_local(&self) -> (b: bool)
        ensures
            b == (self.env() is Local),
    {
        match &self.env {
            AppEnv::Local => true,
            _ => false,
        }
    }

    /// Whether the environment is production.
    pub fn is_production(&self) -> (b: bool)
        ensures
            b == (self.env() is Production),
    {
        match &self.env {
            AppEnv::Production => true,
            _ => false,
        }
    }

    /// Reads a boolean setting, which must be `true` or `false` in any ASCII case.
    pub fn parse_bool(value: &str) -> (b: bool)
        requires
            bool_setting(value@) is Some,
        ensures
            bool_setting(value@) == Some(b),
    {
        ascii_lowercase_equals(value, "true")
    }
}

/// `local` and `production` name their environments in any ASCII case: every
/// name whose ASCII lower-case form is `local` is the local environment, every
/// one whose form is `production` is production, and any other name stands for
/// another environment under the name as given.
pub proof fn lemma_env_names_in_any_case(value: String)
    ensures
        ascii_lowercase(value@) == "local"@ ==> app_env_from(value) == AppEnv::Local,
        ascii_lowercase(value@) == "production"@ ==> app_env_from(value) == AppEnv::Production,
        ascii_lowercase(value@) != "local"@ && ascii_lowercase(value@) != "production"@ ==> app_env_from(value)
            == AppEnv::Other(value),
{
    reveal_strlit("local");
    reveal_strlit("production");
    assert("local"@ != "production"@) by {
        assert("local"@.len() != "production"@.len());
    }
}

/// `true` and `false` spell their booleans in any ASCII case: a setting whose
/// ASCII lower-case form is `true` reads as true, one whose form is `false` reads
/// as false, and any other spells no boolean.
pub proof fn lemma_bool_settings_in_any_case(value: Seq<char>)
    ensures
        ascii_lowercase(value) == "true"@ ==> bool_setting(value) == Some(true),
        ascii_lowercase(value) == "false"@ ==> bool_setting(value) == Some(false),
        ascii_lowercase(value) != "true"@ && ascii_lowercase(value) != "false"@ ==> bool_setting(value) is None,
{
    reveal_strlit("true");
    reveal_strlit("false");
    assert("true"@ != "false"@) by {
        assert("true"@.len() != "false"@.len());
    }
}

} // verus!
