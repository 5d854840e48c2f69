//! Bearer gate: one shared secret validated on every protected request.

use vstd::prelude::*;

use crate::json::str_eq;

verus! {

pub struct AuthConfig {
    bearer: Option<String>,
}

impl AuthConfig {
    /// The configured shared secret, if any.
    pub closed spec fn spec_bearer(&self) -> Option<Seq<char>> {
        match self.bearer {
            Option::Some(s) => Option::Some(s@),
            Option::None => Option::None,
        }
    }

    pub fn new(bearer: Option<String>) -> (r: AuthConfig)
        ensures
            match bearer {
                Option::Some(s) => r.spec_bearer() == Option::Some(s@),
                Option::None => r.spec_bearer() is None,
            },
    {
        AuthConfig { bearer }
    }

    pub fn is_enabled(&self) -> (r: bool)
        ensures
            r <==> self.spec_bearer() is Some,
    {
        self.bearer.is_some()
    }

    /// Accepts exactly when no bearer is configured, or the presented
    /// token equals the configured one.
    pub fn validate(&self, token: Option<&str>) -> (r: Result<(), AuthError>)
        ensures
            r is Ok <==> match self.spec_bearer() {
                Option::None => true,
                Option::Some(expected) => token matches Some(t) && t@ == expected,
            },
            r is Err ==> r == Result::<(), AuthError>::Err(AuthError::Unauthorized),
    {
        match &self.bearer {
            None => Ok(()),
            Some(expected) => match token {
                Some(actual) => {
                    if str_eq(expected.as_str(), actual) {
                        Ok(())
                    } else {
                        Err(AuthError::Unauthorized)
                    }
                },
                None => Err(AuthError::Unauthorized),
            },
        }
    }
}

pub struct AuthLayer {
    config: AuthConfig,
}

impl AuthLayer {
    pub fn new(config: AuthConfig) -> (r: AuthLayer)
        ensures
            r.spec_config() == config,
    {
        AuthLayer { config }
    }

    pub closed spec fn spec_config(&self) -> AuthConfig {
        self.config
    }

    pub fn config(&self) -> (r: &AuthConfig)
        ensures
            *r == self.spec_config(),
    {
        &self.config
    }
}

#[derive(Debug, PartialEq, Eq, Structural, Clone, Copy)]
pub enum AuthError {
    Unauthorized,
}

/// The token presented by a request, already stripped of its scheme.
pub struct BearerToken(pub Option<String>);

/// How a carrier of state yields the bearer configuration.
pub trait FromRef<T> {
    fn from_ref(input: &T) -> &AuthConfig;
}

impl FromRef<AuthLayer> for AuthConfig {
    fn from_ref(layer: &AuthLayer) -> &AuthConfig {
        layer.config()
    }
}

/// The token of an `Authorization: Bearer <token>` header value, if
/// the value carries that scheme.
pub fn bearer_from_header(value: Option<&str>) -> (r: Option<String>)
    ensures
        match r {
            Option::Some(t) => {
                &&& value matches Some(v)
                &&& v@.len() >= 7
                &&& v@.subrange(0, 7) == "Bearer "@
                &&& t@ == v@.skip(7)
            },
            Option::None => match value {
                Option::Some(v) => v@.len() < 7 || v@.subrange(0, 7) != "Bearer "@,
                Option::None => true,
            },
        },
{
    match value {
        None => None,
        Some(v) => {
            let n = v.unicode_len();
            if n < 7 {
                return None;
            }
            let scheme = v.substring_char(0, 7);
            if !str_eq(scheme, "Bearer ") {
                return None;
            }
            let token = v.substring_char(7, n).to_owned();
            proof {
                assert(v@.subrange(7, n as int) =~= v@.skip(7));
            }
            Some(token)
        },
    }
}

} // verus!
