//! Named secrets. A name that is not known is an error, never an empty value.

use crate::error::ConnectorError;
use crate::model::{fault, ErrorCode, Fault};
use crate::text::{begins, cat3, same, strip_prefix};
use vstd::prelude::*;

verus! {

/// Finds the value of a named secret.
pub trait SecretResolver {
    fn resolve(&self, name: &str) -> Result<String, ConnectorError>;
}

/// What looking up an optional secret may give: nothing where none is named,
/// else what the resolver answers for the name.
pub open spec fn looked_up<S: SecretResolver>(
    secrets: S,
    name: Option<String>,
    r: Result<Option<String>, ConnectorError>,
) -> bool {
    match name {
        None => r == Ok::<Option<String>, ConnectorError>(None),
        Some(n) => exists|found: Result<String, ConnectorError>, text: &str|
            text@ == n@ && #[trigger] call_ensures(S::resolve, (&secrets, text), found)
                && match found {
                Ok(v) => r == Ok::<Option<String>, ConnectorError>(Some(v)),
                Err(e) => r == Err::<Option<String>, ConnectorError>(e),
            },
    }
}

/// Looks up a secret where one is named.
pub fn lookup<S: SecretResolver>(secrets: &S, name: &Option<String>) -> (r: Result<
    Option<String>,
    ConnectorError,
>)
    ensures
        looked_up(*secrets, *name, r),
{
    match name {
        None => Ok(None),
        Some(n) => {
            let text: &str = n.as_str();
            let found: Result<String, ConnectorError> = secrets.resolve(text);
            assert(call_ensures(S::resolve, (secrets, text), found));
            match found {
                Ok(v) => Ok(Some(v)),
                Err(e) => Err(e),
            }
        },
    }
}

/// Secrets from a list; a name `env:FOO` reads the variable `FOO` of the
/// environment that was handed in.
#[derive(Debug)]
pub struct MapSecretResolver {
    pub values: Vec<(String, String)>,
    pub env: Vec<(String, String)>,
}

/// The value of the first pair with that key.
pub open spec fn found(pairs: Seq<(String, String)>, key: Seq<char>) -> Option<Seq<char>>
    decreases pairs.len(),
{
    if pairs.len() == 0 {
        None
    } else if pairs[0].0@ == key {
        Some(pairs[0].1@)
    } else {
        found(pairs.skip(1), key)
    }
}

pub(crate) fn find(pairs: &Vec<(String, String)>, key: &str) -> (r: Option<String>)
    ensures
        match r {
            Some(v) => found(pairs@, key@) == Some(v@),
            None => found(pairs@, key@) is None,
        },
{
    let mut i: usize = 0;
    assert(pairs@.skip(0) == pairs@);
    while i < pairs.len()
        invariant
            i <= pairs.len(),
            found(pairs@, key@) == found(pairs@.skip(i as int), key@),
        decreases pairs.len() - i,
    {
        assert(pairs@.skip(i as int)[0] == pairs@[i as int]);
        if same(pairs[i].0.as_str(), key) {
            return Some(pairs[i].1.clone());
        }
        assert(pairs@.skip(i as int).skip(1) == pairs@.skip(i + 1));
        i = i + 1;
    }
    None
}

/// The value of a secret, or why there is none.
pub open spec fn secret(
    values: Seq<(String, String)>,
    env: Seq<(String, String)>,
    name: Seq<char>,
) -> Result<Seq<char>, Fault> {
    if begins(name, "env:"@) {
        let var = name.skip("env:"@.len() as int);
        match found(env, var) {
            Some(v) => Ok(v),
            None => Err(
                fault(
                    ErrorCode::SecretMissing,
                    "environment secret `"@ + var + "` is not set"@,
                ),
            ),
        }
    } else {
        match found(values, name) {
            Some(v) => Ok(v),
            None => Err(
                fault(ErrorCode::SecretMissing, "secret `"@ + name + "` is not configured"@),
            ),
        }
    }
}

impl MapSecretResolver {
    /// Secrets from a list of names and values.
    pub fn new(values: Vec<(String, String)>) -> (r: Self)
        ensures
            r.values@ == values@,
            r.env@.len() == 0,
    {
        MapSecretResolver { values, env: Vec::new() }
    }

    /// Secrets from a list and from the variables of an environment.
    pub fn with_env(values: Vec<(String, String)>, env: Vec<(String, String)>) -> (r: Self)
        ensures
            r.values@ == values@,
            r.env@ == env@,
    {
        MapSecretResolver { values, env }
    }

    /// No secrets.
    pub fn empty() -> (r: Self)
        ensures
            r.values@.len() == 0,
            r.env@.len() == 0,
    {
        MapSecretResolver { values: Vec::new(), env: Vec::new() }
    }
}

impl SecretResolver for MapSecretResolver {
    fn resolve(&self, name: &str) -> (r: Result<String, ConnectorError>)
        ensures
            match r {
                Ok(v) => secret(self.values@, self.env@, name@) == Ok::<Seq<char>, Fault>(v@),
                Err(e) => secret(self.values@, self.env@, name@) == Err::<Seq<char>, Fault>(e@),
            },
    {
        match strip_prefix(name, "env:") {
            Some(var) => match find(&self.env, var.as_str()) {
                Some(v) => Ok(v),
                None => Err(
                    ConnectorError::new(
                        ErrorCode::SecretMissing,
                        cat3("environment secret `", var.as_str(), "` is not set"),
                    ),
                ),
            },
            None => match find(&self.values, name) {
                Some(v) => Ok(v),
                None => Err(
                    ConnectorError::new(
                        ErrorCode::SecretMissing,
                        cat3("secret `", name, "` is not configured"),
                    ),
                ),
            },
        }
    }
}

} // verus!
