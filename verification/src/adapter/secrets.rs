//! The environment a worker gets from stored secrets.

use vstd::prelude::*;

use super::types::AdapterSecretEnv;
use crate::ids::Uuid7;
use crate::text;

verus! {

/// A stored secret.
#[derive(Debug)]
pub enum Secret {
    Key { value: String },
    Oauth,
}

/// A stored secret's id and name.
#[derive(Debug)]
pub struct SecretRecord {
    pub id: Uuid7,
    pub name: String,
}

/// Why a worker's environment could not be put together.
#[derive(Debug)]
pub enum SecretError {
    /// There is no secret of that id or name.
    NotFound { reference: String },
    /// The secret is not a plain key.
    NotAKey,
}

/// Whether `secrets[i]` is the first of a name.
pub open spec fn is_first_named(secrets: Seq<SecretRecord>, name: Seq<char>, i: int) -> bool {
    &&& 0 <= i < secrets.len()
    &&& secrets[i].name@ == name
    &&& forall|j: int| 0 <= j < i ==> (#[trigger] secrets[j]).name@ != name
}

/// The secret a reference means: its id where the reference is one, and
/// otherwise the first secret of that name.
pub fn resolve_secret_id(
    as_id: Option<Uuid7>,
    secrets: &Vec<SecretRecord>,
    reference: &str,
) -> (resolved: Result<Uuid7, SecretError>)
    ensures
        match resolved {
            Ok(id) => as_id == Some(id) || (as_id is None && exists|i: int| #[trigger]
                is_first_named(secrets@, reference@, i) && secrets@[i].id == id),
            Err(error) => as_id is None && (forall|i: int|
                0 <= i < secrets.len() ==> (#[trigger] secrets@[i]).name@ != reference@) && (
            error matches SecretError::NotFound { reference: named } && named@ == reference@),
        },
{
    if let Some(id) = as_id {
        return Ok(id);
    }
    let mut i: usize = 0;
    while i < secrets.len()
        invariant
            as_id is None,
            i <= secrets.len(),
            forall|j: int| 0 <= j < i ==> (#[trigger] secrets@[j]).name@ != reference@,
        decreases secrets.len() - i,
    {
        if text::str_eq(secrets[i].name.as_str(), reference) {
            assert(is_first_named(secrets@, reference@, i as int));
            return Ok(secrets[i].id);
        }
        i += 1;
    }
    Err(SecretError::NotFound { reference: reference.to_string() })
}

/// One variable of a worker's environment: the value of its secret, which must
/// be there and be a plain key.
pub fn secret_env_entry(entry: &AdapterSecretEnv, secret: Option<Secret>) -> (variable: Result<
    (String, String),
    SecretError,
>)
    ensures
        match secret {
            Some(Secret::Key { value: held }) => variable matches Ok((env, value)) && env@
                == entry.env@ && value@ == held@,
            Some(Secret::Oauth) => variable matches Err(SecretError::NotAKey),
            None => variable matches Err(SecretError::NotFound { reference }) && reference@
                == entry.secret_id@,
        },
{
    match secret {
        Some(Secret::Key { value }) => Ok((entry.env.clone(), value)),
        Some(Secret::Oauth) => Err(SecretError::NotAKey),
        None => Err(SecretError::NotFound { reference: entry.secret_id.clone() }),
    }
}

} // verus!
