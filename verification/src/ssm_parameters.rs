//! The data model: the request and response shapes exchanged with the
//! remote parameter store, as plain values.

use vstd::prelude::*;

verus! {

/// One key-value entry as returned by the store. Every field is optional
/// because partial or invalid results may carry only a name.
#[derive(Debug, PartialEq)]
pub struct SSMParameter {
    pub name: Option<String>,
    pub p_type: Option<String>,
    pub value: Option<String>,
    pub version: Option<i64>,
}

impl Clone for SSMParameter {
    fn clone(&self) -> (r: Self)
        ensures
            r == *self,
    {
        SSMParameter {
            name: self.name.clone(),
            p_type: self.p_type.clone(),
            value: self.value.clone(),
            version: self.version.clone(),
        }
    }
}

impl SSMParameter {
    /// A parameter complete enough to be written back to the store:
    /// it names itself and carries a type and a value.
    pub open spec fn is_complete(&self) -> bool {
        &&& self.name is Some
        &&& self.p_type is Some
        &&& self.value is Some
    }
}

/// Input to a single-item fetch.
#[derive(Debug, PartialEq)]
pub struct SSMParameterRequest {
    pub name: String,
    pub with_decryption: Option<bool>,
}

impl Clone for SSMParameterRequest {
    fn clone(&self) -> (r: Self)
        ensures
            r == *self,
    {
        SSMParameterRequest { name: self.name.clone(), with_decryption: self.with_decryption }
    }
}

/// Input to a batch fetch by names.
#[derive(Debug, PartialEq)]
pub struct SSMParametersRequest {
    pub names: Vec<String>,
    pub with_decryption: Option<bool>,
}

impl SSMParametersRequest {
    /// The store bounds a batch at `BATCH_LIMIT` names; callers must chunk
    /// larger lists themselves.
    pub open spec fn is_within_batch_limit(&self) -> bool {
        1 <= self.names@.len() <= crate::BATCH_LIMIT
    }
}

/// Input to a path-based listing.
#[derive(Debug, PartialEq)]
pub struct SSMParametersByPathRequest {
    pub path: String,
    pub with_decryption: Option<bool>,
    pub recursive: Option<bool>,
}

impl Clone for SSMParametersByPathRequest {
    fn clone(&self) -> (r: Self)
        ensures
            r == *self,
    {
        SSMParametersByPathRequest {
            path: self.path.clone(),
            with_decryption: self.with_decryption,
            recursive: self.recursive,
        }
    }
}

/// The outcome of a fetch: the parameters found, and the requested names
/// that named nothing. A name appears in exactly one of the two lists.
#[derive(Debug, PartialEq)]
pub struct SSMParametersResult {
    pub parameters: Vec<SSMParameter>,
    pub invalid_parameters: Vec<String>,
}

/// A terminal, non-retryable failure of one store call, described for the
/// operator.
#[derive(Debug, PartialEq)]
pub struct SSMRequestError {
    pub reason: String,
}

impl Clone for SSMRequestError {
    fn clone(&self) -> (r: Self)
        ensures
            r == *self,
    {
        SSMRequestError { reason: self.reason.clone() }
    }
}

} // verus!
