//! The clone operation's plan: fetch the origin with decryption off —
//! the type and value transfer opaquely — and write them back under the
//! destination name with no version, honouring the overwrite flag. Any
//! store failure classifies through the put taxonomy; in particular an
//! existing destination without overwrite ends as `ParameterAlreadyExists`
//! naming the destination.

use crate::errors::classified_put_error;
use crate::errors::PutErrorKind;
use crate::errors::SSMError;
use crate::ssm_parameters::SSMParameter;
use crate::ssm_parameters::SSMParameterRequest;
use vstd::prelude::*;

verus! {

/// What one put call sends to the store.
#[derive(Debug, PartialEq)]
pub struct PutRequest {
    pub name: String,
    pub p_type: String,
    pub value: String,
    pub overwrite: bool,
}

/// The parameter a clone writes: the source's type and value under the
/// destination name, with no version.
pub open spec fn cloned_destination(source: SSMParameter, destination: String) -> SSMParameter {
    SSMParameter {
        name: Some(destination),
        p_type: source.p_type,
        value: source.value,
        version: None,
    }
}

/// The put call a complete parameter turns into.
pub open spec fn built_put_request(p: SSMParameter, overwrite: bool) -> PutRequest {
    PutRequest {
        name: p.name.unwrap(),
        p_type: p.p_type.unwrap(),
        value: p.value.unwrap(),
        overwrite,
    }
}

/// The fetch a clone begins with: the origin by name, decryption off.
pub fn clone_fetch_request(origin: &String) -> (r: SSMParameterRequest)
    ensures
        r.name == *origin,
        r.with_decryption == Some(false),
{
    SSMParameterRequest { name: origin.clone(), with_decryption: Some(false) }
}

/// The parameter a clone writes, built from the fetched source.
pub fn clone_destination(source: &SSMParameter, destination: &String) -> (r: SSMParameter)
    ensures
        r == cloned_destination(*source, *destination),
{
    SSMParameter {
        name: Some(destination.clone()),
        p_type: source.p_type.clone(),
        value: source.value.clone(),
        version: None,
    }
}

/// Turn a parameter into the put call that writes it. Only a complete
/// parameter — named, typed, and carrying a value — can be written.
pub fn build_put_request(parameter: &SSMParameter, overwrite: bool) -> (r: PutRequest)
    requires
        parameter.is_complete(),
    ensures
        r == built_put_request(*parameter, overwrite),
{
    match (&parameter.name, &parameter.p_type, &parameter.value) {
        (Some(name), Some(p_type), Some(value)) => PutRequest {
            name: name.clone(),
            p_type: p_type.clone(),
            value: value.clone(),
            overwrite,
        },
        _ => {
            proof {
                assert(false);
            }
            PutRequest {
                name: String::new(),
                p_type: String::new(),
                value: String::new(),
                overwrite,
            }
        },
    }
}

/// What a clone writes and how it can fail: the put built for the
/// destination carries exactly the source's type and value under the
/// destination name with the given overwrite flag — so a successful put
/// leaves the origin's value and type under the destination — and when
/// the store instead reports that the destination already exists, the
/// case an existing destination without overwrite runs into, the
/// classified error is `ParameterAlreadyExists` naming the destination.
pub proof fn lemma_clone_put(source: SSMParameter, destination: String, overwrite: bool)
    requires
        source.p_type is Some,
        source.value is Some,
    ensures
        ({
            let put = built_put_request(cloned_destination(source, destination), overwrite);
            &&& put.name == destination
            &&& put.p_type == source.p_type.unwrap()
            &&& put.value == source.value.unwrap()
            &&& put.overwrite == overwrite
            &&& classified_put_error(PutErrorKind::ParameterAlreadyExists, put.name, put.p_type)
                == SSMError::ParameterAlreadyExists(destination)
        }),
{
}

} // verus!
