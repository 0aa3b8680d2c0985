//! The batch resolver: one batch fetch's raw response is partitioned into
//! the parameters that resolved and the names that named nothing. The call
//! as a whole fails only when nothing resolved; otherwise the caller gets
//! both lists and must inspect the invalid one even on success.

use crate::errors::SSMError;
use crate::ssm_parameters::SSMParameter;
use crate::ssm_parameters::SSMParametersResult;
use vstd::prelude::*;

verus! {

/// The names the parameters carry, as character sequences.
pub open spec fn param_name_views(params: Seq<SSMParameter>) -> Seq<Seq<char>> {
    params.map_values(|p: SSMParameter| p.name.unwrap()@)
}

/// What `resolve` returns for a raw batch response: the whole call fails,
/// naming exactly the invalid names, when nothing resolved beside them;
/// in every other case both lists come back as the store gave them.
pub open spec fn resolved(
    parameters: Vec<SSMParameter>,
    invalid_parameters: Vec<String>,
) -> Result<SSMParametersResult, SSMError> {
    if invalid_parameters@.len() > 0 && parameters@.len() == 0 {
        Err(SSMError::InvalidParameters(invalid_parameters))
    } else {
        Ok(SSMParametersResult { parameters, invalid_parameters })
    }
}

/// Partition a raw batch response. `parameters` are the entries the store
/// resolved and `invalid_parameters` the requested names it did not know;
/// the result is exactly what `resolved` states.
pub fn resolve(parameters: Vec<SSMParameter>, invalid_parameters: Vec<String>) -> (r: Result<
    SSMParametersResult,
    SSMError,
>)
    ensures
        r == resolved(parameters, invalid_parameters),
{
    if invalid_parameters.len() > 0 && parameters.len() == 0 {
        Err(SSMError::InvalidParameters(invalid_parameters))
    } else {
        Ok(SSMParametersResult { parameters, invalid_parameters })
    }
}

/// A raw batch response is a partition of the requested names: every
/// resolved entry is named, and the resolved names and the invalid names
/// split the requested set between them with nothing shared.
pub open spec fn response_partitions_request(
    request_names: Seq<Seq<char>>,
    params: Seq<SSMParameter>,
    invalid: Seq<Seq<char>>,
) -> bool {
    &&& forall|i: int| 0 <= i < params.len() ==> (#[trigger] params[i]).name is Some
    &&& param_name_views(params).to_set().union(invalid.to_set()) == request_names.to_set()
    &&& param_name_views(params).to_set().disjoint(invalid.to_set())
}

/// For a batch whose response splits the requested names into a valid set
/// and an invalid set: with nothing valid, the call fails and the error
/// names exactly the invalid names; with anything valid, the call succeeds
/// and returns both lists, still disjoint and still covering exactly the
/// requested names.
pub proof fn lemma_resolve_partitions(
    request_names: Seq<Seq<char>>,
    parameters: Vec<SSMParameter>,
    invalid_parameters: Vec<String>,
)
    requires
        response_partitions_request(request_names, parameters@, invalid_parameters.deep_view()),
    ensures
        parameters@.len() == 0 && invalid_parameters@.len() > 0 ==> resolved(
            parameters,
            invalid_parameters,
        ) == Err::<SSMParametersResult, SSMError>(SSMError::InvalidParameters(invalid_parameters)),
        parameters@.len() > 0 || invalid_parameters@.len() == 0 ==> (resolved(
            parameters,
            invalid_parameters,
        ) matches Ok(res) && {
            &&& res.parameters == parameters
            &&& res.invalid_parameters == invalid_parameters
            &&& param_name_views(res.parameters@).to_set().disjoint(
                res.invalid_parameters.deep_view().to_set(),
            )
            &&& param_name_views(res.parameters@).to_set().union(
                res.invalid_parameters.deep_view().to_set(),
            ) == request_names.to_set()
        }),
{
}

/// Turn a successful batch result into name-to-value bindings for the
/// renderer. Any invalid name fails the whole call, naming exactly the
/// invalid list: no partial template output is ever produced from it.
pub fn template_bindings(result: SSMParametersResult) -> (r: Result<
    Vec<(String, String)>,
    SSMError,
>)
    requires
        forall|i: int|
            0 <= i < result.parameters@.len() ==> (#[trigger] result.parameters@[i]).name is Some
                && result.parameters@[i].value is Some,
    ensures
        result.invalid_parameters@.len() > 0 ==> r == Err::<Vec<(String, String)>, SSMError>(
            SSMError::InvalidParameters(result.invalid_parameters),
        ),
        result.invalid_parameters@.len() == 0 ==> (r matches Ok(b) && {
            &&& b@.len() == result.parameters@.len()
            &&& forall|i: int|
                0 <= i < b@.len() ==> (#[trigger] b@[i]).0 == result.parameters@[i].name.unwrap()
                    && b@[i].1 == result.parameters@[i].value.unwrap()
        }),
{
    if result.invalid_parameters.len() > 0 {
        return Err(SSMError::InvalidParameters(result.invalid_parameters));
    }
    let mut bindings: Vec<(String, String)> = Vec::new();
    let mut i: usize = 0;
    while i < result.parameters.len()
        invariant
            i <= result.parameters@.len(),
            bindings@.len() == i,
            forall|k: int|
                0 <= k < result.parameters@.len() ==> (
                #[trigger] result.parameters@[k]).name is Some
                    && result.parameters@[k].value is Some,
            forall|j: int|
                0 <= j < i ==> (#[trigger] bindings@[j]).0 == result.parameters@[j].name.unwrap()
                    && bindings@[j].1 == result.parameters@[j].value.unwrap(),
        decreases result.parameters@.len() - i,
    {
        let p = &result.parameters[i];
        match (&p.name, &p.value) {
            (Some(name), Some(value)) => {
                bindings.push((name.clone(), value.clone()));
            },
            _ => {
                proof {
                    assert(false);
                }
            },
        }
        i = i + 1;
    }
    Ok(bindings)
}

} // verus!
