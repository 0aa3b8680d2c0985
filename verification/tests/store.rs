use ssm_helper::clone_op::build_put_request;
use ssm_helper::clone_op::clone_destination;
use ssm_helper::clone_op::clone_fetch_request;
use ssm_helper::errors::classify_get_failure;
use ssm_helper::errors::classify_put_failure;
use ssm_helper::errors::join_names;
use ssm_helper::errors::GetErrorKind;
use ssm_helper::errors::PatternIssue;
use ssm_helper::errors::PolicyIssue;
use ssm_helper::errors::PutErrorKind;
use ssm_helper::errors::SSMError;
use ssm_helper::errors::StoreCallError;
use ssm_helper::paging::fetch_by_path_pages;
use ssm_helper::paging::FetchStep;
use ssm_helper::paging::PageOutcome;
use ssm_helper::paging::PathFetch;
use ssm_helper::paging::PathPage;
use ssm_helper::resolve::resolve;
use ssm_helper::resolve::template_bindings;
use ssm_helper::ssm_parameters::SSMParameter;
use ssm_helper::ssm_parameters::SSMParametersResult;
use ssm_helper::ssm_parameters::SSMRequestError;

fn param(name: &str, value: &str) -> SSMParameter {
    SSMParameter {
        name: Some(name.to_string()),
        p_type: Some("String".to_string()),
        value: Some(value.to_string()),
        version: Some(1),
    }
}

fn page(params: &[SSMParameter], token: Option<&str>) -> PageOutcome {
    PageOutcome::Received(PathPage {
        parameters: Some(params.to_vec()),
        next_token: token.map(|t| t.to_string()),
    })
}

#[test]
fn it_works() {
    assert_eq!(1, 1); // ;-)
}

#[test]
fn paging_concatenates_pages_in_order() {
    let outcomes = vec![
        page(&[param("/a", "1")], Some("t1")),
        page(&[param("/b", "2"), param("/c", "3")], Some("t2")),
        page(&[param("/d", "4")], None),
    ];
    let (result, used) = fetch_by_path_pages(outcomes);
    let result = result.unwrap();
    assert_eq!(used, 3);
    assert_eq!(
        result.parameters,
        vec![param("/a", "1"), param("/b", "2"), param("/c", "3"), param("/d", "4")]
    );
    assert_eq!(result.invalid_parameters.len(), 0);
}

#[test]
fn paging_first_error_discards_everything() {
    let outcomes = vec![
        page(&[param("/a", "1")], Some("t1")),
        PageOutcome::Failed(SSMRequestError { reason: "the store went away".to_string() }),
        page(&[param("/b", "2")], None),
    ];
    let (result, used) = fetch_by_path_pages(outcomes);
    assert_eq!(used, 2);
    assert_eq!(
        result,
        Err(SSMRequestError { reason: "the store went away".to_string() })
    );
}

#[test]
fn paging_repeated_token_is_a_protocol_error() {
    let outcomes = vec![
        page(&[param("/a", "1")], Some("t1")),
        page(&[param("/b", "2")], Some("t1")),
        page(&[param("/c", "3")], None),
    ];
    let (result, used) = fetch_by_path_pages(outcomes);
    assert_eq!(used, 2);
    assert_eq!(
        result.unwrap_err().reason,
        "The page token repeated itself; the listing cannot make progress.".to_string()
    );
}

#[test]
fn paging_empty_listing_is_not_an_error() {
    let outcomes = vec![page(&[], None)];
    let (result, used) = fetch_by_path_pages(outcomes);
    let result = result.unwrap();
    assert_eq!(used, 1);
    assert_eq!(result.parameters.len(), 0);
    assert_eq!(result.invalid_parameters.len(), 0);
}

#[test]
fn paging_page_without_parameter_list_stops_with_what_was_gathered() {
    let outcomes = vec![
        page(&[param("/a", "1")], Some("t1")),
        PageOutcome::Received(PathPage { parameters: None, next_token: Some("t2".to_string()) }),
    ];
    let (result, used) = fetch_by_path_pages(outcomes);
    let result = result.unwrap();
    assert_eq!(used, 2);
    assert_eq!(result.parameters, vec![param("/a", "1")]);
    assert_eq!(result.invalid_parameters.len(), 0);
}

#[test]
fn paging_step_continues_under_fresh_token() {
    let state = PathFetch::start();
    let step = state.step(page(&[param("/a", "1")], Some("t1")));
    match step {
        FetchStep::Continue(next) => {
            assert_eq!(next.gathered, vec![param("/a", "1")]);
            assert_eq!(next.last_token, Some("t1".to_string()));
        }
        other => panic!("expected the listing to continue, got {:?}", other),
    }
}

#[test]
fn resolve_fails_when_nothing_is_valid() {
    let r = resolve(vec![], vec!["/gone".to_string(), "/also/gone".to_string()]);
    let e = r.unwrap_err();
    assert_eq!(
        e,
        SSMError::InvalidParameters(vec!["/gone".to_string(), "/also/gone".to_string()])
    );
    assert_eq!(
        e.message(),
        "Invalid Parameters: /gone, /also/gone".to_string()
    );
}

#[test]
fn resolve_partial_success_returns_both_lists() {
    let r = resolve(vec![param("/here", "v")], vec!["/gone".to_string()]);
    let result = r.unwrap();
    assert_eq!(result.parameters, vec![param("/here", "v")]);
    assert_eq!(result.invalid_parameters, vec!["/gone".to_string()]);
}

#[test]
fn resolve_all_valid_has_no_invalid_names() {
    let r = resolve(vec![param("/a", "1"), param("/b", "2")], vec![]);
    let result = r.unwrap();
    assert_eq!(result.parameters.len(), 2);
    assert_eq!(result.invalid_parameters.len(), 0);
}

#[test]
fn template_bindings_fail_on_any_invalid_name() {
    let result = SSMParametersResult {
        parameters: vec![param("/a", "1")],
        invalid_parameters: vec!["/b".to_string()],
    };
    assert_eq!(
        template_bindings(result),
        Err(SSMError::InvalidParameters(vec!["/b".to_string()]))
    );
}

#[test]
fn template_bindings_pair_names_with_values() {
    let result = SSMParametersResult {
        parameters: vec![param("/a", "1"), param("/b", "2")],
        invalid_parameters: vec![],
    };
    assert_eq!(
        template_bindings(result).unwrap(),
        vec![
            ("/a".to_string(), "1".to_string()),
            ("/b".to_string(), "2".to_string()),
        ]
    );
}

#[test]
fn get_failures_classify_one_to_one() {
    let name = "/k".to_string();
    assert_eq!(
        classify_get_failure(&StoreCallError::Service(GetErrorKind::InternalServerError), &name),
        SSMError::StoreInternal
    );
    assert_eq!(
        classify_get_failure(&StoreCallError::Service(GetErrorKind::InvalidKeyId), &name),
        SSMError::InvalidKeyId
    );
    assert_eq!(
        classify_get_failure(&StoreCallError::Service(GetErrorKind::ParameterNotFound), &name),
        SSMError::ParameterNotFound("/k".to_string())
    );
    assert_eq!(
        classify_get_failure(
            &StoreCallError::Service(GetErrorKind::ParameterVersionNotFound),
            &name
        ),
        SSMError::ParameterVersionNotFound
    );
    assert_eq!(
        classify_get_failure(&StoreCallError::Transport("tls handshake failed".to_string()), &name),
        SSMError::Transport("tls handshake failed".to_string())
    );
    assert_eq!(
        classify_get_failure(&StoreCallError::Unknown, &name),
        SSMError::Unknown
    );
}

#[test]
fn put_failures_classify_one_to_one() {
    let name = "/dest".to_string();
    let p_type = "SecureString".to_string();
    let classify = |k: PutErrorKind| classify_put_failure(&StoreCallError::Service(k), &name, &p_type);
    assert_eq!(classify(PutErrorKind::InternalServerError), SSMError::StoreInternal);
    assert_eq!(classify(PutErrorKind::InvalidKeyId), SSMError::InvalidKeyId);
    assert_eq!(
        classify(PutErrorKind::HierarchyLevelLimitExceeded),
        SSMError::HierarchyLimitExceeded
    );
    assert_eq!(classify(PutErrorKind::HierarchyTypeMismatch), SSMError::HierarchyTypeMismatch);
    assert_eq!(
        classify(PutErrorKind::IncompatiblePolicy),
        SSMError::PolicyConflict(PolicyIssue::Conflicting)
    );
    assert_eq!(
        classify(PutErrorKind::InvalidAllowedPattern),
        SSMError::PatternMismatch(PatternIssue::AllowedPattern)
    );
    assert_eq!(
        classify(PutErrorKind::InvalidPolicyAttribute),
        SSMError::PolicyConflict(PolicyIssue::AttributeInvalid)
    );
    assert_eq!(
        classify(PutErrorKind::InvalidPolicyType),
        SSMError::PolicyConflict(PolicyIssue::TypeUnsupported)
    );
    assert_eq!(
        classify(PutErrorKind::ParameterAlreadyExists),
        SSMError::ParameterAlreadyExists("/dest".to_string())
    );
    assert_eq!(classify(PutErrorKind::ParameterLimitExceeded), SSMError::ParameterLimitExceeded);
    assert_eq!(
        classify(PutErrorKind::ParameterMaxVersionLimitExceeded),
        SSMError::VersionLimitExceeded
    );
    assert_eq!(
        classify(PutErrorKind::ParameterPatternMismatch),
        SSMError::PatternMismatch(PatternIssue::ParameterName)
    );
    assert_eq!(
        classify(PutErrorKind::PoliciesLimitExceeded),
        SSMError::PolicyConflict(PolicyIssue::TooMany)
    );
    assert_eq!(classify(PutErrorKind::TooManyUpdates), SSMError::TooManyConcurrentUpdates);
    assert_eq!(
        classify(PutErrorKind::UnsupportedParameterType),
        SSMError::UnsupportedType("SecureString".to_string())
    );
}

#[test]
fn error_messages_read_as_the_operator_sees_them() {
    assert_eq!(
        SSMError::StoreInternal.message(),
        "An error occurred on the server side.".to_string()
    );
    assert_eq!(
        SSMError::InvalidKeyId.message(),
        "The query key ID is not valid.".to_string()
    );
    assert_eq!(
        SSMError::ParameterNotFound("/x".to_string()).message(),
        "The parameter '/x' could not be found. Verify the name and try again.".to_string()
    );
    assert_eq!(
        SSMError::ParameterVersionNotFound.message(),
        "The specified parameter version was not found. Verify the parameter name and version, and try again."
            .to_string()
    );
    assert_eq!(
        SSMError::HierarchyLimitExceeded.message(),
        "A hierarchy can have a maximum of 15 levels.".to_string()
    );
    assert_eq!(
        SSMError::HierarchyTypeMismatch.message(),
        "Parameter Store does not support changing a parameter type in a hierarchy. For example, you can't change a parameter from a String type to a SecureString type. You must create a new, unique parameter."
            .to_string()
    );
    assert_eq!(
        SSMError::PolicyConflict(PolicyIssue::Conflicting).message(),
        "There is a conflict in the policies specified for this parameter.".to_string()
    );
    assert_eq!(
        SSMError::PolicyConflict(PolicyIssue::AttributeInvalid).message(),
        "A policy attribute or its value is invalid.".to_string()
    );
    assert_eq!(
        SSMError::PolicyConflict(PolicyIssue::TypeUnsupported).message(),
        "The policy type is not supported. Parameter Store supports the following policy types: Expiration, ExpirationNotification, and NoChangeNotification."
            .to_string()
    );
    assert_eq!(
        SSMError::PolicyConflict(PolicyIssue::TooMany).message(),
        "You specified more than the maximum number of allowed policies for the parameter. The maximum is 10."
            .to_string()
    );
    assert_eq!(
        SSMError::PatternMismatch(PatternIssue::AllowedPattern).message(),
        "The request does not meet the regular expression requirement.".to_string()
    );
    assert_eq!(
        SSMError::ParameterLimitExceeded.message(),
        "You have exceeded the number of parameters for this AWS account. Delete one or more parameters and try again."
            .to_string()
    );
    assert_eq!(
        SSMError::PatternMismatch(PatternIssue::ParameterName).message(),
        "The parameter name is not valid.".to_string()
    );
    assert_eq!(
        SSMError::ParameterAlreadyExists("/dest".to_string()).message(),
        "The parameter '/dest' already exists. You can't create duplicate parameters. Set --overwrite if you want change the same parameter."
            .to_string()
    );
    assert_eq!(
        SSMError::VersionLimitExceeded.message(),
        "The parameter exceeded the maximum number of allowed versions.".to_string()
    );
    assert_eq!(
        SSMError::TooManyConcurrentUpdates.message(),
        "There are concurrent updates for a resource that supports one update at a time."
            .to_string()
    );
    assert_eq!(
        SSMError::UnsupportedType("Fancy".to_string()).message(),
        "The parameter type 'Fancy' is not supported.".to_string()
    );
    assert_eq!(
        SSMError::Transport("connection reset".to_string()).message(),
        "connection reset".to_string()
    );
    assert_eq!(SSMError::Unknown.message(), "Unknown Error.".to_string());
    assert_eq!(
        SSMError::NotAFile("conf.tpl".to_string()).message(),
        "Not a Valid File: conf.tpl".to_string()
    );
}

#[test]
fn join_names_separates_with_comma_and_space() {
    assert_eq!(join_names(&vec![]), "".to_string());
    assert_eq!(join_names(&vec!["a".to_string()]), "a".to_string());
    assert_eq!(
        join_names(&vec!["a".to_string(), "b".to_string(), "c".to_string()]),
        "a, b, c".to_string()
    );
}

#[test]
fn clone_fetches_origin_without_decryption() {
    let req = clone_fetch_request(&"/origin".to_string());
    assert_eq!(req.name, "/origin".to_string());
    assert_eq!(req.with_decryption, Some(false));
}

#[test]
fn clone_carries_value_and_type_to_destination() {
    let source = param("/origin", "secret-value");
    let dest = clone_destination(&source, &"/dest".to_string());
    assert_eq!(dest.name, Some("/dest".to_string()));
    assert_eq!(dest.p_type, Some("String".to_string()));
    assert_eq!(dest.value, Some("secret-value".to_string()));
    assert_eq!(dest.version, None);
    let put = build_put_request(&dest, true);
    assert_eq!(put.name, "/dest".to_string());
    assert_eq!(put.p_type, "String".to_string());
    assert_eq!(put.value, "secret-value".to_string());
    assert!(put.overwrite);
}

#[test]
fn clone_without_overwrite_hits_already_exists() {
    let source = param("/origin", "v");
    let dest = clone_destination(&source, &"/dest".to_string());
    let put = build_put_request(&dest, false);
    assert!(!put.overwrite);
    let e = classify_put_failure(
        &StoreCallError::Service(PutErrorKind::ParameterAlreadyExists),
        &put.name,
        &put.p_type,
    );
    assert_eq!(e, SSMError::ParameterAlreadyExists("/dest".to_string()));
    assert!(e.message().contains("/dest"));
}
