//! The error taxonomy: every failure the remote store can report is mapped
//! onto a closed set of causes, each with a stable, operator-readable
//! message. The classifiers are total, so no store failure silently becomes
//! an unhelpful generic message, and nothing here is ever retried.

use vstd::prelude::*;
use vstd::string::*;

verus! {

/// The service-level failures a single-parameter fetch can report.
#[derive(Clone, Copy, Debug, PartialEq, Eq)]
pub enum GetErrorKind {
    InternalServerError,
    InvalidKeyId,
    ParameterNotFound,
    ParameterVersionNotFound,
}

/// The service-level failures a single-parameter put can report.
#[derive(Clone, Copy, Debug, PartialEq, Eq)]
pub enum PutErrorKind {
    InternalServerError,
    InvalidKeyId,
    HierarchyLevelLimitExceeded,
    HierarchyTypeMismatch,
    IncompatiblePolicy,
    InvalidAllowedPattern,
    InvalidPolicyAttribute,
    InvalidPolicyType,
    ParameterAlreadyExists,
    ParameterLimitExceeded,
    ParameterMaxVersionLimitExceeded,
    ParameterPatternMismatch,
    PoliciesLimitExceeded,
    TooManyUpdates,
    UnsupportedParameterType,
}

/// How one store call failed: a service-level error of kind `K`, a failure
/// below the application layer (credentials, connectivity, validation or
/// parsing, whose message is passed through verbatim), or something the
/// transport could not name.
#[derive(Debug, PartialEq)]
pub enum StoreCallError<K> {
    Service(K),
    Transport(String),
    Unknown,
}

/// Which policy constraint a put violated.
#[derive(Clone, Copy, Debug, PartialEq, Eq)]
pub enum PolicyIssue {
    Conflicting,
    AttributeInvalid,
    TypeUnsupported,
    TooMany,
}

/// Which pattern requirement a put violated.
#[derive(Clone, Copy, Debug, PartialEq, Eq)]
pub enum PatternIssue {
    ParameterName,
    AllowedPattern,
}

/// The closed set of causes surfaced to the caller. Every component
/// returns the first of these it encounters and abandons the rest of the
/// call's work.
#[derive(Debug, PartialEq)]
pub enum SSMError {
    /// The template input path does not reference a regular file.
    NotAFile(String),
    /// The template failed to parse.
    TemplateUnavailable,
    /// The named parameters do not exist in the store, and no valid result
    /// remains to substitute for them.
    InvalidParameters(Vec<String>),
    StoreInternal,
    InvalidKeyId,
    ParameterNotFound(String),
    ParameterVersionNotFound,
    HierarchyLimitExceeded,
    HierarchyTypeMismatch,
    PolicyConflict(PolicyIssue),
    PatternMismatch(PatternIssue),
    ParameterAlreadyExists(String),
    ParameterLimitExceeded,
    VersionLimitExceeded,
    TooManyConcurrentUpdates,
    UnsupportedType(String),
    /// A credential, connectivity, validation or parse failure below the
    /// application layer; the message is passed through verbatim.
    Transport(String),
    /// A store failure the transport could not classify.
    Unknown,
}

/// What a get failure classifies to: the error for `name`.
pub open spec fn classified_get_error(k: GetErrorKind, name: String) -> SSMError {
    match k {
        GetErrorKind::InternalServerError => SSMError::StoreInternal,
        GetErrorKind::InvalidKeyId => SSMError::InvalidKeyId,
        GetErrorKind::ParameterNotFound => SSMError::ParameterNotFound(name),
        GetErrorKind::ParameterVersionNotFound => SSMError::ParameterVersionNotFound,
    }
}

/// What a put failure classifies to: the error for the parameter `name`
/// of type `p_type`.
pub open spec fn classified_put_error(k: PutErrorKind, name: String, p_type: String) -> SSMError {
    match k {
        PutErrorKind::InternalServerError => SSMError::StoreInternal,
        PutErrorKind::InvalidKeyId => SSMError::InvalidKeyId,
        PutErrorKind::HierarchyLevelLimitExceeded => SSMError::HierarchyLimitExceeded,
        PutErrorKind::HierarchyTypeMismatch => SSMError::HierarchyTypeMismatch,
        PutErrorKind::IncompatiblePolicy => SSMError::PolicyConflict(PolicyIssue::Conflicting),
        PutErrorKind::InvalidAllowedPattern => SSMError::PatternMismatch(
            PatternIssue::AllowedPattern,
        ),
        PutErrorKind::InvalidPolicyAttribute => SSMError::PolicyConflict(
            PolicyIssue::AttributeInvalid,
        ),
        PutErrorKind::InvalidPolicyType => SSMError::PolicyConflict(PolicyIssue::TypeUnsupported),
        PutErrorKind::ParameterAlreadyExists => SSMError::ParameterAlreadyExists(name),
        PutErrorKind::ParameterLimitExceeded => SSMError::ParameterLimitExceeded,
        PutErrorKind::ParameterMaxVersionLimitExceeded => SSMError::VersionLimitExceeded,
        PutErrorKind::ParameterPatternMismatch => SSMError::PatternMismatch(
            PatternIssue::ParameterName,
        ),
        PutErrorKind::PoliciesLimitExceeded => SSMError::PolicyConflict(PolicyIssue::TooMany),
        PutErrorKind::TooManyUpdates => SSMError::TooManyConcurrentUpdates,
        PutErrorKind::UnsupportedParameterType => SSMError::UnsupportedType(p_type),
    }
}

/// Classify the failure of a single-parameter fetch of `name` into the
/// taxonomy. Total: every possible failure is mapped.
pub fn classify_get_failure(failure: &StoreCallError<GetErrorKind>, name: &String) -> (r: SSMError)
    ensures
        match failure {
            StoreCallError::Service(k) => r == classified_get_error(*k, *name),
            StoreCallError::Transport(m) => r == SSMError::Transport(*m),
            StoreCallError::Unknown => r == SSMError::Unknown,
        },
{
    match failure {
        StoreCallError::Service(k) => match k {
            GetErrorKind::InternalServerError => SSMError::StoreInternal,
            GetErrorKind::InvalidKeyId => SSMError::InvalidKeyId,
            GetErrorKind::ParameterNotFound => SSMError::ParameterNotFound(name.clone()),
            GetErrorKind::ParameterVersionNotFound => SSMError::ParameterVersionNotFound,
        },
        StoreCallError::Transport(m) => SSMError::Transport(m.clone()),
        StoreCallError::Unknown => SSMError::Unknown,
    }
}

/// Classify the failure of a put of the parameter `name`, of type
/// `p_type`, into the taxonomy. Total: every possible failure is mapped.
pub fn classify_put_failure(
    failure: &StoreCallError<PutErrorKind>,
    name: &String,
    p_type: &String,
) -> (r: SSMError)
    ensures
        match failure {
            StoreCallError::Service(k) => r == classified_put_error(*k, *name, *p_type),
            StoreCallError::Transport(m) => r == SSMError::Transport(*m),
            StoreCallError::Unknown => r == SSMError::Unknown,
        },
{
    match failure {
        StoreCallError::Service(k) => match k {
            PutErrorKind::InternalServerError => SSMError::StoreInternal,
            PutErrorKind::InvalidKeyId => SSMError::InvalidKeyId,
            PutErrorKind::HierarchyLevelLimitExceeded => SSMError::HierarchyLimitExceeded,
            PutErrorKind::HierarchyTypeMismatch => SSMError::HierarchyTypeMismatch,
            PutErrorKind::IncompatiblePolicy => SSMError::PolicyConflict(PolicyIssue::Conflicting),
            PutErrorKind::InvalidAllowedPattern => SSMError::PatternMismatch(
                PatternIssue::AllowedPattern,
            ),
            PutErrorKind::InvalidPolicyAttribute => SSMError::PolicyConflict(
                PolicyIssue::AttributeInvalid,
            ),
            PutErrorKind::InvalidPolicyType => SSMError::PolicyConflict(
                PolicyIssue::TypeUnsupported,
            ),
            PutErrorKind::ParameterAlreadyExists => SSMError::ParameterAlreadyExists(name.clone()),
            PutErrorKind::ParameterLimitExceeded => SSMError::ParameterLimitExceeded,
            PutErrorKind::ParameterMaxVersionLimitExceeded => SSMError::VersionLimitExceeded,
            PutErrorKind::ParameterPatternMismatch => SSMError::PatternMismatch(
                PatternIssue::ParameterName,
            ),
            PutErrorKind::PoliciesLimitExceeded => SSMError::PolicyConflict(PolicyIssue::TooMany),
            PutErrorKind::TooManyUpdates => SSMError::TooManyConcurrentUpdates,
            PutErrorKind::UnsupportedParameterType => SSMError::UnsupportedType(p_type.clone()),
        },
        StoreCallError::Transport(m) => SSMError::Transport(m.clone()),
        StoreCallError::Unknown => SSMError::Unknown,
    }
}

/// The names joined by a comma and a space, in order.
pub open spec fn joined_names(names: Seq<Seq<char>>) -> Seq<char>
    decreases names.len(),
{
    if names.len() == 0 {
        Seq::empty()
    } else if names.len() == 1 {
        names[0]
    } else {
        names[0] + ", "@ + joined_names(names.drop_first())
    }
}

/// Join `names` from position `i` on with a comma and a space between
/// neighbours.
fn join_names_from(names: &Vec<String>, i: usize) -> (r: String)
    requires
        i <= names@.len(),
    ensures
        r@ == joined_names(names.deep_view().skip(i as int)),
    decreases names@.len() - i,
{
    if i >= names.len() {
        let r = String::new();
        assert(names.deep_view().skip(i as int) =~= Seq::<Seq<char>>::empty());
        r
    } else if i == names.len() - 1 {
        let r = names[i].clone();
        assert(names.deep_view().skip(i as int) =~= seq![names.deep_view()[i as int]]);
        r
    } else {
        let mut r = names[i].clone();
        r.append(", ");
        let rest = join_names_from(names, i + 1);
        r.append(rest.as_str());
        assert(names.deep_view().skip(i as int).drop_first() =~= names.deep_view().skip(
            i as int + 1,
        ));
        assert(names.deep_view().skip(i as int)[0] == names.deep_view()[i as int]);
        r
    }
}

/// The names joined by `", "`, in order: the form the invalid-name list
/// takes inside an error message.
pub fn join_names(names: &Vec<String>) -> (r: String)
    ensures
        r@ == joined_names(names.deep_view()),
{
    let r = join_names_from(names, 0);
    assert(names.deep_view().skip(0) =~= names.deep_view());
    r
}

/// The operator-readable message of each cause.
pub open spec fn error_message(e: SSMError) -> Seq<char> {
    match e {
        SSMError::NotAFile(path) => "Not a Valid File: "@ + path@,
        SSMError::TemplateUnavailable => "Template Unavailable"@,
        SSMError::InvalidParameters(names) => "Invalid Parameters: "@ + joined_names(
            names.deep_view(),
        ),
        SSMError::StoreInternal => "An error occurred on the server side."@,
        SSMError::InvalidKeyId => "The query key ID is not valid."@,
        SSMError::ParameterNotFound(name) => "The parameter '"@ + name@
            + "' could not be found. Verify the name and try again."@,
        SSMError::ParameterVersionNotFound =>
            "The specified parameter version was not found. Verify the parameter name and version, and try again."@,
        SSMError::HierarchyLimitExceeded => "A hierarchy can have a maximum of 15 levels."@,
        SSMError::HierarchyTypeMismatch =>
            "Parameter Store does not support changing a parameter type in a hierarchy. For example, you can't change a parameter from a String type to a SecureString type. You must create a new, unique parameter."@,
        SSMError::PolicyConflict(PolicyIssue::Conflicting) =>
            "There is a conflict in the policies specified for this parameter."@,
        SSMError::PolicyConflict(PolicyIssue::AttributeInvalid) =>
            "A policy attribute or its value is invalid."@,
        SSMError::PolicyConflict(PolicyIssue::TypeUnsupported) =>
            "The policy type is not supported. Parameter Store supports the following policy types: Expiration, ExpirationNotification, and NoChangeNotification."@,
        SSMError::PolicyConflict(PolicyIssue::TooMany) =>
            "You specified more than the maximum number of allowed policies for the parameter. The maximum is 10."@,
        SSMError::PatternMismatch(PatternIssue::ParameterName) =>
            "The parameter name is not valid."@,
        SSMError::PatternMismatch(PatternIssue::AllowedPattern) =>
            "The request does not meet the regular expression requirement."@,
        SSMError::ParameterAlreadyExists(name) => "The parameter '"@ + name@
            + "' already exists. You can't create duplicate parameters. Set --overwrite if you want change the same parameter."@,
        SSMError::ParameterLimitExceeded =>
            "You have exceeded the number of parameters for this AWS account. Delete one or more parameters and try again."@,
        SSMError::VersionLimitExceeded =>
            "The parameter exceeded the maximum number of allowed versions."@,
        SSMError::TooManyConcurrentUpdates =>
            "There are concurrent updates for a resource that supports one update at a time."@,
        SSMError::UnsupportedType(p_type) => "The parameter type '"@ + p_type@
            + "' is not supported."@,
        SSMError::Transport(m) => m@,
        SSMError::Unknown => "Unknown Error."@,
    }
}

impl SSMError {
    /// The operator-readable message of this cause, exactly as
    /// `error_message` states it.
    pub fn message(&self) -> (r: String)
        ensures
            r@ == error_message(*self),
    {
        match self {
            SSMError::NotAFile(path) => {
                let mut m = String::from_str("Not a Valid File: ");
                m.append(path.as_str());
                m
            },
            SSMError::TemplateUnavailable => String::from_str("Template Unavailable"),
            SSMError::InvalidParameters(names) => {
                let mut m = String::from_str("Invalid Parameters: ");
                let joined = join_names(names);
                m.append(joined.as_str());
                m
            },
            SSMError::StoreInternal => String::from_str("An error occurred on the server side."),
            SSMError::InvalidKeyId => String::from_str("The query key ID is not valid."),
            SSMError::ParameterNotFound(name) => {
                let mut m = String::from_str("The parameter '");
                m.append(name.as_str());
                m.append("' could not be found. Verify the name and try again.");
                m
            },
            SSMError::ParameterVersionNotFound => String::from_str(
                "The specified parameter version was not found. Verify the parameter name and version, and try again.",
            ),
            SSMError::HierarchyLimitExceeded => String::from_str(
                "A hierarchy can have a maximum of 15 levels.",
            ),
            SSMError::HierarchyTypeMismatch => String::from_str(
                "Parameter Store does not support changing a parameter type in a hierarchy. For example, you can't change a parameter from a String type to a SecureString type. You must create a new, unique parameter.",
            ),
            SSMError::PolicyConflict(PolicyIssue::Conflicting) => String::from_str(
                "There is a conflict in the policies specified for this parameter.",
            ),
            SSMError::PolicyConflict(PolicyIssue::AttributeInvalid) => String::from_str(
                "A policy attribute or its value is invalid.",
            ),
            SSMError::PolicyConflict(PolicyIssue::TypeUnsupported) => String::from_str(
                "The policy type is not supported. Parameter Store supports the following policy types: Expiration, ExpirationNotification, and NoChangeNotification.",
            ),
            SSMError::PolicyConflict(PolicyIssue::TooMany) => String::from_str(
                "You specified more than the maximum number of allowed policies for the parameter. The maximum is 10.",
            ),
            SSMError::PatternMismatch(PatternIssue::ParameterName) => String::from_str(
                "The parameter name is not valid.",
            ),
            SSMError::PatternMismatch(PatternIssue::AllowedPattern) => String::from_str(
                "The request does not meet the regular expression requirement.",
            ),
            SSMError::ParameterAlreadyExists(name) => {
                let mut m = String::from_str("The parameter '");
                m.append(name.as_str());
                m.append(
                    "' already exists. You can't create duplicate parameters. Set --overwrite if you want change the same parameter.",
                );
                m
            },
            SSMError::ParameterLimitExceeded => String::from_str(
                "You have exceeded the number of parameters for this AWS account. Delete one or more parameters and try again.",
            ),
            SSMError::VersionLimitExceeded => String::from_str(
                "The parameter exceeded the maximum number of allowed versions.",
            ),
            SSMError::TooManyConcurrentUpdates => String::from_str(
                "There are concurrent updates for a resource that supports one update at a time.",
            ),
            SSMError::UnsupportedType(p_type) => {
                let mut m = String::from_str("The parameter type '");
                m.append(p_type.as_str());
                m.append("' is not supported.");
                m
            },
            SSMError::Transport(m) => m.clone(),
            SSMError::Unknown => String::from_str("Unknown Error."),
        }
    }
}

} // verus!
