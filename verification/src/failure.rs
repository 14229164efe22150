//! The ways in which an operation does not succeed.
use vstd::prelude::*;

use crate::config::NotificationTemplateConfigError;
use crate::syntax::RenderFailure;

verus! {

/// A fault of the configuration, the storage or the library's own data.
#[derive(Clone, Copy, Debug, PartialEq, Eq, Structural)]
pub enum RuntimeFailure {
    InvalidConfiguration(NotificationTemplateConfigError),
    InvalidVerificationKey,
    NotPrepared,
    SecretRejected,
    PreparationFailed,
    Database,
    Representation,
    InvalidStoredDefinition,
    InvalidStoredMetadata,
    RevisionExhausted,
    ReceiptOwnershipLost,
    InvalidTimestamp,
}

/// The class of a [`RuntimeFailure`].
#[derive(Clone, Copy, Debug, PartialEq, Eq, Structural)]
pub enum FailureClass {
    InvalidResolvedPlan,
    PluginFailure,
    Internal,
}

impl RuntimeFailure {
    /// The class of a failure.
    pub open spec fn class_of(self) -> FailureClass {
        match self {
            RuntimeFailure::InvalidConfiguration(_)
            | RuntimeFailure::InvalidVerificationKey => FailureClass::InvalidResolvedPlan,
            RuntimeFailure::NotPrepared
            | RuntimeFailure::SecretRejected
            | RuntimeFailure::PreparationFailed
            | RuntimeFailure::Database => FailureClass::PluginFailure,
            RuntimeFailure::Representation
            | RuntimeFailure::InvalidStoredDefinition
            | RuntimeFailure::InvalidStoredMetadata
            | RuntimeFailure::RevisionExhausted
            | RuntimeFailure::ReceiptOwnershipLost
            | RuntimeFailure::InvalidTimestamp => FailureClass::Internal,
        }
    }

    /// A failure in words.
    pub open spec fn detail_text(self) -> Seq<char> {
        match self {
            RuntimeFailure::InvalidConfiguration(error) => error.message_text(),
            RuntimeFailure::InvalidVerificationKey =>
                "Notification Template Auth assertion verification key is invalid"@,
            RuntimeFailure::NotPrepared => "Notification Template Plugin is not prepared"@,
            RuntimeFailure::SecretRejected => "Notification Template database Secret was rejected"@,
            RuntimeFailure::PreparationFailed =>
                "Notification Template PostgreSQL preparation failed"@,
            RuntimeFailure::Database => "Notification Template PostgreSQL operation failed"@,
            RuntimeFailure::Representation =>
                "Notification Template portable representation failed"@,
            RuntimeFailure::InvalidStoredDefinition =>
                "stored Notification Template definition is invalid"@,
            RuntimeFailure::InvalidStoredMetadata =>
                "stored Notification Template metadata is invalid"@,
            RuntimeFailure::RevisionExhausted => "Notification Template head revision exhausted"@,
            RuntimeFailure::ReceiptOwnershipLost =>
                "Notification Template command receipt completion lost ownership"@,
            RuntimeFailure::InvalidTimestamp =>
                "Notification Template PostgreSQL timestamp is not RFC 3339"@,
        }
    }

    /// The class of a failure.
    pub fn class(&self) -> (res: FailureClass)
        ensures
            res == self.class_of(),
    {
        match self {
            RuntimeFailure::InvalidConfiguration(_)
            | RuntimeFailure::InvalidVerificationKey => FailureClass::InvalidResolvedPlan,
            RuntimeFailure::NotPrepared
            | RuntimeFailure::SecretRejected
            | RuntimeFailure::PreparationFailed
            | RuntimeFailure::Database => FailureClass::PluginFailure,
            RuntimeFailure::Representation
            | RuntimeFailure::InvalidStoredDefinition
            | RuntimeFailure::InvalidStoredMetadata
            | RuntimeFailure::RevisionExhausted
            | RuntimeFailure::ReceiptOwnershipLost
            | RuntimeFailure::InvalidTimestamp => FailureClass::Internal,
        }
    }

    /// A failure in words.
    pub fn detail(&self) -> (res: String)
        ensures
            res@ == self.detail_text(),
    {
        match self {
            RuntimeFailure::InvalidConfiguration(error) => error.message(),
            RuntimeFailure::InvalidVerificationKey =>
                "Notification Template Auth assertion verification key is invalid".to_owned(),
            RuntimeFailure::NotPrepared =>
                "Notification Template Plugin is not prepared".to_owned(),
            RuntimeFailure::SecretRejected =>
                "Notification Template database Secret was rejected".to_owned(),
            RuntimeFailure::PreparationFailed =>
                "Notification Template PostgreSQL preparation failed".to_owned(),
            RuntimeFailure::Database =>
                "Notification Template PostgreSQL operation failed".to_owned(),
            RuntimeFailure::Representation =>
                "Notification Template portable representation failed".to_owned(),
            RuntimeFailure::InvalidStoredDefinition =>
                "stored Notification Template definition is invalid".to_owned(),
            RuntimeFailure::InvalidStoredMetadata =>
                "stored Notification Template metadata is invalid".to_owned(),
            RuntimeFailure::RevisionExhausted =>
                "Notification Template head revision exhausted".to_owned(),
            RuntimeFailure::ReceiptOwnershipLost =>
                "Notification Template command receipt completion lost ownership".to_owned(),
            RuntimeFailure::InvalidTimestamp =>
                "Notification Template PostgreSQL timestamp is not RFC 3339".to_owned(),
        }
    }
}

/// Why an authorised request is refused.
#[derive(Clone, Copy, Debug, PartialEq, Eq, Structural)]
pub enum TemplateFailure {
    InvalidRequest,
    NotFound,
    Conflict,
    PreconditionFailed,
    IdempotencyConflict,
    MissingVariable,
    UnexpectedVariable,
    UnsafeVariable,
}

/// What a refused caller is answered.
#[derive(Clone, Copy, Debug, PartialEq, Eq, Structural)]
pub enum DomainError {
    Unauthorized,
    InvalidRequest,
    NotFound,
    Conflict,
    PreconditionFailed,
    IdempotencyConflict,
    MissingVariable,
    UnexpectedVariable,
    UnsafeVariable,
}

/// The error of an operation.
#[derive(Clone, Copy, Debug, PartialEq, Eq, Structural)]
pub enum PluginError {
    Domain(DomainError),
    Runtime(RuntimeFailure),
}

/// What an authorised operation comes to: a reply, a refusal or a fault.
pub type TemplateResult<T> = Result<Result<T, TemplateFailure>, RuntimeFailure>;

/// The answer for a refusal.
pub open spec fn domain_error(failure: TemplateFailure) -> DomainError {
    match failure {
        TemplateFailure::InvalidRequest => DomainError::InvalidRequest,
        TemplateFailure::NotFound => DomainError::NotFound,
        TemplateFailure::Conflict => DomainError::Conflict,
        TemplateFailure::PreconditionFailed => DomainError::PreconditionFailed,
        TemplateFailure::IdempotencyConflict => DomainError::IdempotencyConflict,
        TemplateFailure::MissingVariable => DomainError::MissingVariable,
        TemplateFailure::UnexpectedVariable => DomainError::UnexpectedVariable,
        TemplateFailure::UnsafeVariable => DomainError::UnsafeVariable,
    }
}

/// The refusal for variables that a message cannot be rendered with.
pub open spec fn render_refusal(failure: RenderFailure) -> TemplateFailure {
    match failure {
        RenderFailure::InvalidTemplate => TemplateFailure::InvalidRequest,
        RenderFailure::MissingVariable => TemplateFailure::MissingVariable,
        RenderFailure::UnexpectedVariable => TemplateFailure::UnexpectedVariable,
        RenderFailure::UnsafeVariable => TemplateFailure::UnsafeVariable,
    }
}

/// The answer for a refusal.
pub fn map_error(failure: TemplateFailure) -> (res: DomainError)
    ensures
        res == domain_error(failure),
{
    match failure {
        TemplateFailure::InvalidRequest => DomainError::InvalidRequest,
        TemplateFailure::NotFound => DomainError::NotFound,
        TemplateFailure::Conflict => DomainError::Conflict,
        TemplateFailure::PreconditionFailed => DomainError::PreconditionFailed,
        TemplateFailure::IdempotencyConflict => DomainError::IdempotencyConflict,
        TemplateFailure::MissingVariable => DomainError::MissingVariable,
        TemplateFailure::UnexpectedVariable => DomainError::UnexpectedVariable,
        TemplateFailure::UnsafeVariable => DomainError::UnsafeVariable,
    }
}

/// The refusal for variables that a message cannot be rendered with.
pub fn map_render_failure(failure: RenderFailure) -> (res: TemplateFailure)
    ensures
        res == render_refusal(failure),
{
    match failure {
        RenderFailure::InvalidTemplate => TemplateFailure::InvalidRequest,
        RenderFailure::MissingVariable => TemplateFailure::MissingVariable,
        RenderFailure::UnexpectedVariable => TemplateFailure::UnexpectedVariable,
        RenderFailure::UnsafeVariable => TemplateFailure::UnsafeVariable,
    }
}

/// What the caller gets of an authorised operation's result.
pub open spec fn plugin_result<T>(result: TemplateResult<T>) -> Result<T, PluginError> {
    match result {
        Ok(Ok(value)) => Ok(value),
        Ok(Err(failure)) => Err(PluginError::Domain(domain_error(failure))),
        Err(failure) => Err(PluginError::Runtime(failure)),
    }
}

/// What the caller gets of an authorised operation's result.
pub fn into_plugin<T>(result: TemplateResult<T>) -> (res: Result<T, PluginError>)
    ensures
        res == plugin_result(result),
{
    match result {
        Ok(Ok(value)) => Ok(value),
        Ok(Err(failure)) => Err(PluginError::Domain(map_error(failure))),
        Err(failure) => Err(PluginError::Runtime(failure)),
    }
}

/// Different refusals are answered differently, and none as unauthorised.
pub proof fn law_refusals_are_told_apart(a: TemplateFailure, b: TemplateFailure)
    ensures
        domain_error(a) == domain_error(b) ==> a == b,
        domain_error(a) != DomainError::Unauthorized,
{
}

/// Every refusal is answered under its own name, and every fault as it is.
pub proof fn law_refusals_keep_their_names<T>(value: T, reason: RuntimeFailure)
    ensures
        plugin_result(Ok::<Result<T, TemplateFailure>, RuntimeFailure>(Ok(value))) == Ok::<
            T,
            PluginError,
        >(value),
        plugin_result(Err::<Result<T, TemplateFailure>, RuntimeFailure>(reason)) == Err::<
            T,
            PluginError,
        >(PluginError::Runtime(reason)),
        domain_error(TemplateFailure::InvalidRequest) is InvalidRequest,
        domain_error(TemplateFailure::NotFound) is NotFound,
        domain_error(TemplateFailure::Conflict) is Conflict,
        domain_error(TemplateFailure::PreconditionFailed) is PreconditionFailed,
        domain_error(TemplateFailure::IdempotencyConflict) is IdempotencyConflict,
        domain_error(TemplateFailure::MissingVariable) is MissingVariable,
        domain_error(TemplateFailure::UnexpectedVariable) is UnexpectedVariable,
        domain_error(TemplateFailure::UnsafeVariable) is UnsafeVariable,
        render_refusal(RenderFailure::InvalidTemplate) is InvalidRequest,
        render_refusal(RenderFailure::MissingVariable) is MissingVariable,
        render_refusal(RenderFailure::UnexpectedVariable) is UnexpectedVariable,
        render_refusal(RenderFailure::UnsafeVariable) is UnsafeVariable,
{
}

/// A refusal reaches the caller as the answer for it.
pub proof fn law_refusals_reach_the_caller<T>(refusal: TemplateFailure)
    ensures
        plugin_result(Ok::<Result<T, TemplateFailure>, RuntimeFailure>(Err(refusal))) == Err::<
            T,
            PluginError,
        >(PluginError::Domain(domain_error(refusal))),
{
}

/// A fault of the configuration is one of the plan, one of the storage or its secret is one of the
/// plugin, and every other is an internal one.
pub proof fn law_faults_are_classed(reason: RuntimeFailure)
    ensures
        reason.class_of() is InvalidResolvedPlan <==> reason is InvalidConfiguration
            || reason is InvalidVerificationKey,
        reason.class_of() is PluginFailure <==> reason is NotPrepared || reason is SecretRejected
            || reason is PreparationFailed || reason is Database,
{
}

/// Every fault in its words.
pub proof fn law_faults_in_words(error: NotificationTemplateConfigError)
    ensures
        RuntimeFailure::InvalidConfiguration(error).detail_text() == error.message_text(),
        RuntimeFailure::InvalidVerificationKey.detail_text()
            == "Notification Template Auth assertion verification key is invalid"@,
        RuntimeFailure::NotPrepared.detail_text()
            == "Notification Template Plugin is not prepared"@,
        RuntimeFailure::SecretRejected.detail_text()
            == "Notification Template database Secret was rejected"@,
        RuntimeFailure::PreparationFailed.detail_text()
            == "Notification Template PostgreSQL preparation failed"@,
        RuntimeFailure::Database.detail_text()
            == "Notification Template PostgreSQL operation failed"@,
        RuntimeFailure::Representation.detail_text()
            == "Notification Template portable representation failed"@,
        RuntimeFailure::InvalidStoredDefinition.detail_text()
            == "stored Notification Template definition is invalid"@,
        RuntimeFailure::InvalidStoredMetadata.detail_text()
            == "stored Notification Template metadata is invalid"@,
        RuntimeFailure::RevisionExhausted.detail_text()
            == "Notification Template head revision exhausted"@,
        RuntimeFailure::ReceiptOwnershipLost.detail_text()
            == "Notification Template command receipt completion lost ownership"@,
        RuntimeFailure::InvalidTimestamp.detail_text()
            == "Notification Template PostgreSQL timestamp is not RFC 3339"@,
{
}

} // verus!
