//! The plugin and what all its operations have in common.
use vstd::prelude::*;

use crate::auth::AuthorizationFailure;
use crate::config::NotificationTemplateConfig;
use crate::failure;
use crate::failure::{DomainError, PluginError, RuntimeFailure, TemplateFailure};
use crate::store::Progress;

verus! {

/// The plugin: its configuration, and whether its storage is prepared.
#[derive(Clone, Debug)]
pub struct NotificationTemplatePlugin {
    pub config: NotificationTemplateConfig,
    pub prepared: bool,
}

/// The error for a caller who is not authorised.
pub open spec fn authorization_error(failure: AuthorizationFailure) -> PluginError {
    match failure {
        AuthorizationFailure::Unauthorized => PluginError::Domain(DomainError::Unauthorized),
        AuthorizationFailure::Runtime(failure) => PluginError::Runtime(failure),
    }
}

/// An operation that ends in a refusal.
pub open spec fn refused<C, T>(reason: TemplateFailure) -> Progress<C, T> {
    Progress::Done(Err(PluginError::Domain(failure::domain_error(reason))))
}

/// An operation that ends in a fault.
pub open spec fn failed<C, T>(reason: RuntimeFailure) -> Progress<C, T> {
    Progress::Done(Err(PluginError::Runtime(reason)))
}

/// The error for a caller who is not authorised.
pub fn unauthorized(failure: AuthorizationFailure) -> (res: PluginError)
    ensures
        res == authorization_error(failure),
{
    match failure {
        AuthorizationFailure::Unauthorized => PluginError::Domain(DomainError::Unauthorized),
        AuthorizationFailure::Runtime(failure) => PluginError::Runtime(failure),
    }
}

/// Ends an operation in a refusal.
pub fn refuse<C, T>(reason: TemplateFailure) -> (res: Progress<C, T>)
    ensures
        res == refused::<C, T>(reason),
{
    Progress::Done(failure::into_plugin(Ok(Err(reason))))
}

/// Ends an operation in a fault.
pub fn fail<C, T>(reason: RuntimeFailure) -> (res: Progress<C, T>)
    ensures
        res == failed::<C, T>(reason),
{
    Progress::Done(failure::into_plugin(Err(reason)))
}

/// Ends an operation in a reply.
pub fn reply<C, T>(value: T) -> (res: Progress<C, T>)
    ensures
        res == Progress::<C, T>::Done(Ok(value)),
{
    Progress::Done(failure::into_plugin(Ok(Ok(value))))
}

impl NotificationTemplatePlugin {
    /// Checks that the storage is prepared.
    pub fn require_prepared(&self) -> (res: Result<(), RuntimeFailure>)
        ensures
            self.prepared ==> res == Ok::<(), RuntimeFailure>(()),
            !self.prepared ==> res == Err::<(), RuntimeFailure>(RuntimeFailure::NotPrepared),
    {
        if self.prepared {
            Ok(())
        } else {
            Err(RuntimeFailure::NotPrepared)
        }
    }
}

} // verus!
