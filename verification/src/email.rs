use vstd::prelude::*;

use crate::errors::EmailError;

verus! {

/// A password-reset message to deliver.
#[derive(Debug, Clone)]
pub struct PasswordResetEmail {
    pub to: String,
    pub reset_url: String,
}

/// Stands in for an email provider when none is configured: every message
/// is accepted and dropped.
#[derive(Debug, Default, Clone, Copy)]
pub struct NoopEmailSender;

impl NoopEmailSender {
    /// Accepts the message without sending it.
    pub fn send_password_reset(&self, email: &PasswordResetEmail) -> (r: Result<(), EmailError>)
        ensures
            r is Ok,
    {
        Ok(())
    }
}

} // verus!
