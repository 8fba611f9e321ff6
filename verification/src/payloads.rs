//! Request payloads and their validation rules.
//!
//! Credential checks answer with deliberately generic, fixed messages; which
//! rule failed is decided field by field, email first, so the caller's answer
//! never depends on anything but the payload's own text.

use vstd::prelude::*;
use vstd::string::*;

verus! {

/// Whether validator accepts the text as an email address.
pub uninterp spec fn email_ok(s: Seq<char>) -> bool;

/// Relies on validator's `ValidateEmail::validate_email` for `&str` (the
/// HTML5 email grammar): the outcome depends on the address text alone.
#[verifier::external_body]
fn validate_email_str(s: &str) -> (r: bool)
    ensures
        r == email_ok(s@),
{
    validator::ValidateEmail::validate_email(&s)
}

/// Whether fast_chemail accepts the text as an email address.
pub uninterp spec fn email_parses(s: Seq<char>) -> bool;

/// Relies on fast_chemail's `is_valid_email` (an RFC 5322 subset): the
/// outcome depends on the address text alone.
#[verifier::external_body]
fn is_valid_email_str(s: &str) -> (r: bool)
    ensures
        r == email_parses(s@),
{
    fast_chemail::is_valid_email(s)
}

/// What a signup request carries: credentials and the bot-check token.
pub struct CreatePayload {
    pub email: String,
    pub password: String,
    pub clientstile: String,
}

impl CreatePayload {
    /// Accepts the payload exactly when the email passes the email grammar,
    /// the password has at least 12 characters, and the bot-check token at
    /// most 2048. The first failing rule, in that order, names the answer.
    pub fn check(&self) -> (r: Result<(), &'static str>)
        ensures
            r is Ok <==> (email_ok(self.email@) && self.password@.len() >= 12
                && self.clientstile@.len() <= 2048),
            !email_ok(self.email@) ==> (r matches Err(m) && m@ == "Invalid email."@),
            email_ok(self.email@) && self.password@.len() < 12 ==> (r matches Err(m) && m@
                == "Password must be longer than 12 characters."@),
            email_ok(self.email@) && self.password@.len() >= 12 && self.clientstile@.len() > 2048
                ==> (r matches Err(m) && m@
                == "Something went wrong, refresh the page and try again."@),
    {
        if !validate_email_str(self.email.as_str()) {
            return Err("Invalid email.");
        }
        if self.password.as_str().unicode_len() < 12 {
            return Err("Password must be longer than 12 characters.");
        }
        if self.clientstile.as_str().unicode_len() > 2048 {
            return Err("Something went wrong, refresh the page and try again.");
        }
        Ok(())
    }
}

/// What a login request carries.
pub struct LoginPayload {
    pub email: String,
    pub password: String,
}

impl LoginPayload {
    /// Accepts the payload exactly when the email passes the email grammar
    /// and the password has at least 12 characters; email is checked first.
    pub fn check(&self) -> (r: Result<(), &'static str>)
        ensures
            r is Ok <==> (email_ok(self.email@) && self.password@.len() >= 12),
            !email_ok(self.email@) ==> (r matches Err(m) && m@ == "Invalid email."@),
            email_ok(self.email@) && self.password@.len() < 12 ==> (r matches Err(m) && m@
                == "Password must be longer than 12 characters."@),
    {
        if !validate_email_str(self.email.as_str()) {
            return Err("Invalid email.");
        }
        if self.password.as_str().unicode_len() < 12 {
            return Err("Password must be longer than 12 characters.");
        }
        Ok(())
    }
}

/// What an email-verification request carries.
pub struct VerifyPayload {
    pub verify_code: String,
}

/// Accepts a credential pair exactly when the email parses and the password
/// has at least 8 characters; email is checked first.
pub fn credentials(email: &str, password: &str) -> (r: Result<(), &'static str>)
    ensures
        r is Ok <==> (email_parses(email@) && password@.len() >= 8),
        !email_parses(email@) ==> (r matches Err(m) && m@ == "Invalid email provided."@),
        email_parses(email@) && password@.len() < 8 ==> (r matches Err(m) && m@
            == "Password must be longer than 8 characters."@),
{
    if !is_valid_email_str(email) {
        return Err("Invalid email provided.");
    }
    if password.unicode_len() < 8 {
        return Err("Password must be longer than 8 characters.");
    }
    Ok(())
}

} // verus!
