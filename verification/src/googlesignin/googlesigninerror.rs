//! Errors met while fetching Google's certificates or checking a token.
use std::sync::Arc;
use vstd::prelude::*;

verus! {

/// The error type of `serde_json`, carried through opaquely.
#[verifier::external_type_specification]
#[verifier::external_body]
pub struct ExJsonError(serde_json::Error);

/// The error type of `jsonwebtoken`, carried through opaquely.
#[verifier::external_type_specification]
#[verifier::external_body]
pub struct ExJwtError(jsonwebtoken::errors::Error);

/// A network or validation error.
#[derive(Clone, Debug)]
pub enum GoogleSignInError {
    DecodeJson(Arc<serde_json::Error>),
    JSONWebToken(Arc<jsonwebtoken::errors::Error>),
    /// A network or I/O failure, held as the text that the failure displays.
    ConnectionError(String),
    InvalidKey,
    InvalidToken,
    InvalidIssuer,
    InvalidAudience,
    InvalidHostedDomain,
}

/// The short description of each kind of error.
pub open spec fn description_of(e: GoogleSignInError) -> Seq<char> {
    match e {
        GoogleSignInError::DecodeJson(_) => "json decoding err"@,
        GoogleSignInError::ConnectionError(_) => "connection error"@,
        GoogleSignInError::JSONWebToken(_) => "JWT error"@,
        GoogleSignInError::InvalidKey => "invalid key"@,
        GoogleSignInError::InvalidToken => "invalid token"@,
        GoogleSignInError::InvalidIssuer => "invalid issuer"@,
        GoogleSignInError::InvalidAudience => "invalid audience"@,
        GoogleSignInError::InvalidHostedDomain => "invalid hosted domain"@,
    }
}

/// The message that an error without an inner error displays.
pub open spec fn fixed_message_of(e: GoogleSignInError) -> Option<Seq<char>> {
    match e {
        GoogleSignInError::InvalidKey => Some("Token does not match any known key"@),
        GoogleSignInError::InvalidToken => Some("Token was not recognized by google"@),
        GoogleSignInError::InvalidIssuer => Some("Token was not issued by google"@),
        GoogleSignInError::InvalidAudience => Some("Token is for a different google application"@),
        GoogleSignInError::InvalidHostedDomain => Some("User is not a member of the hosted domain(s)"@),
        GoogleSignInError::ConnectionError(text) => Some(text@),
        _ => None,
    }
}

/// Displays a `serde_json::Error` (its `Display` impl).
#[verifier::external_body]
fn json_error_text(err: &serde_json::Error) -> String {
    err.to_string()
}

/// Displays a `jsonwebtoken::errors::Error` (its `Display` impl).
#[verifier::external_body]
fn jwt_error_text(err: &jsonwebtoken::errors::Error) -> String {
    err.to_string()
}

impl GoogleSignInError {
    /// A short description of the kind of error.
    pub fn description(&self) -> (r: &'static str)
        ensures
            r@ == description_of(*self),
    {
        match self {
            GoogleSignInError::DecodeJson(_) => "json decoding err",
            GoogleSignInError::ConnectionError(_) => "connection error",
            GoogleSignInError::JSONWebToken(_) => "JWT error",
            GoogleSignInError::InvalidKey => "invalid key",
            GoogleSignInError::InvalidToken => "invalid token",
            GoogleSignInError::InvalidIssuer => "invalid issuer",
            GoogleSignInError::InvalidAudience => "invalid audience",
            GoogleSignInError::InvalidHostedDomain => "invalid hosted domain",
        }
    }

    /// The text that the error displays: the inner error's own text for the
    /// variants that carry one, else a fixed sentence.
    pub fn message(&self) -> (r: String)
        ensures
            fixed_message_of(*self) matches Some(m) ==> r@ == m,
    {
        match self {
            GoogleSignInError::DecodeJson(err) => json_error_text(&**err),
            GoogleSignInError::ConnectionError(text) => text.clone(),
            GoogleSignInError::JSONWebToken(err) => jwt_error_text(&**err),
            GoogleSignInError::InvalidKey => String::from_str("Token does not match any known key"),
            GoogleSignInError::InvalidToken => String::from_str("Token was not recognized by google"),
            GoogleSignInError::InvalidIssuer => String::from_str("Token was not issued by google"),
            GoogleSignInError::InvalidAudience => String::from_str(
                "Token is for a different google application",
            ),
            GoogleSignInError::InvalidHostedDomain => String::from_str(
                "User is not a member of the hosted domain(s)",
            ),
        }
    }
}


impl From<serde_json::Error> for GoogleSignInError {
    fn from(err: serde_json::Error) -> (r: GoogleSignInError) {
        GoogleSignInError::DecodeJson(Arc::new(err))
    }
}

impl vstd::std_specs::convert::FromSpecImpl<serde_json::Error> for GoogleSignInError {
    open spec fn obeys_from_spec() -> bool {
        true
    }

    open spec fn from_spec(v: serde_json::Error) -> GoogleSignInError {
        GoogleSignInError::DecodeJson(Arc::new(v))
    }
}

impl From<jsonwebtoken::errors::Error> for GoogleSignInError {
    fn from(err: jsonwebtoken::errors::Error) -> (r: GoogleSignInError) {
        GoogleSignInError::JSONWebToken(Arc::new(err))
    }
}

impl vstd::std_specs::convert::FromSpecImpl<jsonwebtoken::errors::Error> for GoogleSignInError {
    open spec fn obeys_from_spec() -> bool {
        true
    }

    open spec fn from_spec(v: jsonwebtoken::errors::Error) -> GoogleSignInError {
        GoogleSignInError::JSONWebToken(Arc::new(v))
    }
}
} // verus!
