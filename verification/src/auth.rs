//! The form that Google's sign-in button posts back.
use vstd::prelude::*;

verus! {

/// The fields of the sign-in form: the ID token and the CSRF token.
#[derive(Clone, Debug)]
pub struct FormData {
    pub credential: String,
    pub g_csrf_token: String,
}

} // verus!
