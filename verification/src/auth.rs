//! Identity verification around a delegated identity provider: bearer-token
//! extraction from the authorization header, and the classification of the
//! provider's introspection response into a principal or an error.

use vstd::prelude::*;
use vstd::string::StringExecFns;

use crate::error::ApiError;
use crate::gateway::{append_u16_chars, dec_chars};

verus! {

/// A verified caller: the identity provider's opaque subject id.
pub struct AuthenticatedUser {
    pub user_id: String,
}

/// The scheme prefix of a bearer authorization header: `Bearer `.
pub open spec fn bearer_prefix() -> Seq<u8> {
    seq![66u8, 101u8, 97u8, 114u8, 101u8, 114u8, 32u8]
}

/// The token of an authorization header value: what follows the `Bearer `
/// prefix, or nothing when the prefix is absent.
pub open spec fn spec_bearer_token(h: Seq<u8>) -> Option<Seq<u8>> {
    if h.len() >= 7 && h.take(7) == bearer_prefix() {
        Some(h.skip(7))
    } else {
        None
    }
}

/// Extract the bearer token from an authorization header value; a header not
/// of the form `Bearer <token>` carries no credential.
pub fn extract_bearer_token(header: &[u8]) -> (r: Option<Vec<u8>>)
    ensures
        r is Some <==> spec_bearer_token(header@) is Some,
        r is Some ==> r.unwrap()@ == spec_bearer_token(header@).unwrap(),
{
    if header.len() < 7 {
        proof {
            assert(spec_bearer_token(header@) is None);
        }
        return None;
    }
    if header[0] == 66 && header[1] == 101 && header[2] == 97 && header[3] == 114 && header[4]
        == 101 && header[5] == 114 && header[6] == 32 {
        proof {
            assert(header@.take(7) =~= bearer_prefix());
        }
        Some(vstd::slice::slice_to_vec(vstd::slice::slice_subrange(header, 7, header.len())))
    } else {
        proof {
            if header@.take(7) == bearer_prefix() {
                assert(header@[0] == header@.take(7)[0]);
                assert(header@[1] == header@.take(7)[1]);
                assert(header@[2] == header@.take(7)[2]);
                assert(header@[3] == header@.take(7)[3]);
                assert(header@[4] == header@.take(7)[4]);
                assert(header@[5] == header@.take(7)[5]);
                assert(header@[6] == header@.take(7)[6]);
            }
        }
        None
    }
}

/// The error message for a request with no usable credential.
pub fn missing_credential_error() -> (e: ApiError)
    ensures
        e matches ApiError::Unauthorized(m) && m@ == ("Missing or invalid Authorization header")@,
{
    ApiError::Unauthorized(String::from_str("Missing or invalid Authorization header"))
}

/// Classify the identity provider's introspection response: a 401 is a
/// rejected credential, any other status of 400 or above is an upstream
/// error carrying the status and the response body, and otherwise the parsed
/// subject id is the principal — its absence (an unreadable body) is an
/// upstream error too.
pub fn classify_identity_response(status: u16, body: &str, subject: Option<String>) -> (r: Result<
    AuthenticatedUser,
    ApiError,
>)
    ensures
        status == 401 ==> (r matches Err(ApiError::Unauthorized(m)) && m@ == (
        "Invalid or expired token")@),
        status != 401 && status >= 400 ==> (r matches Err(ApiError::Internal(m)) && m@ == (
        "Supabase auth error: ")@ + dec_chars(status as int) + (" ")@ + body@),
        status < 400 && subject is Some ==> (r matches Ok(u) && u.user_id@
            == subject.unwrap()@),
        status < 400 && subject is None ==> (r matches Err(ApiError::Internal(m)) && m@ == (
        "Failed to parse user")@),
{
    if status == 401 {
        return Err(ApiError::Unauthorized(String::from_str("Invalid or expired token")));
    }
    if status >= 400 {
        let mut m = String::from_str("Supabase auth error: ");
        append_u16_chars(&mut m, status);
        m.append(" ");
        m.append(body);
        return Err(ApiError::Internal(m));
    }
    match subject {
        Some(id) => Ok(AuthenticatedUser { user_id: id }),
        None => Err(ApiError::Internal(String::from_str("Failed to parse user"))),
    }
}

} // verus!
