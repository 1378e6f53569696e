//! Who may use the restream server.
use crate::text;
use vstd::prelude::*;
use vstd::string::*;

verus! {

/// Whether a request may pass: the server asks for no token, or the request shows the token
/// after `Bearer ` in its `Authorization` header or as the `key` of its query.
pub open spec fn authorized(
    expected: Option<Seq<char>>,
    authorization: Option<Seq<char>>,
    key: Option<Seq<char>>,
) -> bool {
    match expected {
        None => true,
        Some(token) => authorization == Some("Bearer "@ + token) || key == Some(token),
    }
}

/// The status of the answer to a request that may not pass.
pub const UNAUTHORIZED: u16 = 401;

/// Proof that a request may pass.
pub struct AuthGuard;

impl AuthGuard {
    /// Lets a request pass or gives the status of the answer to it. `authorization` is the
    /// value of its `Authorization` header, where that is a text, and `key` the one in its
    /// query.
    pub fn from_request(
        expected: &Option<String>,
        authorization: &Option<String>,
        key: &Option<String>,
    ) -> (res: Result<AuthGuard, u16>)
        ensures
            res is Ok <==> authorized(
                text::opt_text(*expected),
                text::opt_text(*authorization),
                text::opt_text(*key),
            ),
            res matches Err(status) ==> status == UNAUTHORIZED,
            *expected is None ==> res is Ok,
            *expected matches Some(token) ==> (res == Err::<AuthGuard, u16>(401u16) <==> (
            *authorization matches Some(h) ==> h@ != "Bearer "@ + token@) && (*key matches Some(
                k,
            ) ==> k@ != token@)),
    {
        let token = match expected {
            None => {
                return Ok(AuthGuard);
            },
            Some(token) => token,
        };
        if let Some(header) = authorization {
            if let Some(shown) = text::strip_prefix_text(header.as_str(), "Bearer ") {
                if text::same_text(shown.as_str(), token.as_str()) {
                    return Ok(AuthGuard);
                }
                assert(header@ != "Bearer "@ + token@) by {
                    if header@ == "Bearer "@ + token@ {
                        let n = "Bearer "@.len() as int;
                        assert(shown@ =~= header@.skip(n));
                        assert(token@ =~= header@.skip(n));
                    }
                }
            } else {
                assert(header@ != "Bearer "@ + token@) by {
                    if header@ == "Bearer "@ + token@ {
                        assert(header@.subrange(0, "Bearer "@.len() as int) =~= "Bearer "@);
                    }
                }
            }
        }
        if let Some(k) = key {
            if text::same_text(k.as_str(), token.as_str()) {
                return Ok(AuthGuard);
            }
        }
        Err(UNAUTHORIZED)
    }
}

/// A server with a token lets a request pass only where the request shows this very token, and
/// one without a token lets every request pass, whatever it shows.
pub proof fn law_only_the_token_lets_pass(
    token: Seq<char>,
    authorization: Option<Seq<char>>,
    key: Option<Seq<char>>,
)
    ensures
        authorized(None, authorization, key),
        authorized(Some(token), Some("Bearer "@ + token), key),
        authorized(Some(token), authorization, Some(token)),
        !authorized(Some(token), None, None),
        (authorization matches Some(h) ==> h != "Bearer "@ + token) && (key matches Some(k) ==> k
            != token) ==> !authorized(Some(token), authorization, key),
        UNAUTHORIZED == 401,
{
}

} // verus!
