//! The shape of a token-endpoint request: which form fields the OAuth2
//! exchange carries for the initial authorization-code grant and for the
//! refresh grant.

use vstd::prelude::*;

verus! {

/// The form fields of a token-endpoint POST. Both grants carry the client
/// credentials; the initial grant sends the authorization code with a fixed
/// redirect URI, the refresh grant sends the refresh token.
pub fn exchange_request_params(
    client_id: String,
    client_secret: String,
    grant: String,
    is_refresh: bool,
) -> (r: Vec<(String, String)>)
    ensures
        is_refresh ==> r@.len() == 4 && r@[0].0@ == "client_id"@ && r@[0].1@ == client_id@
            && r@[1].0@ == "client_secret"@ && r@[1].1@ == client_secret@ && r@[2].0@
            == "grant_type"@ && r@[2].1@ == "refresh_token"@ && r@[3].0@ == "refresh_token"@
            && r@[3].1@ == grant@,
        !is_refresh ==> r@.len() == 5 && r@[0].0@ == "client_id"@ && r@[0].1@ == client_id@
            && r@[1].0@ == "client_secret"@ && r@[1].1@ == client_secret@ && r@[2].0@ == "code"@
            && r@[2].1@ == grant@ && r@[3].0@ == "grant_type"@ && r@[3].1@
            == "authorization_code"@ && r@[4].0@ == "redirect_uri"@ && r@[4].1@
            == "localhost:3000"@,
{
    let mut out: Vec<(String, String)> = Vec::new();
    out.push(("client_id".to_owned(), client_id));
    out.push(("client_secret".to_owned(), client_secret));
    if is_refresh {
        out.push(("grant_type".to_owned(), "refresh_token".to_owned()));
        out.push(("refresh_token".to_owned(), grant));
    } else {
        out.push(("code".to_owned(), grant));
        out.push(("grant_type".to_owned(), "authorization_code".to_owned()));
        out.push(("redirect_uri".to_owned(), "localhost:3000".to_owned()));
    }
    out
}

} // verus!
