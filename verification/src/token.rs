//! Access to the player's account: the tokens and how they are renewed.

use vstd::prelude::*;

use crate::http::{accepted, accepted_body, pairs_view, Reply};

verus! {

/// The tokens that are kept between runs.
#[derive(Debug)]
pub struct SavedToken {
    pub access_token: String,
    pub refresh_token: String,
}

#[verifier::ext_equal]
pub struct SavedTokenView {
    pub access_token: Seq<char>,
    pub refresh_token: Seq<char>,
}

impl View for SavedToken {
    type V = SavedTokenView;

    open spec fn view(&self) -> SavedTokenView {
        SavedTokenView { access_token: self.access_token@, refresh_token: self.refresh_token@ }
    }
}

impl Clone for SavedToken {
    fn clone(&self) -> (r: SavedToken)
        ensures
            r@ == self@,
    {
        SavedToken {
            access_token: self.access_token.clone(),
            refresh_token: self.refresh_token.clone(),
        }
    }
}

/// The body of an answer to a renewal.
pub struct RefreshResponse {
    pub access_token: String,
    pub refresh_token: Option<String>,
}

/// The identity of this program at the account service.
pub const SPOTIFY_CLIENT_ID: &'static str = "a141922c57214d0b8dc977df36d1c494";

/// Where tokens are renewed.
pub const TOKEN_API: &'static str = "https://accounts.spotify.com/api/token";

/// Where a login in the browser comes back to.
pub const REDIRECT_URI: &'static str = "http://127.0.0.1:8898/login";

/// A request for a new access token.
pub struct RefreshRequest {
    pub url: &'static str,
    pub form: Vec<(String, String)>,
}

/// The request that renews the access token by `refresh_token`.
pub fn refresh_request(refresh_token: &str) -> (r: RefreshRequest)
    ensures
        r.url@ == "https://accounts.spotify.com/api/token"@,
        r.url@ == TOKEN_API@,
        pairs_view(r.form@) == seq![
            ("grant_type"@, "refresh_token"@),
            ("refresh_token"@, refresh_token@),
            ("client_id"@, SPOTIFY_CLIENT_ID@),
        ],
{
    let mut form: Vec<(String, String)> = Vec::new();
    form.push(("grant_type".to_owned(), "refresh_token".to_owned()));
    form.push(("refresh_token".to_owned(), refresh_token.to_owned()));
    form.push(("client_id".to_owned(), SPOTIFY_CLIENT_ID.to_owned()));
    assert(pairs_view(form@) =~= seq![
        ("grant_type"@, "refresh_token"@),
        ("refresh_token"@, refresh_token@),
        ("client_id"@, SPOTIFY_CLIENT_ID@),
    ]);
    RefreshRequest { url: TOKEN_API, form }
}

/// The tokens after a renewal: an answer without a refresh token leaves the one
/// that was used in force.
pub open spec fn refreshed(body: RefreshResponse, refresh_token: Seq<char>) -> SavedTokenView {
    SavedTokenView {
        access_token: body.access_token@,
        refresh_token: match body.refresh_token {
            Some(t) => t@,
            None => refresh_token,
        },
    }
}

/// The tokens that the reply to a renewal with `refresh_token` gives.
pub fn token_from_refresh(reply: Reply<RefreshResponse>, refresh_token: &str) -> (r: Option<
    SavedToken,
>)
    ensures
        match accepted_body(reply) {
            Some(body) => r matches Some(t) && t@ == refreshed(body, refresh_token@),
            None => r is None,
        },
{
    match accepted(reply) {
        Some(body) => {
            let kept: String = match body.refresh_token {
                Some(t) => t,
                None => refresh_token.to_owned(),
            };
            Some(SavedToken { access_token: body.access_token, refresh_token: kept })
        },
        None => None,
    }
}

/// What a login in the browser is asked for.
pub struct LoginRequest {
    pub client_id: &'static str,
    pub redirect_uri: &'static str,
    pub scopes: Vec<&'static str>,
}

/// The login that lets the program see what is playing.
pub fn login_request() -> (r: LoginRequest)
    ensures
        r.client_id@ == "a141922c57214d0b8dc977df36d1c494"@,
        r.client_id@ == SPOTIFY_CLIENT_ID@,
        r.redirect_uri@ == "http://127.0.0.1:8898/login"@,
        r.redirect_uri@ == REDIRECT_URI@,
        r.scopes@.map_values(|s: &str| s@) == seq![
            "streaming"@,
            "user-read-currently-playing"@,
            "user-read-playback-state"@,
        ],
{
    let mut scopes: Vec<&'static str> = Vec::new();
    scopes.push("streaming");
    scopes.push("user-read-currently-playing");
    scopes.push("user-read-playback-state");
    assert(scopes@.map_values(|s: &str| s@) =~= seq![
        "streaming"@,
        "user-read-currently-playing"@,
        "user-read-playback-state"@,
    ]);
    LoginRequest { client_id: SPOTIFY_CLIENT_ID, redirect_uri: REDIRECT_URI, scopes }
}

/// A renewal gives the access token that the answer holds, and the refresh token
/// that it holds; where it holds none, the one that was used stays in force.
pub proof fn law_renewal_keeps_a_refresh_token(body: RefreshResponse, used: Seq<char>)
    ensures
        refreshed(body, used).access_token == body.access_token@,
        body.refresh_token matches Some(t) ==> refreshed(body, used).refresh_token == t@,
        body.refresh_token is None ==> refreshed(body, used).refresh_token == used,
{
}

/// Tokens are seen as what they are.
pub proof fn law_token_view(token: SavedToken)
    ensures
        token@.access_token == token.access_token@,
        token@.refresh_token == token.refresh_token@,
{
}

} // verus!
