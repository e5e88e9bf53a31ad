//! The auth cache: one bearer token with its expiry, handed out while it is
//! valid and replaced once it is not. The caller reads the clock and talks
//! to the identity provider.

use vstd::prelude::*;
use vstd::string::StringExecFns;
use crate::env::get_env_audience;
use crate::env::get_env_var;
use crate::env::EnvError;
use crate::env::Environment;
use crate::error::HttpFailure;
use crate::reader::texts;

verus! {

/// Why no bearer token could be had.
#[derive(Clone, Debug, PartialEq, Eq)]
pub enum AuthError {
    /// A configuration value is missing.
    EnvVar(EnvError),
    /// The request to the identity provider failed.
    Reqwest(HttpFailure),
    /// The answer of the identity provider could not be read.
    Json,
}

/// What the identity provider answers to a token request.
pub struct Auth0TokenResponse {
    pub access_token: String,
    pub token_type: String,
    /// The time for which the token is valid, in seconds.
    pub expires_in: u64,
}

/// A bearer token and the instant at which it expires, in nanoseconds of
/// the caller's monotonic clock.
pub struct AuthToken {
    pub token: String,
    pub expiry: u128,
}

/// One field of the form that a token request carries.
pub struct FormField {
    pub name: String,
    pub value: String,
}

/// The request that fetches a bearer token: a form posted to `url` under
/// basic authentication.
pub struct TokenRequest {
    pub url: String,
    pub client_id: String,
    pub client_secret: String,
    pub form: Vec<FormField>,
}

/// The number of nanoseconds in a second.
pub const NANOS_PER_SECOND: u128 = 1000000000;

/// The instant at which a token expires that was received at `now` and is
/// valid for `expires_in` seconds.
pub open spec fn expiry_of(now: u64, expires_in: u64) -> int {
    now + expires_in * NANOS_PER_SECOND
}

/// The token that a cache slot holding `slot` hands out at `now`: the one
/// it holds, as long as that has not expired.
pub open spec fn cached_token(slot: Option<AuthToken>, now: u64) -> Option<Seq<char>> {
    match slot {
        Some(held) => if now < held.expiry {
            Some(held.token@)
        } else {
            None
        },
        None => None,
    }
}

/// The address of the token endpoint of the identity provider at `domain`.
pub open spec fn token_url(domain: Seq<char>) -> Seq<char> {
    "https://"@ + domain + "/oauth2/token"@
}

/// The names and values of the form of a token request, in order: the
/// grant type, then one field for each audience.
pub open spec fn token_form(audience: Seq<Seq<char>>) -> Seq<(Seq<char>, Seq<char>)> {
    seq![("grant_type"@, "client_credentials"@)] + audience.map_values(
        |a: Seq<char>| ("audience"@, a),
    )
}

/// The names and values of a list of form fields.
pub open spec fn form_view(form: Seq<FormField>) -> Seq<(Seq<char>, Seq<char>)> {
    form.map_values(|field: FormField| (field.name@, field.value@))
}

/// Whether `auth` is the error that the variable `key` has no usable value,
/// for the reason `why`.
pub open spec fn names_variable<T>(auth: Result<T, AuthError>, why: crate::env::VarError, key: Seq<
    char,
>) -> bool {
    &&& auth matches Err(AuthError::EnvVar(EnvError::EnvVar(w, name)))
    &&& w == why
    &&& name@ == key
}

/// The identity of the agent towards the identity provider, and the slot
/// that holds its bearer token.
pub struct Auth {
    pub domain: String,
    pub client_id: String,
    pub audience: Vec<String>,
    pub token: Option<AuthToken>,
}

/// Whether `auth` is what the environment `entries` makes of an identity:
/// the domain, the client id and the audiences must be there, and the first
/// that is missing is the error; the token slot starts empty.
pub open spec fn configured(entries: Seq<crate::env::EnvEntry>, auth: Result<Auth, AuthError>) -> bool {
    match crate::env::var(entries, "AUTH_DOMAIN"@) {
        Err(why) => names_variable(auth, why, "AUTH_DOMAIN"@),
        Ok(domain) => match crate::env::var(entries, "CLIENT_ID"@) {
            Err(why) => names_variable(auth, why, "CLIENT_ID"@),
            Ok(client_id) => match crate::env::var(
                entries,
                crate::env::audience_key(),
            ) {
                Err(why) => names_variable(auth, why, crate::env::audience_key()),
                Ok(text) => if crate::env::list_values(text).len() == 0 {
                    &&& auth matches Err(
                        AuthError::EnvVar(EnvError::MissingAudience(message)),
                    )
                    &&& message@ == crate::env::missing_audience_message()
                } else {
                    &&& auth matches Ok(a)
                    &&& a.domain@ == domain
                    &&& a.client_id@ == client_id
                    &&& texts(a.audience@) == crate::env::list_values(text)
                    &&& a.token is None
                },
            },
        },
    }
}

impl Auth {
    /// The identity that the environment describes, with an empty token
    /// slot. The domain, the client id and the audiences must be there; the
    /// first that is missing is the error.
    pub fn new(env: &Environment) -> (auth: Result<Auth, AuthError>)
        ensures
            configured(env.entries@, auth),
    {
        let domain = match get_env_var(env, "AUTH_DOMAIN") {
            Ok(v) => v,
            Err(e) => {
                return Err(AuthError::EnvVar(e));
            },
        };
        let client_id = match get_env_var(env, "CLIENT_ID") {
            Ok(v) => v,
            Err(e) => {
                return Err(AuthError::EnvVar(e));
            },
        };
        let audience = match get_env_audience(env) {
            Ok(v) => v,
            Err(e) => {
                return Err(AuthError::EnvVar(e));
            },
        };
        Ok(Auth { domain, client_id, audience, token: None })
    }

    /// The request that fetches a new token. The client secret is read from
    /// the environment each time, and must be there.
    pub fn fetch_auth0_token(&self, env: &Environment) -> (request: Result<TokenRequest, AuthError>)
        ensures
            match crate::env::var(env.entries@, "CLIENT_SECRET"@) {
                Err(why) => names_variable(request, why, "CLIENT_SECRET"@),
                Ok(secret) => {
                    &&& request matches Ok(r)
                    &&& r.client_secret@ == secret
                    &&& r.url@ == token_url(self.domain@)
                    &&& r.client_id@ == self.client_id@
                    &&& form_view(r.form@) == token_form(texts(self.audience@))
                },
            },
    {
        let mut form: Vec<FormField> = Vec::new();
        form.push(
            FormField { name: "grant_type".to_owned(), value: "client_credentials".to_owned() },
        );
        let ghost wanted = token_form(texts(self.audience@));
        assert(form_view(form@) == wanted.subrange(0, 1));
        let mut i: usize = 0;
        while i < self.audience.len()
            invariant
                i <= self.audience.len(),
                wanted == token_form(texts(self.audience@)),
                form_view(form@) == wanted.subrange(0, i + 1),
            decreases self.audience.len() - i,
        {
            let ghost earlier = form@;
            form.push(FormField { name: "audience".to_owned(), value: self.audience[i].clone() });
            assert(form_view(form@) == form_view(earlier).push(("audience"@, self.audience[i as int]@)));
            assert(wanted.subrange(0, i + 2) == wanted.subrange(0, i + 1).push(wanted[i + 1]));
            i += 1;
        }
        assert(wanted.subrange(0, self.audience.len() + 1) == wanted);
        let client_secret = match get_env_var(env, "CLIENT_SECRET") {
            Ok(v) => v,
            Err(e) => {
                return Err(AuthError::EnvVar(e));
            },
        };
        let mut url = "https://".to_owned();
        url.append(self.domain.as_str());
        url.append("/oauth2/token");
        Ok(TokenRequest { url, client_id: self.client_id.clone(), client_secret, form })
    }

    /// The token that the slot holds, if it has not expired at `now`. The
    /// slot is left as it is: as long as a token is valid, every call hands
    /// out the same one. `None` says that a new token must be fetched.
    pub fn get_auth0_token(&self, now: u64) -> (token: Option<String>)
        ensures
            token is Some <==> cached_token(self.token, now) is Some,
            token matches Some(t) ==> cached_token(self.token, now) == Some(t@),
    {
        match &self.token {
            Some(held) => {
                if (now as u128) < held.expiry {
                    Some(held.token.clone())
                } else {
                    None
                }
            },
            None => None,
        }
    }

    /// Takes in what the identity provider answered at `now`. A token
    /// replaces whatever the slot held and is valid for the time that the
    /// provider declared; it is also returned. A failure leaves the slot as
    /// it was and is passed on.
    pub fn store_token(&mut self, answer: Result<Auth0TokenResponse, AuthError>, now: u64) -> (token:
        Result<String, AuthError>)
        ensures
            final(self).domain == old(self).domain,
            final(self).client_id == old(self).client_id,
            final(self).audience == old(self).audience,
            match answer {
                Ok(response) => {
                    &&& token matches Ok(t)
                    &&& t@ == response.access_token@
                    &&& final(self).token matches Some(held)
                    &&& held.token@ == response.access_token@
                    &&& held.expiry == expiry_of(now, response.expires_in)
                },
                Err(e) => token == Err::<String, AuthError>(e) && final(self).token == old(
                    self,
                ).token,
            },
    {
        match answer {
            Ok(response) => {
                let expiry = (now as u128) + (response.expires_in as u128) * NANOS_PER_SECOND;
                let token = response.access_token.clone();
                self.token = Some(AuthToken { token: response.access_token, expiry });
                Ok(token)
            },
            Err(e) => Err(e),
        }
    }
}

/// While a token is valid, every call hands out that same token and none
/// asks for a fetch; once it has expired, a call asks for a fetch.
pub proof fn lemma_token_reuse(held: AuthToken, first: u64, second: u64)
    ensures
        first < held.expiry && second < held.expiry ==> cached_token(Some(held), first) == Some(
            held.token@,
        ) && cached_token(Some(held), second) == cached_token(Some(held), first),
        first >= held.expiry ==> cached_token(Some(held), first) is None,
{
}

/// A token that was stored at `now` with a positive time to live is handed
/// out from `now` until it expires, so that one fetch serves every call in
/// between.
pub proof fn lemma_one_fetch_serves(token: String, now: u64, expires_in: u64, later: u64)
    requires
        expires_in > 0,
        now <= later < expiry_of(now, expires_in),
    ensures
        cached_token(
            Some(AuthToken { token, expiry: expiry_of(now, expires_in) as u128 }),
            later,
        ) == Some(token@),
{
}

} // verus!
