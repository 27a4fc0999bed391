//! The service-user credential provider: an explicit, expiry-checked
//! token cache. The provider decides when a refresh is due and how a
//! token response updates the cache; fetching the token over the wire is
//! the adapter's work.

use vstd::prelude::*;

verus! {

/// A cached access token with its expiry, in UNIX seconds.
#[derive(Debug)]
pub struct Credential {
    pub access_token: String,
    pub expires_at: i64,
}

/// What the caller of `ensure_fresh_token` must do next.
#[derive(Debug)]
pub enum TokenState {
    Fresh(String),
    NeedsRefresh,
}

/// The credential provider: the token endpoint's coordinates, the
/// client's identity, and the cached credential.
#[derive(Debug)]
pub struct CredentialsService {
    pub oauth_url: String,
    pub oauth_host: String,
    pub client_id: String,
    pub client_secret: String,
    pub credential: Credential,
}

impl CredentialsService {
    /// A fresh provider with an already-expired empty credential, so the
    /// first use refreshes.
    pub fn new(
        oauth_url: String,
        oauth_host: String,
        client_id: String,
        client_secret: String,
    ) -> (s: Self)
        ensures
            s.oauth_url@ == oauth_url@,
            s.oauth_host@ == oauth_host@,
            s.client_id@ == client_id@,
            s.client_secret@ == client_secret@,
            s.credential.access_token@ == Seq::<char>::empty(),
            s.credential.expires_at == 0,
    {
        let token = String::new();
        proof {
            assert(token@ =~= Seq::<char>::empty());
        }
        CredentialsService {
            oauth_url,
            oauth_host,
            client_id,
            client_secret,
            credential: Credential { access_token: token, expires_at: 0 },
        }
    }

    /// Whether the cached credential has expired at `now`.
    pub fn is_expired(&self, now: i64) -> (r: bool)
        ensures
            r == (self.credential.expires_at < now),
    {
        self.credential.expires_at < now
    }

    /// The token endpoint of the configured authority.
    pub fn get_token_url(&self) -> (r: String)
        ensures
            r@ == self.oauth_url@ + "/v2/token"@,
    {
        let mut s = self.oauth_url.clone();
        s.append("/v2/token");
        s
    }

    /// Replaces the cached credential with a token response received at
    /// `now` and valid for `expires_in` seconds.
    pub fn apply_token_response(&mut self, now: i64, access_token: String, expires_in: i64)
        requires
            i64::MIN <= now + expires_in <= i64::MAX,
        ensures
            final(self).credential.access_token@ == access_token@,
            final(self).credential.expires_at == now + expires_in,
            final(self).oauth_url == old(self).oauth_url,
            final(self).oauth_host == old(self).oauth_host,
            final(self).client_id == old(self).client_id,
            final(self).client_secret == old(self).client_secret,
    {
        self.credential = Credential { access_token, expires_at: now + expires_in };
    }

    /// Decides whether the cached token can be used at `now` or a refresh
    /// is due first.
    pub fn ensure_fresh_token(&self, now: i64) -> (r: TokenState)
        ensures
            self.credential.expires_at < now <==> r is NeedsRefresh,
            r matches TokenState::Fresh(t) ==> t@ == self.credential.access_token@,
    {
        if self.is_expired(now) {
            TokenState::NeedsRefresh
        } else {
            TokenState::Fresh(self.credential.access_token.clone())
        }
    }

    /// The authorization header value carrying a bearer token.
    pub fn auth_header_value(token: &String) -> (r: String)
        ensures
            r@ == "Bearer "@ + token@,
    {
        let mut s = "Bearer ".to_owned();
        s.append(token.as_str());
        s
    }
}

} // verus!
