use vstd::prelude::*;
use vstd::string::*;
use crate::views::{opt_chars, pairs_view};

verus! {

/// Why an operation on the credential could not go ahead.
#[derive(Debug, Clone, Copy, PartialEq, Eq, Structural)]
pub enum AuthError {
    /// No access token is held, so no data call may be made.
    Unauthenticated,
    /// The authorization-code exchange failed or lacked a token.
    ExchangeFailed,
    /// A refresh was asked for while no refresh token is held.
    NoRefreshToken,
    /// The refresh exchange failed, or authorization still failed after it.
    RefreshFailed,
}

/// The page the operator visits to grant access.
pub const AUTH_ENDPOINT: &'static str = "https://accounts.google.com/o/oauth2/v2/auth";

/// Where the provider sends the operator back with a code.
pub const REDIRECT_URI: &'static str = "http://127.0.0.1:8080";

/// The access asked for: read-only mail.
pub const SCOPE: &'static str = "https://www.googleapis.com/auth/gmail.readonly";

/// The token exchange endpoint.
pub const TOKEN_ENDPOINT: &'static str = "https://oauth2.googleapis.com/token";

/// The fields of a token endpoint reply that matter here.
#[derive(Debug)]
pub struct TokenReply {
    pub access_token: Option<String>,
    pub refresh_token: Option<String>,
}

/// What parsing a URL and adding query parameters to it gives: the
/// serialized URL, or nothing when the base does not parse.
pub uninterp spec fn url_with_params_of(base: Seq<char>, params: Seq<(Seq<char>, Seq<char>)>) -> Option<Seq<char>>;

/// What parsing a URL gives for its decoded query pairs, in order: nothing
/// when it does not parse.
pub uninterp spec fn query_pairs_of(url: Seq<char>) -> Option<Seq<(Seq<char>, Seq<char>)>>;

/// Relies on url::Url::parse_with_params: parses `base`, appends the pairs
/// to its query, and serializes it.
#[verifier::external_body]
fn url_with_params(base: &str, params: &Vec<(String, String)>) -> (r: Option<String>)
    ensures
        opt_chars(r) == url_with_params_of(base@, pairs_view(params@)),
{
    match url::Url::parse_with_params(base, params.iter()) {
        Ok(u) => Some(String::from(u)),
        Err(_) => None,
    }
}

/// Relies on url::Url::parse and Url::query_pairs: the decoded query pairs
/// of a URL, in order.
#[verifier::external_body]
fn url_query_pairs(s: &str) -> (r: Option<Vec<(String, String)>>)
    ensures
        match r {
            Some(v) => query_pairs_of(s@) == Some(pairs_view(v@)),
            None => query_pairs_of(s@).is_none(),
        },
{
    match url::Url::parse(s) {
        Ok(u) => Some(u.query_pairs().map(|(k, v)| (k.into_owned(), v.into_owned())).collect()),
        Err(_) => None,
    }
}

/// The value of the first pair with this key.
pub open spec fn first_value_of(pairs: Seq<(Seq<char>, Seq<char>)>, key: Seq<char>) -> Option<Seq<char>>
    decreases pairs.len(),
{
    if pairs.len() == 0 {
        None
    } else if pairs[0].0 == key {
        Some(pairs[0].1)
    } else {
        first_value_of(pairs.skip(1), key)
    }
}

/// The authorization code that a callback URL carries.
pub open spec fn callback_code_of(url: Seq<char>) -> Option<Seq<char>> {
    match query_pairs_of(url) {
        Some(p) => first_value_of(p, "code"@),
        None => None,
    }
}

/// The query parameters of the consent page.
pub open spec fn auth_params(client_id: Seq<char>) -> Seq<(Seq<char>, Seq<char>)> {
    seq![
        ("client_id"@, client_id),
        ("redirect_uri"@, REDIRECT_URI@),
        ("scope"@, SCOPE@),
        ("access_type"@, "offline"@),
        ("response_type"@, "code"@),
    ]
}

/// The form that exchanges an authorization code for tokens.
pub open spec fn exchange_form(code: Seq<char>, client_id: Seq<char>, client_secret: Seq<char>) -> Seq<(Seq<char>, Seq<char>)> {
    seq![
        ("code"@, code),
        ("client_id"@, client_id),
        ("client_secret"@, client_secret),
        ("redirect_uri"@, REDIRECT_URI@),
        ("grant_type"@, "authorization_code"@),
    ]
}

/// The form that exchanges a refresh token for a new access token.
pub open spec fn refresh_form(client_id: Seq<char>, client_secret: Seq<char>, refresh_token: Seq<char>) -> Seq<(Seq<char>, Seq<char>)> {
    seq![
        ("client_id"@, client_id),
        ("client_secret"@, client_secret),
        ("refresh_token"@, refresh_token),
        ("grant_type"@, "refresh_token"@),
    ]
}

fn pair(k: &str, v: &str) -> (r: (String, String))
    ensures
        r.0@ == k@,
        r.1@ == v@,
{
    (String::from_str(k), String::from_str(v))
}

proof fn lemma_first_value_skip(pairs: Seq<(Seq<char>, Seq<char>)>, key: Seq<char>, i: int)
    requires
        0 <= i <= pairs.len(),
        forall|k: int| 0 <= k < i ==> (#[trigger] pairs[k]).0 != key,
    ensures
        first_value_of(pairs, key) == first_value_of(pairs.skip(i), key),
    decreases i,
{
    if i == 0 {
        assert(pairs.skip(0) =~= pairs);
    } else {
        assert(pairs[0].0 != key);
        assert forall|k: int| 0 <= k < i - 1 implies (#[trigger] pairs.skip(1)[k]).0 != key by {
            assert(pairs.skip(1)[k] == pairs[k + 1]);
        }
        lemma_first_value_skip(pairs.skip(1), key, i - 1);
        assert(pairs.skip(1).skip(i - 1) =~= pairs.skip(i));
    }
}

/// The authorization code in a callback URL: the value of its first `code`
/// query parameter, or nothing when the URL does not parse or has none.
pub fn callback_code(callback_url: &str) -> (r: Option<String>)
    ensures
        opt_chars(r) == callback_code_of(callback_url@),
{
    let pairs = match url_query_pairs(callback_url) {
        Some(p) => p,
        None => return None,
    };
    let key = String::from_str("code");
    let mut i: usize = 0;
    while i < pairs.len()
        invariant
            i <= pairs@.len(),
            query_pairs_of(callback_url@) == Some(pairs_view(pairs@)),
            key@ == "code"@,
            forall|k: int| 0 <= k < i ==> (#[trigger] pairs_view(pairs@)[k]).0 != key@,
        decreases pairs@.len() - i,
    {
        if pairs[i].0 == key {
            proof {
                lemma_first_value_skip(pairs_view(pairs@), key@, i as int);
            }
            return Some(pairs[i].1.clone());
        }
        i = i + 1;
    }
    proof {
        lemma_first_value_skip(pairs_view(pairs@), key@, i as int);
    }
    None
}

/// The client identity and the current tokens.
#[derive(Debug, Clone)]
pub struct GoogleAuth {
    client_id: String,
    client_secret: String,
    pub access_token: Option<String>,
    refresh_token: Option<String>,
}

impl GoogleAuth {
    pub closed spec fn client_id_view(&self) -> Seq<char> {
        self.client_id@
    }

    pub closed spec fn client_secret_view(&self) -> Seq<char> {
        self.client_secret@
    }

    pub closed spec fn refresh_token_view(&self) -> Option<Seq<char>> {
        opt_chars(self.refresh_token)
    }

    pub closed spec fn access_token_view(&self) -> Option<Seq<char>> {
        opt_chars(self.access_token)
    }

    /// A credential from configuration values.
    pub fn new(
        client_id: String,
        client_secret: String,
        access_token: Option<String>,
        refresh_token: Option<String>,
    ) -> (r: GoogleAuth)
        ensures
            r.client_id_view() == client_id@,
            r.client_secret_view() == client_secret@,
            r.access_token_view() == opt_chars(access_token),
            r.refresh_token_view() == opt_chars(refresh_token),
    {
        GoogleAuth { client_id, client_secret, access_token, refresh_token }
    }

    /// The client id.
    pub fn client_id(&self) -> (r: &String)
        ensures
            r@ == self.client_id_view(),
    {
        &self.client_id
    }

    /// The client secret.
    pub fn client_secret(&self) -> (r: &String)
        ensures
            r@ == self.client_secret_view(),
    {
        &self.client_secret
    }

    /// The refresh token, when one is held.
    pub fn refresh_token(&self) -> (r: Option<String>)
        ensures
            opt_chars(r) == self.refresh_token_view(),
    {
        match &self.refresh_token {
            Some(t) => Some(t.clone()),
            None => None,
        }
    }

    /// Whether an access token is held.
    pub fn is_authenticated(&self) -> (r: bool)
        ensures
            r == self.access_token_view().is_some(),
    {
        self.access_token.is_some()
    }
    /// Whether an error code in a reply envelope signals an authorization failure.
    pub fn needs_refresh(error_code: Option<i64>) -> (r: bool)
        ensures
            r == (error_code == Some(401i64)),
    {
        match error_code {
            Some(c) => c == 401,
            None => false,
        }
    }

    /// The `Authorization` header value for a data call.
    pub fn bearer_header(&self) -> (r: Result<String, AuthError>)
        ensures
            match self.access_token_view() {
                Some(t) => r is Ok && r.unwrap()@ == "Bearer "@ + t,
                None => r == Err::<String, AuthError>(AuthError::Unauthenticated),
            },
    {
        match &self.access_token {
            Some(t) => {
                let mut h = String::from_str("Bearer ");
                h.append(t.as_str());
                Ok(h)
            },
            None => Err(AuthError::Unauthenticated),
        }
    }

    /// The address of the consent page for this client.
    pub fn get_auth_url(&self) -> (r: Option<String>)
        ensures
            opt_chars(r) == url_with_params_of(AUTH_ENDPOINT@, auth_params(self.client_id_view())),
    {
        let mut params: Vec<(String, String)> = Vec::new();
        params.push((String::from_str("client_id"), self.client_id.clone()));
        params.push(pair("redirect_uri", REDIRECT_URI));
        params.push(pair("scope", SCOPE));
        params.push(pair("access_type", "offline"));
        params.push(pair("response_type", "code"));
        proof {
            assert(pairs_view(params@) =~= auth_params(self.client_id_view()));
        }
        url_with_params(AUTH_ENDPOINT, &params)
    }

    /// The token-endpoint form for the code that a callback URL carries, or
    /// `ExchangeFailed` when the URL carries none.
    pub fn handle_callback_url(&self, callback_url: &str) -> (r: Result<Vec<(String, String)>, AuthError>)
        ensures
            match callback_code_of(callback_url@) {
                Some(code) => r is Ok && pairs_view(r.unwrap()@) == exchange_form(
                    code,
                    self.client_id_view(),
                    self.client_secret_view(),
                ),
                None => r == Err::<Vec<(String, String)>, AuthError>(AuthError::ExchangeFailed),
            },
    {
        let code = match callback_code(callback_url) {
            Some(c) => c,
            None => return Err(AuthError::ExchangeFailed),
        };
        let mut form: Vec<(String, String)> = Vec::new();
        form.push((String::from_str("code"), code));
        form.push((String::from_str("client_id"), self.client_id.clone()));
        form.push((String::from_str("client_secret"), self.client_secret.clone()));
        form.push(pair("redirect_uri", REDIRECT_URI));
        form.push(pair("grant_type", "authorization_code"));
        proof {
            assert(pairs_view(form@) =~= exchange_form(
                callback_code_of(callback_url@).unwrap(),
                self.client_id_view(),
                self.client_secret_view(),
            ));
        }
        Ok(form)
    }

    /// Takes in the reply of the code exchange (nothing when the transport
    /// failed): both tokens are replaced when it carries both, else the
    /// exchange fails and the credential is left as it was.
    pub fn finish_code_exchange(&mut self, reply: Option<TokenReply>) -> (r: Result<(), AuthError>)
        ensures
            final(self).client_id_view() == old(self).client_id_view(),
            final(self).client_secret_view() == old(self).client_secret_view(),
            match reply {
                Some(TokenReply { access_token: Some(a), refresh_token: Some(t) }) => r is Ok
                    && final(self).access_token_view() == Some(a@)
                    && final(self).refresh_token_view() == Some(t@),
                _ => r == Err::<(), AuthError>(AuthError::ExchangeFailed) && final(self).access_token_view()
                    == old(self).access_token_view() && final(self).refresh_token_view()
                    == old(self).refresh_token_view(),
            },
    {
        match reply {
            Some(TokenReply { access_token: Some(a), refresh_token: Some(t) }) => {
                self.access_token = Some(a);
                self.refresh_token = Some(t);
                Ok(())
            },
            _ => Err(AuthError::ExchangeFailed),
        }
    }

    /// The token-endpoint form of a refresh, or `NoRefreshToken` when no
    /// refresh token is held.
    pub fn do_refresh(&self) -> (r: Result<Vec<(String, String)>, AuthError>)
        ensures
            match self.refresh_token_view() {
                Some(t) => r is Ok && pairs_view(r.unwrap()@) == refresh_form(
                    self.client_id_view(),
                    self.client_secret_view(),
                    t,
                ),
                None => r == Err::<Vec<(String, String)>, AuthError>(AuthError::NoRefreshToken),
            },
    {
        let token = match &self.refresh_token {
            Some(t) => t.clone(),
            None => return Err(AuthError::NoRefreshToken),
        };
        let mut form: Vec<(String, String)> = Vec::new();
        form.push((String::from_str("client_id"), self.client_id.clone()));
        form.push((String::from_str("client_secret"), self.client_secret.clone()));
        form.push((String::from_str("refresh_token"), token));
        form.push(pair("grant_type", "refresh_token"));
        proof {
            assert(pairs_view(form@) =~= refresh_form(
                self.client_id_view(),
                self.client_secret_view(),
                self.refresh_token_view().unwrap(),
            ));
        }
        Ok(form)
    }

    /// Takes in the reply of a refresh (nothing when the transport failed):
    /// the access token alone is replaced when the reply carries one, else
    /// the refresh fails and the credential is left as it was.
    pub fn finish_refresh(&mut self, reply: Option<TokenReply>) -> (r: Result<(), AuthError>)
        ensures
            final(self).client_id_view() == old(self).client_id_view(),
            final(self).client_secret_view() == old(self).client_secret_view(),
            final(self).refresh_token_view() == old(self).refresh_token_view(),
            match reply {
                Some(TokenReply { access_token: Some(a), refresh_token: _ }) => r is Ok
                    && final(self).access_token_view() == Some(a@),
                _ => r == Err::<(), AuthError>(AuthError::RefreshFailed) && final(self).access_token_view()
                    == old(self).access_token_view(),
            },
    {
        match reply {
            Some(TokenReply { access_token: Some(a), refresh_token: _ }) => {
                self.access_token = Some(a);
                Ok(())
            },
            _ => Err(AuthError::RefreshFailed),
        }
    }
}

} // verus!
