//! The tokens a sign-in yields, and refreshing them.
//!
//! What a refresh needs is kept beside an install's other credentials, as one
//! bundle under a name of its own.
use vstd::prelude::*;

use crate::env::EnvMap;
use crate::error::Error;
use crate::json::{Json, JsonView};
use crate::text::{read_number, text2};

verus! {

/// The name a bundle is stored under. The two leading underscores mark it as
/// internal: it is neither sent as a header nor shown in a credential list.
pub const OAUTH_BUNDLE_KEY: &'static str = "__oauth_bundle";

/// The name the access token is stored under.
pub const AUTHORIZATION_KEY: &'static str = "Authorization";

/// What a token endpoint answers.
#[derive(Debug, PartialEq, Eq)]
pub struct TokenResponse {
    /// The access token.
    pub access_token: String,
    /// The refresh token, where the server issues or rotates one.
    pub refresh_token: Option<String>,
    /// For how many seconds the access token is good.
    pub expires_in: Option<u64>,
}

/// A count of seconds, where it is given as a whole number that fits.
pub open spec fn seconds(value: Option<JsonView>) -> Option<u64> {
    match value {
        Some(JsonView::Number(text)) => match crate::text::number_of(text) {
            Some(n) => if n <= u64::MAX {
                Some(n as u64)
            } else {
                None
            },
            None => None,
        },
        _ => None,
    }
}

/// How a token response is read.
pub open spec fn token_read(document: JsonView, r: Result<TokenResponse, Error>) -> bool {
    match crate::json::text_member(document, "access_token"@) {
        Some(token) => r matches Ok(parsed) && parsed.access_token@ == token
            && crate::text::opt_text(parsed.refresh_token) == crate::json::text_member(
            document,
            "refresh_token"@,
        ) && parsed.expires_in == seconds(crate::json::member(document, "expires_in"@)),
        None => r matches Err(Error::MalformedResponse { detail }) && detail@
            == "a token response carries no access token"@,
    }
}

impl TokenResponse {
    /// Reads a token response. Only the access token is needed: servers
    /// routinely omit the rest, and refusing their reply would break sign-in
    /// for them.
    pub fn parse(document: &Json) -> (r: Result<TokenResponse, Error>)
        ensures
            token_read(document@, r),
    {
        let access_token = match document.get_text("access_token") {
            Some(token) => token.clone(),
            None => {
                return Err(
                    Error::malformed("a token response carries no access token".to_owned()),
                );
            },
        };
        let refresh_token = match document.get_text("refresh_token") {
            Some(token) => Some(token.clone()),
            None => None,
        };
        let expires_in = match document.get("expires_in") {
            Some(Json::Number(text)) => read_number(text.as_str()),
            _ => None,
        };
        Ok(TokenResponse { access_token, refresh_token, expires_in })
    }
}

/// What a refresh needs, stored beside the credentials.
#[derive(Debug, PartialEq, Eq)]
pub struct OAuthBundle {
    /// The refresh token, where one was issued.
    pub refresh_token: Option<String>,
    /// The client that was registered.
    pub client_id: String,
    /// Its secret, where one was issued.
    pub client_secret: Option<String>,
    /// Where tokens are had.
    pub token_endpoint: String,
    /// When the access token expires, in seconds of the Unix epoch, where that
    /// is known.
    pub expires_at: Option<u64>,
}

/// Whether an access token has expired.
pub open spec fn expired(bundle: OAuthBundle, now: u64) -> bool {
    bundle.expires_at matches Some(at) && at <= now
}

/// What refreshing needs to know or to have done next.
#[derive(Debug)]
pub enum RefreshStep {
    /// The bundle that a text holds; answer with [`DecodeBundle::decoded`].
    DecodeBundle(DecodeBundle),
    /// A form sent to the token endpoint; answer with
    /// [`ExchangeRefresh::exchanged`].
    Exchange(ExchangeRefresh),
    /// The text that holds a bundle; answer with [`EncodeBundle::encoded`].
    EncodeBundle(EncodeBundle),
    /// Credentials, stored; answer with [`StoreRefreshed::stored`].
    StoreEnv(StoreRefreshed),
    /// Their names, stored on the record; answer with
    /// [`StoreRefreshedNames::stored`].
    StoreNames(StoreRefreshedNames),
    /// Nothing: whether the token was refreshed.
    Done(Result<bool, Error>),
}

/// See [`RefreshStep::DecodeBundle`].
#[derive(Debug)]
pub struct DecodeBundle {
    /// The credentials of the install.
    pub env: EnvMap,
    /// The text to decode.
    pub text: String,
}

/// See [`RefreshStep::Exchange`].
#[derive(Debug)]
pub struct ExchangeRefresh {
    /// The credentials of the install.
    pub env: EnvMap,
    /// Its bundle.
    pub bundle: OAuthBundle,
    /// When the exchange is made, in seconds of the Unix epoch.
    pub now: u64,
    /// The form to send, field by field.
    pub form: Vec<(String, String)>,
}

/// See [`RefreshStep::EncodeBundle`].
#[derive(Debug)]
pub struct EncodeBundle {
    /// The credentials of the install, the fresh token among them.
    pub env: EnvMap,
    /// The bundle to encode.
    pub bundle: OAuthBundle,
}

/// See [`RefreshStep::StoreEnv`].
#[derive(Debug)]
pub struct StoreRefreshed {
    /// The credentials to store.
    pub env: EnvMap,
}

/// See [`RefreshStep::StoreNames`].
#[derive(Debug)]
pub struct StoreRefreshedNames {
    /// The names to store.
    pub names: Vec<String>,
}

/// A form, field by field.
pub open spec fn fields(form: Seq<(String, String)>) -> Seq<(Seq<char>, Seq<char>)> {
    form.map_values(|field: (String, String)| (field.0@, field.1@))
}

/// The form of a refresh: the grant, the token and the client's credentials.
pub open spec fn refresh_form(bundle: OAuthBundle, token: Seq<char>) -> Seq<
    (Seq<char>, Seq<char>),
> {
    let always = seq![
        ("grant_type"@, "refresh_token"@),
        ("refresh_token"@, token),
        ("client_id"@, bundle.client_id@),
    ];
    match bundle.client_secret {
        Some(secret) => always.push(("client_secret"@, secret@)),
        None => always,
    }
}

/// How a refresh begins: an install without a bundle, or whose credentials
/// cannot be read, has nothing to refresh.
pub open spec fn begins(reply: Result<EnvMap, Error>, r: RefreshStep) -> bool {
    match reply {
        Err(e) => r == RefreshStep::Done(Err(e)),
        Ok(env) => if env@.contains_key(OAUTH_BUNDLE_KEY@) {
            r matches RefreshStep::DecodeBundle(next) && next.env == env && next.text@
                == env@[OAUTH_BUNDLE_KEY@]
        } else {
            r == RefreshStep::Done(Ok(false))
        },
    }
}

/// What follows from the bundle, at `now`. A corrupt one is reported. A token
/// that is still good is left alone, and so is one that cannot be refreshed:
/// the next call gets a 401, which prompts its user to sign in again.
pub open spec fn after_decode(
    s: DecodeBundle,
    reply: Result<OAuthBundle, String>,
    now: u64,
    r: RefreshStep,
) -> bool {
    match reply {
        Err(detail) => r matches RefreshStep::Done(Err(Error::MalformedResponse { detail: said }))
            && said@ == "the stored oauth bundle does not decode: "@ + detail@,
        Ok(bundle) => if !expired(bundle, now) {
            r == RefreshStep::Done(Ok(false))
        } else {
            match bundle.refresh_token {
                None => r == RefreshStep::Done(Ok(false)),
                Some(token) => r matches RefreshStep::Exchange(next) && next.env == s.env
                    && next.bundle == bundle && next.now == now && fields(next.form@)
                    == refresh_form(bundle, token@),
            }
        },
    }
}

/// When an access token that is good for `expires_in` seconds expires.
pub open spec fn expiry(now: u64, expires_in: Option<u64>) -> Option<u64> {
    match expires_in {
        Some(span) => Some(
            if now + span > u64::MAX {
                u64::MAX
            } else {
                (now + span) as u64
            },
        ),
        None => None,
    }
}

/// The bundle after a refresh. A refresh token that the server did not rotate
/// is kept: dropping it would make this the last refresh possible.
pub open spec fn next_bundle(bundle: OAuthBundle, now: u64, token: TokenResponse) -> OAuthBundle {
    OAuthBundle {
        refresh_token: match token.refresh_token {
            Some(rotated) => Some(rotated),
            None => bundle.refresh_token,
        },
        expires_at: expiry(now, token.expires_in),
        ..bundle
    }
}

/// What follows from the exchange.
pub open spec fn after_exchange(
    s: ExchangeRefresh,
    reply: Result<TokenResponse, Error>,
    r: RefreshStep,
) -> bool {
    match reply {
        Err(e) => r == RefreshStep::Done(Err(e)),
        Ok(token) => r matches RefreshStep::EncodeBundle(next) && next.env@ == s.env@.insert(
            AUTHORIZATION_KEY@,
            "Bearer "@ + token.access_token@,
        ) && next.bundle == next_bundle(s.bundle, s.now, token),
    }
}

/// Begins refreshing an install's token with its stored credentials.
pub fn begin_refresh(reply: Result<EnvMap, Error>) -> (r: RefreshStep)
    ensures
        begins(reply, r),
{
    match reply {
        Err(e) => RefreshStep::Done(Err(e)),
        Ok(env) => {
            let text = match env.get(OAUTH_BUNDLE_KEY) {
                Some(text) => text.clone(),
                None => {
                    return RefreshStep::Done(Ok(false));
                },
            };
            RefreshStep::DecodeBundle(DecodeBundle { env, text })
        },
    }
}

impl DecodeBundle {
    /// Answers with the bundle that the text holds, or why it holds none, at
    /// `now` in seconds of the Unix epoch.
    pub fn decoded(self, reply: Result<OAuthBundle, String>, now: u64) -> (r: RefreshStep)
        ensures
            after_decode(self, reply, now, r),
    {
        let bundle = match reply {
            Err(detail) => {
                return RefreshStep::Done(
                    Err(
                        Error::malformed(
                            text2("the stored oauth bundle does not decode: ", detail.as_str()),
                        ),
                    ),
                );
            },
            Ok(bundle) => bundle,
        };
        let due = match bundle.expires_at {
            Some(at) => at <= now,
            None => false,
        };
        if !due {
            return RefreshStep::Done(Ok(false));
        }
        let token = match &bundle.refresh_token {
            Some(token) => token.clone(),
            None => {
                return RefreshStep::Done(Ok(false));
            },
        };
        let ghost wanted = refresh_form(bundle, token@);
        let mut form: Vec<(String, String)> = Vec::new();
        form.push(("grant_type".to_owned(), "refresh_token".to_owned()));
        form.push(("refresh_token".to_owned(), token));
        form.push(("client_id".to_owned(), bundle.client_id.clone()));
        if let Some(secret) = &bundle.client_secret {
            form.push(("client_secret".to_owned(), secret.clone()));
        }
        proof {
            assert(fields(form@) =~= wanted);
        }
        RefreshStep::Exchange(ExchangeRefresh { env: self.env, bundle, now, form })
    }
}

impl ExchangeRefresh {
    /// Answers with what the token endpoint sent.
    pub fn exchanged(self, reply: Result<TokenResponse, Error>) -> (r: RefreshStep)
        ensures
            after_exchange(self, reply, r),
    {
        match reply {
            Err(e) => RefreshStep::Done(Err(e)),
            Ok(token) => {
                let mut env = self.env;
                env.insert(
                    AUTHORIZATION_KEY.to_owned(),
                    text2("Bearer ", token.access_token.as_str()),
                );
                let expires_at = match token.expires_in {
                    Some(span) => Some(
                        if span > u64::MAX - self.now {
                            u64::MAX
                        } else {
                            self.now + span
                        },
                    ),
                    None => None,
                };
                let refresh_token = match token.refresh_token {
                    Some(rotated) => Some(rotated),
                    None => self.bundle.refresh_token,
                };
                let bundle = OAuthBundle {
                    refresh_token,
                    client_id: self.bundle.client_id,
                    client_secret: self.bundle.client_secret,
                    token_endpoint: self.bundle.token_endpoint,
                    expires_at,
                };
                RefreshStep::EncodeBundle(EncodeBundle { env, bundle })
            },
        }
    }
}

impl EncodeBundle {
    /// Answers with the text that holds the bundle.
    pub fn encoded(self, text: String) -> (r: RefreshStep)
        ensures
            r matches RefreshStep::StoreEnv(next) && next.env@ == self.env@.insert(
                OAUTH_BUNDLE_KEY@,
                text@,
            ),
    {
        let mut env = self.env;
        env.insert(OAUTH_BUNDLE_KEY.to_owned(), text);
        RefreshStep::StoreEnv(StoreRefreshed { env })
    }
}

impl StoreRefreshed {
    /// Answers that the credentials are stored.
    pub fn stored(self, reply: Result<(), Error>) -> (r: RefreshStep)
        ensures
            match reply {
                Err(e) => r == RefreshStep::Done(Err(e)),
                Ok(_) => r matches RefreshStep::StoreNames(next) && crate::text::texts(next.names@)
                    == crate::env::names_of(self.env@),
            },
    {
        match reply {
            Err(e) => RefreshStep::Done(Err(e)),
            Ok(_) => RefreshStep::StoreNames(StoreRefreshedNames { names: self.env.names() }),
        }
    }
}

impl StoreRefreshedNames {
    /// Answers that the names are stored.
    pub fn stored(self, reply: Result<(), Error>) -> (r: RefreshStep)
        ensures
            r == match reply {
                Err(e) => RefreshStep::Done(Err(e)),
                Ok(_) => RefreshStep::Done(Ok(true)),
            },
    {
        match reply {
            Err(e) => RefreshStep::Done(Err(e)),
            Ok(_) => RefreshStep::Done(Ok(true)),
        }
    }
}

/// A refresh erases none of its user's other credentials: what is stored at
/// the end is what was stored before, but for the token and the bundle.
pub proof fn a_refresh_erases_no_other_credential(
    s: ExchangeRefresh,
    token: TokenResponse,
    encode: EncodeBundle,
    text: Seq<char>,
    name: Seq<char>,
)
    requires
        after_exchange(s, Ok(token), RefreshStep::EncodeBundle(encode)),
        name != AUTHORIZATION_KEY@,
        name != OAUTH_BUNDLE_KEY@,
    ensures
        ({
            let stored = encode.env@.insert(OAUTH_BUNDLE_KEY@, text);
            &&& stored.contains_key(name) <==> s.env@.contains_key(name)
            &&& s.env@.contains_key(name) ==> stored[name] == s.env@[name]
        }),
{
}

/// A refresh always leaves a bundle that can be refreshed again.
pub proof fn a_refresh_can_be_repeated(bundle: OAuthBundle, now: u64, token: TokenResponse)
    requires
        bundle.refresh_token is Some,
    ensures
        next_bundle(bundle, now, token).refresh_token is Some,
{
}

/// Whether a credential's name marks it as internal.
pub open spec fn internal(name: Seq<char>) -> bool {
    "__"@.is_prefix_of(name)
}

/// The bundle's name marks it as internal, and the access token's does not.
pub proof fn the_bundle_is_internal()
    ensures
        internal(OAUTH_BUNDLE_KEY@),
        !internal(AUTHORIZATION_KEY@),
        OAUTH_BUNDLE_KEY@ != AUTHORIZATION_KEY@,
{
    reveal_strlit("__");
    reveal_strlit("__oauth_bundle");
    reveal_strlit("Authorization");
    assert(OAUTH_BUNDLE_KEY@.subrange(0, 2) =~= "__"@);
    assert(AUTHORIZATION_KEY@[0] == 'A');
    if internal(AUTHORIZATION_KEY@) {
        assert(AUTHORIZATION_KEY@.subrange(0, 2)[0] == "__"@[0]);
    }
}

} // verus!
