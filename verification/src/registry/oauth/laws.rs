//! What holds of every sign-in and every refresh.
use vstd::prelude::*;

use super::detect::{AuthKind, AuthProbe};
use super::tokens::{DecodeBundle, ExchangeRefresh, OAuthBundle, RefreshStep, TokenResponse};

verus! {

/// Whether a form holds this field, with this value, exactly once.
pub open spec fn holds_once(form: Seq<(String, String)>, name: Seq<char>, value: Seq<char>) -> bool {
    exists|i: int|
        0 <= i < form.len() && (#[trigger] form[i]).0@ == name && form[i].1@ == value && forall|
            j: int,
        |
            0 <= j < form.len() && (#[trigger] form[j]).0@ == name ==> j == i
}

/// Whether a form holds no field of this name.
pub open spec fn holds_no(form: Seq<(String, String)>, name: Seq<char>) -> bool {
    forall|i: int| 0 <= i < form.len() ==> (#[trigger] form[i]).0@ != name
}

/// The four fields of a refresh have four names.
proof fn lemma_field_names()
    ensures
        "grant_type"@.len() == 10,
        "refresh_token"@.len() == 13,
        "client_id"@.len() == 9,
        "client_secret"@.len() == 13,
        "refresh_token"@ != "client_secret"@,
{
    reveal_strlit("grant_type");
    reveal_strlit("refresh_token");
    reveal_strlit("client_id");
    reveal_strlit("client_secret");
    assert("refresh_token"@[0] == 'r');
    assert("client_secret"@[0] == 'c');
}

/// Whatever the bundle, the form of a refresh names the grant, the stored
/// refresh token and the client, each once. It names the client's secret once
/// where the bundle has one, and not otherwise, and it holds nothing else.
pub proof fn a_refresh_says_who_asks_for_what(
    s: DecodeBundle,
    bundle: OAuthBundle,
    now: u64,
    next: ExchangeRefresh,
)
    requires
        super::tokens::after_decode(s, Ok(bundle), now, RefreshStep::Exchange(next)),
    ensures
        holds_once(next.form@, "grant_type"@, "refresh_token"@),
        bundle.refresh_token matches Some(token) && holds_once(
            next.form@,
            "refresh_token"@,
            token@,
        ),
        holds_once(next.form@, "client_id"@, bundle.client_id@),
        match bundle.client_secret {
            Some(secret) => next.form@.len() == 4 && holds_once(
                next.form@,
                "client_secret"@,
                secret@,
            ),
            None => next.form@.len() == 3 && holds_no(next.form@, "client_secret"@),
        },
        next.bundle == bundle,
        next.env == s.env,
        next.now == now,
{
    lemma_field_names();
    let form = next.form@;
    let said = super::tokens::fields(form);
    assert(said.len() == form.len());
    assert forall|i: int| 0 <= i < form.len() implies (#[trigger] form[i]).0@ == said[i].0
        && form[i].1@ == said[i].1 by {}
    assert(form[0].0@ == "grant_type"@);
    assert(form[1].0@ == "refresh_token"@);
    assert(form[2].0@ == "client_id"@);
    assert(holds_once(form, "grant_type"@, "refresh_token"@));
    assert(holds_once(form, "refresh_token"@, bundle.refresh_token->Some_0@));
    assert(holds_once(form, "client_id"@, bundle.client_id@));
    if bundle.client_secret is Some {
        assert(form[3].0@ == "client_secret"@);
        assert(holds_once(form, "client_secret"@, bundle.client_secret->Some_0@));
    }
}

/// A token is refreshed exactly where it has expired, the moment of its expiry
/// included, and there is a token to refresh it with. Otherwise nothing is done,
/// and that is no error.
pub proof fn a_refresh_is_made_exactly_where_it_is_due(
    s: DecodeBundle,
    bundle: OAuthBundle,
    now: u64,
    r: RefreshStep,
)
    requires
        super::tokens::after_decode(s, Ok(bundle), now, r),
    ensures
        r is Exchange <==> (bundle.refresh_token is Some && (bundle.expires_at matches Some(at)
            && at <= now)),
        !(r is Exchange) ==> r == RefreshStep::Done(Ok(false)),
{
}

/// What a refresh stores is the fresh token, as a bearer, in place of the one it
/// had, with every other credential as it was. The bundle keeps its client and
/// its endpoint, takes the rotated refresh token where there is one and keeps
/// its own where there is none, and expires after the span that was given,
/// counted from the exchange, or at no known time.
pub proof fn a_refresh_stores_what_was_sent(
    s: ExchangeRefresh,
    token: TokenResponse,
    next: super::tokens::EncodeBundle,
)
    requires
        super::tokens::after_exchange(s, Ok(token), RefreshStep::EncodeBundle(next)),
    ensures
        next.env@.contains_key("Authorization"@),
        next.env@["Authorization"@] == "Bearer "@ + token.access_token@,
        next.env@.remove("Authorization"@) == s.env@.remove("Authorization"@),
        next.bundle.client_id == s.bundle.client_id,
        next.bundle.client_secret == s.bundle.client_secret,
        next.bundle.token_endpoint == s.bundle.token_endpoint,
        token.refresh_token is Some ==> next.bundle.refresh_token == token.refresh_token,
        token.refresh_token is None ==> next.bundle.refresh_token == s.bundle.refresh_token,
        token.expires_in is None ==> next.bundle.expires_at is None,
        token.expires_in matches Some(span) ==> (next.bundle.expires_at matches Some(at) && (now_fits(
            s.now,
            span,
        ) ==> at == s.now + span) && (!now_fits(s.now, span) ==> at == u64::MAX)),
{
    assert(next.env@.remove("Authorization"@) =~= s.env@.remove("Authorization"@));
}

/// Whether a span counted from a moment ends within what can be counted.
pub open spec fn now_fits(now: u64, span: u64) -> bool {
    now + span <= u64::MAX
}

/// A token that was just refreshed for a span of its own is not refreshed again
/// before the span is over, and is when it is.
pub proof fn a_fresh_token_lasts_its_span(
    s: ExchangeRefresh,
    token: TokenResponse,
    next: super::tokens::EncodeBundle,
    span: u64,
    later: u64,
)
    requires
        super::tokens::after_exchange(s, Ok(token), RefreshStep::EncodeBundle(next)),
        token.expires_in == Some(span),
        now_fits(s.now, span),
    ensures
        super::tokens::expired(next.bundle, later) <==> later >= s.now + span,
{
}

/// A span of seconds that a token response gives in decimal is read as that
/// number, where it can be counted.
pub proof fn a_span_is_read_as_written(n: u64)
    ensures
        super::tokens::seconds(
            Some(crate::json::JsonView::Number(crate::text::decimal_text(n as nat))),
        ) == Some(n),
        super::tokens::seconds(None) is None,
{
    crate::text::decimal_is_read_back(n as nat);
}

/// A server that talks is open; one that asks for credentials wants a sign-in at
/// the authorization server it names, and a token where it names none; of one
/// that cannot be reached a token is asked for.
pub proof fn what_each_probe_means(probe: AuthProbe)
    ensures
        ({
            let wanted = super::detect::wants(probe);
            match probe {
                AuthProbe::Open => wanted.kind == AuthKind::Open && wanted.authorization_endpoint
                    is None,
                AuthProbe::Challenged { authorization_endpoint } => wanted.authorization_endpoint
                    == authorization_endpoint && (wanted.kind == AuthKind::OAuth
                    <==> authorization_endpoint is Some) && (wanted.kind == AuthKind::Token
                    <==> authorization_endpoint is None),
                AuthProbe::Unreachable => wanted.kind == AuthKind::Token
                    && wanted.authorization_endpoint is None,
            }
        }),
{
}

/// A token response is read as it was sent: it needs an access token and nothing
/// else, and its refresh token and its span are had exactly where they are sent
/// as a text and as a whole number that can be counted.
pub proof fn a_token_response_is_read_as_sent(
    document: crate::json::JsonView,
    r: Result<TokenResponse, crate::error::Error>,
    n: u64,
)
    requires
        super::tokens::token_read(document, r),
    ensures
        r is Ok <==> (crate::json::member(document, "access_token"@) matches Some(
            crate::json::JsonView::Text(_),
        )),
        r matches Err(e) ==> e is MalformedResponse,
        r matches Ok(parsed) ==> {
            &&& crate::json::member(document, "access_token"@) == Some(
                crate::json::JsonView::Text(parsed.access_token@),
            )
            &&& match crate::json::member(document, "refresh_token"@) {
                Some(crate::json::JsonView::Text(sent)) => parsed.refresh_token matches Some(had)
                    && had@ == sent,
                _ => parsed.refresh_token is None,
            }
            &&& crate::json::member(document, "expires_in"@) == Some(
                crate::json::JsonView::Number(crate::text::decimal_text(n as nat)),
            ) ==> parsed.expires_in == Some(n)
            &&& !(crate::json::member(document, "expires_in"@) matches Some(
                crate::json::JsonView::Number(_),
            )) ==> parsed.expires_in is None
        },
{
    a_span_is_read_as_written(n);
}

} // verus!
