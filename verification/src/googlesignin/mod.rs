//! Verification of Google sign-in ID tokens.
pub mod cache;
pub mod cache_header;
pub mod googlesigninerror;

use crate::googlesignin::cache::{find_kid, Cert, Certificates};
use crate::googlesignin::googlesigninerror::GoogleSignInError;
use crate::keyorder::{contains_str, str_equal};
use vstd::prelude::*;

verus! {

/// The checks that a token's claims must pass: the accepted audiences and
/// hosted domains. With no audience configured every token is refused; an
/// empty list of hosted domains accepts every domain.
pub struct GoogleSignInClient {
    pub audiences: Vec<String>,
    pub hosted_domains: Vec<String>,
}

/// The claims of a Google ID token; `EF` is the type of `email_verified`
/// and `TM` that of the times.
#[derive(Debug, Clone)]
pub struct IdInfo<EF = bool, TM = u64> {
    /// These six fields are included in all Google ID Tokens.
    pub iss: String,
    pub sub: String,
    pub azp: String,
    pub aud: String,
    pub iat: TM,
    pub exp: TM,
    /// This value indicates the user belongs to a Google Hosted Domain
    pub hd: Option<String>,
    /// These seven fields are only included when the user has granted the "profile" and
    /// "email" OAuth scopes to the application.
    pub email: Option<String>,
    pub email_verified: Option<EF>,
    pub name: Option<String>,
    pub picture: Option<String>,
    pub given_name: Option<String>,
    pub family_name: Option<String>,
    pub locale: Option<String>,
}

/// The text of each string of a list.
pub open spec fn string_views(v: Seq<String>) -> Seq<Seq<char>> {
    v.map_values(|s: String| s@)
}

/// The text of an optional string.
pub open spec fn opt_string_view(o: Option<String>) -> Option<Seq<char>> {
    match o {
        Some(s) => Some(s@),
        None => None,
    }
}

/// Google's two spellings of its issuer.
pub open spec fn google_issuer(iss: Seq<char>) -> bool {
    iss == "accounts.google.com"@ || iss == "https://accounts.google.com"@
}

/// The outcome of checking the issuer, audience and hosted domain of the
/// claims `info` against the accepted `audiences` and `domains`.
pub open spec fn claims_check(info: IdInfo, audiences: Seq<Seq<char>>, domains: Seq<Seq<char>>) -> Result<
    (),
    GoogleSignInError,
> {
    if !google_issuer(info.iss@) {
        Err(GoogleSignInError::InvalidIssuer)
    } else if !audiences.contains(info.aud@) {
        Err(GoogleSignInError::InvalidAudience)
    } else if domains.len() > 0 && !(match info.hd {
        Some(d) => domains.contains(d@),
        None => false,
    }) {
        Err(GoogleSignInError::InvalidHostedDomain)
    } else {
        Ok(())
    }
}

/// Whether a decoded token gave claims that pass the checks.
pub open spec fn passes(
    decoded: Result<IdInfo, GoogleSignInError>,
    audiences: Seq<Seq<char>>,
    domains: Seq<Seq<char>>,
) -> bool {
    match decoded {
        Ok(info) => claims_check(info, audiences, domains) is Ok,
        Err(_) => false,
    }
}

/// The first claims among the decoded tokens that pass the checks.
pub open spec fn first_passing(
    decoded: Seq<Result<IdInfo, GoogleSignInError>>,
    audiences: Seq<Seq<char>>,
    domains: Seq<Seq<char>>,
) -> Option<IdInfo>
    decreases decoded.len(),
{
    if decoded.len() == 0 {
        None
    } else {
        match decoded[0] {
            Ok(info) => if claims_check(info, audiences, domains) is Ok {
                Some(info)
            } else {
                first_passing(decoded.drop_first(), audiences, domains)
            },
            Err(_) => first_passing(decoded.drop_first(), audiences, domains),
        }
    }
}

/// The first error among the decoded tokens: that of the first certificate
/// against which the token could not be decoded.
pub open spec fn first_decoding_error(decoded: Seq<Result<IdInfo, GoogleSignInError>>) -> Option<
    GoogleSignInError,
>
    decreases decoded.len(),
{
    if decoded.len() == 0 {
        None
    } else {
        match decoded[0] {
            Err(e) => Some(e),
            Ok(_) => first_decoding_error(decoded.drop_first()),
        }
    }
}

/// The outcome of checking the token against each candidate certificate in
/// order: the first claims that decoded and pass the checks; when none does,
/// the first decoding error, or `InvalidToken` when every candidate decoded.
pub open spec fn first_accepted(
    decoded: Seq<Result<IdInfo, GoogleSignInError>>,
    audiences: Seq<Seq<char>>,
    domains: Seq<Seq<char>>,
) -> Result<IdInfo, GoogleSignInError> {
    match first_passing(decoded, audiences, domains) {
        Some(info) => Ok(info),
        None => match first_decoding_error(decoded) {
            Some(e) => Err(e),
            None => Err(GoogleSignInError::InvalidToken),
        },
    }
}

/// The key id named in the header of a JSON Web Token, as
/// `jsonwebtoken::decode_header` reads it: `None` when the header cannot be
/// decoded, `Some(None)` when it names no key.
pub uninterp spec fn jwt_header_kid(token: Seq<char>) -> Option<Option<Seq<char>>>;

/// Reads the key id from a token's header (`jsonwebtoken::decode_header`).
/// The result is named, not stated: decoding succeeds exactly when
/// `jwt_header_kid` of the token is some key id (or none).
#[verifier::external_body]
fn decode_header_kid(token: &str) -> (r: Result<Option<String>, jsonwebtoken::errors::Error>)
    ensures
        r is Ok <==> jwt_header_kid(token@) is Some,
        r matches Ok(kid) ==> jwt_header_kid(token@) == Some(opt_string_view(kid)),
{
    jsonwebtoken::decode_header(token).map(|header| header.kid)
}

impl GoogleSignInClient {
    /// The accepted audiences.
    pub open spec fn audience_views(&self) -> Seq<Seq<char>> {
        string_views(self.audiences@)
    }

    /// The accepted hosted domains.
    pub open spec fn domain_views(&self) -> Seq<Seq<char>> {
        string_views(self.hosted_domains@)
    }

    /// A client with no audience and no hosted domain configured; it refuses
    /// every token until an audience is added.
    pub fn new() -> (c: GoogleSignInClient)
        ensures
            c.audiences@.len() == 0,
            c.hosted_domains@.len() == 0,
    {
        GoogleSignInClient { audiences: Vec::new(), hosted_domains: Vec::new() }
    }

    /// The certificates against which the token's signature is to be checked:
    /// all cached ones when its header names no key id, else the one with that
    /// key id.
    ///
    /// Fails with the decoding error when the header cannot be read, and with
    /// `InvalidKey` when it names a key id that is not cached.
    pub fn candidate_certificates<'a>(&self, id_token: &str, cached_certs: &'a Certificates) -> (r: Result<
        Vec<&'a Cert>,
        GoogleSignInError,
    >)
        ensures
            match jwt_header_kid(id_token@) {
                None => r matches Err(GoogleSignInError::JSONWebToken(_)),
                Some(None) => r matches Ok(v) && v@.len() == cached_certs.entries().len()
                    && forall|i: int| 0 <= i < v@.len() ==> *(#[trigger] v@[i]) == cached_certs.entries()[i],
                Some(Some(k)) => match find_kid(cached_certs.entries(), k) {
                    Some(c) => r matches Ok(v) && v@.len() == 1 && *v@[0] == c,
                    None => r == Err::<Vec<&'a Cert>, GoogleSignInError>(GoogleSignInError::InvalidKey),
                },
            },
    {
        let kid = match decode_header_kid(id_token) {
            Ok(kid) => kid,
            Err(err) => {
                return Err(GoogleSignInError::from(err));
            },
        };
        cached_certs.get_range(&kid)
    }

    /// Picks the claims of the first candidate certificate against which the
    /// token decoded and whose claims pass the checks; a candidate against
    /// which the token did not decode is passed over.
    ///
    /// When none is accepted, fails with the first decoding error, or with
    /// `InvalidToken` when the token decoded against every candidate.
    pub fn select_claims(&self, decoded: Vec<Result<IdInfo, GoogleSignInError>>) -> (r: Result<
        IdInfo,
        GoogleSignInError,
    >)
        ensures
            r == first_accepted(decoded@, self.audience_views(), self.domain_views()),
    {
        let mut items = decoded;
        let ghost all = items@;
        let ghost auds = self.audience_views();
        let ghost doms = self.domain_views();
        let len = items.len();
        let mut i: usize = 0;
        let mut first_error: Option<usize> = None;
        assert(all.skip(0) =~= all);
        while i < len
            invariant
                items@ == all,
                all == decoded@,
                auds == self.audience_views(),
                doms == self.domain_views(),
                len == all.len(),
                i <= len,
                first_passing(all, auds, doms) == first_passing(all.skip(i as int), auds, doms),
                match first_error {
                    None => first_decoding_error(all) == first_decoding_error(all.skip(i as int)),
                    Some(j) => j < i && all[j as int] is Err && first_decoding_error(all) == Some(
                        all[j as int]->Err_0,
                    ),
                },
            decreases len - i,
        {
            let accept = match &items[i] {
                Err(_) => false,
                Ok(info) => {
                    let checked = info.verify(self);
                    checked.is_ok()
                },
            };
            proof {
                assert(all.skip(i as int)[0] == all[i as int]);
                assert(all.skip(i as int).drop_first() =~= all.skip(i + 1));
            }
            if accept {
                assert(first_passing(all.skip(i as int), auds, doms) == Some(all[i as int]->Ok_0));
                return items.remove(i);
            }
            if first_error.is_none() && items[i].is_err() {
                first_error = Some(i);
            }
            i = i + 1;
        }
        proof {
            assert(all.skip(len as int).len() == 0);
        }
        match first_error {
            Some(j) => match items.remove(j) {
                Err(e) => Err(e),
                Ok(_) => Err(GoogleSignInError::InvalidToken),
            },
            None => Err(GoogleSignInError::InvalidToken),
        }
    }
}

impl IdInfo {
    /// Checks the issuer, audiences, and (optionally) hosted domains of the claims.
    ///
    /// Returns an error if the client has no configured audiences; an empty
    /// list of hosted domains accepts any domain.
    pub fn verify(&self, client: &GoogleSignInClient) -> (r: Result<(), GoogleSignInError>)
        ensures
            r == claims_check(*self, client.audience_views(), client.domain_views()),
    {
        // Check the id was authorized by google
        if !(str_equal(self.iss.as_str(), "accounts.google.com") || str_equal(
            self.iss.as_str(),
            "https://accounts.google.com",
        )) {
            return Err(GoogleSignInError::InvalidIssuer);
        }
        proof {
            lemma_contains_view(client.audiences@, self.aud@);
            lemma_contains_view(client.hosted_domains@, opt_string_view(self.hd).unwrap_or(seq![]));
        }
        // Check the token belongs to the application(s)
        if !contains_str(&client.audiences, self.aud.as_str()) {
            return Err(GoogleSignInError::InvalidAudience);
        }
        // Check the token belongs to the hosted domain(s)
        if client.hosted_domains.len() > 0 {
            let member = match &self.hd {
                Some(domain) => contains_str(&client.hosted_domains, domain.as_str()),
                None => false,
            };
            if !member {
                return Err(GoogleSignInError::InvalidHostedDomain);
            }
        }
        Ok(())
    }
}

/// A list of strings contains a text exactly when one of its strings has that text.
proof fn lemma_contains_view(v: Seq<String>, s: Seq<char>)
    ensures
        string_views(v).contains(s) == exists|i: int| 0 <= i < v.len() && (#[trigger] v[i])@ == s,
        string_views(v).len() == v.len(),
{
    if exists|i: int| 0 <= i < v.len() && (#[trigger] v[i])@ == s {
        let i = choose|i: int| 0 <= i < v.len() && (#[trigger] v[i])@ == s;
        assert(string_views(v)[i] == s);
    }
}


/// The first passing claims are claims decoded from the token that pass the checks.
proof fn lemma_first_passing(
    decoded: Seq<Result<IdInfo, GoogleSignInError>>,
    audiences: Seq<Seq<char>>,
    domains: Seq<Seq<char>>,
)
    ensures
        first_passing(decoded, audiences, domains) matches Some(info) ==> decoded.contains(Ok(info))
            && claims_check(info, audiences, domains) is Ok,
        (exists|k: int| 0 <= k < decoded.len() && passes(#[trigger] decoded[k], audiences, domains)) ==> first_passing(decoded, audiences, domains) is Some,
    decreases decoded.len(),
{
    if decoded.len() > 0 {
        let rest = decoded.drop_first();
        lemma_first_passing(rest, audiences, domains);
        if let Some(info) = first_passing(decoded, audiences, domains) {
            if !passes(decoded[0], audiences, domains) {
                let j = choose|j: int| 0 <= j < rest.len() && rest[j] == Ok::<IdInfo, GoogleSignInError>(info);
                assert(decoded[j + 1] == Ok::<IdInfo, GoogleSignInError>(info));
            } else {
                assert(decoded[0] == Ok::<IdInfo, GoogleSignInError>(info));
            }
        }
        if exists|k: int| 0 <= k < decoded.len() && passes(#[trigger] decoded[k], audiences, domains) {
            let k = choose|k: int| 0 <= k < decoded.len() && passes(#[trigger] decoded[k], audiences, domains);
            if k > 0 {
                assert(rest[k - 1] == decoded[k]);
            }
        }
    }
}

/// Claims are accepted only when they were decoded from the token and pass
/// every check: issued by Google, for an accepted audience, and for an
/// accepted hosted domain when domains are configured.
pub proof fn law_accepted_claims_pass_checks(
    decoded: Seq<Result<IdInfo, GoogleSignInError>>,
    audiences: Seq<Seq<char>>,
    domains: Seq<Seq<char>>,
)
    ensures
        first_accepted(decoded, audiences, domains) matches Ok(info) ==> {
            &&& decoded.contains(Ok(info))
            &&& claims_check(info, audiences, domains) is Ok
            &&& google_issuer(info.iss@)
            &&& audiences.contains(info.aud@)
            &&& domains.len() > 0 ==> (info.hd matches Some(h) && domains.contains(h@))
        },
{
    lemma_first_passing(decoded, audiences, domains);
}

/// A client with no configured audience refuses every token.
pub proof fn law_no_audience_refuses_every_token(
    decoded: Seq<Result<IdInfo, GoogleSignInError>>,
    domains: Seq<Seq<char>>,
)
    ensures
        first_accepted(decoded, Seq::empty(), domains) is Err,
{
    law_accepted_claims_pass_checks(decoded, Seq::empty(), domains);
}

/// The claims check accepts exactly the claims issued by Google, for any one
/// of the configured audiences, and, when hosted domains are configured, for
/// one of those domains; with no hosted domain configured, every domain (and
/// none) is accepted.
pub proof fn law_claims_check_accepts(info: IdInfo, audiences: Seq<Seq<char>>, domains: Seq<Seq<char>>)
    ensures
        claims_check(info, audiences, domains) is Ok <==> {
            &&& google_issuer(info.iss@)
            &&& exists|i: int| 0 <= i < audiences.len() && audiences[i] == info.aud@
            &&& domains.len() == 0 || exists|h: String, j: int|
                info.hd == Some(h) && 0 <= j < domains.len() && domains[j] == h@
        },
        google_issuer(info.iss@) && audiences.contains(info.aud@) && domains.len() == 0 ==> claims_check(
            info,
            audiences,
            domains,
        ) is Ok,
{
    if let Some(h) = info.hd {
        if domains.contains(h@) {
            let j = choose|j: int| 0 <= j < domains.len() && domains[j] == h@;
            assert(info.hd == Some(h) && 0 <= j < domains.len() && domains[j] == h@);
        }
    }
    if audiences.contains(info.aud@) {
        let i = choose|i: int| 0 <= i < audiences.len() && audiences[i] == info.aud@;
        assert(0 <= i < audiences.len() && audiences[i] == info.aud@);
    }
}

/// A token is accepted when it decodes against any one of the candidate
/// certificates with claims that pass the checks, whatever the other
/// candidates gave.
pub proof fn law_token_signed_by_any_candidate_is_accepted(
    decoded: Seq<Result<IdInfo, GoogleSignInError>>,
    audiences: Seq<Seq<char>>,
    domains: Seq<Seq<char>>,
    k: int,
)
    requires
        0 <= k < decoded.len(),
        passes(decoded[k], audiences, domains),
    ensures
        first_accepted(decoded, audiences, domains) is Ok,
{
    lemma_first_passing(decoded, audiences, domains);
}
} // verus!
