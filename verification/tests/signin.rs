use stacks_exchange::googlesignin::cache::{Cache, Cert, Certificates, Lookup};
use stacks_exchange::googlesignin::cache_header::{expiry_from_header, header_overflows};
use stacks_exchange::googlesignin::googlesigninerror::GoogleSignInError;
use stacks_exchange::googlesignin::{GoogleSignInClient, IdInfo};

fn cert(kid: &str, n: &str) -> Cert {
    Cert::new(
        kid.to_string(),
        "AQAB".to_string(),
        "RSA".to_string(),
        "RS256".to_string(),
        n.to_string(),
        "sig".to_string(),
    )
}

fn claims(iss: &str, aud: &str, hd: Option<&str>) -> IdInfo {
    IdInfo {
        iss: iss.to_string(),
        sub: "110169484474386276334".to_string(),
        azp: "client".to_string(),
        aud: aud.to_string(),
        iat: 1_600_000_000,
        exp: 1_600_003_600,
        hd: hd.map(|s| s.to_string()),
        email: Some("someone@example.com".to_string()),
        email_verified: Some(true),
        name: None,
        picture: None,
        given_name: None,
        family_name: None,
        locale: None,
    }
}

#[test]
fn certificates_are_ordered_by_key_id() {
    let certs = Certificates::from_certs(vec![cert("b", "n1"), cert("a", "n2"), cert("c", "n3")], Some(100));
    let all = certs.get_range(&None).unwrap();
    let kids: Vec<&str> = all.iter().map(|c| c.get_kid()).collect();
    assert_eq!(kids, vec!["a", "b", "c"]);
    assert_eq!(all[0].get_n(), "n2");
    assert_eq!(all[0].get_e(), "AQAB");
}

#[test]
fn later_certificate_replaces_earlier_with_same_key_id() {
    let certs = Certificates::from_certs(vec![cert("k", "old"), cert("j", "other"), cert("k", "new")], None);
    let all = certs.get_range(&None).unwrap();
    assert_eq!(all.len(), 2);
    let found = certs.get_range(&Some("k".to_string())).unwrap();
    assert_eq!(found.len(), 1);
    assert_eq!(found[0].get_n(), "new");
}

#[test]
fn unknown_key_id_is_invalid_key() {
    let certs = Certificates::from_certs(vec![cert("k", "n")], None);
    match certs.get_range(&Some("missing".to_string())) {
        Err(GoogleSignInError::InvalidKey) => {}
        other => panic!("unexpected: {:?}", other.map(|v| v.len())),
    }
}

#[test]
fn byte_order_of_key_ids() {
    // "Z" (0x5a) sorts before "a" (0x61); a prefix sorts first.
    let certs = Certificates::from_certs(vec![cert("ab", "1"), cert("a", "2"), cert("Z", "3")], None);
    let kids: Vec<&str> = certs.get_range(&None).unwrap().iter().map(|c| c.get_kid()).collect();
    assert_eq!(kids, vec!["Z", "a", "ab"]);
}

#[test]
fn expiry_is_checked_against_time() {
    let certs = Certificates::from_certs(vec![cert("k", "n")], Some(1000));
    assert!(!certs.is_expired_at(999));
    assert!(certs.is_expired_at(1000));
    assert!(certs.is_expired_at(5000));
    let no_expiry = Certificates::from_certs(vec![cert("k", "n")], None);
    assert!(no_expiry.is_expired_at(0));
    assert!(no_expiry.is_expired());
    let far = Certificates::from_certs(vec![cert("k", "n")], Some(u64::MAX));
    assert!(!far.is_expired());
    // with no certificates at all, the cache counts as expired
    let empty = Certificates::from_certs(vec![], Some(u64::MAX));
    assert!(empty.is_expired_at(0));
    assert!(empty.is_expired());
}

#[test]
fn expiry_after_max_age() {
    assert_eq!(Certificates::expiry_after(Some(60)), Some(60));
    assert_eq!(Certificates::expiry_after(Some(0)), Some(0));
    assert_eq!(Certificates::expiry_after(Some(-5)), None);
    assert_eq!(Certificates::expiry_after(None), None);
}

#[test]
fn expiry_stays_once_reached() {
    let certs = Certificates::from_certs(vec![cert("k", "n")], Some(30));
    assert_eq!(certs.expiry(), Some(30));
    let copy = certs.clone();
    assert_eq!(copy.expiry(), Some(30));
    assert_eq!(copy.get_range(&None).unwrap()[0].get_kid(), "k");
    assert!(!certs.is_expired_at(29));
    for later in [30u64, 31, 1000, u64::MAX].iter() {
        assert!(certs.is_expired_at(*later));
    }
    // just keyed, with thirty seconds to go: the monotonic clock says fresh
    assert!(!certs.is_expired());
}

#[test]
fn lookup_reads_the_age_of_cached_certificates() {
    let mut cache = Cache::new();
    assert_eq!(cache.begin_lookup(), Lookup::StartRefresh);
    cache.complete_refresh(Certificates::from_certs(vec![cert("k", "n")], Some(3600)));
    assert_eq!(cache.begin_lookup(), Lookup::Cached);
    cache.complete_refresh(Certificates::from_certs(vec![cert("k", "n")], Some(0)));
    assert_eq!(cache.begin_lookup(), Lookup::StartRefresh);
}

#[test]
fn cache_control_durations_out_of_range_overflow() {
    assert!(!header_overflows("max-age=60"));
    assert!(!header_overflows("public, max-age=9223372036854775"));
    assert!(header_overflows("public, max-age=9223372036854776"));
    assert!(header_overflows(" min-fresh = -9223372036854776 "));
    assert!(!header_overflows("max-stale=-9223372036854775"));
    // a value that is no i64 is refused, not an overflow
    assert!(!header_overflows("max-age=99999999999999999999"));
    // a refused directive stops the reading before a later overflow
    assert!(!header_overflows("max-age, max-age=9223372036854776"));
    assert!(!header_overflows("max-age=x, max-age=9223372036854776"));
    // unknown directives are passed over
    assert!(header_overflows("no-cache, foo=bar,max-stale=+9223372036854776"));
    assert!(!header_overflows(""));
    assert!(!header_overflows("max-age2=9223372036854776"));
}

#[test]
fn cache_control_header_gives_the_expiry() {
    assert_eq!(expiry_from_header(Some("public, max-age=19845, must-revalidate, no-transform")), Some(19845));
    assert_eq!(expiry_from_header(Some("max-age=10, max-age=20")), Some(20));
    assert_eq!(expiry_from_header(Some("max-age=-1")), None);
    assert_eq!(expiry_from_header(Some("no-cache")), None);
    assert_eq!(expiry_from_header(Some("max-age=x")), None);
    assert_eq!(expiry_from_header(None), None);
}

#[test]
fn cache_fetches_once_then_serves() {
    let mut cache = Cache::new();
    assert!(cache.cached_certificates().is_none());
    assert_eq!(cache.begin_lookup_at(10), Lookup::StartRefresh);
    // a fetch is in flight: other lookups wait for it
    assert_eq!(cache.begin_lookup_at(11), Lookup::AwaitRefresh);
    assert_eq!(cache.begin_lookup_at(12), Lookup::AwaitRefresh);
    cache.complete_refresh(Certificates::from_certs(vec![cert("k", "n")], Some(100)));
    assert_eq!(cache.begin_lookup_at(50), Lookup::Cached);
    assert_eq!(cache.cached_certificates().unwrap().get_range(&None).unwrap().len(), 1);
    // once expired, a new fetch starts, and only one
    assert_eq!(cache.begin_lookup_at(100), Lookup::StartRefresh);
    assert_eq!(cache.begin_lookup_at(101), Lookup::AwaitRefresh);
    assert!(cache.cached_certificates().is_none());
}

#[test]
fn cache_without_expiry_refreshes_every_time_it_is_ready() {
    let mut cache = Cache::new();
    assert_eq!(cache.begin_lookup_at(0), Lookup::StartRefresh);
    cache.complete_refresh(Certificates::from_certs(vec![cert("k", "n")], None));
    assert_eq!(cache.begin_lookup_at(0), Lookup::StartRefresh);
    // an empty set of certificates is refreshed even before its expiry
    cache.complete_refresh(Certificates::from_certs(vec![], Some(1000)));
    assert_eq!(cache.begin_lookup_at(1), Lookup::StartRefresh);
}

fn client_for(audience: &str) -> GoogleSignInClient {
    let mut client = GoogleSignInClient::new();
    client.audiences.push(audience.to_string());
    client
}

#[test]
fn claims_from_google_pass() {
    let client = client_for("x");
    assert!(claims("accounts.google.com", "x", None).verify(&client).is_ok());
    assert!(claims("https://accounts.google.com", "x", None).verify(&client).is_ok());
}

#[test]
fn client_without_audiences_refuses_every_token() {
    let client = GoogleSignInClient::new();
    match claims("accounts.google.com", "x", None).verify(&client) {
        Err(GoogleSignInError::InvalidAudience) => {}
        _ => panic!("expected InvalidAudience"),
    }
    match client.select_claims(vec![Ok(claims("accounts.google.com", "x", None))]) {
        Err(GoogleSignInError::InvalidToken) => {}
        _ => panic!("expected InvalidToken"),
    }
}

#[test]
fn claims_from_other_issuer_fail() {
    let client = GoogleSignInClient::new();
    match claims("evil.example.com", "x", None).verify(&client) {
        Err(GoogleSignInError::InvalidIssuer) => {}
        _ => panic!("expected InvalidIssuer"),
    }
}

#[test]
fn claims_for_other_audience_fail() {
    let mut client = GoogleSignInClient::new();
    client.audiences.push("mine".to_string());
    assert!(claims("accounts.google.com", "mine", None).verify(&client).is_ok());
    match claims("accounts.google.com", "theirs", None).verify(&client) {
        Err(GoogleSignInError::InvalidAudience) => {}
        _ => panic!("expected InvalidAudience"),
    }
}

#[test]
fn claims_outside_hosted_domain_fail() {
    let mut client = client_for("a");
    client.hosted_domains.push("example.com".to_string());
    assert!(claims("accounts.google.com", "a", Some("example.com")).verify(&client).is_ok());
    match claims("accounts.google.com", "a", Some("other.com")).verify(&client) {
        Err(GoogleSignInError::InvalidHostedDomain) => {}
        _ => panic!("expected InvalidHostedDomain"),
    }
    match claims("accounts.google.com", "a", None).verify(&client) {
        Err(GoogleSignInError::InvalidHostedDomain) => {}
        _ => panic!("expected InvalidHostedDomain"),
    }
}

#[test]
fn select_claims_takes_first_accepted() {
    let mut client = GoogleSignInClient::new();
    client.audiences.push("mine".to_string());
    let decoded = vec![
        Ok(claims("accounts.google.com", "theirs", None)),
        Ok(claims("accounts.google.com", "mine", None)),
        Err(GoogleSignInError::InvalidKey),
    ];
    let info = client.select_claims(decoded).unwrap();
    assert_eq!(info.aud, "mine");
}

#[test]
fn select_claims_passes_over_decoding_errors() {
    let client = client_for("x");
    let decoded = vec![Err(GoogleSignInError::InvalidKey), Ok(claims("accounts.google.com", "x", None))];
    let info = client.select_claims(decoded).unwrap();
    assert_eq!(info.aud, "x");
}

#[test]
fn select_claims_without_acceptable_claims_gives_first_decoding_error() {
    let client = client_for("x");
    let decoded = vec![
        Ok(claims("nobody", "x", None)),
        Err(GoogleSignInError::InvalidKey),
        Err(GoogleSignInError::InvalidToken),
    ];
    match client.select_claims(decoded) {
        Err(GoogleSignInError::InvalidKey) => {}
        _ => panic!("expected the first decoding error"),
    }
}

#[test]
fn select_claims_without_acceptable_claims_is_invalid_token() {
    let client = GoogleSignInClient::new();
    match client.select_claims(vec![]) {
        Err(GoogleSignInError::InvalidToken) => {}
        _ => panic!("expected InvalidToken"),
    }
    match client.select_claims(vec![Ok(claims("nobody", "x", None))]) {
        Err(GoogleSignInError::InvalidToken) => {}
        _ => panic!("expected InvalidToken"),
    }
}

#[test]
fn candidate_certificates_follow_the_header() {
    let client = GoogleSignInClient::new();
    let certs = Certificates::from_certs(vec![cert("k1", "a"), cert("k2", "b")], None);
    // header {"alg":"RS256","kid":"k2","typ":"JWT"}
    let with_kid = "eyJhbGciOiJSUzI1NiIsImtpZCI6ImsyIiwidHlwIjoiSldUIn0.e30.c2ln";
    let found = client.candidate_certificates(with_kid, &certs).unwrap();
    assert_eq!(found.len(), 1);
    assert_eq!(found[0].get_n(), "b");
    // header {"alg":"RS256","typ":"JWT"}
    let without_kid = "eyJhbGciOiJSUzI1NiIsInR5cCI6IkpXVCJ9.e30.c2ln";
    assert_eq!(client.candidate_certificates(without_kid, &certs).unwrap().len(), 2);
    // header {"alg":"RS256","kid":"zz","typ":"JWT"}
    let unknown = "eyJhbGciOiJSUzI1NiIsImtpZCI6Inp6IiwidHlwIjoiSldUIn0.e30.c2ln";
    match client.candidate_certificates(unknown, &certs) {
        Err(GoogleSignInError::InvalidKey) => {}
        _ => panic!("expected InvalidKey"),
    }
    match client.candidate_certificates("not a token", &certs) {
        Err(GoogleSignInError::JSONWebToken(_)) => {}
        _ => panic!("expected a JWT error"),
    }
}

#[test]
fn error_descriptions_and_messages() {
    assert_eq!(GoogleSignInError::InvalidKey.description(), "invalid key");
    assert_eq!(GoogleSignInError::InvalidToken.description(), "invalid token");
    assert_eq!(GoogleSignInError::InvalidIssuer.description(), "invalid issuer");
    assert_eq!(GoogleSignInError::InvalidAudience.description(), "invalid audience");
    assert_eq!(GoogleSignInError::InvalidHostedDomain.description(), "invalid hosted domain");
    assert_eq!(GoogleSignInError::ConnectionError("down".to_string()).description(), "connection error");
    assert_eq!(GoogleSignInError::InvalidKey.message(), "Token does not match any known key");
    assert_eq!(GoogleSignInError::InvalidToken.message(), "Token was not recognized by google");
    assert_eq!(GoogleSignInError::InvalidIssuer.message(), "Token was not issued by google");
    assert_eq!(GoogleSignInError::InvalidAudience.message(), "Token is for a different google application");
    assert_eq!(
        GoogleSignInError::InvalidHostedDomain.message(),
        "User is not a member of the hosted domain(s)"
    );
    assert_eq!(GoogleSignInError::ConnectionError("down".to_string()).message(), "down");
    let json_err = serde_json::from_str::<u32>("x").unwrap_err();
    let text = json_err.to_string();
    let e = GoogleSignInError::from(json_err);
    assert_eq!(e.description(), "json decoding err");
    assert_eq!(e.message(), text);
    let jwt_err = jsonwebtoken::decode_header("nope").unwrap_err();
    let text = jwt_err.to_string();
    let e = GoogleSignInError::from(jwt_err);
    assert_eq!(e.description(), "JWT error");
    assert_eq!(e.message(), text);
}
