//! What a lookup requests, and what it makes of the answers.

use docker_checker::error::Error;
use docker_checker::lookup::{
    token_request, Event, Lookup, ManifestAnswer, ProbeAnswer, Step, TokenAnswer, MANIFEST_ACCEPT,
};
use docker_checker::token::{TokenCache, TokenResponse};

const CHALLENGE: &str = "Bearer realm=\"https://auth.docker.io/token\",service=\"registry.docker.io\",scope=\"repository:library/nginx:pull\"";

fn challenge(status: u16, header: &[u8]) -> Event {
    Event::Probed(Some(ProbeAnswer { status, www_authenticate: Some(header.to_vec()) }))
}

fn token_answer(status: u16, body: &str, parsed: Result<TokenResponse, String>) -> Event {
    Event::TokenFetched(Ok(TokenAnswer { status, body: body.to_string(), parsed }))
}

fn good_token() -> Result<TokenResponse, String> {
    Ok(TokenResponse { token: Some("tok".to_string()), access_token: None, expires_in: Some(300) })
}

fn manifest(status: u16, digest: Option<&[u8]>) -> Event {
    Event::ManifestAsked(Ok(ManifestAnswer { status, digest: digest.map(|d| d.to_vec()) }))
}

fn message(step: Step) -> String {
    match step {
        Step::Done { outcome: Err(e) } => e.message(),
        _ => panic!("the lookup goes on"),
    }
}

fn authorization(step: Step) -> String {
    match step {
        Step::AskManifest { authorization, .. } => authorization,
        _ => panic!("the manifest is not asked for"),
    }
}

/// A lookup that waits for a token.
fn waiting_for_token(image: &str, cache: &mut TokenCache) -> Lookup {
    let (mut lookup, _) = Lookup::begin(image, cache, 0);
    match lookup.step(challenge(401, CHALLENGE.as_bytes()), cache, 0, 0) {
        Step::FetchToken { .. } => lookup,
        _ => panic!("no token is fetched"),
    }
}

/// A lookup that waits for the manifest.
fn waiting_for_manifest(image: &str) -> (Lookup, TokenCache) {
    let mut cache = TokenCache::new();
    let (mut lookup, _) = Lookup::begin(image, &cache, 0);
    assert_eq!(authorization(lookup.step(Event::Probed(None), &mut cache, 0, 0)), "Bearer ");
    (lookup, cache)
}

#[test]
fn whole_lookup_with_a_token() {
    let mut cache = TokenCache::new();
    let (mut lookup, step) = Lookup::begin("nginx:alpine", &cache, 0);
    match step {
        Step::Probe { url } => assert_eq!(
            url,
            "https://registry-1.docker.io/v2/library/nginx/manifests/latest"
        ),
        _ => panic!("no probe"),
    }
    match lookup.step(challenge(401, CHALLENGE.as_bytes()), &mut cache, 1, 0) {
        Step::FetchToken { realm, query } => {
            assert_eq!(realm, "https://auth.docker.io/token");
            assert_eq!(
                query,
                vec![
                    ("service".to_string(), "registry.docker.io".to_string()),
                    ("scope".to_string(), "repository:library/nginx:pull".to_string()),
                ]
            );
        }
        _ => panic!("no token is fetched"),
    }
    match lookup.step(token_answer(200, "{}", good_token()), &mut cache, 2, 0) {
        Step::AskManifest { url, accept, authorization } => {
            assert_eq!(url, "https://registry-1.docker.io/v2/library/nginx/manifests/alpine");
            assert_eq!(accept, MANIFEST_ACCEPT);
            assert_eq!(authorization, "Bearer tok");
        }
        _ => panic!("the manifest is not asked for"),
    }
    match lookup.step(manifest(200, Some(b"sha256:abc")), &mut cache, 3, 0) {
        Step::Done { outcome } => assert_eq!(outcome.unwrap(), "sha256:abc"),
        _ => panic!("the lookup goes on"),
    }
}

#[test]
fn kept_token_saves_the_probe() {
    let mut cache = TokenCache::new();
    let mut lookup = waiting_for_token("nginx:1", &mut cache);
    lookup.step(token_answer(200, "{}", good_token()), &mut cache, 7, 0);
    let (_, step) = Lookup::begin("nginx:2", &cache, 8);
    assert_eq!(authorization(step), "Bearer tok");
    let (_, step) = Lookup::begin("nginx:2", &cache, 300_000_000_006);
    assert_eq!(authorization(step), "Bearer tok");
    let (_, step) = Lookup::begin("nginx:2", &cache, 300_000_000_007);
    assert!(matches!(step, Step::Probe { .. }));
    let (_, step) = Lookup::begin("redis", &cache, 8);
    assert!(matches!(step, Step::Probe { .. }));
}

#[test]
fn token_is_not_used_at_another_registry() {
    let mut cache = TokenCache::new();
    let mut lookup = waiting_for_token("localhost/5000:x@sha256:d", &mut cache);
    lookup.step(token_answer(200, "{}", good_token()), &mut cache, 0, 0);
    let (_, step) = Lookup::begin("localhost/5000:x@sha256:e", &cache, 1);
    assert_eq!(authorization(step), "Bearer tok");
    let (_, step) = Lookup::begin("localhost:5000/x", &cache, 1);
    assert!(matches!(step, Step::Probe { .. }));
}

#[test]
fn no_challenge_means_the_empty_token() {
    let mut cache = TokenCache::new();
    for event in [
        Event::Probed(None),
        Event::Probed(Some(ProbeAnswer { status: 401, www_authenticate: None })),
        challenge(200, CHALLENGE.as_bytes()),
        challenge(403, CHALLENGE.as_bytes()),
        challenge(401, b"Bearer realm=\"\xff\""),
    ] {
        let (mut lookup, _) = Lookup::begin("x.example/i", &TokenCache::new(), 0);
        assert_eq!(authorization(lookup.step(event, &mut cache, 0, 0)), "Bearer ");
    }
    assert_eq!(cache.get("https://x.example", "i", 1).unwrap(), "");
}

#[test]
fn empty_token_is_kept_ten_seconds_less_than_the_default() {
    let (_, cache) = waiting_for_manifest("nginx");
    let (_, step) = Lookup::begin("nginx", &cache, 289_999_999_999);
    assert_eq!(authorization(step), "Bearer ");
    let (_, step) = Lookup::begin("nginx", &cache, 290_000_000_000);
    assert!(matches!(step, Step::Probe { .. }));
}

#[test]
fn token_without_a_lifetime_is_kept_as_long() {
    let mut cache = TokenCache::new();
    let mut lookup = waiting_for_token("nginx", &mut cache);
    let parsed =
        Ok(TokenResponse { token: None, access_token: Some("tok".to_string()), expires_in: None });
    lookup.step(token_answer(200, "{}", parsed), &mut cache, 0, 0);
    let (_, step) = Lookup::begin("nginx", &cache, 289_999_999_999);
    assert_eq!(authorization(step), "Bearer tok");
    let (_, step) = Lookup::begin("nginx", &cache, 295_000_000_000);
    assert!(matches!(step, Step::Probe { .. }));
}

#[test]
fn challenges_that_are_not_understood() {
    let mut cache = TokenCache::new();
    let (mut lookup, _) = Lookup::begin("nginx", &cache, 0);
    let step = lookup.step(challenge(401, b"Basic realm=\"x\""), &mut cache, 0, 0);
    assert_eq!(
        message(step),
        "Failed to parse WWW-Authenticate header: Basic realm=\"x\""
    );
    let (mut lookup, _) = Lookup::begin("nginx", &cache, 0);
    let step = lookup.step(challenge(401, b"Bearer service=\"x\""), &mut cache, 0, 0);
    assert_eq!(message(step), "Failed to parse WWW-Authenticate header: missing realm");
    assert!(cache.get("https://registry-1.docker.io", "library/nginx", 1).is_none());
}

#[test]
fn request_names_only_what_the_challenge_names() {
    let (realm, query) = token_request("Bearer realm=\"r\",scope=\"s\"").unwrap();
    assert_eq!(realm, "r");
    assert_eq!(query, vec![("scope".to_string(), "s".to_string())]);
    assert!(token_request("Bearer realm=\"r\"").unwrap().1.is_empty());
    let (realm, query) = token_request("Bearer realm=\"r\", service=\"t\",\t scope=\"s\"").unwrap();
    assert_eq!(realm, "r");
    assert_eq!(
        query,
        vec![("service".to_string(), "t".to_string()), ("scope".to_string(), "s".to_string())]
    );
}

#[test]
fn token_server_refuses() {
    let mut cache = TokenCache::new();
    let mut lookup = waiting_for_token("nginx", &mut cache);
    let step = lookup.step(token_answer(404, "gone", good_token()), &mut cache, 0, 0);
    assert_eq!(
        message(step),
        "Registry authentication failed for https://auth.docker.io/token: token endpoint returned 404 Not Found: gone"
    );
    let mut lookup = waiting_for_token("nginx", &mut cache);
    let step = lookup.step(token_answer(599, "", good_token()), &mut cache, 0, 0);
    assert_eq!(
        message(step),
        "Registry authentication failed for https://auth.docker.io/token: token endpoint returned 599 <unknown status code>: "
    );
}

#[test]
fn token_answer_that_cannot_be_read() {
    let mut cache = TokenCache::new();
    for (verbosity, reason) in [
        (0, "failed to parse token response: bad"),
        (2, "failed to parse token response: bad"),
        (3, "failed to parse token response (bad): body"),
    ] {
        let mut lookup = waiting_for_token("nginx", &mut cache);
        let event = token_answer(200, "body", Err("bad".to_string()));
        assert_eq!(
            message(lookup.step(event, &mut cache, 0, verbosity)),
            format!(
                "Registry authentication failed for https://auth.docker.io/token: {}",
                reason
            )
        );
    }
}

#[test]
fn token_answer_without_a_token() {
    let mut cache = TokenCache::new();
    let mut lookup = waiting_for_token("nginx", &mut cache);
    let parsed = Ok(TokenResponse { token: None, access_token: None, expires_in: Some(1) });
    assert_eq!(
        message(lookup.step(token_answer(200, "{}", parsed), &mut cache, 0, 0)),
        "Registry authentication failed for https://auth.docker.io/token: token response contained no token field"
    );
}

#[test]
fn requests_that_fail() {
    let mut cache = TokenCache::new();
    let mut lookup = waiting_for_token("nginx", &mut cache);
    let event = Event::TokenFetched(Err("timeout".to_string()));
    assert_eq!(message(lookup.step(event, &mut cache, 0, 0)), "HTTP error: timeout");
    let (mut lookup, mut cache) = waiting_for_manifest("nginx");
    let event = Event::ManifestAsked(Err("reset".to_string()));
    assert_eq!(message(lookup.step(event, &mut cache, 0, 0)), "HTTP error: reset");
}

#[test]
fn registry_refuses_the_manifest() {
    let (mut lookup, mut cache) = waiting_for_manifest("ghcr.io/a/b:c");
    assert_eq!(
        message(lookup.step(manifest(401, None), &mut cache, 0, 0)),
        "Registry authentication failed for https://ghcr.io: unauthorized — image may be private or require Docker Hub login"
    );
    let (mut lookup, mut cache) = waiting_for_manifest("ghcr.io/a/b:c");
    assert_eq!(
        message(lookup.step(manifest(404, Some(b"sha256:1")), &mut cache, 0, 0)),
        "No manifest found for ghcr.io/a/b:c"
    );
}

#[test]
fn manifest_without_a_digest() {
    for digest in [None, Some(&b"sha256:\xc3\xa4"[..]), Some(&b"a\x7f"[..])] {
        let (mut lookup, mut cache) = waiting_for_manifest("nginx");
        assert_eq!(
            message(lookup.step(manifest(200, digest), &mut cache, 0, 0)),
            "Missing 'Docker-Content-Digest' header for nginx"
        );
    }
}

#[test]
fn digest_may_hold_blanks_and_tabs() {
    let (mut lookup, mut cache) = waiting_for_manifest("nginx");
    match lookup.step(manifest(299, Some(b"a \t~")), &mut cache, 0, 0) {
        Step::Done { outcome } => assert_eq!(outcome.unwrap(), "a \t~"),
        _ => panic!("the lookup goes on"),
    }
}

#[test]
fn lists_and_single_manifests_are_accepted() {
    let kinds: Vec<&str> = MANIFEST_ACCEPT.split(',').collect();
    assert_eq!(
        kinds,
        [
            "application/vnd.docker.distribution.manifest.list.v2+json",
            "application/vnd.oci.image.index.v1+json",
            "application/vnd.docker.distribution.manifest.v2+json",
            "application/vnd.oci.image.manifest.v1+json",
        ]
    );
}

#[test]
fn docker_error_in_words() {
    assert_eq!(Error::Docker("down".to_string()).message(), "Docker API error: down");
}
