//! Asking a registry for the digest of an image: what to request next, and what an answer means.
//!
//! A lookup makes at most three requests. Without a token at hand it first probes the registry
//! without one. Where the registry asks for a token, it is fetched from the server that the
//! registry names. Then the registry is asked for the manifest of the image, and its digest
//! stands in a header of the answer.

use vstd::prelude::*;

use crate::challenge;
use crate::error::{Error, ErrorView};
use crate::http;
use crate::registry;
use crate::text;
use crate::token;
use crate::token::{KeptTokens, TokenCache, TokenResponse};
use crate::types::opt_text;

verus! {

/// The kinds of manifest that are asked for: lists for several platforms, and single manifests.
pub const MANIFEST_ACCEPT: &'static str = "application/vnd.docker.distribution.manifest.list.v2+json,application/vnd.oci.image.index.v1+json,application/vnd.docker.distribution.manifest.v2+json,application/vnd.oci.image.manifest.v1+json";

/// The answer to a probe.
pub struct ProbeAnswer {
    pub status: u16,
    /// The bytes of the header `WWW-Authenticate`, if the answer has it.
    pub www_authenticate: Option<Vec<u8>>,
}

/// The answer of a server that gives out tokens.
pub struct TokenAnswer {
    pub status: u16,
    pub body: String,
    /// The body read as JSON, or why it cannot be read.
    pub parsed: Result<TokenResponse, String>,
}

/// The answer to the question for a manifest.
pub struct ManifestAnswer {
    pub status: u16,
    /// The bytes of the header `Docker-Content-Digest`, if the answer has it.
    pub digest: Option<Vec<u8>>,
}

/// What came of a request.
pub enum Event {
    /// The probe was answered, or failed.
    Probed(Option<ProbeAnswer>),
    /// The server that gives out tokens answered, or the request failed for a reason.
    TokenFetched(Result<TokenAnswer, String>),
    /// The registry answered about the manifest, or the request failed for a reason.
    ManifestAsked(Result<ManifestAnswer, String>),
}

/// What to do next.
pub enum Step {
    /// Request the headers of `url`, without a token.
    Probe { url: String },
    /// Request `realm` with these parameters.
    FetchToken { realm: String, query: Vec<(String, String)> },
    /// Request the headers of `url` with these values of `Accept` and `Authorization`.
    AskManifest { url: String, accept: &'static str, authorization: String },
    /// Nothing: this is the digest of the image, or why there is none.
    Done { outcome: Result<String, Error> },
}

/// What a [`Step`] says.
pub enum StepView {
    Probe { url: Seq<char> },
    FetchToken { realm: Seq<char>, query: Seq<(Seq<char>, Seq<char>)> },
    AskManifest { url: Seq<char>, accept: Seq<char>, authorization: Seq<char> },
    Done { outcome: Result<Seq<char>, ErrorView> },
}

/// What the outcome of a lookup says.
pub open spec fn outcome_view(outcome: Result<String, Error>) -> Result<Seq<char>, ErrorView> {
    match outcome {
        Ok(digest) => Ok(digest@),
        Err(error) => Err(error@),
    }
}

/// What the parameters of a request say.
pub open spec fn query_view(query: Seq<(String, String)>) -> Seq<(Seq<char>, Seq<char>)> {
    query.map_values(|pair: (String, String)| (pair.0@, pair.1@))
}

impl View for Step {
    type V = StepView;

    open spec fn view(&self) -> StepView {
        match self {
            Step::Probe { url } => StepView::Probe { url: url@ },
            Step::FetchToken { realm, query } => StepView::FetchToken {
                realm: realm@,
                query: query_view(query@),
            },
            Step::AskManifest { url, accept, authorization } => StepView::AskManifest {
                url: url@,
                accept: accept@,
                authorization: authorization@,
            },
            Step::Done { outcome } => StepView::Done { outcome: outcome_view(*outcome) },
        }
    }
}

/// How far a lookup has come: the request whose answer it waits for.
pub enum Stage {
    Probing,
    FetchingToken { realm: String },
    AskingManifest,
    Finished,
}

/// What a [`Stage`] says.
pub enum StageView {
    Probing,
    FetchingToken { realm: Seq<char> },
    AskingManifest,
    Finished,
}

impl View for Stage {
    type V = StageView;

    open spec fn view(&self) -> StageView {
        match self {
            Stage::Probing => StageView::Probing,
            Stage::FetchingToken { realm } => StageView::FetchingToken { realm: realm@ },
            Stage::AskingManifest => StageView::AskingManifest,
            Stage::Finished => StageView::Finished,
        }
    }
}

/// The stage in which a lookup waits for what comes of `step`.
pub open spec fn stage_after(step: StepView) -> StageView {
    match step {
        StepView::Probe { .. } => StageView::Probing,
        StepView::FetchToken { realm, .. } => StageView::FetchingToken { realm },
        StepView::AskManifest { .. } => StageView::AskingManifest,
        StepView::Done { .. } => StageView::Finished,
    }
}

/// The address at which an image is probed.
pub open spec fn probe_url(registry_url: Seq<char>, name: Seq<char>) -> Seq<char> {
    registry_url + "/v2/"@ + name + "/manifests/latest"@
}

/// The address of a manifest.
pub open spec fn manifest_url(
    registry_url: Seq<char>,
    name: Seq<char>,
    reference: Seq<char>,
) -> Seq<char> {
    registry_url + "/v2/"@ + name + "/manifests/"@ + reference
}

/// The question for the manifest of the image reference `image`, with the token `token`.
pub open spec fn manifest_question(image: Seq<char>, token: Seq<char>) -> StepView {
    let (registry_url, name, reference) = registry::resolved(image);
    StepView::AskManifest {
        url: manifest_url(registry_url, name, reference),
        accept: MANIFEST_ACCEPT@,
        authorization: "Bearer "@ + token,
    }
}

/// The first step of a lookup: with a token at hand the manifest is asked for at once.
pub open spec fn first_step(image: Seq<char>, cache: KeptTokens, now: nat) -> StepView {
    let (registry_url, name, _) = registry::resolved(image);
    match token::live_token(cache, registry_url, name, now) {
        Some(token) => manifest_question(image, token),
        None => StepView::Probe { url: probe_url(registry_url, name) },
    }
}

/// The challenge in the answer to a probe: only a probe that is refused for want of a token
/// brings one.
pub open spec fn probe_challenge(answer: Option<ProbeAnswer>) -> Option<Seq<char>> {
    match answer {
        Some(ProbeAnswer { status, www_authenticate: Some(value) }) => if status
            == http::UNAUTHORIZED {
            http::header_value_text(value@)
        } else {
            None
        },
        _ => None,
    }
}

/// The parameter `key` of a challenge as a parameter of a request.
pub open spec fn passed_on(
    params: Map<Seq<char>, Seq<char>>,
    key: Seq<char>,
) -> Seq<(Seq<char>, Seq<char>)> {
    if params.contains_key(key) {
        seq![(key, params[key])]
    } else {
        seq![]
    }
}

/// The request for a token that the challenge `header` calls for: its realm is asked, with the
/// service and the scope that it names.
pub open spec fn token_question(header: Seq<char>) -> Result<
    (Seq<char>, Seq<(Seq<char>, Seq<char>)>),
    ErrorView,
> {
    match challenge::challenge_params(header) {
        None => Err(ErrorView::AuthHeader(header)),
        Some(params) => if params.contains_key("realm"@) {
            Ok((params["realm"@], passed_on(params, "service"@) + passed_on(params, "scope"@)))
        } else {
            Err(ErrorView::AuthHeader("missing realm"@))
        },
    }
}

/// The step after a probe, and the cache then. Without a challenge the empty token is used.
pub open spec fn step_after_probe(
    image: Seq<char>,
    answer: Option<ProbeAnswer>,
    cache: KeptTokens,
    now: nat,
) -> (StepView, KeptTokens) {
    let (registry_url, name, _) = registry::resolved(image);
    match probe_challenge(answer) {
        Some(header) => match token_question(header) {
            Ok((realm, query)) => (StepView::FetchToken { realm, query }, cache),
            Err(error) => (StepView::Done { outcome: Err(error) }, cache),
        },
        None => (
            manifest_question(image, Seq::empty()),
            token::with_token(cache, registry_url, name, Seq::empty(), None, now),
        ),
    }
}

/// That the server `realm`, which gives out tokens, refused with the status `status`, in words.
pub open spec fn refusal(realm: Seq<char>, status: Seq<char>, body: Seq<char>) -> ErrorView {
    ErrorView::Auth {
        registry: realm,
        reason: "token endpoint returned "@ + status + ": "@ + body,
    }
}

/// That the answer of the server `realm` cannot be read, for the reason `reason`. The answer may
/// hold a token, so it is shown only to those who want to see everything.
pub open spec fn unreadable(
    realm: Seq<char>,
    reason: Seq<char>,
    body: Seq<char>,
    verbosity: u8,
) -> ErrorView {
    ErrorView::Auth {
        registry: realm,
        reason: if verbosity >= 3 {
            "failed to parse token response ("@ + reason + "): "@ + body
        } else {
            "failed to parse token response: "@ + reason
        },
    }
}

/// The token that the server `realm` gave out, and how many seconds it is good for, where
/// the server says so.
pub open spec fn token_outcome(
    realm: Seq<char>,
    answer: Result<TokenAnswer, String>,
    verbosity: u8,
) -> Result<(Seq<char>, Option<u64>), ErrorView> {
    match answer {
        Err(reason) => Err(ErrorView::Http(reason@)),
        Ok(answer) => if !http::is_success(answer.status) {
            Err(refusal(realm, http::status_line(answer.status), answer.body@))
        } else {
            match answer.parsed {
                Err(reason) => Err(unreadable(realm, reason@, answer.body@, verbosity)),
                Ok(response) => match response.given_token() {
                    Some(token) => Ok((token, response.expires_in)),
                    None => Err(
                        ErrorView::Auth {
                            registry: realm,
                            reason: "token response contained no token field"@,
                        },
                    ),
                },
            }
        },
    }
}

/// The step after a token was asked for, and the cache then.
pub open spec fn step_after_token(
    image: Seq<char>,
    outcome: Result<(Seq<char>, Option<u64>), ErrorView>,
    cache: KeptTokens,
    now: nat,
) -> (StepView, KeptTokens) {
    let (registry_url, name, _) = registry::resolved(image);
    match outcome {
        Ok((token, expires_in)) => (
            manifest_question(image, token),
            token::with_token(cache, registry_url, name, token, expires_in, now),
        ),
        Err(error) => (StepView::Done { outcome: Err(error) }, cache),
    }
}

/// The digest that the registry gave for the image reference `image`.
pub open spec fn manifest_outcome(
    image: Seq<char>,
    answer: Result<ManifestAnswer, String>,
) -> Result<Seq<char>, ErrorView> {
    match answer {
        Err(reason) => Err(ErrorView::Http(reason@)),
        Ok(answer) => if answer.status == http::UNAUTHORIZED {
            Err(
                ErrorView::Auth {
                    registry: registry::resolved(image).0,
                    reason: "unauthorized — image may be private or require Docker Hub login"@,
                },
            )
        } else if !http::is_success(answer.status) {
            Err(ErrorView::NoManifest { image })
        } else {
            match answer.digest {
                None => Err(ErrorView::MissingDigest { image }),
                Some(value) => match http::header_value_text(value@) {
                    None => Err(ErrorView::MissingDigest { image }),
                    Some(digest) => Ok(digest),
                },
            }
        },
    }
}

/// Whether a lookup in the stage `stage` waits for `event`.
pub open spec fn waits_for(stage: StageView, event: Event) -> bool {
    match event {
        Event::Probed(_) => stage is Probing,
        Event::TokenFetched(answer) => stage is FetchingToken && (answer matches Ok(answer)
            ==> http::is_status(answer.status)),
        Event::ManifestAsked(_) => stage is AskingManifest,
    }
}

/// The step after `event`, and the cache then.
pub open spec fn next_step(
    image: Seq<char>,
    stage: StageView,
    event: Event,
    cache: KeptTokens,
    now: nat,
    verbosity: u8,
) -> (StepView, KeptTokens) {
    match event {
        Event::Probed(answer) => step_after_probe(image, answer, cache, now),
        Event::TokenFetched(answer) => step_after_token(
            image,
            token_outcome(stage->realm, answer, verbosity),
            cache,
            now,
        ),
        Event::ManifestAsked(answer) => (
            StepView::Done { outcome: manifest_outcome(image, answer) },
            cache,
        ),
    }
}

/// The challenge in the answer to a probe, if there is one.
fn challenge_of(answer: Option<ProbeAnswer>) -> (header: Option<String>)
    ensures
        opt_text(header) == probe_challenge(answer),
{
    match answer {
        Some(answer) => match answer.www_authenticate {
            Some(value) => if answer.status == http::UNAUTHORIZED {
                http::header_text(&value)
            } else {
                None
            },
            None => None,
        },
        None => None,
    }
}

/// The request for a token that a challenge calls for: the realm, and the parameters.
pub fn token_request(www_auth: &str) -> (request: Result<(String, Vec<(String, String)>), Error>)
    ensures
        match request {
            Ok((realm, query)) => token_question(www_auth@) == Ok::<
                (Seq<char>, Seq<(Seq<char>, Seq<char>)>),
                ErrorView,
            >((realm@, query_view(query@))),
            Err(error) => token_question(www_auth@) == Err::<
                (Seq<char>, Seq<(Seq<char>, Seq<char>)>),
                ErrorView,
            >(error@),
        },
{
    let params = match challenge::parse_www_authenticate(www_auth) {
        Some(params) => params,
        None => {
            return Err(Error::AuthHeader(www_auth.to_string()));
        },
    };
    let realm = match params.get("realm") {
        Some(realm) => realm.clone(),
        None => {
            return Err(Error::AuthHeader("missing realm".to_string()));
        },
    };
    let mut query: Vec<(String, String)> = Vec::new();
    assert(query_view(query@) =~= seq![]);
    if let Some(service) = params.get("service") {
        query.push(("service".to_string(), service.clone()));
    }
    assert(query_view(query@) =~= passed_on(params@, "service"@));
    if let Some(scope) = params.get("scope") {
        query.push(("scope".to_string(), scope.clone()));
    }
    assert(query_view(query@) =~= passed_on(params@, "service"@) + passed_on(params@, "scope"@));
    Ok((realm, query))
}

/// That the server `realm`, which gives out tokens, refused with the status `status`, in words.
pub fn token_refused(realm: &str, status: &str, body: &str) -> (error: Error)
    ensures
        error@ == refusal(realm@, status@, body@),
{
    Error::Auth {
        registry: realm.to_string(),
        reason: text::concat4("token endpoint returned ", status, ": ", body),
    }
}

/// That the answer of the server `realm` cannot be read.
pub fn token_unreadable(realm: &str, reason: &str, body: &str, verbosity: u8) -> (error: Error)
    ensures
        error@ == unreadable(realm@, reason@, body@, verbosity),
{
    let reason = if verbosity >= 3 {
        text::concat4("failed to parse token response (", reason, "): ", body)
    } else {
        text::concat2("failed to parse token response: ", reason)
    };
    Error::Auth { registry: realm.to_string(), reason }
}

/// The token that the server `realm` gave out, and how many seconds it is good for, where
/// the server says so.
pub fn token_from(realm: &str, answer: Result<TokenAnswer, String>, verbosity: u8) -> (outcome:
    Result<(String, Option<u64>), Error>)
    requires
        answer matches Ok(answer) ==> http::is_status(answer.status),
    ensures
        match outcome {
            Ok((token, expires_in)) => token_outcome(realm@, answer, verbosity) == Ok::<
                (Seq<char>, Option<u64>),
                ErrorView,
            >((token@, expires_in)),
            Err(error) => token_outcome(realm@, answer, verbosity) == Err::<
                (Seq<char>, Option<u64>),
                ErrorView,
            >(error@),
        },
{
    let answer = match answer {
        Ok(answer) => answer,
        Err(reason) => {
            return Err(Error::Http(reason));
        },
    };
    if !http::succeeded(answer.status) {
        let status = http::status_text(answer.status);
        return Err(token_refused(realm, status.as_str(), answer.body.as_str()));
    }
    let response = match answer.parsed {
        Ok(response) => response,
        Err(reason) => {
            return Err(token_unreadable(realm, reason.as_str(), answer.body.as_str(), verbosity));
        },
    };
    let expires_in = response.expires_in;
    match response.into_token() {
        Some(token) => Ok((token, expires_in)),
        None => Err(
            Error::Auth {
                registry: realm.to_string(),
                reason: "token response contained no token field".to_string(),
            },
        ),
    }
}

/// A lookup of the digest that a registry has for an image reference.
pub struct Lookup {
    image_ref: String,
    registry_url: String,
    name: String,
    reference: String,
    stage: Stage,
}

impl Lookup {
    #[verifier::type_invariant]
    spec fn wf(self) -> bool {
        (self.registry_url@, self.name@, self.reference@) == registry::resolved(self.image_ref@)
    }

    /// The image reference that is looked up.
    pub closed spec fn image(self) -> Seq<char> {
        self.image_ref@
    }

    /// How far the lookup has come.
    pub closed spec fn stage(self) -> StageView {
        self.stage@
    }

    /// The question for the manifest, with the token `token`.
    fn ask_manifest(&self, token: &str) -> (step: Step)
        ensures
            step@ == manifest_question(self.image(), token@),
    {
        proof {
            use_type_invariant(self);
        }
        let base = text::concat4(self.registry_url.as_str(), "/v2/", self.name.as_str(), "/manifests/");
        Step::AskManifest {
            url: text::concat2(base.as_str(), self.reference.as_str()),
            accept: MANIFEST_ACCEPT,
            authorization: text::concat2("Bearer ", token),
        }
    }

    /// Starts a lookup at the time `now`, in nanoseconds since some fixed moment.
    pub fn begin(image_ref: &str, cache: &TokenCache, now: u64) -> (begun: (Lookup, Step))
        ensures
            begun.0.image() == image_ref@,
            begun.1@ == first_step(image_ref@, cache@, now as nat),
            begun.0.stage() == stage_after(begun.1@),
    {
        let (registry_url, name, reference) = registry::parse_image_ref(image_ref);
        match cache.get(registry_url.as_str(), name.as_str(), now) {
            Some(token) => {
                let lookup = Lookup {
                    image_ref: image_ref.to_string(),
                    registry_url,
                    name,
                    reference,
                    stage: Stage::AskingManifest,
                };
                let step = lookup.ask_manifest(token.as_str());
                (lookup, step)
            },
            None => {
                let url = text::concat4(
                    registry_url.as_str(),
                    "/v2/",
                    name.as_str(),
                    "/manifests/latest",
                );
                let lookup = Lookup {
                    image_ref: image_ref.to_string(),
                    registry_url,
                    name,
                    reference,
                    stage: Stage::Probing,
                };
                (lookup, Step::Probe { url })
            },
        }
    }

    /// Goes on after a probe.
    fn after_probe(&self, answer: Option<ProbeAnswer>, cache: &mut TokenCache, now: u64) -> (step:
        Step)
        ensures
            (step@, final(cache)@) == step_after_probe(
                self.image(),
                answer,
                old(cache)@,
                now as nat,
            ),
    {
        proof {
            use_type_invariant(self);
        }
        match challenge_of(answer) {
            Some(header) => match token_request(header.as_str()) {
                Ok((realm, query)) => Step::FetchToken { realm, query },
                Err(error) => Step::Done { outcome: Err(error) },
            },
            None => {
                let token = String::new();
                cache.store(
                    self.registry_url.as_str(),
                    self.name.as_str(),
                    token.as_str(),
                    None,
                    now,
                );
                self.ask_manifest(token.as_str())
            },
        }
    }

    /// Goes on after a token was asked for.
    fn after_token(
        &self,
        outcome: Result<(String, Option<u64>), Error>,
        cache: &mut TokenCache,
        now: u64,
    ) -> (step: Step)
        ensures
            (step@, final(cache)@) == step_after_token(
                self.image(),
                match outcome {
                    Ok((token, expires_in)) => Ok((token@, expires_in)),
                    Err(error) => Err(error@),
                },
                old(cache)@,
                now as nat,
            ),
    {
        proof {
            use_type_invariant(self);
        }
        match outcome {
            Ok((token, expires_in)) => {
                cache.store(
                    self.registry_url.as_str(),
                    self.name.as_str(),
                    token.as_str(),
                    expires_in,
                    now,
                );
                self.ask_manifest(token.as_str())
            },
            Err(error) => Step::Done { outcome: Err(error) },
        }
    }

    /// What the answer about the manifest means.
    fn digest_from(&self, answer: Result<ManifestAnswer, String>) -> (outcome: Result<
        String,
        Error,
    >)
        ensures
            outcome_view(outcome) == manifest_outcome(self.image(), answer),
    {
        proof {
            use_type_invariant(self);
        }
        let answer = match answer {
            Ok(answer) => answer,
            Err(reason) => {
                return Err(Error::Http(reason));
            },
        };
        if answer.status == http::UNAUTHORIZED {
            return Err(
                Error::Auth {
                    registry: self.registry_url.clone(),
                    reason: "unauthorized — image may be private or require Docker Hub login".to_string(),
                },
            );
        }
        if !http::succeeded(answer.status) {
            return Err(Error::NoManifest { image: self.image_ref.clone() });
        }
        let digest = match answer.digest {
            Some(value) => http::header_text(&value),
            None => None,
        };
        match digest {
            Some(digest) => Ok(digest),
            None => Err(Error::MissingDigest { image: self.image_ref.clone() }),
        }
    }

    /// Goes on after `event`, which happened at the time `now`. Tokens that were obtained go to
    /// `cache`.
    pub fn step(&mut self, event: Event, cache: &mut TokenCache, now: u64, verbosity: u8) -> (step:
        Step)
        requires
            waits_for(old(self).stage(), event),
        ensures
            (step@, final(cache)@) == next_step(
                old(self).image(),
                old(self).stage(),
                event,
                old(cache)@,
                now as nat,
                verbosity,
            ),
            final(self).image() == old(self).image(),
            final(self).stage() == stage_after(step@),
    {
        proof {
            use_type_invariant(&*self);
        }
        let step = match event {
            Event::Probed(answer) => self.after_probe(answer, cache, now),
            Event::TokenFetched(answer) => match &self.stage {
                Stage::FetchingToken { realm } => {
                    let outcome = token_from(realm.as_str(), answer, verbosity);
                    self.after_token(outcome, cache, now)
                },
                _ => vstd::pervasive::unreached(),
            },
            Event::ManifestAsked(answer) => Step::Done { outcome: self.digest_from(answer) },
        };
        self.stage = match &step {
            Step::Probe { .. } => Stage::Probing,
            Step::FetchToken { realm, .. } => Stage::FetchingToken { realm: realm.clone() },
            Step::AskManifest { .. } => Stage::AskingManifest,
            Step::Done { .. } => Stage::Finished,
        };
        step
    }
}

/// How many requests a lookup in the stage `stage` may still make.
pub open spec fn requests_left(stage: StageView) -> nat {
    match stage {
        StageView::Probing => 3,
        StageView::FetchingToken { .. } => 2,
        StageView::AskingManifest => 1,
        StageView::Finished => 0,
    }
}

/// Every answer brings a lookup nearer to its end, so that it makes at most three requests.
pub proof fn lookup_comes_to_an_end(
    image: Seq<char>,
    stage: StageView,
    event: Event,
    cache: KeptTokens,
    now: nat,
    verbosity: u8,
)
    requires
        waits_for(stage, event),
    ensures
        requests_left(
            stage_after(next_step(image, stage, event, cache, now, verbosity).0),
        ) < requests_left(stage),
        requests_left(stage_after(first_step(image, cache, now))) <= 3,
{
}

/// A registry that asks for no token is asked for the manifest with an empty one.
pub proof fn no_challenge_no_token(
    image: Seq<char>,
    answer: Option<ProbeAnswer>,
    cache: KeptTokens,
    now: nat,
)
    requires
        answer matches Some(answer) ==> answer.status != http::UNAUTHORIZED
            || answer.www_authenticate is None,
    ensures
        step_after_probe(image, answer, cache, now).0 == manifest_question(image, Seq::empty()),
{
}

/// A challenge that is written out with its realm, service and scope in quotes, with or without
/// white space after the commas, leads to a request to that realm for that service and scope.
pub proof fn challenge_is_followed(
    realm: Seq<char>,
    service: Seq<char>,
    scope: Seq<char>,
    space: Seq<char>,
)
    requires
        !realm.contains('"'),
        !service.contains('"'),
        !scope.contains('"'),
        text::is_blank(space),
    ensures
        token_question(
            "Bearer "@ + challenge::written(
                seq![("realm"@, realm), ("service"@, service), ("scope"@, scope)],
                space,
            ),
        ) == Ok::<(Seq<char>, Seq<(Seq<char>, Seq<char>)>), ErrorView>(
            (realm, seq![("service"@, service), ("scope"@, scope)]),
        ),
{
    let params = seq![("realm"@, realm), ("service"@, service), ("scope"@, scope)];
    reveal_strlit("realm");
    reveal_strlit("service");
    reveal_strlit("scope");
    assert("realm"@ != "service"@ && "service"@ != "scope"@ && "realm"@ != "scope"@) by {
        assert("realm"@.len() != "service"@.len());
        assert("service"@.len() != "scope"@.len());
        assert("realm"@[0] != "scope"@[0]);
    }
    assert(text::trimmed("realm"@) == "realm"@);
    assert(text::trimmed("service"@) == "service"@);
    assert(text::trimmed("scope"@) == "scope"@);
    challenge::challenge_read_back(params, space);
    reveal_with_fuel(challenge::param_map, 4);
    assert(params.drop_last().drop_last().drop_last() =~= seq![]);
    let map = challenge::param_map(params);
    assert(params.drop_last().last() == ("service"@, service));
    assert(params.drop_last().drop_last().last() == ("realm"@, realm));
    assert(passed_on(map, "service"@) + passed_on(map, "scope"@) =~= seq![
        ("service"@, service),
        ("scope"@, scope),
    ]);
}

/// The whole exchange with a registry that asks for a token: the registry is probed, the server
/// that it names is asked for a token, and with that token, which is kept, the registry is asked
/// for the manifest.
pub proof fn whole_exchange(
    image: Seq<char>,
    cache: KeptTokens,
    started: nat,
    probe: ProbeAnswer,
    header: Seq<char>,
    realm: Seq<char>,
    query: Seq<(Seq<char>, Seq<char>)>,
    probed: nat,
    answer: TokenAnswer,
    response: TokenResponse,
    token: Seq<char>,
    fetched: nat,
    verbosity: u8,
)
    requires
        token::live_token(
            cache,
            registry::resolved(image).0,
            registry::resolved(image).1,
            started,
        ) is None,
        probe_challenge(Some(probe)) == Some(header),
        token_question(header) == Ok::<(Seq<char>, Seq<(Seq<char>, Seq<char>)>), ErrorView>(
            (realm, query),
        ),
        http::is_success(answer.status),
        answer.parsed == Ok::<TokenResponse, String>(response),
        response.given_token() == Some(token),
    ensures
        ({
            let (registry_url, name, _) = registry::resolved(image);
            let first = first_step(image, cache, started);
            let second = next_step(
                image,
                stage_after(first),
                Event::Probed(Some(probe)),
                cache,
                probed,
                verbosity,
            );
            let third = next_step(
                image,
                stage_after(second.0),
                Event::TokenFetched(Ok(answer)),
                second.1,
                fetched,
                verbosity,
            );
            &&& first == StepView::Probe { url: probe_url(registry_url, name) }
            &&& second == (StepView::FetchToken { realm, query }, cache)
            &&& third == (
                manifest_question(image, token),
                token::with_token(cache, registry_url, name, token, response.expires_in, fetched),
            )
        }),
{
}

/// Whether a lookup of `other` at the time `now` with the tokens `after` begins as it should after
/// `token` was added to `cache` for `image`, to be used until `time_is_up`.
pub open spec fn serves_until(
    image: Seq<char>,
    cache: KeptTokens,
    token: Seq<char>,
    after: KeptTokens,
    time_is_up: int,
    now: nat,
    other: Seq<char>,
) -> bool {
    let (registry_url, name, _) = registry::resolved(image);
    let (other_url, other_name, _) = registry::resolved(other);
    if (other_url, other_name) == (registry_url, name) {
        if now < time_is_up {
            first_step(other, after, now) == manifest_question(other, token)
        } else {
            first_step(other, after, now) == StepView::Probe { url: probe_url(registry_url, name) }
        }
    } else {
        first_step(other, after, now) == first_step(other, cache, now)
    }
}

/// A token that was fetched for an image is used as long as the server says that it is good for:
/// until then every lookup at the same registry of an image of the same name asks for the manifest
/// at once, with that token, and after that the registry is probed again. Lookups of other images,
/// or at other registries, begin as if the token had not been fetched.
pub proof fn token_serves_its_image_for_its_lifetime(
    image: Seq<char>,
    cache: KeptTokens,
    token: Seq<char>,
    expires_in: u64,
    obtained: nat,
    now: nat,
    other: Seq<char>,
)
    ensures
        serves_until(
            image,
            cache,
            token,
            step_after_token(image, Ok((token, Some(expires_in))), cache, obtained).1,
            obtained + expires_in * token::NANOS_PER_SECOND,
            now,
            other,
        ),
{
}

/// Where no lifetime is reported, a token is used for 290 seconds: a token that was fetched
/// without one, and the empty token of a registry that asks for none.
pub proof fn token_without_a_lifetime_serves_its_image(
    image: Seq<char>,
    cache: KeptTokens,
    token: Seq<char>,
    answer: Option<ProbeAnswer>,
    obtained: nat,
    now: nat,
    other: Seq<char>,
)
    ensures
        serves_until(
            image,
            cache,
            token,
            step_after_token(image, Ok((token, None)), cache, obtained).1,
            obtained + 290 * token::NANOS_PER_SECOND,
            now,
            other,
        ),
        probe_challenge(answer) is None ==> serves_until(
            image,
            cache,
            Seq::empty(),
            step_after_probe(image, answer, cache, obtained).1,
            obtained + 290 * token::NANOS_PER_SECOND,
            now,
            other,
        ),
{
}

/// A digest is reported only where the registry was asked and answered with it, and the last
/// answer of a lookup leaves the tokens alone.
pub proof fn digest_only_from_the_registry(
    image: Seq<char>,
    stage: StageView,
    event: Event,
    cache: KeptTokens,
    now: nat,
    verbosity: u8,
)
    requires
        waits_for(stage, event),
    ensures
        ({
            let (step, after) = next_step(image, stage, event, cache, now, verbosity);
            &&& step matches StepView::Done { outcome: Ok(digest) } ==> {
                &&& event matches Event::ManifestAsked(Ok(answer))
                &&& http::is_success(answer.status)
                &&& answer.digest matches Some(value)
                &&& http::header_value_text(value@) == Some(digest)
            }
            &&& step is Done ==> after == cache
        }),
{
}

/// The manifest that is asked for is that of the tag or digest that the reference gives, at the
/// registry that it gives and under its whole path there; the probe is for the latest one.
pub proof fn manifest_at_a_registry(
    host: Seq<char>,
    path: Seq<char>,
    tag: Seq<char>,
    digest: Seq<char>,
    stage: StageView,
    event: Event,
    cache: KeptTokens,
    now: nat,
    verbosity: u8,
)
    requires
        host.contains('.') || host.contains(':') || host == "localhost"@,
        !host.contains('/') && !host.contains('@'),
        !path.contains('@'),
        !tag.contains('@') && !tag.contains(':') && !tag.contains('/'),
    ensures
        ({
            let name = host + seq!['/'] + path;
            let base = (if host == "docker.io"@ {
                "https://registry-1.docker.io"@
            } else {
                "https://"@ + host
            }) + "/v2/"@ + path + "/manifests/"@;
            let tagged = name + seq![':'] + tag;
            let pinned = name + seq!['@'] + digest;
            let asked_tag = if tag.len() > 0 {
                tag
            } else {
                "latest"@
            };
            let asked_digest = if digest.len() > 0 {
                digest
            } else {
                "latest"@
            };
            &&& first_step(tagged, cache, now) matches StepView::AskManifest { url, .. } ==> url == base + asked_tag
            &&& next_step(tagged, stage, event, cache, now, verbosity).0 matches StepView::AskManifest {
                url,
                ..
            } ==> url == base + asked_tag
            &&& first_step(tagged, cache, now) matches StepView::Probe { url } ==> url == base + "latest"@
            &&& first_step(pinned, cache, now) matches StepView::AskManifest { url, .. } ==> url == base + asked_digest
            &&& next_step(pinned, stage, event, cache, now, verbosity).0 matches StepView::AskManifest {
                url,
                ..
            } ==> url == base + asked_digest
            &&& first_step(pinned, cache, now) matches StepView::Probe { url } ==> url == base + "latest"@
            &&& !registry::has_tag(name) ==> (first_step(name, cache, now) matches StepView::AskManifest { url, .. } ==> url == base + "latest"@)
            &&& !registry::has_tag(name) ==> (next_step(name, stage, event, cache, now, verbosity).0 matches StepView::AskManifest {
                url,
                ..
            } ==> url == base + "latest"@)
            &&& !registry::has_tag(name) ==> (first_step(name, cache, now) matches StepView::Probe { url } ==> url == base + "latest"@)
        }),
{
    registry::image_at_a_registry(host, path, tag, digest);
    nothing_after(host + seq!['/'] + path, tag, digest);
    ends_with_latest((if host == "docker.io"@ {
        "https://registry-1.docker.io"@
    } else {
        "https://"@ + host
    }) + "/v2/"@ + path);
}

/// The same for an image of a user of the hub, which is found there under the names of both.
pub proof fn manifest_of_a_users_image(
    user: Seq<char>,
    image: Seq<char>,
    tag: Seq<char>,
    digest: Seq<char>,
    stage: StageView,
    event: Event,
    cache: KeptTokens,
    now: nat,
    verbosity: u8,
)
    requires
        !user.contains('.') && !user.contains(':') && user != "localhost"@,
        !user.contains('/') && !user.contains('@'),
        !image.contains('@'),
        !tag.contains('@') && !tag.contains(':') && !tag.contains('/'),
    ensures
        ({
            let name = user + seq!['/'] + image;
            let base = "https://registry-1.docker.io/v2/"@ + name + "/manifests/"@;
            let tagged = name + seq![':'] + tag;
            let pinned = name + seq!['@'] + digest;
            let asked_tag = if tag.len() > 0 {
                tag
            } else {
                "latest"@
            };
            let asked_digest = if digest.len() > 0 {
                digest
            } else {
                "latest"@
            };
            &&& first_step(tagged, cache, now) matches StepView::AskManifest { url, .. } ==> url == base + asked_tag
            &&& next_step(tagged, stage, event, cache, now, verbosity).0 matches StepView::AskManifest {
                url,
                ..
            } ==> url == base + asked_tag
            &&& first_step(tagged, cache, now) matches StepView::Probe { url } ==> url == base + "latest"@
            &&& first_step(pinned, cache, now) matches StepView::AskManifest { url, .. } ==> url == base + asked_digest
            &&& next_step(pinned, stage, event, cache, now, verbosity).0 matches StepView::AskManifest {
                url,
                ..
            } ==> url == base + asked_digest
            &&& first_step(pinned, cache, now) matches StepView::Probe { url } ==> url == base + "latest"@
            &&& !registry::has_tag(name) ==> (first_step(name, cache, now) matches StepView::AskManifest { url, .. } ==> url == base + "latest"@)
            &&& !registry::has_tag(name) ==> (next_step(name, stage, event, cache, now, verbosity).0 matches StepView::AskManifest {
                url,
                ..
            } ==> url == base + "latest"@)
            &&& !registry::has_tag(name) ==> (first_step(name, cache, now) matches StepView::Probe { url } ==> url == base + "latest"@)
        }),
{
    registry::image_of_a_user(user, image, tag, digest);
    nothing_after(user + seq!['/'] + image, tag, digest);
    hub_address();
    ends_with_latest("https://registry-1.docker.io/v2/"@ + (user + seq!['/'] + image));
}

/// The same for an official image, which is found at the hub as one of the owner `library`.
pub proof fn manifest_of_an_official_image(
    name: Seq<char>,
    tag: Seq<char>,
    digest: Seq<char>,
    stage: StageView,
    event: Event,
    cache: KeptTokens,
    now: nat,
    verbosity: u8,
)
    requires
        !name.contains('/') && !name.contains('@'),
        !tag.contains('@') && !tag.contains(':') && !tag.contains('/'),
    ensures
        ({
            let base = "https://registry-1.docker.io/v2/library/"@ + name + "/manifests/"@;
            let tagged = name + seq![':'] + tag;
            let pinned = name + seq!['@'] + digest;
            let asked_tag = if tag.len() > 0 {
                tag
            } else {
                "latest"@
            };
            let asked_digest = if digest.len() > 0 {
                digest
            } else {
                "latest"@
            };
            &&& first_step(tagged, cache, now) matches StepView::AskManifest { url, .. } ==> url == base + asked_tag
            &&& next_step(tagged, stage, event, cache, now, verbosity).0 matches StepView::AskManifest {
                url,
                ..
            } ==> url == base + asked_tag
            &&& first_step(tagged, cache, now) matches StepView::Probe { url } ==> url == base + "latest"@
            &&& first_step(pinned, cache, now) matches StepView::AskManifest { url, .. } ==> url == base + asked_digest
            &&& next_step(pinned, stage, event, cache, now, verbosity).0 matches StepView::AskManifest {
                url,
                ..
            } ==> url == base + asked_digest
            &&& first_step(pinned, cache, now) matches StepView::Probe { url } ==> url == base + "latest"@
            &&& !registry::has_tag(name) ==> (first_step(name, cache, now) matches StepView::AskManifest { url, .. } ==> url == base + "latest"@)
            &&& !registry::has_tag(name) ==> (next_step(name, stage, event, cache, now, verbosity).0 matches StepView::AskManifest {
                url,
                ..
            } ==> url == base + "latest"@)
            &&& !registry::has_tag(name) ==> (first_step(name, cache, now) matches StepView::Probe { url } ==> url == base + "latest"@)
        }),
{
    registry::official_image(name, tag, digest);
    nothing_after(name, tag, digest);
    hub_address();
    reveal_strlit("https://registry-1.docker.io/v2/");
    reveal_strlit("library/");
    reveal_strlit("https://registry-1.docker.io/v2/library/");
    assert("https://registry-1.docker.io/v2/"@ + ("library/"@ + name)
        =~= "https://registry-1.docker.io/v2/library/"@ + name);
    ends_with_latest("https://registry-1.docker.io/v2/library/"@ + name);
}

/// An empty tag or digest adds only its sign.
proof fn nothing_after(name: Seq<char>, tag: Seq<char>, digest: Seq<char>)
    ensures
        tag.len() == 0 ==> name + seq![':'] + tag == name + seq![':'],
        digest.len() == 0 ==> name + seq!['@'] + digest == name + seq!['@'],
{
    if tag.len() == 0 {
        assert(name + seq![':'] + tag =~= name + seq![':']);
    }
    if digest.len() == 0 {
        assert(name + seq!['@'] + digest =~= name + seq!['@']);
    }
}

/// The address of the hub's images.
proof fn hub_address()
    ensures
        "https://registry-1.docker.io"@ + "/v2/"@ == "https://registry-1.docker.io/v2/"@,
{
    reveal_strlit("https://registry-1.docker.io");
    reveal_strlit("/v2/");
    reveal_strlit("https://registry-1.docker.io/v2/");
    assert("https://registry-1.docker.io"@ + "/v2/"@ =~= "https://registry-1.docker.io/v2/"@);
}

/// The end of a probe's address.
proof fn ends_with_latest(front: Seq<char>)
    ensures
        front + "/manifests/latest"@ == front + "/manifests/"@ + "latest"@,
{
    reveal_strlit("/manifests/latest");
    reveal_strlit("/manifests/");
    reveal_strlit("latest");
    assert(front + "/manifests/latest"@ =~= front + "/manifests/"@ + "latest"@);
}

/// Two references to one image with different tags ask for different manifests.
pub proof fn different_tags_different_manifests(
    host: Seq<char>,
    path: Seq<char>,
    tag: Seq<char>,
    other: Seq<char>,
    token: Seq<char>,
)
    requires
        host.contains('.') || host.contains(':') || host == "localhost"@,
        !host.contains('/') && !host.contains('@'),
        !path.contains('@'),
        tag.len() > 0 && !tag.contains('@') && !tag.contains(':') && !tag.contains('/'),
        other.len() > 0 && !other.contains('@') && !other.contains(':') && !other.contains('/'),
        tag != other,
    ensures
        manifest_question(host + seq!['/'] + path + seq![':'] + tag, token)
            != manifest_question(host + seq!['/'] + path + seq![':'] + other, token),
{
    registry::image_at_a_registry(host, path, tag, tag);
    registry::image_at_a_registry(host, path, other, other);
    let (url, name, _) = registry::resolved(host + seq!['/'] + path + seq![':'] + tag);
    let front = url + "/v2/"@ + name + "/manifests/"@;
    assert((front + tag).skip(front.len() as int) =~= tag);
    assert((front + other).skip(front.len() as int) =~= other);
}

/// Every question for a manifest accepts lists for several platforms and single manifests, of
/// both kinds of registry, and carries its token as a bearer token.
pub proof fn question_carries_the_token(image: Seq<char>, token: Seq<char>)
    ensures
        manifest_question(image, token) matches StepView::AskManifest { accept, authorization, .. }
            && accept
            == "application/vnd.docker.distribution.manifest.list.v2+json,application/vnd.oci.image.index.v1+json,application/vnd.docker.distribution.manifest.v2+json,application/vnd.oci.image.manifest.v1+json"@
            && authorization == "Bearer "@ + token,
{
}

/// A lookup begins with the question for the manifest if and only if a token is at hand whose time
/// is not up, and with a probe otherwise.
pub proof fn probe_unless_a_token_is_at_hand(image: Seq<char>, cache: KeptTokens, now: nat)
    ensures
        ({
            let (url, name, _) = registry::resolved(image);
            let first = first_step(image, cache, now);
            if cache.contains_key((url, name)) && now < cache[(url, name)].until {
                first == manifest_question(image, cache[(url, name)].token)
            } else {
                first is Probe
            }
        }),
{
}

/// The text of a header value is the text of its bytes, where all of them are visible ASCII
/// characters, blanks or tabs; with any other byte there is none.
pub proof fn header_value_is_its_text(value: Seq<u8>, text: Seq<char>)
    requires
        value.len() == text.len(),
        forall|i: int| 0 <= i < value.len() ==> #[trigger] value[i] as char == text[i],
    ensures
        http::header_value_text(value) == if forall|i: int|
            0 <= i < value.len() ==> 32 <= #[trigger] value[i] <= 126 || value[i] == 9 {
            Some(text)
        } else {
            None
        },
{
    let wide = forall|i: int| 0 <= i < value.len() ==> 32 <= #[trigger] value[i] <= 126 || value[i]
        == 9;
    if wide {
        assert forall|i: int| 0 <= i < value.len() implies http::is_header_text_byte(
            #[trigger] value[i],
        ) by {}
        assert(value.map_values(|b: u8| b as char) =~= text);
    } else {
        let i = choose|i: int|
            0 <= i < value.len() && !(32 <= #[trigger] value[i] <= 126 || value[i] == 9);
        assert(!http::is_header_text_byte(value[i]));
    }
}

/// Only an answer with the status 401 and a header that is text asks for a token. After any other
/// answer, and after none, the manifest is asked for with the empty token, which is kept for 290
/// seconds.
pub proof fn only_a_refusal_asks_for_a_token(
    image: Seq<char>,
    stage: StageView,
    answer: Option<ProbeAnswer>,
    cache: KeptTokens,
    now: nat,
    verbosity: u8,
)
    ensures
        ({
            let (url, name, _) = registry::resolved(image);
            let (step, after) = next_step(
                image,
                stage,
                Event::Probed(answer),
                cache,
                now,
                verbosity,
            );
            let header = match answer {
                Some(answer) => match answer.www_authenticate {
                    Some(value) => if answer.status == 401 {
                        http::header_value_text(value@)
                    } else {
                        None
                    },
                    None => None,
                },
                None => None,
            };
            match header {
                Some(header) => after == cache && step == match token_question(header) {
                    Ok((realm, query)) => StepView::FetchToken { realm, query },
                    Err(error) => StepView::Done { outcome: Err(error) },
                },
                None => step == manifest_question(image, Seq::empty()) && after == cache.insert(
                    (url, name),
                    token::Kept { token: Seq::empty(), until: now + 290_000_000_000 },
                ),
            }
        }),
{
}

/// A challenge is answered with a request to its realm for its service and its scope, as far as
/// it names them; a challenge without a realm, or one that is none, is an error.
pub proof fn realm_is_asked_for_service_and_scope(
    header: Seq<char>,
    params: Map<Seq<char>, Seq<char>>,
)
    ensures
        challenge::challenge_params(header) is None ==> token_question(header) == Err::<
            (Seq<char>, Seq<(Seq<char>, Seq<char>)>),
            ErrorView,
        >(ErrorView::AuthHeader(header)),
        challenge::challenge_params(header) == Some(params) && !params.contains_key("realm"@)
            ==> token_question(header) == Err::<
            (Seq<char>, Seq<(Seq<char>, Seq<char>)>),
            ErrorView,
        >(ErrorView::AuthHeader("missing realm"@)),
        challenge::challenge_params(header) == Some(params) && params.contains_key("realm"@) ==> (
        token_question(header) matches Ok((realm, query)) && {
            &&& realm == params["realm"@]
            &&& query == match (
                params.contains_key("service"@),
                params.contains_key("scope"@),
            ) {
                (true, true) => seq![
                    ("service"@, params["service"@]),
                    ("scope"@, params["scope"@]),
                ],
                (true, false) => seq![("service"@, params["service"@])],
                (false, true) => seq![("scope"@, params["scope"@])],
                (false, false) => seq![],
            }
        }),
{
    if challenge::challenge_params(header) == Some(params) && params.contains_key("realm"@) {
        let query = token_question(header)->Ok_0.1;
        assert(query =~= passed_on(params, "service"@) + passed_on(params, "scope"@));
    }
}

/// What becomes of the answer of a server that gives out tokens: with a status of success and
/// a token, the manifest is asked for with that token, which is kept as long as the server says,
/// or else for 290 seconds; everything else ends the lookup with an error that says why, and keeps
/// nothing.
pub proof fn token_answer_decides(
    image: Seq<char>,
    realm: Seq<char>,
    answer: Result<TokenAnswer, String>,
    cache: KeptTokens,
    now: nat,
    verbosity: u8,
)
    ensures
        ({
            let (url, name, _) = registry::resolved(image);
            let (step, after) = next_step(
                image,
                StageView::FetchingToken { realm },
                Event::TokenFetched(answer),
                cache,
                now,
                verbosity,
            );
            match answer {
                Err(reason) => after == cache && step == StepView::Done {
                    outcome: Err(ErrorView::Http(reason@)),
                },
                Ok(answer) => if answer.status < 200 || answer.status > 299 {
                    after == cache && step == StepView::Done {
                        outcome: Err(
                            ErrorView::Auth {
                                registry: realm,
                                reason: "token endpoint returned "@ + http::status_line(
                                    answer.status,
                                ) + ": "@ + answer.body@,
                            },
                        ),
                    }
                } else {
                    match answer.parsed {
                        Err(reason) => after == cache && step == StepView::Done {
                            outcome: Err(
                                ErrorView::Auth {
                                    registry: realm,
                                    reason: if verbosity < 3 {
                                        "failed to parse token response: "@ + reason@
                                    } else {
                                        "failed to parse token response ("@ + reason@ + "): "@
                                            + answer.body@
                                    },
                                },
                            ),
                        },
                        Ok(TokenResponse { token, access_token, expires_in }) => {
                            let seconds = match expires_in {
                                Some(seconds) => seconds as nat,
                                None => 290,
                            };
                            let given = match (token, access_token) {
                                (Some(token), _) => Some(token@),
                                (None, Some(token)) => Some(token@),
                                (None, None) => None,
                            };
                            match given {
                                Some(token) => step == manifest_question(image, token) && after
                                    == cache.insert(
                                    (url, name),
                                    token::Kept { token, until: now + seconds * 1_000_000_000 },
                                ),
                                None => after == cache && step == StepView::Done {
                                    outcome: Err(
                                        ErrorView::Auth {
                                            registry: realm,
                                            reason: "token response contained no token field"@,
                                        },
                                    ),
                                },
                            }
                        },
                    }
                },
            }
        }),
{
}

/// What becomes of the answer about a manifest: with a status of success, its digest is the text
/// of the header; the status 401 means that the registry refused, every other status that it has
/// no such manifest, and a header that is missing or no text that it did not say.
pub proof fn manifest_answer_decides(
    image: Seq<char>,
    stage: StageView,
    answer: Result<ManifestAnswer, String>,
    cache: KeptTokens,
    now: nat,
    verbosity: u8,
)
    ensures
        ({
            let (step, after) = next_step(
                image,
                stage,
                Event::ManifestAsked(answer),
                cache,
                now,
                verbosity,
            );
            let outcome = match answer {
                Err(reason) => Err(ErrorView::Http(reason@)),
                Ok(answer) => if answer.status == 401 {
                    Err(
                        ErrorView::Auth {
                            registry: registry::resolved(image).0,
                            reason: "unauthorized — image may be private or require Docker Hub login"@,
                        },
                    )
                } else if answer.status < 200 || answer.status > 299 {
                    Err(ErrorView::NoManifest { image })
                } else {
                    match answer.digest {
                        Some(value) => match http::header_value_text(value@) {
                            Some(digest) => Ok(digest),
                            None => Err(ErrorView::MissingDigest { image }),
                        },
                        None => Err(ErrorView::MissingDigest { image }),
                    }
                },
            };
            after == cache && step == StepView::Done { outcome }
        }),
{
}

/// A step is seen as it is: the address, the parameters and the values that it names are those of
/// the request, and the outcome is the digest or the error that it names.
pub proof fn step_is_seen_as_it_is(step: Step, i: int)
    ensures
        ({
            match (step, step@) {
                (Step::Probe { url }, StepView::Probe { url: seen }) => seen == url@,
                (
                    Step::FetchToken { realm, query },
                    StepView::FetchToken { realm: seen_realm, query: seen },
                ) => {
                    &&& seen_realm == realm@
                    &&& seen.len() == query@.len()
                    &&& 0 <= i < seen.len() ==> seen[i] == (query@[i].0@, query@[i].1@)
                },
                (
                    Step::AskManifest { url, accept, authorization },
                    StepView::AskManifest {
                        url: seen_url,
                        accept: seen_accept,
                        authorization: seen_authorization,
                    },
                ) => {
                    &&& seen_url == url@
                    &&& seen_accept == accept@
                    &&& seen_authorization == authorization@
                },
                (Step::Done { outcome: Ok(digest) }, StepView::Done { outcome: Ok(seen) }) => seen
                    == digest@,
                (Step::Done { outcome: Err(error) }, StepView::Done { outcome: Err(seen) }) => seen
                    == error@,
                _ => false,
            }
        }),
{
}

/// A lookup waits for the answer to the request that it makes, and knows which server it asks for
/// a token.
pub proof fn lookup_waits_for_its_request(step: StepView)
    ensures
        ({
            match step {
                StepView::Probe { .. } => stage_after(step) is Probing,
                StepView::FetchToken { realm, .. } => stage_after(step) matches
                    StageView::FetchingToken { realm: asked } && asked == realm,
                StepView::AskManifest { .. } => stage_after(step) is AskingManifest,
                StepView::Done { .. } => stage_after(step) is Finished,
            }
        }),
{
}

/// Every answer that a request can have is waited for.
pub proof fn every_answer_is_waited_for(
    realm: Seq<char>,
    probe: Option<ProbeAnswer>,
    token: Result<TokenAnswer, String>,
    manifest: Result<ManifestAnswer, String>,
)
    requires
        token matches Ok(answer) ==> 100 <= answer.status <= 999,
    ensures
        waits_for(StageView::Probing, Event::Probed(probe)),
        waits_for((StageView::FetchingToken { realm }), Event::TokenFetched(token)),
        waits_for(StageView::AskingManifest, Event::ManifestAsked(manifest)),
{
}

/// What a server that gives out tokens refused is told with its status and its words. What cannot
/// be read is told with the reason, and only on demand with what was read.
pub proof fn token_failures_are_told(
    realm: Seq<char>,
    told: Seq<char>,
    body: Seq<char>,
    verbosity: u8,
)
    ensures
        refusal(realm, told, body) == (ErrorView::Auth {
            registry: realm,
            reason: "token endpoint returned "@ + told + ": "@ + body,
        }),
        verbosity < 3 ==> unreadable(realm, told, body, verbosity) == (ErrorView::Auth {
            registry: realm,
            reason: "failed to parse token response: "@ + told,
        }),
        verbosity >= 3 ==> unreadable(realm, told, body, verbosity) == (ErrorView::Auth {
            registry: realm,
            reason: "failed to parse token response ("@ + told + "): "@ + body,
        }),
{
}

/// A token comes of an answer if and only if its status is one of success and it could be read and
/// holds a token; then it is that token, with the lifetime that the answer names.
pub proof fn token_comes_of_a_good_answer(
    realm: Seq<char>,
    answer: Result<TokenAnswer, String>,
    verbosity: u8,
)
    ensures
        ({
            let outcome = token_outcome(realm, answer, verbosity);
            match answer {
                Ok(answer) => if 200 <= answer.status <= 299 {
                    match answer.parsed {
                        Ok(response) => match (response.token, response.access_token) {
                            (Some(token), _) => outcome == Ok::<
                                (Seq<char>, Option<u64>),
                                ErrorView,
                            >((token@, response.expires_in)),
                            (None, Some(token)) => outcome == Ok::<
                                (Seq<char>, Option<u64>),
                                ErrorView,
                            >((token@, response.expires_in)),
                            (None, None) => outcome == Err::<(Seq<char>, Option<u64>), ErrorView>(
                                ErrorView::Auth {
                                    registry: realm,
                                    reason: "token response contained no token field"@,
                                },
                            ),
                        },
                        Err(reason) => outcome == Err::<(Seq<char>, Option<u64>), ErrorView>(
                            unreadable(realm, reason@, answer.body@, verbosity),
                        ),
                    }
                } else {
                    outcome == Err::<(Seq<char>, Option<u64>), ErrorView>(
                        refusal(realm, http::status_line(answer.status), answer.body@),
                    )
                },
                Err(reason) => outcome == Err::<(Seq<char>, Option<u64>), ErrorView>(
                    ErrorView::Http(reason@),
                ),
            }
        }),
{
}

/// The parameters of a request and the outcome of a lookup are seen as they are.
pub proof fn query_and_outcome_are_seen_as_they_are(
    query: Seq<(String, String)>,
    i: int,
    digest: String,
    error: Error,
)
    ensures
        query_view(query).len() == query.len(),
        0 <= i < query.len() ==> query_view(query)[i] == (query[i].0@, query[i].1@),
        outcome_view(Ok(digest)) == Ok::<Seq<char>, ErrorView>(digest@),
        outcome_view(Err(error)) == Err::<Seq<char>, ErrorView>(error@),
{
}

} // verus!
