//! Tokens for registries, and how long they are kept.

use vstd::hash_map::StringHashMap;
use vstd::prelude::*;
use vstd::string::*;

use crate::text;
use crate::types::opt_text;

verus! {

/// The answer of a server that gives out tokens. Some servers use the one field, some the other,
/// and some both with the same value.
pub struct TokenResponse {
    pub token: Option<String>,
    pub access_token: Option<String>,
    /// How many seconds the token is good for, where the server says so.
    pub expires_in: Option<u64>,
}

impl TokenResponse {
    /// The token that the answer holds, if any.
    pub open spec fn given_token(self) -> Option<Seq<char>> {
        match self.token {
            Some(token) => Some(token@),
            None => opt_text(self.access_token),
        }
    }

    /// The token that the answer holds, if any.
    pub fn into_token(self) -> (token: Option<String>)
        ensures
            opt_text(token) == self.given_token(),
    {
        match self.token {
            Some(token) => Some(token),
            None => self.access_token,
        }
    }
}

/// How many seconds a token is good for where the server does not say.
pub fn default_expires_in() -> (seconds: u64)
    ensures
        seconds == 300,
{
    300
}

/// For how many seconds a token is kept: as long as the server says that it is good for, and where
/// the server does not say, ten seconds less than it is taken to be good for.
pub open spec fn kept_seconds(expires_in: Option<u64>) -> u64 {
    match expires_in {
        Some(seconds) => seconds,
        None => 290,
    }
}

/// For how many seconds a token is kept.
pub fn token_ttl(expires_in: Option<u64>) -> (seconds: u64)
    ensures
        seconds == kept_seconds(expires_in),
{
    match expires_in {
        Some(seconds) => seconds,
        None => default_expires_in() - 10,
    }
}

/// The number of nanoseconds in a second.
pub const NANOS_PER_SECOND: u128 = 1_000_000_000;

/// A token and the time from which it is no longer used, in nanoseconds.
pub struct CachedToken {
    token: String,
    expires_at: u128,
}

/// The tokens that were obtained, for each registry and image. Times are nanoseconds since some
/// fixed moment.
pub struct TokenCache {
    tokens: StringHashMap<CachedToken>,
}

/// A token and the time from which it is no longer used.
pub struct Kept {
    pub token: Seq<char>,
    pub until: nat,
}

/// What a cache holds, by the address of a registry and the name of an image there.
pub type KeptTokens = Map<(Seq<char>, Seq<char>), Kept>;

/// The key under which the token for an image at a registry is filed. The length of the address
/// comes first, so that it shows where the address ends.
pub open spec fn cache_key(registry_url: Seq<char>, name: Seq<char>) -> Seq<char> {
    text::decimal(registry_url.len()) + ":"@ + registry_url + name
}

impl View for TokenCache {
    type V = KeptTokens;

    closed spec fn view(&self) -> KeptTokens {
        Map::new(
            |image: (Seq<char>, Seq<char>)| self.tokens@.contains_key(cache_key(image.0, image.1)),
            |image: (Seq<char>, Seq<char>)|
                {
                    let cached = self.tokens@[cache_key(image.0, image.1)];
                    Kept { token: cached.token@, until: cached.expires_at as nat }
                },
        )
    }
}

/// The token in `cache` that can be used at the time `now` for an image at a registry.
pub open spec fn live_token(
    cache: KeptTokens,
    registry_url: Seq<char>,
    name: Seq<char>,
    now: nat,
) -> Option<Seq<char>> {
    if cache.contains_key((registry_url, name)) && now < cache[(registry_url, name)].until {
        Some(cache[(registry_url, name)].token)
    } else {
        None
    }
}

/// The time until which a token is kept that was obtained at the time `now`.
pub open spec fn kept_until(expires_in: Option<u64>, now: nat) -> nat {
    now + kept_seconds(expires_in) as nat * NANOS_PER_SECOND as nat
}

/// `cache` with a token that was obtained at the time `now`.
pub open spec fn with_token(
    cache: KeptTokens,
    registry_url: Seq<char>,
    name: Seq<char>,
    token: Seq<char>,
    expires_in: Option<u64>,
    now: nat,
) -> KeptTokens {
    cache.insert((registry_url, name), Kept { token, until: kept_until(expires_in, now) })
}

/// The key under which the token for an image at a registry is filed.
fn key_for(registry_url: &str, name: &str) -> (key: String)
    ensures
        key@ == cache_key(registry_url@, name@),
{
    let length = text::decimal_text(registry_url.unicode_len() as u64);
    text::concat4(length.as_str(), ":", registry_url, name)
}

impl TokenCache {
    /// No tokens.
    pub fn new() -> (cache: Self)
        ensures
            cache@ == KeptTokens::empty(),
    {
        let cache = TokenCache { tokens: StringHashMap::new() };
        assert(cache@ =~= KeptTokens::empty());
        cache
    }

    /// The token that can be used at the time `now`, if there is one.
    pub fn get(&self, registry_url: &str, name: &str, now: u64) -> (token: Option<String>)
        ensures
            opt_text(token) == live_token(self@, registry_url@, name@, now as nat),
    {
        let key = key_for(registry_url, name);
        match self.tokens.get(key.as_str()) {
            Some(cached) => if cached.expires_at > now as u128 {
                Some(cached.token.clone())
            } else {
                None
            },
            None => None,
        }
    }

    /// Keeps a token that was obtained at the time `now` and is good for `expires_in` seconds,
    /// as far as is known.
    pub fn store(
        &mut self,
        registry_url: &str,
        name: &str,
        token: &str,
        expires_in: Option<u64>,
        now: u64,
    )
        ensures
            final(self)@ == with_token(
                old(self)@,
                registry_url@,
                name@,
                token@,
                expires_in,
                now as nat,
            ),
    {
        let key = key_for(registry_url, name);
        let expires_at: u128 = now as u128 + token_ttl(expires_in) as u128 * NANOS_PER_SECOND;
        self.tokens.insert(key, CachedToken { token: token.to_string(), expires_at });
        proof {
            let wanted = with_token(
                old(self)@,
                registry_url@,
                name@,
                token@,
                expires_in,
                now as nat,
            );
            assert forall|image: (Seq<char>, Seq<char>)| image
                != (registry_url@, name@) implies cache_key(image.0, image.1) != cache_key(
                registry_url@,
                name@,
            ) by {
                if cache_key(image.0, image.1) == cache_key(registry_url@, name@) {
                    every_image_has_its_own_key(image.0, image.1, registry_url@, name@);
                }
            }
            assert(self@ =~= wanted);
        }
    }
}

/// Every registry and image has a key of its own.
pub proof fn every_image_has_its_own_key(
    registry_url: Seq<char>,
    name: Seq<char>,
    other_url: Seq<char>,
    other_name: Seq<char>,
)
    requires
        cache_key(registry_url, name) == cache_key(other_url, other_name),
    ensures
        registry_url == other_url,
        name == other_name,
{
    reveal_strlit(":");
    let key = cache_key(registry_url, name);
    let other = cache_key(other_url, other_name);
    let length = text::decimal(registry_url.len());
    let other_length = text::decimal(other_url.len());
    let n = length.len() as int;
    text::decimal_is_digits(registry_url.len());
    text::decimal_is_digits(other_url.len());
    assert forall|j: int| 0 <= j < n implies key[j] != ':' by {
        assert(key[j] == length[j]);
    }
    assert forall|j: int| 0 <= j < other_length.len() implies other[j] != ':' by {
        assert(other[j] == other_length[j]);
    }
    text::first_position(key, ':', n);
    text::first_position(other, ':', other_length.len() as int);
    assert(length =~= key.take(n));
    assert(other_length =~= other.take(n));
    text::decimal_tells_numbers_apart(registry_url.len(), other_url.len());
    let end = n + 1 + registry_url.len();
    assert(registry_url =~= key.subrange(n + 1, end));
    assert(other_url =~= other.subrange(n + 1, end));
    assert(name =~= key.skip(end));
    assert(other_name =~= other.skip(end));
}

/// A token is used from the moment it was obtained for as long as the server says that it is good
/// for, and not after; where the server does not say, for 290 seconds.
/// No other image, and no other registry, gets it or loses its own.
pub proof fn token_is_used_until_its_time_is_up(
    cache: KeptTokens,
    registry_url: Seq<char>,
    name: Seq<char>,
    token: Seq<char>,
    expires_in: Option<u64>,
    obtained: nat,
    now: nat,
    other_url: Seq<char>,
    other_name: Seq<char>,
)
    ensures
        ({
            let after = with_token(cache, registry_url, name, token, expires_in, obtained);
            let seconds = match expires_in {
                Some(seconds) => seconds as nat,
                None => 290,
            };
            let time_is_up = obtained + seconds * NANOS_PER_SECOND;
            &&& now < time_is_up ==> live_token(after, registry_url, name, now) == Some(token)
            &&& now >= time_is_up ==> live_token(after, registry_url, name, now) is None
            &&& (other_url, other_name) != (registry_url, name) ==> live_token(
                after,
                other_url,
                other_name,
                now,
            ) == live_token(cache, other_url, other_name, now)
        }),
{
}

/// The token of an answer is the one in the field `token`, or else the one in the other field.
pub proof fn token_field_comes_first(response: TokenResponse)
    ensures
        ({
            match (response.token, response.access_token) {
                (Some(token), _) => response.given_token() == Some(token@),
                (None, Some(token)) => response.given_token() == Some(token@),
                (None, None) => response.given_token() is None,
            }
        }),
{
}

/// A token is kept for exactly as long as the server says, in seconds of a thousand million
/// nanoseconds, and where the server does not say, for 290 seconds.
pub proof fn reported_lifetime_counts(seconds: u64, now: nat)
    ensures
        kept_seconds(Some(seconds)) == seconds,
        kept_seconds(None) == 290,
        kept_until(Some(seconds), now) == now + seconds * 1_000_000_000,
        kept_until(None, now) == now + 290_000_000_000,
{
}

/// A token can be used if and only if one is kept for that image at that registry and its time is
/// not up.
pub proof fn token_is_used_while_it_is_kept(
    cache: KeptTokens,
    registry_url: Seq<char>,
    name: Seq<char>,
    now: nat,
)
    ensures
        live_token(cache, registry_url, name, now) is Some <==> cache.contains_key(
            (registry_url, name),
        ) && now < cache[(registry_url, name)].until,
        live_token(cache, registry_url, name, now) matches Some(token) ==> token == cache[(
            registry_url,
            name,
        )].token,
{
}

} // verus!
