//! Where an image reference points: its registry, its name there, and the page that shows its tags.

use vstd::prelude::*;
use vstd::string::*;

use crate::text;

verus! {

/// The registry of images that name none.
pub const HUB_URL: &'static str = "https://registry-1.docker.io";

/// The tag of images that name none.
pub const DEFAULT_TAG: &'static str = "latest";

/// `s` divided into name and tag: the tag stands after the last colon, unless a slash follows
/// that colon, for then it belongs to a registry's port.
pub open spec fn tag_split(s: Seq<char>) -> (Seq<char>, Seq<char>) {
    match s.index_of_last(':') {
        Some(i) => if s.skip(i + 1).contains('/') {
            (s, DEFAULT_TAG@)
        } else {
            (s.take(i), s.skip(i + 1))
        },
        None => (s, DEFAULT_TAG@),
    }
}

/// `s` divided into name and tag or digest; a digest stands after the first `@`.
pub open spec fn reference_split(s: Seq<char>) -> (Seq<char>, Seq<char>) {
    let (name, reference) = match s.index_of_first('@') {
        Some(i) => (s.take(i), s.skip(i + 1)),
        None => tag_split(s),
    };
    if reference.len() == 0 {
        (name, DEFAULT_TAG@)
    } else {
        (name, reference)
    }
}

/// Whether the image reference `s` has a tag: a colon that no slash follows. A colon before a
/// slash belongs to a registry's port.
pub open spec fn has_tag(s: Seq<char>) -> bool {
    exists|i: int| 0 <= i < s.len() && #[trigger] s[i] == ':' && !s.skip(i + 1).contains('/')
}

/// The image reference `s`, with the default tag where it has neither a tag nor a digest.
pub open spec fn with_default_tag(s: Seq<char>) -> Seq<char> {
    if s.contains('@') || has_tag(s) {
        s
    } else {
        s + ":latest"@
    }
}

/// Whether the first part of a name is a registry: it has a dot or a port, or is `localhost`.
pub open spec fn names_registry(s: Seq<char>) -> bool {
    s.contains('.') || s.contains(':') || s == "localhost"@
}

/// The address of the registry `host`.
pub open spec fn host_url(host: Seq<char>) -> Seq<char> {
    if host == "docker.io"@ {
        HUB_URL@
    } else {
        "https://"@ + host
    }
}

/// The registry of the image `name`, and the name that the image has there.
pub open spec fn location(name: Seq<char>) -> (Seq<char>, Seq<char>) {
    match name.index_of_first('/') {
        Some(i) => if names_registry(name.take(i)) {
            (host_url(name.take(i)), name.skip(i + 1))
        } else {
            (HUB_URL@, name)
        },
        None => (HUB_URL@, "library/"@ + name),
    }
}

/// The registry, the name there and the tag or digest that the image reference `s` stands for.
pub open spec fn resolved(s: Seq<char>) -> (Seq<char>, Seq<char>, Seq<char>) {
    let (name, reference) = reference_split(s);
    let (url, path) = location(name);
    (url, path, reference)
}

/// Divides an image reference into name and tag; the tag is `latest` where none is given.
pub fn split_tag(image_ref: &str) -> (parts: (&str, String))
    ensures
        (parts.0@, parts.1@) == tag_split(image_ref@),
{
    if let Some(colon_pos) = text::rfind_char(image_ref, ':') {
        let len = image_ref.unicode_len();
        let after_colon = image_ref.substring_char(colon_pos + 1, len);
        if !text::has_char(after_colon, '/') {
            return (image_ref.substring_char(0, colon_pos), after_colon.to_string());
        }
    }
    (image_ref, DEFAULT_TAG.to_string())
}

/// Whether an image reference has a tag.
pub fn is_tagged(image_ref: &str) -> (tagged: bool)
    ensures
        tagged == has_tag(image_ref@),
{
    proof {
        tag_follows_the_last_colon(image_ref@);
    }
    match text::rfind_char(image_ref, ':') {
        Some(colon_pos) => {
            let len = image_ref.unicode_len();
            !text::has_char(image_ref.substring_char(colon_pos + 1, len), '/')
        },
        None => false,
    }
}

/// An image reference, with the tag `latest` where it has neither a tag nor a digest.
pub fn add_default_tag(image_ref: &str) -> (full: String)
    ensures
        full@ == with_default_tag(image_ref@),
{
    if text::has_char(image_ref, '@') {
        image_ref.to_string()
    } else {
        proof {
            default_tag_names_the_same_image(image_ref@);
        }
        let (name, tag) = split_tag(image_ref);
        text::concat3(name, ":", tag.as_str())
    }
}

/// Whether the first part of an image name is a registry.
pub fn is_registry_host(s: &str) -> (host: bool)
    ensures
        host == names_registry(s@),
{
    text::has_char(s, '.') || text::has_char(s, ':') || text::same_text(s, "localhost")
}

/// The registry's address, the image's name there, and the tag or digest.
pub fn parse_image_ref(image_ref: &str) -> (parts: (String, String, String))
    ensures
        (parts.0@, parts.1@, parts.2@) == resolved(image_ref@),
{
    let (name_part, reference) = match text::find_char(image_ref, '@') {
        Some(at_pos) => {
            let len = image_ref.unicode_len();
            (
                image_ref.substring_char(0, at_pos),
                image_ref.substring_char(at_pos + 1, len).to_string(),
            )
        },
        None => split_tag(image_ref),
    };
    let reference = if reference.as_str().is_empty() {
        DEFAULT_TAG.to_string()
    } else {
        reference
    };
    match text::find_char(name_part, '/') {
        Some(slash_pos) => {
            let host = name_part.substring_char(0, slash_pos);
            if is_registry_host(host) {
                let len = name_part.unicode_len();
                let path = name_part.substring_char(slash_pos + 1, len).to_string();
                let url = if text::same_text(host, "docker.io") {
                    HUB_URL.to_string()
                } else {
                    text::concat2("https://", host)
                };
                (url, path, reference)
            } else {
                (HUB_URL.to_string(), name_part.to_string(), reference)
            }
        },
        None => (HUB_URL.to_string(), text::concat2("library/", name_part), reference),
    }
}

/// The page for the image that `registry` holds under `name`.
pub open spec fn tags_page(registry: Seq<char>, name: Seq<char>) -> Seq<char> {
    if text::occurs(registry, "docker.io"@) {
        if "library/"@.is_prefix_of(name) {
            "https://hub.docker.com/_/"@ + text::without_leading(name, "library/"@) + "/tags"@
        } else {
            "https://hub.docker.com/r/"@ + name + "/tags"@
        }
    } else if text::occurs(registry, "lscr.io"@) {
        "https://docs.linuxserver.io/images/docker-"@ + match text::after(name, '/') {
            Some(image) => image,
            None => name,
        }
    } else if text::occurs(registry, "ghcr.io"@) {
        match text::after(name, '/') {
            Some(image) => "https://github.com/"@ + text::before(name, '/') + "/pkgs/container/"@
                + image,
            None => "https://github.com/orgs/docker/packages/container/package/"@ + name,
        }
    } else if text::occurs(registry, "quay.io"@) {
        "https://quay.io/repository/"@ + name + "?tab=tags"@
    } else {
        registry + "/v2/"@ + name + "/tags/list"@
    }
}

/// The page that shows the tags of the image that the reference `s` stands for.
pub open spec fn info_url(s: Seq<char>) -> Seq<char> {
    tags_page(resolved(s).0, resolved(s).1)
}

/// The address of a page that shows the image's tags.
pub fn info_url_for(image_ref: &str) -> (url: String)
    ensures
        url@ == info_url(image_ref@),
{
    let (registry_url, name, _reference) = parse_image_ref(image_ref);
    let registry = registry_url.as_str();
    let name = name.as_str();
    if text::has_text(registry, "docker.io") {
        if text::starts_with(name, "library/") {
            let repo = text::strip_leading(name, "library/");
            text::concat3("https://hub.docker.com/_/", repo, "/tags")
        } else {
            text::concat3("https://hub.docker.com/r/", name, "/tags")
        }
    } else if text::has_text(registry, "lscr.io") {
        let image_name = match text::text_after(name, '/') {
            Some(image) => image,
            None => name,
        };
        text::concat2("https://docs.linuxserver.io/images/docker-", image_name)
    } else if text::has_text(registry, "ghcr.io") {
        match text::text_after(name, '/') {
            Some(image) => text::concat4(
                "https://github.com/",
                text::text_before(name, '/'),
                "/pkgs/container/",
                image,
            ),
            None => text::concat2(
                "https://github.com/orgs/docker/packages/container/package/",
                name,
            ),
        }
    } else if text::has_text(registry, "quay.io") {
        text::concat3("https://quay.io/repository/", name, "?tab=tags")
    } else {
        text::concat4(registry, "/v2/", name, "/tags/list")
    }
}

/// Name and tag put together with a colon are the reference again; only a reference without a tag
/// is a name as it stands, with the default tag.
pub proof fn tag_split_loses_nothing(s: Seq<char>)
    ensures
        tag_split(s).0 + seq![':'] + tag_split(s).1 == s || tag_split(s) == (s, DEFAULT_TAG@),
{
    s.index_of_last_ensures(':');
    if let Some(i) = s.index_of_last(':') {
        assert(s.take(i) + seq![':'] + s.skip(i + 1) =~= s);
    }
}

/// Every reference asks for some tag or digest.
pub proof fn reference_is_never_empty(s: Seq<char>)
    ensures
        resolved(s).2.len() > 0,
{
    reveal_strlit("latest");
}

/// Every registry is asked over HTTPS.
pub proof fn registry_is_asked_over_https(s: Seq<char>)
    ensures
        "https://"@.is_prefix_of(resolved(s).0),
{
    reveal_strlit("https://");
    reveal_strlit("https://registry-1.docker.io");
    let name = reference_split(s).0;
    assert("https://"@ =~= HUB_URL@.subrange(0, 8));
    if let Some(i) = name.index_of_first('/') {
        let host = name.take(i);
        assert("https://"@ =~= ("https://"@ + host).subrange(0, 8));
    }
}

/// A reference with a tag and no digest divides before the tag.
proof fn split_at_tag(name: Seq<char>, tag: Seq<char>)
    requires
        !name.contains('@'),
        !tag.contains('@'),
        !tag.contains(':'),
        !tag.contains('/'),
    ensures
        reference_split(name + seq![':'] + tag).0 == name,
        tag.len() > 0 ==> reference_split(name + seq![':'] + tag).1 == tag,
{
    let s = name + seq![':'] + tag;
    assert forall|j: int| 0 <= j < s.len() implies s[j] != '@' by {
        if j < name.len() {
            assert(s[j] == name[j]);
        } else if j > name.len() {
            assert(s[j] == tag[j - name.len() - 1]);
        }
    }
    text::no_position(s, '@');
    assert forall|j: int| name.len() < j < s.len() implies s[j] != ':' by {
        assert(s[j] == tag[j - name.len() - 1]);
    }
    text::last_position(s, ':', name.len() as int);
    assert(s.take(name.len() as int) =~= name);
    assert(s.skip(name.len() as int + 1) =~= tag);
}

/// A reference with a digest divides before the digest, whatever the digest holds.
proof fn split_at_digest(name: Seq<char>, digest: Seq<char>)
    requires
        !name.contains('@'),
    ensures
        reference_split(name + seq!['@'] + digest).0 == name,
        digest.len() > 0 ==> reference_split(name + seq!['@'] + digest).1 == digest,
{
    let s = name + seq!['@'] + digest;
    assert forall|j: int| 0 <= j < name.len() implies s[j] != '@' by {
        assert(s[j] == name[j]);
    }
    text::first_position(s, '@', name.len() as int);
    assert(s.take(name.len() as int) =~= name);
    assert(s.skip(name.len() as int + 1) =~= digest);
}

/// A reference has a tag if and only if no slash follows its last colon.
proof fn tag_follows_the_last_colon(s: Seq<char>)
    ensures
        has_tag(s) <==> (s.index_of_last(':') matches Some(last) && !s.skip(last + 1).contains('/')),
{
    s.index_of_last_ensures(':');
    if let Some(last) = s.index_of_last(':') {
        let tail = s.skip(last + 1);
        assert(s[last] == ':');
        if has_tag(s) {
            let i = choose|i: int|
                0 <= i < s.len() && #[trigger] s[i] == ':' && !s.skip(i + 1).contains('/');
            assert forall|j: int| 0 <= j < tail.len() implies #[trigger] tail[j] != '/' by {
                assert(s.skip(i + 1)[j + last - i] == tail[j]);
            }
        }
    }
}

/// A reference stands for the same image with the default tag as without it, and without a digest
/// it is then its name and its tag with a colon between them.
pub proof fn default_tag_names_the_same_image(s: Seq<char>)
    ensures
        resolved(with_default_tag(s)) == resolved(s),
        !s.contains('@') ==> with_default_tag(s) == tag_split(s).0 + ":"@ + tag_split(s).1,
{
    reveal_strlit(":");
    reveal_strlit("latest");
    reveal_strlit(":latest");
    s.index_of_last_ensures(':');
    tag_follows_the_last_colon(s);
    if let Some(last) = s.index_of_last(':') {
        assert(s.take(last) + ":"@ + s.skip(last + 1) =~= s);
    }
    if !s.contains('@') && !has_tag(s) {
        assert(s + ":"@ + DEFAULT_TAG@ =~= s + ":latest"@);
        assert(s + ":latest"@ =~= s + seq![':'] + "latest"@);
        split_at_tag(s, "latest"@);
        text::no_position(s, '@');
    }
}

/// Where a name starts with a registry, the rest is the image's name there.
proof fn located_at_host(host: Seq<char>, path: Seq<char>)
    requires
        names_registry(host),
        !host.contains('/'),
    ensures
        location(host + seq!['/'] + path) == (host_url(host), path),
{
    let name = host + seq!['/'] + path;
    assert forall|j: int| 0 <= j < host.len() implies name[j] != '/' by {
        assert(name[j] == host[j]);
    }
    text::first_position(name, '/', host.len() as int);
    assert(name.take(host.len() as int) =~= host);
    assert(name.skip(host.len() as int + 1) =~= path);
}

/// Two texts without `c`, joined by another character, are without it.
proof fn joined_without(a: Seq<char>, sep: char, b: Seq<char>, c: char)
    requires
        !a.contains(c),
        !b.contains(c),
        sep != c,
    ensures
        !(a + seq![sep] + b).contains(c),
{
    let s = a + seq![sep] + b;
    assert forall|j: int| 0 <= j < s.len() implies s[j] != c by {
        if j < a.len() {
            assert(s[j] == a[j]);
        } else if j > a.len() {
            assert(s[j] == b[j - a.len() - 1]);
        }
    }
}

/// `host/path:tag` is the tag `tag` of the image `path` at the registry `host`.
pub proof fn tagged_reference_resolves(host: Seq<char>, path: Seq<char>, tag: Seq<char>)
    requires
        names_registry(host),
        !host.contains('/') && !host.contains('@'),
        !path.contains('@'),
        tag.len() > 0 && !tag.contains('@') && !tag.contains(':') && !tag.contains('/'),
    ensures
        resolved(host + seq!['/'] + path + seq![':'] + tag) == (host_url(host), path, tag),
{
    joined_without(host, '/', path, '@');
    split_at_tag(host + seq!['/'] + path, tag);
    located_at_host(host, path);
}

/// `host/path@digest` is the digest `digest` of the image `path` at the registry `host`.
pub proof fn digest_reference_resolves(host: Seq<char>, path: Seq<char>, digest: Seq<char>)
    requires
        names_registry(host),
        !host.contains('/') && !host.contains('@'),
        !path.contains('@'),
        digest.len() > 0,
    ensures
        resolved(host + seq!['/'] + path + seq!['@'] + digest) == (host_url(host), path, digest),
{
    joined_without(host, '/', path, '@');
    split_at_digest(host + seq!['/'] + path, digest);
    located_at_host(host, path);
}

/// `host/path` is the default tag of the image `path` at the registry `host`, also where the
/// registry has a port.
pub proof fn untagged_reference_resolves(host: Seq<char>, path: Seq<char>)
    requires
        names_registry(host),
        !host.contains('/') && !host.contains('@'),
        !path.contains('@') && !path.contains(':'),
    ensures
        resolved(host + seq!['/'] + path) == (host_url(host), path, DEFAULT_TAG@),
{
    let s = host + seq!['/'] + path;
    joined_without(host, '/', path, '@');
    text::no_position(s, '@');
    s.index_of_last_ensures(':');
    if let Some(i) = s.index_of_last(':') {
        if i > host.len() {
            assert(path[i - host.len() - 1] == ':');
        }
        assert(s.skip(i + 1)[host.len() - i - 1] == '/');
    }
    reveal_strlit("latest");
    located_at_host(host, path);
}

/// A reference with a prefix that has neither `@` nor `:` divides where it divides without it.
proof fn split_after_prefix(prefix: Seq<char>, s: Seq<char>)
    requires
        !prefix.contains('@'),
        !prefix.contains(':'),
    ensures
        reference_split(prefix + s).0 == prefix + reference_split(s).0,
        reference_split(prefix + s).1 == reference_split(s).1,
{
    let long = prefix + s;
    let n = prefix.len() as int;
    assert forall|j: int| 0 <= j < n implies long[j] != '@' && long[j] != ':' by {
        assert(long[j] == prefix[j]);
    }
    s.index_of_first_ensures('@');
    match s.index_of_first('@') {
        Some(i) => {
            assert forall|j: int| 0 <= j < n + i implies long[j] != '@' by {
                if j >= n {
                    assert(long[j] == s[j - n]);
                }
            }
            text::first_position(long, '@', n + i);
            assert(long.take(n + i) =~= prefix + s.take(i));
            assert(long.skip(n + i + 1) =~= s.skip(i + 1));
        },
        None => {
            assert forall|j: int| 0 <= j < long.len() implies long[j] != '@' by {
                if j >= n {
                    assert(long[j] == s[j - n]);
                }
            }
            text::no_position(long, '@');
            s.index_of_last_ensures(':');
            match s.index_of_last(':') {
                Some(i) => {
                    assert forall|j: int| n + i < j < long.len() implies long[j] != ':' by {
                        assert(long[j] == s[j - n]);
                    }
                    text::last_position(long, ':', n + i);
                    assert(long.take(n + i) =~= prefix + s.take(i));
                    assert(long.skip(n + i + 1) =~= s.skip(i + 1));
                },
                None => {
                    assert forall|j: int| 0 <= j < long.len() implies long[j] != ':' by {
                        if j >= n {
                            assert(long[j] == s[j - n]);
                        }
                    }
                    text::no_position(long, ':');
                },
            }
        },
    }
}

/// An official image may be written in full: `docker.io/library/nginx` is `nginx`.
pub proof fn official_image_in_full(s: Seq<char>)
    requires
        !s.contains('/'),
    ensures
        resolved("docker.io/library/"@ + s) == resolved(s),
{
    reveal_strlit("docker.io/library/");
    reveal_strlit("docker.io");
    reveal_strlit("library/");
    split_after_prefix("docker.io/library/"@, s);
    let name = reference_split(s).0;
    s.index_of_first_ensures('@');
    s.index_of_last_ensures(':');
    assert(!name.contains('/')) by {
        if name.contains('/') {
            let j = choose|j: int| 0 <= j < name.len() && name[j] == '/';
            assert(s[j] == '/');
        }
    }
    text::no_position(name, '/');
    assert("docker.io/library/"@ + name =~= "docker.io"@ + seq!['/'] + ("library/"@ + name));
    assert("docker.io"@[6] == '.');
    located_at_host("docker.io"@, "library/"@ + name);
}

/// An image of a user of the hub may be written in full: `docker.io/user/image` is `user/image`.
pub proof fn user_image_in_full(s: Seq<char>)
    requires
        reference_split(s).0.contains('/'),
        !names_registry(text::before(reference_split(s).0, '/')),
    ensures
        resolved("docker.io/"@ + s) == resolved(s),
{
    reveal_strlit("docker.io/");
    reveal_strlit("docker.io");
    split_after_prefix("docker.io/"@, s);
    let name = reference_split(s).0;
    name.index_of_first_ensures('/');
    assert("docker.io/"@ + name =~= "docker.io"@ + seq!['/'] + name);
    assert("docker.io"@[6] == '.');
    located_at_host("docker.io"@, name);
}

/// The page for an image is the same whichever of its tags or digests a reference gives.
pub proof fn page_is_the_same_for_every_tag(
    name: Seq<char>,
    tag: Seq<char>,
    other: Seq<char>,
    digest: Seq<char>,
)
    requires
        !name.contains('@'),
        !tag.contains('@') && !tag.contains(':') && !tag.contains('/'),
        !other.contains('@') && !other.contains(':') && !other.contains('/'),
    ensures
        info_url(name + seq![':'] + tag) == info_url(name + seq![':'] + other),
        info_url(name + seq![':'] + tag) == info_url(name + seq!['@'] + digest),
{
    split_at_tag(name, tag);
    split_at_tag(name, other);
    split_at_digest(name, digest);
}

/// The tag is what stands after the last colon, unless a slash follows it: `name:tag` divides into
/// `name` and `tag`, has a tag, and needs no other.
pub proof fn tag_stands_after_the_last_colon(name: Seq<char>, tag: Seq<char>)
    requires
        !tag.contains(':'),
        !tag.contains('/'),
    ensures
        tag_split(name + seq![':'] + tag) == (name, tag),
        has_tag(name + seq![':'] + tag),
        with_default_tag(name + seq![':'] + tag) == name + seq![':'] + tag,
{
    let s = name + seq![':'] + tag;
    let at = name.len() as int;
    assert forall|j: int| at < j < s.len() implies s[j] != ':' by {
        assert(s[j] == tag[j - at - 1]);
    }
    text::last_position(s, ':', at);
    assert(s.take(at) =~= name);
    assert(s.skip(at + 1) =~= tag);
    assert(s[at] == ':');
}

/// Where a slash follows every colon, there is no tag, and the tag is `latest`.
pub proof fn port_is_no_tag(s: Seq<char>)
    requires
        forall|i: int| 0 <= i < s.len() && #[trigger] s[i] == ':' ==> s.skip(i + 1).contains('/'),
    ensures
        tag_split(s) == (s, "latest"@),
        !has_tag(s),
        !s.contains('@') ==> with_default_tag(s) == s + ":latest"@,
        s.contains('@') ==> with_default_tag(s) == s,
{
    s.index_of_last_ensures(':');
}

/// An image at a registry: the registry is asked under its own name, `docker.io` under that of
/// the hub, and there for the whole path, and for the tag or digest that is given, or else for
/// `latest`.
pub proof fn image_at_a_registry(
    host: Seq<char>,
    path: Seq<char>,
    tag: Seq<char>,
    digest: Seq<char>,
)
    requires
        host.contains('.') || host.contains(':') || host == "localhost"@,
        !host.contains('/') && !host.contains('@'),
        !path.contains('@'),
        !tag.contains('@') && !tag.contains(':') && !tag.contains('/'),
    ensures
        ({
            let url = if host == "docker.io"@ {
                "https://registry-1.docker.io"@
            } else {
                "https://"@ + host
            };
            let name = host + seq!['/'] + path;
            &&& tag.len() > 0 ==> resolved(name + seq![':'] + tag) == (url, path, tag)
            &&& digest.len() > 0 ==> resolved(name + seq!['@'] + digest) == (url, path, digest)
            &&& resolved(name + seq![':']) == (url, path, "latest"@)
            &&& resolved(name + seq!['@']) == (url, path, "latest"@)
            &&& !has_tag(name) ==> resolved(name) == (url, path, "latest"@)
        }),
{
    let name = host + seq!['/'] + path;
    joined_without(host, '/', path, '@');
    split_at_tag(name, tag);
    split_at_digest(name, digest);
    assert(name + seq![':'] + Seq::<char>::empty() =~= name + seq![':']);
    assert(name + seq!['@'] + Seq::<char>::empty() =~= name + seq!['@']);
    split_at_nothing(name);
    located_at_host(host, path);
    if !has_tag(name) {
        split_without_tag(name);
    }
}

/// A reference that ends with the colon or the `@` asks for the default tag.
proof fn split_at_nothing(name: Seq<char>)
    requires
        !name.contains('@'),
    ensures
        reference_split(name + seq![':']) == (name, DEFAULT_TAG@),
        reference_split(name + seq!['@']) == (name, DEFAULT_TAG@),
{
    let none = Seq::<char>::empty();
    split_at_tag(name, none);
    split_at_digest(name, none);
    assert(name + seq![':'] + none =~= name + seq![':']);
    assert(name + seq!['@'] + none =~= name + seq!['@']);
    let s = name + seq![':'];
    assert(!s.contains('@')) by {
        if s.contains('@') {
            let j = choose|j: int| 0 <= j < s.len() && s[j] == '@';
            assert(name[j] == '@');
        }
    }
    text::no_position(s, '@');
    tag_stands_after_the_last_colon(name, none);
    let t = name + seq!['@'];
    assert forall|j: int| 0 <= j < name.len() implies t[j] != '@' by {
        assert(t[j] == name[j]);
    }
    text::first_position(t, '@', name.len() as int);
    assert(t.skip(name.len() as int + 1) =~= none);
}

/// A name without a tag and a digest asks for the default tag.
proof fn split_without_tag(name: Seq<char>)
    requires
        !name.contains('@'),
        !has_tag(name),
    ensures
        reference_split(name) == (name, DEFAULT_TAG@),
{
    text::no_position(name, '@');
    port_is_no_tag(name);
    reveal_strlit("latest");
}

/// An image of a user of the hub: the hub is asked for it under the user's name, and for the tag
/// or digest that is given, or else for `latest`.
pub proof fn image_of_a_user(
    user: Seq<char>,
    image: Seq<char>,
    tag: Seq<char>,
    digest: Seq<char>,
)
    requires
        !user.contains('.') && !user.contains(':') && user != "localhost"@,
        !user.contains('/') && !user.contains('@'),
        !image.contains('@'),
        !tag.contains('@') && !tag.contains(':') && !tag.contains('/'),
    ensures
        ({
            let hub = "https://registry-1.docker.io"@;
            let name = user + seq!['/'] + image;
            &&& tag.len() > 0 ==> resolved(name + seq![':'] + tag) == (hub, name, tag)
            &&& digest.len() > 0 ==> resolved(name + seq!['@'] + digest) == (hub, name, digest)
            &&& resolved(name + seq![':']) == (hub, name, "latest"@)
            &&& resolved(name + seq!['@']) == (hub, name, "latest"@)
            &&& !has_tag(name) ==> resolved(name) == (hub, name, "latest"@)
        }),
{
    let name = user + seq!['/'] + image;
    joined_without(user, '/', image, '@');
    split_at_tag(name, tag);
    split_at_digest(name, digest);
    split_at_nothing(name);
    if !has_tag(name) {
        split_without_tag(name);
    }
    assert forall|j: int| 0 <= j < user.len() implies name[j] != '/' by {
        assert(name[j] == user[j]);
    }
    text::first_position(name, '/', user.len() as int);
    assert(name.take(user.len() as int) =~= user);
}

/// An official image: the hub is asked for it as one of the owner `library`, and for the tag or
/// digest that is given, or else for `latest`.
pub proof fn official_image(name: Seq<char>, tag: Seq<char>, digest: Seq<char>)
    requires
        !name.contains('/') && !name.contains('@'),
        !tag.contains('@') && !tag.contains(':') && !tag.contains('/'),
    ensures
        ({
            let hub = "https://registry-1.docker.io"@;
            let path = "library/"@ + name;
            &&& tag.len() > 0 ==> resolved(name + seq![':'] + tag) == (hub, path, tag)
            &&& digest.len() > 0 ==> resolved(name + seq!['@'] + digest) == (hub, path, digest)
            &&& resolved(name + seq![':']) == (hub, path, "latest"@)
            &&& resolved(name + seq!['@']) == (hub, path, "latest"@)
            &&& !has_tag(name) ==> resolved(name) == (hub, path, "latest"@)
        }),
{
    split_at_tag(name, tag);
    split_at_digest(name, digest);
    split_at_nothing(name);
    if !has_tag(name) {
        split_without_tag(name);
    }
    text::no_position(name, '/');
}

/// The first part of a name counts as a registry if and only if it has a dot or a colon or is
/// `localhost`, and then, and only then, it is not part of the image's name there.
pub proof fn registry_is_not_part_of_the_name(host: Seq<char>, path: Seq<char>)
    requires
        !host.contains('/') && !host.contains('@'),
        !path.contains('@') && !path.contains(':'),
    ensures
        names_registry(host) <==> host.contains('.') || host.contains(':') || host
            == "localhost"@,
        names_registry(host) ==> resolved(host + seq!['/'] + path).1 == path,
        !names_registry(host) ==> resolved(host + seq!['/'] + path).1 == host + seq!['/'] + path,
{
    let none = Seq::<char>::empty();
    path_without_colon_has_no_tag(host, path);
    if names_registry(host) {
        image_at_a_registry(host, path, none, none);
    } else {
        image_of_a_user(host, path, none, none);
    }
}

/// The page for an image goes by its name alone, in whatever form the reference is given.
proof fn page_goes_by_the_name(name: Seq<char>, tag: Seq<char>, digest: Seq<char>)
    requires
        !name.contains('@'),
        !tag.contains('@') && !tag.contains(':') && !tag.contains('/'),
    ensures
        ({
            let (url, path) = location(name);
            &&& info_url(name + seq![':'] + tag) == tags_page(url, path)
            &&& info_url(name + seq!['@'] + digest) == tags_page(url, path)
            &&& !has_tag(name) ==> info_url(name) == tags_page(url, path)
        }),
{
    split_at_tag(name, tag);
    split_at_digest(name, digest);
    if !has_tag(name) {
        port_is_no_tag(name);
        text::no_position(name, '@');
    }
}

/// A name with a registry in front has no tag unless its path has one.
proof fn path_without_colon_has_no_tag(host: Seq<char>, path: Seq<char>)
    requires
        !path.contains(':'),
    ensures
        !has_tag(host + seq!['/'] + path),
{
    let s = host + seq!['/'] + path;
    assert forall|i: int| 0 <= i < s.len() && #[trigger] s[i] == ':' implies s.skip(
        i + 1,
    ).contains('/') by {
        if i > host.len() {
            assert(path[i - host.len() - 1] == ':');
        }
        assert(s.skip(i + 1)[host.len() - i - 1] == '/');
    }
    port_is_no_tag(s);
}

/// What a registry's address is said to hold, its name holds.
proof fn address_holds_what_the_host_holds(host: Seq<char>, part: Seq<char>)
    requires
        part.contains('.'),
        !part.contains('/'),
    ensures
        text::occurs("https://"@ + host, part) <==> text::occurs(host, part),
{
    reveal_strlit("https://");
    let url = "https://"@ + host;
    if text::occurs(url, part) {
        let at = choose|at: int| text::occurs_at(url, part, at);
        let k = part.index_of('.');
        assert(url.subrange(at, at + part.len())[k] == '.');
        assert(url[at + k] == '.');
        if at < 8 {
            assert(at + k >= 8);
            assert(url.subrange(at, at + part.len())[7 - at] == '/');
            assert(part.contains('/'));
        }
        assert(host.subrange(at - 8, at - 8 + part.len()) =~= url.subrange(at, at + part.len()));
        assert(text::occurs_at(host, part, at - 8));
    }
    if text::occurs(host, part) {
        let at = choose|at: int| text::occurs_at(host, part, at);
        assert(url.subrange(at + 8, at + 8 + part.len()) =~= host.subrange(at, at + part.len()));
        assert(text::occurs_at(url, part, at + 8));
    }
}

/// The same for the parts by which registries are told apart.
proof fn address_tells_registries_apart(host: Seq<char>)
    ensures
        text::occurs("https://"@ + host, "docker.io"@) <==> text::occurs(host, "docker.io"@),
        text::occurs("https://"@ + host, "lscr.io"@) <==> text::occurs(host, "lscr.io"@),
        text::occurs("https://"@ + host, "ghcr.io"@) <==> text::occurs(host, "ghcr.io"@),
        text::occurs("https://"@ + host, "quay.io"@) <==> text::occurs(host, "quay.io"@),
{
    reveal_strlit("docker.io");
    reveal_strlit("lscr.io");
    reveal_strlit("ghcr.io");
    reveal_strlit("quay.io");
    assert("docker.io"@[6] == '.');
    assert("lscr.io"@[4] == '.');
    assert("ghcr.io"@[4] == '.');
    assert("quay.io"@[4] == '.');
    address_holds_what_the_host_holds(host, "docker.io"@);
    address_holds_what_the_host_holds(host, "lscr.io"@);
    address_holds_what_the_host_holds(host, "ghcr.io"@);
    address_holds_what_the_host_holds(host, "quay.io"@);
}

/// The hub's address and name hold `docker.io`.
proof fn hub_is_told_by_its_name()
    ensures
        text::occurs("https://registry-1.docker.io"@, "docker.io"@),
        text::occurs("docker.io"@, "docker.io"@),
{
    reveal_strlit("https://registry-1.docker.io");
    reveal_strlit("docker.io");
    assert("https://registry-1.docker.io"@.subrange(19, 28) =~= "docker.io"@);
    assert(text::occurs_at("https://registry-1.docker.io"@, "docker.io"@, 19));
    assert("docker.io"@.subrange(0, 9) =~= "docker.io"@);
    assert(text::occurs_at("docker.io"@, "docker.io"@, 0));
}

/// At a registry that is none of the well-known ones, the page for an image is the registry's own
/// list of its tags, under the whole path of the image, so that different paths have different
/// pages.
pub proof fn page_at_any_other_registry(
    host: Seq<char>,
    path: Seq<char>,
    tag: Seq<char>,
    digest: Seq<char>,
    other: Seq<char>,
)
    requires
        host.contains('.') || host.contains(':') || host == "localhost"@,
        !host.contains('/') && !host.contains('@'),
        !text::occurs(host, "docker.io"@) && !text::occurs(host, "lscr.io"@),
        !text::occurs(host, "ghcr.io"@) && !text::occurs(host, "quay.io"@),
        !path.contains('@') && !other.contains('@'),
        !tag.contains('@') && !tag.contains(':') && !tag.contains('/'),
    ensures
        ({
            let name = host + seq!['/'] + path;
            let other_name = host + seq!['/'] + other;
            let page = "https://"@ + host + "/v2/"@ + path + "/tags/list"@;
            &&& info_url(name + seq![':'] + tag) == page
            &&& info_url(name + seq!['@'] + digest) == page
            &&& !has_tag(name) ==> info_url(name) == page
            &&& path != other ==> info_url(name + seq![':'] + tag) != info_url(
                other_name + seq![':'] + tag,
            )
        }),
{
    let name = host + seq!['/'] + path;
    let other_name = host + seq!['/'] + other;
    joined_without(host, '/', path, '@');
    joined_without(host, '/', other, '@');
    page_goes_by_the_name(name, tag, digest);
    page_goes_by_the_name(other_name, tag, digest);
    located_at_host(host, path);
    located_at_host(host, other);
    address_tells_registries_apart(host);
    hub_is_told_by_its_name();
    let front = "https://"@ + host + "/v2/"@;
    let back = "/tags/list"@;
    if front + path + back == front + other + back {
        let page = front + path + back;
        assert(page.len() == (front + other + back).len());
        assert(path.len() == other.len());
        assert(page.subrange(front.len() as int, (front.len() + path.len()) as int) =~= path);
        assert(page.subrange(front.len() as int, (front.len() + path.len()) as int) =~= other);
    }
}

/// At a GitHub registry, the page for an image is that of the package of its owner.
pub proof fn page_at_github(
    host: Seq<char>,
    owner: Seq<char>,
    image: Seq<char>,
    tag: Seq<char>,
    digest: Seq<char>,
)
    requires
        host.contains('.') || host.contains(':') || host == "localhost"@,
        !host.contains('/') && !host.contains('@'),
        text::occurs(host, "ghcr.io"@),
        !text::occurs(host, "docker.io"@) && !text::occurs(host, "lscr.io"@),
        !owner.contains('/') && !owner.contains('@'),
        !image.contains('@'),
        !tag.contains('@') && !tag.contains(':') && !tag.contains('/'),
    ensures
        ({
            let path = owner + seq!['/'] + image;
            let name = host + seq!['/'] + path;
            let page = "https://github.com/"@ + owner + "/pkgs/container/"@ + image;
            &&& info_url(name + seq![':'] + tag) == page
            &&& info_url(name + seq!['@'] + digest) == page
            &&& !has_tag(name) ==> info_url(name) == page
        }),
        info_url(host + seq!['/'] + owner + seq![':'] + tag)
            == "https://github.com/orgs/docker/packages/container/package/"@ + owner,
{
    let path = owner + seq!['/'] + image;
    let name = host + seq!['/'] + path;
    joined_without(owner, '/', image, '@');
    joined_without(host, '/', path, '@');
    joined_without(host, '/', owner, '@');
    page_goes_by_the_name(name, tag, digest);
    page_goes_by_the_name(host + seq!['/'] + owner, tag, digest);
    located_at_host(host, path);
    located_at_host(host, owner);
    address_tells_registries_apart(host);
    hub_is_told_by_its_name();
    text::text_divides_at_the_first(owner, '/', image);
}

/// At a LinuxServer registry, the page for an image is in their documentation, under the name of
/// the image without its owner.
pub proof fn page_at_linuxserver(
    host: Seq<char>,
    owner: Seq<char>,
    image: Seq<char>,
    tag: Seq<char>,
    digest: Seq<char>,
)
    requires
        host.contains('.') || host.contains(':') || host == "localhost"@,
        !host.contains('/') && !host.contains('@'),
        text::occurs(host, "lscr.io"@),
        !text::occurs(host, "docker.io"@),
        !owner.contains('/') && !owner.contains('@'),
        !image.contains('@'),
        !tag.contains('@') && !tag.contains(':') && !tag.contains('/'),
    ensures
        ({
            let path = owner + seq!['/'] + image;
            let name = host + seq!['/'] + path;
            let page = "https://docs.linuxserver.io/images/docker-"@ + image;
            &&& info_url(name + seq![':'] + tag) == page
            &&& info_url(name + seq!['@'] + digest) == page
            &&& !has_tag(name) ==> info_url(name) == page
        }),
        info_url(host + seq!['/'] + owner + seq![':'] + tag)
            == "https://docs.linuxserver.io/images/docker-"@ + owner,
{
    let path = owner + seq!['/'] + image;
    let name = host + seq!['/'] + path;
    joined_without(owner, '/', image, '@');
    joined_without(host, '/', path, '@');
    joined_without(host, '/', owner, '@');
    page_goes_by_the_name(name, tag, digest);
    page_goes_by_the_name(host + seq!['/'] + owner, tag, digest);
    located_at_host(host, path);
    located_at_host(host, owner);
    address_tells_registries_apart(host);
    hub_is_told_by_its_name();
    text::text_divides_at_the_first(owner, '/', image);
}

/// At a Quay registry, the page for an image is that of its repository, under its whole path.
pub proof fn page_at_quay(
    host: Seq<char>,
    path: Seq<char>,
    tag: Seq<char>,
    digest: Seq<char>,
)
    requires
        host.contains('.') || host.contains(':') || host == "localhost"@,
        !host.contains('/') && !host.contains('@'),
        text::occurs(host, "quay.io"@),
        !text::occurs(host, "docker.io"@) && !text::occurs(host, "lscr.io"@),
        !text::occurs(host, "ghcr.io"@),
        !path.contains('@'),
        !tag.contains('@') && !tag.contains(':') && !tag.contains('/'),
    ensures
        ({
            let name = host + seq!['/'] + path;
            let page = "https://quay.io/repository/"@ + path + "?tab=tags"@;
            &&& info_url(name + seq![':'] + tag) == page
            &&& info_url(name + seq!['@'] + digest) == page
            &&& !has_tag(name) ==> info_url(name) == page
        }),
{
    let name = host + seq!['/'] + path;
    joined_without(host, '/', path, '@');
    page_goes_by_the_name(name, tag, digest);
    located_at_host(host, path);
    address_tells_registries_apart(host);
    hub_is_told_by_its_name();
}

/// At a registry of the hub, an image of the owner `library` has the page of an official image,
/// and every other image has that of its whole path.
pub proof fn page_at_a_registry_of_the_hub(
    host: Seq<char>,
    image: Seq<char>,
    path: Seq<char>,
    tag: Seq<char>,
    digest: Seq<char>,
)
    requires
        host.contains('.') || host.contains(':') || host == "localhost"@,
        !host.contains('/') && !host.contains('@'),
        text::occurs(host, "docker.io"@),
        !image.contains('@'),
        !path.contains('@') && !"library/"@.is_prefix_of(path),
        !tag.contains('@') && !tag.contains(':') && !tag.contains('/'),
    ensures
        ({
            let name = host + seq!['/'] + ("library/"@ + image);
            let page = "https://hub.docker.com/_/"@ + text::without_leading(image, "library/"@)
                + "/tags"@;
            &&& info_url(name + seq![':'] + tag) == page
            &&& info_url(name + seq!['@'] + digest) == page
            &&& !has_tag(name) ==> info_url(name) == page
        }),
        ({
            let name = host + seq!['/'] + path;
            let page = "https://hub.docker.com/r/"@ + path + "/tags"@;
            &&& info_url(name + seq![':'] + tag) == page
            &&& info_url(name + seq!['@'] + digest) == page
            &&& !has_tag(name) ==> info_url(name) == page
        }),
{
    reveal_strlit("library/");
    let official = "library/"@ + image;
    let name = host + seq!['/'] + official;
    let other_name = host + seq!['/'] + path;
    assert(!official.contains('@')) by {
        if official.contains('@') {
            let j = choose|j: int| 0 <= j < official.len() && official[j] == '@';
            assert(image[j - 8] == '@');
        }
    }
    joined_without(host, '/', official, '@');
    joined_without(host, '/', path, '@');
    page_goes_by_the_name(name, tag, digest);
    page_goes_by_the_name(other_name, tag, digest);
    located_at_host(host, official);
    located_at_host(host, path);
    address_tells_registries_apart(host);
    hub_is_told_by_its_name();
    assert(official.subrange(0, 8) =~= "library/"@);
    text::leading_parts_are_removed(image, "library/"@);
}

/// Without a registry in front, an official image has its page at the hub under its name, and an
/// image of a user has it under the names of both.
pub proof fn page_at_the_hub(
    image: Seq<char>,
    user: Seq<char>,
    path: Seq<char>,
    tag: Seq<char>,
    digest: Seq<char>,
)
    requires
        !image.contains('/') && !image.contains('@'),
        !user.contains('.') && !user.contains(':') && user != "localhost"@,
        !user.contains('/') && !user.contains('@') && user != "library"@,
        !path.contains('@'),
        !tag.contains('@') && !tag.contains(':') && !tag.contains('/'),
    ensures
        ({
            let name = image;
            let page = "https://hub.docker.com/_/"@ + image + "/tags"@;
            &&& info_url(name + seq![':'] + tag) == page
            &&& info_url(name + seq!['@'] + digest) == page
            &&& !has_tag(name) ==> info_url(name) == page
        }),
        ({
            let name = user + seq!['/'] + path;
            let page = "https://hub.docker.com/r/"@ + user + seq!['/'] + path + "/tags"@;
            &&& info_url(name + seq![':'] + tag) == page
            &&& info_url(name + seq!['@'] + digest) == page
            &&& !has_tag(name) ==> info_url(name) == page
        }),
{
    reveal_strlit("library/");
    reveal_strlit("library");
    page_goes_by_the_name(image, tag, digest);
    text::no_position(image, '/');
    hub_is_told_by_its_name();
    let official = "library/"@ + image;
    assert(official.subrange(0, 8) =~= "library/"@);
    assert(!"library/"@.is_prefix_of(image)) by {
        if "library/"@.is_prefix_of(image) {
            assert(image.subrange(0, 8)[7] == '/');
            assert(image[7] == '/');
        }
    }
    text::leading_parts_are_removed(image, "library/"@);
    let name = user + seq!['/'] + path;
    joined_without(user, '/', path, '@');
    page_goes_by_the_name(name, tag, digest);
    assert forall|j: int| 0 <= j < user.len() implies name[j] != '/' by {
        assert(name[j] == user[j]);
    }
    text::first_position(name, '/', user.len() as int);
    assert(name.take(user.len() as int) =~= user);
    assert(!"library/"@.is_prefix_of(name)) by {
        if "library/"@.is_prefix_of(name) {
            let front = name.subrange(0, 8);
            assert("library/"@.len() == 8 && front == "library/"@);
            assert("library/"@[7] == '/');
            assert(front[7] == name[7]);
            if user.len() < 7 {
                assert(front[user.len() as int] == '/');
                assert("library/"@[user.len() as int] != '/');
            }
            if user.len() > 7 {
                assert(user[7] == '/');
            }
            assert(user =~= "library"@) by {
                assert forall|j: int| 0 <= j < 7 implies user[j] == "library"@[j] by {
                    assert(front[j] == name[j]);
                }
            }
        }
    }
    assert("https://hub.docker.com/r/"@ + name + "/tags"@ =~= "https://hub.docker.com/r/"@ + user
        + seq!['/'] + path + "/tags"@);
}

/// The page for an image is the same without a tag as with one.
pub proof fn page_needs_no_tag(name: Seq<char>, tag: Seq<char>)
    requires
        !name.contains('@'),
        !has_tag(name),
        !tag.contains('@') && !tag.contains(':') && !tag.contains('/'),
    ensures
        info_url(name) == info_url(name + seq![':'] + tag),
{
    page_goes_by_the_name(name, tag, tag);
}

/// An image of the owner `library` has the page of the official image, whether the owner is named
/// or not.
pub proof fn owner_of_official_images_may_be_named(path: Seq<char>, tag: Seq<char>)
    requires
        !path.contains('@'),
        !tag.contains('@') && !tag.contains(':') && !tag.contains('/'),
    ensures
        info_url("library/"@ + path + seq![':'] + tag) == "https://hub.docker.com/_/"@
            + text::without_leading(path, "library/"@) + "/tags"@,
{
    reveal_strlit("library/");
    reveal_strlit("library");
    reveal_strlit("localhost");
    let user = "library"@;
    let name = "library/"@ + path;
    assert(name =~= user + seq!['/'] + path);
    joined_without(user, '/', path, '@');
    page_goes_by_the_name(name, tag, tag);
    assert forall|j: int| 0 <= j < user.len() implies name[j] != '/' by {
        assert(name[j] == user[j]);
    }
    text::first_position(name, '/', user.len() as int);
    assert(name.take(user.len() as int) =~= user);
    assert(user.len() != "localhost"@.len());
    assert(name.subrange(0, 8) =~= "library/"@);
    hub_is_told_by_its_name();
    text::leading_parts_are_removed(path, "library/"@);
}

} // verus!
