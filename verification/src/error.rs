//! Why a check failed.

use vstd::prelude::*;

use crate::text;

verus! {

/// Why a check failed.
#[derive(Debug)]
pub enum Error {
    /// The Docker daemon reported this.
    Docker(String),
    /// A request could not be made, or its answer could not be read.
    Http(String),
    /// A registry, or the server that gives out its tokens, refused.
    Auth { registry: String, reason: String },
    /// A registry did not say which digest an image has.
    MissingDigest { image: String },
    /// A registry asked for a token in a way that is not understood.
    AuthHeader(String),
    /// A registry does not have an image.
    NoManifest { image: String },
}

/// What an [`Error`] says.
pub enum ErrorView {
    Docker(Seq<char>),
    Http(Seq<char>),
    Auth { registry: Seq<char>, reason: Seq<char> },
    MissingDigest { image: Seq<char> },
    AuthHeader(Seq<char>),
    NoManifest { image: Seq<char> },
}

impl View for Error {
    type V = ErrorView;

    open spec fn view(&self) -> ErrorView {
        match self {
            Error::Docker(reason) => ErrorView::Docker(reason@),
            Error::Http(reason) => ErrorView::Http(reason@),
            Error::Auth { registry, reason } => ErrorView::Auth {
                registry: registry@,
                reason: reason@,
            },
            Error::MissingDigest { image } => ErrorView::MissingDigest { image: image@ },
            Error::AuthHeader(header) => ErrorView::AuthHeader(header@),
            Error::NoManifest { image } => ErrorView::NoManifest { image: image@ },
        }
    }
}

impl ErrorView {
    /// The error in words.
    pub open spec fn message(self) -> Seq<char> {
        match self {
            ErrorView::Docker(reason) => "Docker API error: "@ + reason,
            ErrorView::Http(reason) => "HTTP error: "@ + reason,
            ErrorView::Auth { registry, reason } => "Registry authentication failed for "@
                + registry + ": "@ + reason,
            ErrorView::MissingDigest { image } => "Missing 'Docker-Content-Digest' header for "@
                + image,
            ErrorView::AuthHeader(header) => "Failed to parse WWW-Authenticate header: "@ + header,
            ErrorView::NoManifest { image } => "No manifest found for "@ + image,
        }
    }
}

impl Error {
    /// The error in words.
    pub fn message(&self) -> (message: String)
        ensures
            message@ == self@.message(),
    {
        match self {
            Error::Docker(reason) => text::concat2("Docker API error: ", reason.as_str()),
            Error::Http(reason) => text::concat2("HTTP error: ", reason.as_str()),
            Error::Auth { registry, reason } => text::concat4(
                "Registry authentication failed for ",
                registry.as_str(),
                ": ",
                reason.as_str(),
            ),
            Error::MissingDigest { image } => text::concat2(
                "Missing 'Docker-Content-Digest' header for ",
                image.as_str(),
            ),
            Error::AuthHeader(header) => text::concat2(
                "Failed to parse WWW-Authenticate header: ",
                header.as_str(),
            ),
            Error::NoManifest { image } => text::concat2("No manifest found for ", image.as_str()),
        }
    }
}

/// An error is seen as one of its own kind, and its words begin with what that kind means and end
/// with what it was said of.
pub proof fn error_is_told_in_its_own_words(error: Error)
    ensures
        ({
            match (error, error@) {
                (Error::Docker(reason), ErrorView::Docker(seen)) => seen == reason@
                    && error@.message() == "Docker API error: "@ + reason@,
                (Error::Http(reason), ErrorView::Http(seen)) => seen == reason@ && error@.message()
                    == "HTTP error: "@ + reason@,
                (
                    Error::Auth { registry, reason },
                    ErrorView::Auth { registry: seen_registry, reason: seen },
                ) => seen_registry == registry@ && seen == reason@ && error@.message()
                    == "Registry authentication failed for "@ + registry@ + ": "@ + reason@,
                (
                    Error::MissingDigest { image },
                    ErrorView::MissingDigest { image: seen },
                ) => seen == image@ && error@.message()
                    == "Missing 'Docker-Content-Digest' header for "@ + image@,
                (Error::AuthHeader(header), ErrorView::AuthHeader(seen)) => seen == header@
                    && error@.message() == "Failed to parse WWW-Authenticate header: "@ + header@,
                (Error::NoManifest { image }, ErrorView::NoManifest { image: seen }) => seen
                    == image@ && error@.message() == "No manifest found for "@ + image@,
                _ => false,
            }
        }),
{
}

} // verus!
