//! The front end: turns requests into engine calls and engine outcomes into
//! replies, with the status class that each failure is reported under.
use vstd::prelude::*;

use crate::address::{url_parse, ParsedUrl};
use crate::engine::{lookup, shortened, MemoryShortener, ShortenerError};

verus! {

/// The class of a failed call, as the client sees it.
#[derive(Clone, Copy, Debug, PartialEq, Eq, Structural)]
pub enum Code {
    /// The client sent a malformed argument.
    InvalidArgument,
    /// The server could not complete the call.
    Internal,
}

/// A failed call: its class and a message for the client.
pub struct Status {
    pub code: Code,
    pub message: String,
}

/// A request to shorten `url`.
pub struct ShortenRequest {
    pub url: String,
}

/// The short code handed out for a URL.
pub struct ShortenResponse {
    pub shortened_url: String,
}

/// A request for the URL stored under the identifier `id`.
pub struct GetRealUrlRequest {
    pub id: i64,
}

/// The URL stored under the requested identifier.
pub struct GetRealUrlResponse {
    pub url: String,
}

/// The message sent with a rejected URL.
pub open spec fn invalid_url_message() -> Seq<char> {
    "Url is invalid!"@
}

/// The message sent when the engine failed.
pub open spec fn unavailable_message() -> Seq<char> {
    "Server is not available!"@
}

/// Whether `r` is the failure of class `code` with the message `message`.
pub open spec fn fails_with<T>(r: Result<T, Status>, code: Code, message: Seq<char>) -> bool {
    r matches Err(s) && s.code == code && s.message@ == message
}

/// The front end, over the engine `app`.
pub struct UrlShortenerLive<A> {
    pub app: A,
}

impl<A> UrlShortenerLive<A> {
    /// The first half of `Shorten`: the URL to hand to the engine, or an
    /// `InvalidArgument` failure where the request's URL does not parse.
    pub fn accept_shorten(&self, request: &ShortenRequest) -> (r: Result<ParsedUrl, Status>)
        ensures
            url_parse(request.url@) matches Some(u) ==> (r matches Ok(p) && p@ == u),
            url_parse(request.url@) is None ==> fails_with(r, Code::InvalidArgument, invalid_url_message()),
    {
        match ParsedUrl::parse(request.url.as_str()) {
            Some(p) => Ok(p),
            None => Err(Status { code: Code::InvalidArgument, message: "Url is invalid!".to_owned() }),
        }
    }

    /// The second half of `Shorten`: the engine's code, or an `Internal`
    /// failure where the engine failed.
    pub fn answer_shorten(&self, outcome: Result<String, ShortenerError>) -> (r: Result<ShortenResponse, Status>)
        ensures
            outcome matches Ok(c) ==> (r matches Ok(resp) && resp.shortened_url@ == c@),
            outcome is Err ==> fails_with(r, Code::Internal, unavailable_message()),
    {
        match outcome {
            Ok(c) => Ok(ShortenResponse { shortened_url: c }),
            Err(_) => Err(Status { code: Code::Internal, message: "Server is not available!".to_owned() }),
        }
    }

    /// The reply to `GetRealUrl`: the stored URL, or an `Internal` failure
    /// for every engine failure, `NotFound` included.
    pub fn answer_get_real_url(&self, outcome: Result<String, ShortenerError>) -> (r: Result<GetRealUrlResponse, Status>)
        ensures
            outcome matches Ok(u) ==> (r matches Ok(resp) && resp.url@ == u@),
            outcome is Err ==> fails_with(r, Code::Internal, unavailable_message()),
    {
        match outcome {
            Ok(u) => Ok(GetRealUrlResponse { url: u }),
            Err(_) => Err(Status { code: Code::Internal, message: "Server is not available!".to_owned() }),
        }
    }
}

impl UrlShortenerLive<MemoryShortener> {
    /// `Shorten` against the in-process table: a malformed URL is refused
    /// with `InvalidArgument` and stores nothing; otherwise the URL is stored
    /// under the next identifier, whose code is returned.
    pub fn shorten(&mut self, request: &ShortenRequest) -> (r: Result<ShortenResponse, Status>)
        ensures
            url_parse(request.url@) is None ==> fails_with(r, Code::InvalidArgument, invalid_url_message())
                && final(self).app@ == old(self).app@,
            url_parse(request.url@) matches Some(u) ==> ({
                let (after, out) = shortened(old(self).app@, u);
                &&& final(self).app@ == after
                &&& out matches Ok(c) ==> (r matches Ok(resp) && resp.shortened_url@ == c)
                &&& out is Err ==> fails_with(r, Code::Internal, unavailable_message())
            }),
    {
        match self.accept_shorten(request) {
            Err(s) => Err(s),
            Ok(url) => {
                let outcome = self.app.shorten(&url);
                self.answer_shorten(outcome)
            },
        }
    }

    /// `GetRealUrl` against the in-process table: the URL stored under the
    /// identifier, or an `Internal` failure where none is.
    pub fn get_real_url(&self, request: &GetRealUrlRequest) -> (r: Result<GetRealUrlResponse, Status>)
        ensures
            lookup(self.app@, request.id as int) matches Ok(u) ==> (r matches Ok(resp) && resp.url@ == u),
            lookup(self.app@, request.id as int) is Err ==> fails_with(r, Code::Internal, unavailable_message()),
    {
        let outcome = self.app.get_real_url(request.id);
        self.answer_get_real_url(outcome)
    }
}

} // verus!
