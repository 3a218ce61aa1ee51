//! The query service: which request is answered how.
//!
//! Listening, reading a request and sending the answer are left to the
//! program around the library. What is decided here is where a request
//! goes, what a search request asks for, and how much of the ranking is
//! sent back.
use crate::bytes::str_eq;
use crate::chars::string_from_utf8;
use crate::model::Model;
use crate::rank::{ranked, Match};
use crate::word::terms_of;
use vstd::prelude::*;
use vstd::utf8::{decode_utf8, valid_utf8};

verus! {

/// The most matches that one answer holds.
pub const MAX_HITS: usize = 20;

/// The method of a request, as far as the service tells methods apart.
#[derive(Clone, Copy, Debug, PartialEq, Eq, Structural)]
pub enum Method {
    Get,
    Post,
    Other,
}

/// What a request is answered with.
#[derive(Clone, Copy, Debug, PartialEq, Eq, Structural)]
pub enum Route {
    /// The ranking for the query in the body of the request.
    Search,
    /// The script of the query page.
    Script,
    /// The query page.
    Page,
}

/// Why a search request is not answered with a ranking.
#[derive(Clone, Copy, Debug, PartialEq, Eq, Structural)]
pub enum Failure {
    /// The body of the request is not a text in UTF-8.
    BadRequest,
    /// The service itself failed.
    Internal,
}

/// Where a request goes: a `POST` of `/api/search` is a search, a `GET`
/// of `/script.js` asks for the script, and everything else is answered
/// with the query page.
pub open spec fn route_of(method: Method, url: Seq<char>) -> Route {
    if method == Method::Post && url == "/api/search"@ {
        Route::Search
    } else if method == Method::Get && url == "/script.js"@ {
        Route::Script
    } else {
        Route::Page
    }
}

/// The first [`MAX_HITS`] of a ranking, or all of it where it is
/// shorter.
pub open spec fn first_hits<T>(ranking: Seq<T>) -> Seq<T> {
    if ranking.len() > MAX_HITS {
        ranking.take(MAX_HITS as int)
    } else {
        ranking
    }
}

/// Decides where a request goes.
pub fn route(method: Method, url: &str) -> (to: Route)
    ensures
        to == route_of(method, url@),
{
    match method {
        Method::Post => if str_eq(url, "/api/search") {
            Route::Search
        } else {
            Route::Page
        },
        Method::Get => if str_eq(url, "/script.js") {
            Route::Script
        } else {
            Route::Page
        },
        Method::Other => Route::Page,
    }
}

/// The status code with which a failure is answered.
pub fn status(failure: Failure) -> (code: u16)
    ensures
        code == (match failure {
            Failure::BadRequest => 400u16,
            Failure::Internal => 500u16,
        }),
{
    match failure {
        Failure::BadRequest => 400,
        Failure::Internal => 500,
    }
}

/// Cuts a ranking down to what one answer holds.
pub fn top_hits<T>(ranking: Vec<T>) -> (hits: Vec<T>)
    ensures
        hits@ == first_hits(ranking@),
{
    let mut hits = ranking;
    if hits.len() > MAX_HITS {
        hits.truncate(MAX_HITS);
    }
    hits
}

/// The query service over an index.
pub struct Server {
    model: Model,
}

impl Server {
    /// The index that the service answers from.
    pub closed spec fn model(&self) -> Model {
        self.model
    }

    /// A service over `model`.
    pub fn new(model: Model) -> (server: Server)
        ensures
            server.model() == model,
    {
        Server { model }
    }

    /// Answers a search request with the body `body`: the matches of the
    /// query that the body holds, or a failure where the body is no text
    /// in UTF-8. The matches are those of [`Model::search`]; they are not
    /// yet sorted.
    pub fn serve_search(&self, body: Vec<u8>) -> (answer: Result<Vec<Match>, Failure>)
        ensures
            match answer {
                Ok(matches) => valid_utf8(body@) && matches.deep_view() == ranked(
                    self.model()@,
                    terms_of(decode_utf8(body@)),
                ),
                Err(failure) => failure == Failure::BadRequest && !valid_utf8(body@),
            },
    {
        match string_from_utf8(body) {
            Some(query) => Ok(self.model.search(query.as_str())),
            None => Err(Failure::BadRequest),
        }
    }
}

} // verus!
