//! Core logic of a forum-style content service: request validation
//! pipelines, command executors over a relational store model, the
//! recursive comment-tree reconstructor, and row-to-response assembly.

pub mod auth;
pub mod comments;
pub mod handler_utils;
pub mod hashtags;
pub mod lemmas;
pub mod middleware;
pub mod posts;
pub mod store;
pub mod text;
pub mod users;

use vstd::prelude::*;

verus! {

/// The failure categories a request can resolve to; the HTTP layer maps
/// each to a status code.
#[derive(Clone, Copy, PartialEq, Eq, Structural, Debug)]
pub enum ErrorKind {
    BadInput,
    NotFound,
    Forbidden,
    ServerFault,
}

/// A structured failure: an optional offending field name plus a message.
#[derive(Debug)]
pub struct ApiError {
    pub kind: ErrorKind,
    pub name: Option<String>,
    pub message: String,
}

impl ApiError {
    /// A field-tagged error.
    pub fn field(kind: ErrorKind, name: &str, message: &str) -> (r: ApiError)
        ensures
            r.kind == kind,
            r.name matches Some(n) && n@ == name@,
            r.message@ == message@,
    {
        ApiError { kind, name: Some(name.to_owned()), message: message.to_owned() }
    }

    /// An error with a message only.
    pub fn msg(kind: ErrorKind, message: &str) -> (r: ApiError)
        ensures
            r.kind == kind,
            r.name is None,
            r.message@ == message@,
    {
        ApiError { kind, name: None, message: message.to_owned() }
    }
}

/// The four sibling orderings a fetch may request.
#[derive(Clone, Copy, PartialEq, Eq, Structural, Debug)]
pub enum Sort {
    Latest,
    Oldest,
    Highest,
    Lowest,
}

} // verus!
