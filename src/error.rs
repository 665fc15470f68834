//! Errors of the control surface and the responses they become.

use vstd::prelude::*;
use vstd::string::*;

verus! {

/// A failure while serving a control request.
#[derive(Debug, Clone)]
pub enum Error {
    /// The database failed.
    Database(String),
    /// Stored or sent JSON was malformed.
    Json(String),
    /// The container runtime failed.
    Docker(String),
    /// A call to the reverse proxy failed.
    Reqwest(String),
    /// A deployment already exists.
    AlreadyDeployed,
}

/// The body of an error response: a machine-readable kind and a message.
#[derive(Debug, Clone)]
pub struct ErrorResponse {
    pub error: &'static str,
    pub message: String,
}

/// The message of `AlreadyDeployed`.
pub open spec fn already_deployed_message() -> Seq<char> {
    seq!['a', ' ', 'd', 'e', 'p', 'l', 'o', 'y', 'm', 'e', 'n', 't', ' ', 'a', 'l', 'r', 'e', 'a', 'd', 'y', ' ',
        'e', 'x', 'i', 's', 't', 's']
}

impl Error {
    /// The HTTP status of this error.
    pub open spec fn status_of(&self) -> u16 {
        match self {
            Error::AlreadyDeployed => 400,
            _ => 500,
        }
    }

    /// The machine-readable kind of this error.
    pub open spec fn kind_of(&self) -> Seq<char> {
        match self {
            Error::Database(_) => seq!['d', 'a', 't', 'a', 'b', 'a', 's', 'e', '_', 'e', 'r', 'r', 'o', 'r'],
            Error::Json(_) => seq!['j', 's', 'o', 'n', '_', 'e', 'r', 'r', 'o', 'r'],
            Error::Docker(_) => seq!['d', 'o', 'c', 'k', 'e', 'r', '_', 'e', 'r', 'r', 'o', 'r'],
            Error::Reqwest(_) => seq!['r', 'e', 'q', 'w', 'e', 's', 't', '_', 'e', 'r', 'r', 'o', 'r'],
            Error::AlreadyDeployed => seq![
                'a', 'l', 'r', 'e', 'a', 'd', 'y', '_', 'd', 'e', 'p', 'l', 'o', 'y', 'e', 'd',
            ],
        }
    }

    /// The human-readable message of this error.
    pub open spec fn message_of(&self) -> Seq<char> {
        match self {
            Error::Database(m) => m@,
            Error::Json(m) => m@,
            Error::Docker(m) => m@,
            Error::Reqwest(m) => m@,
            Error::AlreadyDeployed => already_deployed_message(),
        }
    }

    /// The message of this error.
    pub fn message(&self) -> (r: String)
        ensures
            r@ == self.message_of(),
    {
        match self {
            Error::Database(m) => m.clone(),
            Error::Json(m) => m.clone(),
            Error::Docker(m) => m.clone(),
            Error::Reqwest(m) => m.clone(),
            Error::AlreadyDeployed => {
                proof {
                    reveal_strlit("a deployment already exists");
                }
                String::from_str("a deployment already exists")
            },
        }
    }

    /// The status and body this error is answered with.
    pub fn into_response(self) -> (r: (u16, ErrorResponse))
        ensures
            r.0 == self.status_of(),
            r.1.error@ == self.kind_of(),
            r.1.message@ == self.message_of(),
    {
        let message = self.message();
        proof {
            reveal_strlit("database_error");
            reveal_strlit("json_error");
            reveal_strlit("docker_error");
            reveal_strlit("reqwest_error");
            reveal_strlit("already_deployed");
        }
        let (status, error): (u16, &'static str) = match self {
            Error::Database(_) => (500, "database_error"),
            Error::Json(_) => (500, "json_error"),
            Error::Docker(_) => (500, "docker_error"),
            Error::Reqwest(_) => (500, "reqwest_error"),
            Error::AlreadyDeployed => (400, "already_deployed"),
        };
        (status, ErrorResponse { error, message })
    }
}

} // verus!
