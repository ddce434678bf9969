//! The error mapper: from an application error to a status and an error
//! document, for the errors that a client is meant to see.

use vstd::prelude::*;
use vstd::string::StringExecFns;
use crate::link::{Link, LinkView};
use crate::model::{lemma_reserved_names, self_rel, DocumentError, ResourceView};
use crate::resource::Resource;
use crate::value::{StateValue, ValueView};

verus! {

/// The kinds of application error.
#[derive(Debug, Clone, Copy, PartialEq, Eq)]
pub enum ErrorKind {
    /// The request is malformed.
    BadRequest,
    /// What was asked for does not exist.
    NotFound,
    /// Something failed on this side.
    Internal,
    /// An error of no known kind.
    Unclassified,
}

/// An application error: its kind and a message for the client.
#[derive(Debug, Clone, PartialEq, Eq)]
pub struct AppError {
    pub kind: ErrorKind,
    pub message: String,
}

/// The status with which an error of this kind is answered; none for a kind
/// that is not to be answered with an error document.
pub open spec fn status_of(kind: ErrorKind) -> Option<u16> {
    match kind {
        ErrorKind::BadRequest => Some(400u16),
        ErrorKind::NotFound => Some(404u16),
        ErrorKind::Internal => None,
        ErrorKind::Unclassified => None,
    }
}

/// The error document: the message as the state attribute `message`, and a
/// link to `/help` under the relation `help`.
pub open spec fn error_document(message: Seq<char>) -> ResourceView {
    ResourceView {
        links: seq![("help"@, seq![LinkView::to("/help"@)])],
        state: seq![("message"@, ValueView::Text(message))],
        ..ResourceView::empty()
    }
}

/// The error document is what the two operations build from the empty
/// document.
pub proof fn lemma_error_document(message: Seq<char>)
    ensures
        ResourceView::empty().add_state("message"@, ValueView::Text(message)) matches Ok(with_state)
            && with_state.add_link("help"@, LinkView::to("/help"@)) == Ok::<
            ResourceView,
            DocumentError,
        >(error_document(message)),
{
    lemma_reserved_names();
    reveal_strlit("message");
    reveal_strlit("help");
    assert("message"@.len() == 7);
    assert("help"@[0] == 'h');
    assert(self_rel()[0] == 's') by {
        reveal_strlit("self");
    }
    let with_state = ResourceView::empty().add_state("message"@, ValueView::Text(message))->Ok_0;
    assert(with_state.state =~= seq![("message"@, ValueView::Text(message))]);
    let with_link = with_state.add_link("help"@, LinkView::to("/help"@))->Ok_0;
    assert(with_link.links =~= seq![("help"@, seq![LinkView::to("/help"@)])]);
}

/// Maps an error to the status and the document with which it is answered.
/// A bad request gives status 400 and a missing resource status 404, each
/// with the error document of the message. Any other kind gives nothing:
/// such an error is not to be answered with an error document.
pub fn map(kind: ErrorKind, message: &str) -> (answer: Option<(u16, Resource)>)
    ensures
        match (status_of(kind), answer) {
            (Some(status), Some((code, document))) => code == status && document@
                == error_document(message@) && document@.wf(),
            (None, None) => true,
            _ => false,
        },
{
    let status: u16 = match kind {
        ErrorKind::BadRequest => 400,
        ErrorKind::NotFound => 404,
        _ => {
            return None;
        },
    };
    proof {
        lemma_error_document(message@);
    }
    let with_state = match Resource::new().add_state(
        "message",
        StateValue::Text(String::from_str(message)),
    ) {
        Ok(document) => document,
        Err(_) => {
            return None;
        },
    };
    match with_state.add_link("help", Link::new("/help")) {
        Ok(document) => Some((status, document)),
        Err(_) => None,
    }
}

impl AppError {
    /// The error of the given kind with the given message.
    pub fn new(kind: ErrorKind, message: &str) -> (error: AppError)
        ensures
            error.kind == kind,
            error.message@ == message@,
    {
        AppError { kind, message: String::from_str(message) }
    }

    /// Maps the error as `map` does.
    pub fn map(self) -> (answer: Option<(u16, Resource)>)
        ensures
            match (status_of(self.kind), answer) {
                (Some(status), Some((code, document))) => code == status && document@
                    == error_document(self.message@) && document@.wf(),
                (None, None) => true,
                _ => false,
            },
    {
        map(self.kind, self.message.as_str())
    }
}

} // verus!
