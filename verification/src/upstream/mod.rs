//! What the gateway reads from upstream.

pub mod rules;
pub mod sse;

use sse::{DeltaModel, QwenDelta};
use vstd::prelude::*;

verus! {

/// What the executor reports while it streams an answer.
#[derive(Debug)]
pub enum UpstreamEvent {
    /// An account took the request.
    Meta { email: String },
    Delta(QwenDelta),
    /// The request is about to be sent again through another account; what
    /// came so far is void.
    Retrying,
    Done,
    Error(String),
}

/// What an [`UpstreamEvent`] says.
#[verifier::ext_equal]
pub enum UpstreamModel {
    Meta { email: Seq<char> },
    Delta(DeltaModel),
    Retrying,
    Done,
    Error(Seq<char>),
}

impl View for UpstreamEvent {
    type V = UpstreamModel;

    open spec fn view(&self) -> UpstreamModel {
        match self {
            UpstreamEvent::Meta { email } => UpstreamModel::Meta { email: email@ },
            UpstreamEvent::Delta(delta) => UpstreamModel::Delta(delta@),
            UpstreamEvent::Retrying => UpstreamModel::Retrying,
            UpstreamEvent::Done => UpstreamModel::Done,
            UpstreamEvent::Error(message) => UpstreamModel::Error(message@),
        }
    }
}

} // verus!
