//! The uniform response envelope.
//!
//! Every dispatch path ends in exactly one envelope: a status, a
//! human-readable message, and an optional structured payload.

use vstd::prelude::*;
use crate::value::{Value, ValueModel, model_of};

verus! {

/// Outcome class of an envelope.
#[derive(Clone, Copy, Debug, PartialEq, Eq, Structural)]
pub enum Status {
    Success,
    Error,
    Info,
}

/// The single output shape of every action.
#[derive(Debug, PartialEq)]
pub struct Envelope {
    pub status: Status,
    pub message: String,
    pub data: Option<Value>,
}

/// Mathematical model of an envelope.
pub struct EnvelopeModel {
    pub status: Status,
    pub message: Seq<char>,
    pub data: Option<ValueModel>,
}

impl View for Envelope {
    type V = EnvelopeModel;

    open spec fn view(&self) -> EnvelopeModel {
        EnvelopeModel {
            status: self.status,
            message: self.message@,
            data: match self.data {
                Some(v) => Some(model_of(v)),
                None => None,
            },
        }
    }
}

/// An error envelope with no payload.
pub fn error(message: String) -> (e: Envelope)
    ensures
        e@.status == Status::Error,
        e@.message == message@,
        e@.data is None,
{
    Envelope { status: Status::Error, message, data: None }
}

/// An error envelope carrying a diagnostic payload.
pub fn error_with(message: String, data: Value) -> (e: Envelope)
    ensures
        e@.status == Status::Error,
        e@.message == message@,
        e@.data == Some(data@),
{
    Envelope { status: Status::Error, message, data: Some(data) }
}

/// A success envelope with no payload.
pub fn success(message: String) -> (e: Envelope)
    ensures
        e@.status == Status::Success,
        e@.message == message@,
        e@.data is None,
{
    Envelope { status: Status::Success, message, data: None }
}

/// A success envelope carrying a payload.
pub fn success_with(message: String, data: Value) -> (e: Envelope)
    ensures
        e@.status == Status::Success,
        e@.message == message@,
        e@.data == Some(data@),
{
    Envelope { status: Status::Success, message, data: Some(data) }
}

} // verus!
