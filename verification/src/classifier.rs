//! The classifier's reply on the line protocol.
//!
//! One request line is answered by one reply line: a flat JSON object with
//! the classified text, the predicted label, the label mapped onto the
//! intent table, a confidence, and the argument text. A line outside that
//! shape is a protocol error.

use vstd::prelude::*;
use crate::json::{flat_object_of, field_text, field_frac, parse_flat_object, text_field,
    frac_field};

verus! {

/// One classifier round-trip's result. The confidence is held in
/// thousandths of one, clamped into the unit interval.
#[derive(Debug, PartialEq)]
pub struct Classification {
    pub original_text: String,
    pub intent: String,
    pub predicted_label: String,
    pub confidence: u32,
    pub arguments_text: String,
}

/// Mathematical model of a classification.
pub struct ClassificationModel {
    pub original_text: Seq<char>,
    pub intent: Seq<char>,
    pub predicted_label: Seq<char>,
    pub confidence: u32,
    pub arguments_text: Seq<char>,
}

impl View for Classification {
    type V = ClassificationModel;

    open spec fn view(&self) -> ClassificationModel {
        ClassificationModel {
            original_text: self.original_text@,
            intent: self.intent@,
            predicted_label: self.predicted_label@,
            confidence: self.confidence,
            arguments_text: self.arguments_text@,
        }
    }
}

/// What a reply line denotes: the five fields, each present exactly once
/// and of the right type, in a line matching the flat-object grammar.
pub open spec fn classification_of(line: Seq<char>) -> Option<ClassificationModel> {
    match flat_object_of(line) {
        None => None,
        Some(ms) => {
            if field_text(ms, "original_text"@, "original_text"@) is Some && field_text(
                ms,
                "intent"@,
                "intent"@,
            ) is Some && field_text(ms, "predicted_label"@, "predicted_label"@) is Some
                && field_frac(ms, "confidence"@) is Some && field_text(
                ms,
                "arguments_text"@,
                "arguments_text"@,
            ) is Some {
                Some(
                    ClassificationModel {
                        original_text: field_text(ms, "original_text"@, "original_text"@)->Some_0,
                        intent: field_text(ms, "intent"@, "intent"@)->Some_0,
                        predicted_label: field_text(
                            ms,
                            "predicted_label"@,
                            "predicted_label"@,
                        )->Some_0,
                        confidence: field_frac(ms, "confidence"@)->Some_0,
                        arguments_text: field_text(
                            ms,
                            "arguments_text"@,
                            "arguments_text"@,
                        )->Some_0,
                    },
                )
            } else {
                None
            }
        },
    }
}

/// Reads one reply line; nothing where the line is outside the protocol.
pub fn parse_classification(line: &str) -> (r: Option<Classification>)
    ensures
        (match classification_of(line@) {
            Some(m) => r is Some && r->Some_0@ == m,
            None => r is None,
        }),
{
    let ms = match parse_flat_object(line) {
        Some(ms) => ms,
        None => {
            return None;
        },
    };
    let original_text = match text_field(&ms, "original_text", "original_text") {
        Some(t) => t,
        None => {
            return None;
        },
    };
    let intent = match text_field(&ms, "intent", "intent") {
        Some(t) => t,
        None => {
            return None;
        },
    };
    let predicted_label = match text_field(&ms, "predicted_label", "predicted_label") {
        Some(t) => t,
        None => {
            return None;
        },
    };
    let confidence = match frac_field(&ms, "confidence") {
        Some(v) => v,
        None => {
            return None;
        },
    };
    let arguments_text = match text_field(&ms, "arguments_text", "arguments_text") {
        Some(t) => t,
        None => {
            return None;
        },
    };
    Some(
        Classification { original_text, intent, predicted_label, confidence, arguments_text },
    )
}

} // verus!
