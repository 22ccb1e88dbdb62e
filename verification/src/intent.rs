//! The closed set of intents and the single label table.
//!
//! Both dispatch paths resolve through the same mapping: the keyword path
//! hands it the lower-cased first token, the classifier path hands it the
//! predicted label. Adding an intent means touching exactly this table.

use vstd::prelude::*;
use crate::text::str_eq;

verus! {

/// The normalized action identifier a command resolves to, regardless of
/// dispatch path. A label outside the table is `Unhandled`; the label
/// itself travels beside the intent wherever a message needs it.
#[derive(Clone, Copy, Debug, PartialEq, Eq, Structural)]
pub enum Intent {
    Echo,
    Help,
    ListFiles,
    CreateNote,
    GatewayId,
    GatewayAdd,
    GatewayCat,
    Unhandled,
}

/// The label table: which intent a lower-cased label denotes.
pub open spec fn spec_intent_of(label: Seq<char>) -> Intent {
    if label == "echo"@ {
        Intent::Echo
    } else if label == "help"@ {
        Intent::Help
    } else if label == "ls"@ {
        Intent::ListFiles
    } else if label == "create_note"@ {
        Intent::CreateNote
    } else if label == "ipfs_id"@ {
        Intent::GatewayId
    } else if label == "ipfs_add"@ {
        Intent::GatewayAdd
    } else if label == "ipfs_cat"@ {
        Intent::GatewayCat
    } else {
        Intent::Unhandled
    }
}

/// Resolves a label through the table.
pub fn intent_of_label(label: &str) -> (r: Intent)
    ensures
        r == spec_intent_of(label@),
{
    if str_eq(label, "echo") {
        Intent::Echo
    } else if str_eq(label, "help") {
        Intent::Help
    } else if str_eq(label, "ls") {
        Intent::ListFiles
    } else if str_eq(label, "create_note") {
        Intent::CreateNote
    } else if str_eq(label, "ipfs_id") {
        Intent::GatewayId
    } else if str_eq(label, "ipfs_add") {
        Intent::GatewayAdd
    } else if str_eq(label, "ipfs_cat") {
        Intent::GatewayCat
    } else {
        Intent::Unhandled
    }
}

} // verus!
