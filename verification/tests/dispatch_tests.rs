use omnimind_core::dispatch::{resolve, resolve_fallback, augment, Step, FallbackStep, Action,
    ClassifyOutcome};
use omnimind_core::envelope::{Envelope, Status};
use omnimind_core::value::Value;

fn frobnicate_line(confidence: &str, intent: &str) -> String {
    format!(
        "{{\"original_text\": \"frobnicate the gadget\", \"intent\": \"{}\", \"predicted_label\": \"echo_cmd\", \"confidence\": {}, \"arguments_text\": \"the gadget\"}}",
        intent, confidence
    )
}

#[test]
fn echo_returns_its_arguments() {
    // input "echo hello world" => success, message "hello world", no data
    let step = resolve("echo hello world");
    match step {
        Step::Done(env) => {
            assert_eq!(env.status, Status::Success);
            assert_eq!(env.message, "hello world");
            assert!(env.data.is_none());
        }
        other => panic!("expected a finished envelope, got {:?}", other),
    }
}

#[test]
fn empty_command_is_reported() {
    match resolve("   ") {
        Step::Done(env) => {
            assert_eq!(env.status, Status::Error);
            assert_eq!(env.message, "Empty command.");
        }
        other => panic!("expected a finished envelope, got {:?}", other),
    }
}

#[test]
fn keyword_is_case_insensitive() {
    match resolve("ECHO hi") {
        Step::Done(env) => {
            assert_eq!(env.status, Status::Success);
            assert_eq!(env.message, "hi");
        }
        other => panic!("expected a finished envelope, got {:?}", other),
    }
}

#[test]
fn help_lists_the_commands() {
    match resolve("help") {
        Step::Done(env) => {
            assert_eq!(env.status, Status::Success);
            assert!(env.message.starts_with("Available commands:"));
        }
        other => panic!("expected a finished envelope, got {:?}", other),
    }
}

#[test]
fn recognized_keyword_never_asks_the_classifier() {
    // A stub bridge would fail loudly if consulted; the direct stage must
    // not even produce a classification request for a known keyword.
    assert!(!matches!(resolve("echo hello"), Step::Classify(_)));
    assert!(!matches!(resolve("ls"), Step::Classify(_)));
    assert!(!matches!(resolve("create_note"), Step::Classify(_)));
    assert!(!matches!(resolve("ipfs_id"), Step::Classify(_)));
}

#[test]
fn ls_resolves_to_a_listing_action() {
    assert_eq!(
        resolve("ls /nonexistent"),
        Step::Act(Action::ListDir(String::from("/nonexistent")))
    );
    assert_eq!(resolve("ls"), Step::Act(Action::ListDir(String::from("."))));
}

#[test]
fn create_note_without_title_is_a_usage_error() {
    match resolve("create_note") {
        Step::Done(env) => {
            assert_eq!(env.status, Status::Error);
            assert_eq!(env.message, "Usage: create_note <title_of_note>");
        }
        other => panic!("expected a finished envelope, got {:?}", other),
    }
}

#[test]
fn cat_rejects_a_short_identifier_before_any_network_call() {
    // length 10, starting with "Qm": rejected at the direct stage already
    match resolve("ipfs_cat Qm12345678") {
        Step::Done(env) => {
            assert_eq!(env.status, Status::Error);
            assert_eq!(env.message, "Invalid CID format: 'Qm12345678'");
        }
        other => panic!("expected a finished envelope, got {:?}", other),
    }
}

#[test]
fn cat_accepts_a_well_shaped_identifier() {
    let cid = "QmYwAPJzv5CZsnA625s3Xf2nemtYgPpHdWEz79ojWnPbdG";
    assert_eq!(cid.len(), 46);
    assert_eq!(
        resolve(&format!("ipfs_cat {}", cid)),
        Step::Act(Action::GatewayCat(String::from(cid)))
    );
}

#[test]
fn unmatched_keyword_asks_the_classifier_with_the_trimmed_line() {
    assert_eq!(
        resolve("  frobnicate the gadget  "),
        Step::Classify(String::from("frobnicate the gadget"))
    );
}

#[test]
fn fallback_echo_is_augmented_with_classifier_metadata() {
    // stub reply: intent "echo", confidence 0.9, arguments "the gadget"
    let line = frobnicate_line("0.9", "echo");
    match resolve_fallback(ClassifyOutcome::Line(line)) {
        FallbackStep::Done(env) => {
            assert_eq!(env.status, Status::Success);
            assert_eq!(env.message, "the gadget");
            let expected = Value::Obj(vec![(
                String::from("nlu_details"),
                Value::Obj(vec![
                    (String::from("nlu_confidence"), Value::Frac(900)),
                    (
                        String::from("nlu_predicted_label"),
                        Value::Str(String::from("echo_cmd")),
                    ),
                    (
                        String::from("nlu_intent_mapped_to"),
                        Value::Str(String::from("echo")),
                    ),
                ]),
            )]);
            assert_eq!(env.data, Some(expected));
        }
        other => panic!("expected a finished envelope, got {:?}", other),
    }
}

#[test]
fn low_confidence_is_rejected_whatever_the_intent() {
    let line = frobnicate_line("0.3", "echo");
    match resolve_fallback(ClassifyOutcome::Line(line)) {
        FallbackStep::Done(env) => {
            assert_eq!(env.status, Status::Error);
            assert_eq!(env.message, "NLU confidence 0.300 for intent 'echo' too low.");
            match env.data {
                Some(Value::Obj(pairs)) => {
                    assert_eq!(pairs.len(), 1);
                    assert_eq!(pairs[0].0, "nlu_result");
                }
                other => panic!("expected diagnostics, got {:?}", other),
            }
        }
        other => panic!("expected a finished envelope, got {:?}", other),
    }
}

#[test]
fn unmapped_classifier_intent_is_an_error_naming_it() {
    let line = frobnicate_line("0.9", "dance");
    match resolve_fallback(ClassifyOutcome::Line(line)) {
        FallbackStep::Done(env) => {
            assert_eq!(env.status, Status::Error);
            assert_eq!(
                env.message,
                "NLU identified intent 'dance', but it's unhandled after NLU processing."
            );
            assert!(env.data.is_none());
        }
        other => panic!("expected a finished envelope, got {:?}", other),
    }
}

#[test]
fn transport_failures_have_distinct_messages() {
    match resolve_fallback(ClassifyOutcome::WriteFailed) {
        FallbackStep::Done(env) => {
            assert_eq!(env.status, Status::Error);
            assert_eq!(env.message, "Failed to send command to NLU service.");
        }
        other => panic!("expected a finished envelope, got {:?}", other),
    }
    match resolve_fallback(ClassifyOutcome::ReadFailed) {
        FallbackStep::Done(env) => {
            assert_eq!(env.status, Status::Error);
            assert_eq!(env.message, "Failed to receive response from NLU service.");
        }
        other => panic!("expected a finished envelope, got {:?}", other),
    }
    match resolve_fallback(ClassifyOutcome::TimedOut) {
        FallbackStep::Done(env) => {
            assert_eq!(env.status, Status::Error);
            assert_eq!(env.message, "Timed out waiting for the NLU service response.");
        }
        other => panic!("expected a finished envelope, got {:?}", other),
    }
}

#[test]
fn malformed_reply_is_a_protocol_error() {
    match resolve_fallback(ClassifyOutcome::Line(String::from("not json at all"))) {
        FallbackStep::Done(env) => {
            assert_eq!(env.status, Status::Error);
            assert_eq!(env.message, "Error processing NLU response.");
        }
        other => panic!("expected a finished envelope, got {:?}", other),
    }
}

#[test]
fn fallback_listing_strips_filler_words() {
    let line = "{\"original_text\": \"list the files\", \"intent\": \"ls\", \"predicted_label\": \"ls_cmd\", \"confidence\": 0.8, \"arguments_text\": \"the files\"}";
    match resolve_fallback(ClassifyOutcome::Line(String::from(line))) {
        FallbackStep::Act(Action::ListDir(path), _) => assert_eq!(path, "."),
        other => panic!("expected a listing action, got {:?}", other),
    }
    let line2 = "{\"original_text\": \"show the parent directory\", \"intent\": \"ls\", \"predicted_label\": \"ls_cmd\", \"confidence\": 0.8, \"arguments_text\": \"the parent directory\"}";
    match resolve_fallback(ClassifyOutcome::Line(String::from(line2))) {
        FallbackStep::Act(Action::ListDir(path), _) => assert_eq!(path, ".."),
        other => panic!("expected a listing action, got {:?}", other),
    }
    let line3 = "{\"original_text\": \"ls /tmp\", \"intent\": \"ls\", \"predicted_label\": \"ls_cmd\", \"confidence\": 0.8, \"arguments_text\": \"/tmp\"}";
    match resolve_fallback(ClassifyOutcome::Line(String::from(line3))) {
        FallbackStep::Act(Action::ListDir(path), _) => assert_eq!(path, "/tmp"),
        other => panic!("expected a listing action, got {:?}", other),
    }
}

#[test]
fn merge_keeps_existing_object_data_and_adds_the_dedicated_key() {
    let line = frobnicate_line("0.9", "echo");
    let cls = match resolve_fallback(ClassifyOutcome::Line(line)) {
        FallbackStep::Done(_) => {
            // Re-derive a classification through an action-producing intent.
            let line = frobnicate_line("0.9", "ipfs_id");
            match resolve_fallback(ClassifyOutcome::Line(line)) {
                FallbackStep::Act(Action::GatewayId, cls) => cls,
                other => panic!("expected an action, got {:?}", other),
            }
        }
        FallbackStep::Act(_, cls) => cls,
    };
    let env = Envelope {
        status: Status::Success,
        message: String::from("done"),
        data: Some(Value::Obj(vec![(
            String::from("path"),
            Value::Str(String::from("./omni_notes/x.omni.txt")),
        )])),
    };
    let merged = augment(env, &cls);
    assert_eq!(merged.status, Status::Success);
    assert_eq!(merged.message, "done");
    match merged.data {
        Some(Value::Obj(pairs)) => {
            assert_eq!(pairs.len(), 2);
            assert_eq!(pairs[0].0, "path");
            assert_eq!(
                pairs[0].1,
                Value::Str(String::from("./omni_notes/x.omni.txt"))
            );
            assert_eq!(pairs[1].0, "nlu_details");
        }
        other => panic!("expected merged object data, got {:?}", other),
    }
}

#[test]
fn merge_nests_non_object_data_beside_the_metadata() {
    let line = frobnicate_line("0.9", "ipfs_id");
    let cls = match resolve_fallback(ClassifyOutcome::Line(line)) {
        FallbackStep::Act(Action::GatewayId, cls) => cls,
        other => panic!("expected an action, got {:?}", other),
    };
    let env = Envelope {
        status: Status::Success,
        message: String::from("done"),
        data: Some(Value::Arr(vec![Value::Str(String::from("x"))])),
    };
    let merged = augment(env, &cls);
    match merged.data {
        Some(Value::Obj(pairs)) => {
            assert_eq!(pairs.len(), 2);
            assert_eq!(pairs[0].0, "original_data");
            assert_eq!(pairs[0].1, Value::Arr(vec![Value::Str(String::from("x"))]));
            assert_eq!(pairs[1].0, "nlu_details");
        }
        other => panic!("expected wrapped data, got {:?}", other),
    }
}

#[test]
fn merge_leaves_error_envelopes_alone() {
    let line = frobnicate_line("0.9", "ipfs_id");
    let cls = match resolve_fallback(ClassifyOutcome::Line(line)) {
        FallbackStep::Act(Action::GatewayId, cls) => cls,
        other => panic!("expected an action, got {:?}", other),
    };
    let env = Envelope {
        status: Status::Error,
        message: String::from("it failed"),
        data: None,
    };
    let merged = augment(env, &cls);
    assert_eq!(merged.status, Status::Error);
    assert_eq!(merged.message, "it failed");
    assert!(merged.data.is_none());
}
