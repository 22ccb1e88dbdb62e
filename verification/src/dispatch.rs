//! The two-tier command dispatcher.
//!
//! A raw command is tokenized and its lower-cased keyword is looked up in
//! the intent table. A hit resolves directly into a reply or a backend
//! action; a miss hands the trimmed command to the classifier, and the
//! classifier's reply is resolved through the same table, gated by a
//! confidence threshold and augmented with classifier metadata on
//! success. Every path ends in exactly one envelope.

use vstd::prelude::*;
use crate::classifier::{Classification, ClassificationModel, classification_of,
    parse_classification};
use crate::envelope::{Envelope, EnvelopeModel, Status, error, error_with, success};
use crate::gateway::{valid_cid, cid_ok};
use crate::intent::{Intent, spec_intent_of, intent_of_label};
use crate::text::{tokens_of, tokens, views_of, lower_seq, lower, join_spaced, join, tail,
    trim_seq, trim, contains_seq, contains_sub, chars_vec, frac_str, fraction};
use crate::value::{Value, ValueModel, model_of, pair_models_of, lemma_pair_models_of};

verus! {

/// A classifier-derived intent is acted on only from this confidence
/// upward, in thousandths of one.
pub const CONFIDENCE_THRESHOLD_MILLIS: u32 = 500;

/// A backend action a command resolves into.
#[derive(Debug, PartialEq)]
pub enum Action {
    ListDir(String),
    CreateNote(String),
    GatewayId,
    GatewayAdd(String),
    GatewayCat(String),
}

/// Mathematical model of an action.
pub enum ActionModel {
    ListDir(Seq<char>),
    CreateNote(Seq<char>),
    GatewayId,
    GatewayAdd(Seq<char>),
    GatewayCat(Seq<char>),
}

impl View for Action {
    type V = ActionModel;

    open spec fn view(&self) -> ActionModel {
        match self {
            Action::ListDir(p) => ActionModel::ListDir(p@),
            Action::CreateNote(t) => ActionModel::CreateNote(t@),
            Action::GatewayId => ActionModel::GatewayId,
            Action::GatewayAdd(p) => ActionModel::GatewayAdd(p@),
            Action::GatewayCat(c) => ActionModel::GatewayCat(c@),
        }
    }
}

/// What the direct stage decides: a finished envelope, a backend action,
/// or the request line for the classifier.
#[derive(Debug, PartialEq)]
pub enum Step {
    Done(Envelope),
    Act(Action),
    Classify(String),
}

/// Mathematical model of a direct-stage decision.
pub enum StepModel {
    Done(EnvelopeModel),
    Act(ActionModel),
    Classify(Seq<char>),
}

impl View for Step {
    type V = StepModel;

    open spec fn view(&self) -> StepModel {
        match self {
            Step::Done(e) => StepModel::Done(e@),
            Step::Act(a) => StepModel::Act(a@),
            Step::Classify(l) => StepModel::Classify(l@),
        }
    }
}

/// What came back from one classifier round-trip, as observed at the
/// process boundary: a transport failure on either half of the exchange,
/// a timeout of the bounded wait, or a reply line.
#[derive(Debug, PartialEq)]
pub enum ClassifyOutcome {
    WriteFailed,
    ReadFailed,
    TimedOut,
    Line(String),
}

/// Mathematical model of a round-trip outcome.
pub enum ClassifyOutcomeModel {
    WriteFailed,
    ReadFailed,
    TimedOut,
    Line(Seq<char>),
}

impl View for ClassifyOutcome {
    type V = ClassifyOutcomeModel;

    open spec fn view(&self) -> ClassifyOutcomeModel {
        match self {
            ClassifyOutcome::WriteFailed => ClassifyOutcomeModel::WriteFailed,
            ClassifyOutcome::ReadFailed => ClassifyOutcomeModel::ReadFailed,
            ClassifyOutcome::TimedOut => ClassifyOutcomeModel::TimedOut,
            ClassifyOutcome::Line(l) => ClassifyOutcomeModel::Line(l@),
        }
    }
}

/// What the fallback stage decides: a finished envelope, or a backend
/// action together with the classification to merge in afterwards.
#[derive(Debug, PartialEq)]
pub enum FallbackStep {
    Done(Envelope),
    Act(Action, Classification),
}

/// Mathematical model of a fallback-stage decision.
pub enum FallbackStepModel {
    Done(EnvelopeModel),
    Act(ActionModel, ClassificationModel),
}

impl View for FallbackStep {
    type V = FallbackStepModel;

    open spec fn view(&self) -> FallbackStepModel {
        match self {
            FallbackStep::Done(e) => FallbackStepModel::Done(e@),
            FallbackStep::Act(a, c) => FallbackStepModel::Act(a@, c@),
        }
    }
}

/// An error envelope model without payload.
pub open spec fn err_env(msg: Seq<char>) -> EnvelopeModel {
    EnvelopeModel { status: Status::Error, message: msg, data: None }
}

/// A success envelope model without payload.
pub open spec fn ok_env(msg: Seq<char>) -> EnvelopeModel {
    EnvelopeModel { status: Status::Success, message: msg, data: None }
}

/// The help text.
pub open spec fn help_model() -> Seq<char> {
    "Available commands:\n  echo <text>          - Prints back the text you provide.\n  ls [path]            - Lists files and directories.\n  create_note <title>  - Creates a new text note in the 'omni_notes' directory.\n  ipfs_id              - Fetches the ID of the local IPFS node.\n  ipfs_add <file_path> - Adds a local file to IPFS and returns its CID.\n  ipfs_cat <cid>       - Retrieves and displays content from IPFS for a given CID.\n  help                 - Shows this help message."@
}

/// Builds the help text.
pub fn help_text() -> (r: String)
    ensures
        r@ == help_model(),
{
    String::from_str(
        "Available commands:\n  echo <text>          - Prints back the text you provide.\n  ls [path]            - Lists files and directories.\n  create_note <title>  - Creates a new text note in the 'omni_notes' directory.\n  ipfs_id              - Fetches the ID of the local IPFS node.\n  ipfs_add <file_path> - Adds a local file to IPFS and returns its CID.\n  ipfs_cat <cid>       - Retrieves and displays content from IPFS for a given CID.\n  help                 - Shows this help message.",
    )
}

/// The direct stage, in full: what `resolve` decides for a raw command.
pub open spec fn direct_resolution(raw: Seq<char>) -> StepModel {
    let ts = tokens_of(raw);
    if ts.len() == 0 {
        StepModel::Done(err_env("Empty command."@))
    } else {
        let kw = lower_seq(ts[0]);
        let args = ts.drop_first();
        match spec_intent_of(kw) {
            Intent::Echo => StepModel::Done(ok_env(join_spaced(args))),
            Intent::Help => StepModel::Done(ok_env(help_model())),
            Intent::ListFiles => StepModel::Act(
                ActionModel::ListDir(
                    if args.len() > 0 {
                        args[0]
                    } else {
                        "."@
                    },
                ),
            ),
            Intent::CreateNote => {
                if args.len() == 0 {
                    StepModel::Done(err_env("Usage: create_note <title_of_note>"@))
                } else {
                    StepModel::Act(ActionModel::CreateNote(join_spaced(args)))
                }
            },
            Intent::GatewayId => StepModel::Act(ActionModel::GatewayId),
            Intent::GatewayAdd => {
                if args.len() == 0 {
                    StepModel::Done(err_env("Usage: ipfs_add <local_file_path>"@))
                } else {
                    StepModel::Act(ActionModel::GatewayAdd(join_spaced(args)))
                }
            },
            Intent::GatewayCat => {
                if args.len() == 0 {
                    StepModel::Done(err_env("Usage: ipfs_cat <ipfs_cid>"@))
                } else if !valid_cid(args[0]) {
                    StepModel::Done(err_env("Invalid CID format: '"@ + args[0] + "'"@))
                } else {
                    StepModel::Act(ActionModel::GatewayCat(args[0]))
                }
            },
            Intent::Unhandled => StepModel::Classify(trim_seq(raw)),
        }
    }
}

/// Resolves a raw command through the direct stage. An empty command is
/// reported, a recognized keyword resolves without the classifier, and
/// only an unrecognized keyword asks for a classification.
pub fn resolve(raw: &str) -> (step: Step)
    ensures
        step@ == direct_resolution(raw@),
{
    let toks = tokens(raw);
    if toks.len() == 0 {
        proof {
            assert(tokens_of(raw@).len() == 0);
        }
        return Step::Done(error(String::from_str("Empty command.")));
    }
    proof {
        assert(views_of(toks@)[0] == toks@[0]@);
    }
    let kw = lower(toks[0].as_str());
    let args = tail(&toks);
    proof {
        assert(views_of(args@) == tokens_of(raw@).drop_first());
    }
    match intent_of_label(kw.as_str()) {
        Intent::Echo => Step::Done(success(join(&args))),
        Intent::Help => Step::Done(success(help_text())),
        Intent::ListFiles => {
            let p = if args.len() > 0 {
                proof {
                    assert(views_of(args@)[0] == args@[0]@);
                }
                args[0].clone()
            } else {
                String::from_str(".")
            };
            Step::Act(Action::ListDir(p))
        },
        Intent::CreateNote => {
            if args.len() == 0 {
                Step::Done(error(String::from_str("Usage: create_note <title_of_note>")))
            } else {
                Step::Act(Action::CreateNote(join(&args)))
            }
        },
        Intent::GatewayId => Step::Act(Action::GatewayId),
        Intent::GatewayAdd => {
            if args.len() == 0 {
                Step::Done(error(String::from_str("Usage: ipfs_add <local_file_path>")))
            } else {
                Step::Act(Action::GatewayAdd(join(&args)))
            }
        },
        Intent::GatewayCat => {
            if args.len() == 0 {
                Step::Done(error(String::from_str("Usage: ipfs_cat <ipfs_cid>")))
            } else {
                proof {
                    assert(views_of(args@)[0] == args@[0]@);
                }
                if !cid_ok(args[0].as_str()) {
                    Step::Done(
                        error(
                            String::from_str("Invalid CID format: '").concat(
                                args[0].as_str(),
                            ).concat("'"),
                        ),
                    )
                } else {
                    Step::Act(Action::GatewayCat(args[0].clone()))
                }
            }
        },
        Intent::Unhandled => Step::Classify(trim(raw)),
    }
}

/// The classifier metadata merged into successful envelopes.
pub open spec fn nlu_details_model(c: ClassificationModel) -> ValueModel {
    ValueModel::Obj(
        seq![
            ("nlu_confidence"@, ValueModel::Frac(c.confidence)),
            ("nlu_predicted_label"@, ValueModel::Str(c.predicted_label)),
            ("nlu_intent_mapped_to"@, ValueModel::Str(c.intent)),
        ],
    )
}

/// Builds the classifier metadata payload.
fn nlu_details(c: &Classification) -> (r: Value)
    ensures
        model_of(r) == nlu_details_model(c@),
{
    let mut fields: Vec<(String, Value)> = Vec::new();
    fields.push((String::from_str("nlu_confidence"), Value::Frac(c.confidence)));
    fields.push(
        (String::from_str("nlu_predicted_label"), Value::Str(c.predicted_label.clone())),
    );
    fields.push((String::from_str("nlu_intent_mapped_to"), Value::Str(c.intent.clone())));
    proof {
        lemma_pair_models_of(fields@);
        assert(pair_models_of(fields@)[0] == (fields@[0].0@, model_of(fields@[0].1)));
        assert(pair_models_of(fields@)[1] == (fields@[1].0@, model_of(fields@[1].1)));
        assert(pair_models_of(fields@)[2] == (fields@[2].0@, model_of(fields@[2].1)));
        assert(pair_models_of(fields@) =~= seq![
            ("nlu_confidence"@, ValueModel::Frac(c@.confidence)),
            ("nlu_predicted_label"@, ValueModel::Str(c@.predicted_label)),
            ("nlu_intent_mapped_to"@, ValueModel::Str(c@.intent)),
        ]);
    }
    Value::Obj(fields)
}

/// How classifier metadata is merged into an envelope: an error passes
/// unchanged; otherwise the metadata goes under its one dedicated key,
/// beside existing object data, or beside non-object data nested under
/// its own key — never over anything the action produced.
pub open spec fn augment_model(e: EnvelopeModel, c: ClassificationModel) -> EnvelopeModel {
    if e.status == Status::Error {
        e
    } else {
        let details = nlu_details_model(c);
        let data = match e.data {
            None => ValueModel::Obj(seq![("nlu_details"@, details)]),
            Some(ValueModel::Obj(ps)) => ValueModel::Obj(ps.push(("nlu_details"@, details))),
            Some(other) => ValueModel::Obj(
                seq![("original_data"@, other), ("nlu_details"@, details)],
            ),
        };
        EnvelopeModel { status: e.status, message: e.message, data: Some(data) }
    }
}

/// Merges classifier metadata into an action's envelope.
pub fn augment(env: Envelope, cls: &Classification) -> (r: Envelope)
    ensures
        r@ == augment_model(env@, cls@),
{
    if env.status == Status::Error {
        return env;
    }
    let details = nlu_details(cls);
    let data = match env.data {
        None => {
            let mut fields: Vec<(String, Value)> = Vec::new();
            fields.push((String::from_str("nlu_details"), details));
            proof {
                lemma_pair_models_of(fields@);
                assert(pair_models_of(fields@)[0] == (fields@[0].0@, model_of(fields@[0].1)));
                assert(pair_models_of(fields@) =~= seq![
                    ("nlu_details"@, nlu_details_model(cls@)),
                ]);
            }
            Value::Obj(fields)
        },
        Some(Value::Obj(ps)) => {
            let ghost old_ps = ps@;
            let mut ps = ps;
            ps.push((String::from_str("nlu_details"), details));
            proof {
                assert(ps@.drop_last() =~= old_ps);
                assert(pair_models_of(ps@) == pair_models_of(old_ps).push(
                    (ps@.last().0@, model_of(ps@.last().1)),
                ));
            }
            Value::Obj(ps)
        },
        Some(other) => {
            let mut fields: Vec<(String, Value)> = Vec::new();
            fields.push((String::from_str("original_data"), other));
            fields.push((String::from_str("nlu_details"), details));
            proof {
                lemma_pair_models_of(fields@);
                assert(pair_models_of(fields@)[0] == (fields@[0].0@, model_of(fields@[0].1)));
                assert(pair_models_of(fields@)[1] == (fields@[1].0@, model_of(fields@[1].1)));
                assert(pair_models_of(fields@) =~= seq![
                    ("original_data"@, model_of(fields@[0].1)),
                    ("nlu_details"@, nlu_details_model(cls@)),
                ]);
            }
            Value::Obj(fields)
        },
    };
    Envelope { status: env.status, message: env.message, data: Some(data) }
}

/// The diagnostic payload carried by a below-threshold rejection: the
/// raw classification under one key.
pub open spec fn diagnostics_model(c: ClassificationModel) -> ValueModel {
    ValueModel::Obj(
        seq![
            (
                "nlu_result"@,
                ValueModel::Obj(
                    seq![
                        ("original_text"@, ValueModel::Str(c.original_text)),
                        ("intent"@, ValueModel::Str(c.intent)),
                        ("predicted_label"@, ValueModel::Str(c.predicted_label)),
                        ("confidence"@, ValueModel::Frac(c.confidence)),
                        ("arguments_text"@, ValueModel::Str(c.arguments_text)),
                    ],
                ),
            ),
        ],
    )
}

/// Builds the below-threshold diagnostic payload.
fn diagnostics(c: &Classification) -> (r: Value)
    ensures
        model_of(r) == diagnostics_model(c@),
{
    let mut inner: Vec<(String, Value)> = Vec::new();
    inner.push((String::from_str("original_text"), Value::Str(c.original_text.clone())));
    inner.push((String::from_str("intent"), Value::Str(c.intent.clone())));
    inner.push((String::from_str("predicted_label"), Value::Str(c.predicted_label.clone())));
    inner.push((String::from_str("confidence"), Value::Frac(c.confidence)));
    inner.push((String::from_str("arguments_text"), Value::Str(c.arguments_text.clone())));
    proof {
        lemma_pair_models_of(inner@);
        assert(pair_models_of(inner@)[0] == (inner@[0].0@, model_of(inner@[0].1)));
        assert(pair_models_of(inner@)[1] == (inner@[1].0@, model_of(inner@[1].1)));
        assert(pair_models_of(inner@)[2] == (inner@[2].0@, model_of(inner@[2].1)));
        assert(pair_models_of(inner@)[3] == (inner@[3].0@, model_of(inner@[3].1)));
        assert(pair_models_of(inner@)[4] == (inner@[4].0@, model_of(inner@[4].1)));
        assert(pair_models_of(inner@) =~= seq![
            ("original_text"@, ValueModel::Str(c@.original_text)),
            ("intent"@, ValueModel::Str(c@.intent)),
            ("predicted_label"@, ValueModel::Str(c@.predicted_label)),
            ("confidence"@, ValueModel::Frac(c@.confidence)),
            ("arguments_text"@, ValueModel::Str(c@.arguments_text)),
        ]);
    }
    let wrapped = Value::Obj(inner);
    let mut outer: Vec<(String, Value)> = Vec::new();
    outer.push((String::from_str("nlu_result"), wrapped));
    proof {
        lemma_pair_models_of(outer@);
        assert(pair_models_of(outer@)[0] == (outer@[0].0@, model_of(outer@[0].1)));
        assert(pair_models_of(outer@) =~= seq![("nlu_result"@, model_of(outer@[0].1))]);
    }
    Value::Obj(outer)
}

/// The message of a below-threshold rejection.
pub open spec fn low_confidence_msg(c: ClassificationModel) -> Seq<char> {
    "NLU confidence "@ + frac_str(c.confidence as nat) + " for intent '"@ + c.intent
        + "' too low."@
}

/// The message for a classifier label outside the intent table.
pub open spec fn unhandled_intent_msg(c: ClassificationModel) -> Seq<char> {
    "NLU identified intent '"@ + c.intent + "', but it's unhandled after NLU processing."@
}

/// Whether a first argument is a filler word the listing path ignores.
pub open spec fn filler_word(t: Seq<char>) -> bool {
    t == "me"@ || t == "my"@ || t == "the"@ || t == "a"@ || t == "in"@ || t == "all"@
}

/// The path a classifier-derived listing resolves to: the parent
/// directory where the argument text asks for it, else the first
/// non-filler argument token, else the current directory.
pub open spec fn nlu_listing_path(c: ClassificationModel) -> Seq<char> {
    if contains_seq(lower_seq(c.arguments_text), "parent directory"@) {
        ".."@
    } else {
        let args = tokens_of(c.arguments_text);
        if args.len() > 0 && !filler_word(lower_seq(args[0])) {
            args[0]
        } else {
            "."@
        }
    }
}

/// The fallback stage, in full: what `resolve_fallback` decides for each
/// round-trip outcome. Transport failures and protocol errors each carry
/// their own message; a parsed reply below the confidence threshold is
/// rejected with diagnostics; above it, the label resolves through the
/// intent table, and envelopes finished here are already augmented.
pub open spec fn fallback_resolution(o: ClassifyOutcomeModel) -> FallbackStepModel {
    match o {
        ClassifyOutcomeModel::WriteFailed => FallbackStepModel::Done(
            err_env("Failed to send command to NLU service."@),
        ),
        ClassifyOutcomeModel::ReadFailed => FallbackStepModel::Done(
            err_env("Failed to receive response from NLU service."@),
        ),
        ClassifyOutcomeModel::TimedOut => FallbackStepModel::Done(
            err_env("Timed out waiting for the NLU service response."@),
        ),
        ClassifyOutcomeModel::Line(l) => match classification_of(l) {
            None => FallbackStepModel::Done(err_env("Error processing NLU response."@)),
            Some(c) => {
                if c.confidence < CONFIDENCE_THRESHOLD_MILLIS {
                    FallbackStepModel::Done(
                        EnvelopeModel {
                            status: Status::Error,
                            message: low_confidence_msg(c),
                            data: Some(diagnostics_model(c)),
                        },
                    )
                } else {
                    let args = tokens_of(c.arguments_text);
                    match spec_intent_of(c.intent) {
                        Intent::Echo => FallbackStepModel::Done(
                            augment_model(ok_env(join_spaced(args)), c),
                        ),
                        Intent::Help => FallbackStepModel::Done(
                            augment_model(ok_env(help_model()), c),
                        ),
                        Intent::ListFiles => FallbackStepModel::Act(
                            ActionModel::ListDir(nlu_listing_path(c)),
                            c,
                        ),
                        Intent::CreateNote => {
                            if args.len() == 0 {
                                FallbackStepModel::Done(
                                    err_env("NLU: create_note requires a title."@),
                                )
                            } else {
                                FallbackStepModel::Act(
                                    ActionModel::CreateNote(join_spaced(args)),
                                    c,
                                )
                            }
                        },
                        Intent::GatewayId => FallbackStepModel::Act(ActionModel::GatewayId, c),
                        Intent::GatewayAdd => {
                            if args.len() == 0 {
                                FallbackStepModel::Done(
                                    err_env("NLU: ipfs_add requires a file path."@),
                                )
                            } else {
                                FallbackStepModel::Act(
                                    ActionModel::GatewayAdd(join_spaced(args)),
                                    c,
                                )
                            }
                        },
                        Intent::GatewayCat => {
                            if args.len() == 0 {
                                FallbackStepModel::Done(err_env("NLU: ipfs_cat requires a CID."@))
                            } else if !valid_cid(args[0]) {
                                FallbackStepModel::Done(
                                    err_env("Invalid CID format: '"@ + args[0] + "'"@),
                                )
                            } else {
                                FallbackStepModel::Act(ActionModel::GatewayCat(args[0]), c)
                            }
                        },
                        Intent::Unhandled => FallbackStepModel::Done(
                            err_env(unhandled_intent_msg(c)),
                        ),
                    }
                }
            },
        },
    }
}

/// Resolves what came back from the classifier round-trip.
pub fn resolve_fallback(outcome: ClassifyOutcome) -> (r: FallbackStep)
    ensures
        r@ == fallback_resolution(outcome@),
{
    let line = match outcome {
        ClassifyOutcome::WriteFailed => {
            return FallbackStep::Done(
                error(String::from_str("Failed to send command to NLU service.")),
            );
        },
        ClassifyOutcome::ReadFailed => {
            return FallbackStep::Done(
                error(String::from_str("Failed to receive response from NLU service.")),
            );
        },
        ClassifyOutcome::TimedOut => {
            return FallbackStep::Done(
                error(String::from_str("Timed out waiting for the NLU service response.")),
            );
        },
        ClassifyOutcome::Line(l) => l,
    };
    let cls = match parse_classification(line.as_str()) {
        None => {
            return FallbackStep::Done(
                error(String::from_str("Error processing NLU response.")),
            );
        },
        Some(c) => c,
    };
    if cls.confidence < CONFIDENCE_THRESHOLD_MILLIS {
        let shown = fraction(cls.confidence);
        let message = String::from_str("NLU confidence ").concat(shown.as_str()).concat(
            " for intent '",
        ).concat(cls.intent.as_str()).concat("' too low.");
        let data = diagnostics(&cls);
        return FallbackStep::Done(error_with(message, data));
    }
    let args = tokens(cls.arguments_text.as_str());
    proof {
        assert(views_of(args@) == tokens_of(cls@.arguments_text));
    }
    match intent_of_label(cls.intent.as_str()) {
        Intent::Echo => {
            let env = success(join(&args));
            FallbackStep::Done(augment(env, &cls))
        },
        Intent::Help => {
            let env = success(help_text());
            FallbackStep::Done(augment(env, &cls))
        },
        Intent::ListFiles => {
            let lowered = lower(cls.arguments_text.as_str());
            let hay = chars_vec(lowered.as_str());
            let needle = chars_vec("parent directory");
            let path = if contains_sub(&hay, &needle) {
                String::from_str("..")
            } else if args.len() > 0 {
                proof {
                    assert(views_of(args@)[0] == args@[0]@);
                }
                let first = lower(args[0].as_str());
                if crate::text::str_eq(first.as_str(), "me") || crate::text::str_eq(
                    first.as_str(),
                    "my",
                ) || crate::text::str_eq(first.as_str(), "the") || crate::text::str_eq(
                    first.as_str(),
                    "a",
                ) || crate::text::str_eq(first.as_str(), "in") || crate::text::str_eq(
                    first.as_str(),
                    "all",
                ) {
                    String::from_str(".")
                } else {
                    args[0].clone()
                }
            } else {
                String::from_str(".")
            };
            FallbackStep::Act(Action::ListDir(path), cls)
        },
        Intent::CreateNote => {
            if args.len() == 0 {
                FallbackStep::Done(error(String::from_str("NLU: create_note requires a title.")))
            } else {
                FallbackStep::Act(Action::CreateNote(join(&args)), cls)
            }
        },
        Intent::GatewayId => FallbackStep::Act(Action::GatewayId, cls),
        Intent::GatewayAdd => {
            if args.len() == 0 {
                FallbackStep::Done(
                    error(String::from_str("NLU: ipfs_add requires a file path.")),
                )
            } else {
                FallbackStep::Act(Action::GatewayAdd(join(&args)), cls)
            }
        },
        Intent::GatewayCat => {
            if args.len() == 0 {
                FallbackStep::Done(error(String::from_str("NLU: ipfs_cat requires a CID.")))
            } else {
                proof {
                    assert(views_of(args@)[0] == args@[0]@);
                }
                if !cid_ok(args[0].as_str()) {
                    FallbackStep::Done(
                        error(
                            String::from_str("Invalid CID format: '").concat(
                                args[0].as_str(),
                            ).concat("'"),
                        ),
                    )
                } else {
                    FallbackStep::Act(Action::GatewayCat(args[0].clone()), cls)
                }
            }
        },
        Intent::Unhandled => {
            let message = String::from_str("NLU identified intent '").concat(
                cls.intent.as_str(),
            ).concat("', but it's unhandled after NLU processing.");
            FallbackStep::Done(error(message))
        },
    }
}

/// A raw command with a recognized keyword never consults the
/// classifier: its resolution is a reply or an action, never a
/// classification request.
pub proof fn lemma_keyword_match_skips_classifier(raw: Seq<char>)
    requires
        tokens_of(raw).len() > 0,
        spec_intent_of(lower_seq(tokens_of(raw)[0])) != Intent::Unhandled,
    ensures
        !(direct_resolution(raw) is Classify),
{
}

/// A classifier reply below the confidence threshold always ends in an
/// error envelope carrying the raw classification for diagnostics,
/// whatever intent the reply named.
pub proof fn lemma_low_confidence_rejected(l: Seq<char>, c: ClassificationModel)
    requires
        classification_of(l) == Some(c),
        c.confidence < CONFIDENCE_THRESHOLD_MILLIS,
    ensures
        fallback_resolution(ClassifyOutcomeModel::Line(l)) == FallbackStepModel::Done(
            EnvelopeModel {
                status: Status::Error,
                message: low_confidence_msg(c),
                data: Some(diagnostics_model(c)),
            },
        ),
{
}

/// Merging metadata into an envelope with object-shaped data keeps every
/// action-produced pair where it was and adds the one dedicated
/// metadata key after them: nothing is overwritten.
pub proof fn lemma_merge_keeps_action_data(
    e: EnvelopeModel,
    c: ClassificationModel,
    ps: Seq<(Seq<char>, ValueModel)>,
)
    requires
        e.status != Status::Error,
        e.data == Some(ValueModel::Obj(ps)),
    ensures
        augment_model(e, c).status == e.status,
        augment_model(e, c).message == e.message,
        augment_model(e, c).data == Some(
            ValueModel::Obj(ps.push(("nlu_details"@, nlu_details_model(c)))),
        ),
        forall|i: int|
            0 <= i < ps.len() ==> ps.push(("nlu_details"@, nlu_details_model(c)))[i] == ps[i],
        ValueModel::Obj(ps.push(("nlu_details"@, nlu_details_model(c)))).has_key("nlu_details"@),
{
    let qs = ps.push(("nlu_details"@, nlu_details_model(c)));
    assert(ValueModel::Obj(qs).keys()[ps.len() as int] == "nlu_details"@);
}

/// A cat action out of the direct stage always carries an identifier of
/// valid shape: validation precedes any network work.
pub proof fn lemma_direct_cat_validated(raw: Seq<char>)
    ensures
        direct_resolution(raw) matches StepModel::Act(ActionModel::GatewayCat(cid))
            ==> valid_cid(cid),
{
}

/// A cat action out of the fallback stage always carries an identifier
/// of valid shape: validation precedes any network work.
pub proof fn lemma_fallback_cat_validated(o: ClassifyOutcomeModel)
    ensures
        fallback_resolution(o) matches FallbackStepModel::Act(ActionModel::GatewayCat(cid), _)
            ==> valid_cid(cid),
{
}

} // verus!

