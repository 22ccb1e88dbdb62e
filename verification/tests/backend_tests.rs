use omnimind_core::actions::{sanitize, plan_note, note_body, note_envelope, list_envelope,
    DirEntry, EntryKind, ListOutcome, NoteOutcome};
use omnimind_core::envelope::Status;
use omnimind_core::gateway::{cid_ok, id_url, add_url, cat_url, id_envelope, add_envelope,
    cat_envelope, IdOutcome, AddOutcome, CatOutcome};
use omnimind_core::value::Value;

#[test]
fn sanitize_keeps_letters_digits_space_hyphen_underscore() {
    // "My Title!!" => letters, the space and nothing else; spaces become
    // underscores
    assert_eq!(sanitize("My Title!!"), "My_Title");
    assert_eq!(sanitize("a-b_c 9"), "a-b_c_9");
    assert_eq!(sanitize("???"), "");
}

#[test]
fn planned_note_carries_the_original_title_verbatim() {
    let plan = plan_note("My Title!!").expect("title sanitizes to a stem");
    assert_eq!(plan.dir_path, "./omni_notes");
    assert_eq!(plan.note_path, "./omni_notes/My_Title.omni.txt");
    assert!(plan.body.contains("My Title!!"));
}

#[test]
fn note_body_is_the_fixed_template() {
    let body = note_body("T!", "2024-05-01 12:00:00");
    assert_eq!(
        body,
        "OmniMind Note\nTitle: T!\nCreated: 2024-05-01 12:00:00\n\n---\n(Start your note here)\n"
    );
}

#[test]
fn unsanitizable_title_is_rejected_before_any_write() {
    let env = plan_note("!!!").expect_err("nothing survives sanitization");
    assert_eq!(env.status, Status::Error);
    assert_eq!(env.message, "Note title invalid after sanitization.");
}

#[test]
fn failed_content_write_still_reports_success() {
    // the file exists: that trumps the lost content
    let env = note_envelope(
        "./omni_notes/x.omni.txt",
        NoteOutcome::WriteFailed(String::from("disk full")),
    );
    assert_eq!(env.status, Status::Success);
    assert_eq!(
        env.message,
        "Created empty note: './omni_notes/x.omni.txt', but failed to write content: disk full"
    );
    assert_eq!(
        env.data,
        Some(Value::Obj(vec![(
            String::from("path"),
            Value::Str(String::from("./omni_notes/x.omni.txt")),
        )]))
    );
}

#[test]
fn written_note_reports_its_path() {
    let env = note_envelope("./omni_notes/x.omni.txt", NoteOutcome::Written);
    assert_eq!(env.status, Status::Success);
    assert_eq!(env.message, "Successfully created note: './omni_notes/x.omni.txt'");
}

#[test]
fn missing_listing_path_is_its_own_error() {
    let env = list_envelope("/nonexistent", ListOutcome::Missing);
    assert_eq!(env.status, Status::Error);
    assert_eq!(env.message, "Path '/nonexistent' does not exist.");
    assert!(env.data.is_none());
}

#[test]
fn non_directory_is_told_apart_from_missing() {
    let env = list_envelope("/etc/hosts", ListOutcome::NotDirectory);
    assert_eq!(env.status, Status::Error);
    assert_eq!(env.message, "Path '/etc/hosts' is not a directory.");
}

#[test]
fn listing_keeps_enumeration_order() {
    let entries = vec![
        DirEntry { name: String::from("b.txt"), kind: EntryKind::File },
        DirEntry { name: String::from("a"), kind: EntryKind::Directory },
        DirEntry { name: String::from("s"), kind: EntryKind::Other },
    ];
    let env = list_envelope(".", ListOutcome::Listed(entries));
    assert_eq!(env.status, Status::Success);
    assert_eq!(env.message, "Contents of '.':");
    let expected = Value::Arr(vec![
        Value::Obj(vec![
            (String::from("name"), Value::Str(String::from("b.txt"))),
            (String::from("kind"), Value::Str(String::from("file"))),
        ]),
        Value::Obj(vec![
            (String::from("name"), Value::Str(String::from("a"))),
            (String::from("kind"), Value::Str(String::from("directory"))),
        ]),
        Value::Obj(vec![
            (String::from("name"), Value::Str(String::from("s"))),
            (String::from("kind"), Value::Str(String::from("other"))),
        ]),
    ]);
    assert_eq!(env.data, Some(expected));
}

#[test]
fn identifier_shape_is_checked_strictly() {
    assert!(!cid_ok("Qm12345678")); // length 10: too short
    assert!(cid_ok("QmYwAPJzv5CZsnA625s3Xf2nemtYgPpHdWEz79ojWnPbdG"));
    assert!(cid_ok("bafybeigdyrzt5sfp7udm7hu76uh7y26nf3efuylqabf3oclgtqy55fbzdi"));
    assert!(!cid_ok("zz45678901234567890123456789012345678901234567"));
}

#[test]
fn urls_are_fixed_and_cat_carries_its_argument() {
    assert_eq!(id_url(), "http://127.0.0.1:5001/api/v0/id");
    assert_eq!(add_url(), "http://127.0.0.1:5001/api/v0/add");
    assert_eq!(cat_url("QmX"), "http://127.0.0.1:5001/api/v0/cat?arg=QmX");
}

#[test]
fn identity_success_names_the_node() {
    let env = id_envelope(IdOutcome::Identified(String::from("12D3KooW")));
    assert_eq!(env.status, Status::Success);
    assert_eq!(env.message, "Successfully fetched IPFS Node ID.");
    assert_eq!(
        env.data,
        Some(Value::Obj(vec![(
            String::from("ipfsNodeId"),
            Value::Str(String::from("12D3KooW")),
        )]))
    );
}

#[test]
fn identity_failures_name_status_or_connection() {
    let env = id_envelope(IdOutcome::HttpError(500, String::from("boom")));
    assert_eq!(env.status, Status::Error);
    assert_eq!(env.message, "IPFS API request failed with status 500: boom");
    let env = id_envelope(IdOutcome::ConnectFailed(String::from("refused")));
    assert_eq!(
        env.message,
        "Failed to connect to IPFS API: refused. Ensure IPFS daemon is running and API server is enabled at http://127.0.0.1:5001/api/v0/id."
    );
}

#[test]
fn add_success_parses_the_daemon_fields() {
    let body = String::from("{\"Name\": \"f.txt\", \"Hash\": \"QmH\", \"Size\": \"8\"}");
    let env = add_envelope("./f.txt", AddOutcome::Http(200, body));
    assert_eq!(env.status, Status::Success);
    assert_eq!(env.message, "File 'f.txt' successfully added to IPFS.");
    assert_eq!(
        env.data,
        Some(Value::Obj(vec![
            (String::from("fileName"), Value::Str(String::from("f.txt"))),
            (String::from("cid"), Value::Str(String::from("QmH"))),
            (String::from("size"), Value::Str(String::from("8"))),
        ]))
    );
}

#[test]
fn add_tolerates_lower_case_aliases() {
    let body = String::from("{\"name\": \"f.txt\", \"hash\": \"QmH\", \"size\": \"8\"}");
    let env = add_envelope("./f.txt", AddOutcome::Http(200, body));
    assert_eq!(env.status, Status::Success);
}

#[test]
fn add_reports_a_bad_response_shape() {
    let body = String::from("{\"Name\": \"f.txt\"}");
    let env = add_envelope("./f.txt", AddOutcome::Http(200, body));
    assert_eq!(env.status, Status::Error);
    assert_eq!(
        env.message,
        "Successfully uploaded but failed to parse IPFS add response."
    );
}

#[test]
fn add_validation_errors_are_distinct() {
    let env = add_envelope("./missing", AddOutcome::MissingFile);
    assert_eq!(env.message, "Local file './missing' does not exist.");
    let env = add_envelope("./dir", AddOutcome::NotAFile);
    assert_eq!(env.message, "Path './dir' is not a file.");
    let env = add_envelope("./f", AddOutcome::Http(500, String::from("boom")));
    assert_eq!(env.message, "IPFS API /add failed with 500: boom");
}

#[test]
fn cat_success_carries_identifier_and_content() {
    let env = cat_envelope("QmH", CatOutcome::Http(200, String::from("hello")));
    assert_eq!(env.status, Status::Success);
    assert_eq!(env.message, "Successfully retrieved content for CID: QmH");
    assert_eq!(
        env.data,
        Some(Value::Obj(vec![
            (String::from("cid"), Value::Str(String::from("QmH"))),
            (String::from("content"), Value::Str(String::from("hello"))),
        ]))
    );
}

#[test]
fn cat_failure_surfaces_the_daemon_message() {
    let body = String::from("{\"Message\": \"not found\", \"Code\": 0, \"Type\": \"error\"}");
    let env = cat_envelope("QmH", CatOutcome::Http(500, body));
    assert_eq!(env.status, Status::Error);
    assert_eq!(env.message, "IPFS API /cat for QmH failed with 500: not found");
    // a body without the structured field falls back to the raw text
    let env = cat_envelope("QmH", CatOutcome::Http(500, String::from("plain failure")));
    assert_eq!(env.message, "IPFS API /cat for QmH failed with 500: plain failure");
}
