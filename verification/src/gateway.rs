//! The client side of the content-addressed storage gateway.
//!
//! Three operations against a daemon at a fixed local endpoint: identity,
//! add, and cat. This module owns identifier validation, URL construction
//! and response-shape checking; the HTTP transport itself runs outside
//! this crate and hands back one of the plain outcomes below.

use vstd::prelude::*;
use crate::envelope::{Envelope, Status, error, success_with};
use crate::json::{flat_object_of, field_text, parse_flat_object, text_field};
use crate::text::decimal;
use crate::value::{Value, ValueModel, obj1, obj2, obj3};

verus! {

/// Whether an identifier has the shape of a content address: one of the
/// two known prefixes and at least 46 characters. Checking this first
/// spares the round trip for an obviously malformed identifier.
pub open spec fn valid_cid(s: Seq<char>) -> bool {
    s.len() >= 46 && ((s[0] == 'Q' && s[1] == 'm') || (s[0] == 'b' && s[1] == 'a'))
}

/// Runtime test for `valid_cid`.
pub fn cid_ok(cid: &str) -> (r: bool)
    ensures
        r == valid_cid(cid@),
{
    let n = cid.unicode_len();
    if n < 46 {
        return false;
    }
    let c0 = cid.get_char(0);
    let c1 = cid.get_char(1);
    (c0 == 'Q' && c1 == 'm') || (c0 == 'b' && c1 == 'a')
}

/// The identity endpoint.
pub fn id_url() -> (r: String)
    ensures
        r@ == "http://127.0.0.1:5001/api/v0/id"@,
{
    String::from_str("http://127.0.0.1:5001/api/v0/id")
}

/// The add endpoint.
pub fn add_url() -> (r: String)
    ensures
        r@ == "http://127.0.0.1:5001/api/v0/add"@,
{
    String::from_str("http://127.0.0.1:5001/api/v0/add")
}

/// The cat endpoint for one identifier, passed as the query argument.
pub fn cat_url(cid: &str) -> (r: String)
    ensures
        r@ == "http://127.0.0.1:5001/api/v0/cat?arg="@ + cid@,
{
    String::from_str("http://127.0.0.1:5001/api/v0/cat?arg=").concat(cid)
}

/// How an identity request went, as observed at the HTTP boundary.
pub enum IdOutcome {
    ConnectFailed(String),
    HttpError(u16, String),
    ParseFailed(String),
    Identified(String),
}

/// The envelope an identity request ends in, for each outcome.
pub fn id_envelope(outcome: IdOutcome) -> (e: Envelope)
    ensures
        (outcome matches IdOutcome::ConnectFailed(err) ==> e@.status == Status::Error && e@.message
            == "Failed to connect to IPFS API: "@ + err@
            + ". Ensure IPFS daemon is running and API server is enabled at http://127.0.0.1:5001/api/v0/id."@
            && e@.data is None),
        (outcome matches IdOutcome::HttpError(status, body) ==> e@.status == Status::Error
            && e@.message == "IPFS API request failed with status "@ + crate::text::dec_str(
            status as nat,
        ) + ": "@ + body@ && e@.data is None),
        (outcome matches IdOutcome::ParseFailed(err) ==> e@.status == Status::Error && e@.message
            == "Failed to parse IPFS ID response: "@ + err@ && e@.data is None),
        (outcome matches IdOutcome::Identified(node_id) ==> e@.status == Status::Success
            && e@.message == "Successfully fetched IPFS Node ID."@ && e@.data == Some(
            ValueModel::Obj(seq![("ipfsNodeId"@, ValueModel::Str(node_id@))]),
        )),
{
    match outcome {
        IdOutcome::ConnectFailed(err) => error(
            String::from_str("Failed to connect to IPFS API: ").concat(err.as_str()).concat(
                ". Ensure IPFS daemon is running and API server is enabled at http://127.0.0.1:5001/api/v0/id.",
            ),
        ),
        IdOutcome::HttpError(status, body) => {
            let status_text = decimal(status as u32);
            error(
                String::from_str("IPFS API request failed with status ").concat(
                    status_text.as_str(),
                ).concat(": ").concat(body.as_str()),
            )
        },
        IdOutcome::ParseFailed(err) => error(
            String::from_str("Failed to parse IPFS ID response: ").concat(err.as_str()),
        ),
        IdOutcome::Identified(node_id) => success_with(
            String::from_str("Successfully fetched IPFS Node ID."),
            obj1("ipfsNodeId", node_id),
        ),
    }
}

/// The fields of a well-shaped add response body: a flat object carrying
/// name, hash and size as strings, each under its canonical or
/// lower-case key.
pub open spec fn add_fields(body: Seq<char>) -> Option<(Seq<char>, Seq<char>, Seq<char>)> {
    match flat_object_of(body) {
        None => None,
        Some(ms) => {
            if field_text(ms, "Name"@, "name"@) is Some && field_text(ms, "Hash"@, "hash"@) is Some
                && field_text(ms, "Size"@, "size"@) is Some {
                Some(
                    (
                        field_text(ms, "Name"@, "name"@)->Some_0,
                        field_text(ms, "Hash"@, "hash"@)->Some_0,
                        field_text(ms, "Size"@, "size"@)->Some_0,
                    ),
                )
            } else {
                None
            }
        },
    }
}

/// How an add request went, as observed at the filesystem and HTTP
/// boundaries.
pub enum AddOutcome {
    MissingFile,
    NotAFile,
    ReadFailed(String),
    PartFailed(String),
    ConnectFailed(String),
    Http(u16, String),
}

/// The envelope an add request ends in, for each outcome. A missing path
/// and a path that is no regular file are told apart before any upload;
/// a success is reported from the daemon's own response fields.
pub fn add_envelope(path: &str, outcome: AddOutcome) -> (e: Envelope)
    ensures
        (outcome matches AddOutcome::MissingFile ==> e@.status == Status::Error && e@.message
            == "Local file '"@ + path@ + "' does not exist."@ && e@.data is None),
        (outcome matches AddOutcome::NotAFile ==> e@.status == Status::Error && e@.message
            == "Path '"@ + path@ + "' is not a file."@ && e@.data is None),
        (outcome matches AddOutcome::ReadFailed(err) ==> e@.status == Status::Error && e@.message
            == "Failed to read local file '"@ + path@ + "': "@ + err@ && e@.data is None),
        (outcome matches AddOutcome::PartFailed(err) ==> e@.status == Status::Error && e@.message
            == "Failed to create multipart part: "@ + err@ && e@.data is None),
        (outcome matches AddOutcome::ConnectFailed(err) ==> e@.status == Status::Error
            && e@.message == "Failed to connect to IPFS API /add: "@ + err@ && e@.data is None),
        (outcome matches AddOutcome::Http(status, body) ==> (if 200 <= status < 300 {
            match add_fields(body@) {
                Some(fields) => e@.status == Status::Success && e@.message == "File '"@ + fields.0
                    + "' successfully added to IPFS."@ && e@.data == Some(
                    ValueModel::Obj(
                        seq![
                            ("fileName"@, ValueModel::Str(fields.0)),
                            ("cid"@, ValueModel::Str(fields.1)),
                            ("size"@, ValueModel::Str(fields.2)),
                        ],
                    ),
                ),
                None => e@.status == Status::Error && e@.message
                    == "Successfully uploaded but failed to parse IPFS add response."@
                    && e@.data is None,
            }
        } else {
            e@.status == Status::Error && e@.message == "IPFS API /add failed with "@
                + crate::text::dec_str(status as nat) + ": "@ + body@ && e@.data is None
        })),
{
    match outcome {
        AddOutcome::MissingFile => error(
            String::from_str("Local file '").concat(path).concat("' does not exist."),
        ),
        AddOutcome::NotAFile => error(
            String::from_str("Path '").concat(path).concat("' is not a file."),
        ),
        AddOutcome::ReadFailed(err) => error(
            String::from_str("Failed to read local file '").concat(path).concat("': ").concat(
                err.as_str(),
            ),
        ),
        AddOutcome::PartFailed(err) => error(
            String::from_str("Failed to create multipart part: ").concat(err.as_str()),
        ),
        AddOutcome::ConnectFailed(err) => error(
            String::from_str("Failed to connect to IPFS API /add: ").concat(err.as_str()),
        ),
        AddOutcome::Http(status, body) => {
            if 200 <= status && status < 300 {
                let fields = match parse_flat_object(body.as_str()) {
                    Some(ms) => {
                        let name = text_field(&ms, "Name", "name");
                        let hash = text_field(&ms, "Hash", "hash");
                        let size = text_field(&ms, "Size", "size");
                        match (name, hash, size) {
                            (Some(n), Some(h), Some(z)) => Some((n, h, z)),
                            _ => None,
                        }
                    },
                    None => None,
                };
                match fields {
                    Some(f) => {
                        let message = String::from_str("File '").concat(f.0.as_str()).concat(
                            "' successfully added to IPFS.",
                        );
                        let data = obj3("fileName", f.0, "cid", f.1, "size", f.2);
                        success_with(message, data)
                    },
                    None => error(
                        String::from_str(
                            "Successfully uploaded but failed to parse IPFS add response.",
                        ),
                    ),
                }
            } else {
                let status_text = decimal(status as u32);
                error(
                    String::from_str("IPFS API /add failed with ").concat(
                        status_text.as_str(),
                    ).concat(": ").concat(body.as_str()),
                )
            }
        },
    }
}

/// The diagnostic detail for a failed cat: the `Message` field of an
/// error body in the flat-object shape, else the body itself.
///
/// The extraction is deliberately limited to the flat-object grammar
/// with the field present exactly once — the shape of the daemon's real
/// error bodies (`{"Message": ..., "Code": ..., "Type": ...}`). A nested
/// or duplicate-keyed body is surfaced verbatim rather than mined for
/// the field.
pub open spec fn cat_error_detail(body: Seq<char>) -> Seq<char> {
    match flat_object_of(body) {
        Some(ms) => match field_text(ms, "Message"@, "Message"@) {
            Some(m) => m,
            None => body,
        },
        None => body,
    }
}

/// How a cat request went, as observed at the HTTP boundary.
pub enum CatOutcome {
    ConnectFailed(String),
    BodyReadFailed(String),
    Http(u16, String),
}

/// The envelope a cat request ends in, for each outcome. On failure the
/// daemon's structured message is surfaced where the body carries one.
pub fn cat_envelope(cid: &str, outcome: CatOutcome) -> (e: Envelope)
    ensures
        (outcome matches CatOutcome::ConnectFailed(err) ==> e@.status == Status::Error
            && e@.message == "Failed to connect to IPFS API /cat (CID: "@ + cid@ + "): "@ + err@
            && e@.data is None),
        (outcome matches CatOutcome::BodyReadFailed(err) ==> e@.status == Status::Error
            && e@.message == "Failed to read content for CID "@ + cid@ + ": "@ + err@
            && e@.data is None),
        (outcome matches CatOutcome::Http(status, body) ==> (if 200 <= status < 300 {
            e@.status == Status::Success && e@.message == "Successfully retrieved content for CID: "@
                + cid@ && e@.data == Some(
                ValueModel::Obj(
                    seq![("cid"@, ValueModel::Str(cid@)), ("content"@, ValueModel::Str(body@))],
                ),
            )
        } else {
            e@.status == Status::Error && e@.message == "IPFS API /cat for "@ + cid@
                + " failed with "@ + crate::text::dec_str(status as nat) + ": "@ + cat_error_detail(
                body@,
            ) && e@.data is None
        })),
{
    match outcome {
        CatOutcome::ConnectFailed(err) => error(
            String::from_str("Failed to connect to IPFS API /cat (CID: ").concat(cid).concat(
                "): ",
            ).concat(err.as_str()),
        ),
        CatOutcome::BodyReadFailed(err) => error(
            String::from_str("Failed to read content for CID ").concat(cid).concat(": ").concat(
                err.as_str(),
            ),
        ),
        CatOutcome::Http(status, body) => {
            if 200 <= status && status < 300 {
                let message = String::from_str("Successfully retrieved content for CID: ").concat(
                    cid,
                );
                let data = obj2("cid", cid.to_owned(), "content", body);
                success_with(message, data)
            } else {
                let detail = match parse_flat_object(body.as_str()) {
                    Some(ms) => match text_field(&ms, "Message", "Message") {
                        Some(m) => m,
                        None => body,
                    },
                    None => body,
                };
                let status_text = decimal(status as u32);
                error(
                    String::from_str("IPFS API /cat for ").concat(cid).concat(
                        " failed with ",
                    ).concat(status_text.as_str()).concat(": ").concat(detail.as_str()),
                )
            }
        },
    }
}

} // verus!
