//! Filesystem-backed actions: directory listing and note creation.
//!
//! The decisions live here, proved: which request is made, what each
//! outcome means, and the exact envelope for it. The filesystem itself is
//! driven outside this crate, which hands back one of the plain outcomes
//! below.

use vstd::prelude::*;
use crate::envelope::{Envelope, Status, error, success_with};
use crate::text::{chars_vec, contains_seq, push_char};
use crate::value::{Value, ValueModel, model_of, models_of, pair_models_of, lemma_models_of,
    lemma_pair_models_of};

verus! {

/// What one directory entry is listed as.
#[derive(Clone, Copy, Debug, PartialEq, Eq, Structural)]
pub enum EntryKind {
    File,
    Directory,
    Other,
}

/// One directory entry.
#[derive(Debug, PartialEq)]
pub struct DirEntry {
    pub name: String,
    pub kind: EntryKind,
}

/// Mathematical model of a directory entry.
pub struct DirEntryModel {
    pub name: Seq<char>,
    pub kind: EntryKind,
}

impl View for DirEntry {
    type V = DirEntryModel;

    open spec fn view(&self) -> DirEntryModel {
        DirEntryModel { name: self.name@, kind: self.kind }
    }
}

/// The label an entry kind is reported under.
pub open spec fn kind_label(k: EntryKind) -> Seq<char> {
    match k {
        EntryKind::File => "file"@,
        EntryKind::Directory => "directory"@,
        EntryKind::Other => "other"@,
    }
}

/// The payload object for one entry.
pub open spec fn entry_value(e: DirEntryModel) -> ValueModel {
    ValueModel::Obj(
        seq![("name"@, ValueModel::Str(e.name)), ("kind"@, ValueModel::Str(kind_label(e.kind)))],
    )
}

/// The models of a vector of entries.
pub open spec fn entry_models_of(es: Seq<DirEntry>) -> Seq<DirEntryModel> {
    es.map_values(|e: DirEntry| e@)
}

/// The payload for a whole listing: the entries in enumeration order.
pub open spec fn listing_value(es: Seq<DirEntryModel>) -> ValueModel {
    ValueModel::Arr(es.map_values(|e: DirEntryModel| entry_value(e)))
}

/// How an attempt to list a directory went, as observed at the
/// filesystem boundary.
pub enum ListOutcome {
    Missing,
    NotDirectory,
    ReadFailed(String),
    Listed(Vec<DirEntry>),
}

/// The label an entry kind is reported under.
fn kind_label_str(k: EntryKind) -> (r: String)
    ensures
        r@ == kind_label(k),
{
    match k {
        EntryKind::File => String::from_str("file"),
        EntryKind::Directory => String::from_str("directory"),
        EntryKind::Other => String::from_str("other"),
    }
}

/// The envelope a listing request ends in, for each outcome. A missing
/// path and a path that is no directory are told apart; a listing keeps
/// the enumeration order it was handed.
pub fn list_envelope(path: &str, outcome: ListOutcome) -> (e: Envelope)
    ensures
        (outcome matches ListOutcome::Missing ==> e@.status == Status::Error && e@.message
            == "Path '"@ + path@ + "' does not exist."@ && e@.data is None),
        (outcome matches ListOutcome::NotDirectory ==> e@.status == Status::Error && e@.message
            == "Path '"@ + path@ + "' is not a directory."@ && e@.data is None),
        (outcome matches ListOutcome::ReadFailed(err) ==> e@.status == Status::Error && e@.message
            == "Error reading directory '"@ + path@ + "': "@ + err@ && e@.data is None),
        (outcome matches ListOutcome::Listed(es) ==> e@.status == Status::Success && e@.message
            == "Contents of '"@ + path@ + "':"@ && e@.data == Some(
            listing_value(entry_models_of(es@)),
        )),
{
    match outcome {
        ListOutcome::Missing => error(
            String::from_str("Path '").concat(path).concat("' does not exist."),
        ),
        ListOutcome::NotDirectory => error(
            String::from_str("Path '").concat(path).concat("' is not a directory."),
        ),
        ListOutcome::ReadFailed(err) => error(
            String::from_str("Error reading directory '").concat(path).concat("': ").concat(
                err.as_str(),
            ),
        ),
        ListOutcome::Listed(es) => {
            let mut items: Vec<Value> = Vec::new();
            let mut i: usize = 0;
            while i < es.len()
                invariant
                    i <= es@.len(),
                    models_of(items@) == entry_models_of(es@).subrange(0, i as int).map_values(
                        |m: DirEntryModel| entry_value(m),
                    ),
                decreases es@.len() - i,
            {
                let mut fields: Vec<(String, Value)> = Vec::new();
                fields.push((String::from_str("name"), Value::Str(es[i].name.clone())));
                fields.push((String::from_str("kind"), Value::Str(kind_label_str(es[i].kind))));
                proof {
                    lemma_pair_models_of(fields@);
                    assert(pair_models_of(fields@)[0] == (fields@[0].0@, model_of(fields@[0].1)));
                    assert(pair_models_of(fields@)[1] == (fields@[1].0@, model_of(fields@[1].1)));
                    assert(pair_models_of(fields@) =~= seq![
                        ("name"@, ValueModel::Str(es@[i as int].name@)),
                        ("kind"@, ValueModel::Str(kind_label(es@[i as int].kind))),
                    ]);
                }
                let ghost old_items = items@;
                items.push(Value::Obj(fields));
                i = i + 1;
                proof {
                    lemma_models_of(items@);
                    lemma_models_of(old_items);
                    assert(items@.drop_last() =~= old_items);
                    assert(models_of(items@) =~= models_of(old_items).push(
                        model_of(items@.last()),
                    ));
                    assert(model_of(items@.last()) == entry_value(entry_models_of(es@)[i - 1]));
                    assert(models_of(items@) =~= entry_models_of(es@).subrange(
                        0,
                        i as int,
                    ).map_values(|m: DirEntryModel| entry_value(m)));
                }
            }
            proof {
                assert(entry_models_of(es@).subrange(0, es@.len() as int) =~= entry_models_of(
                    es@,
                ));
            }
            success_with(
                String::from_str("Contents of '").concat(path).concat("':"),
                Value::Arr(items),
            )
        },
    }
}

/// Does Unicode count this character as alphanumeric? Named so the
/// sanitizer's contract can speak of it.
pub uninterp spec fn alnum(c: char) -> bool;

/// The ASCII letters and digits.
pub open spec fn ascii_alnum(c: char) -> bool {
    ('0' <= c && c <= '9') || ('a' <= c && c <= 'z') || ('A' <= c && c <= 'Z')
}

/// Relies on `char::is_alphanumeric`: a function of the character alone,
/// true of the alphabetic and numeric general categories. Within ASCII
/// those categories hold exactly the letters and digits, so there the
/// result is stated outright.
#[verifier::external_body]
fn char_is_alnum(c: char) -> (r: bool)
    ensures
        r == alnum(c),
        (c as u32) < 128 ==> r == ascii_alnum(c),
{
    c.is_alphanumeric()
}

/// Whether the sanitizer keeps this character. Within ASCII the
/// question is concrete; beyond it, it is Unicode's.
pub open spec fn keep_char(c: char) -> bool {
    (if (c as u32) < 128 {
        ascii_alnum(c)
    } else {
        alnum(c)
    }) || c == ' ' || c == '-' || c == '_'
}

/// What a kept character becomes: spaces turn into underscores.
pub open spec fn out_char(c: char) -> char {
    if c == ' ' {
        '_'
    } else {
        c
    }
}

/// The filesystem-safe stem of a title: only alphanumerics, spaces,
/// hyphens and underscores are kept, and spaces become underscores.
pub open spec fn sanitized(s: Seq<char>) -> Seq<char>
    decreases s,
{
    if s.len() == 0 {
        Seq::empty()
    } else {
        sanitized(s.drop_last()) + if keep_char(s.last()) {
            seq![out_char(s.last())]
        } else {
            Seq::empty()
        }
    }
}

/// Every character of a stem is a kept character with spaces replaced:
/// an alphanumeric (ASCII or wider), a hyphen or an underscore, never a
/// space.
pub proof fn lemma_sanitized_chars(s: Seq<char>)
    ensures
        forall|k: int|
            0 <= k < sanitized(s).len() ==> (ascii_alnum(#[trigger] sanitized(s)[k]) || alnum(
                sanitized(s)[k],
            ) || sanitized(s)[k] == '-' || sanitized(s)[k] == '_') && sanitized(s)[k] != ' ',
    decreases s,
{
    if s.len() > 0 {
        lemma_sanitized_chars(s.drop_last());
        let pre = sanitized(s.drop_last());
        assert forall|k: int| 0 <= k < sanitized(s).len() implies (ascii_alnum(
            #[trigger] sanitized(s)[k],
        ) || alnum(sanitized(s)[k]) || sanitized(s)[k] == '-' || sanitized(s)[k] == '_')
            && sanitized(s)[k] != ' ' by {
            if k < pre.len() {
                assert(sanitized(s)[k] == pre[k]);
            } else {
                assert(keep_char(s.last()));
                assert(sanitized(s)[k] == out_char(s.last()));
            }
        }
    }
}

/// Sanitizes a title into its stem.
pub fn sanitize(title: &str) -> (r: String)
    ensures
        r@ == sanitized(title@),
{
    let chars = chars_vec(title);
    let mut r = String::new();
    let mut i: usize = 0;
    while i < chars.len()
        invariant
            chars@ == title@,
            i <= chars@.len(),
            r@ == sanitized(title@.subrange(0, i as int)),
        decreases chars@.len() - i,
    {
        let c = chars[i];
        proof {
            assert(title@.subrange(0, i + 1 as int).drop_last() =~= title@.subrange(0, i as int));
            assert(title@.subrange(0, i + 1 as int).last() == title@[i as int]);
        }
        if char_is_alnum(c) || c == ' ' || c == '-' || c == '_' {
            if c == ' ' {
                push_char(&mut r, '_');
            } else {
                push_char(&mut r, c);
            }
            proof {
                assert(r@ =~= sanitized(title@.subrange(0, i + 1 as int)));
            }
        } else {
            proof {
                assert(r@ + Seq::<char>::empty() =~= r@);
            }
        }
        i = i + 1;
    }
    proof {
        assert(title@.subrange(0, title@.len() as int) =~= title@);
    }
    r
}

/// The body a note is created with.
pub open spec fn note_body_model(title: Seq<char>, timestamp: Seq<char>) -> Seq<char> {
    "OmniMind Note\nTitle: "@ + title + "\nCreated: "@ + timestamp
        + "\n\n---\n(Start your note here)\n"@
}

/// Builds a note body; the original, unsanitized title stands in it
/// verbatim.
pub fn note_body(title: &str, timestamp: &str) -> (r: String)
    ensures
        r@ == note_body_model(title@, timestamp@),
        contains_seq(r@, title@),
{
    let r = String::from_str("OmniMind Note\nTitle: ").concat(title).concat("\nCreated: ").concat(
        timestamp,
    ).concat("\n\n---\n(Start your note here)\n");
    proof {
        let pre = "OmniMind Note\nTitle: "@;
        assert(r@.subrange(pre.len() as int, pre.len() + title@.len() as int) =~= title@);
    }
    r
}

/// Relies on `chrono::Local::now` and `format`: the wall clock rendered
/// as text; nothing is assumed of its value.
#[verifier::external_body]
fn local_timestamp() -> (r: String) {
    chrono::Local::now().format("%Y-%m-%d %H:%M:%S").to_string()
}

/// A planned note: where the notes directory is, where the note file
/// goes, and what is written into it.
#[derive(Debug, PartialEq)]
pub struct NotePlan {
    pub dir_path: String,
    pub note_path: String,
    pub body: String,
}

/// Plans a note for a title: the stem decides the file name, and a title
/// that sanitizes to nothing is rejected before any filesystem work.
pub fn plan_note(title: &str) -> (r: Result<NotePlan, Envelope>)
    ensures
        r is Err <==> sanitized(title@).len() == 0,
        (r matches Err(e) ==> e@.status == Status::Error && e@.message
            == "Note title invalid after sanitization."@ && e@.data is None),
        (r matches Ok(p) ==> p.dir_path@ == "./omni_notes"@ && p.note_path@ == "./omni_notes/"@
            + sanitized(title@) + ".omni.txt"@ && (exists|ts: Seq<char>|
            p.body@ == note_body_model(title@, ts)) && contains_seq(p.body@, title@)),
{
    let stem = sanitize(title);
    if stem.unicode_len() == 0 {
        return Err(error(String::from_str("Note title invalid after sanitization.")));
    }
    let note_path = String::from_str("./omni_notes/").concat(stem.as_str()).concat(".omni.txt");
    let ts = local_timestamp();
    let body = note_body(title, ts.as_str());
    proof {
        assert(body@ == note_body_model(title@, ts@));
    }
    Ok(NotePlan { dir_path: String::from_str("./omni_notes"), note_path, body })
}

/// How writing a planned note went, as observed at the filesystem
/// boundary.
pub enum NoteOutcome {
    DirCreateFailed(String),
    CreateFailed(String),
    WriteFailed(String),
    Written,
}

/// The envelope a note request ends in, for each outcome. A note file
/// that was created but could not be filled still counts as a success,
/// with the warning carried in the message: the file exists.
pub fn note_envelope(note_path: &str, outcome: NoteOutcome) -> (e: Envelope)
    ensures
        (outcome matches NoteOutcome::DirCreateFailed(err) ==> e@.status == Status::Error
            && e@.message == "Error creating notes directory './omni_notes/': "@ + err@
            && e@.data is None),
        (outcome matches NoteOutcome::CreateFailed(err) ==> e@.status == Status::Error
            && e@.message == "Error creating note file '"@ + note_path@ + "': "@ + err@
            && e@.data is None),
        (outcome matches NoteOutcome::WriteFailed(err) ==> e@.status == Status::Success
            && e@.message == "Created empty note: '"@ + note_path@
            + "', but failed to write content: "@ + err@ && e@.data == Some(
            path_value(note_path@),
        )),
        (outcome matches NoteOutcome::Written ==> e@.status == Status::Success && e@.message
            == "Successfully created note: '"@ + note_path@ + "'"@ && e@.data == Some(
            path_value(note_path@),
        )),
{
    match outcome {
        NoteOutcome::DirCreateFailed(err) => error(
            String::from_str("Error creating notes directory './omni_notes/': ").concat(
                err.as_str(),
            ),
        ),
        NoteOutcome::CreateFailed(err) => error(
            String::from_str("Error creating note file '").concat(note_path).concat("': ").concat(
                err.as_str(),
            ),
        ),
        NoteOutcome::WriteFailed(err) => {
            let data = path_value_exec(note_path);
            crate::envelope::success_with(
                String::from_str("Created empty note: '").concat(note_path).concat(
                    "', but failed to write content: ",
                ).concat(err.as_str()),
                data,
            )
        },
        NoteOutcome::Written => {
            let data = path_value_exec(note_path);
            crate::envelope::success_with(
                String::from_str("Successfully created note: '").concat(note_path).concat("'"),
                data,
            )
        },
    }
}

/// The payload naming the file a note went to.
pub open spec fn path_value(p: Seq<char>) -> ValueModel {
    ValueModel::Obj(seq![("path"@, ValueModel::Str(p))])
}

/// Builds the payload naming the note file.
fn path_value_exec(p: &str) -> (r: Value)
    ensures
        model_of(r) == path_value(p@),
{
    let mut fields: Vec<(String, Value)> = Vec::new();
    fields.push((String::from_str("path"), Value::Str(p.to_owned())));
    proof {
        lemma_pair_models_of(fields@);
        assert(pair_models_of(fields@) =~= seq![("path"@, ValueModel::Str(p@))]);
    }
    Value::Obj(fields)
}

} // verus!

