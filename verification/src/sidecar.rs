//! Reading page-metadata sidecar documents.
//!
//! The external generator writes one JSON object per page with the
//! fields `read_allowed` (optional, nullable) and `path`. Reading a
//! document has three outcomes, and they are kept apart: a sidecar, no
//! sidecar at all (the page is a plain static file), or an unreadable
//! sidecar — and an unreadable sidecar is an error, so a page whose
//! access list cannot be read is never served, and in particular never
//! served wide open as if it were static.

use vstd::prelude::*;

use crate::pages::{read_allowed, PageMetadata, ReadAllowed};
use crate::strings::views_of_strings;

verus! {

/// The `read_allowed` field of a sidecar document, as plain values.
pub enum RawReadAllowed {
    /// The field is not there: the page is public.
    Absent,
    /// The field is `null` (taxonomy-term pages): public as well.
    Null,
    /// The field is an array of strings: the declared profile list.
    Declared(Vec<String>),
    /// The field is anything else: the document is unreadable.
    Mistyped,
}

/// One sidecar document's content, as plain values.
pub struct RawSidecar {
    pub path: Option<String>,
    pub read_allowed: RawReadAllowed,
}

/// The declared allowed list of a document, in specification form.
pub ghost enum AllowedField {
    Absent,
    Null,
    Declared(Seq<Seq<char>>),
    Mistyped,
}

/// One document's content, in specification form.
pub ghost struct SidecarDoc {
    pub path: Option<Seq<char>>,
    pub allowed: AllowedField,
}

impl RawSidecar {
    /// The document content this extraction denotes.
    pub open spec fn model(&self) -> SidecarDoc {
        SidecarDoc {
            path: match self.path {
                Some(p) => Some(p@),
                None => None,
            },
            allowed: match self.read_allowed {
                RawReadAllowed::Absent => AllowedField::Absent,
                RawReadAllowed::Null => AllowedField::Null,
                RawReadAllowed::Declared(v) => AllowedField::Declared(views_of_strings(v@)),
                RawReadAllowed::Mistyped => AllowedField::Mistyped,
            },
        }
    }
}

/// What serde_json reads one sidecar document as: nothing when the text
/// is not valid JSON, else the `path` string (when present) and the
/// `read_allowed` field as absent, null, an array of strings, or
/// mistyped. The result depends on the characters alone.
pub uninterp spec fn sidecar_doc(text: Seq<char>) -> Option<SidecarDoc>;

/// Relies on serde_json (from_str, Value::get, Value::as_str and the
/// Value variants): parses one document and moves the two sidecar
/// fields out of the value tree as plain values.
#[verifier::external_body]
fn parse_sidecar(text: &str) -> (r: Option<RawSidecar>)
    ensures
        match r {
            Some(raw) => sidecar_doc(text@) == Some(raw.model()),
            None => sidecar_doc(text@) is None,
        },
{
    let value: serde_json::Value = serde_json::from_str(text).ok()?;
    let path = value.get("path").and_then(|p| p.as_str()).map(str::to_string);
    let read_allowed = match value.get("read_allowed") {
        None => RawReadAllowed::Absent,
        Some(serde_json::Value::Null) => RawReadAllowed::Null,
        Some(serde_json::Value::Array(items)) => {
            match items.iter().map(|i| i.as_str().map(str::to_string)).collect::<Option<Vec<_>>>()
            {
                Some(names) => RawReadAllowed::Declared(names),
                None => RawReadAllowed::Mistyped,
            }
        },
        Some(_) => RawReadAllowed::Mistyped,
    };
    Some(RawSidecar { path, read_allowed })
}

/// Why a document could not be read as a sidecar: not valid JSON, no
/// string `path` field, or a `read_allowed` that is neither absent,
/// null nor an array of strings.
#[derive(PartialEq, Eq, Structural, Clone, Copy, Debug)]
pub enum SidecarError {
    Unreadable,
}

/// Whether the document `text` is no readable sidecar.
pub open spec fn doc_unreadable(text: Seq<char>) -> bool {
    match sidecar_doc(text) {
        Some(doc) => doc.path is None || doc.allowed is Mistyped,
        None => true,
    }
}

/// Whether `m` is the metadata the readable document `text` declares:
/// its path field, and its allowed list — the declared array, order
/// preserved, or the default profile when the field is absent, null or
/// empty.
pub open spec fn metadata_of_doc(text: Seq<char>, m: PageMetadata) -> bool {
    match sidecar_doc(text) {
        Some(doc) => {
            &&& doc.path == Some(m.path@)
            &&& match doc.allowed {
                AllowedField::Absent => is_default_list(m.read_allowed.0@),
                AllowedField::Null => is_default_list(m.read_allowed.0@),
                AllowedField::Declared(list) => if list.len() == 0 {
                    is_default_list(m.read_allowed.0@)
                } else {
                    views_of_strings(m.read_allowed.0@) == list
                },
                AllowedField::Mistyped => false,
            }
        },
        None => false,
    }
}

/// The public-by-default allowed list: the default profile alone.
pub open spec fn is_default_list(profiles: Seq<String>) -> bool {
    profiles.len() == 1 && profiles[0]@ == "_default"@
}

/// Reads one sidecar document: the declared metadata when the document
/// is readable, an error exactly when it is not.
pub fn page_metadata_from_json(text: &str) -> (r: Result<PageMetadata, SidecarError>)
    ensures
        match r {
            Ok(m) => metadata_of_doc(text@, m) && m.read_allowed.0@.len() >= 1,
            Err(_) => doc_unreadable(text@),
        },
{
    let raw = match parse_sidecar(text) {
        Some(raw) => raw,
        None => {
            return Err(SidecarError::Unreadable);
        },
    };
    let path: String = match raw.path {
        Some(p) => p,
        None => {
            return Err(SidecarError::Unreadable);
        },
    };
    let declared: Option<Vec<String>> = match raw.read_allowed {
        RawReadAllowed::Absent => None,
        RawReadAllowed::Null => None,
        RawReadAllowed::Declared(v) => Some(v),
        RawReadAllowed::Mistyped => {
            return Err(SidecarError::Unreadable);
        },
    };
    let allowed = read_allowed(declared);
    Ok(PageMetadata { read_allowed: ReadAllowed(allowed), path })
}

/// Reads the page's sidecar from its candidate documents, in candidate
/// order: no document means no sidecar (a plain static file); otherwise
/// the first document decides, and an unreadable one is an error.
pub fn page_metadata(documents: &Vec<String>) -> (r: Result<Option<PageMetadata>, SidecarError>)
    ensures
        documents@.len() == 0 ==> (r is Ok && r->Ok_0 is None),
        documents@.len() > 0 ==> match r {
            Ok(opt) => match opt {
                Some(m) => metadata_of_doc(documents@[0]@, m) && m.read_allowed.0@.len() >= 1,
                None => false,
            },
            Err(_) => doc_unreadable(documents@[0]@),
        },
{
    if documents.len() == 0 {
        return Ok(None);
    }
    match page_metadata_from_json(documents[0].as_str()) {
        Ok(m) => Ok(Some(m)),
        Err(e) => Err(e),
    }
}

} // verus!
