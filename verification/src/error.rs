//! The failures a parse can report.  A parent propagates a child entity's
//! error unchanged, so these three kinds are the whole taxonomy.

use vstd::prelude::*;
use vstd::string::StringExecFns;

verus! {

/// Why a parse failed.
#[derive(Debug)]
pub enum SvdError {
    /// A structurally required child element was absent; carries the
    /// element name looked for.
    MissingElement(String),
    /// A structurally required attribute was absent; carries the attribute
    /// name looked for.
    MissingAttribute(String),
    /// A present field's text could not be coerced to an unsigned integer;
    /// carries the offending (trimmed) text.
    MalformedNumber(String),
}

/// Spec-level model of an error.
pub ghost enum SvdErrorV {
    MissingElement(Seq<char>),
    MissingAttribute(Seq<char>),
    MalformedNumber(Seq<char>),
}

impl View for SvdError {
    type V = SvdErrorV;

    open spec fn view(&self) -> SvdErrorV {
        match self {
            SvdError::MissingElement(n) => SvdErrorV::MissingElement(n@),
            SvdError::MissingAttribute(n) => SvdErrorV::MissingAttribute(n@),
            SvdError::MalformedNumber(t) => SvdErrorV::MalformedNumber(t@),
        }
    }
}

impl SvdError {
    /// A short human-readable description of the failure.
    pub fn describe(&self) -> (r: String) {
        match self {
            SvdError::MissingElement(n) => {
                let mut s = String::from_str("missing required element: ");
                s.append(n.as_str());
                s
            },
            SvdError::MissingAttribute(n) => {
                let mut s = String::from_str("missing required attribute: ");
                s.append(n.as_str());
                s
            },
            SvdError::MalformedNumber(t) => {
                let mut s = String::from_str("malformed number: ");
                s.append(t.as_str());
                s
            },
        }
    }
}

/// Relates an executable parse result to its spec-level counterpart.
pub open spec fn res_matches<T: View>(r: Result<T, SvdError>, s: Result<T::V, SvdErrorV>) -> bool {
    match (r, s) {
        (Ok(v), Ok(sv)) => v@ == sv,
        (Err(e), Err(se)) => e@ == se,
        _ => false,
    }
}

/// Relates an executable optional-field parse result to its spec-level
/// counterpart.
pub open spec fn opt_res_matches<T: View>(
    r: Result<Option<T>, SvdError>,
    s: Result<Option<T::V>, SvdErrorV>,
) -> bool {
    match (r, s) {
        (Ok(Some(v)), Ok(Some(sv))) => v@ == sv,
        (Ok(None), Ok(None)) => true,
        (Err(e), Err(se)) => e@ == se,
        _ => false,
    }
}

/// Lifts the result of a sub-parser to the result of parsing the same field
/// optionally when the field's element is present.
pub open spec fn lift_opt<V>(s: Result<V, SvdErrorV>) -> Result<Option<V>, SvdErrorV> {
    match s {
        Ok(v) => Ok(Some(v)),
        Err(e) => Err(e),
    }
}

} // verus!
