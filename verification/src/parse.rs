//! The parse combinators every entity is built from: required child text,
//! optional child via a sub-parser, required child element, and unsigned
//! integer coercion.  Each is specified against the spec-level element model,
//! so every entity's `parse` contract is stated in the same vocabulary.

use vstd::prelude::*;
use vstd::string::StringExecFns;

use crate::error::lift_opt;
use crate::error::opt_res_matches;
use crate::error::SvdError;
use crate::error::SvdErrorV;
use crate::text::trim;
use crate::text::trim_ws;
use crate::text::u32_of_text;
use crate::text::parse_u32_text;
use crate::xml::find_child_v;
use crate::xml::ElemV;
use crate::xml::Element;

verus! {

/// The scalar content of an element: its text, trimmed; an element without
/// text reads as empty.
pub open spec fn text_of(e: ElemV) -> Seq<char> {
    match e.text {
        Some(t) => trim_ws(t),
        None => Seq::<char>::empty(),
    }
}

/// What parsing an element as an unsigned integer yields.
pub open spec fn spec_u32_elem(e: ElemV) -> Result<u32, SvdErrorV> {
    match u32_of_text(text_of(e)) {
        Some(v) => Ok(v),
        None => Err(SvdErrorV::MalformedNumber(text_of(e))),
    }
}

/// What looking up the optional child `name` of `e` and parsing it with a
/// sub-parser modelled by `g` yields.
pub open spec fn spec_optional<V>(
    e: ElemV,
    name: Seq<char>,
    g: spec_fn(ElemV) -> Result<V, SvdErrorV>,
) -> Result<Option<V>, SvdErrorV> {
    match find_child_v(e, name) {
        None => Ok(None),
        Some(c) => lift_opt(g(c)),
    }
}

/// What fetching the trimmed text of the required child `name` yields.
pub open spec fn spec_required_text(e: ElemV, name: Seq<char>) -> Result<Seq<char>, SvdErrorV> {
    match find_child_v(e, name) {
        Some(c) => Ok(text_of(c)),
        None => Err(SvdErrorV::MissingElement(name)),
    }
}

/// What looking up the optional child `name` and reading its trimmed text
/// yields; reading text cannot fail.
pub open spec fn spec_opt_text(e: ElemV, name: Seq<char>) -> Option<Seq<char>> {
    match find_child_v(e, name) {
        Some(c) => Some(text_of(c)),
        None => None,
    }
}

/// What looking up the optional child `name` and parsing it as an unsigned
/// integer yields.
pub open spec fn spec_opt_u32(e: ElemV, name: Seq<char>) -> Result<Option<u32>, SvdErrorV> {
    match find_child_v(e, name) {
        None => Ok(None),
        Some(c) => lift_opt(spec_u32_elem(c)),
    }
}

/// The trimmed text content of an element; empty when the element has no
/// text.
pub fn get_text(e: &Element) -> (r: Result<String, SvdError>)
    ensures
        r matches Ok(t) && t@ == text_of(e@),
{
    match &e.text {
        Some(t) => Ok(trim(t.as_str())),
        None => Ok(String::new()),
    }
}

/// The trimmed text of the required child `name`; fails with a
/// missing-required-element error when no such child exists.
pub fn required_text(e: &Element, name: &str) -> (r: Result<String, SvdError>)
    ensures
        match r {
            Ok(t) => spec_required_text(e@, name@) == Ok::<_, SvdErrorV>(t@),
            Err(err) => spec_required_text(e@, name@) == Err::<Seq<char>, _>(err@),
        },
{
    match e.get_child(name) {
        Some(c) => match get_text(c) {
            Ok(t) => Ok(t),
            Err(err) => Err(err),
        },
        None => Err(SvdError::MissingElement(String::from_str(name))),
    }
}

/// The required child element `name` itself, for recursive descent; fails
/// with a missing-required-element error when no such child exists.
pub fn get_child_elem<'a>(e: &'a Element, name: &str) -> (r: Result<&'a Element, SvdError>)
    ensures
        match r {
            Ok(c) => find_child_v(e@, name@) == Some(c@),
            Err(err) => find_child_v(e@, name@) is None && err@ == SvdErrorV::MissingElement(
                name@,
            ),
        },
{
    match e.get_child(name) {
        Some(c) => Ok(c),
        None => Err(SvdError::MissingElement(String::from_str(name))),
    }
}

/// Parses an element's text as an unsigned integer (decimal or
/// `0x`-prefixed hexadecimal); fails with a malformed-number error carrying
/// the offending text.
pub fn parse_u32_elem(e: &Element) -> (r: Result<u32, SvdError>)
    ensures
        match r {
            Ok(v) => spec_u32_elem(e@) == Ok::<_, SvdErrorV>(v),
            Err(err) => spec_u32_elem(e@) == Err::<u32, _>(err@),
        },
{
    let t = match get_text(e) {
        Ok(t) => t,
        Err(err) => return Err(err),
    };
    match parse_u32_text(t.as_str()) {
        Some(v) => Ok(v),
        None => Err(SvdError::MalformedNumber(t)),
    }
}

/// Looks up the optional child `name` and applies the sub-parser `f` to it:
/// an absent child is "no value", a present child's parse failure is the
/// field's failure.  `g` is the spec-level model of `f`.
pub fn optional<T: View, F: Fn(&Element) -> Result<T, SvdError>>(
    name: &str,
    e: &Element,
    f: F,
    Ghost(g): Ghost<spec_fn(ElemV) -> Result<T::V, SvdErrorV>>,
) -> (r: Result<Option<T>, SvdError>)
    requires
        forall|c: &Element| #[trigger] call_requires(f, (c,)),
        forall|c: &Element, out: Result<T, SvdError>|
            #[trigger] call_ensures(f, (c,), out) ==> match (out, g(c@)) {
                (Ok(v), Ok(sv)) => v@ == sv,
                (Err(err), Err(serr)) => err@ == serr,
                _ => false,
            },
    ensures
        opt_res_matches::<T>(r, spec_optional(e@, name@, g)),
{
    match e.get_child(name) {
        Some(c) => match f(c) {
            Ok(v) => Ok(Some(v)),
            Err(err) => Err(err),
        },
        None => Ok(None),
    }
}

/// The optional child `name` as trimmed text: `None` when the child is
/// absent.
pub fn optional_text(name: &str, e: &Element) -> (r: Result<Option<String>, SvdError>)
    ensures
        r matches Ok(o) && crate::encode::opt_str_view(o) == spec_opt_text(e@, name@),
{
    let r = optional(name, e, get_text, Ghost(|c: ElemV| Ok::<_, SvdErrorV>(text_of(c))));
    match r {
        Ok(o) => Ok(o),
        Err(err) => {
            proof {
                assert(false);
            }
            Err(err)
        },
    }
}

/// The optional child `name` as an unsigned integer: `None` when the child
/// is absent, a malformed-number error when it is present but not numeric.
pub fn optional_u32(name: &str, e: &Element) -> (r: Result<Option<u32>, SvdError>)
    ensures
        match r {
            Ok(o) => spec_opt_u32(e@, name@) == Ok::<_, SvdErrorV>(o),
            Err(err) => spec_opt_u32(e@, name@) == Err::<Option<u32>, _>(err@),
        },
{
    let r = optional(name, e, parse_u32_elem, Ghost(|c: ElemV| spec_u32_elem(c)));
    proof {
        match find_child_v(e@, name@) {
            Some(c) => {
                assert(spec_opt_u32(e@, name@) == lift_opt(spec_u32_elem(c)));
            },
            None => {},
        }
    }
    match r {
        Ok(o) => Ok(o),
        Err(err) => Err(err),
    }
}

} // verus!
