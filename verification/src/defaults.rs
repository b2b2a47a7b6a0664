//! The inheritable register-property bundle.  Every branch level (device,
//! peripheral, ...) owns one, populated only from the override elements
//! present at that level; absence means "inherit from the enclosing level",
//! resolved lazily by whoever needs an effective value.

use vstd::prelude::*;

use crate::error::res_matches;
use crate::error::SvdError;
use crate::error::SvdErrorV;
use crate::parse::optional_text;
use crate::parse::optional_u32;
use crate::parse::spec_opt_text;
use crate::parse::spec_opt_u32;
use crate::encode::opt_text_children_v;
use crate::encode::opt_u32_children_v;
use crate::encode::push_opt_text_child;
use crate::encode::push_opt_u32_child;
use crate::xml::elems_view;
use crate::xml::ElemV;
use crate::xml::Element;

verus! {

/// Register-property overrides declared at one tree level.  Every field is
/// optional; an absent field inherits from the enclosing level.
pub struct Defaults {
    pub size: Option<u32>,
    pub access: Option<String>,
    pub protection: Option<String>,
    pub reset_value: Option<u32>,
    pub reset_mask: Option<u32>,
}

/// Spec-level model of a `Defaults`.
#[verifier::ext_equal]
pub ghost struct DefaultsV {
    pub size: Option<u32>,
    pub access: Option<Seq<char>>,
    pub protection: Option<Seq<char>>,
    pub reset_value: Option<u32>,
    pub reset_mask: Option<u32>,
}

impl View for Defaults {
    type V = DefaultsV;

    open spec fn view(&self) -> DefaultsV {
        DefaultsV {
            size: self.size,
            access: match self.access {
                Some(t) => Some(t@),
                None => None,
            },
            protection: match self.protection {
                Some(t) => Some(t@),
                None => None,
            },
            reset_value: self.reset_value,
            reset_mask: self.reset_mask,
        }
    }
}

/// A `Defaults` with no overrides at all.
pub open spec fn empty_defaults() -> DefaultsV {
    DefaultsV { size: None, access: None, protection: None, reset_value: None, reset_mask: None }
}

/// What parsing the override elements local to `e` yields.  Absence of any
/// or all of them is not an error; only a present but malformed numeric
/// override fails.
pub open spec fn spec_parse_defaults(e: ElemV) -> Result<DefaultsV, SvdErrorV> {
    match spec_opt_u32(e, "size"@) {
        Err(err) => Err(err),
        Ok(size) => match spec_opt_u32(e, "resetValue"@) {
            Err(err) => Err(err),
            Ok(reset_value) => match spec_opt_u32(e, "resetMask"@) {
                Err(err) => Err(err),
                Ok(reset_mask) => Ok(DefaultsV {
                    size,
                    access: spec_opt_text(e, "access"@),
                    protection: spec_opt_text(e, "protection"@),
                    reset_value,
                    reset_mask,
                }),
            },
        },
    }
}

/// The elements a `Defaults` contributes to its owning element's encoding,
/// in document order; absent fields contribute nothing.
pub open spec fn encoded_defaults_children(d: DefaultsV) -> Seq<ElemV> {
    opt_u32_children_v("size"@, d.size) + opt_text_children_v("access"@, d.access)
        + opt_text_children_v("protection"@, d.protection) + opt_u32_children_v(
        "resetValue"@,
        d.reset_value,
    ) + opt_u32_children_v("resetMask"@, d.reset_mask)
}

/// The effective overrides at a level whose own record is `inner` and whose
/// enclosing levels resolve to `outer`: each field is the level's own value
/// when declared, the inherited one otherwise.
pub open spec fn resolved_defaults(inner: DefaultsV, outer: DefaultsV) -> DefaultsV {
    DefaultsV {
        size: if inner.size is Some {
            inner.size
        } else {
            outer.size
        },
        access: if inner.access is Some {
            inner.access
        } else {
            outer.access
        },
        protection: if inner.protection is Some {
            inner.protection
        } else {
            outer.protection
        },
        reset_value: if inner.reset_value is Some {
            inner.reset_value
        } else {
            outer.reset_value
        },
        reset_mask: if inner.reset_mask is Some {
            inner.reset_mask
        } else {
            outer.reset_mask
        },
    }
}

/// Resolution is associative: walking the ancestor chain one level at a
/// time gives the same effective record no matter how the walk is grouped.
pub proof fn lemma_resolve_assoc(a: DefaultsV, b: DefaultsV, c: DefaultsV)
    ensures
        resolved_defaults(a, resolved_defaults(b, c)) == resolved_defaults(
            resolved_defaults(a, b),
            c,
        ),
{
    assert(resolved_defaults(a, resolved_defaults(b, c)) =~= resolved_defaults(
        resolved_defaults(a, b),
        c,
    ));
}

/// A level that declares nothing inherits everything.
pub proof fn lemma_resolve_empty(outer: DefaultsV)
    ensures
        resolved_defaults(empty_defaults(), outer) == outer,
{
    assert(resolved_defaults(empty_defaults(), outer) =~= outer);
}

impl Defaults {
    /// Parses the override elements local to `tree`.  Never fails on
    /// absence; a present but malformed numeric override is a
    /// malformed-number error.
    pub fn parse(tree: &Element) -> (r: Result<Defaults, SvdError>)
        ensures
            res_matches(r, spec_parse_defaults(tree@)),
    {
        let size = match optional_u32("size", tree) {
            Ok(v) => v,
            Err(err) => return Err(err),
        };
        let access = match optional_text("access", tree) {
            Ok(v) => v,
            Err(err) => return Err(err),
        };
        let protection = match optional_text("protection", tree) {
            Ok(v) => v,
            Err(err) => return Err(err),
        };
        let reset_value = match optional_u32("resetValue", tree) {
            Ok(v) => v,
            Err(err) => return Err(err),
        };
        let reset_mask = match optional_u32("resetMask", tree) {
            Ok(v) => v,
            Err(err) => return Err(err),
        };
        Ok(Defaults { size, access, protection, reset_value, reset_mask })
    }

    /// Appends this record's override elements to an element under
    /// construction, in document order.
    pub fn encode_into(&self, children: &mut Vec<Element>)
        ensures
            elems_view(final(children)@) == elems_view(old(children)@)
                + encoded_defaults_children(self@),
    {
        let ghost c0 = elems_view(children@);
        push_opt_u32_child(children, "size", &self.size);
        push_opt_text_child(children, "access", &self.access);
        push_opt_text_child(children, "protection", &self.protection);
        push_opt_u32_child(children, "resetValue", &self.reset_value);
        push_opt_u32_child(children, "resetMask", &self.reset_mask);
        proof {
            assert(elems_view(children@) =~= c0 + encoded_defaults_children(self@));
        }
    }

    /// One step of the lazy ancestor-chain lookup: this level's overrides in
    /// front of the effective record of its enclosing levels.
    pub fn resolve(&self, outer: &Defaults) -> (r: Defaults)
        ensures
            r@ == resolved_defaults(self@, outer@),
    {
        let r = Defaults {
            size: match &self.size {
                Some(v) => Some(*v),
                None => match &outer.size {
                    Some(v) => Some(*v),
                    None => None,
                },
            },
            access: match &self.access {
                Some(t) => Some(t.clone()),
                None => match &outer.access {
                    Some(t) => Some(t.clone()),
                    None => None,
                },
            },
            protection: match &self.protection {
                Some(t) => Some(t.clone()),
                None => match &outer.protection {
                    Some(t) => Some(t.clone()),
                    None => None,
                },
            },
            reset_value: match &self.reset_value {
                Some(v) => Some(*v),
                None => match &outer.reset_value {
                    Some(v) => Some(*v),
                    None => None,
                },
            },
            reset_mask: match &self.reset_mask {
                Some(v) => Some(*v),
                None => match &outer.reset_mask {
                    Some(v) => Some(*v),
                    None => None,
                },
            },
        };
        proof {
            assert(r@ =~= resolved_defaults(self@, outer@));
        }
        r
    }
}

} // verus!
