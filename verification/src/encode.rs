//! Shared machinery for `encode`: spec-level shapes of the elements an
//! entity emits, and verified helpers that append those children to an
//! element under construction.

use vstd::prelude::*;
use vstd::string::StringExecFns;

use crate::text::dec_str;
use crate::text::u32_to_dec;
use crate::xml::elem_view;
use crate::xml::elems_view;
use crate::xml::new_element;
use crate::xml::AttrV;
use crate::xml::ElemV;
use crate::xml::Element;

verus! {

/// A leaf element holding only a tag name and text.
pub open spec fn text_elem_v(name: Seq<char>, text: Seq<char>) -> ElemV {
    ElemV {
        name: name,
        attributes: Seq::<AttrV>::empty(),
        children: Seq::<ElemV>::empty(),
        text: Some(text),
    }
}

/// The children an optional text field contributes: one leaf element when
/// present, none when absent.
pub open spec fn opt_text_children_v(name: Seq<char>, v: Option<Seq<char>>) -> Seq<ElemV> {
    match v {
        Some(t) => seq![text_elem_v(name, t)],
        None => Seq::<ElemV>::empty(),
    }
}

/// The children an optional unsigned-integer field contributes: one leaf
/// element with the decimal rendering when present, none when absent.
pub open spec fn opt_u32_children_v(name: Seq<char>, v: Option<u32>) -> Seq<ElemV> {
    match v {
        Some(n) => seq![text_elem_v(name, dec_str(n as int))],
        None => Seq::<ElemV>::empty(),
    }
}

pub open spec fn opt_str_view(o: Option<String>) -> Option<Seq<char>> {
    match o {
        Some(t) => Some(t@),
        None => None,
    }
}

pub broadcast proof fn lemma_elems_view_push(s: Seq<Element>, e: Element)
    ensures
        #[trigger] elems_view(s.push(e)) =~= elems_view(s).push(elem_view(e)),
{
    assert forall|i: int| 0 <= i < s.len() + 1 implies elems_view(s.push(e))[i] == elems_view(
        s,
    ).push(elem_view(e))[i] by {
        if i < s.len() {
            assert(s.push(e)[i] == s[i]);
        } else {
            assert(s.push(e)[i] == e);
        }
    }
}

pub broadcast proof fn lemma_elems_view_append(a: Seq<Element>, b: Seq<Element>)
    ensures
        #[trigger] elems_view(a + b) =~= elems_view(a) + elems_view(b),
{
    assert forall|i: int| 0 <= i < a.len() + b.len() implies elems_view(a + b)[i] == (elems_view(a)
        + elems_view(b))[i] by {
        if i < a.len() {
            assert((a + b)[i] == a[i]);
        } else {
            assert((a + b)[i] == b[i - a.len()]);
        }
    }
}

/// Appends a `name` leaf holding `text` to `children`.
pub fn push_text_child(children: &mut Vec<Element>, name: &str, text: String)
    ensures
        elems_view(final(children)@) == elems_view(old(children)@).push(
            text_elem_v(name@, text@),
        ),
{
    broadcast use lemma_elems_view_push;

    let ghost t = text@;
    let e = new_element(name, Some(text));
    children.push(e);
    proof {
        assert(elem_view(e) =~= text_elem_v(name@, t));
    }
}

/// Appends the element an optional text field contributes, if any.
pub fn push_opt_text_child(children: &mut Vec<Element>, name: &str, v: &Option<String>)
    ensures
        elems_view(final(children)@) == elems_view(old(children)@) + opt_text_children_v(
            name@,
            opt_str_view(*v),
        ),
{
    match v {
        Some(t) => {
            push_text_child(children, name, t.clone());
            proof {
                assert(elems_view(old(children)@).push(text_elem_v(name@, t@)) =~= elems_view(
                    old(children)@,
                ) + opt_text_children_v(name@, opt_str_view(*v)));
            }
        },
        None => {
            proof {
                assert(elems_view(children@) =~= elems_view(old(children)@) + opt_text_children_v(
                    name@,
                    opt_str_view(*v),
                ));
            }
        },
    }
}

/// Appends the element an optional unsigned-integer field contributes, if
/// any, rendering the value in decimal.
pub fn push_opt_u32_child(children: &mut Vec<Element>, name: &str, v: &Option<u32>)
    ensures
        elems_view(final(children)@) == elems_view(old(children)@) + opt_u32_children_v(name@, *v),
{
    match v {
        Some(n) => {
            push_text_child(children, name, u32_to_dec(*n));
            proof {
                assert(elems_view(old(children)@).push(text_elem_v(name@, dec_str(*n as int)))
                    =~= elems_view(old(children)@) + opt_u32_children_v(name@, *v));
            }
        },
        None => {
            proof {
                assert(elems_view(children@) =~= elems_view(old(children)@) + opt_u32_children_v(
                    name@,
                    *v,
                ));
            }
        },
    }
}

} // verus!
